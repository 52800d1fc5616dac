//! The DXF document as a row of group records, and the row as text.
//!
//! A record is a group code and a value. The text form of a record is the
//! code right-justified in three columns, a line feed, the value, and a
//! line feed.

use vstd::prelude::*;
use crate::binary64::{is_fixed_text, Arithmetic, Binary64, ONE_BITS, ZERO_BITS};
use crate::dxf::{
    b64, dxf_views, kind_text, DxfBlockView, DxfDocument, DxfDocumentView, DxfEntity,
    DxfEntityView, DxfLayer, DxfLayerView, Style,
};
use crate::text::{
    digit_char, escape_text, escape_unicode, hex_digit, hex_text, lex_less, lex_lt, owned,
    push_code, push_signed_decimal, right3, same_text, signed_decimal_text,
};

verus! {

/// What a group holds.
#[derive(Debug, Clone, PartialEq)]
pub enum Value {
    Text(String),
    Integer(i32),
    Real(Binary64),
}

/// One group: a code and a value.
#[derive(Debug, Clone, PartialEq)]
pub struct Record {
    pub code: i32,
    pub value: Value,
}

pub enum ValueView {
    Text(Seq<char>),
    Integer(i32),
    Real(Binary64),
}

pub struct RecordView {
    pub code: i32,
    pub value: ValueView,
}

impl View for Value {
    type V = ValueView;

    open spec fn view(&self) -> ValueView {
        match self {
            Value::Text(s) => ValueView::Text(s@),
            Value::Integer(v) => ValueView::Integer(*v),
            Value::Real(x) => ValueView::Real(*x),
        }
    }
}

impl View for Record {
    type V = RecordView;

    open spec fn view(&self) -> RecordView {
        RecordView { code: self.code, value: self.value@ }
    }
}

/// The views of a row of records.
pub open spec fn record_views(records: Seq<Record>) -> Seq<RecordView> {
    Seq::new(records.len(), |i: int| records[i]@)
}

/// A group that holds a text.
pub open spec fn text(code: i32, value: Seq<char>) -> RecordView {
    RecordView { code, value: ValueView::Text(value) }
}

/// A group that holds an integer.
pub open spec fn integer(code: i32, value: i32) -> RecordView {
    RecordView { code, value: ValueView::Integer(value) }
}

/// A group that holds a number.
pub open spec fn number(code: i32, value: Binary64) -> RecordView {
    RecordView { code, value: ValueView::Real(value) }
}

/// The group that gives a record its handle: code 5 and the handle's
/// number in upper-case hexadecimal.
pub open spec fn handle(h: nat) -> RecordView {
    text(5, hex_text(h))
}

/// The number that a row of hexadecimal digits stands for, the first
/// digit counting most.
pub open spec fn digits_value(d: Seq<u8>) -> nat
    decreases d.len(),
{
    if d.len() == 0 {
        0
    } else {
        16 * digits_value(d.drop_last()) + d.last() as nat
    }
}

/// A row of hexadecimal digits without a leading zero.
pub open spec fn canonical(d: Seq<u8>) -> bool {
    &&& d.len() >= 1
    &&& d[0] != 0
    &&& forall|i: int| 0 <= i < d.len() ==> d[i] < 16
}

proof fn lemma_canonical_positive(d: Seq<u8>)
    requires
        canonical(d),
    ensures
        digits_value(d) >= 1,
    decreases d.len(),
{
    if d.len() > 1 {
        let front = d.drop_last();
        assert(front[0] == d[0]);
        lemma_canonical_positive(front);
    } else {
        assert(d.drop_last().len() == 0);
        assert(digits_value(d.drop_last()) == 0);
        assert(d.last() == d[0]);
    }
}

/// The digits of a canonical row spell its value in hexadecimal.
proof fn lemma_digits_text(d: Seq<u8>)
    requires
        canonical(d),
    ensures
        hex_text(digits_value(d)) == Seq::new(d.len(), |i: int| hex_digit(d[i] as int)),
    decreases d.len(),
{
    let want = Seq::new(d.len(), |i: int| hex_digit(d[i] as int));
    if d.len() == 1 {
        assert(d.drop_last().len() == 0);
        assert(digits_value(d.drop_last()) == 0);
        assert(d.last() == d[0]);
        assert(digits_value(d) == d[0] as nat);
        assert(hex_text(digits_value(d)) =~= want);
    } else {
        let front = d.drop_last();
        assert(front[0] == d[0]);
        lemma_canonical_positive(front);
        lemma_digits_text(front);
        let v = digits_value(d);
        assert(v == 16 * digits_value(front) + d.last() as nat);
        assert(v / 16 == digits_value(front));
        assert(v % 16 == d.last() as nat);
        assert(hex_text(v) =~= want);
    }
}

/// The number of the next handle: a counter that starts at 1, never
/// overflows, and is read as upper-case hexadecimal text.
pub struct HandleCounter {
    digits: Vec<u8>,
}

impl HandleCounter {
    #[verifier::type_invariant]
    spec fn well_formed(self) -> bool {
        canonical(self.digits@)
    }

    /// The number that the counter stands at.
    pub closed spec fn value(&self) -> nat {
        digits_value(self.digits@)
    }

    pub fn new() -> (r: HandleCounter)
        ensures
            r.value() == 1,
    {
        let mut digits: Vec<u8> = Vec::new();
        digits.push(1);
        proof {
            assert(digits@.drop_last().len() == 0);
            assert(digits_value(digits@.drop_last()) == 0);
            assert(digits@.last() == 1);
        }
        HandleCounter { digits }
    }

    /// The counter's number as text.
    fn text(&self) -> (r: String)
        ensures
            r@ == hex_text(self.value()),
    {
        proof {
            use_type_invariant(self);
            lemma_digits_text(self.digits@);
        }
        let mut out = String::new();
        let mut i: usize = 0;
        while i < self.digits.len()
            invariant
                i <= self.digits.len(),
                canonical(self.digits@),
                out@ =~= Seq::new(i as nat, |k: int| hex_digit(self.digits@[k] as int)),
            decreases self.digits.len() - i,
        {
            out.push(digit_char(self.digits[i]));
            i += 1;
        }
        out
    }

    /// Hands out the counter's number as text and moves the counter on.
    pub fn take(&mut self) -> (r: String)
        ensures
            r@ == hex_text(old(self).value()),
            final(self).value() == old(self).value() + 1,
    {
        let text = self.text();
        proof {
            use_type_invariant(&*self);
        }
        let mut digits: Vec<u8> = Vec::new();
        let mut i: usize = 0;
        while i < self.digits.len()
            invariant
                i <= self.digits.len(),
                digits@ =~= self.digits@.take(i as int),
            decreases self.digits.len() - i,
        {
            digits.push(self.digits[i]);
            i += 1;
        }
        assert(self.digits@.take(self.digits@.len() as int) =~= self.digits@);
        advance(&mut digits);
        self.digits = digits;
        text
    }
}

/// Adds one to a row of digits.
fn advance(digits: &mut Vec<u8>)
    requires
        old(digits)@.len() >= 1,
        forall|i: int| 0 <= i < old(digits)@.len() ==> old(digits)@[i] < 16,
    ensures
        digits_value(final(digits)@) == digits_value(old(digits)@) + 1,
        forall|i: int| 0 <= i < final(digits)@.len() ==> final(digits)@[i] < 16,
        final(digits)@.len() >= 1,
        final(digits)@.len() >= old(digits)@.len(),
        old(digits)@[0] != 0 ==> final(digits)@[0] != 0,
        final(digits)@.len() > old(digits)@.len() ==> final(digits)@[0] != 0,
    decreases old(digits)@.len(),
{
    let ghost before = digits@;
    let last = digits.pop().unwrap();
    let ghost front = digits@;
    assert(front =~= before.drop_last());
    if last < 15 {
        digits.push(last + 1);
        proof {
            assert(digits@.drop_last() =~= front);
            assert(digits@[0] == if before.len() == 1 {
                (last + 1) as u8
            } else {
                before[0]
            });
        }
    } else {
        if digits.len() == 0 {
            digits.push(1);
            proof {
                assert(digits@.drop_last().len() == 0);
                assert(digits_value(digits@.drop_last()) == 0);
                assert(digits_value(digits@) == 1);
                assert(digits_value(front) == 0);
            }
        } else {
            assert(front[0] == before[0]);
            advance(digits);
        }
        let ghost carried = digits@;
        digits.push(0);
        proof {
            assert(digits@.drop_last() =~= carried);
            assert(digits@[0] == carried[0]);
        }
    }
}

/// A name in the table of block records, with the handle it was given.
#[derive(Debug, Clone, PartialEq)]
pub struct BlockRecord {
    pub name: String,
    pub handle: String,
}

pub struct BlockRecordView {
    pub name: Seq<char>,
    pub handle: Seq<char>,
}

impl View for BlockRecord {
    type V = BlockRecordView;

    open spec fn view(&self) -> BlockRecordView {
        BlockRecordView { name: self.name@, handle: self.handle@ }
    }
}

/// The views of a row of block records.
pub open spec fn block_record_views(records: Seq<BlockRecord>) -> Seq<BlockRecordView> {
    Seq::new(records.len(), |i: int| records[i]@)
}

/// What an owner handle is in contracts.
pub open spec fn owner_view(owner: Option<&str>) -> Option<Seq<char>> {
    match owner {
        Some(s) => Some(s@),
        None => None,
    }
}

/// The group that names the owner, if there is one.
pub open spec fn owner_part(owner: Option<Seq<char>>) -> Seq<RecordView> {
    match owner {
        Some(o) => seq![text(330, o)],
        None => Seq::empty(),
    }
}

/// The groups that every entity starts with: its kind, its handle, its
/// owner, its layer with non-ASCII characters escaped, its colour and its
/// line type.
pub open spec fn entity_head(kind: Seq<char>, style: Style, h: nat, owner: Option<Seq<char>>) -> Seq<
    RecordView,
> {
    seq![text(0, kind), handle(h)] + owner_part(owner) + seq![
        text(8, escape_text(style.layer)),
        integer(62, style.color),
        text(6, style.line_type),
    ]
}

/// The groups that describe the geometry of an entity.
pub open spec fn entity_body(e: DxfEntityView) -> Seq<RecordView> {
    let zero = b64(ZERO_BITS);
    match e {
        DxfEntityView::Line { x1, y1, x2, y2, .. } => seq![
            number(10, x1),
            number(20, y1),
            number(30, zero),
            number(11, x2),
            number(21, y2),
            number(31, zero),
        ],
        DxfEntityView::Circle { center_x, center_y, radius, .. } => seq![
            number(10, center_x),
            number(20, center_y),
            number(30, zero),
            number(40, radius),
        ],
        DxfEntityView::Arc { center_x, center_y, radius, start_angle, end_angle, .. } => seq![
            number(10, center_x),
            number(20, center_y),
            number(30, zero),
            number(40, radius),
            number(50, start_angle),
            number(51, end_angle),
        ],
        DxfEntityView::Ellipse {
            center_x,
            center_y,
            major_axis_x,
            major_axis_y,
            minor_ratio,
            start_param,
            end_param,
            ..
        } => seq![
            number(10, center_x),
            number(20, center_y),
            number(30, zero),
            number(11, major_axis_x),
            number(21, major_axis_y),
            number(31, zero),
            number(40, minor_ratio),
            number(41, start_param),
            number(42, end_param),
        ],
        DxfEntityView::Point { x, y, .. } => seq![number(10, x), number(20, y), number(30, zero)],
        DxfEntityView::Text { x, y, height, rotation, content, text_style, .. } => seq![
            number(10, x),
            number(20, y),
            number(30, zero),
            number(40, height),
            text(1, escape_text(content)),
            number(50, rotation),
            text(7, escape_text(text_style)),
        ],
        DxfEntityView::Solid { x1, y1, x2, y2, x3, y3, x4, y4, .. } => seq![
            number(10, x1),
            number(20, y1),
            number(30, zero),
            number(11, x2),
            number(21, y2),
            number(31, zero),
            number(12, x3),
            number(22, y3),
            number(32, zero),
            number(13, x4),
            number(23, y4),
            number(33, zero),
        ],
        DxfEntityView::Insert { block_name, x, y, scale_x, scale_y, rotation, .. } => seq![
            text(2, escape_text(block_name)),
            number(10, x),
            number(20, y),
            number(30, zero),
            number(41, scale_x),
            number(42, scale_y),
            number(43, b64(ONE_BITS)),
            number(50, rotation),
        ],
    }
}

/// The groups of an entity that is given handle `h`.
pub open spec fn entity_records(e: DxfEntityView, h: nat, owner: Option<Seq<char>>) -> Seq<
    RecordView,
> {
    entity_head(kind_text(e.kind()), e.style(), h, owner) + entity_body(e)
}

/// The groups of a row of entities that are given the handles from `h`
/// on, one each.
pub open spec fn entities_records(es: Seq<DxfEntityView>, h: nat, owner: Option<Seq<char>>) -> Seq<
    RecordView,
>
    decreases es.len(),
{
    if es.len() == 0 {
        Seq::empty()
    } else {
        entities_records(es.drop_last(), h, owner) + entity_records(
            es.last(),
            (h + es.len() - 1) as nat,
            owner,
        )
    }
}

/// The groups of a block definition that is given the handles from `h`
/// on: one for its beginning, one for each entity, one for its end.
pub open spec fn block_definition_records(
    name: Seq<char>,
    base_x: Binary64,
    base_y: Binary64,
    entities: Seq<DxfEntityView>,
    h: nat,
    owner: Option<Seq<char>>,
) -> Seq<RecordView> {
    seq![text(0, "BLOCK"@), handle(h)] + owner_part(owner) + seq![
        text(100, "AcDbEntity"@),
        text(8, "0"@),
        text(100, "AcDbBlockBegin"@),
        text(2, escape_text(name)),
        integer(70, 0),
        number(10, base_x),
        number(20, base_y),
        number(30, b64(ZERO_BITS)),
        text(3, escape_text(name)),
        text(1, ""@),
    ] + entities_records(entities, h + 1, owner) + seq![
        text(0, "ENDBLK"@),
        handle(h + 1 + entities.len()),
    ] + owner_part(owner) + seq![
        text(100, "AcDbEntity"@),
        text(8, "0"@),
        text(100, "AcDbBlockEnd"@),
    ]
}

/// Writes a DXF document as a row of group records.
pub struct AsciiDxfWriter {
    pub records: Vec<Record>,
    pub handles: HandleCounter,
    pub block_records: Vec<BlockRecord>,
}

impl AsciiDxfWriter {
    /// The records written so far.
    pub open spec fn log(&self) -> Seq<RecordView> {
        record_views(self.records@)
    }

    /// The number of the next handle.
    pub open spec fn next(&self) -> nat {
        self.handles.value()
    }

    /// The table of block records.
    pub open spec fn table(&self) -> Seq<BlockRecordView> {
        block_record_views(self.block_records@)
    }

    /// Whether `self` is `before` with `added` written and `used` handles
    /// given out.
    pub open spec fn extends(&self, before: &AsciiDxfWriter, added: Seq<RecordView>, used: nat) -> bool {
        &&& self.log() == before.log() + added
        &&& self.next() == before.next() + used
        &&& self.table() == before.table()
    }

    pub fn new() -> (r: AsciiDxfWriter)
        ensures
            r.log() == Seq::<RecordView>::empty(),
            r.next() == 1,
            r.table() == Seq::<BlockRecordView>::empty(),
    {
        let r = AsciiDxfWriter {
            records: Vec::new(),
            handles: HandleCounter::new(),
            block_records: Vec::new(),
        };
        assert(r.log() =~= Seq::<RecordView>::empty());
        assert(r.table() =~= Seq::<BlockRecordView>::empty());
        r
    }

    /// The records written.
    pub fn finish(self) -> (r: Vec<Record>)
        ensures
            record_views(r@) == self.log(),
    {
        self.records
    }

    fn emit(&mut self, code: i32, value: Value)
        ensures
            final(self).extends(old(self), seq![RecordView { code, value: value@ }], 0),
    {
        let ghost shown = RecordView { code, value: value@ };
        self.records.push(Record { code, value });
        assert(self.log() =~= old(self).log() + seq![shown]);
    }

    pub fn group_str(&mut self, code: i32, value: &str)
        ensures
            final(self).extends(old(self), seq![text(code, value@)], 0),
    {
        self.emit(code, Value::Text(owned(value)));
    }

    pub fn group_i32(&mut self, code: i32, value: i32)
        ensures
            final(self).extends(old(self), seq![integer(code, value)], 0),
    {
        self.emit(code, Value::Integer(value));
    }

    pub fn group_f64(&mut self, code: i32, value: Binary64)
        ensures
            final(self).extends(old(self), seq![number(code, value)], 0),
    {
        self.emit(code, Value::Real(value));
    }

    pub fn alloc_handle(&mut self) -> (r: String)
        ensures
            r@ == hex_text(old(self).next()),
            final(self).extends(old(self), Seq::empty(), 1),
    {
        let r = self.handles.take();
        assert(self.log() + Seq::<RecordView>::empty() =~= self.log());
        r
    }

    pub fn write_handle(&mut self)
        ensures
            final(self).extends(old(self), seq![handle(old(self).next())], 1),
    {
        let h = self.alloc_handle();
        self.emit(5, Value::Text(h));
    }

    pub fn section_start(&mut self, name: &str)
        ensures
            final(self).extends(old(self), seq![text(0, "SECTION"@), text(2, name@)], 0),
    {
        self.group_str(0, "SECTION");
        self.group_str(2, name);
        assert(self.log() =~= old(self).log() + seq![text(0, "SECTION"@), text(2, name@)]);
    }

    pub fn section_end(&mut self)
        ensures
            final(self).extends(old(self), seq![text(0, "ENDSEC"@)], 0),
    {
        self.group_str(0, "ENDSEC");
    }

    fn write_owner(&mut self, owner_handle: Option<&str>)
        ensures
            final(self).extends(old(self), owner_part(owner_view(owner_handle)), 0),
    {
        match owner_handle {
            Some(owner) => {
                self.group_str(330, owner);
            },
            None => {
                assert(self.log() + Seq::<RecordView>::empty() =~= self.log());
            },
        }
    }

    pub fn entity_header(
        &mut self,
        entity_type: &str,
        layer: &str,
        color: i32,
        line_type: &str,
        owner_handle: Option<&str>,
    )
        ensures
            final(self).extends(
                old(self),
                entity_head(
                    entity_type@,
                    Style { layer: layer@, color, line_type: line_type@ },
                    old(self).next(),
                    owner_view(owner_handle),
                ),
                1,
            ),
    {
        self.group_str(0, entity_type);
        self.write_handle();
        self.write_owner(owner_handle);
        let escaped = escape_unicode(layer);
        self.group_str(8, escaped.as_str());
        self.group_i32(62, color);
        self.group_str(6, line_type);
        assert(self.log() =~= old(self).log() + entity_head(
            entity_type@,
            Style { layer: layer@, color, line_type: line_type@ },
            old(self).next(),
            owner_view(owner_handle),
        ));
    }

    /// Writes the groups that follow the head of an entity.
    fn write_entity_body(&mut self, entity: &DxfEntity)
        ensures
            final(self).extends(old(self), entity_body(entity@), 0),
    {
        let zero = Binary64 { bits: ZERO_BITS };
        match entity {
            DxfEntity::Line(v) => {
                self.group_f64(10, v.x1);
                self.group_f64(20, v.y1);
                self.group_f64(30, zero);
                self.group_f64(11, v.x2);
                self.group_f64(21, v.y2);
                self.group_f64(31, zero);
            },
            DxfEntity::Circle(v) => {
                self.group_f64(10, v.center_x);
                self.group_f64(20, v.center_y);
                self.group_f64(30, zero);
                self.group_f64(40, v.radius);
            },
            DxfEntity::Arc(v) => {
                self.group_f64(10, v.center_x);
                self.group_f64(20, v.center_y);
                self.group_f64(30, zero);
                self.group_f64(40, v.radius);
                self.group_f64(50, v.start_angle);
                self.group_f64(51, v.end_angle);
            },
            DxfEntity::Ellipse(v) => {
                self.group_f64(10, v.center_x);
                self.group_f64(20, v.center_y);
                self.group_f64(30, zero);
                self.group_f64(11, v.major_axis_x);
                self.group_f64(21, v.major_axis_y);
                self.group_f64(31, zero);
                self.group_f64(40, v.minor_ratio);
                self.group_f64(41, v.start_param);
                self.group_f64(42, v.end_param);
            },
            DxfEntity::Point(v) => {
                self.group_f64(10, v.x);
                self.group_f64(20, v.y);
                self.group_f64(30, zero);
            },
            DxfEntity::Text(v) => {
                self.group_f64(10, v.x);
                self.group_f64(20, v.y);
                self.group_f64(30, zero);
                self.group_f64(40, v.height);
                let content = escape_unicode(v.content.as_str());
                self.group_str(1, content.as_str());
                self.group_f64(50, v.rotation);
                let style = escape_unicode(v.style.as_str());
                self.group_str(7, style.as_str());
            },
            DxfEntity::Solid(v) => {
                self.group_f64(10, v.x1);
                self.group_f64(20, v.y1);
                self.group_f64(30, zero);
                self.group_f64(11, v.x2);
                self.group_f64(21, v.y2);
                self.group_f64(31, zero);
                self.group_f64(12, v.x3);
                self.group_f64(22, v.y3);
                self.group_f64(32, zero);
                self.group_f64(13, v.x4);
                self.group_f64(23, v.y4);
                self.group_f64(33, zero);
            },
            DxfEntity::Insert(v) => {
                let name = escape_unicode(v.block_name.as_str());
                self.group_str(2, name.as_str());
                self.group_f64(10, v.x);
                self.group_f64(20, v.y);
                self.group_f64(30, zero);
                self.group_f64(41, v.scale_x);
                self.group_f64(42, v.scale_y);
                self.group_f64(43, Binary64 { bits: ONE_BITS });
                self.group_f64(50, v.rotation);
            },
        }
        assert(self.log() =~= old(self).log() + entity_body(entity@));
    }

    pub fn write_entity(&mut self, entity: &DxfEntity, owner_handle: Option<&str>)
        ensures
            final(self).extends(
                old(self),
                entity_records(entity@, old(self).next(), owner_view(owner_handle)),
                1,
            ),
    {
        match entity {
            DxfEntity::Line(v) => {
                self.entity_header(
                    "LINE",
                    v.layer.as_str(),
                    v.color,
                    v.line_type.as_str(),
                    owner_handle,
                );
            },
            DxfEntity::Circle(v) => {
                self.entity_header(
                    "CIRCLE",
                    v.layer.as_str(),
                    v.color,
                    v.line_type.as_str(),
                    owner_handle,
                );
            },
            DxfEntity::Arc(v) => {
                self.entity_header("ARC", v.layer.as_str(), v.color, v.line_type.as_str(), owner_handle);
            },
            DxfEntity::Ellipse(v) => {
                self.entity_header(
                    "ELLIPSE",
                    v.layer.as_str(),
                    v.color,
                    v.line_type.as_str(),
                    owner_handle,
                );
            },
            DxfEntity::Point(v) => {
                self.entity_header(
                    "POINT",
                    v.layer.as_str(),
                    v.color,
                    v.line_type.as_str(),
                    owner_handle,
                );
            },
            DxfEntity::Text(v) => {
                self.entity_header(
                    "TEXT",
                    v.layer.as_str(),
                    v.color,
                    v.line_type.as_str(),
                    owner_handle,
                );
            },
            DxfEntity::Solid(v) => {
                self.entity_header(
                    "SOLID",
                    v.layer.as_str(),
                    v.color,
                    v.line_type.as_str(),
                    owner_handle,
                );
            },
            DxfEntity::Insert(v) => {
                self.entity_header(
                    "INSERT",
                    v.layer.as_str(),
                    v.color,
                    v.line_type.as_str(),
                    owner_handle,
                );
            },
        }
        let ghost head = entity_head(
            kind_text(entity@.kind()),
            entity@.style(),
            old(self).next(),
            owner_view(owner_handle),
        );
        assert(self.log() == old(self).log() + head);
        self.write_entity_body(entity);
        assert((old(self).log() + head) + entity_body(entity@) =~= old(self).log() + (head
            + entity_body(entity@)));
    }

    /// Writes a row of entities.
    pub fn write_entity_row(&mut self, entities: &[DxfEntity], owner_handle: Option<&str>)
        ensures
            final(self).extends(
                old(self),
                entities_records(dxf_views(entities@), old(self).next(), owner_view(owner_handle)),
                entities@.len(),
            ),
    {
        let ghost h = self.next();
        let ghost owner = owner_view(owner_handle);
        let mut i: usize = 0;
        assert(self.log() + Seq::<RecordView>::empty() =~= self.log());
        while i < entities.len()
            invariant
                i <= entities.len(),
                h == old(self).next(),
                owner == owner_view(owner_handle),
                self.extends(old(self), entities_records(dxf_views(entities@.take(i as int)), h, owner), i as nat),
            decreases entities.len() - i,
        {
            let ghost before = entities_records(dxf_views(entities@.take(i as int)), h, owner);
            self.write_entity(&entities[i], owner_handle);
            proof {
                let now = dxf_views(entities@.take(i + 1));
                assert(now.drop_last() =~= dxf_views(entities@.take(i as int)));
                assert(now.last() == entities@[i as int]@);
                let one = entity_records(entities@[i as int]@, (h + i) as nat, owner);
                assert((old(self).log() + before) + one =~= old(self).log() + (before + one));
            }
            i += 1;
        }
        assert(entities@.take(entities@.len() as int) =~= entities@);
    }

    pub fn write_block_definition(
        &mut self,
        name: &str,
        base_x: Binary64,
        base_y: Binary64,
        entities: &[DxfEntity],
        owner_handle: Option<&str>,
    )
        ensures
            final(self).extends(
                old(self),
                block_definition_records(
                    name@,
                    base_x,
                    base_y,
                    dxf_views(entities@),
                    old(self).next(),
                    owner_view(owner_handle),
                ),
                2 + entities@.len(),
            ),
    {
        let ghost h = self.next();
        let ghost owner = owner_view(owner_handle);
        let ghost log0 = self.log();
        let block_name = escape_unicode(name);
        self.group_str(0, "BLOCK");
        self.write_handle();
        let ghost log1 = self.log();
        self.write_owner(owner_handle);
        let ghost log2 = self.log();
        self.group_str(100, "AcDbEntity");
        self.group_str(8, "0");
        self.group_str(100, "AcDbBlockBegin");
        self.group_str(2, block_name.as_str());
        self.group_i32(70, 0);
        self.group_f64(10, base_x);
        self.group_f64(20, base_y);
        self.group_f64(30, Binary64 { bits: ZERO_BITS });
        self.group_str(3, block_name.as_str());
        self.group_str(1, "");
        let ghost log3 = self.log();
        self.write_entity_row(entities, owner_handle);
        let ghost log4 = self.log();
        self.group_str(0, "ENDBLK");
        self.write_handle();
        let ghost log5 = self.log();
        self.write_owner(owner_handle);
        let ghost log6 = self.log();
        self.group_str(100, "AcDbEntity");
        self.group_str(8, "0");
        self.group_str(100, "AcDbBlockEnd");
        proof {
            let a = seq![text(0, "BLOCK"@), handle(h)];
            let b = owner_part(owner);
            let c = seq![
                text(100, "AcDbEntity"@),
                text(8, "0"@),
                text(100, "AcDbBlockBegin"@),
                text(2, escape_text(name@)),
                integer(70, 0),
                number(10, base_x),
                number(20, base_y),
                number(30, b64(ZERO_BITS)),
                text(3, escape_text(name@)),
                text(1, ""@),
            ];
            let d = entities_records(dxf_views(entities@), h + 1, owner);
            let e = seq![text(0, "ENDBLK"@), handle(h + 1 + entities@.len())];
            let f = seq![text(100, "AcDbEntity"@), text(8, "0"@), text(100, "AcDbBlockEnd"@)];
            assert(log1 =~= log0 + a);
            assert(log2 == log1 + b);
            assert(log3 =~= log2 + c);
            assert(log4 == log3 + d);
            assert(log5 =~= log4 + e);
            assert(log6 == log5 + b);
            assert(self.log() =~= log6 + f);
            assert(self.log() =~= log0 + (a + b + c + d + e + b + f));
        }
    }
}

/// A count as the 32-bit integer that the output holds: the count itself
/// where it fits, and what its low 32 bits stand for where it does not.
pub open spec fn wrap32(n: int) -> i32 {
    let m = n % 0x1_0000_0000;
    if m < 0x8000_0000 {
        m as i32
    } else {
        (m - 0x1_0000_0000) as i32
    }
}

fn wrap_count(n: usize, extra: u8) -> (r: i32)
    ensures
        r == wrap32(n + extra),
{
    let m: u64 = ((n as u128 + extra as u128) % 0x1_0000_0000) as u64;
    if m < 0x8000_0000 {
        m as i32
    } else {
        (m as i64 - 0x1_0000_0000) as i32
    }
}

/// The place of the first text from `from` on that does not come before
/// `name`, or the length of the row.
pub open spec fn first_not_less(sorted: Seq<Seq<char>>, name: Seq<char>, from: int) -> int
    decreases sorted.len() - from,
{
    if from >= sorted.len() {
        sorted.len() as int
    } else if !lex_lt(sorted[from], name) {
        from
    } else {
        first_not_less(sorted, name, from + 1)
    }
}

/// An ordered row of texts with `name` put in its place, unless it is
/// there.
pub open spec fn with_name(sorted: Seq<Seq<char>>, name: Seq<char>) -> Seq<Seq<char>> {
    let i = first_not_less(sorted, name, 0);
    if 0 <= i < sorted.len() && sorted[i] == name {
        sorted
    } else if 0 <= i <= sorted.len() {
        sorted.insert(i, name)
    } else {
        sorted
    }
}

/// `start` with the texts of `input` put in, one after the other.
pub open spec fn with_names(start: Seq<Seq<char>>, input: Seq<Seq<char>>) -> Seq<Seq<char>>
    decreases input.len(),
{
    if input.len() == 0 {
        start
    } else {
        with_name(with_names(start, input.drop_last()), input.last())
    }
}

/// The line types of a row of entities.
pub open spec fn entity_line_types(es: Seq<DxfEntityView>) -> Seq<Seq<char>> {
    Seq::new(es.len(), |i: int| es[i].style().line_type)
}

/// The line types of a row of layers.
pub open spec fn layer_line_types(layers: Seq<DxfLayerView>) -> Seq<Seq<char>> {
    Seq::new(layers.len(), |i: int| layers[i].line_type)
}

/// `start` with the line types of the entities of each block put in.
pub open spec fn with_block_line_types(start: Seq<Seq<char>>, blocks: Seq<DxfBlockView>) -> Seq<
    Seq<char>,
>
    decreases blocks.len(),
{
    if blocks.len() == 0 {
        start
    } else {
        with_names(
            with_block_line_types(start, blocks.drop_last()),
            entity_line_types(blocks.last().entities),
        )
    }
}

/// The line types of a document, each once, in the order of their code
/// points: those of its layers, of its entities and of the entities of
/// its blocks, and the three that every document has.
pub open spec fn line_types_of(doc: DxfDocumentView) -> Seq<Seq<char>> {
    with_names(
        with_block_line_types(
            with_names(
                with_names(Seq::empty(), layer_line_types(doc.layers)),
                entity_line_types(doc.entities),
            ),
            doc.blocks,
        ),
        seq!["BYLAYER"@, "BYBLOCK"@, "CONTINUOUS"@],
    )
}

/// Puts a text into an ordered row, unless it is there.
fn insert_name(v: &mut Vec<String>, name: &str)
    ensures
        crate::dxf::text_views(final(v)@) == with_name(crate::dxf::text_views(old(v)@), name@),
{
    let ghost sorted = crate::dxf::text_views(v@);
    let mut i: usize = 0;
    while i < v.len() && lex_less(v[i].as_str(), name)
        invariant
            i <= v.len(),
            v@ == old(v)@,
            sorted == crate::dxf::text_views(v@),
            first_not_less(sorted, name@, 0) == first_not_less(sorted, name@, i as int),
        decreases v.len() - i,
    {
        i += 1;
    }
    if i < v.len() && same_text(v[i].as_str(), name) {
        return ;
    }
    v.insert(i, owned(name));
    assert(crate::dxf::text_views(v@) =~= sorted.insert(i as int, name@));
}

fn entity_line_type(entity: &DxfEntity) -> (r: &str)
    ensures
        r@ == entity@.style().line_type,
{
    match entity {
        DxfEntity::Line(v) => v.line_type.as_str(),
        DxfEntity::Circle(v) => v.line_type.as_str(),
        DxfEntity::Arc(v) => v.line_type.as_str(),
        DxfEntity::Ellipse(v) => v.line_type.as_str(),
        DxfEntity::Point(v) => v.line_type.as_str(),
        DxfEntity::Text(v) => v.line_type.as_str(),
        DxfEntity::Solid(v) => v.line_type.as_str(),
        DxfEntity::Insert(v) => v.line_type.as_str(),
    }
}

fn insert_entity_line_types(v: &mut Vec<String>, entities: &[DxfEntity])
    ensures
        crate::dxf::text_views(final(v)@) == with_names(
            crate::dxf::text_views(old(v)@),
            entity_line_types(dxf_views(entities@)),
        ),
{
    let ghost start = crate::dxf::text_views(v@);
    let mut i: usize = 0;
    while i < entities.len()
        invariant
            i <= entities.len(),
            start == crate::dxf::text_views(old(v)@),
            crate::dxf::text_views(v@) == with_names(
                start,
                entity_line_types(dxf_views(entities@.take(i as int))),
            ),
        decreases entities.len() - i,
    {
        insert_name(v, entity_line_type(&entities[i]));
        proof {
            let now = entity_line_types(dxf_views(entities@.take(i + 1)));
            let was = entity_line_types(dxf_views(entities@.take(i as int)));
            assert(now.drop_last() =~= was);
            assert(now.last() == entities@[i as int]@.style().line_type);
        }
        i += 1;
    }
    assert(entities@.take(entities@.len() as int) =~= entities@);
}

/// The line types that a document names, ordered, each once.
pub fn collect_line_types(doc: &DxfDocument) -> (r: Vec<String>)
    ensures
        crate::dxf::text_views(r@) == line_types_of(doc@),
{
    let mut out: Vec<String> = Vec::new();
    assert(crate::dxf::text_views(out@) =~= Seq::<Seq<char>>::empty());
    let mut i: usize = 0;
    while i < doc.layers.len()
        invariant
            i <= doc.layers.len(),
            crate::dxf::text_views(out@) == with_names(
                Seq::empty(),
                layer_line_types(crate::dxf::layer_views(doc.layers@.take(i as int))),
            ),
        decreases doc.layers.len() - i,
    {
        insert_name(&mut out, doc.layers[i].line_type.as_str());
        proof {
            let now = layer_line_types(crate::dxf::layer_views(doc.layers@.take(i + 1)));
            let was = layer_line_types(crate::dxf::layer_views(doc.layers@.take(i as int)));
            assert(now.drop_last() =~= was);
            assert(now.last() == doc.layers@[i as int]@.line_type);
        }
        i += 1;
    }
    assert(doc.layers@.take(doc.layers@.len() as int) =~= doc.layers@);
    insert_entity_line_types(&mut out, doc.entities.as_slice());
    let ghost base = crate::dxf::text_views(out@);
    let mut b: usize = 0;
    while b < doc.blocks.len()
        invariant
            b <= doc.blocks.len(),
            crate::dxf::text_views(out@) == with_block_line_types(
                base,
                crate::dxf::block_views(doc.blocks@.take(b as int)),
            ),
        decreases doc.blocks.len() - b,
    {
        insert_entity_line_types(&mut out, doc.blocks[b].entities.as_slice());
        proof {
            let now = crate::dxf::block_views(doc.blocks@.take(b + 1));
            let was = crate::dxf::block_views(doc.blocks@.take(b as int));
            assert(now.drop_last() =~= was);
            assert(now.last() == doc.blocks@[b as int]@);
        }
        b += 1;
    }
    assert(doc.blocks@.take(doc.blocks@.len() as int) =~= doc.blocks@);
    let ghost mid = crate::dxf::text_views(out@);
    insert_name(&mut out, "BYLAYER");
    insert_name(&mut out, "BYBLOCK");
    insert_name(&mut out, "CONTINUOUS");
    proof {
        let three = seq!["BYLAYER"@, "BYBLOCK"@, "CONTINUOUS"@];
        let two = three.drop_last();
        let one = two.drop_last();
        assert(two =~= seq!["BYLAYER"@, "BYBLOCK"@]);
        assert(one =~= seq!["BYLAYER"@]);
        assert(one.drop_last() =~= Seq::<Seq<char>>::empty());
        assert(with_names(mid, one.drop_last()) == mid);
        assert(with_names(mid, one) == with_name(mid, "BYLAYER"@));
        assert(with_names(mid, two) == with_name(with_names(mid, one), "BYBLOCK"@));
        assert(with_names(mid, three) == with_name(with_names(mid, two), "CONTINUOUS"@));
    }
    out
}

/// A short description of a line type; empty for one that is not known.
pub open spec fn ltype_description(name: Seq<char>) -> Seq<char> {
    if name == "CONTINUOUS"@ {
        "Solid line"@
    } else if name == "DASHED"@ {
        "Dashed line"@
    } else if name == "DASHED2"@ {
        "Dashed line x2"@
    } else if name == "DASHDOT"@ {
        "Dash dot"@
    } else if name == "DOT"@ {
        "Dotted line"@
    } else {
        ""@
    }
}

/// The pattern of a line type: the lengths of its dashes, and of its gaps
/// as negative numbers. `DASHED` is 0.6, -0.3; `DASHED2` is 1.2, -0.6;
/// `DASHDOT` is 0.6, -0.2, 0.1, -0.2; `DOT` is 0.1, -0.1; any other has
/// none.
pub open spec fn ltype_pattern(name: Seq<char>) -> Seq<Binary64> {
    if name == "DASHED"@ {
        seq![b64(0x3FE3_3333_3333_3333), b64(0xBFD3_3333_3333_3333)]
    } else if name == "DASHED2"@ {
        seq![b64(0x3FF3_3333_3333_3333), b64(0xBFE3_3333_3333_3333)]
    } else if name == "DASHDOT"@ {
        seq![
            b64(0x3FE3_3333_3333_3333),
            b64(0xBFC9_9999_9999_999A),
            b64(0x3FB9_9999_9999_999A),
            b64(0xBFC9_9999_9999_999A),
        ]
    } else if name == "DOT"@ {
        seq![b64(0x3FB9_9999_9999_999A), b64(0xBFB9_9999_9999_999A)]
    } else {
        Seq::empty()
    }
}

/// The length of a pattern: the sum of its dashes and gaps, all taken as
/// positive and added from left to right. That is 0.9 for `DASHED`, 1.8
/// for `DASHED2`, 1.1 for `DASHDOT` and 0.2 for `DOT`, each as near as the
/// additions come to it, and 0 without a pattern.
pub open spec fn ltype_length(name: Seq<char>) -> Binary64 {
    if name == "DASHED"@ {
        b64(0x3FEC_CCCC_CCCC_CCCC)
    } else if name == "DASHED2"@ {
        b64(0x3FFC_CCCC_CCCC_CCCC)
    } else if name == "DASHDOT"@ {
        b64(0x3FF1_9999_9999_999A)
    } else if name == "DOT"@ {
        b64(0x3FC9_9999_9999_999A)
    } else {
        b64(ZERO_BITS)
    }
}

/// The groups of one line type that is given handle `h`.
pub open spec fn ltype_records(name: Seq<char>, h: nat) -> Seq<RecordView> {
    let pattern = ltype_pattern(name);
    seq![
        text(0, "LTYPE"@),
        handle(h),
        text(2, name),
        integer(70, 0),
        text(3, ltype_description(name)),
        integer(72, 65),
        integer(73, pattern.len() as i32),
        number(40, ltype_length(name)),
    ] + Seq::new(pattern.len(), |i: int| number(49, pattern[i]))
}

/// The groups of a row of line types that are given the handles from `h`
/// on.
pub open spec fn ltype_entries(names: Seq<Seq<char>>, h: nat) -> Seq<RecordView>
    decreases names.len(),
{
    if names.len() == 0 {
        Seq::empty()
    } else {
        ltype_entries(names.drop_last(), h) + ltype_records(
            names.last(),
            (h + names.len() - 1) as nat,
        )
    }
}

/// The table of line types.
pub open spec fn ltype_table_records(names: Seq<Seq<char>>, h: nat) -> Seq<RecordView> {
    seq![
        text(0, "TABLE"@),
        text(2, "LTYPE"@),
        handle(h),
        integer(70, wrap32(names.len() as int)),
    ] + ltype_entries(names, h + 1) + seq![text(0, "ENDTAB"@)]
}

/// The place of the first layer from `from` on whose name does not come
/// before `name`, or the length of the row.
pub open spec fn first_layer_not_less(sorted: Seq<DxfLayerView>, name: Seq<char>, from: int) -> int
    decreases sorted.len() - from,
{
    if from >= sorted.len() {
        sorted.len() as int
    } else if !lex_lt(sorted[from].name, name) {
        from
    } else {
        first_layer_not_less(sorted, name, from + 1)
    }
}

/// A row of layers ordered by name with `layer` put in its place, unless a
/// layer of that name is there.
pub open spec fn with_layer(sorted: Seq<DxfLayerView>, layer: DxfLayerView) -> Seq<DxfLayerView> {
    let i = first_layer_not_less(sorted, layer.name, 0);
    if 0 <= i < sorted.len() && sorted[i].name == layer.name {
        sorted
    } else if 0 <= i <= sorted.len() {
        sorted.insert(i, layer)
    } else {
        sorted
    }
}

/// The layers in the order of their names; of layers with one name the
/// first.
pub open spec fn sorted_layers(layers: Seq<DxfLayerView>) -> Seq<DxfLayerView>
    decreases layers.len(),
{
    if layers.len() == 0 {
        Seq::empty()
    } else {
        with_layer(sorted_layers(layers.drop_last()), layers.last())
    }
}

fn copy_layer(layer: &DxfLayer) -> (r: DxfLayer)
    ensures
        r@ == layer@,
{
    DxfLayer {
        name: layer.name.clone(),
        color: layer.color,
        line_type: layer.line_type.clone(),
        frozen: layer.frozen,
        locked: layer.locked,
    }
}

/// The layers of a document in the order of their names, each name once.
pub fn collect_layers(doc: &DxfDocument) -> (r: Vec<DxfLayer>)
    ensures
        crate::dxf::layer_views(r@) == sorted_layers(doc@.layers),
{
    let mut out: Vec<DxfLayer> = Vec::new();
    assert(crate::dxf::layer_views(out@) =~= Seq::<DxfLayerView>::empty());
    let mut k: usize = 0;
    while k < doc.layers.len()
        invariant
            k <= doc.layers.len(),
            crate::dxf::layer_views(out@) == sorted_layers(
                crate::dxf::layer_views(doc.layers@.take(k as int)),
            ),
        decreases doc.layers.len() - k,
    {
        let layer = &doc.layers[k];
        let ghost sorted = crate::dxf::layer_views(out@);
        proof {
            let now = crate::dxf::layer_views(doc.layers@.take(k + 1));
            let was = crate::dxf::layer_views(doc.layers@.take(k as int));
            assert(now.drop_last() =~= was);
            assert(now.last() == layer@);
        }
        let mut i: usize = 0;
        while i < out.len() && lex_less(out[i].name.as_str(), layer.name.as_str())
            invariant
                i <= out.len(),
                sorted == crate::dxf::layer_views(out@),
                first_layer_not_less(sorted, layer@.name, 0) == first_layer_not_less(
                    sorted,
                    layer@.name,
                    i as int,
                ),
            decreases out.len() - i,
        {
            i += 1;
        }
        if i < out.len() && same_text(out[i].name.as_str(), layer.name.as_str()) {
        } else {
            out.insert(i, copy_layer(layer));
            assert(crate::dxf::layer_views(out@) =~= sorted.insert(i as int, layer@));
        }
        k += 1;
    }
    assert(doc.layers@.take(doc.layers@.len() as int) =~= doc.layers@);
    out
}

/// The flags of a layer: 1 where it is frozen, and 4 more where it is
/// locked.
pub open spec fn layer_flags(layer: DxfLayerView) -> i32 {
    if layer.frozen && layer.locked {
        5
    } else if layer.locked {
        4
    } else if layer.frozen {
        1
    } else {
        0
    }
}

/// The groups of one layer that is given handle `h`.
pub open spec fn layer_records(layer: DxfLayerView, h: nat) -> Seq<RecordView> {
    seq![
        text(0, "LAYER"@),
        handle(h),
        text(2, escape_text(layer.name)),
        integer(70, layer_flags(layer)),
        integer(62, layer.color),
        text(6, layer.line_type),
    ]
}

/// The groups of a row of layers that are given the handles from `h` on.
pub open spec fn layer_entries(layers: Seq<DxfLayerView>, h: nat) -> Seq<RecordView>
    decreases layers.len(),
{
    if layers.len() == 0 {
        Seq::empty()
    } else {
        layer_entries(layers.drop_last(), h) + layer_records(
            layers.last(),
            (h + layers.len() - 1) as nat,
        )
    }
}

/// The table of layers: layer `0`, then the given layers.
pub open spec fn layer_table_records(layers: Seq<DxfLayerView>, h: nat) -> Seq<RecordView> {
    seq![
        text(0, "TABLE"@),
        text(2, "LAYER"@),
        handle(h),
        integer(70, wrap32(layers.len() as int + 1)),
        text(0, "LAYER"@),
        handle(h + 1),
        text(2, "0"@),
        integer(70, 0),
        integer(62, 7),
        text(6, "CONTINUOUS"@),
    ] + layer_entries(layers, h + 2) + seq![text(0, "ENDTAB"@)]
}

/// The table of text styles: the one style `STANDARD`.
pub open spec fn style_table_records(h: nat) -> Seq<RecordView> {
    seq![
        text(0, "TABLE"@),
        text(2, "STYLE"@),
        handle(h),
        integer(70, 1),
        text(0, "STYLE"@),
        handle(h + 1),
        text(2, "STANDARD"@),
        integer(70, 0),
        number(40, b64(ZERO_BITS)),
        number(41, b64(ONE_BITS)),
        number(50, b64(ZERO_BITS)),
        integer(71, 0),
        number(42, b64(crate::binary64::TWO_AND_HALF_BITS)),
        text(3, "txt"@),
        text(4, ""@),
        text(0, "ENDTAB"@),
    ]
}

/// The groups of one block record.
pub open spec fn block_record_records(record: BlockRecordView) -> Seq<RecordView> {
    seq![
        text(0, "BLOCK_RECORD"@),
        text(5, record.handle),
        text(330, "0"@),
        text(100, "AcDbSymbolTableRecord"@),
        text(100, "AcDbBlockTableRecord"@),
        text(2, escape_text(record.name)),
    ]
}

/// The groups of a row of block records.
pub open spec fn block_record_entries(table: Seq<BlockRecordView>) -> Seq<RecordView>
    decreases table.len(),
{
    if table.len() == 0 {
        Seq::empty()
    } else {
        block_record_entries(table.drop_last()) + block_record_records(table.last())
    }
}

/// The table of block records.
pub open spec fn block_record_table_records(table: Seq<BlockRecordView>, h: nat) -> Seq<
    RecordView,
> {
    seq![
        text(0, "TABLE"@),
        text(2, "BLOCK_RECORD"@),
        handle(h),
        integer(70, wrap32(table.len() as int)),
    ] + block_record_entries(table) + seq![text(0, "ENDTAB"@)]
}

/// The place of the first record from `from` on that has the given name.
pub open spec fn first_named(table: Seq<BlockRecordView>, name: Seq<char>, from: int) -> Option<int>
    decreases table.len() - from,
{
    if from >= table.len() {
        None
    } else if table[from].name == name {
        Some(from)
    } else {
        first_named(table, name, from + 1)
    }
}

/// The handle under which a name stands in the table.
pub open spec fn handle_of(table: Seq<BlockRecordView>, name: Seq<char>) -> Option<Seq<char>> {
    match first_named(table, name, 0) {
        Some(i) => Some(table[i].handle),
        None => None,
    }
}

/// The table with `name` added under the next handle, unless it is there.
/// The handles of a table are the numbers from 1 on.
pub open spec fn with_block(table: Seq<BlockRecordView>, name: Seq<char>) -> Seq<BlockRecordView> {
    if first_named(table, name, 0) is Some {
        table
    } else {
        table.push(BlockRecordView { name, handle: hex_text(table.len() + 1) })
    }
}

/// The table with the names of the blocks added.
pub open spec fn with_blocks(table: Seq<BlockRecordView>, blocks: Seq<DxfBlockView>) -> Seq<
    BlockRecordView,
>
    decreases blocks.len(),
{
    if blocks.len() == 0 {
        table
    } else {
        with_block(with_blocks(table, blocks.drop_last()), blocks.last().name)
    }
}

/// The table of block records of a document: model space, paper space,
/// then the blocks in their order, each name once.
pub open spec fn block_table_of(blocks: Seq<DxfBlockView>) -> Seq<BlockRecordView> {
    with_blocks(with_block(with_block(Seq::empty(), "*Model_Space"@), "*Paper_Space"@), blocks)
}

/// How many handles the definitions of a row of blocks take: two each,
/// and one for each entity.
pub open spec fn block_handles(blocks: Seq<DxfBlockView>) -> nat
    decreases blocks.len(),
{
    if blocks.len() == 0 {
        0
    } else {
        block_handles(blocks.drop_last()) + 2 + blocks.last().entities.len()
    }
}

/// The definitions of a row of blocks, given the handles from `h` on.
pub open spec fn block_rows(blocks: Seq<DxfBlockView>, table: Seq<BlockRecordView>, h: nat) -> Seq<
    RecordView,
>
    decreases blocks.len(),
{
    if blocks.len() == 0 {
        Seq::empty()
    } else {
        block_rows(blocks.drop_last(), table, h) + block_definition_records(
            blocks.last().name,
            blocks.last().base_x,
            blocks.last().base_y,
            blocks.last().entities,
            h + block_handles(blocks.drop_last()),
            handle_of(table, blocks.last().name),
        )
    }
}

/// The section that starts every document.
pub open spec fn header_records() -> Seq<RecordView> {
    seq![
        text(0, "SECTION"@),
        text(2, "HEADER"@),
        text(9, "$ACADVER"@),
        text(1, "AC1015"@),
        text(9, "$DWGCODEPAGE"@),
        text(3, "ANSI_1252"@),
        text(9, "$MEASUREMENT"@),
        integer(70, 1),
        text(9, "$TEXTSTYLE"@),
        text(7, "STANDARD"@),
        text(9, "$CLAYER"@),
        text(8, "0"@),
        text(9, "$CELTYPE"@),
        text(6, "BYLAYER"@),
        text(9, "$CECOLOR"@),
        integer(62, 256),
        text(0, "ENDSEC"@),
    ]
}

/// The section of tables: line types, layers, text styles, block records.
pub open spec fn tables_records(
    names: Seq<Seq<char>>,
    layers: Seq<DxfLayerView>,
    table: Seq<BlockRecordView>,
    h: nat,
) -> Seq<RecordView> {
    seq![text(0, "SECTION"@), text(2, "TABLES"@)] + ltype_table_records(names, h)
        + layer_table_records(layers, h + 1 + names.len()) + style_table_records(
        h + 3 + names.len() + layers.len(),
    ) + block_record_table_records(table, h + 5 + names.len() + layers.len()) + seq![
        text(0, "ENDSEC"@),
    ]
}

/// The section of blocks: model space, paper space, then the blocks.
pub open spec fn blocks_records(blocks: Seq<DxfBlockView>, table: Seq<BlockRecordView>, h: nat) -> Seq<
    RecordView,
> {
    seq![text(0, "SECTION"@), text(2, "BLOCKS"@)] + block_definition_records(
        "*Model_Space"@,
        b64(ZERO_BITS),
        b64(ZERO_BITS),
        Seq::empty(),
        h,
        handle_of(table, "*Model_Space"@),
    ) + block_definition_records(
        "*Paper_Space"@,
        b64(ZERO_BITS),
        b64(ZERO_BITS),
        Seq::empty(),
        h + 2,
        handle_of(table, "*Paper_Space"@),
    ) + block_rows(blocks, table, h + 4) + seq![text(0, "ENDSEC"@)]
}

/// The section of entities, all owned by model space.
pub open spec fn entities_section_records(
    entities: Seq<DxfEntityView>,
    table: Seq<BlockRecordView>,
    h: nat,
) -> Seq<RecordView> {
    seq![text(0, "SECTION"@), text(2, "ENTITIES"@)] + entities_records(
        entities,
        h,
        handle_of(table, "*Model_Space"@),
    ) + seq![text(0, "ENDSEC"@)]
}

/// The section of objects: the root dictionary.
pub open spec fn objects_records(h: nat) -> Seq<RecordView> {
    seq![
        text(0, "SECTION"@),
        text(2, "OBJECTS"@),
        text(0, "DICTIONARY"@),
        handle(h),
        text(330, "0"@),
        text(100, "AcDbDictionary"@),
        integer(281, 1),
        text(0, "ENDSEC"@),
    ]
}

/// The number of the first handle that the tables take: the block records
/// have the ones before.
pub open spec fn tables_start(doc: DxfDocumentView) -> nat {
    block_table_of(doc.blocks).len() + 1
}

/// The number of the first handle that the section of blocks takes.
pub open spec fn blocks_start(doc: DxfDocumentView) -> nat {
    tables_start(doc) + 6 + line_types_of(doc).len() + sorted_layers(doc.layers).len()
}

/// The number of the first handle that the section of entities takes.
pub open spec fn entities_start(doc: DxfDocumentView) -> nat {
    blocks_start(doc) + 4 + block_handles(doc.blocks)
}

/// The records of a document: the sections HEADER, TABLES, BLOCKS,
/// ENTITIES and OBJECTS, and the end mark.
pub open spec fn document_records_of(doc: DxfDocumentView) -> Seq<RecordView> {
    let table = block_table_of(doc.blocks);
    header_records() + tables_records(
        line_types_of(doc),
        sorted_layers(doc.layers),
        table,
        tables_start(doc),
    ) + blocks_records(doc.blocks, table, blocks_start(doc)) + entities_section_records(
        doc.entities,
        table,
        entities_start(doc),
    ) + objects_records(entities_start(doc) + doc.entities.len()) + seq![text(0, "EOF"@)]
}

impl AsciiDxfWriter {
    pub fn write_header(&mut self)
        ensures
            final(self).extends(old(self), header_records(), 0),
    {
        self.section_start("HEADER");
        self.group_str(9, "$ACADVER");
        self.group_str(1, "AC1015");
        self.group_str(9, "$DWGCODEPAGE");
        self.group_str(3, "ANSI_1252");
        self.group_str(9, "$MEASUREMENT");
        self.group_i32(70, 1);
        self.group_str(9, "$TEXTSTYLE");
        self.group_str(7, "STANDARD");
        self.group_str(9, "$CLAYER");
        self.group_str(8, "0");
        self.group_str(9, "$CELTYPE");
        self.group_str(6, "BYLAYER");
        self.group_str(9, "$CECOLOR");
        self.group_i32(62, 256);
        self.section_end();
        assert(self.log() =~= old(self).log() + header_records());
    }

    /// Writes one line type.
    fn write_ltype(&mut self, name: &str)
        ensures
            final(self).extends(old(self), ltype_records(name@, old(self).next()), 1),
    {
        let ghost h = self.next();
        let dashed = same_text(name, "DASHED");
        let dashed2 = same_text(name, "DASHED2");
        let dashdot = same_text(name, "DASHDOT");
        let dot = same_text(name, "DOT");
        let description = if same_text(name, "CONTINUOUS") {
            "Solid line"
        } else if dashed {
            "Dashed line"
        } else if dashed2 {
            "Dashed line x2"
        } else if dashdot {
            "Dash dot"
        } else if dot {
            "Dotted line"
        } else {
            ""
        };
        proof {
            reveal_strlit("CONTINUOUS");
            reveal_strlit("DASHED");
            reveal_strlit("DASHED2");
            reveal_strlit("DASHDOT");
            reveal_strlit("DOT");
        }
        let mut pattern: Vec<Binary64> = Vec::new();
        let length;
        if dashed {
            pattern.push(Binary64 { bits: 0x3FE3_3333_3333_3333 });
            pattern.push(Binary64 { bits: 0xBFD3_3333_3333_3333 });
            length = Binary64 { bits: 0x3FEC_CCCC_CCCC_CCCC };
        } else if dashed2 {
            pattern.push(Binary64 { bits: 0x3FF3_3333_3333_3333 });
            pattern.push(Binary64 { bits: 0xBFE3_3333_3333_3333 });
            length = Binary64 { bits: 0x3FFC_CCCC_CCCC_CCCC };
        } else if dashdot {
            pattern.push(Binary64 { bits: 0x3FE3_3333_3333_3333 });
            pattern.push(Binary64 { bits: 0xBFC9_9999_9999_999A });
            pattern.push(Binary64 { bits: 0x3FB9_9999_9999_999A });
            pattern.push(Binary64 { bits: 0xBFC9_9999_9999_999A });
            length = Binary64 { bits: 0x3FF1_9999_9999_999A };
        } else if dot {
            pattern.push(Binary64 { bits: 0x3FB9_9999_9999_999A });
            pattern.push(Binary64 { bits: 0xBFB9_9999_9999_999A });
            length = Binary64 { bits: 0x3FC9_9999_9999_999A };
        } else {
            length = Binary64 { bits: ZERO_BITS };
        }
        assert(pattern@ =~= ltype_pattern(name@));
        assert(length == ltype_length(name@));
        self.group_str(0, "LTYPE");
        self.write_handle();
        self.group_str(2, name);
        self.group_i32(70, 0);
        self.group_str(3, description);
        self.group_i32(72, 65);
        self.group_i32(73, pattern.len() as i32);
        self.group_f64(40, length);
        let ghost head = self.log();
        assert(head =~= old(self).log() + seq![
            text(0, "LTYPE"@),
            handle(h),
            text(2, name@),
            integer(70, 0),
            text(3, ltype_description(name@)),
            integer(72, 65),
            integer(73, pattern@.len() as i32),
            number(40, ltype_length(name@)),
        ]);
        let mut i: usize = 0;
        while i < pattern.len()
            invariant
                i <= pattern.len(),
                pattern@.len() <= 4,
                self.next() == h + 1,
                self.table() == old(self).table(),
                self.log() =~= head + Seq::new(i as nat, |k: int| number(49, pattern@[k])),
            decreases pattern.len() - i,
        {
            self.group_f64(49, pattern[i]);
            i += 1;
        }
        assert(self.log() =~= old(self).log() + ltype_records(name@, h));
    }

    pub fn write_ltype_table(&mut self, doc: &DxfDocument)
        ensures
            final(self).extends(
                old(self),
                ltype_table_records(line_types_of(doc@), old(self).next()),
                1 + line_types_of(doc@).len(),
            ),
    {
        let ghost h = self.next();
        let ghost log0 = self.log();
        let line_types = collect_line_types(doc);
        let ghost names = crate::dxf::text_views(line_types@);
        self.group_str(0, "TABLE");
        self.group_str(2, "LTYPE");
        self.write_handle();
        self.group_i32(70, wrap_count(line_types.len(), 0));
        let ghost log1 = self.log();
        let mut i: usize = 0;
        assert(log1 + Seq::<RecordView>::empty() =~= log1);
        while i < line_types.len()
            invariant
                i <= line_types.len(),
                names == crate::dxf::text_views(line_types@),
                self.next() == h + 1 + i,
                self.table() == old(self).table(),
                self.log() == log1 + ltype_entries(names.take(i as int), h + 1),
            decreases line_types.len() - i,
        {
            let ghost before = ltype_entries(names.take(i as int), h + 1);
            self.write_ltype(line_types[i].as_str());
            proof {
                let now = names.take(i + 1);
                assert(now.drop_last() =~= names.take(i as int));
                assert(now.last() == line_types@[i as int]@);
                let one = ltype_records(now.last(), (h + 1 + i) as nat);
                assert((log1 + before) + one =~= log1 + (before + one));
            }
            i += 1;
        }
        assert(names.take(names.len() as int) =~= names);
        self.group_str(0, "ENDTAB");
        proof {
            let a = seq![
                text(0, "TABLE"@),
                text(2, "LTYPE"@),
                handle(h),
                integer(70, wrap32(names.len() as int)),
            ];
            assert(log1 =~= log0 + a);
            assert(self.log() =~= log0 + (a + ltype_entries(names, h + 1) + seq![
                text(0, "ENDTAB"@),
            ]));
        }
    }

    /// Writes one layer.
    fn write_layer(&mut self, layer: &DxfLayer)
        ensures
            final(self).extends(old(self), layer_records(layer@, old(self).next()), 1),
    {
        let mut flags: i32 = 0;
        if layer.frozen {
            flags = flags + 1;
        }
        if layer.locked {
            flags = flags + 4;
        }
        self.group_str(0, "LAYER");
        self.write_handle();
        let name = escape_unicode(layer.name.as_str());
        self.group_str(2, name.as_str());
        self.group_i32(70, flags);
        self.group_i32(62, layer.color);
        self.group_str(6, layer.line_type.as_str());
        assert(self.log() =~= old(self).log() + layer_records(layer@, old(self).next()));
    }

    pub fn write_layer_table(&mut self, doc: &DxfDocument)
        ensures
            final(self).extends(
                old(self),
                layer_table_records(sorted_layers(doc@.layers), old(self).next()),
                2 + sorted_layers(doc@.layers).len(),
            ),
    {
        let ghost h = self.next();
        let ghost log0 = self.log();
        let layers = collect_layers(doc);
        let ghost ls = crate::dxf::layer_views(layers@);
        self.group_str(0, "TABLE");
        self.group_str(2, "LAYER");
        self.write_handle();
        self.group_i32(70, wrap_count(layers.len(), 1));
        self.group_str(0, "LAYER");
        self.write_handle();
        self.group_str(2, "0");
        self.group_i32(70, 0);
        self.group_i32(62, 7);
        self.group_str(6, "CONTINUOUS");
        let ghost log1 = self.log();
        let mut i: usize = 0;
        assert(log1 + Seq::<RecordView>::empty() =~= log1);
        while i < layers.len()
            invariant
                i <= layers.len(),
                ls == crate::dxf::layer_views(layers@),
                self.next() == h + 2 + i,
                self.table() == old(self).table(),
                self.log() == log1 + layer_entries(ls.take(i as int), h + 2),
            decreases layers.len() - i,
        {
            let ghost before = layer_entries(ls.take(i as int), h + 2);
            self.write_layer(&layers[i]);
            proof {
                let now = ls.take(i + 1);
                assert(now.drop_last() =~= ls.take(i as int));
                assert(now.last() == layers@[i as int]@);
                let one = layer_records(now.last(), (h + 2 + i) as nat);
                assert((log1 + before) + one =~= log1 + (before + one));
            }
            i += 1;
        }
        assert(ls.take(ls.len() as int) =~= ls);
        self.group_str(0, "ENDTAB");
        proof {
            let a = seq![
                text(0, "TABLE"@),
                text(2, "LAYER"@),
                handle(h),
                integer(70, wrap32(ls.len() as int + 1)),
                text(0, "LAYER"@),
                handle(h + 1),
                text(2, "0"@),
                integer(70, 0),
                integer(62, 7),
                text(6, "CONTINUOUS"@),
            ];
            assert(log1 =~= log0 + a);
            assert(self.log() =~= log0 + (a + layer_entries(ls, h + 2) + seq![text(0, "ENDTAB"@)]));
        }
    }

    pub fn write_style_table(&mut self)
        ensures
            final(self).extends(old(self), style_table_records(old(self).next()), 2),
    {
        self.group_str(0, "TABLE");
        self.group_str(2, "STYLE");
        self.write_handle();
        self.group_i32(70, 1);
        self.group_str(0, "STYLE");
        self.write_handle();
        self.group_str(2, "STANDARD");
        self.group_i32(70, 0);
        self.group_f64(40, Binary64 { bits: ZERO_BITS });
        self.group_f64(41, Binary64 { bits: ONE_BITS });
        self.group_f64(50, Binary64 { bits: ZERO_BITS });
        self.group_i32(71, 0);
        self.group_f64(42, Binary64 { bits: crate::binary64::TWO_AND_HALF_BITS });
        self.group_str(3, "txt");
        self.group_str(4, "");
        self.group_str(0, "ENDTAB");
        assert(self.log() =~= old(self).log() + style_table_records(old(self).next()));
    }

    pub fn write_block_record_table(&mut self)
        ensures
            final(self).extends(
                old(self),
                block_record_table_records(old(self).table(), old(self).next()),
                1,
            ),
    {
        let ghost h = self.next();
        let ghost log0 = self.log();
        let ghost table = self.table();
        self.group_str(0, "TABLE");
        self.group_str(2, "BLOCK_RECORD");
        self.write_handle();
        self.group_i32(70, wrap_count(self.block_records.len(), 0));
        let ghost log1 = self.log();
        let mut i: usize = 0;
        assert(log1 + Seq::<RecordView>::empty() =~= log1);
        while i < self.block_records.len()
            invariant
                i <= self.block_records.len(),
                table == self.table(),
                table == old(self).table(),
                table.len() == self.block_records@.len(),
                self.next() == h + 1,
                self.log() == log1 + block_record_entries(table.take(i as int)),
            decreases self.block_records.len() - i,
        {
            let ghost before = block_record_entries(table.take(i as int));
            let ghost was = self.log();
            let handle = self.block_records[i].handle.clone();
            let name = escape_unicode(self.block_records[i].name.as_str());
            self.group_str(0, "BLOCK_RECORD");
            self.group_str(5, handle.as_str());
            self.group_str(330, "0");
            self.group_str(100, "AcDbSymbolTableRecord");
            self.group_str(100, "AcDbBlockTableRecord");
            self.group_str(2, name.as_str());
            proof {
                let now = table.take(i + 1);
                assert(now.drop_last() =~= table.take(i as int));
                assert(now.last() == table[i as int]);
                let one = block_record_records(now.last());
                assert(self.table().len() == table.len());
                assert(self.log() =~= was + one);
                assert((log1 + before) + one =~= log1 + (before + one));
            }
            i += 1;
        }
        assert(table.take(table.len() as int) =~= table);
        self.group_str(0, "ENDTAB");
        proof {
            let a = seq![
                text(0, "TABLE"@),
                text(2, "BLOCK_RECORD"@),
                handle(h),
                integer(70, wrap32(table.len() as int)),
            ];
            assert(log1 =~= log0 + a);
            assert(self.log() =~= log0 + (a + block_record_entries(table) + seq![
                text(0, "ENDTAB"@),
            ]));
        }
    }

    pub fn write_tables(&mut self, doc: &DxfDocument)
        ensures
            final(self).extends(
                old(self),
                tables_records(
                    line_types_of(doc@),
                    sorted_layers(doc@.layers),
                    old(self).table(),
                    old(self).next(),
                ),
                6 + line_types_of(doc@).len() + sorted_layers(doc@.layers).len(),
            ),
    {
        let ghost h = self.next();
        let ghost log0 = self.log();
        let ghost names = line_types_of(doc@);
        let ghost ls = sorted_layers(doc@.layers);
        let ghost table = self.table();
        self.section_start("TABLES");
        let ghost log1 = self.log();
        self.write_ltype_table(doc);
        let ghost log2 = self.log();
        self.write_layer_table(doc);
        let ghost log3 = self.log();
        self.write_style_table();
        let ghost log4 = self.log();
        self.write_block_record_table();
        let ghost log5 = self.log();
        self.section_end();
        proof {
            let a = seq![text(0, "SECTION"@), text(2, "TABLES"@)];
            let b = ltype_table_records(names, h);
            let c = layer_table_records(ls, h + 1 + names.len());
            let d = style_table_records(h + 3 + names.len() + ls.len());
            let e = block_record_table_records(table, h + 5 + names.len() + ls.len());
            let f = seq![text(0, "ENDSEC"@)];
            assert(log1 == log0 + a);
            assert(log2 == log1 + b);
            assert(log3 == log2 + c);
            assert(log4 == log3 + d);
            assert(log5 == log4 + e);
            assert(self.log() == log5 + f);
            assert(self.log() =~= log0 + (a + b + c + d + e + f));
        }
    }

    pub(crate) fn register_block_record(&mut self, name: &str)
        requires
            old(self).next() == old(self).table().len() + 1,
        ensures
            final(self).table() == with_block(old(self).table(), name@),
            final(self).next() == final(self).table().len() + 1,
            final(self).log() == old(self).log(),
    {
        let ghost table = self.table();
        let mut i: usize = 0;
        while i < self.block_records.len()
            invariant
                i <= self.block_records.len(),
                table == self.table(),
                table == old(self).table(),
                self.log() == old(self).log(),
                self.next() == old(self).next(),
                old(self).next() == old(self).table().len() + 1,
                first_named(table, name@, 0) == first_named(table, name@, i as int),
            decreases self.block_records.len() - i,
        {
            if same_text(self.block_records[i].name.as_str(), name) {
                return ;
            }
            i += 1;
        }
        let handle = self.alloc_handle();
        let ghost shown = BlockRecordView { name: name@, handle: handle@ };
        self.block_records.push(BlockRecord { name: owned(name), handle });
        assert(self.table() =~= table.push(shown));
    }

    pub fn block_record_handle(&self, name: &str) -> (r: Option<&str>)
        ensures
            owner_view(r) == handle_of(self.table(), name@),
    {
        let ghost table = self.table();
        let mut i: usize = 0;
        while i < self.block_records.len()
            invariant
                i <= self.block_records.len(),
                table == self.table(),
                first_named(table, name@, 0) == first_named(table, name@, i as int),
            decreases self.block_records.len() - i,
        {
            if same_text(self.block_records[i].name.as_str(), name) {
                return Some(self.block_records[i].handle.as_str());
            }
            i += 1;
        }
        None
    }

    /// Fills the table of block records, unless it is filled.
    pub(crate) fn ensure_block_record_table(&mut self, doc: &DxfDocument)
        requires
            old(self).table().len() == 0,
            old(self).next() == 1,
        ensures
            final(self).table() == block_table_of(doc@.blocks),
            final(self).next() == final(self).table().len() + 1,
            final(self).log() == old(self).log(),
    {
        self.register_block_record("*Model_Space");
        self.register_block_record("*Paper_Space");
        let ghost base = self.table();
        assert(old(self).table() =~= Seq::<BlockRecordView>::empty());
        let mut i: usize = 0;
        while i < doc.blocks.len()
            invariant
                i <= doc.blocks.len(),
                self.log() == old(self).log(),
                self.next() == self.table().len() + 1,
                self.table() == with_blocks(base, crate::dxf::block_views(doc.blocks@.take(i as int))),
            decreases doc.blocks.len() - i,
        {
            self.register_block_record(doc.blocks[i].name.as_str());
            proof {
                let now = crate::dxf::block_views(doc.blocks@.take(i + 1));
                let was = crate::dxf::block_views(doc.blocks@.take(i as int));
                assert(now.drop_last() =~= was);
                assert(now.last() == doc.blocks@[i as int]@);
            }
            i += 1;
        }
        assert(doc.blocks@.take(doc.blocks@.len() as int) =~= doc.blocks@);
    }

    pub fn write_blocks(&mut self, doc: &DxfDocument)
        ensures
            final(self).extends(
                old(self),
                blocks_records(doc@.blocks, old(self).table(), old(self).next()),
                4 + block_handles(doc@.blocks),
            ),
    {
        let ghost h = self.next();
        let ghost log0 = self.log();
        let ghost table = self.table();
        let ghost blocks = doc@.blocks;
        let none: Vec<DxfEntity> = Vec::new();
        assert(dxf_views(none@) =~= Seq::<DxfEntityView>::empty());
        let zero = Binary64 { bits: ZERO_BITS };
        self.section_start("BLOCKS");
        let ghost log1 = self.log();
        let model_owner = match self.block_record_handle("*Model_Space") {
            Some(s) => Some(owned(s)),
            None => None,
        };
        let model = match &model_owner {
            Some(s) => Some(s.as_str()),
            None => None,
        };
        self.write_block_definition("*Model_Space", zero, zero, none.as_slice(), model);
        let ghost log2 = self.log();
        let paper_owner = match self.block_record_handle("*Paper_Space") {
            Some(s) => Some(owned(s)),
            None => None,
        };
        let paper = match &paper_owner {
            Some(s) => Some(s.as_str()),
            None => None,
        };
        self.write_block_definition("*Paper_Space", zero, zero, none.as_slice(), paper);
        let ghost log3 = self.log();
        let mut i: usize = 0;
        assert(log3 + Seq::<RecordView>::empty() =~= log3);
        assert(crate::dxf::block_views(doc.blocks@) =~= blocks);
        while i < doc.blocks.len()
            invariant
                i <= doc.blocks.len(),
                blocks == crate::dxf::block_views(doc.blocks@),
                table == self.table(),
                self.next() == h + 4 + block_handles(blocks.take(i as int)),
                self.log() == log3 + block_rows(blocks.take(i as int), table, h + 4),
            decreases doc.blocks.len() - i,
        {
            let ghost before = block_rows(blocks.take(i as int), table, h + 4);
            let block = &doc.blocks[i];
            let owner_text = match self.block_record_handle(block.name.as_str()) {
                Some(s) => Some(owned(s)),
                None => None,
            };
            let owner = match &owner_text {
                Some(s) => Some(s.as_str()),
                None => None,
            };
            self.write_block_definition(
                block.name.as_str(),
                block.base_x,
                block.base_y,
                block.entities.as_slice(),
                owner,
            );
            proof {
                let now = blocks.take(i + 1);
                assert(now.drop_last() =~= blocks.take(i as int));
                assert(now.last() == block@);
                let one = block_definition_records(
                    block@.name,
                    block@.base_x,
                    block@.base_y,
                    block@.entities,
                    h + 4 + block_handles(blocks.take(i as int)),
                    handle_of(table, block@.name),
                );
                assert((log3 + before) + one =~= log3 + (before + one));
            }
            i += 1;
        }
        assert(blocks.take(blocks.len() as int) =~= blocks);
        let ghost log4 = self.log();
        self.section_end();
        proof {
            let a = seq![text(0, "SECTION"@), text(2, "BLOCKS"@)];
            let b = block_definition_records(
                "*Model_Space"@,
                b64(ZERO_BITS),
                b64(ZERO_BITS),
                Seq::empty(),
                h,
                handle_of(table, "*Model_Space"@),
            );
            let c = block_definition_records(
                "*Paper_Space"@,
                b64(ZERO_BITS),
                b64(ZERO_BITS),
                Seq::empty(),
                h + 2,
                handle_of(table, "*Paper_Space"@),
            );
            let d = block_rows(blocks, table, h + 4);
            let e = seq![text(0, "ENDSEC"@)];
            assert(log1 == log0 + a);
            assert(log2 == log1 + b);
            assert(log3 == log2 + c);
            assert(log4 == log3 + d);
            assert(self.log() == log4 + e);
            assert(self.log() =~= log0 + (a + b + c + d + e));
        }
    }

    pub fn write_entities(&mut self, doc: &DxfDocument)
        ensures
            final(self).extends(
                old(self),
                entities_section_records(doc@.entities, old(self).table(), old(self).next()),
                doc@.entities.len(),
            ),
    {
        let ghost log0 = self.log();
        let ghost h = self.next();
        let ghost table = self.table();
        self.section_start("ENTITIES");
        let ghost log1 = self.log();
        let owner_text = match self.block_record_handle("*Model_Space") {
            Some(s) => Some(owned(s)),
            None => None,
        };
        let owner = match &owner_text {
            Some(s) => Some(s.as_str()),
            None => None,
        };
        self.write_entity_row(doc.entities.as_slice(), owner);
        let ghost log2 = self.log();
        self.section_end();
        proof {
            let a = seq![text(0, "SECTION"@), text(2, "ENTITIES"@)];
            let b = entities_records(doc@.entities, h, handle_of(table, "*Model_Space"@));
            let c = seq![text(0, "ENDSEC"@)];
            assert(log1 == log0 + a);
            assert(log2 == log1 + b);
            assert(self.log() =~= log0 + (a + b + c));
        }
    }

    pub fn write_objects(&mut self)
        ensures
            final(self).extends(old(self), objects_records(old(self).next()), 1),
    {
        self.section_start("OBJECTS");
        self.group_str(0, "DICTIONARY");
        self.write_handle();
        self.group_str(330, "0");
        self.group_str(100, "AcDbDictionary");
        self.group_i32(281, 1);
        self.section_end();
        assert(self.log() =~= old(self).log() + objects_records(old(self).next()));
    }

    /// Writes a whole document with a writer that is new.
    pub(crate) fn write_document(&mut self, doc: &DxfDocument)
        requires
            old(self).log().len() == 0,
            old(self).table().len() == 0,
            old(self).next() == 1,
        ensures
            final(self).log() == document_records_of(doc@),
    {
        self.ensure_block_record_table(doc);
        let ghost table = self.table();
        let ghost log0 = self.log();
        self.write_header();
        let ghost log1 = self.log();
        self.write_tables(doc);
        let ghost log2 = self.log();
        self.write_blocks(doc);
        let ghost log3 = self.log();
        self.write_entities(doc);
        let ghost log4 = self.log();
        self.write_objects();
        let ghost log5 = self.log();
        self.group_str(0, "EOF");
        proof {
            let a = header_records();
            let b = tables_records(
                line_types_of(doc@),
                sorted_layers(doc@.layers),
                table,
                tables_start(doc@),
            );
            let c = blocks_records(doc@.blocks, table, blocks_start(doc@));
            let d = entities_section_records(doc@.entities, table, entities_start(doc@));
            let e = objects_records(entities_start(doc@) + doc@.entities.len());
            let f = seq![text(0, "EOF"@)];
            assert(log0 =~= Seq::<RecordView>::empty());
            assert(log1 == log0 + a);
            assert(log2 == log1 + b);
            assert(log3 == log2 + c);
            assert(log4 == log3 + d);
            assert(log5 == log4 + e);
            assert(self.log() == log5 + f);
            assert(self.log() =~= a + b + c + d + e + f);
        }
    }
}

/// The records of a DXF document.
pub fn document_records(doc: &DxfDocument) -> (r: Vec<Record>)
    ensures
        record_views(r@) == document_records_of(doc@),
{
    let mut writer = AsciiDxfWriter::new();
    writer.write_document(doc);
    writer.finish()
}

/// A group as text: the code right-justified in three columns, a line
/// feed, the value, a line feed.
pub open spec fn group_text(code: i32, value: Seq<char>) -> Seq<char> {
    right3(signed_decimal_text(code as int)) + seq!['\n'] + value + seq!['\n']
}

/// Whether `t` is the text of a value: a text as it is, an integer in
/// decimal, a number as `ops` gives it in fixed notation.
pub open spec fn is_value_text<A: Arithmetic>(ops: &A, v: ValueView, t: Seq<char>) -> bool {
    match v {
        ValueView::Text(s) => t == s,
        ValueView::Integer(i) => t == signed_decimal_text(i as int),
        ValueView::Real(x) => is_fixed_text(ops, x, t),
    }
}

/// The groups of a row of records as one text, each value written as
/// `texts` has it.
pub open spec fn joined(records: Seq<RecordView>, texts: Seq<Seq<char>>) -> Seq<char>
    decreases records.len(),
{
    if records.len() == 0 {
        Seq::empty()
    } else {
        joined(records.drop_last(), texts.drop_last()) + group_text(
            records.last().code,
            texts.last(),
        )
    }
}

/// Whether `texts` has for each record the text of its value, as
/// [`is_value_text`] says.
pub open spec fn texts_fit<A: Arithmetic>(
    ops: &A,
    records: Seq<RecordView>,
    texts: Seq<Seq<char>>,
) -> bool {
    &&& texts.len() == records.len()
    &&& forall|i: int|
        0 <= i < records.len() ==> is_value_text(ops, (#[trigger] records[i]).value, texts[i])
}

/// Whether `out` is the text of a row of records: their groups one after
/// the other, each number written as `ops` gives it in fixed notation.
pub open spec fn is_rendering<A: Arithmetic>(ops: &A, records: Seq<RecordView>, out: Seq<char>) -> bool {
    exists|texts: Seq<Seq<char>>|
        #[trigger] texts_fit(ops, records, texts) && out == joined(records, texts)
}

/// Writes a row of records as text. Numbers are written as `ops` formats
/// them.
pub fn render_records<A: Arithmetic>(records: &[Record], ops: &A) -> (r: String)
    ensures
        is_rendering(ops, record_views(records@), r@),
{
    let ghost views = record_views(records@);
    let mut out = String::new();
    let ghost mut texts: Seq<Seq<char>> = Seq::empty();
    let mut i: usize = 0;
    proof {
        assert(views.take(0) =~= Seq::<RecordView>::empty());
    }
    while i < records.len()
        invariant
            i <= records.len(),
            views == record_views(records@),
            texts_fit(ops, views.take(i as int), texts),
            out@ == joined(views.take(i as int), texts),
        decreases records.len() - i,
    {
        let ghost before = out@;
        let ghost was = texts;
        let record = &records[i];
        push_code(&mut out, record.code);
        out.push('\n');
        let ghost head = out@;
        match &record.value {
            Value::Text(s) => {
                out.append(s.as_str());
            },
            Value::Integer(v) => {
                push_signed_decimal(&mut out, *v);
            },
            Value::Real(x) => {
                let t = ops.format_fixed(*x);
                out.append(t.as_str());
                assert(out@.subrange(head.len() as int, out@.len() as int) =~= t@);
                assert(is_fixed_text(ops, *x, t@));
            },
        }
        let ghost shown = out@.subrange(head.len() as int, out@.len() as int);
        out.push('\n');
        proof {
            texts = was.push(shown);
            let now = views.take(i + 1);
            assert(now.drop_last() =~= views.take(i as int));
            assert(now.last() == record@);
            assert(texts.drop_last() =~= was);
            assert(out@ =~= before + group_text(record.code, shown));
            assert forall|k: int| 0 <= k < now.len() implies is_value_text(
                ops,
                (#[trigger] now[k]).value,
                texts[k],
            ) by {
                if k < i {
                    assert(now[k] == views.take(i as int)[k]);
                    assert(texts[k] == was[k]);
                } else {
                    assert(now[k] == record@);
                    assert(texts[k] == shown);
                    match record@.value {
                        ValueView::Text(s) => {
                            assert(shown =~= s);
                        },
                        ValueView::Integer(v) => {
                            assert(shown =~= signed_decimal_text(v as int));
                        },
                        ValueView::Real(_) => {},
                    }
                }
            }
        }
        i += 1;
    }
    assert(views.take(views.len() as int) =~= views);
    out
}

/// The text with which every document starts.
pub open spec fn opening() -> Seq<char> {
    "  0\nSECTION\n  2\nHEADER\n"@
}

/// The text with which every document ends.
pub open spec fn closing() -> Seq<char> {
    "  0\nEOF\n"@
}

proof fn lemma_joined_prefix(records: Seq<RecordView>, texts: Seq<Seq<char>>, k: int)
    requires
        0 <= k <= records.len(),
        texts.len() == records.len(),
    ensures
        joined(records.take(k), texts.take(k)).is_prefix_of(joined(records, texts)),
    decreases records.len() - k,
{
    if k == records.len() {
        assert(records.take(k) =~= records);
        assert(texts.take(k) =~= texts);
    } else {
        lemma_joined_prefix(records.drop_last(), texts.drop_last(), k);
        assert(records.drop_last().take(k) =~= records.take(k));
        assert(texts.drop_last().take(k) =~= texts.take(k));
        let a = joined(records.take(k), texts.take(k));
        let b = joined(records.drop_last(), texts.drop_last());
        let c = joined(records, texts);
        assert(a.is_prefix_of(b));
        assert(b.is_prefix_of(c));
        assert(a =~= c.subrange(0, a.len() as int)) by {
            assert(a =~= b.subrange(0, a.len() as int));
            assert(b =~= c.subrange(0, b.len() as int));
        }
    }
}

proof fn lemma_opening_groups()
    ensures
        group_text(0, "SECTION"@) + group_text(2, "HEADER"@) == opening(),
        group_text(0, "EOF"@) == closing(),
{
    reveal_strlit("SECTION");
    reveal_strlit("HEADER");
    reveal_strlit("EOF");
    reveal_strlit("  0\nSECTION\n  2\nHEADER\n");
    reveal_strlit("  0\nEOF\n");
    assert(signed_decimal_text(0) =~= seq!['0']);
    assert(signed_decimal_text(2) =~= seq!['2']);
    assert(right3(seq!['0']) =~= seq![' ', ' ', '0']);
    assert(right3(seq!['2']) =~= seq![' ', ' ', '2']);
    assert(group_text(0, "SECTION"@) + group_text(2, "HEADER"@) =~= opening());
    assert(group_text(0, "EOF"@) =~= closing());
}

/// The text of a document starts with the head of the HEADER section and
/// ends with the end mark.
pub proof fn rendering_starts_and_ends<A: Arithmetic>(ops: &A, doc: DxfDocumentView, out: Seq<char>)
    requires
        is_rendering(ops, document_records_of(doc), out),
    ensures
        opening().is_prefix_of(out),
        closing().is_suffix_of(out),
{
    let records = document_records_of(doc);
    let texts = choose|texts: Seq<Seq<char>>| #[trigger]
        texts_fit(ops, records, texts) && out == joined(records, texts);
    let n = records.len() as int;
    assert(records[0] == text(0, "SECTION"@));
    assert(records[1] == text(2, "HEADER"@));
    assert(records[n - 1] == text(0, "EOF"@));
    assert(is_value_text(ops, records[0].value, texts[0]));
    assert(is_value_text(ops, records[1].value, texts[1]));
    assert(is_value_text(ops, records[n - 1].value, texts[n - 1]));
    assert(texts[0] == "SECTION"@);
    assert(texts[1] == "HEADER"@);
    assert(texts[n - 1] == "EOF"@);
    lemma_opening_groups();
    lemma_joined_prefix(records, texts, 2);
    let two = records.take(2);
    let two_texts = texts.take(2);
    let one = two.drop_last();
    let one_texts = two_texts.drop_last();
    assert(one.drop_last().len() == 0);
    assert(joined(one.drop_last(), one_texts.drop_last()) =~= Seq::<char>::empty());
    assert(joined(one, one_texts) =~= group_text(0, "SECTION"@));
    assert(joined(two, two_texts) =~= opening());
    let tail = group_text(records.last().code, texts.last());
    assert(out == joined(records.drop_last(), texts.drop_last()) + tail);
    assert(tail == closing());
    assert(out.subrange(out.len() - tail.len(), out.len() as int) =~= tail);
}

/// Writes a DXF document as text. Numbers are written as `ops` formats
/// them.
pub fn document_to_string<A: Arithmetic>(doc: &DxfDocument, ops: &A) -> (r: String)
    ensures
        is_rendering(ops, document_records_of(doc@), r@),
        opening().is_prefix_of(r@),
        closing().is_suffix_of(r@),
{
    let records = document_records(doc);
    let out = render_records(records.as_slice(), ops);
    proof {
        rendering_starts_and_ends(ops, doc@, out@);
    }
    out
}

} // verus!
