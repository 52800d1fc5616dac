//! The fixed head of a drawing: signature, version, and the table of
//! sixteen layer groups with sixteen layers each.

use vstd::prelude::*;
use crate::binary64::Binary64;
use crate::error::{Fault, JwwError};
use crate::reader::{bind, done, f64_at, skip_at, text_at, u32_at, Reader, Step};
use crate::text::{hex_text, owned, push_hex};

verus! {

/// One layer of a group.
#[derive(Debug, Clone, PartialEq)]
pub struct LayerHeader {
    pub state: u32,
    pub protect: u32,
    pub name: String,
}

/// One layer group and its sixteen layers.
#[derive(Debug, Clone, PartialEq)]
pub struct LayerGroupHeader {
    pub state: u32,
    pub write_layer: u32,
    pub scale: Binary64,
    pub protect: u32,
    pub layers: [LayerHeader; 16],
    pub name: String,
}

/// The head of a drawing.
#[derive(Debug, Clone, PartialEq)]
pub struct JwwHeader {
    pub version: u32,
    pub memo: String,
    pub paper_size: u32,
    pub write_layer_group: u32,
    pub layer_groups: [LayerGroupHeader; 16],
}

pub struct LayerHeaderView {
    pub state: u32,
    pub protect: u32,
    pub name: Seq<char>,
}

pub struct LayerGroupHeaderView {
    pub state: u32,
    pub write_layer: u32,
    pub scale: Binary64,
    pub protect: u32,
    pub layers: Seq<LayerHeaderView>,
    pub name: Seq<char>,
}

pub struct JwwHeaderView {
    pub version: u32,
    pub memo: Seq<char>,
    pub paper_size: u32,
    pub write_layer_group: u32,
    pub layer_groups: Seq<LayerGroupHeaderView>,
}

impl View for LayerHeader {
    type V = LayerHeaderView;

    open spec fn view(&self) -> LayerHeaderView {
        LayerHeaderView { state: self.state, protect: self.protect, name: self.name@ }
    }
}

impl View for LayerGroupHeader {
    type V = LayerGroupHeaderView;

    open spec fn view(&self) -> LayerGroupHeaderView {
        LayerGroupHeaderView {
            state: self.state,
            write_layer: self.write_layer,
            scale: self.scale,
            protect: self.protect,
            layers: Seq::new(16, |l: int| self.layers@[l]@),
            name: self.name@,
        }
    }
}

impl View for JwwHeader {
    type V = JwwHeaderView;

    open spec fn view(&self) -> JwwHeaderView {
        JwwHeaderView {
            version: self.version,
            memo: self.memo@,
            paper_size: self.paper_size,
            write_layer_group: self.write_layer_group,
            layer_groups: Seq::new(16, |g: int| self.layer_groups@[g]@),
        }
    }
}

impl Default for LayerHeader {
    fn default() -> (r: LayerHeader)
        ensures
            r@ == (LayerHeaderView { state: 0, protect: 0, name: Seq::empty() }),
    {
        LayerHeader { state: 0, protect: 0, name: String::new() }
    }
}

/// The eight bytes `JwwData.` that every drawing starts with.
pub open spec fn signature() -> Seq<u8> {
    seq![0x4Au8, 0x77u8, 0x77u8, 0x44u8, 0x61u8, 0x74u8, 0x61u8, 0x2Eu8]
}

/// Whether the data starts with the signature.
pub open spec fn has_signature(data: Seq<u8>) -> bool {
    data.len() >= 8 && data.subrange(0, 8) == signature()
}

pub fn is_jww_signature(data: &[u8]) -> (r: bool)
    ensures
        r == has_signature(data@),
{
    if data.len() < 8 {
        return false;
    }
    let r = data[0] == 0x4A && data[1] == 0x77 && data[2] == 0x77 && data[3] == 0x44 && data[4]
        == 0x61 && data[5] == 0x74 && data[6] == 0x61 && data[7] == 0x2E;
    proof {
        let head = data@.subrange(0, 8);
        if r {
            assert(head =~= signature());
        } else {
            assert(head[0] == data@[0] && head[1] == data@[1] && head[2] == data@[2] && head[3]
                == data@[3] && head[4] == data@[4] && head[5] == data@[5] && head[6] == data@[6]
                && head[7] == data@[7]);
        }
    }
    r
}

/// The numbers that a layer group starts with.
#[derive(Debug, Clone, Copy)]
pub struct GroupHead {
    pub state: u32,
    pub write_layer: u32,
    pub scale: Binary64,
    pub protect: u32,
}

/// The numbers stored for one layer.
#[derive(Debug, Clone, Copy)]
pub struct LayerCell {
    pub state: u32,
    pub protect: u32,
}

/// The layer group table as it lies in the file: the heads of the groups
/// read so far and, in one row, the cells of their layers.
pub struct GroupTable {
    pub heads: Seq<GroupHead>,
    pub cells: Seq<LayerCell>,
}

/// `first` followed by what `rest` goes on to read.
pub open spec fn table_then(first: GroupTable, rest: Step<GroupTable>) -> Step<GroupTable> {
    match rest.value {
        Ok(t) => Step {
            value: Ok(GroupTable { heads: first.heads + t.heads, cells: first.cells + t.cells }),
            pos: rest.pos,
        },
        Err(f) => Step { value: Err(f), pos: rest.pos },
    }
}

/// `first` followed by what `rest` goes on to read.
pub open spec fn cells_then(first: Seq<LayerCell>, rest: Step<Seq<LayerCell>>) -> Step<
    Seq<LayerCell>,
> {
    match rest.value {
        Ok(t) => Step { value: Ok(first + t), pos: rest.pos },
        Err(f) => Step { value: Err(f), pos: rest.pos },
    }
}

/// `first` followed by what `rest` goes on to read.
pub open spec fn texts_then(first: Seq<Seq<char>>, rest: Step<Seq<Seq<char>>>) -> Step<
    Seq<Seq<char>>,
> {
    match rest.value {
        Ok(t) => Step { value: Ok(first + t), pos: rest.pos },
        Err(f) => Step { value: Err(f), pos: rest.pos },
    }
}

/// The head of a layer group at `pos`: state, write layer, scale, protect.
pub open spec fn group_head_at(data: Seq<u8>, pos: int) -> Step<GroupHead> {
    bind(u32_at(data, pos), |state: u32, p1: int|
    bind(u32_at(data, p1), |write_layer: u32, p2: int|
    bind(f64_at(data, p2), |scale: Binary64, p3: int|
    bind(u32_at(data, p3), |protect: u32, p4: int|
        done(GroupHead { state, write_layer, scale, protect }, p4)))))
}

/// The cell of one layer at `pos`: state, protect.
pub open spec fn layer_cell_at(data: Seq<u8>, pos: int) -> Step<LayerCell> {
    bind(u32_at(data, pos), |state: u32, p1: int|
    bind(u32_at(data, p1), |protect: u32, p2: int|
        done(LayerCell { state, protect }, p2)))
}

/// `n` layer cells in a row, from `pos`.
pub open spec fn layer_cells_at(data: Seq<u8>, pos: int, n: nat) -> Step<Seq<LayerCell>>
    decreases n,
{
    if n == 0 {
        Step { value: Ok(Seq::empty()), pos }
    } else {
        let c = layer_cell_at(data, pos);
        match c.value {
            Err(f) => Step { value: Err(f), pos: c.pos },
            Ok(cell) => cells_then(seq![cell], layer_cells_at(data, c.pos, (n - 1) as nat)),
        }
    }
}

/// `n` layer groups in a row, from `pos`: each a head and sixteen cells.
pub open spec fn groups_at(data: Seq<u8>, pos: int, n: nat) -> Step<GroupTable>
    decreases n,
{
    if n == 0 {
        Step { value: Ok(GroupTable { heads: Seq::empty(), cells: Seq::empty() }), pos }
    } else {
        let h = group_head_at(data, pos);
        match h.value {
            Err(f) => Step { value: Err(f), pos: h.pos },
            Ok(head) => {
                let c = layer_cells_at(data, h.pos, 16);
                match c.value {
                    Err(f) => Step { value: Err(f), pos: c.pos },
                    Ok(cells) => table_then(
                        GroupTable { heads: seq![head], cells },
                        groups_at(data, c.pos, (n - 1) as nat),
                    ),
                }
            },
        }
    }
}

/// `n` length-prefixed texts in a row, from `pos`.
pub open spec fn texts_at(data: Seq<u8>, pos: int, n: nat) -> Step<Seq<Seq<char>>>
    decreases n,
{
    if n == 0 {
        Step { value: Ok(Seq::empty()), pos }
    } else {
        let t = text_at(data, pos);
        match t.value {
            Err(f) => Step { value: Err(f), pos: t.pos },
            Ok(text) => texts_then(seq![text], texts_at(data, t.pos, (n - 1) as nat)),
        }
    }
}

/// The 256 layer names and 16 group names stored behind the table, if they
/// can be read: from version 300 on, after 84 bytes of dimension settings
/// and 72 bytes of printer and grid settings.
pub open spec fn stored_names(data: Seq<u8>, pos: int, version: u32) -> Option<Seq<Seq<char>>> {
    if version < 300 {
        None
    } else {
        let a = skip_at(data, pos, 84);
        if a.value is Err {
            None
        } else {
            let b = skip_at(data, a.pos, 72);
            if b.value is Err {
                None
            } else {
                match texts_at(data, b.pos, 272).value {
                    Ok(names) => Some(names),
                    Err(_) => None,
                }
            }
        }
    }
}

/// The name given to layer `l` of group `g` when the file gives none.
pub open spec fn default_layer_name(g: nat, l: nat) -> Seq<char> {
    hex_text(g) + seq!['-'] + hex_text(l)
}

/// The name given to group `g` when the file gives none.
pub open spec fn default_group_name(g: nat) -> Seq<char> {
    "Group"@ + hex_text(g)
}

/// Entry `i` of the stored names, or `fallback` where no names were read
/// or the entry is empty.
pub open spec fn name_or(names: Option<Seq<Seq<char>>>, i: int, fallback: Seq<char>) -> Seq<
    char,
> {
    match names {
        Some(ns) => if ns[i].len() > 0 {
            ns[i]
        } else {
            fallback
        },
        None => fallback,
    }
}

pub open spec fn layer_view_of(
    table: GroupTable,
    names: Option<Seq<Seq<char>>>,
    g: int,
    l: int,
) -> LayerHeaderView {
    LayerHeaderView {
        state: table.cells[g * 16 + l].state,
        protect: table.cells[g * 16 + l].protect,
        name: name_or(names, g * 16 + l, default_layer_name(g as nat, l as nat)),
    }
}

pub open spec fn group_view_of(
    table: GroupTable,
    names: Option<Seq<Seq<char>>>,
    g: int,
) -> LayerGroupHeaderView {
    LayerGroupHeaderView {
        state: table.heads[g].state,
        write_layer: table.heads[g].write_layer,
        scale: table.heads[g].scale,
        protect: table.heads[g].protect,
        layers: Seq::new(16, |l: int| layer_view_of(table, names, g, l)),
        name: name_or(names, 256 + g, default_group_name(g as nat)),
    }
}

/// The header that a byte string holds, or why it holds none.
///
/// After the signature come the version, the memo, the paper size and the
/// write layer group, then the table of sixteen groups. Names are taken
/// from the file where [`stored_names`] finds them and are defaults
/// otherwise.
pub open spec fn header_of(data: Seq<u8>) -> Result<JwwHeaderView, Fault> {
    if !has_signature(data) {
        Err(Fault::InvalidSignature)
    } else {
        bind(u32_at(data, 8), |version: u32, p1: int|
        bind(text_at(data, p1), |memo: Seq<char>, p2: int|
        bind(u32_at(data, p2), |paper_size: u32, p3: int|
        bind(u32_at(data, p3), |write_layer_group: u32, p4: int|
        bind(groups_at(data, p4, 16), |table: GroupTable, p5: int|
            done(
                JwwHeaderView {
                    version,
                    memo,
                    paper_size,
                    write_layer_group,
                    layer_groups: Seq::new(
                        16,
                        |g: int| group_view_of(table, stored_names(data, p5, version), g),
                    ),
                },
                p5,
            )))))).value
    }
}

/// Every layer and every group of a header that was read has a name:
/// where the file gives none, or an empty one, the default stands in.
pub proof fn parsed_names_are_never_empty(data: Seq<u8>, g: int, l: int)
    requires
        header_of(data) is Ok,
        0 <= g < 16,
        0 <= l < 16,
    ensures
        header_of(data)->Ok_0.layer_groups[g].name.len() > 0,
        header_of(data)->Ok_0.layer_groups[g].layers[l].name.len() > 0,
{
    crate::text::lemma_hex_text_len(g as nat);
    crate::text::lemma_hex_text_len(l as nat);
}

proof fn lemma_cells_len(data: Seq<u8>, pos: int, n: nat)
    ensures
        layer_cells_at(data, pos, n).value is Ok ==> layer_cells_at(data, pos, n).value->Ok_0.len()
            == n,
    decreases n,
{
    if n > 0 {
        let c = layer_cell_at(data, pos);
        if c.value is Ok {
            lemma_cells_len(data, c.pos, (n - 1) as nat);
        }
    }
}

proof fn lemma_groups_len(data: Seq<u8>, pos: int, n: nat)
    ensures
        groups_at(data, pos, n).value is Ok ==> {
            &&& groups_at(data, pos, n).value->Ok_0.heads.len() == n
            &&& groups_at(data, pos, n).value->Ok_0.cells.len() == 16 * n
        },
    decreases n,
{
    if n > 0 {
        let h = group_head_at(data, pos);
        if h.value is Ok {
            lemma_cells_len(data, h.pos, 16);
            let c = layer_cells_at(data, h.pos, 16);
            if c.value is Ok {
                lemma_groups_len(data, c.pos, (n - 1) as nat);
            }
        }
    }
}

proof fn lemma_texts_len(data: Seq<u8>, pos: int, n: nat)
    ensures
        texts_at(data, pos, n).value is Ok ==> texts_at(data, pos, n).value->Ok_0.len() == n,
    decreases n,
{
    if n > 0 {
        let t = text_at(data, pos);
        if t.value is Ok {
            lemma_texts_len(data, t.pos, (n - 1) as nat);
        }
    }
}

fn read_group_head(reader: &mut Reader<'_>) -> (r: Result<GroupHead, JwwError>)
    ensures
        final(reader).bytes() == old(reader).bytes(),
        crate::reader::agrees(
            r,
            final(reader).position(),
            group_head_at(old(reader).bytes(), old(reader).position()),
        ),
{
    let state = reader.read_u32()?;
    let write_layer = reader.read_u32()?;
    let scale = reader.read_f64()?;
    let protect = reader.read_u32()?;
    Ok(GroupHead { state, write_layer, scale, protect })
}

fn read_layer_cell(reader: &mut Reader<'_>) -> (r: Result<LayerCell, JwwError>)
    ensures
        final(reader).bytes() == old(reader).bytes(),
        crate::reader::agrees(
            r,
            final(reader).position(),
            layer_cell_at(old(reader).bytes(), old(reader).position()),
        ),
{
    let state = reader.read_u32()?;
    let protect = reader.read_u32()?;
    Ok(LayerCell { state, protect })
}

/// Reads the sixteen cells of one group and appends them to `cells`.
fn read_layer_cells(reader: &mut Reader<'_>, cells: &mut Vec<LayerCell>) -> (r: Result<(), JwwError>)
    ensures
        final(reader).bytes() == old(reader).bytes(),
        final(reader).position() == layer_cells_at(
            old(reader).bytes(),
            old(reader).position(),
            16,
        ).pos,
        match r {
            Ok(_) => {
                let s = layer_cells_at(old(reader).bytes(), old(reader).position(), 16);
                s.value is Ok && final(cells)@ == old(cells)@ + s.value->Ok_0
            },
            Err(e) => layer_cells_at(old(reader).bytes(), old(reader).position(), 16).value
                == Err::<Seq<LayerCell>, Fault>(e@),
        },
{
    let ghost data = reader.bytes();
    let ghost start = reader.position();
    let ghost n0 = cells@.len() as int;
    let mut l: usize = 0;
    proof {
        assert(cells@.subrange(n0, n0) =~= Seq::<LayerCell>::empty());
        assert(cells@.subrange(0, n0) =~= cells@);
    }
    while l < 16
        invariant
            l <= 16,
            reader.bytes() == data,
            data == old(reader).bytes(),
            start == old(reader).position(),
            n0 == old(cells)@.len(),
            cells@.len() >= n0,
            cells@.subrange(0, n0) == old(cells)@,
            layer_cells_at(data, start, 16) == cells_then(
                cells@.subrange(n0, cells@.len() as int),
                layer_cells_at(data, reader.position(), (16 - l) as nat),
            ),
        decreases 16 - l,
    {
        let ghost prev = cells@;
        let cell = read_layer_cell(reader)?;
        cells.push(cell);
        proof {
            assert(cells@.subrange(n0, cells@.len() as int) =~= prev.subrange(
                n0,
                prev.len() as int,
            ) + seq![cell]);
            assert(cells@.subrange(0, n0) =~= prev.subrange(0, n0));
            let rest = layer_cells_at(data, reader.position(), (16 - l - 1) as nat);
            if rest.value is Ok {
                assert((prev.subrange(n0, prev.len() as int) + seq![cell]) + rest.value->Ok_0
                    =~= prev.subrange(n0, prev.len() as int) + (seq![cell] + rest.value->Ok_0));
            }
        }
        l += 1;
    }
    proof {
        let added = cells@.subrange(n0, cells@.len() as int);
        assert(added + Seq::<LayerCell>::empty() =~= added);
        assert(cells@ =~= old(cells)@ + added);
    }
    Ok(())
}

/// Reads the table of sixteen layer groups.
fn read_groups(reader: &mut Reader<'_>, heads: &mut Vec<GroupHead>, cells: &mut Vec<LayerCell>) -> (r:
    Result<(), JwwError>)
    requires
        old(heads)@.len() == 0,
        old(cells)@.len() == 0,
    ensures
        final(reader).bytes() == old(reader).bytes(),
        final(reader).position() == groups_at(old(reader).bytes(), old(reader).position(), 16).pos,
        match r {
            Ok(_) => groups_at(old(reader).bytes(), old(reader).position(), 16).value == Ok::<
                GroupTable,
                Fault,
            >(GroupTable { heads: final(heads)@, cells: final(cells)@ }),
            Err(e) => groups_at(old(reader).bytes(), old(reader).position(), 16).value == Err::<
                GroupTable,
                Fault,
            >(e@),
        },
{
    let ghost data = reader.bytes();
    let ghost start = reader.position();
    let mut g: usize = 0;
    proof {
        let rest = groups_at(data, start, 16);
        if rest.value is Ok {
            assert(heads@ + rest.value->Ok_0.heads =~= rest.value->Ok_0.heads);
            assert(cells@ + rest.value->Ok_0.cells =~= rest.value->Ok_0.cells);
        }
    }
    while g < 16
        invariant
            g <= 16,
            reader.bytes() == data,
            data == old(reader).bytes(),
            start == old(reader).position(),
            groups_at(data, start, 16) == table_then(
                GroupTable { heads: heads@, cells: cells@ },
                groups_at(data, reader.position(), (16 - g) as nat),
            ),
        decreases 16 - g,
    {
        let ghost before = GroupTable { heads: heads@, cells: cells@ };
        let head = read_group_head(reader)?;
        let ghost cells_start = reader.position();
        read_layer_cells(reader, cells)?;
        heads.push(head);
        proof {
            let added = layer_cells_at(data, cells_start, 16).value->Ok_0;
            let rest = groups_at(data, reader.position(), (16 - g - 1) as nat);
            if rest.value is Ok {
                let t = rest.value->Ok_0;
                assert((before.heads + seq![head]) + t.heads =~= before.heads + (seq![head]
                    + t.heads));
                assert((before.cells + added) + t.cells =~= before.cells + (added + t.cells));
            }
            assert(heads@ =~= before.heads + seq![head]);
        }
        g += 1;
    }
    proof {
        assert(heads@ + Seq::<GroupHead>::empty() =~= heads@);
        assert(cells@ + Seq::<LayerCell>::empty() =~= cells@);
    }
    Ok(())
}

/// Reads `n` texts in a row.
fn read_texts(reader: &mut Reader<'_>, n: usize) -> (r: Result<Vec<String>, JwwError>)
    ensures
        final(reader).bytes() == old(reader).bytes(),
        final(reader).position() == texts_at(old(reader).bytes(), old(reader).position(), n as nat).pos,
        match r {
            Ok(v) => texts_at(old(reader).bytes(), old(reader).position(), n as nat).value == Ok::<
                Seq<Seq<char>>,
                Fault,
            >(Seq::new(v@.len(), |i: int| v@[i]@)),
            Err(e) => texts_at(old(reader).bytes(), old(reader).position(), n as nat).value == Err::<
                Seq<Seq<char>>,
                Fault,
            >(e@),
        },
{
    let ghost data = reader.bytes();
    let ghost start = reader.position();
    let mut out: Vec<String> = Vec::new();
    let mut i: usize = 0;
    proof {
        let rest = texts_at(data, start, n as nat);
        let none = Seq::new(out@.len(), |k: int| out@[k]@);
        if rest.value is Ok {
            assert(none + rest.value->Ok_0 =~= rest.value->Ok_0);
        }
    }
    while i < n
        invariant
            i <= n,
            reader.bytes() == data,
            data == old(reader).bytes(),
            start == old(reader).position(),
            texts_at(data, start, n as nat) == texts_then(
                Seq::new(out@.len(), |k: int| out@[k]@),
                texts_at(data, reader.position(), (n - i) as nat),
            ),
        decreases n - i,
    {
        let ghost prev = Seq::new(out@.len(), |k: int| out@[k]@);
        let text = reader.read_cstring()?;
        let ghost tv = text@;
        out.push(text);
        proof {
            let now = Seq::new(out@.len(), |k: int| out@[k]@);
            assert(now =~= prev + seq![tv]);
            let rest = texts_at(data, reader.position(), (n - i - 1) as nat);
            if rest.value is Ok {
                assert((prev + seq![tv]) + rest.value->Ok_0 =~= prev + (seq![tv]
                    + rest.value->Ok_0));
            }
        }
        i += 1;
    }
    proof {
        let now = Seq::new(out@.len(), |k: int| out@[k]@);
        assert(now + Seq::<Seq<char>>::empty() =~= now);
    }
    Ok(out)
}

/// Reads the names stored behind the table, if there are any to be had.
fn read_stored_names(reader: &mut Reader<'_>, version: u32) -> (r: Option<Vec<String>>)
    ensures
        match r {
            Some(v) => stored_names(old(reader).bytes(), old(reader).position(), version) == Some(
                Seq::new(v@.len(), |i: int| v@[i]@),
            ) && v@.len() == 272,
            None => stored_names(old(reader).bytes(), old(reader).position(), version) is None,
        },
{
    if version < 300 {
        return None;
    }
    match reader.skip(84) {
        Ok(_) => {},
        Err(_) => {
            return None;
        },
    }
    match reader.skip(72) {
        Ok(_) => {},
        Err(_) => {
            return None;
        },
    }
    proof {
        lemma_texts_len(reader.bytes(), reader.position(), 272);
    }
    match read_texts(reader, 272) {
        Ok(v) => Some(v),
        Err(_) => None,
    }
}

/// The name of layer `l` of group `g` when the file gives none:
/// both numbers in upper-case hexadecimal, joined by a hyphen.
pub fn default_layer_name_text(g: u32, l: u32) -> (r: String)
    ensures
        r@ == default_layer_name(g as nat, l as nat),
{
    let mut out = String::new();
    push_hex(&mut out, g);
    out.push('-');
    push_hex(&mut out, l);
    assert(out@ =~= default_layer_name(g as nat, l as nat));
    out
}

/// The name of group `g` when the file gives none: `Group` and the number
/// in upper-case hexadecimal.
pub fn default_group_name_text(g: u32) -> (r: String)
    ensures
        r@ == default_group_name(g as nat),
{
    let mut out = owned("Group");
    push_hex(&mut out, g);
    out
}

/// The stored name at `i`, or the fallback where there is none.
fn pick_name(names: &Option<Vec<String>>, i: usize, fallback: String) -> (r: String)
    requires
        names is Some ==> i < names->Some_0@.len(),
    ensures
        r@ == name_or(
            match names {
                Some(v) => Some(Seq::new(v@.len(), |k: int| v@[k]@)),
                None => None,
            },
            i as int,
            fallback@,
        ),
{
    match names {
        Some(v) => {
            if v[i].as_str().is_empty() {
                fallback
            } else {
                v[i].clone()
            }
        },
        None => fallback,
    }
}

/// What the stored names are in contracts.
pub open spec fn names_view(names: Option<Vec<String>>) -> Option<Seq<Seq<char>>> {
    match names {
        Some(v) => Some(Seq::new(v@.len(), |k: int| v@[k]@)),
        None => None,
    }
}

fn build_layer(
    heads: &Vec<GroupHead>,
    cells: &Vec<LayerCell>,
    names: &Option<Vec<String>>,
    g: usize,
    l: usize,
) -> (r: LayerHeader)
    requires
        g < 16,
        l < 16,
        cells@.len() == 256,
        names is Some ==> names->Some_0@.len() == 272,
    ensures
        r@ == layer_view_of(
            GroupTable { heads: heads@, cells: cells@ },
            names_view(*names),
            g as int,
            l as int,
        ),
{
    let i = g * 16 + l;
    let fallback = default_layer_name_text(g as u32, l as u32);
    LayerHeader { state: cells[i].state, protect: cells[i].protect, name: pick_name(names, i, fallback) }
}

fn build_group(
    heads: &Vec<GroupHead>,
    cells: &Vec<LayerCell>,
    names: &Option<Vec<String>>,
    g: usize,
) -> (r: LayerGroupHeader)
    requires
        g < 16,
        heads@.len() == 16,
        cells@.len() == 256,
        names is Some ==> names->Some_0@.len() == 272,
    ensures
        r@ == group_view_of(GroupTable { heads: heads@, cells: cells@ }, names_view(*names), g as int),
{
    let layers = [
        build_layer(heads, cells, names, g, 0),
        build_layer(heads, cells, names, g, 1),
        build_layer(heads, cells, names, g, 2),
        build_layer(heads, cells, names, g, 3),
        build_layer(heads, cells, names, g, 4),
        build_layer(heads, cells, names, g, 5),
        build_layer(heads, cells, names, g, 6),
        build_layer(heads, cells, names, g, 7),
        build_layer(heads, cells, names, g, 8),
        build_layer(heads, cells, names, g, 9),
        build_layer(heads, cells, names, g, 10),
        build_layer(heads, cells, names, g, 11),
        build_layer(heads, cells, names, g, 12),
        build_layer(heads, cells, names, g, 13),
        build_layer(heads, cells, names, g, 14),
        build_layer(heads, cells, names, g, 15),
    ];
    let fallback = default_group_name_text(g as u32);
    let r = LayerGroupHeader {
        state: heads[g].state,
        write_layer: heads[g].write_layer,
        scale: heads[g].scale,
        protect: heads[g].protect,
        layers,
        name: pick_name(names, 256 + g, fallback),
    };
    proof {
        let want = group_view_of(
            GroupTable { heads: heads@, cells: cells@ },
            names_view(*names),
            g as int,
        );
        assert(r@.layers =~= want.layers);
    }
    r
}

/// Reads the head of a drawing.
///
/// Fails with `InvalidSignature` when the data does not start with
/// `JwwData.`, and with `UnexpectedEof` when it ends inside the fixed part.
/// Trouble with the stored names is no failure: the defaults stand in.
pub fn parse_header(data: &[u8]) -> (r: Result<JwwHeader, JwwError>)
    ensures
        match r {
            Ok(h) => header_of(data@) == Ok::<JwwHeaderView, Fault>(h@),
            Err(e) => header_of(data@) == Err::<JwwHeaderView, Fault>(e@),
        },
{
    if !is_jww_signature(data) {
        return Err(JwwError::InvalidSignature);
    }
    let mut reader = Reader::new(data);
    match reader.skip(8) {
        Ok(_) => {},
        Err(e) => {
            return Err(e);
        },
    }
    let version = reader.read_u32()?;
    let memo = reader.read_cstring()?;
    let paper_size = reader.read_u32()?;
    let write_layer_group = reader.read_u32()?;
    let mut heads: Vec<GroupHead> = Vec::new();
    let mut cells: Vec<LayerCell> = Vec::new();
    proof {
        lemma_groups_len(reader.bytes(), reader.position(), 16);
    }
    read_groups(&mut reader, &mut heads, &mut cells)?;
    let names = read_stored_names(&mut reader, version);
    let layer_groups = [
        build_group(&heads, &cells, &names, 0),
        build_group(&heads, &cells, &names, 1),
        build_group(&heads, &cells, &names, 2),
        build_group(&heads, &cells, &names, 3),
        build_group(&heads, &cells, &names, 4),
        build_group(&heads, &cells, &names, 5),
        build_group(&heads, &cells, &names, 6),
        build_group(&heads, &cells, &names, 7),
        build_group(&heads, &cells, &names, 8),
        build_group(&heads, &cells, &names, 9),
        build_group(&heads, &cells, &names, 10),
        build_group(&heads, &cells, &names, 11),
        build_group(&heads, &cells, &names, 12),
        build_group(&heads, &cells, &names, 13),
        build_group(&heads, &cells, &names, 14),
        build_group(&heads, &cells, &names, 15),
    ];
    let header = JwwHeader { version, memo, paper_size, write_layer_group, layer_groups };
    proof {
        let want = header_of(data@)->Ok_0;
        assert(header@.layer_groups =~= want.layer_groups);
    }
    Ok(header)
}

} // verus!
