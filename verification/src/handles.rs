//! The handles of a written document: which records carry one, and that
//! no two carry the same.

use vstd::prelude::*;
use crate::binary64::Binary64;
use crate::dxf::{DxfBlockView, DxfDocumentView, DxfEntityView, DxfLayerView};
use crate::text::{hex_text, lemma_hex_text_injective};
use crate::writer::{
    block_definition_records, block_handles, block_record_entries, block_record_records,
    block_record_table_records, block_rows, block_table_of, blocks_records, blocks_start,
    document_records_of, entities_records, entities_section_records, entities_start, entity_body,
    entity_records, header_records, layer_entries, layer_records,
    layer_table_records, line_types_of, ltype_entries, ltype_pattern, ltype_records,
    ltype_table_records, objects_records, owner_part, sorted_layers, style_table_records,
    tables_records, tables_start, with_block, with_blocks, BlockRecordView, RecordView,
    ValueView,
};

verus! {

/// The values of the groups with code 5 in a row of records, in order.
pub open spec fn handles_in(records: Seq<RecordView>) -> Seq<ValueView>
    decreases records.len(),
{
    if records.len() == 0 {
        Seq::empty()
    } else {
        handles_in(records.drop_last()) + if records.last().code == 5 {
            seq![records.last().value]
        } else {
            Seq::empty()
        }
    }
}

/// The `n` numbers from `lo` on as handle values.
pub open spec fn hexes(lo: nat, n: nat) -> Seq<ValueView> {
    Seq::new(n, |i: int| ValueView::Text(hex_text((lo + i) as nat)))
}

/// The handles of the records of a table of block records.
pub open spec fn table_handles(table: Seq<BlockRecordView>) -> Seq<ValueView> {
    Seq::new(table.len(), |i: int| ValueView::Text(table[i].handle))
}

proof fn lemma_handles_join(a: Seq<RecordView>, b: Seq<RecordView>)
    ensures
        handles_in(a + b) == handles_in(a) + handles_in(b),
    decreases b.len(),
{
    if b.len() == 0 {
        assert(a + b =~= a);
        assert(handles_in(a) + handles_in(b) =~= handles_in(a));
    } else {
        assert((a + b).drop_last() =~= a + b.drop_last());
        assert((a + b).last() == b.last());
        lemma_handles_join(a, b.drop_last());
        let tail = if b.last().code == 5 {
            seq![b.last().value]
        } else {
            Seq::<ValueView>::empty()
        };
        assert((handles_in(a) + handles_in(b.drop_last())) + tail =~= handles_in(a) + (handles_in(
            b.drop_last(),
        ) + tail));
    }
}

proof fn lemma_no_handles(s: Seq<RecordView>)
    requires
        forall|i: int| 0 <= i < s.len() ==> (#[trigger] s[i]).code != 5,
    ensures
        handles_in(s) == Seq::<ValueView>::empty(),
    decreases s.len(),
{
    if s.len() > 0 {
        let front = s.drop_last();
        assert forall|i: int| 0 <= i < front.len() implies (#[trigger] front[i]).code != 5 by {
            assert(front[i] == s[i]);
        }
        lemma_no_handles(front);
        assert(s.last() == s[s.len() - 1]);
        assert(handles_in(s) =~= Seq::<ValueView>::empty());
    }
}

proof fn lemma_one_handle(s: Seq<RecordView>, k: int)
    requires
        0 <= k < s.len(),
        s[k].code == 5,
        forall|i: int| 0 <= i < s.len() && i != k ==> (#[trigger] s[i]).code != 5,
    ensures
        handles_in(s) == seq![s[k].value],
{
    let a = s.subrange(0, k);
    let b = seq![s[k]];
    let c = s.subrange(k + 1, s.len() as int);
    assert(s =~= a + b + c);
    lemma_handles_join(a + b, c);
    lemma_handles_join(a, b);
    assert forall|i: int| 0 <= i < a.len() implies (#[trigger] a[i]).code != 5 by {
        assert(a[i] == s[i]);
    }
    assert forall|i: int| 0 <= i < c.len() implies (#[trigger] c[i]).code != 5 by {
        assert(c[i] == s[i + k + 1]);
    }
    lemma_no_handles(a);
    lemma_no_handles(c);
    assert(b.drop_last() =~= Seq::<RecordView>::empty());
    assert(handles_in(b.drop_last()) =~= Seq::<ValueView>::empty());
    assert(b.last() == s[k]);
    assert(handles_in(b) =~= seq![s[k].value]);
    assert(handles_in(s) =~= seq![s[k].value]);
}

proof fn lemma_hexes_join(lo: nat, n: nat, m: nat)
    ensures
        hexes(lo, n) + hexes(lo + n, m) == hexes(lo, n + m),
{
    assert(hexes(lo, n) + hexes(lo + n, m) =~= hexes(lo, n + m));
}

proof fn lemma_hexes_one(h: nat)
    ensures
        seq![ValueView::Text(hex_text(h))] == hexes(h, 1),
{
    assert(seq![ValueView::Text(hex_text(h))] =~= hexes(h, 1));
}

proof fn lemma_owner_no_handles(owner: Option<Seq<char>>)
    ensures
        handles_in(owner_part(owner)) == Seq::<ValueView>::empty(),
{
    lemma_no_handles(owner_part(owner));
}

proof fn lemma_entity_handles(e: DxfEntityView, h: nat, owner: Option<Seq<char>>)
    ensures
        handles_in(entity_records(e, h, owner)) == hexes(h, 1),
{
    let kind = crate::dxf::kind_text(e.kind());
    let a = seq![crate::writer::text(0, kind), crate::writer::handle(h)];
    let b = owner_part(owner);
    let c = seq![
        crate::writer::text(8, crate::text::escape_text(e.style().layer)),
        crate::writer::integer(62, e.style().color),
        crate::writer::text(6, e.style().line_type),
    ];
    let d = entity_body(e);
    assert(entity_records(e, h, owner) == a + b + c + d);
    lemma_handles_join(a + b + c, d);
    lemma_handles_join(a + b, c);
    lemma_handles_join(a, b);
    lemma_one_handle(a, 1);
    lemma_owner_no_handles(owner);
    lemma_no_handles(c);
    lemma_no_handles(d);
    lemma_hexes_one(h);
    assert(handles_in(a + b + c + d) =~= hexes(h, 1));
}

proof fn lemma_entities_handles(es: Seq<DxfEntityView>, h: nat, owner: Option<Seq<char>>)
    ensures
        handles_in(entities_records(es, h, owner)) == hexes(h, es.len()),
    decreases es.len(),
{
    if es.len() == 0 {
        assert(hexes(h, 0) =~= Seq::<ValueView>::empty());
    } else {
        lemma_entities_handles(es.drop_last(), h, owner);
        lemma_entity_handles(es.last(), (h + es.len() - 1) as nat, owner);
        lemma_handles_join(
            entities_records(es.drop_last(), h, owner),
            entity_records(es.last(), (h + es.len() - 1) as nat, owner),
        );
        lemma_hexes_join(h, (es.len() - 1) as nat, 1);
    }
}

proof fn lemma_block_definition_handles(
    name: Seq<char>,
    base_x: Binary64,
    base_y: Binary64,
    entities: Seq<DxfEntityView>,
    h: nat,
    owner: Option<Seq<char>>,
)
    ensures
        handles_in(block_definition_records(name, base_x, base_y, entities, h, owner)) == hexes(
            h,
            2 + entities.len(),
        ),
{
    let a = seq![crate::writer::text(0, "BLOCK"@), crate::writer::handle(h)];
    let b = owner_part(owner);
    let c = seq![
        crate::writer::text(100, "AcDbEntity"@),
        crate::writer::text(8, "0"@),
        crate::writer::text(100, "AcDbBlockBegin"@),
        crate::writer::text(2, crate::text::escape_text(name)),
        crate::writer::integer(70, 0),
        crate::writer::number(10, base_x),
        crate::writer::number(20, base_y),
        crate::writer::number(30, crate::dxf::b64(0)),
        crate::writer::text(3, crate::text::escape_text(name)),
        crate::writer::text(1, ""@),
    ];
    let d = entities_records(entities, h + 1, owner);
    let e = seq![crate::writer::text(0, "ENDBLK"@), crate::writer::handle(h + 1 + entities.len())];
    let f = seq![
        crate::writer::text(100, "AcDbEntity"@),
        crate::writer::text(8, "0"@),
        crate::writer::text(100, "AcDbBlockEnd"@),
    ];
    let all = block_definition_records(name, base_x, base_y, entities, h, owner);
    assert(all == a + b + c + d + e + b + f);
    lemma_handles_join(a + b + c + d + e + b, f);
    lemma_handles_join(a + b + c + d + e, b);
    lemma_handles_join(a + b + c + d, e);
    lemma_handles_join(a + b + c, d);
    lemma_handles_join(a + b, c);
    lemma_handles_join(a, b);
    lemma_one_handle(a, 1);
    lemma_owner_no_handles(owner);
    lemma_no_handles(c);
    lemma_entities_handles(entities, h + 1, owner);
    lemma_one_handle(e, 1);
    lemma_no_handles(f);
    lemma_hexes_one(h);
    lemma_hexes_one(h + 1 + entities.len());
    lemma_hexes_join(h, 1, entities.len());
    lemma_hexes_join(h, 1 + entities.len(), 1);
    assert(handles_in(all) =~= hexes(h, 2 + entities.len()));
}

proof fn lemma_ltype_handles(name: Seq<char>, h: nat)
    ensures
        handles_in(ltype_records(name, h)) == hexes(h, 1),
{
    let pattern = ltype_pattern(name);
    let a = seq![
        crate::writer::text(0, "LTYPE"@),
        crate::writer::handle(h),
        crate::writer::text(2, name),
        crate::writer::integer(70, 0),
        crate::writer::text(3, crate::writer::ltype_description(name)),
        crate::writer::integer(72, 65),
        crate::writer::integer(73, pattern.len() as i32),
        crate::writer::number(40, crate::writer::ltype_length(name)),
    ];
    let b = Seq::new(pattern.len(), |i: int| crate::writer::number(49, pattern[i]));
    assert(ltype_records(name, h) == a + b);
    lemma_handles_join(a, b);
    lemma_one_handle(a, 1);
    lemma_no_handles(b);
    lemma_hexes_one(h);
    assert(handles_in(a + b) =~= hexes(h, 1));
}

proof fn lemma_ltype_entries_handles(names: Seq<Seq<char>>, h: nat)
    ensures
        handles_in(ltype_entries(names, h)) == hexes(h, names.len()),
    decreases names.len(),
{
    if names.len() == 0 {
        assert(hexes(h, 0) =~= Seq::<ValueView>::empty());
    } else {
        lemma_ltype_entries_handles(names.drop_last(), h);
        lemma_ltype_handles(names.last(), (h + names.len() - 1) as nat);
        lemma_handles_join(
            ltype_entries(names.drop_last(), h),
            ltype_records(names.last(), (h + names.len() - 1) as nat),
        );
        lemma_hexes_join(h, (names.len() - 1) as nat, 1);
    }
}

proof fn lemma_ltype_table_handles(names: Seq<Seq<char>>, h: nat)
    ensures
        handles_in(ltype_table_records(names, h)) == hexes(h, 1 + names.len()),
{
    let a = seq![
        crate::writer::text(0, "TABLE"@),
        crate::writer::text(2, "LTYPE"@),
        crate::writer::handle(h),
        crate::writer::integer(70, crate::writer::wrap32(names.len() as int)),
    ];
    let b = ltype_entries(names, h + 1);
    let c = seq![crate::writer::text(0, "ENDTAB"@)];
    assert(ltype_table_records(names, h) == a + b + c);
    lemma_handles_join(a + b, c);
    lemma_handles_join(a, b);
    lemma_one_handle(a, 2);
    lemma_ltype_entries_handles(names, h + 1);
    lemma_no_handles(c);
    lemma_hexes_one(h);
    lemma_hexes_join(h, 1, names.len());
    assert(handles_in(a + b + c) =~= hexes(h, 1 + names.len()));
}

proof fn lemma_layer_entries_handles(layers: Seq<DxfLayerView>, h: nat)
    ensures
        handles_in(layer_entries(layers, h)) == hexes(h, layers.len()),
    decreases layers.len(),
{
    if layers.len() == 0 {
        assert(hexes(h, 0) =~= Seq::<ValueView>::empty());
    } else {
        lemma_layer_entries_handles(layers.drop_last(), h);
        let one = layer_records(layers.last(), (h + layers.len() - 1) as nat);
        lemma_one_handle(one, 1);
        lemma_hexes_one((h + layers.len() - 1) as nat);
        lemma_handles_join(layer_entries(layers.drop_last(), h), one);
        lemma_hexes_join(h, (layers.len() - 1) as nat, 1);
    }
}

proof fn lemma_layer_table_handles(layers: Seq<DxfLayerView>, h: nat)
    ensures
        handles_in(layer_table_records(layers, h)) == hexes(h, 2 + layers.len()),
{
    let a = seq![
        crate::writer::text(0, "TABLE"@),
        crate::writer::text(2, "LAYER"@),
        crate::writer::handle(h),
        crate::writer::integer(70, crate::writer::wrap32(layers.len() as int + 1)),
    ];
    let a2 = seq![
        crate::writer::text(0, "LAYER"@),
        crate::writer::handle(h + 1),
        crate::writer::text(2, "0"@),
        crate::writer::integer(70, 0),
        crate::writer::integer(62, 7),
        crate::writer::text(6, "CONTINUOUS"@),
    ];
    let b = layer_entries(layers, h + 2);
    let c = seq![crate::writer::text(0, "ENDTAB"@)];
    assert(layer_table_records(layers, h) =~= a + a2 + b + c);
    lemma_handles_join(a + a2 + b, c);
    lemma_handles_join(a + a2, b);
    lemma_handles_join(a, a2);
    lemma_one_handle(a, 2);
    lemma_one_handle(a2, 1);
    lemma_layer_entries_handles(layers, h + 2);
    lemma_no_handles(c);
    lemma_hexes_one(h);
    lemma_hexes_one(h + 1);
    lemma_hexes_join(h, 1, 1);
    lemma_hexes_join(h, 2, layers.len());
    assert(handles_in(a + a2 + b + c) =~= hexes(h, 2 + layers.len()));
}

proof fn lemma_style_table_handles(h: nat)
    ensures
        handles_in(style_table_records(h)) == hexes(h, 2),
{
    let a = seq![
        crate::writer::text(0, "TABLE"@),
        crate::writer::text(2, "STYLE"@),
        crate::writer::handle(h),
        crate::writer::integer(70, 1),
    ];
    let b = seq![
        crate::writer::text(0, "STYLE"@),
        crate::writer::handle(h + 1),
        crate::writer::text(2, "STANDARD"@),
        crate::writer::integer(70, 0),
        crate::writer::number(40, crate::dxf::b64(0)),
        crate::writer::number(41, crate::dxf::b64(crate::binary64::ONE_BITS)),
        crate::writer::number(50, crate::dxf::b64(0)),
        crate::writer::integer(71, 0),
        crate::writer::number(42, crate::dxf::b64(crate::binary64::TWO_AND_HALF_BITS)),
        crate::writer::text(3, "txt"@),
        crate::writer::text(4, ""@),
        crate::writer::text(0, "ENDTAB"@),
    ];
    assert(style_table_records(h) =~= a + b);
    lemma_handles_join(a, b);
    lemma_one_handle(a, 2);
    lemma_one_handle(b, 1);
    lemma_hexes_one(h);
    lemma_hexes_one(h + 1);
    lemma_hexes_join(h, 1, 1);
}

proof fn lemma_block_record_entries_handles(table: Seq<BlockRecordView>)
    ensures
        handles_in(block_record_entries(table)) == table_handles(table),
    decreases table.len(),
{
    if table.len() == 0 {
        assert(table_handles(table) =~= Seq::<ValueView>::empty());
    } else {
        lemma_block_record_entries_handles(table.drop_last());
        let one = block_record_records(table.last());
        lemma_one_handle(one, 1);
        lemma_handles_join(block_record_entries(table.drop_last()), one);
        assert(table_handles(table.drop_last()) + seq![ValueView::Text(table.last().handle)]
            =~= table_handles(table));
    }
}

proof fn lemma_block_record_table_handles(table: Seq<BlockRecordView>, h: nat)
    ensures
        handles_in(block_record_table_records(table, h)) == hexes(h, 1) + table_handles(table),
{
    let a = seq![
        crate::writer::text(0, "TABLE"@),
        crate::writer::text(2, "BLOCK_RECORD"@),
        crate::writer::handle(h),
        crate::writer::integer(70, crate::writer::wrap32(table.len() as int)),
    ];
    let b = block_record_entries(table);
    let c = seq![crate::writer::text(0, "ENDTAB"@)];
    assert(block_record_table_records(table, h) == a + b + c);
    lemma_handles_join(a + b, c);
    lemma_handles_join(a, b);
    lemma_one_handle(a, 2);
    lemma_block_record_entries_handles(table);
    lemma_no_handles(c);
    lemma_hexes_one(h);
    assert(handles_in(a + b + c) =~= hexes(h, 1) + table_handles(table));
}

proof fn lemma_tables_handles(
    names: Seq<Seq<char>>,
    layers: Seq<DxfLayerView>,
    table: Seq<BlockRecordView>,
    h: nat,
)
    ensures
        handles_in(tables_records(names, layers, table, h)) == hexes(
            h,
            6 + names.len() + layers.len(),
        ) + table_handles(table),
{
    let a = seq![crate::writer::text(0, "SECTION"@), crate::writer::text(2, "TABLES"@)];
    let b = ltype_table_records(names, h);
    let c = layer_table_records(layers, h + 1 + names.len());
    let d = style_table_records(h + 3 + names.len() + layers.len());
    let e = block_record_table_records(table, h + 5 + names.len() + layers.len());
    let f = seq![crate::writer::text(0, "ENDSEC"@)];
    assert(tables_records(names, layers, table, h) == a + b + c + d + e + f);
    lemma_handles_join(a + b + c + d + e, f);
    lemma_handles_join(a + b + c + d, e);
    lemma_handles_join(a + b + c, d);
    lemma_handles_join(a + b, c);
    lemma_handles_join(a, b);
    lemma_no_handles(a);
    lemma_ltype_table_handles(names, h);
    lemma_layer_table_handles(layers, h + 1 + names.len());
    lemma_style_table_handles(h + 3 + names.len() + layers.len());
    lemma_block_record_table_handles(table, h + 5 + names.len() + layers.len());
    lemma_no_handles(f);
    lemma_hexes_join(h, 1 + names.len(), 2 + layers.len());
    lemma_hexes_join(h, 3 + names.len() + layers.len(), 2);
    lemma_hexes_join(h, 5 + names.len() + layers.len(), 1);
    assert(handles_in(a + b + c + d + e + f) =~= hexes(h, 6 + names.len() + layers.len())
        + table_handles(table));
}

proof fn lemma_block_rows_handles(blocks: Seq<DxfBlockView>, table: Seq<BlockRecordView>, h: nat)
    ensures
        handles_in(block_rows(blocks, table, h)) == hexes(h, block_handles(blocks)),
    decreases blocks.len(),
{
    if blocks.len() == 0 {
        assert(hexes(h, 0) =~= Seq::<ValueView>::empty());
    } else {
        let front = blocks.drop_last();
        let last = blocks.last();
        lemma_block_rows_handles(front, table, h);
        lemma_block_definition_handles(
            last.name,
            last.base_x,
            last.base_y,
            last.entities,
            h + block_handles(front),
            crate::writer::handle_of(table, last.name),
        );
        lemma_handles_join(
            block_rows(front, table, h),
            block_definition_records(
                last.name,
                last.base_x,
                last.base_y,
                last.entities,
                h + block_handles(front),
                crate::writer::handle_of(table, last.name),
            ),
        );
        lemma_hexes_join(h, block_handles(front), 2 + last.entities.len());
    }
}

proof fn lemma_blocks_handles(blocks: Seq<DxfBlockView>, table: Seq<BlockRecordView>, h: nat)
    ensures
        handles_in(blocks_records(blocks, table, h)) == hexes(h, 4 + block_handles(blocks)),
{
    let zero = crate::dxf::b64(0);
    let none = Seq::<DxfEntityView>::empty();
    let a = seq![crate::writer::text(0, "SECTION"@), crate::writer::text(2, "BLOCKS"@)];
    let b = block_definition_records(
        "*Model_Space"@,
        zero,
        zero,
        none,
        h,
        crate::writer::handle_of(table, "*Model_Space"@),
    );
    let c = block_definition_records(
        "*Paper_Space"@,
        zero,
        zero,
        none,
        h + 2,
        crate::writer::handle_of(table, "*Paper_Space"@),
    );
    let d = block_rows(blocks, table, h + 4);
    let e = seq![crate::writer::text(0, "ENDSEC"@)];
    assert(blocks_records(blocks, table, h) == a + b + c + d + e);
    lemma_handles_join(a + b + c + d, e);
    lemma_handles_join(a + b + c, d);
    lemma_handles_join(a + b, c);
    lemma_handles_join(a, b);
    lemma_no_handles(a);
    lemma_block_definition_handles(
        "*Model_Space"@,
        zero,
        zero,
        none,
        h,
        crate::writer::handle_of(table, "*Model_Space"@),
    );
    lemma_block_definition_handles(
        "*Paper_Space"@,
        zero,
        zero,
        none,
        h + 2,
        crate::writer::handle_of(table, "*Paper_Space"@),
    );
    lemma_block_rows_handles(blocks, table, h + 4);
    lemma_no_handles(e);
    lemma_hexes_join(h, 2, 2);
    lemma_hexes_join(h, 4, block_handles(blocks));
    assert(handles_in(a + b + c + d + e) =~= hexes(h, 4 + block_handles(blocks)));
}

proof fn lemma_entities_section_handles(
    entities: Seq<DxfEntityView>,
    table: Seq<BlockRecordView>,
    h: nat,
)
    ensures
        handles_in(entities_section_records(entities, table, h)) == hexes(h, entities.len()),
{
    let a = seq![crate::writer::text(0, "SECTION"@), crate::writer::text(2, "ENTITIES"@)];
    let b = entities_records(entities, h, crate::writer::handle_of(table, "*Model_Space"@));
    let c = seq![crate::writer::text(0, "ENDSEC"@)];
    assert(entities_section_records(entities, table, h) == a + b + c);
    lemma_handles_join(a + b, c);
    lemma_handles_join(a, b);
    lemma_no_handles(a);
    lemma_entities_handles(entities, h, crate::writer::handle_of(table, "*Model_Space"@));
    lemma_no_handles(c);
    assert(handles_in(a + b + c) =~= hexes(h, entities.len()));
}

/// Whether the handles of a table are the numbers from 1 on.
pub open spec fn numbered(table: Seq<BlockRecordView>) -> bool {
    forall|i: int| 0 <= i < table.len() ==> (#[trigger] table[i]).handle == hex_text((i + 1) as nat)
}

proof fn lemma_with_block_numbered(table: Seq<BlockRecordView>, name: Seq<char>)
    requires
        numbered(table),
    ensures
        numbered(with_block(table, name)),
{
}

proof fn lemma_with_blocks_numbered(table: Seq<BlockRecordView>, blocks: Seq<DxfBlockView>)
    requires
        numbered(table),
    ensures
        numbered(with_blocks(table, blocks)),
    decreases blocks.len(),
{
    if blocks.len() > 0 {
        lemma_with_blocks_numbered(table, blocks.drop_last());
        lemma_with_block_numbered(with_blocks(table, blocks.drop_last()), blocks.last().name);
    }
}

proof fn lemma_table_numbered(blocks: Seq<DxfBlockView>)
    ensures
        table_handles(block_table_of(blocks)) == hexes(1, block_table_of(blocks).len()),
{
    let none = Seq::<BlockRecordView>::empty();
    lemma_with_block_numbered(none, "*Model_Space"@);
    lemma_with_block_numbered(with_block(none, "*Model_Space"@), "*Paper_Space"@);
    lemma_with_blocks_numbered(
        with_block(with_block(none, "*Model_Space"@), "*Paper_Space"@),
        blocks,
    );
    let table = block_table_of(blocks);
    assert(table_handles(table) =~= hexes(1, table.len()));
}

proof fn lemma_document_parts(doc: DxfDocumentView)
    ensures
        handles_in(document_records_of(doc)) == handles_in(
            tables_records(
                line_types_of(doc),
                sorted_layers(doc.layers),
                block_table_of(doc.blocks),
                tables_start(doc),
            ),
        ) + handles_in(blocks_records(doc.blocks, block_table_of(doc.blocks), blocks_start(doc)))
            + handles_in(
            entities_section_records(doc.entities, block_table_of(doc.blocks), entities_start(doc)),
        ) + handles_in(objects_records(entities_start(doc) + doc.entities.len())),
{
    let table = block_table_of(doc.blocks);
    let a = header_records();
    let b = tables_records(line_types_of(doc), sorted_layers(doc.layers), table, tables_start(doc));
    let c = blocks_records(doc.blocks, table, blocks_start(doc));
    let d = entities_section_records(doc.entities, table, entities_start(doc));
    let e = objects_records(entities_start(doc) + doc.entities.len());
    let f = seq![crate::writer::text(0, "EOF"@)];
    assert(document_records_of(doc) == a + b + c + d + e + f);
    lemma_handles_join(a + b + c + d + e, f);
    lemma_handles_join(a + b + c + d, e);
    lemma_handles_join(a + b + c, d);
    lemma_handles_join(a + b, c);
    lemma_handles_join(a, b);
    lemma_no_handles(a);
    lemma_no_handles(f);
    let none = Seq::<ValueView>::empty();
    let hb = handles_in(b);
    let hc = handles_in(c);
    let hd = handles_in(d);
    let he = handles_in(e);
    assert(((((none + hb) + hc) + hd) + he) + none =~= hb + hc + hd + he);
}

proof fn lemma_four_rows(
    x: Seq<ValueView>,
    y: Seq<ValueView>,
    u: Seq<ValueView>,
    v: Seq<ValueView>,
    w: Seq<ValueView>,
)
    ensures
        (x + y) + u + v + w == x + y + ((u + v) + w),
{
    assert((x + y) + u + v + w =~= x + y + ((u + v) + w));
}

/// The handles of a document, in the order in which they are written: the
/// tables take the numbers after those of the block records, the block
/// records are written with their own, and the rest follows on.
pub proof fn lemma_document_handles(doc: DxfDocumentView)
    ensures
        handles_in(document_records_of(doc)) == hexes(
            tables_start(doc),
            (blocks_start(doc) - tables_start(doc)) as nat,
        ) + hexes(1, (tables_start(doc) - 1) as nat) + hexes(
            blocks_start(doc),
            (entities_start(doc) + doc.entities.len() + 1 - blocks_start(doc)) as nat,
        ),
{
    let table = block_table_of(doc.blocks);
    let names = line_types_of(doc);
    let layers = sorted_layers(doc.layers);
    let t = tables_start(doc);
    let bs = blocks_start(doc);
    let es = entities_start(doc);
    let n = doc.entities.len();
    let bh = block_handles(doc.blocks);
    lemma_document_parts(doc);
    lemma_tables_handles(names, layers, table, t);
    lemma_blocks_handles(doc.blocks, table, bs);
    lemma_entities_section_handles(doc.entities, table, es);
    lemma_one_handle(objects_records(es + n), 3);
    lemma_hexes_one(es + n);
    lemma_table_numbered(doc.blocks);
    lemma_hexes_join(bs, 4 + bh, n);
    lemma_hexes_join(bs, 4 + bh + n, 1);
    lemma_four_rows(
        hexes(t, 6 + names.len() + layers.len()),
        hexes(1, table.len()),
        hexes(bs, 4 + bh),
        hexes(es, n),
        hexes(es + n, 1),
    );
}

/// Where the handle of record `i` stands among the handles of the row.
pub open spec fn handle_place(s: Seq<RecordView>, i: int) -> int {
    handles_in(s.take(i)).len() as int
}

proof fn lemma_handle_place(s: Seq<RecordView>, i: int)
    requires
        0 <= i < s.len(),
        s[i].code == 5,
    ensures
        0 <= handle_place(s, i) < handles_in(s).len(),
        handles_in(s)[handle_place(s, i)] == s[i].value,
        handles_in(s.take(i + 1)).len() == handle_place(s, i) + 1,
{
    let a = s.take(i);
    let b = seq![s[i]];
    let c = s.skip(i + 1);
    assert(s =~= a + b + c);
    assert(s.take(i + 1) =~= a + b);
    lemma_handles_join(a + b, c);
    lemma_handles_join(a, b);
    assert(b.drop_last() =~= Seq::<RecordView>::empty());
    assert(handles_in(b.drop_last()) =~= Seq::<ValueView>::empty());
    assert(handles_in(b) =~= seq![s[i].value]);
}

proof fn lemma_handle_place_grows(s: Seq<RecordView>, i: int, j: int)
    requires
        0 <= i <= j <= s.len(),
    ensures
        handles_in(s.take(i)).len() <= handles_in(s.take(j)).len(),
{
    let a = s.take(i);
    let b = s.subrange(i, j);
    assert(s.take(j) =~= a + b);
    lemma_handles_join(a, b);
}

/// No two records of a document have the same handle, and every handle
/// is a number from 1 on in upper-case hexadecimal.
pub proof fn handles_are_distinct(doc: DxfDocumentView, i: int, j: int)
    requires
        0 <= i < j < document_records_of(doc).len(),
        document_records_of(doc)[i].code == 5,
        document_records_of(doc)[j].code == 5,
    ensures
        document_records_of(doc)[i].value != document_records_of(doc)[j].value,
        exists|n: nat| n >= 1 && document_records_of(doc)[i].value == ValueView::Text(hex_text(n)),
        exists|n: nat| n >= 1 && document_records_of(doc)[j].value == ValueView::Text(hex_text(n)),
{
    let s = document_records_of(doc);
    let all = handles_in(s);
    let p = handle_place(s, i);
    let q = handle_place(s, j);
    lemma_handle_place(s, i);
    lemma_handle_place(s, j);
    lemma_handle_place_grows(s, i + 1, j);
    assert(p < q);
    lemma_document_handles(doc);
    let t = tables_start(doc);
    let b = blocks_start(doc);
    let first = (b - t) as nat;
    let second = (t - 1) as nat;
    let number = |k: int|
        if k < first {
            (t + k) as nat
        } else if k < first + second {
            (1 + (k - first)) as nat
        } else {
            (b + (k - first - second)) as nat
        };
    assert(all[p] == ValueView::Text(hex_text(number(p))));
    assert(all[q] == ValueView::Text(hex_text(number(q))));
    assert(number(p) != number(q));
    assert(number(p) >= 1 && number(q) >= 1);
    if hex_text(number(p)) == hex_text(number(q)) {
        lemma_hex_text_injective(number(p), number(q));
    }
}

} // verus!
