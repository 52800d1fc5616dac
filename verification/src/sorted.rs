//! Facts about the ordered rows that the tables of a document are written
//! from: that they ascend, hold each name once, and hold the names they
//! should.

use vstd::prelude::*;
use crate::dxf::{DxfBlockView, DxfDocumentView, DxfLayerView};
use crate::text::lex_lt;
use crate::writer::{
    entity_line_types, first_layer_not_less, first_not_less, layer_line_types, line_types_of,
    sorted_layers, with_block_line_types, with_layer, with_name, with_names,
};

verus! {

/// No text comes before itself.
pub proof fn lemma_lex_irreflexive(a: Seq<char>)
    ensures
        !lex_lt(a, a),
    decreases a.len(),
{
    if a.len() > 0 {
        lemma_lex_irreflexive(a.drop_first());
    }
}

/// What comes before something that comes before a third comes before the
/// third.
pub proof fn lemma_lex_transitive(a: Seq<char>, b: Seq<char>, c: Seq<char>)
    requires
        lex_lt(a, b),
        lex_lt(b, c),
    ensures
        lex_lt(a, c),
    decreases a.len(),
{
    if a.len() > 0 && b.len() > 0 && c.len() > 0 {
        if a[0] == b[0] && b[0] == c[0] {
            lemma_lex_transitive(a.drop_first(), b.drop_first(), c.drop_first());
        }
    }
}

/// Of two different texts one comes before the other.
pub proof fn lemma_lex_total(a: Seq<char>, b: Seq<char>)
    requires
        a != b,
    ensures
        lex_lt(a, b) || lex_lt(b, a),
    decreases a.len(),
{
    if a.len() == 0 {
        if b.len() == 0 {
            assert(a =~= b);
        }
    } else if b.len() > 0 {
        if a[0] == b[0] {
            if a.drop_first() == b.drop_first() {
                assert(a =~= seq![a[0]] + a.drop_first());
                assert(b =~= seq![b[0]] + b.drop_first());
            } else {
                lemma_lex_total(a.drop_first(), b.drop_first());
            }
        } else {
            vstd::utf8::char_u32_cast(a[0], a[0] as u32);
            vstd::utf8::char_u32_cast(b[0], b[0] as u32);
        }
    }
}

/// Each text of the row comes before the next.
pub open spec fn ascending(s: Seq<Seq<char>>) -> bool {
    forall|i: int, j: int| 0 <= i < j < s.len() ==> lex_lt(#[trigger] s[i], #[trigger] s[j])
}

proof fn lemma_first_not_less(sorted: Seq<Seq<char>>, name: Seq<char>, from: int)
    requires
        0 <= from <= sorted.len(),
    ensures
        from <= first_not_less(sorted, name, from) <= sorted.len(),
        forall|k: int|
            from <= k < first_not_less(sorted, name, from) ==> lex_lt(#[trigger] sorted[k], name),
        first_not_less(sorted, name, from) < sorted.len() ==> !lex_lt(
            sorted[first_not_less(sorted, name, from)],
            name,
        ),
    decreases sorted.len() - from,
{
    if from < sorted.len() && lex_lt(sorted[from], name) {
        lemma_first_not_less(sorted, name, from + 1);
    }
}

/// Putting a text into an ascending row leaves the row ascending, and adds
/// that text to its members and nothing else.
pub proof fn lemma_with_name(sorted: Seq<Seq<char>>, name: Seq<char>)
    requires
        ascending(sorted),
    ensures
        ascending(with_name(sorted, name)),
        forall|x: Seq<char>|
            with_name(sorted, name).contains(x) <==> (sorted.contains(x) || x == name),
{
    lemma_first_not_less(sorted, name, 0);
    let i = first_not_less(sorted, name, 0);
    let out = with_name(sorted, name);
    if i < sorted.len() && sorted[i] == name {
        assert(sorted.contains(name));
    } else {
        assert(out == sorted.insert(i, name));
        assert forall|k: int| i <= k < sorted.len() implies lex_lt(name, #[trigger] sorted[k]) by {
            lemma_lex_total(sorted[i], name);
            if k > i {
                lemma_lex_transitive(name, sorted[i], sorted[k]);
            }
        }
        assert forall|a: int, b: int| 0 <= a < b < out.len() implies lex_lt(
            #[trigger] out[a],
            #[trigger] out[b],
        ) by {
            if b < i {
                assert(out[a] == sorted[a] && out[b] == sorted[b]);
            } else if b == i {
                assert(out[a] == sorted[a]);
            } else if a < i {
                assert(out[a] == sorted[a] && out[b] == sorted[b - 1]);
                lemma_lex_transitive(sorted[a], name, sorted[b - 1]);
            } else if a == i {
                assert(out[b] == sorted[b - 1]);
            } else {
                assert(out[a] == sorted[a - 1] && out[b] == sorted[b - 1]);
            }
        }
        assert forall|x: Seq<char>| out.contains(x) <==> (sorted.contains(x) || x == name) by {
            if out.contains(x) {
                let k = choose|k: int| 0 <= k < out.len() && out[k] == x;
                if k < i {
                    assert(sorted[k] == x);
                } else if k > i {
                    assert(sorted[k - 1] == x);
                }
            }
            if sorted.contains(x) {
                let k = choose|k: int| 0 <= k < sorted.len() && sorted[k] == x;
                if k < i {
                    assert(out[k] == x);
                } else {
                    assert(out[k + 1] == x);
                }
            }
            if x == name {
                assert(out[i] == x);
            }
        }
    }
}

/// Putting texts into an ascending row leaves the row ascending, and adds
/// those texts to its members and nothing else.
pub proof fn lemma_with_names(start: Seq<Seq<char>>, input: Seq<Seq<char>>)
    requires
        ascending(start),
    ensures
        ascending(with_names(start, input)),
        forall|x: Seq<char>|
            with_names(start, input).contains(x) <==> (start.contains(x) || input.contains(x)),
    decreases input.len(),
{
    if input.len() > 0 {
        let front = input.drop_last();
        lemma_with_names(start, front);
        lemma_with_name(with_names(start, front), input.last());
        assert forall|x: Seq<char>|
            with_names(start, input).contains(x) <==> (start.contains(x) || input.contains(
                x,
            )) by {
            if front.contains(x) {
                let k = choose|k: int| 0 <= k < front.len() && front[k] == x;
                assert(input[k] == x);
            }
            if input.contains(x) {
                let k = choose|k: int| 0 <= k < input.len() && input[k] == x;
                if k < input.len() - 1 {
                    assert(front[k] == x);
                }
            }
            if x == input.last() {
                assert(input[input.len() - 1] == x);
            }
        }
    }
}

/// Whether some entity of some block has the line type.
pub open spec fn in_blocks(blocks: Seq<DxfBlockView>, x: Seq<char>) -> bool {
    exists|b: int|
        0 <= b < blocks.len() && entity_line_types((#[trigger] blocks[b]).entities).contains(x)
}

proof fn lemma_with_block_line_types(start: Seq<Seq<char>>, blocks: Seq<DxfBlockView>)
    requires
        ascending(start),
    ensures
        ascending(with_block_line_types(start, blocks)),
        forall|x: Seq<char>|
            with_block_line_types(start, blocks).contains(x) <==> (start.contains(x) || in_blocks(
                blocks,
                x,
            )),
    decreases blocks.len(),
{
    if blocks.len() > 0 {
        let front = blocks.drop_last();
        lemma_with_block_line_types(start, front);
        lemma_with_names(
            with_block_line_types(start, front),
            entity_line_types(blocks.last().entities),
        );
        assert forall|x: Seq<char>|
            with_block_line_types(start, blocks).contains(x) <==> (start.contains(x) || in_blocks(
                blocks,
                x,
            )) by {
            if in_blocks(front, x) {
                let b = choose|b: int|
                    0 <= b < front.len() && entity_line_types(
                        (#[trigger] front[b]).entities,
                    ).contains(x);
                assert(blocks[b] == front[b]);
            }
            if in_blocks(blocks, x) {
                let b = choose|b: int|
                    0 <= b < blocks.len() && entity_line_types(
                        (#[trigger] blocks[b]).entities,
                    ).contains(x);
                if b < blocks.len() - 1 {
                    assert(front[b] == blocks[b]);
                }
            }
            if entity_line_types(blocks.last().entities).contains(x) {
                assert(blocks[blocks.len() - 1] == blocks.last());
            }
        }
    }
}

/// The line types of a document are written in ascending order, each
/// once. They are `BYLAYER`, `BYBLOCK`, `CONTINUOUS` and those that a
/// layer, an entity or an entity of a block names, and no others.
pub proof fn line_types_are_ordered_and_complete(doc: DxfDocumentView)
    ensures
        ascending(line_types_of(doc)),
        forall|x: Seq<char>|
            line_types_of(doc).contains(x) <==> (x == "BYLAYER"@ || x == "BYBLOCK"@ || x
                == "CONTINUOUS"@ || layer_line_types(doc.layers).contains(x) || entity_line_types(
                doc.entities,
            ).contains(x) || in_blocks(doc.blocks, x)),
{
    let none = Seq::<Seq<char>>::empty();
    let a = with_names(none, layer_line_types(doc.layers));
    let b = with_names(a, entity_line_types(doc.entities));
    let c = with_block_line_types(b, doc.blocks);
    let three = seq!["BYLAYER"@, "BYBLOCK"@, "CONTINUOUS"@];
    lemma_with_names(none, layer_line_types(doc.layers));
    lemma_with_names(a, entity_line_types(doc.entities));
    lemma_with_block_line_types(b, doc.blocks);
    lemma_with_names(c, three);
    assert forall|x: Seq<char>|
        three.contains(x) <==> (x == "BYLAYER"@ || x == "BYBLOCK"@ || x == "CONTINUOUS"@) by {
        assert(three[0] == "BYLAYER"@ && three[1] == "BYBLOCK"@ && three[2] == "CONTINUOUS"@);
    }
}

/// Each layer of the row has a name that comes before the next one's.
pub open spec fn ascending_layers(s: Seq<DxfLayerView>) -> bool {
    forall|i: int, j: int|
        0 <= i < j < s.len() ==> lex_lt((#[trigger] s[i]).name, (#[trigger] s[j]).name)
}

/// The first layer of the row that has the given name.
pub open spec fn first_layer_named(layers: Seq<DxfLayerView>, name: Seq<char>) -> Option<
    DxfLayerView,
>
    decreases layers.len(),
{
    if layers.len() == 0 {
        None
    } else {
        match first_layer_named(layers.drop_last(), name) {
            Some(l) => Some(l),
            None => if layers.last().name == name {
                Some(layers.last())
            } else {
                None
            },
        }
    }
}

proof fn lemma_first_layer_not_less(sorted: Seq<DxfLayerView>, name: Seq<char>, from: int)
    requires
        0 <= from <= sorted.len(),
    ensures
        from <= first_layer_not_less(sorted, name, from) <= sorted.len(),
        forall|k: int|
            from <= k < first_layer_not_less(sorted, name, from) ==> lex_lt(
                (#[trigger] sorted[k]).name,
                name,
            ),
        first_layer_not_less(sorted, name, from) < sorted.len() ==> !lex_lt(
            sorted[first_layer_not_less(sorted, name, from)].name,
            name,
        ),
    decreases sorted.len() - from,
{
    if from < sorted.len() && lex_lt(sorted[from].name, name) {
        lemma_first_layer_not_less(sorted, name, from + 1);
    }
}

/// Whether `out` holds, for every name, the layer that `of` gives for it
/// and no other.
pub open spec fn holds_first_layers(out: Seq<DxfLayerView>, layers: Seq<DxfLayerView>) -> bool {
    forall|l: DxfLayerView| out.contains(l) <==> first_layer_named(layers, l.name) == Some(l)
}

proof fn lemma_first_layer_named_has_name(layers: Seq<DxfLayerView>, name: Seq<char>)
    ensures
        match first_layer_named(layers, name) {
            Some(l) => l.name == name,
            None => true,
        },
    decreases layers.len(),
{
    if layers.len() > 0 {
        lemma_first_layer_named_has_name(layers.drop_last(), name);
    }
}

proof fn lemma_with_layer(out: Seq<DxfLayerView>, front: Seq<DxfLayerView>, layer: DxfLayerView)
    requires
        ascending_layers(out),
        holds_first_layers(out, front),
    ensures
        ascending_layers(with_layer(out, layer)),
        holds_first_layers(with_layer(out, layer), front.push(layer)),
{
    lemma_first_layer_not_less(out, layer.name, 0);
    let i = first_layer_not_less(out, layer.name, 0);
    let now = with_layer(out, layer);
    let all = front.push(layer);
    assert(all.drop_last() =~= front);
    assert(all.last() == layer);
    if i < out.len() && out[i].name == layer.name {
        let kept = out[i];
        assert(out.contains(kept));
        assert(first_layer_named(front, kept.name) == Some(kept));
        assert forall|l: DxfLayerView| now.contains(l) <==> first_layer_named(all, l.name) == Some(
            l,
        ) by {
            lemma_first_layer_named_has_name(front, l.name);
        }
    } else {
        assert(now == out.insert(i, layer));
        assert forall|k: int| i <= k < out.len() implies lex_lt(
            layer.name,
            (#[trigger] out[k]).name,
        ) by {
            lemma_lex_total(out[i].name, layer.name);
            if k > i {
                lemma_lex_transitive(layer.name, out[i].name, out[k].name);
            }
        }
        assert forall|a: int, b: int| 0 <= a < b < now.len() implies lex_lt(
            (#[trigger] now[a]).name,
            (#[trigger] now[b]).name,
        ) by {
            if b < i {
                assert(now[a] == out[a] && now[b] == out[b]);
            } else if b == i {
                assert(now[a] == out[a]);
            } else if a < i {
                assert(now[a] == out[a] && now[b] == out[b - 1]);
                lemma_lex_transitive(out[a].name, layer.name, out[b - 1].name);
            } else if a == i {
                assert(now[b] == out[b - 1]);
            } else {
                assert(now[a] == out[a - 1] && now[b] == out[b - 1]);
            }
        }
        // No layer of `out` has the new name.
        assert forall|k: int| 0 <= k < out.len() implies (#[trigger] out[k]).name
            != layer.name by {
            if out[k].name == layer.name {
                lemma_lex_irreflexive(layer.name);
            }
        }
        assert(first_layer_named(front, layer.name) is None) by {
            if first_layer_named(front, layer.name) is Some {
                let l = first_layer_named(front, layer.name)->Some_0;
                lemma_first_layer_named_has_name(front, layer.name);
                assert(out.contains(l));
                let k = choose|k: int| 0 <= k < out.len() && out[k] == l;
                assert(out[k].name == layer.name);
            }
        }
        assert forall|l: DxfLayerView| now.contains(l) <==> first_layer_named(all, l.name) == Some(
            l,
        ) by {
            lemma_first_layer_named_has_name(front, l.name);
            if now.contains(l) {
                let k = choose|k: int| 0 <= k < now.len() && now[k] == l;
                if k < i {
                    assert(out[k] == l);
                    assert(out.contains(l));
                } else if k > i {
                    assert(out[k - 1] == l);
                    assert(out.contains(l));
                }
            }
            if out.contains(l) {
                let k = choose|k: int| 0 <= k < out.len() && out[k] == l;
                if k < i {
                    assert(now[k] == l);
                } else {
                    assert(now[k + 1] == l);
                }
            }
            if l == layer {
                assert(now[i] == l);
            }
        }
    }
}

/// The layers of a document are written in the ascending order of their
/// names, each name once, and of layers with one name the first.
pub proof fn layers_are_ordered_and_first(layers: Seq<DxfLayerView>)
    ensures
        ascending_layers(sorted_layers(layers)),
        holds_first_layers(sorted_layers(layers), layers),
    decreases layers.len(),
{
    if layers.len() > 0 {
        let front = layers.drop_last();
        layers_are_ordered_and_first(front);
        lemma_with_layer(sorted_layers(front), front, layers.last());
        assert(front.push(layers.last()) =~= layers);
    }
}

} // verus!
