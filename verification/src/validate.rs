//! Questions about a drawing as a whole: how many entities of each kind
//! it holds, what its block definitions are called, and whether every
//! block reference finds its definition.

use vstd::prelude::*;
use std::collections::HashMap;
use crate::model::{
    block_def_views, entity_views, BlockDef, BlockDefView, Entity, EntityView, JwwDocument,
    JwwDocumentView,
};
use crate::text::same_text;

verus! {

broadcast use vstd::std_specs::hash::group_hash_axioms;

/// How many entities of a row have the given kind name.
pub open spec fn count_named(entities: Seq<EntityView>, name: Seq<char>) -> nat
    decreases entities.len(),
{
    if entities.len() == 0 {
        0
    } else {
        count_named(entities.drop_last(), name) + if entities.last().kind_name() == name {
            1nat
        } else {
            0nat
        }
    }
}

/// The number of entities of each kind.
#[derive(Debug, Clone, Copy, PartialEq, Eq)]
pub struct EntityCounts {
    pub line: usize,
    pub arc: usize,
    pub circle: usize,
    pub point: usize,
    pub text: usize,
    pub solid: usize,
    pub block: usize,
    pub dimension: usize,
}

impl EntityCounts {
    /// Whether these are the counts of the given row of entities.
    pub open spec fn counts(self, entities: Seq<EntityView>) -> bool {
        &&& self.line == count_named(entities, "LINE"@)
        &&& self.arc == count_named(entities, "ARC"@)
        &&& self.circle == count_named(entities, "CIRCLE"@)
        &&& self.point == count_named(entities, "POINT"@)
        &&& self.text == count_named(entities, "TEXT"@)
        &&& self.solid == count_named(entities, "SOLID"@)
        &&& self.block == count_named(entities, "BLOCK"@)
        &&& self.dimension == count_named(entities, "DIMENSION"@)
    }

    /// The count that goes with a kind name.
    pub open spec fn named(self, name: Seq<char>) -> Option<usize> {
        if name == "LINE"@ {
            Some(self.line)
        } else if name == "ARC"@ {
            Some(self.arc)
        } else if name == "CIRCLE"@ {
            Some(self.circle)
        } else if name == "POINT"@ {
            Some(self.point)
        } else if name == "TEXT"@ {
            Some(self.text)
        } else if name == "SOLID"@ {
            Some(self.solid)
        } else if name == "BLOCK"@ {
            Some(self.block)
        } else if name == "DIMENSION"@ {
            Some(self.dimension)
        } else {
            None
        }
    }

    /// The count of the kind with the given name, where there is at least
    /// one entity of that kind.
    pub fn get(&self, name: &str) -> (r: Option<usize>)
        ensures
            r == match self.named(name@) {
                Some(n) => if n > 0 {
                    Some(n)
                } else {
                    None
                },
                None => None,
            },
    {
        let n = if same_text(name, "LINE") {
            self.line
        } else if same_text(name, "ARC") {
            self.arc
        } else if same_text(name, "CIRCLE") {
            self.circle
        } else if same_text(name, "POINT") {
            self.point
        } else if same_text(name, "TEXT") {
            self.text
        } else if same_text(name, "SOLID") {
            self.solid
        } else if same_text(name, "BLOCK") {
            self.block
        } else if same_text(name, "DIMENSION") {
            self.dimension
        } else {
            0
        };
        if n > 0 {
            Some(n)
        } else {
            None
        }
    }
}

proof fn lemma_kind_names_differ()
    ensures
        "LINE"@.len() == 4 && "LINE"@[0] == 'L',
        "ARC"@.len() == 3,
        "CIRCLE"@.len() == 6,
        "POINT"@.len() == 5 && "POINT"@[0] == 'P',
        "TEXT"@.len() == 4 && "TEXT"@[0] == 'T',
        "SOLID"@.len() == 5 && "SOLID"@[0] == 'S' && "SOLID"@[1] == 'O',
        "BLOCK"@.len() == 5 && "BLOCK"@[0] == 'B',
        "DIMENSION"@.len() == 9,
{
    reveal_strlit("LINE");
    reveal_strlit("ARC");
    reveal_strlit("CIRCLE");
    reveal_strlit("POINT");
    reveal_strlit("TEXT");
    reveal_strlit("SOLID");
    reveal_strlit("BLOCK");
    reveal_strlit("DIMENSION");
}

proof fn lemma_count_bound(entities: Seq<EntityView>, name: Seq<char>)
    ensures
        count_named(entities, name) <= entities.len(),
    decreases entities.len(),
{
    if entities.len() > 0 {
        lemma_count_bound(entities.drop_last(), name);
    }
}

/// Counts the entities of each kind.
pub fn entity_counts(entities: &[Entity]) -> (r: EntityCounts)
    ensures
        r.counts(entity_views(entities@)),
{
    let mut c = EntityCounts {
        line: 0,
        arc: 0,
        circle: 0,
        point: 0,
        text: 0,
        solid: 0,
        block: 0,
        dimension: 0,
    };
    let mut i: usize = 0;
    while i < entities.len()
        invariant
            i <= entities.len(),
            c.counts(entity_views(entities@.take(i as int))),
        decreases entities.len() - i,
    {
        proof {
            let now = entity_views(entities@.take(i + 1));
            let was = entity_views(entities@.take(i as int));
            assert(now.drop_last() =~= was);
            assert(now.last() == entities@[i as int]@);
            lemma_kind_names_differ();
            lemma_count_bound(was, "LINE"@);
            lemma_count_bound(was, "ARC"@);
            lemma_count_bound(was, "CIRCLE"@);
            lemma_count_bound(was, "POINT"@);
            lemma_count_bound(was, "TEXT"@);
            lemma_count_bound(was, "SOLID"@);
            lemma_count_bound(was, "BLOCK"@);
            lemma_count_bound(was, "DIMENSION"@);
        }
        match &entities[i] {
            Entity::Line(_) => {
                c.line += 1;
            },
            Entity::Arc(arc) => {
                if arc.is_full_circle {
                    c.circle += 1;
                } else {
                    c.arc += 1;
                }
            },
            Entity::Point(_) => {
                c.point += 1;
            },
            Entity::Text(_) => {
                c.text += 1;
            },
            Entity::Solid(_) => {
                c.solid += 1;
            },
            Entity::Block(_) => {
                c.block += 1;
            },
            Entity::Dimension(_) => {
                c.dimension += 1;
            },
        }
        i += 1;
    }
    assert(entities@.take(entities@.len() as int) =~= entities@);
    c
}

/// The names of block definitions by number; of two definitions with one
/// number the later one gives the name.
pub open spec fn name_map_of(defs: Seq<BlockDefView>) -> Map<u32, Seq<char>>
    decreases defs.len(),
{
    if defs.len() == 0 {
        Map::empty()
    } else {
        name_map_of(defs.drop_last()).insert(defs.last().number, defs.last().name)
    }
}

/// What a map of names holds, as contracts speak of it.
pub open spec fn text_map_view(m: Map<u32, String>) -> Map<u32, Seq<char>> {
    Map::new(|k: u32| m.contains_key(k), |k: u32| m[k]@)
}

/// Whether a definition with the given number is in the row.
pub open spec fn is_defined(defs: Seq<BlockDefView>, n: u32) -> bool {
    exists|i: int| 0 <= i < defs.len() && #[trigger] defs[i].number == n
}

/// The numbers in the map of names are those of the definitions.
pub proof fn lemma_name_map_keys(defs: Seq<BlockDefView>, n: u32)
    ensures
        name_map_of(defs).contains_key(n) <==> is_defined(defs, n),
    decreases defs.len(),
{
    if defs.len() > 0 {
        let front = defs.drop_last();
        lemma_name_map_keys(front, n);
        if is_defined(front, n) {
            let i = choose|i: int| 0 <= i < front.len() && #[trigger] front[i].number == n;
            assert(defs[i].number == n);
        }
        if is_defined(defs, n) {
            let i = choose|i: int| 0 <= i < defs.len() && #[trigger] defs[i].number == n;
            if i < defs.len() - 1 {
                assert(front[i].number == n);
            }
        }
        if defs.last().number == n {
            assert(defs[defs.len() - 1].number == n);
        }
    }
}

pub fn block_def_name_map(block_defs: &[BlockDef]) -> (r: HashMap<u32, String>)
    ensures
        text_map_view(r@) == name_map_of(block_def_views(block_defs@)),
{
    let mut map: HashMap<u32, String> = HashMap::new();
    let mut i: usize = 0;
    assert(text_map_view(map@) =~= Map::<u32, Seq<char>>::empty());
    while i < block_defs.len()
        invariant
            i <= block_defs.len(),
            text_map_view(map@) == name_map_of(block_def_views(block_defs@.take(i as int))),
        decreases block_defs.len() - i,
    {
        let ghost before = text_map_view(map@);
        let name = block_defs[i].name.clone();
        map.insert(block_defs[i].number, name);
        proof {
            let now = block_def_views(block_defs@.take(i + 1));
            let was = block_def_views(block_defs@.take(i as int));
            assert(now.drop_last() =~= was);
            assert(now.last() == block_defs@[i as int]@);
            assert(text_map_view(map@) =~= before.insert(
                block_defs@[i as int].number,
                block_defs@[i as int].name@,
            ));
        }
        i += 1;
    }
    assert(block_defs@.take(block_defs@.len() as int) =~= block_defs@);
    map
}

/// The place of the first definition with the given number, from `from`
/// on.
pub open spec fn first_def_from(defs: Seq<BlockDefView>, n: u32, from: int) -> Option<int>
    decreases defs.len() - from,
{
    if from >= defs.len() {
        None
    } else if defs[from].number == n {
        Some(from)
    } else {
        first_def_from(defs, n, from + 1)
    }
}

/// The name of the first definition with the given number.
pub open spec fn resolved_name(defs: Seq<BlockDefView>, n: u32) -> Option<Seq<char>> {
    match first_def_from(defs, n, 0) {
        Some(i) => Some(defs[i].name),
        None => None,
    }
}

pub fn resolve_block_name<'a>(def_number: u32, block_defs: &'a [BlockDef]) -> (r: Option<&'a str>)
    ensures
        match r {
            Some(name) => resolved_name(block_def_views(block_defs@), def_number) == Some(name@),
            None => resolved_name(block_def_views(block_defs@), def_number) is None,
        },
{
    let ghost defs = block_def_views(block_defs@);
    let mut i: usize = 0;
    while i < block_defs.len()
        invariant
            i <= block_defs.len(),
            defs == block_def_views(block_defs@),
            first_def_from(defs, def_number, 0) == first_def_from(defs, def_number, i as int),
        decreases block_defs.len() - i,
    {
        if block_defs[i].number == def_number {
            return Some(block_defs[i].name.as_str());
        }
        i += 1;
    }
    None
}

/// What checking the block references of a drawing found.
#[derive(Debug, Clone, PartialEq, Eq)]
pub struct BlockReferenceValidation {
    /// How many block references there are, each counted as often as it
    /// occurs.
    pub total_references: usize,
    /// How many of them name a definition that exists.
    pub resolved_references: usize,
    /// The numbers named that no definition has, each once, ascending.
    pub unresolved_def_numbers: Vec<u32>,
}

impl BlockReferenceValidation {
    pub fn has_unresolved(&self) -> (r: bool)
        ensures
            r == (self.unresolved_def_numbers@.len() > 0),
    {
        !self.unresolved_def_numbers.is_empty()
    }
}

/// The definition numbers that the block references of a row name, in
/// order.
pub open spec fn block_refs(entities: Seq<EntityView>) -> Seq<u32>
    decreases entities.len(),
{
    if entities.len() == 0 {
        Seq::empty()
    } else {
        block_refs(entities.drop_last()) + match entities.last() {
            EntityView::Block(b) => seq![b.def_number],
            _ => Seq::empty(),
        }
    }
}

/// The definition numbers named inside block definitions, definition
/// after definition.
pub open spec fn nested_refs(defs: Seq<BlockDefView>) -> Seq<u32>
    decreases defs.len(),
{
    if defs.len() == 0 {
        Seq::empty()
    } else {
        nested_refs(defs.drop_last()) + block_refs(defs.last().entities)
    }
}

/// Every definition number that a drawing names: at top level first, then
/// inside its block definitions.
pub open spec fn all_refs(doc: JwwDocumentView) -> Seq<u32> {
    block_refs(doc.entities) + nested_refs(doc.block_defs)
}

/// How many of the numbers have a definition.
pub open spec fn count_defined(refs: Seq<u32>, defs: Seq<BlockDefView>) -> nat
    decreases refs.len(),
{
    if refs.len() == 0 {
        0
    } else {
        count_defined(refs.drop_last(), defs) + if is_defined(defs, refs.last()) {
            1nat
        } else {
            0nat
        }
    }
}

/// Strictly ascending.
pub open spec fn increasing(s: Seq<u32>) -> bool {
    forall|i: int, j: int| 0 <= i < j < s.len() ==> s[i] < s[j]
}

/// Whether a report is the one that belongs to a drawing.
pub open spec fn is_validation(
    doc: JwwDocumentView,
    total: int,
    resolved: int,
    unresolved: Seq<u32>,
) -> bool {
    let refs = all_refs(doc);
    &&& total == refs.len()
    &&& resolved == count_defined(refs, doc.block_defs)
    &&& increasing(unresolved)
    &&& forall|n: u32|
        unresolved.contains(n) <==> (refs.contains(n) && !is_defined(doc.block_defs, n))
}

fn collect_block_ref_numbers(entities: &[Entity], out: &mut Vec<u32>)
    ensures
        final(out)@ == old(out)@ + block_refs(entity_views(entities@)),
{
    let mut i: usize = 0;
    assert(out@ + Seq::<u32>::empty() =~= out@);
    while i < entities.len()
        invariant
            i <= entities.len(),
            out@ == old(out)@ + block_refs(entity_views(entities@.take(i as int))),
        decreases entities.len() - i,
    {
        let ghost before = out@;
        proof {
            let now = entity_views(entities@.take(i + 1));
            let was = entity_views(entities@.take(i as int));
            assert(now.drop_last() =~= was);
            assert(now.last() == entities@[i as int]@);
        }
        match &entities[i] {
            Entity::Block(block) => {
                out.push(block.def_number);
                assert(out@ =~= old(out)@ + block_refs(entity_views(entities@.take(i + 1))));
            },
            _ => {
                assert(out@ =~= old(out)@ + block_refs(entity_views(entities@.take(i + 1))));
            },
        }
        i += 1;
    }
    assert(entities@.take(entities@.len() as int) =~= entities@);
}

/// Puts `n` into an ascending row, unless it is there.
fn insert_ascending(v: &mut Vec<u32>, n: u32)
    requires
        increasing(old(v)@),
    ensures
        increasing(final(v)@),
        forall|m: u32| final(v)@.contains(m) <==> (old(v)@.contains(m) || m == n),
{
    let mut i: usize = 0;
    while i < v.len() && v[i] < n
        invariant
            i <= v.len(),
            v@ == old(v)@,
            forall|k: int| 0 <= k < i ==> v@[k] < n,
        decreases v.len() - i,
    {
        i += 1;
    }
    if i < v.len() && v[i] == n {
        assert(v@.contains(n));
        return ;
    }
    let ghost before = v@;
    v.insert(i, n);
    proof {
        assert forall|a: int, b: int| 0 <= a < b < v@.len() implies v@[a] < v@[b] by {
            if b < i {
                assert(v@[a] == before[a] && v@[b] == before[b]);
            } else if b == i {
                assert(v@[a] == before[a]);
            } else if a < i {
                assert(v@[a] == before[a] && v@[b] == before[b - 1]);
                assert(before[a] < n);
                if i < before.len() {
                    assert(before[i as int] > n);
                    assert(i as int <= b - 1);
                    if (i as int) < b - 1 {
                        assert(before[i as int] < before[b - 1]);
                    }
                }
            } else if a == i {
                assert(v@[b] == before[b - 1]);
                assert(before[i as int] > n);
                if (i as int) < b - 1 {
                    assert(before[i as int] < before[b - 1]);
                }
            } else {
                assert(v@[a] == before[a - 1] && v@[b] == before[b - 1]);
            }
        }
        assert forall|m: u32| v@.contains(m) <==> (before.contains(m) || m == n) by {
            if v@.contains(m) {
                let k = choose|k: int| 0 <= k < v@.len() && v@[k] == m;
                if k < i {
                    assert(before[k] == m);
                } else if k > i {
                    assert(before[k - 1] == m);
                }
            }
            if before.contains(m) {
                let k = choose|k: int| 0 <= k < before.len() && before[k] == m;
                if k < i {
                    assert(v@[k] == m);
                } else {
                    assert(v@[k + 1] == m);
                }
            }
            if m == n {
                assert(v@[i as int] == m);
            }
        }
    }
}

/// Checks every block reference of a drawing against its definitions.
pub fn validate_block_references(document: &JwwDocument) -> (r: BlockReferenceValidation)
    ensures
        is_validation(
            document@,
            r.total_references as int,
            r.resolved_references as int,
            r.unresolved_def_numbers@,
        ),
{
    let ghost doc = document@;
    let mut ref_numbers: Vec<u32> = Vec::new();
    collect_block_ref_numbers(document.entities.as_slice(), &mut ref_numbers);
    assert(ref_numbers@ =~= block_refs(doc.entities));
    let mut d: usize = 0;
    assert(block_refs(doc.entities) + Seq::<u32>::empty() =~= block_refs(doc.entities));
    while d < document.block_defs.len()
        invariant
            d <= document.block_defs.len(),
            doc == document@,
            ref_numbers@ == block_refs(doc.entities) + nested_refs(
                block_def_views(document.block_defs@.take(d as int)),
            ),
        decreases document.block_defs.len() - d,
    {
        let ghost before = ref_numbers@;
        proof {
            let now = block_def_views(document.block_defs@.take(d + 1));
            let was = block_def_views(document.block_defs@.take(d as int));
            assert(now.drop_last() =~= was);
            assert(now.last() == document.block_defs@[d as int]@);
        }
        collect_block_ref_numbers(document.block_defs[d].entities.as_slice(), &mut ref_numbers);
        proof {
            let was = block_def_views(document.block_defs@.take(d as int));
            let more = block_refs(document.block_defs@[d as int]@.entities);
            assert((block_refs(doc.entities) + nested_refs(was)) + more =~= block_refs(doc.entities)
                + (nested_refs(was) + more));
        }
        d += 1;
    }
    assert(document.block_defs@.take(document.block_defs@.len() as int) =~= document.block_defs@);
    assert(ref_numbers@ == all_refs(doc));
    let total_references = ref_numbers.len();
    let name_map = block_def_name_map(document.block_defs.as_slice());
    let mut resolved_references: usize = 0;
    let mut unresolved: Vec<u32> = Vec::new();
    let mut i: usize = 0;
    while i < ref_numbers.len()
        invariant
            i <= ref_numbers.len(),
            doc == document@,
            text_map_view(name_map@) == name_map_of(doc.block_defs),
            resolved_references == count_defined(ref_numbers@.take(i as int), doc.block_defs),
            resolved_references <= i,
            increasing(unresolved@),
            forall|n: u32|
                unresolved@.contains(n) <==> (ref_numbers@.take(i as int).contains(n)
                    && !is_defined(doc.block_defs, n)),
        decreases ref_numbers.len() - i,
    {
        let def_number = ref_numbers[i];
        let ghost seen = ref_numbers@.take(i as int);
        let ghost next = ref_numbers@.take(i + 1);
        let ghost old_unresolved = unresolved@;
        proof {
            lemma_name_map_keys(doc.block_defs, def_number);
            assert(text_map_view(name_map@).contains_key(def_number) == name_map@.contains_key(
                def_number,
            ));
            assert(next.drop_last() =~= seen);
            assert(next.last() == def_number);
        }
        if name_map.contains_key(&def_number) {
            resolved_references += 1;
        } else {
            insert_ascending(&mut unresolved, def_number);
        }
        proof {
            assert forall|n: u32|
                unresolved@.contains(n) <==> (next.contains(n) && !is_defined(
                    doc.block_defs,
                    n,
                )) by {
                if next.contains(n) {
                    let k = choose|k: int| 0 <= k < next.len() && next[k] == n;
                    if k < i {
                        assert(seen[k] == n);
                    }
                }
                if seen.contains(n) {
                    let k = choose|k: int| 0 <= k < seen.len() && seen[k] == n;
                    assert(next[k] == n);
                }
                assert(next[i as int] == def_number);
            }
        }
        i += 1;
    }
    assert(ref_numbers@.take(ref_numbers@.len() as int) =~= ref_numbers@);
    BlockReferenceValidation {
        total_references,
        resolved_references,
        unresolved_def_numbers: unresolved,
    }
}

/// Two ascending rows with the same members are the same row.
pub proof fn lemma_increasing_rows_equal(s: Seq<u32>, t: Seq<u32>)
    requires
        increasing(s),
        increasing(t),
        forall|n: u32| s.contains(n) <==> t.contains(n),
    ensures
        s == t,
    decreases s.len(),
{
    if s.len() == 0 {
        if t.len() > 0 {
            assert(t.contains(t[0]));
            assert(s.contains(t[0]));
        }
        assert(s =~= t);
    } else {
        assert(s.contains(s.last()));
        assert(t.contains(s.last()));
        let k = choose|k: int| 0 <= k < t.len() && t[k] == s.last();
        assert(t.contains(t.last()));
        assert(s.contains(t.last()));
        let j = choose|j: int| 0 <= j < s.len() && s[j] == t.last();
        if j < s.len() - 1 {
            assert(s[j] < s[s.len() - 1]);
        }
        if k < t.len() - 1 {
            assert(t[k] < t[t.len() - 1]);
        }
        assert(s.last() == t.last());
        let s0 = s.drop_last();
        let t0 = t.drop_last();
        assert forall|n: u32| s0.contains(n) <==> t0.contains(n) by {
            if s0.contains(n) {
                let a = choose|a: int| 0 <= a < s0.len() && s0[a] == n;
                assert(s[a] == n);
                assert(s[a] < s[s.len() - 1]);
                assert(s.contains(n));
                let b = choose|b: int| 0 <= b < t.len() && t[b] == n;
                assert(b < t.len() - 1);
                assert(t0[b] == n);
            }
            if t0.contains(n) {
                let a = choose|a: int| 0 <= a < t0.len() && t0[a] == n;
                assert(t[a] == n);
                assert(t[a] < t[t.len() - 1]);
                assert(t.contains(n));
                let b = choose|b: int| 0 <= b < s.len() && s[b] == n;
                assert(b < s.len() - 1);
                assert(s0[b] == n);
            }
        }
        assert(increasing(s0)) by {
            assert forall|a: int, b: int| 0 <= a < b < s0.len() implies s0[a] < s0[b] by {
                assert(s[a] < s[b]);
            }
        }
        assert(increasing(t0)) by {
            assert forall|a: int, b: int| 0 <= a < b < t0.len() implies t0[a] < t0[b] by {
                assert(t[a] < t[b]);
            }
        }
        lemma_increasing_rows_equal(s0, t0);
        assert(s =~= s0.push(s.last()));
        assert(t =~= t0.push(t.last()));
    }
}

/// Checking a drawing twice gives the same report: a drawing has only one
/// report that [`validate_block_references`] can return.
pub proof fn validation_is_idempotent(
    doc: JwwDocumentView,
    first: BlockReferenceValidation,
    second: BlockReferenceValidation,
)
    requires
        is_validation(
            doc,
            first.total_references as int,
            first.resolved_references as int,
            first.unresolved_def_numbers@,
        ),
        is_validation(
            doc,
            second.total_references as int,
            second.resolved_references as int,
            second.unresolved_def_numbers@,
        ),
    ensures
        first.total_references == second.total_references,
        first.resolved_references == second.resolved_references,
        first.unresolved_def_numbers@ == second.unresolved_def_numbers@,
{
    lemma_increasing_rows_equal(first.unresolved_def_numbers@, second.unresolved_def_numbers@);
}

} // verus!
