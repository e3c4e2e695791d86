//! Ordered maps of grammar values.
use vstd::prelude::*;
use vstd::slice::slice_subrange;
use vstd::string::StringExecFns;
use std::collections::BTreeMap;
use std::collections::VecDeque;
use vstd::std_specs::btree::{spec_btree_map_iter, key_obeys_cmp_spec, into_iter};
use vstd::std_specs::iter::IteratorSpec;
use crate::codec::{spec_u64_bytes, decode_u64, serialize_vec_len};
use crate::containers::deserialize_items;
use crate::node::{encodes_some, seq_encoding, Node, MutationType, GenerateSettings, seq_bytes, lemma_seq_bytes_step, one_edge, entered, parent_id,
    field_entered, field_left};
use crate::visitor::{Id, NodeType, Visitor};
use crate::prefix::group_prefix;

verus! {

broadcast use group_prefix, Visitor::lemma_extends_refl, Visitor::lemma_extends_trans;

/// Whether the keys of type `K` compare as their specification says, which
/// the specifications of `BTreeMap` rest on.
pub open spec fn keys_ordered<K>() -> bool {
    key_obeys_cmp_spec::<K>()
}

/// Whether cloning a `K` gives the same value.
pub open spec fn clones_equal<K: Clone>() -> bool {
    forall|a: K, b: K| #[trigger] cloned::<K>(a, b) ==> a == b
}

/// The entries of the map, in the order the map yields them.
pub open spec fn map_entries<K, V>(m: &BTreeMap<K, V>) -> Seq<(K, V)> {
    into_iter(spec_btree_map_iter(m))
}

/// The map that inserting the pairs of `s` in turn into an empty map gives:
/// a later pair for a key replaces an earlier one.
pub open spec fn pairs_map<K, V>(s: Seq<(K, V)>) -> Map<K, V>
    decreases s.len(),
{
    if s.len() == 0 {
        Map::empty()
    } else {
        pairs_map(s.drop_last()).insert(s.last().0, s.last().1)
    }
}

/// Inserting pairs that all agree with `m` gives a map that agrees with
/// `m` on the keys of those pairs.
pub proof fn lemma_pairs_map_agrees<K, V>(e: Seq<(K, V)>, m: Map<K, V>)
    requires
        forall|i: int| 0 <= i < e.len() ==> m.contains_key(#[trigger] e[i].0) && m[e[i].0] == e[i].1,
    ensures
        forall|k: K| #[trigger] pairs_map(e).contains_key(k) <==> exists|i: int| 0 <= i < e.len() && e[i].0 == k,
        forall|k: K| #[trigger] pairs_map(e).contains_key(k) ==> pairs_map(e)[k] == m[k],
    decreases e.len(),
{
    if e.len() > 0 {
        let f = e.drop_last();
        assert forall|i: int| 0 <= i < f.len() implies m.contains_key(#[trigger] f[i].0) && m[f[i].0] == f[i].1 by {
            assert(f[i] == e[i]);
        }
        lemma_pairs_map_agrees(f, m);
        assert(pairs_map(e) == pairs_map(f).insert(e.last().0, e.last().1));
        assert forall|k: K| #[trigger] pairs_map(e).contains_key(k) implies exists|i: int| 0 <= i < e.len() && e[i].0 == k by {
            if k != e.last().0 {
                assert(pairs_map(f).contains_key(k));
                let i = choose|i: int| 0 <= i < f.len() && f[i].0 == k;
                assert(e[i] == f[i]);
            } else {
                assert(e[e.len() - 1].0 == k);
            }
        }
        assert forall|k: K| (exists|i: int| 0 <= i < e.len() && e[i].0 == k) implies #[trigger] pairs_map(e).contains_key(k) by {
            let i = choose|i: int| 0 <= i < e.len() && e[i].0 == k;
            if i < e.len() - 1 {
                assert(f[i] == e[i]);
            }
        }
    }
}

/// The entries of a map, inserted in turn into an empty map, give it back.
pub proof fn lemma_entries_rebuild_map<K, V>(m: &BTreeMap<K, V>)
    requires
        map_entries(m) == spec_btree_map_iter(m).remaining().unref(),
    ensures
        pairs_map(map_entries(m)) == m@,
{
    let v = spec_btree_map_iter(m).remaining();
    let e = map_entries(m);
    assert forall|i: int| 0 <= i < e.len() implies m@.contains_key(#[trigger] e[i].0) && m@[e[i].0] == e[i].1 by {
        assert(e[i] == (*v[i].0, *v[i].1));
        assert(m@.contains_key(*v[i].0));
    }
    lemma_pairs_map_agrees(e, m@);
    assert forall|k: K| m@.contains_key(k) implies #[trigger] pairs_map(e).contains_key(k) by {
        assert(v.contains((&k, &m@[k])));
        let i = choose|i: int| 0 <= i < v.len() && v[i] == (&k, &m@[k]);
        assert(e[i] == (*v[i].0, *v[i].1));
        assert(e[i].0 == k);
    }
    assert(pairs_map(e) =~= m@);
}

/// Whether generating a key and then a value, from the visitor `before`,
/// can give the pair `r` (nothing where either generation fails) and leave
/// the visitor `after`.
pub open spec fn pair_generated<K: Node, V: Node>(before: Visitor, r: Option<(K, V)>, after: Visitor) -> bool {
    ||| r is None && K::generation(before, None, None, after)
    ||| exists|k: K, mid: Visitor|
        #![trigger K::generation(before, None, Some(k), mid)]
        K::generation(before, None, Some(k), mid) && match r {
            Some(p) => p.0 == k && V::generation(mid, None, Some(p.1), after),
            None => V::generation(mid, None, None, after),
        }
}

/// Whether walking the entry `e` inside a field at position `i`, its key
/// as field 0 of it and its value as field 1, from the visitor `before`,
/// can leave the visitor `after`: the entry is entered as a field of the
/// pair type, and what is recorded then stays recorded.
#[verifier::opaque]
pub open spec fn entry_walked<K: Node, V: Node>(
    e: (K, V),
    i: int,
    compared: Option<(u64, u64)>,
    before: Visitor,
    after: Visitor,
) -> bool {
    exists|id: Id, v1: Visitor, v2: Visitor, v3: Visitor|
        #![trigger field_entered(before, ((i as usize, NodeType::NonRecursive), id), <(K, V)>::spec_name(), v1), e.0.walk(0, compared, v1, v2), e.1.walk(1, compared, v2, v3)]
        field_entered(before, ((i as usize, NodeType::NonRecursive), id), <(K, V)>::spec_name(), v1) && e.0.walk(0, compared, v1, v2)
            && e.1.walk(1, compared, v2, v3) && field_left(v3, after) && v1.fields().is_prefix_of(after.fields())
            && v1.field_types().is_prefix_of(after.field_types())
}

/// Whether the visitors `vs` are those before and after walking each entry
/// of `es` in turn.
pub open spec fn entries_walked_through<K: Node, V: Node>(
    vs: Seq<Visitor>,
    es: Seq<(K, V)>,
    compared: Option<(u64, u64)>,
) -> bool {
    &&& vs.len() == es.len() + 1
    &&& forall|i: int| 0 <= i < es.len() ==> entry_walked(es[i], i, compared, #[trigger] vs[i], vs[i + 1])
}

/// Whether walking the entries of `es` in turn, from the visitor `before`,
/// can leave the visitor `after`.
pub open spec fn entries_walked<K: Node, V: Node>(
    es: Seq<(K, V)>,
    compared: Option<(u64, u64)>,
    before: Visitor,
    after: Visitor,
) -> bool {
    exists|vs: Seq<Visitor>| #[trigger] entries_walked_through(vs, es, compared) && vs[0] == before && vs.last() == after
}

/// Walking no entries leaves the visitor as it was.
pub proof fn lemma_entries_walked_empty<K: Node, V: Node>(compared: Option<(u64, u64)>, start: Visitor)
    ensures
        entries_walked(Seq::<(K, V)>::empty(), compared, start, start),
{
    assert(entries_walked_through(seq![start], Seq::<(K, V)>::empty(), compared));
}

/// Walking one entry keeps what was recorded before, and the first field
/// it records is entered at its position, with the plain shape, as a field
/// of the pair type.
pub proof fn lemma_entry_walked_enters_pair<K: Node, V: Node>(
    e: (K, V),
    i: int,
    compared: Option<(u64, u64)>,
    before: Visitor,
    after: Visitor,
)
    requires
        entry_walked(e, i, compared, before, after),
    ensures
        before.fields().is_prefix_of(after.fields()),
        before.field_types().is_prefix_of(after.field_types()),
        after.field_types().len() > before.field_types().len(),
        after.field_types()[before.field_types().len() as int] == <(K, V)>::spec_name(),
        after.fields().len() > before.fields().len(),
        after.fields()[before.fields().len() as int].last().0 == (i as usize, NodeType::NonRecursive),
{
    reveal(entry_walked);
    let (id, v1, v2, v3) = choose|id: Id, v1: Visitor, v2: Visitor, v3: Visitor|
        #![trigger field_entered(before, ((i as usize, NodeType::NonRecursive), id), <(K, V)>::spec_name(), v1), e.0.walk(0, compared, v1, v2), e.1.walk(1, compared, v2, v3)]
        field_entered(before, ((i as usize, NodeType::NonRecursive), id), <(K, V)>::spec_name(), v1)
            && e.0.walk(0, compared, v1, v2) && e.1.walk(1, compared, v2, v3) && field_left(v3, after)
            && v1.fields().is_prefix_of(after.fields()) && v1.field_types().is_prefix_of(after.field_types());
    assert(before.fields().is_prefix_of(v1.fields()));
    assert(before.field_types().is_prefix_of(v1.field_types()));
    assert(v1.field_types()[before.field_types().len() as int] == <(K, V)>::spec_name());
    assert(v1.fields()[before.fields().len() as int] == before.field_stack().push(
        ((i as usize, NodeType::NonRecursive), id),
    ));
}

/// Walking entries keeps what was recorded before; where there is an
/// entry, the first field it records is entered at position 0, with the
/// plain shape, as a field of the pair type.
pub proof fn lemma_entries_walked_enter_pairs<K: Node, V: Node>(
    es: Seq<(K, V)>,
    compared: Option<(u64, u64)>,
    before: Visitor,
    after: Visitor,
)
    requires
        entries_walked(es, compared, before, after),
    ensures
        before.fields().is_prefix_of(after.fields()),
        before.field_types().is_prefix_of(after.field_types()),
        es.len() > 0 ==> {
            &&& after.field_types().len() > before.field_types().len()
            &&& after.field_types()[before.field_types().len() as int] == <(K, V)>::spec_name()
            &&& after.fields().len() > before.fields().len()
            &&& after.fields()[before.fields().len() as int].last().0 == (0usize, NodeType::NonRecursive)
        },
    decreases es.len(),
{
    let vs = choose|vs: Seq<Visitor>| #[trigger] entries_walked_through(vs, es, compared) && vs[0] == before && vs.last() == after;
    if es.len() == 0 {
        assert(after == before);
    } else {
        let n = es.len() as int;
        let ws = vs.drop_last();
        let fs = es.drop_last();
        assert forall|i: int| 0 <= i < fs.len() implies entry_walked(fs[i], i, compared, #[trigger] ws[i], ws[i + 1]) by {
            assert(ws[i] == vs[i]);
            assert(ws[i + 1] == vs[i + 1]);
            assert(fs[i] == es[i]);
            assert(entry_walked(es[i], i, compared, vs[i], vs[i + 1]));
        }
        assert(entries_walked_through(ws, fs, compared));
        let mid = vs[n - 1];
        assert(ws.last() == mid);
        lemma_entries_walked_enter_pairs(fs, compared, before, mid);
        assert(entry_walked(es[n - 1], n - 1, compared, mid, after));
        lemma_entry_walked_enters_pair(es[n - 1], n - 1, compared, mid, after);
        if n == 1 {
            assert(mid == before);
        }
    }
}

/// Walking one more entry after `es` extends the walk.
pub proof fn lemma_entries_walked_push<K: Node, V: Node>(
    es: Seq<(K, V)>,
    compared: Option<(u64, u64)>,
    start: Visitor,
    mid: Visitor,
    e: (K, V),
    end: Visitor,
)
    requires
        entries_walked(es, compared, start, mid),
        entry_walked(e, es.len() as int, compared, mid, end),
    ensures
        entries_walked(es.push(e), compared, start, end),
{
    let vs = choose|vs: Seq<Visitor>| #[trigger] entries_walked_through(vs, es, compared) && vs[0] == start && vs.last() == mid;
    let ws = vs.push(end);
    let ys = es.push(e);
    assert forall|i: int| 0 <= i < ys.len() implies entry_walked(ys[i], i, compared, #[trigger] ws[i], ws[i + 1]) by {
        if i < es.len() {
            assert(ws[i] == vs[i]);
            assert(ws[i + 1] == vs[i + 1]);
            assert(ys[i] == es[i]);
            assert(entry_walked(es[i], i, compared, vs[i], vs[i + 1]));
        }
    }
    assert(entries_walked_through(ws, ys, compared));
}

/// The key of entry `n` of the map.
pub open spec fn nth_entry_key<K, V>(m: &BTreeMap<K, V>, n: int) -> K {
    map_entries(m)[n].0
}

/// How many fields walking the entries enters: one for each entry, and
/// those inside its key and its value.
pub open spec fn entries_field_count<K: Node, V: Node>(s: Seq<(K, V)>) -> nat
    decreases s.len(),
{
    if s.len() == 0 {
        0
    } else {
        entries_field_count(s.drop_last()) + 1 + s.last().0.field_count() + s.last().1.field_count()
    }
}

/// The operands that the comparison `val` records for the entries: those
/// of each key, then those of its value.
pub open spec fn entries_comparison_operands<K: Node, V: Node>(s: Seq<(K, V)>, val: (u64, u64)) -> Seq<Seq<u8>>
    decreases s.len(),
{
    if s.len() == 0 {
        Seq::empty()
    } else {
        entries_comparison_operands(s.drop_last(), val) + s.last().0.comparison_operands(val) + s.last().1.comparison_operands(val)
    }
}

/// The encodings that recording the entries records: for each entry, the
/// key's encoding, what the key records, the value's encoding and what the
/// value records.
pub open spec fn entries_records<K: Node, V: Node>(s: Seq<(K, V)>) -> Seq<Seq<u8>>
    decreases s.len(),
{
    if s.len() == 0 {
        Seq::empty()
    } else {
        entries_records(s.drop_last()) + seq![s.last().0.spec_serialize()] + s.last().0.serialized_records()
            + seq![s.last().1.spec_serialize()] + s.last().1.serialized_records()
    }
}

/// For each record that recording the entries of `s` in turn makes, the
/// name of the type it is made for: the key type, what the key records,
/// the value type, what the value records.
pub open spec fn entries_record_types<K: Node, V: Node>(s: Seq<(K, V)>) -> Seq<Seq<char>>
    decreases s.len(),
{
    if s.len() == 0 {
        Seq::empty()
    } else {
        entries_record_types(s.drop_last()) + seq![K::spec_name()] + s.last().0.serialized_record_types()
            + seq![V::spec_name()] + s.last().1.serialized_record_types()
    }
}

/// The next item of an iterator.
fn next_entry<I: Iterator>(it: &mut I) -> (r: Option<I::Item>)
    ensures
        (*final(it)).obeys_prophetic_iter_laws() == (*old(it)).obeys_prophetic_iter_laws(),
        (*old(it)).obeys_prophetic_iter_laws() ==> if (*old(it)).remaining().len() > 0 {
            &&& (*final(it)).remaining() == (*old(it)).remaining().drop_first()
            &&& r == Some((*old(it)).remaining()[0])
        } else {
            r is None
        },
{
    it.next()
}

/// A copy of the key of entry `n`, where there is one.
fn nth_key<K: Clone, V>(m: &BTreeMap<K, V>, n: usize) -> (r: Option<K>)
    requires
        keys_ordered::<K>(),
    ensures
        map_entries(m).len() == m@.dom().len(),
        forall|i: int| 0 <= i < map_entries(m).len() ==> m@.contains_key(#[trigger] map_entries(m)[i].0)
            && m@[map_entries(m)[i].0] == map_entries(m)[i].1,
        n < map_entries(m).len() ==> r is Some && cloned::<K>(map_entries(m)[n as int].0, r->0),
        n >= map_entries(m).len() ==> r is None,
{
    let mut i: usize = 0;
    for kv in it: m.iter()
        invariant
            i == it.index(),
            map_entries(m) == it.seq().map_values(|kv: (&K, &V)| (*kv.0, *kv.1)),
            it.seq() == spec_btree_map_iter(m).remaining(),
            i <= n,
    {
        if i == n {
            let k = kv.0.clone();
            return Some(k);
        }
        i = i + 1;
    }
    None
}


impl<K: Node + Clone + Ord, V: Node + Clone> Node for BTreeMap<K, V> {
    open spec fn spec_serialize(&self) -> Seq<u8> {
        spec_u64_bytes(map_entries(self).len() as u64) + seq_bytes(map_entries(self))
    }

    open spec fn spec_name() -> Seq<char> {
        "alloc::collections::btree::map::BTreeMap<"@ + K::spec_name() + ", "@ + V::spec_name() + ">"@
    }

    /// Reading a map accepts entries in any order and with repeated keys,
    /// so a map read back need not encode as the bytes it was read from.
    open spec fn is_lawful() -> bool {
        false
    }

    /// Reading is sure to give a map from the encoding of a sequence of
    /// entries, where keys and values are lawful.
    open spec fn read_ok(bytes: Seq<u8>) -> bool {
        &&& K::is_lawful() && V::is_lawful()
        &&& exists|s: Seq<(K, V)>| s.len() <= u64::MAX && #[trigger] seq_encoding(s).is_prefix_of(bytes)
    }

    /// A map read holds the entries read, inserted in turn; where keys and
    /// values are lawful, those entries encode as the start of the bytes.
    open spec fn reading(bytes: Seq<u8>, v: Self) -> bool {
        keys_ordered::<K>() ==> exists|s: Seq<(K, V)>| {
            &&& #[trigger] pairs_map(s) == v@
            &&& K::is_lawful() && V::is_lawful() ==> seq_encoding(s).is_prefix_of(bytes)
        }
    }

    /// Writing is canonical: the entries in the order of their keys.
    open spec fn encodes_exactly() -> bool {
        keys_ordered::<K>() && K::encodes_exactly() && V::encodes_exactly()
    }

    open spec fn walks_known() -> bool {
        keys_ordered::<K>() && K::walks_known() && V::walks_known()
    }

    open spec fn first_name_ok(name: Seq<char>) -> bool {
        false
    }

    open spec fn always_generates() -> bool {
        true
    }

    /// Where the order of the entries is known, each entry is walked in
    /// turn, inside a field at its position.
    open spec fn walk(&self, index: usize, compared: Option<(u64, u64)>, before: Visitor, after: Visitor) -> bool {
        Self::walks_known() ==> entries_walked(map_entries(self), compared, before, after)
    }

    /// One registration, of the type itself.
    open spec fn registration(before: Visitor, parent: Option<Id>, variant: usize, after: Visitor) -> bool {
        one_edge(before, parent, variant, Self::spec_name(), after)
    }

    /// Records one edge, to the type itself, and goes no deeper.
    fn __autarkie_register(v: &mut Visitor, parent: Option<(Id, String)>, variant: usize) {
        let ghost before = *v;
        let me = Self::register_self(v, parent, variant);
        let ghost id = me.0;
        let ghost mid = *v;
        v.pop_ty();
        proof {
            assert(entered(before, parent_id(parent), variant, Self::spec_name(), id, mid));
            assert(before.ty_edges().is_prefix_of(v.ty_edges()));
            assert(before.ty_names().is_prefix_of(v.ty_names()));
            assert(v.ty_stack() =~= before.ty_stack());
        }
    }

    /// The empty map, drawing nothing.
    open spec fn generation(before: Visitor, settings: Option<GenerateSettings>, r: Option<Self>, after: Visitor) -> bool {
        &&& r matches Some(m) && m@ == Map::<K, V>::empty()
        &&& after == before
    }

    open spec fn field_count(&self) -> nat {
        entries_field_count(map_entries(self))
    }

    open spec fn comparison_operands(&self, val: (u64, u64)) -> Seq<Seq<u8>> {
        entries_comparison_operands(map_entries(self), val)
    }

    open spec fn serialized_records(&self) -> Seq<Seq<u8>> {
        entries_records(map_entries(self))
    }

    open spec fn serialized_record_types(&self) -> Seq<Seq<char>> {
        entries_record_types(map_entries(self))
    }

    /// Along a path, the entry at its first index is replaced (a one-step
    /// path) by the pair the bytes encode or a generated one, or its key
    /// (index 0) or value (index 1) is mutated along the rest of the path;
    /// at the end of the path, the map is replaced (by the entries the bytes
    /// encode, inserted in turn, or by the empty map), added to or shortened.
    open spec fn mutation(&self, ty: &MutationType, path: Seq<usize>, before: Visitor, after: Self, after_v: Visitor) -> bool {
        let pair_lawful = K::is_lawful() && V::is_lawful();
        if path.len() == 0 {
            match *ty {
                MutationType::IterablePop(i) => after@ == self@.remove(nth_entry_key(self, i as int)) && after_v == before,
                MutationType::RecursiveReplace => after@ == self@ && after_v == before,
                MutationType::SpliceAppend(b) => {
                    &&& after_v == before
                    &&& {
                        ||| after@ == self@ && !pair_lawful
                        ||| exists|k: K, x: V|
                            #![trigger self@.insert(k, x)]
                            after@ == self@.insert(k, x) && <(K, V)>::reading((**b)@, (k, x))
                                && (pair_lawful ==> (k, x).spec_serialize().is_prefix_of((**b)@))
                    }
                },
                MutationType::GenerateAppend(_) => {
                    ||| after@ == self@ && pair_generated::<K, V>(before, None, after_v)
                    ||| exists|k: K, x: V|
                        #[trigger] pair_generated::<K, V>(before, Some((k, x)), after_v) && after@ == self@.insert(k, x)
                },
                MutationType::Splice(b) => {
                    &&& after_v == before
                    &&& {
                        ||| after == *self && !pair_lawful
                        ||| exists|s: Seq<(K, V)>|
                            #[trigger] pairs_map(s) == after@ && (pair_lawful ==> seq_encoding(s).is_prefix_of((**b)@))
                    }
                },
                MutationType::GenerateReplace(_) => {
                    &&& after@ == Map::<K, V>::empty()
                    &&& after_v.keeps_state(&before)
                    &&& after_v.fields() == before.fields()
                    &&& after_v.operands() == before.operands()
                    &&& after_v.serialized().len() > before.serialized().len()
                    &&& after_v.serialized_types().len() > before.serialized_types().len()
                    &&& after_v.serialized_types().last() == Self::spec_name()
                    &&& Self::encodes_exactly() ==> after_v.serialized().last().0 == after.spec_serialize()
                    &&& Self::walks_known() ==> after_v.serialized().len() == before.serialized().len()
                        + after.serialized_records().len() + 1
                    &&& Self::walks_known() && Self::encodes_exactly() ==> after_v.serialized_bytes()
                        == before.serialized_bytes() + after.serialized_records() + seq![after.spec_serialize()]
                },
            }
        } else {
            let key = nth_entry_key(self, path[0] as int);
            if path.len() == 1 {
                match *ty {
                    MutationType::Splice(b) => {
                        &&& after_v == before
                        &&& {
                            ||| after@ == self@.remove(key) && !pair_lawful
                            ||| exists|k: K, x: V|
                                #![trigger self@.remove(key).insert(k, x)]
                                after@ == self@.remove(key).insert(k, x) && <(K, V)>::reading((**b)@, (k, x))
                                    && (pair_lawful ==> (k, x).spec_serialize().is_prefix_of((**b)@))
                        }
                    },
                    _ => {
                        ||| after@ == self@.remove(key) && pair_generated::<K, V>(before, None, after_v)
                        ||| exists|k: K, x: V, generated: Visitor| {
                            &&& #[trigger] pair_generated::<K, V>(before, Some((k, x)), generated)
                            &&& after@ == self@.remove(key).insert(k, x)
                            &&& after_v.keeps_state(&generated)
                            &&& after_v.fields() == generated.fields()
                            &&& after_v.operands() == generated.operands()
                            &&& after_v.serialized().len() > generated.serialized().len()
                            &&& after_v.serialized_types().len() > generated.serialized_types().len()
                            &&& after_v.serialized_types().last() == Self::spec_name()
                            &&& Self::encodes_exactly() ==> after_v.serialized().last().0 == after.spec_serialize()
                            &&& Self::walks_known() && Self::encodes_exactly() ==> after_v.serialized_bytes()
                                == generated.serialized_bytes() + after.serialized_records() + seq![after.spec_serialize()]
                        }
                    },
                }
            } else if path[1] == 0 {
                exists|k: K|
                    #![trigger key.mutation(ty, path.skip(2), before, k, after_v)]
                    key.mutation(ty, path.skip(2), before, k, after_v) && after@ == self@.remove(key).insert(k, self@[key])
            } else {
                exists|x: V|
                    #![trigger self@[key].mutation(ty, path.skip(2), before, x, after_v)]
                    self@[key].mutation(ty, path.skip(2), before, x, after_v) && after@ == self@.insert(key, x)
            }
        }
    }

    open spec fn generate_ok(settings: GenerateSettings, rng: u64) -> bool {
        true
    }

    open spec fn mutate_ok(&self, ty: &MutationType, path: Seq<usize>) -> bool {
        &&& keys_ordered::<K>()
        &&& clones_equal::<K>()
        &&& if path.len() > 0 {
            &&& path[0] < map_entries(self).len()
            &&& path.len() == 1 ==> (*ty is Splice || *ty is GenerateReplace)
            &&& path.len() == 1 ==> (*ty matches MutationType::Splice(b) ==> (K::is_lawful() && V::is_lawful() ==> encodes_some::<(K, V)>((**b)@)))
            &&& path.len() > 1 ==> {
                &&& path[1] == 0 || path[1] == 1
                &&& path[1] == 0 ==> nth_entry_key(self, path[0] as int).mutate_ok(ty, path.skip(2))
                &&& path[1] == 1 ==> map_entries(self)[path[0] as int].1.mutate_ok(ty, path.skip(2))
            }
        } else {
            match *ty {
                MutationType::IterablePop(i) => i < map_entries(self).len(),
                MutationType::SpliceAppend(b) => K::is_lawful() && V::is_lawful() ==> encodes_some::<(K, V)>((**b)@),
                MutationType::Splice(b) => K::is_lawful() && V::is_lawful() ==> exists|s: Seq<(K, V)>|
                    s.len() <= u64::MAX && #[trigger] seq_encoding(s).is_prefix_of((**b)@),
                _ => true,
            }
        }
    }

    /// The empty map.
    fn __autarkie_generate(
        visitor: &mut Visitor,
        depth: &mut usize,
        cur_depth: usize,
        settings: Option<GenerateSettings>,
    ) -> (r: Option<Self>)
        ensures
            r matches Some(m) && m@ == Map::<K, V>::empty(),
            *final(visitor) == *old(visitor),
    {
        Some(BTreeMap::new())
    }

    /// Enters each entry as a field, at its position, and records the
    /// fields of its key (as field 0) and its value (as field 1).
    #[verifier::spinoff_prover]
    fn __autarkie_fields(&self, visitor: &mut Visitor, index: usize) {
        let n = self.len();
        let mut entries = self.iter();
        let ghost start = entries;
        let mut i: usize = 0;
        proof {
            lemma_entries_walked_empty::<K, V>(None, *visitor);
            assert(map_entries(self).take(0) =~= Seq::<(K, V)>::empty());
        }
        while i < n
            invariant
                i <= n,
                visitor.keeps_state(&*old(visitor)),
                visitor.serialized() == old(visitor).serialized(),
                visitor.operands() == old(visitor).operands(),
                Self::walks_known() ==> {
                    &&& start == spec_btree_map_iter(self)
                    &&& start.remaining().unref() == map_entries(self)
                    &&& n == map_entries(self).len()
                    &&& entries.remaining() == start.remaining().skip(i as int)
                    &&& visitor.fields().len() == old(visitor).fields().len() + entries_field_count(
                        map_entries(self).take(i as int),
                    )
                    &&& entries_walked(map_entries(self).take(i as int), None, *old(visitor), *visitor)
                },
            decreases n - i,
        {
            match next_entry(&mut entries) {
                Some(kv) => {
                    let ghost prev = *visitor;
                    let id = <(K, V)>::enter_as_field(visitor, i, NodeType::NonRecursive).1;
                    let ghost v1 = *visitor;
                    kv.0.__autarkie_fields(visitor, 0);
                    let ghost v2 = *visitor;
                    kv.1.__autarkie_fields(visitor, 1);
                    let ghost v3 = *visitor;
                    visitor.pop_field();
                    proof {
                        if Self::walks_known() {
                            let e = map_entries(self)[i as int];
                            assert(e == (*kv.0, *kv.1));
                            assert(field_entered(prev, ((i, NodeType::NonRecursive), id), <(K, V)>::spec_name(), v1));
                            assert(field_left(v3, *visitor));
                            assert(entry_walked(e, i as int, None, prev, *visitor)) by {
                                reveal(entry_walked);
                            }
                            lemma_entries_walked_push(map_entries(self).take(i as int), None, *old(visitor), prev, e, *visitor);
                            assert(map_entries(self).take(i + 1) =~= map_entries(self).take(i as int).push(e));
                            assert(kv == start.remaining()[i as int]);
                            assert(entries.remaining() =~= start.remaining().skip(i + 1));
                            assert(map_entries(self)[i as int] == (*kv.0, *kv.1));
                            assert(map_entries(self).take(i + 1).drop_last() =~= map_entries(self).take(i as int));
                        }
                    }
                    i = i + 1;
                },
                None => {
                    i = n;
                },
            }
        }
        proof {
            if Self::walks_known() {
                assert(map_entries(self).take(i as int) =~= map_entries(self));
            }
        }
    }

    /// Enters each entry as a field, at its position, and records the
    /// comparison operands of its key and its value.
    #[verifier::spinoff_prover]
    fn __autarkie_cmps(&self, visitor: &mut Visitor, index: usize, __autarkie_val: (u64, u64)) {
        let n = self.len();
        let mut entries = self.iter();
        let ghost start = entries;
        let ghost mut gi: int = 0;
        let mut i: usize = 0;
        proof {
            lemma_entries_walked_empty::<K, V>(Some(__autarkie_val), *visitor);
            assert(map_entries(self).take(0) =~= Seq::<(K, V)>::empty());
        }
        while i < n
            invariant
                i <= n,
                gi == i,
                visitor.keeps_state(&*old(visitor)),
                visitor.serialized() == old(visitor).serialized(),
                Self::walks_known() ==> {
                    &&& start == spec_btree_map_iter(self)
                    &&& start.remaining().unref() == map_entries(self)
                    &&& n == map_entries(self).len()
                    &&& entries.remaining() == start.remaining().skip(gi)
                    &&& visitor.fields().len() == old(visitor).fields().len() + entries_field_count(
                        map_entries(self).take(gi),
                    )
                    &&& visitor.operands() == old(visitor).operands() + entries_comparison_operands(
                        map_entries(self).take(gi),
                        __autarkie_val,
                    )
                    &&& entries_walked(map_entries(self).take(gi), Some(__autarkie_val), *old(visitor), *visitor)
                },
            decreases n - i,
        {
            match next_entry(&mut entries) {
                Some(kv) => {
                    let ghost prev = *visitor;
                    let id = <(K, V)>::enter_as_field(visitor, i, NodeType::NonRecursive).1;
                    let ghost v1 = *visitor;
                    kv.0.__autarkie_cmps(visitor, 0, __autarkie_val);
                    let ghost v2 = *visitor;
                    kv.1.__autarkie_cmps(visitor, 1, __autarkie_val);
                    let ghost v3 = *visitor;
                    visitor.pop_field();
                    proof {
                        if Self::walks_known() {
                            let e = map_entries(self)[gi];
                            assert(e == (*kv.0, *kv.1));
                            assert(field_entered(prev, ((i, NodeType::NonRecursive), id), <(K, V)>::spec_name(), v1));
                            assert(field_left(v3, *visitor));
                            assert(entry_walked(e, gi, Some(__autarkie_val), prev, *visitor)) by {
                                reveal(entry_walked);
                            }
                            lemma_entries_walked_push(map_entries(self).take(gi), Some(__autarkie_val), *old(visitor), prev, e, *visitor);
                            assert(map_entries(self).take(gi + 1) =~= map_entries(self).take(gi).push(e));
                            assert(kv == start.remaining()[gi]);
                            assert(entries.remaining() =~= start.remaining().skip(gi + 1));
                            assert(map_entries(self)[gi] == (*kv.0, *kv.1));
                            assert(map_entries(self).take(gi + 1).drop_last() =~= map_entries(self).take(gi));
                            assert(visitor.operands() =~= old(visitor).operands() + entries_comparison_operands(
                                map_entries(self).take(gi + 1),
                                __autarkie_val,
                            ));
                        }
                        gi = gi + 1;
                    }
                    i = i + 1;
                },
                None => {
                    proof {
                        gi = gi + (n - i);
                    }
                    i = n;
                },
            }
        }
        proof {
            if Self::walks_known() {
                assert(map_entries(self).take(gi) =~= map_entries(self));
            }
        }
    }

    /// A sequence of variable length, with its number of entries.
    open spec fn node_shape(&self, shape: NodeType) -> bool {
        shape matches NodeType::Iterable(fixed, n, _) && !fixed && (keys_ordered::<K>() ==> n == self@.len())
    }

    fn __autarkie_node_ty(&self, visitor: &Visitor) -> (r: NodeType) {
        NodeType::Iterable(false, self.len(), Self::__autarkie_id())
    }

    /// Records the encodings of each key and each value, each followed by
    /// what it records.
    fn __autarkie_serialized(&self, visitor: &mut Visitor) {
        let n = self.len();
        let mut entries = self.iter();
        let ghost start = entries;
        let mut i: usize = 0;
        while i < n
            invariant
                i <= n,
                visitor.keeps_state(&*old(visitor)),
                visitor.fields() == old(visitor).fields(),
                visitor.operands() == old(visitor).operands(),
                Self::walks_known() ==> {
                    &&& start == spec_btree_map_iter(self)
                    &&& start.remaining().unref() == map_entries(self)
                    &&& n == map_entries(self).len()
                    &&& entries.remaining() == start.remaining().skip(i as int)
                    &&& visitor.serialized().len() == old(visitor).serialized().len() + entries_records(
                        map_entries(self).take(i as int),
                    ).len()
                    &&& Self::encodes_exactly() ==> visitor.serialized_bytes() == old(visitor).serialized_bytes()
                        + entries_records(map_entries(self).take(i as int))
                    &&& visitor.serialized_types() == old(visitor).serialized_types() + entries_record_types(
                        map_entries(self).take(i as int),
                    )
                },
            decreases n - i,
        {
            match next_entry(&mut entries) {
                Some(kv) => {
                    K::record_encoding(visitor, kv.0.__autarkie_serialize());
                    kv.0.__autarkie_serialized(visitor);
                    V::record_encoding(visitor, kv.1.__autarkie_serialize());
                    kv.1.__autarkie_serialized(visitor);
                    proof {
                        if Self::walks_known() {
                            assert(kv == start.remaining()[i as int]);
                            assert(entries.remaining() =~= start.remaining().skip(i + 1));
                            assert(map_entries(self)[i as int] == (*kv.0, *kv.1));
                            assert(map_entries(self).take(i + 1).drop_last() =~= map_entries(self).take(i as int));
                            if Self::encodes_exactly() {
                                assert(visitor.serialized_bytes() =~= old(visitor).serialized_bytes() + entries_records(
                                    map_entries(self).take(i + 1),
                                ));
                            }
                            assert(visitor.serialized_types() =~= old(visitor).serialized_types() + entries_record_types(
                                map_entries(self).take(i + 1),
                            ));
                        }
                    }
                    i = i + 1;
                },
                None => {
                    i = n;
                },
            }
        }
        proof {
            if Self::walks_known() {
                assert(map_entries(self).take(i as int) =~= map_entries(self));
            }
        }
    }

    /// Along the path, picks the entry at its first index: at the end of
    /// the path replaces that entry, otherwise mutates its key (index 0)
    /// or its value (index 1) along the rest of the path. At the end of
    /// the path, replaces the map, adds an entry to it or removes one.
    fn __autarkie_mutate(
        &mut self,
        ty: &mut MutationType,
        visitor: &mut Visitor,
        path: VecDeque<usize>,
    )
    {
        let mut path = path;
        let ghost old_map = self@;
        let ghost full_path = path@;
        match path.pop_front() {
            Some(popped) => {
                let mut entry_to_modify = match nth_key(self, popped) {
                    Some(k) => k,
                    None => {
                        proof {
                            assert(false);
                        }
                        return;
                    },
                };
                let ghost key = nth_entry_key(old(self), popped as int);
                proof {
                    assert(cloned::<K>(key, entry_to_modify));
                    assert(entry_to_modify == key);
                    assert(old_map.contains_key(key));
                }
                if path.len() == 0 {
                    let _ = self.remove(&entry_to_modify);
                    let ghost removed = self@;
                    match ty {
                        MutationType::Splice(other) => {
                            let bytes: &[u8] = **other;
                            proof {
                                assert(bytes@.skip(0) =~= bytes@);
                            }
                            match <(K, V)>::__autarkie_deserialize(bytes, 0) {
                                Some((pair, end)) => {
                                    proof {
                                        if K::is_lawful() && V::is_lawful() {
                                            assert(pair.spec_serialize() =~= bytes@.subrange(0, pair.spec_serialize().len() as int));
                                            assert(pair.spec_serialize().is_prefix_of(bytes@));
                                        }
                                    }
                                    let (k, v) = pair;
                                    let ghost gk = k;
                                    let ghost gv = v;
                                    self.insert(k, v);
                                    proof {
                                        assert(self@ =~= old_map.remove(key).insert(gk, gv));
                                        assert(old(self)@.remove(key).insert(gk, gv) == self@);
                                    }
                                },
                                None => {},
                            }
                        },
                        MutationType::GenerateReplace(bias) => {
                            let key = match K::__autarkie_generate(visitor, bias, 0, None) {
                                Some(k) => k,
                                None => {
                                    return;
                                },
                            };
                            let ghost gk = key;
                            let ghost kv = *visitor;
                            let value = match V::__autarkie_generate(visitor, bias, 0, None) {
                                Some(v) => v,
                                None => {
                                    proof {
                                        assert(K::generation(*old(visitor), None, Some(gk), kv));
                                    }
                                    return;
                                },
                            };
                            let ghost gv = value;
                            let ghost g = *visitor;
                            proof {
                                assert(K::generation(*old(visitor), None, Some(gk), kv));
                                assert(pair_generated::<K, V>(*old(visitor), Some((gk, gv)), g));
                            }
                            self.insert(key, value);
                            let ghost inserted = self@;
                            proof {
                                assert(self@ =~= old_map.remove(entry_to_modify).insert(gk, gv));
                                assert(old(self)@.remove(entry_to_modify).insert(gk, gv) == self@);
                            }
                            self.__autarkie_serialized(visitor);
                            Self::record_encoding(visitor, self.__autarkie_serialize());
                            proof {
                                if Self::walks_known() && Self::encodes_exactly() {
                                    assert(visitor.serialized_bytes() =~= g.serialized_bytes()
                                        + self.serialized_records() + seq![self.spec_serialize()]);
                                }
                            }
                        },
                        _ => {
                            proof {
                                assert(false);
                            }
                        },
                    }
                } else {
                    let inner_popped = match path.pop_front() {
                        Some(p) => p,
                        None => {
                            proof {
                                assert(false);
                            }
                            return;
                        },
                    };
                    proof {
                        assert(path@ =~= full_path.skip(2));
                        assert(inner_popped == full_path[1]);
                    }
                    if inner_popped == 0 {
                        let value = match self.remove(&entry_to_modify) {
                            Some(v) => v,
                            None => {
                                proof {
                                    assert(false);
                                }
                                return;
                            },
                        };
                        proof {
                            assert(value == old_map[key]);
                        }
                        entry_to_modify.__autarkie_mutate(ty, visitor, path);
                        let ghost changed_key = entry_to_modify;
                        self.insert(entry_to_modify, value);
                        proof {
                            assert(self@ =~= old_map.remove(key).insert(changed_key, old_map[key]));
                            assert(key.mutation(&*old(ty), full_path.skip(2), *old(visitor), changed_key, *visitor));
                        }
                    } else {
                        let mut value = match self.remove(&entry_to_modify) {
                            Some(v) => v,
                            None => {
                                proof {
                                    assert(false);
                                }
                                return;
                            },
                        };
                        proof {
                            assert(value == map_entries(old(self))[popped as int].1);
                        }
                        value.__autarkie_mutate(ty, visitor, path);
                        let ghost changed = value;
                        self.insert(entry_to_modify, value);
                        proof {
                            assert(self@ =~= old_map.insert(key, changed));
                            assert(old_map[key].mutation(&*old(ty), full_path.skip(2), *old(visitor), changed, *visitor));
                        }
                    }
                }
            },
            None => {
                match ty {
                    MutationType::Splice(other) => {
                        let bytes: &[u8] = **other;
                        proof {
                            assert(bytes@.skip(0) =~= bytes@);
                        }
                        match Self::__autarkie_deserialize(bytes, 0) {
                            Some((m, end)) => {
                                proof {
                                    let s = choose|s: Seq<(K, V)>| {
                                        &&& #[trigger] pairs_map(s) == m@
                                        &&& K::is_lawful() && V::is_lawful() ==> bytes@.subrange(0, end as int) == seq_encoding(s)
                                    };
                                    if K::is_lawful() && V::is_lawful() {
                                        assert(seq_encoding(s).is_prefix_of(bytes@));
                                    }
                                }
                                *self = m;
                            },
                            None => {
                                proof {
                                    if K::is_lawful() && V::is_lawful() {
                                        let s = choose|s: Seq<(K, V)>|
                                            s.len() <= u64::MAX && #[trigger] seq_encoding(s).is_prefix_of(bytes@);
                                        assert(seq_encoding(s).is_prefix_of(bytes@.skip(0)));
                                    }
                                }
                            },
                        }
                    },
                    MutationType::GenerateReplace(bias) => {
                        match Self::__autarkie_generate(visitor, bias, 0, None) {
                            Some(generated) => {
                                *self = generated;
                                self.__autarkie_serialized(visitor);
                                Self::record_encoding(visitor, self.__autarkie_serialize());
                                proof {
                                    if Self::walks_known() && Self::encodes_exactly() {
                                        assert(visitor.serialized_bytes() =~= old(visitor).serialized_bytes()
                                            + self.serialized_records() + seq![self.spec_serialize()]);
                                    }
                                }
                            },
                            None => {},
                        }
                    },
                    MutationType::SpliceAppend(other) => {
                        let bytes: &[u8] = **other;
                        proof {
                            assert(bytes@.skip(0) =~= bytes@);
                        }
                        match <(K, V)>::__autarkie_deserialize(bytes, 0) {
                            Some((pair, end)) => {
                                proof {
                                    if K::is_lawful() && V::is_lawful() {
                                        assert(pair.spec_serialize() =~= bytes@.subrange(0, pair.spec_serialize().len() as int));
                                        assert(pair.spec_serialize().is_prefix_of(bytes@));
                                    }
                                }
                                let (k, v) = pair;
                                let ghost gk = k;
                                let ghost gv = v;
                                self.insert(k, v);
                                proof {
                                    assert(self@ =~= old_map.insert(gk, gv));
                                    assert(old(self)@.insert(gk, gv) == self@);
                                }
                            },
                            None => {},
                        }
                    },
                    MutationType::GenerateAppend(bias) => {
                        match K::__autarkie_generate(visitor, bias, 0, None) {
                            Some(k) => {
                                let ghost gk = k;
                                let ghost kv = *visitor;
                                match V::__autarkie_generate(visitor, bias, 0, None) {
                                    Some(v) => {
                                        let ghost gv = v;
                                        proof {
                                            assert(K::generation(*old(visitor), None, Some(gk), kv));
                                            assert(pair_generated::<K, V>(*old(visitor), Some((gk, gv)), *visitor));
                                        }
                                        self.insert(k, v);
                                        proof {
                                            assert(self@ =~= old_map.insert(gk, gv));
                                        }
                                    },
                                    None => {
                                        proof {
                                            assert(K::generation(*old(visitor), None, Some(gk), kv));
                                        }
                                    },
                                }
                            },
                            None => {},
                        }
                    },
                    MutationType::IterablePop(bias) => {
                        let remove_key = match nth_key(self, *bias) {
                            Some(k) => k,
                            None => {
                                proof {
                                    assert(false);
                                }
                                return;
                            },
                        };
                        proof {
                            let key = nth_entry_key(old(self), *bias as int);
                            assert(cloned::<K>(key, remove_key));
                        }
                        match self.remove(&remove_key) {
                            Some(_) => {},
                            None => {
                                proof {
                                    assert(false);
                                }
                            },
                        }
                    },
                    MutationType::RecursiveReplace => {},
                }
            },
        }
    }

    /// The number of entries, then each key followed by its value, in the
    /// order the map yields them.
    fn __autarkie_serialize(&self) -> (r: Vec<u8>)
        ensures
            Self::encodes_exactly() ==> r@ == self.spec_serialize(),
            keys_ordered::<K>() ==> pairs_map(map_entries(self)) == self@,
    {
        let n = self.len();
        let mut out = serialize_vec_len(n);
        let mut entries = self.iter();
        let ghost start = entries;
        let mut i: usize = 0;
        while i < n
            invariant
                i <= n,
                keys_ordered::<K>() ==> {
                    &&& start == spec_btree_map_iter(self)
                    &&& start.remaining().unref() == map_entries(self)
                    &&& n == map_entries(self).len()
                    &&& entries.remaining() == start.remaining().skip(i as int)
                },
                Self::encodes_exactly() ==> out@ == spec_u64_bytes(n as u64) + seq_bytes(
                    map_entries(self).take(i as int),
                ),
            decreases n - i,
        {
            match next_entry(&mut entries) {
                Some(kv) => {
                    let mut kb = kv.0.__autarkie_serialize();
                    out.append(&mut kb);
                    let mut vb = kv.1.__autarkie_serialize();
                    out.append(&mut vb);
                    proof {
                        if keys_ordered::<K>() {
                            assert(kv == start.remaining()[i as int]);
                            assert(entries.remaining() =~= start.remaining().skip(i + 1));
                            if K::encodes_exactly() && V::encodes_exactly() {
                                lemma_seq_bytes_step(map_entries(self), i as int);
                                let e = map_entries(self)[i as int];
                                assert(e == (*kv.0, *kv.1));
                                assert(e.spec_serialize() == e.0.spec_serialize() + e.1.spec_serialize());
                            }
                        }
                    }
                    i = i + 1;
                },
                None => {
                    i = n;
                },
            }
        }
        proof {
            if keys_ordered::<K>() {
                lemma_entries_rebuild_map(self);
                assert(map_entries(self).take(i as int) =~= map_entries(self));
            }
        }
        out
    }

    /// Reads the announced number of entries, then that many keys, each
    /// followed by its value, and inserts the entries in the order they were
    /// read. Where the data holds at `pos` the encoding of a sequence of
    /// entries, reading succeeds and ends where that encoding ends.
    fn __autarkie_deserialize(data: &[u8], pos: usize) -> (r: Option<(Self, usize)>)
        ensures
            keys_ordered::<K>() ==> (r matches Some((m, end)) ==> exists|s: Seq<(K, V)>| {
                &&& #[trigger] pairs_map(s) == m@
                &&& K::is_lawful() && V::is_lawful() ==> data@.subrange(pos as int, end as int) == seq_encoding(s)
            }),
            K::is_lawful() && V::is_lawful() ==> forall|s: Seq<(K, V)>| s.len() <= u64::MAX
                && #[trigger] seq_encoding(s).is_prefix_of(data@.skip(pos as int)) ==> {
                &&& r is Some
                &&& r matches Some((m, end)) ==> end == pos + seq_encoding(s).len()
            },
    {
        let (items, end) = match deserialize_items::<(K, V)>(data, pos) {
            Some(x) => x,
            None => {
                return None;
            },
        };
        let ghost read = items@;
        let mut items = items;
        let mut out: BTreeMap<K, V> = BTreeMap::new();
        let ghost mut done: int = 0;
        while items.len() > 0
            invariant
                0 <= done <= read.len(),
                items@ == read.skip(done),
                keys_ordered::<K>() ==> out@ == pairs_map(read.take(done)),
            decreases items@.len(),
        {
            let (k, v) = items.remove(0);
            out.insert(k, v);
            proof {
                assert(read.take(done + 1).drop_last() =~= read.take(done));
                assert(read.take(done + 1).last() == read[done]);
                assert(read.skip(done)[0] == read[done]);
                assert(read.skip(done).skip(1) =~= read.skip(done + 1));
                done = done + 1;
            }
        }
        proof {
            assert(read.take(done) =~= read);
        }
        Some((out, end))
    }

    fn __autarkie_id_name() -> (r: String) {
        let mut r = "alloc::collections::btree::map::BTreeMap<".to_owned();
        let key = K::__autarkie_id_name();
        r.append(key.as_str());
        r.append(", ");
        let value = V::__autarkie_id_name();
        r.append(value.as_str());
        r.append(">");
        assert(r@ == Self::spec_name());
        r
    }
}

} // verus!
