//! Sequences, optional values, alternatives and boxes of grammar values.
use vstd::prelude::*;
use vstd::slice::slice_subrange;
use vstd::string::StringExecFns;
use std::collections::VecDeque;
use std::marker::PhantomData;
use crate::codec::{
    spec_u64_bytes, decode_u64, lemma_u64_bytes, serialize_vec_len, spec_u8_bytes, encode_u8, decode_u8,
    lemma_u8_bytes, spec_u32_bytes, encode_u32, decode_u32, lemma_u32_bytes,
};
use crate::node::{
    encodes_some, seq_field_count, seq_comparison_operands, seq_records, seq_record_types,
    Node, MutationType, GenerateSettings, seq_bytes, seq_encoding, lemma_seq_bytes_step, lemma_seq_bytes_element,
    lemma_tag_then, elements_generated, drawn_length, length_drawn, lemma_elements_generated_push, lemma_elements_generated_empty,
    entered, left, parent_id, child_registered, one_edge, walked_in_field, walked_in_shaped_field, field_entered, field_left, items_walked, item_index,
    lemma_items_walked_empty, lemma_items_walked_push,
};
use crate::visitor::{Id, NodeType, Visitor, rng_coin, rng_output};
use crate::prefix::group_prefix;

verus! {

broadcast use group_prefix, Visitor::lemma_extends_refl, Visitor::lemma_extends_trans;

/// Records the encoding of each item, then what each item records.
pub fn record_items_serialized<T: Node>(items: &[T], visitor: &mut Visitor)
    ensures
        final(visitor).keeps_state(old(visitor)),
        final(visitor).fields() == old(visitor).fields(),
        final(visitor).operands() == old(visitor).operands(),
        T::walks_known() ==> final(visitor).serialized().len() == old(visitor).serialized().len() + seq_records(
            items@,
        ).len(),
        T::walks_known() && T::is_lawful() ==> final(visitor).serialized_bytes() == old(visitor).serialized_bytes() + seq_records(
            items@,
        ),
        T::walks_known() && T::encodes_exactly() ==> final(visitor).serialized_bytes() == old(visitor).serialized_bytes() + seq_records(
            items@,
        ),
        T::walks_known() ==> final(visitor).serialized_types() == old(visitor).serialized_types() + seq_record_types(
            items@,
        ),
{
    let mut i: usize = 0;
    while i < items.len()
        invariant
            i <= items@.len(),
            visitor.keeps_state(&*old(visitor)),
            visitor.fields() == old(visitor).fields(),
            visitor.operands() == old(visitor).operands(),
            T::walks_known() ==> visitor.serialized().len() == old(visitor).serialized().len() + seq_records(
                items@.take(i as int),
            ).len(),
            T::walks_known() && T::is_lawful() ==> visitor.serialized_bytes() == old(visitor).serialized_bytes() + seq_records(
                items@.take(i as int),
            ),
            T::walks_known() && T::encodes_exactly() ==> visitor.serialized_bytes() == old(visitor).serialized_bytes() + seq_records(
                items@.take(i as int),
            ),
            T::walks_known() ==> visitor.serialized_types() == old(visitor).serialized_types() + seq_record_types(
                items@.take(i as int),
            ),
        decreases items@.len() - i,
    {
        let item = &items[i];
        let ghost before = visitor.serialized_bytes();
        T::record_encoding(visitor, item.__autarkie_serialize());
        let ghost pushed = visitor.serialized_bytes();
        item.__autarkie_serialized(visitor);
        proof {
            assert(items@.take(i + 1).drop_last() =~= items@.take(i as int));
            assert(items@.take(i + 1).last() == items@[i as int]);
            if T::walks_known() && (T::is_lawful() || T::encodes_exactly()) {
                assert(visitor.serialized_bytes() =~= old(visitor).serialized_bytes() + seq_records(
                    items@.take(i + 1),
                ));
            }
            if T::walks_known() {
                assert(visitor.serialized_types() =~= old(visitor).serialized_types() + seq_record_types(
                    items@.take(i + 1),
                ));
            }
        }
        i = i + 1;
    }
    proof {
        assert(items@.take(items@.len() as int) =~= items@);
    }
}

/// Enters each item as a field, at its index and with its shape, and
/// records its fields.
pub fn record_item_fields<T: Node>(items: &[T], visitor: &mut Visitor)
    ensures
        final(visitor).keeps_state(old(visitor)),
        final(visitor).serialized() == old(visitor).serialized(),
        final(visitor).operands() == old(visitor).operands(),
        T::walks_known() ==> final(visitor).fields().len() == old(visitor).fields().len() + seq_field_count(items@),
        items_walked(items@, None, *old(visitor), *final(visitor)),
{
    let mut i: usize = 0;
    proof {
        lemma_items_walked_empty::<T>(None, *visitor);
        assert(items@.take(0) =~= Seq::<T>::empty());
    }
    while i < items.len()
        invariant
            i <= items@.len(),
            visitor.keeps_state(&*old(visitor)),
            visitor.serialized() == old(visitor).serialized(),
            visitor.operands() == old(visitor).operands(),
            T::walks_known() ==> visitor.fields().len() == old(visitor).fields().len() + seq_field_count(
                items@.take(i as int),
            ),
            items_walked(items@.take(i as int), None, *old(visitor), *visitor),
        decreases items@.len() - i,
    {
        let ghost prev = *visitor;
        let child = &items[i];
        let shape = child.__autarkie_node_ty(visitor);
        let id = T::enter_as_field(visitor, i, shape).1;
        let ghost v1 = *visitor;
        child.__autarkie_fields(visitor, 0);
        let ghost v2 = *visitor;
        visitor.pop_field();
        proof {
            assert(items@.take(i + 1).drop_last() =~= items@.take(i as int));
            assert(items@.take(i + 1).last() == items@[i as int]);
            assert(field_entered(prev, ((i, shape), id), T::spec_name(), v1));
            assert(field_left(v2, *visitor));
            assert(walked_in_shaped_field(items@[i as int], i, item_index(i as int, None), None, prev, *visitor)) by {
                reveal(walked_in_shaped_field);
            }
            lemma_items_walked_push(items@.take(i as int), None, *old(visitor), prev, items@[i as int], *visitor);
            assert(items@.take(i + 1) =~= items@.take(i as int).push(items@[i as int]));
        }
        i = i + 1;
    }
    proof {
        assert(items@.take(items@.len() as int) =~= items@);
    }
}

/// Enters each item as a field, at its index and with its shape, and
/// records its comparison operands.
pub fn record_item_cmps<T: Node>(items: &[T], visitor: &mut Visitor, __autarkie_val: (u64, u64))
    ensures
        final(visitor).keeps_state(old(visitor)),
        final(visitor).serialized() == old(visitor).serialized(),
        T::walks_known() ==> final(visitor).operands() == old(visitor).operands() + seq_comparison_operands(
            items@,
            __autarkie_val,
        ),
        T::walks_known() ==> final(visitor).fields().len() == old(visitor).fields().len() + seq_field_count(items@),
        items_walked(items@, Some(__autarkie_val), *old(visitor), *final(visitor)),
{
    let mut i: usize = 0;
    let ghost mut gi: int = 0;
    proof {
        lemma_items_walked_empty::<T>(Some(__autarkie_val), *visitor);
        assert(items@.take(0) =~= Seq::<T>::empty());
    }
    while i < items.len()
        invariant
            i <= items@.len(),
            gi == i,
            visitor.keeps_state(&*old(visitor)),
            visitor.serialized() == old(visitor).serialized(),
            T::walks_known() ==> visitor.operands() == old(visitor).operands() + seq_comparison_operands(
                items@.take(gi),
                __autarkie_val,
            ),
            T::walks_known() ==> visitor.fields().len() == old(visitor).fields().len() + seq_field_count(
                items@.take(gi),
            ),
            items_walked(items@.take(gi), Some(__autarkie_val), *old(visitor), *visitor),
        decreases items@.len() - i,
    {
        let ghost prev = *visitor;
        let child = &items[i];
        let shape = child.__autarkie_node_ty(visitor);
        let id = T::enter_as_field(visitor, i, shape).1;
        let ghost v1 = *visitor;
        child.__autarkie_cmps(visitor, i, __autarkie_val);
        let ghost v2 = *visitor;
        visitor.pop_field();
        proof {
            assert(field_entered(prev, ((i, shape), id), T::spec_name(), v1));
            assert(field_left(v2, *visitor));
            assert(walked_in_shaped_field(
                items@[gi],
                i,
                item_index(gi, Some(__autarkie_val)),
                Some(__autarkie_val),
                prev,
                *visitor,
            )) by {
                reveal(walked_in_shaped_field);
            }
            lemma_items_walked_push(items@.take(gi), Some(__autarkie_val), *old(visitor), prev, items@[gi], *visitor);
            assert(items@.take(gi + 1) =~= items@.take(gi).push(items@[gi]));
            assert(items@.take(gi + 1).drop_last() =~= items@.take(gi));
            assert(items@.take(gi + 1).last() == items@[gi]);
            if T::walks_known() {
                assert(visitor.operands() =~= old(visitor).operands() + seq_comparison_operands(
                    items@.take(gi + 1),
                    __autarkie_val,
                ));
            }
        }
        i = i + 1;
        proof {
            gi = gi + 1;
        }
    }
    proof {
        assert(items@.take(gi) =~= items@);
    }
}

/// The encodings of the items, one after the other.
pub fn serialize_concat<T: Node>(items: &[T]) -> (r: Vec<u8>)
    ensures
        T::is_lawful() ==> r@ == seq_bytes(items@),
        T::encodes_exactly() ==> r@ == seq_bytes(items@),
{
    let mut out: Vec<u8> = Vec::new();
    let mut i: usize = 0;
    while i < items.len()
        invariant
            i <= items@.len(),
            T::is_lawful() ==> out@ == seq_bytes(items@.take(i as int)),
            T::encodes_exactly() ==> out@ == seq_bytes(items@.take(i as int)),
        decreases items@.len() - i,
    {
        let mut bytes = items[i].__autarkie_serialize();
        out.append(&mut bytes);
        proof {
            assert(items@.take(i + 1).drop_last() =~= items@.take(i as int));
        }
        i = i + 1;
    }
    proof {
        assert(items@.take(items@.len() as int) =~= items@);
    }
    out
}

/// The encoding of a sequence of items: their number, then each item.
pub fn serialize_items<T: Node>(items: &[T]) -> (r: Vec<u8>)
    ensures
        T::is_lawful() ==> r@ == seq_encoding(items@),
        T::encodes_exactly() ==> r@ == seq_encoding(items@),
{
    let mut out = serialize_vec_len(items.len());
    let mut rest = serialize_concat(items);
    out.append(&mut rest);
    out
}

/// Reads `n` items in turn, starting at `pos`; the items and where they
/// end. Where `data` holds at `pos` the encodings of `n` values one after
/// the other, the items read encode as those values do.
pub fn deserialize_n<T: Node>(data: &[u8], pos: usize, n: u64) -> (r: Option<(Vec<T>, usize)>)
    requires
        pos <= data@.len(),
    ensures
        r matches Some((v, end)) ==> pos <= end <= data@.len() && v@.len() == n,
        T::is_lawful() ==> (r matches Some((v, end)) ==> data@.subrange(pos as int, end as int) == seq_bytes(v@)),
        T::is_lawful() ==> forall|s: Seq<T>| s.len() == n && #[trigger] seq_bytes(s).is_prefix_of(data@.skip(pos as int)) ==> {
            &&& r is Some
            &&& r matches Some((v, end)) ==> {
                &&& seq_bytes(v@) == seq_bytes(s)
                &&& end == pos + seq_bytes(s).len()
            }
        },
{
    let mut cur: usize = pos;
    let mut out: Vec<T> = Vec::new();
    let mut i: u64 = 0;
    while i < n
        invariant
            pos <= cur <= data@.len(),
            out@.len() == i,
            i <= n,
            T::is_lawful() ==> data@.subrange(pos as int, cur as int) == seq_bytes(out@),
            T::is_lawful() ==> forall|s: Seq<T>| s.len() == n && #[trigger] seq_bytes(s).is_prefix_of(data@.skip(pos as int)) ==> {
                &&& seq_bytes(out@) == seq_bytes(s.take(i as int))
                &&& cur == pos + seq_bytes(s.take(i as int)).len()
            },
        decreases n - i,
    {
        proof {
            if T::is_lawful() {
                assert forall|s: Seq<T>| s.len() == n && #[trigger] seq_bytes(s).is_prefix_of(data@.skip(pos as int)) implies
                    s[i as int].spec_serialize().is_prefix_of(data@.skip(cur as int)) by {
                    let d = data@;
                    assert(d.subrange(pos as int, pos + seq_bytes(s).len()) =~= seq_bytes(s)) by {
                        assert forall|k: int| 0 <= k < seq_bytes(s).len() implies d[pos + k] == seq_bytes(s)[k] by {
                            assert(d.skip(pos as int).subrange(0, seq_bytes(s).len() as int)[k] == seq_bytes(s)[k]);
                        }
                    }
                    lemma_seq_bytes_element(s, i as int, d, pos as int);
                }
            }
        }
        match T::__autarkie_deserialize(data, cur) {
            Some((v, end)) => {
                proof {
                    if T::is_lawful() {
                        assert forall|s: Seq<T>| s.len() == n && #[trigger] seq_bytes(s).is_prefix_of(data@.skip(pos as int)) implies {
                            &&& seq_bytes(out@.push(v)) == seq_bytes(s.take(i + 1))
                            &&& end == pos + seq_bytes(s.take(i + 1)).len()
                        } by {
                            let y = s[i as int];
                            assert(y.spec_serialize().is_prefix_of(data@.skip(cur as int)));
                            lemma_seq_bytes_step(s, i as int);
                            assert(out@.push(v).drop_last() =~= out@);
                        }
                    }
                }
                proof {
                    if T::is_lawful() {
                        assert(out@.push(v).drop_last() =~= out@);
                        assert(data@.subrange(pos as int, end as int) =~= data@.subrange(pos as int, cur as int)
                            + data@.subrange(cur as int, end as int));
                    }
                }
                out.push(v);
                cur = end;
            },
            None => {
                proof {
                    if T::is_lawful() {
                        assert forall|s: Seq<T>| s.len() == n implies !#[trigger] seq_bytes(s).is_prefix_of(data@.skip(pos as int)) by {
                            if seq_bytes(s).is_prefix_of(data@.skip(pos as int)) {
                                let y = s[i as int];
                                assert(y.spec_serialize().is_prefix_of(data@.skip(cur as int)));
                            }
                        }
                    }
                }
                return None;
            },
        }
        i = i + 1;
    }
    proof {
        if T::is_lawful() {
            assert forall|s: Seq<T>| s.len() == n && #[trigger] seq_bytes(s).is_prefix_of(data@.skip(pos as int)) implies
                seq_bytes(out@) == seq_bytes(s) && cur == pos + seq_bytes(s).len() by {
                assert(s.take(n as int) =~= s);
            }
        }
    }
    Some((out, cur))
}

/// Reads a sequence of items at `pos`: the announced number, then that
/// many items in turn; the items and where they end. Where `data` holds
/// at `pos` the encoding of a sequence, the items read encode as that
/// sequence does.
pub fn deserialize_items<T: Node>(data: &[u8], pos: usize) -> (r: Option<(Vec<T>, usize)>)
    requires
        pos <= data@.len(),
    ensures
        r matches Some((v, end)) ==> pos <= end <= data@.len(),
        T::is_lawful() ==> (r matches Some((v, end)) ==> data@.subrange(pos as int, end as int) == seq_encoding(v@)),
        T::is_lawful() ==> forall|s: Seq<T>| s.len() <= u64::MAX && #[trigger] seq_encoding(s).is_prefix_of(data@.skip(pos as int)) ==> {
            &&& r is Some
            &&& r matches Some((v, end)) ==> {
                &&& seq_encoding(v@) == seq_encoding(s)
                &&& end == pos + seq_encoding(s).len()
            }
        },
{
    let rest = slice_subrange(data, pos, data.len());
    proof {
        assert(rest@ =~= data@.skip(pos as int));
    }
    let n = match decode_u64(rest) {
        Some(n) => n,
        None => {
            proof {
                assert forall|s: Seq<T>| s.len() <= u64::MAX implies !#[trigger] seq_encoding(s).is_prefix_of(data@.skip(pos as int)) by {
                    lemma_u64_bytes(s.len() as u64);
                }
            }
            return None;
        },
    };
    proof {
        lemma_u64_bytes(n);
        assert forall|s: Seq<T>| s.len() <= u64::MAX && #[trigger] seq_encoding(s).is_prefix_of(data@.skip(pos as int)) implies {
            &&& s.len() == n
            &&& seq_bytes(s).is_prefix_of(data@.skip(pos + 8))
        } by {
            let l = s.len() as u64;
            lemma_u64_bytes(l);
            assert(rest@.take(8) =~= spec_u64_bytes(l));
            lemma_tag_then(spec_u64_bytes(l), seq_bytes(s), data@.skip(pos as int));
            assert(data@.skip(pos as int).skip(8) =~= data@.skip(pos + 8));
        }
    }
    match deserialize_n::<T>(data, pos + 8, n) {
        Some((out, end)) => {
            proof {
                lemma_u64_bytes(out@.len() as u64);
                assert(rest@.take(8) =~= data@.subrange(pos as int, pos + 8));
                assert(data@.subrange(pos as int, end as int) =~= data@.subrange(pos as int, pos + 8)
                    + data@.subrange(pos + 8, end as int));
            }
            Some((out, end))
        },
        None => None,
    }
}

/// Whether `after` is `before` with, first, the encoding of `x` recorded
/// for the type of `x` (its identity, under its name), and possibly more
/// records after it.
pub open spec fn value_recorded_first<X: Node>(x: X, before: Visitor, after: Visitor) -> bool {
    &&& after.serialized().len() > before.serialized().len()
    &&& after.serialized_types().len() > before.serialized_types().len()
    &&& after.serialized_types()[before.serialized_types().len() as int] == X::spec_name()
    &&& X::is_lawful() ==> after.serialized()[before.serialized().len() as int].0 == x.spec_serialize()
}

impl<T: Node> Node for Vec<T> {
    open spec fn spec_serialize(&self) -> Seq<u8> {
        seq_encoding(self@)
    }

    open spec fn spec_name() -> Seq<char> {
        "alloc::vec::Vec<"@ + T::spec_name() + ">"@
    }

    open spec fn is_lawful() -> bool {
        T::is_lawful()
    }

    open spec fn read_ok(bytes: Seq<u8>) -> bool {
        Self::is_lawful() && exists|x: Self| #[trigger] x.spec_serialize().is_prefix_of(bytes)
    }

    /// For a lawful type, a value read encodes as the start of the bytes,
    /// as any value whose encoding starts them does.
    open spec fn reading(bytes: Seq<u8>, v: Self) -> bool {
        Self::is_lawful() ==> {
            &&& v.spec_serialize().is_prefix_of(bytes)
            &&& forall|x: Self| #[trigger] x.spec_serialize().is_prefix_of(bytes) ==> v.spec_serialize()
                == x.spec_serialize()
        }
    }

    open spec fn encodes_exactly() -> bool {
        T::encodes_exactly()
    }

    open spec fn walks_known() -> bool {
        T::walks_known()
    }

    open spec fn first_name_ok(name: Seq<char>) -> bool {
        name == T::spec_name() || T::first_name_ok(name)
    }

    open spec fn always_generates() -> bool {
        T::always_generates()
    }

    open spec fn field_count(&self) -> nat {
        seq_field_count(self@)
    }

    open spec fn comparison_operands(&self, val: (u64, u64)) -> Seq<Seq<u8>> {
        seq_comparison_operands(self@, val)
    }

    open spec fn serialized_records(&self) -> Seq<Seq<u8>> {
        seq_records(self@)
    }

    open spec fn serialized_record_types(&self) -> Seq<Seq<char>> {
        seq_record_types(self@)
    }

    /// Along a path, the element at its first index is mutated along the
    /// rest of it and the others are kept; at its end, the vector is
    /// replaced, appended to or shortened.
    open spec fn mutation(&self, ty: &MutationType, path: Seq<usize>, before: Visitor, after: Self, after_v: Visitor) -> bool {
        if path.len() > 0 {
            &&& after@.len() == self@.len()
            &&& forall|j: int| 0 <= j < self@.len() && j != path[0] ==> after@[j] == self@[j]
            &&& self@[path[0] as int].mutation(ty, path.drop_first(), before, after@[path[0] as int], after_v)
        } else {
            match *ty {
                MutationType::IterablePop(i) => after@ == self@.remove(i as int) && after_v == before,
                MutationType::RecursiveReplace => after == *self && after_v == before,
                MutationType::GenerateAppend(_) => {
                    ||| after == *self && T::generation(before, None, None, after_v)
                    ||| after@.len() == self@.len() + 1 && after@.drop_last() == self@
                        && T::generation(before, None, Some(after@.last()), after_v)
                },
                MutationType::SpliceAppend(b) => {
                    &&& after_v == before
                    &&& after@.len() == self@.len() || after@.len() == self@.len() + 1
                    &&& after@.take(self@.len() as int) == self@
                    &&& after@.len() == self@.len() + 1 ==> T::reading((**b)@, after@.last())
                    &&& T::read_ok((**b)@) ==> after@.len() == self@.len() + 1
                    &&& T::is_lawful() ==> forall|x: T| #[trigger] x.spec_serialize().is_prefix_of((**b)@) ==> {
                        &&& after@.len() == self@.len() + 1
                        &&& after@.last().spec_serialize() == x.spec_serialize()
                    }
                },
                MutationType::Splice(b) => {
                    &&& after_v == before
                    &&& Self::is_lawful() ==> forall|x: Self| #[trigger] x.spec_serialize().is_prefix_of((**b)@)
                        ==> after.spec_serialize() == x.spec_serialize()
                },
                MutationType::GenerateReplace(_) => {
                    ||| after == *self && Self::generation(before, None, None, after_v)
                    ||| exists|generated: Visitor| {
                        &&& #[trigger] Self::generation(before, None, Some(after), generated)
                        &&& after_v.keeps_state(&generated)
                        &&& after_v.fields() == generated.fields()
                        &&& after_v.operands() == generated.operands()
                        &&& T::walks_known() ==> after_v.serialized().len() == generated.serialized().len()
                            + after.serialized_records().len()
                        &&& T::walks_known() && T::encodes_exactly() ==> after_v.serialized_bytes()
                            == generated.serialized_bytes() + after.serialized_records()
                    }
                },
            }
        }
    }

    /// A length is drawn, then that many elements are generated in turn;
    /// generation gives up at the first element that could not be generated.
    open spec fn generation(before: Visitor, settings: Option<GenerateSettings>, r: Option<Self>, after: Visitor) -> bool {
        exists|drawn: Visitor|
            #[trigger] length_drawn(before, settings, drawn) && match r {
                Some(w) => w@.len() == drawn_length(before, settings) && elements_generated::<T>(drawn, w@, after),
                None => exists|s: Seq<T>, last: Visitor|
                    #![trigger elements_generated::<T>(drawn, s, last)]
                    s.len() < drawn_length(before, settings) && elements_generated::<T>(drawn, s, last)
                        && T::generation(last, None, None, after),
            }
    }

    open spec fn generate_ok(settings: GenerateSettings, rng: u64) -> bool {
        settings matches GenerateSettings::Range(r) ==> !r@.exhausted && r@.end < usize::MAX
    }

    open spec fn mutate_ok(&self, ty: &MutationType, path: Seq<usize>) -> bool {
        if path.len() > 0 {
            &&& path[0] < self@.len()
            &&& self@[path[0] as int].mutate_ok(ty, path.drop_first())
        } else {
            match *ty {
                MutationType::IterablePop(i) => i < self@.len(),
                MutationType::Splice(b) => Self::is_lawful() ==> exists|x: Self| #[trigger] x.spec_serialize().is_prefix_of((**b)@),
                MutationType::SpliceAppend(b) => T::is_lawful() ==> encodes_some::<T>((**b)@),
                _ => true,
            }
        }
    }

    /// A vector of the given length, of a length drawn from the given range,
    /// or of a length below the visitor's iteration depth; its elements are
    /// generated in turn, and generation gives up where one of them does.
    fn __autarkie_generate(
        visitor: &mut Visitor,
        depth: &mut usize,
        cur_depth: usize,
        settings: Option<GenerateSettings>,
    ) -> (r: Option<Self>)
        ensures
            r matches Some(v) ==> match settings {
                Some(GenerateSettings::Length(n)) => v@.len() == n,
                Some(GenerateSettings::Range(rg)) => rg@.start <= v@.len() && (v@.len() <= rg@.end
                    || v@.len() == rg@.start),
                None => v@.len() < old(visitor).depth().iterate || v@.len() == 0,
            },
            *final(depth) == *old(depth),
            settings is None && old(visitor).depth().iterate > 0 ==> (r matches Some(v) ==> v@.len()
                == rng_output(old(visitor).rng_state()) % (old(visitor).depth().iterate as u64)),
            settings matches Some(GenerateSettings::Range(rg)) ==> (rg@.start < rg@.end + 1 ==> (r matches Some(v)
                ==> v@.len() == rg@.start + rng_output(old(visitor).rng_state()) % ((rg@.end + 1 - rg@.start) as u64))),
            (settings matches Some(GenerateSettings::Length(n)) && n == 0) ==> {
                &&& r matches Some(v) && v@.len() == 0
                &&& *final(visitor) == *old(visitor)
            },
    {
        let element_count = match settings {
            Some(GenerateSettings::Length(len)) => len,
            Some(GenerateSettings::Range(range)) => {
                let lo = *range.start();
                let hi = *range.end() + 1;
                visitor.random_range(lo, hi)
            },
            None => {
                let d = visitor.iterate_depth();
                visitor.random_range(0, d)
            },
        };
        let ghost drawn = *visitor;
        proof {
            lemma_elements_generated_empty::<T>(drawn);
            assert(length_drawn(*old(visitor), settings, drawn));
            assert(element_count == drawn_length(*old(visitor), settings));
        }
        if element_count == 0 {
            let empty: Vec<T> = Vec::new();
            proof {
                assert(empty@ =~= Seq::<T>::empty());
            }
            return Some(empty);
        }
        let mut vector: Vec<T> = Vec::with_capacity(element_count);
        let mut i: usize = 0;
        while i < element_count
            invariant
                i <= element_count,
                vector@.len() == i,
                visitor.draws_only(&*old(visitor)),
                element_count != 0,
                settings matches Some(GenerateSettings::Length(n)) ==> element_count == n,
                element_count == drawn_length(*old(visitor), settings),
                length_drawn(*old(visitor), settings, drawn),
                elements_generated::<T>(drawn, vector@, *visitor),
            decreases element_count - i,
        {
            let ghost prev = *visitor;
            let ghost items = vector@;
            let mut fresh_depth: usize = 0;
            match T::__autarkie_generate(visitor, &mut fresh_depth, cur_depth, None) {
                Some(item) => {
                    let ghost gi = item;
                    proof {
                        assert(T::generation(prev, None, Some(gi), *visitor));
                    }
                    vector.push(item);
                    proof {
                        lemma_elements_generated_push::<T>(drawn, items, prev, gi, *visitor);
                        assert(vector@ =~= items.push(gi));
                    }
                },
                None => {
                    proof {
                        assert(elements_generated::<T>(drawn, items, prev));
                    }
                    return None;
                },
            }
            i = i + 1;
        }
        Some(vector)
    }

    /// The held type registered in its place: its own registration, or one
    /// edge to it where it is being registered already.
    open spec fn registration(before: Visitor, parent: Option<Id>, variant: usize, after: Visitor) -> bool {
        child_registered::<T>(before, parent, variant, after)
    }

    /// Each element is walked in turn, inside a field at its position.
    open spec fn walk(&self, index: usize, compared: Option<(u64, u64)>, before: Visitor, after: Visitor) -> bool {
        items_walked(self@, compared, before, after)
    }

    /// Registers the element type, or, where it is being registered
    /// already, records the edge to it and goes no deeper.
    fn __autarkie_register(v: &mut Visitor, parent: Option<(Id, String)>, variant: usize) {
        if !v.is_recursive(T::__autarkie_id()) {
            T::__autarkie_register(v, parent, variant);
        } else {
            let ghost before = *v;
            let child = T::register_self(v, parent, variant);
            let ghost id = child.0;
            let ghost mid = *v;
            v.pop_ty();
            proof {
                assert(entered(before, parent_id(parent), variant, T::spec_name(), id, mid));
            }
        }
    }

    /// A sequence of variable length, with its number of elements.
    open spec fn node_shape(&self, shape: NodeType) -> bool {
        shape matches NodeType::Iterable(fixed, n, _) && !fixed && n == self@.len()
    }

    fn __autarkie_node_ty(&self, visitor: &Visitor) -> (r: NodeType) {
        NodeType::Iterable(false, self.len(), Self::inner_id())
    }

    fn inner_id() -> Id {
        T::__autarkie_id()
    }

    /// Records the encoding of each element, then what each element records.
    fn __autarkie_serialized(&self, visitor: &mut Visitor) {
        record_items_serialized(self.as_slice(), visitor);
    }

    /// Enters each element as a field, at its index, and records its fields.
    fn __autarkie_fields(&self, visitor: &mut Visitor, index: usize)
    {
        record_item_fields(self.as_slice(), visitor);
    }

    /// Enters each element as a field, at its index, and records its
    /// comparison operands.
    fn __autarkie_cmps(&self, visitor: &mut Visitor, index: usize, __autarkie_val: (u64, u64)) {
        record_item_cmps(self.as_slice(), visitor, __autarkie_val);
    }

    /// Along the path, mutates the element at its first index; at its end,
    /// replaces, appends to or removes from the vector.
    fn __autarkie_mutate(
        &mut self,
        ty: &mut MutationType,
        visitor: &mut Visitor,
        path: VecDeque<usize>,
    )
    {
        let mut path = path;
        let ghost full = path@;
        match path.pop_front() {
            Some(popped) => {
                proof {
                    assert(path@ =~= full.drop_first());
                }
                self[popped].__autarkie_mutate(ty, visitor, path);
                proof {
                    assert(self@.len() == old(self)@.len());
                    assert(forall|j: int| 0 <= j < old(self)@.len() && j != full[0] ==> self@[j] == old(self)@[j]);
                    assert(old(self)@[full[0] as int].mutation(&*old(ty), full.drop_first(), *old(visitor), self@[full[0] as int], *visitor));
                }
            },
            None => {
                match ty {
                    MutationType::Splice(other) => {
                        let bytes: &[u8] = **other;
                        proof {
                            assert(bytes@.skip(0) =~= bytes@);
                        }
                        match Self::__autarkie_deserialize(bytes, 0) {
                            Some((v, end)) => {
                                proof {
                                    if Self::is_lawful() {
                                        assert(v.spec_serialize() =~= bytes@.subrange(0, v.spec_serialize().len() as int));
                                        assert(v.spec_serialize().is_prefix_of(bytes@));
                                    }
                                }
                                *self = v;
                            },
                            None => {},
                        }
                    },
                    MutationType::GenerateReplace(bias) => {
                        match Self::__autarkie_generate(visitor, bias, 0, None) {
                            Some(generated) => {
                                *self = generated;
                                let ghost g = *visitor;
                                self.__autarkie_serialized(visitor);
                                proof {
                                    assert(Self::generation(*old(visitor), None, Some(*self), g));
                                }
                            },
                            None => {},
                        }
                    },
                    MutationType::SpliceAppend(other) => {
                        let bytes: &[u8] = **other;
                        proof {
                            assert(bytes@.skip(0) =~= bytes@);
                        }
                        match T::__autarkie_deserialize(bytes, 0) {
                            Some((v, end)) => {
                                proof {
                                    if T::is_lawful() {
                                        assert(v.spec_serialize() =~= bytes@.subrange(0, v.spec_serialize().len() as int));
                                        assert(v.spec_serialize().is_prefix_of(bytes@));
                                    }
                                }
                                let ghost gv = v;
                                self.push(v);
                                proof {
                                    assert(self@.take(old(self)@.len() as int) =~= old(self)@);
                                    assert(self@.last() == gv);
                                }
                            },
                            None => {
                                proof {
                                    assert(self@.take(old(self)@.len() as int) =~= old(self)@);
                                }
                            },
                        }
                    },
                    MutationType::GenerateAppend(bias) => {
                        match T::__autarkie_generate(visitor, bias, 0, None) {
                            Some(generated) => {
                                self.push(generated);
                                proof {
                                    assert(self@.drop_last() =~= old(self)@);
                                }
                            },
                            None => {},
                        }
                    },
                    MutationType::IterablePop(bias) => {
                        self.remove(*bias);
                        proof {
                            assert(self@ =~= old(self)@.remove(*bias as int));
                        }
                    },
                    MutationType::RecursiveReplace => {},
                }
            },
        }
    }

    fn __autarkie_serialize(&self) -> (r: Vec<u8>) {
        serialize_items(self.as_slice())
    }

    /// Reads the announced length, then that many elements in turn.
    fn __autarkie_deserialize(data: &[u8], pos: usize) -> (r: Option<(Self, usize)>) {
        let r = deserialize_items::<T>(data, pos);
        proof {
            if T::is_lawful() {
                assert forall|x: Self| #[trigger] x.spec_serialize().is_prefix_of(data@.skip(pos as int)) implies {
                    &&& r is Some
                    &&& r matches Some((v, end)) ==> {
                        &&& v.spec_serialize() == x.spec_serialize()
                        &&& end == pos + x.spec_serialize().len()
                    }
                } by {
                    let l = x.len();
                    assert(seq_encoding(x@).is_prefix_of(data@.skip(pos as int)));
                }
            }
        }
        r
    }

    fn __autarkie_id_name() -> (r: String) {
        let mut r = "alloc::vec::Vec<".to_owned();
        let inner = T::__autarkie_id_name();
        r.append(inner.as_str());
        r.append(">");
        assert(r@ == Self::spec_name());
        r
    }
}


impl<T: Node> Node for Option<T> {
    open spec fn node_shape(&self, shape: NodeType) -> bool {
        shape == NodeType::NonRecursive
    }

    /// A node with fixed fields.
    fn __autarkie_node_ty(&self, visitor: &Visitor) -> (r: NodeType) {
        NodeType::NonRecursive
    }

    open spec fn spec_serialize(&self) -> Seq<u8> {
        match *self {
            None => spec_u8_bytes(0u8),
            Some(x) => spec_u8_bytes(1u8) + x.spec_serialize(),
        }
    }

    open spec fn spec_name() -> Seq<char> {
        "core::option::Option<"@ + T::spec_name() + ">"@
    }

    open spec fn is_lawful() -> bool {
        T::is_lawful()
    }

    open spec fn read_ok(bytes: Seq<u8>) -> bool {
        Self::is_lawful() && exists|x: Self| #[trigger] x.spec_serialize().is_prefix_of(bytes)
    }

    /// For a lawful type, a value read encodes as the start of the bytes,
    /// as any value whose encoding starts them does.
    open spec fn reading(bytes: Seq<u8>, v: Self) -> bool {
        Self::is_lawful() ==> {
            &&& v.spec_serialize().is_prefix_of(bytes)
            &&& forall|x: Self| #[trigger] x.spec_serialize().is_prefix_of(bytes) ==> v.spec_serialize()
                == x.spec_serialize()
        }
    }

    open spec fn encodes_exactly() -> bool {
        T::encodes_exactly()
    }

    open spec fn walks_known() -> bool {
        T::walks_known()
    }

    open spec fn first_name_ok(name: Seq<char>) -> bool {
        false
    }

    open spec fn always_generates() -> bool {
        T::always_generates()
    }

    /// A coin is flipped: on heads, the value is what generating the inner
    /// type then gives (or nothing is generated where that fails); on
    /// tails, no value.
    open spec fn generation(before: Visitor, settings: Option<GenerateSettings>, r: Option<Self>, after: Visitor) -> bool {
        exists|flipped: Visitor|
            #[trigger] flipped.stepped_from(&before) && if rng_coin(before.rng_state()) {
                match r {
                    Some(Some(x)) => T::generation(flipped, None, Some(x), after),
                    Some(None) => false,
                    None => T::generation(flipped, None, None, after),
                }
            } else {
                r == Some(None::<T>) && after == flipped
            }
    }

    open spec fn field_count(&self) -> nat {
        match *self {
            Some(x) => 1 + x.field_count(),
            None => 0,
        }
    }

    open spec fn comparison_operands(&self, val: (u64, u64)) -> Seq<Seq<u8>> {
        match *self {
            Some(x) => x.comparison_operands(val),
            None => Seq::empty(),
        }
    }

    open spec fn serialized_records(&self) -> Seq<Seq<u8>> {
        match *self {
            Some(x) => seq![x.spec_serialize()] + x.serialized_records(),
            None => Seq::empty(),
        }
    }

    open spec fn serialized_record_types(&self) -> Seq<Seq<char>> {
        match *self {
            Some(x) => seq![T::spec_name()] + x.serialized_record_types(),
            None => Seq::empty(),
        }
    }

    open spec fn generate_ok(settings: GenerateSettings, rng: u64) -> bool {
        true
    }

    /// Inside a value, the value is mutated along the rest of the path;
    /// otherwise the option is replaced.
    open spec fn mutation(&self, ty: &MutationType, path: Seq<usize>, before: Visitor, after: Self, after_v: Visitor) -> bool {
        if path.len() > 0 && *self is Some {
            &&& after is Some
            &&& self->0.mutation(ty, path.drop_first(), before, after->0, after_v)
        } else {
            match *ty {
                MutationType::Splice(b) => {
                    &&& after_v == before
                    &&& Self::is_lawful() ==> forall|x: Self| #[trigger] x.spec_serialize().is_prefix_of((**b)@)
                        ==> after.spec_serialize() == x.spec_serialize()
                },
                _ => {
                    ||| after == *self && Self::generation(before, None, None, after_v)
                    ||| exists|generated: Visitor| {
                        &&& #[trigger] Self::generation(before, None, Some(after), generated)
                        &&& after_v.keeps_state(&generated)
                        &&& after_v.fields() == generated.fields()
                        &&& after_v.operands() == generated.operands()
                        &&& after_v.serialized().len() > generated.serialized().len()
                        &&& after_v.serialized_types().len() > generated.serialized_types().len()
                        &&& after_v.serialized_types()[generated.serialized_types().len() as int] == Self::spec_name()
                        &&& Self::encodes_exactly() ==> after_v.serialized()[generated.serialized().len() as int].0
                            == after.spec_serialize()
                        &&& Self::walks_known() && Self::encodes_exactly() ==> after_v.serialized_bytes()
                            == generated.serialized_bytes().push(after.spec_serialize()) + after.serialized_records()
                    }
                },
            }
        }
    }

    open spec fn mutate_ok(&self, ty: &MutationType, path: Seq<usize>) -> bool {
        if path.len() > 0 && *self is Some {
            self->0.mutate_ok(ty, path.drop_first())
        } else {
            &&& (*ty is Splice || *ty is GenerateReplace)
            &&& (*ty matches MutationType::Splice(b) ==> (Self::is_lawful() ==> exists|x: Self| #[trigger] x.spec_serialize().is_prefix_of((**b)@)))
        }
    }

    /// On a coin flip, a generated value, or nothing.
    fn __autarkie_generate(
        visitor: &mut Visitor,
        depth: &mut usize,
        cur_depth: usize,
        settings: Option<GenerateSettings>,
    ) -> (r: Option<Self>)
        ensures
            !rng_coin(old(visitor).rng_state()) ==> r == Some(None::<T>),
            rng_coin(old(visitor).rng_state()) ==> (r matches Some(o) ==> o is Some),
            rng_coin(old(visitor).rng_state()) && T::always_generates() ==> r matches Some(Some(_)),
    {
        let choose_some = visitor.coinflip();
        let ghost flipped = *visitor;
        if choose_some {
            match T::__autarkie_generate(visitor, depth, cur_depth, None) {
                Some(x) => {
                    proof {
                        assert(flipped.stepped_from(&*old(visitor)));
                    }
                    Some(Some(x))
                },
                None => {
                    proof {
                        assert(flipped.stepped_from(&*old(visitor)));
                    }
                    None
                },
            }
        } else {
            proof {
                assert(flipped.stepped_from(&*old(visitor)));
            }
            Some(None)
        }
    }

    fn inner_id() -> Id {
        T::__autarkie_id()
    }

    /// A value is walked inside a field at `index`, as field 0 of it; no
    /// value, nothing.
    open spec fn walk(&self, index: usize, compared: Option<(u64, u64)>, before: Visitor, after: Visitor) -> bool {
        match *self {
            Some(x) => walked_in_shaped_field(x, index, 0, compared, before, after),
            None => after == before,
        }
    }

    /// The option registered, then under it the inner type at variant 0
    /// (its own registration, or one edge to it where it is being registered
    /// already) and the marker for no value at variant 1.
    open spec fn registration(before: Visitor, parent: Option<Id>, variant: usize, after: Visitor) -> bool {
        exists|me: Id, v1: Visitor, v2: Visitor, v3: Visitor|
            #![trigger entered(before, parent, variant, Self::spec_name(), me, v1), child_registered::<T>(v1, Some(me), 0, v2), left(v3, after)]
            entered(before, parent, variant, Self::spec_name(), me, v1)
                && child_registered::<T>(v1, Some(me), 0, v2)
                && one_edge(v2, Some(me), 1, PhantomData::<bool>::spec_name(), v3)
                && left(v3, after)
    }

    /// Registers the option type, then under it, at variant 0, the inner
    /// type (or only the edge to it, where it is being registered already),
    /// and at variant 1 the marker that stands for no value.
    fn __autarkie_register(v: &mut Visitor, parent: Option<(Id, String)>, variant: usize)
        ensures
            final(v).ty_edges().len() > old(v).ty_edges().len() + 2,
            final(v).ty_edges()[old(v).ty_edges().len() as int + 1].0 == Some(final(v).ty_edges()[old(v).ty_edges().len() as int].1),
            final(v).ty_edges()[old(v).ty_edges().len() as int + 1].2 == 0,
            final(v).ty_names().len() > old(v).ty_names().len() + 1,
            final(v).ty_names()[old(v).ty_names().len() as int + 1].0
                == final(v).ty_edges()[old(v).ty_edges().len() as int + 1].1,
            ({
                let name = final(v).ty_names()[old(v).ty_names().len() as int + 1].1@;
                name == T::spec_name() || T::first_name_ok(name)
            }),
            final(v).ty_edges().last().0 == Some(final(v).ty_edges()[old(v).ty_edges().len() as int].1),
            final(v).ty_edges().last().2 == 1,
            final(v).ty_names().last().0 == final(v).ty_edges().last().1,
            final(v).ty_names().last().1@ == PhantomData::<bool>::spec_name(),
            final(v).ty_names()[old(v).ty_names().len() as int].1@ == Self::spec_name(),
    {
        let ghost v0 = *v;
        let ghost start = v.ty_edges().len();
        let me = Self::register_self(v, parent, variant);
        let me_id = me.0;
        let me_name = me.1.clone();
        let ghost v1 = *v;
        let ghost first = v.ty_edges()[start as int];
        proof {
            assert(entered(v0, parent_id(parent), variant, Self::spec_name(), me_id, v1));
        }
        if !v.is_recursive(T::__autarkie_id()) {
            T::__autarkie_register(v, Some((me_id, me_name.clone())), 0);
            let ghost v2 = *v;
            let marker = PhantomData::<bool>::register_self(v, Some((me_id, me_name)), 1);
            let ghost marker_id = marker.0;
            let ghost vm = *v;
            v.pop_ty();
            let ghost v3 = *v;
            proof {
                assert(child_registered::<T>(v1, Some(me_id), 0, v2));
                assert(entered(v2, Some(me_id), 1, PhantomData::<bool>::spec_name(), marker_id, vm));
                assert(one_edge(v2, Some(me_id), 1, PhantomData::<bool>::spec_name(), v3));
                assert(exists|w2: Visitor| #[trigger] child_registered::<T>(v1, Some(me_id), 0, w2)
                    && one_edge(w2, Some(me_id), 1, PhantomData::<bool>::spec_name(), v3));
                assert(v1.ty_edges().is_prefix_of(v2.ty_edges()));
                assert(v2.ty_edges().is_prefix_of(v.ty_edges()));
                assert(v1.ty_names().is_prefix_of(v2.ty_names()));
                assert(v2.ty_names().is_prefix_of(v.ty_names()));
                assert(v.ty_stack() == v1.ty_stack());
                assert(v.ty_edges()[start as int + 1] == v2.ty_edges()[start as int + 1]);
            }
        } else {
            let child = T::register_self(v, Some((me_id, me_name.clone())), 0);
            let ghost child_id = child.0;
            let ghost vc = *v;
            v.pop_ty();
            let ghost v2 = *v;
            let marker = PhantomData::<bool>::register_self(v, Some((me_id, me_name)), 1);
            let ghost marker_id = marker.0;
            let ghost vm = *v;
            v.pop_ty();
            let ghost v3 = *v;
            proof {
                assert(entered(v1, Some(me_id), 0, T::spec_name(), child_id, vc));
                assert(child_registered::<T>(v1, Some(me_id), 0, v2));
                assert(entered(v2, Some(me_id), 1, PhantomData::<bool>::spec_name(), marker_id, vm));
                assert(one_edge(v2, Some(me_id), 1, PhantomData::<bool>::spec_name(), v3));
                assert(exists|w2: Visitor| #[trigger] child_registered::<T>(v1, Some(me_id), 0, w2)
                    && one_edge(w2, Some(me_id), 1, PhantomData::<bool>::spec_name(), v3));
                assert(v1.ty_edges().is_prefix_of(v2.ty_edges()));
                assert(v2.ty_edges().is_prefix_of(v.ty_edges()));
                assert(v1.ty_names().is_prefix_of(v2.ty_names()));
                assert(v2.ty_names().is_prefix_of(v.ty_names()));
                assert(v.ty_stack() == v1.ty_stack());
                assert(v.ty_edges()[start as int + 1] == v2.ty_edges()[start as int + 1]);
            }
        }
        let ghost v3 = *v;
        v.pop_ty();
        proof {
            assert(v0.ty_edges().is_prefix_of(v1.ty_edges()));
            assert(v1.ty_edges().is_prefix_of(v3.ty_edges()));
            assert(v0.ty_names().is_prefix_of(v1.ty_names()));
            assert(v1.ty_names().is_prefix_of(v3.ty_names()));
            assert(v.ty_edges()[start as int] == first);
            assert(v.ty_names()[v0.ty_names().len() as int] == v1.ty_names()[v0.ty_names().len() as int]);
            let w2 = choose|w2: Visitor| #[trigger] child_registered::<T>(v1, Some(me_id), 0, w2)
                && one_edge(w2, Some(me_id), 1, PhantomData::<bool>::spec_name(), v3);
            assert(left(v3, *v));
            assert(child_registered::<T>(v1, Some(me_id), 0, w2));
        }
    }

    /// Inside a value, mutates it along the rest of the path; otherwise
    /// replaces the option by the one the spliced bytes encode, or by a
    /// generated one whose encodings are then recorded.
    fn __autarkie_mutate(
        &mut self,
        ty: &mut MutationType,
        visitor: &mut Visitor,
        path: VecDeque<usize>,
    )
    {
        let mut path = path;
        let popped = path.pop_front();
        if popped.is_some() && self.is_some() {
            match self {
                Some(inner) => {
                    inner.__autarkie_mutate(ty, visitor, path);
                },
                None => {},
            }
        } else {
            match ty {
                MutationType::Splice(other) => {
                    let bytes: &[u8] = **other;
                    proof {
                        assert(bytes@.skip(0) =~= bytes@);
                    }
                    match Self::__autarkie_deserialize(bytes, 0) {
                        Some((v, end)) => {
                            proof {
                                if Self::is_lawful() {
                                    assert(v.spec_serialize() =~= bytes@.subrange(0, v.spec_serialize().len() as int));
                                    assert(v.spec_serialize().is_prefix_of(bytes@));
                                }
                            }
                            *self = v;
                        },
                        None => {},
                    }
                },
                MutationType::GenerateReplace(bias) => {
                    match Self::__autarkie_generate(visitor, bias, 0, None) {
                        Some(generated) => {
                            *self = generated;
                            let ghost g = *visitor;
                            let ghost k = visitor.serialized().len();
                            Self::record_encoding(visitor, self.__autarkie_serialize());
                            let ghost entry = visitor.serialized()[k as int];
                            self.__autarkie_serialized(visitor);
                            proof {
                                assert(visitor.serialized()[k as int] == entry);
                                assert(Self::encodes_exactly() ==> visitor.serialized()[k as int].0 == self.spec_serialize());
                                assert(Self::generation(*old(visitor), None, Some(*self), g));
                                if Self::walks_known() && Self::encodes_exactly() {
                                    assert(visitor.serialized_bytes() =~= g.serialized_bytes().push(
                                        self.spec_serialize(),
                                    ) + self.serialized_records());
                                }
                            }
                        },
                        None => {},
                    }
                },
                _ => {
                    proof {
                        assert(false);
                    }
                },
            }
        }
    }

    /// For a value, records its encoding, then what it records.
    fn __autarkie_serialized(&self, visitor: &mut Visitor)
        ensures
            *self is None ==> final(visitor).serialized() == old(visitor).serialized(),
            *self is Some ==> final(visitor).serialized().len() > old(visitor).serialized().len(),
            *self is Some && T::is_lawful() ==> final(visitor).serialized()[old(
                visitor,
            ).serialized().len() as int].0 == self->0.spec_serialize(),
            *self is None ==> final(visitor).serialized_types() == old(visitor).serialized_types(),
            *self is Some ==> final(visitor).serialized_types().len() > old(visitor).serialized_types().len(),
            *self is Some ==> final(visitor).serialized_types()[old(visitor).serialized_types().len() as int]
                == T::spec_name(),
            *self matches Some(x) ==> value_recorded_first(x, *old(visitor), *final(visitor)),
    {
        match self {
            Some(inner) => {
                let ghost k = visitor.serialized().len();
                let ghost kt = visitor.serialized_types().len();
                T::record_encoding(visitor, inner.__autarkie_serialize());
                let ghost entry = visitor.serialized()[k as int];
                let ghost mid = *visitor;
                inner.__autarkie_serialized(visitor);
                proof {
                    assert(visitor.serialized()[k as int] == entry);
                    assert(mid.serialized_types().is_prefix_of(visitor.serialized_types()));
                    assert(visitor.serialized_types()[kt as int] == mid.serialized_types()[kt as int]);
                }
            },
            None => {},
        }
    }

    /// For a value, enters it as field `index` and records its fields.
    fn __autarkie_fields(&self, visitor: &mut Visitor, index: usize)
        ensures
            *self is None ==> final(visitor).fields() == old(visitor).fields(),
            *self is Some ==> final(visitor).fields().len() > old(visitor).fields().len(),
    {
        match self {
            Some(inner) => {
                let ghost prev = *visitor;
                let shape = inner.__autarkie_node_ty(visitor);
                let id = T::enter_as_field(visitor, index, shape).1;
                let ghost v1 = *visitor;
                inner.__autarkie_fields(visitor, 0);
                let ghost v2 = *visitor;
                visitor.pop_field();
                proof {
                    assert(field_entered(prev, ((index, shape), id), T::spec_name(), v1));
                    assert(field_left(v2, *visitor));
                    assert(walked_in_shaped_field(*inner, index, 0, None, prev, *visitor)) by {
                        reveal(walked_in_shaped_field);
                    }
                }
            },
            None => {},
        }
    }

    /// For a value, enters it as field `index` and records its comparison
    /// operands.
    fn __autarkie_cmps(&self, visitor: &mut Visitor, index: usize, __autarkie_val: (u64, u64)) {
        match self {
            Some(inner) => {
                let ghost prev = *visitor;
                let shape = inner.__autarkie_node_ty(visitor);
                let id = T::enter_as_field(visitor, index, shape).1;
                let ghost v1 = *visitor;
                inner.__autarkie_cmps(visitor, 0, __autarkie_val);
                let ghost v2 = *visitor;
                visitor.pop_field();
                proof {
                    assert(field_entered(prev, ((index, shape), id), T::spec_name(), v1));
                    assert(field_left(v2, *visitor));
                    assert(walked_in_shaped_field(*inner, index, 0, Some(__autarkie_val), prev, *visitor)) by {
                        reveal(walked_in_shaped_field);
                    }
                }
            },
            None => {},
        }
    }

    fn __autarkie_serialize(&self) -> (r: Vec<u8>) {
        match self {
            None => encode_u8(0u8),
            Some(x) => {
                let mut out = encode_u8(1u8);
                let mut rest = x.__autarkie_serialize();
                out.append(&mut rest);
                out
            },
        }
    }

    /// Reads a tag byte: 0 for no value, 1 for a value that follows.
    fn __autarkie_deserialize(data: &[u8], pos: usize) -> (r: Option<(Self, usize)>) {
        let rest = slice_subrange(data, pos, data.len());
        proof {
            assert(rest@ =~= data@.skip(pos as int));
            lemma_u8_bytes(0u8);
            lemma_u8_bytes(1u8);
        }
        let tag = match decode_u8(rest) {
            Some(t) => t,
            None => {
                proof {
                    assert forall|x: Self| !#[trigger] x.spec_serialize().is_prefix_of(data@.skip(pos as int)) by {}
                }
                return None;
            },
        };
        proof {
            assert forall|x: Self| #[trigger] x.spec_serialize().is_prefix_of(data@.skip(pos as int)) implies
                (x is None <==> tag == 0) && (x is Some <==> tag == 1) && (x matches Some(y) ==> y.spec_serialize().is_prefix_of(data@.skip(pos + 1))) by {
                assert(x.spec_serialize()[0] == rest@[0]);
                if let Some(y) = x {
                    lemma_tag_then(spec_u8_bytes(1u8), y.spec_serialize(), data@.skip(pos as int));
                    assert(data@.skip(pos as int).skip(1) =~= data@.skip(pos + 1));
                }
            }
        }
        if tag == 0 {
            Some((None, pos + 1))
        } else if tag == 1 {
            match T::__autarkie_deserialize(data, pos + 1) {
                Some((v, end)) => Some((Some(v), end)),
                None => None,
            }
        } else {
            None
        }
    }

    fn __autarkie_id_name() -> (r: String) {
        let mut r = "core::option::Option<".to_owned();
        let inner = T::__autarkie_id_name();
        r.append(inner.as_str());
        r.append(">");
        assert(r@ == Self::spec_name());
        r
    }
}

impl<T: Node, E: Node> Node for Result<T, E> {
    open spec fn node_shape(&self, shape: NodeType) -> bool {
        shape == NodeType::NonRecursive
    }

    /// A node with fixed fields.
    fn __autarkie_node_ty(&self, visitor: &Visitor) -> (r: NodeType) {
        NodeType::NonRecursive
    }

    open spec fn spec_serialize(&self) -> Seq<u8> {
        match *self {
            Ok(x) => spec_u32_bytes(0u32) + x.spec_serialize(),
            Err(e) => spec_u32_bytes(1u32) + e.spec_serialize(),
        }
    }

    open spec fn spec_name() -> Seq<char> {
        "core::result::Result<"@ + T::spec_name() + ", "@ + E::spec_name() + ">"@
    }

    open spec fn is_lawful() -> bool {
        T::is_lawful() && E::is_lawful()
    }

    open spec fn read_ok(bytes: Seq<u8>) -> bool {
        Self::is_lawful() && exists|x: Self| #[trigger] x.spec_serialize().is_prefix_of(bytes)
    }

    /// For a lawful type, a value read encodes as the start of the bytes,
    /// as any value whose encoding starts them does.
    open spec fn reading(bytes: Seq<u8>, v: Self) -> bool {
        Self::is_lawful() ==> {
            &&& v.spec_serialize().is_prefix_of(bytes)
            &&& forall|x: Self| #[trigger] x.spec_serialize().is_prefix_of(bytes) ==> v.spec_serialize()
                == x.spec_serialize()
        }
    }

    open spec fn encodes_exactly() -> bool {
        T::encodes_exactly() && E::encodes_exactly()
    }

    open spec fn walks_known() -> bool {
        T::walks_known() && E::walks_known()
    }

    open spec fn first_name_ok(name: Seq<char>) -> bool {
        false
    }

    open spec fn always_generates() -> bool {
        T::always_generates() && E::always_generates()
    }

    /// A coin is flipped: on heads, a success holding what generating `T`
    /// then gives; on tails, an error holding what generating `E` then
    /// gives; nothing where that generation fails.
    open spec fn generation(before: Visitor, settings: Option<GenerateSettings>, r: Option<Self>, after: Visitor) -> bool {
        exists|flipped: Visitor|
            #[trigger] flipped.stepped_from(&before) && if rng_coin(before.rng_state()) {
                match r {
                    Some(Ok(x)) => T::generation(flipped, None, Some(x), after),
                    Some(Err(_)) => false,
                    None => T::generation(flipped, None, None, after),
                }
            } else {
                match r {
                    Some(Err(e)) => E::generation(flipped, None, Some(e), after),
                    Some(Ok(_)) => false,
                    None => E::generation(flipped, None, None, after),
                }
            }
    }

    open spec fn field_count(&self) -> nat {
        match *self {
            Ok(x) => 1 + x.field_count(),
            Err(e) => 1 + e.field_count(),
        }
    }

    open spec fn comparison_operands(&self, val: (u64, u64)) -> Seq<Seq<u8>> {
        match *self {
            Ok(x) => x.comparison_operands(val),
            Err(e) => e.comparison_operands(val),
        }
    }

    open spec fn serialized_records(&self) -> Seq<Seq<u8>> {
        match *self {
            Ok(x) => seq![x.spec_serialize()] + x.serialized_records(),
            Err(e) => seq![e.spec_serialize()] + e.serialized_records(),
        }
    }

    open spec fn serialized_record_types(&self) -> Seq<Seq<char>> {
        match *self {
            Ok(x) => seq![T::spec_name()] + x.serialized_record_types(),
            Err(e) => seq![E::spec_name()] + e.serialized_record_types(),
        }
    }

    open spec fn generate_ok(settings: GenerateSettings, rng: u64) -> bool {
        true
    }

    /// Along a path, the value inside is mutated along the rest of it and
    /// the variant kept; at its end, the result is replaced.
    open spec fn mutation(&self, ty: &MutationType, path: Seq<usize>, before: Visitor, after: Self, after_v: Visitor) -> bool {
        if path.len() > 0 {
            match *self {
                Ok(x) => after is Ok && x.mutation(ty, path.drop_first(), before, after->Ok_0, after_v),
                Err(e) => after is Err && e.mutation(ty, path.drop_first(), before, after->Err_0, after_v),
            }
        } else {
            match *ty {
                MutationType::Splice(b) => {
                    &&& after_v == before
                    &&& Self::is_lawful() ==> forall|x: Self| #[trigger] x.spec_serialize().is_prefix_of((**b)@)
                        ==> after.spec_serialize() == x.spec_serialize()
                },
                _ => {
                    ||| after == *self && Self::generation(before, None, None, after_v)
                    ||| exists|generated: Visitor| {
                        &&& #[trigger] Self::generation(before, None, Some(after), generated)
                        &&& after_v.keeps_state(&generated)
                        &&& after_v.fields() == generated.fields()
                        &&& after_v.operands() == generated.operands()
                        &&& after_v.serialized().len() > generated.serialized().len()
                        &&& after_v.serialized_types().len() > generated.serialized_types().len()
                        &&& after_v.serialized_types()[generated.serialized_types().len() as int] == Self::spec_name()
                        &&& Self::encodes_exactly() ==> after_v.serialized()[generated.serialized().len() as int].0
                            == after.spec_serialize()
                        &&& Self::walks_known() && Self::encodes_exactly() ==> after_v.serialized_bytes()
                            == generated.serialized_bytes().push(after.spec_serialize()) + after.serialized_records()
                    }
                },
            }
        }
    }

    open spec fn mutate_ok(&self, ty: &MutationType, path: Seq<usize>) -> bool {
        if path.len() > 0 {
            if path[0] == 0 {
                &&& *self is Ok
                &&& self->Ok_0.mutate_ok(ty, path.drop_first())
            } else {
                &&& *self is Err
                &&& self->Err_0.mutate_ok(ty, path.drop_first())
            }
        } else {
            &&& (*ty is Splice || *ty is GenerateReplace)
            &&& (*ty matches MutationType::Splice(b) ==> (Self::is_lawful() ==> exists|x: Self| #[trigger] x.spec_serialize().is_prefix_of((**b)@)))
        }
    }

    /// On a coin flip, a generated success value or a generated error value.
    fn __autarkie_generate(
        visitor: &mut Visitor,
        depth: &mut usize,
        cur_depth: usize,
        settings: Option<GenerateSettings>,
    ) -> (r: Option<Self>)
        ensures
            rng_coin(old(visitor).rng_state()) ==> (r matches Some(x) ==> x is Ok),
            !rng_coin(old(visitor).rng_state()) ==> (r matches Some(x) ==> x is Err),
            rng_coin(old(visitor).rng_state()) && T::always_generates() ==> r matches Some(Ok(_)),
            !rng_coin(old(visitor).rng_state()) && E::always_generates() ==> r matches Some(Err(_)),
    {
        let choose_ok = visitor.coinflip();
        let ghost flipped = *visitor;
        proof {
            assert(flipped.stepped_from(&*old(visitor)));
        }
        if choose_ok {
            match T::__autarkie_generate(visitor, depth, cur_depth, None) {
                Some(x) => Some(Ok(x)),
                None => None,
            }
        } else {
            match E::__autarkie_generate(visitor, depth, cur_depth, None) {
                Some(e) => Some(Err(e)),
                None => None,
            }
        }
    }

    /// The result is entered as field `index`, its success value walked as
    /// field 0 of it or its error value as field 1, and the field left.
    open spec fn walk(&self, index: usize, compared: Option<(u64, u64)>, before: Visitor, after: Visitor) -> bool {
        match *self {
            Ok(x) => walked_in_field(x, index, Self::spec_name(), 0, compared, before, after),
            Err(e) => walked_in_field(e, index, Self::spec_name(), 1, compared, before, after),
        }
    }

    /// The result registered, then under it the success type at variant 0
    /// and the error type at variant 1 (each its own registration, or one
    /// edge to it where it is being registered already).
    open spec fn registration(before: Visitor, parent: Option<Id>, variant: usize, after: Visitor) -> bool {
        exists|me: Id, v1: Visitor, v2: Visitor, v3: Visitor|
            #![trigger entered(before, parent, variant, Self::spec_name(), me, v1), child_registered::<T>(v1, Some(me), 0, v2), left(v3, after)]
            entered(before, parent, variant, Self::spec_name(), me, v1)
                && child_registered::<T>(v1, Some(me), 0, v2)
                && child_registered::<E>(v2, Some(me), 1, v3)
                && left(v3, after)
    }

    /// Registers the result type, then under it the success type at variant
    /// 0 and the error type at variant 1 (or only the edge to one, where it
    /// is being registered already).
    fn __autarkie_register(v: &mut Visitor, parent: Option<(Id, String)>, variant: usize)
        ensures
            final(v).ty_edges().len() > old(v).ty_edges().len() + 2,
            final(v).ty_edges()[old(v).ty_edges().len() as int + 1].0 == Some(final(v).ty_edges()[old(v).ty_edges().len() as int].1),
            final(v).ty_edges()[old(v).ty_edges().len() as int + 1].2 == 0,
            final(v).ty_names().len() > old(v).ty_names().len() + 1,
            final(v).ty_names()[old(v).ty_names().len() as int + 1].0
                == final(v).ty_edges()[old(v).ty_edges().len() as int + 1].1,
            ({
                let name = final(v).ty_names()[old(v).ty_names().len() as int + 1].1@;
                name == T::spec_name() || T::first_name_ok(name)
            }),
            exists|k: int|
                old(v).ty_edges().len() + 1 < k < final(v).ty_edges().len()
                    && #[trigger] final(v).ty_edges()[k].0 == Some(final(v).ty_edges()[old(v).ty_edges().len() as int].1)
                    && final(v).ty_edges()[k].2 == 1,
            final(v).ty_names()[old(v).ty_names().len() as int].1@ == Self::spec_name(),
    {
        let ghost v0 = *v;
        let ghost start = v.ty_edges().len();
        let me = Self::register_self(v, parent, variant);
        let me_id = me.0;
        let me_name = me.1.clone();
        let ghost v1 = *v;
        let ghost first = v.ty_edges()[start as int];
        proof {
            assert(entered(v0, parent_id(parent), variant, Self::spec_name(), me_id, v1));
        }
        if !v.is_recursive(T::__autarkie_id()) {
            T::__autarkie_register(v, Some((me_id, me_name.clone())), 0);
        } else {
            let child = T::register_self(v, Some((me_id, me_name.clone())), 0);
            let ghost child_id = child.0;
            let ghost vc = *v;
            v.pop_ty();
            proof {
                assert(entered(v1, Some(me_id), 0, T::spec_name(), child_id, vc));
                assert(v1.ty_edges().is_prefix_of(v.ty_edges()));
                assert(v1.ty_names().is_prefix_of(v.ty_names()));
            }
        }
        let ghost v2 = *v;
        proof {
            assert(child_registered::<T>(v1, Some(me_id), 0, v2));
        }
        if !v.is_recursive(E::__autarkie_id()) {
            E::__autarkie_register(v, Some((me_id, me_name)), 1);
        } else {
            let child = E::register_self(v, Some((me_id, me_name)), 1);
            let ghost child_id = child.0;
            let ghost vc = *v;
            v.pop_ty();
            proof {
                assert(entered(v2, Some(me_id), 1, E::spec_name(), child_id, vc));
                assert(v2.ty_edges().is_prefix_of(v.ty_edges()));
                assert(v2.ty_names().is_prefix_of(v.ty_names()));
            }
        }
        let ghost v3 = *v;
        proof {
            assert(child_registered::<E>(v2, Some(me_id), 1, v3));
        }
        v.pop_ty();
        proof {
            assert(left(v3, *v));
            assert(v0.ty_edges().is_prefix_of(v1.ty_edges()));
            assert(v1.ty_edges().is_prefix_of(v2.ty_edges()));
            assert(v2.ty_edges().is_prefix_of(v3.ty_edges()));
            assert(v0.ty_names().is_prefix_of(v1.ty_names()));
            assert(v1.ty_names().is_prefix_of(v3.ty_names()));
            assert(v.ty_edges()[start as int] == first);
            assert(v.ty_edges()[start as int + 1] == v2.ty_edges()[start as int + 1]);
            let k = v2.ty_edges().len() as int;
            assert(v.ty_edges()[k].0 == Some(first.1));
            assert(v.ty_names()[v0.ty_names().len() as int] == v1.ty_names()[v0.ty_names().len() as int]);
        }
    }

    /// Along the path, mutates the success value (index 0) or the error
    /// value (any other index); at its end, replaces the result by the one
    /// the spliced bytes encode, or by a generated one whose encodings are
    /// then recorded.
    fn __autarkie_mutate(
        &mut self,
        ty: &mut MutationType,
        visitor: &mut Visitor,
        path: VecDeque<usize>,
    )
    {
        let mut path = path;
        match path.pop_front() {
            Some(popped) => {
                if popped == 0 {
                    match self {
                        Ok(inner) => {
                            inner.__autarkie_mutate(ty, visitor, path);
                        },
                        Err(_) => {
                            proof {
                                assert(false);
                            }
                        },
                    }
                } else {
                    match self {
                        Err(inner) => {
                            inner.__autarkie_mutate(ty, visitor, path);
                        },
                        Ok(_) => {
                            proof {
                                assert(false);
                            }
                        },
                    }
                }
            },
            None => {
                match ty {
                    MutationType::Splice(other) => {
                        let bytes: &[u8] = **other;
                        proof {
                            assert(bytes@.skip(0) =~= bytes@);
                        }
                        match Self::__autarkie_deserialize(bytes, 0) {
                            Some((v, end)) => {
                                proof {
                                    if Self::is_lawful() {
                                        assert(v.spec_serialize() =~= bytes@.subrange(0, v.spec_serialize().len() as int));
                                        assert(v.spec_serialize().is_prefix_of(bytes@));
                                    }
                                }
                                *self = v;
                            },
                            None => {},
                        }
                    },
                    MutationType::GenerateReplace(bias) => {
                        match Self::__autarkie_generate(visitor, bias, 0, None) {
                            Some(generated) => {
                                *self = generated;
                                let ghost g = *visitor;
                                let ghost k = visitor.serialized().len();
                                Self::record_encoding(visitor, self.__autarkie_serialize());
                                let ghost entry = visitor.serialized()[k as int];
                                self.__autarkie_serialized(visitor);
                                proof {
                                    assert(visitor.serialized()[k as int] == entry);
                                    assert(Self::encodes_exactly() ==> visitor.serialized()[k as int].0 == self.spec_serialize());
                                    assert(Self::generation(*old(visitor), None, Some(*self), g));
                                    if Self::walks_known() && Self::encodes_exactly() {
                                        assert(visitor.serialized_bytes() =~= g.serialized_bytes().push(
                                            self.spec_serialize(),
                                        ) + self.serialized_records());
                                    }
                                }
                            },
                            None => {},
                        }
                    },
                    _ => {
                        proof {
                            assert(false);
                        }
                    },
                }
            },
        }
    }

    /// Records the encoding of the success or error value, then what it
    /// records.
    fn __autarkie_serialized(&self, visitor: &mut Visitor)
        ensures
            final(visitor).serialized().len() > old(visitor).serialized().len(),
            Self::is_lawful() ==> final(visitor).serialized()[old(visitor).serialized().len() as int].0
                == match *self {
                Ok(x) => x.spec_serialize(),
                Err(e) => e.spec_serialize(),
            },
            final(visitor).serialized_types().len() > old(visitor).serialized_types().len(),
            final(visitor).serialized_types()[old(visitor).serialized_types().len() as int] == match *self {
                Ok(_) => T::spec_name(),
                Err(_) => E::spec_name(),
            },
            match *self {
                Ok(x) => value_recorded_first(x, *old(visitor), *final(visitor)),
                Err(e) => value_recorded_first(e, *old(visitor), *final(visitor)),
            },
    {
        let ghost k = visitor.serialized().len();
        let ghost kt = visitor.serialized_types().len();
        match self {
            Ok(inner) => {
                T::record_encoding(visitor, inner.__autarkie_serialize());
                let ghost entry = visitor.serialized()[k as int];
                let ghost mid = *visitor;
                inner.__autarkie_serialized(visitor);
                proof {
                    assert(visitor.serialized()[k as int] == entry);
                    assert(mid.serialized_types().is_prefix_of(visitor.serialized_types()));
                    assert(visitor.serialized_types()[kt as int] == mid.serialized_types()[kt as int]);
                }
            },
            Err(inner) => {
                E::record_encoding(visitor, inner.__autarkie_serialize());
                let ghost entry = visitor.serialized()[k as int];
                let ghost mid = *visitor;
                inner.__autarkie_serialized(visitor);
                proof {
                    assert(visitor.serialized()[k as int] == entry);
                    assert(mid.serialized_types().is_prefix_of(visitor.serialized_types()));
                    assert(visitor.serialized_types()[kt as int] == mid.serialized_types()[kt as int]);
                }
            },
        }
    }

    /// Enters the result as field `index`, and records the fields of its
    /// value, as field 0 for a success and 1 for an error.
    fn __autarkie_fields(&self, visitor: &mut Visitor, index: usize)
        ensures
            final(visitor).fields().len() > old(visitor).fields().len(),
            final(visitor).fields()[old(visitor).fields().len() as int].last().0.0 == index,
    {
        let ghost k = visitor.fields().len();
        let ghost prev = *visitor;
        let shape = self.__autarkie_node_ty(visitor);
        let id = Self::enter_as_field(visitor, index, shape).1;
        let ghost v1 = *visitor;
        let ghost entry = visitor.fields()[k as int];
        match self {
            Ok(inner) => {
                inner.__autarkie_fields(visitor, 0);
            },
            Err(inner) => {
                inner.__autarkie_fields(visitor, 1);
            },
        }
        let ghost v2 = *visitor;
        visitor.pop_field();
        proof {
            assert(field_entered(prev, ((index, shape), id), Self::spec_name(), v1));
            assert(field_left(v2, *visitor));
            assert(visitor.fields()[k as int] == entry);
        }
    }

    /// Enters the result as field `index`, and records the comparison
    /// operands of its value.
    fn __autarkie_cmps(&self, visitor: &mut Visitor, index: usize, __autarkie_val: (u64, u64)) {
        let ghost prev = *visitor;
        let shape = self.__autarkie_node_ty(visitor);
        let id = Self::enter_as_field(visitor, index, shape).1;
        let ghost v1 = *visitor;
        match self {
            Ok(inner) => {
                inner.__autarkie_cmps(visitor, 0, __autarkie_val);
            },
            Err(inner) => {
                inner.__autarkie_cmps(visitor, 1, __autarkie_val);
            },
        }
        let ghost v2 = *visitor;
        visitor.pop_field();
        proof {
            assert(field_entered(prev, ((index, shape), id), Self::spec_name(), v1));
            assert(field_left(v2, *visitor));
        }
    }

    fn __autarkie_serialize(&self) -> (r: Vec<u8>) {
        match self {
            Ok(x) => {
                let mut out = encode_u32(0u32);
                let mut rest = x.__autarkie_serialize();
                out.append(&mut rest);
                out
            },
            Err(e) => {
                let mut out = encode_u32(1u32);
                let mut rest = e.__autarkie_serialize();
                out.append(&mut rest);
                out
            },
        }
    }

    /// Reads the variant as a `u32`: 0 for a success, 1 for an error, each
    /// followed by its value.
    fn __autarkie_deserialize(data: &[u8], pos: usize) -> (r: Option<(Self, usize)>) {
        let rest = slice_subrange(data, pos, data.len());
        proof {
            assert(rest@ =~= data@.skip(pos as int));
            lemma_u32_bytes(0u32);
            lemma_u32_bytes(1u32);
        }
        let tag = match decode_u32(rest) {
            Some(t) => t,
            None => {
                proof {
                    assert forall|x: Self| !#[trigger] x.spec_serialize().is_prefix_of(data@.skip(pos as int)) by {}
                }
                return None;
            },
        };
        proof {
            assert forall|x: Self| #[trigger] x.spec_serialize().is_prefix_of(data@.skip(pos as int)) implies
                (x is Ok <==> tag == 0) && (x is Err <==> tag == 1)
                && (x matches Ok(y) ==> y.spec_serialize().is_prefix_of(data@.skip(pos + 4)))
                && (x matches Err(y) ==> y.spec_serialize().is_prefix_of(data@.skip(pos + 4))) by {
                match x {
                    Ok(y) => {
                        lemma_tag_then(spec_u32_bytes(0u32), y.spec_serialize(), data@.skip(pos as int));
                        assert(data@.skip(pos as int).skip(4) =~= data@.skip(pos + 4));
                    },
                    Err(y) => {
                        lemma_tag_then(spec_u32_bytes(1u32), y.spec_serialize(), data@.skip(pos as int));
                        assert(data@.skip(pos as int).skip(4) =~= data@.skip(pos + 4));
                    },
                }
            }
        }
        if tag == 0 {
            match T::__autarkie_deserialize(data, pos + 4) {
                Some((v, end)) => Some((Ok(v), end)),
                None => None,
            }
        } else if tag == 1 {
            match E::__autarkie_deserialize(data, pos + 4) {
                Some((e, end)) => Some((Err(e), end)),
                None => None,
            }
        } else {
            None
        }
    }

    fn __autarkie_id_name() -> (r: String) {
        let mut r = "core::result::Result<".to_owned();
        let ok = T::__autarkie_id_name();
        r.append(ok.as_str());
        r.append(", ");
        let err = E::__autarkie_id_name();
        r.append(err.as_str());
        r.append(">");
        assert(r@ == Self::spec_name());
        r
    }
}

impl<T: Node> Node for Box<T> {
    open spec fn spec_serialize(&self) -> Seq<u8> {
        (**self).spec_serialize()
    }

    open spec fn spec_name() -> Seq<char> {
        "alloc::boxed::Box<"@ + T::spec_name() + ">"@
    }

    open spec fn is_lawful() -> bool {
        T::is_lawful()
    }

    open spec fn read_ok(bytes: Seq<u8>) -> bool {
        Self::is_lawful() && exists|x: Self| #[trigger] x.spec_serialize().is_prefix_of(bytes)
    }

    /// For a lawful type, a value read encodes as the start of the bytes,
    /// as any value whose encoding starts them does.
    open spec fn reading(bytes: Seq<u8>, v: Self) -> bool {
        Self::is_lawful() ==> {
            &&& v.spec_serialize().is_prefix_of(bytes)
            &&& forall|x: Self| #[trigger] x.spec_serialize().is_prefix_of(bytes) ==> v.spec_serialize()
                == x.spec_serialize()
        }
    }

    open spec fn encodes_exactly() -> bool {
        T::encodes_exactly()
    }

    open spec fn walks_known() -> bool {
        T::walks_known()
    }

    open spec fn first_name_ok(name: Seq<char>) -> bool {
        name == T::spec_name() || T::first_name_ok(name)
    }

    open spec fn always_generates() -> bool {
        T::always_generates()
    }

    /// The boxed value is walked in its place.
    open spec fn walk(&self, index: usize, compared: Option<(u64, u64)>, before: Visitor, after: Visitor) -> bool {
        (**self).walk(index, compared, before, after)
    }

    /// What generating the boxed type gives, boxed.
    open spec fn generation(before: Visitor, settings: Option<GenerateSettings>, r: Option<Self>, after: Visitor) -> bool {
        match r {
            Some(b) => T::generation(before, None, Some(*b), after),
            None => T::generation(before, None, None, after),
        }
    }

    open spec fn field_count(&self) -> nat {
        (**self).field_count()
    }

    open spec fn comparison_operands(&self, val: (u64, u64)) -> Seq<Seq<u8>> {
        (**self).comparison_operands(val)
    }

    open spec fn serialized_records(&self) -> Seq<Seq<u8>> {
        (**self).serialized_records()
    }

    open spec fn serialized_record_types(&self) -> Seq<Seq<char>> {
        (**self).serialized_record_types()
    }

    /// The boxed value is mutated.
    open spec fn mutation(&self, ty: &MutationType, path: Seq<usize>, before: Visitor, after: Self, after_v: Visitor) -> bool {
        (**self).mutation(ty, path, before, *after, after_v)
    }

    open spec fn generate_ok(settings: GenerateSettings, rng: u64) -> bool {
        true
    }

    open spec fn mutate_ok(&self, ty: &MutationType, path: Seq<usize>) -> bool {
        (**self).mutate_ok(ty, path)
    }

    /// A generated value, boxed.
    fn __autarkie_generate(
        visitor: &mut Visitor,
        depth: &mut usize,
        cur_depth: usize,
        settings: Option<GenerateSettings>,
    ) -> (r: Option<Self>) {
        match T::__autarkie_generate(visitor, depth, cur_depth, None) {
            Some(x) => Some(Box::new(x)),
            None => None,
        }
    }

    fn inner_id() -> Id {
        T::__autarkie_id()
    }

    /// The held type registered in its place: its own registration, or one
    /// edge to it where it is being registered already.
    open spec fn registration(before: Visitor, parent: Option<Id>, variant: usize, after: Visitor) -> bool {
        child_registered::<T>(before, parent, variant, after)
    }

    /// Registers the boxed type, or, where it is being registered already,
    /// records the edge to it and goes no deeper.
    fn __autarkie_register(v: &mut Visitor, parent: Option<(Id, String)>, variant: usize) {
        if !v.is_recursive(T::__autarkie_id()) {
            T::__autarkie_register(v, parent, variant);
        } else {
            let ghost before = *v;
            let child = T::register_self(v, parent, variant);
            let ghost id = child.0;
            let ghost mid = *v;
            v.pop_ty();
            proof {
                assert(entered(before, parent_id(parent), variant, T::spec_name(), id, mid));
            }
        }
    }

    /// The shape of the boxed value.
    open spec fn node_shape(&self, shape: NodeType) -> bool {
        (**self).node_shape(shape)
    }

    fn __autarkie_node_ty(&self, visitor: &Visitor) -> NodeType {
        (**self).__autarkie_node_ty(visitor)
    }

    fn __autarkie_cmps(&self, visitor: &mut Visitor, index: usize, __autarkie_val: (u64, u64)) {
        (**self).__autarkie_cmps(visitor, index, __autarkie_val);
    }

    fn __autarkie_fields(&self, visitor: &mut Visitor, index: usize) {
        (**self).__autarkie_fields(visitor, index);
    }

    fn __autarkie_mutate(
        &mut self,
        ty: &mut MutationType,
        visitor: &mut Visitor,
        path: VecDeque<usize>,
    ) {
        (**self).__autarkie_mutate(ty, visitor, path);
    }

    fn __autarkie_serialized(&self, visitor: &mut Visitor) {
        (**self).__autarkie_serialized(visitor)
    }

    fn __autarkie_serialize(&self) -> (r: Vec<u8>) {
        (**self).__autarkie_serialize()
    }

    fn __autarkie_deserialize(data: &[u8], pos: usize) -> (r: Option<(Self, usize)>) {
        match T::__autarkie_deserialize(data, pos) {
            Some((v, end)) => {
                proof {
                    assert forall|x: Self| #[trigger] x.spec_serialize().is_prefix_of(data@.skip(pos as int)) implies
                        (*x).spec_serialize().is_prefix_of(data@.skip(pos as int)) by {}
                }
                Some((Box::new(v), end))
            },
            None => {
                proof {
                    if T::is_lawful() {
                        assert forall|x: Self| !#[trigger] x.spec_serialize().is_prefix_of(data@.skip(pos as int)) by {
                            if x.spec_serialize().is_prefix_of(data@.skip(pos as int)) {
                                assert((*x).spec_serialize().is_prefix_of(data@.skip(pos as int)));
                            }
                        }
                    }
                }
                None
            },
        }
    }

    fn __autarkie_id_name() -> (r: String) {
        let mut r = "alloc::boxed::Box<".to_owned();
        let inner = T::__autarkie_id_name();
        r.append(inner.as_str());
        r.append(">");
        assert(r@ == Self::spec_name());
        r
    }
}

} // verus!
