//! Borrowed-or-owned values and slices of grammar values.
use vstd::prelude::*;
use vstd::string::StringExecFns;
use std::borrow::Cow;
use std::collections::VecDeque;
use crate::containers::{
    record_items_serialized, record_item_fields, record_item_cmps, serialize_items, deserialize_items,
};
use crate::node::{
    seq_field_count, seq_comparison_operands, seq_records, seq_record_types, Node, MutationType, GenerateSettings, seq_encoding, encodes_some, one_edge, entered, parent_id, child_registered, items_walked};
use crate::visitor::{Id, NodeType, Visitor, rng_output};
use crate::prefix::group_prefix;

verus! {

broadcast use group_prefix, Visitor::lemma_extends_refl, Visitor::lemma_extends_trans;

/// The value a `Cow` borrows or owns.
pub open spec fn cow_value<T: Clone>(c: &Cow<'static, T>) -> T {
    match c {
        Cow::Borrowed(b) => **b,
        Cow::Owned(o) => *o,
    }
}

/// The items of the slice a `Cow` borrows or owns.
pub open spec fn cow_items<T: Clone>(c: &Cow<'static, [T]>) -> Seq<T> {
    match c {
        Cow::Borrowed(b) => b@,
        Cow::Owned(v) => v@,
    }
}

/// The value a `Cow` borrows or owns.
pub fn cow_ref<'a, T: Clone>(c: &'a Cow<'static, T>) -> (r: &'a T)
    ensures
        *r == cow_value(c),
{
    match c {
        Cow::Borrowed(b) => b,
        Cow::Owned(o) => o,
    }
}

/// The slice a `Cow` borrows or owns.
pub fn cow_slice<'a, T: Clone>(c: &'a Cow<'static, [T]>) -> (r: &'a [T])
    ensures
        r@ == cow_items(c),
{
    match c {
        Cow::Borrowed(b) => b,
        Cow::Owned(v) => v.as_slice(),
    }
}

/// A vector of clones of the items of the slice.
pub fn cow_to_vec<T: Clone>(c: &Cow<'static, [T]>) -> (r: Vec<T>)
    ensures
        r@.len() == cow_items(c).len(),
        forall|i: int| 0 <= i < r@.len() ==> cloned::<T>(cow_items(c)[i], #[trigger] r@[i]),
{
    let mut out: Vec<T> = Vec::new();
    out.extend_from_slice(cow_slice(c));
    out
}

/// Every slice's length fits in a `usize`.
proof fn lemma_cow_items_len<T: Clone>(c: &Cow<'static, [T]>)
    ensures
        cow_items(c).len() <= usize::MAX,
{
    match c {
        Cow::Borrowed(b) => {
            assert(b.len() == b@.len());
        },
        Cow::Owned(v) => {
            assert(v.len() == v@.len());
        },
    }
}

/// Whether `after` is what cloning the items of `c` into a vector, mutating
/// that vector as a vector is mutated, and owning the result gives.
pub open spec fn mutated_as_vec<T: Node + Clone>(
    c: Cow<'static, [T]>,
    ty: &MutationType,
    path: Seq<usize>,
    before: Visitor,
    after: Cow<'static, [T]>,
    after_v: Visitor,
) -> bool {
    exists|w: Vec<T>, w2: Vec<T>|
        #![trigger w.mutation(ty, path, before, w2, after_v)]
        {
            &&& w@.len() == cow_items(&c).len()
            &&& forall|j: int| 0 <= j < w@.len() ==> cloned::<T>(cow_items(&c)[j], #[trigger] w@[j])
            &&& w.mutation(ty, path, before, w2, after_v)
            &&& after == Cow::<'static, [T]>::Owned(w2)
        }
}

impl<T: Node + Clone> Node for Cow<'static, T> {
    open spec fn node_shape(&self, shape: NodeType) -> bool {
        shape == NodeType::NonRecursive
    }

    /// A node with fixed fields.
    fn __autarkie_node_ty(&self, visitor: &Visitor) -> (r: NodeType) {
        NodeType::NonRecursive
    }

    open spec fn spec_serialize(&self) -> Seq<u8> {
        cow_value(self).spec_serialize()
    }

    open spec fn spec_name() -> Seq<char> {
        "alloc::borrow::Cow<"@ + T::spec_name() + ">"@
    }

    open spec fn is_lawful() -> bool {
        T::is_lawful()
    }

    open spec fn read_ok(bytes: Seq<u8>) -> bool {
        Self::is_lawful() && exists|x: Self| #[trigger] x.spec_serialize().is_prefix_of(bytes)
    }

    /// For a lawful type, a value read encodes as the start of the bytes,
    /// as any value whose encoding starts them does.
    open spec fn reading(bytes: Seq<u8>, v: Self) -> bool {
        Self::is_lawful() ==> {
            &&& v.spec_serialize().is_prefix_of(bytes)
            &&& forall|x: Self| #[trigger] x.spec_serialize().is_prefix_of(bytes) ==> v.spec_serialize()
                == x.spec_serialize()
        }
    }

    open spec fn encodes_exactly() -> bool {
        T::encodes_exactly()
    }

    open spec fn walks_known() -> bool {
        T::walks_known()
    }

    open spec fn first_name_ok(name: Seq<char>) -> bool {
        false
    }

    open spec fn always_generates() -> bool {
        T::always_generates()
    }

    /// One registration, of the type itself.
    open spec fn registration(before: Visitor, parent: Option<Id>, variant: usize, after: Visitor) -> bool {
        one_edge(before, parent, variant, Self::spec_name(), after)
    }

    /// Records one edge, to the type itself, and goes no deeper.
    fn __autarkie_register(v: &mut Visitor, parent: Option<(Id, String)>, variant: usize) {
        let ghost before = *v;
        let me = Self::register_self(v, parent, variant);
        let ghost id = me.0;
        let ghost mid = *v;
        v.pop_ty();
        proof {
            assert(entered(before, parent_id(parent), variant, Self::spec_name(), id, mid));
            assert(before.ty_edges().is_prefix_of(v.ty_edges()));
            assert(before.ty_names().is_prefix_of(v.ty_names()));
            assert(v.ty_stack() =~= before.ty_stack());
        }
    }

    /// The value's fields and operands are not recorded.
    open spec fn walk(&self, index: usize, compared: Option<(u64, u64)>, before: Visitor, after: Visitor) -> bool {
        after == before
    }

    /// What generating the value's type gives, owned.
    open spec fn generation(before: Visitor, settings: Option<GenerateSettings>, r: Option<Self>, after: Visitor) -> bool {
        match r {
            Some(c) => c is Owned && T::generation(before, None, Some(cow_value(&c)), after),
            None => T::generation(before, None, None, after),
        }
    }

    open spec fn field_count(&self) -> nat {
        0
    }

    open spec fn comparison_operands(&self, val: (u64, u64)) -> Seq<Seq<u8>> {
        Seq::empty()
    }

    open spec fn serialized_records(&self) -> Seq<Seq<u8>> {
        cow_value(self).serialized_records()
    }

    open spec fn serialized_record_types(&self) -> Seq<Seq<char>> {
        cow_value(self).serialized_record_types()
    }

    /// Splicing replaces the value by the one the bytes encode; replacing
    /// it by a generated one records the new value's encoding.
    open spec fn mutation(&self, ty: &MutationType, path: Seq<usize>, before: Visitor, after: Self, after_v: Visitor) -> bool {
        match *ty {
            MutationType::Splice(b) => {
                    &&& after_v == before
                    &&& Self::is_lawful() ==> forall|x: Self| #[trigger] x.spec_serialize().is_prefix_of((**b)@)
                        ==> after.spec_serialize() == x.spec_serialize()
                },
            MutationType::GenerateReplace(_) => {
                ||| after == *self && Self::generation(before, None, None, after_v)
                ||| exists|generated: Visitor| {
                    &&& #[trigger] Self::generation(before, None, Some(after), generated)
                    &&& after_v.keeps_state(&generated)
                    &&& after_v.fields() == generated.fields()
                    &&& after_v.operands() == generated.operands()
                    &&& after_v.serialized().len() == generated.serialized().len() + 1
                    &&& after_v.serialized_types() == generated.serialized_types().push(Self::spec_name())
                    &&& Self::encodes_exactly() ==> after_v.serialized_bytes() == generated.serialized_bytes().push(
                        after.spec_serialize(),
                    )
                }
            },
            _ => true,
        }
    }

    open spec fn generate_ok(settings: GenerateSettings, rng: u64) -> bool {
        true
    }

    open spec fn mutate_ok(&self, ty: &MutationType, path: Seq<usize>) -> bool {
        &&& path.len() == 0
        &&& (*ty is Splice || *ty is GenerateReplace)
        &&& (*ty matches MutationType::Splice(b) ==> (Self::is_lawful() ==> exists|x: Self| #[trigger] x.spec_serialize().is_prefix_of((**b)@)))
    }

    /// A generated value, owned.
    fn __autarkie_generate(
        visitor: &mut Visitor,
        depth: &mut usize,
        cur_depth: usize,
        settings: Option<GenerateSettings>,
    ) -> (r: Option<Self>) {
        match T::__autarkie_generate(visitor, depth, cur_depth, None) {
            Some(x) => Some(Cow::Owned(x)),
            None => None,
        }
    }

    /// What the value records.
    fn __autarkie_serialized(&self, visitor: &mut Visitor) {
        cow_ref(self).__autarkie_serialized(visitor);
    }

    /// Replaces the value by the one the bytes encode, or by a generated
    /// one whose encoding it records.
    fn __autarkie_mutate(
        &mut self,
        ty: &mut MutationType,
        visitor: &mut Visitor,
        path: VecDeque<usize>,
    )
    {
        match ty {
            MutationType::Splice(other) => {
                let bytes: &[u8] = **other;
                proof {
                    assert(bytes@.skip(0) =~= bytes@);
                }
                match Self::__autarkie_deserialize(bytes, 0) {
                    Some((v, end)) => {
                        proof {
                            if Self::is_lawful() {
                                assert(v.spec_serialize() =~= bytes@.subrange(0, v.spec_serialize().len() as int));
                                assert(v.spec_serialize().is_prefix_of(bytes@));
                            }
                        }
                        *self = v;
                    },
                    None => {},
                }
            },
            MutationType::GenerateReplace(bias) => {
                match Self::__autarkie_generate(visitor, bias, 0, None) {
                    Some(generated) => {
                        *self = generated;
                        let ghost g = *visitor;
                        let bytes = self.__autarkie_serialize();
                        Self::record_encoding(visitor, bytes);
                        proof {
                            assert(Self::generation(*old(visitor), None, Some(*self), g));
                        }
                    },
                    None => {},
                }
            },
            _ => {},
        }
    }

    fn __autarkie_serialize(&self) -> (r: Vec<u8>) {
        cow_ref(self).__autarkie_serialize()
    }

    /// Reads a value, owned.
    fn __autarkie_deserialize(data: &[u8], pos: usize) -> (r: Option<(Self, usize)>) {
        match T::__autarkie_deserialize(data, pos) {
            Some((v, end)) => {
                proof {
                    assert forall|x: Self| #[trigger] x.spec_serialize().is_prefix_of(data@.skip(pos as int)) implies
                        cow_value(&x).spec_serialize().is_prefix_of(data@.skip(pos as int)) by {}
                }
                Some((Cow::Owned(v), end))
            },
            None => {
                proof {
                    if T::is_lawful() {
                        assert forall|x: Self| !#[trigger] x.spec_serialize().is_prefix_of(data@.skip(pos as int)) by {
                            if x.spec_serialize().is_prefix_of(data@.skip(pos as int)) {
                                assert(cow_value(&x).spec_serialize().is_prefix_of(data@.skip(pos as int)));
                            }
                        }
                    }
                }
                None
            },
        }
    }

    /// The value's fields are not entered.
    fn __autarkie_fields(&self, visitor: &mut Visitor, index: usize) {
    }

    /// The value's comparison operands are not recorded.
    fn __autarkie_cmps(&self, visitor: &mut Visitor, index: usize, __autarkie_val: (u64, u64)) {
    }

    fn __autarkie_id_name() -> (r: String) {
        let mut r = "alloc::borrow::Cow<".to_owned();
        let inner = T::__autarkie_id_name();
        r.append(inner.as_str());
        r.append(">");
        assert(r@ == Self::spec_name());
        r
    }
}

impl<T: Node + Clone> Node for Cow<'static, [T]> {
    open spec fn spec_serialize(&self) -> Seq<u8> {
        seq_encoding(cow_items(self))
    }

    open spec fn spec_name() -> Seq<char> {
        "alloc::borrow::Cow<["@ + T::spec_name() + "]>"@
    }

    open spec fn is_lawful() -> bool {
        T::is_lawful()
    }

    open spec fn read_ok(bytes: Seq<u8>) -> bool {
        Self::is_lawful() && exists|x: Self| #[trigger] x.spec_serialize().is_prefix_of(bytes)
    }

    /// For a lawful type, a value read encodes as the start of the bytes,
    /// as any value whose encoding starts them does.
    open spec fn reading(bytes: Seq<u8>, v: Self) -> bool {
        Self::is_lawful() ==> {
            &&& v.spec_serialize().is_prefix_of(bytes)
            &&& forall|x: Self| #[trigger] x.spec_serialize().is_prefix_of(bytes) ==> v.spec_serialize()
                == x.spec_serialize()
        }
    }

    open spec fn encodes_exactly() -> bool {
        T::encodes_exactly()
    }

    open spec fn walks_known() -> bool {
        T::walks_known()
    }

    open spec fn first_name_ok(name: Seq<char>) -> bool {
        name == T::spec_name() || T::first_name_ok(name)
    }

    open spec fn always_generates() -> bool {
        T::always_generates()
    }

    /// Each item is walked in turn, inside a field at its position.
    open spec fn walk(&self, index: usize, compared: Option<(u64, u64)>, before: Visitor, after: Visitor) -> bool {
        items_walked(cow_items(self), compared, before, after)
    }

    /// What generating a vector with the same settings gives, owned.
    open spec fn generation(before: Visitor, settings: Option<GenerateSettings>, r: Option<Self>, after: Visitor) -> bool {
        match r {
            Some(c) => c matches Cow::Owned(v) && Vec::<T>::generation(before, settings, Some(v), after),
            None => Vec::<T>::generation(before, settings, None, after),
        }
    }

    open spec fn field_count(&self) -> nat {
        seq_field_count(cow_items(self))
    }

    open spec fn comparison_operands(&self, val: (u64, u64)) -> Seq<Seq<u8>> {
        seq_comparison_operands(cow_items(self), val)
    }

    open spec fn serialized_records(&self) -> Seq<Seq<u8>> {
        seq_records(cow_items(self))
    }

    open spec fn serialized_record_types(&self) -> Seq<Seq<char>> {
        seq_record_types(cow_items(self))
    }

    /// At the end of the path, splicing or generating replaces the slice
    /// and nothing else changes it; otherwise the slice's items are cloned
    /// into a vector, which is mutated as a vector is, and the slice then
    /// owns that vector.
    open spec fn mutation(&self, ty: &MutationType, path: Seq<usize>, before: Visitor, after: Self, after_v: Visitor) -> bool {
        if path.len() == 0 {
            match *ty {
                MutationType::Splice(b) => {
                    &&& after_v == before
                    &&& Self::is_lawful() ==> forall|x: Self| #[trigger] x.spec_serialize().is_prefix_of((**b)@)
                        ==> after.spec_serialize() == x.spec_serialize()
                },
                MutationType::GenerateReplace(_) => {
                    ||| after == *self && Self::generation(before, None, None, after_v)
                    ||| exists|generated: Visitor| {
                        &&& #[trigger] Self::generation(before, None, Some(after), generated)
                        &&& after_v.keeps_state(&generated)
                        &&& after_v.fields() == generated.fields()
                        &&& after_v.operands() == generated.operands()
                        &&& T::walks_known() ==> after_v.serialized().len() == generated.serialized().len()
                            + after.serialized_records().len()
                        &&& T::walks_known() && T::encodes_exactly() ==> after_v.serialized_bytes()
                            == generated.serialized_bytes() + after.serialized_records()
                    }
                },
                MutationType::RecursiveReplace => after == *self && after_v == before,
                _ => mutated_as_vec(*self, ty, path, before, after, after_v),
            }
        } else {
            mutated_as_vec(*self, ty, path, before, after, after_v)
        }
    }

    open spec fn generate_ok(settings: GenerateSettings, rng: u64) -> bool {
        settings matches GenerateSettings::Range(r) ==> !r@.exhausted && r@.end < usize::MAX
    }

    /// Along a path, the item at its first index is cloned before it is
    /// mutated, so each of its clones must accept the rest of the path.
    open spec fn mutate_ok(&self, ty: &MutationType, path: Seq<usize>) -> bool {
        if path.len() > 0 {
            &&& path[0] < cow_items(self).len()
            &&& forall|c: T| #[trigger] cloned::<T>(cow_items(self)[path[0] as int], c) ==> c.mutate_ok(
                ty,
                path.drop_first(),
            )
        } else {
            match *ty {
                MutationType::IterablePop(i) => i < cow_items(self).len(),
                MutationType::Splice(b) => Self::is_lawful() ==> exists|x: Self| #[trigger] x.spec_serialize().is_prefix_of((**b)@),
                MutationType::SpliceAppend(b) => T::is_lawful() ==> encodes_some::<T>((**b)@),
                _ => true,
            }
        }
    }

    /// An owned slice of the given length, of a length drawn from the given
    /// range, or of a length below the visitor's iteration depth, generated
    /// as a vector is.
    fn __autarkie_generate(
        visitor: &mut Visitor,
        depth: &mut usize,
        cur_depth: usize,
        settings: Option<GenerateSettings>,
    ) -> (r: Option<Self>)
        ensures
            r matches Some(c) ==> match settings {
                Some(GenerateSettings::Length(n)) => cow_items(&c).len() == n,
                Some(GenerateSettings::Range(rg)) => rg@.start <= cow_items(&c).len() && (cow_items(&c).len()
                    <= rg@.end || cow_items(&c).len() == rg@.start),
                None => cow_items(&c).len() < old(visitor).depth().iterate || cow_items(&c).len() == 0,
            },
            r matches Some(c) ==> c is Owned,
            *final(depth) == *old(depth),
            settings is None && old(visitor).depth().iterate > 0 ==> (r matches Some(c) ==> cow_items(&c).len()
                == rng_output(old(visitor).rng_state()) % (old(visitor).depth().iterate as u64)),
            settings matches Some(GenerateSettings::Range(rg)) ==> (rg@.start < rg@.end + 1 ==> (r matches Some(c)
                ==> cow_items(&c).len() == rg@.start + rng_output(old(visitor).rng_state()) % ((rg@.end + 1
                - rg@.start) as u64))),
            (settings matches Some(GenerateSettings::Length(n)) && n == 0) ==> {
                &&& r matches Some(c) && cow_items(&c).len() == 0
                &&& *final(visitor) == *old(visitor)
            },
    {
        match Vec::<T>::__autarkie_generate(visitor, depth, cur_depth, settings) {
            Some(v) => Some(Cow::Owned(v)),
            None => None,
        }
    }

    /// The held type registered in its place: its own registration, or one
    /// edge to it where it is being registered already.
    open spec fn registration(before: Visitor, parent: Option<Id>, variant: usize, after: Visitor) -> bool {
        child_registered::<T>(before, parent, variant, after)
    }

    /// Registers the item type, or, where it is being registered already,
    /// records the edge to it and goes no deeper.
    fn __autarkie_register(v: &mut Visitor, parent: Option<(Id, String)>, variant: usize) {
        if !v.is_recursive(T::__autarkie_id()) {
            T::__autarkie_register(v, parent, variant);
        } else {
            let ghost before = *v;
            let child = T::register_self(v, parent, variant);
            let ghost id = child.0;
            let ghost mid = *v;
            v.pop_ty();
            proof {
                assert(entered(before, parent_id(parent), variant, T::spec_name(), id, mid));
            }
        }
    }

    /// A sequence of variable length, with its number of items.
    open spec fn node_shape(&self, shape: NodeType) -> bool {
        shape matches NodeType::Iterable(fixed, n, _) && !fixed && n == cow_items(self).len()
    }

    fn __autarkie_node_ty(&self, visitor: &Visitor) -> (r: NodeType) {
        NodeType::Iterable(false, cow_slice(self).len(), Self::inner_id())
    }

    fn inner_id() -> Id {
        T::__autarkie_id()
    }

    /// Records the encoding of each item, then what each item records.
    fn __autarkie_serialized(&self, visitor: &mut Visitor) {
        record_items_serialized(cow_slice(self), visitor);
    }

    /// Enters each item as a field, at its index, and records its fields.
    fn __autarkie_fields(&self, visitor: &mut Visitor, index: usize)
    {
        record_item_fields(cow_slice(self), visitor);
    }

    /// Enters each item as a field, at its index, and records its
    /// comparison operands.
    fn __autarkie_cmps(&self, visitor: &mut Visitor, index: usize, __autarkie_val: (u64, u64)) {
        record_item_cmps(cow_slice(self), visitor, __autarkie_val);
    }

    /// Along the path, mutates a clone of the item at its first index in an
    /// owned copy of the slice. At its end, replaces the slice, or appends
    /// to or removes from an owned copy of it.
    fn __autarkie_mutate(
        &mut self,
        ty: &mut MutationType,
        visitor: &mut Visitor,
        path: VecDeque<usize>,
    )
    {
        if path.len() == 0 {
            match ty {
                MutationType::Splice(other) => {
                    let bytes: &[u8] = **other;
                    proof {
                        assert(bytes@.skip(0) =~= bytes@);
                    }
                    match Self::__autarkie_deserialize(bytes, 0) {
                        Some((v, end)) => {
                            proof {
                                if Self::is_lawful() {
                                    assert(v.spec_serialize() =~= bytes@.subrange(0, v.spec_serialize().len() as int));
                                    assert(v.spec_serialize().is_prefix_of(bytes@));
                                }
                            }
                            *self = v;
                        },
                        None => {},
                    }
                    return;
                },
                MutationType::GenerateReplace(bias) => {
                    match Self::__autarkie_generate(visitor, bias, 0, None) {
                        Some(generated) => {
                            *self = generated;
                            let ghost g = *visitor;
                            self.__autarkie_serialized(visitor);
                            proof {
                                assert(Self::generation(*old(visitor), None, Some(*self), g));
                            }
                        },
                        None => {},
                    }
                    return;
                },
                MutationType::RecursiveReplace => {
                    return;
                },
                _ => {},
            }
        }
        let mut owned = cow_to_vec(self);
        proof {
            if path@.len() > 0 {
                let p = path@[0] as int;
                assert(cloned::<T>(cow_items(&*old(self))[p], owned@[p]));
            }
        }
        let ghost before = owned@;
        let ghost w0 = owned;
        let ghost items = cow_items(&*old(self));
        owned.__autarkie_mutate(ty, visitor, path);
        proof {
            if path@.len() == 0 {
                if *old(ty) is GenerateAppend || *old(ty) is SpliceAppend {
                    assert forall|j: int| 0 <= j < items.len() implies cloned::<T>(items[j], #[trigger] owned@[j]) by {
                        assert(owned@.take(before.len() as int)[j] == before[j]);
                    }
                }
                if let MutationType::IterablePop(i) = *old(ty) {
                    assert forall|j: int| 0 <= j < i implies cloned::<T>(items[j], #[trigger] owned@[j]) by {
                        assert(owned@[j] == before[j]);
                    }
                    assert forall|j: int| i <= j < owned@.len() implies cloned::<T>(items[j + 1], #[trigger] owned@[j]) by {
                        assert(owned@[j] == before[j + 1]);
                    }
                }
            }
        }
        *self = Cow::Owned(owned);
        proof {
            assert(w0.mutation(&*old(ty), path@, *old(visitor), owned, *visitor));
            assert(mutated_as_vec(*old(self), &*old(ty), path@, *old(visitor), *self, *visitor));
        }
    }

    fn __autarkie_serialize(&self) -> (r: Vec<u8>) {
        serialize_items(cow_slice(self))
    }

    /// Reads the announced length, then that many items in turn, into an
    /// owned slice.
    fn __autarkie_deserialize(data: &[u8], pos: usize) -> (r: Option<(Self, usize)>) {
        let r: Option<(Self, usize)> = match deserialize_items::<T>(data, pos) {
            Some((v, end)) => Some((Cow::Owned(v), end)),
            None => None,
        };
        proof {
            if T::is_lawful() {
                assert forall|x: Self| #[trigger] x.spec_serialize().is_prefix_of(data@.skip(pos as int)) implies {
                    &&& r is Some
                    &&& r matches Some((v, end)) ==> {
                        &&& v.spec_serialize() == x.spec_serialize()
                        &&& end == pos + x.spec_serialize().len()
                    }
                } by {
                    lemma_cow_items_len(&x);
                    assert(seq_encoding(cow_items(&x)).is_prefix_of(data@.skip(pos as int)));
                }
            }
        }
        r
    }

    fn __autarkie_id_name() -> (r: String) {
        let mut r = "alloc::borrow::Cow<[".to_owned();
        let inner = T::__autarkie_id_name();
        r.append(inner.as_str());
        r.append("]>");
        assert(r@ == Self::spec_name());
        r
    }
}

} // verus!
