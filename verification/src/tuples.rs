//! Tuples of grammar values.
use vstd::prelude::*;
use vstd::string::StringExecFns;
use std::collections::VecDeque;
use crate::node::{Node, MutationType, GenerateSettings, lemma_tag_then, register_child, entered, left, parent_id, child_registered, walked_in_field, field_entered, field_left};
use crate::visitor::{Id, NodeType, Visitor};
use crate::prefix::group_prefix;

verus! {

broadcast use group_prefix, Visitor::lemma_extends_refl, Visitor::lemma_extends_trans;

impl<A: Node> Node for (A,) {
    open spec fn spec_serialize(&self) -> Seq<u8> {
        self.0.spec_serialize()
    }

    open spec fn spec_name() -> Seq<char> {
        "("@ + A::spec_name() + ",)"@
    }

    open spec fn is_lawful() -> bool {
        A::is_lawful()
    }

    open spec fn read_ok(bytes: Seq<u8>) -> bool {
        Self::is_lawful() && exists|x: Self| #[trigger] x.spec_serialize().is_prefix_of(bytes)
    }

    /// For a lawful type, a value read encodes as the start of the bytes,
    /// as any value whose encoding starts them does.
    open spec fn reading(bytes: Seq<u8>, v: Self) -> bool {
        Self::is_lawful() ==> {
            &&& v.spec_serialize().is_prefix_of(bytes)
            &&& forall|x: Self| #[trigger] x.spec_serialize().is_prefix_of(bytes) ==> v.spec_serialize()
                == x.spec_serialize()
        }
    }

    open spec fn encodes_exactly() -> bool {
        A::encodes_exactly()
    }

    open spec fn walks_known() -> bool {
        A::walks_known()
    }

    open spec fn node_shape(&self, shape: NodeType) -> bool {
        shape == NodeType::NonRecursive
    }

    /// A node with fixed fields.
    fn __autarkie_node_ty(&self, visitor: &Visitor) -> (r: NodeType) {
        NodeType::NonRecursive
    }

    /// Along a path, the element at its first index is mutated along the
    /// rest of it and the others are kept; at its end, the tuple is replaced.
    open spec fn mutation(&self, ty: &MutationType, path: Seq<usize>, before: Visitor, after: Self, after_v: Visitor) -> bool {
        if path.len() > 0 {
            if path[0] == 0 {
                true && self.0.mutation(ty, path.drop_first(), before, after.0, after_v)
            } else {
                false
            }
        } else {
            match *ty {
                MutationType::Splice(b) => {
                    &&& after_v == before
                    &&& Self::is_lawful() ==> forall|x: Self| #[trigger] x.spec_serialize().is_prefix_of((**b)@)
                        ==> after.spec_serialize() == x.spec_serialize()
                },
                _ => {
                    ||| after == *self && Self::generation(before, None, None, after_v)
                    ||| exists|generated: Visitor| {
                        &&& #[trigger] Self::generation(before, None, Some(after), generated)
                        &&& after_v.keeps_state(&generated)
                        &&& after_v.fields() == generated.fields()
                        &&& after_v.operands() == generated.operands()
                        &&& after_v.serialized().len() > generated.serialized().len()
                        &&& after_v.serialized_types().len() > generated.serialized_types().len()
                        &&& after_v.serialized_types().last() == Self::spec_name()
                        &&& Self::encodes_exactly() ==> after_v.serialized().last().0 == after.spec_serialize()
                        &&& Self::walks_known() && Self::encodes_exactly() ==> after_v.serialized_bytes()
                            == generated.serialized_bytes() + after.serialized_records() + seq![after.spec_serialize()]
                    }
                },
            }
        }
    }

    open spec fn first_name_ok(name: Seq<char>) -> bool {
        false
    }

    open spec fn always_generates() -> bool {
        A::always_generates()
    }

    /// Each element is what generating its type in turn gives; generation
    /// gives up at the first element that could not be generated.
    open spec fn generation(before: Visitor, settings: Option<GenerateSettings>, r: Option<Self>, after: Visitor) -> bool {
        &&& after.draws_only(&before)
        &&& r matches Some(t) ==> A::generation(before, None, Some(t.0), after)
    }

    open spec fn field_count(&self) -> nat {
        (1 + self.0.field_count())
    }

    open spec fn comparison_operands(&self, __autarkie_val: (u64, u64)) -> Seq<Seq<u8>> {
        self.0.comparison_operands(__autarkie_val)
    }

    open spec fn serialized_records(&self) -> Seq<Seq<u8>> {
        seq![self.0.spec_serialize()] + self.0.serialized_records()
    }

    open spec fn serialized_record_types(&self) -> Seq<Seq<char>> {
        seq![A::spec_name()] + self.0.serialized_record_types()
    }

    open spec fn generate_ok(settings: GenerateSettings, rng: u64) -> bool {
        true
    }

    open spec fn mutate_ok(&self, ty: &MutationType, path: Seq<usize>) -> bool {
        if path.len() > 0 {
            (path[0] == 0 && self.0.mutate_ok(ty, path.drop_first()))
        } else {
            &&& (*ty is Splice || *ty is GenerateReplace)
            &&& (*ty matches MutationType::Splice(b) ==> (Self::is_lawful() ==> exists|x: Self| #[trigger] x.spec_serialize().is_prefix_of((**b)@)))
        }
    }

    /// Each element generated in turn; generation gives up where one of
    /// them does.
    fn __autarkie_generate(
        visitor: &mut Visitor,
        depth: &mut usize,
        cur_depth: usize,
        settings: Option<GenerateSettings>,
    ) -> (r: Option<Self>) {
        let ghost p0 = *visitor;
        let f0 = match A::__autarkie_generate(visitor, depth, cur_depth, None) {
            Some(x) => x,
            None => {
                return None;
            },
        };
        let ghost gt = (f0,);
        proof {
            assert(A::generation(p0, None, Some(gt.0), *visitor));
            assert(visitor.draws_only(&p0));
            assert(A::generation(p0, None, Some(gt.0), *visitor));
            assert(A::generation(p0, None, Some(gt.0), *visitor));
        }
        Some((f0,))
    }

    /// Along the path, mutates the element at its first index; at its end,
    /// replaces the tuple by the one the spliced bytes encode, or by a
    /// generated one whose encodings are then recorded.
    fn __autarkie_mutate(
        &mut self,
        ty: &mut MutationType,
        visitor: &mut Visitor,
        path: VecDeque<usize>,
    ) {
        let mut path = path;
        match path.pop_front() {
            Some(popped) => {
                if popped == 0 {
                    self.0.__autarkie_mutate(ty, visitor, path);
                } else {
                    proof {
                        assert(false);
                    }
                }
            },
            None => {
                match ty {
                    MutationType::Splice(other) => {
                        let bytes: &[u8] = **other;
                        proof {
                            assert(bytes@.skip(0) =~= bytes@);
                        }
                        match Self::__autarkie_deserialize(bytes, 0) {
                            Some((v, end)) => {
                                proof {
                                    if Self::is_lawful() {
                                        assert(v.spec_serialize() =~= bytes@.subrange(0, v.spec_serialize().len() as int));
                                        assert(v.spec_serialize().is_prefix_of(bytes@));
                                    }
                                }
                                *self = v;
                            },
                            None => {},
                        }
                    },
                    MutationType::GenerateReplace(bias) => {
                        match Self::__autarkie_generate(visitor, bias, 0, None) {
                            Some(generated) => {
                                *self = generated;
                                let ghost g = *visitor;
                                self.__autarkie_serialized(visitor);
                                Self::record_encoding(visitor, self.__autarkie_serialize());
                                proof {
                                    assert(Self::generation(*old(visitor), None, Some(*self), g));
                                    if Self::walks_known() && Self::encodes_exactly() {
                                        assert(visitor.serialized_bytes() =~= g.serialized_bytes()
                                            + self.serialized_records() + seq![self.spec_serialize()]);
                                    }
                                }
                            },
                            None => {},
                        }
                    },
                    _ => {
                        proof {
                            assert(false);
                        }
                    },
                }
            },
        }
    }

    /// Enters each element as a field, at its position, and records its fields.
    fn __autarkie_fields(&self, visitor: &mut Visitor, index: usize) {
        let ghost p0 = *visitor;
        let id0 = A::enter_as_field(visitor, 0, NodeType::NonRecursive).1;
        let ghost e0 = *visitor;
        self.0.__autarkie_fields(visitor, 0);
        let ghost i0 = *visitor;
        visitor.pop_field();
        proof {
            assert(field_entered(p0, ((0, NodeType::NonRecursive), id0), A::spec_name(), e0));
            assert(field_left(i0, *visitor));
            assert(walked_in_field(self.0, 0, A::spec_name(), 0, None, p0, *visitor));
        }
    }

    /// Each element is walked in turn, inside a field at its position, as
    /// field 0 of it.
    open spec fn walk(&self, index: usize, compared: Option<(u64, u64)>, before: Visitor, after: Visitor) -> bool {
        walked_in_field(self.0, 0, A::spec_name(), 0, compared, before, after)
    }

    /// The tuple registered, then under it each element type in turn, at
    /// variant 0 (its own registration, or one edge to it where it is being
    /// registered already).
    open spec fn registration(before: Visitor, parent: Option<Id>, variant: usize, after: Visitor) -> bool {
        exists|me: Id, v1: Visitor, w0: Visitor|
            #![trigger entered(before, parent, variant, Self::spec_name(), me, v1), child_registered::<A>(v1, Some(me), 0, w0), left(w0, after)]
            entered(before, parent, variant, Self::spec_name(), me, v1)
                && child_registered::<A>(v1, Some(me), 0, w0)
                && left(w0, after)
    }

    /// Registers the tuple type, then under it each element type (or only
    /// the edge to it, where it is being registered already).
    fn __autarkie_register(v: &mut Visitor, parent: Option<(Id, String)>, variant: usize)
        ensures
            final(v).ty_edges().len() > old(v).ty_edges().len(),
            final(v).ty_edges()[old(v).ty_edges().len() as int].2 == variant,
    {
        let ghost v0 = *v;
        let ghost start = v.ty_edges().len();
        let me = Self::register_self(v, parent, variant);
        let me_id = me.0;
        let me_name = me.1.clone();
        let ghost v1 = *v;
        let ghost first = v.ty_edges()[start as int];
        proof {
            assert(entered(v0, parent_id(parent), variant, Self::spec_name(), me_id, v1));
        }
        register_child::<A>(v, (me_id, me_name.clone()), 0);
        let ghost w0 = *v;
        proof {
            assert(w0.extends(&v1));
        }
        let ghost v3 = *v;
        v.pop_ty();
        proof {
            assert(left(v3, *v));
            assert(v3.extends(&v1));
            assert(v0.ty_edges().is_prefix_of(v1.ty_edges()));
            assert(v0.ty_names().is_prefix_of(v1.ty_names()));
            assert(v1.ty_edges().is_prefix_of(v3.ty_edges()));
            assert(v.ty_edges()[start as int] == first);
        }
    }

    /// Records the encoding of each element, then what it records.
    fn __autarkie_serialized(&self, visitor: &mut Visitor) {
        A::record_encoding(visitor, self.0.__autarkie_serialize());
        proof {
            if Self::walks_known() && (Self::is_lawful() || Self::encodes_exactly()) {
                assert(visitor.serialized_bytes() =~= old(visitor).serialized_bytes() + (seq![self.0.spec_serialize()]));
            }
            if Self::walks_known() {
                assert(visitor.serialized_types() =~= old(visitor).serialized_types() + (seq![A::spec_name()]));
            }
        }
        self.0.__autarkie_serialized(visitor);
        proof {
            if Self::walks_known() && (Self::is_lawful() || Self::encodes_exactly()) {
                assert(visitor.serialized_bytes() =~= old(visitor).serialized_bytes() + (seq![self.0.spec_serialize()] + self.0.serialized_records()));
            }
            if Self::walks_known() {
                assert(visitor.serialized_types() =~= old(visitor).serialized_types() + (seq![A::spec_name()] + self.0.serialized_record_types()));
            }
        }
    }

    /// Enters each element as a field, at its position, and records its
    /// comparison operands.
    fn __autarkie_cmps(&self, visitor: &mut Visitor, index: usize, __autarkie_val: (u64, u64)) {
        let ghost p0 = *visitor;
        let id0 = A::enter_as_field(visitor, 0, NodeType::NonRecursive).1;
        let ghost e0 = *visitor;
        self.0.__autarkie_cmps(visitor, 0, __autarkie_val);
        let ghost i0 = *visitor;
        visitor.pop_field();
        proof {
            assert(field_entered(p0, ((0, NodeType::NonRecursive), id0), A::spec_name(), e0));
            assert(field_left(i0, *visitor));
            assert(walked_in_field(self.0, 0, A::spec_name(), 0, Some(__autarkie_val), p0, *visitor));
            if Self::walks_known() {
                assert(visitor.operands() =~= old(visitor).operands() + (self.0.comparison_operands(__autarkie_val)));
            }
        }
    }

    fn __autarkie_serialize(&self) -> (r: Vec<u8>) {
        let mut out = self.0.__autarkie_serialize();
        out
    }

    /// Reads the elements in turn.
    fn __autarkie_deserialize(data: &[u8], pos: usize) -> (r: Option<(Self, usize)>) {
        proof {
            assert(data@.skip(pos as int) =~= data@.skip(pos as int));
        }
        let (v0, e0) = match A::__autarkie_deserialize(data, pos) {
            Some(r) => r,
            None => {
                proof {
                    if Self::is_lawful() {
                    assert forall|x: Self| !#[trigger] x.spec_serialize().is_prefix_of(data@.skip(pos as int)) by {
                        if x.spec_serialize().is_prefix_of(data@.skip(pos as int)) {
                            assert(x.0.spec_serialize().is_prefix_of(data@.skip(pos as int)));
                        }
                    }
                    }
                }
                return None;
            },
        };
        let r = (v0,);
        proof {
            if Self::is_lawful() {
            assert forall|x: Self| #[trigger] x.spec_serialize().is_prefix_of(data@.skip(pos as int)) implies
                r.spec_serialize() == x.spec_serialize() && e0 == pos + x.spec_serialize().len() by {
                assert(x.0.spec_serialize().is_prefix_of(data@.skip(pos as int)));
                assert(v0.spec_serialize() == x.0.spec_serialize());
            }
            }
        }
        Some((r, e0))
    }

    fn __autarkie_id_name() -> (r: String) {
        let mut r = "(".to_owned();
        let n0 = A::__autarkie_id_name();
        r.append(n0.as_str());
        r.append(",)");
        assert(r@ == Self::spec_name());
        r
    }
}

/// Whether generating the elements of `t` in turn, each with no settings,
/// from the visitor `before`, can give them and leave `after`.
pub open spec fn elements_2_generated<A: Node, B: Node>(before: Visitor, t: (A, B), after: Visitor) -> bool {
    exists|g0: Visitor|
            #![trigger A::generation(before, None, Some(t.0), g0), B::generation(g0, None, Some(t.1), after)]
            A::generation(before, None, Some(t.0), g0)
                && B::generation(g0, None, Some(t.1), after)
}

impl<A: Node, B: Node> Node for (A, B) {
    open spec fn spec_serialize(&self) -> Seq<u8> {
        self.0.spec_serialize() + (self.1.spec_serialize())
    }

    open spec fn spec_name() -> Seq<char> {
        "("@ + A::spec_name() + ", "@ + B::spec_name() + ")"@
    }

    open spec fn is_lawful() -> bool {
        A::is_lawful() && B::is_lawful()
    }

    open spec fn read_ok(bytes: Seq<u8>) -> bool {
        Self::is_lawful() && exists|x: Self| #[trigger] x.spec_serialize().is_prefix_of(bytes)
    }

    /// For a lawful type, a value read encodes as the start of the bytes,
    /// as any value whose encoding starts them does.
    open spec fn reading(bytes: Seq<u8>, v: Self) -> bool {
        Self::is_lawful() ==> {
            &&& v.spec_serialize().is_prefix_of(bytes)
            &&& forall|x: Self| #[trigger] x.spec_serialize().is_prefix_of(bytes) ==> v.spec_serialize()
                == x.spec_serialize()
        }
    }

    open spec fn encodes_exactly() -> bool {
        A::encodes_exactly() && B::encodes_exactly()
    }

    open spec fn walks_known() -> bool {
        A::walks_known() && B::walks_known()
    }

    open spec fn node_shape(&self, shape: NodeType) -> bool {
        shape == NodeType::NonRecursive
    }

    /// A node with fixed fields.
    fn __autarkie_node_ty(&self, visitor: &Visitor) -> (r: NodeType) {
        NodeType::NonRecursive
    }

    /// Along a path, the element at its first index is mutated along the
    /// rest of it and the others are kept; at its end, the tuple is replaced.
    open spec fn mutation(&self, ty: &MutationType, path: Seq<usize>, before: Visitor, after: Self, after_v: Visitor) -> bool {
        if path.len() > 0 {
            if path[0] == 0 {
                after.1 == self.1 && self.0.mutation(ty, path.drop_first(), before, after.0, after_v)
            } else if path[0] == 1 {
                after.0 == self.0 && self.1.mutation(ty, path.drop_first(), before, after.1, after_v)
            } else {
                false
            }
        } else {
            match *ty {
                MutationType::Splice(b) => {
                    &&& after_v == before
                    &&& Self::is_lawful() ==> forall|x: Self| #[trigger] x.spec_serialize().is_prefix_of((**b)@)
                        ==> after.spec_serialize() == x.spec_serialize()
                },
                _ => {
                    ||| after == *self && Self::generation(before, None, None, after_v)
                    ||| exists|generated: Visitor| {
                        &&& #[trigger] Self::generation(before, None, Some(after), generated)
                        &&& after_v.keeps_state(&generated)
                        &&& after_v.fields() == generated.fields()
                        &&& after_v.operands() == generated.operands()
                        &&& after_v.serialized().len() > generated.serialized().len()
                        &&& after_v.serialized_types().len() > generated.serialized_types().len()
                        &&& after_v.serialized_types().last() == Self::spec_name()
                        &&& Self::encodes_exactly() ==> after_v.serialized().last().0 == after.spec_serialize()
                        &&& Self::walks_known() && Self::encodes_exactly() ==> after_v.serialized_bytes()
                            == generated.serialized_bytes() + after.serialized_records() + seq![after.spec_serialize()]
                    }
                },
            }
        }
    }

    open spec fn first_name_ok(name: Seq<char>) -> bool {
        false
    }

    open spec fn always_generates() -> bool {
        A::always_generates() && B::always_generates()
    }

    /// Each element is what generating its type in turn gives; generation
    /// gives up at the first element that could not be generated.
    open spec fn generation(before: Visitor, settings: Option<GenerateSettings>, r: Option<Self>, after: Visitor) -> bool {
        &&& after.draws_only(&before)
        &&& r matches Some(t) ==> elements_2_generated(before, t, after)
    }

    open spec fn field_count(&self) -> nat {
        (1 + self.0.field_count()) + (1 + self.1.field_count())
    }

    open spec fn comparison_operands(&self, __autarkie_val: (u64, u64)) -> Seq<Seq<u8>> {
        (self.0.comparison_operands(__autarkie_val)) + self.1.comparison_operands(__autarkie_val)
    }

    open spec fn serialized_records(&self) -> Seq<Seq<u8>> {
        (seq![self.0.spec_serialize()] + self.0.serialized_records()) + seq![self.1.spec_serialize()] + self.1.serialized_records()
    }

    open spec fn serialized_record_types(&self) -> Seq<Seq<char>> {
        (seq![A::spec_name()] + self.0.serialized_record_types()) + seq![B::spec_name()] + self.1.serialized_record_types()
    }

    open spec fn generate_ok(settings: GenerateSettings, rng: u64) -> bool {
        true
    }

    open spec fn mutate_ok(&self, ty: &MutationType, path: Seq<usize>) -> bool {
        if path.len() > 0 {
            (path[0] == 0 && self.0.mutate_ok(ty, path.drop_first())) || (path[0] == 1 && self.1.mutate_ok(ty, path.drop_first()))
        } else {
            &&& (*ty is Splice || *ty is GenerateReplace)
            &&& (*ty matches MutationType::Splice(b) ==> (Self::is_lawful() ==> exists|x: Self| #[trigger] x.spec_serialize().is_prefix_of((**b)@)))
        }
    }

    /// Each element generated in turn; generation gives up where one of
    /// them does.
    fn __autarkie_generate(
        visitor: &mut Visitor,
        depth: &mut usize,
        cur_depth: usize,
        settings: Option<GenerateSettings>,
    ) -> (r: Option<Self>) {
        let ghost p0 = *visitor;
        let f0 = match A::__autarkie_generate(visitor, depth, cur_depth, None) {
            Some(x) => x,
            None => {
                return None;
            },
        };
        let ghost p1 = *visitor;
        let f1 = match B::__autarkie_generate(visitor, depth, cur_depth, None) {
            Some(x) => x,
            None => {
                return None;
            },
        };
        let ghost gt = (f0, f1);
        proof {
            assert(A::generation(p0, None, Some(gt.0), p1));
            assert(B::generation(p1, None, Some(gt.1), *visitor));
            assert(visitor.draws_only(&p0));
            assert(exists|g0: Visitor| A::generation(p0, None, Some(gt.0), g0) && B::generation(g0, None, Some(gt.1), *visitor));
            assert(elements_2_generated(p0, gt, *visitor));
        }
        Some((f0, f1))
    }

    /// Along the path, mutates the element at its first index; at its end,
    /// replaces the tuple by the one the spliced bytes encode, or by a
    /// generated one whose encodings are then recorded.
    fn __autarkie_mutate(
        &mut self,
        ty: &mut MutationType,
        visitor: &mut Visitor,
        path: VecDeque<usize>,
    ) {
        let mut path = path;
        match path.pop_front() {
            Some(popped) => {
                if popped == 0 {
                    self.0.__autarkie_mutate(ty, visitor, path);
                } else if popped == 1 {
                    self.1.__autarkie_mutate(ty, visitor, path);
                } else {
                    proof {
                        assert(false);
                    }
                }
            },
            None => {
                match ty {
                    MutationType::Splice(other) => {
                        let bytes: &[u8] = **other;
                        proof {
                            assert(bytes@.skip(0) =~= bytes@);
                        }
                        match Self::__autarkie_deserialize(bytes, 0) {
                            Some((v, end)) => {
                                proof {
                                    if Self::is_lawful() {
                                        assert(v.spec_serialize() =~= bytes@.subrange(0, v.spec_serialize().len() as int));
                                        assert(v.spec_serialize().is_prefix_of(bytes@));
                                    }
                                }
                                *self = v;
                            },
                            None => {},
                        }
                    },
                    MutationType::GenerateReplace(bias) => {
                        match Self::__autarkie_generate(visitor, bias, 0, None) {
                            Some(generated) => {
                                *self = generated;
                                let ghost g = *visitor;
                                self.__autarkie_serialized(visitor);
                                Self::record_encoding(visitor, self.__autarkie_serialize());
                                proof {
                                    assert(Self::generation(*old(visitor), None, Some(*self), g));
                                    if Self::walks_known() && Self::encodes_exactly() {
                                        assert(visitor.serialized_bytes() =~= g.serialized_bytes()
                                            + self.serialized_records() + seq![self.spec_serialize()]);
                                    }
                                }
                            },
                            None => {},
                        }
                    },
                    _ => {
                        proof {
                            assert(false);
                        }
                    },
                }
            },
        }
    }

    /// Enters each element as a field, at its position, and records its fields.
    fn __autarkie_fields(&self, visitor: &mut Visitor, index: usize) {
        let ghost p0 = *visitor;
        let id0 = A::enter_as_field(visitor, 0, NodeType::NonRecursive).1;
        let ghost e0 = *visitor;
        self.0.__autarkie_fields(visitor, 0);
        let ghost i0 = *visitor;
        visitor.pop_field();
        proof {
            assert(field_entered(p0, ((0, NodeType::NonRecursive), id0), A::spec_name(), e0));
            assert(field_left(i0, *visitor));
            assert(walked_in_field(self.0, 0, A::spec_name(), 0, None, p0, *visitor));
        }
        let ghost p1 = *visitor;
        let id1 = B::enter_as_field(visitor, 1, NodeType::NonRecursive).1;
        let ghost e1 = *visitor;
        self.1.__autarkie_fields(visitor, 0);
        let ghost i1 = *visitor;
        visitor.pop_field();
        proof {
            assert(field_entered(p1, ((1, NodeType::NonRecursive), id1), B::spec_name(), e1));
            assert(field_left(i1, *visitor));
            assert(walked_in_field(self.1, 1, B::spec_name(), 0, None, p1, *visitor));
        }
    }

    /// Each element is walked in turn, inside a field at its position, as
    /// field 0 of it.
    open spec fn walk(&self, index: usize, compared: Option<(u64, u64)>, before: Visitor, after: Visitor) -> bool {
        exists|u0: Visitor|
            #![trigger walked_in_field(self.0, 0, A::spec_name(), 0, compared, before, u0), walked_in_field(self.1, 1, B::spec_name(), 0, compared, u0, after)]
            walked_in_field(self.0, 0, A::spec_name(), 0, compared, before, u0)
                && walked_in_field(self.1, 1, B::spec_name(), 0, compared, u0, after)
    }

    /// The tuple registered, then under it each element type in turn, at
    /// variant 0 (its own registration, or one edge to it where it is being
    /// registered already).
    open spec fn registration(before: Visitor, parent: Option<Id>, variant: usize, after: Visitor) -> bool {
        exists|me: Id, v1: Visitor, w0: Visitor, w1: Visitor|
            #![trigger entered(before, parent, variant, Self::spec_name(), me, v1), child_registered::<A>(v1, Some(me), 0, w0), child_registered::<B>(w0, Some(me), 0, w1), left(w1, after)]
            entered(before, parent, variant, Self::spec_name(), me, v1)
                && child_registered::<A>(v1, Some(me), 0, w0)
                && child_registered::<B>(w0, Some(me), 0, w1)
                && left(w1, after)
    }

    /// Registers the tuple type, then under it each element type (or only
    /// the edge to it, where it is being registered already).
    fn __autarkie_register(v: &mut Visitor, parent: Option<(Id, String)>, variant: usize)
        ensures
            final(v).ty_edges().len() > old(v).ty_edges().len(),
            final(v).ty_edges()[old(v).ty_edges().len() as int].2 == variant,
    {
        let ghost v0 = *v;
        let ghost start = v.ty_edges().len();
        let me = Self::register_self(v, parent, variant);
        let me_id = me.0;
        let me_name = me.1.clone();
        let ghost v1 = *v;
        let ghost first = v.ty_edges()[start as int];
        proof {
            assert(entered(v0, parent_id(parent), variant, Self::spec_name(), me_id, v1));
        }
        register_child::<A>(v, (me_id, me_name.clone()), 0);
        let ghost w0 = *v;
        proof {
            assert(w0.extends(&v1));
        }
        register_child::<B>(v, (me_id, me_name.clone()), 0);
        let ghost w1 = *v;
        proof {
            assert(w1.extends(&v1));
        }
        let ghost v3 = *v;
        v.pop_ty();
        proof {
            assert(left(v3, *v));
            assert(v3.extends(&v1));
            assert(v0.ty_edges().is_prefix_of(v1.ty_edges()));
            assert(v0.ty_names().is_prefix_of(v1.ty_names()));
            assert(v1.ty_edges().is_prefix_of(v3.ty_edges()));
            assert(v.ty_edges()[start as int] == first);
        }
    }

    /// Records the encoding of each element, then what it records.
    fn __autarkie_serialized(&self, visitor: &mut Visitor) {
        A::record_encoding(visitor, self.0.__autarkie_serialize());
        proof {
            if Self::walks_known() && (Self::is_lawful() || Self::encodes_exactly()) {
                assert(visitor.serialized_bytes() =~= old(visitor).serialized_bytes() + (seq![self.0.spec_serialize()]));
            }
            if Self::walks_known() {
                assert(visitor.serialized_types() =~= old(visitor).serialized_types() + (seq![A::spec_name()]));
            }
        }
        self.0.__autarkie_serialized(visitor);
        proof {
            if Self::walks_known() && (Self::is_lawful() || Self::encodes_exactly()) {
                assert(visitor.serialized_bytes() =~= old(visitor).serialized_bytes() + (seq![self.0.spec_serialize()] + self.0.serialized_records()));
            }
            if Self::walks_known() {
                assert(visitor.serialized_types() =~= old(visitor).serialized_types() + (seq![A::spec_name()] + self.0.serialized_record_types()));
            }
        }
        B::record_encoding(visitor, self.1.__autarkie_serialize());
        proof {
            if Self::walks_known() && (Self::is_lawful() || Self::encodes_exactly()) {
                assert(visitor.serialized_bytes() =~= old(visitor).serialized_bytes() + ((seq![self.0.spec_serialize()] + self.0.serialized_records()) + seq![self.1.spec_serialize()]));
            }
            if Self::walks_known() {
                assert(visitor.serialized_types() =~= old(visitor).serialized_types() + ((seq![A::spec_name()] + self.0.serialized_record_types()) + seq![B::spec_name()]));
            }
        }
        self.1.__autarkie_serialized(visitor);
        proof {
            if Self::walks_known() && (Self::is_lawful() || Self::encodes_exactly()) {
                assert(visitor.serialized_bytes() =~= old(visitor).serialized_bytes() + ((seq![self.0.spec_serialize()] + self.0.serialized_records()) + seq![self.1.spec_serialize()] + self.1.serialized_records()));
            }
            if Self::walks_known() {
                assert(visitor.serialized_types() =~= old(visitor).serialized_types() + ((seq![A::spec_name()] + self.0.serialized_record_types()) + seq![B::spec_name()] + self.1.serialized_record_types()));
            }
        }
    }

    /// Enters each element as a field, at its position, and records its
    /// comparison operands.
    fn __autarkie_cmps(&self, visitor: &mut Visitor, index: usize, __autarkie_val: (u64, u64)) {
        let ghost p0 = *visitor;
        let id0 = A::enter_as_field(visitor, 0, NodeType::NonRecursive).1;
        let ghost e0 = *visitor;
        self.0.__autarkie_cmps(visitor, 0, __autarkie_val);
        let ghost i0 = *visitor;
        visitor.pop_field();
        proof {
            assert(field_entered(p0, ((0, NodeType::NonRecursive), id0), A::spec_name(), e0));
            assert(field_left(i0, *visitor));
            assert(walked_in_field(self.0, 0, A::spec_name(), 0, Some(__autarkie_val), p0, *visitor));
            if Self::walks_known() {
                assert(visitor.operands() =~= old(visitor).operands() + (self.0.comparison_operands(__autarkie_val)));
            }
        }
        let ghost p1 = *visitor;
        let id1 = B::enter_as_field(visitor, 1, NodeType::NonRecursive).1;
        let ghost e1 = *visitor;
        self.1.__autarkie_cmps(visitor, 0, __autarkie_val);
        let ghost i1 = *visitor;
        visitor.pop_field();
        proof {
            assert(field_entered(p1, ((1, NodeType::NonRecursive), id1), B::spec_name(), e1));
            assert(field_left(i1, *visitor));
            assert(walked_in_field(self.1, 1, B::spec_name(), 0, Some(__autarkie_val), p1, *visitor));
            if Self::walks_known() {
                assert(visitor.operands() =~= old(visitor).operands() + ((self.0.comparison_operands(__autarkie_val)) + self.1.comparison_operands(__autarkie_val)));
            }
        }
    }

    fn __autarkie_serialize(&self) -> (r: Vec<u8>) {
        let mut out = self.1.__autarkie_serialize();
        let mut front = self.0.__autarkie_serialize();
        front.append(&mut out);
        out = front;
        out
    }

    /// Reads the elements in turn.
    fn __autarkie_deserialize(data: &[u8], pos: usize) -> (r: Option<(Self, usize)>) {
        proof {
            assert(data@.skip(pos as int) =~= data@.skip(pos as int));
        }
        proof {
            if Self::is_lawful() {
            assert forall|x: Self| #[trigger] x.spec_serialize().is_prefix_of(data@.skip(pos as int)) implies {
                &&& x.0.spec_serialize().is_prefix_of(data@.skip(pos as int))
                &&& (x.1.spec_serialize()).is_prefix_of(data@.skip(pos + x.0.spec_serialize().len()))
            } by {
                lemma_tag_then(x.0.spec_serialize(), x.1.spec_serialize(), data@.skip(pos as int));
                assert(data@.skip(pos as int).skip(x.0.spec_serialize().len() as int) =~= data@.skip(pos + x.0.spec_serialize().len()));
            }
            }
        }
        let (v0, e0) = match A::__autarkie_deserialize(data, pos) {
            Some(r) => r,
            None => {
                proof {
                    if Self::is_lawful() {
                    assert forall|x: Self| !#[trigger] x.spec_serialize().is_prefix_of(data@.skip(pos as int)) by {
                        if x.spec_serialize().is_prefix_of(data@.skip(pos as int)) {
                            assert(x.0.spec_serialize().is_prefix_of(data@.skip(pos as int)));
                        }
                    }
                    }
                }
                return None;
            },
        };
        proof {
            if Self::is_lawful() {
            assert forall|x: Self| #[trigger] x.spec_serialize().is_prefix_of(data@.skip(pos as int)) implies
                (x.1.spec_serialize()).is_prefix_of(data@.skip(e0 as int)) by {
                assert(x.0.spec_serialize().is_prefix_of(data@.skip(pos as int)));
            }
            }
        }
        let (v1, e1) = match B::__autarkie_deserialize(data, e0) {
            Some(r) => r,
            None => {
                proof {
                    if Self::is_lawful() {
                    assert forall|x: Self| !#[trigger] x.spec_serialize().is_prefix_of(data@.skip(pos as int)) by {
                        if x.spec_serialize().is_prefix_of(data@.skip(pos as int)) {
                            assert(x.1.spec_serialize().is_prefix_of(data@.skip(e0 as int)));
                        }
                    }
                    }
                }
                return None;
            },
        };
        let r = (v0, v1);
        proof {
            if Self::is_lawful() {
            assert forall|x: Self| #[trigger] x.spec_serialize().is_prefix_of(data@.skip(pos as int)) implies
                r.spec_serialize() == x.spec_serialize() && e1 == pos + x.spec_serialize().len() by {
                assert(x.0.spec_serialize().is_prefix_of(data@.skip(pos as int)));
                assert(v0.spec_serialize() == x.0.spec_serialize());
                assert(x.1.spec_serialize().is_prefix_of(data@.skip(e0 as int)));
                assert(v1.spec_serialize() == x.1.spec_serialize());
            }
            }
        }
        Some((r, e1))
    }

    fn __autarkie_id_name() -> (r: String) {
        let mut r = "(".to_owned();
        let n0 = A::__autarkie_id_name();
        r.append(n0.as_str());
        r.append(", ");
        let n1 = B::__autarkie_id_name();
        r.append(n1.as_str());
        r.append(")");
        assert(r@ == Self::spec_name());
        r
    }
}

/// Whether generating the elements of `t` in turn, each with no settings,
/// from the visitor `before`, can give them and leave `after`.
pub open spec fn elements_3_generated<A: Node, B: Node, C: Node>(before: Visitor, t: (A, B, C), after: Visitor) -> bool {
    exists|g0: Visitor, g1: Visitor|
            #![trigger A::generation(before, None, Some(t.0), g0), B::generation(g0, None, Some(t.1), g1), C::generation(g1, None, Some(t.2), after)]
            A::generation(before, None, Some(t.0), g0)
                && B::generation(g0, None, Some(t.1), g1)
                && C::generation(g1, None, Some(t.2), after)
}

impl<A: Node, B: Node, C: Node> Node for (A, B, C) {
    open spec fn spec_serialize(&self) -> Seq<u8> {
        self.0.spec_serialize() + (self.1.spec_serialize() + (self.2.spec_serialize()))
    }

    open spec fn spec_name() -> Seq<char> {
        "("@ + A::spec_name() + ", "@ + B::spec_name() + ", "@ + C::spec_name() + ")"@
    }

    open spec fn is_lawful() -> bool {
        A::is_lawful() && B::is_lawful() && C::is_lawful()
    }

    open spec fn read_ok(bytes: Seq<u8>) -> bool {
        Self::is_lawful() && exists|x: Self| #[trigger] x.spec_serialize().is_prefix_of(bytes)
    }

    /// For a lawful type, a value read encodes as the start of the bytes,
    /// as any value whose encoding starts them does.
    open spec fn reading(bytes: Seq<u8>, v: Self) -> bool {
        Self::is_lawful() ==> {
            &&& v.spec_serialize().is_prefix_of(bytes)
            &&& forall|x: Self| #[trigger] x.spec_serialize().is_prefix_of(bytes) ==> v.spec_serialize()
                == x.spec_serialize()
        }
    }

    open spec fn encodes_exactly() -> bool {
        A::encodes_exactly() && B::encodes_exactly() && C::encodes_exactly()
    }

    open spec fn walks_known() -> bool {
        A::walks_known() && B::walks_known() && C::walks_known()
    }

    open spec fn node_shape(&self, shape: NodeType) -> bool {
        shape == NodeType::NonRecursive
    }

    /// A node with fixed fields.
    fn __autarkie_node_ty(&self, visitor: &Visitor) -> (r: NodeType) {
        NodeType::NonRecursive
    }

    /// Along a path, the element at its first index is mutated along the
    /// rest of it and the others are kept; at its end, the tuple is replaced.
    open spec fn mutation(&self, ty: &MutationType, path: Seq<usize>, before: Visitor, after: Self, after_v: Visitor) -> bool {
        if path.len() > 0 {
            if path[0] == 0 {
                after.1 == self.1 && after.2 == self.2 && self.0.mutation(ty, path.drop_first(), before, after.0, after_v)
            } else if path[0] == 1 {
                after.0 == self.0 && after.2 == self.2 && self.1.mutation(ty, path.drop_first(), before, after.1, after_v)
            } else if path[0] == 2 {
                after.0 == self.0 && after.1 == self.1 && self.2.mutation(ty, path.drop_first(), before, after.2, after_v)
            } else {
                false
            }
        } else {
            match *ty {
                MutationType::Splice(b) => {
                    &&& after_v == before
                    &&& Self::is_lawful() ==> forall|x: Self| #[trigger] x.spec_serialize().is_prefix_of((**b)@)
                        ==> after.spec_serialize() == x.spec_serialize()
                },
                _ => {
                    ||| after == *self && Self::generation(before, None, None, after_v)
                    ||| exists|generated: Visitor| {
                        &&& #[trigger] Self::generation(before, None, Some(after), generated)
                        &&& after_v.keeps_state(&generated)
                        &&& after_v.fields() == generated.fields()
                        &&& after_v.operands() == generated.operands()
                        &&& after_v.serialized().len() > generated.serialized().len()
                        &&& after_v.serialized_types().len() > generated.serialized_types().len()
                        &&& after_v.serialized_types().last() == Self::spec_name()
                        &&& Self::encodes_exactly() ==> after_v.serialized().last().0 == after.spec_serialize()
                        &&& Self::walks_known() && Self::encodes_exactly() ==> after_v.serialized_bytes()
                            == generated.serialized_bytes() + after.serialized_records() + seq![after.spec_serialize()]
                    }
                },
            }
        }
    }

    open spec fn first_name_ok(name: Seq<char>) -> bool {
        false
    }

    open spec fn always_generates() -> bool {
        A::always_generates() && B::always_generates() && C::always_generates()
    }

    /// Each element is what generating its type in turn gives; generation
    /// gives up at the first element that could not be generated.
    open spec fn generation(before: Visitor, settings: Option<GenerateSettings>, r: Option<Self>, after: Visitor) -> bool {
        &&& after.draws_only(&before)
        &&& r matches Some(t) ==> elements_3_generated(before, t, after)
    }

    open spec fn field_count(&self) -> nat {
        (1 + self.0.field_count()) + (1 + self.1.field_count()) + (1 + self.2.field_count())
    }

    open spec fn comparison_operands(&self, __autarkie_val: (u64, u64)) -> Seq<Seq<u8>> {
        ((self.0.comparison_operands(__autarkie_val)) + self.1.comparison_operands(__autarkie_val)) + self.2.comparison_operands(__autarkie_val)
    }

    open spec fn serialized_records(&self) -> Seq<Seq<u8>> {
        ((seq![self.0.spec_serialize()] + self.0.serialized_records()) + seq![self.1.spec_serialize()] + self.1.serialized_records()) + seq![self.2.spec_serialize()] + self.2.serialized_records()
    }

    open spec fn serialized_record_types(&self) -> Seq<Seq<char>> {
        ((seq![A::spec_name()] + self.0.serialized_record_types()) + seq![B::spec_name()] + self.1.serialized_record_types()) + seq![C::spec_name()] + self.2.serialized_record_types()
    }

    open spec fn generate_ok(settings: GenerateSettings, rng: u64) -> bool {
        true
    }

    open spec fn mutate_ok(&self, ty: &MutationType, path: Seq<usize>) -> bool {
        if path.len() > 0 {
            (path[0] == 0 && self.0.mutate_ok(ty, path.drop_first())) || (path[0] == 1 && self.1.mutate_ok(ty, path.drop_first())) || (path[0] == 2 && self.2.mutate_ok(ty, path.drop_first()))
        } else {
            &&& (*ty is Splice || *ty is GenerateReplace)
            &&& (*ty matches MutationType::Splice(b) ==> (Self::is_lawful() ==> exists|x: Self| #[trigger] x.spec_serialize().is_prefix_of((**b)@)))
        }
    }

    /// Each element generated in turn; generation gives up where one of
    /// them does.
    fn __autarkie_generate(
        visitor: &mut Visitor,
        depth: &mut usize,
        cur_depth: usize,
        settings: Option<GenerateSettings>,
    ) -> (r: Option<Self>) {
        let ghost p0 = *visitor;
        let f0 = match A::__autarkie_generate(visitor, depth, cur_depth, None) {
            Some(x) => x,
            None => {
                return None;
            },
        };
        let ghost p1 = *visitor;
        let f1 = match B::__autarkie_generate(visitor, depth, cur_depth, None) {
            Some(x) => x,
            None => {
                return None;
            },
        };
        let ghost p2 = *visitor;
        let f2 = match C::__autarkie_generate(visitor, depth, cur_depth, None) {
            Some(x) => x,
            None => {
                return None;
            },
        };
        let ghost gt = (f0, f1, f2);
        proof {
            assert(A::generation(p0, None, Some(gt.0), p1));
            assert(B::generation(p1, None, Some(gt.1), p2));
            assert(C::generation(p2, None, Some(gt.2), *visitor));
            assert(visitor.draws_only(&p0));
            assert(exists|g0: Visitor, g1: Visitor| A::generation(p0, None, Some(gt.0), g0) && B::generation(g0, None, Some(gt.1), g1) && C::generation(g1, None, Some(gt.2), *visitor));
            assert(elements_3_generated(p0, gt, *visitor));
        }
        Some((f0, f1, f2))
    }

    /// Along the path, mutates the element at its first index; at its end,
    /// replaces the tuple by the one the spliced bytes encode, or by a
    /// generated one whose encodings are then recorded.
    fn __autarkie_mutate(
        &mut self,
        ty: &mut MutationType,
        visitor: &mut Visitor,
        path: VecDeque<usize>,
    ) {
        let mut path = path;
        match path.pop_front() {
            Some(popped) => {
                if popped == 0 {
                    self.0.__autarkie_mutate(ty, visitor, path);
                } else if popped == 1 {
                    self.1.__autarkie_mutate(ty, visitor, path);
                } else if popped == 2 {
                    self.2.__autarkie_mutate(ty, visitor, path);
                } else {
                    proof {
                        assert(false);
                    }
                }
            },
            None => {
                match ty {
                    MutationType::Splice(other) => {
                        let bytes: &[u8] = **other;
                        proof {
                            assert(bytes@.skip(0) =~= bytes@);
                        }
                        match Self::__autarkie_deserialize(bytes, 0) {
                            Some((v, end)) => {
                                proof {
                                    if Self::is_lawful() {
                                        assert(v.spec_serialize() =~= bytes@.subrange(0, v.spec_serialize().len() as int));
                                        assert(v.spec_serialize().is_prefix_of(bytes@));
                                    }
                                }
                                *self = v;
                            },
                            None => {},
                        }
                    },
                    MutationType::GenerateReplace(bias) => {
                        match Self::__autarkie_generate(visitor, bias, 0, None) {
                            Some(generated) => {
                                *self = generated;
                                let ghost g = *visitor;
                                self.__autarkie_serialized(visitor);
                                Self::record_encoding(visitor, self.__autarkie_serialize());
                                proof {
                                    assert(Self::generation(*old(visitor), None, Some(*self), g));
                                    if Self::walks_known() && Self::encodes_exactly() {
                                        assert(visitor.serialized_bytes() =~= g.serialized_bytes()
                                            + self.serialized_records() + seq![self.spec_serialize()]);
                                    }
                                }
                            },
                            None => {},
                        }
                    },
                    _ => {
                        proof {
                            assert(false);
                        }
                    },
                }
            },
        }
    }

    /// Enters each element as a field, at its position, and records its fields.
    fn __autarkie_fields(&self, visitor: &mut Visitor, index: usize) {
        let ghost p0 = *visitor;
        let id0 = A::enter_as_field(visitor, 0, NodeType::NonRecursive).1;
        let ghost e0 = *visitor;
        self.0.__autarkie_fields(visitor, 0);
        let ghost i0 = *visitor;
        visitor.pop_field();
        proof {
            assert(field_entered(p0, ((0, NodeType::NonRecursive), id0), A::spec_name(), e0));
            assert(field_left(i0, *visitor));
            assert(walked_in_field(self.0, 0, A::spec_name(), 0, None, p0, *visitor));
        }
        let ghost p1 = *visitor;
        let id1 = B::enter_as_field(visitor, 1, NodeType::NonRecursive).1;
        let ghost e1 = *visitor;
        self.1.__autarkie_fields(visitor, 0);
        let ghost i1 = *visitor;
        visitor.pop_field();
        proof {
            assert(field_entered(p1, ((1, NodeType::NonRecursive), id1), B::spec_name(), e1));
            assert(field_left(i1, *visitor));
            assert(walked_in_field(self.1, 1, B::spec_name(), 0, None, p1, *visitor));
        }
        let ghost p2 = *visitor;
        let id2 = C::enter_as_field(visitor, 2, NodeType::NonRecursive).1;
        let ghost e2 = *visitor;
        self.2.__autarkie_fields(visitor, 0);
        let ghost i2 = *visitor;
        visitor.pop_field();
        proof {
            assert(field_entered(p2, ((2, NodeType::NonRecursive), id2), C::spec_name(), e2));
            assert(field_left(i2, *visitor));
            assert(walked_in_field(self.2, 2, C::spec_name(), 0, None, p2, *visitor));
        }
    }

    /// Each element is walked in turn, inside a field at its position, as
    /// field 0 of it.
    open spec fn walk(&self, index: usize, compared: Option<(u64, u64)>, before: Visitor, after: Visitor) -> bool {
        exists|u0: Visitor, u1: Visitor|
            #![trigger walked_in_field(self.0, 0, A::spec_name(), 0, compared, before, u0), walked_in_field(self.1, 1, B::spec_name(), 0, compared, u0, u1), walked_in_field(self.2, 2, C::spec_name(), 0, compared, u1, after)]
            walked_in_field(self.0, 0, A::spec_name(), 0, compared, before, u0)
                && walked_in_field(self.1, 1, B::spec_name(), 0, compared, u0, u1)
                && walked_in_field(self.2, 2, C::spec_name(), 0, compared, u1, after)
    }

    /// The tuple registered, then under it each element type in turn, at
    /// variant 0 (its own registration, or one edge to it where it is being
    /// registered already).
    open spec fn registration(before: Visitor, parent: Option<Id>, variant: usize, after: Visitor) -> bool {
        exists|me: Id, v1: Visitor, w0: Visitor, w1: Visitor, w2: Visitor|
            #![trigger entered(before, parent, variant, Self::spec_name(), me, v1), child_registered::<A>(v1, Some(me), 0, w0), child_registered::<B>(w0, Some(me), 0, w1), child_registered::<C>(w1, Some(me), 0, w2), left(w2, after)]
            entered(before, parent, variant, Self::spec_name(), me, v1)
                && child_registered::<A>(v1, Some(me), 0, w0)
                && child_registered::<B>(w0, Some(me), 0, w1)
                && child_registered::<C>(w1, Some(me), 0, w2)
                && left(w2, after)
    }

    /// Registers the tuple type, then under it each element type (or only
    /// the edge to it, where it is being registered already).
    fn __autarkie_register(v: &mut Visitor, parent: Option<(Id, String)>, variant: usize)
        ensures
            final(v).ty_edges().len() > old(v).ty_edges().len(),
            final(v).ty_edges()[old(v).ty_edges().len() as int].2 == variant,
    {
        let ghost v0 = *v;
        let ghost start = v.ty_edges().len();
        let me = Self::register_self(v, parent, variant);
        let me_id = me.0;
        let me_name = me.1.clone();
        let ghost v1 = *v;
        let ghost first = v.ty_edges()[start as int];
        proof {
            assert(entered(v0, parent_id(parent), variant, Self::spec_name(), me_id, v1));
        }
        register_child::<A>(v, (me_id, me_name.clone()), 0);
        let ghost w0 = *v;
        proof {
            assert(w0.extends(&v1));
        }
        register_child::<B>(v, (me_id, me_name.clone()), 0);
        let ghost w1 = *v;
        proof {
            assert(w1.extends(&v1));
        }
        register_child::<C>(v, (me_id, me_name.clone()), 0);
        let ghost w2 = *v;
        proof {
            assert(w2.extends(&v1));
        }
        let ghost v3 = *v;
        v.pop_ty();
        proof {
            assert(left(v3, *v));
            assert(v3.extends(&v1));
            assert(v0.ty_edges().is_prefix_of(v1.ty_edges()));
            assert(v0.ty_names().is_prefix_of(v1.ty_names()));
            assert(v1.ty_edges().is_prefix_of(v3.ty_edges()));
            assert(v.ty_edges()[start as int] == first);
        }
    }

    /// Records the encoding of each element, then what it records.
    fn __autarkie_serialized(&self, visitor: &mut Visitor) {
        A::record_encoding(visitor, self.0.__autarkie_serialize());
        proof {
            if Self::walks_known() && (Self::is_lawful() || Self::encodes_exactly()) {
                assert(visitor.serialized_bytes() =~= old(visitor).serialized_bytes() + (seq![self.0.spec_serialize()]));
            }
            if Self::walks_known() {
                assert(visitor.serialized_types() =~= old(visitor).serialized_types() + (seq![A::spec_name()]));
            }
        }
        self.0.__autarkie_serialized(visitor);
        proof {
            if Self::walks_known() && (Self::is_lawful() || Self::encodes_exactly()) {
                assert(visitor.serialized_bytes() =~= old(visitor).serialized_bytes() + (seq![self.0.spec_serialize()] + self.0.serialized_records()));
            }
            if Self::walks_known() {
                assert(visitor.serialized_types() =~= old(visitor).serialized_types() + (seq![A::spec_name()] + self.0.serialized_record_types()));
            }
        }
        B::record_encoding(visitor, self.1.__autarkie_serialize());
        proof {
            if Self::walks_known() && (Self::is_lawful() || Self::encodes_exactly()) {
                assert(visitor.serialized_bytes() =~= old(visitor).serialized_bytes() + ((seq![self.0.spec_serialize()] + self.0.serialized_records()) + seq![self.1.spec_serialize()]));
            }
            if Self::walks_known() {
                assert(visitor.serialized_types() =~= old(visitor).serialized_types() + ((seq![A::spec_name()] + self.0.serialized_record_types()) + seq![B::spec_name()]));
            }
        }
        self.1.__autarkie_serialized(visitor);
        proof {
            if Self::walks_known() && (Self::is_lawful() || Self::encodes_exactly()) {
                assert(visitor.serialized_bytes() =~= old(visitor).serialized_bytes() + ((seq![self.0.spec_serialize()] + self.0.serialized_records()) + seq![self.1.spec_serialize()] + self.1.serialized_records()));
            }
            if Self::walks_known() {
                assert(visitor.serialized_types() =~= old(visitor).serialized_types() + ((seq![A::spec_name()] + self.0.serialized_record_types()) + seq![B::spec_name()] + self.1.serialized_record_types()));
            }
        }
        C::record_encoding(visitor, self.2.__autarkie_serialize());
        proof {
            if Self::walks_known() && (Self::is_lawful() || Self::encodes_exactly()) {
                assert(visitor.serialized_bytes() =~= old(visitor).serialized_bytes() + (((seq![self.0.spec_serialize()] + self.0.serialized_records()) + seq![self.1.spec_serialize()] + self.1.serialized_records()) + seq![self.2.spec_serialize()]));
            }
            if Self::walks_known() {
                assert(visitor.serialized_types() =~= old(visitor).serialized_types() + (((seq![A::spec_name()] + self.0.serialized_record_types()) + seq![B::spec_name()] + self.1.serialized_record_types()) + seq![C::spec_name()]));
            }
        }
        self.2.__autarkie_serialized(visitor);
        proof {
            if Self::walks_known() && (Self::is_lawful() || Self::encodes_exactly()) {
                assert(visitor.serialized_bytes() =~= old(visitor).serialized_bytes() + (((seq![self.0.spec_serialize()] + self.0.serialized_records()) + seq![self.1.spec_serialize()] + self.1.serialized_records()) + seq![self.2.spec_serialize()] + self.2.serialized_records()));
            }
            if Self::walks_known() {
                assert(visitor.serialized_types() =~= old(visitor).serialized_types() + (((seq![A::spec_name()] + self.0.serialized_record_types()) + seq![B::spec_name()] + self.1.serialized_record_types()) + seq![C::spec_name()] + self.2.serialized_record_types()));
            }
        }
    }

    /// Enters each element as a field, at its position, and records its
    /// comparison operands.
    fn __autarkie_cmps(&self, visitor: &mut Visitor, index: usize, __autarkie_val: (u64, u64)) {
        let ghost p0 = *visitor;
        let id0 = A::enter_as_field(visitor, 0, NodeType::NonRecursive).1;
        let ghost e0 = *visitor;
        self.0.__autarkie_cmps(visitor, 0, __autarkie_val);
        let ghost i0 = *visitor;
        visitor.pop_field();
        proof {
            assert(field_entered(p0, ((0, NodeType::NonRecursive), id0), A::spec_name(), e0));
            assert(field_left(i0, *visitor));
            assert(walked_in_field(self.0, 0, A::spec_name(), 0, Some(__autarkie_val), p0, *visitor));
            if Self::walks_known() {
                assert(visitor.operands() =~= old(visitor).operands() + (self.0.comparison_operands(__autarkie_val)));
            }
        }
        let ghost p1 = *visitor;
        let id1 = B::enter_as_field(visitor, 1, NodeType::NonRecursive).1;
        let ghost e1 = *visitor;
        self.1.__autarkie_cmps(visitor, 0, __autarkie_val);
        let ghost i1 = *visitor;
        visitor.pop_field();
        proof {
            assert(field_entered(p1, ((1, NodeType::NonRecursive), id1), B::spec_name(), e1));
            assert(field_left(i1, *visitor));
            assert(walked_in_field(self.1, 1, B::spec_name(), 0, Some(__autarkie_val), p1, *visitor));
            if Self::walks_known() {
                assert(visitor.operands() =~= old(visitor).operands() + ((self.0.comparison_operands(__autarkie_val)) + self.1.comparison_operands(__autarkie_val)));
            }
        }
        let ghost p2 = *visitor;
        let id2 = C::enter_as_field(visitor, 2, NodeType::NonRecursive).1;
        let ghost e2 = *visitor;
        self.2.__autarkie_cmps(visitor, 0, __autarkie_val);
        let ghost i2 = *visitor;
        visitor.pop_field();
        proof {
            assert(field_entered(p2, ((2, NodeType::NonRecursive), id2), C::spec_name(), e2));
            assert(field_left(i2, *visitor));
            assert(walked_in_field(self.2, 2, C::spec_name(), 0, Some(__autarkie_val), p2, *visitor));
            if Self::walks_known() {
                assert(visitor.operands() =~= old(visitor).operands() + (((self.0.comparison_operands(__autarkie_val)) + self.1.comparison_operands(__autarkie_val)) + self.2.comparison_operands(__autarkie_val)));
            }
        }
    }

    fn __autarkie_serialize(&self) -> (r: Vec<u8>) {
        let mut out = self.2.__autarkie_serialize();
        let mut front = self.1.__autarkie_serialize();
        front.append(&mut out);
        out = front;
        let mut front = self.0.__autarkie_serialize();
        front.append(&mut out);
        out = front;
        out
    }

    /// Reads the elements in turn.
    fn __autarkie_deserialize(data: &[u8], pos: usize) -> (r: Option<(Self, usize)>) {
        proof {
            assert(data@.skip(pos as int) =~= data@.skip(pos as int));
        }
        proof {
            if Self::is_lawful() {
            assert forall|x: Self| #[trigger] x.spec_serialize().is_prefix_of(data@.skip(pos as int)) implies {
                &&& x.0.spec_serialize().is_prefix_of(data@.skip(pos as int))
                &&& (x.1.spec_serialize() + (x.2.spec_serialize())).is_prefix_of(data@.skip(pos + x.0.spec_serialize().len()))
            } by {
                lemma_tag_then(x.0.spec_serialize(), x.1.spec_serialize() + (x.2.spec_serialize()), data@.skip(pos as int));
                assert(data@.skip(pos as int).skip(x.0.spec_serialize().len() as int) =~= data@.skip(pos + x.0.spec_serialize().len()));
            }
            }
        }
        let (v0, e0) = match A::__autarkie_deserialize(data, pos) {
            Some(r) => r,
            None => {
                proof {
                    if Self::is_lawful() {
                    assert forall|x: Self| !#[trigger] x.spec_serialize().is_prefix_of(data@.skip(pos as int)) by {
                        if x.spec_serialize().is_prefix_of(data@.skip(pos as int)) {
                            assert(x.0.spec_serialize().is_prefix_of(data@.skip(pos as int)));
                        }
                    }
                    }
                }
                return None;
            },
        };
        proof {
            if Self::is_lawful() {
            assert forall|x: Self| #[trigger] x.spec_serialize().is_prefix_of(data@.skip(pos as int)) implies
                (x.1.spec_serialize() + (x.2.spec_serialize())).is_prefix_of(data@.skip(e0 as int)) by {
                assert(x.0.spec_serialize().is_prefix_of(data@.skip(pos as int)));
            }
            }
        }
        proof {
            if Self::is_lawful() {
            assert forall|x: Self| #[trigger] x.spec_serialize().is_prefix_of(data@.skip(pos as int)) implies {
                &&& x.1.spec_serialize().is_prefix_of(data@.skip(e0 as int))
                &&& (x.2.spec_serialize()).is_prefix_of(data@.skip(e0 + x.1.spec_serialize().len()))
            } by {
                lemma_tag_then(x.1.spec_serialize(), x.2.spec_serialize(), data@.skip(e0 as int));
                assert(data@.skip(e0 as int).skip(x.1.spec_serialize().len() as int) =~= data@.skip(e0 + x.1.spec_serialize().len()));
            }
            }
        }
        let (v1, e1) = match B::__autarkie_deserialize(data, e0) {
            Some(r) => r,
            None => {
                proof {
                    if Self::is_lawful() {
                    assert forall|x: Self| !#[trigger] x.spec_serialize().is_prefix_of(data@.skip(pos as int)) by {
                        if x.spec_serialize().is_prefix_of(data@.skip(pos as int)) {
                            assert(x.1.spec_serialize().is_prefix_of(data@.skip(e0 as int)));
                        }
                    }
                    }
                }
                return None;
            },
        };
        proof {
            if Self::is_lawful() {
            assert forall|x: Self| #[trigger] x.spec_serialize().is_prefix_of(data@.skip(pos as int)) implies
                (x.2.spec_serialize()).is_prefix_of(data@.skip(e1 as int)) by {
                assert(x.1.spec_serialize().is_prefix_of(data@.skip(e0 as int)));
            }
            }
        }
        let (v2, e2) = match C::__autarkie_deserialize(data, e1) {
            Some(r) => r,
            None => {
                proof {
                    if Self::is_lawful() {
                    assert forall|x: Self| !#[trigger] x.spec_serialize().is_prefix_of(data@.skip(pos as int)) by {
                        if x.spec_serialize().is_prefix_of(data@.skip(pos as int)) {
                            assert(x.2.spec_serialize().is_prefix_of(data@.skip(e1 as int)));
                        }
                    }
                    }
                }
                return None;
            },
        };
        let r = (v0, v1, v2);
        proof {
            if Self::is_lawful() {
            assert forall|x: Self| #[trigger] x.spec_serialize().is_prefix_of(data@.skip(pos as int)) implies
                r.spec_serialize() == x.spec_serialize() && e2 == pos + x.spec_serialize().len() by {
                assert(x.0.spec_serialize().is_prefix_of(data@.skip(pos as int)));
                assert(v0.spec_serialize() == x.0.spec_serialize());
                assert(x.1.spec_serialize().is_prefix_of(data@.skip(e0 as int)));
                assert(v1.spec_serialize() == x.1.spec_serialize());
                assert(x.2.spec_serialize().is_prefix_of(data@.skip(e1 as int)));
                assert(v2.spec_serialize() == x.2.spec_serialize());
            }
            }
        }
        Some((r, e2))
    }

    fn __autarkie_id_name() -> (r: String) {
        let mut r = "(".to_owned();
        let n0 = A::__autarkie_id_name();
        r.append(n0.as_str());
        r.append(", ");
        let n1 = B::__autarkie_id_name();
        r.append(n1.as_str());
        r.append(", ");
        let n2 = C::__autarkie_id_name();
        r.append(n2.as_str());
        r.append(")");
        assert(r@ == Self::spec_name());
        r
    }
}

/// Whether generating the elements of `t` in turn, each with no settings,
/// from the visitor `before`, can give them and leave `after`.
pub open spec fn elements_4_generated<A: Node, B: Node, C: Node, D: Node>(before: Visitor, t: (A, B, C, D), after: Visitor) -> bool {
    exists|g0: Visitor, g1: Visitor, g2: Visitor|
            #![trigger A::generation(before, None, Some(t.0), g0), B::generation(g0, None, Some(t.1), g1), C::generation(g1, None, Some(t.2), g2), D::generation(g2, None, Some(t.3), after)]
            A::generation(before, None, Some(t.0), g0)
                && B::generation(g0, None, Some(t.1), g1)
                && C::generation(g1, None, Some(t.2), g2)
                && D::generation(g2, None, Some(t.3), after)
}

impl<A: Node, B: Node, C: Node, D: Node> Node for (A, B, C, D) {
    open spec fn spec_serialize(&self) -> Seq<u8> {
        self.0.spec_serialize() + (self.1.spec_serialize() + (self.2.spec_serialize() + (self.3.spec_serialize())))
    }

    open spec fn spec_name() -> Seq<char> {
        "("@ + A::spec_name() + ", "@ + B::spec_name() + ", "@ + C::spec_name() + ", "@ + D::spec_name() + ")"@
    }

    open spec fn is_lawful() -> bool {
        A::is_lawful() && B::is_lawful() && C::is_lawful() && D::is_lawful()
    }

    open spec fn read_ok(bytes: Seq<u8>) -> bool {
        Self::is_lawful() && exists|x: Self| #[trigger] x.spec_serialize().is_prefix_of(bytes)
    }

    /// For a lawful type, a value read encodes as the start of the bytes,
    /// as any value whose encoding starts them does.
    open spec fn reading(bytes: Seq<u8>, v: Self) -> bool {
        Self::is_lawful() ==> {
            &&& v.spec_serialize().is_prefix_of(bytes)
            &&& forall|x: Self| #[trigger] x.spec_serialize().is_prefix_of(bytes) ==> v.spec_serialize()
                == x.spec_serialize()
        }
    }

    open spec fn encodes_exactly() -> bool {
        A::encodes_exactly() && B::encodes_exactly() && C::encodes_exactly() && D::encodes_exactly()
    }

    open spec fn walks_known() -> bool {
        A::walks_known() && B::walks_known() && C::walks_known() && D::walks_known()
    }

    open spec fn node_shape(&self, shape: NodeType) -> bool {
        shape == NodeType::NonRecursive
    }

    /// A node with fixed fields.
    fn __autarkie_node_ty(&self, visitor: &Visitor) -> (r: NodeType) {
        NodeType::NonRecursive
    }

    /// Along a path, the element at its first index is mutated along the
    /// rest of it and the others are kept; at its end, the tuple is replaced.
    open spec fn mutation(&self, ty: &MutationType, path: Seq<usize>, before: Visitor, after: Self, after_v: Visitor) -> bool {
        if path.len() > 0 {
            if path[0] == 0 {
                after.1 == self.1 && after.2 == self.2 && after.3 == self.3 && self.0.mutation(ty, path.drop_first(), before, after.0, after_v)
            } else if path[0] == 1 {
                after.0 == self.0 && after.2 == self.2 && after.3 == self.3 && self.1.mutation(ty, path.drop_first(), before, after.1, after_v)
            } else if path[0] == 2 {
                after.0 == self.0 && after.1 == self.1 && after.3 == self.3 && self.2.mutation(ty, path.drop_first(), before, after.2, after_v)
            } else if path[0] == 3 {
                after.0 == self.0 && after.1 == self.1 && after.2 == self.2 && self.3.mutation(ty, path.drop_first(), before, after.3, after_v)
            } else {
                false
            }
        } else {
            match *ty {
                MutationType::Splice(b) => {
                    &&& after_v == before
                    &&& Self::is_lawful() ==> forall|x: Self| #[trigger] x.spec_serialize().is_prefix_of((**b)@)
                        ==> after.spec_serialize() == x.spec_serialize()
                },
                _ => {
                    ||| after == *self && Self::generation(before, None, None, after_v)
                    ||| exists|generated: Visitor| {
                        &&& #[trigger] Self::generation(before, None, Some(after), generated)
                        &&& after_v.keeps_state(&generated)
                        &&& after_v.fields() == generated.fields()
                        &&& after_v.operands() == generated.operands()
                        &&& after_v.serialized().len() > generated.serialized().len()
                        &&& after_v.serialized_types().len() > generated.serialized_types().len()
                        &&& after_v.serialized_types().last() == Self::spec_name()
                        &&& Self::encodes_exactly() ==> after_v.serialized().last().0 == after.spec_serialize()
                        &&& Self::walks_known() && Self::encodes_exactly() ==> after_v.serialized_bytes()
                            == generated.serialized_bytes() + after.serialized_records() + seq![after.spec_serialize()]
                    }
                },
            }
        }
    }

    open spec fn first_name_ok(name: Seq<char>) -> bool {
        false
    }

    open spec fn always_generates() -> bool {
        A::always_generates() && B::always_generates() && C::always_generates() && D::always_generates()
    }

    /// Each element is what generating its type in turn gives; generation
    /// gives up at the first element that could not be generated.
    open spec fn generation(before: Visitor, settings: Option<GenerateSettings>, r: Option<Self>, after: Visitor) -> bool {
        &&& after.draws_only(&before)
        &&& r matches Some(t) ==> elements_4_generated(before, t, after)
    }

    open spec fn field_count(&self) -> nat {
        (1 + self.0.field_count()) + (1 + self.1.field_count()) + (1 + self.2.field_count()) + (1 + self.3.field_count())
    }

    open spec fn comparison_operands(&self, __autarkie_val: (u64, u64)) -> Seq<Seq<u8>> {
        (((self.0.comparison_operands(__autarkie_val)) + self.1.comparison_operands(__autarkie_val)) + self.2.comparison_operands(__autarkie_val)) + self.3.comparison_operands(__autarkie_val)
    }

    open spec fn serialized_records(&self) -> Seq<Seq<u8>> {
        (((seq![self.0.spec_serialize()] + self.0.serialized_records()) + seq![self.1.spec_serialize()] + self.1.serialized_records()) + seq![self.2.spec_serialize()] + self.2.serialized_records()) + seq![self.3.spec_serialize()] + self.3.serialized_records()
    }

    open spec fn serialized_record_types(&self) -> Seq<Seq<char>> {
        (((seq![A::spec_name()] + self.0.serialized_record_types()) + seq![B::spec_name()] + self.1.serialized_record_types()) + seq![C::spec_name()] + self.2.serialized_record_types()) + seq![D::spec_name()] + self.3.serialized_record_types()
    }

    open spec fn generate_ok(settings: GenerateSettings, rng: u64) -> bool {
        true
    }

    open spec fn mutate_ok(&self, ty: &MutationType, path: Seq<usize>) -> bool {
        if path.len() > 0 {
            (path[0] == 0 && self.0.mutate_ok(ty, path.drop_first())) || (path[0] == 1 && self.1.mutate_ok(ty, path.drop_first())) || (path[0] == 2 && self.2.mutate_ok(ty, path.drop_first())) || (path[0] == 3 && self.3.mutate_ok(ty, path.drop_first()))
        } else {
            &&& (*ty is Splice || *ty is GenerateReplace)
            &&& (*ty matches MutationType::Splice(b) ==> (Self::is_lawful() ==> exists|x: Self| #[trigger] x.spec_serialize().is_prefix_of((**b)@)))
        }
    }

    /// Each element generated in turn; generation gives up where one of
    /// them does.
    fn __autarkie_generate(
        visitor: &mut Visitor,
        depth: &mut usize,
        cur_depth: usize,
        settings: Option<GenerateSettings>,
    ) -> (r: Option<Self>) {
        let ghost p0 = *visitor;
        let f0 = match A::__autarkie_generate(visitor, depth, cur_depth, None) {
            Some(x) => x,
            None => {
                return None;
            },
        };
        let ghost p1 = *visitor;
        let f1 = match B::__autarkie_generate(visitor, depth, cur_depth, None) {
            Some(x) => x,
            None => {
                return None;
            },
        };
        let ghost p2 = *visitor;
        let f2 = match C::__autarkie_generate(visitor, depth, cur_depth, None) {
            Some(x) => x,
            None => {
                return None;
            },
        };
        let ghost p3 = *visitor;
        let f3 = match D::__autarkie_generate(visitor, depth, cur_depth, None) {
            Some(x) => x,
            None => {
                return None;
            },
        };
        let ghost gt = (f0, f1, f2, f3);
        proof {
            assert(A::generation(p0, None, Some(gt.0), p1));
            assert(B::generation(p1, None, Some(gt.1), p2));
            assert(C::generation(p2, None, Some(gt.2), p3));
            assert(D::generation(p3, None, Some(gt.3), *visitor));
            assert(visitor.draws_only(&p0));
            assert(exists|g0: Visitor, g1: Visitor, g2: Visitor| A::generation(p0, None, Some(gt.0), g0) && B::generation(g0, None, Some(gt.1), g1) && C::generation(g1, None, Some(gt.2), g2) && D::generation(g2, None, Some(gt.3), *visitor));
            assert(elements_4_generated(p0, gt, *visitor));
        }
        Some((f0, f1, f2, f3))
    }

    /// Along the path, mutates the element at its first index; at its end,
    /// replaces the tuple by the one the spliced bytes encode, or by a
    /// generated one whose encodings are then recorded.
    fn __autarkie_mutate(
        &mut self,
        ty: &mut MutationType,
        visitor: &mut Visitor,
        path: VecDeque<usize>,
    ) {
        let mut path = path;
        match path.pop_front() {
            Some(popped) => {
                if popped == 0 {
                    self.0.__autarkie_mutate(ty, visitor, path);
                } else if popped == 1 {
                    self.1.__autarkie_mutate(ty, visitor, path);
                } else if popped == 2 {
                    self.2.__autarkie_mutate(ty, visitor, path);
                } else if popped == 3 {
                    self.3.__autarkie_mutate(ty, visitor, path);
                } else {
                    proof {
                        assert(false);
                    }
                }
            },
            None => {
                match ty {
                    MutationType::Splice(other) => {
                        let bytes: &[u8] = **other;
                        proof {
                            assert(bytes@.skip(0) =~= bytes@);
                        }
                        match Self::__autarkie_deserialize(bytes, 0) {
                            Some((v, end)) => {
                                proof {
                                    if Self::is_lawful() {
                                        assert(v.spec_serialize() =~= bytes@.subrange(0, v.spec_serialize().len() as int));
                                        assert(v.spec_serialize().is_prefix_of(bytes@));
                                    }
                                }
                                *self = v;
                            },
                            None => {},
                        }
                    },
                    MutationType::GenerateReplace(bias) => {
                        match Self::__autarkie_generate(visitor, bias, 0, None) {
                            Some(generated) => {
                                *self = generated;
                                let ghost g = *visitor;
                                self.__autarkie_serialized(visitor);
                                Self::record_encoding(visitor, self.__autarkie_serialize());
                                proof {
                                    assert(Self::generation(*old(visitor), None, Some(*self), g));
                                    if Self::walks_known() && Self::encodes_exactly() {
                                        assert(visitor.serialized_bytes() =~= g.serialized_bytes()
                                            + self.serialized_records() + seq![self.spec_serialize()]);
                                    }
                                }
                            },
                            None => {},
                        }
                    },
                    _ => {
                        proof {
                            assert(false);
                        }
                    },
                }
            },
        }
    }

    /// Enters each element as a field, at its position, and records its fields.
    fn __autarkie_fields(&self, visitor: &mut Visitor, index: usize) {
        let ghost p0 = *visitor;
        let id0 = A::enter_as_field(visitor, 0, NodeType::NonRecursive).1;
        let ghost e0 = *visitor;
        self.0.__autarkie_fields(visitor, 0);
        let ghost i0 = *visitor;
        visitor.pop_field();
        proof {
            assert(field_entered(p0, ((0, NodeType::NonRecursive), id0), A::spec_name(), e0));
            assert(field_left(i0, *visitor));
            assert(walked_in_field(self.0, 0, A::spec_name(), 0, None, p0, *visitor));
        }
        let ghost p1 = *visitor;
        let id1 = B::enter_as_field(visitor, 1, NodeType::NonRecursive).1;
        let ghost e1 = *visitor;
        self.1.__autarkie_fields(visitor, 0);
        let ghost i1 = *visitor;
        visitor.pop_field();
        proof {
            assert(field_entered(p1, ((1, NodeType::NonRecursive), id1), B::spec_name(), e1));
            assert(field_left(i1, *visitor));
            assert(walked_in_field(self.1, 1, B::spec_name(), 0, None, p1, *visitor));
        }
        let ghost p2 = *visitor;
        let id2 = C::enter_as_field(visitor, 2, NodeType::NonRecursive).1;
        let ghost e2 = *visitor;
        self.2.__autarkie_fields(visitor, 0);
        let ghost i2 = *visitor;
        visitor.pop_field();
        proof {
            assert(field_entered(p2, ((2, NodeType::NonRecursive), id2), C::spec_name(), e2));
            assert(field_left(i2, *visitor));
            assert(walked_in_field(self.2, 2, C::spec_name(), 0, None, p2, *visitor));
        }
        let ghost p3 = *visitor;
        let id3 = D::enter_as_field(visitor, 3, NodeType::NonRecursive).1;
        let ghost e3 = *visitor;
        self.3.__autarkie_fields(visitor, 0);
        let ghost i3 = *visitor;
        visitor.pop_field();
        proof {
            assert(field_entered(p3, ((3, NodeType::NonRecursive), id3), D::spec_name(), e3));
            assert(field_left(i3, *visitor));
            assert(walked_in_field(self.3, 3, D::spec_name(), 0, None, p3, *visitor));
        }
    }

    /// Each element is walked in turn, inside a field at its position, as
    /// field 0 of it.
    open spec fn walk(&self, index: usize, compared: Option<(u64, u64)>, before: Visitor, after: Visitor) -> bool {
        exists|u0: Visitor, u1: Visitor, u2: Visitor|
            #![trigger walked_in_field(self.0, 0, A::spec_name(), 0, compared, before, u0), walked_in_field(self.1, 1, B::spec_name(), 0, compared, u0, u1), walked_in_field(self.2, 2, C::spec_name(), 0, compared, u1, u2), walked_in_field(self.3, 3, D::spec_name(), 0, compared, u2, after)]
            walked_in_field(self.0, 0, A::spec_name(), 0, compared, before, u0)
                && walked_in_field(self.1, 1, B::spec_name(), 0, compared, u0, u1)
                && walked_in_field(self.2, 2, C::spec_name(), 0, compared, u1, u2)
                && walked_in_field(self.3, 3, D::spec_name(), 0, compared, u2, after)
    }

    /// The tuple registered, then under it each element type in turn, at
    /// variant 0 (its own registration, or one edge to it where it is being
    /// registered already).
    open spec fn registration(before: Visitor, parent: Option<Id>, variant: usize, after: Visitor) -> bool {
        exists|me: Id, v1: Visitor, w0: Visitor, w1: Visitor, w2: Visitor, w3: Visitor|
            #![trigger entered(before, parent, variant, Self::spec_name(), me, v1), child_registered::<A>(v1, Some(me), 0, w0), child_registered::<B>(w0, Some(me), 0, w1), child_registered::<C>(w1, Some(me), 0, w2), child_registered::<D>(w2, Some(me), 0, w3), left(w3, after)]
            entered(before, parent, variant, Self::spec_name(), me, v1)
                && child_registered::<A>(v1, Some(me), 0, w0)
                && child_registered::<B>(w0, Some(me), 0, w1)
                && child_registered::<C>(w1, Some(me), 0, w2)
                && child_registered::<D>(w2, Some(me), 0, w3)
                && left(w3, after)
    }

    /// Registers the tuple type, then under it each element type (or only
    /// the edge to it, where it is being registered already).
    fn __autarkie_register(v: &mut Visitor, parent: Option<(Id, String)>, variant: usize)
        ensures
            final(v).ty_edges().len() > old(v).ty_edges().len(),
            final(v).ty_edges()[old(v).ty_edges().len() as int].2 == variant,
    {
        let ghost v0 = *v;
        let ghost start = v.ty_edges().len();
        let me = Self::register_self(v, parent, variant);
        let me_id = me.0;
        let me_name = me.1.clone();
        let ghost v1 = *v;
        let ghost first = v.ty_edges()[start as int];
        proof {
            assert(entered(v0, parent_id(parent), variant, Self::spec_name(), me_id, v1));
        }
        register_child::<A>(v, (me_id, me_name.clone()), 0);
        let ghost w0 = *v;
        proof {
            assert(w0.extends(&v1));
        }
        register_child::<B>(v, (me_id, me_name.clone()), 0);
        let ghost w1 = *v;
        proof {
            assert(w1.extends(&v1));
        }
        register_child::<C>(v, (me_id, me_name.clone()), 0);
        let ghost w2 = *v;
        proof {
            assert(w2.extends(&v1));
        }
        register_child::<D>(v, (me_id, me_name.clone()), 0);
        let ghost w3 = *v;
        proof {
            assert(w3.extends(&v1));
        }
        let ghost v3 = *v;
        v.pop_ty();
        proof {
            assert(left(v3, *v));
            assert(v3.extends(&v1));
            assert(v0.ty_edges().is_prefix_of(v1.ty_edges()));
            assert(v0.ty_names().is_prefix_of(v1.ty_names()));
            assert(v1.ty_edges().is_prefix_of(v3.ty_edges()));
            assert(v.ty_edges()[start as int] == first);
        }
    }

    /// Records the encoding of each element, then what it records.
    fn __autarkie_serialized(&self, visitor: &mut Visitor) {
        A::record_encoding(visitor, self.0.__autarkie_serialize());
        proof {
            if Self::walks_known() && (Self::is_lawful() || Self::encodes_exactly()) {
                assert(visitor.serialized_bytes() =~= old(visitor).serialized_bytes() + (seq![self.0.spec_serialize()]));
            }
            if Self::walks_known() {
                assert(visitor.serialized_types() =~= old(visitor).serialized_types() + (seq![A::spec_name()]));
            }
        }
        self.0.__autarkie_serialized(visitor);
        proof {
            if Self::walks_known() && (Self::is_lawful() || Self::encodes_exactly()) {
                assert(visitor.serialized_bytes() =~= old(visitor).serialized_bytes() + (seq![self.0.spec_serialize()] + self.0.serialized_records()));
            }
            if Self::walks_known() {
                assert(visitor.serialized_types() =~= old(visitor).serialized_types() + (seq![A::spec_name()] + self.0.serialized_record_types()));
            }
        }
        B::record_encoding(visitor, self.1.__autarkie_serialize());
        proof {
            if Self::walks_known() && (Self::is_lawful() || Self::encodes_exactly()) {
                assert(visitor.serialized_bytes() =~= old(visitor).serialized_bytes() + ((seq![self.0.spec_serialize()] + self.0.serialized_records()) + seq![self.1.spec_serialize()]));
            }
            if Self::walks_known() {
                assert(visitor.serialized_types() =~= old(visitor).serialized_types() + ((seq![A::spec_name()] + self.0.serialized_record_types()) + seq![B::spec_name()]));
            }
        }
        self.1.__autarkie_serialized(visitor);
        proof {
            if Self::walks_known() && (Self::is_lawful() || Self::encodes_exactly()) {
                assert(visitor.serialized_bytes() =~= old(visitor).serialized_bytes() + ((seq![self.0.spec_serialize()] + self.0.serialized_records()) + seq![self.1.spec_serialize()] + self.1.serialized_records()));
            }
            if Self::walks_known() {
                assert(visitor.serialized_types() =~= old(visitor).serialized_types() + ((seq![A::spec_name()] + self.0.serialized_record_types()) + seq![B::spec_name()] + self.1.serialized_record_types()));
            }
        }
        C::record_encoding(visitor, self.2.__autarkie_serialize());
        proof {
            if Self::walks_known() && (Self::is_lawful() || Self::encodes_exactly()) {
                assert(visitor.serialized_bytes() =~= old(visitor).serialized_bytes() + (((seq![self.0.spec_serialize()] + self.0.serialized_records()) + seq![self.1.spec_serialize()] + self.1.serialized_records()) + seq![self.2.spec_serialize()]));
            }
            if Self::walks_known() {
                assert(visitor.serialized_types() =~= old(visitor).serialized_types() + (((seq![A::spec_name()] + self.0.serialized_record_types()) + seq![B::spec_name()] + self.1.serialized_record_types()) + seq![C::spec_name()]));
            }
        }
        self.2.__autarkie_serialized(visitor);
        proof {
            if Self::walks_known() && (Self::is_lawful() || Self::encodes_exactly()) {
                assert(visitor.serialized_bytes() =~= old(visitor).serialized_bytes() + (((seq![self.0.spec_serialize()] + self.0.serialized_records()) + seq![self.1.spec_serialize()] + self.1.serialized_records()) + seq![self.2.spec_serialize()] + self.2.serialized_records()));
            }
            if Self::walks_known() {
                assert(visitor.serialized_types() =~= old(visitor).serialized_types() + (((seq![A::spec_name()] + self.0.serialized_record_types()) + seq![B::spec_name()] + self.1.serialized_record_types()) + seq![C::spec_name()] + self.2.serialized_record_types()));
            }
        }
        D::record_encoding(visitor, self.3.__autarkie_serialize());
        proof {
            if Self::walks_known() && (Self::is_lawful() || Self::encodes_exactly()) {
                assert(visitor.serialized_bytes() =~= old(visitor).serialized_bytes() + ((((seq![self.0.spec_serialize()] + self.0.serialized_records()) + seq![self.1.spec_serialize()] + self.1.serialized_records()) + seq![self.2.spec_serialize()] + self.2.serialized_records()) + seq![self.3.spec_serialize()]));
            }
            if Self::walks_known() {
                assert(visitor.serialized_types() =~= old(visitor).serialized_types() + ((((seq![A::spec_name()] + self.0.serialized_record_types()) + seq![B::spec_name()] + self.1.serialized_record_types()) + seq![C::spec_name()] + self.2.serialized_record_types()) + seq![D::spec_name()]));
            }
        }
        self.3.__autarkie_serialized(visitor);
        proof {
            if Self::walks_known() && (Self::is_lawful() || Self::encodes_exactly()) {
                assert(visitor.serialized_bytes() =~= old(visitor).serialized_bytes() + ((((seq![self.0.spec_serialize()] + self.0.serialized_records()) + seq![self.1.spec_serialize()] + self.1.serialized_records()) + seq![self.2.spec_serialize()] + self.2.serialized_records()) + seq![self.3.spec_serialize()] + self.3.serialized_records()));
            }
            if Self::walks_known() {
                assert(visitor.serialized_types() =~= old(visitor).serialized_types() + ((((seq![A::spec_name()] + self.0.serialized_record_types()) + seq![B::spec_name()] + self.1.serialized_record_types()) + seq![C::spec_name()] + self.2.serialized_record_types()) + seq![D::spec_name()] + self.3.serialized_record_types()));
            }
        }
    }

    /// Enters each element as a field, at its position, and records its
    /// comparison operands.
    fn __autarkie_cmps(&self, visitor: &mut Visitor, index: usize, __autarkie_val: (u64, u64)) {
        let ghost p0 = *visitor;
        let id0 = A::enter_as_field(visitor, 0, NodeType::NonRecursive).1;
        let ghost e0 = *visitor;
        self.0.__autarkie_cmps(visitor, 0, __autarkie_val);
        let ghost i0 = *visitor;
        visitor.pop_field();
        proof {
            assert(field_entered(p0, ((0, NodeType::NonRecursive), id0), A::spec_name(), e0));
            assert(field_left(i0, *visitor));
            assert(walked_in_field(self.0, 0, A::spec_name(), 0, Some(__autarkie_val), p0, *visitor));
            if Self::walks_known() {
                assert(visitor.operands() =~= old(visitor).operands() + (self.0.comparison_operands(__autarkie_val)));
            }
        }
        let ghost p1 = *visitor;
        let id1 = B::enter_as_field(visitor, 1, NodeType::NonRecursive).1;
        let ghost e1 = *visitor;
        self.1.__autarkie_cmps(visitor, 0, __autarkie_val);
        let ghost i1 = *visitor;
        visitor.pop_field();
        proof {
            assert(field_entered(p1, ((1, NodeType::NonRecursive), id1), B::spec_name(), e1));
            assert(field_left(i1, *visitor));
            assert(walked_in_field(self.1, 1, B::spec_name(), 0, Some(__autarkie_val), p1, *visitor));
            if Self::walks_known() {
                assert(visitor.operands() =~= old(visitor).operands() + ((self.0.comparison_operands(__autarkie_val)) + self.1.comparison_operands(__autarkie_val)));
            }
        }
        let ghost p2 = *visitor;
        let id2 = C::enter_as_field(visitor, 2, NodeType::NonRecursive).1;
        let ghost e2 = *visitor;
        self.2.__autarkie_cmps(visitor, 0, __autarkie_val);
        let ghost i2 = *visitor;
        visitor.pop_field();
        proof {
            assert(field_entered(p2, ((2, NodeType::NonRecursive), id2), C::spec_name(), e2));
            assert(field_left(i2, *visitor));
            assert(walked_in_field(self.2, 2, C::spec_name(), 0, Some(__autarkie_val), p2, *visitor));
            if Self::walks_known() {
                assert(visitor.operands() =~= old(visitor).operands() + (((self.0.comparison_operands(__autarkie_val)) + self.1.comparison_operands(__autarkie_val)) + self.2.comparison_operands(__autarkie_val)));
            }
        }
        let ghost p3 = *visitor;
        let id3 = D::enter_as_field(visitor, 3, NodeType::NonRecursive).1;
        let ghost e3 = *visitor;
        self.3.__autarkie_cmps(visitor, 0, __autarkie_val);
        let ghost i3 = *visitor;
        visitor.pop_field();
        proof {
            assert(field_entered(p3, ((3, NodeType::NonRecursive), id3), D::spec_name(), e3));
            assert(field_left(i3, *visitor));
            assert(walked_in_field(self.3, 3, D::spec_name(), 0, Some(__autarkie_val), p3, *visitor));
            if Self::walks_known() {
                assert(visitor.operands() =~= old(visitor).operands() + ((((self.0.comparison_operands(__autarkie_val)) + self.1.comparison_operands(__autarkie_val)) + self.2.comparison_operands(__autarkie_val)) + self.3.comparison_operands(__autarkie_val)));
            }
        }
    }

    fn __autarkie_serialize(&self) -> (r: Vec<u8>) {
        let mut out = self.3.__autarkie_serialize();
        let mut front = self.2.__autarkie_serialize();
        front.append(&mut out);
        out = front;
        let mut front = self.1.__autarkie_serialize();
        front.append(&mut out);
        out = front;
        let mut front = self.0.__autarkie_serialize();
        front.append(&mut out);
        out = front;
        out
    }

    /// Reads the elements in turn.
    fn __autarkie_deserialize(data: &[u8], pos: usize) -> (r: Option<(Self, usize)>) {
        proof {
            assert(data@.skip(pos as int) =~= data@.skip(pos as int));
        }
        proof {
            if Self::is_lawful() {
            assert forall|x: Self| #[trigger] x.spec_serialize().is_prefix_of(data@.skip(pos as int)) implies {
                &&& x.0.spec_serialize().is_prefix_of(data@.skip(pos as int))
                &&& (x.1.spec_serialize() + (x.2.spec_serialize() + (x.3.spec_serialize()))).is_prefix_of(data@.skip(pos + x.0.spec_serialize().len()))
            } by {
                lemma_tag_then(x.0.spec_serialize(), x.1.spec_serialize() + (x.2.spec_serialize() + (x.3.spec_serialize())), data@.skip(pos as int));
                assert(data@.skip(pos as int).skip(x.0.spec_serialize().len() as int) =~= data@.skip(pos + x.0.spec_serialize().len()));
            }
            }
        }
        let (v0, e0) = match A::__autarkie_deserialize(data, pos) {
            Some(r) => r,
            None => {
                proof {
                    if Self::is_lawful() {
                    assert forall|x: Self| !#[trigger] x.spec_serialize().is_prefix_of(data@.skip(pos as int)) by {
                        if x.spec_serialize().is_prefix_of(data@.skip(pos as int)) {
                            assert(x.0.spec_serialize().is_prefix_of(data@.skip(pos as int)));
                        }
                    }
                    }
                }
                return None;
            },
        };
        proof {
            if Self::is_lawful() {
            assert forall|x: Self| #[trigger] x.spec_serialize().is_prefix_of(data@.skip(pos as int)) implies
                (x.1.spec_serialize() + (x.2.spec_serialize() + (x.3.spec_serialize()))).is_prefix_of(data@.skip(e0 as int)) by {
                assert(x.0.spec_serialize().is_prefix_of(data@.skip(pos as int)));
            }
            }
        }
        proof {
            if Self::is_lawful() {
            assert forall|x: Self| #[trigger] x.spec_serialize().is_prefix_of(data@.skip(pos as int)) implies {
                &&& x.1.spec_serialize().is_prefix_of(data@.skip(e0 as int))
                &&& (x.2.spec_serialize() + (x.3.spec_serialize())).is_prefix_of(data@.skip(e0 + x.1.spec_serialize().len()))
            } by {
                lemma_tag_then(x.1.spec_serialize(), x.2.spec_serialize() + (x.3.spec_serialize()), data@.skip(e0 as int));
                assert(data@.skip(e0 as int).skip(x.1.spec_serialize().len() as int) =~= data@.skip(e0 + x.1.spec_serialize().len()));
            }
            }
        }
        let (v1, e1) = match B::__autarkie_deserialize(data, e0) {
            Some(r) => r,
            None => {
                proof {
                    if Self::is_lawful() {
                    assert forall|x: Self| !#[trigger] x.spec_serialize().is_prefix_of(data@.skip(pos as int)) by {
                        if x.spec_serialize().is_prefix_of(data@.skip(pos as int)) {
                            assert(x.1.spec_serialize().is_prefix_of(data@.skip(e0 as int)));
                        }
                    }
                    }
                }
                return None;
            },
        };
        proof {
            if Self::is_lawful() {
            assert forall|x: Self| #[trigger] x.spec_serialize().is_prefix_of(data@.skip(pos as int)) implies
                (x.2.spec_serialize() + (x.3.spec_serialize())).is_prefix_of(data@.skip(e1 as int)) by {
                assert(x.1.spec_serialize().is_prefix_of(data@.skip(e0 as int)));
            }
            }
        }
        proof {
            if Self::is_lawful() {
            assert forall|x: Self| #[trigger] x.spec_serialize().is_prefix_of(data@.skip(pos as int)) implies {
                &&& x.2.spec_serialize().is_prefix_of(data@.skip(e1 as int))
                &&& (x.3.spec_serialize()).is_prefix_of(data@.skip(e1 + x.2.spec_serialize().len()))
            } by {
                lemma_tag_then(x.2.spec_serialize(), x.3.spec_serialize(), data@.skip(e1 as int));
                assert(data@.skip(e1 as int).skip(x.2.spec_serialize().len() as int) =~= data@.skip(e1 + x.2.spec_serialize().len()));
            }
            }
        }
        let (v2, e2) = match C::__autarkie_deserialize(data, e1) {
            Some(r) => r,
            None => {
                proof {
                    if Self::is_lawful() {
                    assert forall|x: Self| !#[trigger] x.spec_serialize().is_prefix_of(data@.skip(pos as int)) by {
                        if x.spec_serialize().is_prefix_of(data@.skip(pos as int)) {
                            assert(x.2.spec_serialize().is_prefix_of(data@.skip(e1 as int)));
                        }
                    }
                    }
                }
                return None;
            },
        };
        proof {
            if Self::is_lawful() {
            assert forall|x: Self| #[trigger] x.spec_serialize().is_prefix_of(data@.skip(pos as int)) implies
                (x.3.spec_serialize()).is_prefix_of(data@.skip(e2 as int)) by {
                assert(x.2.spec_serialize().is_prefix_of(data@.skip(e1 as int)));
            }
            }
        }
        let (v3, e3) = match D::__autarkie_deserialize(data, e2) {
            Some(r) => r,
            None => {
                proof {
                    if Self::is_lawful() {
                    assert forall|x: Self| !#[trigger] x.spec_serialize().is_prefix_of(data@.skip(pos as int)) by {
                        if x.spec_serialize().is_prefix_of(data@.skip(pos as int)) {
                            assert(x.3.spec_serialize().is_prefix_of(data@.skip(e2 as int)));
                        }
                    }
                    }
                }
                return None;
            },
        };
        let r = (v0, v1, v2, v3);
        proof {
            if Self::is_lawful() {
            assert forall|x: Self| #[trigger] x.spec_serialize().is_prefix_of(data@.skip(pos as int)) implies
                r.spec_serialize() == x.spec_serialize() && e3 == pos + x.spec_serialize().len() by {
                assert(x.0.spec_serialize().is_prefix_of(data@.skip(pos as int)));
                assert(v0.spec_serialize() == x.0.spec_serialize());
                assert(x.1.spec_serialize().is_prefix_of(data@.skip(e0 as int)));
                assert(v1.spec_serialize() == x.1.spec_serialize());
                assert(x.2.spec_serialize().is_prefix_of(data@.skip(e1 as int)));
                assert(v2.spec_serialize() == x.2.spec_serialize());
                assert(x.3.spec_serialize().is_prefix_of(data@.skip(e2 as int)));
                assert(v3.spec_serialize() == x.3.spec_serialize());
            }
            }
        }
        Some((r, e3))
    }

    fn __autarkie_id_name() -> (r: String) {
        let mut r = "(".to_owned();
        let n0 = A::__autarkie_id_name();
        r.append(n0.as_str());
        r.append(", ");
        let n1 = B::__autarkie_id_name();
        r.append(n1.as_str());
        r.append(", ");
        let n2 = C::__autarkie_id_name();
        r.append(n2.as_str());
        r.append(", ");
        let n3 = D::__autarkie_id_name();
        r.append(n3.as_str());
        r.append(")");
        assert(r@ == Self::spec_name());
        r
    }
}

/// Whether generating the elements of `t` in turn, each with no settings,
/// from the visitor `before`, can give them and leave `after`.
pub open spec fn elements_5_generated<A: Node, B: Node, C: Node, D: Node, E: Node>(before: Visitor, t: (A, B, C, D, E), after: Visitor) -> bool {
    exists|g0: Visitor, g1: Visitor, g2: Visitor, g3: Visitor|
            #![trigger A::generation(before, None, Some(t.0), g0), B::generation(g0, None, Some(t.1), g1), C::generation(g1, None, Some(t.2), g2), D::generation(g2, None, Some(t.3), g3), E::generation(g3, None, Some(t.4), after)]
            A::generation(before, None, Some(t.0), g0)
                && B::generation(g0, None, Some(t.1), g1)
                && C::generation(g1, None, Some(t.2), g2)
                && D::generation(g2, None, Some(t.3), g3)
                && E::generation(g3, None, Some(t.4), after)
}

impl<A: Node, B: Node, C: Node, D: Node, E: Node> Node for (A, B, C, D, E) {
    open spec fn spec_serialize(&self) -> Seq<u8> {
        self.0.spec_serialize() + (self.1.spec_serialize() + (self.2.spec_serialize() + (self.3.spec_serialize() + (self.4.spec_serialize()))))
    }

    open spec fn spec_name() -> Seq<char> {
        "("@ + A::spec_name() + ", "@ + B::spec_name() + ", "@ + C::spec_name() + ", "@ + D::spec_name() + ", "@ + E::spec_name() + ")"@
    }

    open spec fn is_lawful() -> bool {
        A::is_lawful() && B::is_lawful() && C::is_lawful() && D::is_lawful() && E::is_lawful()
    }

    open spec fn read_ok(bytes: Seq<u8>) -> bool {
        Self::is_lawful() && exists|x: Self| #[trigger] x.spec_serialize().is_prefix_of(bytes)
    }

    /// For a lawful type, a value read encodes as the start of the bytes,
    /// as any value whose encoding starts them does.
    open spec fn reading(bytes: Seq<u8>, v: Self) -> bool {
        Self::is_lawful() ==> {
            &&& v.spec_serialize().is_prefix_of(bytes)
            &&& forall|x: Self| #[trigger] x.spec_serialize().is_prefix_of(bytes) ==> v.spec_serialize()
                == x.spec_serialize()
        }
    }

    open spec fn encodes_exactly() -> bool {
        A::encodes_exactly() && B::encodes_exactly() && C::encodes_exactly() && D::encodes_exactly() && E::encodes_exactly()
    }

    open spec fn walks_known() -> bool {
        A::walks_known() && B::walks_known() && C::walks_known() && D::walks_known() && E::walks_known()
    }

    open spec fn node_shape(&self, shape: NodeType) -> bool {
        shape == NodeType::NonRecursive
    }

    /// A node with fixed fields.
    fn __autarkie_node_ty(&self, visitor: &Visitor) -> (r: NodeType) {
        NodeType::NonRecursive
    }

    /// Along a path, the element at its first index is mutated along the
    /// rest of it and the others are kept; at its end, the tuple is replaced.
    open spec fn mutation(&self, ty: &MutationType, path: Seq<usize>, before: Visitor, after: Self, after_v: Visitor) -> bool {
        if path.len() > 0 {
            if path[0] == 0 {
                after.1 == self.1 && after.2 == self.2 && after.3 == self.3 && after.4 == self.4 && self.0.mutation(ty, path.drop_first(), before, after.0, after_v)
            } else if path[0] == 1 {
                after.0 == self.0 && after.2 == self.2 && after.3 == self.3 && after.4 == self.4 && self.1.mutation(ty, path.drop_first(), before, after.1, after_v)
            } else if path[0] == 2 {
                after.0 == self.0 && after.1 == self.1 && after.3 == self.3 && after.4 == self.4 && self.2.mutation(ty, path.drop_first(), before, after.2, after_v)
            } else if path[0] == 3 {
                after.0 == self.0 && after.1 == self.1 && after.2 == self.2 && after.4 == self.4 && self.3.mutation(ty, path.drop_first(), before, after.3, after_v)
            } else if path[0] == 4 {
                after.0 == self.0 && after.1 == self.1 && after.2 == self.2 && after.3 == self.3 && self.4.mutation(ty, path.drop_first(), before, after.4, after_v)
            } else {
                false
            }
        } else {
            match *ty {
                MutationType::Splice(b) => {
                    &&& after_v == before
                    &&& Self::is_lawful() ==> forall|x: Self| #[trigger] x.spec_serialize().is_prefix_of((**b)@)
                        ==> after.spec_serialize() == x.spec_serialize()
                },
                _ => {
                    ||| after == *self && Self::generation(before, None, None, after_v)
                    ||| exists|generated: Visitor| {
                        &&& #[trigger] Self::generation(before, None, Some(after), generated)
                        &&& after_v.keeps_state(&generated)
                        &&& after_v.fields() == generated.fields()
                        &&& after_v.operands() == generated.operands()
                        &&& after_v.serialized().len() > generated.serialized().len()
                        &&& after_v.serialized_types().len() > generated.serialized_types().len()
                        &&& after_v.serialized_types().last() == Self::spec_name()
                        &&& Self::encodes_exactly() ==> after_v.serialized().last().0 == after.spec_serialize()
                        &&& Self::walks_known() && Self::encodes_exactly() ==> after_v.serialized_bytes()
                            == generated.serialized_bytes() + after.serialized_records() + seq![after.spec_serialize()]
                    }
                },
            }
        }
    }

    open spec fn first_name_ok(name: Seq<char>) -> bool {
        false
    }

    open spec fn always_generates() -> bool {
        A::always_generates() && B::always_generates() && C::always_generates() && D::always_generates() && E::always_generates()
    }

    /// Each element is what generating its type in turn gives; generation
    /// gives up at the first element that could not be generated.
    open spec fn generation(before: Visitor, settings: Option<GenerateSettings>, r: Option<Self>, after: Visitor) -> bool {
        &&& after.draws_only(&before)
        &&& r matches Some(t) ==> elements_5_generated(before, t, after)
    }

    open spec fn field_count(&self) -> nat {
        (1 + self.0.field_count()) + (1 + self.1.field_count()) + (1 + self.2.field_count()) + (1 + self.3.field_count()) + (1 + self.4.field_count())
    }

    open spec fn comparison_operands(&self, __autarkie_val: (u64, u64)) -> Seq<Seq<u8>> {
        ((((self.0.comparison_operands(__autarkie_val)) + self.1.comparison_operands(__autarkie_val)) + self.2.comparison_operands(__autarkie_val)) + self.3.comparison_operands(__autarkie_val)) + self.4.comparison_operands(__autarkie_val)
    }

    open spec fn serialized_records(&self) -> Seq<Seq<u8>> {
        ((((seq![self.0.spec_serialize()] + self.0.serialized_records()) + seq![self.1.spec_serialize()] + self.1.serialized_records()) + seq![self.2.spec_serialize()] + self.2.serialized_records()) + seq![self.3.spec_serialize()] + self.3.serialized_records()) + seq![self.4.spec_serialize()] + self.4.serialized_records()
    }

    open spec fn serialized_record_types(&self) -> Seq<Seq<char>> {
        ((((seq![A::spec_name()] + self.0.serialized_record_types()) + seq![B::spec_name()] + self.1.serialized_record_types()) + seq![C::spec_name()] + self.2.serialized_record_types()) + seq![D::spec_name()] + self.3.serialized_record_types()) + seq![E::spec_name()] + self.4.serialized_record_types()
    }

    open spec fn generate_ok(settings: GenerateSettings, rng: u64) -> bool {
        true
    }

    open spec fn mutate_ok(&self, ty: &MutationType, path: Seq<usize>) -> bool {
        if path.len() > 0 {
            (path[0] == 0 && self.0.mutate_ok(ty, path.drop_first())) || (path[0] == 1 && self.1.mutate_ok(ty, path.drop_first())) || (path[0] == 2 && self.2.mutate_ok(ty, path.drop_first())) || (path[0] == 3 && self.3.mutate_ok(ty, path.drop_first())) || (path[0] == 4 && self.4.mutate_ok(ty, path.drop_first()))
        } else {
            &&& (*ty is Splice || *ty is GenerateReplace)
            &&& (*ty matches MutationType::Splice(b) ==> (Self::is_lawful() ==> exists|x: Self| #[trigger] x.spec_serialize().is_prefix_of((**b)@)))
        }
    }

    /// Each element generated in turn; generation gives up where one of
    /// them does.
    fn __autarkie_generate(
        visitor: &mut Visitor,
        depth: &mut usize,
        cur_depth: usize,
        settings: Option<GenerateSettings>,
    ) -> (r: Option<Self>) {
        let ghost p0 = *visitor;
        let f0 = match A::__autarkie_generate(visitor, depth, cur_depth, None) {
            Some(x) => x,
            None => {
                return None;
            },
        };
        let ghost p1 = *visitor;
        let f1 = match B::__autarkie_generate(visitor, depth, cur_depth, None) {
            Some(x) => x,
            None => {
                return None;
            },
        };
        let ghost p2 = *visitor;
        let f2 = match C::__autarkie_generate(visitor, depth, cur_depth, None) {
            Some(x) => x,
            None => {
                return None;
            },
        };
        let ghost p3 = *visitor;
        let f3 = match D::__autarkie_generate(visitor, depth, cur_depth, None) {
            Some(x) => x,
            None => {
                return None;
            },
        };
        let ghost p4 = *visitor;
        let f4 = match E::__autarkie_generate(visitor, depth, cur_depth, None) {
            Some(x) => x,
            None => {
                return None;
            },
        };
        let ghost gt = (f0, f1, f2, f3, f4);
        proof {
            assert(A::generation(p0, None, Some(gt.0), p1));
            assert(B::generation(p1, None, Some(gt.1), p2));
            assert(C::generation(p2, None, Some(gt.2), p3));
            assert(D::generation(p3, None, Some(gt.3), p4));
            assert(E::generation(p4, None, Some(gt.4), *visitor));
            assert(visitor.draws_only(&p0));
            assert(exists|g0: Visitor, g1: Visitor, g2: Visitor, g3: Visitor| A::generation(p0, None, Some(gt.0), g0) && B::generation(g0, None, Some(gt.1), g1) && C::generation(g1, None, Some(gt.2), g2) && D::generation(g2, None, Some(gt.3), g3) && E::generation(g3, None, Some(gt.4), *visitor));
            assert(elements_5_generated(p0, gt, *visitor));
        }
        Some((f0, f1, f2, f3, f4))
    }

    /// Along the path, mutates the element at its first index; at its end,
    /// replaces the tuple by the one the spliced bytes encode, or by a
    /// generated one whose encodings are then recorded.
    fn __autarkie_mutate(
        &mut self,
        ty: &mut MutationType,
        visitor: &mut Visitor,
        path: VecDeque<usize>,
    ) {
        let mut path = path;
        match path.pop_front() {
            Some(popped) => {
                if popped == 0 {
                    self.0.__autarkie_mutate(ty, visitor, path);
                } else if popped == 1 {
                    self.1.__autarkie_mutate(ty, visitor, path);
                } else if popped == 2 {
                    self.2.__autarkie_mutate(ty, visitor, path);
                } else if popped == 3 {
                    self.3.__autarkie_mutate(ty, visitor, path);
                } else if popped == 4 {
                    self.4.__autarkie_mutate(ty, visitor, path);
                } else {
                    proof {
                        assert(false);
                    }
                }
            },
            None => {
                match ty {
                    MutationType::Splice(other) => {
                        let bytes: &[u8] = **other;
                        proof {
                            assert(bytes@.skip(0) =~= bytes@);
                        }
                        match Self::__autarkie_deserialize(bytes, 0) {
                            Some((v, end)) => {
                                proof {
                                    if Self::is_lawful() {
                                        assert(v.spec_serialize() =~= bytes@.subrange(0, v.spec_serialize().len() as int));
                                        assert(v.spec_serialize().is_prefix_of(bytes@));
                                    }
                                }
                                *self = v;
                            },
                            None => {},
                        }
                    },
                    MutationType::GenerateReplace(bias) => {
                        match Self::__autarkie_generate(visitor, bias, 0, None) {
                            Some(generated) => {
                                *self = generated;
                                let ghost g = *visitor;
                                self.__autarkie_serialized(visitor);
                                Self::record_encoding(visitor, self.__autarkie_serialize());
                                proof {
                                    assert(Self::generation(*old(visitor), None, Some(*self), g));
                                    if Self::walks_known() && Self::encodes_exactly() {
                                        assert(visitor.serialized_bytes() =~= g.serialized_bytes()
                                            + self.serialized_records() + seq![self.spec_serialize()]);
                                    }
                                }
                            },
                            None => {},
                        }
                    },
                    _ => {
                        proof {
                            assert(false);
                        }
                    },
                }
            },
        }
    }

    /// Enters each element as a field, at its position, and records its fields.
    fn __autarkie_fields(&self, visitor: &mut Visitor, index: usize) {
        let ghost p0 = *visitor;
        let id0 = A::enter_as_field(visitor, 0, NodeType::NonRecursive).1;
        let ghost e0 = *visitor;
        self.0.__autarkie_fields(visitor, 0);
        let ghost i0 = *visitor;
        visitor.pop_field();
        proof {
            assert(field_entered(p0, ((0, NodeType::NonRecursive), id0), A::spec_name(), e0));
            assert(field_left(i0, *visitor));
            assert(walked_in_field(self.0, 0, A::spec_name(), 0, None, p0, *visitor));
        }
        let ghost p1 = *visitor;
        let id1 = B::enter_as_field(visitor, 1, NodeType::NonRecursive).1;
        let ghost e1 = *visitor;
        self.1.__autarkie_fields(visitor, 0);
        let ghost i1 = *visitor;
        visitor.pop_field();
        proof {
            assert(field_entered(p1, ((1, NodeType::NonRecursive), id1), B::spec_name(), e1));
            assert(field_left(i1, *visitor));
            assert(walked_in_field(self.1, 1, B::spec_name(), 0, None, p1, *visitor));
        }
        let ghost p2 = *visitor;
        let id2 = C::enter_as_field(visitor, 2, NodeType::NonRecursive).1;
        let ghost e2 = *visitor;
        self.2.__autarkie_fields(visitor, 0);
        let ghost i2 = *visitor;
        visitor.pop_field();
        proof {
            assert(field_entered(p2, ((2, NodeType::NonRecursive), id2), C::spec_name(), e2));
            assert(field_left(i2, *visitor));
            assert(walked_in_field(self.2, 2, C::spec_name(), 0, None, p2, *visitor));
        }
        let ghost p3 = *visitor;
        let id3 = D::enter_as_field(visitor, 3, NodeType::NonRecursive).1;
        let ghost e3 = *visitor;
        self.3.__autarkie_fields(visitor, 0);
        let ghost i3 = *visitor;
        visitor.pop_field();
        proof {
            assert(field_entered(p3, ((3, NodeType::NonRecursive), id3), D::spec_name(), e3));
            assert(field_left(i3, *visitor));
            assert(walked_in_field(self.3, 3, D::spec_name(), 0, None, p3, *visitor));
        }
        let ghost p4 = *visitor;
        let id4 = E::enter_as_field(visitor, 4, NodeType::NonRecursive).1;
        let ghost e4 = *visitor;
        self.4.__autarkie_fields(visitor, 0);
        let ghost i4 = *visitor;
        visitor.pop_field();
        proof {
            assert(field_entered(p4, ((4, NodeType::NonRecursive), id4), E::spec_name(), e4));
            assert(field_left(i4, *visitor));
            assert(walked_in_field(self.4, 4, E::spec_name(), 0, None, p4, *visitor));
        }
    }

    /// Each element is walked in turn, inside a field at its position, as
    /// field 0 of it.
    open spec fn walk(&self, index: usize, compared: Option<(u64, u64)>, before: Visitor, after: Visitor) -> bool {
        exists|u0: Visitor, u1: Visitor, u2: Visitor, u3: Visitor|
            #![trigger walked_in_field(self.0, 0, A::spec_name(), 0, compared, before, u0), walked_in_field(self.1, 1, B::spec_name(), 0, compared, u0, u1), walked_in_field(self.2, 2, C::spec_name(), 0, compared, u1, u2), walked_in_field(self.3, 3, D::spec_name(), 0, compared, u2, u3), walked_in_field(self.4, 4, E::spec_name(), 0, compared, u3, after)]
            walked_in_field(self.0, 0, A::spec_name(), 0, compared, before, u0)
                && walked_in_field(self.1, 1, B::spec_name(), 0, compared, u0, u1)
                && walked_in_field(self.2, 2, C::spec_name(), 0, compared, u1, u2)
                && walked_in_field(self.3, 3, D::spec_name(), 0, compared, u2, u3)
                && walked_in_field(self.4, 4, E::spec_name(), 0, compared, u3, after)
    }

    /// The tuple registered, then under it each element type in turn, at
    /// variant 0 (its own registration, or one edge to it where it is being
    /// registered already).
    open spec fn registration(before: Visitor, parent: Option<Id>, variant: usize, after: Visitor) -> bool {
        exists|me: Id, v1: Visitor, w0: Visitor, w1: Visitor, w2: Visitor, w3: Visitor, w4: Visitor|
            #![trigger entered(before, parent, variant, Self::spec_name(), me, v1), child_registered::<A>(v1, Some(me), 0, w0), child_registered::<B>(w0, Some(me), 0, w1), child_registered::<C>(w1, Some(me), 0, w2), child_registered::<D>(w2, Some(me), 0, w3), child_registered::<E>(w3, Some(me), 0, w4), left(w4, after)]
            entered(before, parent, variant, Self::spec_name(), me, v1)
                && child_registered::<A>(v1, Some(me), 0, w0)
                && child_registered::<B>(w0, Some(me), 0, w1)
                && child_registered::<C>(w1, Some(me), 0, w2)
                && child_registered::<D>(w2, Some(me), 0, w3)
                && child_registered::<E>(w3, Some(me), 0, w4)
                && left(w4, after)
    }

    /// Registers the tuple type, then under it each element type (or only
    /// the edge to it, where it is being registered already).
    fn __autarkie_register(v: &mut Visitor, parent: Option<(Id, String)>, variant: usize)
        ensures
            final(v).ty_edges().len() > old(v).ty_edges().len(),
            final(v).ty_edges()[old(v).ty_edges().len() as int].2 == variant,
    {
        let ghost v0 = *v;
        let ghost start = v.ty_edges().len();
        let me = Self::register_self(v, parent, variant);
        let me_id = me.0;
        let me_name = me.1.clone();
        let ghost v1 = *v;
        let ghost first = v.ty_edges()[start as int];
        proof {
            assert(entered(v0, parent_id(parent), variant, Self::spec_name(), me_id, v1));
        }
        register_child::<A>(v, (me_id, me_name.clone()), 0);
        let ghost w0 = *v;
        proof {
            assert(w0.extends(&v1));
        }
        register_child::<B>(v, (me_id, me_name.clone()), 0);
        let ghost w1 = *v;
        proof {
            assert(w1.extends(&v1));
        }
        register_child::<C>(v, (me_id, me_name.clone()), 0);
        let ghost w2 = *v;
        proof {
            assert(w2.extends(&v1));
        }
        register_child::<D>(v, (me_id, me_name.clone()), 0);
        let ghost w3 = *v;
        proof {
            assert(w3.extends(&v1));
        }
        register_child::<E>(v, (me_id, me_name.clone()), 0);
        let ghost w4 = *v;
        proof {
            assert(w4.extends(&v1));
        }
        let ghost v3 = *v;
        v.pop_ty();
        proof {
            assert(left(v3, *v));
            assert(v3.extends(&v1));
            assert(v0.ty_edges().is_prefix_of(v1.ty_edges()));
            assert(v0.ty_names().is_prefix_of(v1.ty_names()));
            assert(v1.ty_edges().is_prefix_of(v3.ty_edges()));
            assert(v.ty_edges()[start as int] == first);
        }
    }

    /// Records the encoding of each element, then what it records.
    fn __autarkie_serialized(&self, visitor: &mut Visitor) {
        A::record_encoding(visitor, self.0.__autarkie_serialize());
        proof {
            if Self::walks_known() && (Self::is_lawful() || Self::encodes_exactly()) {
                assert(visitor.serialized_bytes() =~= old(visitor).serialized_bytes() + (seq![self.0.spec_serialize()]));
            }
            if Self::walks_known() {
                assert(visitor.serialized_types() =~= old(visitor).serialized_types() + (seq![A::spec_name()]));
            }
        }
        self.0.__autarkie_serialized(visitor);
        proof {
            if Self::walks_known() && (Self::is_lawful() || Self::encodes_exactly()) {
                assert(visitor.serialized_bytes() =~= old(visitor).serialized_bytes() + (seq![self.0.spec_serialize()] + self.0.serialized_records()));
            }
            if Self::walks_known() {
                assert(visitor.serialized_types() =~= old(visitor).serialized_types() + (seq![A::spec_name()] + self.0.serialized_record_types()));
            }
        }
        B::record_encoding(visitor, self.1.__autarkie_serialize());
        proof {
            if Self::walks_known() && (Self::is_lawful() || Self::encodes_exactly()) {
                assert(visitor.serialized_bytes() =~= old(visitor).serialized_bytes() + ((seq![self.0.spec_serialize()] + self.0.serialized_records()) + seq![self.1.spec_serialize()]));
            }
            if Self::walks_known() {
                assert(visitor.serialized_types() =~= old(visitor).serialized_types() + ((seq![A::spec_name()] + self.0.serialized_record_types()) + seq![B::spec_name()]));
            }
        }
        self.1.__autarkie_serialized(visitor);
        proof {
            if Self::walks_known() && (Self::is_lawful() || Self::encodes_exactly()) {
                assert(visitor.serialized_bytes() =~= old(visitor).serialized_bytes() + ((seq![self.0.spec_serialize()] + self.0.serialized_records()) + seq![self.1.spec_serialize()] + self.1.serialized_records()));
            }
            if Self::walks_known() {
                assert(visitor.serialized_types() =~= old(visitor).serialized_types() + ((seq![A::spec_name()] + self.0.serialized_record_types()) + seq![B::spec_name()] + self.1.serialized_record_types()));
            }
        }
        C::record_encoding(visitor, self.2.__autarkie_serialize());
        proof {
            if Self::walks_known() && (Self::is_lawful() || Self::encodes_exactly()) {
                assert(visitor.serialized_bytes() =~= old(visitor).serialized_bytes() + (((seq![self.0.spec_serialize()] + self.0.serialized_records()) + seq![self.1.spec_serialize()] + self.1.serialized_records()) + seq![self.2.spec_serialize()]));
            }
            if Self::walks_known() {
                assert(visitor.serialized_types() =~= old(visitor).serialized_types() + (((seq![A::spec_name()] + self.0.serialized_record_types()) + seq![B::spec_name()] + self.1.serialized_record_types()) + seq![C::spec_name()]));
            }
        }
        self.2.__autarkie_serialized(visitor);
        proof {
            if Self::walks_known() && (Self::is_lawful() || Self::encodes_exactly()) {
                assert(visitor.serialized_bytes() =~= old(visitor).serialized_bytes() + (((seq![self.0.spec_serialize()] + self.0.serialized_records()) + seq![self.1.spec_serialize()] + self.1.serialized_records()) + seq![self.2.spec_serialize()] + self.2.serialized_records()));
            }
            if Self::walks_known() {
                assert(visitor.serialized_types() =~= old(visitor).serialized_types() + (((seq![A::spec_name()] + self.0.serialized_record_types()) + seq![B::spec_name()] + self.1.serialized_record_types()) + seq![C::spec_name()] + self.2.serialized_record_types()));
            }
        }
        D::record_encoding(visitor, self.3.__autarkie_serialize());
        proof {
            if Self::walks_known() && (Self::is_lawful() || Self::encodes_exactly()) {
                assert(visitor.serialized_bytes() =~= old(visitor).serialized_bytes() + ((((seq![self.0.spec_serialize()] + self.0.serialized_records()) + seq![self.1.spec_serialize()] + self.1.serialized_records()) + seq![self.2.spec_serialize()] + self.2.serialized_records()) + seq![self.3.spec_serialize()]));
            }
            if Self::walks_known() {
                assert(visitor.serialized_types() =~= old(visitor).serialized_types() + ((((seq![A::spec_name()] + self.0.serialized_record_types()) + seq![B::spec_name()] + self.1.serialized_record_types()) + seq![C::spec_name()] + self.2.serialized_record_types()) + seq![D::spec_name()]));
            }
        }
        self.3.__autarkie_serialized(visitor);
        proof {
            if Self::walks_known() && (Self::is_lawful() || Self::encodes_exactly()) {
                assert(visitor.serialized_bytes() =~= old(visitor).serialized_bytes() + ((((seq![self.0.spec_serialize()] + self.0.serialized_records()) + seq![self.1.spec_serialize()] + self.1.serialized_records()) + seq![self.2.spec_serialize()] + self.2.serialized_records()) + seq![self.3.spec_serialize()] + self.3.serialized_records()));
            }
            if Self::walks_known() {
                assert(visitor.serialized_types() =~= old(visitor).serialized_types() + ((((seq![A::spec_name()] + self.0.serialized_record_types()) + seq![B::spec_name()] + self.1.serialized_record_types()) + seq![C::spec_name()] + self.2.serialized_record_types()) + seq![D::spec_name()] + self.3.serialized_record_types()));
            }
        }
        E::record_encoding(visitor, self.4.__autarkie_serialize());
        proof {
            if Self::walks_known() && (Self::is_lawful() || Self::encodes_exactly()) {
                assert(visitor.serialized_bytes() =~= old(visitor).serialized_bytes() + (((((seq![self.0.spec_serialize()] + self.0.serialized_records()) + seq![self.1.spec_serialize()] + self.1.serialized_records()) + seq![self.2.spec_serialize()] + self.2.serialized_records()) + seq![self.3.spec_serialize()] + self.3.serialized_records()) + seq![self.4.spec_serialize()]));
            }
            if Self::walks_known() {
                assert(visitor.serialized_types() =~= old(visitor).serialized_types() + (((((seq![A::spec_name()] + self.0.serialized_record_types()) + seq![B::spec_name()] + self.1.serialized_record_types()) + seq![C::spec_name()] + self.2.serialized_record_types()) + seq![D::spec_name()] + self.3.serialized_record_types()) + seq![E::spec_name()]));
            }
        }
        self.4.__autarkie_serialized(visitor);
        proof {
            if Self::walks_known() && (Self::is_lawful() || Self::encodes_exactly()) {
                assert(visitor.serialized_bytes() =~= old(visitor).serialized_bytes() + (((((seq![self.0.spec_serialize()] + self.0.serialized_records()) + seq![self.1.spec_serialize()] + self.1.serialized_records()) + seq![self.2.spec_serialize()] + self.2.serialized_records()) + seq![self.3.spec_serialize()] + self.3.serialized_records()) + seq![self.4.spec_serialize()] + self.4.serialized_records()));
            }
            if Self::walks_known() {
                assert(visitor.serialized_types() =~= old(visitor).serialized_types() + (((((seq![A::spec_name()] + self.0.serialized_record_types()) + seq![B::spec_name()] + self.1.serialized_record_types()) + seq![C::spec_name()] + self.2.serialized_record_types()) + seq![D::spec_name()] + self.3.serialized_record_types()) + seq![E::spec_name()] + self.4.serialized_record_types()));
            }
        }
    }

    /// Enters each element as a field, at its position, and records its
    /// comparison operands.
    fn __autarkie_cmps(&self, visitor: &mut Visitor, index: usize, __autarkie_val: (u64, u64)) {
        let ghost p0 = *visitor;
        let id0 = A::enter_as_field(visitor, 0, NodeType::NonRecursive).1;
        let ghost e0 = *visitor;
        self.0.__autarkie_cmps(visitor, 0, __autarkie_val);
        let ghost i0 = *visitor;
        visitor.pop_field();
        proof {
            assert(field_entered(p0, ((0, NodeType::NonRecursive), id0), A::spec_name(), e0));
            assert(field_left(i0, *visitor));
            assert(walked_in_field(self.0, 0, A::spec_name(), 0, Some(__autarkie_val), p0, *visitor));
            if Self::walks_known() {
                assert(visitor.operands() =~= old(visitor).operands() + (self.0.comparison_operands(__autarkie_val)));
            }
        }
        let ghost p1 = *visitor;
        let id1 = B::enter_as_field(visitor, 1, NodeType::NonRecursive).1;
        let ghost e1 = *visitor;
        self.1.__autarkie_cmps(visitor, 0, __autarkie_val);
        let ghost i1 = *visitor;
        visitor.pop_field();
        proof {
            assert(field_entered(p1, ((1, NodeType::NonRecursive), id1), B::spec_name(), e1));
            assert(field_left(i1, *visitor));
            assert(walked_in_field(self.1, 1, B::spec_name(), 0, Some(__autarkie_val), p1, *visitor));
            if Self::walks_known() {
                assert(visitor.operands() =~= old(visitor).operands() + ((self.0.comparison_operands(__autarkie_val)) + self.1.comparison_operands(__autarkie_val)));
            }
        }
        let ghost p2 = *visitor;
        let id2 = C::enter_as_field(visitor, 2, NodeType::NonRecursive).1;
        let ghost e2 = *visitor;
        self.2.__autarkie_cmps(visitor, 0, __autarkie_val);
        let ghost i2 = *visitor;
        visitor.pop_field();
        proof {
            assert(field_entered(p2, ((2, NodeType::NonRecursive), id2), C::spec_name(), e2));
            assert(field_left(i2, *visitor));
            assert(walked_in_field(self.2, 2, C::spec_name(), 0, Some(__autarkie_val), p2, *visitor));
            if Self::walks_known() {
                assert(visitor.operands() =~= old(visitor).operands() + (((self.0.comparison_operands(__autarkie_val)) + self.1.comparison_operands(__autarkie_val)) + self.2.comparison_operands(__autarkie_val)));
            }
        }
        let ghost p3 = *visitor;
        let id3 = D::enter_as_field(visitor, 3, NodeType::NonRecursive).1;
        let ghost e3 = *visitor;
        self.3.__autarkie_cmps(visitor, 0, __autarkie_val);
        let ghost i3 = *visitor;
        visitor.pop_field();
        proof {
            assert(field_entered(p3, ((3, NodeType::NonRecursive), id3), D::spec_name(), e3));
            assert(field_left(i3, *visitor));
            assert(walked_in_field(self.3, 3, D::spec_name(), 0, Some(__autarkie_val), p3, *visitor));
            if Self::walks_known() {
                assert(visitor.operands() =~= old(visitor).operands() + ((((self.0.comparison_operands(__autarkie_val)) + self.1.comparison_operands(__autarkie_val)) + self.2.comparison_operands(__autarkie_val)) + self.3.comparison_operands(__autarkie_val)));
            }
        }
        let ghost p4 = *visitor;
        let id4 = E::enter_as_field(visitor, 4, NodeType::NonRecursive).1;
        let ghost e4 = *visitor;
        self.4.__autarkie_cmps(visitor, 0, __autarkie_val);
        let ghost i4 = *visitor;
        visitor.pop_field();
        proof {
            assert(field_entered(p4, ((4, NodeType::NonRecursive), id4), E::spec_name(), e4));
            assert(field_left(i4, *visitor));
            assert(walked_in_field(self.4, 4, E::spec_name(), 0, Some(__autarkie_val), p4, *visitor));
            if Self::walks_known() {
                assert(visitor.operands() =~= old(visitor).operands() + (((((self.0.comparison_operands(__autarkie_val)) + self.1.comparison_operands(__autarkie_val)) + self.2.comparison_operands(__autarkie_val)) + self.3.comparison_operands(__autarkie_val)) + self.4.comparison_operands(__autarkie_val)));
            }
        }
    }

    fn __autarkie_serialize(&self) -> (r: Vec<u8>) {
        let mut out = self.4.__autarkie_serialize();
        let mut front = self.3.__autarkie_serialize();
        front.append(&mut out);
        out = front;
        let mut front = self.2.__autarkie_serialize();
        front.append(&mut out);
        out = front;
        let mut front = self.1.__autarkie_serialize();
        front.append(&mut out);
        out = front;
        let mut front = self.0.__autarkie_serialize();
        front.append(&mut out);
        out = front;
        out
    }

    /// Reads the elements in turn.
    fn __autarkie_deserialize(data: &[u8], pos: usize) -> (r: Option<(Self, usize)>) {
        proof {
            assert(data@.skip(pos as int) =~= data@.skip(pos as int));
        }
        proof {
            if Self::is_lawful() {
            assert forall|x: Self| #[trigger] x.spec_serialize().is_prefix_of(data@.skip(pos as int)) implies {
                &&& x.0.spec_serialize().is_prefix_of(data@.skip(pos as int))
                &&& (x.1.spec_serialize() + (x.2.spec_serialize() + (x.3.spec_serialize() + (x.4.spec_serialize())))).is_prefix_of(data@.skip(pos + x.0.spec_serialize().len()))
            } by {
                lemma_tag_then(x.0.spec_serialize(), x.1.spec_serialize() + (x.2.spec_serialize() + (x.3.spec_serialize() + (x.4.spec_serialize()))), data@.skip(pos as int));
                assert(data@.skip(pos as int).skip(x.0.spec_serialize().len() as int) =~= data@.skip(pos + x.0.spec_serialize().len()));
            }
            }
        }
        let (v0, e0) = match A::__autarkie_deserialize(data, pos) {
            Some(r) => r,
            None => {
                proof {
                    if Self::is_lawful() {
                    assert forall|x: Self| !#[trigger] x.spec_serialize().is_prefix_of(data@.skip(pos as int)) by {
                        if x.spec_serialize().is_prefix_of(data@.skip(pos as int)) {
                            assert(x.0.spec_serialize().is_prefix_of(data@.skip(pos as int)));
                        }
                    }
                    }
                }
                return None;
            },
        };
        proof {
            if Self::is_lawful() {
            assert forall|x: Self| #[trigger] x.spec_serialize().is_prefix_of(data@.skip(pos as int)) implies
                (x.1.spec_serialize() + (x.2.spec_serialize() + (x.3.spec_serialize() + (x.4.spec_serialize())))).is_prefix_of(data@.skip(e0 as int)) by {
                assert(x.0.spec_serialize().is_prefix_of(data@.skip(pos as int)));
            }
            }
        }
        proof {
            if Self::is_lawful() {
            assert forall|x: Self| #[trigger] x.spec_serialize().is_prefix_of(data@.skip(pos as int)) implies {
                &&& x.1.spec_serialize().is_prefix_of(data@.skip(e0 as int))
                &&& (x.2.spec_serialize() + (x.3.spec_serialize() + (x.4.spec_serialize()))).is_prefix_of(data@.skip(e0 + x.1.spec_serialize().len()))
            } by {
                lemma_tag_then(x.1.spec_serialize(), x.2.spec_serialize() + (x.3.spec_serialize() + (x.4.spec_serialize())), data@.skip(e0 as int));
                assert(data@.skip(e0 as int).skip(x.1.spec_serialize().len() as int) =~= data@.skip(e0 + x.1.spec_serialize().len()));
            }
            }
        }
        let (v1, e1) = match B::__autarkie_deserialize(data, e0) {
            Some(r) => r,
            None => {
                proof {
                    if Self::is_lawful() {
                    assert forall|x: Self| !#[trigger] x.spec_serialize().is_prefix_of(data@.skip(pos as int)) by {
                        if x.spec_serialize().is_prefix_of(data@.skip(pos as int)) {
                            assert(x.1.spec_serialize().is_prefix_of(data@.skip(e0 as int)));
                        }
                    }
                    }
                }
                return None;
            },
        };
        proof {
            if Self::is_lawful() {
            assert forall|x: Self| #[trigger] x.spec_serialize().is_prefix_of(data@.skip(pos as int)) implies
                (x.2.spec_serialize() + (x.3.spec_serialize() + (x.4.spec_serialize()))).is_prefix_of(data@.skip(e1 as int)) by {
                assert(x.1.spec_serialize().is_prefix_of(data@.skip(e0 as int)));
            }
            }
        }
        proof {
            if Self::is_lawful() {
            assert forall|x: Self| #[trigger] x.spec_serialize().is_prefix_of(data@.skip(pos as int)) implies {
                &&& x.2.spec_serialize().is_prefix_of(data@.skip(e1 as int))
                &&& (x.3.spec_serialize() + (x.4.spec_serialize())).is_prefix_of(data@.skip(e1 + x.2.spec_serialize().len()))
            } by {
                lemma_tag_then(x.2.spec_serialize(), x.3.spec_serialize() + (x.4.spec_serialize()), data@.skip(e1 as int));
                assert(data@.skip(e1 as int).skip(x.2.spec_serialize().len() as int) =~= data@.skip(e1 + x.2.spec_serialize().len()));
            }
            }
        }
        let (v2, e2) = match C::__autarkie_deserialize(data, e1) {
            Some(r) => r,
            None => {
                proof {
                    if Self::is_lawful() {
                    assert forall|x: Self| !#[trigger] x.spec_serialize().is_prefix_of(data@.skip(pos as int)) by {
                        if x.spec_serialize().is_prefix_of(data@.skip(pos as int)) {
                            assert(x.2.spec_serialize().is_prefix_of(data@.skip(e1 as int)));
                        }
                    }
                    }
                }
                return None;
            },
        };
        proof {
            if Self::is_lawful() {
            assert forall|x: Self| #[trigger] x.spec_serialize().is_prefix_of(data@.skip(pos as int)) implies
                (x.3.spec_serialize() + (x.4.spec_serialize())).is_prefix_of(data@.skip(e2 as int)) by {
                assert(x.2.spec_serialize().is_prefix_of(data@.skip(e1 as int)));
            }
            }
        }
        proof {
            if Self::is_lawful() {
            assert forall|x: Self| #[trigger] x.spec_serialize().is_prefix_of(data@.skip(pos as int)) implies {
                &&& x.3.spec_serialize().is_prefix_of(data@.skip(e2 as int))
                &&& (x.4.spec_serialize()).is_prefix_of(data@.skip(e2 + x.3.spec_serialize().len()))
            } by {
                lemma_tag_then(x.3.spec_serialize(), x.4.spec_serialize(), data@.skip(e2 as int));
                assert(data@.skip(e2 as int).skip(x.3.spec_serialize().len() as int) =~= data@.skip(e2 + x.3.spec_serialize().len()));
            }
            }
        }
        let (v3, e3) = match D::__autarkie_deserialize(data, e2) {
            Some(r) => r,
            None => {
                proof {
                    if Self::is_lawful() {
                    assert forall|x: Self| !#[trigger] x.spec_serialize().is_prefix_of(data@.skip(pos as int)) by {
                        if x.spec_serialize().is_prefix_of(data@.skip(pos as int)) {
                            assert(x.3.spec_serialize().is_prefix_of(data@.skip(e2 as int)));
                        }
                    }
                    }
                }
                return None;
            },
        };
        proof {
            if Self::is_lawful() {
            assert forall|x: Self| #[trigger] x.spec_serialize().is_prefix_of(data@.skip(pos as int)) implies
                (x.4.spec_serialize()).is_prefix_of(data@.skip(e3 as int)) by {
                assert(x.3.spec_serialize().is_prefix_of(data@.skip(e2 as int)));
            }
            }
        }
        let (v4, e4) = match E::__autarkie_deserialize(data, e3) {
            Some(r) => r,
            None => {
                proof {
                    if Self::is_lawful() {
                    assert forall|x: Self| !#[trigger] x.spec_serialize().is_prefix_of(data@.skip(pos as int)) by {
                        if x.spec_serialize().is_prefix_of(data@.skip(pos as int)) {
                            assert(x.4.spec_serialize().is_prefix_of(data@.skip(e3 as int)));
                        }
                    }
                    }
                }
                return None;
            },
        };
        let r = (v0, v1, v2, v3, v4);
        proof {
            if Self::is_lawful() {
            assert forall|x: Self| #[trigger] x.spec_serialize().is_prefix_of(data@.skip(pos as int)) implies
                r.spec_serialize() == x.spec_serialize() && e4 == pos + x.spec_serialize().len() by {
                assert(x.0.spec_serialize().is_prefix_of(data@.skip(pos as int)));
                assert(v0.spec_serialize() == x.0.spec_serialize());
                assert(x.1.spec_serialize().is_prefix_of(data@.skip(e0 as int)));
                assert(v1.spec_serialize() == x.1.spec_serialize());
                assert(x.2.spec_serialize().is_prefix_of(data@.skip(e1 as int)));
                assert(v2.spec_serialize() == x.2.spec_serialize());
                assert(x.3.spec_serialize().is_prefix_of(data@.skip(e2 as int)));
                assert(v3.spec_serialize() == x.3.spec_serialize());
                assert(x.4.spec_serialize().is_prefix_of(data@.skip(e3 as int)));
                assert(v4.spec_serialize() == x.4.spec_serialize());
            }
            }
        }
        Some((r, e4))
    }

    fn __autarkie_id_name() -> (r: String) {
        let mut r = "(".to_owned();
        let n0 = A::__autarkie_id_name();
        r.append(n0.as_str());
        r.append(", ");
        let n1 = B::__autarkie_id_name();
        r.append(n1.as_str());
        r.append(", ");
        let n2 = C::__autarkie_id_name();
        r.append(n2.as_str());
        r.append(", ");
        let n3 = D::__autarkie_id_name();
        r.append(n3.as_str());
        r.append(", ");
        let n4 = E::__autarkie_id_name();
        r.append(n4.as_str());
        r.append(")");
        assert(r@ == Self::spec_name());
        r
    }
}

/// Whether generating the elements of `t` in turn, each with no settings,
/// from the visitor `before`, can give them and leave `after`.
pub open spec fn elements_6_generated<A: Node, B: Node, C: Node, D: Node, E: Node, F: Node>(before: Visitor, t: (A, B, C, D, E, F), after: Visitor) -> bool {
    exists|g0: Visitor, g1: Visitor, g2: Visitor, g3: Visitor, g4: Visitor|
            #![trigger A::generation(before, None, Some(t.0), g0), B::generation(g0, None, Some(t.1), g1), C::generation(g1, None, Some(t.2), g2), D::generation(g2, None, Some(t.3), g3), E::generation(g3, None, Some(t.4), g4), F::generation(g4, None, Some(t.5), after)]
            A::generation(before, None, Some(t.0), g0)
                && B::generation(g0, None, Some(t.1), g1)
                && C::generation(g1, None, Some(t.2), g2)
                && D::generation(g2, None, Some(t.3), g3)
                && E::generation(g3, None, Some(t.4), g4)
                && F::generation(g4, None, Some(t.5), after)
}

impl<A: Node, B: Node, C: Node, D: Node, E: Node, F: Node> Node for (A, B, C, D, E, F) {
    open spec fn spec_serialize(&self) -> Seq<u8> {
        self.0.spec_serialize() + (self.1.spec_serialize() + (self.2.spec_serialize() + (self.3.spec_serialize() + (self.4.spec_serialize() + (self.5.spec_serialize())))))
    }

    open spec fn spec_name() -> Seq<char> {
        "("@ + A::spec_name() + ", "@ + B::spec_name() + ", "@ + C::spec_name() + ", "@ + D::spec_name() + ", "@ + E::spec_name() + ", "@ + F::spec_name() + ")"@
    }

    open spec fn is_lawful() -> bool {
        A::is_lawful() && B::is_lawful() && C::is_lawful() && D::is_lawful() && E::is_lawful() && F::is_lawful()
    }

    open spec fn read_ok(bytes: Seq<u8>) -> bool {
        Self::is_lawful() && exists|x: Self| #[trigger] x.spec_serialize().is_prefix_of(bytes)
    }

    /// For a lawful type, a value read encodes as the start of the bytes,
    /// as any value whose encoding starts them does.
    open spec fn reading(bytes: Seq<u8>, v: Self) -> bool {
        Self::is_lawful() ==> {
            &&& v.spec_serialize().is_prefix_of(bytes)
            &&& forall|x: Self| #[trigger] x.spec_serialize().is_prefix_of(bytes) ==> v.spec_serialize()
                == x.spec_serialize()
        }
    }

    open spec fn encodes_exactly() -> bool {
        A::encodes_exactly() && B::encodes_exactly() && C::encodes_exactly() && D::encodes_exactly() && E::encodes_exactly() && F::encodes_exactly()
    }

    open spec fn walks_known() -> bool {
        A::walks_known() && B::walks_known() && C::walks_known() && D::walks_known() && E::walks_known() && F::walks_known()
    }

    open spec fn node_shape(&self, shape: NodeType) -> bool {
        shape == NodeType::NonRecursive
    }

    /// A node with fixed fields.
    fn __autarkie_node_ty(&self, visitor: &Visitor) -> (r: NodeType) {
        NodeType::NonRecursive
    }

    /// Along a path, the element at its first index is mutated along the
    /// rest of it and the others are kept; at its end, the tuple is replaced.
    open spec fn mutation(&self, ty: &MutationType, path: Seq<usize>, before: Visitor, after: Self, after_v: Visitor) -> bool {
        if path.len() > 0 {
            if path[0] == 0 {
                after.1 == self.1 && after.2 == self.2 && after.3 == self.3 && after.4 == self.4 && after.5 == self.5 && self.0.mutation(ty, path.drop_first(), before, after.0, after_v)
            } else if path[0] == 1 {
                after.0 == self.0 && after.2 == self.2 && after.3 == self.3 && after.4 == self.4 && after.5 == self.5 && self.1.mutation(ty, path.drop_first(), before, after.1, after_v)
            } else if path[0] == 2 {
                after.0 == self.0 && after.1 == self.1 && after.3 == self.3 && after.4 == self.4 && after.5 == self.5 && self.2.mutation(ty, path.drop_first(), before, after.2, after_v)
            } else if path[0] == 3 {
                after.0 == self.0 && after.1 == self.1 && after.2 == self.2 && after.4 == self.4 && after.5 == self.5 && self.3.mutation(ty, path.drop_first(), before, after.3, after_v)
            } else if path[0] == 4 {
                after.0 == self.0 && after.1 == self.1 && after.2 == self.2 && after.3 == self.3 && after.5 == self.5 && self.4.mutation(ty, path.drop_first(), before, after.4, after_v)
            } else if path[0] == 5 {
                after.0 == self.0 && after.1 == self.1 && after.2 == self.2 && after.3 == self.3 && after.4 == self.4 && self.5.mutation(ty, path.drop_first(), before, after.5, after_v)
            } else {
                false
            }
        } else {
            match *ty {
                MutationType::Splice(b) => {
                    &&& after_v == before
                    &&& Self::is_lawful() ==> forall|x: Self| #[trigger] x.spec_serialize().is_prefix_of((**b)@)
                        ==> after.spec_serialize() == x.spec_serialize()
                },
                _ => {
                    ||| after == *self && Self::generation(before, None, None, after_v)
                    ||| exists|generated: Visitor| {
                        &&& #[trigger] Self::generation(before, None, Some(after), generated)
                        &&& after_v.keeps_state(&generated)
                        &&& after_v.fields() == generated.fields()
                        &&& after_v.operands() == generated.operands()
                        &&& after_v.serialized().len() > generated.serialized().len()
                        &&& after_v.serialized_types().len() > generated.serialized_types().len()
                        &&& after_v.serialized_types().last() == Self::spec_name()
                        &&& Self::encodes_exactly() ==> after_v.serialized().last().0 == after.spec_serialize()
                        &&& Self::walks_known() && Self::encodes_exactly() ==> after_v.serialized_bytes()
                            == generated.serialized_bytes() + after.serialized_records() + seq![after.spec_serialize()]
                    }
                },
            }
        }
    }

    open spec fn first_name_ok(name: Seq<char>) -> bool {
        false
    }

    open spec fn always_generates() -> bool {
        A::always_generates() && B::always_generates() && C::always_generates() && D::always_generates() && E::always_generates() && F::always_generates()
    }

    /// Each element is what generating its type in turn gives; generation
    /// gives up at the first element that could not be generated.
    open spec fn generation(before: Visitor, settings: Option<GenerateSettings>, r: Option<Self>, after: Visitor) -> bool {
        &&& after.draws_only(&before)
        &&& r matches Some(t) ==> elements_6_generated(before, t, after)
    }

    open spec fn field_count(&self) -> nat {
        (1 + self.0.field_count()) + (1 + self.1.field_count()) + (1 + self.2.field_count()) + (1 + self.3.field_count()) + (1 + self.4.field_count()) + (1 + self.5.field_count())
    }

    open spec fn comparison_operands(&self, __autarkie_val: (u64, u64)) -> Seq<Seq<u8>> {
        (((((self.0.comparison_operands(__autarkie_val)) + self.1.comparison_operands(__autarkie_val)) + self.2.comparison_operands(__autarkie_val)) + self.3.comparison_operands(__autarkie_val)) + self.4.comparison_operands(__autarkie_val)) + self.5.comparison_operands(__autarkie_val)
    }

    open spec fn serialized_records(&self) -> Seq<Seq<u8>> {
        (((((seq![self.0.spec_serialize()] + self.0.serialized_records()) + seq![self.1.spec_serialize()] + self.1.serialized_records()) + seq![self.2.spec_serialize()] + self.2.serialized_records()) + seq![self.3.spec_serialize()] + self.3.serialized_records()) + seq![self.4.spec_serialize()] + self.4.serialized_records()) + seq![self.5.spec_serialize()] + self.5.serialized_records()
    }

    open spec fn serialized_record_types(&self) -> Seq<Seq<char>> {
        (((((seq![A::spec_name()] + self.0.serialized_record_types()) + seq![B::spec_name()] + self.1.serialized_record_types()) + seq![C::spec_name()] + self.2.serialized_record_types()) + seq![D::spec_name()] + self.3.serialized_record_types()) + seq![E::spec_name()] + self.4.serialized_record_types()) + seq![F::spec_name()] + self.5.serialized_record_types()
    }

    open spec fn generate_ok(settings: GenerateSettings, rng: u64) -> bool {
        true
    }

    open spec fn mutate_ok(&self, ty: &MutationType, path: Seq<usize>) -> bool {
        if path.len() > 0 {
            (path[0] == 0 && self.0.mutate_ok(ty, path.drop_first())) || (path[0] == 1 && self.1.mutate_ok(ty, path.drop_first())) || (path[0] == 2 && self.2.mutate_ok(ty, path.drop_first())) || (path[0] == 3 && self.3.mutate_ok(ty, path.drop_first())) || (path[0] == 4 && self.4.mutate_ok(ty, path.drop_first())) || (path[0] == 5 && self.5.mutate_ok(ty, path.drop_first()))
        } else {
            &&& (*ty is Splice || *ty is GenerateReplace)
            &&& (*ty matches MutationType::Splice(b) ==> (Self::is_lawful() ==> exists|x: Self| #[trigger] x.spec_serialize().is_prefix_of((**b)@)))
        }
    }

    /// Each element generated in turn; generation gives up where one of
    /// them does.
    #[verifier::spinoff_prover]
    fn __autarkie_generate(
        visitor: &mut Visitor,
        depth: &mut usize,
        cur_depth: usize,
        settings: Option<GenerateSettings>,
    ) -> (r: Option<Self>) {
        let ghost p0 = *visitor;
        let f0 = match A::__autarkie_generate(visitor, depth, cur_depth, None) {
            Some(x) => x,
            None => {
                return None;
            },
        };
        let ghost p1 = *visitor;
        let f1 = match B::__autarkie_generate(visitor, depth, cur_depth, None) {
            Some(x) => x,
            None => {
                return None;
            },
        };
        let ghost p2 = *visitor;
        let f2 = match C::__autarkie_generate(visitor, depth, cur_depth, None) {
            Some(x) => x,
            None => {
                return None;
            },
        };
        let ghost p3 = *visitor;
        let f3 = match D::__autarkie_generate(visitor, depth, cur_depth, None) {
            Some(x) => x,
            None => {
                return None;
            },
        };
        let ghost p4 = *visitor;
        let f4 = match E::__autarkie_generate(visitor, depth, cur_depth, None) {
            Some(x) => x,
            None => {
                return None;
            },
        };
        let ghost p5 = *visitor;
        let f5 = match F::__autarkie_generate(visitor, depth, cur_depth, None) {
            Some(x) => x,
            None => {
                return None;
            },
        };
        let ghost gt = (f0, f1, f2, f3, f4, f5);
        proof {
            assert(A::generation(p0, None, Some(gt.0), p1));
            assert(B::generation(p1, None, Some(gt.1), p2));
            assert(C::generation(p2, None, Some(gt.2), p3));
            assert(D::generation(p3, None, Some(gt.3), p4));
            assert(E::generation(p4, None, Some(gt.4), p5));
            assert(F::generation(p5, None, Some(gt.5), *visitor));
            assert(visitor.draws_only(&p0));
            assert(exists|g0: Visitor, g1: Visitor, g2: Visitor, g3: Visitor, g4: Visitor| A::generation(p0, None, Some(gt.0), g0) && B::generation(g0, None, Some(gt.1), g1) && C::generation(g1, None, Some(gt.2), g2) && D::generation(g2, None, Some(gt.3), g3) && E::generation(g3, None, Some(gt.4), g4) && F::generation(g4, None, Some(gt.5), *visitor));
            assert(elements_6_generated(p0, gt, *visitor));
        }
        Some((f0, f1, f2, f3, f4, f5))
    }

    /// Along the path, mutates the element at its first index; at its end,
    /// replaces the tuple by the one the spliced bytes encode, or by a
    /// generated one whose encodings are then recorded.
    #[verifier::spinoff_prover]
    fn __autarkie_mutate(
        &mut self,
        ty: &mut MutationType,
        visitor: &mut Visitor,
        path: VecDeque<usize>,
    ) {
        let mut path = path;
        match path.pop_front() {
            Some(popped) => {
                if popped == 0 {
                    self.0.__autarkie_mutate(ty, visitor, path);
                } else if popped == 1 {
                    self.1.__autarkie_mutate(ty, visitor, path);
                } else if popped == 2 {
                    self.2.__autarkie_mutate(ty, visitor, path);
                } else if popped == 3 {
                    self.3.__autarkie_mutate(ty, visitor, path);
                } else if popped == 4 {
                    self.4.__autarkie_mutate(ty, visitor, path);
                } else if popped == 5 {
                    self.5.__autarkie_mutate(ty, visitor, path);
                } else {
                    proof {
                        assert(false);
                    }
                }
            },
            None => {
                match ty {
                    MutationType::Splice(other) => {
                        let bytes: &[u8] = **other;
                        proof {
                            assert(bytes@.skip(0) =~= bytes@);
                        }
                        match Self::__autarkie_deserialize(bytes, 0) {
                            Some((v, end)) => {
                                proof {
                                    if Self::is_lawful() {
                                        assert(v.spec_serialize() =~= bytes@.subrange(0, v.spec_serialize().len() as int));
                                        assert(v.spec_serialize().is_prefix_of(bytes@));
                                    }
                                }
                                *self = v;
                            },
                            None => {},
                        }
                    },
                    MutationType::GenerateReplace(bias) => {
                        match Self::__autarkie_generate(visitor, bias, 0, None) {
                            Some(generated) => {
                                *self = generated;
                                let ghost g = *visitor;
                                self.__autarkie_serialized(visitor);
                                Self::record_encoding(visitor, self.__autarkie_serialize());
                                proof {
                                    assert(Self::generation(*old(visitor), None, Some(*self), g));
                                    if Self::walks_known() && Self::encodes_exactly() {
                                        assert(visitor.serialized_bytes() =~= g.serialized_bytes()
                                            + self.serialized_records() + seq![self.spec_serialize()]);
                                    }
                                }
                            },
                            None => {},
                        }
                    },
                    _ => {
                        proof {
                            assert(false);
                        }
                    },
                }
            },
        }
    }

    /// Enters each element as a field, at its position, and records its fields.
    #[verifier::spinoff_prover]
    fn __autarkie_fields(&self, visitor: &mut Visitor, index: usize) {
        let ghost p0 = *visitor;
        let id0 = A::enter_as_field(visitor, 0, NodeType::NonRecursive).1;
        let ghost e0 = *visitor;
        self.0.__autarkie_fields(visitor, 0);
        let ghost i0 = *visitor;
        visitor.pop_field();
        proof {
            assert(field_entered(p0, ((0, NodeType::NonRecursive), id0), A::spec_name(), e0));
            assert(field_left(i0, *visitor));
            assert(walked_in_field(self.0, 0, A::spec_name(), 0, None, p0, *visitor));
        }
        let ghost p1 = *visitor;
        let id1 = B::enter_as_field(visitor, 1, NodeType::NonRecursive).1;
        let ghost e1 = *visitor;
        self.1.__autarkie_fields(visitor, 0);
        let ghost i1 = *visitor;
        visitor.pop_field();
        proof {
            assert(field_entered(p1, ((1, NodeType::NonRecursive), id1), B::spec_name(), e1));
            assert(field_left(i1, *visitor));
            assert(walked_in_field(self.1, 1, B::spec_name(), 0, None, p1, *visitor));
        }
        let ghost p2 = *visitor;
        let id2 = C::enter_as_field(visitor, 2, NodeType::NonRecursive).1;
        let ghost e2 = *visitor;
        self.2.__autarkie_fields(visitor, 0);
        let ghost i2 = *visitor;
        visitor.pop_field();
        proof {
            assert(field_entered(p2, ((2, NodeType::NonRecursive), id2), C::spec_name(), e2));
            assert(field_left(i2, *visitor));
            assert(walked_in_field(self.2, 2, C::spec_name(), 0, None, p2, *visitor));
        }
        let ghost p3 = *visitor;
        let id3 = D::enter_as_field(visitor, 3, NodeType::NonRecursive).1;
        let ghost e3 = *visitor;
        self.3.__autarkie_fields(visitor, 0);
        let ghost i3 = *visitor;
        visitor.pop_field();
        proof {
            assert(field_entered(p3, ((3, NodeType::NonRecursive), id3), D::spec_name(), e3));
            assert(field_left(i3, *visitor));
            assert(walked_in_field(self.3, 3, D::spec_name(), 0, None, p3, *visitor));
        }
        let ghost p4 = *visitor;
        let id4 = E::enter_as_field(visitor, 4, NodeType::NonRecursive).1;
        let ghost e4 = *visitor;
        self.4.__autarkie_fields(visitor, 0);
        let ghost i4 = *visitor;
        visitor.pop_field();
        proof {
            assert(field_entered(p4, ((4, NodeType::NonRecursive), id4), E::spec_name(), e4));
            assert(field_left(i4, *visitor));
            assert(walked_in_field(self.4, 4, E::spec_name(), 0, None, p4, *visitor));
        }
        let ghost p5 = *visitor;
        let id5 = F::enter_as_field(visitor, 5, NodeType::NonRecursive).1;
        let ghost e5 = *visitor;
        self.5.__autarkie_fields(visitor, 0);
        let ghost i5 = *visitor;
        visitor.pop_field();
        proof {
            assert(field_entered(p5, ((5, NodeType::NonRecursive), id5), F::spec_name(), e5));
            assert(field_left(i5, *visitor));
            assert(walked_in_field(self.5, 5, F::spec_name(), 0, None, p5, *visitor));
        }
    }

    /// Each element is walked in turn, inside a field at its position, as
    /// field 0 of it.
    open spec fn walk(&self, index: usize, compared: Option<(u64, u64)>, before: Visitor, after: Visitor) -> bool {
        exists|u0: Visitor, u1: Visitor, u2: Visitor, u3: Visitor, u4: Visitor|
            #![trigger walked_in_field(self.0, 0, A::spec_name(), 0, compared, before, u0), walked_in_field(self.1, 1, B::spec_name(), 0, compared, u0, u1), walked_in_field(self.2, 2, C::spec_name(), 0, compared, u1, u2), walked_in_field(self.3, 3, D::spec_name(), 0, compared, u2, u3), walked_in_field(self.4, 4, E::spec_name(), 0, compared, u3, u4), walked_in_field(self.5, 5, F::spec_name(), 0, compared, u4, after)]
            walked_in_field(self.0, 0, A::spec_name(), 0, compared, before, u0)
                && walked_in_field(self.1, 1, B::spec_name(), 0, compared, u0, u1)
                && walked_in_field(self.2, 2, C::spec_name(), 0, compared, u1, u2)
                && walked_in_field(self.3, 3, D::spec_name(), 0, compared, u2, u3)
                && walked_in_field(self.4, 4, E::spec_name(), 0, compared, u3, u4)
                && walked_in_field(self.5, 5, F::spec_name(), 0, compared, u4, after)
    }

    /// The tuple registered, then under it each element type in turn, at
    /// variant 0 (its own registration, or one edge to it where it is being
    /// registered already).
    open spec fn registration(before: Visitor, parent: Option<Id>, variant: usize, after: Visitor) -> bool {
        exists|me: Id, v1: Visitor, w0: Visitor, w1: Visitor, w2: Visitor, w3: Visitor, w4: Visitor, w5: Visitor|
            #![trigger entered(before, parent, variant, Self::spec_name(), me, v1), child_registered::<A>(v1, Some(me), 0, w0), child_registered::<B>(w0, Some(me), 0, w1), child_registered::<C>(w1, Some(me), 0, w2), child_registered::<D>(w2, Some(me), 0, w3), child_registered::<E>(w3, Some(me), 0, w4), child_registered::<F>(w4, Some(me), 0, w5), left(w5, after)]
            entered(before, parent, variant, Self::spec_name(), me, v1)
                && child_registered::<A>(v1, Some(me), 0, w0)
                && child_registered::<B>(w0, Some(me), 0, w1)
                && child_registered::<C>(w1, Some(me), 0, w2)
                && child_registered::<D>(w2, Some(me), 0, w3)
                && child_registered::<E>(w3, Some(me), 0, w4)
                && child_registered::<F>(w4, Some(me), 0, w5)
                && left(w5, after)
    }

    /// Registers the tuple type, then under it each element type (or only
    /// the edge to it, where it is being registered already).
    #[verifier::spinoff_prover]
    fn __autarkie_register(v: &mut Visitor, parent: Option<(Id, String)>, variant: usize)
        ensures
            final(v).ty_edges().len() > old(v).ty_edges().len(),
            final(v).ty_edges()[old(v).ty_edges().len() as int].2 == variant,
    {
        let ghost v0 = *v;
        let ghost start = v.ty_edges().len();
        let me = Self::register_self(v, parent, variant);
        let me_id = me.0;
        let me_name = me.1.clone();
        let ghost v1 = *v;
        let ghost first = v.ty_edges()[start as int];
        proof {
            assert(entered(v0, parent_id(parent), variant, Self::spec_name(), me_id, v1));
        }
        register_child::<A>(v, (me_id, me_name.clone()), 0);
        let ghost w0 = *v;
        proof {
            assert(w0.extends(&v1));
        }
        register_child::<B>(v, (me_id, me_name.clone()), 0);
        let ghost w1 = *v;
        proof {
            assert(w1.extends(&v1));
        }
        register_child::<C>(v, (me_id, me_name.clone()), 0);
        let ghost w2 = *v;
        proof {
            assert(w2.extends(&v1));
        }
        register_child::<D>(v, (me_id, me_name.clone()), 0);
        let ghost w3 = *v;
        proof {
            assert(w3.extends(&v1));
        }
        register_child::<E>(v, (me_id, me_name.clone()), 0);
        let ghost w4 = *v;
        proof {
            assert(w4.extends(&v1));
        }
        register_child::<F>(v, (me_id, me_name.clone()), 0);
        let ghost w5 = *v;
        proof {
            assert(w5.extends(&v1));
        }
        let ghost v3 = *v;
        v.pop_ty();
        proof {
            assert(left(v3, *v));
            assert(v3.extends(&v1));
            assert(v0.ty_edges().is_prefix_of(v1.ty_edges()));
            assert(v0.ty_names().is_prefix_of(v1.ty_names()));
            assert(v1.ty_edges().is_prefix_of(v3.ty_edges()));
            assert(v.ty_edges()[start as int] == first);
        }
    }

    /// Records the encoding of each element, then what it records.
    #[verifier::spinoff_prover]
    fn __autarkie_serialized(&self, visitor: &mut Visitor) {
        A::record_encoding(visitor, self.0.__autarkie_serialize());
        proof {
            if Self::walks_known() && (Self::is_lawful() || Self::encodes_exactly()) {
                assert(visitor.serialized_bytes() =~= old(visitor).serialized_bytes() + (seq![self.0.spec_serialize()]));
            }
            if Self::walks_known() {
                assert(visitor.serialized_types() =~= old(visitor).serialized_types() + (seq![A::spec_name()]));
            }
        }
        self.0.__autarkie_serialized(visitor);
        proof {
            if Self::walks_known() && (Self::is_lawful() || Self::encodes_exactly()) {
                assert(visitor.serialized_bytes() =~= old(visitor).serialized_bytes() + (seq![self.0.spec_serialize()] + self.0.serialized_records()));
            }
            if Self::walks_known() {
                assert(visitor.serialized_types() =~= old(visitor).serialized_types() + (seq![A::spec_name()] + self.0.serialized_record_types()));
            }
        }
        B::record_encoding(visitor, self.1.__autarkie_serialize());
        proof {
            if Self::walks_known() && (Self::is_lawful() || Self::encodes_exactly()) {
                assert(visitor.serialized_bytes() =~= old(visitor).serialized_bytes() + ((seq![self.0.spec_serialize()] + self.0.serialized_records()) + seq![self.1.spec_serialize()]));
            }
            if Self::walks_known() {
                assert(visitor.serialized_types() =~= old(visitor).serialized_types() + ((seq![A::spec_name()] + self.0.serialized_record_types()) + seq![B::spec_name()]));
            }
        }
        self.1.__autarkie_serialized(visitor);
        proof {
            if Self::walks_known() && (Self::is_lawful() || Self::encodes_exactly()) {
                assert(visitor.serialized_bytes() =~= old(visitor).serialized_bytes() + ((seq![self.0.spec_serialize()] + self.0.serialized_records()) + seq![self.1.spec_serialize()] + self.1.serialized_records()));
            }
            if Self::walks_known() {
                assert(visitor.serialized_types() =~= old(visitor).serialized_types() + ((seq![A::spec_name()] + self.0.serialized_record_types()) + seq![B::spec_name()] + self.1.serialized_record_types()));
            }
        }
        C::record_encoding(visitor, self.2.__autarkie_serialize());
        proof {
            if Self::walks_known() && (Self::is_lawful() || Self::encodes_exactly()) {
                assert(visitor.serialized_bytes() =~= old(visitor).serialized_bytes() + (((seq![self.0.spec_serialize()] + self.0.serialized_records()) + seq![self.1.spec_serialize()] + self.1.serialized_records()) + seq![self.2.spec_serialize()]));
            }
            if Self::walks_known() {
                assert(visitor.serialized_types() =~= old(visitor).serialized_types() + (((seq![A::spec_name()] + self.0.serialized_record_types()) + seq![B::spec_name()] + self.1.serialized_record_types()) + seq![C::spec_name()]));
            }
        }
        self.2.__autarkie_serialized(visitor);
        proof {
            if Self::walks_known() && (Self::is_lawful() || Self::encodes_exactly()) {
                assert(visitor.serialized_bytes() =~= old(visitor).serialized_bytes() + (((seq![self.0.spec_serialize()] + self.0.serialized_records()) + seq![self.1.spec_serialize()] + self.1.serialized_records()) + seq![self.2.spec_serialize()] + self.2.serialized_records()));
            }
            if Self::walks_known() {
                assert(visitor.serialized_types() =~= old(visitor).serialized_types() + (((seq![A::spec_name()] + self.0.serialized_record_types()) + seq![B::spec_name()] + self.1.serialized_record_types()) + seq![C::spec_name()] + self.2.serialized_record_types()));
            }
        }
        D::record_encoding(visitor, self.3.__autarkie_serialize());
        proof {
            if Self::walks_known() && (Self::is_lawful() || Self::encodes_exactly()) {
                assert(visitor.serialized_bytes() =~= old(visitor).serialized_bytes() + ((((seq![self.0.spec_serialize()] + self.0.serialized_records()) + seq![self.1.spec_serialize()] + self.1.serialized_records()) + seq![self.2.spec_serialize()] + self.2.serialized_records()) + seq![self.3.spec_serialize()]));
            }
            if Self::walks_known() {
                assert(visitor.serialized_types() =~= old(visitor).serialized_types() + ((((seq![A::spec_name()] + self.0.serialized_record_types()) + seq![B::spec_name()] + self.1.serialized_record_types()) + seq![C::spec_name()] + self.2.serialized_record_types()) + seq![D::spec_name()]));
            }
        }
        self.3.__autarkie_serialized(visitor);
        proof {
            if Self::walks_known() && (Self::is_lawful() || Self::encodes_exactly()) {
                assert(visitor.serialized_bytes() =~= old(visitor).serialized_bytes() + ((((seq![self.0.spec_serialize()] + self.0.serialized_records()) + seq![self.1.spec_serialize()] + self.1.serialized_records()) + seq![self.2.spec_serialize()] + self.2.serialized_records()) + seq![self.3.spec_serialize()] + self.3.serialized_records()));
            }
            if Self::walks_known() {
                assert(visitor.serialized_types() =~= old(visitor).serialized_types() + ((((seq![A::spec_name()] + self.0.serialized_record_types()) + seq![B::spec_name()] + self.1.serialized_record_types()) + seq![C::spec_name()] + self.2.serialized_record_types()) + seq![D::spec_name()] + self.3.serialized_record_types()));
            }
        }
        E::record_encoding(visitor, self.4.__autarkie_serialize());
        proof {
            if Self::walks_known() && (Self::is_lawful() || Self::encodes_exactly()) {
                assert(visitor.serialized_bytes() =~= old(visitor).serialized_bytes() + (((((seq![self.0.spec_serialize()] + self.0.serialized_records()) + seq![self.1.spec_serialize()] + self.1.serialized_records()) + seq![self.2.spec_serialize()] + self.2.serialized_records()) + seq![self.3.spec_serialize()] + self.3.serialized_records()) + seq![self.4.spec_serialize()]));
            }
            if Self::walks_known() {
                assert(visitor.serialized_types() =~= old(visitor).serialized_types() + (((((seq![A::spec_name()] + self.0.serialized_record_types()) + seq![B::spec_name()] + self.1.serialized_record_types()) + seq![C::spec_name()] + self.2.serialized_record_types()) + seq![D::spec_name()] + self.3.serialized_record_types()) + seq![E::spec_name()]));
            }
        }
        self.4.__autarkie_serialized(visitor);
        proof {
            if Self::walks_known() && (Self::is_lawful() || Self::encodes_exactly()) {
                assert(visitor.serialized_bytes() =~= old(visitor).serialized_bytes() + (((((seq![self.0.spec_serialize()] + self.0.serialized_records()) + seq![self.1.spec_serialize()] + self.1.serialized_records()) + seq![self.2.spec_serialize()] + self.2.serialized_records()) + seq![self.3.spec_serialize()] + self.3.serialized_records()) + seq![self.4.spec_serialize()] + self.4.serialized_records()));
            }
            if Self::walks_known() {
                assert(visitor.serialized_types() =~= old(visitor).serialized_types() + (((((seq![A::spec_name()] + self.0.serialized_record_types()) + seq![B::spec_name()] + self.1.serialized_record_types()) + seq![C::spec_name()] + self.2.serialized_record_types()) + seq![D::spec_name()] + self.3.serialized_record_types()) + seq![E::spec_name()] + self.4.serialized_record_types()));
            }
        }
        F::record_encoding(visitor, self.5.__autarkie_serialize());
        proof {
            if Self::walks_known() && (Self::is_lawful() || Self::encodes_exactly()) {
                assert(visitor.serialized_bytes() =~= old(visitor).serialized_bytes() + ((((((seq![self.0.spec_serialize()] + self.0.serialized_records()) + seq![self.1.spec_serialize()] + self.1.serialized_records()) + seq![self.2.spec_serialize()] + self.2.serialized_records()) + seq![self.3.spec_serialize()] + self.3.serialized_records()) + seq![self.4.spec_serialize()] + self.4.serialized_records()) + seq![self.5.spec_serialize()]));
            }
            if Self::walks_known() {
                assert(visitor.serialized_types() =~= old(visitor).serialized_types() + ((((((seq![A::spec_name()] + self.0.serialized_record_types()) + seq![B::spec_name()] + self.1.serialized_record_types()) + seq![C::spec_name()] + self.2.serialized_record_types()) + seq![D::spec_name()] + self.3.serialized_record_types()) + seq![E::spec_name()] + self.4.serialized_record_types()) + seq![F::spec_name()]));
            }
        }
        self.5.__autarkie_serialized(visitor);
        proof {
            if Self::walks_known() && (Self::is_lawful() || Self::encodes_exactly()) {
                assert(visitor.serialized_bytes() =~= old(visitor).serialized_bytes() + ((((((seq![self.0.spec_serialize()] + self.0.serialized_records()) + seq![self.1.spec_serialize()] + self.1.serialized_records()) + seq![self.2.spec_serialize()] + self.2.serialized_records()) + seq![self.3.spec_serialize()] + self.3.serialized_records()) + seq![self.4.spec_serialize()] + self.4.serialized_records()) + seq![self.5.spec_serialize()] + self.5.serialized_records()));
            }
            if Self::walks_known() {
                assert(visitor.serialized_types() =~= old(visitor).serialized_types() + ((((((seq![A::spec_name()] + self.0.serialized_record_types()) + seq![B::spec_name()] + self.1.serialized_record_types()) + seq![C::spec_name()] + self.2.serialized_record_types()) + seq![D::spec_name()] + self.3.serialized_record_types()) + seq![E::spec_name()] + self.4.serialized_record_types()) + seq![F::spec_name()] + self.5.serialized_record_types()));
            }
        }
    }

    /// Enters each element as a field, at its position, and records its
    /// comparison operands.
    #[verifier::spinoff_prover]
    fn __autarkie_cmps(&self, visitor: &mut Visitor, index: usize, __autarkie_val: (u64, u64)) {
        let ghost p0 = *visitor;
        let id0 = A::enter_as_field(visitor, 0, NodeType::NonRecursive).1;
        let ghost e0 = *visitor;
        self.0.__autarkie_cmps(visitor, 0, __autarkie_val);
        let ghost i0 = *visitor;
        visitor.pop_field();
        proof {
            assert(field_entered(p0, ((0, NodeType::NonRecursive), id0), A::spec_name(), e0));
            assert(field_left(i0, *visitor));
            assert(walked_in_field(self.0, 0, A::spec_name(), 0, Some(__autarkie_val), p0, *visitor));
            if Self::walks_known() {
                assert(visitor.operands() =~= old(visitor).operands() + (self.0.comparison_operands(__autarkie_val)));
            }
        }
        let ghost p1 = *visitor;
        let id1 = B::enter_as_field(visitor, 1, NodeType::NonRecursive).1;
        let ghost e1 = *visitor;
        self.1.__autarkie_cmps(visitor, 0, __autarkie_val);
        let ghost i1 = *visitor;
        visitor.pop_field();
        proof {
            assert(field_entered(p1, ((1, NodeType::NonRecursive), id1), B::spec_name(), e1));
            assert(field_left(i1, *visitor));
            assert(walked_in_field(self.1, 1, B::spec_name(), 0, Some(__autarkie_val), p1, *visitor));
            if Self::walks_known() {
                assert(visitor.operands() =~= old(visitor).operands() + ((self.0.comparison_operands(__autarkie_val)) + self.1.comparison_operands(__autarkie_val)));
            }
        }
        let ghost p2 = *visitor;
        let id2 = C::enter_as_field(visitor, 2, NodeType::NonRecursive).1;
        let ghost e2 = *visitor;
        self.2.__autarkie_cmps(visitor, 0, __autarkie_val);
        let ghost i2 = *visitor;
        visitor.pop_field();
        proof {
            assert(field_entered(p2, ((2, NodeType::NonRecursive), id2), C::spec_name(), e2));
            assert(field_left(i2, *visitor));
            assert(walked_in_field(self.2, 2, C::spec_name(), 0, Some(__autarkie_val), p2, *visitor));
            if Self::walks_known() {
                assert(visitor.operands() =~= old(visitor).operands() + (((self.0.comparison_operands(__autarkie_val)) + self.1.comparison_operands(__autarkie_val)) + self.2.comparison_operands(__autarkie_val)));
            }
        }
        let ghost p3 = *visitor;
        let id3 = D::enter_as_field(visitor, 3, NodeType::NonRecursive).1;
        let ghost e3 = *visitor;
        self.3.__autarkie_cmps(visitor, 0, __autarkie_val);
        let ghost i3 = *visitor;
        visitor.pop_field();
        proof {
            assert(field_entered(p3, ((3, NodeType::NonRecursive), id3), D::spec_name(), e3));
            assert(field_left(i3, *visitor));
            assert(walked_in_field(self.3, 3, D::spec_name(), 0, Some(__autarkie_val), p3, *visitor));
            if Self::walks_known() {
                assert(visitor.operands() =~= old(visitor).operands() + ((((self.0.comparison_operands(__autarkie_val)) + self.1.comparison_operands(__autarkie_val)) + self.2.comparison_operands(__autarkie_val)) + self.3.comparison_operands(__autarkie_val)));
            }
        }
        let ghost p4 = *visitor;
        let id4 = E::enter_as_field(visitor, 4, NodeType::NonRecursive).1;
        let ghost e4 = *visitor;
        self.4.__autarkie_cmps(visitor, 0, __autarkie_val);
        let ghost i4 = *visitor;
        visitor.pop_field();
        proof {
            assert(field_entered(p4, ((4, NodeType::NonRecursive), id4), E::spec_name(), e4));
            assert(field_left(i4, *visitor));
            assert(walked_in_field(self.4, 4, E::spec_name(), 0, Some(__autarkie_val), p4, *visitor));
            if Self::walks_known() {
                assert(visitor.operands() =~= old(visitor).operands() + (((((self.0.comparison_operands(__autarkie_val)) + self.1.comparison_operands(__autarkie_val)) + self.2.comparison_operands(__autarkie_val)) + self.3.comparison_operands(__autarkie_val)) + self.4.comparison_operands(__autarkie_val)));
            }
        }
        let ghost p5 = *visitor;
        let id5 = F::enter_as_field(visitor, 5, NodeType::NonRecursive).1;
        let ghost e5 = *visitor;
        self.5.__autarkie_cmps(visitor, 0, __autarkie_val);
        let ghost i5 = *visitor;
        visitor.pop_field();
        proof {
            assert(field_entered(p5, ((5, NodeType::NonRecursive), id5), F::spec_name(), e5));
            assert(field_left(i5, *visitor));
            assert(walked_in_field(self.5, 5, F::spec_name(), 0, Some(__autarkie_val), p5, *visitor));
            if Self::walks_known() {
                assert(visitor.operands() =~= old(visitor).operands() + ((((((self.0.comparison_operands(__autarkie_val)) + self.1.comparison_operands(__autarkie_val)) + self.2.comparison_operands(__autarkie_val)) + self.3.comparison_operands(__autarkie_val)) + self.4.comparison_operands(__autarkie_val)) + self.5.comparison_operands(__autarkie_val)));
            }
        }
    }

    fn __autarkie_serialize(&self) -> (r: Vec<u8>) {
        let mut out = self.5.__autarkie_serialize();
        let mut front = self.4.__autarkie_serialize();
        front.append(&mut out);
        out = front;
        let mut front = self.3.__autarkie_serialize();
        front.append(&mut out);
        out = front;
        let mut front = self.2.__autarkie_serialize();
        front.append(&mut out);
        out = front;
        let mut front = self.1.__autarkie_serialize();
        front.append(&mut out);
        out = front;
        let mut front = self.0.__autarkie_serialize();
        front.append(&mut out);
        out = front;
        out
    }

    /// Reads the elements in turn.
    #[verifier::spinoff_prover]
    fn __autarkie_deserialize(data: &[u8], pos: usize) -> (r: Option<(Self, usize)>) {
        proof {
            assert(data@.skip(pos as int) =~= data@.skip(pos as int));
        }
        proof {
            if Self::is_lawful() {
            assert forall|x: Self| #[trigger] x.spec_serialize().is_prefix_of(data@.skip(pos as int)) implies {
                &&& x.0.spec_serialize().is_prefix_of(data@.skip(pos as int))
                &&& (x.1.spec_serialize() + (x.2.spec_serialize() + (x.3.spec_serialize() + (x.4.spec_serialize() + (x.5.spec_serialize()))))).is_prefix_of(data@.skip(pos + x.0.spec_serialize().len()))
            } by {
                lemma_tag_then(x.0.spec_serialize(), x.1.spec_serialize() + (x.2.spec_serialize() + (x.3.spec_serialize() + (x.4.spec_serialize() + (x.5.spec_serialize())))), data@.skip(pos as int));
                assert(data@.skip(pos as int).skip(x.0.spec_serialize().len() as int) =~= data@.skip(pos + x.0.spec_serialize().len()));
            }
            }
        }
        let (v0, e0) = match A::__autarkie_deserialize(data, pos) {
            Some(r) => r,
            None => {
                proof {
                    if Self::is_lawful() {
                    assert forall|x: Self| !#[trigger] x.spec_serialize().is_prefix_of(data@.skip(pos as int)) by {
                        if x.spec_serialize().is_prefix_of(data@.skip(pos as int)) {
                            assert(x.0.spec_serialize().is_prefix_of(data@.skip(pos as int)));
                        }
                    }
                    }
                }
                return None;
            },
        };
        proof {
            if Self::is_lawful() {
            assert forall|x: Self| #[trigger] x.spec_serialize().is_prefix_of(data@.skip(pos as int)) implies
                (x.1.spec_serialize() + (x.2.spec_serialize() + (x.3.spec_serialize() + (x.4.spec_serialize() + (x.5.spec_serialize()))))).is_prefix_of(data@.skip(e0 as int)) by {
                assert(x.0.spec_serialize().is_prefix_of(data@.skip(pos as int)));
            }
            }
        }
        proof {
            if Self::is_lawful() {
            assert forall|x: Self| #[trigger] x.spec_serialize().is_prefix_of(data@.skip(pos as int)) implies {
                &&& x.1.spec_serialize().is_prefix_of(data@.skip(e0 as int))
                &&& (x.2.spec_serialize() + (x.3.spec_serialize() + (x.4.spec_serialize() + (x.5.spec_serialize())))).is_prefix_of(data@.skip(e0 + x.1.spec_serialize().len()))
            } by {
                lemma_tag_then(x.1.spec_serialize(), x.2.spec_serialize() + (x.3.spec_serialize() + (x.4.spec_serialize() + (x.5.spec_serialize()))), data@.skip(e0 as int));
                assert(data@.skip(e0 as int).skip(x.1.spec_serialize().len() as int) =~= data@.skip(e0 + x.1.spec_serialize().len()));
            }
            }
        }
        let (v1, e1) = match B::__autarkie_deserialize(data, e0) {
            Some(r) => r,
            None => {
                proof {
                    if Self::is_lawful() {
                    assert forall|x: Self| !#[trigger] x.spec_serialize().is_prefix_of(data@.skip(pos as int)) by {
                        if x.spec_serialize().is_prefix_of(data@.skip(pos as int)) {
                            assert(x.1.spec_serialize().is_prefix_of(data@.skip(e0 as int)));
                        }
                    }
                    }
                }
                return None;
            },
        };
        proof {
            if Self::is_lawful() {
            assert forall|x: Self| #[trigger] x.spec_serialize().is_prefix_of(data@.skip(pos as int)) implies
                (x.2.spec_serialize() + (x.3.spec_serialize() + (x.4.spec_serialize() + (x.5.spec_serialize())))).is_prefix_of(data@.skip(e1 as int)) by {
                assert(x.1.spec_serialize().is_prefix_of(data@.skip(e0 as int)));
            }
            }
        }
        proof {
            if Self::is_lawful() {
            assert forall|x: Self| #[trigger] x.spec_serialize().is_prefix_of(data@.skip(pos as int)) implies {
                &&& x.2.spec_serialize().is_prefix_of(data@.skip(e1 as int))
                &&& (x.3.spec_serialize() + (x.4.spec_serialize() + (x.5.spec_serialize()))).is_prefix_of(data@.skip(e1 + x.2.spec_serialize().len()))
            } by {
                lemma_tag_then(x.2.spec_serialize(), x.3.spec_serialize() + (x.4.spec_serialize() + (x.5.spec_serialize())), data@.skip(e1 as int));
                assert(data@.skip(e1 as int).skip(x.2.spec_serialize().len() as int) =~= data@.skip(e1 + x.2.spec_serialize().len()));
            }
            }
        }
        let (v2, e2) = match C::__autarkie_deserialize(data, e1) {
            Some(r) => r,
            None => {
                proof {
                    if Self::is_lawful() {
                    assert forall|x: Self| !#[trigger] x.spec_serialize().is_prefix_of(data@.skip(pos as int)) by {
                        if x.spec_serialize().is_prefix_of(data@.skip(pos as int)) {
                            assert(x.2.spec_serialize().is_prefix_of(data@.skip(e1 as int)));
                        }
                    }
                    }
                }
                return None;
            },
        };
        proof {
            if Self::is_lawful() {
            assert forall|x: Self| #[trigger] x.spec_serialize().is_prefix_of(data@.skip(pos as int)) implies
                (x.3.spec_serialize() + (x.4.spec_serialize() + (x.5.spec_serialize()))).is_prefix_of(data@.skip(e2 as int)) by {
                assert(x.2.spec_serialize().is_prefix_of(data@.skip(e1 as int)));
            }
            }
        }
        proof {
            if Self::is_lawful() {
            assert forall|x: Self| #[trigger] x.spec_serialize().is_prefix_of(data@.skip(pos as int)) implies {
                &&& x.3.spec_serialize().is_prefix_of(data@.skip(e2 as int))
                &&& (x.4.spec_serialize() + (x.5.spec_serialize())).is_prefix_of(data@.skip(e2 + x.3.spec_serialize().len()))
            } by {
                lemma_tag_then(x.3.spec_serialize(), x.4.spec_serialize() + (x.5.spec_serialize()), data@.skip(e2 as int));
                assert(data@.skip(e2 as int).skip(x.3.spec_serialize().len() as int) =~= data@.skip(e2 + x.3.spec_serialize().len()));
            }
            }
        }
        let (v3, e3) = match D::__autarkie_deserialize(data, e2) {
            Some(r) => r,
            None => {
                proof {
                    if Self::is_lawful() {
                    assert forall|x: Self| !#[trigger] x.spec_serialize().is_prefix_of(data@.skip(pos as int)) by {
                        if x.spec_serialize().is_prefix_of(data@.skip(pos as int)) {
                            assert(x.3.spec_serialize().is_prefix_of(data@.skip(e2 as int)));
                        }
                    }
                    }
                }
                return None;
            },
        };
        proof {
            if Self::is_lawful() {
            assert forall|x: Self| #[trigger] x.spec_serialize().is_prefix_of(data@.skip(pos as int)) implies
                (x.4.spec_serialize() + (x.5.spec_serialize())).is_prefix_of(data@.skip(e3 as int)) by {
                assert(x.3.spec_serialize().is_prefix_of(data@.skip(e2 as int)));
            }
            }
        }
        proof {
            if Self::is_lawful() {
            assert forall|x: Self| #[trigger] x.spec_serialize().is_prefix_of(data@.skip(pos as int)) implies {
                &&& x.4.spec_serialize().is_prefix_of(data@.skip(e3 as int))
                &&& (x.5.spec_serialize()).is_prefix_of(data@.skip(e3 + x.4.spec_serialize().len()))
            } by {
                lemma_tag_then(x.4.spec_serialize(), x.5.spec_serialize(), data@.skip(e3 as int));
                assert(data@.skip(e3 as int).skip(x.4.spec_serialize().len() as int) =~= data@.skip(e3 + x.4.spec_serialize().len()));
            }
            }
        }
        let (v4, e4) = match E::__autarkie_deserialize(data, e3) {
            Some(r) => r,
            None => {
                proof {
                    if Self::is_lawful() {
                    assert forall|x: Self| !#[trigger] x.spec_serialize().is_prefix_of(data@.skip(pos as int)) by {
                        if x.spec_serialize().is_prefix_of(data@.skip(pos as int)) {
                            assert(x.4.spec_serialize().is_prefix_of(data@.skip(e3 as int)));
                        }
                    }
                    }
                }
                return None;
            },
        };
        proof {
            if Self::is_lawful() {
            assert forall|x: Self| #[trigger] x.spec_serialize().is_prefix_of(data@.skip(pos as int)) implies
                (x.5.spec_serialize()).is_prefix_of(data@.skip(e4 as int)) by {
                assert(x.4.spec_serialize().is_prefix_of(data@.skip(e3 as int)));
            }
            }
        }
        let (v5, e5) = match F::__autarkie_deserialize(data, e4) {
            Some(r) => r,
            None => {
                proof {
                    if Self::is_lawful() {
                    assert forall|x: Self| !#[trigger] x.spec_serialize().is_prefix_of(data@.skip(pos as int)) by {
                        if x.spec_serialize().is_prefix_of(data@.skip(pos as int)) {
                            assert(x.5.spec_serialize().is_prefix_of(data@.skip(e4 as int)));
                        }
                    }
                    }
                }
                return None;
            },
        };
        let r = (v0, v1, v2, v3, v4, v5);
        proof {
            if Self::is_lawful() {
            assert forall|x: Self| #[trigger] x.spec_serialize().is_prefix_of(data@.skip(pos as int)) implies
                r.spec_serialize() == x.spec_serialize() && e5 == pos + x.spec_serialize().len() by {
                assert(x.0.spec_serialize().is_prefix_of(data@.skip(pos as int)));
                assert(v0.spec_serialize() == x.0.spec_serialize());
                assert(x.1.spec_serialize().is_prefix_of(data@.skip(e0 as int)));
                assert(v1.spec_serialize() == x.1.spec_serialize());
                assert(x.2.spec_serialize().is_prefix_of(data@.skip(e1 as int)));
                assert(v2.spec_serialize() == x.2.spec_serialize());
                assert(x.3.spec_serialize().is_prefix_of(data@.skip(e2 as int)));
                assert(v3.spec_serialize() == x.3.spec_serialize());
                assert(x.4.spec_serialize().is_prefix_of(data@.skip(e3 as int)));
                assert(v4.spec_serialize() == x.4.spec_serialize());
                assert(x.5.spec_serialize().is_prefix_of(data@.skip(e4 as int)));
                assert(v5.spec_serialize() == x.5.spec_serialize());
            }
            }
        }
        Some((r, e5))
    }

    fn __autarkie_id_name() -> (r: String) {
        let mut r = "(".to_owned();
        let n0 = A::__autarkie_id_name();
        r.append(n0.as_str());
        r.append(", ");
        let n1 = B::__autarkie_id_name();
        r.append(n1.as_str());
        r.append(", ");
        let n2 = C::__autarkie_id_name();
        r.append(n2.as_str());
        r.append(", ");
        let n3 = D::__autarkie_id_name();
        r.append(n3.as_str());
        r.append(", ");
        let n4 = E::__autarkie_id_name();
        r.append(n4.as_str());
        r.append(", ");
        let n5 = F::__autarkie_id_name();
        r.append(n5.as_str());
        r.append(")");
        assert(r@ == Self::spec_name());
        r
    }
}

/// Whether generating the elements of `t` in turn, each with no settings,
/// from the visitor `before`, can give them and leave `after`.
pub open spec fn elements_7_generated<A: Node, B: Node, C: Node, D: Node, E: Node, F: Node, G: Node>(before: Visitor, t: (A, B, C, D, E, F, G), after: Visitor) -> bool {
    exists|g0: Visitor, g1: Visitor, g2: Visitor, g3: Visitor, g4: Visitor, g5: Visitor|
            #![trigger A::generation(before, None, Some(t.0), g0), B::generation(g0, None, Some(t.1), g1), C::generation(g1, None, Some(t.2), g2), D::generation(g2, None, Some(t.3), g3), E::generation(g3, None, Some(t.4), g4), F::generation(g4, None, Some(t.5), g5), G::generation(g5, None, Some(t.6), after)]
            A::generation(before, None, Some(t.0), g0)
                && B::generation(g0, None, Some(t.1), g1)
                && C::generation(g1, None, Some(t.2), g2)
                && D::generation(g2, None, Some(t.3), g3)
                && E::generation(g3, None, Some(t.4), g4)
                && F::generation(g4, None, Some(t.5), g5)
                && G::generation(g5, None, Some(t.6), after)
}

impl<A: Node, B: Node, C: Node, D: Node, E: Node, F: Node, G: Node> Node for (A, B, C, D, E, F, G) {
    open spec fn spec_serialize(&self) -> Seq<u8> {
        self.0.spec_serialize() + (self.1.spec_serialize() + (self.2.spec_serialize() + (self.3.spec_serialize() + (self.4.spec_serialize() + (self.5.spec_serialize() + (self.6.spec_serialize()))))))
    }

    open spec fn spec_name() -> Seq<char> {
        "("@ + A::spec_name() + ", "@ + B::spec_name() + ", "@ + C::spec_name() + ", "@ + D::spec_name() + ", "@ + E::spec_name() + ", "@ + F::spec_name() + ", "@ + G::spec_name() + ")"@
    }

    open spec fn is_lawful() -> bool {
        A::is_lawful() && B::is_lawful() && C::is_lawful() && D::is_lawful() && E::is_lawful() && F::is_lawful() && G::is_lawful()
    }

    open spec fn read_ok(bytes: Seq<u8>) -> bool {
        Self::is_lawful() && exists|x: Self| #[trigger] x.spec_serialize().is_prefix_of(bytes)
    }

    /// For a lawful type, a value read encodes as the start of the bytes,
    /// as any value whose encoding starts them does.
    open spec fn reading(bytes: Seq<u8>, v: Self) -> bool {
        Self::is_lawful() ==> {
            &&& v.spec_serialize().is_prefix_of(bytes)
            &&& forall|x: Self| #[trigger] x.spec_serialize().is_prefix_of(bytes) ==> v.spec_serialize()
                == x.spec_serialize()
        }
    }

    open spec fn encodes_exactly() -> bool {
        A::encodes_exactly() && B::encodes_exactly() && C::encodes_exactly() && D::encodes_exactly() && E::encodes_exactly() && F::encodes_exactly() && G::encodes_exactly()
    }

    open spec fn walks_known() -> bool {
        A::walks_known() && B::walks_known() && C::walks_known() && D::walks_known() && E::walks_known() && F::walks_known() && G::walks_known()
    }

    open spec fn node_shape(&self, shape: NodeType) -> bool {
        shape == NodeType::NonRecursive
    }

    /// A node with fixed fields.
    fn __autarkie_node_ty(&self, visitor: &Visitor) -> (r: NodeType) {
        NodeType::NonRecursive
    }

    /// Along a path, the element at its first index is mutated along the
    /// rest of it and the others are kept; at its end, the tuple is replaced.
    open spec fn mutation(&self, ty: &MutationType, path: Seq<usize>, before: Visitor, after: Self, after_v: Visitor) -> bool {
        if path.len() > 0 {
            if path[0] == 0 {
                after.1 == self.1 && after.2 == self.2 && after.3 == self.3 && after.4 == self.4 && after.5 == self.5 && after.6 == self.6 && self.0.mutation(ty, path.drop_first(), before, after.0, after_v)
            } else if path[0] == 1 {
                after.0 == self.0 && after.2 == self.2 && after.3 == self.3 && after.4 == self.4 && after.5 == self.5 && after.6 == self.6 && self.1.mutation(ty, path.drop_first(), before, after.1, after_v)
            } else if path[0] == 2 {
                after.0 == self.0 && after.1 == self.1 && after.3 == self.3 && after.4 == self.4 && after.5 == self.5 && after.6 == self.6 && self.2.mutation(ty, path.drop_first(), before, after.2, after_v)
            } else if path[0] == 3 {
                after.0 == self.0 && after.1 == self.1 && after.2 == self.2 && after.4 == self.4 && after.5 == self.5 && after.6 == self.6 && self.3.mutation(ty, path.drop_first(), before, after.3, after_v)
            } else if path[0] == 4 {
                after.0 == self.0 && after.1 == self.1 && after.2 == self.2 && after.3 == self.3 && after.5 == self.5 && after.6 == self.6 && self.4.mutation(ty, path.drop_first(), before, after.4, after_v)
            } else if path[0] == 5 {
                after.0 == self.0 && after.1 == self.1 && after.2 == self.2 && after.3 == self.3 && after.4 == self.4 && after.6 == self.6 && self.5.mutation(ty, path.drop_first(), before, after.5, after_v)
            } else if path[0] == 6 {
                after.0 == self.0 && after.1 == self.1 && after.2 == self.2 && after.3 == self.3 && after.4 == self.4 && after.5 == self.5 && self.6.mutation(ty, path.drop_first(), before, after.6, after_v)
            } else {
                false
            }
        } else {
            match *ty {
                MutationType::Splice(b) => {
                    &&& after_v == before
                    &&& Self::is_lawful() ==> forall|x: Self| #[trigger] x.spec_serialize().is_prefix_of((**b)@)
                        ==> after.spec_serialize() == x.spec_serialize()
                },
                _ => {
                    ||| after == *self && Self::generation(before, None, None, after_v)
                    ||| exists|generated: Visitor| {
                        &&& #[trigger] Self::generation(before, None, Some(after), generated)
                        &&& after_v.keeps_state(&generated)
                        &&& after_v.fields() == generated.fields()
                        &&& after_v.operands() == generated.operands()
                        &&& after_v.serialized().len() > generated.serialized().len()
                        &&& after_v.serialized_types().len() > generated.serialized_types().len()
                        &&& after_v.serialized_types().last() == Self::spec_name()
                        &&& Self::encodes_exactly() ==> after_v.serialized().last().0 == after.spec_serialize()
                        &&& Self::walks_known() && Self::encodes_exactly() ==> after_v.serialized_bytes()
                            == generated.serialized_bytes() + after.serialized_records() + seq![after.spec_serialize()]
                    }
                },
            }
        }
    }

    open spec fn first_name_ok(name: Seq<char>) -> bool {
        false
    }

    open spec fn always_generates() -> bool {
        A::always_generates() && B::always_generates() && C::always_generates() && D::always_generates() && E::always_generates() && F::always_generates() && G::always_generates()
    }

    /// Each element is what generating its type in turn gives; generation
    /// gives up at the first element that could not be generated.
    open spec fn generation(before: Visitor, settings: Option<GenerateSettings>, r: Option<Self>, after: Visitor) -> bool {
        &&& after.draws_only(&before)
        &&& r matches Some(t) ==> elements_7_generated(before, t, after)
    }

    open spec fn field_count(&self) -> nat {
        (1 + self.0.field_count()) + (1 + self.1.field_count()) + (1 + self.2.field_count()) + (1 + self.3.field_count()) + (1 + self.4.field_count()) + (1 + self.5.field_count()) + (1 + self.6.field_count())
    }

    open spec fn comparison_operands(&self, __autarkie_val: (u64, u64)) -> Seq<Seq<u8>> {
        ((((((self.0.comparison_operands(__autarkie_val)) + self.1.comparison_operands(__autarkie_val)) + self.2.comparison_operands(__autarkie_val)) + self.3.comparison_operands(__autarkie_val)) + self.4.comparison_operands(__autarkie_val)) + self.5.comparison_operands(__autarkie_val)) + self.6.comparison_operands(__autarkie_val)
    }

    open spec fn serialized_records(&self) -> Seq<Seq<u8>> {
        ((((((seq![self.0.spec_serialize()] + self.0.serialized_records()) + seq![self.1.spec_serialize()] + self.1.serialized_records()) + seq![self.2.spec_serialize()] + self.2.serialized_records()) + seq![self.3.spec_serialize()] + self.3.serialized_records()) + seq![self.4.spec_serialize()] + self.4.serialized_records()) + seq![self.5.spec_serialize()] + self.5.serialized_records()) + seq![self.6.spec_serialize()] + self.6.serialized_records()
    }

    open spec fn serialized_record_types(&self) -> Seq<Seq<char>> {
        ((((((seq![A::spec_name()] + self.0.serialized_record_types()) + seq![B::spec_name()] + self.1.serialized_record_types()) + seq![C::spec_name()] + self.2.serialized_record_types()) + seq![D::spec_name()] + self.3.serialized_record_types()) + seq![E::spec_name()] + self.4.serialized_record_types()) + seq![F::spec_name()] + self.5.serialized_record_types()) + seq![G::spec_name()] + self.6.serialized_record_types()
    }

    open spec fn generate_ok(settings: GenerateSettings, rng: u64) -> bool {
        true
    }

    open spec fn mutate_ok(&self, ty: &MutationType, path: Seq<usize>) -> bool {
        if path.len() > 0 {
            (path[0] == 0 && self.0.mutate_ok(ty, path.drop_first())) || (path[0] == 1 && self.1.mutate_ok(ty, path.drop_first())) || (path[0] == 2 && self.2.mutate_ok(ty, path.drop_first())) || (path[0] == 3 && self.3.mutate_ok(ty, path.drop_first())) || (path[0] == 4 && self.4.mutate_ok(ty, path.drop_first())) || (path[0] == 5 && self.5.mutate_ok(ty, path.drop_first())) || (path[0] == 6 && self.6.mutate_ok(ty, path.drop_first()))
        } else {
            &&& (*ty is Splice || *ty is GenerateReplace)
            &&& (*ty matches MutationType::Splice(b) ==> (Self::is_lawful() ==> exists|x: Self| #[trigger] x.spec_serialize().is_prefix_of((**b)@)))
        }
    }

    /// Each element generated in turn; generation gives up where one of
    /// them does.
    #[verifier::spinoff_prover]
    fn __autarkie_generate(
        visitor: &mut Visitor,
        depth: &mut usize,
        cur_depth: usize,
        settings: Option<GenerateSettings>,
    ) -> (r: Option<Self>) {
        let ghost p0 = *visitor;
        let f0 = match A::__autarkie_generate(visitor, depth, cur_depth, None) {
            Some(x) => x,
            None => {
                return None;
            },
        };
        let ghost p1 = *visitor;
        let f1 = match B::__autarkie_generate(visitor, depth, cur_depth, None) {
            Some(x) => x,
            None => {
                return None;
            },
        };
        let ghost p2 = *visitor;
        let f2 = match C::__autarkie_generate(visitor, depth, cur_depth, None) {
            Some(x) => x,
            None => {
                return None;
            },
        };
        let ghost p3 = *visitor;
        let f3 = match D::__autarkie_generate(visitor, depth, cur_depth, None) {
            Some(x) => x,
            None => {
                return None;
            },
        };
        let ghost p4 = *visitor;
        let f4 = match E::__autarkie_generate(visitor, depth, cur_depth, None) {
            Some(x) => x,
            None => {
                return None;
            },
        };
        let ghost p5 = *visitor;
        let f5 = match F::__autarkie_generate(visitor, depth, cur_depth, None) {
            Some(x) => x,
            None => {
                return None;
            },
        };
        let ghost p6 = *visitor;
        let f6 = match G::__autarkie_generate(visitor, depth, cur_depth, None) {
            Some(x) => x,
            None => {
                return None;
            },
        };
        let ghost gt = (f0, f1, f2, f3, f4, f5, f6);
        proof {
            assert(A::generation(p0, None, Some(gt.0), p1));
            assert(B::generation(p1, None, Some(gt.1), p2));
            assert(C::generation(p2, None, Some(gt.2), p3));
            assert(D::generation(p3, None, Some(gt.3), p4));
            assert(E::generation(p4, None, Some(gt.4), p5));
            assert(F::generation(p5, None, Some(gt.5), p6));
            assert(G::generation(p6, None, Some(gt.6), *visitor));
            assert(visitor.draws_only(&p0));
            assert(exists|g0: Visitor, g1: Visitor, g2: Visitor, g3: Visitor, g4: Visitor, g5: Visitor| A::generation(p0, None, Some(gt.0), g0) && B::generation(g0, None, Some(gt.1), g1) && C::generation(g1, None, Some(gt.2), g2) && D::generation(g2, None, Some(gt.3), g3) && E::generation(g3, None, Some(gt.4), g4) && F::generation(g4, None, Some(gt.5), g5) && G::generation(g5, None, Some(gt.6), *visitor));
            assert(elements_7_generated(p0, gt, *visitor));
        }
        Some((f0, f1, f2, f3, f4, f5, f6))
    }

    /// Along the path, mutates the element at its first index; at its end,
    /// replaces the tuple by the one the spliced bytes encode, or by a
    /// generated one whose encodings are then recorded.
    #[verifier::spinoff_prover]
    fn __autarkie_mutate(
        &mut self,
        ty: &mut MutationType,
        visitor: &mut Visitor,
        path: VecDeque<usize>,
    ) {
        let mut path = path;
        match path.pop_front() {
            Some(popped) => {
                if popped == 0 {
                    self.0.__autarkie_mutate(ty, visitor, path);
                } else if popped == 1 {
                    self.1.__autarkie_mutate(ty, visitor, path);
                } else if popped == 2 {
                    self.2.__autarkie_mutate(ty, visitor, path);
                } else if popped == 3 {
                    self.3.__autarkie_mutate(ty, visitor, path);
                } else if popped == 4 {
                    self.4.__autarkie_mutate(ty, visitor, path);
                } else if popped == 5 {
                    self.5.__autarkie_mutate(ty, visitor, path);
                } else if popped == 6 {
                    self.6.__autarkie_mutate(ty, visitor, path);
                } else {
                    proof {
                        assert(false);
                    }
                }
            },
            None => {
                match ty {
                    MutationType::Splice(other) => {
                        let bytes: &[u8] = **other;
                        proof {
                            assert(bytes@.skip(0) =~= bytes@);
                        }
                        match Self::__autarkie_deserialize(bytes, 0) {
                            Some((v, end)) => {
                                proof {
                                    if Self::is_lawful() {
                                        assert(v.spec_serialize() =~= bytes@.subrange(0, v.spec_serialize().len() as int));
                                        assert(v.spec_serialize().is_prefix_of(bytes@));
                                    }
                                }
                                *self = v;
                            },
                            None => {},
                        }
                    },
                    MutationType::GenerateReplace(bias) => {
                        match Self::__autarkie_generate(visitor, bias, 0, None) {
                            Some(generated) => {
                                *self = generated;
                                let ghost g = *visitor;
                                self.__autarkie_serialized(visitor);
                                Self::record_encoding(visitor, self.__autarkie_serialize());
                                proof {
                                    assert(Self::generation(*old(visitor), None, Some(*self), g));
                                    if Self::walks_known() && Self::encodes_exactly() {
                                        assert(visitor.serialized_bytes() =~= g.serialized_bytes()
                                            + self.serialized_records() + seq![self.spec_serialize()]);
                                    }
                                }
                            },
                            None => {},
                        }
                    },
                    _ => {
                        proof {
                            assert(false);
                        }
                    },
                }
            },
        }
    }

    /// Enters each element as a field, at its position, and records its fields.
    #[verifier::spinoff_prover]
    fn __autarkie_fields(&self, visitor: &mut Visitor, index: usize) {
        let ghost p0 = *visitor;
        let id0 = A::enter_as_field(visitor, 0, NodeType::NonRecursive).1;
        let ghost e0 = *visitor;
        self.0.__autarkie_fields(visitor, 0);
        let ghost i0 = *visitor;
        visitor.pop_field();
        proof {
            assert(field_entered(p0, ((0, NodeType::NonRecursive), id0), A::spec_name(), e0));
            assert(field_left(i0, *visitor));
            assert(walked_in_field(self.0, 0, A::spec_name(), 0, None, p0, *visitor));
        }
        let ghost p1 = *visitor;
        let id1 = B::enter_as_field(visitor, 1, NodeType::NonRecursive).1;
        let ghost e1 = *visitor;
        self.1.__autarkie_fields(visitor, 0);
        let ghost i1 = *visitor;
        visitor.pop_field();
        proof {
            assert(field_entered(p1, ((1, NodeType::NonRecursive), id1), B::spec_name(), e1));
            assert(field_left(i1, *visitor));
            assert(walked_in_field(self.1, 1, B::spec_name(), 0, None, p1, *visitor));
        }
        let ghost p2 = *visitor;
        let id2 = C::enter_as_field(visitor, 2, NodeType::NonRecursive).1;
        let ghost e2 = *visitor;
        self.2.__autarkie_fields(visitor, 0);
        let ghost i2 = *visitor;
        visitor.pop_field();
        proof {
            assert(field_entered(p2, ((2, NodeType::NonRecursive), id2), C::spec_name(), e2));
            assert(field_left(i2, *visitor));
            assert(walked_in_field(self.2, 2, C::spec_name(), 0, None, p2, *visitor));
        }
        let ghost p3 = *visitor;
        let id3 = D::enter_as_field(visitor, 3, NodeType::NonRecursive).1;
        let ghost e3 = *visitor;
        self.3.__autarkie_fields(visitor, 0);
        let ghost i3 = *visitor;
        visitor.pop_field();
        proof {
            assert(field_entered(p3, ((3, NodeType::NonRecursive), id3), D::spec_name(), e3));
            assert(field_left(i3, *visitor));
            assert(walked_in_field(self.3, 3, D::spec_name(), 0, None, p3, *visitor));
        }
        let ghost p4 = *visitor;
        let id4 = E::enter_as_field(visitor, 4, NodeType::NonRecursive).1;
        let ghost e4 = *visitor;
        self.4.__autarkie_fields(visitor, 0);
        let ghost i4 = *visitor;
        visitor.pop_field();
        proof {
            assert(field_entered(p4, ((4, NodeType::NonRecursive), id4), E::spec_name(), e4));
            assert(field_left(i4, *visitor));
            assert(walked_in_field(self.4, 4, E::spec_name(), 0, None, p4, *visitor));
        }
        let ghost p5 = *visitor;
        let id5 = F::enter_as_field(visitor, 5, NodeType::NonRecursive).1;
        let ghost e5 = *visitor;
        self.5.__autarkie_fields(visitor, 0);
        let ghost i5 = *visitor;
        visitor.pop_field();
        proof {
            assert(field_entered(p5, ((5, NodeType::NonRecursive), id5), F::spec_name(), e5));
            assert(field_left(i5, *visitor));
            assert(walked_in_field(self.5, 5, F::spec_name(), 0, None, p5, *visitor));
        }
        let ghost p6 = *visitor;
        let id6 = G::enter_as_field(visitor, 6, NodeType::NonRecursive).1;
        let ghost e6 = *visitor;
        self.6.__autarkie_fields(visitor, 0);
        let ghost i6 = *visitor;
        visitor.pop_field();
        proof {
            assert(field_entered(p6, ((6, NodeType::NonRecursive), id6), G::spec_name(), e6));
            assert(field_left(i6, *visitor));
            assert(walked_in_field(self.6, 6, G::spec_name(), 0, None, p6, *visitor));
        }
    }

    /// Each element is walked in turn, inside a field at its position, as
    /// field 0 of it.
    open spec fn walk(&self, index: usize, compared: Option<(u64, u64)>, before: Visitor, after: Visitor) -> bool {
        exists|u0: Visitor, u1: Visitor, u2: Visitor, u3: Visitor, u4: Visitor, u5: Visitor|
            #![trigger walked_in_field(self.0, 0, A::spec_name(), 0, compared, before, u0), walked_in_field(self.1, 1, B::spec_name(), 0, compared, u0, u1), walked_in_field(self.2, 2, C::spec_name(), 0, compared, u1, u2), walked_in_field(self.3, 3, D::spec_name(), 0, compared, u2, u3), walked_in_field(self.4, 4, E::spec_name(), 0, compared, u3, u4), walked_in_field(self.5, 5, F::spec_name(), 0, compared, u4, u5), walked_in_field(self.6, 6, G::spec_name(), 0, compared, u5, after)]
            walked_in_field(self.0, 0, A::spec_name(), 0, compared, before, u0)
                && walked_in_field(self.1, 1, B::spec_name(), 0, compared, u0, u1)
                && walked_in_field(self.2, 2, C::spec_name(), 0, compared, u1, u2)
                && walked_in_field(self.3, 3, D::spec_name(), 0, compared, u2, u3)
                && walked_in_field(self.4, 4, E::spec_name(), 0, compared, u3, u4)
                && walked_in_field(self.5, 5, F::spec_name(), 0, compared, u4, u5)
                && walked_in_field(self.6, 6, G::spec_name(), 0, compared, u5, after)
    }

    /// The tuple registered, then under it each element type in turn, at
    /// variant 0 (its own registration, or one edge to it where it is being
    /// registered already).
    open spec fn registration(before: Visitor, parent: Option<Id>, variant: usize, after: Visitor) -> bool {
        exists|me: Id, v1: Visitor, w0: Visitor, w1: Visitor, w2: Visitor, w3: Visitor, w4: Visitor, w5: Visitor, w6: Visitor|
            #![trigger entered(before, parent, variant, Self::spec_name(), me, v1), child_registered::<A>(v1, Some(me), 0, w0), child_registered::<B>(w0, Some(me), 0, w1), child_registered::<C>(w1, Some(me), 0, w2), child_registered::<D>(w2, Some(me), 0, w3), child_registered::<E>(w3, Some(me), 0, w4), child_registered::<F>(w4, Some(me), 0, w5), child_registered::<G>(w5, Some(me), 0, w6), left(w6, after)]
            entered(before, parent, variant, Self::spec_name(), me, v1)
                && child_registered::<A>(v1, Some(me), 0, w0)
                && child_registered::<B>(w0, Some(me), 0, w1)
                && child_registered::<C>(w1, Some(me), 0, w2)
                && child_registered::<D>(w2, Some(me), 0, w3)
                && child_registered::<E>(w3, Some(me), 0, w4)
                && child_registered::<F>(w4, Some(me), 0, w5)
                && child_registered::<G>(w5, Some(me), 0, w6)
                && left(w6, after)
    }

    /// Registers the tuple type, then under it each element type (or only
    /// the edge to it, where it is being registered already).
    #[verifier::spinoff_prover]
    #[verifier::rlimit(50)]
    fn __autarkie_register(v: &mut Visitor, parent: Option<(Id, String)>, variant: usize)
        ensures
            final(v).ty_edges().len() > old(v).ty_edges().len(),
            final(v).ty_edges()[old(v).ty_edges().len() as int].2 == variant,
    {
        let ghost v0 = *v;
        let ghost start = v.ty_edges().len();
        let me = Self::register_self(v, parent, variant);
        let me_id = me.0;
        let me_name = me.1.clone();
        let ghost v1 = *v;
        let ghost first = v.ty_edges()[start as int];
        proof {
            assert(entered(v0, parent_id(parent), variant, Self::spec_name(), me_id, v1));
        }
        register_child::<A>(v, (me_id, me_name.clone()), 0);
        let ghost w0 = *v;
        proof {
            assert(w0.extends(&v1));
        }
        register_child::<B>(v, (me_id, me_name.clone()), 0);
        let ghost w1 = *v;
        proof {
            assert(w1.extends(&v1));
        }
        register_child::<C>(v, (me_id, me_name.clone()), 0);
        let ghost w2 = *v;
        proof {
            assert(w2.extends(&v1));
        }
        register_child::<D>(v, (me_id, me_name.clone()), 0);
        let ghost w3 = *v;
        proof {
            assert(w3.extends(&v1));
        }
        register_child::<E>(v, (me_id, me_name.clone()), 0);
        let ghost w4 = *v;
        proof {
            assert(w4.extends(&v1));
        }
        register_child::<F>(v, (me_id, me_name.clone()), 0);
        let ghost w5 = *v;
        proof {
            assert(w5.extends(&v1));
        }
        register_child::<G>(v, (me_id, me_name.clone()), 0);
        let ghost w6 = *v;
        proof {
            assert(w6.extends(&v1));
        }
        let ghost v3 = *v;
        v.pop_ty();
        proof {
            assert(left(v3, *v));
            assert(v3.extends(&v1));
            assert(v0.ty_edges().is_prefix_of(v1.ty_edges()));
            assert(v0.ty_names().is_prefix_of(v1.ty_names()));
            assert(v1.ty_edges().is_prefix_of(v3.ty_edges()));
            assert(v.ty_edges()[start as int] == first);
        }
    }

    /// Records the encoding of each element, then what it records.
    #[verifier::spinoff_prover]
    #[verifier::rlimit(50)]
    fn __autarkie_serialized(&self, visitor: &mut Visitor) {
        A::record_encoding(visitor, self.0.__autarkie_serialize());
        proof {
            if Self::walks_known() && (Self::is_lawful() || Self::encodes_exactly()) {
                assert(visitor.serialized_bytes() =~= old(visitor).serialized_bytes() + (seq![self.0.spec_serialize()]));
            }
            if Self::walks_known() {
                assert(visitor.serialized_types() =~= old(visitor).serialized_types() + (seq![A::spec_name()]));
            }
        }
        self.0.__autarkie_serialized(visitor);
        proof {
            if Self::walks_known() && (Self::is_lawful() || Self::encodes_exactly()) {
                assert(visitor.serialized_bytes() =~= old(visitor).serialized_bytes() + (seq![self.0.spec_serialize()] + self.0.serialized_records()));
            }
            if Self::walks_known() {
                assert(visitor.serialized_types() =~= old(visitor).serialized_types() + (seq![A::spec_name()] + self.0.serialized_record_types()));
            }
        }
        B::record_encoding(visitor, self.1.__autarkie_serialize());
        proof {
            if Self::walks_known() && (Self::is_lawful() || Self::encodes_exactly()) {
                assert(visitor.serialized_bytes() =~= old(visitor).serialized_bytes() + ((seq![self.0.spec_serialize()] + self.0.serialized_records()) + seq![self.1.spec_serialize()]));
            }
            if Self::walks_known() {
                assert(visitor.serialized_types() =~= old(visitor).serialized_types() + ((seq![A::spec_name()] + self.0.serialized_record_types()) + seq![B::spec_name()]));
            }
        }
        self.1.__autarkie_serialized(visitor);
        proof {
            if Self::walks_known() && (Self::is_lawful() || Self::encodes_exactly()) {
                assert(visitor.serialized_bytes() =~= old(visitor).serialized_bytes() + ((seq![self.0.spec_serialize()] + self.0.serialized_records()) + seq![self.1.spec_serialize()] + self.1.serialized_records()));
            }
            if Self::walks_known() {
                assert(visitor.serialized_types() =~= old(visitor).serialized_types() + ((seq![A::spec_name()] + self.0.serialized_record_types()) + seq![B::spec_name()] + self.1.serialized_record_types()));
            }
        }
        C::record_encoding(visitor, self.2.__autarkie_serialize());
        proof {
            if Self::walks_known() && (Self::is_lawful() || Self::encodes_exactly()) {
                assert(visitor.serialized_bytes() =~= old(visitor).serialized_bytes() + (((seq![self.0.spec_serialize()] + self.0.serialized_records()) + seq![self.1.spec_serialize()] + self.1.serialized_records()) + seq![self.2.spec_serialize()]));
            }
            if Self::walks_known() {
                assert(visitor.serialized_types() =~= old(visitor).serialized_types() + (((seq![A::spec_name()] + self.0.serialized_record_types()) + seq![B::spec_name()] + self.1.serialized_record_types()) + seq![C::spec_name()]));
            }
        }
        self.2.__autarkie_serialized(visitor);
        proof {
            if Self::walks_known() && (Self::is_lawful() || Self::encodes_exactly()) {
                assert(visitor.serialized_bytes() =~= old(visitor).serialized_bytes() + (((seq![self.0.spec_serialize()] + self.0.serialized_records()) + seq![self.1.spec_serialize()] + self.1.serialized_records()) + seq![self.2.spec_serialize()] + self.2.serialized_records()));
            }
            if Self::walks_known() {
                assert(visitor.serialized_types() =~= old(visitor).serialized_types() + (((seq![A::spec_name()] + self.0.serialized_record_types()) + seq![B::spec_name()] + self.1.serialized_record_types()) + seq![C::spec_name()] + self.2.serialized_record_types()));
            }
        }
        D::record_encoding(visitor, self.3.__autarkie_serialize());
        proof {
            if Self::walks_known() && (Self::is_lawful() || Self::encodes_exactly()) {
                assert(visitor.serialized_bytes() =~= old(visitor).serialized_bytes() + ((((seq![self.0.spec_serialize()] + self.0.serialized_records()) + seq![self.1.spec_serialize()] + self.1.serialized_records()) + seq![self.2.spec_serialize()] + self.2.serialized_records()) + seq![self.3.spec_serialize()]));
            }
            if Self::walks_known() {
                assert(visitor.serialized_types() =~= old(visitor).serialized_types() + ((((seq![A::spec_name()] + self.0.serialized_record_types()) + seq![B::spec_name()] + self.1.serialized_record_types()) + seq![C::spec_name()] + self.2.serialized_record_types()) + seq![D::spec_name()]));
            }
        }
        self.3.__autarkie_serialized(visitor);
        proof {
            if Self::walks_known() && (Self::is_lawful() || Self::encodes_exactly()) {
                assert(visitor.serialized_bytes() =~= old(visitor).serialized_bytes() + ((((seq![self.0.spec_serialize()] + self.0.serialized_records()) + seq![self.1.spec_serialize()] + self.1.serialized_records()) + seq![self.2.spec_serialize()] + self.2.serialized_records()) + seq![self.3.spec_serialize()] + self.3.serialized_records()));
            }
            if Self::walks_known() {
                assert(visitor.serialized_types() =~= old(visitor).serialized_types() + ((((seq![A::spec_name()] + self.0.serialized_record_types()) + seq![B::spec_name()] + self.1.serialized_record_types()) + seq![C::spec_name()] + self.2.serialized_record_types()) + seq![D::spec_name()] + self.3.serialized_record_types()));
            }
        }
        E::record_encoding(visitor, self.4.__autarkie_serialize());
        proof {
            if Self::walks_known() && (Self::is_lawful() || Self::encodes_exactly()) {
                assert(visitor.serialized_bytes() =~= old(visitor).serialized_bytes() + (((((seq![self.0.spec_serialize()] + self.0.serialized_records()) + seq![self.1.spec_serialize()] + self.1.serialized_records()) + seq![self.2.spec_serialize()] + self.2.serialized_records()) + seq![self.3.spec_serialize()] + self.3.serialized_records()) + seq![self.4.spec_serialize()]));
            }
            if Self::walks_known() {
                assert(visitor.serialized_types() =~= old(visitor).serialized_types() + (((((seq![A::spec_name()] + self.0.serialized_record_types()) + seq![B::spec_name()] + self.1.serialized_record_types()) + seq![C::spec_name()] + self.2.serialized_record_types()) + seq![D::spec_name()] + self.3.serialized_record_types()) + seq![E::spec_name()]));
            }
        }
        self.4.__autarkie_serialized(visitor);
        proof {
            if Self::walks_known() && (Self::is_lawful() || Self::encodes_exactly()) {
                assert(visitor.serialized_bytes() =~= old(visitor).serialized_bytes() + (((((seq![self.0.spec_serialize()] + self.0.serialized_records()) + seq![self.1.spec_serialize()] + self.1.serialized_records()) + seq![self.2.spec_serialize()] + self.2.serialized_records()) + seq![self.3.spec_serialize()] + self.3.serialized_records()) + seq![self.4.spec_serialize()] + self.4.serialized_records()));
            }
            if Self::walks_known() {
                assert(visitor.serialized_types() =~= old(visitor).serialized_types() + (((((seq![A::spec_name()] + self.0.serialized_record_types()) + seq![B::spec_name()] + self.1.serialized_record_types()) + seq![C::spec_name()] + self.2.serialized_record_types()) + seq![D::spec_name()] + self.3.serialized_record_types()) + seq![E::spec_name()] + self.4.serialized_record_types()));
            }
        }
        F::record_encoding(visitor, self.5.__autarkie_serialize());
        proof {
            if Self::walks_known() && (Self::is_lawful() || Self::encodes_exactly()) {
                assert(visitor.serialized_bytes() =~= old(visitor).serialized_bytes() + ((((((seq![self.0.spec_serialize()] + self.0.serialized_records()) + seq![self.1.spec_serialize()] + self.1.serialized_records()) + seq![self.2.spec_serialize()] + self.2.serialized_records()) + seq![self.3.spec_serialize()] + self.3.serialized_records()) + seq![self.4.spec_serialize()] + self.4.serialized_records()) + seq![self.5.spec_serialize()]));
            }
            if Self::walks_known() {
                assert(visitor.serialized_types() =~= old(visitor).serialized_types() + ((((((seq![A::spec_name()] + self.0.serialized_record_types()) + seq![B::spec_name()] + self.1.serialized_record_types()) + seq![C::spec_name()] + self.2.serialized_record_types()) + seq![D::spec_name()] + self.3.serialized_record_types()) + seq![E::spec_name()] + self.4.serialized_record_types()) + seq![F::spec_name()]));
            }
        }
        self.5.__autarkie_serialized(visitor);
        proof {
            if Self::walks_known() && (Self::is_lawful() || Self::encodes_exactly()) {
                assert(visitor.serialized_bytes() =~= old(visitor).serialized_bytes() + ((((((seq![self.0.spec_serialize()] + self.0.serialized_records()) + seq![self.1.spec_serialize()] + self.1.serialized_records()) + seq![self.2.spec_serialize()] + self.2.serialized_records()) + seq![self.3.spec_serialize()] + self.3.serialized_records()) + seq![self.4.spec_serialize()] + self.4.serialized_records()) + seq![self.5.spec_serialize()] + self.5.serialized_records()));
            }
            if Self::walks_known() {
                assert(visitor.serialized_types() =~= old(visitor).serialized_types() + ((((((seq![A::spec_name()] + self.0.serialized_record_types()) + seq![B::spec_name()] + self.1.serialized_record_types()) + seq![C::spec_name()] + self.2.serialized_record_types()) + seq![D::spec_name()] + self.3.serialized_record_types()) + seq![E::spec_name()] + self.4.serialized_record_types()) + seq![F::spec_name()] + self.5.serialized_record_types()));
            }
        }
        G::record_encoding(visitor, self.6.__autarkie_serialize());
        proof {
            if Self::walks_known() && (Self::is_lawful() || Self::encodes_exactly()) {
                assert(visitor.serialized_bytes() =~= old(visitor).serialized_bytes() + (((((((seq![self.0.spec_serialize()] + self.0.serialized_records()) + seq![self.1.spec_serialize()] + self.1.serialized_records()) + seq![self.2.spec_serialize()] + self.2.serialized_records()) + seq![self.3.spec_serialize()] + self.3.serialized_records()) + seq![self.4.spec_serialize()] + self.4.serialized_records()) + seq![self.5.spec_serialize()] + self.5.serialized_records()) + seq![self.6.spec_serialize()]));
            }
            if Self::walks_known() {
                assert(visitor.serialized_types() =~= old(visitor).serialized_types() + (((((((seq![A::spec_name()] + self.0.serialized_record_types()) + seq![B::spec_name()] + self.1.serialized_record_types()) + seq![C::spec_name()] + self.2.serialized_record_types()) + seq![D::spec_name()] + self.3.serialized_record_types()) + seq![E::spec_name()] + self.4.serialized_record_types()) + seq![F::spec_name()] + self.5.serialized_record_types()) + seq![G::spec_name()]));
            }
        }
        self.6.__autarkie_serialized(visitor);
        proof {
            if Self::walks_known() && (Self::is_lawful() || Self::encodes_exactly()) {
                assert(visitor.serialized_bytes() =~= old(visitor).serialized_bytes() + (((((((seq![self.0.spec_serialize()] + self.0.serialized_records()) + seq![self.1.spec_serialize()] + self.1.serialized_records()) + seq![self.2.spec_serialize()] + self.2.serialized_records()) + seq![self.3.spec_serialize()] + self.3.serialized_records()) + seq![self.4.spec_serialize()] + self.4.serialized_records()) + seq![self.5.spec_serialize()] + self.5.serialized_records()) + seq![self.6.spec_serialize()] + self.6.serialized_records()));
            }
            if Self::walks_known() {
                assert(visitor.serialized_types() =~= old(visitor).serialized_types() + (((((((seq![A::spec_name()] + self.0.serialized_record_types()) + seq![B::spec_name()] + self.1.serialized_record_types()) + seq![C::spec_name()] + self.2.serialized_record_types()) + seq![D::spec_name()] + self.3.serialized_record_types()) + seq![E::spec_name()] + self.4.serialized_record_types()) + seq![F::spec_name()] + self.5.serialized_record_types()) + seq![G::spec_name()] + self.6.serialized_record_types()));
            }
        }
    }

    /// Enters each element as a field, at its position, and records its
    /// comparison operands.
    #[verifier::spinoff_prover]
    fn __autarkie_cmps(&self, visitor: &mut Visitor, index: usize, __autarkie_val: (u64, u64)) {
        let ghost p0 = *visitor;
        let id0 = A::enter_as_field(visitor, 0, NodeType::NonRecursive).1;
        let ghost e0 = *visitor;
        self.0.__autarkie_cmps(visitor, 0, __autarkie_val);
        let ghost i0 = *visitor;
        visitor.pop_field();
        proof {
            assert(field_entered(p0, ((0, NodeType::NonRecursive), id0), A::spec_name(), e0));
            assert(field_left(i0, *visitor));
            assert(walked_in_field(self.0, 0, A::spec_name(), 0, Some(__autarkie_val), p0, *visitor));
            if Self::walks_known() {
                assert(visitor.operands() =~= old(visitor).operands() + (self.0.comparison_operands(__autarkie_val)));
            }
        }
        let ghost p1 = *visitor;
        let id1 = B::enter_as_field(visitor, 1, NodeType::NonRecursive).1;
        let ghost e1 = *visitor;
        self.1.__autarkie_cmps(visitor, 0, __autarkie_val);
        let ghost i1 = *visitor;
        visitor.pop_field();
        proof {
            assert(field_entered(p1, ((1, NodeType::NonRecursive), id1), B::spec_name(), e1));
            assert(field_left(i1, *visitor));
            assert(walked_in_field(self.1, 1, B::spec_name(), 0, Some(__autarkie_val), p1, *visitor));
            if Self::walks_known() {
                assert(visitor.operands() =~= old(visitor).operands() + ((self.0.comparison_operands(__autarkie_val)) + self.1.comparison_operands(__autarkie_val)));
            }
        }
        let ghost p2 = *visitor;
        let id2 = C::enter_as_field(visitor, 2, NodeType::NonRecursive).1;
        let ghost e2 = *visitor;
        self.2.__autarkie_cmps(visitor, 0, __autarkie_val);
        let ghost i2 = *visitor;
        visitor.pop_field();
        proof {
            assert(field_entered(p2, ((2, NodeType::NonRecursive), id2), C::spec_name(), e2));
            assert(field_left(i2, *visitor));
            assert(walked_in_field(self.2, 2, C::spec_name(), 0, Some(__autarkie_val), p2, *visitor));
            if Self::walks_known() {
                assert(visitor.operands() =~= old(visitor).operands() + (((self.0.comparison_operands(__autarkie_val)) + self.1.comparison_operands(__autarkie_val)) + self.2.comparison_operands(__autarkie_val)));
            }
        }
        let ghost p3 = *visitor;
        let id3 = D::enter_as_field(visitor, 3, NodeType::NonRecursive).1;
        let ghost e3 = *visitor;
        self.3.__autarkie_cmps(visitor, 0, __autarkie_val);
        let ghost i3 = *visitor;
        visitor.pop_field();
        proof {
            assert(field_entered(p3, ((3, NodeType::NonRecursive), id3), D::spec_name(), e3));
            assert(field_left(i3, *visitor));
            assert(walked_in_field(self.3, 3, D::spec_name(), 0, Some(__autarkie_val), p3, *visitor));
            if Self::walks_known() {
                assert(visitor.operands() =~= old(visitor).operands() + ((((self.0.comparison_operands(__autarkie_val)) + self.1.comparison_operands(__autarkie_val)) + self.2.comparison_operands(__autarkie_val)) + self.3.comparison_operands(__autarkie_val)));
            }
        }
        let ghost p4 = *visitor;
        let id4 = E::enter_as_field(visitor, 4, NodeType::NonRecursive).1;
        let ghost e4 = *visitor;
        self.4.__autarkie_cmps(visitor, 0, __autarkie_val);
        let ghost i4 = *visitor;
        visitor.pop_field();
        proof {
            assert(field_entered(p4, ((4, NodeType::NonRecursive), id4), E::spec_name(), e4));
            assert(field_left(i4, *visitor));
            assert(walked_in_field(self.4, 4, E::spec_name(), 0, Some(__autarkie_val), p4, *visitor));
            if Self::walks_known() {
                assert(visitor.operands() =~= old(visitor).operands() + (((((self.0.comparison_operands(__autarkie_val)) + self.1.comparison_operands(__autarkie_val)) + self.2.comparison_operands(__autarkie_val)) + self.3.comparison_operands(__autarkie_val)) + self.4.comparison_operands(__autarkie_val)));
            }
        }
        let ghost p5 = *visitor;
        let id5 = F::enter_as_field(visitor, 5, NodeType::NonRecursive).1;
        let ghost e5 = *visitor;
        self.5.__autarkie_cmps(visitor, 0, __autarkie_val);
        let ghost i5 = *visitor;
        visitor.pop_field();
        proof {
            assert(field_entered(p5, ((5, NodeType::NonRecursive), id5), F::spec_name(), e5));
            assert(field_left(i5, *visitor));
            assert(walked_in_field(self.5, 5, F::spec_name(), 0, Some(__autarkie_val), p5, *visitor));
            if Self::walks_known() {
                assert(visitor.operands() =~= old(visitor).operands() + ((((((self.0.comparison_operands(__autarkie_val)) + self.1.comparison_operands(__autarkie_val)) + self.2.comparison_operands(__autarkie_val)) + self.3.comparison_operands(__autarkie_val)) + self.4.comparison_operands(__autarkie_val)) + self.5.comparison_operands(__autarkie_val)));
            }
        }
        let ghost p6 = *visitor;
        let id6 = G::enter_as_field(visitor, 6, NodeType::NonRecursive).1;
        let ghost e6 = *visitor;
        self.6.__autarkie_cmps(visitor, 0, __autarkie_val);
        let ghost i6 = *visitor;
        visitor.pop_field();
        proof {
            assert(field_entered(p6, ((6, NodeType::NonRecursive), id6), G::spec_name(), e6));
            assert(field_left(i6, *visitor));
            assert(walked_in_field(self.6, 6, G::spec_name(), 0, Some(__autarkie_val), p6, *visitor));
            if Self::walks_known() {
                assert(visitor.operands() =~= old(visitor).operands() + (((((((self.0.comparison_operands(__autarkie_val)) + self.1.comparison_operands(__autarkie_val)) + self.2.comparison_operands(__autarkie_val)) + self.3.comparison_operands(__autarkie_val)) + self.4.comparison_operands(__autarkie_val)) + self.5.comparison_operands(__autarkie_val)) + self.6.comparison_operands(__autarkie_val)));
            }
        }
    }

    fn __autarkie_serialize(&self) -> (r: Vec<u8>) {
        let mut out = self.6.__autarkie_serialize();
        let mut front = self.5.__autarkie_serialize();
        front.append(&mut out);
        out = front;
        let mut front = self.4.__autarkie_serialize();
        front.append(&mut out);
        out = front;
        let mut front = self.3.__autarkie_serialize();
        front.append(&mut out);
        out = front;
        let mut front = self.2.__autarkie_serialize();
        front.append(&mut out);
        out = front;
        let mut front = self.1.__autarkie_serialize();
        front.append(&mut out);
        out = front;
        let mut front = self.0.__autarkie_serialize();
        front.append(&mut out);
        out = front;
        out
    }

    /// Reads the elements in turn.
    #[verifier::spinoff_prover]
    fn __autarkie_deserialize(data: &[u8], pos: usize) -> (r: Option<(Self, usize)>) {
        proof {
            assert(data@.skip(pos as int) =~= data@.skip(pos as int));
        }
        proof {
            if Self::is_lawful() {
            assert forall|x: Self| #[trigger] x.spec_serialize().is_prefix_of(data@.skip(pos as int)) implies {
                &&& x.0.spec_serialize().is_prefix_of(data@.skip(pos as int))
                &&& (x.1.spec_serialize() + (x.2.spec_serialize() + (x.3.spec_serialize() + (x.4.spec_serialize() + (x.5.spec_serialize() + (x.6.spec_serialize())))))).is_prefix_of(data@.skip(pos + x.0.spec_serialize().len()))
            } by {
                lemma_tag_then(x.0.spec_serialize(), x.1.spec_serialize() + (x.2.spec_serialize() + (x.3.spec_serialize() + (x.4.spec_serialize() + (x.5.spec_serialize() + (x.6.spec_serialize()))))), data@.skip(pos as int));
                assert(data@.skip(pos as int).skip(x.0.spec_serialize().len() as int) =~= data@.skip(pos + x.0.spec_serialize().len()));
            }
            }
        }
        let (v0, e0) = match A::__autarkie_deserialize(data, pos) {
            Some(r) => r,
            None => {
                proof {
                    if Self::is_lawful() {
                    assert forall|x: Self| !#[trigger] x.spec_serialize().is_prefix_of(data@.skip(pos as int)) by {
                        if x.spec_serialize().is_prefix_of(data@.skip(pos as int)) {
                            assert(x.0.spec_serialize().is_prefix_of(data@.skip(pos as int)));
                        }
                    }
                    }
                }
                return None;
            },
        };
        proof {
            if Self::is_lawful() {
            assert forall|x: Self| #[trigger] x.spec_serialize().is_prefix_of(data@.skip(pos as int)) implies
                (x.1.spec_serialize() + (x.2.spec_serialize() + (x.3.spec_serialize() + (x.4.spec_serialize() + (x.5.spec_serialize() + (x.6.spec_serialize())))))).is_prefix_of(data@.skip(e0 as int)) by {
                assert(x.0.spec_serialize().is_prefix_of(data@.skip(pos as int)));
            }
            }
        }
        proof {
            if Self::is_lawful() {
            assert forall|x: Self| #[trigger] x.spec_serialize().is_prefix_of(data@.skip(pos as int)) implies {
                &&& x.1.spec_serialize().is_prefix_of(data@.skip(e0 as int))
                &&& (x.2.spec_serialize() + (x.3.spec_serialize() + (x.4.spec_serialize() + (x.5.spec_serialize() + (x.6.spec_serialize()))))).is_prefix_of(data@.skip(e0 + x.1.spec_serialize().len()))
            } by {
                lemma_tag_then(x.1.spec_serialize(), x.2.spec_serialize() + (x.3.spec_serialize() + (x.4.spec_serialize() + (x.5.spec_serialize() + (x.6.spec_serialize())))), data@.skip(e0 as int));
                assert(data@.skip(e0 as int).skip(x.1.spec_serialize().len() as int) =~= data@.skip(e0 + x.1.spec_serialize().len()));
            }
            }
        }
        let (v1, e1) = match B::__autarkie_deserialize(data, e0) {
            Some(r) => r,
            None => {
                proof {
                    if Self::is_lawful() {
                    assert forall|x: Self| !#[trigger] x.spec_serialize().is_prefix_of(data@.skip(pos as int)) by {
                        if x.spec_serialize().is_prefix_of(data@.skip(pos as int)) {
                            assert(x.1.spec_serialize().is_prefix_of(data@.skip(e0 as int)));
                        }
                    }
                    }
                }
                return None;
            },
        };
        proof {
            if Self::is_lawful() {
            assert forall|x: Self| #[trigger] x.spec_serialize().is_prefix_of(data@.skip(pos as int)) implies
                (x.2.spec_serialize() + (x.3.spec_serialize() + (x.4.spec_serialize() + (x.5.spec_serialize() + (x.6.spec_serialize()))))).is_prefix_of(data@.skip(e1 as int)) by {
                assert(x.1.spec_serialize().is_prefix_of(data@.skip(e0 as int)));
            }
            }
        }
        proof {
            if Self::is_lawful() {
            assert forall|x: Self| #[trigger] x.spec_serialize().is_prefix_of(data@.skip(pos as int)) implies {
                &&& x.2.spec_serialize().is_prefix_of(data@.skip(e1 as int))
                &&& (x.3.spec_serialize() + (x.4.spec_serialize() + (x.5.spec_serialize() + (x.6.spec_serialize())))).is_prefix_of(data@.skip(e1 + x.2.spec_serialize().len()))
            } by {
                lemma_tag_then(x.2.spec_serialize(), x.3.spec_serialize() + (x.4.spec_serialize() + (x.5.spec_serialize() + (x.6.spec_serialize()))), data@.skip(e1 as int));
                assert(data@.skip(e1 as int).skip(x.2.spec_serialize().len() as int) =~= data@.skip(e1 + x.2.spec_serialize().len()));
            }
            }
        }
        let (v2, e2) = match C::__autarkie_deserialize(data, e1) {
            Some(r) => r,
            None => {
                proof {
                    if Self::is_lawful() {
                    assert forall|x: Self| !#[trigger] x.spec_serialize().is_prefix_of(data@.skip(pos as int)) by {
                        if x.spec_serialize().is_prefix_of(data@.skip(pos as int)) {
                            assert(x.2.spec_serialize().is_prefix_of(data@.skip(e1 as int)));
                        }
                    }
                    }
                }
                return None;
            },
        };
        proof {
            if Self::is_lawful() {
            assert forall|x: Self| #[trigger] x.spec_serialize().is_prefix_of(data@.skip(pos as int)) implies
                (x.3.spec_serialize() + (x.4.spec_serialize() + (x.5.spec_serialize() + (x.6.spec_serialize())))).is_prefix_of(data@.skip(e2 as int)) by {
                assert(x.2.spec_serialize().is_prefix_of(data@.skip(e1 as int)));
            }
            }
        }
        proof {
            if Self::is_lawful() {
            assert forall|x: Self| #[trigger] x.spec_serialize().is_prefix_of(data@.skip(pos as int)) implies {
                &&& x.3.spec_serialize().is_prefix_of(data@.skip(e2 as int))
                &&& (x.4.spec_serialize() + (x.5.spec_serialize() + (x.6.spec_serialize()))).is_prefix_of(data@.skip(e2 + x.3.spec_serialize().len()))
            } by {
                lemma_tag_then(x.3.spec_serialize(), x.4.spec_serialize() + (x.5.spec_serialize() + (x.6.spec_serialize())), data@.skip(e2 as int));
                assert(data@.skip(e2 as int).skip(x.3.spec_serialize().len() as int) =~= data@.skip(e2 + x.3.spec_serialize().len()));
            }
            }
        }
        let (v3, e3) = match D::__autarkie_deserialize(data, e2) {
            Some(r) => r,
            None => {
                proof {
                    if Self::is_lawful() {
                    assert forall|x: Self| !#[trigger] x.spec_serialize().is_prefix_of(data@.skip(pos as int)) by {
                        if x.spec_serialize().is_prefix_of(data@.skip(pos as int)) {
                            assert(x.3.spec_serialize().is_prefix_of(data@.skip(e2 as int)));
                        }
                    }
                    }
                }
                return None;
            },
        };
        proof {
            if Self::is_lawful() {
            assert forall|x: Self| #[trigger] x.spec_serialize().is_prefix_of(data@.skip(pos as int)) implies
                (x.4.spec_serialize() + (x.5.spec_serialize() + (x.6.spec_serialize()))).is_prefix_of(data@.skip(e3 as int)) by {
                assert(x.3.spec_serialize().is_prefix_of(data@.skip(e2 as int)));
            }
            }
        }
        proof {
            if Self::is_lawful() {
            assert forall|x: Self| #[trigger] x.spec_serialize().is_prefix_of(data@.skip(pos as int)) implies {
                &&& x.4.spec_serialize().is_prefix_of(data@.skip(e3 as int))
                &&& (x.5.spec_serialize() + (x.6.spec_serialize())).is_prefix_of(data@.skip(e3 + x.4.spec_serialize().len()))
            } by {
                lemma_tag_then(x.4.spec_serialize(), x.5.spec_serialize() + (x.6.spec_serialize()), data@.skip(e3 as int));
                assert(data@.skip(e3 as int).skip(x.4.spec_serialize().len() as int) =~= data@.skip(e3 + x.4.spec_serialize().len()));
            }
            }
        }
        let (v4, e4) = match E::__autarkie_deserialize(data, e3) {
            Some(r) => r,
            None => {
                proof {
                    if Self::is_lawful() {
                    assert forall|x: Self| !#[trigger] x.spec_serialize().is_prefix_of(data@.skip(pos as int)) by {
                        if x.spec_serialize().is_prefix_of(data@.skip(pos as int)) {
                            assert(x.4.spec_serialize().is_prefix_of(data@.skip(e3 as int)));
                        }
                    }
                    }
                }
                return None;
            },
        };
        proof {
            if Self::is_lawful() {
            assert forall|x: Self| #[trigger] x.spec_serialize().is_prefix_of(data@.skip(pos as int)) implies
                (x.5.spec_serialize() + (x.6.spec_serialize())).is_prefix_of(data@.skip(e4 as int)) by {
                assert(x.4.spec_serialize().is_prefix_of(data@.skip(e3 as int)));
            }
            }
        }
        proof {
            if Self::is_lawful() {
            assert forall|x: Self| #[trigger] x.spec_serialize().is_prefix_of(data@.skip(pos as int)) implies {
                &&& x.5.spec_serialize().is_prefix_of(data@.skip(e4 as int))
                &&& (x.6.spec_serialize()).is_prefix_of(data@.skip(e4 + x.5.spec_serialize().len()))
            } by {
                lemma_tag_then(x.5.spec_serialize(), x.6.spec_serialize(), data@.skip(e4 as int));
                assert(data@.skip(e4 as int).skip(x.5.spec_serialize().len() as int) =~= data@.skip(e4 + x.5.spec_serialize().len()));
            }
            }
        }
        let (v5, e5) = match F::__autarkie_deserialize(data, e4) {
            Some(r) => r,
            None => {
                proof {
                    if Self::is_lawful() {
                    assert forall|x: Self| !#[trigger] x.spec_serialize().is_prefix_of(data@.skip(pos as int)) by {
                        if x.spec_serialize().is_prefix_of(data@.skip(pos as int)) {
                            assert(x.5.spec_serialize().is_prefix_of(data@.skip(e4 as int)));
                        }
                    }
                    }
                }
                return None;
            },
        };
        proof {
            if Self::is_lawful() {
            assert forall|x: Self| #[trigger] x.spec_serialize().is_prefix_of(data@.skip(pos as int)) implies
                (x.6.spec_serialize()).is_prefix_of(data@.skip(e5 as int)) by {
                assert(x.5.spec_serialize().is_prefix_of(data@.skip(e4 as int)));
            }
            }
        }
        let (v6, e6) = match G::__autarkie_deserialize(data, e5) {
            Some(r) => r,
            None => {
                proof {
                    if Self::is_lawful() {
                    assert forall|x: Self| !#[trigger] x.spec_serialize().is_prefix_of(data@.skip(pos as int)) by {
                        if x.spec_serialize().is_prefix_of(data@.skip(pos as int)) {
                            assert(x.6.spec_serialize().is_prefix_of(data@.skip(e5 as int)));
                        }
                    }
                    }
                }
                return None;
            },
        };
        let r = (v0, v1, v2, v3, v4, v5, v6);
        proof {
            if Self::is_lawful() {
            assert forall|x: Self| #[trigger] x.spec_serialize().is_prefix_of(data@.skip(pos as int)) implies
                r.spec_serialize() == x.spec_serialize() && e6 == pos + x.spec_serialize().len() by {
                assert(x.0.spec_serialize().is_prefix_of(data@.skip(pos as int)));
                assert(v0.spec_serialize() == x.0.spec_serialize());
                assert(x.1.spec_serialize().is_prefix_of(data@.skip(e0 as int)));
                assert(v1.spec_serialize() == x.1.spec_serialize());
                assert(x.2.spec_serialize().is_prefix_of(data@.skip(e1 as int)));
                assert(v2.spec_serialize() == x.2.spec_serialize());
                assert(x.3.spec_serialize().is_prefix_of(data@.skip(e2 as int)));
                assert(v3.spec_serialize() == x.3.spec_serialize());
                assert(x.4.spec_serialize().is_prefix_of(data@.skip(e3 as int)));
                assert(v4.spec_serialize() == x.4.spec_serialize());
                assert(x.5.spec_serialize().is_prefix_of(data@.skip(e4 as int)));
                assert(v5.spec_serialize() == x.5.spec_serialize());
                assert(x.6.spec_serialize().is_prefix_of(data@.skip(e5 as int)));
                assert(v6.spec_serialize() == x.6.spec_serialize());
            }
            }
        }
        Some((r, e6))
    }

    fn __autarkie_id_name() -> (r: String) {
        let mut r = "(".to_owned();
        let n0 = A::__autarkie_id_name();
        r.append(n0.as_str());
        r.append(", ");
        let n1 = B::__autarkie_id_name();
        r.append(n1.as_str());
        r.append(", ");
        let n2 = C::__autarkie_id_name();
        r.append(n2.as_str());
        r.append(", ");
        let n3 = D::__autarkie_id_name();
        r.append(n3.as_str());
        r.append(", ");
        let n4 = E::__autarkie_id_name();
        r.append(n4.as_str());
        r.append(", ");
        let n5 = F::__autarkie_id_name();
        r.append(n5.as_str());
        r.append(", ");
        let n6 = G::__autarkie_id_name();
        r.append(n6.as_str());
        r.append(")");
        assert(r@ == Self::spec_name());
        r
    }
}

/// Whether generating the elements of `t` in turn, each with no settings,
/// from the visitor `before`, can give them and leave `after`.
pub open spec fn elements_8_generated<A: Node, B: Node, C: Node, D: Node, E: Node, F: Node, G: Node, H: Node>(before: Visitor, t: (A, B, C, D, E, F, G, H), after: Visitor) -> bool {
    exists|g0: Visitor, g1: Visitor, g2: Visitor, g3: Visitor, g4: Visitor, g5: Visitor, g6: Visitor|
            #![trigger A::generation(before, None, Some(t.0), g0), B::generation(g0, None, Some(t.1), g1), C::generation(g1, None, Some(t.2), g2), D::generation(g2, None, Some(t.3), g3), E::generation(g3, None, Some(t.4), g4), F::generation(g4, None, Some(t.5), g5), G::generation(g5, None, Some(t.6), g6), H::generation(g6, None, Some(t.7), after)]
            A::generation(before, None, Some(t.0), g0)
                && B::generation(g0, None, Some(t.1), g1)
                && C::generation(g1, None, Some(t.2), g2)
                && D::generation(g2, None, Some(t.3), g3)
                && E::generation(g3, None, Some(t.4), g4)
                && F::generation(g4, None, Some(t.5), g5)
                && G::generation(g5, None, Some(t.6), g6)
                && H::generation(g6, None, Some(t.7), after)
}

impl<A: Node, B: Node, C: Node, D: Node, E: Node, F: Node, G: Node, H: Node> Node for (A, B, C, D, E, F, G, H) {
    open spec fn spec_serialize(&self) -> Seq<u8> {
        self.0.spec_serialize() + (self.1.spec_serialize() + (self.2.spec_serialize() + (self.3.spec_serialize() + (self.4.spec_serialize() + (self.5.spec_serialize() + (self.6.spec_serialize() + (self.7.spec_serialize())))))))
    }

    open spec fn spec_name() -> Seq<char> {
        "("@ + A::spec_name() + ", "@ + B::spec_name() + ", "@ + C::spec_name() + ", "@ + D::spec_name() + ", "@ + E::spec_name() + ", "@ + F::spec_name() + ", "@ + G::spec_name() + ", "@ + H::spec_name() + ")"@
    }

    open spec fn is_lawful() -> bool {
        A::is_lawful() && B::is_lawful() && C::is_lawful() && D::is_lawful() && E::is_lawful() && F::is_lawful() && G::is_lawful() && H::is_lawful()
    }

    open spec fn read_ok(bytes: Seq<u8>) -> bool {
        Self::is_lawful() && exists|x: Self| #[trigger] x.spec_serialize().is_prefix_of(bytes)
    }

    /// For a lawful type, a value read encodes as the start of the bytes,
    /// as any value whose encoding starts them does.
    open spec fn reading(bytes: Seq<u8>, v: Self) -> bool {
        Self::is_lawful() ==> {
            &&& v.spec_serialize().is_prefix_of(bytes)
            &&& forall|x: Self| #[trigger] x.spec_serialize().is_prefix_of(bytes) ==> v.spec_serialize()
                == x.spec_serialize()
        }
    }

    open spec fn encodes_exactly() -> bool {
        A::encodes_exactly() && B::encodes_exactly() && C::encodes_exactly() && D::encodes_exactly() && E::encodes_exactly() && F::encodes_exactly() && G::encodes_exactly() && H::encodes_exactly()
    }

    open spec fn walks_known() -> bool {
        A::walks_known() && B::walks_known() && C::walks_known() && D::walks_known() && E::walks_known() && F::walks_known() && G::walks_known() && H::walks_known()
    }

    open spec fn node_shape(&self, shape: NodeType) -> bool {
        shape == NodeType::NonRecursive
    }

    /// A node with fixed fields.
    fn __autarkie_node_ty(&self, visitor: &Visitor) -> (r: NodeType) {
        NodeType::NonRecursive
    }

    /// Along a path, the element at its first index is mutated along the
    /// rest of it and the others are kept; at its end, the tuple is replaced.
    open spec fn mutation(&self, ty: &MutationType, path: Seq<usize>, before: Visitor, after: Self, after_v: Visitor) -> bool {
        if path.len() > 0 {
            if path[0] == 0 {
                after.1 == self.1 && after.2 == self.2 && after.3 == self.3 && after.4 == self.4 && after.5 == self.5 && after.6 == self.6 && after.7 == self.7 && self.0.mutation(ty, path.drop_first(), before, after.0, after_v)
            } else if path[0] == 1 {
                after.0 == self.0 && after.2 == self.2 && after.3 == self.3 && after.4 == self.4 && after.5 == self.5 && after.6 == self.6 && after.7 == self.7 && self.1.mutation(ty, path.drop_first(), before, after.1, after_v)
            } else if path[0] == 2 {
                after.0 == self.0 && after.1 == self.1 && after.3 == self.3 && after.4 == self.4 && after.5 == self.5 && after.6 == self.6 && after.7 == self.7 && self.2.mutation(ty, path.drop_first(), before, after.2, after_v)
            } else if path[0] == 3 {
                after.0 == self.0 && after.1 == self.1 && after.2 == self.2 && after.4 == self.4 && after.5 == self.5 && after.6 == self.6 && after.7 == self.7 && self.3.mutation(ty, path.drop_first(), before, after.3, after_v)
            } else if path[0] == 4 {
                after.0 == self.0 && after.1 == self.1 && after.2 == self.2 && after.3 == self.3 && after.5 == self.5 && after.6 == self.6 && after.7 == self.7 && self.4.mutation(ty, path.drop_first(), before, after.4, after_v)
            } else if path[0] == 5 {
                after.0 == self.0 && after.1 == self.1 && after.2 == self.2 && after.3 == self.3 && after.4 == self.4 && after.6 == self.6 && after.7 == self.7 && self.5.mutation(ty, path.drop_first(), before, after.5, after_v)
            } else if path[0] == 6 {
                after.0 == self.0 && after.1 == self.1 && after.2 == self.2 && after.3 == self.3 && after.4 == self.4 && after.5 == self.5 && after.7 == self.7 && self.6.mutation(ty, path.drop_first(), before, after.6, after_v)
            } else if path[0] == 7 {
                after.0 == self.0 && after.1 == self.1 && after.2 == self.2 && after.3 == self.3 && after.4 == self.4 && after.5 == self.5 && after.6 == self.6 && self.7.mutation(ty, path.drop_first(), before, after.7, after_v)
            } else {
                false
            }
        } else {
            match *ty {
                MutationType::Splice(b) => {
                    &&& after_v == before
                    &&& Self::is_lawful() ==> forall|x: Self| #[trigger] x.spec_serialize().is_prefix_of((**b)@)
                        ==> after.spec_serialize() == x.spec_serialize()
                },
                _ => {
                    ||| after == *self && Self::generation(before, None, None, after_v)
                    ||| exists|generated: Visitor| {
                        &&& #[trigger] Self::generation(before, None, Some(after), generated)
                        &&& after_v.keeps_state(&generated)
                        &&& after_v.fields() == generated.fields()
                        &&& after_v.operands() == generated.operands()
                        &&& after_v.serialized().len() > generated.serialized().len()
                        &&& after_v.serialized_types().len() > generated.serialized_types().len()
                        &&& after_v.serialized_types().last() == Self::spec_name()
                        &&& Self::encodes_exactly() ==> after_v.serialized().last().0 == after.spec_serialize()
                        &&& Self::walks_known() && Self::encodes_exactly() ==> after_v.serialized_bytes()
                            == generated.serialized_bytes() + after.serialized_records() + seq![after.spec_serialize()]
                    }
                },
            }
        }
    }

    open spec fn first_name_ok(name: Seq<char>) -> bool {
        false
    }

    open spec fn always_generates() -> bool {
        A::always_generates() && B::always_generates() && C::always_generates() && D::always_generates() && E::always_generates() && F::always_generates() && G::always_generates() && H::always_generates()
    }

    /// Each element is what generating its type in turn gives; generation
    /// gives up at the first element that could not be generated.
    open spec fn generation(before: Visitor, settings: Option<GenerateSettings>, r: Option<Self>, after: Visitor) -> bool {
        &&& after.draws_only(&before)
        &&& r matches Some(t) ==> elements_8_generated(before, t, after)
    }

    open spec fn field_count(&self) -> nat {
        (1 + self.0.field_count()) + (1 + self.1.field_count()) + (1 + self.2.field_count()) + (1 + self.3.field_count()) + (1 + self.4.field_count()) + (1 + self.5.field_count()) + (1 + self.6.field_count()) + (1 + self.7.field_count())
    }

    open spec fn comparison_operands(&self, __autarkie_val: (u64, u64)) -> Seq<Seq<u8>> {
        (((((((self.0.comparison_operands(__autarkie_val)) + self.1.comparison_operands(__autarkie_val)) + self.2.comparison_operands(__autarkie_val)) + self.3.comparison_operands(__autarkie_val)) + self.4.comparison_operands(__autarkie_val)) + self.5.comparison_operands(__autarkie_val)) + self.6.comparison_operands(__autarkie_val)) + self.7.comparison_operands(__autarkie_val)
    }

    open spec fn serialized_records(&self) -> Seq<Seq<u8>> {
        (((((((seq![self.0.spec_serialize()] + self.0.serialized_records()) + seq![self.1.spec_serialize()] + self.1.serialized_records()) + seq![self.2.spec_serialize()] + self.2.serialized_records()) + seq![self.3.spec_serialize()] + self.3.serialized_records()) + seq![self.4.spec_serialize()] + self.4.serialized_records()) + seq![self.5.spec_serialize()] + self.5.serialized_records()) + seq![self.6.spec_serialize()] + self.6.serialized_records()) + seq![self.7.spec_serialize()] + self.7.serialized_records()
    }

    open spec fn serialized_record_types(&self) -> Seq<Seq<char>> {
        (((((((seq![A::spec_name()] + self.0.serialized_record_types()) + seq![B::spec_name()] + self.1.serialized_record_types()) + seq![C::spec_name()] + self.2.serialized_record_types()) + seq![D::spec_name()] + self.3.serialized_record_types()) + seq![E::spec_name()] + self.4.serialized_record_types()) + seq![F::spec_name()] + self.5.serialized_record_types()) + seq![G::spec_name()] + self.6.serialized_record_types()) + seq![H::spec_name()] + self.7.serialized_record_types()
    }

    open spec fn generate_ok(settings: GenerateSettings, rng: u64) -> bool {
        true
    }

    open spec fn mutate_ok(&self, ty: &MutationType, path: Seq<usize>) -> bool {
        if path.len() > 0 {
            (path[0] == 0 && self.0.mutate_ok(ty, path.drop_first())) || (path[0] == 1 && self.1.mutate_ok(ty, path.drop_first())) || (path[0] == 2 && self.2.mutate_ok(ty, path.drop_first())) || (path[0] == 3 && self.3.mutate_ok(ty, path.drop_first())) || (path[0] == 4 && self.4.mutate_ok(ty, path.drop_first())) || (path[0] == 5 && self.5.mutate_ok(ty, path.drop_first())) || (path[0] == 6 && self.6.mutate_ok(ty, path.drop_first())) || (path[0] == 7 && self.7.mutate_ok(ty, path.drop_first()))
        } else {
            &&& (*ty is Splice || *ty is GenerateReplace)
            &&& (*ty matches MutationType::Splice(b) ==> (Self::is_lawful() ==> exists|x: Self| #[trigger] x.spec_serialize().is_prefix_of((**b)@)))
        }
    }

    /// Each element generated in turn; generation gives up where one of
    /// them does.
    #[verifier::spinoff_prover]
    fn __autarkie_generate(
        visitor: &mut Visitor,
        depth: &mut usize,
        cur_depth: usize,
        settings: Option<GenerateSettings>,
    ) -> (r: Option<Self>) {
        let ghost p0 = *visitor;
        let f0 = match A::__autarkie_generate(visitor, depth, cur_depth, None) {
            Some(x) => x,
            None => {
                return None;
            },
        };
        let ghost p1 = *visitor;
        let f1 = match B::__autarkie_generate(visitor, depth, cur_depth, None) {
            Some(x) => x,
            None => {
                return None;
            },
        };
        let ghost p2 = *visitor;
        let f2 = match C::__autarkie_generate(visitor, depth, cur_depth, None) {
            Some(x) => x,
            None => {
                return None;
            },
        };
        let ghost p3 = *visitor;
        let f3 = match D::__autarkie_generate(visitor, depth, cur_depth, None) {
            Some(x) => x,
            None => {
                return None;
            },
        };
        let ghost p4 = *visitor;
        let f4 = match E::__autarkie_generate(visitor, depth, cur_depth, None) {
            Some(x) => x,
            None => {
                return None;
            },
        };
        let ghost p5 = *visitor;
        let f5 = match F::__autarkie_generate(visitor, depth, cur_depth, None) {
            Some(x) => x,
            None => {
                return None;
            },
        };
        let ghost p6 = *visitor;
        let f6 = match G::__autarkie_generate(visitor, depth, cur_depth, None) {
            Some(x) => x,
            None => {
                return None;
            },
        };
        let ghost p7 = *visitor;
        let f7 = match H::__autarkie_generate(visitor, depth, cur_depth, None) {
            Some(x) => x,
            None => {
                return None;
            },
        };
        let ghost gt = (f0, f1, f2, f3, f4, f5, f6, f7);
        proof {
            assert(A::generation(p0, None, Some(gt.0), p1));
            assert(B::generation(p1, None, Some(gt.1), p2));
            assert(C::generation(p2, None, Some(gt.2), p3));
            assert(D::generation(p3, None, Some(gt.3), p4));
            assert(E::generation(p4, None, Some(gt.4), p5));
            assert(F::generation(p5, None, Some(gt.5), p6));
            assert(G::generation(p6, None, Some(gt.6), p7));
            assert(H::generation(p7, None, Some(gt.7), *visitor));
            assert(visitor.draws_only(&p0));
            assert(exists|g0: Visitor, g1: Visitor, g2: Visitor, g3: Visitor, g4: Visitor, g5: Visitor, g6: Visitor| A::generation(p0, None, Some(gt.0), g0) && B::generation(g0, None, Some(gt.1), g1) && C::generation(g1, None, Some(gt.2), g2) && D::generation(g2, None, Some(gt.3), g3) && E::generation(g3, None, Some(gt.4), g4) && F::generation(g4, None, Some(gt.5), g5) && G::generation(g5, None, Some(gt.6), g6) && H::generation(g6, None, Some(gt.7), *visitor));
            assert(elements_8_generated(p0, gt, *visitor));
        }
        Some((f0, f1, f2, f3, f4, f5, f6, f7))
    }

    /// Along the path, mutates the element at its first index; at its end,
    /// replaces the tuple by the one the spliced bytes encode, or by a
    /// generated one whose encodings are then recorded.
    #[verifier::spinoff_prover]
    fn __autarkie_mutate(
        &mut self,
        ty: &mut MutationType,
        visitor: &mut Visitor,
        path: VecDeque<usize>,
    ) {
        let mut path = path;
        match path.pop_front() {
            Some(popped) => {
                if popped == 0 {
                    self.0.__autarkie_mutate(ty, visitor, path);
                } else if popped == 1 {
                    self.1.__autarkie_mutate(ty, visitor, path);
                } else if popped == 2 {
                    self.2.__autarkie_mutate(ty, visitor, path);
                } else if popped == 3 {
                    self.3.__autarkie_mutate(ty, visitor, path);
                } else if popped == 4 {
                    self.4.__autarkie_mutate(ty, visitor, path);
                } else if popped == 5 {
                    self.5.__autarkie_mutate(ty, visitor, path);
                } else if popped == 6 {
                    self.6.__autarkie_mutate(ty, visitor, path);
                } else if popped == 7 {
                    self.7.__autarkie_mutate(ty, visitor, path);
                } else {
                    proof {
                        assert(false);
                    }
                }
            },
            None => {
                match ty {
                    MutationType::Splice(other) => {
                        let bytes: &[u8] = **other;
                        proof {
                            assert(bytes@.skip(0) =~= bytes@);
                        }
                        match Self::__autarkie_deserialize(bytes, 0) {
                            Some((v, end)) => {
                                proof {
                                    if Self::is_lawful() {
                                        assert(v.spec_serialize() =~= bytes@.subrange(0, v.spec_serialize().len() as int));
                                        assert(v.spec_serialize().is_prefix_of(bytes@));
                                    }
                                }
                                *self = v;
                            },
                            None => {},
                        }
                    },
                    MutationType::GenerateReplace(bias) => {
                        match Self::__autarkie_generate(visitor, bias, 0, None) {
                            Some(generated) => {
                                *self = generated;
                                let ghost g = *visitor;
                                self.__autarkie_serialized(visitor);
                                Self::record_encoding(visitor, self.__autarkie_serialize());
                                proof {
                                    assert(Self::generation(*old(visitor), None, Some(*self), g));
                                    if Self::walks_known() && Self::encodes_exactly() {
                                        assert(visitor.serialized_bytes() =~= g.serialized_bytes()
                                            + self.serialized_records() + seq![self.spec_serialize()]);
                                    }
                                }
                            },
                            None => {},
                        }
                    },
                    _ => {
                        proof {
                            assert(false);
                        }
                    },
                }
            },
        }
    }

    /// Enters each element as a field, at its position, and records its fields.
    #[verifier::spinoff_prover]
    fn __autarkie_fields(&self, visitor: &mut Visitor, index: usize) {
        let ghost p0 = *visitor;
        let id0 = A::enter_as_field(visitor, 0, NodeType::NonRecursive).1;
        let ghost e0 = *visitor;
        self.0.__autarkie_fields(visitor, 0);
        let ghost i0 = *visitor;
        visitor.pop_field();
        proof {
            assert(field_entered(p0, ((0, NodeType::NonRecursive), id0), A::spec_name(), e0));
            assert(field_left(i0, *visitor));
            assert(walked_in_field(self.0, 0, A::spec_name(), 0, None, p0, *visitor));
        }
        let ghost p1 = *visitor;
        let id1 = B::enter_as_field(visitor, 1, NodeType::NonRecursive).1;
        let ghost e1 = *visitor;
        self.1.__autarkie_fields(visitor, 0);
        let ghost i1 = *visitor;
        visitor.pop_field();
        proof {
            assert(field_entered(p1, ((1, NodeType::NonRecursive), id1), B::spec_name(), e1));
            assert(field_left(i1, *visitor));
            assert(walked_in_field(self.1, 1, B::spec_name(), 0, None, p1, *visitor));
        }
        let ghost p2 = *visitor;
        let id2 = C::enter_as_field(visitor, 2, NodeType::NonRecursive).1;
        let ghost e2 = *visitor;
        self.2.__autarkie_fields(visitor, 0);
        let ghost i2 = *visitor;
        visitor.pop_field();
        proof {
            assert(field_entered(p2, ((2, NodeType::NonRecursive), id2), C::spec_name(), e2));
            assert(field_left(i2, *visitor));
            assert(walked_in_field(self.2, 2, C::spec_name(), 0, None, p2, *visitor));
        }
        let ghost p3 = *visitor;
        let id3 = D::enter_as_field(visitor, 3, NodeType::NonRecursive).1;
        let ghost e3 = *visitor;
        self.3.__autarkie_fields(visitor, 0);
        let ghost i3 = *visitor;
        visitor.pop_field();
        proof {
            assert(field_entered(p3, ((3, NodeType::NonRecursive), id3), D::spec_name(), e3));
            assert(field_left(i3, *visitor));
            assert(walked_in_field(self.3, 3, D::spec_name(), 0, None, p3, *visitor));
        }
        let ghost p4 = *visitor;
        let id4 = E::enter_as_field(visitor, 4, NodeType::NonRecursive).1;
        let ghost e4 = *visitor;
        self.4.__autarkie_fields(visitor, 0);
        let ghost i4 = *visitor;
        visitor.pop_field();
        proof {
            assert(field_entered(p4, ((4, NodeType::NonRecursive), id4), E::spec_name(), e4));
            assert(field_left(i4, *visitor));
            assert(walked_in_field(self.4, 4, E::spec_name(), 0, None, p4, *visitor));
        }
        let ghost p5 = *visitor;
        let id5 = F::enter_as_field(visitor, 5, NodeType::NonRecursive).1;
        let ghost e5 = *visitor;
        self.5.__autarkie_fields(visitor, 0);
        let ghost i5 = *visitor;
        visitor.pop_field();
        proof {
            assert(field_entered(p5, ((5, NodeType::NonRecursive), id5), F::spec_name(), e5));
            assert(field_left(i5, *visitor));
            assert(walked_in_field(self.5, 5, F::spec_name(), 0, None, p5, *visitor));
        }
        let ghost p6 = *visitor;
        let id6 = G::enter_as_field(visitor, 6, NodeType::NonRecursive).1;
        let ghost e6 = *visitor;
        self.6.__autarkie_fields(visitor, 0);
        let ghost i6 = *visitor;
        visitor.pop_field();
        proof {
            assert(field_entered(p6, ((6, NodeType::NonRecursive), id6), G::spec_name(), e6));
            assert(field_left(i6, *visitor));
            assert(walked_in_field(self.6, 6, G::spec_name(), 0, None, p6, *visitor));
        }
        let ghost p7 = *visitor;
        let id7 = H::enter_as_field(visitor, 7, NodeType::NonRecursive).1;
        let ghost e7 = *visitor;
        self.7.__autarkie_fields(visitor, 0);
        let ghost i7 = *visitor;
        visitor.pop_field();
        proof {
            assert(field_entered(p7, ((7, NodeType::NonRecursive), id7), H::spec_name(), e7));
            assert(field_left(i7, *visitor));
            assert(walked_in_field(self.7, 7, H::spec_name(), 0, None, p7, *visitor));
        }
    }

    /// Each element is walked in turn, inside a field at its position, as
    /// field 0 of it.
    open spec fn walk(&self, index: usize, compared: Option<(u64, u64)>, before: Visitor, after: Visitor) -> bool {
        exists|u0: Visitor, u1: Visitor, u2: Visitor, u3: Visitor, u4: Visitor, u5: Visitor, u6: Visitor|
            #![trigger walked_in_field(self.0, 0, A::spec_name(), 0, compared, before, u0), walked_in_field(self.1, 1, B::spec_name(), 0, compared, u0, u1), walked_in_field(self.2, 2, C::spec_name(), 0, compared, u1, u2), walked_in_field(self.3, 3, D::spec_name(), 0, compared, u2, u3), walked_in_field(self.4, 4, E::spec_name(), 0, compared, u3, u4), walked_in_field(self.5, 5, F::spec_name(), 0, compared, u4, u5), walked_in_field(self.6, 6, G::spec_name(), 0, compared, u5, u6), walked_in_field(self.7, 7, H::spec_name(), 0, compared, u6, after)]
            walked_in_field(self.0, 0, A::spec_name(), 0, compared, before, u0)
                && walked_in_field(self.1, 1, B::spec_name(), 0, compared, u0, u1)
                && walked_in_field(self.2, 2, C::spec_name(), 0, compared, u1, u2)
                && walked_in_field(self.3, 3, D::spec_name(), 0, compared, u2, u3)
                && walked_in_field(self.4, 4, E::spec_name(), 0, compared, u3, u4)
                && walked_in_field(self.5, 5, F::spec_name(), 0, compared, u4, u5)
                && walked_in_field(self.6, 6, G::spec_name(), 0, compared, u5, u6)
                && walked_in_field(self.7, 7, H::spec_name(), 0, compared, u6, after)
    }

    /// The tuple registered, then under it each element type in turn, at
    /// variant 0 (its own registration, or one edge to it where it is being
    /// registered already).
    open spec fn registration(before: Visitor, parent: Option<Id>, variant: usize, after: Visitor) -> bool {
        exists|me: Id, v1: Visitor, w0: Visitor, w1: Visitor, w2: Visitor, w3: Visitor, w4: Visitor, w5: Visitor, w6: Visitor, w7: Visitor|
            #![trigger entered(before, parent, variant, Self::spec_name(), me, v1), child_registered::<A>(v1, Some(me), 0, w0), child_registered::<B>(w0, Some(me), 0, w1), child_registered::<C>(w1, Some(me), 0, w2), child_registered::<D>(w2, Some(me), 0, w3), child_registered::<E>(w3, Some(me), 0, w4), child_registered::<F>(w4, Some(me), 0, w5), child_registered::<G>(w5, Some(me), 0, w6), child_registered::<H>(w6, Some(me), 0, w7), left(w7, after)]
            entered(before, parent, variant, Self::spec_name(), me, v1)
                && child_registered::<A>(v1, Some(me), 0, w0)
                && child_registered::<B>(w0, Some(me), 0, w1)
                && child_registered::<C>(w1, Some(me), 0, w2)
                && child_registered::<D>(w2, Some(me), 0, w3)
                && child_registered::<E>(w3, Some(me), 0, w4)
                && child_registered::<F>(w4, Some(me), 0, w5)
                && child_registered::<G>(w5, Some(me), 0, w6)
                && child_registered::<H>(w6, Some(me), 0, w7)
                && left(w7, after)
    }

    /// Registers the tuple type, then under it each element type (or only
    /// the edge to it, where it is being registered already).
    #[verifier::spinoff_prover]
    #[verifier::rlimit(50)]
    fn __autarkie_register(v: &mut Visitor, parent: Option<(Id, String)>, variant: usize)
        ensures
            final(v).ty_edges().len() > old(v).ty_edges().len(),
            final(v).ty_edges()[old(v).ty_edges().len() as int].2 == variant,
    {
        let ghost v0 = *v;
        let ghost start = v.ty_edges().len();
        let me = Self::register_self(v, parent, variant);
        let me_id = me.0;
        let me_name = me.1.clone();
        let ghost v1 = *v;
        let ghost first = v.ty_edges()[start as int];
        proof {
            assert(entered(v0, parent_id(parent), variant, Self::spec_name(), me_id, v1));
        }
        register_child::<A>(v, (me_id, me_name.clone()), 0);
        let ghost w0 = *v;
        proof {
            assert(w0.extends(&v1));
        }
        register_child::<B>(v, (me_id, me_name.clone()), 0);
        let ghost w1 = *v;
        proof {
            assert(w1.extends(&v1));
        }
        register_child::<C>(v, (me_id, me_name.clone()), 0);
        let ghost w2 = *v;
        proof {
            assert(w2.extends(&v1));
        }
        register_child::<D>(v, (me_id, me_name.clone()), 0);
        let ghost w3 = *v;
        proof {
            assert(w3.extends(&v1));
        }
        register_child::<E>(v, (me_id, me_name.clone()), 0);
        let ghost w4 = *v;
        proof {
            assert(w4.extends(&v1));
        }
        register_child::<F>(v, (me_id, me_name.clone()), 0);
        let ghost w5 = *v;
        proof {
            assert(w5.extends(&v1));
        }
        register_child::<G>(v, (me_id, me_name.clone()), 0);
        let ghost w6 = *v;
        proof {
            assert(w6.extends(&v1));
        }
        register_child::<H>(v, (me_id, me_name.clone()), 0);
        let ghost w7 = *v;
        proof {
            assert(w7.extends(&v1));
        }
        let ghost v3 = *v;
        v.pop_ty();
        proof {
            assert(left(v3, *v));
            assert(v3.extends(&v1));
            assert(v0.ty_edges().is_prefix_of(v1.ty_edges()));
            assert(v0.ty_names().is_prefix_of(v1.ty_names()));
            assert(v1.ty_edges().is_prefix_of(v3.ty_edges()));
            assert(v.ty_edges()[start as int] == first);
        }
    }

    /// Records the encoding of each element, then what it records.
    #[verifier::spinoff_prover]
    #[verifier::rlimit(50)]
    fn __autarkie_serialized(&self, visitor: &mut Visitor) {
        A::record_encoding(visitor, self.0.__autarkie_serialize());
        proof {
            if Self::walks_known() && (Self::is_lawful() || Self::encodes_exactly()) {
                assert(visitor.serialized_bytes() =~= old(visitor).serialized_bytes() + (seq![self.0.spec_serialize()]));
            }
            if Self::walks_known() {
                assert(visitor.serialized_types() =~= old(visitor).serialized_types() + (seq![A::spec_name()]));
            }
        }
        self.0.__autarkie_serialized(visitor);
        proof {
            if Self::walks_known() && (Self::is_lawful() || Self::encodes_exactly()) {
                assert(visitor.serialized_bytes() =~= old(visitor).serialized_bytes() + (seq![self.0.spec_serialize()] + self.0.serialized_records()));
            }
            if Self::walks_known() {
                assert(visitor.serialized_types() =~= old(visitor).serialized_types() + (seq![A::spec_name()] + self.0.serialized_record_types()));
            }
        }
        B::record_encoding(visitor, self.1.__autarkie_serialize());
        proof {
            if Self::walks_known() && (Self::is_lawful() || Self::encodes_exactly()) {
                assert(visitor.serialized_bytes() =~= old(visitor).serialized_bytes() + ((seq![self.0.spec_serialize()] + self.0.serialized_records()) + seq![self.1.spec_serialize()]));
            }
            if Self::walks_known() {
                assert(visitor.serialized_types() =~= old(visitor).serialized_types() + ((seq![A::spec_name()] + self.0.serialized_record_types()) + seq![B::spec_name()]));
            }
        }
        self.1.__autarkie_serialized(visitor);
        proof {
            if Self::walks_known() && (Self::is_lawful() || Self::encodes_exactly()) {
                assert(visitor.serialized_bytes() =~= old(visitor).serialized_bytes() + ((seq![self.0.spec_serialize()] + self.0.serialized_records()) + seq![self.1.spec_serialize()] + self.1.serialized_records()));
            }
            if Self::walks_known() {
                assert(visitor.serialized_types() =~= old(visitor).serialized_types() + ((seq![A::spec_name()] + self.0.serialized_record_types()) + seq![B::spec_name()] + self.1.serialized_record_types()));
            }
        }
        C::record_encoding(visitor, self.2.__autarkie_serialize());
        proof {
            if Self::walks_known() && (Self::is_lawful() || Self::encodes_exactly()) {
                assert(visitor.serialized_bytes() =~= old(visitor).serialized_bytes() + (((seq![self.0.spec_serialize()] + self.0.serialized_records()) + seq![self.1.spec_serialize()] + self.1.serialized_records()) + seq![self.2.spec_serialize()]));
            }
            if Self::walks_known() {
                assert(visitor.serialized_types() =~= old(visitor).serialized_types() + (((seq![A::spec_name()] + self.0.serialized_record_types()) + seq![B::spec_name()] + self.1.serialized_record_types()) + seq![C::spec_name()]));
            }
        }
        self.2.__autarkie_serialized(visitor);
        proof {
            if Self::walks_known() && (Self::is_lawful() || Self::encodes_exactly()) {
                assert(visitor.serialized_bytes() =~= old(visitor).serialized_bytes() + (((seq![self.0.spec_serialize()] + self.0.serialized_records()) + seq![self.1.spec_serialize()] + self.1.serialized_records()) + seq![self.2.spec_serialize()] + self.2.serialized_records()));
            }
            if Self::walks_known() {
                assert(visitor.serialized_types() =~= old(visitor).serialized_types() + (((seq![A::spec_name()] + self.0.serialized_record_types()) + seq![B::spec_name()] + self.1.serialized_record_types()) + seq![C::spec_name()] + self.2.serialized_record_types()));
            }
        }
        D::record_encoding(visitor, self.3.__autarkie_serialize());
        proof {
            if Self::walks_known() && (Self::is_lawful() || Self::encodes_exactly()) {
                assert(visitor.serialized_bytes() =~= old(visitor).serialized_bytes() + ((((seq![self.0.spec_serialize()] + self.0.serialized_records()) + seq![self.1.spec_serialize()] + self.1.serialized_records()) + seq![self.2.spec_serialize()] + self.2.serialized_records()) + seq![self.3.spec_serialize()]));
            }
            if Self::walks_known() {
                assert(visitor.serialized_types() =~= old(visitor).serialized_types() + ((((seq![A::spec_name()] + self.0.serialized_record_types()) + seq![B::spec_name()] + self.1.serialized_record_types()) + seq![C::spec_name()] + self.2.serialized_record_types()) + seq![D::spec_name()]));
            }
        }
        self.3.__autarkie_serialized(visitor);
        proof {
            if Self::walks_known() && (Self::is_lawful() || Self::encodes_exactly()) {
                assert(visitor.serialized_bytes() =~= old(visitor).serialized_bytes() + ((((seq![self.0.spec_serialize()] + self.0.serialized_records()) + seq![self.1.spec_serialize()] + self.1.serialized_records()) + seq![self.2.spec_serialize()] + self.2.serialized_records()) + seq![self.3.spec_serialize()] + self.3.serialized_records()));
            }
            if Self::walks_known() {
                assert(visitor.serialized_types() =~= old(visitor).serialized_types() + ((((seq![A::spec_name()] + self.0.serialized_record_types()) + seq![B::spec_name()] + self.1.serialized_record_types()) + seq![C::spec_name()] + self.2.serialized_record_types()) + seq![D::spec_name()] + self.3.serialized_record_types()));
            }
        }
        E::record_encoding(visitor, self.4.__autarkie_serialize());
        proof {
            if Self::walks_known() && (Self::is_lawful() || Self::encodes_exactly()) {
                assert(visitor.serialized_bytes() =~= old(visitor).serialized_bytes() + (((((seq![self.0.spec_serialize()] + self.0.serialized_records()) + seq![self.1.spec_serialize()] + self.1.serialized_records()) + seq![self.2.spec_serialize()] + self.2.serialized_records()) + seq![self.3.spec_serialize()] + self.3.serialized_records()) + seq![self.4.spec_serialize()]));
            }
            if Self::walks_known() {
                assert(visitor.serialized_types() =~= old(visitor).serialized_types() + (((((seq![A::spec_name()] + self.0.serialized_record_types()) + seq![B::spec_name()] + self.1.serialized_record_types()) + seq![C::spec_name()] + self.2.serialized_record_types()) + seq![D::spec_name()] + self.3.serialized_record_types()) + seq![E::spec_name()]));
            }
        }
        self.4.__autarkie_serialized(visitor);
        proof {
            if Self::walks_known() && (Self::is_lawful() || Self::encodes_exactly()) {
                assert(visitor.serialized_bytes() =~= old(visitor).serialized_bytes() + (((((seq![self.0.spec_serialize()] + self.0.serialized_records()) + seq![self.1.spec_serialize()] + self.1.serialized_records()) + seq![self.2.spec_serialize()] + self.2.serialized_records()) + seq![self.3.spec_serialize()] + self.3.serialized_records()) + seq![self.4.spec_serialize()] + self.4.serialized_records()));
            }
            if Self::walks_known() {
                assert(visitor.serialized_types() =~= old(visitor).serialized_types() + (((((seq![A::spec_name()] + self.0.serialized_record_types()) + seq![B::spec_name()] + self.1.serialized_record_types()) + seq![C::spec_name()] + self.2.serialized_record_types()) + seq![D::spec_name()] + self.3.serialized_record_types()) + seq![E::spec_name()] + self.4.serialized_record_types()));
            }
        }
        F::record_encoding(visitor, self.5.__autarkie_serialize());
        proof {
            if Self::walks_known() && (Self::is_lawful() || Self::encodes_exactly()) {
                assert(visitor.serialized_bytes() =~= old(visitor).serialized_bytes() + ((((((seq![self.0.spec_serialize()] + self.0.serialized_records()) + seq![self.1.spec_serialize()] + self.1.serialized_records()) + seq![self.2.spec_serialize()] + self.2.serialized_records()) + seq![self.3.spec_serialize()] + self.3.serialized_records()) + seq![self.4.spec_serialize()] + self.4.serialized_records()) + seq![self.5.spec_serialize()]));
            }
            if Self::walks_known() {
                assert(visitor.serialized_types() =~= old(visitor).serialized_types() + ((((((seq![A::spec_name()] + self.0.serialized_record_types()) + seq![B::spec_name()] + self.1.serialized_record_types()) + seq![C::spec_name()] + self.2.serialized_record_types()) + seq![D::spec_name()] + self.3.serialized_record_types()) + seq![E::spec_name()] + self.4.serialized_record_types()) + seq![F::spec_name()]));
            }
        }
        self.5.__autarkie_serialized(visitor);
        proof {
            if Self::walks_known() && (Self::is_lawful() || Self::encodes_exactly()) {
                assert(visitor.serialized_bytes() =~= old(visitor).serialized_bytes() + ((((((seq![self.0.spec_serialize()] + self.0.serialized_records()) + seq![self.1.spec_serialize()] + self.1.serialized_records()) + seq![self.2.spec_serialize()] + self.2.serialized_records()) + seq![self.3.spec_serialize()] + self.3.serialized_records()) + seq![self.4.spec_serialize()] + self.4.serialized_records()) + seq![self.5.spec_serialize()] + self.5.serialized_records()));
            }
            if Self::walks_known() {
                assert(visitor.serialized_types() =~= old(visitor).serialized_types() + ((((((seq![A::spec_name()] + self.0.serialized_record_types()) + seq![B::spec_name()] + self.1.serialized_record_types()) + seq![C::spec_name()] + self.2.serialized_record_types()) + seq![D::spec_name()] + self.3.serialized_record_types()) + seq![E::spec_name()] + self.4.serialized_record_types()) + seq![F::spec_name()] + self.5.serialized_record_types()));
            }
        }
        G::record_encoding(visitor, self.6.__autarkie_serialize());
        proof {
            if Self::walks_known() && (Self::is_lawful() || Self::encodes_exactly()) {
                assert(visitor.serialized_bytes() =~= old(visitor).serialized_bytes() + (((((((seq![self.0.spec_serialize()] + self.0.serialized_records()) + seq![self.1.spec_serialize()] + self.1.serialized_records()) + seq![self.2.spec_serialize()] + self.2.serialized_records()) + seq![self.3.spec_serialize()] + self.3.serialized_records()) + seq![self.4.spec_serialize()] + self.4.serialized_records()) + seq![self.5.spec_serialize()] + self.5.serialized_records()) + seq![self.6.spec_serialize()]));
            }
            if Self::walks_known() {
                assert(visitor.serialized_types() =~= old(visitor).serialized_types() + (((((((seq![A::spec_name()] + self.0.serialized_record_types()) + seq![B::spec_name()] + self.1.serialized_record_types()) + seq![C::spec_name()] + self.2.serialized_record_types()) + seq![D::spec_name()] + self.3.serialized_record_types()) + seq![E::spec_name()] + self.4.serialized_record_types()) + seq![F::spec_name()] + self.5.serialized_record_types()) + seq![G::spec_name()]));
            }
        }
        self.6.__autarkie_serialized(visitor);
        proof {
            if Self::walks_known() && (Self::is_lawful() || Self::encodes_exactly()) {
                assert(visitor.serialized_bytes() =~= old(visitor).serialized_bytes() + (((((((seq![self.0.spec_serialize()] + self.0.serialized_records()) + seq![self.1.spec_serialize()] + self.1.serialized_records()) + seq![self.2.spec_serialize()] + self.2.serialized_records()) + seq![self.3.spec_serialize()] + self.3.serialized_records()) + seq![self.4.spec_serialize()] + self.4.serialized_records()) + seq![self.5.spec_serialize()] + self.5.serialized_records()) + seq![self.6.spec_serialize()] + self.6.serialized_records()));
            }
            if Self::walks_known() {
                assert(visitor.serialized_types() =~= old(visitor).serialized_types() + (((((((seq![A::spec_name()] + self.0.serialized_record_types()) + seq![B::spec_name()] + self.1.serialized_record_types()) + seq![C::spec_name()] + self.2.serialized_record_types()) + seq![D::spec_name()] + self.3.serialized_record_types()) + seq![E::spec_name()] + self.4.serialized_record_types()) + seq![F::spec_name()] + self.5.serialized_record_types()) + seq![G::spec_name()] + self.6.serialized_record_types()));
            }
        }
        H::record_encoding(visitor, self.7.__autarkie_serialize());
        proof {
            if Self::walks_known() && (Self::is_lawful() || Self::encodes_exactly()) {
                assert(visitor.serialized_bytes() =~= old(visitor).serialized_bytes() + ((((((((seq![self.0.spec_serialize()] + self.0.serialized_records()) + seq![self.1.spec_serialize()] + self.1.serialized_records()) + seq![self.2.spec_serialize()] + self.2.serialized_records()) + seq![self.3.spec_serialize()] + self.3.serialized_records()) + seq![self.4.spec_serialize()] + self.4.serialized_records()) + seq![self.5.spec_serialize()] + self.5.serialized_records()) + seq![self.6.spec_serialize()] + self.6.serialized_records()) + seq![self.7.spec_serialize()]));
            }
            if Self::walks_known() {
                assert(visitor.serialized_types() =~= old(visitor).serialized_types() + ((((((((seq![A::spec_name()] + self.0.serialized_record_types()) + seq![B::spec_name()] + self.1.serialized_record_types()) + seq![C::spec_name()] + self.2.serialized_record_types()) + seq![D::spec_name()] + self.3.serialized_record_types()) + seq![E::spec_name()] + self.4.serialized_record_types()) + seq![F::spec_name()] + self.5.serialized_record_types()) + seq![G::spec_name()] + self.6.serialized_record_types()) + seq![H::spec_name()]));
            }
        }
        self.7.__autarkie_serialized(visitor);
        proof {
            if Self::walks_known() && (Self::is_lawful() || Self::encodes_exactly()) {
                assert(visitor.serialized_bytes() =~= old(visitor).serialized_bytes() + ((((((((seq![self.0.spec_serialize()] + self.0.serialized_records()) + seq![self.1.spec_serialize()] + self.1.serialized_records()) + seq![self.2.spec_serialize()] + self.2.serialized_records()) + seq![self.3.spec_serialize()] + self.3.serialized_records()) + seq![self.4.spec_serialize()] + self.4.serialized_records()) + seq![self.5.spec_serialize()] + self.5.serialized_records()) + seq![self.6.spec_serialize()] + self.6.serialized_records()) + seq![self.7.spec_serialize()] + self.7.serialized_records()));
            }
            if Self::walks_known() {
                assert(visitor.serialized_types() =~= old(visitor).serialized_types() + ((((((((seq![A::spec_name()] + self.0.serialized_record_types()) + seq![B::spec_name()] + self.1.serialized_record_types()) + seq![C::spec_name()] + self.2.serialized_record_types()) + seq![D::spec_name()] + self.3.serialized_record_types()) + seq![E::spec_name()] + self.4.serialized_record_types()) + seq![F::spec_name()] + self.5.serialized_record_types()) + seq![G::spec_name()] + self.6.serialized_record_types()) + seq![H::spec_name()] + self.7.serialized_record_types()));
            }
        }
    }

    /// Enters each element as a field, at its position, and records its
    /// comparison operands.
    #[verifier::spinoff_prover]
    fn __autarkie_cmps(&self, visitor: &mut Visitor, index: usize, __autarkie_val: (u64, u64)) {
        let ghost p0 = *visitor;
        let id0 = A::enter_as_field(visitor, 0, NodeType::NonRecursive).1;
        let ghost e0 = *visitor;
        self.0.__autarkie_cmps(visitor, 0, __autarkie_val);
        let ghost i0 = *visitor;
        visitor.pop_field();
        proof {
            assert(field_entered(p0, ((0, NodeType::NonRecursive), id0), A::spec_name(), e0));
            assert(field_left(i0, *visitor));
            assert(walked_in_field(self.0, 0, A::spec_name(), 0, Some(__autarkie_val), p0, *visitor));
            if Self::walks_known() {
                assert(visitor.operands() =~= old(visitor).operands() + (self.0.comparison_operands(__autarkie_val)));
            }
        }
        let ghost p1 = *visitor;
        let id1 = B::enter_as_field(visitor, 1, NodeType::NonRecursive).1;
        let ghost e1 = *visitor;
        self.1.__autarkie_cmps(visitor, 0, __autarkie_val);
        let ghost i1 = *visitor;
        visitor.pop_field();
        proof {
            assert(field_entered(p1, ((1, NodeType::NonRecursive), id1), B::spec_name(), e1));
            assert(field_left(i1, *visitor));
            assert(walked_in_field(self.1, 1, B::spec_name(), 0, Some(__autarkie_val), p1, *visitor));
            if Self::walks_known() {
                assert(visitor.operands() =~= old(visitor).operands() + ((self.0.comparison_operands(__autarkie_val)) + self.1.comparison_operands(__autarkie_val)));
            }
        }
        let ghost p2 = *visitor;
        let id2 = C::enter_as_field(visitor, 2, NodeType::NonRecursive).1;
        let ghost e2 = *visitor;
        self.2.__autarkie_cmps(visitor, 0, __autarkie_val);
        let ghost i2 = *visitor;
        visitor.pop_field();
        proof {
            assert(field_entered(p2, ((2, NodeType::NonRecursive), id2), C::spec_name(), e2));
            assert(field_left(i2, *visitor));
            assert(walked_in_field(self.2, 2, C::spec_name(), 0, Some(__autarkie_val), p2, *visitor));
            if Self::walks_known() {
                assert(visitor.operands() =~= old(visitor).operands() + (((self.0.comparison_operands(__autarkie_val)) + self.1.comparison_operands(__autarkie_val)) + self.2.comparison_operands(__autarkie_val)));
            }
        }
        let ghost p3 = *visitor;
        let id3 = D::enter_as_field(visitor, 3, NodeType::NonRecursive).1;
        let ghost e3 = *visitor;
        self.3.__autarkie_cmps(visitor, 0, __autarkie_val);
        let ghost i3 = *visitor;
        visitor.pop_field();
        proof {
            assert(field_entered(p3, ((3, NodeType::NonRecursive), id3), D::spec_name(), e3));
            assert(field_left(i3, *visitor));
            assert(walked_in_field(self.3, 3, D::spec_name(), 0, Some(__autarkie_val), p3, *visitor));
            if Self::walks_known() {
                assert(visitor.operands() =~= old(visitor).operands() + ((((self.0.comparison_operands(__autarkie_val)) + self.1.comparison_operands(__autarkie_val)) + self.2.comparison_operands(__autarkie_val)) + self.3.comparison_operands(__autarkie_val)));
            }
        }
        let ghost p4 = *visitor;
        let id4 = E::enter_as_field(visitor, 4, NodeType::NonRecursive).1;
        let ghost e4 = *visitor;
        self.4.__autarkie_cmps(visitor, 0, __autarkie_val);
        let ghost i4 = *visitor;
        visitor.pop_field();
        proof {
            assert(field_entered(p4, ((4, NodeType::NonRecursive), id4), E::spec_name(), e4));
            assert(field_left(i4, *visitor));
            assert(walked_in_field(self.4, 4, E::spec_name(), 0, Some(__autarkie_val), p4, *visitor));
            if Self::walks_known() {
                assert(visitor.operands() =~= old(visitor).operands() + (((((self.0.comparison_operands(__autarkie_val)) + self.1.comparison_operands(__autarkie_val)) + self.2.comparison_operands(__autarkie_val)) + self.3.comparison_operands(__autarkie_val)) + self.4.comparison_operands(__autarkie_val)));
            }
        }
        let ghost p5 = *visitor;
        let id5 = F::enter_as_field(visitor, 5, NodeType::NonRecursive).1;
        let ghost e5 = *visitor;
        self.5.__autarkie_cmps(visitor, 0, __autarkie_val);
        let ghost i5 = *visitor;
        visitor.pop_field();
        proof {
            assert(field_entered(p5, ((5, NodeType::NonRecursive), id5), F::spec_name(), e5));
            assert(field_left(i5, *visitor));
            assert(walked_in_field(self.5, 5, F::spec_name(), 0, Some(__autarkie_val), p5, *visitor));
            if Self::walks_known() {
                assert(visitor.operands() =~= old(visitor).operands() + ((((((self.0.comparison_operands(__autarkie_val)) + self.1.comparison_operands(__autarkie_val)) + self.2.comparison_operands(__autarkie_val)) + self.3.comparison_operands(__autarkie_val)) + self.4.comparison_operands(__autarkie_val)) + self.5.comparison_operands(__autarkie_val)));
            }
        }
        let ghost p6 = *visitor;
        let id6 = G::enter_as_field(visitor, 6, NodeType::NonRecursive).1;
        let ghost e6 = *visitor;
        self.6.__autarkie_cmps(visitor, 0, __autarkie_val);
        let ghost i6 = *visitor;
        visitor.pop_field();
        proof {
            assert(field_entered(p6, ((6, NodeType::NonRecursive), id6), G::spec_name(), e6));
            assert(field_left(i6, *visitor));
            assert(walked_in_field(self.6, 6, G::spec_name(), 0, Some(__autarkie_val), p6, *visitor));
            if Self::walks_known() {
                assert(visitor.operands() =~= old(visitor).operands() + (((((((self.0.comparison_operands(__autarkie_val)) + self.1.comparison_operands(__autarkie_val)) + self.2.comparison_operands(__autarkie_val)) + self.3.comparison_operands(__autarkie_val)) + self.4.comparison_operands(__autarkie_val)) + self.5.comparison_operands(__autarkie_val)) + self.6.comparison_operands(__autarkie_val)));
            }
        }
        let ghost p7 = *visitor;
        let id7 = H::enter_as_field(visitor, 7, NodeType::NonRecursive).1;
        let ghost e7 = *visitor;
        self.7.__autarkie_cmps(visitor, 0, __autarkie_val);
        let ghost i7 = *visitor;
        visitor.pop_field();
        proof {
            assert(field_entered(p7, ((7, NodeType::NonRecursive), id7), H::spec_name(), e7));
            assert(field_left(i7, *visitor));
            assert(walked_in_field(self.7, 7, H::spec_name(), 0, Some(__autarkie_val), p7, *visitor));
            if Self::walks_known() {
                assert(visitor.operands() =~= old(visitor).operands() + ((((((((self.0.comparison_operands(__autarkie_val)) + self.1.comparison_operands(__autarkie_val)) + self.2.comparison_operands(__autarkie_val)) + self.3.comparison_operands(__autarkie_val)) + self.4.comparison_operands(__autarkie_val)) + self.5.comparison_operands(__autarkie_val)) + self.6.comparison_operands(__autarkie_val)) + self.7.comparison_operands(__autarkie_val)));
            }
        }
    }

    fn __autarkie_serialize(&self) -> (r: Vec<u8>) {
        let mut out = self.7.__autarkie_serialize();
        let mut front = self.6.__autarkie_serialize();
        front.append(&mut out);
        out = front;
        let mut front = self.5.__autarkie_serialize();
        front.append(&mut out);
        out = front;
        let mut front = self.4.__autarkie_serialize();
        front.append(&mut out);
        out = front;
        let mut front = self.3.__autarkie_serialize();
        front.append(&mut out);
        out = front;
        let mut front = self.2.__autarkie_serialize();
        front.append(&mut out);
        out = front;
        let mut front = self.1.__autarkie_serialize();
        front.append(&mut out);
        out = front;
        let mut front = self.0.__autarkie_serialize();
        front.append(&mut out);
        out = front;
        out
    }

    /// Reads the elements in turn.
    #[verifier::spinoff_prover]
    fn __autarkie_deserialize(data: &[u8], pos: usize) -> (r: Option<(Self, usize)>) {
        proof {
            assert(data@.skip(pos as int) =~= data@.skip(pos as int));
        }
        proof {
            if Self::is_lawful() {
            assert forall|x: Self| #[trigger] x.spec_serialize().is_prefix_of(data@.skip(pos as int)) implies {
                &&& x.0.spec_serialize().is_prefix_of(data@.skip(pos as int))
                &&& (x.1.spec_serialize() + (x.2.spec_serialize() + (x.3.spec_serialize() + (x.4.spec_serialize() + (x.5.spec_serialize() + (x.6.spec_serialize() + (x.7.spec_serialize()))))))).is_prefix_of(data@.skip(pos + x.0.spec_serialize().len()))
            } by {
                lemma_tag_then(x.0.spec_serialize(), x.1.spec_serialize() + (x.2.spec_serialize() + (x.3.spec_serialize() + (x.4.spec_serialize() + (x.5.spec_serialize() + (x.6.spec_serialize() + (x.7.spec_serialize())))))), data@.skip(pos as int));
                assert(data@.skip(pos as int).skip(x.0.spec_serialize().len() as int) =~= data@.skip(pos + x.0.spec_serialize().len()));
            }
            }
        }
        let (v0, e0) = match A::__autarkie_deserialize(data, pos) {
            Some(r) => r,
            None => {
                proof {
                    if Self::is_lawful() {
                    assert forall|x: Self| !#[trigger] x.spec_serialize().is_prefix_of(data@.skip(pos as int)) by {
                        if x.spec_serialize().is_prefix_of(data@.skip(pos as int)) {
                            assert(x.0.spec_serialize().is_prefix_of(data@.skip(pos as int)));
                        }
                    }
                    }
                }
                return None;
            },
        };
        proof {
            if Self::is_lawful() {
            assert forall|x: Self| #[trigger] x.spec_serialize().is_prefix_of(data@.skip(pos as int)) implies
                (x.1.spec_serialize() + (x.2.spec_serialize() + (x.3.spec_serialize() + (x.4.spec_serialize() + (x.5.spec_serialize() + (x.6.spec_serialize() + (x.7.spec_serialize()))))))).is_prefix_of(data@.skip(e0 as int)) by {
                assert(x.0.spec_serialize().is_prefix_of(data@.skip(pos as int)));
            }
            }
        }
        proof {
            if Self::is_lawful() {
            assert forall|x: Self| #[trigger] x.spec_serialize().is_prefix_of(data@.skip(pos as int)) implies {
                &&& x.1.spec_serialize().is_prefix_of(data@.skip(e0 as int))
                &&& (x.2.spec_serialize() + (x.3.spec_serialize() + (x.4.spec_serialize() + (x.5.spec_serialize() + (x.6.spec_serialize() + (x.7.spec_serialize())))))).is_prefix_of(data@.skip(e0 + x.1.spec_serialize().len()))
            } by {
                lemma_tag_then(x.1.spec_serialize(), x.2.spec_serialize() + (x.3.spec_serialize() + (x.4.spec_serialize() + (x.5.spec_serialize() + (x.6.spec_serialize() + (x.7.spec_serialize()))))), data@.skip(e0 as int));
                assert(data@.skip(e0 as int).skip(x.1.spec_serialize().len() as int) =~= data@.skip(e0 + x.1.spec_serialize().len()));
            }
            }
        }
        let (v1, e1) = match B::__autarkie_deserialize(data, e0) {
            Some(r) => r,
            None => {
                proof {
                    if Self::is_lawful() {
                    assert forall|x: Self| !#[trigger] x.spec_serialize().is_prefix_of(data@.skip(pos as int)) by {
                        if x.spec_serialize().is_prefix_of(data@.skip(pos as int)) {
                            assert(x.1.spec_serialize().is_prefix_of(data@.skip(e0 as int)));
                        }
                    }
                    }
                }
                return None;
            },
        };
        proof {
            if Self::is_lawful() {
            assert forall|x: Self| #[trigger] x.spec_serialize().is_prefix_of(data@.skip(pos as int)) implies
                (x.2.spec_serialize() + (x.3.spec_serialize() + (x.4.spec_serialize() + (x.5.spec_serialize() + (x.6.spec_serialize() + (x.7.spec_serialize())))))).is_prefix_of(data@.skip(e1 as int)) by {
                assert(x.1.spec_serialize().is_prefix_of(data@.skip(e0 as int)));
            }
            }
        }
        proof {
            if Self::is_lawful() {
            assert forall|x: Self| #[trigger] x.spec_serialize().is_prefix_of(data@.skip(pos as int)) implies {
                &&& x.2.spec_serialize().is_prefix_of(data@.skip(e1 as int))
                &&& (x.3.spec_serialize() + (x.4.spec_serialize() + (x.5.spec_serialize() + (x.6.spec_serialize() + (x.7.spec_serialize()))))).is_prefix_of(data@.skip(e1 + x.2.spec_serialize().len()))
            } by {
                lemma_tag_then(x.2.spec_serialize(), x.3.spec_serialize() + (x.4.spec_serialize() + (x.5.spec_serialize() + (x.6.spec_serialize() + (x.7.spec_serialize())))), data@.skip(e1 as int));
                assert(data@.skip(e1 as int).skip(x.2.spec_serialize().len() as int) =~= data@.skip(e1 + x.2.spec_serialize().len()));
            }
            }
        }
        let (v2, e2) = match C::__autarkie_deserialize(data, e1) {
            Some(r) => r,
            None => {
                proof {
                    if Self::is_lawful() {
                    assert forall|x: Self| !#[trigger] x.spec_serialize().is_prefix_of(data@.skip(pos as int)) by {
                        if x.spec_serialize().is_prefix_of(data@.skip(pos as int)) {
                            assert(x.2.spec_serialize().is_prefix_of(data@.skip(e1 as int)));
                        }
                    }
                    }
                }
                return None;
            },
        };
        proof {
            if Self::is_lawful() {
            assert forall|x: Self| #[trigger] x.spec_serialize().is_prefix_of(data@.skip(pos as int)) implies
                (x.3.spec_serialize() + (x.4.spec_serialize() + (x.5.spec_serialize() + (x.6.spec_serialize() + (x.7.spec_serialize()))))).is_prefix_of(data@.skip(e2 as int)) by {
                assert(x.2.spec_serialize().is_prefix_of(data@.skip(e1 as int)));
            }
            }
        }
        proof {
            if Self::is_lawful() {
            assert forall|x: Self| #[trigger] x.spec_serialize().is_prefix_of(data@.skip(pos as int)) implies {
                &&& x.3.spec_serialize().is_prefix_of(data@.skip(e2 as int))
                &&& (x.4.spec_serialize() + (x.5.spec_serialize() + (x.6.spec_serialize() + (x.7.spec_serialize())))).is_prefix_of(data@.skip(e2 + x.3.spec_serialize().len()))
            } by {
                lemma_tag_then(x.3.spec_serialize(), x.4.spec_serialize() + (x.5.spec_serialize() + (x.6.spec_serialize() + (x.7.spec_serialize()))), data@.skip(e2 as int));
                assert(data@.skip(e2 as int).skip(x.3.spec_serialize().len() as int) =~= data@.skip(e2 + x.3.spec_serialize().len()));
            }
            }
        }
        let (v3, e3) = match D::__autarkie_deserialize(data, e2) {
            Some(r) => r,
            None => {
                proof {
                    if Self::is_lawful() {
                    assert forall|x: Self| !#[trigger] x.spec_serialize().is_prefix_of(data@.skip(pos as int)) by {
                        if x.spec_serialize().is_prefix_of(data@.skip(pos as int)) {
                            assert(x.3.spec_serialize().is_prefix_of(data@.skip(e2 as int)));
                        }
                    }
                    }
                }
                return None;
            },
        };
        proof {
            if Self::is_lawful() {
            assert forall|x: Self| #[trigger] x.spec_serialize().is_prefix_of(data@.skip(pos as int)) implies
                (x.4.spec_serialize() + (x.5.spec_serialize() + (x.6.spec_serialize() + (x.7.spec_serialize())))).is_prefix_of(data@.skip(e3 as int)) by {
                assert(x.3.spec_serialize().is_prefix_of(data@.skip(e2 as int)));
            }
            }
        }
        proof {
            if Self::is_lawful() {
            assert forall|x: Self| #[trigger] x.spec_serialize().is_prefix_of(data@.skip(pos as int)) implies {
                &&& x.4.spec_serialize().is_prefix_of(data@.skip(e3 as int))
                &&& (x.5.spec_serialize() + (x.6.spec_serialize() + (x.7.spec_serialize()))).is_prefix_of(data@.skip(e3 + x.4.spec_serialize().len()))
            } by {
                lemma_tag_then(x.4.spec_serialize(), x.5.spec_serialize() + (x.6.spec_serialize() + (x.7.spec_serialize())), data@.skip(e3 as int));
                assert(data@.skip(e3 as int).skip(x.4.spec_serialize().len() as int) =~= data@.skip(e3 + x.4.spec_serialize().len()));
            }
            }
        }
        let (v4, e4) = match E::__autarkie_deserialize(data, e3) {
            Some(r) => r,
            None => {
                proof {
                    if Self::is_lawful() {
                    assert forall|x: Self| !#[trigger] x.spec_serialize().is_prefix_of(data@.skip(pos as int)) by {
                        if x.spec_serialize().is_prefix_of(data@.skip(pos as int)) {
                            assert(x.4.spec_serialize().is_prefix_of(data@.skip(e3 as int)));
                        }
                    }
                    }
                }
                return None;
            },
        };
        proof {
            if Self::is_lawful() {
            assert forall|x: Self| #[trigger] x.spec_serialize().is_prefix_of(data@.skip(pos as int)) implies
                (x.5.spec_serialize() + (x.6.spec_serialize() + (x.7.spec_serialize()))).is_prefix_of(data@.skip(e4 as int)) by {
                assert(x.4.spec_serialize().is_prefix_of(data@.skip(e3 as int)));
            }
            }
        }
        proof {
            if Self::is_lawful() {
            assert forall|x: Self| #[trigger] x.spec_serialize().is_prefix_of(data@.skip(pos as int)) implies {
                &&& x.5.spec_serialize().is_prefix_of(data@.skip(e4 as int))
                &&& (x.6.spec_serialize() + (x.7.spec_serialize())).is_prefix_of(data@.skip(e4 + x.5.spec_serialize().len()))
            } by {
                lemma_tag_then(x.5.spec_serialize(), x.6.spec_serialize() + (x.7.spec_serialize()), data@.skip(e4 as int));
                assert(data@.skip(e4 as int).skip(x.5.spec_serialize().len() as int) =~= data@.skip(e4 + x.5.spec_serialize().len()));
            }
            }
        }
        let (v5, e5) = match F::__autarkie_deserialize(data, e4) {
            Some(r) => r,
            None => {
                proof {
                    if Self::is_lawful() {
                    assert forall|x: Self| !#[trigger] x.spec_serialize().is_prefix_of(data@.skip(pos as int)) by {
                        if x.spec_serialize().is_prefix_of(data@.skip(pos as int)) {
                            assert(x.5.spec_serialize().is_prefix_of(data@.skip(e4 as int)));
                        }
                    }
                    }
                }
                return None;
            },
        };
        proof {
            if Self::is_lawful() {
            assert forall|x: Self| #[trigger] x.spec_serialize().is_prefix_of(data@.skip(pos as int)) implies
                (x.6.spec_serialize() + (x.7.spec_serialize())).is_prefix_of(data@.skip(e5 as int)) by {
                assert(x.5.spec_serialize().is_prefix_of(data@.skip(e4 as int)));
            }
            }
        }
        proof {
            if Self::is_lawful() {
            assert forall|x: Self| #[trigger] x.spec_serialize().is_prefix_of(data@.skip(pos as int)) implies {
                &&& x.6.spec_serialize().is_prefix_of(data@.skip(e5 as int))
                &&& (x.7.spec_serialize()).is_prefix_of(data@.skip(e5 + x.6.spec_serialize().len()))
            } by {
                lemma_tag_then(x.6.spec_serialize(), x.7.spec_serialize(), data@.skip(e5 as int));
                assert(data@.skip(e5 as int).skip(x.6.spec_serialize().len() as int) =~= data@.skip(e5 + x.6.spec_serialize().len()));
            }
            }
        }
        let (v6, e6) = match G::__autarkie_deserialize(data, e5) {
            Some(r) => r,
            None => {
                proof {
                    if Self::is_lawful() {
                    assert forall|x: Self| !#[trigger] x.spec_serialize().is_prefix_of(data@.skip(pos as int)) by {
                        if x.spec_serialize().is_prefix_of(data@.skip(pos as int)) {
                            assert(x.6.spec_serialize().is_prefix_of(data@.skip(e5 as int)));
                        }
                    }
                    }
                }
                return None;
            },
        };
        proof {
            if Self::is_lawful() {
            assert forall|x: Self| #[trigger] x.spec_serialize().is_prefix_of(data@.skip(pos as int)) implies
                (x.7.spec_serialize()).is_prefix_of(data@.skip(e6 as int)) by {
                assert(x.6.spec_serialize().is_prefix_of(data@.skip(e5 as int)));
            }
            }
        }
        let (v7, e7) = match H::__autarkie_deserialize(data, e6) {
            Some(r) => r,
            None => {
                proof {
                    if Self::is_lawful() {
                    assert forall|x: Self| !#[trigger] x.spec_serialize().is_prefix_of(data@.skip(pos as int)) by {
                        if x.spec_serialize().is_prefix_of(data@.skip(pos as int)) {
                            assert(x.7.spec_serialize().is_prefix_of(data@.skip(e6 as int)));
                        }
                    }
                    }
                }
                return None;
            },
        };
        let r = (v0, v1, v2, v3, v4, v5, v6, v7);
        proof {
            if Self::is_lawful() {
            assert forall|x: Self| #[trigger] x.spec_serialize().is_prefix_of(data@.skip(pos as int)) implies
                r.spec_serialize() == x.spec_serialize() && e7 == pos + x.spec_serialize().len() by {
                assert(x.0.spec_serialize().is_prefix_of(data@.skip(pos as int)));
                assert(v0.spec_serialize() == x.0.spec_serialize());
                assert(x.1.spec_serialize().is_prefix_of(data@.skip(e0 as int)));
                assert(v1.spec_serialize() == x.1.spec_serialize());
                assert(x.2.spec_serialize().is_prefix_of(data@.skip(e1 as int)));
                assert(v2.spec_serialize() == x.2.spec_serialize());
                assert(x.3.spec_serialize().is_prefix_of(data@.skip(e2 as int)));
                assert(v3.spec_serialize() == x.3.spec_serialize());
                assert(x.4.spec_serialize().is_prefix_of(data@.skip(e3 as int)));
                assert(v4.spec_serialize() == x.4.spec_serialize());
                assert(x.5.spec_serialize().is_prefix_of(data@.skip(e4 as int)));
                assert(v5.spec_serialize() == x.5.spec_serialize());
                assert(x.6.spec_serialize().is_prefix_of(data@.skip(e5 as int)));
                assert(v6.spec_serialize() == x.6.spec_serialize());
                assert(x.7.spec_serialize().is_prefix_of(data@.skip(e6 as int)));
                assert(v7.spec_serialize() == x.7.spec_serialize());
            }
            }
        }
        Some((r, e7))
    }

    fn __autarkie_id_name() -> (r: String) {
        let mut r = "(".to_owned();
        let n0 = A::__autarkie_id_name();
        r.append(n0.as_str());
        r.append(", ");
        let n1 = B::__autarkie_id_name();
        r.append(n1.as_str());
        r.append(", ");
        let n2 = C::__autarkie_id_name();
        r.append(n2.as_str());
        r.append(", ");
        let n3 = D::__autarkie_id_name();
        r.append(n3.as_str());
        r.append(", ");
        let n4 = E::__autarkie_id_name();
        r.append(n4.as_str());
        r.append(", ");
        let n5 = F::__autarkie_id_name();
        r.append(n5.as_str());
        r.append(", ");
        let n6 = G::__autarkie_id_name();
        r.append(n6.as_str());
        r.append(", ");
        let n7 = H::__autarkie_id_name();
        r.append(n7.as_str());
        r.append(")");
        assert(r@ == Self::spec_name());
        r
    }
}

/// Whether generating the elements of `t` in turn, each with no settings,
/// from the visitor `before`, can give them and leave `after`.
pub open spec fn elements_9_generated<A: Node, B: Node, C: Node, D: Node, E: Node, F: Node, G: Node, H: Node, I: Node>(before: Visitor, t: (A, B, C, D, E, F, G, H, I), after: Visitor) -> bool {
    exists|g0: Visitor, g1: Visitor, g2: Visitor, g3: Visitor, g4: Visitor, g5: Visitor, g6: Visitor, g7: Visitor|
            #![trigger A::generation(before, None, Some(t.0), g0), B::generation(g0, None, Some(t.1), g1), C::generation(g1, None, Some(t.2), g2), D::generation(g2, None, Some(t.3), g3), E::generation(g3, None, Some(t.4), g4), F::generation(g4, None, Some(t.5), g5), G::generation(g5, None, Some(t.6), g6), H::generation(g6, None, Some(t.7), g7), I::generation(g7, None, Some(t.8), after)]
            A::generation(before, None, Some(t.0), g0)
                && B::generation(g0, None, Some(t.1), g1)
                && C::generation(g1, None, Some(t.2), g2)
                && D::generation(g2, None, Some(t.3), g3)
                && E::generation(g3, None, Some(t.4), g4)
                && F::generation(g4, None, Some(t.5), g5)
                && G::generation(g5, None, Some(t.6), g6)
                && H::generation(g6, None, Some(t.7), g7)
                && I::generation(g7, None, Some(t.8), after)
}

impl<A: Node, B: Node, C: Node, D: Node, E: Node, F: Node, G: Node, H: Node, I: Node> Node for (A, B, C, D, E, F, G, H, I) {
    open spec fn spec_serialize(&self) -> Seq<u8> {
        self.0.spec_serialize() + (self.1.spec_serialize() + (self.2.spec_serialize() + (self.3.spec_serialize() + (self.4.spec_serialize() + (self.5.spec_serialize() + (self.6.spec_serialize() + (self.7.spec_serialize() + (self.8.spec_serialize()))))))))
    }

    open spec fn spec_name() -> Seq<char> {
        "("@ + A::spec_name() + ", "@ + B::spec_name() + ", "@ + C::spec_name() + ", "@ + D::spec_name() + ", "@ + E::spec_name() + ", "@ + F::spec_name() + ", "@ + G::spec_name() + ", "@ + H::spec_name() + ", "@ + I::spec_name() + ")"@
    }

    open spec fn is_lawful() -> bool {
        A::is_lawful() && B::is_lawful() && C::is_lawful() && D::is_lawful() && E::is_lawful() && F::is_lawful() && G::is_lawful() && H::is_lawful() && I::is_lawful()
    }

    open spec fn read_ok(bytes: Seq<u8>) -> bool {
        Self::is_lawful() && exists|x: Self| #[trigger] x.spec_serialize().is_prefix_of(bytes)
    }

    /// For a lawful type, a value read encodes as the start of the bytes,
    /// as any value whose encoding starts them does.
    open spec fn reading(bytes: Seq<u8>, v: Self) -> bool {
        Self::is_lawful() ==> {
            &&& v.spec_serialize().is_prefix_of(bytes)
            &&& forall|x: Self| #[trigger] x.spec_serialize().is_prefix_of(bytes) ==> v.spec_serialize()
                == x.spec_serialize()
        }
    }

    open spec fn encodes_exactly() -> bool {
        A::encodes_exactly() && B::encodes_exactly() && C::encodes_exactly() && D::encodes_exactly() && E::encodes_exactly() && F::encodes_exactly() && G::encodes_exactly() && H::encodes_exactly() && I::encodes_exactly()
    }

    open spec fn walks_known() -> bool {
        A::walks_known() && B::walks_known() && C::walks_known() && D::walks_known() && E::walks_known() && F::walks_known() && G::walks_known() && H::walks_known() && I::walks_known()
    }

    open spec fn node_shape(&self, shape: NodeType) -> bool {
        shape == NodeType::NonRecursive
    }

    /// A node with fixed fields.
    fn __autarkie_node_ty(&self, visitor: &Visitor) -> (r: NodeType) {
        NodeType::NonRecursive
    }

    /// Along a path, the element at its first index is mutated along the
    /// rest of it and the others are kept; at its end, the tuple is replaced.
    open spec fn mutation(&self, ty: &MutationType, path: Seq<usize>, before: Visitor, after: Self, after_v: Visitor) -> bool {
        if path.len() > 0 {
            if path[0] == 0 {
                after.1 == self.1 && after.2 == self.2 && after.3 == self.3 && after.4 == self.4 && after.5 == self.5 && after.6 == self.6 && after.7 == self.7 && after.8 == self.8 && self.0.mutation(ty, path.drop_first(), before, after.0, after_v)
            } else if path[0] == 1 {
                after.0 == self.0 && after.2 == self.2 && after.3 == self.3 && after.4 == self.4 && after.5 == self.5 && after.6 == self.6 && after.7 == self.7 && after.8 == self.8 && self.1.mutation(ty, path.drop_first(), before, after.1, after_v)
            } else if path[0] == 2 {
                after.0 == self.0 && after.1 == self.1 && after.3 == self.3 && after.4 == self.4 && after.5 == self.5 && after.6 == self.6 && after.7 == self.7 && after.8 == self.8 && self.2.mutation(ty, path.drop_first(), before, after.2, after_v)
            } else if path[0] == 3 {
                after.0 == self.0 && after.1 == self.1 && after.2 == self.2 && after.4 == self.4 && after.5 == self.5 && after.6 == self.6 && after.7 == self.7 && after.8 == self.8 && self.3.mutation(ty, path.drop_first(), before, after.3, after_v)
            } else if path[0] == 4 {
                after.0 == self.0 && after.1 == self.1 && after.2 == self.2 && after.3 == self.3 && after.5 == self.5 && after.6 == self.6 && after.7 == self.7 && after.8 == self.8 && self.4.mutation(ty, path.drop_first(), before, after.4, after_v)
            } else if path[0] == 5 {
                after.0 == self.0 && after.1 == self.1 && after.2 == self.2 && after.3 == self.3 && after.4 == self.4 && after.6 == self.6 && after.7 == self.7 && after.8 == self.8 && self.5.mutation(ty, path.drop_first(), before, after.5, after_v)
            } else if path[0] == 6 {
                after.0 == self.0 && after.1 == self.1 && after.2 == self.2 && after.3 == self.3 && after.4 == self.4 && after.5 == self.5 && after.7 == self.7 && after.8 == self.8 && self.6.mutation(ty, path.drop_first(), before, after.6, after_v)
            } else if path[0] == 7 {
                after.0 == self.0 && after.1 == self.1 && after.2 == self.2 && after.3 == self.3 && after.4 == self.4 && after.5 == self.5 && after.6 == self.6 && after.8 == self.8 && self.7.mutation(ty, path.drop_first(), before, after.7, after_v)
            } else if path[0] == 8 {
                after.0 == self.0 && after.1 == self.1 && after.2 == self.2 && after.3 == self.3 && after.4 == self.4 && after.5 == self.5 && after.6 == self.6 && after.7 == self.7 && self.8.mutation(ty, path.drop_first(), before, after.8, after_v)
            } else {
                false
            }
        } else {
            match *ty {
                MutationType::Splice(b) => {
                    &&& after_v == before
                    &&& Self::is_lawful() ==> forall|x: Self| #[trigger] x.spec_serialize().is_prefix_of((**b)@)
                        ==> after.spec_serialize() == x.spec_serialize()
                },
                _ => {
                    ||| after == *self && Self::generation(before, None, None, after_v)
                    ||| exists|generated: Visitor| {
                        &&& #[trigger] Self::generation(before, None, Some(after), generated)
                        &&& after_v.keeps_state(&generated)
                        &&& after_v.fields() == generated.fields()
                        &&& after_v.operands() == generated.operands()
                        &&& after_v.serialized().len() > generated.serialized().len()
                        &&& after_v.serialized_types().len() > generated.serialized_types().len()
                        &&& after_v.serialized_types().last() == Self::spec_name()
                        &&& Self::encodes_exactly() ==> after_v.serialized().last().0 == after.spec_serialize()
                        &&& Self::walks_known() && Self::encodes_exactly() ==> after_v.serialized_bytes()
                            == generated.serialized_bytes() + after.serialized_records() + seq![after.spec_serialize()]
                    }
                },
            }
        }
    }

    open spec fn first_name_ok(name: Seq<char>) -> bool {
        false
    }

    open spec fn always_generates() -> bool {
        A::always_generates() && B::always_generates() && C::always_generates() && D::always_generates() && E::always_generates() && F::always_generates() && G::always_generates() && H::always_generates() && I::always_generates()
    }

    /// Each element is what generating its type in turn gives; generation
    /// gives up at the first element that could not be generated.
    open spec fn generation(before: Visitor, settings: Option<GenerateSettings>, r: Option<Self>, after: Visitor) -> bool {
        &&& after.draws_only(&before)
        &&& r matches Some(t) ==> elements_9_generated(before, t, after)
    }

    open spec fn field_count(&self) -> nat {
        (1 + self.0.field_count()) + (1 + self.1.field_count()) + (1 + self.2.field_count()) + (1 + self.3.field_count()) + (1 + self.4.field_count()) + (1 + self.5.field_count()) + (1 + self.6.field_count()) + (1 + self.7.field_count()) + (1 + self.8.field_count())
    }

    open spec fn comparison_operands(&self, __autarkie_val: (u64, u64)) -> Seq<Seq<u8>> {
        ((((((((self.0.comparison_operands(__autarkie_val)) + self.1.comparison_operands(__autarkie_val)) + self.2.comparison_operands(__autarkie_val)) + self.3.comparison_operands(__autarkie_val)) + self.4.comparison_operands(__autarkie_val)) + self.5.comparison_operands(__autarkie_val)) + self.6.comparison_operands(__autarkie_val)) + self.7.comparison_operands(__autarkie_val)) + self.8.comparison_operands(__autarkie_val)
    }

    open spec fn serialized_records(&self) -> Seq<Seq<u8>> {
        ((((((((seq![self.0.spec_serialize()] + self.0.serialized_records()) + seq![self.1.spec_serialize()] + self.1.serialized_records()) + seq![self.2.spec_serialize()] + self.2.serialized_records()) + seq![self.3.spec_serialize()] + self.3.serialized_records()) + seq![self.4.spec_serialize()] + self.4.serialized_records()) + seq![self.5.spec_serialize()] + self.5.serialized_records()) + seq![self.6.spec_serialize()] + self.6.serialized_records()) + seq![self.7.spec_serialize()] + self.7.serialized_records()) + seq![self.8.spec_serialize()] + self.8.serialized_records()
    }

    open spec fn serialized_record_types(&self) -> Seq<Seq<char>> {
        ((((((((seq![A::spec_name()] + self.0.serialized_record_types()) + seq![B::spec_name()] + self.1.serialized_record_types()) + seq![C::spec_name()] + self.2.serialized_record_types()) + seq![D::spec_name()] + self.3.serialized_record_types()) + seq![E::spec_name()] + self.4.serialized_record_types()) + seq![F::spec_name()] + self.5.serialized_record_types()) + seq![G::spec_name()] + self.6.serialized_record_types()) + seq![H::spec_name()] + self.7.serialized_record_types()) + seq![I::spec_name()] + self.8.serialized_record_types()
    }

    open spec fn generate_ok(settings: GenerateSettings, rng: u64) -> bool {
        true
    }

    open spec fn mutate_ok(&self, ty: &MutationType, path: Seq<usize>) -> bool {
        if path.len() > 0 {
            (path[0] == 0 && self.0.mutate_ok(ty, path.drop_first())) || (path[0] == 1 && self.1.mutate_ok(ty, path.drop_first())) || (path[0] == 2 && self.2.mutate_ok(ty, path.drop_first())) || (path[0] == 3 && self.3.mutate_ok(ty, path.drop_first())) || (path[0] == 4 && self.4.mutate_ok(ty, path.drop_first())) || (path[0] == 5 && self.5.mutate_ok(ty, path.drop_first())) || (path[0] == 6 && self.6.mutate_ok(ty, path.drop_first())) || (path[0] == 7 && self.7.mutate_ok(ty, path.drop_first())) || (path[0] == 8 && self.8.mutate_ok(ty, path.drop_first()))
        } else {
            &&& (*ty is Splice || *ty is GenerateReplace)
            &&& (*ty matches MutationType::Splice(b) ==> (Self::is_lawful() ==> exists|x: Self| #[trigger] x.spec_serialize().is_prefix_of((**b)@)))
        }
    }

    /// Each element generated in turn; generation gives up where one of
    /// them does.
    #[verifier::spinoff_prover]
    fn __autarkie_generate(
        visitor: &mut Visitor,
        depth: &mut usize,
        cur_depth: usize,
        settings: Option<GenerateSettings>,
    ) -> (r: Option<Self>) {
        let ghost p0 = *visitor;
        let f0 = match A::__autarkie_generate(visitor, depth, cur_depth, None) {
            Some(x) => x,
            None => {
                return None;
            },
        };
        let ghost p1 = *visitor;
        let f1 = match B::__autarkie_generate(visitor, depth, cur_depth, None) {
            Some(x) => x,
            None => {
                return None;
            },
        };
        let ghost p2 = *visitor;
        let f2 = match C::__autarkie_generate(visitor, depth, cur_depth, None) {
            Some(x) => x,
            None => {
                return None;
            },
        };
        let ghost p3 = *visitor;
        let f3 = match D::__autarkie_generate(visitor, depth, cur_depth, None) {
            Some(x) => x,
            None => {
                return None;
            },
        };
        let ghost p4 = *visitor;
        let f4 = match E::__autarkie_generate(visitor, depth, cur_depth, None) {
            Some(x) => x,
            None => {
                return None;
            },
        };
        let ghost p5 = *visitor;
        let f5 = match F::__autarkie_generate(visitor, depth, cur_depth, None) {
            Some(x) => x,
            None => {
                return None;
            },
        };
        let ghost p6 = *visitor;
        let f6 = match G::__autarkie_generate(visitor, depth, cur_depth, None) {
            Some(x) => x,
            None => {
                return None;
            },
        };
        let ghost p7 = *visitor;
        let f7 = match H::__autarkie_generate(visitor, depth, cur_depth, None) {
            Some(x) => x,
            None => {
                return None;
            },
        };
        let ghost p8 = *visitor;
        let f8 = match I::__autarkie_generate(visitor, depth, cur_depth, None) {
            Some(x) => x,
            None => {
                return None;
            },
        };
        let ghost gt = (f0, f1, f2, f3, f4, f5, f6, f7, f8);
        proof {
            assert(A::generation(p0, None, Some(gt.0), p1));
            assert(B::generation(p1, None, Some(gt.1), p2));
            assert(C::generation(p2, None, Some(gt.2), p3));
            assert(D::generation(p3, None, Some(gt.3), p4));
            assert(E::generation(p4, None, Some(gt.4), p5));
            assert(F::generation(p5, None, Some(gt.5), p6));
            assert(G::generation(p6, None, Some(gt.6), p7));
            assert(H::generation(p7, None, Some(gt.7), p8));
            assert(I::generation(p8, None, Some(gt.8), *visitor));
            assert(visitor.draws_only(&p0));
            assert(exists|g0: Visitor, g1: Visitor, g2: Visitor, g3: Visitor, g4: Visitor, g5: Visitor, g6: Visitor, g7: Visitor| A::generation(p0, None, Some(gt.0), g0) && B::generation(g0, None, Some(gt.1), g1) && C::generation(g1, None, Some(gt.2), g2) && D::generation(g2, None, Some(gt.3), g3) && E::generation(g3, None, Some(gt.4), g4) && F::generation(g4, None, Some(gt.5), g5) && G::generation(g5, None, Some(gt.6), g6) && H::generation(g6, None, Some(gt.7), g7) && I::generation(g7, None, Some(gt.8), *visitor));
            assert(elements_9_generated(p0, gt, *visitor));
        }
        Some((f0, f1, f2, f3, f4, f5, f6, f7, f8))
    }

    /// Along the path, mutates the element at its first index; at its end,
    /// replaces the tuple by the one the spliced bytes encode, or by a
    /// generated one whose encodings are then recorded.
    #[verifier::spinoff_prover]
    fn __autarkie_mutate(
        &mut self,
        ty: &mut MutationType,
        visitor: &mut Visitor,
        path: VecDeque<usize>,
    ) {
        let mut path = path;
        match path.pop_front() {
            Some(popped) => {
                if popped == 0 {
                    self.0.__autarkie_mutate(ty, visitor, path);
                } else if popped == 1 {
                    self.1.__autarkie_mutate(ty, visitor, path);
                } else if popped == 2 {
                    self.2.__autarkie_mutate(ty, visitor, path);
                } else if popped == 3 {
                    self.3.__autarkie_mutate(ty, visitor, path);
                } else if popped == 4 {
                    self.4.__autarkie_mutate(ty, visitor, path);
                } else if popped == 5 {
                    self.5.__autarkie_mutate(ty, visitor, path);
                } else if popped == 6 {
                    self.6.__autarkie_mutate(ty, visitor, path);
                } else if popped == 7 {
                    self.7.__autarkie_mutate(ty, visitor, path);
                } else if popped == 8 {
                    self.8.__autarkie_mutate(ty, visitor, path);
                } else {
                    proof {
                        assert(false);
                    }
                }
            },
            None => {
                match ty {
                    MutationType::Splice(other) => {
                        let bytes: &[u8] = **other;
                        proof {
                            assert(bytes@.skip(0) =~= bytes@);
                        }
                        match Self::__autarkie_deserialize(bytes, 0) {
                            Some((v, end)) => {
                                proof {
                                    if Self::is_lawful() {
                                        assert(v.spec_serialize() =~= bytes@.subrange(0, v.spec_serialize().len() as int));
                                        assert(v.spec_serialize().is_prefix_of(bytes@));
                                    }
                                }
                                *self = v;
                            },
                            None => {},
                        }
                    },
                    MutationType::GenerateReplace(bias) => {
                        match Self::__autarkie_generate(visitor, bias, 0, None) {
                            Some(generated) => {
                                *self = generated;
                                let ghost g = *visitor;
                                self.__autarkie_serialized(visitor);
                                Self::record_encoding(visitor, self.__autarkie_serialize());
                                proof {
                                    assert(Self::generation(*old(visitor), None, Some(*self), g));
                                    if Self::walks_known() && Self::encodes_exactly() {
                                        assert(visitor.serialized_bytes() =~= g.serialized_bytes()
                                            + self.serialized_records() + seq![self.spec_serialize()]);
                                    }
                                }
                            },
                            None => {},
                        }
                    },
                    _ => {
                        proof {
                            assert(false);
                        }
                    },
                }
            },
        }
    }

    /// Enters each element as a field, at its position, and records its fields.
    #[verifier::spinoff_prover]
    fn __autarkie_fields(&self, visitor: &mut Visitor, index: usize) {
        let ghost p0 = *visitor;
        let id0 = A::enter_as_field(visitor, 0, NodeType::NonRecursive).1;
        let ghost e0 = *visitor;
        self.0.__autarkie_fields(visitor, 0);
        let ghost i0 = *visitor;
        visitor.pop_field();
        proof {
            assert(field_entered(p0, ((0, NodeType::NonRecursive), id0), A::spec_name(), e0));
            assert(field_left(i0, *visitor));
            assert(walked_in_field(self.0, 0, A::spec_name(), 0, None, p0, *visitor));
        }
        let ghost p1 = *visitor;
        let id1 = B::enter_as_field(visitor, 1, NodeType::NonRecursive).1;
        let ghost e1 = *visitor;
        self.1.__autarkie_fields(visitor, 0);
        let ghost i1 = *visitor;
        visitor.pop_field();
        proof {
            assert(field_entered(p1, ((1, NodeType::NonRecursive), id1), B::spec_name(), e1));
            assert(field_left(i1, *visitor));
            assert(walked_in_field(self.1, 1, B::spec_name(), 0, None, p1, *visitor));
        }
        let ghost p2 = *visitor;
        let id2 = C::enter_as_field(visitor, 2, NodeType::NonRecursive).1;
        let ghost e2 = *visitor;
        self.2.__autarkie_fields(visitor, 0);
        let ghost i2 = *visitor;
        visitor.pop_field();
        proof {
            assert(field_entered(p2, ((2, NodeType::NonRecursive), id2), C::spec_name(), e2));
            assert(field_left(i2, *visitor));
            assert(walked_in_field(self.2, 2, C::spec_name(), 0, None, p2, *visitor));
        }
        let ghost p3 = *visitor;
        let id3 = D::enter_as_field(visitor, 3, NodeType::NonRecursive).1;
        let ghost e3 = *visitor;
        self.3.__autarkie_fields(visitor, 0);
        let ghost i3 = *visitor;
        visitor.pop_field();
        proof {
            assert(field_entered(p3, ((3, NodeType::NonRecursive), id3), D::spec_name(), e3));
            assert(field_left(i3, *visitor));
            assert(walked_in_field(self.3, 3, D::spec_name(), 0, None, p3, *visitor));
        }
        let ghost p4 = *visitor;
        let id4 = E::enter_as_field(visitor, 4, NodeType::NonRecursive).1;
        let ghost e4 = *visitor;
        self.4.__autarkie_fields(visitor, 0);
        let ghost i4 = *visitor;
        visitor.pop_field();
        proof {
            assert(field_entered(p4, ((4, NodeType::NonRecursive), id4), E::spec_name(), e4));
            assert(field_left(i4, *visitor));
            assert(walked_in_field(self.4, 4, E::spec_name(), 0, None, p4, *visitor));
        }
        let ghost p5 = *visitor;
        let id5 = F::enter_as_field(visitor, 5, NodeType::NonRecursive).1;
        let ghost e5 = *visitor;
        self.5.__autarkie_fields(visitor, 0);
        let ghost i5 = *visitor;
        visitor.pop_field();
        proof {
            assert(field_entered(p5, ((5, NodeType::NonRecursive), id5), F::spec_name(), e5));
            assert(field_left(i5, *visitor));
            assert(walked_in_field(self.5, 5, F::spec_name(), 0, None, p5, *visitor));
        }
        let ghost p6 = *visitor;
        let id6 = G::enter_as_field(visitor, 6, NodeType::NonRecursive).1;
        let ghost e6 = *visitor;
        self.6.__autarkie_fields(visitor, 0);
        let ghost i6 = *visitor;
        visitor.pop_field();
        proof {
            assert(field_entered(p6, ((6, NodeType::NonRecursive), id6), G::spec_name(), e6));
            assert(field_left(i6, *visitor));
            assert(walked_in_field(self.6, 6, G::spec_name(), 0, None, p6, *visitor));
        }
        let ghost p7 = *visitor;
        let id7 = H::enter_as_field(visitor, 7, NodeType::NonRecursive).1;
        let ghost e7 = *visitor;
        self.7.__autarkie_fields(visitor, 0);
        let ghost i7 = *visitor;
        visitor.pop_field();
        proof {
            assert(field_entered(p7, ((7, NodeType::NonRecursive), id7), H::spec_name(), e7));
            assert(field_left(i7, *visitor));
            assert(walked_in_field(self.7, 7, H::spec_name(), 0, None, p7, *visitor));
        }
        let ghost p8 = *visitor;
        let id8 = I::enter_as_field(visitor, 8, NodeType::NonRecursive).1;
        let ghost e8 = *visitor;
        self.8.__autarkie_fields(visitor, 0);
        let ghost i8 = *visitor;
        visitor.pop_field();
        proof {
            assert(field_entered(p8, ((8, NodeType::NonRecursive), id8), I::spec_name(), e8));
            assert(field_left(i8, *visitor));
            assert(walked_in_field(self.8, 8, I::spec_name(), 0, None, p8, *visitor));
        }
    }

    /// Each element is walked in turn, inside a field at its position, as
    /// field 0 of it.
    open spec fn walk(&self, index: usize, compared: Option<(u64, u64)>, before: Visitor, after: Visitor) -> bool {
        exists|u0: Visitor, u1: Visitor, u2: Visitor, u3: Visitor, u4: Visitor, u5: Visitor, u6: Visitor, u7: Visitor|
            #![trigger walked_in_field(self.0, 0, A::spec_name(), 0, compared, before, u0), walked_in_field(self.1, 1, B::spec_name(), 0, compared, u0, u1), walked_in_field(self.2, 2, C::spec_name(), 0, compared, u1, u2), walked_in_field(self.3, 3, D::spec_name(), 0, compared, u2, u3), walked_in_field(self.4, 4, E::spec_name(), 0, compared, u3, u4), walked_in_field(self.5, 5, F::spec_name(), 0, compared, u4, u5), walked_in_field(self.6, 6, G::spec_name(), 0, compared, u5, u6), walked_in_field(self.7, 7, H::spec_name(), 0, compared, u6, u7), walked_in_field(self.8, 8, I::spec_name(), 0, compared, u7, after)]
            walked_in_field(self.0, 0, A::spec_name(), 0, compared, before, u0)
                && walked_in_field(self.1, 1, B::spec_name(), 0, compared, u0, u1)
                && walked_in_field(self.2, 2, C::spec_name(), 0, compared, u1, u2)
                && walked_in_field(self.3, 3, D::spec_name(), 0, compared, u2, u3)
                && walked_in_field(self.4, 4, E::spec_name(), 0, compared, u3, u4)
                && walked_in_field(self.5, 5, F::spec_name(), 0, compared, u4, u5)
                && walked_in_field(self.6, 6, G::spec_name(), 0, compared, u5, u6)
                && walked_in_field(self.7, 7, H::spec_name(), 0, compared, u6, u7)
                && walked_in_field(self.8, 8, I::spec_name(), 0, compared, u7, after)
    }

    /// The tuple registered, then under it each element type in turn, at
    /// variant 0 (its own registration, or one edge to it where it is being
    /// registered already).
    open spec fn registration(before: Visitor, parent: Option<Id>, variant: usize, after: Visitor) -> bool {
        exists|me: Id, v1: Visitor, w0: Visitor, w1: Visitor, w2: Visitor, w3: Visitor, w4: Visitor, w5: Visitor, w6: Visitor, w7: Visitor, w8: Visitor|
            #![trigger entered(before, parent, variant, Self::spec_name(), me, v1), child_registered::<A>(v1, Some(me), 0, w0), child_registered::<B>(w0, Some(me), 0, w1), child_registered::<C>(w1, Some(me), 0, w2), child_registered::<D>(w2, Some(me), 0, w3), child_registered::<E>(w3, Some(me), 0, w4), child_registered::<F>(w4, Some(me), 0, w5), child_registered::<G>(w5, Some(me), 0, w6), child_registered::<H>(w6, Some(me), 0, w7), child_registered::<I>(w7, Some(me), 0, w8), left(w8, after)]
            entered(before, parent, variant, Self::spec_name(), me, v1)
                && child_registered::<A>(v1, Some(me), 0, w0)
                && child_registered::<B>(w0, Some(me), 0, w1)
                && child_registered::<C>(w1, Some(me), 0, w2)
                && child_registered::<D>(w2, Some(me), 0, w3)
                && child_registered::<E>(w3, Some(me), 0, w4)
                && child_registered::<F>(w4, Some(me), 0, w5)
                && child_registered::<G>(w5, Some(me), 0, w6)
                && child_registered::<H>(w6, Some(me), 0, w7)
                && child_registered::<I>(w7, Some(me), 0, w8)
                && left(w8, after)
    }

    /// Registers the tuple type, then under it each element type (or only
    /// the edge to it, where it is being registered already).
    #[verifier::spinoff_prover]
    #[verifier::rlimit(50)]
    fn __autarkie_register(v: &mut Visitor, parent: Option<(Id, String)>, variant: usize)
        ensures
            final(v).ty_edges().len() > old(v).ty_edges().len(),
            final(v).ty_edges()[old(v).ty_edges().len() as int].2 == variant,
    {
        let ghost v0 = *v;
        let ghost start = v.ty_edges().len();
        let me = Self::register_self(v, parent, variant);
        let me_id = me.0;
        let me_name = me.1.clone();
        let ghost v1 = *v;
        let ghost first = v.ty_edges()[start as int];
        proof {
            assert(entered(v0, parent_id(parent), variant, Self::spec_name(), me_id, v1));
        }
        register_child::<A>(v, (me_id, me_name.clone()), 0);
        let ghost w0 = *v;
        proof {
            assert(w0.extends(&v1));
        }
        register_child::<B>(v, (me_id, me_name.clone()), 0);
        let ghost w1 = *v;
        proof {
            assert(w1.extends(&v1));
        }
        register_child::<C>(v, (me_id, me_name.clone()), 0);
        let ghost w2 = *v;
        proof {
            assert(w2.extends(&v1));
        }
        register_child::<D>(v, (me_id, me_name.clone()), 0);
        let ghost w3 = *v;
        proof {
            assert(w3.extends(&v1));
        }
        register_child::<E>(v, (me_id, me_name.clone()), 0);
        let ghost w4 = *v;
        proof {
            assert(w4.extends(&v1));
        }
        register_child::<F>(v, (me_id, me_name.clone()), 0);
        let ghost w5 = *v;
        proof {
            assert(w5.extends(&v1));
        }
        register_child::<G>(v, (me_id, me_name.clone()), 0);
        let ghost w6 = *v;
        proof {
            assert(w6.extends(&v1));
        }
        register_child::<H>(v, (me_id, me_name.clone()), 0);
        let ghost w7 = *v;
        proof {
            assert(w7.extends(&v1));
        }
        register_child::<I>(v, (me_id, me_name.clone()), 0);
        let ghost w8 = *v;
        proof {
            assert(w8.extends(&v1));
        }
        let ghost v3 = *v;
        v.pop_ty();
        proof {
            assert(left(v3, *v));
            assert(v3.extends(&v1));
            assert(v0.ty_edges().is_prefix_of(v1.ty_edges()));
            assert(v0.ty_names().is_prefix_of(v1.ty_names()));
            assert(v1.ty_edges().is_prefix_of(v3.ty_edges()));
            assert(v.ty_edges()[start as int] == first);
        }
    }

    /// Records the encoding of each element, then what it records.
    #[verifier::spinoff_prover]
    #[verifier::rlimit(50)]
    fn __autarkie_serialized(&self, visitor: &mut Visitor) {
        A::record_encoding(visitor, self.0.__autarkie_serialize());
        proof {
            if Self::walks_known() && (Self::is_lawful() || Self::encodes_exactly()) {
                assert(visitor.serialized_bytes() =~= old(visitor).serialized_bytes() + (seq![self.0.spec_serialize()]));
            }
            if Self::walks_known() {
                assert(visitor.serialized_types() =~= old(visitor).serialized_types() + (seq![A::spec_name()]));
            }
        }
        self.0.__autarkie_serialized(visitor);
        proof {
            if Self::walks_known() && (Self::is_lawful() || Self::encodes_exactly()) {
                assert(visitor.serialized_bytes() =~= old(visitor).serialized_bytes() + (seq![self.0.spec_serialize()] + self.0.serialized_records()));
            }
            if Self::walks_known() {
                assert(visitor.serialized_types() =~= old(visitor).serialized_types() + (seq![A::spec_name()] + self.0.serialized_record_types()));
            }
        }
        B::record_encoding(visitor, self.1.__autarkie_serialize());
        proof {
            if Self::walks_known() && (Self::is_lawful() || Self::encodes_exactly()) {
                assert(visitor.serialized_bytes() =~= old(visitor).serialized_bytes() + ((seq![self.0.spec_serialize()] + self.0.serialized_records()) + seq![self.1.spec_serialize()]));
            }
            if Self::walks_known() {
                assert(visitor.serialized_types() =~= old(visitor).serialized_types() + ((seq![A::spec_name()] + self.0.serialized_record_types()) + seq![B::spec_name()]));
            }
        }
        self.1.__autarkie_serialized(visitor);
        proof {
            if Self::walks_known() && (Self::is_lawful() || Self::encodes_exactly()) {
                assert(visitor.serialized_bytes() =~= old(visitor).serialized_bytes() + ((seq![self.0.spec_serialize()] + self.0.serialized_records()) + seq![self.1.spec_serialize()] + self.1.serialized_records()));
            }
            if Self::walks_known() {
                assert(visitor.serialized_types() =~= old(visitor).serialized_types() + ((seq![A::spec_name()] + self.0.serialized_record_types()) + seq![B::spec_name()] + self.1.serialized_record_types()));
            }
        }
        C::record_encoding(visitor, self.2.__autarkie_serialize());
        proof {
            if Self::walks_known() && (Self::is_lawful() || Self::encodes_exactly()) {
                assert(visitor.serialized_bytes() =~= old(visitor).serialized_bytes() + (((seq![self.0.spec_serialize()] + self.0.serialized_records()) + seq![self.1.spec_serialize()] + self.1.serialized_records()) + seq![self.2.spec_serialize()]));
            }
            if Self::walks_known() {
                assert(visitor.serialized_types() =~= old(visitor).serialized_types() + (((seq![A::spec_name()] + self.0.serialized_record_types()) + seq![B::spec_name()] + self.1.serialized_record_types()) + seq![C::spec_name()]));
            }
        }
        self.2.__autarkie_serialized(visitor);
        proof {
            if Self::walks_known() && (Self::is_lawful() || Self::encodes_exactly()) {
                assert(visitor.serialized_bytes() =~= old(visitor).serialized_bytes() + (((seq![self.0.spec_serialize()] + self.0.serialized_records()) + seq![self.1.spec_serialize()] + self.1.serialized_records()) + seq![self.2.spec_serialize()] + self.2.serialized_records()));
            }
            if Self::walks_known() {
                assert(visitor.serialized_types() =~= old(visitor).serialized_types() + (((seq![A::spec_name()] + self.0.serialized_record_types()) + seq![B::spec_name()] + self.1.serialized_record_types()) + seq![C::spec_name()] + self.2.serialized_record_types()));
            }
        }
        D::record_encoding(visitor, self.3.__autarkie_serialize());
        proof {
            if Self::walks_known() && (Self::is_lawful() || Self::encodes_exactly()) {
                assert(visitor.serialized_bytes() =~= old(visitor).serialized_bytes() + ((((seq![self.0.spec_serialize()] + self.0.serialized_records()) + seq![self.1.spec_serialize()] + self.1.serialized_records()) + seq![self.2.spec_serialize()] + self.2.serialized_records()) + seq![self.3.spec_serialize()]));
            }
            if Self::walks_known() {
                assert(visitor.serialized_types() =~= old(visitor).serialized_types() + ((((seq![A::spec_name()] + self.0.serialized_record_types()) + seq![B::spec_name()] + self.1.serialized_record_types()) + seq![C::spec_name()] + self.2.serialized_record_types()) + seq![D::spec_name()]));
            }
        }
        self.3.__autarkie_serialized(visitor);
        proof {
            if Self::walks_known() && (Self::is_lawful() || Self::encodes_exactly()) {
                assert(visitor.serialized_bytes() =~= old(visitor).serialized_bytes() + ((((seq![self.0.spec_serialize()] + self.0.serialized_records()) + seq![self.1.spec_serialize()] + self.1.serialized_records()) + seq![self.2.spec_serialize()] + self.2.serialized_records()) + seq![self.3.spec_serialize()] + self.3.serialized_records()));
            }
            if Self::walks_known() {
                assert(visitor.serialized_types() =~= old(visitor).serialized_types() + ((((seq![A::spec_name()] + self.0.serialized_record_types()) + seq![B::spec_name()] + self.1.serialized_record_types()) + seq![C::spec_name()] + self.2.serialized_record_types()) + seq![D::spec_name()] + self.3.serialized_record_types()));
            }
        }
        E::record_encoding(visitor, self.4.__autarkie_serialize());
        proof {
            if Self::walks_known() && (Self::is_lawful() || Self::encodes_exactly()) {
                assert(visitor.serialized_bytes() =~= old(visitor).serialized_bytes() + (((((seq![self.0.spec_serialize()] + self.0.serialized_records()) + seq![self.1.spec_serialize()] + self.1.serialized_records()) + seq![self.2.spec_serialize()] + self.2.serialized_records()) + seq![self.3.spec_serialize()] + self.3.serialized_records()) + seq![self.4.spec_serialize()]));
            }
            if Self::walks_known() {
                assert(visitor.serialized_types() =~= old(visitor).serialized_types() + (((((seq![A::spec_name()] + self.0.serialized_record_types()) + seq![B::spec_name()] + self.1.serialized_record_types()) + seq![C::spec_name()] + self.2.serialized_record_types()) + seq![D::spec_name()] + self.3.serialized_record_types()) + seq![E::spec_name()]));
            }
        }
        self.4.__autarkie_serialized(visitor);
        proof {
            if Self::walks_known() && (Self::is_lawful() || Self::encodes_exactly()) {
                assert(visitor.serialized_bytes() =~= old(visitor).serialized_bytes() + (((((seq![self.0.spec_serialize()] + self.0.serialized_records()) + seq![self.1.spec_serialize()] + self.1.serialized_records()) + seq![self.2.spec_serialize()] + self.2.serialized_records()) + seq![self.3.spec_serialize()] + self.3.serialized_records()) + seq![self.4.spec_serialize()] + self.4.serialized_records()));
            }
            if Self::walks_known() {
                assert(visitor.serialized_types() =~= old(visitor).serialized_types() + (((((seq![A::spec_name()] + self.0.serialized_record_types()) + seq![B::spec_name()] + self.1.serialized_record_types()) + seq![C::spec_name()] + self.2.serialized_record_types()) + seq![D::spec_name()] + self.3.serialized_record_types()) + seq![E::spec_name()] + self.4.serialized_record_types()));
            }
        }
        F::record_encoding(visitor, self.5.__autarkie_serialize());
        proof {
            if Self::walks_known() && (Self::is_lawful() || Self::encodes_exactly()) {
                assert(visitor.serialized_bytes() =~= old(visitor).serialized_bytes() + ((((((seq![self.0.spec_serialize()] + self.0.serialized_records()) + seq![self.1.spec_serialize()] + self.1.serialized_records()) + seq![self.2.spec_serialize()] + self.2.serialized_records()) + seq![self.3.spec_serialize()] + self.3.serialized_records()) + seq![self.4.spec_serialize()] + self.4.serialized_records()) + seq![self.5.spec_serialize()]));
            }
            if Self::walks_known() {
                assert(visitor.serialized_types() =~= old(visitor).serialized_types() + ((((((seq![A::spec_name()] + self.0.serialized_record_types()) + seq![B::spec_name()] + self.1.serialized_record_types()) + seq![C::spec_name()] + self.2.serialized_record_types()) + seq![D::spec_name()] + self.3.serialized_record_types()) + seq![E::spec_name()] + self.4.serialized_record_types()) + seq![F::spec_name()]));
            }
        }
        self.5.__autarkie_serialized(visitor);
        proof {
            if Self::walks_known() && (Self::is_lawful() || Self::encodes_exactly()) {
                assert(visitor.serialized_bytes() =~= old(visitor).serialized_bytes() + ((((((seq![self.0.spec_serialize()] + self.0.serialized_records()) + seq![self.1.spec_serialize()] + self.1.serialized_records()) + seq![self.2.spec_serialize()] + self.2.serialized_records()) + seq![self.3.spec_serialize()] + self.3.serialized_records()) + seq![self.4.spec_serialize()] + self.4.serialized_records()) + seq![self.5.spec_serialize()] + self.5.serialized_records()));
            }
            if Self::walks_known() {
                assert(visitor.serialized_types() =~= old(visitor).serialized_types() + ((((((seq![A::spec_name()] + self.0.serialized_record_types()) + seq![B::spec_name()] + self.1.serialized_record_types()) + seq![C::spec_name()] + self.2.serialized_record_types()) + seq![D::spec_name()] + self.3.serialized_record_types()) + seq![E::spec_name()] + self.4.serialized_record_types()) + seq![F::spec_name()] + self.5.serialized_record_types()));
            }
        }
        G::record_encoding(visitor, self.6.__autarkie_serialize());
        proof {
            if Self::walks_known() && (Self::is_lawful() || Self::encodes_exactly()) {
                assert(visitor.serialized_bytes() =~= old(visitor).serialized_bytes() + (((((((seq![self.0.spec_serialize()] + self.0.serialized_records()) + seq![self.1.spec_serialize()] + self.1.serialized_records()) + seq![self.2.spec_serialize()] + self.2.serialized_records()) + seq![self.3.spec_serialize()] + self.3.serialized_records()) + seq![self.4.spec_serialize()] + self.4.serialized_records()) + seq![self.5.spec_serialize()] + self.5.serialized_records()) + seq![self.6.spec_serialize()]));
            }
            if Self::walks_known() {
                assert(visitor.serialized_types() =~= old(visitor).serialized_types() + (((((((seq![A::spec_name()] + self.0.serialized_record_types()) + seq![B::spec_name()] + self.1.serialized_record_types()) + seq![C::spec_name()] + self.2.serialized_record_types()) + seq![D::spec_name()] + self.3.serialized_record_types()) + seq![E::spec_name()] + self.4.serialized_record_types()) + seq![F::spec_name()] + self.5.serialized_record_types()) + seq![G::spec_name()]));
            }
        }
        self.6.__autarkie_serialized(visitor);
        proof {
            if Self::walks_known() && (Self::is_lawful() || Self::encodes_exactly()) {
                assert(visitor.serialized_bytes() =~= old(visitor).serialized_bytes() + (((((((seq![self.0.spec_serialize()] + self.0.serialized_records()) + seq![self.1.spec_serialize()] + self.1.serialized_records()) + seq![self.2.spec_serialize()] + self.2.serialized_records()) + seq![self.3.spec_serialize()] + self.3.serialized_records()) + seq![self.4.spec_serialize()] + self.4.serialized_records()) + seq![self.5.spec_serialize()] + self.5.serialized_records()) + seq![self.6.spec_serialize()] + self.6.serialized_records()));
            }
            if Self::walks_known() {
                assert(visitor.serialized_types() =~= old(visitor).serialized_types() + (((((((seq![A::spec_name()] + self.0.serialized_record_types()) + seq![B::spec_name()] + self.1.serialized_record_types()) + seq![C::spec_name()] + self.2.serialized_record_types()) + seq![D::spec_name()] + self.3.serialized_record_types()) + seq![E::spec_name()] + self.4.serialized_record_types()) + seq![F::spec_name()] + self.5.serialized_record_types()) + seq![G::spec_name()] + self.6.serialized_record_types()));
            }
        }
        H::record_encoding(visitor, self.7.__autarkie_serialize());
        proof {
            if Self::walks_known() && (Self::is_lawful() || Self::encodes_exactly()) {
                assert(visitor.serialized_bytes() =~= old(visitor).serialized_bytes() + ((((((((seq![self.0.spec_serialize()] + self.0.serialized_records()) + seq![self.1.spec_serialize()] + self.1.serialized_records()) + seq![self.2.spec_serialize()] + self.2.serialized_records()) + seq![self.3.spec_serialize()] + self.3.serialized_records()) + seq![self.4.spec_serialize()] + self.4.serialized_records()) + seq![self.5.spec_serialize()] + self.5.serialized_records()) + seq![self.6.spec_serialize()] + self.6.serialized_records()) + seq![self.7.spec_serialize()]));
            }
            if Self::walks_known() {
                assert(visitor.serialized_types() =~= old(visitor).serialized_types() + ((((((((seq![A::spec_name()] + self.0.serialized_record_types()) + seq![B::spec_name()] + self.1.serialized_record_types()) + seq![C::spec_name()] + self.2.serialized_record_types()) + seq![D::spec_name()] + self.3.serialized_record_types()) + seq![E::spec_name()] + self.4.serialized_record_types()) + seq![F::spec_name()] + self.5.serialized_record_types()) + seq![G::spec_name()] + self.6.serialized_record_types()) + seq![H::spec_name()]));
            }
        }
        self.7.__autarkie_serialized(visitor);
        proof {
            if Self::walks_known() && (Self::is_lawful() || Self::encodes_exactly()) {
                assert(visitor.serialized_bytes() =~= old(visitor).serialized_bytes() + ((((((((seq![self.0.spec_serialize()] + self.0.serialized_records()) + seq![self.1.spec_serialize()] + self.1.serialized_records()) + seq![self.2.spec_serialize()] + self.2.serialized_records()) + seq![self.3.spec_serialize()] + self.3.serialized_records()) + seq![self.4.spec_serialize()] + self.4.serialized_records()) + seq![self.5.spec_serialize()] + self.5.serialized_records()) + seq![self.6.spec_serialize()] + self.6.serialized_records()) + seq![self.7.spec_serialize()] + self.7.serialized_records()));
            }
            if Self::walks_known() {
                assert(visitor.serialized_types() =~= old(visitor).serialized_types() + ((((((((seq![A::spec_name()] + self.0.serialized_record_types()) + seq![B::spec_name()] + self.1.serialized_record_types()) + seq![C::spec_name()] + self.2.serialized_record_types()) + seq![D::spec_name()] + self.3.serialized_record_types()) + seq![E::spec_name()] + self.4.serialized_record_types()) + seq![F::spec_name()] + self.5.serialized_record_types()) + seq![G::spec_name()] + self.6.serialized_record_types()) + seq![H::spec_name()] + self.7.serialized_record_types()));
            }
        }
        I::record_encoding(visitor, self.8.__autarkie_serialize());
        proof {
            if Self::walks_known() && (Self::is_lawful() || Self::encodes_exactly()) {
                assert(visitor.serialized_bytes() =~= old(visitor).serialized_bytes() + (((((((((seq![self.0.spec_serialize()] + self.0.serialized_records()) + seq![self.1.spec_serialize()] + self.1.serialized_records()) + seq![self.2.spec_serialize()] + self.2.serialized_records()) + seq![self.3.spec_serialize()] + self.3.serialized_records()) + seq![self.4.spec_serialize()] + self.4.serialized_records()) + seq![self.5.spec_serialize()] + self.5.serialized_records()) + seq![self.6.spec_serialize()] + self.6.serialized_records()) + seq![self.7.spec_serialize()] + self.7.serialized_records()) + seq![self.8.spec_serialize()]));
            }
            if Self::walks_known() {
                assert(visitor.serialized_types() =~= old(visitor).serialized_types() + (((((((((seq![A::spec_name()] + self.0.serialized_record_types()) + seq![B::spec_name()] + self.1.serialized_record_types()) + seq![C::spec_name()] + self.2.serialized_record_types()) + seq![D::spec_name()] + self.3.serialized_record_types()) + seq![E::spec_name()] + self.4.serialized_record_types()) + seq![F::spec_name()] + self.5.serialized_record_types()) + seq![G::spec_name()] + self.6.serialized_record_types()) + seq![H::spec_name()] + self.7.serialized_record_types()) + seq![I::spec_name()]));
            }
        }
        self.8.__autarkie_serialized(visitor);
        proof {
            if Self::walks_known() && (Self::is_lawful() || Self::encodes_exactly()) {
                assert(visitor.serialized_bytes() =~= old(visitor).serialized_bytes() + (((((((((seq![self.0.spec_serialize()] + self.0.serialized_records()) + seq![self.1.spec_serialize()] + self.1.serialized_records()) + seq![self.2.spec_serialize()] + self.2.serialized_records()) + seq![self.3.spec_serialize()] + self.3.serialized_records()) + seq![self.4.spec_serialize()] + self.4.serialized_records()) + seq![self.5.spec_serialize()] + self.5.serialized_records()) + seq![self.6.spec_serialize()] + self.6.serialized_records()) + seq![self.7.spec_serialize()] + self.7.serialized_records()) + seq![self.8.spec_serialize()] + self.8.serialized_records()));
            }
            if Self::walks_known() {
                assert(visitor.serialized_types() =~= old(visitor).serialized_types() + (((((((((seq![A::spec_name()] + self.0.serialized_record_types()) + seq![B::spec_name()] + self.1.serialized_record_types()) + seq![C::spec_name()] + self.2.serialized_record_types()) + seq![D::spec_name()] + self.3.serialized_record_types()) + seq![E::spec_name()] + self.4.serialized_record_types()) + seq![F::spec_name()] + self.5.serialized_record_types()) + seq![G::spec_name()] + self.6.serialized_record_types()) + seq![H::spec_name()] + self.7.serialized_record_types()) + seq![I::spec_name()] + self.8.serialized_record_types()));
            }
        }
    }

    /// Enters each element as a field, at its position, and records its
    /// comparison operands.
    #[verifier::spinoff_prover]
    fn __autarkie_cmps(&self, visitor: &mut Visitor, index: usize, __autarkie_val: (u64, u64)) {
        let ghost p0 = *visitor;
        let id0 = A::enter_as_field(visitor, 0, NodeType::NonRecursive).1;
        let ghost e0 = *visitor;
        self.0.__autarkie_cmps(visitor, 0, __autarkie_val);
        let ghost i0 = *visitor;
        visitor.pop_field();
        proof {
            assert(field_entered(p0, ((0, NodeType::NonRecursive), id0), A::spec_name(), e0));
            assert(field_left(i0, *visitor));
            assert(walked_in_field(self.0, 0, A::spec_name(), 0, Some(__autarkie_val), p0, *visitor));
            if Self::walks_known() {
                assert(visitor.operands() =~= old(visitor).operands() + (self.0.comparison_operands(__autarkie_val)));
            }
        }
        let ghost p1 = *visitor;
        let id1 = B::enter_as_field(visitor, 1, NodeType::NonRecursive).1;
        let ghost e1 = *visitor;
        self.1.__autarkie_cmps(visitor, 0, __autarkie_val);
        let ghost i1 = *visitor;
        visitor.pop_field();
        proof {
            assert(field_entered(p1, ((1, NodeType::NonRecursive), id1), B::spec_name(), e1));
            assert(field_left(i1, *visitor));
            assert(walked_in_field(self.1, 1, B::spec_name(), 0, Some(__autarkie_val), p1, *visitor));
            if Self::walks_known() {
                assert(visitor.operands() =~= old(visitor).operands() + ((self.0.comparison_operands(__autarkie_val)) + self.1.comparison_operands(__autarkie_val)));
            }
        }
        let ghost p2 = *visitor;
        let id2 = C::enter_as_field(visitor, 2, NodeType::NonRecursive).1;
        let ghost e2 = *visitor;
        self.2.__autarkie_cmps(visitor, 0, __autarkie_val);
        let ghost i2 = *visitor;
        visitor.pop_field();
        proof {
            assert(field_entered(p2, ((2, NodeType::NonRecursive), id2), C::spec_name(), e2));
            assert(field_left(i2, *visitor));
            assert(walked_in_field(self.2, 2, C::spec_name(), 0, Some(__autarkie_val), p2, *visitor));
            if Self::walks_known() {
                assert(visitor.operands() =~= old(visitor).operands() + (((self.0.comparison_operands(__autarkie_val)) + self.1.comparison_operands(__autarkie_val)) + self.2.comparison_operands(__autarkie_val)));
            }
        }
        let ghost p3 = *visitor;
        let id3 = D::enter_as_field(visitor, 3, NodeType::NonRecursive).1;
        let ghost e3 = *visitor;
        self.3.__autarkie_cmps(visitor, 0, __autarkie_val);
        let ghost i3 = *visitor;
        visitor.pop_field();
        proof {
            assert(field_entered(p3, ((3, NodeType::NonRecursive), id3), D::spec_name(), e3));
            assert(field_left(i3, *visitor));
            assert(walked_in_field(self.3, 3, D::spec_name(), 0, Some(__autarkie_val), p3, *visitor));
            if Self::walks_known() {
                assert(visitor.operands() =~= old(visitor).operands() + ((((self.0.comparison_operands(__autarkie_val)) + self.1.comparison_operands(__autarkie_val)) + self.2.comparison_operands(__autarkie_val)) + self.3.comparison_operands(__autarkie_val)));
            }
        }
        let ghost p4 = *visitor;
        let id4 = E::enter_as_field(visitor, 4, NodeType::NonRecursive).1;
        let ghost e4 = *visitor;
        self.4.__autarkie_cmps(visitor, 0, __autarkie_val);
        let ghost i4 = *visitor;
        visitor.pop_field();
        proof {
            assert(field_entered(p4, ((4, NodeType::NonRecursive), id4), E::spec_name(), e4));
            assert(field_left(i4, *visitor));
            assert(walked_in_field(self.4, 4, E::spec_name(), 0, Some(__autarkie_val), p4, *visitor));
            if Self::walks_known() {
                assert(visitor.operands() =~= old(visitor).operands() + (((((self.0.comparison_operands(__autarkie_val)) + self.1.comparison_operands(__autarkie_val)) + self.2.comparison_operands(__autarkie_val)) + self.3.comparison_operands(__autarkie_val)) + self.4.comparison_operands(__autarkie_val)));
            }
        }
        let ghost p5 = *visitor;
        let id5 = F::enter_as_field(visitor, 5, NodeType::NonRecursive).1;
        let ghost e5 = *visitor;
        self.5.__autarkie_cmps(visitor, 0, __autarkie_val);
        let ghost i5 = *visitor;
        visitor.pop_field();
        proof {
            assert(field_entered(p5, ((5, NodeType::NonRecursive), id5), F::spec_name(), e5));
            assert(field_left(i5, *visitor));
            assert(walked_in_field(self.5, 5, F::spec_name(), 0, Some(__autarkie_val), p5, *visitor));
            if Self::walks_known() {
                assert(visitor.operands() =~= old(visitor).operands() + ((((((self.0.comparison_operands(__autarkie_val)) + self.1.comparison_operands(__autarkie_val)) + self.2.comparison_operands(__autarkie_val)) + self.3.comparison_operands(__autarkie_val)) + self.4.comparison_operands(__autarkie_val)) + self.5.comparison_operands(__autarkie_val)));
            }
        }
        let ghost p6 = *visitor;
        let id6 = G::enter_as_field(visitor, 6, NodeType::NonRecursive).1;
        let ghost e6 = *visitor;
        self.6.__autarkie_cmps(visitor, 0, __autarkie_val);
        let ghost i6 = *visitor;
        visitor.pop_field();
        proof {
            assert(field_entered(p6, ((6, NodeType::NonRecursive), id6), G::spec_name(), e6));
            assert(field_left(i6, *visitor));
            assert(walked_in_field(self.6, 6, G::spec_name(), 0, Some(__autarkie_val), p6, *visitor));
            if Self::walks_known() {
                assert(visitor.operands() =~= old(visitor).operands() + (((((((self.0.comparison_operands(__autarkie_val)) + self.1.comparison_operands(__autarkie_val)) + self.2.comparison_operands(__autarkie_val)) + self.3.comparison_operands(__autarkie_val)) + self.4.comparison_operands(__autarkie_val)) + self.5.comparison_operands(__autarkie_val)) + self.6.comparison_operands(__autarkie_val)));
            }
        }
        let ghost p7 = *visitor;
        let id7 = H::enter_as_field(visitor, 7, NodeType::NonRecursive).1;
        let ghost e7 = *visitor;
        self.7.__autarkie_cmps(visitor, 0, __autarkie_val);
        let ghost i7 = *visitor;
        visitor.pop_field();
        proof {
            assert(field_entered(p7, ((7, NodeType::NonRecursive), id7), H::spec_name(), e7));
            assert(field_left(i7, *visitor));
            assert(walked_in_field(self.7, 7, H::spec_name(), 0, Some(__autarkie_val), p7, *visitor));
            if Self::walks_known() {
                assert(visitor.operands() =~= old(visitor).operands() + ((((((((self.0.comparison_operands(__autarkie_val)) + self.1.comparison_operands(__autarkie_val)) + self.2.comparison_operands(__autarkie_val)) + self.3.comparison_operands(__autarkie_val)) + self.4.comparison_operands(__autarkie_val)) + self.5.comparison_operands(__autarkie_val)) + self.6.comparison_operands(__autarkie_val)) + self.7.comparison_operands(__autarkie_val)));
            }
        }
        let ghost p8 = *visitor;
        let id8 = I::enter_as_field(visitor, 8, NodeType::NonRecursive).1;
        let ghost e8 = *visitor;
        self.8.__autarkie_cmps(visitor, 0, __autarkie_val);
        let ghost i8 = *visitor;
        visitor.pop_field();
        proof {
            assert(field_entered(p8, ((8, NodeType::NonRecursive), id8), I::spec_name(), e8));
            assert(field_left(i8, *visitor));
            assert(walked_in_field(self.8, 8, I::spec_name(), 0, Some(__autarkie_val), p8, *visitor));
            if Self::walks_known() {
                assert(visitor.operands() =~= old(visitor).operands() + (((((((((self.0.comparison_operands(__autarkie_val)) + self.1.comparison_operands(__autarkie_val)) + self.2.comparison_operands(__autarkie_val)) + self.3.comparison_operands(__autarkie_val)) + self.4.comparison_operands(__autarkie_val)) + self.5.comparison_operands(__autarkie_val)) + self.6.comparison_operands(__autarkie_val)) + self.7.comparison_operands(__autarkie_val)) + self.8.comparison_operands(__autarkie_val)));
            }
        }
    }

    fn __autarkie_serialize(&self) -> (r: Vec<u8>) {
        let mut out = self.8.__autarkie_serialize();
        let mut front = self.7.__autarkie_serialize();
        front.append(&mut out);
        out = front;
        let mut front = self.6.__autarkie_serialize();
        front.append(&mut out);
        out = front;
        let mut front = self.5.__autarkie_serialize();
        front.append(&mut out);
        out = front;
        let mut front = self.4.__autarkie_serialize();
        front.append(&mut out);
        out = front;
        let mut front = self.3.__autarkie_serialize();
        front.append(&mut out);
        out = front;
        let mut front = self.2.__autarkie_serialize();
        front.append(&mut out);
        out = front;
        let mut front = self.1.__autarkie_serialize();
        front.append(&mut out);
        out = front;
        let mut front = self.0.__autarkie_serialize();
        front.append(&mut out);
        out = front;
        out
    }

    /// Reads the elements in turn.
    #[verifier::spinoff_prover]
    #[verifier::rlimit(50)]
    fn __autarkie_deserialize(data: &[u8], pos: usize) -> (r: Option<(Self, usize)>) {
        proof {
            assert(data@.skip(pos as int) =~= data@.skip(pos as int));
        }
        proof {
            if Self::is_lawful() {
            assert forall|x: Self| #[trigger] x.spec_serialize().is_prefix_of(data@.skip(pos as int)) implies {
                &&& x.0.spec_serialize().is_prefix_of(data@.skip(pos as int))
                &&& (x.1.spec_serialize() + (x.2.spec_serialize() + (x.3.spec_serialize() + (x.4.spec_serialize() + (x.5.spec_serialize() + (x.6.spec_serialize() + (x.7.spec_serialize() + (x.8.spec_serialize())))))))).is_prefix_of(data@.skip(pos + x.0.spec_serialize().len()))
            } by {
                lemma_tag_then(x.0.spec_serialize(), x.1.spec_serialize() + (x.2.spec_serialize() + (x.3.spec_serialize() + (x.4.spec_serialize() + (x.5.spec_serialize() + (x.6.spec_serialize() + (x.7.spec_serialize() + (x.8.spec_serialize()))))))), data@.skip(pos as int));
                assert(data@.skip(pos as int).skip(x.0.spec_serialize().len() as int) =~= data@.skip(pos + x.0.spec_serialize().len()));
            }
            }
        }
        let (v0, e0) = match A::__autarkie_deserialize(data, pos) {
            Some(r) => r,
            None => {
                proof {
                    if Self::is_lawful() {
                    assert forall|x: Self| !#[trigger] x.spec_serialize().is_prefix_of(data@.skip(pos as int)) by {
                        if x.spec_serialize().is_prefix_of(data@.skip(pos as int)) {
                            assert(x.0.spec_serialize().is_prefix_of(data@.skip(pos as int)));
                        }
                    }
                    }
                }
                return None;
            },
        };
        proof {
            if Self::is_lawful() {
            assert forall|x: Self| #[trigger] x.spec_serialize().is_prefix_of(data@.skip(pos as int)) implies
                (x.1.spec_serialize() + (x.2.spec_serialize() + (x.3.spec_serialize() + (x.4.spec_serialize() + (x.5.spec_serialize() + (x.6.spec_serialize() + (x.7.spec_serialize() + (x.8.spec_serialize())))))))).is_prefix_of(data@.skip(e0 as int)) by {
                assert(x.0.spec_serialize().is_prefix_of(data@.skip(pos as int)));
            }
            }
        }
        proof {
            if Self::is_lawful() {
            assert forall|x: Self| #[trigger] x.spec_serialize().is_prefix_of(data@.skip(pos as int)) implies {
                &&& x.1.spec_serialize().is_prefix_of(data@.skip(e0 as int))
                &&& (x.2.spec_serialize() + (x.3.spec_serialize() + (x.4.spec_serialize() + (x.5.spec_serialize() + (x.6.spec_serialize() + (x.7.spec_serialize() + (x.8.spec_serialize()))))))).is_prefix_of(data@.skip(e0 + x.1.spec_serialize().len()))
            } by {
                lemma_tag_then(x.1.spec_serialize(), x.2.spec_serialize() + (x.3.spec_serialize() + (x.4.spec_serialize() + (x.5.spec_serialize() + (x.6.spec_serialize() + (x.7.spec_serialize() + (x.8.spec_serialize())))))), data@.skip(e0 as int));
                assert(data@.skip(e0 as int).skip(x.1.spec_serialize().len() as int) =~= data@.skip(e0 + x.1.spec_serialize().len()));
            }
            }
        }
        let (v1, e1) = match B::__autarkie_deserialize(data, e0) {
            Some(r) => r,
            None => {
                proof {
                    if Self::is_lawful() {
                    assert forall|x: Self| !#[trigger] x.spec_serialize().is_prefix_of(data@.skip(pos as int)) by {
                        if x.spec_serialize().is_prefix_of(data@.skip(pos as int)) {
                            assert(x.1.spec_serialize().is_prefix_of(data@.skip(e0 as int)));
                        }
                    }
                    }
                }
                return None;
            },
        };
        proof {
            if Self::is_lawful() {
            assert forall|x: Self| #[trigger] x.spec_serialize().is_prefix_of(data@.skip(pos as int)) implies
                (x.2.spec_serialize() + (x.3.spec_serialize() + (x.4.spec_serialize() + (x.5.spec_serialize() + (x.6.spec_serialize() + (x.7.spec_serialize() + (x.8.spec_serialize()))))))).is_prefix_of(data@.skip(e1 as int)) by {
                assert(x.1.spec_serialize().is_prefix_of(data@.skip(e0 as int)));
            }
            }
        }
        proof {
            if Self::is_lawful() {
            assert forall|x: Self| #[trigger] x.spec_serialize().is_prefix_of(data@.skip(pos as int)) implies {
                &&& x.2.spec_serialize().is_prefix_of(data@.skip(e1 as int))
                &&& (x.3.spec_serialize() + (x.4.spec_serialize() + (x.5.spec_serialize() + (x.6.spec_serialize() + (x.7.spec_serialize() + (x.8.spec_serialize())))))).is_prefix_of(data@.skip(e1 + x.2.spec_serialize().len()))
            } by {
                lemma_tag_then(x.2.spec_serialize(), x.3.spec_serialize() + (x.4.spec_serialize() + (x.5.spec_serialize() + (x.6.spec_serialize() + (x.7.spec_serialize() + (x.8.spec_serialize()))))), data@.skip(e1 as int));
                assert(data@.skip(e1 as int).skip(x.2.spec_serialize().len() as int) =~= data@.skip(e1 + x.2.spec_serialize().len()));
            }
            }
        }
        let (v2, e2) = match C::__autarkie_deserialize(data, e1) {
            Some(r) => r,
            None => {
                proof {
                    if Self::is_lawful() {
                    assert forall|x: Self| !#[trigger] x.spec_serialize().is_prefix_of(data@.skip(pos as int)) by {
                        if x.spec_serialize().is_prefix_of(data@.skip(pos as int)) {
                            assert(x.2.spec_serialize().is_prefix_of(data@.skip(e1 as int)));
                        }
                    }
                    }
                }
                return None;
            },
        };
        proof {
            if Self::is_lawful() {
            assert forall|x: Self| #[trigger] x.spec_serialize().is_prefix_of(data@.skip(pos as int)) implies
                (x.3.spec_serialize() + (x.4.spec_serialize() + (x.5.spec_serialize() + (x.6.spec_serialize() + (x.7.spec_serialize() + (x.8.spec_serialize())))))).is_prefix_of(data@.skip(e2 as int)) by {
                assert(x.2.spec_serialize().is_prefix_of(data@.skip(e1 as int)));
            }
            }
        }
        proof {
            if Self::is_lawful() {
            assert forall|x: Self| #[trigger] x.spec_serialize().is_prefix_of(data@.skip(pos as int)) implies {
                &&& x.3.spec_serialize().is_prefix_of(data@.skip(e2 as int))
                &&& (x.4.spec_serialize() + (x.5.spec_serialize() + (x.6.spec_serialize() + (x.7.spec_serialize() + (x.8.spec_serialize()))))).is_prefix_of(data@.skip(e2 + x.3.spec_serialize().len()))
            } by {
                lemma_tag_then(x.3.spec_serialize(), x.4.spec_serialize() + (x.5.spec_serialize() + (x.6.spec_serialize() + (x.7.spec_serialize() + (x.8.spec_serialize())))), data@.skip(e2 as int));
                assert(data@.skip(e2 as int).skip(x.3.spec_serialize().len() as int) =~= data@.skip(e2 + x.3.spec_serialize().len()));
            }
            }
        }
        let (v3, e3) = match D::__autarkie_deserialize(data, e2) {
            Some(r) => r,
            None => {
                proof {
                    if Self::is_lawful() {
                    assert forall|x: Self| !#[trigger] x.spec_serialize().is_prefix_of(data@.skip(pos as int)) by {
                        if x.spec_serialize().is_prefix_of(data@.skip(pos as int)) {
                            assert(x.3.spec_serialize().is_prefix_of(data@.skip(e2 as int)));
                        }
                    }
                    }
                }
                return None;
            },
        };
        proof {
            if Self::is_lawful() {
            assert forall|x: Self| #[trigger] x.spec_serialize().is_prefix_of(data@.skip(pos as int)) implies
                (x.4.spec_serialize() + (x.5.spec_serialize() + (x.6.spec_serialize() + (x.7.spec_serialize() + (x.8.spec_serialize()))))).is_prefix_of(data@.skip(e3 as int)) by {
                assert(x.3.spec_serialize().is_prefix_of(data@.skip(e2 as int)));
            }
            }
        }
        proof {
            if Self::is_lawful() {
            assert forall|x: Self| #[trigger] x.spec_serialize().is_prefix_of(data@.skip(pos as int)) implies {
                &&& x.4.spec_serialize().is_prefix_of(data@.skip(e3 as int))
                &&& (x.5.spec_serialize() + (x.6.spec_serialize() + (x.7.spec_serialize() + (x.8.spec_serialize())))).is_prefix_of(data@.skip(e3 + x.4.spec_serialize().len()))
            } by {
                lemma_tag_then(x.4.spec_serialize(), x.5.spec_serialize() + (x.6.spec_serialize() + (x.7.spec_serialize() + (x.8.spec_serialize()))), data@.skip(e3 as int));
                assert(data@.skip(e3 as int).skip(x.4.spec_serialize().len() as int) =~= data@.skip(e3 + x.4.spec_serialize().len()));
            }
            }
        }
        let (v4, e4) = match E::__autarkie_deserialize(data, e3) {
            Some(r) => r,
            None => {
                proof {
                    if Self::is_lawful() {
                    assert forall|x: Self| !#[trigger] x.spec_serialize().is_prefix_of(data@.skip(pos as int)) by {
                        if x.spec_serialize().is_prefix_of(data@.skip(pos as int)) {
                            assert(x.4.spec_serialize().is_prefix_of(data@.skip(e3 as int)));
                        }
                    }
                    }
                }
                return None;
            },
        };
        proof {
            if Self::is_lawful() {
            assert forall|x: Self| #[trigger] x.spec_serialize().is_prefix_of(data@.skip(pos as int)) implies
                (x.5.spec_serialize() + (x.6.spec_serialize() + (x.7.spec_serialize() + (x.8.spec_serialize())))).is_prefix_of(data@.skip(e4 as int)) by {
                assert(x.4.spec_serialize().is_prefix_of(data@.skip(e3 as int)));
            }
            }
        }
        proof {
            if Self::is_lawful() {
            assert forall|x: Self| #[trigger] x.spec_serialize().is_prefix_of(data@.skip(pos as int)) implies {
                &&& x.5.spec_serialize().is_prefix_of(data@.skip(e4 as int))
                &&& (x.6.spec_serialize() + (x.7.spec_serialize() + (x.8.spec_serialize()))).is_prefix_of(data@.skip(e4 + x.5.spec_serialize().len()))
            } by {
                lemma_tag_then(x.5.spec_serialize(), x.6.spec_serialize() + (x.7.spec_serialize() + (x.8.spec_serialize())), data@.skip(e4 as int));
                assert(data@.skip(e4 as int).skip(x.5.spec_serialize().len() as int) =~= data@.skip(e4 + x.5.spec_serialize().len()));
            }
            }
        }
        let (v5, e5) = match F::__autarkie_deserialize(data, e4) {
            Some(r) => r,
            None => {
                proof {
                    if Self::is_lawful() {
                    assert forall|x: Self| !#[trigger] x.spec_serialize().is_prefix_of(data@.skip(pos as int)) by {
                        if x.spec_serialize().is_prefix_of(data@.skip(pos as int)) {
                            assert(x.5.spec_serialize().is_prefix_of(data@.skip(e4 as int)));
                        }
                    }
                    }
                }
                return None;
            },
        };
        proof {
            if Self::is_lawful() {
            assert forall|x: Self| #[trigger] x.spec_serialize().is_prefix_of(data@.skip(pos as int)) implies
                (x.6.spec_serialize() + (x.7.spec_serialize() + (x.8.spec_serialize()))).is_prefix_of(data@.skip(e5 as int)) by {
                assert(x.5.spec_serialize().is_prefix_of(data@.skip(e4 as int)));
            }
            }
        }
        proof {
            if Self::is_lawful() {
            assert forall|x: Self| #[trigger] x.spec_serialize().is_prefix_of(data@.skip(pos as int)) implies {
                &&& x.6.spec_serialize().is_prefix_of(data@.skip(e5 as int))
                &&& (x.7.spec_serialize() + (x.8.spec_serialize())).is_prefix_of(data@.skip(e5 + x.6.spec_serialize().len()))
            } by {
                lemma_tag_then(x.6.spec_serialize(), x.7.spec_serialize() + (x.8.spec_serialize()), data@.skip(e5 as int));
                assert(data@.skip(e5 as int).skip(x.6.spec_serialize().len() as int) =~= data@.skip(e5 + x.6.spec_serialize().len()));
            }
            }
        }
        let (v6, e6) = match G::__autarkie_deserialize(data, e5) {
            Some(r) => r,
            None => {
                proof {
                    if Self::is_lawful() {
                    assert forall|x: Self| !#[trigger] x.spec_serialize().is_prefix_of(data@.skip(pos as int)) by {
                        if x.spec_serialize().is_prefix_of(data@.skip(pos as int)) {
                            assert(x.6.spec_serialize().is_prefix_of(data@.skip(e5 as int)));
                        }
                    }
                    }
                }
                return None;
            },
        };
        proof {
            if Self::is_lawful() {
            assert forall|x: Self| #[trigger] x.spec_serialize().is_prefix_of(data@.skip(pos as int)) implies
                (x.7.spec_serialize() + (x.8.spec_serialize())).is_prefix_of(data@.skip(e6 as int)) by {
                assert(x.6.spec_serialize().is_prefix_of(data@.skip(e5 as int)));
            }
            }
        }
        proof {
            if Self::is_lawful() {
            assert forall|x: Self| #[trigger] x.spec_serialize().is_prefix_of(data@.skip(pos as int)) implies {
                &&& x.7.spec_serialize().is_prefix_of(data@.skip(e6 as int))
                &&& (x.8.spec_serialize()).is_prefix_of(data@.skip(e6 + x.7.spec_serialize().len()))
            } by {
                lemma_tag_then(x.7.spec_serialize(), x.8.spec_serialize(), data@.skip(e6 as int));
                assert(data@.skip(e6 as int).skip(x.7.spec_serialize().len() as int) =~= data@.skip(e6 + x.7.spec_serialize().len()));
            }
            }
        }
        let (v7, e7) = match H::__autarkie_deserialize(data, e6) {
            Some(r) => r,
            None => {
                proof {
                    if Self::is_lawful() {
                    assert forall|x: Self| !#[trigger] x.spec_serialize().is_prefix_of(data@.skip(pos as int)) by {
                        if x.spec_serialize().is_prefix_of(data@.skip(pos as int)) {
                            assert(x.7.spec_serialize().is_prefix_of(data@.skip(e6 as int)));
                        }
                    }
                    }
                }
                return None;
            },
        };
        proof {
            if Self::is_lawful() {
            assert forall|x: Self| #[trigger] x.spec_serialize().is_prefix_of(data@.skip(pos as int)) implies
                (x.8.spec_serialize()).is_prefix_of(data@.skip(e7 as int)) by {
                assert(x.7.spec_serialize().is_prefix_of(data@.skip(e6 as int)));
            }
            }
        }
        let (v8, e8) = match I::__autarkie_deserialize(data, e7) {
            Some(r) => r,
            None => {
                proof {
                    if Self::is_lawful() {
                    assert forall|x: Self| !#[trigger] x.spec_serialize().is_prefix_of(data@.skip(pos as int)) by {
                        if x.spec_serialize().is_prefix_of(data@.skip(pos as int)) {
                            assert(x.8.spec_serialize().is_prefix_of(data@.skip(e7 as int)));
                        }
                    }
                    }
                }
                return None;
            },
        };
        let r = (v0, v1, v2, v3, v4, v5, v6, v7, v8);
        proof {
            if Self::is_lawful() {
            assert forall|x: Self| #[trigger] x.spec_serialize().is_prefix_of(data@.skip(pos as int)) implies
                r.spec_serialize() == x.spec_serialize() && e8 == pos + x.spec_serialize().len() by {
                assert(x.0.spec_serialize().is_prefix_of(data@.skip(pos as int)));
                assert(v0.spec_serialize() == x.0.spec_serialize());
                assert(x.1.spec_serialize().is_prefix_of(data@.skip(e0 as int)));
                assert(v1.spec_serialize() == x.1.spec_serialize());
                assert(x.2.spec_serialize().is_prefix_of(data@.skip(e1 as int)));
                assert(v2.spec_serialize() == x.2.spec_serialize());
                assert(x.3.spec_serialize().is_prefix_of(data@.skip(e2 as int)));
                assert(v3.spec_serialize() == x.3.spec_serialize());
                assert(x.4.spec_serialize().is_prefix_of(data@.skip(e3 as int)));
                assert(v4.spec_serialize() == x.4.spec_serialize());
                assert(x.5.spec_serialize().is_prefix_of(data@.skip(e4 as int)));
                assert(v5.spec_serialize() == x.5.spec_serialize());
                assert(x.6.spec_serialize().is_prefix_of(data@.skip(e5 as int)));
                assert(v6.spec_serialize() == x.6.spec_serialize());
                assert(x.7.spec_serialize().is_prefix_of(data@.skip(e6 as int)));
                assert(v7.spec_serialize() == x.7.spec_serialize());
                assert(x.8.spec_serialize().is_prefix_of(data@.skip(e7 as int)));
                assert(v8.spec_serialize() == x.8.spec_serialize());
            }
            }
        }
        Some((r, e8))
    }

    fn __autarkie_id_name() -> (r: String) {
        let mut r = "(".to_owned();
        let n0 = A::__autarkie_id_name();
        r.append(n0.as_str());
        r.append(", ");
        let n1 = B::__autarkie_id_name();
        r.append(n1.as_str());
        r.append(", ");
        let n2 = C::__autarkie_id_name();
        r.append(n2.as_str());
        r.append(", ");
        let n3 = D::__autarkie_id_name();
        r.append(n3.as_str());
        r.append(", ");
        let n4 = E::__autarkie_id_name();
        r.append(n4.as_str());
        r.append(", ");
        let n5 = F::__autarkie_id_name();
        r.append(n5.as_str());
        r.append(", ");
        let n6 = G::__autarkie_id_name();
        r.append(n6.as_str());
        r.append(", ");
        let n7 = H::__autarkie_id_name();
        r.append(n7.as_str());
        r.append(", ");
        let n8 = I::__autarkie_id_name();
        r.append(n8.as_str());
        r.append(")");
        assert(r@ == Self::spec_name());
        r
    }
}

/// Whether generating the elements of `t` in turn, each with no settings,
/// from the visitor `before`, can give them and leave `after`.
pub open spec fn elements_10_generated<A: Node, B: Node, C: Node, D: Node, E: Node, F: Node, G: Node, H: Node, I: Node, J: Node>(before: Visitor, t: (A, B, C, D, E, F, G, H, I, J), after: Visitor) -> bool {
    exists|g0: Visitor, g1: Visitor, g2: Visitor, g3: Visitor, g4: Visitor, g5: Visitor, g6: Visitor, g7: Visitor, g8: Visitor|
            #![trigger A::generation(before, None, Some(t.0), g0), B::generation(g0, None, Some(t.1), g1), C::generation(g1, None, Some(t.2), g2), D::generation(g2, None, Some(t.3), g3), E::generation(g3, None, Some(t.4), g4), F::generation(g4, None, Some(t.5), g5), G::generation(g5, None, Some(t.6), g6), H::generation(g6, None, Some(t.7), g7), I::generation(g7, None, Some(t.8), g8), J::generation(g8, None, Some(t.9), after)]
            A::generation(before, None, Some(t.0), g0)
                && B::generation(g0, None, Some(t.1), g1)
                && C::generation(g1, None, Some(t.2), g2)
                && D::generation(g2, None, Some(t.3), g3)
                && E::generation(g3, None, Some(t.4), g4)
                && F::generation(g4, None, Some(t.5), g5)
                && G::generation(g5, None, Some(t.6), g6)
                && H::generation(g6, None, Some(t.7), g7)
                && I::generation(g7, None, Some(t.8), g8)
                && J::generation(g8, None, Some(t.9), after)
}

impl<A: Node, B: Node, C: Node, D: Node, E: Node, F: Node, G: Node, H: Node, I: Node, J: Node> Node for (A, B, C, D, E, F, G, H, I, J) {
    open spec fn spec_serialize(&self) -> Seq<u8> {
        self.0.spec_serialize() + (self.1.spec_serialize() + (self.2.spec_serialize() + (self.3.spec_serialize() + (self.4.spec_serialize() + (self.5.spec_serialize() + (self.6.spec_serialize() + (self.7.spec_serialize() + (self.8.spec_serialize() + (self.9.spec_serialize())))))))))
    }

    open spec fn spec_name() -> Seq<char> {
        "("@ + A::spec_name() + ", "@ + B::spec_name() + ", "@ + C::spec_name() + ", "@ + D::spec_name() + ", "@ + E::spec_name() + ", "@ + F::spec_name() + ", "@ + G::spec_name() + ", "@ + H::spec_name() + ", "@ + I::spec_name() + ", "@ + J::spec_name() + ")"@
    }

    open spec fn is_lawful() -> bool {
        A::is_lawful() && B::is_lawful() && C::is_lawful() && D::is_lawful() && E::is_lawful() && F::is_lawful() && G::is_lawful() && H::is_lawful() && I::is_lawful() && J::is_lawful()
    }

    open spec fn read_ok(bytes: Seq<u8>) -> bool {
        Self::is_lawful() && exists|x: Self| #[trigger] x.spec_serialize().is_prefix_of(bytes)
    }

    /// For a lawful type, a value read encodes as the start of the bytes,
    /// as any value whose encoding starts them does.
    open spec fn reading(bytes: Seq<u8>, v: Self) -> bool {
        Self::is_lawful() ==> {
            &&& v.spec_serialize().is_prefix_of(bytes)
            &&& forall|x: Self| #[trigger] x.spec_serialize().is_prefix_of(bytes) ==> v.spec_serialize()
                == x.spec_serialize()
        }
    }

    open spec fn encodes_exactly() -> bool {
        A::encodes_exactly() && B::encodes_exactly() && C::encodes_exactly() && D::encodes_exactly() && E::encodes_exactly() && F::encodes_exactly() && G::encodes_exactly() && H::encodes_exactly() && I::encodes_exactly() && J::encodes_exactly()
    }

    open spec fn walks_known() -> bool {
        A::walks_known() && B::walks_known() && C::walks_known() && D::walks_known() && E::walks_known() && F::walks_known() && G::walks_known() && H::walks_known() && I::walks_known() && J::walks_known()
    }

    open spec fn node_shape(&self, shape: NodeType) -> bool {
        shape == NodeType::NonRecursive
    }

    /// A node with fixed fields.
    fn __autarkie_node_ty(&self, visitor: &Visitor) -> (r: NodeType) {
        NodeType::NonRecursive
    }

    /// Along a path, the element at its first index is mutated along the
    /// rest of it and the others are kept; at its end, the tuple is replaced.
    open spec fn mutation(&self, ty: &MutationType, path: Seq<usize>, before: Visitor, after: Self, after_v: Visitor) -> bool {
        if path.len() > 0 {
            if path[0] == 0 {
                after.1 == self.1 && after.2 == self.2 && after.3 == self.3 && after.4 == self.4 && after.5 == self.5 && after.6 == self.6 && after.7 == self.7 && after.8 == self.8 && after.9 == self.9 && self.0.mutation(ty, path.drop_first(), before, after.0, after_v)
            } else if path[0] == 1 {
                after.0 == self.0 && after.2 == self.2 && after.3 == self.3 && after.4 == self.4 && after.5 == self.5 && after.6 == self.6 && after.7 == self.7 && after.8 == self.8 && after.9 == self.9 && self.1.mutation(ty, path.drop_first(), before, after.1, after_v)
            } else if path[0] == 2 {
                after.0 == self.0 && after.1 == self.1 && after.3 == self.3 && after.4 == self.4 && after.5 == self.5 && after.6 == self.6 && after.7 == self.7 && after.8 == self.8 && after.9 == self.9 && self.2.mutation(ty, path.drop_first(), before, after.2, after_v)
            } else if path[0] == 3 {
                after.0 == self.0 && after.1 == self.1 && after.2 == self.2 && after.4 == self.4 && after.5 == self.5 && after.6 == self.6 && after.7 == self.7 && after.8 == self.8 && after.9 == self.9 && self.3.mutation(ty, path.drop_first(), before, after.3, after_v)
            } else if path[0] == 4 {
                after.0 == self.0 && after.1 == self.1 && after.2 == self.2 && after.3 == self.3 && after.5 == self.5 && after.6 == self.6 && after.7 == self.7 && after.8 == self.8 && after.9 == self.9 && self.4.mutation(ty, path.drop_first(), before, after.4, after_v)
            } else if path[0] == 5 {
                after.0 == self.0 && after.1 == self.1 && after.2 == self.2 && after.3 == self.3 && after.4 == self.4 && after.6 == self.6 && after.7 == self.7 && after.8 == self.8 && after.9 == self.9 && self.5.mutation(ty, path.drop_first(), before, after.5, after_v)
            } else if path[0] == 6 {
                after.0 == self.0 && after.1 == self.1 && after.2 == self.2 && after.3 == self.3 && after.4 == self.4 && after.5 == self.5 && after.7 == self.7 && after.8 == self.8 && after.9 == self.9 && self.6.mutation(ty, path.drop_first(), before, after.6, after_v)
            } else if path[0] == 7 {
                after.0 == self.0 && after.1 == self.1 && after.2 == self.2 && after.3 == self.3 && after.4 == self.4 && after.5 == self.5 && after.6 == self.6 && after.8 == self.8 && after.9 == self.9 && self.7.mutation(ty, path.drop_first(), before, after.7, after_v)
            } else if path[0] == 8 {
                after.0 == self.0 && after.1 == self.1 && after.2 == self.2 && after.3 == self.3 && after.4 == self.4 && after.5 == self.5 && after.6 == self.6 && after.7 == self.7 && after.9 == self.9 && self.8.mutation(ty, path.drop_first(), before, after.8, after_v)
            } else if path[0] == 9 {
                after.0 == self.0 && after.1 == self.1 && after.2 == self.2 && after.3 == self.3 && after.4 == self.4 && after.5 == self.5 && after.6 == self.6 && after.7 == self.7 && after.8 == self.8 && self.9.mutation(ty, path.drop_first(), before, after.9, after_v)
            } else {
                false
            }
        } else {
            match *ty {
                MutationType::Splice(b) => {
                    &&& after_v == before
                    &&& Self::is_lawful() ==> forall|x: Self| #[trigger] x.spec_serialize().is_prefix_of((**b)@)
                        ==> after.spec_serialize() == x.spec_serialize()
                },
                _ => {
                    ||| after == *self && Self::generation(before, None, None, after_v)
                    ||| exists|generated: Visitor| {
                        &&& #[trigger] Self::generation(before, None, Some(after), generated)
                        &&& after_v.keeps_state(&generated)
                        &&& after_v.fields() == generated.fields()
                        &&& after_v.operands() == generated.operands()
                        &&& after_v.serialized().len() > generated.serialized().len()
                        &&& after_v.serialized_types().len() > generated.serialized_types().len()
                        &&& after_v.serialized_types().last() == Self::spec_name()
                        &&& Self::encodes_exactly() ==> after_v.serialized().last().0 == after.spec_serialize()
                        &&& Self::walks_known() && Self::encodes_exactly() ==> after_v.serialized_bytes()
                            == generated.serialized_bytes() + after.serialized_records() + seq![after.spec_serialize()]
                    }
                },
            }
        }
    }

    open spec fn first_name_ok(name: Seq<char>) -> bool {
        false
    }

    open spec fn always_generates() -> bool {
        A::always_generates() && B::always_generates() && C::always_generates() && D::always_generates() && E::always_generates() && F::always_generates() && G::always_generates() && H::always_generates() && I::always_generates() && J::always_generates()
    }

    /// Each element is what generating its type in turn gives; generation
    /// gives up at the first element that could not be generated.
    open spec fn generation(before: Visitor, settings: Option<GenerateSettings>, r: Option<Self>, after: Visitor) -> bool {
        &&& after.draws_only(&before)
        &&& r matches Some(t) ==> elements_10_generated(before, t, after)
    }

    open spec fn field_count(&self) -> nat {
        (1 + self.0.field_count()) + (1 + self.1.field_count()) + (1 + self.2.field_count()) + (1 + self.3.field_count()) + (1 + self.4.field_count()) + (1 + self.5.field_count()) + (1 + self.6.field_count()) + (1 + self.7.field_count()) + (1 + self.8.field_count()) + (1 + self.9.field_count())
    }

    open spec fn comparison_operands(&self, __autarkie_val: (u64, u64)) -> Seq<Seq<u8>> {
        (((((((((self.0.comparison_operands(__autarkie_val)) + self.1.comparison_operands(__autarkie_val)) + self.2.comparison_operands(__autarkie_val)) + self.3.comparison_operands(__autarkie_val)) + self.4.comparison_operands(__autarkie_val)) + self.5.comparison_operands(__autarkie_val)) + self.6.comparison_operands(__autarkie_val)) + self.7.comparison_operands(__autarkie_val)) + self.8.comparison_operands(__autarkie_val)) + self.9.comparison_operands(__autarkie_val)
    }

    open spec fn serialized_records(&self) -> Seq<Seq<u8>> {
        (((((((((seq![self.0.spec_serialize()] + self.0.serialized_records()) + seq![self.1.spec_serialize()] + self.1.serialized_records()) + seq![self.2.spec_serialize()] + self.2.serialized_records()) + seq![self.3.spec_serialize()] + self.3.serialized_records()) + seq![self.4.spec_serialize()] + self.4.serialized_records()) + seq![self.5.spec_serialize()] + self.5.serialized_records()) + seq![self.6.spec_serialize()] + self.6.serialized_records()) + seq![self.7.spec_serialize()] + self.7.serialized_records()) + seq![self.8.spec_serialize()] + self.8.serialized_records()) + seq![self.9.spec_serialize()] + self.9.serialized_records()
    }

    open spec fn serialized_record_types(&self) -> Seq<Seq<char>> {
        (((((((((seq![A::spec_name()] + self.0.serialized_record_types()) + seq![B::spec_name()] + self.1.serialized_record_types()) + seq![C::spec_name()] + self.2.serialized_record_types()) + seq![D::spec_name()] + self.3.serialized_record_types()) + seq![E::spec_name()] + self.4.serialized_record_types()) + seq![F::spec_name()] + self.5.serialized_record_types()) + seq![G::spec_name()] + self.6.serialized_record_types()) + seq![H::spec_name()] + self.7.serialized_record_types()) + seq![I::spec_name()] + self.8.serialized_record_types()) + seq![J::spec_name()] + self.9.serialized_record_types()
    }

    open spec fn generate_ok(settings: GenerateSettings, rng: u64) -> bool {
        true
    }

    open spec fn mutate_ok(&self, ty: &MutationType, path: Seq<usize>) -> bool {
        if path.len() > 0 {
            (path[0] == 0 && self.0.mutate_ok(ty, path.drop_first())) || (path[0] == 1 && self.1.mutate_ok(ty, path.drop_first())) || (path[0] == 2 && self.2.mutate_ok(ty, path.drop_first())) || (path[0] == 3 && self.3.mutate_ok(ty, path.drop_first())) || (path[0] == 4 && self.4.mutate_ok(ty, path.drop_first())) || (path[0] == 5 && self.5.mutate_ok(ty, path.drop_first())) || (path[0] == 6 && self.6.mutate_ok(ty, path.drop_first())) || (path[0] == 7 && self.7.mutate_ok(ty, path.drop_first())) || (path[0] == 8 && self.8.mutate_ok(ty, path.drop_first())) || (path[0] == 9 && self.9.mutate_ok(ty, path.drop_first()))
        } else {
            &&& (*ty is Splice || *ty is GenerateReplace)
            &&& (*ty matches MutationType::Splice(b) ==> (Self::is_lawful() ==> exists|x: Self| #[trigger] x.spec_serialize().is_prefix_of((**b)@)))
        }
    }

    /// Each element generated in turn; generation gives up where one of
    /// them does.
    #[verifier::spinoff_prover]
    fn __autarkie_generate(
        visitor: &mut Visitor,
        depth: &mut usize,
        cur_depth: usize,
        settings: Option<GenerateSettings>,
    ) -> (r: Option<Self>) {
        let ghost p0 = *visitor;
        let f0 = match A::__autarkie_generate(visitor, depth, cur_depth, None) {
            Some(x) => x,
            None => {
                return None;
            },
        };
        let ghost p1 = *visitor;
        let f1 = match B::__autarkie_generate(visitor, depth, cur_depth, None) {
            Some(x) => x,
            None => {
                return None;
            },
        };
        let ghost p2 = *visitor;
        let f2 = match C::__autarkie_generate(visitor, depth, cur_depth, None) {
            Some(x) => x,
            None => {
                return None;
            },
        };
        let ghost p3 = *visitor;
        let f3 = match D::__autarkie_generate(visitor, depth, cur_depth, None) {
            Some(x) => x,
            None => {
                return None;
            },
        };
        let ghost p4 = *visitor;
        let f4 = match E::__autarkie_generate(visitor, depth, cur_depth, None) {
            Some(x) => x,
            None => {
                return None;
            },
        };
        let ghost p5 = *visitor;
        let f5 = match F::__autarkie_generate(visitor, depth, cur_depth, None) {
            Some(x) => x,
            None => {
                return None;
            },
        };
        let ghost p6 = *visitor;
        let f6 = match G::__autarkie_generate(visitor, depth, cur_depth, None) {
            Some(x) => x,
            None => {
                return None;
            },
        };
        let ghost p7 = *visitor;
        let f7 = match H::__autarkie_generate(visitor, depth, cur_depth, None) {
            Some(x) => x,
            None => {
                return None;
            },
        };
        let ghost p8 = *visitor;
        let f8 = match I::__autarkie_generate(visitor, depth, cur_depth, None) {
            Some(x) => x,
            None => {
                return None;
            },
        };
        let ghost p9 = *visitor;
        let f9 = match J::__autarkie_generate(visitor, depth, cur_depth, None) {
            Some(x) => x,
            None => {
                return None;
            },
        };
        let ghost gt = (f0, f1, f2, f3, f4, f5, f6, f7, f8, f9);
        proof {
            assert(A::generation(p0, None, Some(gt.0), p1));
            assert(B::generation(p1, None, Some(gt.1), p2));
            assert(C::generation(p2, None, Some(gt.2), p3));
            assert(D::generation(p3, None, Some(gt.3), p4));
            assert(E::generation(p4, None, Some(gt.4), p5));
            assert(F::generation(p5, None, Some(gt.5), p6));
            assert(G::generation(p6, None, Some(gt.6), p7));
            assert(H::generation(p7, None, Some(gt.7), p8));
            assert(I::generation(p8, None, Some(gt.8), p9));
            assert(J::generation(p9, None, Some(gt.9), *visitor));
            assert(visitor.draws_only(&p0));
            assert(exists|g0: Visitor, g1: Visitor, g2: Visitor, g3: Visitor, g4: Visitor, g5: Visitor, g6: Visitor, g7: Visitor, g8: Visitor| A::generation(p0, None, Some(gt.0), g0) && B::generation(g0, None, Some(gt.1), g1) && C::generation(g1, None, Some(gt.2), g2) && D::generation(g2, None, Some(gt.3), g3) && E::generation(g3, None, Some(gt.4), g4) && F::generation(g4, None, Some(gt.5), g5) && G::generation(g5, None, Some(gt.6), g6) && H::generation(g6, None, Some(gt.7), g7) && I::generation(g7, None, Some(gt.8), g8) && J::generation(g8, None, Some(gt.9), *visitor));
            assert(elements_10_generated(p0, gt, *visitor));
        }
        Some((f0, f1, f2, f3, f4, f5, f6, f7, f8, f9))
    }

    /// Along the path, mutates the element at its first index; at its end,
    /// replaces the tuple by the one the spliced bytes encode, or by a
    /// generated one whose encodings are then recorded.
    #[verifier::spinoff_prover]
    fn __autarkie_mutate(
        &mut self,
        ty: &mut MutationType,
        visitor: &mut Visitor,
        path: VecDeque<usize>,
    ) {
        let mut path = path;
        match path.pop_front() {
            Some(popped) => {
                if popped == 0 {
                    self.0.__autarkie_mutate(ty, visitor, path);
                } else if popped == 1 {
                    self.1.__autarkie_mutate(ty, visitor, path);
                } else if popped == 2 {
                    self.2.__autarkie_mutate(ty, visitor, path);
                } else if popped == 3 {
                    self.3.__autarkie_mutate(ty, visitor, path);
                } else if popped == 4 {
                    self.4.__autarkie_mutate(ty, visitor, path);
                } else if popped == 5 {
                    self.5.__autarkie_mutate(ty, visitor, path);
                } else if popped == 6 {
                    self.6.__autarkie_mutate(ty, visitor, path);
                } else if popped == 7 {
                    self.7.__autarkie_mutate(ty, visitor, path);
                } else if popped == 8 {
                    self.8.__autarkie_mutate(ty, visitor, path);
                } else if popped == 9 {
                    self.9.__autarkie_mutate(ty, visitor, path);
                } else {
                    proof {
                        assert(false);
                    }
                }
            },
            None => {
                match ty {
                    MutationType::Splice(other) => {
                        let bytes: &[u8] = **other;
                        proof {
                            assert(bytes@.skip(0) =~= bytes@);
                        }
                        match Self::__autarkie_deserialize(bytes, 0) {
                            Some((v, end)) => {
                                proof {
                                    if Self::is_lawful() {
                                        assert(v.spec_serialize() =~= bytes@.subrange(0, v.spec_serialize().len() as int));
                                        assert(v.spec_serialize().is_prefix_of(bytes@));
                                    }
                                }
                                *self = v;
                            },
                            None => {},
                        }
                    },
                    MutationType::GenerateReplace(bias) => {
                        match Self::__autarkie_generate(visitor, bias, 0, None) {
                            Some(generated) => {
                                *self = generated;
                                let ghost g = *visitor;
                                self.__autarkie_serialized(visitor);
                                Self::record_encoding(visitor, self.__autarkie_serialize());
                                proof {
                                    assert(Self::generation(*old(visitor), None, Some(*self), g));
                                    if Self::walks_known() && Self::encodes_exactly() {
                                        assert(visitor.serialized_bytes() =~= g.serialized_bytes()
                                            + self.serialized_records() + seq![self.spec_serialize()]);
                                    }
                                }
                            },
                            None => {},
                        }
                    },
                    _ => {
                        proof {
                            assert(false);
                        }
                    },
                }
            },
        }
    }

    /// Enters each element as a field, at its position, and records its fields.
    #[verifier::spinoff_prover]
    fn __autarkie_fields(&self, visitor: &mut Visitor, index: usize) {
        let ghost p0 = *visitor;
        let id0 = A::enter_as_field(visitor, 0, NodeType::NonRecursive).1;
        let ghost e0 = *visitor;
        self.0.__autarkie_fields(visitor, 0);
        let ghost i0 = *visitor;
        visitor.pop_field();
        proof {
            assert(field_entered(p0, ((0, NodeType::NonRecursive), id0), A::spec_name(), e0));
            assert(field_left(i0, *visitor));
            assert(walked_in_field(self.0, 0, A::spec_name(), 0, None, p0, *visitor));
        }
        let ghost p1 = *visitor;
        let id1 = B::enter_as_field(visitor, 1, NodeType::NonRecursive).1;
        let ghost e1 = *visitor;
        self.1.__autarkie_fields(visitor, 0);
        let ghost i1 = *visitor;
        visitor.pop_field();
        proof {
            assert(field_entered(p1, ((1, NodeType::NonRecursive), id1), B::spec_name(), e1));
            assert(field_left(i1, *visitor));
            assert(walked_in_field(self.1, 1, B::spec_name(), 0, None, p1, *visitor));
        }
        let ghost p2 = *visitor;
        let id2 = C::enter_as_field(visitor, 2, NodeType::NonRecursive).1;
        let ghost e2 = *visitor;
        self.2.__autarkie_fields(visitor, 0);
        let ghost i2 = *visitor;
        visitor.pop_field();
        proof {
            assert(field_entered(p2, ((2, NodeType::NonRecursive), id2), C::spec_name(), e2));
            assert(field_left(i2, *visitor));
            assert(walked_in_field(self.2, 2, C::spec_name(), 0, None, p2, *visitor));
        }
        let ghost p3 = *visitor;
        let id3 = D::enter_as_field(visitor, 3, NodeType::NonRecursive).1;
        let ghost e3 = *visitor;
        self.3.__autarkie_fields(visitor, 0);
        let ghost i3 = *visitor;
        visitor.pop_field();
        proof {
            assert(field_entered(p3, ((3, NodeType::NonRecursive), id3), D::spec_name(), e3));
            assert(field_left(i3, *visitor));
            assert(walked_in_field(self.3, 3, D::spec_name(), 0, None, p3, *visitor));
        }
        let ghost p4 = *visitor;
        let id4 = E::enter_as_field(visitor, 4, NodeType::NonRecursive).1;
        let ghost e4 = *visitor;
        self.4.__autarkie_fields(visitor, 0);
        let ghost i4 = *visitor;
        visitor.pop_field();
        proof {
            assert(field_entered(p4, ((4, NodeType::NonRecursive), id4), E::spec_name(), e4));
            assert(field_left(i4, *visitor));
            assert(walked_in_field(self.4, 4, E::spec_name(), 0, None, p4, *visitor));
        }
        let ghost p5 = *visitor;
        let id5 = F::enter_as_field(visitor, 5, NodeType::NonRecursive).1;
        let ghost e5 = *visitor;
        self.5.__autarkie_fields(visitor, 0);
        let ghost i5 = *visitor;
        visitor.pop_field();
        proof {
            assert(field_entered(p5, ((5, NodeType::NonRecursive), id5), F::spec_name(), e5));
            assert(field_left(i5, *visitor));
            assert(walked_in_field(self.5, 5, F::spec_name(), 0, None, p5, *visitor));
        }
        let ghost p6 = *visitor;
        let id6 = G::enter_as_field(visitor, 6, NodeType::NonRecursive).1;
        let ghost e6 = *visitor;
        self.6.__autarkie_fields(visitor, 0);
        let ghost i6 = *visitor;
        visitor.pop_field();
        proof {
            assert(field_entered(p6, ((6, NodeType::NonRecursive), id6), G::spec_name(), e6));
            assert(field_left(i6, *visitor));
            assert(walked_in_field(self.6, 6, G::spec_name(), 0, None, p6, *visitor));
        }
        let ghost p7 = *visitor;
        let id7 = H::enter_as_field(visitor, 7, NodeType::NonRecursive).1;
        let ghost e7 = *visitor;
        self.7.__autarkie_fields(visitor, 0);
        let ghost i7 = *visitor;
        visitor.pop_field();
        proof {
            assert(field_entered(p7, ((7, NodeType::NonRecursive), id7), H::spec_name(), e7));
            assert(field_left(i7, *visitor));
            assert(walked_in_field(self.7, 7, H::spec_name(), 0, None, p7, *visitor));
        }
        let ghost p8 = *visitor;
        let id8 = I::enter_as_field(visitor, 8, NodeType::NonRecursive).1;
        let ghost e8 = *visitor;
        self.8.__autarkie_fields(visitor, 0);
        let ghost i8 = *visitor;
        visitor.pop_field();
        proof {
            assert(field_entered(p8, ((8, NodeType::NonRecursive), id8), I::spec_name(), e8));
            assert(field_left(i8, *visitor));
            assert(walked_in_field(self.8, 8, I::spec_name(), 0, None, p8, *visitor));
        }
        let ghost p9 = *visitor;
        let id9 = J::enter_as_field(visitor, 9, NodeType::NonRecursive).1;
        let ghost e9 = *visitor;
        self.9.__autarkie_fields(visitor, 0);
        let ghost i9 = *visitor;
        visitor.pop_field();
        proof {
            assert(field_entered(p9, ((9, NodeType::NonRecursive), id9), J::spec_name(), e9));
            assert(field_left(i9, *visitor));
            assert(walked_in_field(self.9, 9, J::spec_name(), 0, None, p9, *visitor));
        }
    }

    /// Each element is walked in turn, inside a field at its position, as
    /// field 0 of it.
    open spec fn walk(&self, index: usize, compared: Option<(u64, u64)>, before: Visitor, after: Visitor) -> bool {
        exists|u0: Visitor, u1: Visitor, u2: Visitor, u3: Visitor, u4: Visitor, u5: Visitor, u6: Visitor, u7: Visitor, u8: Visitor|
            #![trigger walked_in_field(self.0, 0, A::spec_name(), 0, compared, before, u0), walked_in_field(self.1, 1, B::spec_name(), 0, compared, u0, u1), walked_in_field(self.2, 2, C::spec_name(), 0, compared, u1, u2), walked_in_field(self.3, 3, D::spec_name(), 0, compared, u2, u3), walked_in_field(self.4, 4, E::spec_name(), 0, compared, u3, u4), walked_in_field(self.5, 5, F::spec_name(), 0, compared, u4, u5), walked_in_field(self.6, 6, G::spec_name(), 0, compared, u5, u6), walked_in_field(self.7, 7, H::spec_name(), 0, compared, u6, u7), walked_in_field(self.8, 8, I::spec_name(), 0, compared, u7, u8), walked_in_field(self.9, 9, J::spec_name(), 0, compared, u8, after)]
            walked_in_field(self.0, 0, A::spec_name(), 0, compared, before, u0)
                && walked_in_field(self.1, 1, B::spec_name(), 0, compared, u0, u1)
                && walked_in_field(self.2, 2, C::spec_name(), 0, compared, u1, u2)
                && walked_in_field(self.3, 3, D::spec_name(), 0, compared, u2, u3)
                && walked_in_field(self.4, 4, E::spec_name(), 0, compared, u3, u4)
                && walked_in_field(self.5, 5, F::spec_name(), 0, compared, u4, u5)
                && walked_in_field(self.6, 6, G::spec_name(), 0, compared, u5, u6)
                && walked_in_field(self.7, 7, H::spec_name(), 0, compared, u6, u7)
                && walked_in_field(self.8, 8, I::spec_name(), 0, compared, u7, u8)
                && walked_in_field(self.9, 9, J::spec_name(), 0, compared, u8, after)
    }

    /// The tuple registered, then under it each element type in turn, at
    /// variant 0 (its own registration, or one edge to it where it is being
    /// registered already).
    open spec fn registration(before: Visitor, parent: Option<Id>, variant: usize, after: Visitor) -> bool {
        exists|me: Id, v1: Visitor, w0: Visitor, w1: Visitor, w2: Visitor, w3: Visitor, w4: Visitor, w5: Visitor, w6: Visitor, w7: Visitor, w8: Visitor, w9: Visitor|
            #![trigger entered(before, parent, variant, Self::spec_name(), me, v1), child_registered::<A>(v1, Some(me), 0, w0), child_registered::<B>(w0, Some(me), 0, w1), child_registered::<C>(w1, Some(me), 0, w2), child_registered::<D>(w2, Some(me), 0, w3), child_registered::<E>(w3, Some(me), 0, w4), child_registered::<F>(w4, Some(me), 0, w5), child_registered::<G>(w5, Some(me), 0, w6), child_registered::<H>(w6, Some(me), 0, w7), child_registered::<I>(w7, Some(me), 0, w8), child_registered::<J>(w8, Some(me), 0, w9), left(w9, after)]
            entered(before, parent, variant, Self::spec_name(), me, v1)
                && child_registered::<A>(v1, Some(me), 0, w0)
                && child_registered::<B>(w0, Some(me), 0, w1)
                && child_registered::<C>(w1, Some(me), 0, w2)
                && child_registered::<D>(w2, Some(me), 0, w3)
                && child_registered::<E>(w3, Some(me), 0, w4)
                && child_registered::<F>(w4, Some(me), 0, w5)
                && child_registered::<G>(w5, Some(me), 0, w6)
                && child_registered::<H>(w6, Some(me), 0, w7)
                && child_registered::<I>(w7, Some(me), 0, w8)
                && child_registered::<J>(w8, Some(me), 0, w9)
                && left(w9, after)
    }

    /// Registers the tuple type, then under it each element type (or only
    /// the edge to it, where it is being registered already).
    #[verifier::spinoff_prover]
    #[verifier::rlimit(50)]
    fn __autarkie_register(v: &mut Visitor, parent: Option<(Id, String)>, variant: usize)
        ensures
            final(v).ty_edges().len() > old(v).ty_edges().len(),
            final(v).ty_edges()[old(v).ty_edges().len() as int].2 == variant,
    {
        let ghost v0 = *v;
        let ghost start = v.ty_edges().len();
        let me = Self::register_self(v, parent, variant);
        let me_id = me.0;
        let me_name = me.1.clone();
        let ghost v1 = *v;
        let ghost first = v.ty_edges()[start as int];
        proof {
            assert(entered(v0, parent_id(parent), variant, Self::spec_name(), me_id, v1));
        }
        register_child::<A>(v, (me_id, me_name.clone()), 0);
        let ghost w0 = *v;
        proof {
            assert(w0.extends(&v1));
        }
        register_child::<B>(v, (me_id, me_name.clone()), 0);
        let ghost w1 = *v;
        proof {
            assert(w1.extends(&v1));
        }
        register_child::<C>(v, (me_id, me_name.clone()), 0);
        let ghost w2 = *v;
        proof {
            assert(w2.extends(&v1));
        }
        register_child::<D>(v, (me_id, me_name.clone()), 0);
        let ghost w3 = *v;
        proof {
            assert(w3.extends(&v1));
        }
        register_child::<E>(v, (me_id, me_name.clone()), 0);
        let ghost w4 = *v;
        proof {
            assert(w4.extends(&v1));
        }
        register_child::<F>(v, (me_id, me_name.clone()), 0);
        let ghost w5 = *v;
        proof {
            assert(w5.extends(&v1));
        }
        register_child::<G>(v, (me_id, me_name.clone()), 0);
        let ghost w6 = *v;
        proof {
            assert(w6.extends(&v1));
        }
        register_child::<H>(v, (me_id, me_name.clone()), 0);
        let ghost w7 = *v;
        proof {
            assert(w7.extends(&v1));
        }
        register_child::<I>(v, (me_id, me_name.clone()), 0);
        let ghost w8 = *v;
        proof {
            assert(w8.extends(&v1));
        }
        register_child::<J>(v, (me_id, me_name.clone()), 0);
        let ghost w9 = *v;
        proof {
            assert(w9.extends(&v1));
        }
        let ghost v3 = *v;
        v.pop_ty();
        proof {
            assert(left(v3, *v));
            assert(v3.extends(&v1));
            assert(v0.ty_edges().is_prefix_of(v1.ty_edges()));
            assert(v0.ty_names().is_prefix_of(v1.ty_names()));
            assert(v1.ty_edges().is_prefix_of(v3.ty_edges()));
            assert(v.ty_edges()[start as int] == first);
        }
    }

    /// Records the encoding of each element, then what it records.
    #[verifier::spinoff_prover]
    #[verifier::rlimit(50)]
    fn __autarkie_serialized(&self, visitor: &mut Visitor) {
        A::record_encoding(visitor, self.0.__autarkie_serialize());
        proof {
            if Self::walks_known() && (Self::is_lawful() || Self::encodes_exactly()) {
                assert(visitor.serialized_bytes() =~= old(visitor).serialized_bytes() + (seq![self.0.spec_serialize()]));
            }
            if Self::walks_known() {
                assert(visitor.serialized_types() =~= old(visitor).serialized_types() + (seq![A::spec_name()]));
            }
        }
        self.0.__autarkie_serialized(visitor);
        proof {
            if Self::walks_known() && (Self::is_lawful() || Self::encodes_exactly()) {
                assert(visitor.serialized_bytes() =~= old(visitor).serialized_bytes() + (seq![self.0.spec_serialize()] + self.0.serialized_records()));
            }
            if Self::walks_known() {
                assert(visitor.serialized_types() =~= old(visitor).serialized_types() + (seq![A::spec_name()] + self.0.serialized_record_types()));
            }
        }
        B::record_encoding(visitor, self.1.__autarkie_serialize());
        proof {
            if Self::walks_known() && (Self::is_lawful() || Self::encodes_exactly()) {
                assert(visitor.serialized_bytes() =~= old(visitor).serialized_bytes() + ((seq![self.0.spec_serialize()] + self.0.serialized_records()) + seq![self.1.spec_serialize()]));
            }
            if Self::walks_known() {
                assert(visitor.serialized_types() =~= old(visitor).serialized_types() + ((seq![A::spec_name()] + self.0.serialized_record_types()) + seq![B::spec_name()]));
            }
        }
        self.1.__autarkie_serialized(visitor);
        proof {
            if Self::walks_known() && (Self::is_lawful() || Self::encodes_exactly()) {
                assert(visitor.serialized_bytes() =~= old(visitor).serialized_bytes() + ((seq![self.0.spec_serialize()] + self.0.serialized_records()) + seq![self.1.spec_serialize()] + self.1.serialized_records()));
            }
            if Self::walks_known() {
                assert(visitor.serialized_types() =~= old(visitor).serialized_types() + ((seq![A::spec_name()] + self.0.serialized_record_types()) + seq![B::spec_name()] + self.1.serialized_record_types()));
            }
        }
        C::record_encoding(visitor, self.2.__autarkie_serialize());
        proof {
            if Self::walks_known() && (Self::is_lawful() || Self::encodes_exactly()) {
                assert(visitor.serialized_bytes() =~= old(visitor).serialized_bytes() + (((seq![self.0.spec_serialize()] + self.0.serialized_records()) + seq![self.1.spec_serialize()] + self.1.serialized_records()) + seq![self.2.spec_serialize()]));
            }
            if Self::walks_known() {
                assert(visitor.serialized_types() =~= old(visitor).serialized_types() + (((seq![A::spec_name()] + self.0.serialized_record_types()) + seq![B::spec_name()] + self.1.serialized_record_types()) + seq![C::spec_name()]));
            }
        }
        self.2.__autarkie_serialized(visitor);
        proof {
            if Self::walks_known() && (Self::is_lawful() || Self::encodes_exactly()) {
                assert(visitor.serialized_bytes() =~= old(visitor).serialized_bytes() + (((seq![self.0.spec_serialize()] + self.0.serialized_records()) + seq![self.1.spec_serialize()] + self.1.serialized_records()) + seq![self.2.spec_serialize()] + self.2.serialized_records()));
            }
            if Self::walks_known() {
                assert(visitor.serialized_types() =~= old(visitor).serialized_types() + (((seq![A::spec_name()] + self.0.serialized_record_types()) + seq![B::spec_name()] + self.1.serialized_record_types()) + seq![C::spec_name()] + self.2.serialized_record_types()));
            }
        }
        D::record_encoding(visitor, self.3.__autarkie_serialize());
        proof {
            if Self::walks_known() && (Self::is_lawful() || Self::encodes_exactly()) {
                assert(visitor.serialized_bytes() =~= old(visitor).serialized_bytes() + ((((seq![self.0.spec_serialize()] + self.0.serialized_records()) + seq![self.1.spec_serialize()] + self.1.serialized_records()) + seq![self.2.spec_serialize()] + self.2.serialized_records()) + seq![self.3.spec_serialize()]));
            }
            if Self::walks_known() {
                assert(visitor.serialized_types() =~= old(visitor).serialized_types() + ((((seq![A::spec_name()] + self.0.serialized_record_types()) + seq![B::spec_name()] + self.1.serialized_record_types()) + seq![C::spec_name()] + self.2.serialized_record_types()) + seq![D::spec_name()]));
            }
        }
        self.3.__autarkie_serialized(visitor);
        proof {
            if Self::walks_known() && (Self::is_lawful() || Self::encodes_exactly()) {
                assert(visitor.serialized_bytes() =~= old(visitor).serialized_bytes() + ((((seq![self.0.spec_serialize()] + self.0.serialized_records()) + seq![self.1.spec_serialize()] + self.1.serialized_records()) + seq![self.2.spec_serialize()] + self.2.serialized_records()) + seq![self.3.spec_serialize()] + self.3.serialized_records()));
            }
            if Self::walks_known() {
                assert(visitor.serialized_types() =~= old(visitor).serialized_types() + ((((seq![A::spec_name()] + self.0.serialized_record_types()) + seq![B::spec_name()] + self.1.serialized_record_types()) + seq![C::spec_name()] + self.2.serialized_record_types()) + seq![D::spec_name()] + self.3.serialized_record_types()));
            }
        }
        E::record_encoding(visitor, self.4.__autarkie_serialize());
        proof {
            if Self::walks_known() && (Self::is_lawful() || Self::encodes_exactly()) {
                assert(visitor.serialized_bytes() =~= old(visitor).serialized_bytes() + (((((seq![self.0.spec_serialize()] + self.0.serialized_records()) + seq![self.1.spec_serialize()] + self.1.serialized_records()) + seq![self.2.spec_serialize()] + self.2.serialized_records()) + seq![self.3.spec_serialize()] + self.3.serialized_records()) + seq![self.4.spec_serialize()]));
            }
            if Self::walks_known() {
                assert(visitor.serialized_types() =~= old(visitor).serialized_types() + (((((seq![A::spec_name()] + self.0.serialized_record_types()) + seq![B::spec_name()] + self.1.serialized_record_types()) + seq![C::spec_name()] + self.2.serialized_record_types()) + seq![D::spec_name()] + self.3.serialized_record_types()) + seq![E::spec_name()]));
            }
        }
        self.4.__autarkie_serialized(visitor);
        proof {
            if Self::walks_known() && (Self::is_lawful() || Self::encodes_exactly()) {
                assert(visitor.serialized_bytes() =~= old(visitor).serialized_bytes() + (((((seq![self.0.spec_serialize()] + self.0.serialized_records()) + seq![self.1.spec_serialize()] + self.1.serialized_records()) + seq![self.2.spec_serialize()] + self.2.serialized_records()) + seq![self.3.spec_serialize()] + self.3.serialized_records()) + seq![self.4.spec_serialize()] + self.4.serialized_records()));
            }
            if Self::walks_known() {
                assert(visitor.serialized_types() =~= old(visitor).serialized_types() + (((((seq![A::spec_name()] + self.0.serialized_record_types()) + seq![B::spec_name()] + self.1.serialized_record_types()) + seq![C::spec_name()] + self.2.serialized_record_types()) + seq![D::spec_name()] + self.3.serialized_record_types()) + seq![E::spec_name()] + self.4.serialized_record_types()));
            }
        }
        F::record_encoding(visitor, self.5.__autarkie_serialize());
        proof {
            if Self::walks_known() && (Self::is_lawful() || Self::encodes_exactly()) {
                assert(visitor.serialized_bytes() =~= old(visitor).serialized_bytes() + ((((((seq![self.0.spec_serialize()] + self.0.serialized_records()) + seq![self.1.spec_serialize()] + self.1.serialized_records()) + seq![self.2.spec_serialize()] + self.2.serialized_records()) + seq![self.3.spec_serialize()] + self.3.serialized_records()) + seq![self.4.spec_serialize()] + self.4.serialized_records()) + seq![self.5.spec_serialize()]));
            }
            if Self::walks_known() {
                assert(visitor.serialized_types() =~= old(visitor).serialized_types() + ((((((seq![A::spec_name()] + self.0.serialized_record_types()) + seq![B::spec_name()] + self.1.serialized_record_types()) + seq![C::spec_name()] + self.2.serialized_record_types()) + seq![D::spec_name()] + self.3.serialized_record_types()) + seq![E::spec_name()] + self.4.serialized_record_types()) + seq![F::spec_name()]));
            }
        }
        self.5.__autarkie_serialized(visitor);
        proof {
            if Self::walks_known() && (Self::is_lawful() || Self::encodes_exactly()) {
                assert(visitor.serialized_bytes() =~= old(visitor).serialized_bytes() + ((((((seq![self.0.spec_serialize()] + self.0.serialized_records()) + seq![self.1.spec_serialize()] + self.1.serialized_records()) + seq![self.2.spec_serialize()] + self.2.serialized_records()) + seq![self.3.spec_serialize()] + self.3.serialized_records()) + seq![self.4.spec_serialize()] + self.4.serialized_records()) + seq![self.5.spec_serialize()] + self.5.serialized_records()));
            }
            if Self::walks_known() {
                assert(visitor.serialized_types() =~= old(visitor).serialized_types() + ((((((seq![A::spec_name()] + self.0.serialized_record_types()) + seq![B::spec_name()] + self.1.serialized_record_types()) + seq![C::spec_name()] + self.2.serialized_record_types()) + seq![D::spec_name()] + self.3.serialized_record_types()) + seq![E::spec_name()] + self.4.serialized_record_types()) + seq![F::spec_name()] + self.5.serialized_record_types()));
            }
        }
        G::record_encoding(visitor, self.6.__autarkie_serialize());
        proof {
            if Self::walks_known() && (Self::is_lawful() || Self::encodes_exactly()) {
                assert(visitor.serialized_bytes() =~= old(visitor).serialized_bytes() + (((((((seq![self.0.spec_serialize()] + self.0.serialized_records()) + seq![self.1.spec_serialize()] + self.1.serialized_records()) + seq![self.2.spec_serialize()] + self.2.serialized_records()) + seq![self.3.spec_serialize()] + self.3.serialized_records()) + seq![self.4.spec_serialize()] + self.4.serialized_records()) + seq![self.5.spec_serialize()] + self.5.serialized_records()) + seq![self.6.spec_serialize()]));
            }
            if Self::walks_known() {
                assert(visitor.serialized_types() =~= old(visitor).serialized_types() + (((((((seq![A::spec_name()] + self.0.serialized_record_types()) + seq![B::spec_name()] + self.1.serialized_record_types()) + seq![C::spec_name()] + self.2.serialized_record_types()) + seq![D::spec_name()] + self.3.serialized_record_types()) + seq![E::spec_name()] + self.4.serialized_record_types()) + seq![F::spec_name()] + self.5.serialized_record_types()) + seq![G::spec_name()]));
            }
        }
        self.6.__autarkie_serialized(visitor);
        proof {
            if Self::walks_known() && (Self::is_lawful() || Self::encodes_exactly()) {
                assert(visitor.serialized_bytes() =~= old(visitor).serialized_bytes() + (((((((seq![self.0.spec_serialize()] + self.0.serialized_records()) + seq![self.1.spec_serialize()] + self.1.serialized_records()) + seq![self.2.spec_serialize()] + self.2.serialized_records()) + seq![self.3.spec_serialize()] + self.3.serialized_records()) + seq![self.4.spec_serialize()] + self.4.serialized_records()) + seq![self.5.spec_serialize()] + self.5.serialized_records()) + seq![self.6.spec_serialize()] + self.6.serialized_records()));
            }
            if Self::walks_known() {
                assert(visitor.serialized_types() =~= old(visitor).serialized_types() + (((((((seq![A::spec_name()] + self.0.serialized_record_types()) + seq![B::spec_name()] + self.1.serialized_record_types()) + seq![C::spec_name()] + self.2.serialized_record_types()) + seq![D::spec_name()] + self.3.serialized_record_types()) + seq![E::spec_name()] + self.4.serialized_record_types()) + seq![F::spec_name()] + self.5.serialized_record_types()) + seq![G::spec_name()] + self.6.serialized_record_types()));
            }
        }
        H::record_encoding(visitor, self.7.__autarkie_serialize());
        proof {
            if Self::walks_known() && (Self::is_lawful() || Self::encodes_exactly()) {
                assert(visitor.serialized_bytes() =~= old(visitor).serialized_bytes() + ((((((((seq![self.0.spec_serialize()] + self.0.serialized_records()) + seq![self.1.spec_serialize()] + self.1.serialized_records()) + seq![self.2.spec_serialize()] + self.2.serialized_records()) + seq![self.3.spec_serialize()] + self.3.serialized_records()) + seq![self.4.spec_serialize()] + self.4.serialized_records()) + seq![self.5.spec_serialize()] + self.5.serialized_records()) + seq![self.6.spec_serialize()] + self.6.serialized_records()) + seq![self.7.spec_serialize()]));
            }
            if Self::walks_known() {
                assert(visitor.serialized_types() =~= old(visitor).serialized_types() + ((((((((seq![A::spec_name()] + self.0.serialized_record_types()) + seq![B::spec_name()] + self.1.serialized_record_types()) + seq![C::spec_name()] + self.2.serialized_record_types()) + seq![D::spec_name()] + self.3.serialized_record_types()) + seq![E::spec_name()] + self.4.serialized_record_types()) + seq![F::spec_name()] + self.5.serialized_record_types()) + seq![G::spec_name()] + self.6.serialized_record_types()) + seq![H::spec_name()]));
            }
        }
        self.7.__autarkie_serialized(visitor);
        proof {
            if Self::walks_known() && (Self::is_lawful() || Self::encodes_exactly()) {
                assert(visitor.serialized_bytes() =~= old(visitor).serialized_bytes() + ((((((((seq![self.0.spec_serialize()] + self.0.serialized_records()) + seq![self.1.spec_serialize()] + self.1.serialized_records()) + seq![self.2.spec_serialize()] + self.2.serialized_records()) + seq![self.3.spec_serialize()] + self.3.serialized_records()) + seq![self.4.spec_serialize()] + self.4.serialized_records()) + seq![self.5.spec_serialize()] + self.5.serialized_records()) + seq![self.6.spec_serialize()] + self.6.serialized_records()) + seq![self.7.spec_serialize()] + self.7.serialized_records()));
            }
            if Self::walks_known() {
                assert(visitor.serialized_types() =~= old(visitor).serialized_types() + ((((((((seq![A::spec_name()] + self.0.serialized_record_types()) + seq![B::spec_name()] + self.1.serialized_record_types()) + seq![C::spec_name()] + self.2.serialized_record_types()) + seq![D::spec_name()] + self.3.serialized_record_types()) + seq![E::spec_name()] + self.4.serialized_record_types()) + seq![F::spec_name()] + self.5.serialized_record_types()) + seq![G::spec_name()] + self.6.serialized_record_types()) + seq![H::spec_name()] + self.7.serialized_record_types()));
            }
        }
        I::record_encoding(visitor, self.8.__autarkie_serialize());
        proof {
            if Self::walks_known() && (Self::is_lawful() || Self::encodes_exactly()) {
                assert(visitor.serialized_bytes() =~= old(visitor).serialized_bytes() + (((((((((seq![self.0.spec_serialize()] + self.0.serialized_records()) + seq![self.1.spec_serialize()] + self.1.serialized_records()) + seq![self.2.spec_serialize()] + self.2.serialized_records()) + seq![self.3.spec_serialize()] + self.3.serialized_records()) + seq![self.4.spec_serialize()] + self.4.serialized_records()) + seq![self.5.spec_serialize()] + self.5.serialized_records()) + seq![self.6.spec_serialize()] + self.6.serialized_records()) + seq![self.7.spec_serialize()] + self.7.serialized_records()) + seq![self.8.spec_serialize()]));
            }
            if Self::walks_known() {
                assert(visitor.serialized_types() =~= old(visitor).serialized_types() + (((((((((seq![A::spec_name()] + self.0.serialized_record_types()) + seq![B::spec_name()] + self.1.serialized_record_types()) + seq![C::spec_name()] + self.2.serialized_record_types()) + seq![D::spec_name()] + self.3.serialized_record_types()) + seq![E::spec_name()] + self.4.serialized_record_types()) + seq![F::spec_name()] + self.5.serialized_record_types()) + seq![G::spec_name()] + self.6.serialized_record_types()) + seq![H::spec_name()] + self.7.serialized_record_types()) + seq![I::spec_name()]));
            }
        }
        self.8.__autarkie_serialized(visitor);
        proof {
            if Self::walks_known() && (Self::is_lawful() || Self::encodes_exactly()) {
                assert(visitor.serialized_bytes() =~= old(visitor).serialized_bytes() + (((((((((seq![self.0.spec_serialize()] + self.0.serialized_records()) + seq![self.1.spec_serialize()] + self.1.serialized_records()) + seq![self.2.spec_serialize()] + self.2.serialized_records()) + seq![self.3.spec_serialize()] + self.3.serialized_records()) + seq![self.4.spec_serialize()] + self.4.serialized_records()) + seq![self.5.spec_serialize()] + self.5.serialized_records()) + seq![self.6.spec_serialize()] + self.6.serialized_records()) + seq![self.7.spec_serialize()] + self.7.serialized_records()) + seq![self.8.spec_serialize()] + self.8.serialized_records()));
            }
            if Self::walks_known() {
                assert(visitor.serialized_types() =~= old(visitor).serialized_types() + (((((((((seq![A::spec_name()] + self.0.serialized_record_types()) + seq![B::spec_name()] + self.1.serialized_record_types()) + seq![C::spec_name()] + self.2.serialized_record_types()) + seq![D::spec_name()] + self.3.serialized_record_types()) + seq![E::spec_name()] + self.4.serialized_record_types()) + seq![F::spec_name()] + self.5.serialized_record_types()) + seq![G::spec_name()] + self.6.serialized_record_types()) + seq![H::spec_name()] + self.7.serialized_record_types()) + seq![I::spec_name()] + self.8.serialized_record_types()));
            }
        }
        J::record_encoding(visitor, self.9.__autarkie_serialize());
        proof {
            if Self::walks_known() && (Self::is_lawful() || Self::encodes_exactly()) {
                assert(visitor.serialized_bytes() =~= old(visitor).serialized_bytes() + ((((((((((seq![self.0.spec_serialize()] + self.0.serialized_records()) + seq![self.1.spec_serialize()] + self.1.serialized_records()) + seq![self.2.spec_serialize()] + self.2.serialized_records()) + seq![self.3.spec_serialize()] + self.3.serialized_records()) + seq![self.4.spec_serialize()] + self.4.serialized_records()) + seq![self.5.spec_serialize()] + self.5.serialized_records()) + seq![self.6.spec_serialize()] + self.6.serialized_records()) + seq![self.7.spec_serialize()] + self.7.serialized_records()) + seq![self.8.spec_serialize()] + self.8.serialized_records()) + seq![self.9.spec_serialize()]));
            }
            if Self::walks_known() {
                assert(visitor.serialized_types() =~= old(visitor).serialized_types() + ((((((((((seq![A::spec_name()] + self.0.serialized_record_types()) + seq![B::spec_name()] + self.1.serialized_record_types()) + seq![C::spec_name()] + self.2.serialized_record_types()) + seq![D::spec_name()] + self.3.serialized_record_types()) + seq![E::spec_name()] + self.4.serialized_record_types()) + seq![F::spec_name()] + self.5.serialized_record_types()) + seq![G::spec_name()] + self.6.serialized_record_types()) + seq![H::spec_name()] + self.7.serialized_record_types()) + seq![I::spec_name()] + self.8.serialized_record_types()) + seq![J::spec_name()]));
            }
        }
        self.9.__autarkie_serialized(visitor);
        proof {
            if Self::walks_known() && (Self::is_lawful() || Self::encodes_exactly()) {
                assert(visitor.serialized_bytes() =~= old(visitor).serialized_bytes() + ((((((((((seq![self.0.spec_serialize()] + self.0.serialized_records()) + seq![self.1.spec_serialize()] + self.1.serialized_records()) + seq![self.2.spec_serialize()] + self.2.serialized_records()) + seq![self.3.spec_serialize()] + self.3.serialized_records()) + seq![self.4.spec_serialize()] + self.4.serialized_records()) + seq![self.5.spec_serialize()] + self.5.serialized_records()) + seq![self.6.spec_serialize()] + self.6.serialized_records()) + seq![self.7.spec_serialize()] + self.7.serialized_records()) + seq![self.8.spec_serialize()] + self.8.serialized_records()) + seq![self.9.spec_serialize()] + self.9.serialized_records()));
            }
            if Self::walks_known() {
                assert(visitor.serialized_types() =~= old(visitor).serialized_types() + ((((((((((seq![A::spec_name()] + self.0.serialized_record_types()) + seq![B::spec_name()] + self.1.serialized_record_types()) + seq![C::spec_name()] + self.2.serialized_record_types()) + seq![D::spec_name()] + self.3.serialized_record_types()) + seq![E::spec_name()] + self.4.serialized_record_types()) + seq![F::spec_name()] + self.5.serialized_record_types()) + seq![G::spec_name()] + self.6.serialized_record_types()) + seq![H::spec_name()] + self.7.serialized_record_types()) + seq![I::spec_name()] + self.8.serialized_record_types()) + seq![J::spec_name()] + self.9.serialized_record_types()));
            }
        }
    }

    /// Enters each element as a field, at its position, and records its
    /// comparison operands.
    #[verifier::spinoff_prover]
    fn __autarkie_cmps(&self, visitor: &mut Visitor, index: usize, __autarkie_val: (u64, u64)) {
        let ghost p0 = *visitor;
        let id0 = A::enter_as_field(visitor, 0, NodeType::NonRecursive).1;
        let ghost e0 = *visitor;
        self.0.__autarkie_cmps(visitor, 0, __autarkie_val);
        let ghost i0 = *visitor;
        visitor.pop_field();
        proof {
            assert(field_entered(p0, ((0, NodeType::NonRecursive), id0), A::spec_name(), e0));
            assert(field_left(i0, *visitor));
            assert(walked_in_field(self.0, 0, A::spec_name(), 0, Some(__autarkie_val), p0, *visitor));
            if Self::walks_known() {
                assert(visitor.operands() =~= old(visitor).operands() + (self.0.comparison_operands(__autarkie_val)));
            }
        }
        let ghost p1 = *visitor;
        let id1 = B::enter_as_field(visitor, 1, NodeType::NonRecursive).1;
        let ghost e1 = *visitor;
        self.1.__autarkie_cmps(visitor, 0, __autarkie_val);
        let ghost i1 = *visitor;
        visitor.pop_field();
        proof {
            assert(field_entered(p1, ((1, NodeType::NonRecursive), id1), B::spec_name(), e1));
            assert(field_left(i1, *visitor));
            assert(walked_in_field(self.1, 1, B::spec_name(), 0, Some(__autarkie_val), p1, *visitor));
            if Self::walks_known() {
                assert(visitor.operands() =~= old(visitor).operands() + ((self.0.comparison_operands(__autarkie_val)) + self.1.comparison_operands(__autarkie_val)));
            }
        }
        let ghost p2 = *visitor;
        let id2 = C::enter_as_field(visitor, 2, NodeType::NonRecursive).1;
        let ghost e2 = *visitor;
        self.2.__autarkie_cmps(visitor, 0, __autarkie_val);
        let ghost i2 = *visitor;
        visitor.pop_field();
        proof {
            assert(field_entered(p2, ((2, NodeType::NonRecursive), id2), C::spec_name(), e2));
            assert(field_left(i2, *visitor));
            assert(walked_in_field(self.2, 2, C::spec_name(), 0, Some(__autarkie_val), p2, *visitor));
            if Self::walks_known() {
                assert(visitor.operands() =~= old(visitor).operands() + (((self.0.comparison_operands(__autarkie_val)) + self.1.comparison_operands(__autarkie_val)) + self.2.comparison_operands(__autarkie_val)));
            }
        }
        let ghost p3 = *visitor;
        let id3 = D::enter_as_field(visitor, 3, NodeType::NonRecursive).1;
        let ghost e3 = *visitor;
        self.3.__autarkie_cmps(visitor, 0, __autarkie_val);
        let ghost i3 = *visitor;
        visitor.pop_field();
        proof {
            assert(field_entered(p3, ((3, NodeType::NonRecursive), id3), D::spec_name(), e3));
            assert(field_left(i3, *visitor));
            assert(walked_in_field(self.3, 3, D::spec_name(), 0, Some(__autarkie_val), p3, *visitor));
            if Self::walks_known() {
                assert(visitor.operands() =~= old(visitor).operands() + ((((self.0.comparison_operands(__autarkie_val)) + self.1.comparison_operands(__autarkie_val)) + self.2.comparison_operands(__autarkie_val)) + self.3.comparison_operands(__autarkie_val)));
            }
        }
        let ghost p4 = *visitor;
        let id4 = E::enter_as_field(visitor, 4, NodeType::NonRecursive).1;
        let ghost e4 = *visitor;
        self.4.__autarkie_cmps(visitor, 0, __autarkie_val);
        let ghost i4 = *visitor;
        visitor.pop_field();
        proof {
            assert(field_entered(p4, ((4, NodeType::NonRecursive), id4), E::spec_name(), e4));
            assert(field_left(i4, *visitor));
            assert(walked_in_field(self.4, 4, E::spec_name(), 0, Some(__autarkie_val), p4, *visitor));
            if Self::walks_known() {
                assert(visitor.operands() =~= old(visitor).operands() + (((((self.0.comparison_operands(__autarkie_val)) + self.1.comparison_operands(__autarkie_val)) + self.2.comparison_operands(__autarkie_val)) + self.3.comparison_operands(__autarkie_val)) + self.4.comparison_operands(__autarkie_val)));
            }
        }
        let ghost p5 = *visitor;
        let id5 = F::enter_as_field(visitor, 5, NodeType::NonRecursive).1;
        let ghost e5 = *visitor;
        self.5.__autarkie_cmps(visitor, 0, __autarkie_val);
        let ghost i5 = *visitor;
        visitor.pop_field();
        proof {
            assert(field_entered(p5, ((5, NodeType::NonRecursive), id5), F::spec_name(), e5));
            assert(field_left(i5, *visitor));
            assert(walked_in_field(self.5, 5, F::spec_name(), 0, Some(__autarkie_val), p5, *visitor));
            if Self::walks_known() {
                assert(visitor.operands() =~= old(visitor).operands() + ((((((self.0.comparison_operands(__autarkie_val)) + self.1.comparison_operands(__autarkie_val)) + self.2.comparison_operands(__autarkie_val)) + self.3.comparison_operands(__autarkie_val)) + self.4.comparison_operands(__autarkie_val)) + self.5.comparison_operands(__autarkie_val)));
            }
        }
        let ghost p6 = *visitor;
        let id6 = G::enter_as_field(visitor, 6, NodeType::NonRecursive).1;
        let ghost e6 = *visitor;
        self.6.__autarkie_cmps(visitor, 0, __autarkie_val);
        let ghost i6 = *visitor;
        visitor.pop_field();
        proof {
            assert(field_entered(p6, ((6, NodeType::NonRecursive), id6), G::spec_name(), e6));
            assert(field_left(i6, *visitor));
            assert(walked_in_field(self.6, 6, G::spec_name(), 0, Some(__autarkie_val), p6, *visitor));
            if Self::walks_known() {
                assert(visitor.operands() =~= old(visitor).operands() + (((((((self.0.comparison_operands(__autarkie_val)) + self.1.comparison_operands(__autarkie_val)) + self.2.comparison_operands(__autarkie_val)) + self.3.comparison_operands(__autarkie_val)) + self.4.comparison_operands(__autarkie_val)) + self.5.comparison_operands(__autarkie_val)) + self.6.comparison_operands(__autarkie_val)));
            }
        }
        let ghost p7 = *visitor;
        let id7 = H::enter_as_field(visitor, 7, NodeType::NonRecursive).1;
        let ghost e7 = *visitor;
        self.7.__autarkie_cmps(visitor, 0, __autarkie_val);
        let ghost i7 = *visitor;
        visitor.pop_field();
        proof {
            assert(field_entered(p7, ((7, NodeType::NonRecursive), id7), H::spec_name(), e7));
            assert(field_left(i7, *visitor));
            assert(walked_in_field(self.7, 7, H::spec_name(), 0, Some(__autarkie_val), p7, *visitor));
            if Self::walks_known() {
                assert(visitor.operands() =~= old(visitor).operands() + ((((((((self.0.comparison_operands(__autarkie_val)) + self.1.comparison_operands(__autarkie_val)) + self.2.comparison_operands(__autarkie_val)) + self.3.comparison_operands(__autarkie_val)) + self.4.comparison_operands(__autarkie_val)) + self.5.comparison_operands(__autarkie_val)) + self.6.comparison_operands(__autarkie_val)) + self.7.comparison_operands(__autarkie_val)));
            }
        }
        let ghost p8 = *visitor;
        let id8 = I::enter_as_field(visitor, 8, NodeType::NonRecursive).1;
        let ghost e8 = *visitor;
        self.8.__autarkie_cmps(visitor, 0, __autarkie_val);
        let ghost i8 = *visitor;
        visitor.pop_field();
        proof {
            assert(field_entered(p8, ((8, NodeType::NonRecursive), id8), I::spec_name(), e8));
            assert(field_left(i8, *visitor));
            assert(walked_in_field(self.8, 8, I::spec_name(), 0, Some(__autarkie_val), p8, *visitor));
            if Self::walks_known() {
                assert(visitor.operands() =~= old(visitor).operands() + (((((((((self.0.comparison_operands(__autarkie_val)) + self.1.comparison_operands(__autarkie_val)) + self.2.comparison_operands(__autarkie_val)) + self.3.comparison_operands(__autarkie_val)) + self.4.comparison_operands(__autarkie_val)) + self.5.comparison_operands(__autarkie_val)) + self.6.comparison_operands(__autarkie_val)) + self.7.comparison_operands(__autarkie_val)) + self.8.comparison_operands(__autarkie_val)));
            }
        }
        let ghost p9 = *visitor;
        let id9 = J::enter_as_field(visitor, 9, NodeType::NonRecursive).1;
        let ghost e9 = *visitor;
        self.9.__autarkie_cmps(visitor, 0, __autarkie_val);
        let ghost i9 = *visitor;
        visitor.pop_field();
        proof {
            assert(field_entered(p9, ((9, NodeType::NonRecursive), id9), J::spec_name(), e9));
            assert(field_left(i9, *visitor));
            assert(walked_in_field(self.9, 9, J::spec_name(), 0, Some(__autarkie_val), p9, *visitor));
            if Self::walks_known() {
                assert(visitor.operands() =~= old(visitor).operands() + ((((((((((self.0.comparison_operands(__autarkie_val)) + self.1.comparison_operands(__autarkie_val)) + self.2.comparison_operands(__autarkie_val)) + self.3.comparison_operands(__autarkie_val)) + self.4.comparison_operands(__autarkie_val)) + self.5.comparison_operands(__autarkie_val)) + self.6.comparison_operands(__autarkie_val)) + self.7.comparison_operands(__autarkie_val)) + self.8.comparison_operands(__autarkie_val)) + self.9.comparison_operands(__autarkie_val)));
            }
        }
    }

    fn __autarkie_serialize(&self) -> (r: Vec<u8>) {
        let mut out = self.9.__autarkie_serialize();
        let mut front = self.8.__autarkie_serialize();
        front.append(&mut out);
        out = front;
        let mut front = self.7.__autarkie_serialize();
        front.append(&mut out);
        out = front;
        let mut front = self.6.__autarkie_serialize();
        front.append(&mut out);
        out = front;
        let mut front = self.5.__autarkie_serialize();
        front.append(&mut out);
        out = front;
        let mut front = self.4.__autarkie_serialize();
        front.append(&mut out);
        out = front;
        let mut front = self.3.__autarkie_serialize();
        front.append(&mut out);
        out = front;
        let mut front = self.2.__autarkie_serialize();
        front.append(&mut out);
        out = front;
        let mut front = self.1.__autarkie_serialize();
        front.append(&mut out);
        out = front;
        let mut front = self.0.__autarkie_serialize();
        front.append(&mut out);
        out = front;
        out
    }

    /// Reads the elements in turn.
    #[verifier::spinoff_prover]
    #[verifier::rlimit(50)]
    fn __autarkie_deserialize(data: &[u8], pos: usize) -> (r: Option<(Self, usize)>) {
        proof {
            assert(data@.skip(pos as int) =~= data@.skip(pos as int));
        }
        proof {
            if Self::is_lawful() {
            assert forall|x: Self| #[trigger] x.spec_serialize().is_prefix_of(data@.skip(pos as int)) implies {
                &&& x.0.spec_serialize().is_prefix_of(data@.skip(pos as int))
                &&& (x.1.spec_serialize() + (x.2.spec_serialize() + (x.3.spec_serialize() + (x.4.spec_serialize() + (x.5.spec_serialize() + (x.6.spec_serialize() + (x.7.spec_serialize() + (x.8.spec_serialize() + (x.9.spec_serialize()))))))))).is_prefix_of(data@.skip(pos + x.0.spec_serialize().len()))
            } by {
                lemma_tag_then(x.0.spec_serialize(), x.1.spec_serialize() + (x.2.spec_serialize() + (x.3.spec_serialize() + (x.4.spec_serialize() + (x.5.spec_serialize() + (x.6.spec_serialize() + (x.7.spec_serialize() + (x.8.spec_serialize() + (x.9.spec_serialize())))))))), data@.skip(pos as int));
                assert(data@.skip(pos as int).skip(x.0.spec_serialize().len() as int) =~= data@.skip(pos + x.0.spec_serialize().len()));
            }
            }
        }
        let (v0, e0) = match A::__autarkie_deserialize(data, pos) {
            Some(r) => r,
            None => {
                proof {
                    if Self::is_lawful() {
                    assert forall|x: Self| !#[trigger] x.spec_serialize().is_prefix_of(data@.skip(pos as int)) by {
                        if x.spec_serialize().is_prefix_of(data@.skip(pos as int)) {
                            assert(x.0.spec_serialize().is_prefix_of(data@.skip(pos as int)));
                        }
                    }
                    }
                }
                return None;
            },
        };
        proof {
            if Self::is_lawful() {
            assert forall|x: Self| #[trigger] x.spec_serialize().is_prefix_of(data@.skip(pos as int)) implies
                (x.1.spec_serialize() + (x.2.spec_serialize() + (x.3.spec_serialize() + (x.4.spec_serialize() + (x.5.spec_serialize() + (x.6.spec_serialize() + (x.7.spec_serialize() + (x.8.spec_serialize() + (x.9.spec_serialize()))))))))).is_prefix_of(data@.skip(e0 as int)) by {
                assert(x.0.spec_serialize().is_prefix_of(data@.skip(pos as int)));
            }
            }
        }
        proof {
            if Self::is_lawful() {
            assert forall|x: Self| #[trigger] x.spec_serialize().is_prefix_of(data@.skip(pos as int)) implies {
                &&& x.1.spec_serialize().is_prefix_of(data@.skip(e0 as int))
                &&& (x.2.spec_serialize() + (x.3.spec_serialize() + (x.4.spec_serialize() + (x.5.spec_serialize() + (x.6.spec_serialize() + (x.7.spec_serialize() + (x.8.spec_serialize() + (x.9.spec_serialize())))))))).is_prefix_of(data@.skip(e0 + x.1.spec_serialize().len()))
            } by {
                lemma_tag_then(x.1.spec_serialize(), x.2.spec_serialize() + (x.3.spec_serialize() + (x.4.spec_serialize() + (x.5.spec_serialize() + (x.6.spec_serialize() + (x.7.spec_serialize() + (x.8.spec_serialize() + (x.9.spec_serialize()))))))), data@.skip(e0 as int));
                assert(data@.skip(e0 as int).skip(x.1.spec_serialize().len() as int) =~= data@.skip(e0 + x.1.spec_serialize().len()));
            }
            }
        }
        let (v1, e1) = match B::__autarkie_deserialize(data, e0) {
            Some(r) => r,
            None => {
                proof {
                    if Self::is_lawful() {
                    assert forall|x: Self| !#[trigger] x.spec_serialize().is_prefix_of(data@.skip(pos as int)) by {
                        if x.spec_serialize().is_prefix_of(data@.skip(pos as int)) {
                            assert(x.1.spec_serialize().is_prefix_of(data@.skip(e0 as int)));
                        }
                    }
                    }
                }
                return None;
            },
        };
        proof {
            if Self::is_lawful() {
            assert forall|x: Self| #[trigger] x.spec_serialize().is_prefix_of(data@.skip(pos as int)) implies
                (x.2.spec_serialize() + (x.3.spec_serialize() + (x.4.spec_serialize() + (x.5.spec_serialize() + (x.6.spec_serialize() + (x.7.spec_serialize() + (x.8.spec_serialize() + (x.9.spec_serialize())))))))).is_prefix_of(data@.skip(e1 as int)) by {
                assert(x.1.spec_serialize().is_prefix_of(data@.skip(e0 as int)));
            }
            }
        }
        proof {
            if Self::is_lawful() {
            assert forall|x: Self| #[trigger] x.spec_serialize().is_prefix_of(data@.skip(pos as int)) implies {
                &&& x.2.spec_serialize().is_prefix_of(data@.skip(e1 as int))
                &&& (x.3.spec_serialize() + (x.4.spec_serialize() + (x.5.spec_serialize() + (x.6.spec_serialize() + (x.7.spec_serialize() + (x.8.spec_serialize() + (x.9.spec_serialize()))))))).is_prefix_of(data@.skip(e1 + x.2.spec_serialize().len()))
            } by {
                lemma_tag_then(x.2.spec_serialize(), x.3.spec_serialize() + (x.4.spec_serialize() + (x.5.spec_serialize() + (x.6.spec_serialize() + (x.7.spec_serialize() + (x.8.spec_serialize() + (x.9.spec_serialize())))))), data@.skip(e1 as int));
                assert(data@.skip(e1 as int).skip(x.2.spec_serialize().len() as int) =~= data@.skip(e1 + x.2.spec_serialize().len()));
            }
            }
        }
        let (v2, e2) = match C::__autarkie_deserialize(data, e1) {
            Some(r) => r,
            None => {
                proof {
                    if Self::is_lawful() {
                    assert forall|x: Self| !#[trigger] x.spec_serialize().is_prefix_of(data@.skip(pos as int)) by {
                        if x.spec_serialize().is_prefix_of(data@.skip(pos as int)) {
                            assert(x.2.spec_serialize().is_prefix_of(data@.skip(e1 as int)));
                        }
                    }
                    }
                }
                return None;
            },
        };
        proof {
            if Self::is_lawful() {
            assert forall|x: Self| #[trigger] x.spec_serialize().is_prefix_of(data@.skip(pos as int)) implies
                (x.3.spec_serialize() + (x.4.spec_serialize() + (x.5.spec_serialize() + (x.6.spec_serialize() + (x.7.spec_serialize() + (x.8.spec_serialize() + (x.9.spec_serialize()))))))).is_prefix_of(data@.skip(e2 as int)) by {
                assert(x.2.spec_serialize().is_prefix_of(data@.skip(e1 as int)));
            }
            }
        }
        proof {
            if Self::is_lawful() {
            assert forall|x: Self| #[trigger] x.spec_serialize().is_prefix_of(data@.skip(pos as int)) implies {
                &&& x.3.spec_serialize().is_prefix_of(data@.skip(e2 as int))
                &&& (x.4.spec_serialize() + (x.5.spec_serialize() + (x.6.spec_serialize() + (x.7.spec_serialize() + (x.8.spec_serialize() + (x.9.spec_serialize())))))).is_prefix_of(data@.skip(e2 + x.3.spec_serialize().len()))
            } by {
                lemma_tag_then(x.3.spec_serialize(), x.4.spec_serialize() + (x.5.spec_serialize() + (x.6.spec_serialize() + (x.7.spec_serialize() + (x.8.spec_serialize() + (x.9.spec_serialize()))))), data@.skip(e2 as int));
                assert(data@.skip(e2 as int).skip(x.3.spec_serialize().len() as int) =~= data@.skip(e2 + x.3.spec_serialize().len()));
            }
            }
        }
        let (v3, e3) = match D::__autarkie_deserialize(data, e2) {
            Some(r) => r,
            None => {
                proof {
                    if Self::is_lawful() {
                    assert forall|x: Self| !#[trigger] x.spec_serialize().is_prefix_of(data@.skip(pos as int)) by {
                        if x.spec_serialize().is_prefix_of(data@.skip(pos as int)) {
                            assert(x.3.spec_serialize().is_prefix_of(data@.skip(e2 as int)));
                        }
                    }
                    }
                }
                return None;
            },
        };
        proof {
            if Self::is_lawful() {
            assert forall|x: Self| #[trigger] x.spec_serialize().is_prefix_of(data@.skip(pos as int)) implies
                (x.4.spec_serialize() + (x.5.spec_serialize() + (x.6.spec_serialize() + (x.7.spec_serialize() + (x.8.spec_serialize() + (x.9.spec_serialize())))))).is_prefix_of(data@.skip(e3 as int)) by {
                assert(x.3.spec_serialize().is_prefix_of(data@.skip(e2 as int)));
            }
            }
        }
        proof {
            if Self::is_lawful() {
            assert forall|x: Self| #[trigger] x.spec_serialize().is_prefix_of(data@.skip(pos as int)) implies {
                &&& x.4.spec_serialize().is_prefix_of(data@.skip(e3 as int))
                &&& (x.5.spec_serialize() + (x.6.spec_serialize() + (x.7.spec_serialize() + (x.8.spec_serialize() + (x.9.spec_serialize()))))).is_prefix_of(data@.skip(e3 + x.4.spec_serialize().len()))
            } by {
                lemma_tag_then(x.4.spec_serialize(), x.5.spec_serialize() + (x.6.spec_serialize() + (x.7.spec_serialize() + (x.8.spec_serialize() + (x.9.spec_serialize())))), data@.skip(e3 as int));
                assert(data@.skip(e3 as int).skip(x.4.spec_serialize().len() as int) =~= data@.skip(e3 + x.4.spec_serialize().len()));
            }
            }
        }
        let (v4, e4) = match E::__autarkie_deserialize(data, e3) {
            Some(r) => r,
            None => {
                proof {
                    if Self::is_lawful() {
                    assert forall|x: Self| !#[trigger] x.spec_serialize().is_prefix_of(data@.skip(pos as int)) by {
                        if x.spec_serialize().is_prefix_of(data@.skip(pos as int)) {
                            assert(x.4.spec_serialize().is_prefix_of(data@.skip(e3 as int)));
                        }
                    }
                    }
                }
                return None;
            },
        };
        proof {
            if Self::is_lawful() {
            assert forall|x: Self| #[trigger] x.spec_serialize().is_prefix_of(data@.skip(pos as int)) implies
                (x.5.spec_serialize() + (x.6.spec_serialize() + (x.7.spec_serialize() + (x.8.spec_serialize() + (x.9.spec_serialize()))))).is_prefix_of(data@.skip(e4 as int)) by {
                assert(x.4.spec_serialize().is_prefix_of(data@.skip(e3 as int)));
            }
            }
        }
        proof {
            if Self::is_lawful() {
            assert forall|x: Self| #[trigger] x.spec_serialize().is_prefix_of(data@.skip(pos as int)) implies {
                &&& x.5.spec_serialize().is_prefix_of(data@.skip(e4 as int))
                &&& (x.6.spec_serialize() + (x.7.spec_serialize() + (x.8.spec_serialize() + (x.9.spec_serialize())))).is_prefix_of(data@.skip(e4 + x.5.spec_serialize().len()))
            } by {
                lemma_tag_then(x.5.spec_serialize(), x.6.spec_serialize() + (x.7.spec_serialize() + (x.8.spec_serialize() + (x.9.spec_serialize()))), data@.skip(e4 as int));
                assert(data@.skip(e4 as int).skip(x.5.spec_serialize().len() as int) =~= data@.skip(e4 + x.5.spec_serialize().len()));
            }
            }
        }
        let (v5, e5) = match F::__autarkie_deserialize(data, e4) {
            Some(r) => r,
            None => {
                proof {
                    if Self::is_lawful() {
                    assert forall|x: Self| !#[trigger] x.spec_serialize().is_prefix_of(data@.skip(pos as int)) by {
                        if x.spec_serialize().is_prefix_of(data@.skip(pos as int)) {
                            assert(x.5.spec_serialize().is_prefix_of(data@.skip(e4 as int)));
                        }
                    }
                    }
                }
                return None;
            },
        };
        proof {
            if Self::is_lawful() {
            assert forall|x: Self| #[trigger] x.spec_serialize().is_prefix_of(data@.skip(pos as int)) implies
                (x.6.spec_serialize() + (x.7.spec_serialize() + (x.8.spec_serialize() + (x.9.spec_serialize())))).is_prefix_of(data@.skip(e5 as int)) by {
                assert(x.5.spec_serialize().is_prefix_of(data@.skip(e4 as int)));
            }
            }
        }
        proof {
            if Self::is_lawful() {
            assert forall|x: Self| #[trigger] x.spec_serialize().is_prefix_of(data@.skip(pos as int)) implies {
                &&& x.6.spec_serialize().is_prefix_of(data@.skip(e5 as int))
                &&& (x.7.spec_serialize() + (x.8.spec_serialize() + (x.9.spec_serialize()))).is_prefix_of(data@.skip(e5 + x.6.spec_serialize().len()))
            } by {
                lemma_tag_then(x.6.spec_serialize(), x.7.spec_serialize() + (x.8.spec_serialize() + (x.9.spec_serialize())), data@.skip(e5 as int));
                assert(data@.skip(e5 as int).skip(x.6.spec_serialize().len() as int) =~= data@.skip(e5 + x.6.spec_serialize().len()));
            }
            }
        }
        let (v6, e6) = match G::__autarkie_deserialize(data, e5) {
            Some(r) => r,
            None => {
                proof {
                    if Self::is_lawful() {
                    assert forall|x: Self| !#[trigger] x.spec_serialize().is_prefix_of(data@.skip(pos as int)) by {
                        if x.spec_serialize().is_prefix_of(data@.skip(pos as int)) {
                            assert(x.6.spec_serialize().is_prefix_of(data@.skip(e5 as int)));
                        }
                    }
                    }
                }
                return None;
            },
        };
        proof {
            if Self::is_lawful() {
            assert forall|x: Self| #[trigger] x.spec_serialize().is_prefix_of(data@.skip(pos as int)) implies
                (x.7.spec_serialize() + (x.8.spec_serialize() + (x.9.spec_serialize()))).is_prefix_of(data@.skip(e6 as int)) by {
                assert(x.6.spec_serialize().is_prefix_of(data@.skip(e5 as int)));
            }
            }
        }
        proof {
            if Self::is_lawful() {
            assert forall|x: Self| #[trigger] x.spec_serialize().is_prefix_of(data@.skip(pos as int)) implies {
                &&& x.7.spec_serialize().is_prefix_of(data@.skip(e6 as int))
                &&& (x.8.spec_serialize() + (x.9.spec_serialize())).is_prefix_of(data@.skip(e6 + x.7.spec_serialize().len()))
            } by {
                lemma_tag_then(x.7.spec_serialize(), x.8.spec_serialize() + (x.9.spec_serialize()), data@.skip(e6 as int));
                assert(data@.skip(e6 as int).skip(x.7.spec_serialize().len() as int) =~= data@.skip(e6 + x.7.spec_serialize().len()));
            }
            }
        }
        let (v7, e7) = match H::__autarkie_deserialize(data, e6) {
            Some(r) => r,
            None => {
                proof {
                    if Self::is_lawful() {
                    assert forall|x: Self| !#[trigger] x.spec_serialize().is_prefix_of(data@.skip(pos as int)) by {
                        if x.spec_serialize().is_prefix_of(data@.skip(pos as int)) {
                            assert(x.7.spec_serialize().is_prefix_of(data@.skip(e6 as int)));
                        }
                    }
                    }
                }
                return None;
            },
        };
        proof {
            if Self::is_lawful() {
            assert forall|x: Self| #[trigger] x.spec_serialize().is_prefix_of(data@.skip(pos as int)) implies
                (x.8.spec_serialize() + (x.9.spec_serialize())).is_prefix_of(data@.skip(e7 as int)) by {
                assert(x.7.spec_serialize().is_prefix_of(data@.skip(e6 as int)));
            }
            }
        }
        proof {
            if Self::is_lawful() {
            assert forall|x: Self| #[trigger] x.spec_serialize().is_prefix_of(data@.skip(pos as int)) implies {
                &&& x.8.spec_serialize().is_prefix_of(data@.skip(e7 as int))
                &&& (x.9.spec_serialize()).is_prefix_of(data@.skip(e7 + x.8.spec_serialize().len()))
            } by {
                lemma_tag_then(x.8.spec_serialize(), x.9.spec_serialize(), data@.skip(e7 as int));
                assert(data@.skip(e7 as int).skip(x.8.spec_serialize().len() as int) =~= data@.skip(e7 + x.8.spec_serialize().len()));
            }
            }
        }
        let (v8, e8) = match I::__autarkie_deserialize(data, e7) {
            Some(r) => r,
            None => {
                proof {
                    if Self::is_lawful() {
                    assert forall|x: Self| !#[trigger] x.spec_serialize().is_prefix_of(data@.skip(pos as int)) by {
                        if x.spec_serialize().is_prefix_of(data@.skip(pos as int)) {
                            assert(x.8.spec_serialize().is_prefix_of(data@.skip(e7 as int)));
                        }
                    }
                    }
                }
                return None;
            },
        };
        proof {
            if Self::is_lawful() {
            assert forall|x: Self| #[trigger] x.spec_serialize().is_prefix_of(data@.skip(pos as int)) implies
                (x.9.spec_serialize()).is_prefix_of(data@.skip(e8 as int)) by {
                assert(x.8.spec_serialize().is_prefix_of(data@.skip(e7 as int)));
            }
            }
        }
        let (v9, e9) = match J::__autarkie_deserialize(data, e8) {
            Some(r) => r,
            None => {
                proof {
                    if Self::is_lawful() {
                    assert forall|x: Self| !#[trigger] x.spec_serialize().is_prefix_of(data@.skip(pos as int)) by {
                        if x.spec_serialize().is_prefix_of(data@.skip(pos as int)) {
                            assert(x.9.spec_serialize().is_prefix_of(data@.skip(e8 as int)));
                        }
                    }
                    }
                }
                return None;
            },
        };
        let r = (v0, v1, v2, v3, v4, v5, v6, v7, v8, v9);
        proof {
            if Self::is_lawful() {
            assert forall|x: Self| #[trigger] x.spec_serialize().is_prefix_of(data@.skip(pos as int)) implies
                r.spec_serialize() == x.spec_serialize() && e9 == pos + x.spec_serialize().len() by {
                assert(x.0.spec_serialize().is_prefix_of(data@.skip(pos as int)));
                assert(v0.spec_serialize() == x.0.spec_serialize());
                assert(x.1.spec_serialize().is_prefix_of(data@.skip(e0 as int)));
                assert(v1.spec_serialize() == x.1.spec_serialize());
                assert(x.2.spec_serialize().is_prefix_of(data@.skip(e1 as int)));
                assert(v2.spec_serialize() == x.2.spec_serialize());
                assert(x.3.spec_serialize().is_prefix_of(data@.skip(e2 as int)));
                assert(v3.spec_serialize() == x.3.spec_serialize());
                assert(x.4.spec_serialize().is_prefix_of(data@.skip(e3 as int)));
                assert(v4.spec_serialize() == x.4.spec_serialize());
                assert(x.5.spec_serialize().is_prefix_of(data@.skip(e4 as int)));
                assert(v5.spec_serialize() == x.5.spec_serialize());
                assert(x.6.spec_serialize().is_prefix_of(data@.skip(e5 as int)));
                assert(v6.spec_serialize() == x.6.spec_serialize());
                assert(x.7.spec_serialize().is_prefix_of(data@.skip(e6 as int)));
                assert(v7.spec_serialize() == x.7.spec_serialize());
                assert(x.8.spec_serialize().is_prefix_of(data@.skip(e7 as int)));
                assert(v8.spec_serialize() == x.8.spec_serialize());
                assert(x.9.spec_serialize().is_prefix_of(data@.skip(e8 as int)));
                assert(v9.spec_serialize() == x.9.spec_serialize());
            }
            }
        }
        Some((r, e9))
    }

    fn __autarkie_id_name() -> (r: String) {
        let mut r = "(".to_owned();
        let n0 = A::__autarkie_id_name();
        r.append(n0.as_str());
        r.append(", ");
        let n1 = B::__autarkie_id_name();
        r.append(n1.as_str());
        r.append(", ");
        let n2 = C::__autarkie_id_name();
        r.append(n2.as_str());
        r.append(", ");
        let n3 = D::__autarkie_id_name();
        r.append(n3.as_str());
        r.append(", ");
        let n4 = E::__autarkie_id_name();
        r.append(n4.as_str());
        r.append(", ");
        let n5 = F::__autarkie_id_name();
        r.append(n5.as_str());
        r.append(", ");
        let n6 = G::__autarkie_id_name();
        r.append(n6.as_str());
        r.append(", ");
        let n7 = H::__autarkie_id_name();
        r.append(n7.as_str());
        r.append(", ");
        let n8 = I::__autarkie_id_name();
        r.append(n8.as_str());
        r.append(", ");
        let n9 = J::__autarkie_id_name();
        r.append(n9.as_str());
        r.append(")");
        assert(r@ == Self::spec_name());
        r
    }
}

/// Whether generating the elements of `t` in turn, each with no settings,
/// from the visitor `before`, can give them and leave `after`.
pub open spec fn elements_11_generated<A: Node, B: Node, C: Node, D: Node, E: Node, F: Node, G: Node, H: Node, I: Node, J: Node, K: Node>(before: Visitor, t: (A, B, C, D, E, F, G, H, I, J, K), after: Visitor) -> bool {
    exists|g0: Visitor, g1: Visitor, g2: Visitor, g3: Visitor, g4: Visitor, g5: Visitor, g6: Visitor, g7: Visitor, g8: Visitor, g9: Visitor|
            #![trigger A::generation(before, None, Some(t.0), g0), B::generation(g0, None, Some(t.1), g1), C::generation(g1, None, Some(t.2), g2), D::generation(g2, None, Some(t.3), g3), E::generation(g3, None, Some(t.4), g4), F::generation(g4, None, Some(t.5), g5), G::generation(g5, None, Some(t.6), g6), H::generation(g6, None, Some(t.7), g7), I::generation(g7, None, Some(t.8), g8), J::generation(g8, None, Some(t.9), g9), K::generation(g9, None, Some(t.10), after)]
            A::generation(before, None, Some(t.0), g0)
                && B::generation(g0, None, Some(t.1), g1)
                && C::generation(g1, None, Some(t.2), g2)
                && D::generation(g2, None, Some(t.3), g3)
                && E::generation(g3, None, Some(t.4), g4)
                && F::generation(g4, None, Some(t.5), g5)
                && G::generation(g5, None, Some(t.6), g6)
                && H::generation(g6, None, Some(t.7), g7)
                && I::generation(g7, None, Some(t.8), g8)
                && J::generation(g8, None, Some(t.9), g9)
                && K::generation(g9, None, Some(t.10), after)
}

impl<A: Node, B: Node, C: Node, D: Node, E: Node, F: Node, G: Node, H: Node, I: Node, J: Node, K: Node> Node for (A, B, C, D, E, F, G, H, I, J, K) {
    open spec fn spec_serialize(&self) -> Seq<u8> {
        self.0.spec_serialize() + (self.1.spec_serialize() + (self.2.spec_serialize() + (self.3.spec_serialize() + (self.4.spec_serialize() + (self.5.spec_serialize() + (self.6.spec_serialize() + (self.7.spec_serialize() + (self.8.spec_serialize() + (self.9.spec_serialize() + (self.10.spec_serialize()))))))))))
    }

    open spec fn spec_name() -> Seq<char> {
        "("@ + A::spec_name() + ", "@ + B::spec_name() + ", "@ + C::spec_name() + ", "@ + D::spec_name() + ", "@ + E::spec_name() + ", "@ + F::spec_name() + ", "@ + G::spec_name() + ", "@ + H::spec_name() + ", "@ + I::spec_name() + ", "@ + J::spec_name() + ", "@ + K::spec_name() + ")"@
    }

    open spec fn is_lawful() -> bool {
        A::is_lawful() && B::is_lawful() && C::is_lawful() && D::is_lawful() && E::is_lawful() && F::is_lawful() && G::is_lawful() && H::is_lawful() && I::is_lawful() && J::is_lawful() && K::is_lawful()
    }

    open spec fn read_ok(bytes: Seq<u8>) -> bool {
        Self::is_lawful() && exists|x: Self| #[trigger] x.spec_serialize().is_prefix_of(bytes)
    }

    /// For a lawful type, a value read encodes as the start of the bytes,
    /// as any value whose encoding starts them does.
    open spec fn reading(bytes: Seq<u8>, v: Self) -> bool {
        Self::is_lawful() ==> {
            &&& v.spec_serialize().is_prefix_of(bytes)
            &&& forall|x: Self| #[trigger] x.spec_serialize().is_prefix_of(bytes) ==> v.spec_serialize()
                == x.spec_serialize()
        }
    }

    open spec fn encodes_exactly() -> bool {
        A::encodes_exactly() && B::encodes_exactly() && C::encodes_exactly() && D::encodes_exactly() && E::encodes_exactly() && F::encodes_exactly() && G::encodes_exactly() && H::encodes_exactly() && I::encodes_exactly() && J::encodes_exactly() && K::encodes_exactly()
    }

    open spec fn walks_known() -> bool {
        A::walks_known() && B::walks_known() && C::walks_known() && D::walks_known() && E::walks_known() && F::walks_known() && G::walks_known() && H::walks_known() && I::walks_known() && J::walks_known() && K::walks_known()
    }

    open spec fn node_shape(&self, shape: NodeType) -> bool {
        shape == NodeType::NonRecursive
    }

    /// A node with fixed fields.
    fn __autarkie_node_ty(&self, visitor: &Visitor) -> (r: NodeType) {
        NodeType::NonRecursive
    }

    /// Along a path, the element at its first index is mutated along the
    /// rest of it and the others are kept; at its end, the tuple is replaced.
    open spec fn mutation(&self, ty: &MutationType, path: Seq<usize>, before: Visitor, after: Self, after_v: Visitor) -> bool {
        if path.len() > 0 {
            if path[0] == 0 {
                after.1 == self.1 && after.2 == self.2 && after.3 == self.3 && after.4 == self.4 && after.5 == self.5 && after.6 == self.6 && after.7 == self.7 && after.8 == self.8 && after.9 == self.9 && after.10 == self.10 && self.0.mutation(ty, path.drop_first(), before, after.0, after_v)
            } else if path[0] == 1 {
                after.0 == self.0 && after.2 == self.2 && after.3 == self.3 && after.4 == self.4 && after.5 == self.5 && after.6 == self.6 && after.7 == self.7 && after.8 == self.8 && after.9 == self.9 && after.10 == self.10 && self.1.mutation(ty, path.drop_first(), before, after.1, after_v)
            } else if path[0] == 2 {
                after.0 == self.0 && after.1 == self.1 && after.3 == self.3 && after.4 == self.4 && after.5 == self.5 && after.6 == self.6 && after.7 == self.7 && after.8 == self.8 && after.9 == self.9 && after.10 == self.10 && self.2.mutation(ty, path.drop_first(), before, after.2, after_v)
            } else if path[0] == 3 {
                after.0 == self.0 && after.1 == self.1 && after.2 == self.2 && after.4 == self.4 && after.5 == self.5 && after.6 == self.6 && after.7 == self.7 && after.8 == self.8 && after.9 == self.9 && after.10 == self.10 && self.3.mutation(ty, path.drop_first(), before, after.3, after_v)
            } else if path[0] == 4 {
                after.0 == self.0 && after.1 == self.1 && after.2 == self.2 && after.3 == self.3 && after.5 == self.5 && after.6 == self.6 && after.7 == self.7 && after.8 == self.8 && after.9 == self.9 && after.10 == self.10 && self.4.mutation(ty, path.drop_first(), before, after.4, after_v)
            } else if path[0] == 5 {
                after.0 == self.0 && after.1 == self.1 && after.2 == self.2 && after.3 == self.3 && after.4 == self.4 && after.6 == self.6 && after.7 == self.7 && after.8 == self.8 && after.9 == self.9 && after.10 == self.10 && self.5.mutation(ty, path.drop_first(), before, after.5, after_v)
            } else if path[0] == 6 {
                after.0 == self.0 && after.1 == self.1 && after.2 == self.2 && after.3 == self.3 && after.4 == self.4 && after.5 == self.5 && after.7 == self.7 && after.8 == self.8 && after.9 == self.9 && after.10 == self.10 && self.6.mutation(ty, path.drop_first(), before, after.6, after_v)
            } else if path[0] == 7 {
                after.0 == self.0 && after.1 == self.1 && after.2 == self.2 && after.3 == self.3 && after.4 == self.4 && after.5 == self.5 && after.6 == self.6 && after.8 == self.8 && after.9 == self.9 && after.10 == self.10 && self.7.mutation(ty, path.drop_first(), before, after.7, after_v)
            } else if path[0] == 8 {
                after.0 == self.0 && after.1 == self.1 && after.2 == self.2 && after.3 == self.3 && after.4 == self.4 && after.5 == self.5 && after.6 == self.6 && after.7 == self.7 && after.9 == self.9 && after.10 == self.10 && self.8.mutation(ty, path.drop_first(), before, after.8, after_v)
            } else if path[0] == 9 {
                after.0 == self.0 && after.1 == self.1 && after.2 == self.2 && after.3 == self.3 && after.4 == self.4 && after.5 == self.5 && after.6 == self.6 && after.7 == self.7 && after.8 == self.8 && after.10 == self.10 && self.9.mutation(ty, path.drop_first(), before, after.9, after_v)
            } else if path[0] == 10 {
                after.0 == self.0 && after.1 == self.1 && after.2 == self.2 && after.3 == self.3 && after.4 == self.4 && after.5 == self.5 && after.6 == self.6 && after.7 == self.7 && after.8 == self.8 && after.9 == self.9 && self.10.mutation(ty, path.drop_first(), before, after.10, after_v)
            } else {
                false
            }
        } else {
            match *ty {
                MutationType::Splice(b) => {
                    &&& after_v == before
                    &&& Self::is_lawful() ==> forall|x: Self| #[trigger] x.spec_serialize().is_prefix_of((**b)@)
                        ==> after.spec_serialize() == x.spec_serialize()
                },
                _ => {
                    ||| after == *self && Self::generation(before, None, None, after_v)
                    ||| exists|generated: Visitor| {
                        &&& #[trigger] Self::generation(before, None, Some(after), generated)
                        &&& after_v.keeps_state(&generated)
                        &&& after_v.fields() == generated.fields()
                        &&& after_v.operands() == generated.operands()
                        &&& after_v.serialized().len() > generated.serialized().len()
                        &&& after_v.serialized_types().len() > generated.serialized_types().len()
                        &&& after_v.serialized_types().last() == Self::spec_name()
                        &&& Self::encodes_exactly() ==> after_v.serialized().last().0 == after.spec_serialize()
                        &&& Self::walks_known() && Self::encodes_exactly() ==> after_v.serialized_bytes()
                            == generated.serialized_bytes() + after.serialized_records() + seq![after.spec_serialize()]
                    }
                },
            }
        }
    }

    open spec fn first_name_ok(name: Seq<char>) -> bool {
        false
    }

    open spec fn always_generates() -> bool {
        A::always_generates() && B::always_generates() && C::always_generates() && D::always_generates() && E::always_generates() && F::always_generates() && G::always_generates() && H::always_generates() && I::always_generates() && J::always_generates() && K::always_generates()
    }

    /// Each element is what generating its type in turn gives; generation
    /// gives up at the first element that could not be generated.
    open spec fn generation(before: Visitor, settings: Option<GenerateSettings>, r: Option<Self>, after: Visitor) -> bool {
        &&& after.draws_only(&before)
        &&& r matches Some(t) ==> elements_11_generated(before, t, after)
    }

    open spec fn field_count(&self) -> nat {
        (1 + self.0.field_count()) + (1 + self.1.field_count()) + (1 + self.2.field_count()) + (1 + self.3.field_count()) + (1 + self.4.field_count()) + (1 + self.5.field_count()) + (1 + self.6.field_count()) + (1 + self.7.field_count()) + (1 + self.8.field_count()) + (1 + self.9.field_count()) + (1 + self.10.field_count())
    }

    open spec fn comparison_operands(&self, __autarkie_val: (u64, u64)) -> Seq<Seq<u8>> {
        ((((((((((self.0.comparison_operands(__autarkie_val)) + self.1.comparison_operands(__autarkie_val)) + self.2.comparison_operands(__autarkie_val)) + self.3.comparison_operands(__autarkie_val)) + self.4.comparison_operands(__autarkie_val)) + self.5.comparison_operands(__autarkie_val)) + self.6.comparison_operands(__autarkie_val)) + self.7.comparison_operands(__autarkie_val)) + self.8.comparison_operands(__autarkie_val)) + self.9.comparison_operands(__autarkie_val)) + self.10.comparison_operands(__autarkie_val)
    }

    open spec fn serialized_records(&self) -> Seq<Seq<u8>> {
        ((((((((((seq![self.0.spec_serialize()] + self.0.serialized_records()) + seq![self.1.spec_serialize()] + self.1.serialized_records()) + seq![self.2.spec_serialize()] + self.2.serialized_records()) + seq![self.3.spec_serialize()] + self.3.serialized_records()) + seq![self.4.spec_serialize()] + self.4.serialized_records()) + seq![self.5.spec_serialize()] + self.5.serialized_records()) + seq![self.6.spec_serialize()] + self.6.serialized_records()) + seq![self.7.spec_serialize()] + self.7.serialized_records()) + seq![self.8.spec_serialize()] + self.8.serialized_records()) + seq![self.9.spec_serialize()] + self.9.serialized_records()) + seq![self.10.spec_serialize()] + self.10.serialized_records()
    }

    open spec fn serialized_record_types(&self) -> Seq<Seq<char>> {
        ((((((((((seq![A::spec_name()] + self.0.serialized_record_types()) + seq![B::spec_name()] + self.1.serialized_record_types()) + seq![C::spec_name()] + self.2.serialized_record_types()) + seq![D::spec_name()] + self.3.serialized_record_types()) + seq![E::spec_name()] + self.4.serialized_record_types()) + seq![F::spec_name()] + self.5.serialized_record_types()) + seq![G::spec_name()] + self.6.serialized_record_types()) + seq![H::spec_name()] + self.7.serialized_record_types()) + seq![I::spec_name()] + self.8.serialized_record_types()) + seq![J::spec_name()] + self.9.serialized_record_types()) + seq![K::spec_name()] + self.10.serialized_record_types()
    }

    open spec fn generate_ok(settings: GenerateSettings, rng: u64) -> bool {
        true
    }

    open spec fn mutate_ok(&self, ty: &MutationType, path: Seq<usize>) -> bool {
        if path.len() > 0 {
            (path[0] == 0 && self.0.mutate_ok(ty, path.drop_first())) || (path[0] == 1 && self.1.mutate_ok(ty, path.drop_first())) || (path[0] == 2 && self.2.mutate_ok(ty, path.drop_first())) || (path[0] == 3 && self.3.mutate_ok(ty, path.drop_first())) || (path[0] == 4 && self.4.mutate_ok(ty, path.drop_first())) || (path[0] == 5 && self.5.mutate_ok(ty, path.drop_first())) || (path[0] == 6 && self.6.mutate_ok(ty, path.drop_first())) || (path[0] == 7 && self.7.mutate_ok(ty, path.drop_first())) || (path[0] == 8 && self.8.mutate_ok(ty, path.drop_first())) || (path[0] == 9 && self.9.mutate_ok(ty, path.drop_first())) || (path[0] == 10 && self.10.mutate_ok(ty, path.drop_first()))
        } else {
            &&& (*ty is Splice || *ty is GenerateReplace)
            &&& (*ty matches MutationType::Splice(b) ==> (Self::is_lawful() ==> exists|x: Self| #[trigger] x.spec_serialize().is_prefix_of((**b)@)))
        }
    }

    /// Each element generated in turn; generation gives up where one of
    /// them does.
    #[verifier::spinoff_prover]
    fn __autarkie_generate(
        visitor: &mut Visitor,
        depth: &mut usize,
        cur_depth: usize,
        settings: Option<GenerateSettings>,
    ) -> (r: Option<Self>) {
        let ghost p0 = *visitor;
        let f0 = match A::__autarkie_generate(visitor, depth, cur_depth, None) {
            Some(x) => x,
            None => {
                return None;
            },
        };
        let ghost p1 = *visitor;
        let f1 = match B::__autarkie_generate(visitor, depth, cur_depth, None) {
            Some(x) => x,
            None => {
                return None;
            },
        };
        let ghost p2 = *visitor;
        let f2 = match C::__autarkie_generate(visitor, depth, cur_depth, None) {
            Some(x) => x,
            None => {
                return None;
            },
        };
        let ghost p3 = *visitor;
        let f3 = match D::__autarkie_generate(visitor, depth, cur_depth, None) {
            Some(x) => x,
            None => {
                return None;
            },
        };
        let ghost p4 = *visitor;
        let f4 = match E::__autarkie_generate(visitor, depth, cur_depth, None) {
            Some(x) => x,
            None => {
                return None;
            },
        };
        let ghost p5 = *visitor;
        let f5 = match F::__autarkie_generate(visitor, depth, cur_depth, None) {
            Some(x) => x,
            None => {
                return None;
            },
        };
        let ghost p6 = *visitor;
        let f6 = match G::__autarkie_generate(visitor, depth, cur_depth, None) {
            Some(x) => x,
            None => {
                return None;
            },
        };
        let ghost p7 = *visitor;
        let f7 = match H::__autarkie_generate(visitor, depth, cur_depth, None) {
            Some(x) => x,
            None => {
                return None;
            },
        };
        let ghost p8 = *visitor;
        let f8 = match I::__autarkie_generate(visitor, depth, cur_depth, None) {
            Some(x) => x,
            None => {
                return None;
            },
        };
        let ghost p9 = *visitor;
        let f9 = match J::__autarkie_generate(visitor, depth, cur_depth, None) {
            Some(x) => x,
            None => {
                return None;
            },
        };
        let ghost p10 = *visitor;
        let f10 = match K::__autarkie_generate(visitor, depth, cur_depth, None) {
            Some(x) => x,
            None => {
                return None;
            },
        };
        let ghost gt = (f0, f1, f2, f3, f4, f5, f6, f7, f8, f9, f10);
        proof {
            assert(A::generation(p0, None, Some(gt.0), p1));
            assert(B::generation(p1, None, Some(gt.1), p2));
            assert(C::generation(p2, None, Some(gt.2), p3));
            assert(D::generation(p3, None, Some(gt.3), p4));
            assert(E::generation(p4, None, Some(gt.4), p5));
            assert(F::generation(p5, None, Some(gt.5), p6));
            assert(G::generation(p6, None, Some(gt.6), p7));
            assert(H::generation(p7, None, Some(gt.7), p8));
            assert(I::generation(p8, None, Some(gt.8), p9));
            assert(J::generation(p9, None, Some(gt.9), p10));
            assert(K::generation(p10, None, Some(gt.10), *visitor));
            assert(visitor.draws_only(&p0));
            assert(exists|g0: Visitor, g1: Visitor, g2: Visitor, g3: Visitor, g4: Visitor, g5: Visitor, g6: Visitor, g7: Visitor, g8: Visitor, g9: Visitor| A::generation(p0, None, Some(gt.0), g0) && B::generation(g0, None, Some(gt.1), g1) && C::generation(g1, None, Some(gt.2), g2) && D::generation(g2, None, Some(gt.3), g3) && E::generation(g3, None, Some(gt.4), g4) && F::generation(g4, None, Some(gt.5), g5) && G::generation(g5, None, Some(gt.6), g6) && H::generation(g6, None, Some(gt.7), g7) && I::generation(g7, None, Some(gt.8), g8) && J::generation(g8, None, Some(gt.9), g9) && K::generation(g9, None, Some(gt.10), *visitor));
            assert(elements_11_generated(p0, gt, *visitor));
        }
        Some((f0, f1, f2, f3, f4, f5, f6, f7, f8, f9, f10))
    }

    /// Along the path, mutates the element at its first index; at its end,
    /// replaces the tuple by the one the spliced bytes encode, or by a
    /// generated one whose encodings are then recorded.
    #[verifier::spinoff_prover]
    fn __autarkie_mutate(
        &mut self,
        ty: &mut MutationType,
        visitor: &mut Visitor,
        path: VecDeque<usize>,
    ) {
        let mut path = path;
        match path.pop_front() {
            Some(popped) => {
                if popped == 0 {
                    self.0.__autarkie_mutate(ty, visitor, path);
                } else if popped == 1 {
                    self.1.__autarkie_mutate(ty, visitor, path);
                } else if popped == 2 {
                    self.2.__autarkie_mutate(ty, visitor, path);
                } else if popped == 3 {
                    self.3.__autarkie_mutate(ty, visitor, path);
                } else if popped == 4 {
                    self.4.__autarkie_mutate(ty, visitor, path);
                } else if popped == 5 {
                    self.5.__autarkie_mutate(ty, visitor, path);
                } else if popped == 6 {
                    self.6.__autarkie_mutate(ty, visitor, path);
                } else if popped == 7 {
                    self.7.__autarkie_mutate(ty, visitor, path);
                } else if popped == 8 {
                    self.8.__autarkie_mutate(ty, visitor, path);
                } else if popped == 9 {
                    self.9.__autarkie_mutate(ty, visitor, path);
                } else if popped == 10 {
                    self.10.__autarkie_mutate(ty, visitor, path);
                } else {
                    proof {
                        assert(false);
                    }
                }
            },
            None => {
                match ty {
                    MutationType::Splice(other) => {
                        let bytes: &[u8] = **other;
                        proof {
                            assert(bytes@.skip(0) =~= bytes@);
                        }
                        match Self::__autarkie_deserialize(bytes, 0) {
                            Some((v, end)) => {
                                proof {
                                    if Self::is_lawful() {
                                        assert(v.spec_serialize() =~= bytes@.subrange(0, v.spec_serialize().len() as int));
                                        assert(v.spec_serialize().is_prefix_of(bytes@));
                                    }
                                }
                                *self = v;
                            },
                            None => {},
                        }
                    },
                    MutationType::GenerateReplace(bias) => {
                        match Self::__autarkie_generate(visitor, bias, 0, None) {
                            Some(generated) => {
                                *self = generated;
                                let ghost g = *visitor;
                                self.__autarkie_serialized(visitor);
                                Self::record_encoding(visitor, self.__autarkie_serialize());
                                proof {
                                    assert(Self::generation(*old(visitor), None, Some(*self), g));
                                    if Self::walks_known() && Self::encodes_exactly() {
                                        assert(visitor.serialized_bytes() =~= g.serialized_bytes()
                                            + self.serialized_records() + seq![self.spec_serialize()]);
                                    }
                                }
                            },
                            None => {},
                        }
                    },
                    _ => {
                        proof {
                            assert(false);
                        }
                    },
                }
            },
        }
    }

    /// Enters each element as a field, at its position, and records its fields.
    #[verifier::spinoff_prover]
    fn __autarkie_fields(&self, visitor: &mut Visitor, index: usize) {
        let ghost p0 = *visitor;
        let id0 = A::enter_as_field(visitor, 0, NodeType::NonRecursive).1;
        let ghost e0 = *visitor;
        self.0.__autarkie_fields(visitor, 0);
        let ghost i0 = *visitor;
        visitor.pop_field();
        proof {
            assert(field_entered(p0, ((0, NodeType::NonRecursive), id0), A::spec_name(), e0));
            assert(field_left(i0, *visitor));
            assert(walked_in_field(self.0, 0, A::spec_name(), 0, None, p0, *visitor));
        }
        let ghost p1 = *visitor;
        let id1 = B::enter_as_field(visitor, 1, NodeType::NonRecursive).1;
        let ghost e1 = *visitor;
        self.1.__autarkie_fields(visitor, 0);
        let ghost i1 = *visitor;
        visitor.pop_field();
        proof {
            assert(field_entered(p1, ((1, NodeType::NonRecursive), id1), B::spec_name(), e1));
            assert(field_left(i1, *visitor));
            assert(walked_in_field(self.1, 1, B::spec_name(), 0, None, p1, *visitor));
        }
        let ghost p2 = *visitor;
        let id2 = C::enter_as_field(visitor, 2, NodeType::NonRecursive).1;
        let ghost e2 = *visitor;
        self.2.__autarkie_fields(visitor, 0);
        let ghost i2 = *visitor;
        visitor.pop_field();
        proof {
            assert(field_entered(p2, ((2, NodeType::NonRecursive), id2), C::spec_name(), e2));
            assert(field_left(i2, *visitor));
            assert(walked_in_field(self.2, 2, C::spec_name(), 0, None, p2, *visitor));
        }
        let ghost p3 = *visitor;
        let id3 = D::enter_as_field(visitor, 3, NodeType::NonRecursive).1;
        let ghost e3 = *visitor;
        self.3.__autarkie_fields(visitor, 0);
        let ghost i3 = *visitor;
        visitor.pop_field();
        proof {
            assert(field_entered(p3, ((3, NodeType::NonRecursive), id3), D::spec_name(), e3));
            assert(field_left(i3, *visitor));
            assert(walked_in_field(self.3, 3, D::spec_name(), 0, None, p3, *visitor));
        }
        let ghost p4 = *visitor;
        let id4 = E::enter_as_field(visitor, 4, NodeType::NonRecursive).1;
        let ghost e4 = *visitor;
        self.4.__autarkie_fields(visitor, 0);
        let ghost i4 = *visitor;
        visitor.pop_field();
        proof {
            assert(field_entered(p4, ((4, NodeType::NonRecursive), id4), E::spec_name(), e4));
            assert(field_left(i4, *visitor));
            assert(walked_in_field(self.4, 4, E::spec_name(), 0, None, p4, *visitor));
        }
        let ghost p5 = *visitor;
        let id5 = F::enter_as_field(visitor, 5, NodeType::NonRecursive).1;
        let ghost e5 = *visitor;
        self.5.__autarkie_fields(visitor, 0);
        let ghost i5 = *visitor;
        visitor.pop_field();
        proof {
            assert(field_entered(p5, ((5, NodeType::NonRecursive), id5), F::spec_name(), e5));
            assert(field_left(i5, *visitor));
            assert(walked_in_field(self.5, 5, F::spec_name(), 0, None, p5, *visitor));
        }
        let ghost p6 = *visitor;
        let id6 = G::enter_as_field(visitor, 6, NodeType::NonRecursive).1;
        let ghost e6 = *visitor;
        self.6.__autarkie_fields(visitor, 0);
        let ghost i6 = *visitor;
        visitor.pop_field();
        proof {
            assert(field_entered(p6, ((6, NodeType::NonRecursive), id6), G::spec_name(), e6));
            assert(field_left(i6, *visitor));
            assert(walked_in_field(self.6, 6, G::spec_name(), 0, None, p6, *visitor));
        }
        let ghost p7 = *visitor;
        let id7 = H::enter_as_field(visitor, 7, NodeType::NonRecursive).1;
        let ghost e7 = *visitor;
        self.7.__autarkie_fields(visitor, 0);
        let ghost i7 = *visitor;
        visitor.pop_field();
        proof {
            assert(field_entered(p7, ((7, NodeType::NonRecursive), id7), H::spec_name(), e7));
            assert(field_left(i7, *visitor));
            assert(walked_in_field(self.7, 7, H::spec_name(), 0, None, p7, *visitor));
        }
        let ghost p8 = *visitor;
        let id8 = I::enter_as_field(visitor, 8, NodeType::NonRecursive).1;
        let ghost e8 = *visitor;
        self.8.__autarkie_fields(visitor, 0);
        let ghost i8 = *visitor;
        visitor.pop_field();
        proof {
            assert(field_entered(p8, ((8, NodeType::NonRecursive), id8), I::spec_name(), e8));
            assert(field_left(i8, *visitor));
            assert(walked_in_field(self.8, 8, I::spec_name(), 0, None, p8, *visitor));
        }
        let ghost p9 = *visitor;
        let id9 = J::enter_as_field(visitor, 9, NodeType::NonRecursive).1;
        let ghost e9 = *visitor;
        self.9.__autarkie_fields(visitor, 0);
        let ghost i9 = *visitor;
        visitor.pop_field();
        proof {
            assert(field_entered(p9, ((9, NodeType::NonRecursive), id9), J::spec_name(), e9));
            assert(field_left(i9, *visitor));
            assert(walked_in_field(self.9, 9, J::spec_name(), 0, None, p9, *visitor));
        }
        let ghost p10 = *visitor;
        let id10 = K::enter_as_field(visitor, 10, NodeType::NonRecursive).1;
        let ghost e10 = *visitor;
        self.10.__autarkie_fields(visitor, 0);
        let ghost i10 = *visitor;
        visitor.pop_field();
        proof {
            assert(field_entered(p10, ((10, NodeType::NonRecursive), id10), K::spec_name(), e10));
            assert(field_left(i10, *visitor));
            assert(walked_in_field(self.10, 10, K::spec_name(), 0, None, p10, *visitor));
        }
    }

    /// Each element is walked in turn, inside a field at its position, as
    /// field 0 of it.
    open spec fn walk(&self, index: usize, compared: Option<(u64, u64)>, before: Visitor, after: Visitor) -> bool {
        exists|u0: Visitor, u1: Visitor, u2: Visitor, u3: Visitor, u4: Visitor, u5: Visitor, u6: Visitor, u7: Visitor, u8: Visitor, u9: Visitor|
            #![trigger walked_in_field(self.0, 0, A::spec_name(), 0, compared, before, u0), walked_in_field(self.1, 1, B::spec_name(), 0, compared, u0, u1), walked_in_field(self.2, 2, C::spec_name(), 0, compared, u1, u2), walked_in_field(self.3, 3, D::spec_name(), 0, compared, u2, u3), walked_in_field(self.4, 4, E::spec_name(), 0, compared, u3, u4), walked_in_field(self.5, 5, F::spec_name(), 0, compared, u4, u5), walked_in_field(self.6, 6, G::spec_name(), 0, compared, u5, u6), walked_in_field(self.7, 7, H::spec_name(), 0, compared, u6, u7), walked_in_field(self.8, 8, I::spec_name(), 0, compared, u7, u8), walked_in_field(self.9, 9, J::spec_name(), 0, compared, u8, u9), walked_in_field(self.10, 10, K::spec_name(), 0, compared, u9, after)]
            walked_in_field(self.0, 0, A::spec_name(), 0, compared, before, u0)
                && walked_in_field(self.1, 1, B::spec_name(), 0, compared, u0, u1)
                && walked_in_field(self.2, 2, C::spec_name(), 0, compared, u1, u2)
                && walked_in_field(self.3, 3, D::spec_name(), 0, compared, u2, u3)
                && walked_in_field(self.4, 4, E::spec_name(), 0, compared, u3, u4)
                && walked_in_field(self.5, 5, F::spec_name(), 0, compared, u4, u5)
                && walked_in_field(self.6, 6, G::spec_name(), 0, compared, u5, u6)
                && walked_in_field(self.7, 7, H::spec_name(), 0, compared, u6, u7)
                && walked_in_field(self.8, 8, I::spec_name(), 0, compared, u7, u8)
                && walked_in_field(self.9, 9, J::spec_name(), 0, compared, u8, u9)
                && walked_in_field(self.10, 10, K::spec_name(), 0, compared, u9, after)
    }

    /// The tuple registered, then under it each element type in turn, at
    /// variant 0 (its own registration, or one edge to it where it is being
    /// registered already).
    open spec fn registration(before: Visitor, parent: Option<Id>, variant: usize, after: Visitor) -> bool {
        exists|me: Id, v1: Visitor, w0: Visitor, w1: Visitor, w2: Visitor, w3: Visitor, w4: Visitor, w5: Visitor, w6: Visitor, w7: Visitor, w8: Visitor, w9: Visitor, w10: Visitor|
            #![trigger entered(before, parent, variant, Self::spec_name(), me, v1), child_registered::<A>(v1, Some(me), 0, w0), child_registered::<B>(w0, Some(me), 0, w1), child_registered::<C>(w1, Some(me), 0, w2), child_registered::<D>(w2, Some(me), 0, w3), child_registered::<E>(w3, Some(me), 0, w4), child_registered::<F>(w4, Some(me), 0, w5), child_registered::<G>(w5, Some(me), 0, w6), child_registered::<H>(w6, Some(me), 0, w7), child_registered::<I>(w7, Some(me), 0, w8), child_registered::<J>(w8, Some(me), 0, w9), child_registered::<K>(w9, Some(me), 0, w10), left(w10, after)]
            entered(before, parent, variant, Self::spec_name(), me, v1)
                && child_registered::<A>(v1, Some(me), 0, w0)
                && child_registered::<B>(w0, Some(me), 0, w1)
                && child_registered::<C>(w1, Some(me), 0, w2)
                && child_registered::<D>(w2, Some(me), 0, w3)
                && child_registered::<E>(w3, Some(me), 0, w4)
                && child_registered::<F>(w4, Some(me), 0, w5)
                && child_registered::<G>(w5, Some(me), 0, w6)
                && child_registered::<H>(w6, Some(me), 0, w7)
                && child_registered::<I>(w7, Some(me), 0, w8)
                && child_registered::<J>(w8, Some(me), 0, w9)
                && child_registered::<K>(w9, Some(me), 0, w10)
                && left(w10, after)
    }

    /// Registers the tuple type, then under it each element type (or only
    /// the edge to it, where it is being registered already).
    #[verifier::spinoff_prover]
    #[verifier::rlimit(100)]
    fn __autarkie_register(v: &mut Visitor, parent: Option<(Id, String)>, variant: usize)
        ensures
            final(v).ty_edges().len() > old(v).ty_edges().len(),
            final(v).ty_edges()[old(v).ty_edges().len() as int].2 == variant,
    {
        let ghost v0 = *v;
        let ghost start = v.ty_edges().len();
        let me = Self::register_self(v, parent, variant);
        let me_id = me.0;
        let me_name = me.1.clone();
        let ghost v1 = *v;
        let ghost first = v.ty_edges()[start as int];
        proof {
            assert(entered(v0, parent_id(parent), variant, Self::spec_name(), me_id, v1));
        }
        register_child::<A>(v, (me_id, me_name.clone()), 0);
        let ghost w0 = *v;
        proof {
            assert(w0.extends(&v1));
        }
        register_child::<B>(v, (me_id, me_name.clone()), 0);
        let ghost w1 = *v;
        proof {
            assert(w1.extends(&v1));
        }
        register_child::<C>(v, (me_id, me_name.clone()), 0);
        let ghost w2 = *v;
        proof {
            assert(w2.extends(&v1));
        }
        register_child::<D>(v, (me_id, me_name.clone()), 0);
        let ghost w3 = *v;
        proof {
            assert(w3.extends(&v1));
        }
        register_child::<E>(v, (me_id, me_name.clone()), 0);
        let ghost w4 = *v;
        proof {
            assert(w4.extends(&v1));
        }
        register_child::<F>(v, (me_id, me_name.clone()), 0);
        let ghost w5 = *v;
        proof {
            assert(w5.extends(&v1));
        }
        register_child::<G>(v, (me_id, me_name.clone()), 0);
        let ghost w6 = *v;
        proof {
            assert(w6.extends(&v1));
        }
        register_child::<H>(v, (me_id, me_name.clone()), 0);
        let ghost w7 = *v;
        proof {
            assert(w7.extends(&v1));
        }
        register_child::<I>(v, (me_id, me_name.clone()), 0);
        let ghost w8 = *v;
        proof {
            assert(w8.extends(&v1));
        }
        register_child::<J>(v, (me_id, me_name.clone()), 0);
        let ghost w9 = *v;
        proof {
            assert(w9.extends(&v1));
        }
        register_child::<K>(v, (me_id, me_name.clone()), 0);
        let ghost w10 = *v;
        proof {
            assert(w10.extends(&v1));
        }
        let ghost v3 = *v;
        v.pop_ty();
        proof {
            assert(left(v3, *v));
            assert(v3.extends(&v1));
            assert(v0.ty_edges().is_prefix_of(v1.ty_edges()));
            assert(v0.ty_names().is_prefix_of(v1.ty_names()));
            assert(v1.ty_edges().is_prefix_of(v3.ty_edges()));
            assert(v.ty_edges()[start as int] == first);
        }
    }

    /// Records the encoding of each element, then what it records.
    #[verifier::spinoff_prover]
    #[verifier::rlimit(100)]
    fn __autarkie_serialized(&self, visitor: &mut Visitor) {
        A::record_encoding(visitor, self.0.__autarkie_serialize());
        proof {
            if Self::walks_known() && (Self::is_lawful() || Self::encodes_exactly()) {
                assert(visitor.serialized_bytes() =~= old(visitor).serialized_bytes() + (seq![self.0.spec_serialize()]));
            }
            if Self::walks_known() {
                assert(visitor.serialized_types() =~= old(visitor).serialized_types() + (seq![A::spec_name()]));
            }
        }
        self.0.__autarkie_serialized(visitor);
        proof {
            if Self::walks_known() && (Self::is_lawful() || Self::encodes_exactly()) {
                assert(visitor.serialized_bytes() =~= old(visitor).serialized_bytes() + (seq![self.0.spec_serialize()] + self.0.serialized_records()));
            }
            if Self::walks_known() {
                assert(visitor.serialized_types() =~= old(visitor).serialized_types() + (seq![A::spec_name()] + self.0.serialized_record_types()));
            }
        }
        B::record_encoding(visitor, self.1.__autarkie_serialize());
        proof {
            if Self::walks_known() && (Self::is_lawful() || Self::encodes_exactly()) {
                assert(visitor.serialized_bytes() =~= old(visitor).serialized_bytes() + ((seq![self.0.spec_serialize()] + self.0.serialized_records()) + seq![self.1.spec_serialize()]));
            }
            if Self::walks_known() {
                assert(visitor.serialized_types() =~= old(visitor).serialized_types() + ((seq![A::spec_name()] + self.0.serialized_record_types()) + seq![B::spec_name()]));
            }
        }
        self.1.__autarkie_serialized(visitor);
        proof {
            if Self::walks_known() && (Self::is_lawful() || Self::encodes_exactly()) {
                assert(visitor.serialized_bytes() =~= old(visitor).serialized_bytes() + ((seq![self.0.spec_serialize()] + self.0.serialized_records()) + seq![self.1.spec_serialize()] + self.1.serialized_records()));
            }
            if Self::walks_known() {
                assert(visitor.serialized_types() =~= old(visitor).serialized_types() + ((seq![A::spec_name()] + self.0.serialized_record_types()) + seq![B::spec_name()] + self.1.serialized_record_types()));
            }
        }
        C::record_encoding(visitor, self.2.__autarkie_serialize());
        proof {
            if Self::walks_known() && (Self::is_lawful() || Self::encodes_exactly()) {
                assert(visitor.serialized_bytes() =~= old(visitor).serialized_bytes() + (((seq![self.0.spec_serialize()] + self.0.serialized_records()) + seq![self.1.spec_serialize()] + self.1.serialized_records()) + seq![self.2.spec_serialize()]));
            }
            if Self::walks_known() {
                assert(visitor.serialized_types() =~= old(visitor).serialized_types() + (((seq![A::spec_name()] + self.0.serialized_record_types()) + seq![B::spec_name()] + self.1.serialized_record_types()) + seq![C::spec_name()]));
            }
        }
        self.2.__autarkie_serialized(visitor);
        proof {
            if Self::walks_known() && (Self::is_lawful() || Self::encodes_exactly()) {
                assert(visitor.serialized_bytes() =~= old(visitor).serialized_bytes() + (((seq![self.0.spec_serialize()] + self.0.serialized_records()) + seq![self.1.spec_serialize()] + self.1.serialized_records()) + seq![self.2.spec_serialize()] + self.2.serialized_records()));
            }
            if Self::walks_known() {
                assert(visitor.serialized_types() =~= old(visitor).serialized_types() + (((seq![A::spec_name()] + self.0.serialized_record_types()) + seq![B::spec_name()] + self.1.serialized_record_types()) + seq![C::spec_name()] + self.2.serialized_record_types()));
            }
        }
        D::record_encoding(visitor, self.3.__autarkie_serialize());
        proof {
            if Self::walks_known() && (Self::is_lawful() || Self::encodes_exactly()) {
                assert(visitor.serialized_bytes() =~= old(visitor).serialized_bytes() + ((((seq![self.0.spec_serialize()] + self.0.serialized_records()) + seq![self.1.spec_serialize()] + self.1.serialized_records()) + seq![self.2.spec_serialize()] + self.2.serialized_records()) + seq![self.3.spec_serialize()]));
            }
            if Self::walks_known() {
                assert(visitor.serialized_types() =~= old(visitor).serialized_types() + ((((seq![A::spec_name()] + self.0.serialized_record_types()) + seq![B::spec_name()] + self.1.serialized_record_types()) + seq![C::spec_name()] + self.2.serialized_record_types()) + seq![D::spec_name()]));
            }
        }
        self.3.__autarkie_serialized(visitor);
        proof {
            if Self::walks_known() && (Self::is_lawful() || Self::encodes_exactly()) {
                assert(visitor.serialized_bytes() =~= old(visitor).serialized_bytes() + ((((seq![self.0.spec_serialize()] + self.0.serialized_records()) + seq![self.1.spec_serialize()] + self.1.serialized_records()) + seq![self.2.spec_serialize()] + self.2.serialized_records()) + seq![self.3.spec_serialize()] + self.3.serialized_records()));
            }
            if Self::walks_known() {
                assert(visitor.serialized_types() =~= old(visitor).serialized_types() + ((((seq![A::spec_name()] + self.0.serialized_record_types()) + seq![B::spec_name()] + self.1.serialized_record_types()) + seq![C::spec_name()] + self.2.serialized_record_types()) + seq![D::spec_name()] + self.3.serialized_record_types()));
            }
        }
        E::record_encoding(visitor, self.4.__autarkie_serialize());
        proof {
            if Self::walks_known() && (Self::is_lawful() || Self::encodes_exactly()) {
                assert(visitor.serialized_bytes() =~= old(visitor).serialized_bytes() + (((((seq![self.0.spec_serialize()] + self.0.serialized_records()) + seq![self.1.spec_serialize()] + self.1.serialized_records()) + seq![self.2.spec_serialize()] + self.2.serialized_records()) + seq![self.3.spec_serialize()] + self.3.serialized_records()) + seq![self.4.spec_serialize()]));
            }
            if Self::walks_known() {
                assert(visitor.serialized_types() =~= old(visitor).serialized_types() + (((((seq![A::spec_name()] + self.0.serialized_record_types()) + seq![B::spec_name()] + self.1.serialized_record_types()) + seq![C::spec_name()] + self.2.serialized_record_types()) + seq![D::spec_name()] + self.3.serialized_record_types()) + seq![E::spec_name()]));
            }
        }
        self.4.__autarkie_serialized(visitor);
        proof {
            if Self::walks_known() && (Self::is_lawful() || Self::encodes_exactly()) {
                assert(visitor.serialized_bytes() =~= old(visitor).serialized_bytes() + (((((seq![self.0.spec_serialize()] + self.0.serialized_records()) + seq![self.1.spec_serialize()] + self.1.serialized_records()) + seq![self.2.spec_serialize()] + self.2.serialized_records()) + seq![self.3.spec_serialize()] + self.3.serialized_records()) + seq![self.4.spec_serialize()] + self.4.serialized_records()));
            }
            if Self::walks_known() {
                assert(visitor.serialized_types() =~= old(visitor).serialized_types() + (((((seq![A::spec_name()] + self.0.serialized_record_types()) + seq![B::spec_name()] + self.1.serialized_record_types()) + seq![C::spec_name()] + self.2.serialized_record_types()) + seq![D::spec_name()] + self.3.serialized_record_types()) + seq![E::spec_name()] + self.4.serialized_record_types()));
            }
        }
        F::record_encoding(visitor, self.5.__autarkie_serialize());
        proof {
            if Self::walks_known() && (Self::is_lawful() || Self::encodes_exactly()) {
                assert(visitor.serialized_bytes() =~= old(visitor).serialized_bytes() + ((((((seq![self.0.spec_serialize()] + self.0.serialized_records()) + seq![self.1.spec_serialize()] + self.1.serialized_records()) + seq![self.2.spec_serialize()] + self.2.serialized_records()) + seq![self.3.spec_serialize()] + self.3.serialized_records()) + seq![self.4.spec_serialize()] + self.4.serialized_records()) + seq![self.5.spec_serialize()]));
            }
            if Self::walks_known() {
                assert(visitor.serialized_types() =~= old(visitor).serialized_types() + ((((((seq![A::spec_name()] + self.0.serialized_record_types()) + seq![B::spec_name()] + self.1.serialized_record_types()) + seq![C::spec_name()] + self.2.serialized_record_types()) + seq![D::spec_name()] + self.3.serialized_record_types()) + seq![E::spec_name()] + self.4.serialized_record_types()) + seq![F::spec_name()]));
            }
        }
        self.5.__autarkie_serialized(visitor);
        proof {
            if Self::walks_known() && (Self::is_lawful() || Self::encodes_exactly()) {
                assert(visitor.serialized_bytes() =~= old(visitor).serialized_bytes() + ((((((seq![self.0.spec_serialize()] + self.0.serialized_records()) + seq![self.1.spec_serialize()] + self.1.serialized_records()) + seq![self.2.spec_serialize()] + self.2.serialized_records()) + seq![self.3.spec_serialize()] + self.3.serialized_records()) + seq![self.4.spec_serialize()] + self.4.serialized_records()) + seq![self.5.spec_serialize()] + self.5.serialized_records()));
            }
            if Self::walks_known() {
                assert(visitor.serialized_types() =~= old(visitor).serialized_types() + ((((((seq![A::spec_name()] + self.0.serialized_record_types()) + seq![B::spec_name()] + self.1.serialized_record_types()) + seq![C::spec_name()] + self.2.serialized_record_types()) + seq![D::spec_name()] + self.3.serialized_record_types()) + seq![E::spec_name()] + self.4.serialized_record_types()) + seq![F::spec_name()] + self.5.serialized_record_types()));
            }
        }
        G::record_encoding(visitor, self.6.__autarkie_serialize());
        proof {
            if Self::walks_known() && (Self::is_lawful() || Self::encodes_exactly()) {
                assert(visitor.serialized_bytes() =~= old(visitor).serialized_bytes() + (((((((seq![self.0.spec_serialize()] + self.0.serialized_records()) + seq![self.1.spec_serialize()] + self.1.serialized_records()) + seq![self.2.spec_serialize()] + self.2.serialized_records()) + seq![self.3.spec_serialize()] + self.3.serialized_records()) + seq![self.4.spec_serialize()] + self.4.serialized_records()) + seq![self.5.spec_serialize()] + self.5.serialized_records()) + seq![self.6.spec_serialize()]));
            }
            if Self::walks_known() {
                assert(visitor.serialized_types() =~= old(visitor).serialized_types() + (((((((seq![A::spec_name()] + self.0.serialized_record_types()) + seq![B::spec_name()] + self.1.serialized_record_types()) + seq![C::spec_name()] + self.2.serialized_record_types()) + seq![D::spec_name()] + self.3.serialized_record_types()) + seq![E::spec_name()] + self.4.serialized_record_types()) + seq![F::spec_name()] + self.5.serialized_record_types()) + seq![G::spec_name()]));
            }
        }
        self.6.__autarkie_serialized(visitor);
        proof {
            if Self::walks_known() && (Self::is_lawful() || Self::encodes_exactly()) {
                assert(visitor.serialized_bytes() =~= old(visitor).serialized_bytes() + (((((((seq![self.0.spec_serialize()] + self.0.serialized_records()) + seq![self.1.spec_serialize()] + self.1.serialized_records()) + seq![self.2.spec_serialize()] + self.2.serialized_records()) + seq![self.3.spec_serialize()] + self.3.serialized_records()) + seq![self.4.spec_serialize()] + self.4.serialized_records()) + seq![self.5.spec_serialize()] + self.5.serialized_records()) + seq![self.6.spec_serialize()] + self.6.serialized_records()));
            }
            if Self::walks_known() {
                assert(visitor.serialized_types() =~= old(visitor).serialized_types() + (((((((seq![A::spec_name()] + self.0.serialized_record_types()) + seq![B::spec_name()] + self.1.serialized_record_types()) + seq![C::spec_name()] + self.2.serialized_record_types()) + seq![D::spec_name()] + self.3.serialized_record_types()) + seq![E::spec_name()] + self.4.serialized_record_types()) + seq![F::spec_name()] + self.5.serialized_record_types()) + seq![G::spec_name()] + self.6.serialized_record_types()));
            }
        }
        H::record_encoding(visitor, self.7.__autarkie_serialize());
        proof {
            if Self::walks_known() && (Self::is_lawful() || Self::encodes_exactly()) {
                assert(visitor.serialized_bytes() =~= old(visitor).serialized_bytes() + ((((((((seq![self.0.spec_serialize()] + self.0.serialized_records()) + seq![self.1.spec_serialize()] + self.1.serialized_records()) + seq![self.2.spec_serialize()] + self.2.serialized_records()) + seq![self.3.spec_serialize()] + self.3.serialized_records()) + seq![self.4.spec_serialize()] + self.4.serialized_records()) + seq![self.5.spec_serialize()] + self.5.serialized_records()) + seq![self.6.spec_serialize()] + self.6.serialized_records()) + seq![self.7.spec_serialize()]));
            }
            if Self::walks_known() {
                assert(visitor.serialized_types() =~= old(visitor).serialized_types() + ((((((((seq![A::spec_name()] + self.0.serialized_record_types()) + seq![B::spec_name()] + self.1.serialized_record_types()) + seq![C::spec_name()] + self.2.serialized_record_types()) + seq![D::spec_name()] + self.3.serialized_record_types()) + seq![E::spec_name()] + self.4.serialized_record_types()) + seq![F::spec_name()] + self.5.serialized_record_types()) + seq![G::spec_name()] + self.6.serialized_record_types()) + seq![H::spec_name()]));
            }
        }
        self.7.__autarkie_serialized(visitor);
        proof {
            if Self::walks_known() && (Self::is_lawful() || Self::encodes_exactly()) {
                assert(visitor.serialized_bytes() =~= old(visitor).serialized_bytes() + ((((((((seq![self.0.spec_serialize()] + self.0.serialized_records()) + seq![self.1.spec_serialize()] + self.1.serialized_records()) + seq![self.2.spec_serialize()] + self.2.serialized_records()) + seq![self.3.spec_serialize()] + self.3.serialized_records()) + seq![self.4.spec_serialize()] + self.4.serialized_records()) + seq![self.5.spec_serialize()] + self.5.serialized_records()) + seq![self.6.spec_serialize()] + self.6.serialized_records()) + seq![self.7.spec_serialize()] + self.7.serialized_records()));
            }
            if Self::walks_known() {
                assert(visitor.serialized_types() =~= old(visitor).serialized_types() + ((((((((seq![A::spec_name()] + self.0.serialized_record_types()) + seq![B::spec_name()] + self.1.serialized_record_types()) + seq![C::spec_name()] + self.2.serialized_record_types()) + seq![D::spec_name()] + self.3.serialized_record_types()) + seq![E::spec_name()] + self.4.serialized_record_types()) + seq![F::spec_name()] + self.5.serialized_record_types()) + seq![G::spec_name()] + self.6.serialized_record_types()) + seq![H::spec_name()] + self.7.serialized_record_types()));
            }
        }
        I::record_encoding(visitor, self.8.__autarkie_serialize());
        proof {
            if Self::walks_known() && (Self::is_lawful() || Self::encodes_exactly()) {
                assert(visitor.serialized_bytes() =~= old(visitor).serialized_bytes() + (((((((((seq![self.0.spec_serialize()] + self.0.serialized_records()) + seq![self.1.spec_serialize()] + self.1.serialized_records()) + seq![self.2.spec_serialize()] + self.2.serialized_records()) + seq![self.3.spec_serialize()] + self.3.serialized_records()) + seq![self.4.spec_serialize()] + self.4.serialized_records()) + seq![self.5.spec_serialize()] + self.5.serialized_records()) + seq![self.6.spec_serialize()] + self.6.serialized_records()) + seq![self.7.spec_serialize()] + self.7.serialized_records()) + seq![self.8.spec_serialize()]));
            }
            if Self::walks_known() {
                assert(visitor.serialized_types() =~= old(visitor).serialized_types() + (((((((((seq![A::spec_name()] + self.0.serialized_record_types()) + seq![B::spec_name()] + self.1.serialized_record_types()) + seq![C::spec_name()] + self.2.serialized_record_types()) + seq![D::spec_name()] + self.3.serialized_record_types()) + seq![E::spec_name()] + self.4.serialized_record_types()) + seq![F::spec_name()] + self.5.serialized_record_types()) + seq![G::spec_name()] + self.6.serialized_record_types()) + seq![H::spec_name()] + self.7.serialized_record_types()) + seq![I::spec_name()]));
            }
        }
        self.8.__autarkie_serialized(visitor);
        proof {
            if Self::walks_known() && (Self::is_lawful() || Self::encodes_exactly()) {
                assert(visitor.serialized_bytes() =~= old(visitor).serialized_bytes() + (((((((((seq![self.0.spec_serialize()] + self.0.serialized_records()) + seq![self.1.spec_serialize()] + self.1.serialized_records()) + seq![self.2.spec_serialize()] + self.2.serialized_records()) + seq![self.3.spec_serialize()] + self.3.serialized_records()) + seq![self.4.spec_serialize()] + self.4.serialized_records()) + seq![self.5.spec_serialize()] + self.5.serialized_records()) + seq![self.6.spec_serialize()] + self.6.serialized_records()) + seq![self.7.spec_serialize()] + self.7.serialized_records()) + seq![self.8.spec_serialize()] + self.8.serialized_records()));
            }
            if Self::walks_known() {
                assert(visitor.serialized_types() =~= old(visitor).serialized_types() + (((((((((seq![A::spec_name()] + self.0.serialized_record_types()) + seq![B::spec_name()] + self.1.serialized_record_types()) + seq![C::spec_name()] + self.2.serialized_record_types()) + seq![D::spec_name()] + self.3.serialized_record_types()) + seq![E::spec_name()] + self.4.serialized_record_types()) + seq![F::spec_name()] + self.5.serialized_record_types()) + seq![G::spec_name()] + self.6.serialized_record_types()) + seq![H::spec_name()] + self.7.serialized_record_types()) + seq![I::spec_name()] + self.8.serialized_record_types()));
            }
        }
        J::record_encoding(visitor, self.9.__autarkie_serialize());
        proof {
            if Self::walks_known() && (Self::is_lawful() || Self::encodes_exactly()) {
                assert(visitor.serialized_bytes() =~= old(visitor).serialized_bytes() + ((((((((((seq![self.0.spec_serialize()] + self.0.serialized_records()) + seq![self.1.spec_serialize()] + self.1.serialized_records()) + seq![self.2.spec_serialize()] + self.2.serialized_records()) + seq![self.3.spec_serialize()] + self.3.serialized_records()) + seq![self.4.spec_serialize()] + self.4.serialized_records()) + seq![self.5.spec_serialize()] + self.5.serialized_records()) + seq![self.6.spec_serialize()] + self.6.serialized_records()) + seq![self.7.spec_serialize()] + self.7.serialized_records()) + seq![self.8.spec_serialize()] + self.8.serialized_records()) + seq![self.9.spec_serialize()]));
            }
            if Self::walks_known() {
                assert(visitor.serialized_types() =~= old(visitor).serialized_types() + ((((((((((seq![A::spec_name()] + self.0.serialized_record_types()) + seq![B::spec_name()] + self.1.serialized_record_types()) + seq![C::spec_name()] + self.2.serialized_record_types()) + seq![D::spec_name()] + self.3.serialized_record_types()) + seq![E::spec_name()] + self.4.serialized_record_types()) + seq![F::spec_name()] + self.5.serialized_record_types()) + seq![G::spec_name()] + self.6.serialized_record_types()) + seq![H::spec_name()] + self.7.serialized_record_types()) + seq![I::spec_name()] + self.8.serialized_record_types()) + seq![J::spec_name()]));
            }
        }
        self.9.__autarkie_serialized(visitor);
        proof {
            if Self::walks_known() && (Self::is_lawful() || Self::encodes_exactly()) {
                assert(visitor.serialized_bytes() =~= old(visitor).serialized_bytes() + ((((((((((seq![self.0.spec_serialize()] + self.0.serialized_records()) + seq![self.1.spec_serialize()] + self.1.serialized_records()) + seq![self.2.spec_serialize()] + self.2.serialized_records()) + seq![self.3.spec_serialize()] + self.3.serialized_records()) + seq![self.4.spec_serialize()] + self.4.serialized_records()) + seq![self.5.spec_serialize()] + self.5.serialized_records()) + seq![self.6.spec_serialize()] + self.6.serialized_records()) + seq![self.7.spec_serialize()] + self.7.serialized_records()) + seq![self.8.spec_serialize()] + self.8.serialized_records()) + seq![self.9.spec_serialize()] + self.9.serialized_records()));
            }
            if Self::walks_known() {
                assert(visitor.serialized_types() =~= old(visitor).serialized_types() + ((((((((((seq![A::spec_name()] + self.0.serialized_record_types()) + seq![B::spec_name()] + self.1.serialized_record_types()) + seq![C::spec_name()] + self.2.serialized_record_types()) + seq![D::spec_name()] + self.3.serialized_record_types()) + seq![E::spec_name()] + self.4.serialized_record_types()) + seq![F::spec_name()] + self.5.serialized_record_types()) + seq![G::spec_name()] + self.6.serialized_record_types()) + seq![H::spec_name()] + self.7.serialized_record_types()) + seq![I::spec_name()] + self.8.serialized_record_types()) + seq![J::spec_name()] + self.9.serialized_record_types()));
            }
        }
        K::record_encoding(visitor, self.10.__autarkie_serialize());
        proof {
            if Self::walks_known() && (Self::is_lawful() || Self::encodes_exactly()) {
                assert(visitor.serialized_bytes() =~= old(visitor).serialized_bytes() + (((((((((((seq![self.0.spec_serialize()] + self.0.serialized_records()) + seq![self.1.spec_serialize()] + self.1.serialized_records()) + seq![self.2.spec_serialize()] + self.2.serialized_records()) + seq![self.3.spec_serialize()] + self.3.serialized_records()) + seq![self.4.spec_serialize()] + self.4.serialized_records()) + seq![self.5.spec_serialize()] + self.5.serialized_records()) + seq![self.6.spec_serialize()] + self.6.serialized_records()) + seq![self.7.spec_serialize()] + self.7.serialized_records()) + seq![self.8.spec_serialize()] + self.8.serialized_records()) + seq![self.9.spec_serialize()] + self.9.serialized_records()) + seq![self.10.spec_serialize()]));
            }
            if Self::walks_known() {
                assert(visitor.serialized_types() =~= old(visitor).serialized_types() + (((((((((((seq![A::spec_name()] + self.0.serialized_record_types()) + seq![B::spec_name()] + self.1.serialized_record_types()) + seq![C::spec_name()] + self.2.serialized_record_types()) + seq![D::spec_name()] + self.3.serialized_record_types()) + seq![E::spec_name()] + self.4.serialized_record_types()) + seq![F::spec_name()] + self.5.serialized_record_types()) + seq![G::spec_name()] + self.6.serialized_record_types()) + seq![H::spec_name()] + self.7.serialized_record_types()) + seq![I::spec_name()] + self.8.serialized_record_types()) + seq![J::spec_name()] + self.9.serialized_record_types()) + seq![K::spec_name()]));
            }
        }
        self.10.__autarkie_serialized(visitor);
        proof {
            if Self::walks_known() && (Self::is_lawful() || Self::encodes_exactly()) {
                assert(visitor.serialized_bytes() =~= old(visitor).serialized_bytes() + (((((((((((seq![self.0.spec_serialize()] + self.0.serialized_records()) + seq![self.1.spec_serialize()] + self.1.serialized_records()) + seq![self.2.spec_serialize()] + self.2.serialized_records()) + seq![self.3.spec_serialize()] + self.3.serialized_records()) + seq![self.4.spec_serialize()] + self.4.serialized_records()) + seq![self.5.spec_serialize()] + self.5.serialized_records()) + seq![self.6.spec_serialize()] + self.6.serialized_records()) + seq![self.7.spec_serialize()] + self.7.serialized_records()) + seq![self.8.spec_serialize()] + self.8.serialized_records()) + seq![self.9.spec_serialize()] + self.9.serialized_records()) + seq![self.10.spec_serialize()] + self.10.serialized_records()));
            }
            if Self::walks_known() {
                assert(visitor.serialized_types() =~= old(visitor).serialized_types() + (((((((((((seq![A::spec_name()] + self.0.serialized_record_types()) + seq![B::spec_name()] + self.1.serialized_record_types()) + seq![C::spec_name()] + self.2.serialized_record_types()) + seq![D::spec_name()] + self.3.serialized_record_types()) + seq![E::spec_name()] + self.4.serialized_record_types()) + seq![F::spec_name()] + self.5.serialized_record_types()) + seq![G::spec_name()] + self.6.serialized_record_types()) + seq![H::spec_name()] + self.7.serialized_record_types()) + seq![I::spec_name()] + self.8.serialized_record_types()) + seq![J::spec_name()] + self.9.serialized_record_types()) + seq![K::spec_name()] + self.10.serialized_record_types()));
            }
        }
    }

    /// Enters each element as a field, at its position, and records its
    /// comparison operands.
    #[verifier::spinoff_prover]
    fn __autarkie_cmps(&self, visitor: &mut Visitor, index: usize, __autarkie_val: (u64, u64)) {
        let ghost p0 = *visitor;
        let id0 = A::enter_as_field(visitor, 0, NodeType::NonRecursive).1;
        let ghost e0 = *visitor;
        self.0.__autarkie_cmps(visitor, 0, __autarkie_val);
        let ghost i0 = *visitor;
        visitor.pop_field();
        proof {
            assert(field_entered(p0, ((0, NodeType::NonRecursive), id0), A::spec_name(), e0));
            assert(field_left(i0, *visitor));
            assert(walked_in_field(self.0, 0, A::spec_name(), 0, Some(__autarkie_val), p0, *visitor));
            if Self::walks_known() {
                assert(visitor.operands() =~= old(visitor).operands() + (self.0.comparison_operands(__autarkie_val)));
            }
        }
        let ghost p1 = *visitor;
        let id1 = B::enter_as_field(visitor, 1, NodeType::NonRecursive).1;
        let ghost e1 = *visitor;
        self.1.__autarkie_cmps(visitor, 0, __autarkie_val);
        let ghost i1 = *visitor;
        visitor.pop_field();
        proof {
            assert(field_entered(p1, ((1, NodeType::NonRecursive), id1), B::spec_name(), e1));
            assert(field_left(i1, *visitor));
            assert(walked_in_field(self.1, 1, B::spec_name(), 0, Some(__autarkie_val), p1, *visitor));
            if Self::walks_known() {
                assert(visitor.operands() =~= old(visitor).operands() + ((self.0.comparison_operands(__autarkie_val)) + self.1.comparison_operands(__autarkie_val)));
            }
        }
        let ghost p2 = *visitor;
        let id2 = C::enter_as_field(visitor, 2, NodeType::NonRecursive).1;
        let ghost e2 = *visitor;
        self.2.__autarkie_cmps(visitor, 0, __autarkie_val);
        let ghost i2 = *visitor;
        visitor.pop_field();
        proof {
            assert(field_entered(p2, ((2, NodeType::NonRecursive), id2), C::spec_name(), e2));
            assert(field_left(i2, *visitor));
            assert(walked_in_field(self.2, 2, C::spec_name(), 0, Some(__autarkie_val), p2, *visitor));
            if Self::walks_known() {
                assert(visitor.operands() =~= old(visitor).operands() + (((self.0.comparison_operands(__autarkie_val)) + self.1.comparison_operands(__autarkie_val)) + self.2.comparison_operands(__autarkie_val)));
            }
        }
        let ghost p3 = *visitor;
        let id3 = D::enter_as_field(visitor, 3, NodeType::NonRecursive).1;
        let ghost e3 = *visitor;
        self.3.__autarkie_cmps(visitor, 0, __autarkie_val);
        let ghost i3 = *visitor;
        visitor.pop_field();
        proof {
            assert(field_entered(p3, ((3, NodeType::NonRecursive), id3), D::spec_name(), e3));
            assert(field_left(i3, *visitor));
            assert(walked_in_field(self.3, 3, D::spec_name(), 0, Some(__autarkie_val), p3, *visitor));
            if Self::walks_known() {
                assert(visitor.operands() =~= old(visitor).operands() + ((((self.0.comparison_operands(__autarkie_val)) + self.1.comparison_operands(__autarkie_val)) + self.2.comparison_operands(__autarkie_val)) + self.3.comparison_operands(__autarkie_val)));
            }
        }
        let ghost p4 = *visitor;
        let id4 = E::enter_as_field(visitor, 4, NodeType::NonRecursive).1;
        let ghost e4 = *visitor;
        self.4.__autarkie_cmps(visitor, 0, __autarkie_val);
        let ghost i4 = *visitor;
        visitor.pop_field();
        proof {
            assert(field_entered(p4, ((4, NodeType::NonRecursive), id4), E::spec_name(), e4));
            assert(field_left(i4, *visitor));
            assert(walked_in_field(self.4, 4, E::spec_name(), 0, Some(__autarkie_val), p4, *visitor));
            if Self::walks_known() {
                assert(visitor.operands() =~= old(visitor).operands() + (((((self.0.comparison_operands(__autarkie_val)) + self.1.comparison_operands(__autarkie_val)) + self.2.comparison_operands(__autarkie_val)) + self.3.comparison_operands(__autarkie_val)) + self.4.comparison_operands(__autarkie_val)));
            }
        }
        let ghost p5 = *visitor;
        let id5 = F::enter_as_field(visitor, 5, NodeType::NonRecursive).1;
        let ghost e5 = *visitor;
        self.5.__autarkie_cmps(visitor, 0, __autarkie_val);
        let ghost i5 = *visitor;
        visitor.pop_field();
        proof {
            assert(field_entered(p5, ((5, NodeType::NonRecursive), id5), F::spec_name(), e5));
            assert(field_left(i5, *visitor));
            assert(walked_in_field(self.5, 5, F::spec_name(), 0, Some(__autarkie_val), p5, *visitor));
            if Self::walks_known() {
                assert(visitor.operands() =~= old(visitor).operands() + ((((((self.0.comparison_operands(__autarkie_val)) + self.1.comparison_operands(__autarkie_val)) + self.2.comparison_operands(__autarkie_val)) + self.3.comparison_operands(__autarkie_val)) + self.4.comparison_operands(__autarkie_val)) + self.5.comparison_operands(__autarkie_val)));
            }
        }
        let ghost p6 = *visitor;
        let id6 = G::enter_as_field(visitor, 6, NodeType::NonRecursive).1;
        let ghost e6 = *visitor;
        self.6.__autarkie_cmps(visitor, 0, __autarkie_val);
        let ghost i6 = *visitor;
        visitor.pop_field();
        proof {
            assert(field_entered(p6, ((6, NodeType::NonRecursive), id6), G::spec_name(), e6));
            assert(field_left(i6, *visitor));
            assert(walked_in_field(self.6, 6, G::spec_name(), 0, Some(__autarkie_val), p6, *visitor));
            if Self::walks_known() {
                assert(visitor.operands() =~= old(visitor).operands() + (((((((self.0.comparison_operands(__autarkie_val)) + self.1.comparison_operands(__autarkie_val)) + self.2.comparison_operands(__autarkie_val)) + self.3.comparison_operands(__autarkie_val)) + self.4.comparison_operands(__autarkie_val)) + self.5.comparison_operands(__autarkie_val)) + self.6.comparison_operands(__autarkie_val)));
            }
        }
        let ghost p7 = *visitor;
        let id7 = H::enter_as_field(visitor, 7, NodeType::NonRecursive).1;
        let ghost e7 = *visitor;
        self.7.__autarkie_cmps(visitor, 0, __autarkie_val);
        let ghost i7 = *visitor;
        visitor.pop_field();
        proof {
            assert(field_entered(p7, ((7, NodeType::NonRecursive), id7), H::spec_name(), e7));
            assert(field_left(i7, *visitor));
            assert(walked_in_field(self.7, 7, H::spec_name(), 0, Some(__autarkie_val), p7, *visitor));
            if Self::walks_known() {
                assert(visitor.operands() =~= old(visitor).operands() + ((((((((self.0.comparison_operands(__autarkie_val)) + self.1.comparison_operands(__autarkie_val)) + self.2.comparison_operands(__autarkie_val)) + self.3.comparison_operands(__autarkie_val)) + self.4.comparison_operands(__autarkie_val)) + self.5.comparison_operands(__autarkie_val)) + self.6.comparison_operands(__autarkie_val)) + self.7.comparison_operands(__autarkie_val)));
            }
        }
        let ghost p8 = *visitor;
        let id8 = I::enter_as_field(visitor, 8, NodeType::NonRecursive).1;
        let ghost e8 = *visitor;
        self.8.__autarkie_cmps(visitor, 0, __autarkie_val);
        let ghost i8 = *visitor;
        visitor.pop_field();
        proof {
            assert(field_entered(p8, ((8, NodeType::NonRecursive), id8), I::spec_name(), e8));
            assert(field_left(i8, *visitor));
            assert(walked_in_field(self.8, 8, I::spec_name(), 0, Some(__autarkie_val), p8, *visitor));
            if Self::walks_known() {
                assert(visitor.operands() =~= old(visitor).operands() + (((((((((self.0.comparison_operands(__autarkie_val)) + self.1.comparison_operands(__autarkie_val)) + self.2.comparison_operands(__autarkie_val)) + self.3.comparison_operands(__autarkie_val)) + self.4.comparison_operands(__autarkie_val)) + self.5.comparison_operands(__autarkie_val)) + self.6.comparison_operands(__autarkie_val)) + self.7.comparison_operands(__autarkie_val)) + self.8.comparison_operands(__autarkie_val)));
            }
        }
        let ghost p9 = *visitor;
        let id9 = J::enter_as_field(visitor, 9, NodeType::NonRecursive).1;
        let ghost e9 = *visitor;
        self.9.__autarkie_cmps(visitor, 0, __autarkie_val);
        let ghost i9 = *visitor;
        visitor.pop_field();
        proof {
            assert(field_entered(p9, ((9, NodeType::NonRecursive), id9), J::spec_name(), e9));
            assert(field_left(i9, *visitor));
            assert(walked_in_field(self.9, 9, J::spec_name(), 0, Some(__autarkie_val), p9, *visitor));
            if Self::walks_known() {
                assert(visitor.operands() =~= old(visitor).operands() + ((((((((((self.0.comparison_operands(__autarkie_val)) + self.1.comparison_operands(__autarkie_val)) + self.2.comparison_operands(__autarkie_val)) + self.3.comparison_operands(__autarkie_val)) + self.4.comparison_operands(__autarkie_val)) + self.5.comparison_operands(__autarkie_val)) + self.6.comparison_operands(__autarkie_val)) + self.7.comparison_operands(__autarkie_val)) + self.8.comparison_operands(__autarkie_val)) + self.9.comparison_operands(__autarkie_val)));
            }
        }
        let ghost p10 = *visitor;
        let id10 = K::enter_as_field(visitor, 10, NodeType::NonRecursive).1;
        let ghost e10 = *visitor;
        self.10.__autarkie_cmps(visitor, 0, __autarkie_val);
        let ghost i10 = *visitor;
        visitor.pop_field();
        proof {
            assert(field_entered(p10, ((10, NodeType::NonRecursive), id10), K::spec_name(), e10));
            assert(field_left(i10, *visitor));
            assert(walked_in_field(self.10, 10, K::spec_name(), 0, Some(__autarkie_val), p10, *visitor));
            if Self::walks_known() {
                assert(visitor.operands() =~= old(visitor).operands() + (((((((((((self.0.comparison_operands(__autarkie_val)) + self.1.comparison_operands(__autarkie_val)) + self.2.comparison_operands(__autarkie_val)) + self.3.comparison_operands(__autarkie_val)) + self.4.comparison_operands(__autarkie_val)) + self.5.comparison_operands(__autarkie_val)) + self.6.comparison_operands(__autarkie_val)) + self.7.comparison_operands(__autarkie_val)) + self.8.comparison_operands(__autarkie_val)) + self.9.comparison_operands(__autarkie_val)) + self.10.comparison_operands(__autarkie_val)));
            }
        }
    }

    fn __autarkie_serialize(&self) -> (r: Vec<u8>) {
        let mut out = self.10.__autarkie_serialize();
        let mut front = self.9.__autarkie_serialize();
        front.append(&mut out);
        out = front;
        let mut front = self.8.__autarkie_serialize();
        front.append(&mut out);
        out = front;
        let mut front = self.7.__autarkie_serialize();
        front.append(&mut out);
        out = front;
        let mut front = self.6.__autarkie_serialize();
        front.append(&mut out);
        out = front;
        let mut front = self.5.__autarkie_serialize();
        front.append(&mut out);
        out = front;
        let mut front = self.4.__autarkie_serialize();
        front.append(&mut out);
        out = front;
        let mut front = self.3.__autarkie_serialize();
        front.append(&mut out);
        out = front;
        let mut front = self.2.__autarkie_serialize();
        front.append(&mut out);
        out = front;
        let mut front = self.1.__autarkie_serialize();
        front.append(&mut out);
        out = front;
        let mut front = self.0.__autarkie_serialize();
        front.append(&mut out);
        out = front;
        out
    }

    /// Reads the elements in turn.
    #[verifier::spinoff_prover]
    #[verifier::rlimit(50)]
    fn __autarkie_deserialize(data: &[u8], pos: usize) -> (r: Option<(Self, usize)>) {
        proof {
            assert(data@.skip(pos as int) =~= data@.skip(pos as int));
        }
        proof {
            if Self::is_lawful() {
            assert forall|x: Self| #[trigger] x.spec_serialize().is_prefix_of(data@.skip(pos as int)) implies {
                &&& x.0.spec_serialize().is_prefix_of(data@.skip(pos as int))
                &&& (x.1.spec_serialize() + (x.2.spec_serialize() + (x.3.spec_serialize() + (x.4.spec_serialize() + (x.5.spec_serialize() + (x.6.spec_serialize() + (x.7.spec_serialize() + (x.8.spec_serialize() + (x.9.spec_serialize() + (x.10.spec_serialize())))))))))).is_prefix_of(data@.skip(pos + x.0.spec_serialize().len()))
            } by {
                lemma_tag_then(x.0.spec_serialize(), x.1.spec_serialize() + (x.2.spec_serialize() + (x.3.spec_serialize() + (x.4.spec_serialize() + (x.5.spec_serialize() + (x.6.spec_serialize() + (x.7.spec_serialize() + (x.8.spec_serialize() + (x.9.spec_serialize() + (x.10.spec_serialize()))))))))), data@.skip(pos as int));
                assert(data@.skip(pos as int).skip(x.0.spec_serialize().len() as int) =~= data@.skip(pos + x.0.spec_serialize().len()));
            }
            }
        }
        let (v0, e0) = match A::__autarkie_deserialize(data, pos) {
            Some(r) => r,
            None => {
                proof {
                    if Self::is_lawful() {
                    assert forall|x: Self| !#[trigger] x.spec_serialize().is_prefix_of(data@.skip(pos as int)) by {
                        if x.spec_serialize().is_prefix_of(data@.skip(pos as int)) {
                            assert(x.0.spec_serialize().is_prefix_of(data@.skip(pos as int)));
                        }
                    }
                    }
                }
                return None;
            },
        };
        proof {
            if Self::is_lawful() {
            assert forall|x: Self| #[trigger] x.spec_serialize().is_prefix_of(data@.skip(pos as int)) implies
                (x.1.spec_serialize() + (x.2.spec_serialize() + (x.3.spec_serialize() + (x.4.spec_serialize() + (x.5.spec_serialize() + (x.6.spec_serialize() + (x.7.spec_serialize() + (x.8.spec_serialize() + (x.9.spec_serialize() + (x.10.spec_serialize())))))))))).is_prefix_of(data@.skip(e0 as int)) by {
                assert(x.0.spec_serialize().is_prefix_of(data@.skip(pos as int)));
            }
            }
        }
        proof {
            if Self::is_lawful() {
            assert forall|x: Self| #[trigger] x.spec_serialize().is_prefix_of(data@.skip(pos as int)) implies {
                &&& x.1.spec_serialize().is_prefix_of(data@.skip(e0 as int))
                &&& (x.2.spec_serialize() + (x.3.spec_serialize() + (x.4.spec_serialize() + (x.5.spec_serialize() + (x.6.spec_serialize() + (x.7.spec_serialize() + (x.8.spec_serialize() + (x.9.spec_serialize() + (x.10.spec_serialize()))))))))).is_prefix_of(data@.skip(e0 + x.1.spec_serialize().len()))
            } by {
                lemma_tag_then(x.1.spec_serialize(), x.2.spec_serialize() + (x.3.spec_serialize() + (x.4.spec_serialize() + (x.5.spec_serialize() + (x.6.spec_serialize() + (x.7.spec_serialize() + (x.8.spec_serialize() + (x.9.spec_serialize() + (x.10.spec_serialize())))))))), data@.skip(e0 as int));
                assert(data@.skip(e0 as int).skip(x.1.spec_serialize().len() as int) =~= data@.skip(e0 + x.1.spec_serialize().len()));
            }
            }
        }
        let (v1, e1) = match B::__autarkie_deserialize(data, e0) {
            Some(r) => r,
            None => {
                proof {
                    if Self::is_lawful() {
                    assert forall|x: Self| !#[trigger] x.spec_serialize().is_prefix_of(data@.skip(pos as int)) by {
                        if x.spec_serialize().is_prefix_of(data@.skip(pos as int)) {
                            assert(x.1.spec_serialize().is_prefix_of(data@.skip(e0 as int)));
                        }
                    }
                    }
                }
                return None;
            },
        };
        proof {
            if Self::is_lawful() {
            assert forall|x: Self| #[trigger] x.spec_serialize().is_prefix_of(data@.skip(pos as int)) implies
                (x.2.spec_serialize() + (x.3.spec_serialize() + (x.4.spec_serialize() + (x.5.spec_serialize() + (x.6.spec_serialize() + (x.7.spec_serialize() + (x.8.spec_serialize() + (x.9.spec_serialize() + (x.10.spec_serialize()))))))))).is_prefix_of(data@.skip(e1 as int)) by {
                assert(x.1.spec_serialize().is_prefix_of(data@.skip(e0 as int)));
            }
            }
        }
        proof {
            if Self::is_lawful() {
            assert forall|x: Self| #[trigger] x.spec_serialize().is_prefix_of(data@.skip(pos as int)) implies {
                &&& x.2.spec_serialize().is_prefix_of(data@.skip(e1 as int))
                &&& (x.3.spec_serialize() + (x.4.spec_serialize() + (x.5.spec_serialize() + (x.6.spec_serialize() + (x.7.spec_serialize() + (x.8.spec_serialize() + (x.9.spec_serialize() + (x.10.spec_serialize())))))))).is_prefix_of(data@.skip(e1 + x.2.spec_serialize().len()))
            } by {
                lemma_tag_then(x.2.spec_serialize(), x.3.spec_serialize() + (x.4.spec_serialize() + (x.5.spec_serialize() + (x.6.spec_serialize() + (x.7.spec_serialize() + (x.8.spec_serialize() + (x.9.spec_serialize() + (x.10.spec_serialize()))))))), data@.skip(e1 as int));
                assert(data@.skip(e1 as int).skip(x.2.spec_serialize().len() as int) =~= data@.skip(e1 + x.2.spec_serialize().len()));
            }
            }
        }
        let (v2, e2) = match C::__autarkie_deserialize(data, e1) {
            Some(r) => r,
            None => {
                proof {
                    if Self::is_lawful() {
                    assert forall|x: Self| !#[trigger] x.spec_serialize().is_prefix_of(data@.skip(pos as int)) by {
                        if x.spec_serialize().is_prefix_of(data@.skip(pos as int)) {
                            assert(x.2.spec_serialize().is_prefix_of(data@.skip(e1 as int)));
                        }
                    }
                    }
                }
                return None;
            },
        };
        proof {
            if Self::is_lawful() {
            assert forall|x: Self| #[trigger] x.spec_serialize().is_prefix_of(data@.skip(pos as int)) implies
                (x.3.spec_serialize() + (x.4.spec_serialize() + (x.5.spec_serialize() + (x.6.spec_serialize() + (x.7.spec_serialize() + (x.8.spec_serialize() + (x.9.spec_serialize() + (x.10.spec_serialize())))))))).is_prefix_of(data@.skip(e2 as int)) by {
                assert(x.2.spec_serialize().is_prefix_of(data@.skip(e1 as int)));
            }
            }
        }
        proof {
            if Self::is_lawful() {
            assert forall|x: Self| #[trigger] x.spec_serialize().is_prefix_of(data@.skip(pos as int)) implies {
                &&& x.3.spec_serialize().is_prefix_of(data@.skip(e2 as int))
                &&& (x.4.spec_serialize() + (x.5.spec_serialize() + (x.6.spec_serialize() + (x.7.spec_serialize() + (x.8.spec_serialize() + (x.9.spec_serialize() + (x.10.spec_serialize()))))))).is_prefix_of(data@.skip(e2 + x.3.spec_serialize().len()))
            } by {
                lemma_tag_then(x.3.spec_serialize(), x.4.spec_serialize() + (x.5.spec_serialize() + (x.6.spec_serialize() + (x.7.spec_serialize() + (x.8.spec_serialize() + (x.9.spec_serialize() + (x.10.spec_serialize())))))), data@.skip(e2 as int));
                assert(data@.skip(e2 as int).skip(x.3.spec_serialize().len() as int) =~= data@.skip(e2 + x.3.spec_serialize().len()));
            }
            }
        }
        let (v3, e3) = match D::__autarkie_deserialize(data, e2) {
            Some(r) => r,
            None => {
                proof {
                    if Self::is_lawful() {
                    assert forall|x: Self| !#[trigger] x.spec_serialize().is_prefix_of(data@.skip(pos as int)) by {
                        if x.spec_serialize().is_prefix_of(data@.skip(pos as int)) {
                            assert(x.3.spec_serialize().is_prefix_of(data@.skip(e2 as int)));
                        }
                    }
                    }
                }
                return None;
            },
        };
        proof {
            if Self::is_lawful() {
            assert forall|x: Self| #[trigger] x.spec_serialize().is_prefix_of(data@.skip(pos as int)) implies
                (x.4.spec_serialize() + (x.5.spec_serialize() + (x.6.spec_serialize() + (x.7.spec_serialize() + (x.8.spec_serialize() + (x.9.spec_serialize() + (x.10.spec_serialize()))))))).is_prefix_of(data@.skip(e3 as int)) by {
                assert(x.3.spec_serialize().is_prefix_of(data@.skip(e2 as int)));
            }
            }
        }
        proof {
            if Self::is_lawful() {
            assert forall|x: Self| #[trigger] x.spec_serialize().is_prefix_of(data@.skip(pos as int)) implies {
                &&& x.4.spec_serialize().is_prefix_of(data@.skip(e3 as int))
                &&& (x.5.spec_serialize() + (x.6.spec_serialize() + (x.7.spec_serialize() + (x.8.spec_serialize() + (x.9.spec_serialize() + (x.10.spec_serialize())))))).is_prefix_of(data@.skip(e3 + x.4.spec_serialize().len()))
            } by {
                lemma_tag_then(x.4.spec_serialize(), x.5.spec_serialize() + (x.6.spec_serialize() + (x.7.spec_serialize() + (x.8.spec_serialize() + (x.9.spec_serialize() + (x.10.spec_serialize()))))), data@.skip(e3 as int));
                assert(data@.skip(e3 as int).skip(x.4.spec_serialize().len() as int) =~= data@.skip(e3 + x.4.spec_serialize().len()));
            }
            }
        }
        let (v4, e4) = match E::__autarkie_deserialize(data, e3) {
            Some(r) => r,
            None => {
                proof {
                    if Self::is_lawful() {
                    assert forall|x: Self| !#[trigger] x.spec_serialize().is_prefix_of(data@.skip(pos as int)) by {
                        if x.spec_serialize().is_prefix_of(data@.skip(pos as int)) {
                            assert(x.4.spec_serialize().is_prefix_of(data@.skip(e3 as int)));
                        }
                    }
                    }
                }
                return None;
            },
        };
        proof {
            if Self::is_lawful() {
            assert forall|x: Self| #[trigger] x.spec_serialize().is_prefix_of(data@.skip(pos as int)) implies
                (x.5.spec_serialize() + (x.6.spec_serialize() + (x.7.spec_serialize() + (x.8.spec_serialize() + (x.9.spec_serialize() + (x.10.spec_serialize())))))).is_prefix_of(data@.skip(e4 as int)) by {
                assert(x.4.spec_serialize().is_prefix_of(data@.skip(e3 as int)));
            }
            }
        }
        proof {
            if Self::is_lawful() {
            assert forall|x: Self| #[trigger] x.spec_serialize().is_prefix_of(data@.skip(pos as int)) implies {
                &&& x.5.spec_serialize().is_prefix_of(data@.skip(e4 as int))
                &&& (x.6.spec_serialize() + (x.7.spec_serialize() + (x.8.spec_serialize() + (x.9.spec_serialize() + (x.10.spec_serialize()))))).is_prefix_of(data@.skip(e4 + x.5.spec_serialize().len()))
            } by {
                lemma_tag_then(x.5.spec_serialize(), x.6.spec_serialize() + (x.7.spec_serialize() + (x.8.spec_serialize() + (x.9.spec_serialize() + (x.10.spec_serialize())))), data@.skip(e4 as int));
                assert(data@.skip(e4 as int).skip(x.5.spec_serialize().len() as int) =~= data@.skip(e4 + x.5.spec_serialize().len()));
            }
            }
        }
        let (v5, e5) = match F::__autarkie_deserialize(data, e4) {
            Some(r) => r,
            None => {
                proof {
                    if Self::is_lawful() {
                    assert forall|x: Self| !#[trigger] x.spec_serialize().is_prefix_of(data@.skip(pos as int)) by {
                        if x.spec_serialize().is_prefix_of(data@.skip(pos as int)) {
                            assert(x.5.spec_serialize().is_prefix_of(data@.skip(e4 as int)));
                        }
                    }
                    }
                }
                return None;
            },
        };
        proof {
            if Self::is_lawful() {
            assert forall|x: Self| #[trigger] x.spec_serialize().is_prefix_of(data@.skip(pos as int)) implies
                (x.6.spec_serialize() + (x.7.spec_serialize() + (x.8.spec_serialize() + (x.9.spec_serialize() + (x.10.spec_serialize()))))).is_prefix_of(data@.skip(e5 as int)) by {
                assert(x.5.spec_serialize().is_prefix_of(data@.skip(e4 as int)));
            }
            }
        }
        proof {
            if Self::is_lawful() {
            assert forall|x: Self| #[trigger] x.spec_serialize().is_prefix_of(data@.skip(pos as int)) implies {
                &&& x.6.spec_serialize().is_prefix_of(data@.skip(e5 as int))
                &&& (x.7.spec_serialize() + (x.8.spec_serialize() + (x.9.spec_serialize() + (x.10.spec_serialize())))).is_prefix_of(data@.skip(e5 + x.6.spec_serialize().len()))
            } by {
                lemma_tag_then(x.6.spec_serialize(), x.7.spec_serialize() + (x.8.spec_serialize() + (x.9.spec_serialize() + (x.10.spec_serialize()))), data@.skip(e5 as int));
                assert(data@.skip(e5 as int).skip(x.6.spec_serialize().len() as int) =~= data@.skip(e5 + x.6.spec_serialize().len()));
            }
            }
        }
        let (v6, e6) = match G::__autarkie_deserialize(data, e5) {
            Some(r) => r,
            None => {
                proof {
                    if Self::is_lawful() {
                    assert forall|x: Self| !#[trigger] x.spec_serialize().is_prefix_of(data@.skip(pos as int)) by {
                        if x.spec_serialize().is_prefix_of(data@.skip(pos as int)) {
                            assert(x.6.spec_serialize().is_prefix_of(data@.skip(e5 as int)));
                        }
                    }
                    }
                }
                return None;
            },
        };
        proof {
            if Self::is_lawful() {
            assert forall|x: Self| #[trigger] x.spec_serialize().is_prefix_of(data@.skip(pos as int)) implies
                (x.7.spec_serialize() + (x.8.spec_serialize() + (x.9.spec_serialize() + (x.10.spec_serialize())))).is_prefix_of(data@.skip(e6 as int)) by {
                assert(x.6.spec_serialize().is_prefix_of(data@.skip(e5 as int)));
            }
            }
        }
        proof {
            if Self::is_lawful() {
            assert forall|x: Self| #[trigger] x.spec_serialize().is_prefix_of(data@.skip(pos as int)) implies {
                &&& x.7.spec_serialize().is_prefix_of(data@.skip(e6 as int))
                &&& (x.8.spec_serialize() + (x.9.spec_serialize() + (x.10.spec_serialize()))).is_prefix_of(data@.skip(e6 + x.7.spec_serialize().len()))
            } by {
                lemma_tag_then(x.7.spec_serialize(), x.8.spec_serialize() + (x.9.spec_serialize() + (x.10.spec_serialize())), data@.skip(e6 as int));
                assert(data@.skip(e6 as int).skip(x.7.spec_serialize().len() as int) =~= data@.skip(e6 + x.7.spec_serialize().len()));
            }
            }
        }
        let (v7, e7) = match H::__autarkie_deserialize(data, e6) {
            Some(r) => r,
            None => {
                proof {
                    if Self::is_lawful() {
                    assert forall|x: Self| !#[trigger] x.spec_serialize().is_prefix_of(data@.skip(pos as int)) by {
                        if x.spec_serialize().is_prefix_of(data@.skip(pos as int)) {
                            assert(x.7.spec_serialize().is_prefix_of(data@.skip(e6 as int)));
                        }
                    }
                    }
                }
                return None;
            },
        };
        proof {
            if Self::is_lawful() {
            assert forall|x: Self| #[trigger] x.spec_serialize().is_prefix_of(data@.skip(pos as int)) implies
                (x.8.spec_serialize() + (x.9.spec_serialize() + (x.10.spec_serialize()))).is_prefix_of(data@.skip(e7 as int)) by {
                assert(x.7.spec_serialize().is_prefix_of(data@.skip(e6 as int)));
            }
            }
        }
        proof {
            if Self::is_lawful() {
            assert forall|x: Self| #[trigger] x.spec_serialize().is_prefix_of(data@.skip(pos as int)) implies {
                &&& x.8.spec_serialize().is_prefix_of(data@.skip(e7 as int))
                &&& (x.9.spec_serialize() + (x.10.spec_serialize())).is_prefix_of(data@.skip(e7 + x.8.spec_serialize().len()))
            } by {
                lemma_tag_then(x.8.spec_serialize(), x.9.spec_serialize() + (x.10.spec_serialize()), data@.skip(e7 as int));
                assert(data@.skip(e7 as int).skip(x.8.spec_serialize().len() as int) =~= data@.skip(e7 + x.8.spec_serialize().len()));
            }
            }
        }
        let (v8, e8) = match I::__autarkie_deserialize(data, e7) {
            Some(r) => r,
            None => {
                proof {
                    if Self::is_lawful() {
                    assert forall|x: Self| !#[trigger] x.spec_serialize().is_prefix_of(data@.skip(pos as int)) by {
                        if x.spec_serialize().is_prefix_of(data@.skip(pos as int)) {
                            assert(x.8.spec_serialize().is_prefix_of(data@.skip(e7 as int)));
                        }
                    }
                    }
                }
                return None;
            },
        };
        proof {
            if Self::is_lawful() {
            assert forall|x: Self| #[trigger] x.spec_serialize().is_prefix_of(data@.skip(pos as int)) implies
                (x.9.spec_serialize() + (x.10.spec_serialize())).is_prefix_of(data@.skip(e8 as int)) by {
                assert(x.8.spec_serialize().is_prefix_of(data@.skip(e7 as int)));
            }
            }
        }
        proof {
            if Self::is_lawful() {
            assert forall|x: Self| #[trigger] x.spec_serialize().is_prefix_of(data@.skip(pos as int)) implies {
                &&& x.9.spec_serialize().is_prefix_of(data@.skip(e8 as int))
                &&& (x.10.spec_serialize()).is_prefix_of(data@.skip(e8 + x.9.spec_serialize().len()))
            } by {
                lemma_tag_then(x.9.spec_serialize(), x.10.spec_serialize(), data@.skip(e8 as int));
                assert(data@.skip(e8 as int).skip(x.9.spec_serialize().len() as int) =~= data@.skip(e8 + x.9.spec_serialize().len()));
            }
            }
        }
        let (v9, e9) = match J::__autarkie_deserialize(data, e8) {
            Some(r) => r,
            None => {
                proof {
                    if Self::is_lawful() {
                    assert forall|x: Self| !#[trigger] x.spec_serialize().is_prefix_of(data@.skip(pos as int)) by {
                        if x.spec_serialize().is_prefix_of(data@.skip(pos as int)) {
                            assert(x.9.spec_serialize().is_prefix_of(data@.skip(e8 as int)));
                        }
                    }
                    }
                }
                return None;
            },
        };
        proof {
            if Self::is_lawful() {
            assert forall|x: Self| #[trigger] x.spec_serialize().is_prefix_of(data@.skip(pos as int)) implies
                (x.10.spec_serialize()).is_prefix_of(data@.skip(e9 as int)) by {
                assert(x.9.spec_serialize().is_prefix_of(data@.skip(e8 as int)));
            }
            }
        }
        let (v10, e10) = match K::__autarkie_deserialize(data, e9) {
            Some(r) => r,
            None => {
                proof {
                    if Self::is_lawful() {
                    assert forall|x: Self| !#[trigger] x.spec_serialize().is_prefix_of(data@.skip(pos as int)) by {
                        if x.spec_serialize().is_prefix_of(data@.skip(pos as int)) {
                            assert(x.10.spec_serialize().is_prefix_of(data@.skip(e9 as int)));
                        }
                    }
                    }
                }
                return None;
            },
        };
        let r = (v0, v1, v2, v3, v4, v5, v6, v7, v8, v9, v10);
        proof {
            if Self::is_lawful() {
            assert forall|x: Self| #[trigger] x.spec_serialize().is_prefix_of(data@.skip(pos as int)) implies
                r.spec_serialize() == x.spec_serialize() && e10 == pos + x.spec_serialize().len() by {
                assert(x.0.spec_serialize().is_prefix_of(data@.skip(pos as int)));
                assert(v0.spec_serialize() == x.0.spec_serialize());
                assert(x.1.spec_serialize().is_prefix_of(data@.skip(e0 as int)));
                assert(v1.spec_serialize() == x.1.spec_serialize());
                assert(x.2.spec_serialize().is_prefix_of(data@.skip(e1 as int)));
                assert(v2.spec_serialize() == x.2.spec_serialize());
                assert(x.3.spec_serialize().is_prefix_of(data@.skip(e2 as int)));
                assert(v3.spec_serialize() == x.3.spec_serialize());
                assert(x.4.spec_serialize().is_prefix_of(data@.skip(e3 as int)));
                assert(v4.spec_serialize() == x.4.spec_serialize());
                assert(x.5.spec_serialize().is_prefix_of(data@.skip(e4 as int)));
                assert(v5.spec_serialize() == x.5.spec_serialize());
                assert(x.6.spec_serialize().is_prefix_of(data@.skip(e5 as int)));
                assert(v6.spec_serialize() == x.6.spec_serialize());
                assert(x.7.spec_serialize().is_prefix_of(data@.skip(e6 as int)));
                assert(v7.spec_serialize() == x.7.spec_serialize());
                assert(x.8.spec_serialize().is_prefix_of(data@.skip(e7 as int)));
                assert(v8.spec_serialize() == x.8.spec_serialize());
                assert(x.9.spec_serialize().is_prefix_of(data@.skip(e8 as int)));
                assert(v9.spec_serialize() == x.9.spec_serialize());
                assert(x.10.spec_serialize().is_prefix_of(data@.skip(e9 as int)));
                assert(v10.spec_serialize() == x.10.spec_serialize());
            }
            }
        }
        Some((r, e10))
    }

    fn __autarkie_id_name() -> (r: String) {
        let mut r = "(".to_owned();
        let n0 = A::__autarkie_id_name();
        r.append(n0.as_str());
        r.append(", ");
        let n1 = B::__autarkie_id_name();
        r.append(n1.as_str());
        r.append(", ");
        let n2 = C::__autarkie_id_name();
        r.append(n2.as_str());
        r.append(", ");
        let n3 = D::__autarkie_id_name();
        r.append(n3.as_str());
        r.append(", ");
        let n4 = E::__autarkie_id_name();
        r.append(n4.as_str());
        r.append(", ");
        let n5 = F::__autarkie_id_name();
        r.append(n5.as_str());
        r.append(", ");
        let n6 = G::__autarkie_id_name();
        r.append(n6.as_str());
        r.append(", ");
        let n7 = H::__autarkie_id_name();
        r.append(n7.as_str());
        r.append(", ");
        let n8 = I::__autarkie_id_name();
        r.append(n8.as_str());
        r.append(", ");
        let n9 = J::__autarkie_id_name();
        r.append(n9.as_str());
        r.append(", ");
        let n10 = K::__autarkie_id_name();
        r.append(n10.as_str());
        r.append(")");
        assert(r@ == Self::spec_name());
        r
    }
}

/// Whether generating the elements of `t` in turn, each with no settings,
/// from the visitor `before`, can give them and leave `after`.
pub open spec fn elements_12_generated<A: Node, B: Node, C: Node, D: Node, E: Node, F: Node, G: Node, H: Node, I: Node, J: Node, K: Node, L: Node>(before: Visitor, t: (A, B, C, D, E, F, G, H, I, J, K, L), after: Visitor) -> bool {
    exists|g0: Visitor, g1: Visitor, g2: Visitor, g3: Visitor, g4: Visitor, g5: Visitor, g6: Visitor, g7: Visitor, g8: Visitor, g9: Visitor, g10: Visitor|
            #![trigger A::generation(before, None, Some(t.0), g0), B::generation(g0, None, Some(t.1), g1), C::generation(g1, None, Some(t.2), g2), D::generation(g2, None, Some(t.3), g3), E::generation(g3, None, Some(t.4), g4), F::generation(g4, None, Some(t.5), g5), G::generation(g5, None, Some(t.6), g6), H::generation(g6, None, Some(t.7), g7), I::generation(g7, None, Some(t.8), g8), J::generation(g8, None, Some(t.9), g9), K::generation(g9, None, Some(t.10), g10), L::generation(g10, None, Some(t.11), after)]
            A::generation(before, None, Some(t.0), g0)
                && B::generation(g0, None, Some(t.1), g1)
                && C::generation(g1, None, Some(t.2), g2)
                && D::generation(g2, None, Some(t.3), g3)
                && E::generation(g3, None, Some(t.4), g4)
                && F::generation(g4, None, Some(t.5), g5)
                && G::generation(g5, None, Some(t.6), g6)
                && H::generation(g6, None, Some(t.7), g7)
                && I::generation(g7, None, Some(t.8), g8)
                && J::generation(g8, None, Some(t.9), g9)
                && K::generation(g9, None, Some(t.10), g10)
                && L::generation(g10, None, Some(t.11), after)
}

impl<A: Node, B: Node, C: Node, D: Node, E: Node, F: Node, G: Node, H: Node, I: Node, J: Node, K: Node, L: Node> Node for (A, B, C, D, E, F, G, H, I, J, K, L) {
    open spec fn spec_serialize(&self) -> Seq<u8> {
        self.0.spec_serialize() + (self.1.spec_serialize() + (self.2.spec_serialize() + (self.3.spec_serialize() + (self.4.spec_serialize() + (self.5.spec_serialize() + (self.6.spec_serialize() + (self.7.spec_serialize() + (self.8.spec_serialize() + (self.9.spec_serialize() + (self.10.spec_serialize() + (self.11.spec_serialize())))))))))))
    }

    open spec fn spec_name() -> Seq<char> {
        "("@ + A::spec_name() + ", "@ + B::spec_name() + ", "@ + C::spec_name() + ", "@ + D::spec_name() + ", "@ + E::spec_name() + ", "@ + F::spec_name() + ", "@ + G::spec_name() + ", "@ + H::spec_name() + ", "@ + I::spec_name() + ", "@ + J::spec_name() + ", "@ + K::spec_name() + ", "@ + L::spec_name() + ")"@
    }

    open spec fn is_lawful() -> bool {
        A::is_lawful() && B::is_lawful() && C::is_lawful() && D::is_lawful() && E::is_lawful() && F::is_lawful() && G::is_lawful() && H::is_lawful() && I::is_lawful() && J::is_lawful() && K::is_lawful() && L::is_lawful()
    }

    open spec fn read_ok(bytes: Seq<u8>) -> bool {
        Self::is_lawful() && exists|x: Self| #[trigger] x.spec_serialize().is_prefix_of(bytes)
    }

    /// For a lawful type, a value read encodes as the start of the bytes,
    /// as any value whose encoding starts them does.
    open spec fn reading(bytes: Seq<u8>, v: Self) -> bool {
        Self::is_lawful() ==> {
            &&& v.spec_serialize().is_prefix_of(bytes)
            &&& forall|x: Self| #[trigger] x.spec_serialize().is_prefix_of(bytes) ==> v.spec_serialize()
                == x.spec_serialize()
        }
    }

    open spec fn encodes_exactly() -> bool {
        A::encodes_exactly() && B::encodes_exactly() && C::encodes_exactly() && D::encodes_exactly() && E::encodes_exactly() && F::encodes_exactly() && G::encodes_exactly() && H::encodes_exactly() && I::encodes_exactly() && J::encodes_exactly() && K::encodes_exactly() && L::encodes_exactly()
    }

    open spec fn walks_known() -> bool {
        A::walks_known() && B::walks_known() && C::walks_known() && D::walks_known() && E::walks_known() && F::walks_known() && G::walks_known() && H::walks_known() && I::walks_known() && J::walks_known() && K::walks_known() && L::walks_known()
    }

    open spec fn node_shape(&self, shape: NodeType) -> bool {
        shape == NodeType::NonRecursive
    }

    /// A node with fixed fields.
    fn __autarkie_node_ty(&self, visitor: &Visitor) -> (r: NodeType) {
        NodeType::NonRecursive
    }

    /// Along a path, the element at its first index is mutated along the
    /// rest of it and the others are kept; at its end, the tuple is replaced.
    open spec fn mutation(&self, ty: &MutationType, path: Seq<usize>, before: Visitor, after: Self, after_v: Visitor) -> bool {
        if path.len() > 0 {
            if path[0] == 0 {
                after.1 == self.1 && after.2 == self.2 && after.3 == self.3 && after.4 == self.4 && after.5 == self.5 && after.6 == self.6 && after.7 == self.7 && after.8 == self.8 && after.9 == self.9 && after.10 == self.10 && after.11 == self.11 && self.0.mutation(ty, path.drop_first(), before, after.0, after_v)
            } else if path[0] == 1 {
                after.0 == self.0 && after.2 == self.2 && after.3 == self.3 && after.4 == self.4 && after.5 == self.5 && after.6 == self.6 && after.7 == self.7 && after.8 == self.8 && after.9 == self.9 && after.10 == self.10 && after.11 == self.11 && self.1.mutation(ty, path.drop_first(), before, after.1, after_v)
            } else if path[0] == 2 {
                after.0 == self.0 && after.1 == self.1 && after.3 == self.3 && after.4 == self.4 && after.5 == self.5 && after.6 == self.6 && after.7 == self.7 && after.8 == self.8 && after.9 == self.9 && after.10 == self.10 && after.11 == self.11 && self.2.mutation(ty, path.drop_first(), before, after.2, after_v)
            } else if path[0] == 3 {
                after.0 == self.0 && after.1 == self.1 && after.2 == self.2 && after.4 == self.4 && after.5 == self.5 && after.6 == self.6 && after.7 == self.7 && after.8 == self.8 && after.9 == self.9 && after.10 == self.10 && after.11 == self.11 && self.3.mutation(ty, path.drop_first(), before, after.3, after_v)
            } else if path[0] == 4 {
                after.0 == self.0 && after.1 == self.1 && after.2 == self.2 && after.3 == self.3 && after.5 == self.5 && after.6 == self.6 && after.7 == self.7 && after.8 == self.8 && after.9 == self.9 && after.10 == self.10 && after.11 == self.11 && self.4.mutation(ty, path.drop_first(), before, after.4, after_v)
            } else if path[0] == 5 {
                after.0 == self.0 && after.1 == self.1 && after.2 == self.2 && after.3 == self.3 && after.4 == self.4 && after.6 == self.6 && after.7 == self.7 && after.8 == self.8 && after.9 == self.9 && after.10 == self.10 && after.11 == self.11 && self.5.mutation(ty, path.drop_first(), before, after.5, after_v)
            } else if path[0] == 6 {
                after.0 == self.0 && after.1 == self.1 && after.2 == self.2 && after.3 == self.3 && after.4 == self.4 && after.5 == self.5 && after.7 == self.7 && after.8 == self.8 && after.9 == self.9 && after.10 == self.10 && after.11 == self.11 && self.6.mutation(ty, path.drop_first(), before, after.6, after_v)
            } else if path[0] == 7 {
                after.0 == self.0 && after.1 == self.1 && after.2 == self.2 && after.3 == self.3 && after.4 == self.4 && after.5 == self.5 && after.6 == self.6 && after.8 == self.8 && after.9 == self.9 && after.10 == self.10 && after.11 == self.11 && self.7.mutation(ty, path.drop_first(), before, after.7, after_v)
            } else if path[0] == 8 {
                after.0 == self.0 && after.1 == self.1 && after.2 == self.2 && after.3 == self.3 && after.4 == self.4 && after.5 == self.5 && after.6 == self.6 && after.7 == self.7 && after.9 == self.9 && after.10 == self.10 && after.11 == self.11 && self.8.mutation(ty, path.drop_first(), before, after.8, after_v)
            } else if path[0] == 9 {
                after.0 == self.0 && after.1 == self.1 && after.2 == self.2 && after.3 == self.3 && after.4 == self.4 && after.5 == self.5 && after.6 == self.6 && after.7 == self.7 && after.8 == self.8 && after.10 == self.10 && after.11 == self.11 && self.9.mutation(ty, path.drop_first(), before, after.9, after_v)
            } else if path[0] == 10 {
                after.0 == self.0 && after.1 == self.1 && after.2 == self.2 && after.3 == self.3 && after.4 == self.4 && after.5 == self.5 && after.6 == self.6 && after.7 == self.7 && after.8 == self.8 && after.9 == self.9 && after.11 == self.11 && self.10.mutation(ty, path.drop_first(), before, after.10, after_v)
            } else if path[0] == 11 {
                after.0 == self.0 && after.1 == self.1 && after.2 == self.2 && after.3 == self.3 && after.4 == self.4 && after.5 == self.5 && after.6 == self.6 && after.7 == self.7 && after.8 == self.8 && after.9 == self.9 && after.10 == self.10 && self.11.mutation(ty, path.drop_first(), before, after.11, after_v)
            } else {
                false
            }
        } else {
            match *ty {
                MutationType::Splice(b) => {
                    &&& after_v == before
                    &&& Self::is_lawful() ==> forall|x: Self| #[trigger] x.spec_serialize().is_prefix_of((**b)@)
                        ==> after.spec_serialize() == x.spec_serialize()
                },
                _ => {
                    ||| after == *self && Self::generation(before, None, None, after_v)
                    ||| exists|generated: Visitor| {
                        &&& #[trigger] Self::generation(before, None, Some(after), generated)
                        &&& after_v.keeps_state(&generated)
                        &&& after_v.fields() == generated.fields()
                        &&& after_v.operands() == generated.operands()
                        &&& after_v.serialized().len() > generated.serialized().len()
                        &&& after_v.serialized_types().len() > generated.serialized_types().len()
                        &&& after_v.serialized_types().last() == Self::spec_name()
                        &&& Self::encodes_exactly() ==> after_v.serialized().last().0 == after.spec_serialize()
                        &&& Self::walks_known() && Self::encodes_exactly() ==> after_v.serialized_bytes()
                            == generated.serialized_bytes() + after.serialized_records() + seq![after.spec_serialize()]
                    }
                },
            }
        }
    }

    open spec fn first_name_ok(name: Seq<char>) -> bool {
        false
    }

    open spec fn always_generates() -> bool {
        A::always_generates() && B::always_generates() && C::always_generates() && D::always_generates() && E::always_generates() && F::always_generates() && G::always_generates() && H::always_generates() && I::always_generates() && J::always_generates() && K::always_generates() && L::always_generates()
    }

    /// Each element is what generating its type in turn gives; generation
    /// gives up at the first element that could not be generated.
    open spec fn generation(before: Visitor, settings: Option<GenerateSettings>, r: Option<Self>, after: Visitor) -> bool {
        &&& after.draws_only(&before)
        &&& r matches Some(t) ==> elements_12_generated(before, t, after)
    }

    open spec fn field_count(&self) -> nat {
        (1 + self.0.field_count()) + (1 + self.1.field_count()) + (1 + self.2.field_count()) + (1 + self.3.field_count()) + (1 + self.4.field_count()) + (1 + self.5.field_count()) + (1 + self.6.field_count()) + (1 + self.7.field_count()) + (1 + self.8.field_count()) + (1 + self.9.field_count()) + (1 + self.10.field_count()) + (1 + self.11.field_count())
    }

    open spec fn comparison_operands(&self, __autarkie_val: (u64, u64)) -> Seq<Seq<u8>> {
        (((((((((((self.0.comparison_operands(__autarkie_val)) + self.1.comparison_operands(__autarkie_val)) + self.2.comparison_operands(__autarkie_val)) + self.3.comparison_operands(__autarkie_val)) + self.4.comparison_operands(__autarkie_val)) + self.5.comparison_operands(__autarkie_val)) + self.6.comparison_operands(__autarkie_val)) + self.7.comparison_operands(__autarkie_val)) + self.8.comparison_operands(__autarkie_val)) + self.9.comparison_operands(__autarkie_val)) + self.10.comparison_operands(__autarkie_val)) + self.11.comparison_operands(__autarkie_val)
    }

    open spec fn serialized_records(&self) -> Seq<Seq<u8>> {
        (((((((((((seq![self.0.spec_serialize()] + self.0.serialized_records()) + seq![self.1.spec_serialize()] + self.1.serialized_records()) + seq![self.2.spec_serialize()] + self.2.serialized_records()) + seq![self.3.spec_serialize()] + self.3.serialized_records()) + seq![self.4.spec_serialize()] + self.4.serialized_records()) + seq![self.5.spec_serialize()] + self.5.serialized_records()) + seq![self.6.spec_serialize()] + self.6.serialized_records()) + seq![self.7.spec_serialize()] + self.7.serialized_records()) + seq![self.8.spec_serialize()] + self.8.serialized_records()) + seq![self.9.spec_serialize()] + self.9.serialized_records()) + seq![self.10.spec_serialize()] + self.10.serialized_records()) + seq![self.11.spec_serialize()] + self.11.serialized_records()
    }

    open spec fn serialized_record_types(&self) -> Seq<Seq<char>> {
        (((((((((((seq![A::spec_name()] + self.0.serialized_record_types()) + seq![B::spec_name()] + self.1.serialized_record_types()) + seq![C::spec_name()] + self.2.serialized_record_types()) + seq![D::spec_name()] + self.3.serialized_record_types()) + seq![E::spec_name()] + self.4.serialized_record_types()) + seq![F::spec_name()] + self.5.serialized_record_types()) + seq![G::spec_name()] + self.6.serialized_record_types()) + seq![H::spec_name()] + self.7.serialized_record_types()) + seq![I::spec_name()] + self.8.serialized_record_types()) + seq![J::spec_name()] + self.9.serialized_record_types()) + seq![K::spec_name()] + self.10.serialized_record_types()) + seq![L::spec_name()] + self.11.serialized_record_types()
    }

    open spec fn generate_ok(settings: GenerateSettings, rng: u64) -> bool {
        true
    }

    open spec fn mutate_ok(&self, ty: &MutationType, path: Seq<usize>) -> bool {
        if path.len() > 0 {
            (path[0] == 0 && self.0.mutate_ok(ty, path.drop_first())) || (path[0] == 1 && self.1.mutate_ok(ty, path.drop_first())) || (path[0] == 2 && self.2.mutate_ok(ty, path.drop_first())) || (path[0] == 3 && self.3.mutate_ok(ty, path.drop_first())) || (path[0] == 4 && self.4.mutate_ok(ty, path.drop_first())) || (path[0] == 5 && self.5.mutate_ok(ty, path.drop_first())) || (path[0] == 6 && self.6.mutate_ok(ty, path.drop_first())) || (path[0] == 7 && self.7.mutate_ok(ty, path.drop_first())) || (path[0] == 8 && self.8.mutate_ok(ty, path.drop_first())) || (path[0] == 9 && self.9.mutate_ok(ty, path.drop_first())) || (path[0] == 10 && self.10.mutate_ok(ty, path.drop_first())) || (path[0] == 11 && self.11.mutate_ok(ty, path.drop_first()))
        } else {
            &&& (*ty is Splice || *ty is GenerateReplace)
            &&& (*ty matches MutationType::Splice(b) ==> (Self::is_lawful() ==> exists|x: Self| #[trigger] x.spec_serialize().is_prefix_of((**b)@)))
        }
    }

    /// Each element generated in turn; generation gives up where one of
    /// them does.
    #[verifier::spinoff_prover]
    fn __autarkie_generate(
        visitor: &mut Visitor,
        depth: &mut usize,
        cur_depth: usize,
        settings: Option<GenerateSettings>,
    ) -> (r: Option<Self>) {
        let ghost p0 = *visitor;
        let f0 = match A::__autarkie_generate(visitor, depth, cur_depth, None) {
            Some(x) => x,
            None => {
                return None;
            },
        };
        let ghost p1 = *visitor;
        let f1 = match B::__autarkie_generate(visitor, depth, cur_depth, None) {
            Some(x) => x,
            None => {
                return None;
            },
        };
        let ghost p2 = *visitor;
        let f2 = match C::__autarkie_generate(visitor, depth, cur_depth, None) {
            Some(x) => x,
            None => {
                return None;
            },
        };
        let ghost p3 = *visitor;
        let f3 = match D::__autarkie_generate(visitor, depth, cur_depth, None) {
            Some(x) => x,
            None => {
                return None;
            },
        };
        let ghost p4 = *visitor;
        let f4 = match E::__autarkie_generate(visitor, depth, cur_depth, None) {
            Some(x) => x,
            None => {
                return None;
            },
        };
        let ghost p5 = *visitor;
        let f5 = match F::__autarkie_generate(visitor, depth, cur_depth, None) {
            Some(x) => x,
            None => {
                return None;
            },
        };
        let ghost p6 = *visitor;
        let f6 = match G::__autarkie_generate(visitor, depth, cur_depth, None) {
            Some(x) => x,
            None => {
                return None;
            },
        };
        let ghost p7 = *visitor;
        let f7 = match H::__autarkie_generate(visitor, depth, cur_depth, None) {
            Some(x) => x,
            None => {
                return None;
            },
        };
        let ghost p8 = *visitor;
        let f8 = match I::__autarkie_generate(visitor, depth, cur_depth, None) {
            Some(x) => x,
            None => {
                return None;
            },
        };
        let ghost p9 = *visitor;
        let f9 = match J::__autarkie_generate(visitor, depth, cur_depth, None) {
            Some(x) => x,
            None => {
                return None;
            },
        };
        let ghost p10 = *visitor;
        let f10 = match K::__autarkie_generate(visitor, depth, cur_depth, None) {
            Some(x) => x,
            None => {
                return None;
            },
        };
        let ghost p11 = *visitor;
        let f11 = match L::__autarkie_generate(visitor, depth, cur_depth, None) {
            Some(x) => x,
            None => {
                return None;
            },
        };
        let ghost gt = (f0, f1, f2, f3, f4, f5, f6, f7, f8, f9, f10, f11);
        proof {
            assert(A::generation(p0, None, Some(gt.0), p1));
            assert(B::generation(p1, None, Some(gt.1), p2));
            assert(C::generation(p2, None, Some(gt.2), p3));
            assert(D::generation(p3, None, Some(gt.3), p4));
            assert(E::generation(p4, None, Some(gt.4), p5));
            assert(F::generation(p5, None, Some(gt.5), p6));
            assert(G::generation(p6, None, Some(gt.6), p7));
            assert(H::generation(p7, None, Some(gt.7), p8));
            assert(I::generation(p8, None, Some(gt.8), p9));
            assert(J::generation(p9, None, Some(gt.9), p10));
            assert(K::generation(p10, None, Some(gt.10), p11));
            assert(L::generation(p11, None, Some(gt.11), *visitor));
            assert(visitor.draws_only(&p0));
            assert(exists|g0: Visitor, g1: Visitor, g2: Visitor, g3: Visitor, g4: Visitor, g5: Visitor, g6: Visitor, g7: Visitor, g8: Visitor, g9: Visitor, g10: Visitor| A::generation(p0, None, Some(gt.0), g0) && B::generation(g0, None, Some(gt.1), g1) && C::generation(g1, None, Some(gt.2), g2) && D::generation(g2, None, Some(gt.3), g3) && E::generation(g3, None, Some(gt.4), g4) && F::generation(g4, None, Some(gt.5), g5) && G::generation(g5, None, Some(gt.6), g6) && H::generation(g6, None, Some(gt.7), g7) && I::generation(g7, None, Some(gt.8), g8) && J::generation(g8, None, Some(gt.9), g9) && K::generation(g9, None, Some(gt.10), g10) && L::generation(g10, None, Some(gt.11), *visitor));
            assert(elements_12_generated(p0, gt, *visitor));
        }
        Some((f0, f1, f2, f3, f4, f5, f6, f7, f8, f9, f10, f11))
    }

    /// Along the path, mutates the element at its first index; at its end,
    /// replaces the tuple by the one the spliced bytes encode, or by a
    /// generated one whose encodings are then recorded.
    #[verifier::spinoff_prover]
    fn __autarkie_mutate(
        &mut self,
        ty: &mut MutationType,
        visitor: &mut Visitor,
        path: VecDeque<usize>,
    ) {
        let mut path = path;
        match path.pop_front() {
            Some(popped) => {
                if popped == 0 {
                    self.0.__autarkie_mutate(ty, visitor, path);
                } else if popped == 1 {
                    self.1.__autarkie_mutate(ty, visitor, path);
                } else if popped == 2 {
                    self.2.__autarkie_mutate(ty, visitor, path);
                } else if popped == 3 {
                    self.3.__autarkie_mutate(ty, visitor, path);
                } else if popped == 4 {
                    self.4.__autarkie_mutate(ty, visitor, path);
                } else if popped == 5 {
                    self.5.__autarkie_mutate(ty, visitor, path);
                } else if popped == 6 {
                    self.6.__autarkie_mutate(ty, visitor, path);
                } else if popped == 7 {
                    self.7.__autarkie_mutate(ty, visitor, path);
                } else if popped == 8 {
                    self.8.__autarkie_mutate(ty, visitor, path);
                } else if popped == 9 {
                    self.9.__autarkie_mutate(ty, visitor, path);
                } else if popped == 10 {
                    self.10.__autarkie_mutate(ty, visitor, path);
                } else if popped == 11 {
                    self.11.__autarkie_mutate(ty, visitor, path);
                } else {
                    proof {
                        assert(false);
                    }
                }
            },
            None => {
                match ty {
                    MutationType::Splice(other) => {
                        let bytes: &[u8] = **other;
                        proof {
                            assert(bytes@.skip(0) =~= bytes@);
                        }
                        match Self::__autarkie_deserialize(bytes, 0) {
                            Some((v, end)) => {
                                proof {
                                    if Self::is_lawful() {
                                        assert(v.spec_serialize() =~= bytes@.subrange(0, v.spec_serialize().len() as int));
                                        assert(v.spec_serialize().is_prefix_of(bytes@));
                                    }
                                }
                                *self = v;
                            },
                            None => {},
                        }
                    },
                    MutationType::GenerateReplace(bias) => {
                        match Self::__autarkie_generate(visitor, bias, 0, None) {
                            Some(generated) => {
                                *self = generated;
                                let ghost g = *visitor;
                                self.__autarkie_serialized(visitor);
                                Self::record_encoding(visitor, self.__autarkie_serialize());
                                proof {
                                    assert(Self::generation(*old(visitor), None, Some(*self), g));
                                    if Self::walks_known() && Self::encodes_exactly() {
                                        assert(visitor.serialized_bytes() =~= g.serialized_bytes()
                                            + self.serialized_records() + seq![self.spec_serialize()]);
                                    }
                                }
                            },
                            None => {},
                        }
                    },
                    _ => {
                        proof {
                            assert(false);
                        }
                    },
                }
            },
        }
    }

    /// Enters each element as a field, at its position, and records its fields.
    #[verifier::spinoff_prover]
    fn __autarkie_fields(&self, visitor: &mut Visitor, index: usize) {
        let ghost p0 = *visitor;
        let id0 = A::enter_as_field(visitor, 0, NodeType::NonRecursive).1;
        let ghost e0 = *visitor;
        self.0.__autarkie_fields(visitor, 0);
        let ghost i0 = *visitor;
        visitor.pop_field();
        proof {
            assert(field_entered(p0, ((0, NodeType::NonRecursive), id0), A::spec_name(), e0));
            assert(field_left(i0, *visitor));
            assert(walked_in_field(self.0, 0, A::spec_name(), 0, None, p0, *visitor));
        }
        let ghost p1 = *visitor;
        let id1 = B::enter_as_field(visitor, 1, NodeType::NonRecursive).1;
        let ghost e1 = *visitor;
        self.1.__autarkie_fields(visitor, 0);
        let ghost i1 = *visitor;
        visitor.pop_field();
        proof {
            assert(field_entered(p1, ((1, NodeType::NonRecursive), id1), B::spec_name(), e1));
            assert(field_left(i1, *visitor));
            assert(walked_in_field(self.1, 1, B::spec_name(), 0, None, p1, *visitor));
        }
        let ghost p2 = *visitor;
        let id2 = C::enter_as_field(visitor, 2, NodeType::NonRecursive).1;
        let ghost e2 = *visitor;
        self.2.__autarkie_fields(visitor, 0);
        let ghost i2 = *visitor;
        visitor.pop_field();
        proof {
            assert(field_entered(p2, ((2, NodeType::NonRecursive), id2), C::spec_name(), e2));
            assert(field_left(i2, *visitor));
            assert(walked_in_field(self.2, 2, C::spec_name(), 0, None, p2, *visitor));
        }
        let ghost p3 = *visitor;
        let id3 = D::enter_as_field(visitor, 3, NodeType::NonRecursive).1;
        let ghost e3 = *visitor;
        self.3.__autarkie_fields(visitor, 0);
        let ghost i3 = *visitor;
        visitor.pop_field();
        proof {
            assert(field_entered(p3, ((3, NodeType::NonRecursive), id3), D::spec_name(), e3));
            assert(field_left(i3, *visitor));
            assert(walked_in_field(self.3, 3, D::spec_name(), 0, None, p3, *visitor));
        }
        let ghost p4 = *visitor;
        let id4 = E::enter_as_field(visitor, 4, NodeType::NonRecursive).1;
        let ghost e4 = *visitor;
        self.4.__autarkie_fields(visitor, 0);
        let ghost i4 = *visitor;
        visitor.pop_field();
        proof {
            assert(field_entered(p4, ((4, NodeType::NonRecursive), id4), E::spec_name(), e4));
            assert(field_left(i4, *visitor));
            assert(walked_in_field(self.4, 4, E::spec_name(), 0, None, p4, *visitor));
        }
        let ghost p5 = *visitor;
        let id5 = F::enter_as_field(visitor, 5, NodeType::NonRecursive).1;
        let ghost e5 = *visitor;
        self.5.__autarkie_fields(visitor, 0);
        let ghost i5 = *visitor;
        visitor.pop_field();
        proof {
            assert(field_entered(p5, ((5, NodeType::NonRecursive), id5), F::spec_name(), e5));
            assert(field_left(i5, *visitor));
            assert(walked_in_field(self.5, 5, F::spec_name(), 0, None, p5, *visitor));
        }
        let ghost p6 = *visitor;
        let id6 = G::enter_as_field(visitor, 6, NodeType::NonRecursive).1;
        let ghost e6 = *visitor;
        self.6.__autarkie_fields(visitor, 0);
        let ghost i6 = *visitor;
        visitor.pop_field();
        proof {
            assert(field_entered(p6, ((6, NodeType::NonRecursive), id6), G::spec_name(), e6));
            assert(field_left(i6, *visitor));
            assert(walked_in_field(self.6, 6, G::spec_name(), 0, None, p6, *visitor));
        }
        let ghost p7 = *visitor;
        let id7 = H::enter_as_field(visitor, 7, NodeType::NonRecursive).1;
        let ghost e7 = *visitor;
        self.7.__autarkie_fields(visitor, 0);
        let ghost i7 = *visitor;
        visitor.pop_field();
        proof {
            assert(field_entered(p7, ((7, NodeType::NonRecursive), id7), H::spec_name(), e7));
            assert(field_left(i7, *visitor));
            assert(walked_in_field(self.7, 7, H::spec_name(), 0, None, p7, *visitor));
        }
        let ghost p8 = *visitor;
        let id8 = I::enter_as_field(visitor, 8, NodeType::NonRecursive).1;
        let ghost e8 = *visitor;
        self.8.__autarkie_fields(visitor, 0);
        let ghost i8 = *visitor;
        visitor.pop_field();
        proof {
            assert(field_entered(p8, ((8, NodeType::NonRecursive), id8), I::spec_name(), e8));
            assert(field_left(i8, *visitor));
            assert(walked_in_field(self.8, 8, I::spec_name(), 0, None, p8, *visitor));
        }
        let ghost p9 = *visitor;
        let id9 = J::enter_as_field(visitor, 9, NodeType::NonRecursive).1;
        let ghost e9 = *visitor;
        self.9.__autarkie_fields(visitor, 0);
        let ghost i9 = *visitor;
        visitor.pop_field();
        proof {
            assert(field_entered(p9, ((9, NodeType::NonRecursive), id9), J::spec_name(), e9));
            assert(field_left(i9, *visitor));
            assert(walked_in_field(self.9, 9, J::spec_name(), 0, None, p9, *visitor));
        }
        let ghost p10 = *visitor;
        let id10 = K::enter_as_field(visitor, 10, NodeType::NonRecursive).1;
        let ghost e10 = *visitor;
        self.10.__autarkie_fields(visitor, 0);
        let ghost i10 = *visitor;
        visitor.pop_field();
        proof {
            assert(field_entered(p10, ((10, NodeType::NonRecursive), id10), K::spec_name(), e10));
            assert(field_left(i10, *visitor));
            assert(walked_in_field(self.10, 10, K::spec_name(), 0, None, p10, *visitor));
        }
        let ghost p11 = *visitor;
        let id11 = L::enter_as_field(visitor, 11, NodeType::NonRecursive).1;
        let ghost e11 = *visitor;
        self.11.__autarkie_fields(visitor, 0);
        let ghost i11 = *visitor;
        visitor.pop_field();
        proof {
            assert(field_entered(p11, ((11, NodeType::NonRecursive), id11), L::spec_name(), e11));
            assert(field_left(i11, *visitor));
            assert(walked_in_field(self.11, 11, L::spec_name(), 0, None, p11, *visitor));
        }
    }

    /// Each element is walked in turn, inside a field at its position, as
    /// field 0 of it.
    open spec fn walk(&self, index: usize, compared: Option<(u64, u64)>, before: Visitor, after: Visitor) -> bool {
        exists|u0: Visitor, u1: Visitor, u2: Visitor, u3: Visitor, u4: Visitor, u5: Visitor, u6: Visitor, u7: Visitor, u8: Visitor, u9: Visitor, u10: Visitor|
            #![trigger walked_in_field(self.0, 0, A::spec_name(), 0, compared, before, u0), walked_in_field(self.1, 1, B::spec_name(), 0, compared, u0, u1), walked_in_field(self.2, 2, C::spec_name(), 0, compared, u1, u2), walked_in_field(self.3, 3, D::spec_name(), 0, compared, u2, u3), walked_in_field(self.4, 4, E::spec_name(), 0, compared, u3, u4), walked_in_field(self.5, 5, F::spec_name(), 0, compared, u4, u5), walked_in_field(self.6, 6, G::spec_name(), 0, compared, u5, u6), walked_in_field(self.7, 7, H::spec_name(), 0, compared, u6, u7), walked_in_field(self.8, 8, I::spec_name(), 0, compared, u7, u8), walked_in_field(self.9, 9, J::spec_name(), 0, compared, u8, u9), walked_in_field(self.10, 10, K::spec_name(), 0, compared, u9, u10), walked_in_field(self.11, 11, L::spec_name(), 0, compared, u10, after)]
            walked_in_field(self.0, 0, A::spec_name(), 0, compared, before, u0)
                && walked_in_field(self.1, 1, B::spec_name(), 0, compared, u0, u1)
                && walked_in_field(self.2, 2, C::spec_name(), 0, compared, u1, u2)
                && walked_in_field(self.3, 3, D::spec_name(), 0, compared, u2, u3)
                && walked_in_field(self.4, 4, E::spec_name(), 0, compared, u3, u4)
                && walked_in_field(self.5, 5, F::spec_name(), 0, compared, u4, u5)
                && walked_in_field(self.6, 6, G::spec_name(), 0, compared, u5, u6)
                && walked_in_field(self.7, 7, H::spec_name(), 0, compared, u6, u7)
                && walked_in_field(self.8, 8, I::spec_name(), 0, compared, u7, u8)
                && walked_in_field(self.9, 9, J::spec_name(), 0, compared, u8, u9)
                && walked_in_field(self.10, 10, K::spec_name(), 0, compared, u9, u10)
                && walked_in_field(self.11, 11, L::spec_name(), 0, compared, u10, after)
    }

    /// The tuple registered, then under it each element type in turn, at
    /// variant 0 (its own registration, or one edge to it where it is being
    /// registered already).
    open spec fn registration(before: Visitor, parent: Option<Id>, variant: usize, after: Visitor) -> bool {
        exists|me: Id, v1: Visitor, w0: Visitor, w1: Visitor, w2: Visitor, w3: Visitor, w4: Visitor, w5: Visitor, w6: Visitor, w7: Visitor, w8: Visitor, w9: Visitor, w10: Visitor, w11: Visitor|
            #![trigger entered(before, parent, variant, Self::spec_name(), me, v1), child_registered::<A>(v1, Some(me), 0, w0), child_registered::<B>(w0, Some(me), 0, w1), child_registered::<C>(w1, Some(me), 0, w2), child_registered::<D>(w2, Some(me), 0, w3), child_registered::<E>(w3, Some(me), 0, w4), child_registered::<F>(w4, Some(me), 0, w5), child_registered::<G>(w5, Some(me), 0, w6), child_registered::<H>(w6, Some(me), 0, w7), child_registered::<I>(w7, Some(me), 0, w8), child_registered::<J>(w8, Some(me), 0, w9), child_registered::<K>(w9, Some(me), 0, w10), child_registered::<L>(w10, Some(me), 0, w11), left(w11, after)]
            entered(before, parent, variant, Self::spec_name(), me, v1)
                && child_registered::<A>(v1, Some(me), 0, w0)
                && child_registered::<B>(w0, Some(me), 0, w1)
                && child_registered::<C>(w1, Some(me), 0, w2)
                && child_registered::<D>(w2, Some(me), 0, w3)
                && child_registered::<E>(w3, Some(me), 0, w4)
                && child_registered::<F>(w4, Some(me), 0, w5)
                && child_registered::<G>(w5, Some(me), 0, w6)
                && child_registered::<H>(w6, Some(me), 0, w7)
                && child_registered::<I>(w7, Some(me), 0, w8)
                && child_registered::<J>(w8, Some(me), 0, w9)
                && child_registered::<K>(w9, Some(me), 0, w10)
                && child_registered::<L>(w10, Some(me), 0, w11)
                && left(w11, after)
    }

    /// Registers the tuple type, then under it each element type (or only
    /// the edge to it, where it is being registered already).
    #[verifier::spinoff_prover]
    #[verifier::rlimit(100)]
    fn __autarkie_register(v: &mut Visitor, parent: Option<(Id, String)>, variant: usize)
        ensures
            final(v).ty_edges().len() > old(v).ty_edges().len(),
            final(v).ty_edges()[old(v).ty_edges().len() as int].2 == variant,
    {
        let ghost v0 = *v;
        let ghost start = v.ty_edges().len();
        let me = Self::register_self(v, parent, variant);
        let me_id = me.0;
        let me_name = me.1.clone();
        let ghost v1 = *v;
        let ghost first = v.ty_edges()[start as int];
        proof {
            assert(entered(v0, parent_id(parent), variant, Self::spec_name(), me_id, v1));
        }
        register_child::<A>(v, (me_id, me_name.clone()), 0);
        let ghost w0 = *v;
        proof {
            assert(w0.extends(&v1));
        }
        register_child::<B>(v, (me_id, me_name.clone()), 0);
        let ghost w1 = *v;
        proof {
            assert(w1.extends(&v1));
        }
        register_child::<C>(v, (me_id, me_name.clone()), 0);
        let ghost w2 = *v;
        proof {
            assert(w2.extends(&v1));
        }
        register_child::<D>(v, (me_id, me_name.clone()), 0);
        let ghost w3 = *v;
        proof {
            assert(w3.extends(&v1));
        }
        register_child::<E>(v, (me_id, me_name.clone()), 0);
        let ghost w4 = *v;
        proof {
            assert(w4.extends(&v1));
        }
        register_child::<F>(v, (me_id, me_name.clone()), 0);
        let ghost w5 = *v;
        proof {
            assert(w5.extends(&v1));
        }
        register_child::<G>(v, (me_id, me_name.clone()), 0);
        let ghost w6 = *v;
        proof {
            assert(w6.extends(&v1));
        }
        register_child::<H>(v, (me_id, me_name.clone()), 0);
        let ghost w7 = *v;
        proof {
            assert(w7.extends(&v1));
        }
        register_child::<I>(v, (me_id, me_name.clone()), 0);
        let ghost w8 = *v;
        proof {
            assert(w8.extends(&v1));
        }
        register_child::<J>(v, (me_id, me_name.clone()), 0);
        let ghost w9 = *v;
        proof {
            assert(w9.extends(&v1));
        }
        register_child::<K>(v, (me_id, me_name.clone()), 0);
        let ghost w10 = *v;
        proof {
            assert(w10.extends(&v1));
        }
        register_child::<L>(v, (me_id, me_name.clone()), 0);
        let ghost w11 = *v;
        proof {
            assert(w11.extends(&v1));
        }
        let ghost v3 = *v;
        v.pop_ty();
        proof {
            assert(left(v3, *v));
            assert(v3.extends(&v1));
            assert(v0.ty_edges().is_prefix_of(v1.ty_edges()));
            assert(v0.ty_names().is_prefix_of(v1.ty_names()));
            assert(v1.ty_edges().is_prefix_of(v3.ty_edges()));
            assert(v.ty_edges()[start as int] == first);
        }
    }

    /// Records the encoding of each element, then what it records.
    #[verifier::spinoff_prover]
    #[verifier::rlimit(100)]
    fn __autarkie_serialized(&self, visitor: &mut Visitor) {
        A::record_encoding(visitor, self.0.__autarkie_serialize());
        proof {
            if Self::walks_known() && (Self::is_lawful() || Self::encodes_exactly()) {
                assert(visitor.serialized_bytes() =~= old(visitor).serialized_bytes() + (seq![self.0.spec_serialize()]));
            }
            if Self::walks_known() {
                assert(visitor.serialized_types() =~= old(visitor).serialized_types() + (seq![A::spec_name()]));
            }
        }
        self.0.__autarkie_serialized(visitor);
        proof {
            if Self::walks_known() && (Self::is_lawful() || Self::encodes_exactly()) {
                assert(visitor.serialized_bytes() =~= old(visitor).serialized_bytes() + (seq![self.0.spec_serialize()] + self.0.serialized_records()));
            }
            if Self::walks_known() {
                assert(visitor.serialized_types() =~= old(visitor).serialized_types() + (seq![A::spec_name()] + self.0.serialized_record_types()));
            }
        }
        B::record_encoding(visitor, self.1.__autarkie_serialize());
        proof {
            if Self::walks_known() && (Self::is_lawful() || Self::encodes_exactly()) {
                assert(visitor.serialized_bytes() =~= old(visitor).serialized_bytes() + ((seq![self.0.spec_serialize()] + self.0.serialized_records()) + seq![self.1.spec_serialize()]));
            }
            if Self::walks_known() {
                assert(visitor.serialized_types() =~= old(visitor).serialized_types() + ((seq![A::spec_name()] + self.0.serialized_record_types()) + seq![B::spec_name()]));
            }
        }
        self.1.__autarkie_serialized(visitor);
        proof {
            if Self::walks_known() && (Self::is_lawful() || Self::encodes_exactly()) {
                assert(visitor.serialized_bytes() =~= old(visitor).serialized_bytes() + ((seq![self.0.spec_serialize()] + self.0.serialized_records()) + seq![self.1.spec_serialize()] + self.1.serialized_records()));
            }
            if Self::walks_known() {
                assert(visitor.serialized_types() =~= old(visitor).serialized_types() + ((seq![A::spec_name()] + self.0.serialized_record_types()) + seq![B::spec_name()] + self.1.serialized_record_types()));
            }
        }
        C::record_encoding(visitor, self.2.__autarkie_serialize());
        proof {
            if Self::walks_known() && (Self::is_lawful() || Self::encodes_exactly()) {
                assert(visitor.serialized_bytes() =~= old(visitor).serialized_bytes() + (((seq![self.0.spec_serialize()] + self.0.serialized_records()) + seq![self.1.spec_serialize()] + self.1.serialized_records()) + seq![self.2.spec_serialize()]));
            }
            if Self::walks_known() {
                assert(visitor.serialized_types() =~= old(visitor).serialized_types() + (((seq![A::spec_name()] + self.0.serialized_record_types()) + seq![B::spec_name()] + self.1.serialized_record_types()) + seq![C::spec_name()]));
            }
        }
        self.2.__autarkie_serialized(visitor);
        proof {
            if Self::walks_known() && (Self::is_lawful() || Self::encodes_exactly()) {
                assert(visitor.serialized_bytes() =~= old(visitor).serialized_bytes() + (((seq![self.0.spec_serialize()] + self.0.serialized_records()) + seq![self.1.spec_serialize()] + self.1.serialized_records()) + seq![self.2.spec_serialize()] + self.2.serialized_records()));
            }
            if Self::walks_known() {
                assert(visitor.serialized_types() =~= old(visitor).serialized_types() + (((seq![A::spec_name()] + self.0.serialized_record_types()) + seq![B::spec_name()] + self.1.serialized_record_types()) + seq![C::spec_name()] + self.2.serialized_record_types()));
            }
        }
        D::record_encoding(visitor, self.3.__autarkie_serialize());
        proof {
            if Self::walks_known() && (Self::is_lawful() || Self::encodes_exactly()) {
                assert(visitor.serialized_bytes() =~= old(visitor).serialized_bytes() + ((((seq![self.0.spec_serialize()] + self.0.serialized_records()) + seq![self.1.spec_serialize()] + self.1.serialized_records()) + seq![self.2.spec_serialize()] + self.2.serialized_records()) + seq![self.3.spec_serialize()]));
            }
            if Self::walks_known() {
                assert(visitor.serialized_types() =~= old(visitor).serialized_types() + ((((seq![A::spec_name()] + self.0.serialized_record_types()) + seq![B::spec_name()] + self.1.serialized_record_types()) + seq![C::spec_name()] + self.2.serialized_record_types()) + seq![D::spec_name()]));
            }
        }
        self.3.__autarkie_serialized(visitor);
        proof {
            if Self::walks_known() && (Self::is_lawful() || Self::encodes_exactly()) {
                assert(visitor.serialized_bytes() =~= old(visitor).serialized_bytes() + ((((seq![self.0.spec_serialize()] + self.0.serialized_records()) + seq![self.1.spec_serialize()] + self.1.serialized_records()) + seq![self.2.spec_serialize()] + self.2.serialized_records()) + seq![self.3.spec_serialize()] + self.3.serialized_records()));
            }
            if Self::walks_known() {
                assert(visitor.serialized_types() =~= old(visitor).serialized_types() + ((((seq![A::spec_name()] + self.0.serialized_record_types()) + seq![B::spec_name()] + self.1.serialized_record_types()) + seq![C::spec_name()] + self.2.serialized_record_types()) + seq![D::spec_name()] + self.3.serialized_record_types()));
            }
        }
        E::record_encoding(visitor, self.4.__autarkie_serialize());
        proof {
            if Self::walks_known() && (Self::is_lawful() || Self::encodes_exactly()) {
                assert(visitor.serialized_bytes() =~= old(visitor).serialized_bytes() + (((((seq![self.0.spec_serialize()] + self.0.serialized_records()) + seq![self.1.spec_serialize()] + self.1.serialized_records()) + seq![self.2.spec_serialize()] + self.2.serialized_records()) + seq![self.3.spec_serialize()] + self.3.serialized_records()) + seq![self.4.spec_serialize()]));
            }
            if Self::walks_known() {
                assert(visitor.serialized_types() =~= old(visitor).serialized_types() + (((((seq![A::spec_name()] + self.0.serialized_record_types()) + seq![B::spec_name()] + self.1.serialized_record_types()) + seq![C::spec_name()] + self.2.serialized_record_types()) + seq![D::spec_name()] + self.3.serialized_record_types()) + seq![E::spec_name()]));
            }
        }
        self.4.__autarkie_serialized(visitor);
        proof {
            if Self::walks_known() && (Self::is_lawful() || Self::encodes_exactly()) {
                assert(visitor.serialized_bytes() =~= old(visitor).serialized_bytes() + (((((seq![self.0.spec_serialize()] + self.0.serialized_records()) + seq![self.1.spec_serialize()] + self.1.serialized_records()) + seq![self.2.spec_serialize()] + self.2.serialized_records()) + seq![self.3.spec_serialize()] + self.3.serialized_records()) + seq![self.4.spec_serialize()] + self.4.serialized_records()));
            }
            if Self::walks_known() {
                assert(visitor.serialized_types() =~= old(visitor).serialized_types() + (((((seq![A::spec_name()] + self.0.serialized_record_types()) + seq![B::spec_name()] + self.1.serialized_record_types()) + seq![C::spec_name()] + self.2.serialized_record_types()) + seq![D::spec_name()] + self.3.serialized_record_types()) + seq![E::spec_name()] + self.4.serialized_record_types()));
            }
        }
        F::record_encoding(visitor, self.5.__autarkie_serialize());
        proof {
            if Self::walks_known() && (Self::is_lawful() || Self::encodes_exactly()) {
                assert(visitor.serialized_bytes() =~= old(visitor).serialized_bytes() + ((((((seq![self.0.spec_serialize()] + self.0.serialized_records()) + seq![self.1.spec_serialize()] + self.1.serialized_records()) + seq![self.2.spec_serialize()] + self.2.serialized_records()) + seq![self.3.spec_serialize()] + self.3.serialized_records()) + seq![self.4.spec_serialize()] + self.4.serialized_records()) + seq![self.5.spec_serialize()]));
            }
            if Self::walks_known() {
                assert(visitor.serialized_types() =~= old(visitor).serialized_types() + ((((((seq![A::spec_name()] + self.0.serialized_record_types()) + seq![B::spec_name()] + self.1.serialized_record_types()) + seq![C::spec_name()] + self.2.serialized_record_types()) + seq![D::spec_name()] + self.3.serialized_record_types()) + seq![E::spec_name()] + self.4.serialized_record_types()) + seq![F::spec_name()]));
            }
        }
        self.5.__autarkie_serialized(visitor);
        proof {
            if Self::walks_known() && (Self::is_lawful() || Self::encodes_exactly()) {
                assert(visitor.serialized_bytes() =~= old(visitor).serialized_bytes() + ((((((seq![self.0.spec_serialize()] + self.0.serialized_records()) + seq![self.1.spec_serialize()] + self.1.serialized_records()) + seq![self.2.spec_serialize()] + self.2.serialized_records()) + seq![self.3.spec_serialize()] + self.3.serialized_records()) + seq![self.4.spec_serialize()] + self.4.serialized_records()) + seq![self.5.spec_serialize()] + self.5.serialized_records()));
            }
            if Self::walks_known() {
                assert(visitor.serialized_types() =~= old(visitor).serialized_types() + ((((((seq![A::spec_name()] + self.0.serialized_record_types()) + seq![B::spec_name()] + self.1.serialized_record_types()) + seq![C::spec_name()] + self.2.serialized_record_types()) + seq![D::spec_name()] + self.3.serialized_record_types()) + seq![E::spec_name()] + self.4.serialized_record_types()) + seq![F::spec_name()] + self.5.serialized_record_types()));
            }
        }
        G::record_encoding(visitor, self.6.__autarkie_serialize());
        proof {
            if Self::walks_known() && (Self::is_lawful() || Self::encodes_exactly()) {
                assert(visitor.serialized_bytes() =~= old(visitor).serialized_bytes() + (((((((seq![self.0.spec_serialize()] + self.0.serialized_records()) + seq![self.1.spec_serialize()] + self.1.serialized_records()) + seq![self.2.spec_serialize()] + self.2.serialized_records()) + seq![self.3.spec_serialize()] + self.3.serialized_records()) + seq![self.4.spec_serialize()] + self.4.serialized_records()) + seq![self.5.spec_serialize()] + self.5.serialized_records()) + seq![self.6.spec_serialize()]));
            }
            if Self::walks_known() {
                assert(visitor.serialized_types() =~= old(visitor).serialized_types() + (((((((seq![A::spec_name()] + self.0.serialized_record_types()) + seq![B::spec_name()] + self.1.serialized_record_types()) + seq![C::spec_name()] + self.2.serialized_record_types()) + seq![D::spec_name()] + self.3.serialized_record_types()) + seq![E::spec_name()] + self.4.serialized_record_types()) + seq![F::spec_name()] + self.5.serialized_record_types()) + seq![G::spec_name()]));
            }
        }
        self.6.__autarkie_serialized(visitor);
        proof {
            if Self::walks_known() && (Self::is_lawful() || Self::encodes_exactly()) {
                assert(visitor.serialized_bytes() =~= old(visitor).serialized_bytes() + (((((((seq![self.0.spec_serialize()] + self.0.serialized_records()) + seq![self.1.spec_serialize()] + self.1.serialized_records()) + seq![self.2.spec_serialize()] + self.2.serialized_records()) + seq![self.3.spec_serialize()] + self.3.serialized_records()) + seq![self.4.spec_serialize()] + self.4.serialized_records()) + seq![self.5.spec_serialize()] + self.5.serialized_records()) + seq![self.6.spec_serialize()] + self.6.serialized_records()));
            }
            if Self::walks_known() {
                assert(visitor.serialized_types() =~= old(visitor).serialized_types() + (((((((seq![A::spec_name()] + self.0.serialized_record_types()) + seq![B::spec_name()] + self.1.serialized_record_types()) + seq![C::spec_name()] + self.2.serialized_record_types()) + seq![D::spec_name()] + self.3.serialized_record_types()) + seq![E::spec_name()] + self.4.serialized_record_types()) + seq![F::spec_name()] + self.5.serialized_record_types()) + seq![G::spec_name()] + self.6.serialized_record_types()));
            }
        }
        H::record_encoding(visitor, self.7.__autarkie_serialize());
        proof {
            if Self::walks_known() && (Self::is_lawful() || Self::encodes_exactly()) {
                assert(visitor.serialized_bytes() =~= old(visitor).serialized_bytes() + ((((((((seq![self.0.spec_serialize()] + self.0.serialized_records()) + seq![self.1.spec_serialize()] + self.1.serialized_records()) + seq![self.2.spec_serialize()] + self.2.serialized_records()) + seq![self.3.spec_serialize()] + self.3.serialized_records()) + seq![self.4.spec_serialize()] + self.4.serialized_records()) + seq![self.5.spec_serialize()] + self.5.serialized_records()) + seq![self.6.spec_serialize()] + self.6.serialized_records()) + seq![self.7.spec_serialize()]));
            }
            if Self::walks_known() {
                assert(visitor.serialized_types() =~= old(visitor).serialized_types() + ((((((((seq![A::spec_name()] + self.0.serialized_record_types()) + seq![B::spec_name()] + self.1.serialized_record_types()) + seq![C::spec_name()] + self.2.serialized_record_types()) + seq![D::spec_name()] + self.3.serialized_record_types()) + seq![E::spec_name()] + self.4.serialized_record_types()) + seq![F::spec_name()] + self.5.serialized_record_types()) + seq![G::spec_name()] + self.6.serialized_record_types()) + seq![H::spec_name()]));
            }
        }
        self.7.__autarkie_serialized(visitor);
        proof {
            if Self::walks_known() && (Self::is_lawful() || Self::encodes_exactly()) {
                assert(visitor.serialized_bytes() =~= old(visitor).serialized_bytes() + ((((((((seq![self.0.spec_serialize()] + self.0.serialized_records()) + seq![self.1.spec_serialize()] + self.1.serialized_records()) + seq![self.2.spec_serialize()] + self.2.serialized_records()) + seq![self.3.spec_serialize()] + self.3.serialized_records()) + seq![self.4.spec_serialize()] + self.4.serialized_records()) + seq![self.5.spec_serialize()] + self.5.serialized_records()) + seq![self.6.spec_serialize()] + self.6.serialized_records()) + seq![self.7.spec_serialize()] + self.7.serialized_records()));
            }
            if Self::walks_known() {
                assert(visitor.serialized_types() =~= old(visitor).serialized_types() + ((((((((seq![A::spec_name()] + self.0.serialized_record_types()) + seq![B::spec_name()] + self.1.serialized_record_types()) + seq![C::spec_name()] + self.2.serialized_record_types()) + seq![D::spec_name()] + self.3.serialized_record_types()) + seq![E::spec_name()] + self.4.serialized_record_types()) + seq![F::spec_name()] + self.5.serialized_record_types()) + seq![G::spec_name()] + self.6.serialized_record_types()) + seq![H::spec_name()] + self.7.serialized_record_types()));
            }
        }
        I::record_encoding(visitor, self.8.__autarkie_serialize());
        proof {
            if Self::walks_known() && (Self::is_lawful() || Self::encodes_exactly()) {
                assert(visitor.serialized_bytes() =~= old(visitor).serialized_bytes() + (((((((((seq![self.0.spec_serialize()] + self.0.serialized_records()) + seq![self.1.spec_serialize()] + self.1.serialized_records()) + seq![self.2.spec_serialize()] + self.2.serialized_records()) + seq![self.3.spec_serialize()] + self.3.serialized_records()) + seq![self.4.spec_serialize()] + self.4.serialized_records()) + seq![self.5.spec_serialize()] + self.5.serialized_records()) + seq![self.6.spec_serialize()] + self.6.serialized_records()) + seq![self.7.spec_serialize()] + self.7.serialized_records()) + seq![self.8.spec_serialize()]));
            }
            if Self::walks_known() {
                assert(visitor.serialized_types() =~= old(visitor).serialized_types() + (((((((((seq![A::spec_name()] + self.0.serialized_record_types()) + seq![B::spec_name()] + self.1.serialized_record_types()) + seq![C::spec_name()] + self.2.serialized_record_types()) + seq![D::spec_name()] + self.3.serialized_record_types()) + seq![E::spec_name()] + self.4.serialized_record_types()) + seq![F::spec_name()] + self.5.serialized_record_types()) + seq![G::spec_name()] + self.6.serialized_record_types()) + seq![H::spec_name()] + self.7.serialized_record_types()) + seq![I::spec_name()]));
            }
        }
        self.8.__autarkie_serialized(visitor);
        proof {
            if Self::walks_known() && (Self::is_lawful() || Self::encodes_exactly()) {
                assert(visitor.serialized_bytes() =~= old(visitor).serialized_bytes() + (((((((((seq![self.0.spec_serialize()] + self.0.serialized_records()) + seq![self.1.spec_serialize()] + self.1.serialized_records()) + seq![self.2.spec_serialize()] + self.2.serialized_records()) + seq![self.3.spec_serialize()] + self.3.serialized_records()) + seq![self.4.spec_serialize()] + self.4.serialized_records()) + seq![self.5.spec_serialize()] + self.5.serialized_records()) + seq![self.6.spec_serialize()] + self.6.serialized_records()) + seq![self.7.spec_serialize()] + self.7.serialized_records()) + seq![self.8.spec_serialize()] + self.8.serialized_records()));
            }
            if Self::walks_known() {
                assert(visitor.serialized_types() =~= old(visitor).serialized_types() + (((((((((seq![A::spec_name()] + self.0.serialized_record_types()) + seq![B::spec_name()] + self.1.serialized_record_types()) + seq![C::spec_name()] + self.2.serialized_record_types()) + seq![D::spec_name()] + self.3.serialized_record_types()) + seq![E::spec_name()] + self.4.serialized_record_types()) + seq![F::spec_name()] + self.5.serialized_record_types()) + seq![G::spec_name()] + self.6.serialized_record_types()) + seq![H::spec_name()] + self.7.serialized_record_types()) + seq![I::spec_name()] + self.8.serialized_record_types()));
            }
        }
        J::record_encoding(visitor, self.9.__autarkie_serialize());
        proof {
            if Self::walks_known() && (Self::is_lawful() || Self::encodes_exactly()) {
                assert(visitor.serialized_bytes() =~= old(visitor).serialized_bytes() + ((((((((((seq![self.0.spec_serialize()] + self.0.serialized_records()) + seq![self.1.spec_serialize()] + self.1.serialized_records()) + seq![self.2.spec_serialize()] + self.2.serialized_records()) + seq![self.3.spec_serialize()] + self.3.serialized_records()) + seq![self.4.spec_serialize()] + self.4.serialized_records()) + seq![self.5.spec_serialize()] + self.5.serialized_records()) + seq![self.6.spec_serialize()] + self.6.serialized_records()) + seq![self.7.spec_serialize()] + self.7.serialized_records()) + seq![self.8.spec_serialize()] + self.8.serialized_records()) + seq![self.9.spec_serialize()]));
            }
            if Self::walks_known() {
                assert(visitor.serialized_types() =~= old(visitor).serialized_types() + ((((((((((seq![A::spec_name()] + self.0.serialized_record_types()) + seq![B::spec_name()] + self.1.serialized_record_types()) + seq![C::spec_name()] + self.2.serialized_record_types()) + seq![D::spec_name()] + self.3.serialized_record_types()) + seq![E::spec_name()] + self.4.serialized_record_types()) + seq![F::spec_name()] + self.5.serialized_record_types()) + seq![G::spec_name()] + self.6.serialized_record_types()) + seq![H::spec_name()] + self.7.serialized_record_types()) + seq![I::spec_name()] + self.8.serialized_record_types()) + seq![J::spec_name()]));
            }
        }
        self.9.__autarkie_serialized(visitor);
        proof {
            if Self::walks_known() && (Self::is_lawful() || Self::encodes_exactly()) {
                assert(visitor.serialized_bytes() =~= old(visitor).serialized_bytes() + ((((((((((seq![self.0.spec_serialize()] + self.0.serialized_records()) + seq![self.1.spec_serialize()] + self.1.serialized_records()) + seq![self.2.spec_serialize()] + self.2.serialized_records()) + seq![self.3.spec_serialize()] + self.3.serialized_records()) + seq![self.4.spec_serialize()] + self.4.serialized_records()) + seq![self.5.spec_serialize()] + self.5.serialized_records()) + seq![self.6.spec_serialize()] + self.6.serialized_records()) + seq![self.7.spec_serialize()] + self.7.serialized_records()) + seq![self.8.spec_serialize()] + self.8.serialized_records()) + seq![self.9.spec_serialize()] + self.9.serialized_records()));
            }
            if Self::walks_known() {
                assert(visitor.serialized_types() =~= old(visitor).serialized_types() + ((((((((((seq![A::spec_name()] + self.0.serialized_record_types()) + seq![B::spec_name()] + self.1.serialized_record_types()) + seq![C::spec_name()] + self.2.serialized_record_types()) + seq![D::spec_name()] + self.3.serialized_record_types()) + seq![E::spec_name()] + self.4.serialized_record_types()) + seq![F::spec_name()] + self.5.serialized_record_types()) + seq![G::spec_name()] + self.6.serialized_record_types()) + seq![H::spec_name()] + self.7.serialized_record_types()) + seq![I::spec_name()] + self.8.serialized_record_types()) + seq![J::spec_name()] + self.9.serialized_record_types()));
            }
        }
        K::record_encoding(visitor, self.10.__autarkie_serialize());
        proof {
            if Self::walks_known() && (Self::is_lawful() || Self::encodes_exactly()) {
                assert(visitor.serialized_bytes() =~= old(visitor).serialized_bytes() + (((((((((((seq![self.0.spec_serialize()] + self.0.serialized_records()) + seq![self.1.spec_serialize()] + self.1.serialized_records()) + seq![self.2.spec_serialize()] + self.2.serialized_records()) + seq![self.3.spec_serialize()] + self.3.serialized_records()) + seq![self.4.spec_serialize()] + self.4.serialized_records()) + seq![self.5.spec_serialize()] + self.5.serialized_records()) + seq![self.6.spec_serialize()] + self.6.serialized_records()) + seq![self.7.spec_serialize()] + self.7.serialized_records()) + seq![self.8.spec_serialize()] + self.8.serialized_records()) + seq![self.9.spec_serialize()] + self.9.serialized_records()) + seq![self.10.spec_serialize()]));
            }
            if Self::walks_known() {
                assert(visitor.serialized_types() =~= old(visitor).serialized_types() + (((((((((((seq![A::spec_name()] + self.0.serialized_record_types()) + seq![B::spec_name()] + self.1.serialized_record_types()) + seq![C::spec_name()] + self.2.serialized_record_types()) + seq![D::spec_name()] + self.3.serialized_record_types()) + seq![E::spec_name()] + self.4.serialized_record_types()) + seq![F::spec_name()] + self.5.serialized_record_types()) + seq![G::spec_name()] + self.6.serialized_record_types()) + seq![H::spec_name()] + self.7.serialized_record_types()) + seq![I::spec_name()] + self.8.serialized_record_types()) + seq![J::spec_name()] + self.9.serialized_record_types()) + seq![K::spec_name()]));
            }
        }
        self.10.__autarkie_serialized(visitor);
        proof {
            if Self::walks_known() && (Self::is_lawful() || Self::encodes_exactly()) {
                assert(visitor.serialized_bytes() =~= old(visitor).serialized_bytes() + (((((((((((seq![self.0.spec_serialize()] + self.0.serialized_records()) + seq![self.1.spec_serialize()] + self.1.serialized_records()) + seq![self.2.spec_serialize()] + self.2.serialized_records()) + seq![self.3.spec_serialize()] + self.3.serialized_records()) + seq![self.4.spec_serialize()] + self.4.serialized_records()) + seq![self.5.spec_serialize()] + self.5.serialized_records()) + seq![self.6.spec_serialize()] + self.6.serialized_records()) + seq![self.7.spec_serialize()] + self.7.serialized_records()) + seq![self.8.spec_serialize()] + self.8.serialized_records()) + seq![self.9.spec_serialize()] + self.9.serialized_records()) + seq![self.10.spec_serialize()] + self.10.serialized_records()));
            }
            if Self::walks_known() {
                assert(visitor.serialized_types() =~= old(visitor).serialized_types() + (((((((((((seq![A::spec_name()] + self.0.serialized_record_types()) + seq![B::spec_name()] + self.1.serialized_record_types()) + seq![C::spec_name()] + self.2.serialized_record_types()) + seq![D::spec_name()] + self.3.serialized_record_types()) + seq![E::spec_name()] + self.4.serialized_record_types()) + seq![F::spec_name()] + self.5.serialized_record_types()) + seq![G::spec_name()] + self.6.serialized_record_types()) + seq![H::spec_name()] + self.7.serialized_record_types()) + seq![I::spec_name()] + self.8.serialized_record_types()) + seq![J::spec_name()] + self.9.serialized_record_types()) + seq![K::spec_name()] + self.10.serialized_record_types()));
            }
        }
        L::record_encoding(visitor, self.11.__autarkie_serialize());
        proof {
            if Self::walks_known() && (Self::is_lawful() || Self::encodes_exactly()) {
                assert(visitor.serialized_bytes() =~= old(visitor).serialized_bytes() + ((((((((((((seq![self.0.spec_serialize()] + self.0.serialized_records()) + seq![self.1.spec_serialize()] + self.1.serialized_records()) + seq![self.2.spec_serialize()] + self.2.serialized_records()) + seq![self.3.spec_serialize()] + self.3.serialized_records()) + seq![self.4.spec_serialize()] + self.4.serialized_records()) + seq![self.5.spec_serialize()] + self.5.serialized_records()) + seq![self.6.spec_serialize()] + self.6.serialized_records()) + seq![self.7.spec_serialize()] + self.7.serialized_records()) + seq![self.8.spec_serialize()] + self.8.serialized_records()) + seq![self.9.spec_serialize()] + self.9.serialized_records()) + seq![self.10.spec_serialize()] + self.10.serialized_records()) + seq![self.11.spec_serialize()]));
            }
            if Self::walks_known() {
                assert(visitor.serialized_types() =~= old(visitor).serialized_types() + ((((((((((((seq![A::spec_name()] + self.0.serialized_record_types()) + seq![B::spec_name()] + self.1.serialized_record_types()) + seq![C::spec_name()] + self.2.serialized_record_types()) + seq![D::spec_name()] + self.3.serialized_record_types()) + seq![E::spec_name()] + self.4.serialized_record_types()) + seq![F::spec_name()] + self.5.serialized_record_types()) + seq![G::spec_name()] + self.6.serialized_record_types()) + seq![H::spec_name()] + self.7.serialized_record_types()) + seq![I::spec_name()] + self.8.serialized_record_types()) + seq![J::spec_name()] + self.9.serialized_record_types()) + seq![K::spec_name()] + self.10.serialized_record_types()) + seq![L::spec_name()]));
            }
        }
        self.11.__autarkie_serialized(visitor);
        proof {
            if Self::walks_known() && (Self::is_lawful() || Self::encodes_exactly()) {
                assert(visitor.serialized_bytes() =~= old(visitor).serialized_bytes() + ((((((((((((seq![self.0.spec_serialize()] + self.0.serialized_records()) + seq![self.1.spec_serialize()] + self.1.serialized_records()) + seq![self.2.spec_serialize()] + self.2.serialized_records()) + seq![self.3.spec_serialize()] + self.3.serialized_records()) + seq![self.4.spec_serialize()] + self.4.serialized_records()) + seq![self.5.spec_serialize()] + self.5.serialized_records()) + seq![self.6.spec_serialize()] + self.6.serialized_records()) + seq![self.7.spec_serialize()] + self.7.serialized_records()) + seq![self.8.spec_serialize()] + self.8.serialized_records()) + seq![self.9.spec_serialize()] + self.9.serialized_records()) + seq![self.10.spec_serialize()] + self.10.serialized_records()) + seq![self.11.spec_serialize()] + self.11.serialized_records()));
            }
            if Self::walks_known() {
                assert(visitor.serialized_types() =~= old(visitor).serialized_types() + ((((((((((((seq![A::spec_name()] + self.0.serialized_record_types()) + seq![B::spec_name()] + self.1.serialized_record_types()) + seq![C::spec_name()] + self.2.serialized_record_types()) + seq![D::spec_name()] + self.3.serialized_record_types()) + seq![E::spec_name()] + self.4.serialized_record_types()) + seq![F::spec_name()] + self.5.serialized_record_types()) + seq![G::spec_name()] + self.6.serialized_record_types()) + seq![H::spec_name()] + self.7.serialized_record_types()) + seq![I::spec_name()] + self.8.serialized_record_types()) + seq![J::spec_name()] + self.9.serialized_record_types()) + seq![K::spec_name()] + self.10.serialized_record_types()) + seq![L::spec_name()] + self.11.serialized_record_types()));
            }
        }
    }

    /// Enters each element as a field, at its position, and records its
    /// comparison operands.
    #[verifier::spinoff_prover]
    fn __autarkie_cmps(&self, visitor: &mut Visitor, index: usize, __autarkie_val: (u64, u64)) {
        let ghost p0 = *visitor;
        let id0 = A::enter_as_field(visitor, 0, NodeType::NonRecursive).1;
        let ghost e0 = *visitor;
        self.0.__autarkie_cmps(visitor, 0, __autarkie_val);
        let ghost i0 = *visitor;
        visitor.pop_field();
        proof {
            assert(field_entered(p0, ((0, NodeType::NonRecursive), id0), A::spec_name(), e0));
            assert(field_left(i0, *visitor));
            assert(walked_in_field(self.0, 0, A::spec_name(), 0, Some(__autarkie_val), p0, *visitor));
            if Self::walks_known() {
                assert(visitor.operands() =~= old(visitor).operands() + (self.0.comparison_operands(__autarkie_val)));
            }
        }
        let ghost p1 = *visitor;
        let id1 = B::enter_as_field(visitor, 1, NodeType::NonRecursive).1;
        let ghost e1 = *visitor;
        self.1.__autarkie_cmps(visitor, 0, __autarkie_val);
        let ghost i1 = *visitor;
        visitor.pop_field();
        proof {
            assert(field_entered(p1, ((1, NodeType::NonRecursive), id1), B::spec_name(), e1));
            assert(field_left(i1, *visitor));
            assert(walked_in_field(self.1, 1, B::spec_name(), 0, Some(__autarkie_val), p1, *visitor));
            if Self::walks_known() {
                assert(visitor.operands() =~= old(visitor).operands() + ((self.0.comparison_operands(__autarkie_val)) + self.1.comparison_operands(__autarkie_val)));
            }
        }
        let ghost p2 = *visitor;
        let id2 = C::enter_as_field(visitor, 2, NodeType::NonRecursive).1;
        let ghost e2 = *visitor;
        self.2.__autarkie_cmps(visitor, 0, __autarkie_val);
        let ghost i2 = *visitor;
        visitor.pop_field();
        proof {
            assert(field_entered(p2, ((2, NodeType::NonRecursive), id2), C::spec_name(), e2));
            assert(field_left(i2, *visitor));
            assert(walked_in_field(self.2, 2, C::spec_name(), 0, Some(__autarkie_val), p2, *visitor));
            if Self::walks_known() {
                assert(visitor.operands() =~= old(visitor).operands() + (((self.0.comparison_operands(__autarkie_val)) + self.1.comparison_operands(__autarkie_val)) + self.2.comparison_operands(__autarkie_val)));
            }
        }
        let ghost p3 = *visitor;
        let id3 = D::enter_as_field(visitor, 3, NodeType::NonRecursive).1;
        let ghost e3 = *visitor;
        self.3.__autarkie_cmps(visitor, 0, __autarkie_val);
        let ghost i3 = *visitor;
        visitor.pop_field();
        proof {
            assert(field_entered(p3, ((3, NodeType::NonRecursive), id3), D::spec_name(), e3));
            assert(field_left(i3, *visitor));
            assert(walked_in_field(self.3, 3, D::spec_name(), 0, Some(__autarkie_val), p3, *visitor));
            if Self::walks_known() {
                assert(visitor.operands() =~= old(visitor).operands() + ((((self.0.comparison_operands(__autarkie_val)) + self.1.comparison_operands(__autarkie_val)) + self.2.comparison_operands(__autarkie_val)) + self.3.comparison_operands(__autarkie_val)));
            }
        }
        let ghost p4 = *visitor;
        let id4 = E::enter_as_field(visitor, 4, NodeType::NonRecursive).1;
        let ghost e4 = *visitor;
        self.4.__autarkie_cmps(visitor, 0, __autarkie_val);
        let ghost i4 = *visitor;
        visitor.pop_field();
        proof {
            assert(field_entered(p4, ((4, NodeType::NonRecursive), id4), E::spec_name(), e4));
            assert(field_left(i4, *visitor));
            assert(walked_in_field(self.4, 4, E::spec_name(), 0, Some(__autarkie_val), p4, *visitor));
            if Self::walks_known() {
                assert(visitor.operands() =~= old(visitor).operands() + (((((self.0.comparison_operands(__autarkie_val)) + self.1.comparison_operands(__autarkie_val)) + self.2.comparison_operands(__autarkie_val)) + self.3.comparison_operands(__autarkie_val)) + self.4.comparison_operands(__autarkie_val)));
            }
        }
        let ghost p5 = *visitor;
        let id5 = F::enter_as_field(visitor, 5, NodeType::NonRecursive).1;
        let ghost e5 = *visitor;
        self.5.__autarkie_cmps(visitor, 0, __autarkie_val);
        let ghost i5 = *visitor;
        visitor.pop_field();
        proof {
            assert(field_entered(p5, ((5, NodeType::NonRecursive), id5), F::spec_name(), e5));
            assert(field_left(i5, *visitor));
            assert(walked_in_field(self.5, 5, F::spec_name(), 0, Some(__autarkie_val), p5, *visitor));
            if Self::walks_known() {
                assert(visitor.operands() =~= old(visitor).operands() + ((((((self.0.comparison_operands(__autarkie_val)) + self.1.comparison_operands(__autarkie_val)) + self.2.comparison_operands(__autarkie_val)) + self.3.comparison_operands(__autarkie_val)) + self.4.comparison_operands(__autarkie_val)) + self.5.comparison_operands(__autarkie_val)));
            }
        }
        let ghost p6 = *visitor;
        let id6 = G::enter_as_field(visitor, 6, NodeType::NonRecursive).1;
        let ghost e6 = *visitor;
        self.6.__autarkie_cmps(visitor, 0, __autarkie_val);
        let ghost i6 = *visitor;
        visitor.pop_field();
        proof {
            assert(field_entered(p6, ((6, NodeType::NonRecursive), id6), G::spec_name(), e6));
            assert(field_left(i6, *visitor));
            assert(walked_in_field(self.6, 6, G::spec_name(), 0, Some(__autarkie_val), p6, *visitor));
            if Self::walks_known() {
                assert(visitor.operands() =~= old(visitor).operands() + (((((((self.0.comparison_operands(__autarkie_val)) + self.1.comparison_operands(__autarkie_val)) + self.2.comparison_operands(__autarkie_val)) + self.3.comparison_operands(__autarkie_val)) + self.4.comparison_operands(__autarkie_val)) + self.5.comparison_operands(__autarkie_val)) + self.6.comparison_operands(__autarkie_val)));
            }
        }
        let ghost p7 = *visitor;
        let id7 = H::enter_as_field(visitor, 7, NodeType::NonRecursive).1;
        let ghost e7 = *visitor;
        self.7.__autarkie_cmps(visitor, 0, __autarkie_val);
        let ghost i7 = *visitor;
        visitor.pop_field();
        proof {
            assert(field_entered(p7, ((7, NodeType::NonRecursive), id7), H::spec_name(), e7));
            assert(field_left(i7, *visitor));
            assert(walked_in_field(self.7, 7, H::spec_name(), 0, Some(__autarkie_val), p7, *visitor));
            if Self::walks_known() {
                assert(visitor.operands() =~= old(visitor).operands() + ((((((((self.0.comparison_operands(__autarkie_val)) + self.1.comparison_operands(__autarkie_val)) + self.2.comparison_operands(__autarkie_val)) + self.3.comparison_operands(__autarkie_val)) + self.4.comparison_operands(__autarkie_val)) + self.5.comparison_operands(__autarkie_val)) + self.6.comparison_operands(__autarkie_val)) + self.7.comparison_operands(__autarkie_val)));
            }
        }
        let ghost p8 = *visitor;
        let id8 = I::enter_as_field(visitor, 8, NodeType::NonRecursive).1;
        let ghost e8 = *visitor;
        self.8.__autarkie_cmps(visitor, 0, __autarkie_val);
        let ghost i8 = *visitor;
        visitor.pop_field();
        proof {
            assert(field_entered(p8, ((8, NodeType::NonRecursive), id8), I::spec_name(), e8));
            assert(field_left(i8, *visitor));
            assert(walked_in_field(self.8, 8, I::spec_name(), 0, Some(__autarkie_val), p8, *visitor));
            if Self::walks_known() {
                assert(visitor.operands() =~= old(visitor).operands() + (((((((((self.0.comparison_operands(__autarkie_val)) + self.1.comparison_operands(__autarkie_val)) + self.2.comparison_operands(__autarkie_val)) + self.3.comparison_operands(__autarkie_val)) + self.4.comparison_operands(__autarkie_val)) + self.5.comparison_operands(__autarkie_val)) + self.6.comparison_operands(__autarkie_val)) + self.7.comparison_operands(__autarkie_val)) + self.8.comparison_operands(__autarkie_val)));
            }
        }
        let ghost p9 = *visitor;
        let id9 = J::enter_as_field(visitor, 9, NodeType::NonRecursive).1;
        let ghost e9 = *visitor;
        self.9.__autarkie_cmps(visitor, 0, __autarkie_val);
        let ghost i9 = *visitor;
        visitor.pop_field();
        proof {
            assert(field_entered(p9, ((9, NodeType::NonRecursive), id9), J::spec_name(), e9));
            assert(field_left(i9, *visitor));
            assert(walked_in_field(self.9, 9, J::spec_name(), 0, Some(__autarkie_val), p9, *visitor));
            if Self::walks_known() {
                assert(visitor.operands() =~= old(visitor).operands() + ((((((((((self.0.comparison_operands(__autarkie_val)) + self.1.comparison_operands(__autarkie_val)) + self.2.comparison_operands(__autarkie_val)) + self.3.comparison_operands(__autarkie_val)) + self.4.comparison_operands(__autarkie_val)) + self.5.comparison_operands(__autarkie_val)) + self.6.comparison_operands(__autarkie_val)) + self.7.comparison_operands(__autarkie_val)) + self.8.comparison_operands(__autarkie_val)) + self.9.comparison_operands(__autarkie_val)));
            }
        }
        let ghost p10 = *visitor;
        let id10 = K::enter_as_field(visitor, 10, NodeType::NonRecursive).1;
        let ghost e10 = *visitor;
        self.10.__autarkie_cmps(visitor, 0, __autarkie_val);
        let ghost i10 = *visitor;
        visitor.pop_field();
        proof {
            assert(field_entered(p10, ((10, NodeType::NonRecursive), id10), K::spec_name(), e10));
            assert(field_left(i10, *visitor));
            assert(walked_in_field(self.10, 10, K::spec_name(), 0, Some(__autarkie_val), p10, *visitor));
            if Self::walks_known() {
                assert(visitor.operands() =~= old(visitor).operands() + (((((((((((self.0.comparison_operands(__autarkie_val)) + self.1.comparison_operands(__autarkie_val)) + self.2.comparison_operands(__autarkie_val)) + self.3.comparison_operands(__autarkie_val)) + self.4.comparison_operands(__autarkie_val)) + self.5.comparison_operands(__autarkie_val)) + self.6.comparison_operands(__autarkie_val)) + self.7.comparison_operands(__autarkie_val)) + self.8.comparison_operands(__autarkie_val)) + self.9.comparison_operands(__autarkie_val)) + self.10.comparison_operands(__autarkie_val)));
            }
        }
        let ghost p11 = *visitor;
        let id11 = L::enter_as_field(visitor, 11, NodeType::NonRecursive).1;
        let ghost e11 = *visitor;
        self.11.__autarkie_cmps(visitor, 0, __autarkie_val);
        let ghost i11 = *visitor;
        visitor.pop_field();
        proof {
            assert(field_entered(p11, ((11, NodeType::NonRecursive), id11), L::spec_name(), e11));
            assert(field_left(i11, *visitor));
            assert(walked_in_field(self.11, 11, L::spec_name(), 0, Some(__autarkie_val), p11, *visitor));
            if Self::walks_known() {
                assert(visitor.operands() =~= old(visitor).operands() + ((((((((((((self.0.comparison_operands(__autarkie_val)) + self.1.comparison_operands(__autarkie_val)) + self.2.comparison_operands(__autarkie_val)) + self.3.comparison_operands(__autarkie_val)) + self.4.comparison_operands(__autarkie_val)) + self.5.comparison_operands(__autarkie_val)) + self.6.comparison_operands(__autarkie_val)) + self.7.comparison_operands(__autarkie_val)) + self.8.comparison_operands(__autarkie_val)) + self.9.comparison_operands(__autarkie_val)) + self.10.comparison_operands(__autarkie_val)) + self.11.comparison_operands(__autarkie_val)));
            }
        }
    }

    fn __autarkie_serialize(&self) -> (r: Vec<u8>) {
        let mut out = self.11.__autarkie_serialize();
        let mut front = self.10.__autarkie_serialize();
        front.append(&mut out);
        out = front;
        let mut front = self.9.__autarkie_serialize();
        front.append(&mut out);
        out = front;
        let mut front = self.8.__autarkie_serialize();
        front.append(&mut out);
        out = front;
        let mut front = self.7.__autarkie_serialize();
        front.append(&mut out);
        out = front;
        let mut front = self.6.__autarkie_serialize();
        front.append(&mut out);
        out = front;
        let mut front = self.5.__autarkie_serialize();
        front.append(&mut out);
        out = front;
        let mut front = self.4.__autarkie_serialize();
        front.append(&mut out);
        out = front;
        let mut front = self.3.__autarkie_serialize();
        front.append(&mut out);
        out = front;
        let mut front = self.2.__autarkie_serialize();
        front.append(&mut out);
        out = front;
        let mut front = self.1.__autarkie_serialize();
        front.append(&mut out);
        out = front;
        let mut front = self.0.__autarkie_serialize();
        front.append(&mut out);
        out = front;
        out
    }

    /// Reads the elements in turn.
    #[verifier::spinoff_prover]
    #[verifier::rlimit(50)]
    fn __autarkie_deserialize(data: &[u8], pos: usize) -> (r: Option<(Self, usize)>) {
        proof {
            assert(data@.skip(pos as int) =~= data@.skip(pos as int));
        }
        proof {
            if Self::is_lawful() {
            assert forall|x: Self| #[trigger] x.spec_serialize().is_prefix_of(data@.skip(pos as int)) implies {
                &&& x.0.spec_serialize().is_prefix_of(data@.skip(pos as int))
                &&& (x.1.spec_serialize() + (x.2.spec_serialize() + (x.3.spec_serialize() + (x.4.spec_serialize() + (x.5.spec_serialize() + (x.6.spec_serialize() + (x.7.spec_serialize() + (x.8.spec_serialize() + (x.9.spec_serialize() + (x.10.spec_serialize() + (x.11.spec_serialize()))))))))))).is_prefix_of(data@.skip(pos + x.0.spec_serialize().len()))
            } by {
                lemma_tag_then(x.0.spec_serialize(), x.1.spec_serialize() + (x.2.spec_serialize() + (x.3.spec_serialize() + (x.4.spec_serialize() + (x.5.spec_serialize() + (x.6.spec_serialize() + (x.7.spec_serialize() + (x.8.spec_serialize() + (x.9.spec_serialize() + (x.10.spec_serialize() + (x.11.spec_serialize())))))))))), data@.skip(pos as int));
                assert(data@.skip(pos as int).skip(x.0.spec_serialize().len() as int) =~= data@.skip(pos + x.0.spec_serialize().len()));
            }
            }
        }
        let (v0, e0) = match A::__autarkie_deserialize(data, pos) {
            Some(r) => r,
            None => {
                proof {
                    if Self::is_lawful() {
                    assert forall|x: Self| !#[trigger] x.spec_serialize().is_prefix_of(data@.skip(pos as int)) by {
                        if x.spec_serialize().is_prefix_of(data@.skip(pos as int)) {
                            assert(x.0.spec_serialize().is_prefix_of(data@.skip(pos as int)));
                        }
                    }
                    }
                }
                return None;
            },
        };
        proof {
            if Self::is_lawful() {
            assert forall|x: Self| #[trigger] x.spec_serialize().is_prefix_of(data@.skip(pos as int)) implies
                (x.1.spec_serialize() + (x.2.spec_serialize() + (x.3.spec_serialize() + (x.4.spec_serialize() + (x.5.spec_serialize() + (x.6.spec_serialize() + (x.7.spec_serialize() + (x.8.spec_serialize() + (x.9.spec_serialize() + (x.10.spec_serialize() + (x.11.spec_serialize()))))))))))).is_prefix_of(data@.skip(e0 as int)) by {
                assert(x.0.spec_serialize().is_prefix_of(data@.skip(pos as int)));
            }
            }
        }
        proof {
            if Self::is_lawful() {
            assert forall|x: Self| #[trigger] x.spec_serialize().is_prefix_of(data@.skip(pos as int)) implies {
                &&& x.1.spec_serialize().is_prefix_of(data@.skip(e0 as int))
                &&& (x.2.spec_serialize() + (x.3.spec_serialize() + (x.4.spec_serialize() + (x.5.spec_serialize() + (x.6.spec_serialize() + (x.7.spec_serialize() + (x.8.spec_serialize() + (x.9.spec_serialize() + (x.10.spec_serialize() + (x.11.spec_serialize())))))))))).is_prefix_of(data@.skip(e0 + x.1.spec_serialize().len()))
            } by {
                lemma_tag_then(x.1.spec_serialize(), x.2.spec_serialize() + (x.3.spec_serialize() + (x.4.spec_serialize() + (x.5.spec_serialize() + (x.6.spec_serialize() + (x.7.spec_serialize() + (x.8.spec_serialize() + (x.9.spec_serialize() + (x.10.spec_serialize() + (x.11.spec_serialize()))))))))), data@.skip(e0 as int));
                assert(data@.skip(e0 as int).skip(x.1.spec_serialize().len() as int) =~= data@.skip(e0 + x.1.spec_serialize().len()));
            }
            }
        }
        let (v1, e1) = match B::__autarkie_deserialize(data, e0) {
            Some(r) => r,
            None => {
                proof {
                    if Self::is_lawful() {
                    assert forall|x: Self| !#[trigger] x.spec_serialize().is_prefix_of(data@.skip(pos as int)) by {
                        if x.spec_serialize().is_prefix_of(data@.skip(pos as int)) {
                            assert(x.1.spec_serialize().is_prefix_of(data@.skip(e0 as int)));
                        }
                    }
                    }
                }
                return None;
            },
        };
        proof {
            if Self::is_lawful() {
            assert forall|x: Self| #[trigger] x.spec_serialize().is_prefix_of(data@.skip(pos as int)) implies
                (x.2.spec_serialize() + (x.3.spec_serialize() + (x.4.spec_serialize() + (x.5.spec_serialize() + (x.6.spec_serialize() + (x.7.spec_serialize() + (x.8.spec_serialize() + (x.9.spec_serialize() + (x.10.spec_serialize() + (x.11.spec_serialize())))))))))).is_prefix_of(data@.skip(e1 as int)) by {
                assert(x.1.spec_serialize().is_prefix_of(data@.skip(e0 as int)));
            }
            }
        }
        proof {
            if Self::is_lawful() {
            assert forall|x: Self| #[trigger] x.spec_serialize().is_prefix_of(data@.skip(pos as int)) implies {
                &&& x.2.spec_serialize().is_prefix_of(data@.skip(e1 as int))
                &&& (x.3.spec_serialize() + (x.4.spec_serialize() + (x.5.spec_serialize() + (x.6.spec_serialize() + (x.7.spec_serialize() + (x.8.spec_serialize() + (x.9.spec_serialize() + (x.10.spec_serialize() + (x.11.spec_serialize()))))))))).is_prefix_of(data@.skip(e1 + x.2.spec_serialize().len()))
            } by {
                lemma_tag_then(x.2.spec_serialize(), x.3.spec_serialize() + (x.4.spec_serialize() + (x.5.spec_serialize() + (x.6.spec_serialize() + (x.7.spec_serialize() + (x.8.spec_serialize() + (x.9.spec_serialize() + (x.10.spec_serialize() + (x.11.spec_serialize())))))))), data@.skip(e1 as int));
                assert(data@.skip(e1 as int).skip(x.2.spec_serialize().len() as int) =~= data@.skip(e1 + x.2.spec_serialize().len()));
            }
            }
        }
        let (v2, e2) = match C::__autarkie_deserialize(data, e1) {
            Some(r) => r,
            None => {
                proof {
                    if Self::is_lawful() {
                    assert forall|x: Self| !#[trigger] x.spec_serialize().is_prefix_of(data@.skip(pos as int)) by {
                        if x.spec_serialize().is_prefix_of(data@.skip(pos as int)) {
                            assert(x.2.spec_serialize().is_prefix_of(data@.skip(e1 as int)));
                        }
                    }
                    }
                }
                return None;
            },
        };
        proof {
            if Self::is_lawful() {
            assert forall|x: Self| #[trigger] x.spec_serialize().is_prefix_of(data@.skip(pos as int)) implies
                (x.3.spec_serialize() + (x.4.spec_serialize() + (x.5.spec_serialize() + (x.6.spec_serialize() + (x.7.spec_serialize() + (x.8.spec_serialize() + (x.9.spec_serialize() + (x.10.spec_serialize() + (x.11.spec_serialize()))))))))).is_prefix_of(data@.skip(e2 as int)) by {
                assert(x.2.spec_serialize().is_prefix_of(data@.skip(e1 as int)));
            }
            }
        }
        proof {
            if Self::is_lawful() {
            assert forall|x: Self| #[trigger] x.spec_serialize().is_prefix_of(data@.skip(pos as int)) implies {
                &&& x.3.spec_serialize().is_prefix_of(data@.skip(e2 as int))
                &&& (x.4.spec_serialize() + (x.5.spec_serialize() + (x.6.spec_serialize() + (x.7.spec_serialize() + (x.8.spec_serialize() + (x.9.spec_serialize() + (x.10.spec_serialize() + (x.11.spec_serialize())))))))).is_prefix_of(data@.skip(e2 + x.3.spec_serialize().len()))
            } by {
                lemma_tag_then(x.3.spec_serialize(), x.4.spec_serialize() + (x.5.spec_serialize() + (x.6.spec_serialize() + (x.7.spec_serialize() + (x.8.spec_serialize() + (x.9.spec_serialize() + (x.10.spec_serialize() + (x.11.spec_serialize()))))))), data@.skip(e2 as int));
                assert(data@.skip(e2 as int).skip(x.3.spec_serialize().len() as int) =~= data@.skip(e2 + x.3.spec_serialize().len()));
            }
            }
        }
        let (v3, e3) = match D::__autarkie_deserialize(data, e2) {
            Some(r) => r,
            None => {
                proof {
                    if Self::is_lawful() {
                    assert forall|x: Self| !#[trigger] x.spec_serialize().is_prefix_of(data@.skip(pos as int)) by {
                        if x.spec_serialize().is_prefix_of(data@.skip(pos as int)) {
                            assert(x.3.spec_serialize().is_prefix_of(data@.skip(e2 as int)));
                        }
                    }
                    }
                }
                return None;
            },
        };
        proof {
            if Self::is_lawful() {
            assert forall|x: Self| #[trigger] x.spec_serialize().is_prefix_of(data@.skip(pos as int)) implies
                (x.4.spec_serialize() + (x.5.spec_serialize() + (x.6.spec_serialize() + (x.7.spec_serialize() + (x.8.spec_serialize() + (x.9.spec_serialize() + (x.10.spec_serialize() + (x.11.spec_serialize())))))))).is_prefix_of(data@.skip(e3 as int)) by {
                assert(x.3.spec_serialize().is_prefix_of(data@.skip(e2 as int)));
            }
            }
        }
        proof {
            if Self::is_lawful() {
            assert forall|x: Self| #[trigger] x.spec_serialize().is_prefix_of(data@.skip(pos as int)) implies {
                &&& x.4.spec_serialize().is_prefix_of(data@.skip(e3 as int))
                &&& (x.5.spec_serialize() + (x.6.spec_serialize() + (x.7.spec_serialize() + (x.8.spec_serialize() + (x.9.spec_serialize() + (x.10.spec_serialize() + (x.11.spec_serialize()))))))).is_prefix_of(data@.skip(e3 + x.4.spec_serialize().len()))
            } by {
                lemma_tag_then(x.4.spec_serialize(), x.5.spec_serialize() + (x.6.spec_serialize() + (x.7.spec_serialize() + (x.8.spec_serialize() + (x.9.spec_serialize() + (x.10.spec_serialize() + (x.11.spec_serialize())))))), data@.skip(e3 as int));
                assert(data@.skip(e3 as int).skip(x.4.spec_serialize().len() as int) =~= data@.skip(e3 + x.4.spec_serialize().len()));
            }
            }
        }
        let (v4, e4) = match E::__autarkie_deserialize(data, e3) {
            Some(r) => r,
            None => {
                proof {
                    if Self::is_lawful() {
                    assert forall|x: Self| !#[trigger] x.spec_serialize().is_prefix_of(data@.skip(pos as int)) by {
                        if x.spec_serialize().is_prefix_of(data@.skip(pos as int)) {
                            assert(x.4.spec_serialize().is_prefix_of(data@.skip(e3 as int)));
                        }
                    }
                    }
                }
                return None;
            },
        };
        proof {
            if Self::is_lawful() {
            assert forall|x: Self| #[trigger] x.spec_serialize().is_prefix_of(data@.skip(pos as int)) implies
                (x.5.spec_serialize() + (x.6.spec_serialize() + (x.7.spec_serialize() + (x.8.spec_serialize() + (x.9.spec_serialize() + (x.10.spec_serialize() + (x.11.spec_serialize()))))))).is_prefix_of(data@.skip(e4 as int)) by {
                assert(x.4.spec_serialize().is_prefix_of(data@.skip(e3 as int)));
            }
            }
        }
        proof {
            if Self::is_lawful() {
            assert forall|x: Self| #[trigger] x.spec_serialize().is_prefix_of(data@.skip(pos as int)) implies {
                &&& x.5.spec_serialize().is_prefix_of(data@.skip(e4 as int))
                &&& (x.6.spec_serialize() + (x.7.spec_serialize() + (x.8.spec_serialize() + (x.9.spec_serialize() + (x.10.spec_serialize() + (x.11.spec_serialize())))))).is_prefix_of(data@.skip(e4 + x.5.spec_serialize().len()))
            } by {
                lemma_tag_then(x.5.spec_serialize(), x.6.spec_serialize() + (x.7.spec_serialize() + (x.8.spec_serialize() + (x.9.spec_serialize() + (x.10.spec_serialize() + (x.11.spec_serialize()))))), data@.skip(e4 as int));
                assert(data@.skip(e4 as int).skip(x.5.spec_serialize().len() as int) =~= data@.skip(e4 + x.5.spec_serialize().len()));
            }
            }
        }
        let (v5, e5) = match F::__autarkie_deserialize(data, e4) {
            Some(r) => r,
            None => {
                proof {
                    if Self::is_lawful() {
                    assert forall|x: Self| !#[trigger] x.spec_serialize().is_prefix_of(data@.skip(pos as int)) by {
                        if x.spec_serialize().is_prefix_of(data@.skip(pos as int)) {
                            assert(x.5.spec_serialize().is_prefix_of(data@.skip(e4 as int)));
                        }
                    }
                    }
                }
                return None;
            },
        };
        proof {
            if Self::is_lawful() {
            assert forall|x: Self| #[trigger] x.spec_serialize().is_prefix_of(data@.skip(pos as int)) implies
                (x.6.spec_serialize() + (x.7.spec_serialize() + (x.8.spec_serialize() + (x.9.spec_serialize() + (x.10.spec_serialize() + (x.11.spec_serialize())))))).is_prefix_of(data@.skip(e5 as int)) by {
                assert(x.5.spec_serialize().is_prefix_of(data@.skip(e4 as int)));
            }
            }
        }
        proof {
            if Self::is_lawful() {
            assert forall|x: Self| #[trigger] x.spec_serialize().is_prefix_of(data@.skip(pos as int)) implies {
                &&& x.6.spec_serialize().is_prefix_of(data@.skip(e5 as int))
                &&& (x.7.spec_serialize() + (x.8.spec_serialize() + (x.9.spec_serialize() + (x.10.spec_serialize() + (x.11.spec_serialize()))))).is_prefix_of(data@.skip(e5 + x.6.spec_serialize().len()))
            } by {
                lemma_tag_then(x.6.spec_serialize(), x.7.spec_serialize() + (x.8.spec_serialize() + (x.9.spec_serialize() + (x.10.spec_serialize() + (x.11.spec_serialize())))), data@.skip(e5 as int));
                assert(data@.skip(e5 as int).skip(x.6.spec_serialize().len() as int) =~= data@.skip(e5 + x.6.spec_serialize().len()));
            }
            }
        }
        let (v6, e6) = match G::__autarkie_deserialize(data, e5) {
            Some(r) => r,
            None => {
                proof {
                    if Self::is_lawful() {
                    assert forall|x: Self| !#[trigger] x.spec_serialize().is_prefix_of(data@.skip(pos as int)) by {
                        if x.spec_serialize().is_prefix_of(data@.skip(pos as int)) {
                            assert(x.6.spec_serialize().is_prefix_of(data@.skip(e5 as int)));
                        }
                    }
                    }
                }
                return None;
            },
        };
        proof {
            if Self::is_lawful() {
            assert forall|x: Self| #[trigger] x.spec_serialize().is_prefix_of(data@.skip(pos as int)) implies
                (x.7.spec_serialize() + (x.8.spec_serialize() + (x.9.spec_serialize() + (x.10.spec_serialize() + (x.11.spec_serialize()))))).is_prefix_of(data@.skip(e6 as int)) by {
                assert(x.6.spec_serialize().is_prefix_of(data@.skip(e5 as int)));
            }
            }
        }
        proof {
            if Self::is_lawful() {
            assert forall|x: Self| #[trigger] x.spec_serialize().is_prefix_of(data@.skip(pos as int)) implies {
                &&& x.7.spec_serialize().is_prefix_of(data@.skip(e6 as int))
                &&& (x.8.spec_serialize() + (x.9.spec_serialize() + (x.10.spec_serialize() + (x.11.spec_serialize())))).is_prefix_of(data@.skip(e6 + x.7.spec_serialize().len()))
            } by {
                lemma_tag_then(x.7.spec_serialize(), x.8.spec_serialize() + (x.9.spec_serialize() + (x.10.spec_serialize() + (x.11.spec_serialize()))), data@.skip(e6 as int));
                assert(data@.skip(e6 as int).skip(x.7.spec_serialize().len() as int) =~= data@.skip(e6 + x.7.spec_serialize().len()));
            }
            }
        }
        let (v7, e7) = match H::__autarkie_deserialize(data, e6) {
            Some(r) => r,
            None => {
                proof {
                    if Self::is_lawful() {
                    assert forall|x: Self| !#[trigger] x.spec_serialize().is_prefix_of(data@.skip(pos as int)) by {
                        if x.spec_serialize().is_prefix_of(data@.skip(pos as int)) {
                            assert(x.7.spec_serialize().is_prefix_of(data@.skip(e6 as int)));
                        }
                    }
                    }
                }
                return None;
            },
        };
        proof {
            if Self::is_lawful() {
            assert forall|x: Self| #[trigger] x.spec_serialize().is_prefix_of(data@.skip(pos as int)) implies
                (x.8.spec_serialize() + (x.9.spec_serialize() + (x.10.spec_serialize() + (x.11.spec_serialize())))).is_prefix_of(data@.skip(e7 as int)) by {
                assert(x.7.spec_serialize().is_prefix_of(data@.skip(e6 as int)));
            }
            }
        }
        proof {
            if Self::is_lawful() {
            assert forall|x: Self| #[trigger] x.spec_serialize().is_prefix_of(data@.skip(pos as int)) implies {
                &&& x.8.spec_serialize().is_prefix_of(data@.skip(e7 as int))
                &&& (x.9.spec_serialize() + (x.10.spec_serialize() + (x.11.spec_serialize()))).is_prefix_of(data@.skip(e7 + x.8.spec_serialize().len()))
            } by {
                lemma_tag_then(x.8.spec_serialize(), x.9.spec_serialize() + (x.10.spec_serialize() + (x.11.spec_serialize())), data@.skip(e7 as int));
                assert(data@.skip(e7 as int).skip(x.8.spec_serialize().len() as int) =~= data@.skip(e7 + x.8.spec_serialize().len()));
            }
            }
        }
        let (v8, e8) = match I::__autarkie_deserialize(data, e7) {
            Some(r) => r,
            None => {
                proof {
                    if Self::is_lawful() {
                    assert forall|x: Self| !#[trigger] x.spec_serialize().is_prefix_of(data@.skip(pos as int)) by {
                        if x.spec_serialize().is_prefix_of(data@.skip(pos as int)) {
                            assert(x.8.spec_serialize().is_prefix_of(data@.skip(e7 as int)));
                        }
                    }
                    }
                }
                return None;
            },
        };
        proof {
            if Self::is_lawful() {
            assert forall|x: Self| #[trigger] x.spec_serialize().is_prefix_of(data@.skip(pos as int)) implies
                (x.9.spec_serialize() + (x.10.spec_serialize() + (x.11.spec_serialize()))).is_prefix_of(data@.skip(e8 as int)) by {
                assert(x.8.spec_serialize().is_prefix_of(data@.skip(e7 as int)));
            }
            }
        }
        proof {
            if Self::is_lawful() {
            assert forall|x: Self| #[trigger] x.spec_serialize().is_prefix_of(data@.skip(pos as int)) implies {
                &&& x.9.spec_serialize().is_prefix_of(data@.skip(e8 as int))
                &&& (x.10.spec_serialize() + (x.11.spec_serialize())).is_prefix_of(data@.skip(e8 + x.9.spec_serialize().len()))
            } by {
                lemma_tag_then(x.9.spec_serialize(), x.10.spec_serialize() + (x.11.spec_serialize()), data@.skip(e8 as int));
                assert(data@.skip(e8 as int).skip(x.9.spec_serialize().len() as int) =~= data@.skip(e8 + x.9.spec_serialize().len()));
            }
            }
        }
        let (v9, e9) = match J::__autarkie_deserialize(data, e8) {
            Some(r) => r,
            None => {
                proof {
                    if Self::is_lawful() {
                    assert forall|x: Self| !#[trigger] x.spec_serialize().is_prefix_of(data@.skip(pos as int)) by {
                        if x.spec_serialize().is_prefix_of(data@.skip(pos as int)) {
                            assert(x.9.spec_serialize().is_prefix_of(data@.skip(e8 as int)));
                        }
                    }
                    }
                }
                return None;
            },
        };
        proof {
            if Self::is_lawful() {
            assert forall|x: Self| #[trigger] x.spec_serialize().is_prefix_of(data@.skip(pos as int)) implies
                (x.10.spec_serialize() + (x.11.spec_serialize())).is_prefix_of(data@.skip(e9 as int)) by {
                assert(x.9.spec_serialize().is_prefix_of(data@.skip(e8 as int)));
            }
            }
        }
        proof {
            if Self::is_lawful() {
            assert forall|x: Self| #[trigger] x.spec_serialize().is_prefix_of(data@.skip(pos as int)) implies {
                &&& x.10.spec_serialize().is_prefix_of(data@.skip(e9 as int))
                &&& (x.11.spec_serialize()).is_prefix_of(data@.skip(e9 + x.10.spec_serialize().len()))
            } by {
                lemma_tag_then(x.10.spec_serialize(), x.11.spec_serialize(), data@.skip(e9 as int));
                assert(data@.skip(e9 as int).skip(x.10.spec_serialize().len() as int) =~= data@.skip(e9 + x.10.spec_serialize().len()));
            }
            }
        }
        let (v10, e10) = match K::__autarkie_deserialize(data, e9) {
            Some(r) => r,
            None => {
                proof {
                    if Self::is_lawful() {
                    assert forall|x: Self| !#[trigger] x.spec_serialize().is_prefix_of(data@.skip(pos as int)) by {
                        if x.spec_serialize().is_prefix_of(data@.skip(pos as int)) {
                            assert(x.10.spec_serialize().is_prefix_of(data@.skip(e9 as int)));
                        }
                    }
                    }
                }
                return None;
            },
        };
        proof {
            if Self::is_lawful() {
            assert forall|x: Self| #[trigger] x.spec_serialize().is_prefix_of(data@.skip(pos as int)) implies
                (x.11.spec_serialize()).is_prefix_of(data@.skip(e10 as int)) by {
                assert(x.10.spec_serialize().is_prefix_of(data@.skip(e9 as int)));
            }
            }
        }
        let (v11, e11) = match L::__autarkie_deserialize(data, e10) {
            Some(r) => r,
            None => {
                proof {
                    if Self::is_lawful() {
                    assert forall|x: Self| !#[trigger] x.spec_serialize().is_prefix_of(data@.skip(pos as int)) by {
                        if x.spec_serialize().is_prefix_of(data@.skip(pos as int)) {
                            assert(x.11.spec_serialize().is_prefix_of(data@.skip(e10 as int)));
                        }
                    }
                    }
                }
                return None;
            },
        };
        let r = (v0, v1, v2, v3, v4, v5, v6, v7, v8, v9, v10, v11);
        proof {
            if Self::is_lawful() {
            assert forall|x: Self| #[trigger] x.spec_serialize().is_prefix_of(data@.skip(pos as int)) implies
                r.spec_serialize() == x.spec_serialize() && e11 == pos + x.spec_serialize().len() by {
                assert(x.0.spec_serialize().is_prefix_of(data@.skip(pos as int)));
                assert(v0.spec_serialize() == x.0.spec_serialize());
                assert(x.1.spec_serialize().is_prefix_of(data@.skip(e0 as int)));
                assert(v1.spec_serialize() == x.1.spec_serialize());
                assert(x.2.spec_serialize().is_prefix_of(data@.skip(e1 as int)));
                assert(v2.spec_serialize() == x.2.spec_serialize());
                assert(x.3.spec_serialize().is_prefix_of(data@.skip(e2 as int)));
                assert(v3.spec_serialize() == x.3.spec_serialize());
                assert(x.4.spec_serialize().is_prefix_of(data@.skip(e3 as int)));
                assert(v4.spec_serialize() == x.4.spec_serialize());
                assert(x.5.spec_serialize().is_prefix_of(data@.skip(e4 as int)));
                assert(v5.spec_serialize() == x.5.spec_serialize());
                assert(x.6.spec_serialize().is_prefix_of(data@.skip(e5 as int)));
                assert(v6.spec_serialize() == x.6.spec_serialize());
                assert(x.7.spec_serialize().is_prefix_of(data@.skip(e6 as int)));
                assert(v7.spec_serialize() == x.7.spec_serialize());
                assert(x.8.spec_serialize().is_prefix_of(data@.skip(e7 as int)));
                assert(v8.spec_serialize() == x.8.spec_serialize());
                assert(x.9.spec_serialize().is_prefix_of(data@.skip(e8 as int)));
                assert(v9.spec_serialize() == x.9.spec_serialize());
                assert(x.10.spec_serialize().is_prefix_of(data@.skip(e9 as int)));
                assert(v10.spec_serialize() == x.10.spec_serialize());
                assert(x.11.spec_serialize().is_prefix_of(data@.skip(e10 as int)));
                assert(v11.spec_serialize() == x.11.spec_serialize());
            }
            }
        }
        Some((r, e11))
    }

    fn __autarkie_id_name() -> (r: String) {
        let mut r = "(".to_owned();
        let n0 = A::__autarkie_id_name();
        r.append(n0.as_str());
        r.append(", ");
        let n1 = B::__autarkie_id_name();
        r.append(n1.as_str());
        r.append(", ");
        let n2 = C::__autarkie_id_name();
        r.append(n2.as_str());
        r.append(", ");
        let n3 = D::__autarkie_id_name();
        r.append(n3.as_str());
        r.append(", ");
        let n4 = E::__autarkie_id_name();
        r.append(n4.as_str());
        r.append(", ");
        let n5 = F::__autarkie_id_name();
        r.append(n5.as_str());
        r.append(", ");
        let n6 = G::__autarkie_id_name();
        r.append(n6.as_str());
        r.append(", ");
        let n7 = H::__autarkie_id_name();
        r.append(n7.as_str());
        r.append(", ");
        let n8 = I::__autarkie_id_name();
        r.append(n8.as_str());
        r.append(", ");
        let n9 = J::__autarkie_id_name();
        r.append(n9.as_str());
        r.append(", ");
        let n10 = K::__autarkie_id_name();
        r.append(n10.as_str());
        r.append(", ");
        let n11 = L::__autarkie_id_name();
        r.append(n11.as_str());
        r.append(")");
        assert(r@ == Self::spec_name());
        r
    }
}

} // verus!
