//! Fixed-length arrays of grammar values.
use vstd::prelude::*;
use vstd::string::StringExecFns;
use std::collections::VecDeque;
use crate::containers::{
    record_items_serialized, record_item_fields, record_item_cmps, serialize_concat, deserialize_n,
};
use crate::node::{
    seq_field_count, seq_comparison_operands, seq_records, seq_record_types, Node, MutationType, GenerateSettings, seq_bytes, attempts_generated, lemma_attempts_empty, lemma_attempts_push, entered, parent_id,
    child_registered, items_walked};
use crate::visitor::{Id, NodeType, Visitor};
use crate::prefix::group_prefix;

verus! {

broadcast use group_prefix, Visitor::lemma_extends_refl, Visitor::lemma_extends_trans;

/// The character of a decimal digit.
pub open spec fn spec_digit(d: nat) -> char {
    (48 + d) as char
}

/// The decimal digits of a number, most significant first.
pub open spec fn spec_decimal(n: nat) -> Seq<char>
    decreases n,
{
    if n < 10 {
        seq![spec_digit(n)]
    } else {
        spec_decimal(n / 10) + seq![spec_digit(n % 10)]
    }
}

/// The one-character string of decimal digit `d`.
fn digit_str(d: usize) -> (r: &'static str)
    requires
        d < 10,
    ensures
        r@ == seq![spec_digit(d as nat)],
{
    proof {
        reveal_strlit("0");
        reveal_strlit("1");
        reveal_strlit("2");
        reveal_strlit("3");
        reveal_strlit("4");
        reveal_strlit("5");
        reveal_strlit("6");
        reveal_strlit("7");
        reveal_strlit("8");
        reveal_strlit("9");
    }
    if d == 0 {
        "0"
    } else if d == 1 {
        "1"
    } else if d == 2 {
        "2"
    } else if d == 3 {
        "3"
    } else if d == 4 {
        "4"
    } else if d == 5 {
        "5"
    } else if d == 6 {
        "6"
    } else if d == 7 {
        "7"
    } else if d == 8 {
        "8"
    } else {
        "9"
    }
}

/// The number's decimal digits, with no sign, no leading zeros and no
/// separators, as `usize::to_string` writes them.
fn usize_to_decimal(n: usize) -> (r: String)
    ensures
        r@ == spec_decimal(n as nat),
    decreases n,
{
    if n < 10 {
        String::from_str(digit_str(n))
    } else {
        let mut r = usize_to_decimal(n / 10);
        r.append(digit_str(n % 10));
        r
    }
}

/// `<[T; N]>::try_from(Vec<T>)`: the items of the vector as an array where
/// there are exactly `N` of them, the vector itself otherwise.
#[verifier::external_body]
fn vec_into_array<T, const N: usize>(v: Vec<T>) -> (r: Result<[T; N], Vec<T>>)
    ensures
        r is Ok <==> v@.len() == N,
        r matches Ok(a) ==> a@ == v@,
{
    v.try_into()
}

impl<T: Node, const N: usize> Node for [T; N] {
    open spec fn spec_serialize(&self) -> Seq<u8> {
        seq_bytes(self@)
    }

    open spec fn spec_name() -> Seq<char> {
        "["@ + T::spec_name() + "; "@ + spec_decimal(N as nat) + "]"@
    }

    open spec fn is_lawful() -> bool {
        T::is_lawful()
    }

    open spec fn read_ok(bytes: Seq<u8>) -> bool {
        Self::is_lawful() && exists|x: Self| #[trigger] x.spec_serialize().is_prefix_of(bytes)
    }

    /// For a lawful type, a value read encodes as the start of the bytes,
    /// as any value whose encoding starts them does.
    open spec fn reading(bytes: Seq<u8>, v: Self) -> bool {
        Self::is_lawful() ==> {
            &&& v.spec_serialize().is_prefix_of(bytes)
            &&& forall|x: Self| #[trigger] x.spec_serialize().is_prefix_of(bytes) ==> v.spec_serialize()
                == x.spec_serialize()
        }
    }

    open spec fn encodes_exactly() -> bool {
        T::encodes_exactly()
    }

    open spec fn walks_known() -> bool {
        T::walks_known()
    }

    open spec fn first_name_ok(name: Seq<char>) -> bool {
        name == T::spec_name() || T::first_name_ok(name)
    }

    open spec fn always_generates() -> bool {
        T::always_generates()
    }

    /// Each item is walked in turn, inside a field at its position.
    open spec fn walk(&self, index: usize, compared: Option<(u64, u64)>, before: Visitor, after: Visitor) -> bool {
        items_walked(self@, compared, before, after)
    }

    /// Where generation succeeds, the items are what generating them in
    /// turn gave.
    open spec fn generation(before: Visitor, settings: Option<GenerateSettings>, r: Option<Self>, after: Visitor) -> bool {
        &&& after.draws_only(&before)
        &&& exists|rs: Seq<Option<T>>| {
            &&& #[trigger] attempts_generated::<T>(before, rs, after)
            &&& rs.len() == N
            &&& match r {
                Some(a) => forall|i: int| 0 <= i < N ==> rs[i] == Some(a@[i]),
                None => exists|i: int| 0 <= i < N && rs[i] is None,
            }
        }
    }

    open spec fn field_count(&self) -> nat {
        seq_field_count(self@)
    }

    open spec fn comparison_operands(&self, val: (u64, u64)) -> Seq<Seq<u8>> {
        seq_comparison_operands(self@, val)
    }

    open spec fn serialized_records(&self) -> Seq<Seq<u8>> {
        seq_records(self@)
    }

    open spec fn serialized_record_types(&self) -> Seq<Seq<char>> {
        seq_record_types(self@)
    }

    /// Along a path, the item at its first index is mutated along the rest
    /// of it and the others are kept; at its end, the array is replaced.
    open spec fn mutation(&self, ty: &MutationType, path: Seq<usize>, before: Visitor, after: Self, after_v: Visitor) -> bool {
        if path.len() > 0 {
            &&& forall|j: int| 0 <= j < N && j != path[0] ==> after@[j] == self@[j]
            &&& self@[path[0] as int].mutation(ty, path.drop_first(), before, after@[path[0] as int], after_v)
        } else {
            match *ty {
                MutationType::Splice(b) => {
                    &&& after_v == before
                    &&& Self::is_lawful() ==> forall|x: Self| #[trigger] x.spec_serialize().is_prefix_of((**b)@)
                        ==> after.spec_serialize() == x.spec_serialize()
                },
                MutationType::GenerateReplace(_) => {
                    ||| after == *self && Self::generation(before, None, None, after_v)
                    ||| exists|generated: Visitor| {
                        &&& #[trigger] Self::generation(before, None, Some(after), generated)
                        &&& after_v.keeps_state(&generated)
                        &&& after_v.fields() == generated.fields()
                        &&& after_v.operands() == generated.operands()
                        &&& Self::walks_known() ==> after_v.serialized().len() == generated.serialized().len()
                            + after.serialized_records().len()
                        &&& Self::walks_known() && Self::encodes_exactly() ==> after_v.serialized_bytes()
                            == generated.serialized_bytes() + after.serialized_records()
                    }
                },
                _ => true,
            }
        }
    }

    open spec fn generate_ok(settings: GenerateSettings, rng: u64) -> bool {
        true
    }

    open spec fn mutate_ok(&self, ty: &MutationType, path: Seq<usize>) -> bool {
        if path.len() > 0 {
            &&& path[0] < N
            &&& self@[path[0] as int].mutate_ok(ty, path.drop_first())
        } else {
            &&& (*ty is Splice || *ty is GenerateReplace)
            &&& (*ty matches MutationType::Splice(b) ==> (Self::is_lawful() ==> exists|x: Self| #[trigger] x.spec_serialize().is_prefix_of((**b)@)))
        }
    }

    /// Generates `N` items in turn, all with the same depth budget; gives
    /// up where one of them could not be generated.
    fn __autarkie_generate(
        visitor: &mut Visitor,
        depth: &mut usize,
        cur_depth: usize,
        settings: Option<GenerateSettings>,
    ) -> (r: Option<Self>) {
        let mut items: Vec<T> = Vec::new();
        let mut i: usize = 0;
        let ghost mut rs: Seq<Option<T>> = Seq::empty();
        proof {
            lemma_attempts_empty::<T>(*visitor);
        }
        while i < N
            invariant
                i <= N,
                rs.len() == i,
                items@.len() <= i,
                T::always_generates() ==> items@.len() == i,
                visitor.draws_only(&*old(visitor)),
                attempts_generated::<T>(*old(visitor), rs, *visitor),
                items@.len() == i ==> forall|j: int| 0 <= j < i ==> rs[j] == Some(items@[j]),
                items@.len() < i ==> exists|j: int| 0 <= j < i && rs[j] is None,
                *depth == *old(depth),
            decreases N - i,
        {
            let ghost prev = *visitor;
            let ghost before_items = items@;
            let ghost before_rs = rs;
            let res = T::__autarkie_generate(visitor, depth, cur_depth, None);
            let ghost gres = res;
            proof {
                lemma_attempts_push::<T>(*old(visitor), before_rs, prev, gres, *visitor);
                rs = before_rs.push(gres);
            }
            match res {
                Some(x) => {
                    items.push(x);
                    proof {
                        if before_items.len() == i {
                            assert forall|j: int| 0 <= j < i + 1 implies rs[j] == Some(items@[j]) by {
                                if j < i {
                                    assert(rs[j] == before_rs[j]);
                                }
                            }
                        } else {
                            let j = choose|j: int| 0 <= j < i && before_rs[j] is None;
                            assert(rs[j] == before_rs[j]);
                        }
                    }
                },
                None => {
                    proof {
                        assert(rs[i as int] is None);
                        if before_items.len() < i {
                            let j = choose|j: int| 0 <= j < i && before_rs[j] is None;
                            assert(rs[j] == before_rs[j]);
                        }
                    }
                },
            }
            i = i + 1;
        }
        match vec_into_array::<T, N>(items) {
            Ok(a) => Some(a),
            Err(_) => None,
        }
    }

    /// Records the encoding of each item, then what each item records.
    fn __autarkie_serialized(&self, visitor: &mut Visitor) {
        record_items_serialized(self.as_slice(), visitor);
    }

    /// A sequence of fixed length `N`.
    open spec fn node_shape(&self, shape: NodeType) -> bool {
        shape matches NodeType::Iterable(fixed, n, _) && fixed && n == N
    }

    fn __autarkie_node_ty(&self, visitor: &Visitor) -> (r: NodeType) {
        NodeType::Iterable(true, N, T::__autarkie_id())
    }

    /// The held type registered in its place: its own registration, or one
    /// edge to it where it is being registered already.
    open spec fn registration(before: Visitor, parent: Option<Id>, variant: usize, after: Visitor) -> bool {
        child_registered::<T>(before, parent, variant, after)
    }

    /// Registers the item type, or, where it is being registered already,
    /// records the edge to it and goes no deeper.
    fn __autarkie_register(v: &mut Visitor, parent: Option<(Id, String)>, variant: usize) {
        if !v.is_recursive(T::__autarkie_id()) {
            T::__autarkie_register(v, parent, variant);
        } else {
            let ghost before = *v;
            let child = T::register_self(v, parent, variant);
            let ghost id = child.0;
            let ghost mid = *v;
            v.pop_ty();
            proof {
                assert(entered(before, parent_id(parent), variant, T::spec_name(), id, mid));
            }
        }
    }

    /// Along the path, mutates the item at its first index; at its end,
    /// replaces the array by the one the bytes encode or by a generated one.
    fn __autarkie_mutate(
        &mut self,
        ty: &mut MutationType,
        visitor: &mut Visitor,
        path: VecDeque<usize>,
    )
    {
        let mut path = path;
        match path.pop_front() {
            Some(popped) => {
                self[popped].__autarkie_mutate(ty, visitor, path);
            },
            None => {
                match ty {
                    MutationType::Splice(other) => {
                        let bytes: &[u8] = **other;
                        proof {
                            assert(bytes@.skip(0) =~= bytes@);
                        }
                        match Self::__autarkie_deserialize(bytes, 0) {
                            Some((a, end)) => {
                                proof {
                                    if Self::is_lawful() {
                                        assert(a.spec_serialize() =~= bytes@.subrange(0, a.spec_serialize().len() as int));
                                        assert(a.spec_serialize().is_prefix_of(bytes@));
                                    }
                                }
                                *self = a;
                            },
                            None => {},
                        }
                    },
                    MutationType::GenerateReplace(bias) => {
                        match Self::__autarkie_generate(visitor, bias, 0, None) {
                            Some(generated) => {
                                *self = generated;
                                let ghost g = *visitor;
                                self.__autarkie_serialized(visitor);
                                proof {
                                    assert(Self::generation(*old(visitor), None, Some(*self), g));
                                }
                            },
                            None => {},
                        }
                    },
                    _ => {
                        proof {
                            assert(false);
                        }
                    },
                }
            },
        }
    }

    /// Enters each item as a field, at its index, and records its fields.
    fn __autarkie_fields(&self, visitor: &mut Visitor, index: usize) {
        record_item_fields(self.as_slice(), visitor);
    }

    /// Enters each item as a field, at its index, and records its
    /// comparison operands.
    fn __autarkie_cmps(&self, visitor: &mut Visitor, index: usize, __autarkie_val: (u64, u64)) {
        record_item_cmps(self.as_slice(), visitor, __autarkie_val);
    }

    /// The items one after the other, with no length before them.
    fn __autarkie_serialize(&self) -> (r: Vec<u8>) {
        serialize_concat(self.as_slice())
    }

    /// Reads `N` items in turn.
    fn __autarkie_deserialize(data: &[u8], pos: usize) -> (r: Option<(Self, usize)>) {
        let count: u64 = N as u64;
        match deserialize_n::<T>(data, pos, count) {
            Some((items, end)) => {
                match vec_into_array::<T, N>(items) {
                    Ok(a) => {
                        proof {
                            if T::is_lawful() {
                                assert forall|x: Self| #[trigger] x.spec_serialize().is_prefix_of(data@.skip(pos as int)) implies
                                    seq_bytes(a@) == seq_bytes(x@) && end == pos + x.spec_serialize().len() by {
                                    assert(seq_bytes(x@).is_prefix_of(data@.skip(pos as int)));
                                }
                            }
                        }
                        Some((a, end))
                    },
                    Err(_) => None,
                }
            },
            None => {
                proof {
                    if T::is_lawful() {
                        assert forall|x: Self| !#[trigger] x.spec_serialize().is_prefix_of(data@.skip(pos as int)) by {
                            if x.spec_serialize().is_prefix_of(data@.skip(pos as int)) {
                                assert(seq_bytes(x@).is_prefix_of(data@.skip(pos as int)));
                            }
                        }
                    }
                }
                None
            },
        }
    }

    fn __autarkie_id_name() -> (r: String) {
        let mut r = "[".to_owned();
        let inner = T::__autarkie_id_name();
        r.append(inner.as_str());
        r.append("; ");
        let count = usize_to_decimal(N);
        r.append(count.as_str());
        r.append("]");
        assert(r@ == Self::spec_name());
        r
    }
}

} // verus!
