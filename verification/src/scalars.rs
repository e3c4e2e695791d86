//! The leaves of a grammar: numbers, booleans, characters, strings and the
//! types that hold nothing.
use vstd::prelude::*;
use vstd::slice::slice_subrange;
use vstd::string::StringExecFns;
use std::collections::VecDeque;
use std::marker::PhantomData;
use vstd::utf8::is_scalar;
use crate::codec::{
    spec_u8_from_bytes, spec_u16_from_bytes, spec_u32_from_bytes, spec_u64_from_bytes, spec_u128_from_bytes,
    spec_i8_from_bytes, spec_i16_from_bytes, spec_i32_from_bytes, spec_i64_from_bytes, spec_i128_from_bytes,
    spec_usize_from_bytes, spec_isize_from_bytes,
    spec_bool_bytes, encode_bool, decode_bool, spec_char_bytes, encode_char, decode_char, char_from_u32,
    spec_string_bytes, encode_string, decode_string,
    spec_u8_bytes,
    encode_u8,
    decode_u8,
    lemma_u8_bytes,
    spec_u16_bytes,
    encode_u16,
    decode_u16,
    lemma_u16_bytes,
    spec_u32_bytes,
    encode_u32,
    decode_u32,
    lemma_u32_bytes,
    spec_u64_bytes,
    encode_u64,
    decode_u64,
    lemma_u64_bytes,
    spec_u128_bytes,
    encode_u128,
    decode_u128,
    lemma_u128_bytes,
    spec_i8_bytes,
    encode_i8,
    decode_i8,
    lemma_i8_bytes,
    spec_i16_bytes,
    encode_i16,
    decode_i16,
    lemma_i16_bytes,
    spec_i32_bytes,
    encode_i32,
    decode_i32,
    lemma_i32_bytes,
    spec_i64_bytes,
    encode_i64,
    decode_i64,
    lemma_i64_bytes,
    spec_i128_bytes,
    encode_i128,
    decode_i128,
    lemma_i128_bytes,
    spec_usize_bytes,
    encode_usize,
    decode_usize,
    lemma_usize_bytes,
    spec_isize_bytes,
    encode_isize,
    decode_isize,
    lemma_isize_bytes,
};
use crate::casts::{
    widen_u8,
    narrow_u8,
    operand_of_u8,
    u8_of_operand,
    widen_u16,
    narrow_u16,
    operand_of_u16,
    u16_of_operand,
    widen_u32,
    narrow_u32,
    operand_of_u32,
    u32_of_operand,
    widen_u64,
    narrow_u64,
    operand_of_u64,
    u64_of_operand,
    widen_u128,
    narrow_u128,
    operand_of_u128,
    u128_of_operand,
    widen_i8,
    narrow_i8,
    operand_of_i8,
    i8_of_operand,
    widen_i16,
    narrow_i16,
    operand_of_i16,
    i16_of_operand,
    widen_i32,
    narrow_i32,
    operand_of_i32,
    i32_of_operand,
    widen_i64,
    narrow_i64,
    operand_of_i64,
    i64_of_operand,
    widen_i128,
    narrow_i128,
    operand_of_i128,
    i128_of_operand,
    widen_usize,
    narrow_usize,
    operand_of_usize,
    usize_of_operand,
    widen_isize,
    narrow_isize,
    operand_of_isize,
    isize_of_operand,
};
use crate::node::{Node, MutationType, GenerateSettings, leaf_mutate_ok, one_edge, entered, parent_id, operands_recorded};
use crate::visitor::{Id, NodeType, Visitor, rng_coin, random_bytes, rng_output, rng_after, rng_step};

verus! {

/// A generated number lies in a range: it is the start, or lies between the
/// start and the end, away from zero by less than the end is.
pub open spec fn within_range(r: int, s: int, e: int) -> bool {
    ||| r == s
    ||| (s <= r && -abs(e) < r < abs(e))
}

/// The number a range setting makes of a drawn unsigned number `raw`: its
/// remainder modulo the end, raised to the start where below it.
pub open spec fn range_fold(raw: int, s: int, e: int) -> int {
    if raw % e < s { s } else { raw % e }
}

/// The remainder of `a` by `b` that takes the sign of `a`, as `%` computes
/// it on signed numbers.
pub open spec fn signed_rem(a: int, b: int) -> int {
    if a >= 0 { a % abs(b) } else { -((-a) % abs(b)) }
}

/// Dividing by a number and by its negation leaves the same remainder.
pub proof fn lemma_rem_negated_divisor(x: int, d: int)
    requires
        d != 0,
    ensures
        x % d == x % (-d),
{
    assert(x % d == x % (-d)) by (nonlinear_arith)
        requires
            d != 0,
    ;
}

/// The number a range setting makes of a drawn signed number `raw`: its
/// remainder by the end, with the sign of `raw`, raised to the start where
/// below it.
pub open spec fn signed_range_fold(raw: int, s: int, e: int) -> int {
    if signed_rem(raw, e) < s { s } else { signed_rem(raw, e) }
}

/// The absolute value.
pub open spec fn abs(x: int) -> int {
    if x < 0 { -x } else { x }
}






impl Node for u8 {
    open spec fn node_shape(&self, shape: NodeType) -> bool {
        shape == NodeType::NonRecursive
    }

    open spec fn serialized_record_types(&self) -> Seq<Seq<char>> {
        Seq::empty()
    }

    /// A node with no children of its own.
    fn __autarkie_node_ty(&self, visitor: &Visitor) -> (r: NodeType) {
        NodeType::NonRecursive
    }

    open spec fn spec_serialize(&self) -> Seq<u8> {
        spec_u8_bytes(*self)
    }

    open spec fn spec_name() -> Seq<char> {
        "u8"@
    }

    open spec fn is_lawful() -> bool {
        true
    }

    open spec fn read_ok(bytes: Seq<u8>) -> bool {
        Self::is_lawful() && exists|x: Self| #[trigger] x.spec_serialize().is_prefix_of(bytes)
    }

    /// For a lawful type, a value read encodes as the start of the bytes,
    /// as any value whose encoding starts them does.
    open spec fn reading(bytes: Seq<u8>, v: Self) -> bool {
        Self::is_lawful() ==> {
            &&& v.spec_serialize().is_prefix_of(bytes)
            &&& forall|x: Self| #[trigger] x.spec_serialize().is_prefix_of(bytes) ==> v.spec_serialize()
                == x.spec_serialize()
        }
    }

    open spec fn encodes_exactly() -> bool {
        true
    }

    open spec fn walks_known() -> bool {
        true
    }

    open spec fn first_name_ok(name: Seq<char>) -> bool {
        false
    }

    open spec fn always_generates() -> bool {
        true
    }

    open spec fn field_count(&self) -> nat {
        0
    }

    open spec fn comparison_operands(&self, val: (u64, u64)) -> Seq<Seq<u8>> {
        if val.0 == widen_u8(*self) {
            seq![spec_u8_bytes(narrow_u8(val.1))]
        } else if val.1 == widen_u8(*self) {
            seq![spec_u8_bytes(narrow_u8(val.0))]
        } else {
            Seq::empty()
        }
    }

    open spec fn serialized_records(&self) -> Seq<Seq<u8>> {
        Seq::empty()
    }

    /// Splicing replaces the value by the one the bytes encode; replacing
    /// it by a generated one records the new value's encoding.
    open spec fn mutation(&self, ty: &MutationType, path: Seq<usize>, before: Visitor, after: Self, after_v: Visitor) -> bool {
        match *ty {
            MutationType::Splice(b) => {
                    &&& after_v == before
                    &&& Self::is_lawful() ==> forall|x: Self| #[trigger] x.spec_serialize().is_prefix_of((**b)@)
                        ==> after.spec_serialize() == x.spec_serialize()
                },
            MutationType::GenerateReplace(_) => {
                &&& after == spec_u8_from_bytes(random_bytes(before.rng_state(), 1nat).take(1))
                &&& after_v.serialized().len() == before.serialized().len() + 1
                &&& after_v.serialized_bytes() == before.serialized_bytes().push(after.spec_serialize())
                &&& after_v.serialized_types() == before.serialized_types().push(Self::spec_name())
            },
            _ => true,
        }
    }

    open spec fn generate_ok(settings: GenerateSettings, rng: u64) -> bool {
        settings matches GenerateSettings::Range(r) ==> !r@.exhausted && (r@.end as u8) != 0
    }

    open spec fn mutate_ok(&self, ty: &MutationType, path: Seq<usize>) -> bool {
        &&& leaf_mutate_ok(ty, path)
        &&& (*ty matches MutationType::Splice(b) ==> (Self::is_lawful() ==> exists|x: Self| #[trigger] x.spec_serialize().is_prefix_of((**b)@)))
    }

    /// A leaf has no fields; its comparison operands are recorded.
    open spec fn walk(&self, index: usize, compared: Option<(u64, u64)>, before: Visitor, after: Visitor) -> bool {
        match compared {
            None => after == before,
            Some(val) => operands_recorded(before, self.comparison_operands(val), after),
        }
    }

    /// One registration, of the type itself.
    open spec fn registration(before: Visitor, parent: Option<Id>, variant: usize, after: Visitor) -> bool {
        one_edge(before, parent, variant, Self::spec_name(), after)
    }

    /// Records one edge, to the type itself, and goes no deeper.
    fn __autarkie_register(v: &mut Visitor, parent: Option<(Id, String)>, variant: usize) {
        let ghost before = *v;
        let me = Self::register_self(v, parent, variant);
        let ghost id = me.0;
        let ghost mid = *v;
        v.pop_ty();
        proof {
            assert(entered(before, parent_id(parent), variant, Self::spec_name(), id, mid));
            assert(before.ty_edges().is_prefix_of(v.ty_edges()));
            assert(before.ty_names().is_prefix_of(v.ty_names()));
            assert(v.ty_stack() =~= before.ty_stack());
        }
    }

    /// Generating draws from the visitor's random state and records nothing.
    open spec fn generation(before: Visitor, settings: Option<GenerateSettings>, r: Option<Self>, after: Visitor) -> bool {
        &&& after.draws_only(&before)
        &&& after.rng_state() == (rng_after(before.rng_state(), 1nat))
        &&& !(settings matches Some(GenerateSettings::Range(_))) ==> (r matches Some(x) ==> x == spec_u8_from_bytes( random_bytes(before.rng_state(), 1nat).take(1), ))
        &&& r is Some
        &&& r matches Some(x) ==> (settings matches Some(GenerateSettings::Range(rg)) ==> within_range( x as int, (rg@.start as u8) as int, (rg@.end as u8) as int, ))
        &&& r matches Some(x) ==> (settings matches Some(GenerateSettings::Range(rg)) ==> x as int == range_fold( spec_u8_from_bytes(random_bytes(before.rng_state(), 1nat).take(1)) as int, (rg@.start as u8) as int, (rg@.end as u8) as int, ))
    }

    /// A number read from 1 random byte; within a range, the
    /// remainder modulo its end, raised to its start where below it.
    fn __autarkie_generate(
        v: &mut Visitor,
        depth: &mut usize,
        cur_depth: usize,
        settings: Option<GenerateSettings>,
    ) -> (r: Option<u8>)
    {
        let bytes = v.generate_bytes(1);
        let mut res = decode_u8(bytes.as_slice()).unwrap();
        proof {
            lemma_u8_bytes(res);
        }
        match settings {
            Some(GenerateSettings::Range(range)) => {
                let e = *range.end() as u8;
                res = res % e;
                let s = *range.start() as u8;
                if res < s {
                    res = s;
                }
            },
            _ => {},
        }
        Some(res)
    }

    /// Where the number is one operand of the comparison, records the other
    /// operand, as a `u8`.
    fn __autarkie_cmps(&self, v: &mut Visitor, index: usize, __autarkie_val: (u64, u64))
        ensures
            __autarkie_val.0 == widen_u8(*self) ==> final(v).operands() == old(v).operands().push(
                spec_u8_bytes(narrow_u8(__autarkie_val.1)),
            ),
            __autarkie_val.0 != widen_u8(*self) && __autarkie_val.1 == widen_u8(*self)
                ==> final(v).operands() == old(v).operands().push(
                spec_u8_bytes(narrow_u8(__autarkie_val.0)),
            ),
            __autarkie_val.0 != widen_u8(*self) && __autarkie_val.1 != widen_u8(*self)
                ==> final(v).operands() == old(v).operands(),
            final(v).serialized() == old(v).serialized(),
            final(v).fields() == old(v).fields(),
    {
        let w = operand_of_u8(*self);
        if __autarkie_val.0 == w {
            let other = u8_of_operand(__autarkie_val.1);
            v.register_cmp(other.__autarkie_serialize());
        } else if __autarkie_val.1 == w {
            let other = u8_of_operand(__autarkie_val.0);
            v.register_cmp(other.__autarkie_serialize());
        }
        proof {
            assert(v.operands() =~= old(v).operands() + self.comparison_operands(__autarkie_val));
        }
    }

    /// At the end of the path: replaces the value by the one the spliced
    /// bytes encode, or by a generated one, whose encoding is recorded.
    fn __autarkie_mutate(
        &mut self,
        ty: &mut MutationType,
        visitor: &mut Visitor,
        path: VecDeque<usize>,
    )
    {
        match ty {
            MutationType::Splice(other) => {
                let bytes: &[u8] = **other;
                proof {
                    assert(bytes@.skip(0) =~= bytes@);
                }
                match Self::__autarkie_deserialize(bytes, 0) {
                    Some((v, end)) => {
                        proof {
                            if Self::is_lawful() {
                                assert(v.spec_serialize() =~= bytes@.subrange(0, v.spec_serialize().len() as int));
                                assert(v.spec_serialize().is_prefix_of(bytes@));
                            }
                        }
                        *self = v;
                    },
                    None => {},
                }
            },
            MutationType::GenerateReplace(bias) => {
                match Self::__autarkie_generate(visitor, bias, 0, None) {
                    Some(generated) => {
                        *self = generated;
                        let bytes = self.__autarkie_serialize();
                        Self::record_encoding(visitor, bytes);
                    },
                    None => {},
                }
            },
            _ => {
                proof {
                    assert(false);
                }
            },
        }
    }

    fn __autarkie_serialize(&self) -> (r: Vec<u8>) {
        encode_u8(*self)
    }

    fn __autarkie_deserialize(data: &[u8], pos: usize) -> (r: Option<(u8, usize)>) {
        let rest = slice_subrange(data, pos, data.len());
        match decode_u8(rest) {
            Some(x) => {
                proof {
                    lemma_u8_bytes(x);
                }
                Some((x, pos + 1))
            },
            None => None,
        }
    }

    /// A leaf has no fields.
    fn __autarkie_fields(&self, visitor: &mut Visitor, index: usize) {
    }

    /// A leaf holds no values to record.
    fn __autarkie_serialized(&self, visitor: &mut Visitor) {
    }

    fn __autarkie_id_name() -> (r: String) {
        let r = "u8".to_owned();
        assert(r@ == Self::spec_name());
        r
    }
}

impl Node for u16 {
    open spec fn node_shape(&self, shape: NodeType) -> bool {
        shape == NodeType::NonRecursive
    }

    open spec fn serialized_record_types(&self) -> Seq<Seq<char>> {
        Seq::empty()
    }

    /// A node with no children of its own.
    fn __autarkie_node_ty(&self, visitor: &Visitor) -> (r: NodeType) {
        NodeType::NonRecursive
    }

    open spec fn spec_serialize(&self) -> Seq<u8> {
        spec_u16_bytes(*self)
    }

    open spec fn spec_name() -> Seq<char> {
        "u16"@
    }

    open spec fn is_lawful() -> bool {
        true
    }

    open spec fn read_ok(bytes: Seq<u8>) -> bool {
        Self::is_lawful() && exists|x: Self| #[trigger] x.spec_serialize().is_prefix_of(bytes)
    }

    /// For a lawful type, a value read encodes as the start of the bytes,
    /// as any value whose encoding starts them does.
    open spec fn reading(bytes: Seq<u8>, v: Self) -> bool {
        Self::is_lawful() ==> {
            &&& v.spec_serialize().is_prefix_of(bytes)
            &&& forall|x: Self| #[trigger] x.spec_serialize().is_prefix_of(bytes) ==> v.spec_serialize()
                == x.spec_serialize()
        }
    }

    open spec fn encodes_exactly() -> bool {
        true
    }

    open spec fn walks_known() -> bool {
        true
    }

    open spec fn first_name_ok(name: Seq<char>) -> bool {
        false
    }

    open spec fn always_generates() -> bool {
        true
    }

    open spec fn field_count(&self) -> nat {
        0
    }

    open spec fn comparison_operands(&self, val: (u64, u64)) -> Seq<Seq<u8>> {
        if val.0 == widen_u16(*self) {
            seq![spec_u16_bytes(narrow_u16(val.1))]
        } else if val.1 == widen_u16(*self) {
            seq![spec_u16_bytes(narrow_u16(val.0))]
        } else {
            Seq::empty()
        }
    }

    open spec fn serialized_records(&self) -> Seq<Seq<u8>> {
        Seq::empty()
    }

    /// Splicing replaces the value by the one the bytes encode; replacing
    /// it by a generated one records the new value's encoding.
    open spec fn mutation(&self, ty: &MutationType, path: Seq<usize>, before: Visitor, after: Self, after_v: Visitor) -> bool {
        match *ty {
            MutationType::Splice(b) => {
                    &&& after_v == before
                    &&& Self::is_lawful() ==> forall|x: Self| #[trigger] x.spec_serialize().is_prefix_of((**b)@)
                        ==> after.spec_serialize() == x.spec_serialize()
                },
            MutationType::GenerateReplace(_) => {
                &&& after == spec_u16_from_bytes(random_bytes(before.rng_state(), 2nat).take(2))
                &&& after_v.serialized().len() == before.serialized().len() + 1
                &&& after_v.serialized_bytes() == before.serialized_bytes().push(after.spec_serialize())
                &&& after_v.serialized_types() == before.serialized_types().push(Self::spec_name())
            },
            _ => true,
        }
    }

    open spec fn generate_ok(settings: GenerateSettings, rng: u64) -> bool {
        settings matches GenerateSettings::Range(r) ==> !r@.exhausted && (r@.end as u16) != 0
    }

    open spec fn mutate_ok(&self, ty: &MutationType, path: Seq<usize>) -> bool {
        &&& leaf_mutate_ok(ty, path)
        &&& (*ty matches MutationType::Splice(b) ==> (Self::is_lawful() ==> exists|x: Self| #[trigger] x.spec_serialize().is_prefix_of((**b)@)))
    }

    /// A leaf has no fields; its comparison operands are recorded.
    open spec fn walk(&self, index: usize, compared: Option<(u64, u64)>, before: Visitor, after: Visitor) -> bool {
        match compared {
            None => after == before,
            Some(val) => operands_recorded(before, self.comparison_operands(val), after),
        }
    }

    /// One registration, of the type itself.
    open spec fn registration(before: Visitor, parent: Option<Id>, variant: usize, after: Visitor) -> bool {
        one_edge(before, parent, variant, Self::spec_name(), after)
    }

    /// Records one edge, to the type itself, and goes no deeper.
    fn __autarkie_register(v: &mut Visitor, parent: Option<(Id, String)>, variant: usize) {
        let ghost before = *v;
        let me = Self::register_self(v, parent, variant);
        let ghost id = me.0;
        let ghost mid = *v;
        v.pop_ty();
        proof {
            assert(entered(before, parent_id(parent), variant, Self::spec_name(), id, mid));
            assert(before.ty_edges().is_prefix_of(v.ty_edges()));
            assert(before.ty_names().is_prefix_of(v.ty_names()));
            assert(v.ty_stack() =~= before.ty_stack());
        }
    }

    /// Generating draws from the visitor's random state and records nothing.
    open spec fn generation(before: Visitor, settings: Option<GenerateSettings>, r: Option<Self>, after: Visitor) -> bool {
        &&& after.draws_only(&before)
        &&& after.rng_state() == (rng_after(before.rng_state(), 2nat))
        &&& !(settings matches Some(GenerateSettings::Range(_))) ==> (r matches Some(x) ==> x == spec_u16_from_bytes( random_bytes(before.rng_state(), 2nat).take(2), ))
        &&& r is Some
        &&& r matches Some(x) ==> (settings matches Some(GenerateSettings::Range(rg)) ==> within_range( x as int, (rg@.start as u16) as int, (rg@.end as u16) as int, ))
        &&& r matches Some(x) ==> (settings matches Some(GenerateSettings::Range(rg)) ==> x as int == range_fold( spec_u16_from_bytes(random_bytes(before.rng_state(), 2nat).take(2)) as int, (rg@.start as u16) as int, (rg@.end as u16) as int, ))
    }

    /// A number read from 2 random bytes; within a range, the
    /// remainder modulo its end, raised to its start where below it.
    fn __autarkie_generate(
        v: &mut Visitor,
        depth: &mut usize,
        cur_depth: usize,
        settings: Option<GenerateSettings>,
    ) -> (r: Option<u16>)
    {
        let bytes = v.generate_bytes(2);
        let mut res = decode_u16(bytes.as_slice()).unwrap();
        proof {
            lemma_u16_bytes(res);
        }
        match settings {
            Some(GenerateSettings::Range(range)) => {
                let e = *range.end() as u16;
                res = res % e;
                let s = *range.start() as u16;
                if res < s {
                    res = s;
                }
            },
            _ => {},
        }
        Some(res)
    }

    /// Where the number is one operand of the comparison, records the other
    /// operand, as a `u16`.
    fn __autarkie_cmps(&self, v: &mut Visitor, index: usize, __autarkie_val: (u64, u64))
        ensures
            __autarkie_val.0 == widen_u16(*self) ==> final(v).operands() == old(v).operands().push(
                spec_u16_bytes(narrow_u16(__autarkie_val.1)),
            ),
            __autarkie_val.0 != widen_u16(*self) && __autarkie_val.1 == widen_u16(*self)
                ==> final(v).operands() == old(v).operands().push(
                spec_u16_bytes(narrow_u16(__autarkie_val.0)),
            ),
            __autarkie_val.0 != widen_u16(*self) && __autarkie_val.1 != widen_u16(*self)
                ==> final(v).operands() == old(v).operands(),
            final(v).serialized() == old(v).serialized(),
            final(v).fields() == old(v).fields(),
    {
        let w = operand_of_u16(*self);
        if __autarkie_val.0 == w {
            let other = u16_of_operand(__autarkie_val.1);
            v.register_cmp(other.__autarkie_serialize());
        } else if __autarkie_val.1 == w {
            let other = u16_of_operand(__autarkie_val.0);
            v.register_cmp(other.__autarkie_serialize());
        }
        proof {
            assert(v.operands() =~= old(v).operands() + self.comparison_operands(__autarkie_val));
        }
    }

    /// At the end of the path: replaces the value by the one the spliced
    /// bytes encode, or by a generated one, whose encoding is recorded.
    fn __autarkie_mutate(
        &mut self,
        ty: &mut MutationType,
        visitor: &mut Visitor,
        path: VecDeque<usize>,
    )
    {
        match ty {
            MutationType::Splice(other) => {
                let bytes: &[u8] = **other;
                proof {
                    assert(bytes@.skip(0) =~= bytes@);
                }
                match Self::__autarkie_deserialize(bytes, 0) {
                    Some((v, end)) => {
                        proof {
                            if Self::is_lawful() {
                                assert(v.spec_serialize() =~= bytes@.subrange(0, v.spec_serialize().len() as int));
                                assert(v.spec_serialize().is_prefix_of(bytes@));
                            }
                        }
                        *self = v;
                    },
                    None => {},
                }
            },
            MutationType::GenerateReplace(bias) => {
                match Self::__autarkie_generate(visitor, bias, 0, None) {
                    Some(generated) => {
                        *self = generated;
                        let bytes = self.__autarkie_serialize();
                        Self::record_encoding(visitor, bytes);
                    },
                    None => {},
                }
            },
            _ => {
                proof {
                    assert(false);
                }
            },
        }
    }

    fn __autarkie_serialize(&self) -> (r: Vec<u8>) {
        encode_u16(*self)
    }

    fn __autarkie_deserialize(data: &[u8], pos: usize) -> (r: Option<(u16, usize)>) {
        let rest = slice_subrange(data, pos, data.len());
        match decode_u16(rest) {
            Some(x) => {
                proof {
                    lemma_u16_bytes(x);
                }
                Some((x, pos + 2))
            },
            None => None,
        }
    }

    /// A leaf has no fields.
    fn __autarkie_fields(&self, visitor: &mut Visitor, index: usize) {
    }

    /// A leaf holds no values to record.
    fn __autarkie_serialized(&self, visitor: &mut Visitor) {
    }

    fn __autarkie_id_name() -> (r: String) {
        let r = "u16".to_owned();
        assert(r@ == Self::spec_name());
        r
    }
}

impl Node for u32 {
    open spec fn node_shape(&self, shape: NodeType) -> bool {
        shape == NodeType::NonRecursive
    }

    open spec fn serialized_record_types(&self) -> Seq<Seq<char>> {
        Seq::empty()
    }

    /// A node with no children of its own.
    fn __autarkie_node_ty(&self, visitor: &Visitor) -> (r: NodeType) {
        NodeType::NonRecursive
    }

    open spec fn spec_serialize(&self) -> Seq<u8> {
        spec_u32_bytes(*self)
    }

    open spec fn spec_name() -> Seq<char> {
        "u32"@
    }

    open spec fn is_lawful() -> bool {
        true
    }

    open spec fn read_ok(bytes: Seq<u8>) -> bool {
        Self::is_lawful() && exists|x: Self| #[trigger] x.spec_serialize().is_prefix_of(bytes)
    }

    /// For a lawful type, a value read encodes as the start of the bytes,
    /// as any value whose encoding starts them does.
    open spec fn reading(bytes: Seq<u8>, v: Self) -> bool {
        Self::is_lawful() ==> {
            &&& v.spec_serialize().is_prefix_of(bytes)
            &&& forall|x: Self| #[trigger] x.spec_serialize().is_prefix_of(bytes) ==> v.spec_serialize()
                == x.spec_serialize()
        }
    }

    open spec fn encodes_exactly() -> bool {
        true
    }

    open spec fn walks_known() -> bool {
        true
    }

    open spec fn first_name_ok(name: Seq<char>) -> bool {
        false
    }

    open spec fn always_generates() -> bool {
        true
    }

    open spec fn field_count(&self) -> nat {
        0
    }

    open spec fn comparison_operands(&self, val: (u64, u64)) -> Seq<Seq<u8>> {
        if val.0 == widen_u32(*self) {
            seq![spec_u32_bytes(narrow_u32(val.1))]
        } else if val.1 == widen_u32(*self) {
            seq![spec_u32_bytes(narrow_u32(val.0))]
        } else {
            Seq::empty()
        }
    }

    open spec fn serialized_records(&self) -> Seq<Seq<u8>> {
        Seq::empty()
    }

    /// Splicing replaces the value by the one the bytes encode; replacing
    /// it by a generated one records the new value's encoding.
    open spec fn mutation(&self, ty: &MutationType, path: Seq<usize>, before: Visitor, after: Self, after_v: Visitor) -> bool {
        match *ty {
            MutationType::Splice(b) => {
                    &&& after_v == before
                    &&& Self::is_lawful() ==> forall|x: Self| #[trigger] x.spec_serialize().is_prefix_of((**b)@)
                        ==> after.spec_serialize() == x.spec_serialize()
                },
            MutationType::GenerateReplace(_) => {
                &&& after == spec_u32_from_bytes(random_bytes(before.rng_state(), 4nat).take(4))
                &&& after_v.serialized().len() == before.serialized().len() + 1
                &&& after_v.serialized_bytes() == before.serialized_bytes().push(after.spec_serialize())
                &&& after_v.serialized_types() == before.serialized_types().push(Self::spec_name())
            },
            _ => true,
        }
    }

    open spec fn generate_ok(settings: GenerateSettings, rng: u64) -> bool {
        settings matches GenerateSettings::Range(r) ==> !r@.exhausted && (r@.end as u32) != 0
    }

    open spec fn mutate_ok(&self, ty: &MutationType, path: Seq<usize>) -> bool {
        &&& leaf_mutate_ok(ty, path)
        &&& (*ty matches MutationType::Splice(b) ==> (Self::is_lawful() ==> exists|x: Self| #[trigger] x.spec_serialize().is_prefix_of((**b)@)))
    }

    /// A leaf has no fields; its comparison operands are recorded.
    open spec fn walk(&self, index: usize, compared: Option<(u64, u64)>, before: Visitor, after: Visitor) -> bool {
        match compared {
            None => after == before,
            Some(val) => operands_recorded(before, self.comparison_operands(val), after),
        }
    }

    /// One registration, of the type itself.
    open spec fn registration(before: Visitor, parent: Option<Id>, variant: usize, after: Visitor) -> bool {
        one_edge(before, parent, variant, Self::spec_name(), after)
    }

    /// Records one edge, to the type itself, and goes no deeper.
    fn __autarkie_register(v: &mut Visitor, parent: Option<(Id, String)>, variant: usize) {
        let ghost before = *v;
        let me = Self::register_self(v, parent, variant);
        let ghost id = me.0;
        let ghost mid = *v;
        v.pop_ty();
        proof {
            assert(entered(before, parent_id(parent), variant, Self::spec_name(), id, mid));
            assert(before.ty_edges().is_prefix_of(v.ty_edges()));
            assert(before.ty_names().is_prefix_of(v.ty_names()));
            assert(v.ty_stack() =~= before.ty_stack());
        }
    }

    /// Generating draws from the visitor's random state and records nothing.
    open spec fn generation(before: Visitor, settings: Option<GenerateSettings>, r: Option<Self>, after: Visitor) -> bool {
        &&& after.draws_only(&before)
        &&& after.rng_state() == (rng_after(before.rng_state(), 4nat))
        &&& !(settings matches Some(GenerateSettings::Range(_))) ==> (r matches Some(x) ==> x == spec_u32_from_bytes( random_bytes(before.rng_state(), 4nat).take(4), ))
        &&& r is Some
        &&& r matches Some(x) ==> (settings matches Some(GenerateSettings::Range(rg)) ==> within_range( x as int, (rg@.start as u32) as int, (rg@.end as u32) as int, ))
        &&& r matches Some(x) ==> (settings matches Some(GenerateSettings::Range(rg)) ==> x as int == range_fold( spec_u32_from_bytes(random_bytes(before.rng_state(), 4nat).take(4)) as int, (rg@.start as u32) as int, (rg@.end as u32) as int, ))
    }

    /// A number read from 4 random bytes; within a range, the
    /// remainder modulo its end, raised to its start where below it.
    fn __autarkie_generate(
        v: &mut Visitor,
        depth: &mut usize,
        cur_depth: usize,
        settings: Option<GenerateSettings>,
    ) -> (r: Option<u32>)
    {
        let bytes = v.generate_bytes(4);
        let mut res = decode_u32(bytes.as_slice()).unwrap();
        proof {
            lemma_u32_bytes(res);
        }
        match settings {
            Some(GenerateSettings::Range(range)) => {
                let e = *range.end() as u32;
                res = res % e;
                let s = *range.start() as u32;
                if res < s {
                    res = s;
                }
            },
            _ => {},
        }
        Some(res)
    }

    /// Where the number is one operand of the comparison, records the other
    /// operand, as a `u32`.
    fn __autarkie_cmps(&self, v: &mut Visitor, index: usize, __autarkie_val: (u64, u64))
        ensures
            __autarkie_val.0 == widen_u32(*self) ==> final(v).operands() == old(v).operands().push(
                spec_u32_bytes(narrow_u32(__autarkie_val.1)),
            ),
            __autarkie_val.0 != widen_u32(*self) && __autarkie_val.1 == widen_u32(*self)
                ==> final(v).operands() == old(v).operands().push(
                spec_u32_bytes(narrow_u32(__autarkie_val.0)),
            ),
            __autarkie_val.0 != widen_u32(*self) && __autarkie_val.1 != widen_u32(*self)
                ==> final(v).operands() == old(v).operands(),
            final(v).serialized() == old(v).serialized(),
            final(v).fields() == old(v).fields(),
    {
        let w = operand_of_u32(*self);
        if __autarkie_val.0 == w {
            let other = u32_of_operand(__autarkie_val.1);
            v.register_cmp(other.__autarkie_serialize());
        } else if __autarkie_val.1 == w {
            let other = u32_of_operand(__autarkie_val.0);
            v.register_cmp(other.__autarkie_serialize());
        }
        proof {
            assert(v.operands() =~= old(v).operands() + self.comparison_operands(__autarkie_val));
        }
    }

    /// At the end of the path: replaces the value by the one the spliced
    /// bytes encode, or by a generated one, whose encoding is recorded.
    fn __autarkie_mutate(
        &mut self,
        ty: &mut MutationType,
        visitor: &mut Visitor,
        path: VecDeque<usize>,
    )
    {
        match ty {
            MutationType::Splice(other) => {
                let bytes: &[u8] = **other;
                proof {
                    assert(bytes@.skip(0) =~= bytes@);
                }
                match Self::__autarkie_deserialize(bytes, 0) {
                    Some((v, end)) => {
                        proof {
                            if Self::is_lawful() {
                                assert(v.spec_serialize() =~= bytes@.subrange(0, v.spec_serialize().len() as int));
                                assert(v.spec_serialize().is_prefix_of(bytes@));
                            }
                        }
                        *self = v;
                    },
                    None => {},
                }
            },
            MutationType::GenerateReplace(bias) => {
                match Self::__autarkie_generate(visitor, bias, 0, None) {
                    Some(generated) => {
                        *self = generated;
                        let bytes = self.__autarkie_serialize();
                        Self::record_encoding(visitor, bytes);
                    },
                    None => {},
                }
            },
            _ => {
                proof {
                    assert(false);
                }
            },
        }
    }

    fn __autarkie_serialize(&self) -> (r: Vec<u8>) {
        encode_u32(*self)
    }

    fn __autarkie_deserialize(data: &[u8], pos: usize) -> (r: Option<(u32, usize)>) {
        let rest = slice_subrange(data, pos, data.len());
        match decode_u32(rest) {
            Some(x) => {
                proof {
                    lemma_u32_bytes(x);
                }
                Some((x, pos + 4))
            },
            None => None,
        }
    }

    /// A leaf has no fields.
    fn __autarkie_fields(&self, visitor: &mut Visitor, index: usize) {
    }

    /// A leaf holds no values to record.
    fn __autarkie_serialized(&self, visitor: &mut Visitor) {
    }

    fn __autarkie_id_name() -> (r: String) {
        let r = "u32".to_owned();
        assert(r@ == Self::spec_name());
        r
    }
}

impl Node for u64 {
    open spec fn node_shape(&self, shape: NodeType) -> bool {
        shape == NodeType::NonRecursive
    }

    open spec fn serialized_record_types(&self) -> Seq<Seq<char>> {
        Seq::empty()
    }

    /// A node with no children of its own.
    fn __autarkie_node_ty(&self, visitor: &Visitor) -> (r: NodeType) {
        NodeType::NonRecursive
    }

    open spec fn spec_serialize(&self) -> Seq<u8> {
        spec_u64_bytes(*self)
    }

    open spec fn spec_name() -> Seq<char> {
        "u64"@
    }

    open spec fn is_lawful() -> bool {
        true
    }

    open spec fn read_ok(bytes: Seq<u8>) -> bool {
        Self::is_lawful() && exists|x: Self| #[trigger] x.spec_serialize().is_prefix_of(bytes)
    }

    /// For a lawful type, a value read encodes as the start of the bytes,
    /// as any value whose encoding starts them does.
    open spec fn reading(bytes: Seq<u8>, v: Self) -> bool {
        Self::is_lawful() ==> {
            &&& v.spec_serialize().is_prefix_of(bytes)
            &&& forall|x: Self| #[trigger] x.spec_serialize().is_prefix_of(bytes) ==> v.spec_serialize()
                == x.spec_serialize()
        }
    }

    open spec fn encodes_exactly() -> bool {
        true
    }

    open spec fn walks_known() -> bool {
        true
    }

    open spec fn first_name_ok(name: Seq<char>) -> bool {
        false
    }

    open spec fn always_generates() -> bool {
        true
    }

    open spec fn field_count(&self) -> nat {
        0
    }

    open spec fn comparison_operands(&self, val: (u64, u64)) -> Seq<Seq<u8>> {
        if val.0 == widen_u64(*self) {
            seq![spec_u64_bytes(narrow_u64(val.1))]
        } else if val.1 == widen_u64(*self) {
            seq![spec_u64_bytes(narrow_u64(val.0))]
        } else {
            Seq::empty()
        }
    }

    open spec fn serialized_records(&self) -> Seq<Seq<u8>> {
        Seq::empty()
    }

    /// Splicing replaces the value by the one the bytes encode; replacing
    /// it by a generated one records the new value's encoding.
    open spec fn mutation(&self, ty: &MutationType, path: Seq<usize>, before: Visitor, after: Self, after_v: Visitor) -> bool {
        match *ty {
            MutationType::Splice(b) => {
                    &&& after_v == before
                    &&& Self::is_lawful() ==> forall|x: Self| #[trigger] x.spec_serialize().is_prefix_of((**b)@)
                        ==> after.spec_serialize() == x.spec_serialize()
                },
            MutationType::GenerateReplace(_) => {
                &&& after == spec_u64_from_bytes(random_bytes(before.rng_state(), 8nat).take(8))
                &&& after_v.serialized().len() == before.serialized().len() + 1
                &&& after_v.serialized_bytes() == before.serialized_bytes().push(after.spec_serialize())
                &&& after_v.serialized_types() == before.serialized_types().push(Self::spec_name())
            },
            _ => true,
        }
    }

    open spec fn generate_ok(settings: GenerateSettings, rng: u64) -> bool {
        settings matches GenerateSettings::Range(r) ==> !r@.exhausted && (r@.end as u64) != 0
    }

    open spec fn mutate_ok(&self, ty: &MutationType, path: Seq<usize>) -> bool {
        &&& leaf_mutate_ok(ty, path)
        &&& (*ty matches MutationType::Splice(b) ==> (Self::is_lawful() ==> exists|x: Self| #[trigger] x.spec_serialize().is_prefix_of((**b)@)))
    }

    /// A leaf has no fields; its comparison operands are recorded.
    open spec fn walk(&self, index: usize, compared: Option<(u64, u64)>, before: Visitor, after: Visitor) -> bool {
        match compared {
            None => after == before,
            Some(val) => operands_recorded(before, self.comparison_operands(val), after),
        }
    }

    /// One registration, of the type itself.
    open spec fn registration(before: Visitor, parent: Option<Id>, variant: usize, after: Visitor) -> bool {
        one_edge(before, parent, variant, Self::spec_name(), after)
    }

    /// Records one edge, to the type itself, and goes no deeper.
    fn __autarkie_register(v: &mut Visitor, parent: Option<(Id, String)>, variant: usize) {
        let ghost before = *v;
        let me = Self::register_self(v, parent, variant);
        let ghost id = me.0;
        let ghost mid = *v;
        v.pop_ty();
        proof {
            assert(entered(before, parent_id(parent), variant, Self::spec_name(), id, mid));
            assert(before.ty_edges().is_prefix_of(v.ty_edges()));
            assert(before.ty_names().is_prefix_of(v.ty_names()));
            assert(v.ty_stack() =~= before.ty_stack());
        }
    }

    /// Generating draws from the visitor's random state and records nothing.
    open spec fn generation(before: Visitor, settings: Option<GenerateSettings>, r: Option<Self>, after: Visitor) -> bool {
        &&& after.draws_only(&before)
        &&& after.rng_state() == (rng_after(before.rng_state(), 8nat))
        &&& !(settings matches Some(GenerateSettings::Range(_))) ==> (r matches Some(x) ==> x == spec_u64_from_bytes( random_bytes(before.rng_state(), 8nat).take(8), ))
        &&& r is Some
        &&& r matches Some(x) ==> (settings matches Some(GenerateSettings::Range(rg)) ==> within_range( x as int, (rg@.start as u64) as int, (rg@.end as u64) as int, ))
        &&& r matches Some(x) ==> (settings matches Some(GenerateSettings::Range(rg)) ==> x as int == range_fold( spec_u64_from_bytes(random_bytes(before.rng_state(), 8nat).take(8)) as int, (rg@.start as u64) as int, (rg@.end as u64) as int, ))
    }

    /// A number read from 8 random bytes; within a range, the
    /// remainder modulo its end, raised to its start where below it.
    fn __autarkie_generate(
        v: &mut Visitor,
        depth: &mut usize,
        cur_depth: usize,
        settings: Option<GenerateSettings>,
    ) -> (r: Option<u64>)
    {
        let bytes = v.generate_bytes(8);
        let mut res = decode_u64(bytes.as_slice()).unwrap();
        proof {
            lemma_u64_bytes(res);
        }
        match settings {
            Some(GenerateSettings::Range(range)) => {
                let e = *range.end() as u64;
                res = res % e;
                let s = *range.start() as u64;
                if res < s {
                    res = s;
                }
            },
            _ => {},
        }
        Some(res)
    }

    /// Where the number is one operand of the comparison, records the other
    /// operand, as a `u64`.
    fn __autarkie_cmps(&self, v: &mut Visitor, index: usize, __autarkie_val: (u64, u64))
        ensures
            __autarkie_val.0 == widen_u64(*self) ==> final(v).operands() == old(v).operands().push(
                spec_u64_bytes(narrow_u64(__autarkie_val.1)),
            ),
            __autarkie_val.0 != widen_u64(*self) && __autarkie_val.1 == widen_u64(*self)
                ==> final(v).operands() == old(v).operands().push(
                spec_u64_bytes(narrow_u64(__autarkie_val.0)),
            ),
            __autarkie_val.0 != widen_u64(*self) && __autarkie_val.1 != widen_u64(*self)
                ==> final(v).operands() == old(v).operands(),
            final(v).serialized() == old(v).serialized(),
            final(v).fields() == old(v).fields(),
    {
        let w = operand_of_u64(*self);
        if __autarkie_val.0 == w {
            let other = u64_of_operand(__autarkie_val.1);
            v.register_cmp(other.__autarkie_serialize());
        } else if __autarkie_val.1 == w {
            let other = u64_of_operand(__autarkie_val.0);
            v.register_cmp(other.__autarkie_serialize());
        }
        proof {
            assert(v.operands() =~= old(v).operands() + self.comparison_operands(__autarkie_val));
        }
    }

    /// At the end of the path: replaces the value by the one the spliced
    /// bytes encode, or by a generated one, whose encoding is recorded.
    fn __autarkie_mutate(
        &mut self,
        ty: &mut MutationType,
        visitor: &mut Visitor,
        path: VecDeque<usize>,
    )
    {
        match ty {
            MutationType::Splice(other) => {
                let bytes: &[u8] = **other;
                proof {
                    assert(bytes@.skip(0) =~= bytes@);
                }
                match Self::__autarkie_deserialize(bytes, 0) {
                    Some((v, end)) => {
                        proof {
                            if Self::is_lawful() {
                                assert(v.spec_serialize() =~= bytes@.subrange(0, v.spec_serialize().len() as int));
                                assert(v.spec_serialize().is_prefix_of(bytes@));
                            }
                        }
                        *self = v;
                    },
                    None => {},
                }
            },
            MutationType::GenerateReplace(bias) => {
                match Self::__autarkie_generate(visitor, bias, 0, None) {
                    Some(generated) => {
                        *self = generated;
                        let bytes = self.__autarkie_serialize();
                        Self::record_encoding(visitor, bytes);
                    },
                    None => {},
                }
            },
            _ => {
                proof {
                    assert(false);
                }
            },
        }
    }

    fn __autarkie_serialize(&self) -> (r: Vec<u8>) {
        encode_u64(*self)
    }

    fn __autarkie_deserialize(data: &[u8], pos: usize) -> (r: Option<(u64, usize)>) {
        let rest = slice_subrange(data, pos, data.len());
        match decode_u64(rest) {
            Some(x) => {
                proof {
                    lemma_u64_bytes(x);
                }
                Some((x, pos + 8))
            },
            None => None,
        }
    }

    /// A leaf has no fields.
    fn __autarkie_fields(&self, visitor: &mut Visitor, index: usize) {
    }

    /// A leaf holds no values to record.
    fn __autarkie_serialized(&self, visitor: &mut Visitor) {
    }

    fn __autarkie_id_name() -> (r: String) {
        let r = "u64".to_owned();
        assert(r@ == Self::spec_name());
        r
    }
}

impl Node for u128 {
    open spec fn node_shape(&self, shape: NodeType) -> bool {
        shape == NodeType::NonRecursive
    }

    open spec fn serialized_record_types(&self) -> Seq<Seq<char>> {
        Seq::empty()
    }

    /// A node with no children of its own.
    fn __autarkie_node_ty(&self, visitor: &Visitor) -> (r: NodeType) {
        NodeType::NonRecursive
    }

    open spec fn spec_serialize(&self) -> Seq<u8> {
        spec_u128_bytes(*self)
    }

    open spec fn spec_name() -> Seq<char> {
        "u128"@
    }

    open spec fn is_lawful() -> bool {
        true
    }

    open spec fn read_ok(bytes: Seq<u8>) -> bool {
        Self::is_lawful() && exists|x: Self| #[trigger] x.spec_serialize().is_prefix_of(bytes)
    }

    /// For a lawful type, a value read encodes as the start of the bytes,
    /// as any value whose encoding starts them does.
    open spec fn reading(bytes: Seq<u8>, v: Self) -> bool {
        Self::is_lawful() ==> {
            &&& v.spec_serialize().is_prefix_of(bytes)
            &&& forall|x: Self| #[trigger] x.spec_serialize().is_prefix_of(bytes) ==> v.spec_serialize()
                == x.spec_serialize()
        }
    }

    open spec fn encodes_exactly() -> bool {
        true
    }

    open spec fn walks_known() -> bool {
        true
    }

    open spec fn first_name_ok(name: Seq<char>) -> bool {
        false
    }

    open spec fn always_generates() -> bool {
        true
    }

    open spec fn field_count(&self) -> nat {
        0
    }

    open spec fn comparison_operands(&self, val: (u64, u64)) -> Seq<Seq<u8>> {
        if val.0 == widen_u128(*self) {
            seq![spec_u128_bytes(narrow_u128(val.1))]
        } else if val.1 == widen_u128(*self) {
            seq![spec_u128_bytes(narrow_u128(val.0))]
        } else {
            Seq::empty()
        }
    }

    open spec fn serialized_records(&self) -> Seq<Seq<u8>> {
        Seq::empty()
    }

    /// Splicing replaces the value by the one the bytes encode; replacing
    /// it by a generated one records the new value's encoding.
    open spec fn mutation(&self, ty: &MutationType, path: Seq<usize>, before: Visitor, after: Self, after_v: Visitor) -> bool {
        match *ty {
            MutationType::Splice(b) => {
                    &&& after_v == before
                    &&& Self::is_lawful() ==> forall|x: Self| #[trigger] x.spec_serialize().is_prefix_of((**b)@)
                        ==> after.spec_serialize() == x.spec_serialize()
                },
            MutationType::GenerateReplace(_) => {
                &&& after == spec_u128_from_bytes(random_bytes(before.rng_state(), 32nat).take(16))
                &&& after_v.serialized().len() == before.serialized().len() + 1
                &&& after_v.serialized_bytes() == before.serialized_bytes().push(after.spec_serialize())
                &&& after_v.serialized_types() == before.serialized_types().push(Self::spec_name())
            },
            _ => true,
        }
    }

    open spec fn generate_ok(settings: GenerateSettings, rng: u64) -> bool {
        settings matches GenerateSettings::Range(r) ==> !r@.exhausted && (r@.end as u128) != 0
    }

    open spec fn mutate_ok(&self, ty: &MutationType, path: Seq<usize>) -> bool {
        &&& leaf_mutate_ok(ty, path)
        &&& (*ty matches MutationType::Splice(b) ==> (Self::is_lawful() ==> exists|x: Self| #[trigger] x.spec_serialize().is_prefix_of((**b)@)))
    }

    /// A leaf has no fields; its comparison operands are recorded.
    open spec fn walk(&self, index: usize, compared: Option<(u64, u64)>, before: Visitor, after: Visitor) -> bool {
        match compared {
            None => after == before,
            Some(val) => operands_recorded(before, self.comparison_operands(val), after),
        }
    }

    /// One registration, of the type itself.
    open spec fn registration(before: Visitor, parent: Option<Id>, variant: usize, after: Visitor) -> bool {
        one_edge(before, parent, variant, Self::spec_name(), after)
    }

    /// Records one edge, to the type itself, and goes no deeper.
    fn __autarkie_register(v: &mut Visitor, parent: Option<(Id, String)>, variant: usize) {
        let ghost before = *v;
        let me = Self::register_self(v, parent, variant);
        let ghost id = me.0;
        let ghost mid = *v;
        v.pop_ty();
        proof {
            assert(entered(before, parent_id(parent), variant, Self::spec_name(), id, mid));
            assert(before.ty_edges().is_prefix_of(v.ty_edges()));
            assert(before.ty_names().is_prefix_of(v.ty_names()));
            assert(v.ty_stack() =~= before.ty_stack());
        }
    }

    /// Generating draws from the visitor's random state and records nothing.
    open spec fn generation(before: Visitor, settings: Option<GenerateSettings>, r: Option<Self>, after: Visitor) -> bool {
        &&& after.draws_only(&before)
        &&& after.rng_state() == (rng_after(before.rng_state(), 32nat))
        &&& !(settings matches Some(GenerateSettings::Range(_))) ==> (r matches Some(x) ==> x == spec_u128_from_bytes( random_bytes(before.rng_state(), 32nat).take(16), ))
        &&& r is Some
        &&& r matches Some(x) ==> (settings matches Some(GenerateSettings::Range(rg)) ==> within_range( x as int, (rg@.start as u128) as int, (rg@.end as u128) as int, ))
        &&& r matches Some(x) ==> (settings matches Some(GenerateSettings::Range(rg)) ==> x as int == range_fold( spec_u128_from_bytes(random_bytes(before.rng_state(), 32nat).take(16)) as int, (rg@.start as u128) as int, (rg@.end as u128) as int, ))
    }

    /// A number read from 32 random bytes; within a range, the
    /// remainder modulo its end, raised to its start where below it.
    fn __autarkie_generate(
        v: &mut Visitor,
        depth: &mut usize,
        cur_depth: usize,
        settings: Option<GenerateSettings>,
    ) -> (r: Option<u128>)
    {
        let bytes = v.generate_bytes(32);
        let mut res = decode_u128(bytes.as_slice()).unwrap();
        proof {
            lemma_u128_bytes(res);
        }
        match settings {
            Some(GenerateSettings::Range(range)) => {
                let e = *range.end() as u128;
                res = res % e;
                let s = *range.start() as u128;
                if res < s {
                    res = s;
                }
            },
            _ => {},
        }
        Some(res)
    }

    /// Where the number is one operand of the comparison, records the other
    /// operand, as a `u128`.
    fn __autarkie_cmps(&self, v: &mut Visitor, index: usize, __autarkie_val: (u64, u64))
        ensures
            __autarkie_val.0 == widen_u128(*self) ==> final(v).operands() == old(v).operands().push(
                spec_u128_bytes(narrow_u128(__autarkie_val.1)),
            ),
            __autarkie_val.0 != widen_u128(*self) && __autarkie_val.1 == widen_u128(*self)
                ==> final(v).operands() == old(v).operands().push(
                spec_u128_bytes(narrow_u128(__autarkie_val.0)),
            ),
            __autarkie_val.0 != widen_u128(*self) && __autarkie_val.1 != widen_u128(*self)
                ==> final(v).operands() == old(v).operands(),
            final(v).serialized() == old(v).serialized(),
            final(v).fields() == old(v).fields(),
    {
        let w = operand_of_u128(*self);
        if __autarkie_val.0 == w {
            let other = u128_of_operand(__autarkie_val.1);
            v.register_cmp(other.__autarkie_serialize());
        } else if __autarkie_val.1 == w {
            let other = u128_of_operand(__autarkie_val.0);
            v.register_cmp(other.__autarkie_serialize());
        }
        proof {
            assert(v.operands() =~= old(v).operands() + self.comparison_operands(__autarkie_val));
        }
    }

    /// At the end of the path: replaces the value by the one the spliced
    /// bytes encode, or by a generated one, whose encoding is recorded.
    fn __autarkie_mutate(
        &mut self,
        ty: &mut MutationType,
        visitor: &mut Visitor,
        path: VecDeque<usize>,
    )
    {
        match ty {
            MutationType::Splice(other) => {
                let bytes: &[u8] = **other;
                proof {
                    assert(bytes@.skip(0) =~= bytes@);
                }
                match Self::__autarkie_deserialize(bytes, 0) {
                    Some((v, end)) => {
                        proof {
                            if Self::is_lawful() {
                                assert(v.spec_serialize() =~= bytes@.subrange(0, v.spec_serialize().len() as int));
                                assert(v.spec_serialize().is_prefix_of(bytes@));
                            }
                        }
                        *self = v;
                    },
                    None => {},
                }
            },
            MutationType::GenerateReplace(bias) => {
                match Self::__autarkie_generate(visitor, bias, 0, None) {
                    Some(generated) => {
                        *self = generated;
                        let bytes = self.__autarkie_serialize();
                        Self::record_encoding(visitor, bytes);
                    },
                    None => {},
                }
            },
            _ => {
                proof {
                    assert(false);
                }
            },
        }
    }

    fn __autarkie_serialize(&self) -> (r: Vec<u8>) {
        encode_u128(*self)
    }

    fn __autarkie_deserialize(data: &[u8], pos: usize) -> (r: Option<(u128, usize)>) {
        let rest = slice_subrange(data, pos, data.len());
        match decode_u128(rest) {
            Some(x) => {
                proof {
                    lemma_u128_bytes(x);
                }
                Some((x, pos + 16))
            },
            None => None,
        }
    }

    /// A leaf has no fields.
    fn __autarkie_fields(&self, visitor: &mut Visitor, index: usize) {
    }

    /// A leaf holds no values to record.
    fn __autarkie_serialized(&self, visitor: &mut Visitor) {
    }

    fn __autarkie_id_name() -> (r: String) {
        let r = "u128".to_owned();
        assert(r@ == Self::spec_name());
        r
    }
}

impl Node for i8 {
    open spec fn node_shape(&self, shape: NodeType) -> bool {
        shape == NodeType::NonRecursive
    }

    open spec fn serialized_record_types(&self) -> Seq<Seq<char>> {
        Seq::empty()
    }

    /// A node with no children of its own.
    fn __autarkie_node_ty(&self, visitor: &Visitor) -> (r: NodeType) {
        NodeType::NonRecursive
    }

    open spec fn spec_serialize(&self) -> Seq<u8> {
        spec_i8_bytes(*self)
    }

    open spec fn spec_name() -> Seq<char> {
        "i8"@
    }

    open spec fn is_lawful() -> bool {
        true
    }

    open spec fn read_ok(bytes: Seq<u8>) -> bool {
        Self::is_lawful() && exists|x: Self| #[trigger] x.spec_serialize().is_prefix_of(bytes)
    }

    /// For a lawful type, a value read encodes as the start of the bytes,
    /// as any value whose encoding starts them does.
    open spec fn reading(bytes: Seq<u8>, v: Self) -> bool {
        Self::is_lawful() ==> {
            &&& v.spec_serialize().is_prefix_of(bytes)
            &&& forall|x: Self| #[trigger] x.spec_serialize().is_prefix_of(bytes) ==> v.spec_serialize()
                == x.spec_serialize()
        }
    }

    open spec fn encodes_exactly() -> bool {
        true
    }

    open spec fn walks_known() -> bool {
        true
    }

    open spec fn first_name_ok(name: Seq<char>) -> bool {
        false
    }

    open spec fn always_generates() -> bool {
        true
    }

    open spec fn field_count(&self) -> nat {
        0
    }

    open spec fn comparison_operands(&self, val: (u64, u64)) -> Seq<Seq<u8>> {
        if val.0 == widen_i8(*self) {
            seq![spec_i8_bytes(narrow_i8(val.1))]
        } else if val.1 == widen_i8(*self) {
            seq![spec_i8_bytes(narrow_i8(val.0))]
        } else {
            Seq::empty()
        }
    }

    open spec fn serialized_records(&self) -> Seq<Seq<u8>> {
        Seq::empty()
    }

    /// Splicing replaces the value by the one the bytes encode; replacing
    /// it by a generated one records the new value's encoding.
    open spec fn mutation(&self, ty: &MutationType, path: Seq<usize>, before: Visitor, after: Self, after_v: Visitor) -> bool {
        match *ty {
            MutationType::Splice(b) => {
                    &&& after_v == before
                    &&& Self::is_lawful() ==> forall|x: Self| #[trigger] x.spec_serialize().is_prefix_of((**b)@)
                        ==> after.spec_serialize() == x.spec_serialize()
                },
            MutationType::GenerateReplace(_) => {
                &&& after == spec_i8_from_bytes(random_bytes(before.rng_state(), 1nat).take(1))
                &&& after_v.serialized().len() == before.serialized().len() + 1
                &&& after_v.serialized_bytes() == before.serialized_bytes().push(after.spec_serialize())
                &&& after_v.serialized_types() == before.serialized_types().push(Self::spec_name())
            },
            _ => true,
        }
    }

    open spec fn generate_ok(settings: GenerateSettings, rng: u64) -> bool {
        settings matches GenerateSettings::Range(r) ==> {
            &&& !r@.exhausted
            &&& (r@.end as i8) != 0
            &&& (r@.end as i8) == -1 ==> spec_i8_from_bytes(random_bytes(rng, 1nat).take(1)) != i8::MIN
        }
    }

    open spec fn mutate_ok(&self, ty: &MutationType, path: Seq<usize>) -> bool {
        &&& leaf_mutate_ok(ty, path)
        &&& (*ty matches MutationType::Splice(b) ==> (Self::is_lawful() ==> exists|x: Self| #[trigger] x.spec_serialize().is_prefix_of((**b)@)))
    }

    /// A leaf has no fields; its comparison operands are recorded.
    open spec fn walk(&self, index: usize, compared: Option<(u64, u64)>, before: Visitor, after: Visitor) -> bool {
        match compared {
            None => after == before,
            Some(val) => operands_recorded(before, self.comparison_operands(val), after),
        }
    }

    /// One registration, of the type itself.
    open spec fn registration(before: Visitor, parent: Option<Id>, variant: usize, after: Visitor) -> bool {
        one_edge(before, parent, variant, Self::spec_name(), after)
    }

    /// Records one edge, to the type itself, and goes no deeper.
    fn __autarkie_register(v: &mut Visitor, parent: Option<(Id, String)>, variant: usize) {
        let ghost before = *v;
        let me = Self::register_self(v, parent, variant);
        let ghost id = me.0;
        let ghost mid = *v;
        v.pop_ty();
        proof {
            assert(entered(before, parent_id(parent), variant, Self::spec_name(), id, mid));
            assert(before.ty_edges().is_prefix_of(v.ty_edges()));
            assert(before.ty_names().is_prefix_of(v.ty_names()));
            assert(v.ty_stack() =~= before.ty_stack());
        }
    }

    /// Generating draws from the visitor's random state and records nothing.
    open spec fn generation(before: Visitor, settings: Option<GenerateSettings>, r: Option<Self>, after: Visitor) -> bool {
        &&& after.draws_only(&before)
        &&& after.rng_state() == (rng_after(before.rng_state(), 1nat))
        &&& !(settings matches Some(GenerateSettings::Range(_))) ==> (r matches Some(x) ==> x == spec_i8_from_bytes( random_bytes(before.rng_state(), 1nat).take(1), ))
        &&& r is Some
        &&& r matches Some(x) ==> (settings matches Some(GenerateSettings::Range(rg)) ==> within_range( x as int, (rg@.start as i8) as int, (rg@.end as i8) as int, ))
        &&& r matches Some(x) ==> (settings matches Some(GenerateSettings::Range(rg)) ==> x as int == signed_range_fold( spec_i8_from_bytes(random_bytes(before.rng_state(), 1nat).take(1)) as int, (rg@.start as i8) as int, (rg@.end as i8) as int, ))
    }

    /// A number read from 1 random byte; within a range, the
    /// remainder modulo its end (cut to the type), raised to its start
    /// where below it.
    fn __autarkie_generate(
        v: &mut Visitor,
        depth: &mut usize,
        cur_depth: usize,
        settings: Option<GenerateSettings>,
    ) -> (r: Option<i8>)
    {
        let bytes = v.generate_bytes(1);
        let mut res = decode_i8(bytes.as_slice()).unwrap();
        proof {
            lemma_i8_bytes(res);
        }
        match settings {
            Some(GenerateSettings::Range(range)) => {
                let e = *range.end() as i8;
                let ghost raw = res;
                res = res % e;
                proof {
                    lemma_rem_negated_divisor(raw as int, e as int);
                    lemma_rem_negated_divisor(-(raw as int), e as int);
                    assert(res as int == signed_rem(raw as int, e as int));
                }
                let s = *range.start() as i8;
                if res < s {
                    res = s;
                }
            },
            _ => {},
        }
        Some(res)
    }

    /// Where the number is one operand of the comparison, records the other
    /// operand, as a `i8`.
    fn __autarkie_cmps(&self, v: &mut Visitor, index: usize, __autarkie_val: (u64, u64))
        ensures
            __autarkie_val.0 == widen_i8(*self) ==> final(v).operands() == old(v).operands().push(
                spec_i8_bytes(narrow_i8(__autarkie_val.1)),
            ),
            __autarkie_val.0 != widen_i8(*self) && __autarkie_val.1 == widen_i8(*self)
                ==> final(v).operands() == old(v).operands().push(
                spec_i8_bytes(narrow_i8(__autarkie_val.0)),
            ),
            __autarkie_val.0 != widen_i8(*self) && __autarkie_val.1 != widen_i8(*self)
                ==> final(v).operands() == old(v).operands(),
            final(v).serialized() == old(v).serialized(),
            final(v).fields() == old(v).fields(),
    {
        let w = operand_of_i8(*self);
        if __autarkie_val.0 == w {
            let other = i8_of_operand(__autarkie_val.1);
            v.register_cmp(other.__autarkie_serialize());
        } else if __autarkie_val.1 == w {
            let other = i8_of_operand(__autarkie_val.0);
            v.register_cmp(other.__autarkie_serialize());
        }
        proof {
            assert(v.operands() =~= old(v).operands() + self.comparison_operands(__autarkie_val));
        }
    }

    /// At the end of the path: replaces the value by the one the spliced
    /// bytes encode, or by a generated one, whose encoding is recorded.
    fn __autarkie_mutate(
        &mut self,
        ty: &mut MutationType,
        visitor: &mut Visitor,
        path: VecDeque<usize>,
    )
    {
        match ty {
            MutationType::Splice(other) => {
                let bytes: &[u8] = **other;
                proof {
                    assert(bytes@.skip(0) =~= bytes@);
                }
                match Self::__autarkie_deserialize(bytes, 0) {
                    Some((v, end)) => {
                        proof {
                            if Self::is_lawful() {
                                assert(v.spec_serialize() =~= bytes@.subrange(0, v.spec_serialize().len() as int));
                                assert(v.spec_serialize().is_prefix_of(bytes@));
                            }
                        }
                        *self = v;
                    },
                    None => {},
                }
            },
            MutationType::GenerateReplace(bias) => {
                match Self::__autarkie_generate(visitor, bias, 0, None) {
                    Some(generated) => {
                        *self = generated;
                        let bytes = self.__autarkie_serialize();
                        Self::record_encoding(visitor, bytes);
                    },
                    None => {},
                }
            },
            _ => {
                proof {
                    assert(false);
                }
            },
        }
    }

    fn __autarkie_serialize(&self) -> (r: Vec<u8>) {
        encode_i8(*self)
    }

    fn __autarkie_deserialize(data: &[u8], pos: usize) -> (r: Option<(i8, usize)>) {
        let rest = slice_subrange(data, pos, data.len());
        match decode_i8(rest) {
            Some(x) => {
                proof {
                    lemma_i8_bytes(x);
                }
                Some((x, pos + 1))
            },
            None => None,
        }
    }

    /// A leaf has no fields.
    fn __autarkie_fields(&self, visitor: &mut Visitor, index: usize) {
    }

    /// A leaf holds no values to record.
    fn __autarkie_serialized(&self, visitor: &mut Visitor) {
    }

    fn __autarkie_id_name() -> (r: String) {
        let r = "i8".to_owned();
        assert(r@ == Self::spec_name());
        r
    }
}

impl Node for i16 {
    open spec fn node_shape(&self, shape: NodeType) -> bool {
        shape == NodeType::NonRecursive
    }

    open spec fn serialized_record_types(&self) -> Seq<Seq<char>> {
        Seq::empty()
    }

    /// A node with no children of its own.
    fn __autarkie_node_ty(&self, visitor: &Visitor) -> (r: NodeType) {
        NodeType::NonRecursive
    }

    open spec fn spec_serialize(&self) -> Seq<u8> {
        spec_i16_bytes(*self)
    }

    open spec fn spec_name() -> Seq<char> {
        "i16"@
    }

    open spec fn is_lawful() -> bool {
        true
    }

    open spec fn read_ok(bytes: Seq<u8>) -> bool {
        Self::is_lawful() && exists|x: Self| #[trigger] x.spec_serialize().is_prefix_of(bytes)
    }

    /// For a lawful type, a value read encodes as the start of the bytes,
    /// as any value whose encoding starts them does.
    open spec fn reading(bytes: Seq<u8>, v: Self) -> bool {
        Self::is_lawful() ==> {
            &&& v.spec_serialize().is_prefix_of(bytes)
            &&& forall|x: Self| #[trigger] x.spec_serialize().is_prefix_of(bytes) ==> v.spec_serialize()
                == x.spec_serialize()
        }
    }

    open spec fn encodes_exactly() -> bool {
        true
    }

    open spec fn walks_known() -> bool {
        true
    }

    open spec fn first_name_ok(name: Seq<char>) -> bool {
        false
    }

    open spec fn always_generates() -> bool {
        true
    }

    open spec fn field_count(&self) -> nat {
        0
    }

    open spec fn comparison_operands(&self, val: (u64, u64)) -> Seq<Seq<u8>> {
        if val.0 == widen_i16(*self) {
            seq![spec_i16_bytes(narrow_i16(val.1))]
        } else if val.1 == widen_i16(*self) {
            seq![spec_i16_bytes(narrow_i16(val.0))]
        } else {
            Seq::empty()
        }
    }

    open spec fn serialized_records(&self) -> Seq<Seq<u8>> {
        Seq::empty()
    }

    /// Splicing replaces the value by the one the bytes encode; replacing
    /// it by a generated one records the new value's encoding.
    open spec fn mutation(&self, ty: &MutationType, path: Seq<usize>, before: Visitor, after: Self, after_v: Visitor) -> bool {
        match *ty {
            MutationType::Splice(b) => {
                    &&& after_v == before
                    &&& Self::is_lawful() ==> forall|x: Self| #[trigger] x.spec_serialize().is_prefix_of((**b)@)
                        ==> after.spec_serialize() == x.spec_serialize()
                },
            MutationType::GenerateReplace(_) => {
                &&& after == spec_i16_from_bytes(random_bytes(before.rng_state(), 2nat).take(2))
                &&& after_v.serialized().len() == before.serialized().len() + 1
                &&& after_v.serialized_bytes() == before.serialized_bytes().push(after.spec_serialize())
                &&& after_v.serialized_types() == before.serialized_types().push(Self::spec_name())
            },
            _ => true,
        }
    }

    open spec fn generate_ok(settings: GenerateSettings, rng: u64) -> bool {
        settings matches GenerateSettings::Range(r) ==> {
            &&& !r@.exhausted
            &&& (r@.end as i16) != 0
            &&& (r@.end as i16) == -1 ==> spec_i16_from_bytes(random_bytes(rng, 2nat).take(2)) != i16::MIN
        }
    }

    open spec fn mutate_ok(&self, ty: &MutationType, path: Seq<usize>) -> bool {
        &&& leaf_mutate_ok(ty, path)
        &&& (*ty matches MutationType::Splice(b) ==> (Self::is_lawful() ==> exists|x: Self| #[trigger] x.spec_serialize().is_prefix_of((**b)@)))
    }

    /// A leaf has no fields; its comparison operands are recorded.
    open spec fn walk(&self, index: usize, compared: Option<(u64, u64)>, before: Visitor, after: Visitor) -> bool {
        match compared {
            None => after == before,
            Some(val) => operands_recorded(before, self.comparison_operands(val), after),
        }
    }

    /// One registration, of the type itself.
    open spec fn registration(before: Visitor, parent: Option<Id>, variant: usize, after: Visitor) -> bool {
        one_edge(before, parent, variant, Self::spec_name(), after)
    }

    /// Records one edge, to the type itself, and goes no deeper.
    fn __autarkie_register(v: &mut Visitor, parent: Option<(Id, String)>, variant: usize) {
        let ghost before = *v;
        let me = Self::register_self(v, parent, variant);
        let ghost id = me.0;
        let ghost mid = *v;
        v.pop_ty();
        proof {
            assert(entered(before, parent_id(parent), variant, Self::spec_name(), id, mid));
            assert(before.ty_edges().is_prefix_of(v.ty_edges()));
            assert(before.ty_names().is_prefix_of(v.ty_names()));
            assert(v.ty_stack() =~= before.ty_stack());
        }
    }

    /// Generating draws from the visitor's random state and records nothing.
    open spec fn generation(before: Visitor, settings: Option<GenerateSettings>, r: Option<Self>, after: Visitor) -> bool {
        &&& after.draws_only(&before)
        &&& after.rng_state() == (rng_after(before.rng_state(), 2nat))
        &&& !(settings matches Some(GenerateSettings::Range(_))) ==> (r matches Some(x) ==> x == spec_i16_from_bytes( random_bytes(before.rng_state(), 2nat).take(2), ))
        &&& r is Some
        &&& r matches Some(x) ==> (settings matches Some(GenerateSettings::Range(rg)) ==> within_range( x as int, (rg@.start as i16) as int, (rg@.end as i16) as int, ))
        &&& r matches Some(x) ==> (settings matches Some(GenerateSettings::Range(rg)) ==> x as int == signed_range_fold( spec_i16_from_bytes(random_bytes(before.rng_state(), 2nat).take(2)) as int, (rg@.start as i16) as int, (rg@.end as i16) as int, ))
    }

    /// A number read from 2 random bytes; within a range, the
    /// remainder modulo its end (cut to the type), raised to its start
    /// where below it.
    fn __autarkie_generate(
        v: &mut Visitor,
        depth: &mut usize,
        cur_depth: usize,
        settings: Option<GenerateSettings>,
    ) -> (r: Option<i16>)
    {
        let bytes = v.generate_bytes(2);
        let mut res = decode_i16(bytes.as_slice()).unwrap();
        proof {
            lemma_i16_bytes(res);
        }
        match settings {
            Some(GenerateSettings::Range(range)) => {
                let e = *range.end() as i16;
                let ghost raw = res;
                res = res % e;
                proof {
                    lemma_rem_negated_divisor(raw as int, e as int);
                    lemma_rem_negated_divisor(-(raw as int), e as int);
                    assert(res as int == signed_rem(raw as int, e as int));
                }
                let s = *range.start() as i16;
                if res < s {
                    res = s;
                }
            },
            _ => {},
        }
        Some(res)
    }

    /// Where the number is one operand of the comparison, records the other
    /// operand, as a `i16`.
    fn __autarkie_cmps(&self, v: &mut Visitor, index: usize, __autarkie_val: (u64, u64))
        ensures
            __autarkie_val.0 == widen_i16(*self) ==> final(v).operands() == old(v).operands().push(
                spec_i16_bytes(narrow_i16(__autarkie_val.1)),
            ),
            __autarkie_val.0 != widen_i16(*self) && __autarkie_val.1 == widen_i16(*self)
                ==> final(v).operands() == old(v).operands().push(
                spec_i16_bytes(narrow_i16(__autarkie_val.0)),
            ),
            __autarkie_val.0 != widen_i16(*self) && __autarkie_val.1 != widen_i16(*self)
                ==> final(v).operands() == old(v).operands(),
            final(v).serialized() == old(v).serialized(),
            final(v).fields() == old(v).fields(),
    {
        let w = operand_of_i16(*self);
        if __autarkie_val.0 == w {
            let other = i16_of_operand(__autarkie_val.1);
            v.register_cmp(other.__autarkie_serialize());
        } else if __autarkie_val.1 == w {
            let other = i16_of_operand(__autarkie_val.0);
            v.register_cmp(other.__autarkie_serialize());
        }
        proof {
            assert(v.operands() =~= old(v).operands() + self.comparison_operands(__autarkie_val));
        }
    }

    /// At the end of the path: replaces the value by the one the spliced
    /// bytes encode, or by a generated one, whose encoding is recorded.
    fn __autarkie_mutate(
        &mut self,
        ty: &mut MutationType,
        visitor: &mut Visitor,
        path: VecDeque<usize>,
    )
    {
        match ty {
            MutationType::Splice(other) => {
                let bytes: &[u8] = **other;
                proof {
                    assert(bytes@.skip(0) =~= bytes@);
                }
                match Self::__autarkie_deserialize(bytes, 0) {
                    Some((v, end)) => {
                        proof {
                            if Self::is_lawful() {
                                assert(v.spec_serialize() =~= bytes@.subrange(0, v.spec_serialize().len() as int));
                                assert(v.spec_serialize().is_prefix_of(bytes@));
                            }
                        }
                        *self = v;
                    },
                    None => {},
                }
            },
            MutationType::GenerateReplace(bias) => {
                match Self::__autarkie_generate(visitor, bias, 0, None) {
                    Some(generated) => {
                        *self = generated;
                        let bytes = self.__autarkie_serialize();
                        Self::record_encoding(visitor, bytes);
                    },
                    None => {},
                }
            },
            _ => {
                proof {
                    assert(false);
                }
            },
        }
    }

    fn __autarkie_serialize(&self) -> (r: Vec<u8>) {
        encode_i16(*self)
    }

    fn __autarkie_deserialize(data: &[u8], pos: usize) -> (r: Option<(i16, usize)>) {
        let rest = slice_subrange(data, pos, data.len());
        match decode_i16(rest) {
            Some(x) => {
                proof {
                    lemma_i16_bytes(x);
                }
                Some((x, pos + 2))
            },
            None => None,
        }
    }

    /// A leaf has no fields.
    fn __autarkie_fields(&self, visitor: &mut Visitor, index: usize) {
    }

    /// A leaf holds no values to record.
    fn __autarkie_serialized(&self, visitor: &mut Visitor) {
    }

    fn __autarkie_id_name() -> (r: String) {
        let r = "i16".to_owned();
        assert(r@ == Self::spec_name());
        r
    }
}

impl Node for i32 {
    open spec fn node_shape(&self, shape: NodeType) -> bool {
        shape == NodeType::NonRecursive
    }

    open spec fn serialized_record_types(&self) -> Seq<Seq<char>> {
        Seq::empty()
    }

    /// A node with no children of its own.
    fn __autarkie_node_ty(&self, visitor: &Visitor) -> (r: NodeType) {
        NodeType::NonRecursive
    }

    open spec fn spec_serialize(&self) -> Seq<u8> {
        spec_i32_bytes(*self)
    }

    open spec fn spec_name() -> Seq<char> {
        "i32"@
    }

    open spec fn is_lawful() -> bool {
        true
    }

    open spec fn read_ok(bytes: Seq<u8>) -> bool {
        Self::is_lawful() && exists|x: Self| #[trigger] x.spec_serialize().is_prefix_of(bytes)
    }

    /// For a lawful type, a value read encodes as the start of the bytes,
    /// as any value whose encoding starts them does.
    open spec fn reading(bytes: Seq<u8>, v: Self) -> bool {
        Self::is_lawful() ==> {
            &&& v.spec_serialize().is_prefix_of(bytes)
            &&& forall|x: Self| #[trigger] x.spec_serialize().is_prefix_of(bytes) ==> v.spec_serialize()
                == x.spec_serialize()
        }
    }

    open spec fn encodes_exactly() -> bool {
        true
    }

    open spec fn walks_known() -> bool {
        true
    }

    open spec fn first_name_ok(name: Seq<char>) -> bool {
        false
    }

    open spec fn always_generates() -> bool {
        true
    }

    open spec fn field_count(&self) -> nat {
        0
    }

    open spec fn comparison_operands(&self, val: (u64, u64)) -> Seq<Seq<u8>> {
        if val.0 == widen_i32(*self) {
            seq![spec_i32_bytes(narrow_i32(val.1))]
        } else if val.1 == widen_i32(*self) {
            seq![spec_i32_bytes(narrow_i32(val.0))]
        } else {
            Seq::empty()
        }
    }

    open spec fn serialized_records(&self) -> Seq<Seq<u8>> {
        Seq::empty()
    }

    /// Splicing replaces the value by the one the bytes encode; replacing
    /// it by a generated one records the new value's encoding.
    open spec fn mutation(&self, ty: &MutationType, path: Seq<usize>, before: Visitor, after: Self, after_v: Visitor) -> bool {
        match *ty {
            MutationType::Splice(b) => {
                    &&& after_v == before
                    &&& Self::is_lawful() ==> forall|x: Self| #[trigger] x.spec_serialize().is_prefix_of((**b)@)
                        ==> after.spec_serialize() == x.spec_serialize()
                },
            MutationType::GenerateReplace(_) => {
                &&& after == spec_i32_from_bytes(random_bytes(before.rng_state(), 4nat).take(4))
                &&& after_v.serialized().len() == before.serialized().len() + 1
                &&& after_v.serialized_bytes() == before.serialized_bytes().push(after.spec_serialize())
                &&& after_v.serialized_types() == before.serialized_types().push(Self::spec_name())
            },
            _ => true,
        }
    }

    open spec fn generate_ok(settings: GenerateSettings, rng: u64) -> bool {
        settings matches GenerateSettings::Range(r) ==> {
            &&& !r@.exhausted
            &&& (r@.end as i32) != 0
            &&& (r@.end as i32) == -1 ==> spec_i32_from_bytes(random_bytes(rng, 4nat).take(4)) != i32::MIN
        }
    }

    open spec fn mutate_ok(&self, ty: &MutationType, path: Seq<usize>) -> bool {
        &&& leaf_mutate_ok(ty, path)
        &&& (*ty matches MutationType::Splice(b) ==> (Self::is_lawful() ==> exists|x: Self| #[trigger] x.spec_serialize().is_prefix_of((**b)@)))
    }

    /// A leaf has no fields; its comparison operands are recorded.
    open spec fn walk(&self, index: usize, compared: Option<(u64, u64)>, before: Visitor, after: Visitor) -> bool {
        match compared {
            None => after == before,
            Some(val) => operands_recorded(before, self.comparison_operands(val), after),
        }
    }

    /// One registration, of the type itself.
    open spec fn registration(before: Visitor, parent: Option<Id>, variant: usize, after: Visitor) -> bool {
        one_edge(before, parent, variant, Self::spec_name(), after)
    }

    /// Records one edge, to the type itself, and goes no deeper.
    fn __autarkie_register(v: &mut Visitor, parent: Option<(Id, String)>, variant: usize) {
        let ghost before = *v;
        let me = Self::register_self(v, parent, variant);
        let ghost id = me.0;
        let ghost mid = *v;
        v.pop_ty();
        proof {
            assert(entered(before, parent_id(parent), variant, Self::spec_name(), id, mid));
            assert(before.ty_edges().is_prefix_of(v.ty_edges()));
            assert(before.ty_names().is_prefix_of(v.ty_names()));
            assert(v.ty_stack() =~= before.ty_stack());
        }
    }

    /// Generating draws from the visitor's random state and records nothing.
    open spec fn generation(before: Visitor, settings: Option<GenerateSettings>, r: Option<Self>, after: Visitor) -> bool {
        &&& after.draws_only(&before)
        &&& after.rng_state() == (rng_after(before.rng_state(), 4nat))
        &&& !(settings matches Some(GenerateSettings::Range(_))) ==> (r matches Some(x) ==> x == spec_i32_from_bytes( random_bytes(before.rng_state(), 4nat).take(4), ))
        &&& r is Some
        &&& r matches Some(x) ==> (settings matches Some(GenerateSettings::Range(rg)) ==> within_range( x as int, (rg@.start as i32) as int, (rg@.end as i32) as int, ))
        &&& r matches Some(x) ==> (settings matches Some(GenerateSettings::Range(rg)) ==> x as int == signed_range_fold( spec_i32_from_bytes(random_bytes(before.rng_state(), 4nat).take(4)) as int, (rg@.start as i32) as int, (rg@.end as i32) as int, ))
    }

    /// A number read from 4 random bytes; within a range, the
    /// remainder modulo its end (cut to the type), raised to its start
    /// where below it.
    fn __autarkie_generate(
        v: &mut Visitor,
        depth: &mut usize,
        cur_depth: usize,
        settings: Option<GenerateSettings>,
    ) -> (r: Option<i32>)
    {
        let bytes = v.generate_bytes(4);
        let mut res = decode_i32(bytes.as_slice()).unwrap();
        proof {
            lemma_i32_bytes(res);
        }
        match settings {
            Some(GenerateSettings::Range(range)) => {
                let e = *range.end() as i32;
                let ghost raw = res;
                res = res % e;
                proof {
                    lemma_rem_negated_divisor(raw as int, e as int);
                    lemma_rem_negated_divisor(-(raw as int), e as int);
                    assert(res as int == signed_rem(raw as int, e as int));
                }
                let s = *range.start() as i32;
                if res < s {
                    res = s;
                }
            },
            _ => {},
        }
        Some(res)
    }

    /// Where the number is one operand of the comparison, records the other
    /// operand, as a `i32`.
    fn __autarkie_cmps(&self, v: &mut Visitor, index: usize, __autarkie_val: (u64, u64))
        ensures
            __autarkie_val.0 == widen_i32(*self) ==> final(v).operands() == old(v).operands().push(
                spec_i32_bytes(narrow_i32(__autarkie_val.1)),
            ),
            __autarkie_val.0 != widen_i32(*self) && __autarkie_val.1 == widen_i32(*self)
                ==> final(v).operands() == old(v).operands().push(
                spec_i32_bytes(narrow_i32(__autarkie_val.0)),
            ),
            __autarkie_val.0 != widen_i32(*self) && __autarkie_val.1 != widen_i32(*self)
                ==> final(v).operands() == old(v).operands(),
            final(v).serialized() == old(v).serialized(),
            final(v).fields() == old(v).fields(),
    {
        let w = operand_of_i32(*self);
        if __autarkie_val.0 == w {
            let other = i32_of_operand(__autarkie_val.1);
            v.register_cmp(other.__autarkie_serialize());
        } else if __autarkie_val.1 == w {
            let other = i32_of_operand(__autarkie_val.0);
            v.register_cmp(other.__autarkie_serialize());
        }
        proof {
            assert(v.operands() =~= old(v).operands() + self.comparison_operands(__autarkie_val));
        }
    }

    /// At the end of the path: replaces the value by the one the spliced
    /// bytes encode, or by a generated one, whose encoding is recorded.
    fn __autarkie_mutate(
        &mut self,
        ty: &mut MutationType,
        visitor: &mut Visitor,
        path: VecDeque<usize>,
    )
    {
        match ty {
            MutationType::Splice(other) => {
                let bytes: &[u8] = **other;
                proof {
                    assert(bytes@.skip(0) =~= bytes@);
                }
                match Self::__autarkie_deserialize(bytes, 0) {
                    Some((v, end)) => {
                        proof {
                            if Self::is_lawful() {
                                assert(v.spec_serialize() =~= bytes@.subrange(0, v.spec_serialize().len() as int));
                                assert(v.spec_serialize().is_prefix_of(bytes@));
                            }
                        }
                        *self = v;
                    },
                    None => {},
                }
            },
            MutationType::GenerateReplace(bias) => {
                match Self::__autarkie_generate(visitor, bias, 0, None) {
                    Some(generated) => {
                        *self = generated;
                        let bytes = self.__autarkie_serialize();
                        Self::record_encoding(visitor, bytes);
                    },
                    None => {},
                }
            },
            _ => {
                proof {
                    assert(false);
                }
            },
        }
    }

    fn __autarkie_serialize(&self) -> (r: Vec<u8>) {
        encode_i32(*self)
    }

    fn __autarkie_deserialize(data: &[u8], pos: usize) -> (r: Option<(i32, usize)>) {
        let rest = slice_subrange(data, pos, data.len());
        match decode_i32(rest) {
            Some(x) => {
                proof {
                    lemma_i32_bytes(x);
                }
                Some((x, pos + 4))
            },
            None => None,
        }
    }

    /// A leaf has no fields.
    fn __autarkie_fields(&self, visitor: &mut Visitor, index: usize) {
    }

    /// A leaf holds no values to record.
    fn __autarkie_serialized(&self, visitor: &mut Visitor) {
    }

    fn __autarkie_id_name() -> (r: String) {
        let r = "i32".to_owned();
        assert(r@ == Self::spec_name());
        r
    }
}

impl Node for i64 {
    open spec fn node_shape(&self, shape: NodeType) -> bool {
        shape == NodeType::NonRecursive
    }

    open spec fn serialized_record_types(&self) -> Seq<Seq<char>> {
        Seq::empty()
    }

    /// A node with no children of its own.
    fn __autarkie_node_ty(&self, visitor: &Visitor) -> (r: NodeType) {
        NodeType::NonRecursive
    }

    open spec fn spec_serialize(&self) -> Seq<u8> {
        spec_i64_bytes(*self)
    }

    open spec fn spec_name() -> Seq<char> {
        "i64"@
    }

    open spec fn is_lawful() -> bool {
        true
    }

    open spec fn read_ok(bytes: Seq<u8>) -> bool {
        Self::is_lawful() && exists|x: Self| #[trigger] x.spec_serialize().is_prefix_of(bytes)
    }

    /// For a lawful type, a value read encodes as the start of the bytes,
    /// as any value whose encoding starts them does.
    open spec fn reading(bytes: Seq<u8>, v: Self) -> bool {
        Self::is_lawful() ==> {
            &&& v.spec_serialize().is_prefix_of(bytes)
            &&& forall|x: Self| #[trigger] x.spec_serialize().is_prefix_of(bytes) ==> v.spec_serialize()
                == x.spec_serialize()
        }
    }

    open spec fn encodes_exactly() -> bool {
        true
    }

    open spec fn walks_known() -> bool {
        true
    }

    open spec fn first_name_ok(name: Seq<char>) -> bool {
        false
    }

    open spec fn always_generates() -> bool {
        true
    }

    open spec fn field_count(&self) -> nat {
        0
    }

    open spec fn comparison_operands(&self, val: (u64, u64)) -> Seq<Seq<u8>> {
        if val.0 == widen_i64(*self) {
            seq![spec_i64_bytes(narrow_i64(val.1))]
        } else if val.1 == widen_i64(*self) {
            seq![spec_i64_bytes(narrow_i64(val.0))]
        } else {
            Seq::empty()
        }
    }

    open spec fn serialized_records(&self) -> Seq<Seq<u8>> {
        Seq::empty()
    }

    /// Splicing replaces the value by the one the bytes encode; replacing
    /// it by a generated one records the new value's encoding.
    open spec fn mutation(&self, ty: &MutationType, path: Seq<usize>, before: Visitor, after: Self, after_v: Visitor) -> bool {
        match *ty {
            MutationType::Splice(b) => {
                    &&& after_v == before
                    &&& Self::is_lawful() ==> forall|x: Self| #[trigger] x.spec_serialize().is_prefix_of((**b)@)
                        ==> after.spec_serialize() == x.spec_serialize()
                },
            MutationType::GenerateReplace(_) => {
                &&& after == spec_i64_from_bytes(random_bytes(before.rng_state(), 8nat).take(8))
                &&& after_v.serialized().len() == before.serialized().len() + 1
                &&& after_v.serialized_bytes() == before.serialized_bytes().push(after.spec_serialize())
                &&& after_v.serialized_types() == before.serialized_types().push(Self::spec_name())
            },
            _ => true,
        }
    }

    open spec fn generate_ok(settings: GenerateSettings, rng: u64) -> bool {
        settings matches GenerateSettings::Range(r) ==> {
            &&& !r@.exhausted
            &&& (r@.end as i64) != 0
            &&& (r@.end as i64) == -1 ==> spec_i64_from_bytes(random_bytes(rng, 8nat).take(8)) != i64::MIN
        }
    }

    open spec fn mutate_ok(&self, ty: &MutationType, path: Seq<usize>) -> bool {
        &&& leaf_mutate_ok(ty, path)
        &&& (*ty matches MutationType::Splice(b) ==> (Self::is_lawful() ==> exists|x: Self| #[trigger] x.spec_serialize().is_prefix_of((**b)@)))
    }

    /// A leaf has no fields; its comparison operands are recorded.
    open spec fn walk(&self, index: usize, compared: Option<(u64, u64)>, before: Visitor, after: Visitor) -> bool {
        match compared {
            None => after == before,
            Some(val) => operands_recorded(before, self.comparison_operands(val), after),
        }
    }

    /// One registration, of the type itself.
    open spec fn registration(before: Visitor, parent: Option<Id>, variant: usize, after: Visitor) -> bool {
        one_edge(before, parent, variant, Self::spec_name(), after)
    }

    /// Records one edge, to the type itself, and goes no deeper.
    fn __autarkie_register(v: &mut Visitor, parent: Option<(Id, String)>, variant: usize) {
        let ghost before = *v;
        let me = Self::register_self(v, parent, variant);
        let ghost id = me.0;
        let ghost mid = *v;
        v.pop_ty();
        proof {
            assert(entered(before, parent_id(parent), variant, Self::spec_name(), id, mid));
            assert(before.ty_edges().is_prefix_of(v.ty_edges()));
            assert(before.ty_names().is_prefix_of(v.ty_names()));
            assert(v.ty_stack() =~= before.ty_stack());
        }
    }

    /// Generating draws from the visitor's random state and records nothing.
    open spec fn generation(before: Visitor, settings: Option<GenerateSettings>, r: Option<Self>, after: Visitor) -> bool {
        &&& after.draws_only(&before)
        &&& after.rng_state() == (rng_after(before.rng_state(), 8nat))
        &&& !(settings matches Some(GenerateSettings::Range(_))) ==> (r matches Some(x) ==> x == spec_i64_from_bytes( random_bytes(before.rng_state(), 8nat).take(8), ))
        &&& r is Some
        &&& r matches Some(x) ==> (settings matches Some(GenerateSettings::Range(rg)) ==> within_range( x as int, (rg@.start as i64) as int, (rg@.end as i64) as int, ))
        &&& r matches Some(x) ==> (settings matches Some(GenerateSettings::Range(rg)) ==> x as int == signed_range_fold( spec_i64_from_bytes(random_bytes(before.rng_state(), 8nat).take(8)) as int, (rg@.start as i64) as int, (rg@.end as i64) as int, ))
    }

    /// A number read from 8 random bytes; within a range, the
    /// remainder modulo its end (cut to the type), raised to its start
    /// where below it.
    fn __autarkie_generate(
        v: &mut Visitor,
        depth: &mut usize,
        cur_depth: usize,
        settings: Option<GenerateSettings>,
    ) -> (r: Option<i64>)
    {
        let bytes = v.generate_bytes(8);
        let mut res = decode_i64(bytes.as_slice()).unwrap();
        proof {
            lemma_i64_bytes(res);
        }
        match settings {
            Some(GenerateSettings::Range(range)) => {
                let e = *range.end() as i64;
                let ghost raw = res;
                res = res % e;
                proof {
                    lemma_rem_negated_divisor(raw as int, e as int);
                    lemma_rem_negated_divisor(-(raw as int), e as int);
                    assert(res as int == signed_rem(raw as int, e as int));
                }
                let s = *range.start() as i64;
                if res < s {
                    res = s;
                }
            },
            _ => {},
        }
        Some(res)
    }

    /// Where the number is one operand of the comparison, records the other
    /// operand, as a `i64`.
    fn __autarkie_cmps(&self, v: &mut Visitor, index: usize, __autarkie_val: (u64, u64))
        ensures
            __autarkie_val.0 == widen_i64(*self) ==> final(v).operands() == old(v).operands().push(
                spec_i64_bytes(narrow_i64(__autarkie_val.1)),
            ),
            __autarkie_val.0 != widen_i64(*self) && __autarkie_val.1 == widen_i64(*self)
                ==> final(v).operands() == old(v).operands().push(
                spec_i64_bytes(narrow_i64(__autarkie_val.0)),
            ),
            __autarkie_val.0 != widen_i64(*self) && __autarkie_val.1 != widen_i64(*self)
                ==> final(v).operands() == old(v).operands(),
            final(v).serialized() == old(v).serialized(),
            final(v).fields() == old(v).fields(),
    {
        let w = operand_of_i64(*self);
        if __autarkie_val.0 == w {
            let other = i64_of_operand(__autarkie_val.1);
            v.register_cmp(other.__autarkie_serialize());
        } else if __autarkie_val.1 == w {
            let other = i64_of_operand(__autarkie_val.0);
            v.register_cmp(other.__autarkie_serialize());
        }
        proof {
            assert(v.operands() =~= old(v).operands() + self.comparison_operands(__autarkie_val));
        }
    }

    /// At the end of the path: replaces the value by the one the spliced
    /// bytes encode, or by a generated one, whose encoding is recorded.
    fn __autarkie_mutate(
        &mut self,
        ty: &mut MutationType,
        visitor: &mut Visitor,
        path: VecDeque<usize>,
    )
    {
        match ty {
            MutationType::Splice(other) => {
                let bytes: &[u8] = **other;
                proof {
                    assert(bytes@.skip(0) =~= bytes@);
                }
                match Self::__autarkie_deserialize(bytes, 0) {
                    Some((v, end)) => {
                        proof {
                            if Self::is_lawful() {
                                assert(v.spec_serialize() =~= bytes@.subrange(0, v.spec_serialize().len() as int));
                                assert(v.spec_serialize().is_prefix_of(bytes@));
                            }
                        }
                        *self = v;
                    },
                    None => {},
                }
            },
            MutationType::GenerateReplace(bias) => {
                match Self::__autarkie_generate(visitor, bias, 0, None) {
                    Some(generated) => {
                        *self = generated;
                        let bytes = self.__autarkie_serialize();
                        Self::record_encoding(visitor, bytes);
                    },
                    None => {},
                }
            },
            _ => {
                proof {
                    assert(false);
                }
            },
        }
    }

    fn __autarkie_serialize(&self) -> (r: Vec<u8>) {
        encode_i64(*self)
    }

    fn __autarkie_deserialize(data: &[u8], pos: usize) -> (r: Option<(i64, usize)>) {
        let rest = slice_subrange(data, pos, data.len());
        match decode_i64(rest) {
            Some(x) => {
                proof {
                    lemma_i64_bytes(x);
                }
                Some((x, pos + 8))
            },
            None => None,
        }
    }

    /// A leaf has no fields.
    fn __autarkie_fields(&self, visitor: &mut Visitor, index: usize) {
    }

    /// A leaf holds no values to record.
    fn __autarkie_serialized(&self, visitor: &mut Visitor) {
    }

    fn __autarkie_id_name() -> (r: String) {
        let r = "i64".to_owned();
        assert(r@ == Self::spec_name());
        r
    }
}

impl Node for i128 {
    open spec fn node_shape(&self, shape: NodeType) -> bool {
        shape == NodeType::NonRecursive
    }

    open spec fn serialized_record_types(&self) -> Seq<Seq<char>> {
        Seq::empty()
    }

    /// A node with no children of its own.
    fn __autarkie_node_ty(&self, visitor: &Visitor) -> (r: NodeType) {
        NodeType::NonRecursive
    }

    open spec fn spec_serialize(&self) -> Seq<u8> {
        spec_i128_bytes(*self)
    }

    open spec fn spec_name() -> Seq<char> {
        "i128"@
    }

    open spec fn is_lawful() -> bool {
        true
    }

    open spec fn read_ok(bytes: Seq<u8>) -> bool {
        Self::is_lawful() && exists|x: Self| #[trigger] x.spec_serialize().is_prefix_of(bytes)
    }

    /// For a lawful type, a value read encodes as the start of the bytes,
    /// as any value whose encoding starts them does.
    open spec fn reading(bytes: Seq<u8>, v: Self) -> bool {
        Self::is_lawful() ==> {
            &&& v.spec_serialize().is_prefix_of(bytes)
            &&& forall|x: Self| #[trigger] x.spec_serialize().is_prefix_of(bytes) ==> v.spec_serialize()
                == x.spec_serialize()
        }
    }

    open spec fn encodes_exactly() -> bool {
        true
    }

    open spec fn walks_known() -> bool {
        true
    }

    open spec fn first_name_ok(name: Seq<char>) -> bool {
        false
    }

    open spec fn always_generates() -> bool {
        true
    }

    open spec fn field_count(&self) -> nat {
        0
    }

    open spec fn comparison_operands(&self, val: (u64, u64)) -> Seq<Seq<u8>> {
        if val.0 == widen_i128(*self) {
            seq![spec_i128_bytes(narrow_i128(val.1))]
        } else if val.1 == widen_i128(*self) {
            seq![spec_i128_bytes(narrow_i128(val.0))]
        } else {
            Seq::empty()
        }
    }

    open spec fn serialized_records(&self) -> Seq<Seq<u8>> {
        Seq::empty()
    }

    /// Splicing replaces the value by the one the bytes encode; replacing
    /// it by a generated one records the new value's encoding.
    open spec fn mutation(&self, ty: &MutationType, path: Seq<usize>, before: Visitor, after: Self, after_v: Visitor) -> bool {
        match *ty {
            MutationType::Splice(b) => {
                    &&& after_v == before
                    &&& Self::is_lawful() ==> forall|x: Self| #[trigger] x.spec_serialize().is_prefix_of((**b)@)
                        ==> after.spec_serialize() == x.spec_serialize()
                },
            MutationType::GenerateReplace(_) => {
                &&& after == spec_i128_from_bytes(random_bytes(before.rng_state(), 32nat).take(16))
                &&& after_v.serialized().len() == before.serialized().len() + 1
                &&& after_v.serialized_bytes() == before.serialized_bytes().push(after.spec_serialize())
                &&& after_v.serialized_types() == before.serialized_types().push(Self::spec_name())
            },
            _ => true,
        }
    }

    open spec fn generate_ok(settings: GenerateSettings, rng: u64) -> bool {
        settings matches GenerateSettings::Range(r) ==> {
            &&& !r@.exhausted
            &&& (r@.end as i128) != 0
            &&& (r@.end as i128) == -1 ==> spec_i128_from_bytes(random_bytes(rng, 32nat).take(16)) != i128::MIN
        }
    }

    open spec fn mutate_ok(&self, ty: &MutationType, path: Seq<usize>) -> bool {
        &&& leaf_mutate_ok(ty, path)
        &&& (*ty matches MutationType::Splice(b) ==> (Self::is_lawful() ==> exists|x: Self| #[trigger] x.spec_serialize().is_prefix_of((**b)@)))
    }

    /// A leaf has no fields; its comparison operands are recorded.
    open spec fn walk(&self, index: usize, compared: Option<(u64, u64)>, before: Visitor, after: Visitor) -> bool {
        match compared {
            None => after == before,
            Some(val) => operands_recorded(before, self.comparison_operands(val), after),
        }
    }

    /// One registration, of the type itself.
    open spec fn registration(before: Visitor, parent: Option<Id>, variant: usize, after: Visitor) -> bool {
        one_edge(before, parent, variant, Self::spec_name(), after)
    }

    /// Records one edge, to the type itself, and goes no deeper.
    fn __autarkie_register(v: &mut Visitor, parent: Option<(Id, String)>, variant: usize) {
        let ghost before = *v;
        let me = Self::register_self(v, parent, variant);
        let ghost id = me.0;
        let ghost mid = *v;
        v.pop_ty();
        proof {
            assert(entered(before, parent_id(parent), variant, Self::spec_name(), id, mid));
            assert(before.ty_edges().is_prefix_of(v.ty_edges()));
            assert(before.ty_names().is_prefix_of(v.ty_names()));
            assert(v.ty_stack() =~= before.ty_stack());
        }
    }

    /// Generating draws from the visitor's random state and records nothing.
    open spec fn generation(before: Visitor, settings: Option<GenerateSettings>, r: Option<Self>, after: Visitor) -> bool {
        &&& after.draws_only(&before)
        &&& after.rng_state() == (rng_after(before.rng_state(), 32nat))
        &&& !(settings matches Some(GenerateSettings::Range(_))) ==> (r matches Some(x) ==> x == spec_i128_from_bytes( random_bytes(before.rng_state(), 32nat).take(16), ))
        &&& r is Some
        &&& r matches Some(x) ==> (settings matches Some(GenerateSettings::Range(rg)) ==> within_range( x as int, (rg@.start as i128) as int, (rg@.end as i128) as int, ))
        &&& r matches Some(x) ==> (settings matches Some(GenerateSettings::Range(rg)) ==> x as int == signed_range_fold( spec_i128_from_bytes(random_bytes(before.rng_state(), 32nat).take(16)) as int, (rg@.start as i128) as int, (rg@.end as i128) as int, ))
    }

    /// A number read from 32 random bytes; within a range, the
    /// remainder modulo its end (cut to the type), raised to its start
    /// where below it.
    fn __autarkie_generate(
        v: &mut Visitor,
        depth: &mut usize,
        cur_depth: usize,
        settings: Option<GenerateSettings>,
    ) -> (r: Option<i128>)
    {
        let bytes = v.generate_bytes(32);
        let mut res = decode_i128(bytes.as_slice()).unwrap();
        proof {
            lemma_i128_bytes(res);
        }
        match settings {
            Some(GenerateSettings::Range(range)) => {
                let e = *range.end() as i128;
                let ghost raw = res;
                res = res % e;
                proof {
                    lemma_rem_negated_divisor(raw as int, e as int);
                    lemma_rem_negated_divisor(-(raw as int), e as int);
                    assert(res as int == signed_rem(raw as int, e as int));
                }
                let s = *range.start() as i128;
                if res < s {
                    res = s;
                }
            },
            _ => {},
        }
        Some(res)
    }

    /// Where the number is one operand of the comparison, records the other
    /// operand, as a `i128`.
    fn __autarkie_cmps(&self, v: &mut Visitor, index: usize, __autarkie_val: (u64, u64))
        ensures
            __autarkie_val.0 == widen_i128(*self) ==> final(v).operands() == old(v).operands().push(
                spec_i128_bytes(narrow_i128(__autarkie_val.1)),
            ),
            __autarkie_val.0 != widen_i128(*self) && __autarkie_val.1 == widen_i128(*self)
                ==> final(v).operands() == old(v).operands().push(
                spec_i128_bytes(narrow_i128(__autarkie_val.0)),
            ),
            __autarkie_val.0 != widen_i128(*self) && __autarkie_val.1 != widen_i128(*self)
                ==> final(v).operands() == old(v).operands(),
            final(v).serialized() == old(v).serialized(),
            final(v).fields() == old(v).fields(),
    {
        let w = operand_of_i128(*self);
        if __autarkie_val.0 == w {
            let other = i128_of_operand(__autarkie_val.1);
            v.register_cmp(other.__autarkie_serialize());
        } else if __autarkie_val.1 == w {
            let other = i128_of_operand(__autarkie_val.0);
            v.register_cmp(other.__autarkie_serialize());
        }
        proof {
            assert(v.operands() =~= old(v).operands() + self.comparison_operands(__autarkie_val));
        }
    }

    /// At the end of the path: replaces the value by the one the spliced
    /// bytes encode, or by a generated one, whose encoding is recorded.
    fn __autarkie_mutate(
        &mut self,
        ty: &mut MutationType,
        visitor: &mut Visitor,
        path: VecDeque<usize>,
    )
    {
        match ty {
            MutationType::Splice(other) => {
                let bytes: &[u8] = **other;
                proof {
                    assert(bytes@.skip(0) =~= bytes@);
                }
                match Self::__autarkie_deserialize(bytes, 0) {
                    Some((v, end)) => {
                        proof {
                            if Self::is_lawful() {
                                assert(v.spec_serialize() =~= bytes@.subrange(0, v.spec_serialize().len() as int));
                                assert(v.spec_serialize().is_prefix_of(bytes@));
                            }
                        }
                        *self = v;
                    },
                    None => {},
                }
            },
            MutationType::GenerateReplace(bias) => {
                match Self::__autarkie_generate(visitor, bias, 0, None) {
                    Some(generated) => {
                        *self = generated;
                        let bytes = self.__autarkie_serialize();
                        Self::record_encoding(visitor, bytes);
                    },
                    None => {},
                }
            },
            _ => {
                proof {
                    assert(false);
                }
            },
        }
    }

    fn __autarkie_serialize(&self) -> (r: Vec<u8>) {
        encode_i128(*self)
    }

    fn __autarkie_deserialize(data: &[u8], pos: usize) -> (r: Option<(i128, usize)>) {
        let rest = slice_subrange(data, pos, data.len());
        match decode_i128(rest) {
            Some(x) => {
                proof {
                    lemma_i128_bytes(x);
                }
                Some((x, pos + 16))
            },
            None => None,
        }
    }

    /// A leaf has no fields.
    fn __autarkie_fields(&self, visitor: &mut Visitor, index: usize) {
    }

    /// A leaf holds no values to record.
    fn __autarkie_serialized(&self, visitor: &mut Visitor) {
    }

    fn __autarkie_id_name() -> (r: String) {
        let r = "i128".to_owned();
        assert(r@ == Self::spec_name());
        r
    }
}

impl Node for usize {
    open spec fn node_shape(&self, shape: NodeType) -> bool {
        shape == NodeType::NonRecursive
    }

    open spec fn serialized_record_types(&self) -> Seq<Seq<char>> {
        Seq::empty()
    }

    /// A node with no children of its own.
    fn __autarkie_node_ty(&self, visitor: &Visitor) -> (r: NodeType) {
        NodeType::NonRecursive
    }

    open spec fn spec_serialize(&self) -> Seq<u8> {
        spec_usize_bytes(*self)
    }

    open spec fn spec_name() -> Seq<char> {
        "usize"@
    }

    open spec fn is_lawful() -> bool {
        true
    }

    open spec fn read_ok(bytes: Seq<u8>) -> bool {
        Self::is_lawful() && exists|x: Self| #[trigger] x.spec_serialize().is_prefix_of(bytes)
    }

    /// For a lawful type, a value read encodes as the start of the bytes,
    /// as any value whose encoding starts them does.
    open spec fn reading(bytes: Seq<u8>, v: Self) -> bool {
        Self::is_lawful() ==> {
            &&& v.spec_serialize().is_prefix_of(bytes)
            &&& forall|x: Self| #[trigger] x.spec_serialize().is_prefix_of(bytes) ==> v.spec_serialize()
                == x.spec_serialize()
        }
    }

    open spec fn encodes_exactly() -> bool {
        true
    }

    open spec fn walks_known() -> bool {
        true
    }

    open spec fn first_name_ok(name: Seq<char>) -> bool {
        false
    }

    open spec fn always_generates() -> bool {
        usize::MAX == u64::MAX
    }

    open spec fn field_count(&self) -> nat {
        0
    }

    open spec fn comparison_operands(&self, val: (u64, u64)) -> Seq<Seq<u8>> {
        if val.0 == widen_usize(*self) {
            seq![spec_usize_bytes(narrow_usize(val.1))]
        } else if val.1 == widen_usize(*self) {
            seq![spec_usize_bytes(narrow_usize(val.0))]
        } else {
            Seq::empty()
        }
    }

    open spec fn serialized_records(&self) -> Seq<Seq<u8>> {
        Seq::empty()
    }

    /// Splicing replaces the value by the one the bytes encode; replacing
    /// it by a generated one records the new value's encoding.
    open spec fn mutation(&self, ty: &MutationType, path: Seq<usize>, before: Visitor, after: Self, after_v: Visitor) -> bool {
        match *ty {
            MutationType::Splice(b) => {
                    &&& after_v == before
                    &&& Self::is_lawful() ==> forall|x: Self| #[trigger] x.spec_serialize().is_prefix_of((**b)@)
                        ==> after.spec_serialize() == x.spec_serialize()
                },
            MutationType::GenerateReplace(_) => {
                ||| {
                &&& after == spec_usize_from_bytes(random_bytes(before.rng_state(), 8nat).take(8))
                &&& after_v.serialized().len() == before.serialized().len() + 1
                &&& after_v.serialized_bytes() == before.serialized_bytes().push(after.spec_serialize())
                &&& after_v.serialized_types() == before.serialized_types().push(Self::spec_name())
            }
                ||| after == *self && after_v.serialized() == before.serialized() && usize::MAX != u64::MAX
            },
            _ => true,
        }
    }

    open spec fn generate_ok(settings: GenerateSettings, rng: u64) -> bool {
        settings matches GenerateSettings::Range(r) ==> !r@.exhausted && (r@.end as usize) != 0
    }

    open spec fn mutate_ok(&self, ty: &MutationType, path: Seq<usize>) -> bool {
        &&& leaf_mutate_ok(ty, path)
        &&& (*ty matches MutationType::Splice(b) ==> (Self::is_lawful() ==> exists|x: Self| #[trigger] x.spec_serialize().is_prefix_of((**b)@)))
    }

    /// A leaf has no fields; its comparison operands are recorded.
    open spec fn walk(&self, index: usize, compared: Option<(u64, u64)>, before: Visitor, after: Visitor) -> bool {
        match compared {
            None => after == before,
            Some(val) => operands_recorded(before, self.comparison_operands(val), after),
        }
    }

    /// One registration, of the type itself.
    open spec fn registration(before: Visitor, parent: Option<Id>, variant: usize, after: Visitor) -> bool {
        one_edge(before, parent, variant, Self::spec_name(), after)
    }

    /// Records one edge, to the type itself, and goes no deeper.
    fn __autarkie_register(v: &mut Visitor, parent: Option<(Id, String)>, variant: usize) {
        let ghost before = *v;
        let me = Self::register_self(v, parent, variant);
        let ghost id = me.0;
        let ghost mid = *v;
        v.pop_ty();
        proof {
            assert(entered(before, parent_id(parent), variant, Self::spec_name(), id, mid));
            assert(before.ty_edges().is_prefix_of(v.ty_edges()));
            assert(before.ty_names().is_prefix_of(v.ty_names()));
            assert(v.ty_stack() =~= before.ty_stack());
        }
    }

    /// Generating draws from the visitor's random state and records nothing.
    open spec fn generation(before: Visitor, settings: Option<GenerateSettings>, r: Option<Self>, after: Visitor) -> bool {
        &&& after.draws_only(&before)
        &&& after.rng_state() == (rng_after(before.rng_state(), 8nat))
        &&& !(settings matches Some(GenerateSettings::Range(_))) ==> (r matches Some(x) ==> x == spec_usize_from_bytes( random_bytes(before.rng_state(), 8nat).take(8), ))
        &&& r matches Some(x) ==> (settings matches Some(GenerateSettings::Range(rg)) ==> within_range( x as int, (rg@.start as usize) as int, (rg@.end as usize) as int, ))
        &&& r matches Some(x) ==> (settings matches Some(GenerateSettings::Range(rg)) ==> x as int == range_fold( spec_usize_from_bytes(random_bytes(before.rng_state(), 8nat).take(8)) as int, (rg@.start as usize) as int, (rg@.end as usize) as int, ))
    }

    /// A number read from 8 random bytes; within a range, the
    /// remainder modulo its end, raised to its start where below it.
    fn __autarkie_generate(
        v: &mut Visitor,
        depth: &mut usize,
        cur_depth: usize,
        settings: Option<GenerateSettings>,
    ) -> (r: Option<usize>)
    {
        let bytes = v.generate_bytes(8);
        let mut res = match decode_usize(bytes.as_slice()) {
            Some(x) => x,
            None => {
                return None;
            },
        };
        proof {
            lemma_usize_bytes(res);
        }
        match settings {
            Some(GenerateSettings::Range(range)) => {
                let e = *range.end() as usize;
                res = res % e;
                let s = *range.start() as usize;
                if res < s {
                    res = s;
                }
            },
            _ => {},
        }
        Some(res)
    }

    /// Where the number is one operand of the comparison, records the other
    /// operand, as a `usize`.
    fn __autarkie_cmps(&self, v: &mut Visitor, index: usize, __autarkie_val: (u64, u64))
        ensures
            __autarkie_val.0 == widen_usize(*self) ==> final(v).operands() == old(v).operands().push(
                spec_usize_bytes(narrow_usize(__autarkie_val.1)),
            ),
            __autarkie_val.0 != widen_usize(*self) && __autarkie_val.1 == widen_usize(*self)
                ==> final(v).operands() == old(v).operands().push(
                spec_usize_bytes(narrow_usize(__autarkie_val.0)),
            ),
            __autarkie_val.0 != widen_usize(*self) && __autarkie_val.1 != widen_usize(*self)
                ==> final(v).operands() == old(v).operands(),
            final(v).serialized() == old(v).serialized(),
            final(v).fields() == old(v).fields(),
    {
        let w = operand_of_usize(*self);
        if __autarkie_val.0 == w {
            let other = usize_of_operand(__autarkie_val.1);
            v.register_cmp(other.__autarkie_serialize());
        } else if __autarkie_val.1 == w {
            let other = usize_of_operand(__autarkie_val.0);
            v.register_cmp(other.__autarkie_serialize());
        }
        proof {
            assert(v.operands() =~= old(v).operands() + self.comparison_operands(__autarkie_val));
        }
    }

    /// At the end of the path: replaces the value by the one the spliced
    /// bytes encode, or by a generated one, whose encoding is recorded.
    fn __autarkie_mutate(
        &mut self,
        ty: &mut MutationType,
        visitor: &mut Visitor,
        path: VecDeque<usize>,
    )
    {
        match ty {
            MutationType::Splice(other) => {
                let bytes: &[u8] = **other;
                proof {
                    assert(bytes@.skip(0) =~= bytes@);
                }
                match Self::__autarkie_deserialize(bytes, 0) {
                    Some((v, end)) => {
                        proof {
                            if Self::is_lawful() {
                                assert(v.spec_serialize() =~= bytes@.subrange(0, v.spec_serialize().len() as int));
                                assert(v.spec_serialize().is_prefix_of(bytes@));
                            }
                        }
                        *self = v;
                    },
                    None => {},
                }
            },
            MutationType::GenerateReplace(bias) => {
                match Self::__autarkie_generate(visitor, bias, 0, None) {
                    Some(generated) => {
                        *self = generated;
                        let bytes = self.__autarkie_serialize();
                        Self::record_encoding(visitor, bytes);
                    },
                    None => {},
                }
            },
            _ => {
                proof {
                    assert(false);
                }
            },
        }
    }

    fn __autarkie_serialize(&self) -> (r: Vec<u8>) {
        encode_usize(*self)
    }

    fn __autarkie_deserialize(data: &[u8], pos: usize) -> (r: Option<(usize, usize)>) {
        let rest = slice_subrange(data, pos, data.len());
        match decode_usize(rest) {
            Some(x) => {
                proof {
                    lemma_usize_bytes(x);
                }
                Some((x, pos + 8))
            },
            None => None,
        }
    }

    /// A leaf has no fields.
    fn __autarkie_fields(&self, visitor: &mut Visitor, index: usize) {
    }

    /// A leaf holds no values to record.
    fn __autarkie_serialized(&self, visitor: &mut Visitor) {
    }

    fn __autarkie_id_name() -> (r: String) {
        let r = "usize".to_owned();
        assert(r@ == Self::spec_name());
        r
    }
}

impl Node for isize {
    open spec fn node_shape(&self, shape: NodeType) -> bool {
        shape == NodeType::NonRecursive
    }

    open spec fn serialized_record_types(&self) -> Seq<Seq<char>> {
        Seq::empty()
    }

    /// A node with no children of its own.
    fn __autarkie_node_ty(&self, visitor: &Visitor) -> (r: NodeType) {
        NodeType::NonRecursive
    }

    open spec fn spec_serialize(&self) -> Seq<u8> {
        spec_isize_bytes(*self)
    }

    open spec fn spec_name() -> Seq<char> {
        "isize"@
    }

    open spec fn is_lawful() -> bool {
        true
    }

    open spec fn read_ok(bytes: Seq<u8>) -> bool {
        Self::is_lawful() && exists|x: Self| #[trigger] x.spec_serialize().is_prefix_of(bytes)
    }

    /// For a lawful type, a value read encodes as the start of the bytes,
    /// as any value whose encoding starts them does.
    open spec fn reading(bytes: Seq<u8>, v: Self) -> bool {
        Self::is_lawful() ==> {
            &&& v.spec_serialize().is_prefix_of(bytes)
            &&& forall|x: Self| #[trigger] x.spec_serialize().is_prefix_of(bytes) ==> v.spec_serialize()
                == x.spec_serialize()
        }
    }

    open spec fn encodes_exactly() -> bool {
        true
    }

    open spec fn walks_known() -> bool {
        true
    }

    open spec fn first_name_ok(name: Seq<char>) -> bool {
        false
    }

    open spec fn always_generates() -> bool {
        usize::MAX == u64::MAX
    }

    open spec fn field_count(&self) -> nat {
        0
    }

    open spec fn comparison_operands(&self, val: (u64, u64)) -> Seq<Seq<u8>> {
        if val.0 == widen_isize(*self) {
            seq![spec_isize_bytes(narrow_isize(val.1))]
        } else if val.1 == widen_isize(*self) {
            seq![spec_isize_bytes(narrow_isize(val.0))]
        } else {
            Seq::empty()
        }
    }

    open spec fn serialized_records(&self) -> Seq<Seq<u8>> {
        Seq::empty()
    }

    /// Splicing replaces the value by the one the bytes encode; replacing
    /// it by a generated one records the new value's encoding.
    open spec fn mutation(&self, ty: &MutationType, path: Seq<usize>, before: Visitor, after: Self, after_v: Visitor) -> bool {
        match *ty {
            MutationType::Splice(b) => {
                    &&& after_v == before
                    &&& Self::is_lawful() ==> forall|x: Self| #[trigger] x.spec_serialize().is_prefix_of((**b)@)
                        ==> after.spec_serialize() == x.spec_serialize()
                },
            MutationType::GenerateReplace(_) => {
                ||| {
                &&& after == spec_isize_from_bytes(random_bytes(before.rng_state(), 8nat).take(8))
                &&& after_v.serialized().len() == before.serialized().len() + 1
                &&& after_v.serialized_bytes() == before.serialized_bytes().push(after.spec_serialize())
                &&& after_v.serialized_types() == before.serialized_types().push(Self::spec_name())
            }
                ||| after == *self && after_v.serialized() == before.serialized() && usize::MAX != u64::MAX
            },
            _ => true,
        }
    }

    open spec fn generate_ok(settings: GenerateSettings, rng: u64) -> bool {
        settings matches GenerateSettings::Range(r) ==> {
            &&& !r@.exhausted
            &&& (r@.end as isize) != 0
            &&& (r@.end as isize) == -1 ==> spec_isize_from_bytes(random_bytes(rng, 8nat).take(8)) != isize::MIN
        }
    }

    open spec fn mutate_ok(&self, ty: &MutationType, path: Seq<usize>) -> bool {
        &&& leaf_mutate_ok(ty, path)
        &&& (*ty matches MutationType::Splice(b) ==> (Self::is_lawful() ==> exists|x: Self| #[trigger] x.spec_serialize().is_prefix_of((**b)@)))
    }

    /// A leaf has no fields; its comparison operands are recorded.
    open spec fn walk(&self, index: usize, compared: Option<(u64, u64)>, before: Visitor, after: Visitor) -> bool {
        match compared {
            None => after == before,
            Some(val) => operands_recorded(before, self.comparison_operands(val), after),
        }
    }

    /// One registration, of the type itself.
    open spec fn registration(before: Visitor, parent: Option<Id>, variant: usize, after: Visitor) -> bool {
        one_edge(before, parent, variant, Self::spec_name(), after)
    }

    /// Records one edge, to the type itself, and goes no deeper.
    fn __autarkie_register(v: &mut Visitor, parent: Option<(Id, String)>, variant: usize) {
        let ghost before = *v;
        let me = Self::register_self(v, parent, variant);
        let ghost id = me.0;
        let ghost mid = *v;
        v.pop_ty();
        proof {
            assert(entered(before, parent_id(parent), variant, Self::spec_name(), id, mid));
            assert(before.ty_edges().is_prefix_of(v.ty_edges()));
            assert(before.ty_names().is_prefix_of(v.ty_names()));
            assert(v.ty_stack() =~= before.ty_stack());
        }
    }

    /// Generating draws from the visitor's random state and records nothing.
    open spec fn generation(before: Visitor, settings: Option<GenerateSettings>, r: Option<Self>, after: Visitor) -> bool {
        &&& after.draws_only(&before)
        &&& after.rng_state() == (rng_after(before.rng_state(), 8nat))
        &&& !(settings matches Some(GenerateSettings::Range(_))) ==> (r matches Some(x) ==> x == spec_isize_from_bytes( random_bytes(before.rng_state(), 8nat).take(8), ))
        &&& r matches Some(x) ==> (settings matches Some(GenerateSettings::Range(rg)) ==> within_range( x as int, (rg@.start as isize) as int, (rg@.end as isize) as int, ))
        &&& r matches Some(x) ==> (settings matches Some(GenerateSettings::Range(rg)) ==> x as int == signed_range_fold( spec_isize_from_bytes(random_bytes(before.rng_state(), 8nat).take(8)) as int, (rg@.start as isize) as int, (rg@.end as isize) as int, ))
    }

    /// A number read from 8 random bytes; within a range, the
    /// remainder modulo its end (cut to the type), raised to its start
    /// where below it.
    fn __autarkie_generate(
        v: &mut Visitor,
        depth: &mut usize,
        cur_depth: usize,
        settings: Option<GenerateSettings>,
    ) -> (r: Option<isize>)
    {
        let bytes = v.generate_bytes(8);
        let mut res = match decode_isize(bytes.as_slice()) {
            Some(x) => x,
            None => {
                return None;
            },
        };
        proof {
            lemma_isize_bytes(res);
        }
        match settings {
            Some(GenerateSettings::Range(range)) => {
                let e = *range.end() as isize;
                let ghost raw = res;
                res = res % e;
                proof {
                    lemma_rem_negated_divisor(raw as int, e as int);
                    lemma_rem_negated_divisor(-(raw as int), e as int);
                    assert(res as int == signed_rem(raw as int, e as int));
                }
                let s = *range.start() as isize;
                if res < s {
                    res = s;
                }
            },
            _ => {},
        }
        Some(res)
    }

    /// Where the number is one operand of the comparison, records the other
    /// operand, as a `isize`.
    fn __autarkie_cmps(&self, v: &mut Visitor, index: usize, __autarkie_val: (u64, u64))
        ensures
            __autarkie_val.0 == widen_isize(*self) ==> final(v).operands() == old(v).operands().push(
                spec_isize_bytes(narrow_isize(__autarkie_val.1)),
            ),
            __autarkie_val.0 != widen_isize(*self) && __autarkie_val.1 == widen_isize(*self)
                ==> final(v).operands() == old(v).operands().push(
                spec_isize_bytes(narrow_isize(__autarkie_val.0)),
            ),
            __autarkie_val.0 != widen_isize(*self) && __autarkie_val.1 != widen_isize(*self)
                ==> final(v).operands() == old(v).operands(),
            final(v).serialized() == old(v).serialized(),
            final(v).fields() == old(v).fields(),
    {
        let w = operand_of_isize(*self);
        if __autarkie_val.0 == w {
            let other = isize_of_operand(__autarkie_val.1);
            v.register_cmp(other.__autarkie_serialize());
        } else if __autarkie_val.1 == w {
            let other = isize_of_operand(__autarkie_val.0);
            v.register_cmp(other.__autarkie_serialize());
        }
        proof {
            assert(v.operands() =~= old(v).operands() + self.comparison_operands(__autarkie_val));
        }
    }

    /// At the end of the path: replaces the value by the one the spliced
    /// bytes encode, or by a generated one, whose encoding is recorded.
    fn __autarkie_mutate(
        &mut self,
        ty: &mut MutationType,
        visitor: &mut Visitor,
        path: VecDeque<usize>,
    )
    {
        match ty {
            MutationType::Splice(other) => {
                let bytes: &[u8] = **other;
                proof {
                    assert(bytes@.skip(0) =~= bytes@);
                }
                match Self::__autarkie_deserialize(bytes, 0) {
                    Some((v, end)) => {
                        proof {
                            if Self::is_lawful() {
                                assert(v.spec_serialize() =~= bytes@.subrange(0, v.spec_serialize().len() as int));
                                assert(v.spec_serialize().is_prefix_of(bytes@));
                            }
                        }
                        *self = v;
                    },
                    None => {},
                }
            },
            MutationType::GenerateReplace(bias) => {
                match Self::__autarkie_generate(visitor, bias, 0, None) {
                    Some(generated) => {
                        *self = generated;
                        let bytes = self.__autarkie_serialize();
                        Self::record_encoding(visitor, bytes);
                    },
                    None => {},
                }
            },
            _ => {
                proof {
                    assert(false);
                }
            },
        }
    }

    fn __autarkie_serialize(&self) -> (r: Vec<u8>) {
        encode_isize(*self)
    }

    fn __autarkie_deserialize(data: &[u8], pos: usize) -> (r: Option<(isize, usize)>) {
        let rest = slice_subrange(data, pos, data.len());
        match decode_isize(rest) {
            Some(x) => {
                proof {
                    lemma_isize_bytes(x);
                }
                Some((x, pos + 8))
            },
            None => None,
        }
    }

    /// A leaf has no fields.
    fn __autarkie_fields(&self, visitor: &mut Visitor, index: usize) {
    }

    /// A leaf holds no values to record.
    fn __autarkie_serialized(&self, visitor: &mut Visitor) {
    }

    fn __autarkie_id_name() -> (r: String) {
        let r = "isize".to_owned();
        assert(r@ == Self::spec_name());
        r
    }
}

impl Node for bool {
    open spec fn node_shape(&self, shape: NodeType) -> bool {
        shape == NodeType::NonRecursive
    }

    open spec fn serialized_record_types(&self) -> Seq<Seq<char>> {
        Seq::empty()
    }

    /// A node with no children of its own.
    fn __autarkie_node_ty(&self, visitor: &Visitor) -> (r: NodeType) {
        NodeType::NonRecursive
    }

    open spec fn spec_serialize(&self) -> Seq<u8> {
        spec_bool_bytes(*self)
    }

    open spec fn spec_name() -> Seq<char> {
        "bool"@
    }

    open spec fn is_lawful() -> bool {
        true
    }

    open spec fn read_ok(bytes: Seq<u8>) -> bool {
        Self::is_lawful() && exists|x: Self| #[trigger] x.spec_serialize().is_prefix_of(bytes)
    }

    /// For a lawful type, a value read encodes as the start of the bytes,
    /// as any value whose encoding starts them does.
    open spec fn reading(bytes: Seq<u8>, v: Self) -> bool {
        Self::is_lawful() ==> {
            &&& v.spec_serialize().is_prefix_of(bytes)
            &&& forall|x: Self| #[trigger] x.spec_serialize().is_prefix_of(bytes) ==> v.spec_serialize()
                == x.spec_serialize()
        }
    }

    open spec fn encodes_exactly() -> bool {
        true
    }

    open spec fn walks_known() -> bool {
        true
    }

    open spec fn first_name_ok(name: Seq<char>) -> bool {
        false
    }

    open spec fn always_generates() -> bool {
        true
    }

    open spec fn field_count(&self) -> nat {
        0
    }

    open spec fn comparison_operands(&self, val: (u64, u64)) -> Seq<Seq<u8>> {
        Seq::empty()
    }

    open spec fn serialized_records(&self) -> Seq<Seq<u8>> {
        Seq::empty()
    }

    /// Splicing replaces the value by the one the bytes encode; replacing
    /// it by a generated one records the new value's encoding.
    open spec fn mutation(&self, ty: &MutationType, path: Seq<usize>, before: Visitor, after: Self, after_v: Visitor) -> bool {
        match *ty {
            MutationType::Splice(b) => {
                    &&& after_v == before
                    &&& Self::is_lawful() ==> forall|x: Self| #[trigger] x.spec_serialize().is_prefix_of((**b)@)
                        ==> after.spec_serialize() == x.spec_serialize()
                },
            MutationType::GenerateReplace(_) => {
                &&& after == rng_coin(before.rng_state())
                &&& after_v.serialized().len() == before.serialized().len() + 1
                &&& after_v.serialized_bytes() == before.serialized_bytes().push(after.spec_serialize())
                &&& after_v.serialized_types() == before.serialized_types().push(Self::spec_name())
            },
            _ => true,
        }
    }

    open spec fn generate_ok(settings: GenerateSettings, rng: u64) -> bool {
        true
    }

    open spec fn mutate_ok(&self, ty: &MutationType, path: Seq<usize>) -> bool {
        &&& leaf_mutate_ok(ty, path)
        &&& (*ty matches MutationType::Splice(b) ==> (Self::is_lawful() ==> exists|x: Self| #[trigger] x.spec_serialize().is_prefix_of((**b)@)))
    }

    /// A leaf has no fields; its comparison operands are recorded.
    open spec fn walk(&self, index: usize, compared: Option<(u64, u64)>, before: Visitor, after: Visitor) -> bool {
        match compared {
            None => after == before,
            Some(val) => operands_recorded(before, self.comparison_operands(val), after),
        }
    }

    /// One registration, of the type itself.
    open spec fn registration(before: Visitor, parent: Option<Id>, variant: usize, after: Visitor) -> bool {
        one_edge(before, parent, variant, Self::spec_name(), after)
    }

    /// Records one edge, to the type itself, and goes no deeper.
    fn __autarkie_register(v: &mut Visitor, parent: Option<(Id, String)>, variant: usize) {
        let ghost before = *v;
        let me = Self::register_self(v, parent, variant);
        let ghost id = me.0;
        let ghost mid = *v;
        v.pop_ty();
        proof {
            assert(entered(before, parent_id(parent), variant, Self::spec_name(), id, mid));
            assert(before.ty_edges().is_prefix_of(v.ty_edges()));
            assert(before.ty_names().is_prefix_of(v.ty_names()));
            assert(v.ty_stack() =~= before.ty_stack());
        }
    }

    /// Generating draws from the visitor's random state and records nothing.
    open spec fn generation(before: Visitor, settings: Option<GenerateSettings>, r: Option<Self>, after: Visitor) -> bool {
        &&& after.draws_only(&before)
        &&& after.rng_state() == (rng_step(before.rng_state()))
        &&& r == Some(rng_coin(before.rng_state()))
    }

    /// A coin flip.
    fn __autarkie_generate(
        visitor: &mut Visitor,
        depth: &mut usize,
        cur_depth: usize,
        settings: Option<GenerateSettings>,
    ) -> (r: Option<Self>)
    {
        Some(visitor.coinflip())
    }

    /// At the end of the path: replaces the value by the one the spliced
    /// bytes encode, or by a generated one, whose encoding is recorded.
    fn __autarkie_mutate(
        &mut self,
        ty: &mut MutationType,
        visitor: &mut Visitor,
        path: VecDeque<usize>,
    )
    {
        match ty {
            MutationType::Splice(other) => {
                let bytes: &[u8] = **other;
                proof {
                    assert(bytes@.skip(0) =~= bytes@);
                }
                match Self::__autarkie_deserialize(bytes, 0) {
                    Some((v, end)) => {
                        proof {
                            if Self::is_lawful() {
                                assert(v.spec_serialize() =~= bytes@.subrange(0, v.spec_serialize().len() as int));
                                assert(v.spec_serialize().is_prefix_of(bytes@));
                            }
                        }
                        *self = v;
                    },
                    None => {},
                }
            },
            MutationType::GenerateReplace(bias) => {
                match Self::__autarkie_generate(visitor, bias, 0, None) {
                    Some(generated) => {
                        *self = generated;
                        let bytes = self.__autarkie_serialize();
                        Self::record_encoding(visitor, bytes);
                    },
                    None => {},
                }
            },
            _ => {
                proof {
                    assert(false);
                }
            },
        }
    }

    fn __autarkie_serialize(&self) -> (r: Vec<u8>) {
        encode_bool(*self)
    }

    fn __autarkie_deserialize(data: &[u8], pos: usize) -> (r: Option<(bool, usize)>) {
        let rest = slice_subrange(data, pos, data.len());
        match decode_bool(rest) {
            Some(b) => Some((b, pos + 1)),
            None => None,
        }
    }

    /// A leaf has no fields.
    fn __autarkie_fields(&self, visitor: &mut Visitor, index: usize) {
    }

    /// A leaf that is no number records no operand.
    fn __autarkie_cmps(&self, visitor: &mut Visitor, index: usize, __autarkie_val: (u64, u64)) {
    }

    /// A leaf holds no values to record.
    fn __autarkie_serialized(&self, visitor: &mut Visitor) {
    }

    fn __autarkie_id_name() -> (r: String) {
        let r = "bool".to_owned();
        assert(r@ == Self::spec_name());
        r
    }
}

impl Node for () {
    open spec fn node_shape(&self, shape: NodeType) -> bool {
        shape == NodeType::NonRecursive
    }

    open spec fn serialized_record_types(&self) -> Seq<Seq<char>> {
        Seq::empty()
    }

    /// A node with no children of its own.
    fn __autarkie_node_ty(&self, visitor: &Visitor) -> (r: NodeType) {
        NodeType::NonRecursive
    }

    open spec fn spec_serialize(&self) -> Seq<u8> {
        Seq::<u8>::empty()
    }

    open spec fn spec_name() -> Seq<char> {
        "()"@
    }

    open spec fn is_lawful() -> bool {
        true
    }

    open spec fn read_ok(bytes: Seq<u8>) -> bool {
        Self::is_lawful() && exists|x: Self| #[trigger] x.spec_serialize().is_prefix_of(bytes)
    }

    /// For a lawful type, a value read encodes as the start of the bytes,
    /// as any value whose encoding starts them does.
    open spec fn reading(bytes: Seq<u8>, v: Self) -> bool {
        Self::is_lawful() ==> {
            &&& v.spec_serialize().is_prefix_of(bytes)
            &&& forall|x: Self| #[trigger] x.spec_serialize().is_prefix_of(bytes) ==> v.spec_serialize()
                == x.spec_serialize()
        }
    }

    open spec fn encodes_exactly() -> bool {
        true
    }

    open spec fn walks_known() -> bool {
        true
    }

    open spec fn first_name_ok(name: Seq<char>) -> bool {
        false
    }

    open spec fn always_generates() -> bool {
        true
    }

    open spec fn field_count(&self) -> nat {
        0
    }

    open spec fn comparison_operands(&self, val: (u64, u64)) -> Seq<Seq<u8>> {
        Seq::empty()
    }

    open spec fn serialized_records(&self) -> Seq<Seq<u8>> {
        Seq::empty()
    }

    /// Splicing replaces the value by the one the bytes encode; replacing
    /// it by a generated one records the new value's encoding.
    open spec fn mutation(&self, ty: &MutationType, path: Seq<usize>, before: Visitor, after: Self, after_v: Visitor) -> bool {
        match *ty {
            MutationType::Splice(b) => {
                    &&& after_v == before
                    &&& Self::is_lawful() ==> forall|x: Self| #[trigger] x.spec_serialize().is_prefix_of((**b)@)
                        ==> after.spec_serialize() == x.spec_serialize()
                },
            MutationType::GenerateReplace(_) => {
                &&& true
                &&& after_v.serialized().len() == before.serialized().len() + 1
                &&& after_v.serialized_bytes() == before.serialized_bytes().push(after.spec_serialize())
                &&& after_v.serialized_types() == before.serialized_types().push(Self::spec_name())
            },
            _ => true,
        }
    }

    open spec fn generate_ok(settings: GenerateSettings, rng: u64) -> bool {
        true
    }

    open spec fn mutate_ok(&self, ty: &MutationType, path: Seq<usize>) -> bool {
        &&& leaf_mutate_ok(ty, path)
        &&& (*ty matches MutationType::Splice(b) ==> (Self::is_lawful() ==> exists|x: Self| #[trigger] x.spec_serialize().is_prefix_of((**b)@)))
    }

    /// A leaf has no fields; its comparison operands are recorded.
    open spec fn walk(&self, index: usize, compared: Option<(u64, u64)>, before: Visitor, after: Visitor) -> bool {
        match compared {
            None => after == before,
            Some(val) => operands_recorded(before, self.comparison_operands(val), after),
        }
    }

    /// One registration, of the type itself.
    open spec fn registration(before: Visitor, parent: Option<Id>, variant: usize, after: Visitor) -> bool {
        one_edge(before, parent, variant, Self::spec_name(), after)
    }

    /// Records one edge, to the type itself, and goes no deeper.
    fn __autarkie_register(v: &mut Visitor, parent: Option<(Id, String)>, variant: usize) {
        let ghost before = *v;
        let me = Self::register_self(v, parent, variant);
        let ghost id = me.0;
        let ghost mid = *v;
        v.pop_ty();
        proof {
            assert(entered(before, parent_id(parent), variant, Self::spec_name(), id, mid));
            assert(before.ty_edges().is_prefix_of(v.ty_edges()));
            assert(before.ty_names().is_prefix_of(v.ty_names()));
            assert(v.ty_stack() =~= before.ty_stack());
        }
    }

    /// Generating draws from the visitor's random state and records nothing.
    open spec fn generation(before: Visitor, settings: Option<GenerateSettings>, r: Option<Self>, after: Visitor) -> bool {
        &&& after.draws_only(&before)
        &&& after.rng_state() == (before.rng_state())
        &&& r is Some
    }

    /// The unit value.
    fn __autarkie_generate(
        visitor: &mut Visitor,
        depth: &mut usize,
        cur_depth: usize,
        settings: Option<GenerateSettings>,
    ) -> (r: Option<Self>)
    {
        Some(())
    }

    /// At the end of the path: replaces the value by the one the spliced
    /// bytes encode, or by a generated one, whose encoding is recorded.
    fn __autarkie_mutate(
        &mut self,
        ty: &mut MutationType,
        visitor: &mut Visitor,
        path: VecDeque<usize>,
    )
    {
        match ty {
            MutationType::Splice(other) => {
                let bytes: &[u8] = **other;
                proof {
                    assert(bytes@.skip(0) =~= bytes@);
                }
                match Self::__autarkie_deserialize(bytes, 0) {
                    Some((v, end)) => {
                        proof {
                            if Self::is_lawful() {
                                assert(v.spec_serialize() =~= bytes@.subrange(0, v.spec_serialize().len() as int));
                                assert(v.spec_serialize().is_prefix_of(bytes@));
                            }
                        }
                        *self = v;
                    },
                    None => {},
                }
            },
            MutationType::GenerateReplace(bias) => {
                match Self::__autarkie_generate(visitor, bias, 0, None) {
                    Some(generated) => {
                        *self = generated;
                        let bytes = self.__autarkie_serialize();
                        Self::record_encoding(visitor, bytes);
                    },
                    None => {},
                }
            },
            _ => {
                proof {
                    assert(false);
                }
            },
        }
    }

    fn __autarkie_serialize(&self) -> (r: Vec<u8>) {
        Vec::new()
    }

    fn __autarkie_deserialize(data: &[u8], pos: usize) -> (r: Option<((), usize)>) {
        proof {
            assert forall|x: ()| #[trigger] x.spec_serialize().is_prefix_of(data@.skip(pos as int)) implies x.spec_serialize() == ().spec_serialize() by {}
        }
        Some(((), pos))
    }

    /// A leaf has no fields.
    fn __autarkie_fields(&self, visitor: &mut Visitor, index: usize) {
    }

    /// A leaf that is no number records no operand.
    fn __autarkie_cmps(&self, visitor: &mut Visitor, index: usize, __autarkie_val: (u64, u64)) {
    }

    /// A leaf holds no values to record.
    fn __autarkie_serialized(&self, visitor: &mut Visitor) {
    }

    fn __autarkie_id_name() -> (r: String) {
        let r = "()".to_owned();
        assert(r@ == Self::spec_name());
        r
    }
}

impl Node for char {
    open spec fn node_shape(&self, shape: NodeType) -> bool {
        shape == NodeType::NonRecursive
    }

    open spec fn serialized_record_types(&self) -> Seq<Seq<char>> {
        Seq::empty()
    }

    /// A node with no children of its own.
    fn __autarkie_node_ty(&self, visitor: &Visitor) -> (r: NodeType) {
        NodeType::NonRecursive
    }

    open spec fn spec_serialize(&self) -> Seq<u8> {
        spec_char_bytes(*self)
    }

    open spec fn spec_name() -> Seq<char> {
        "char"@
    }

    open spec fn is_lawful() -> bool {
        true
    }

    open spec fn read_ok(bytes: Seq<u8>) -> bool {
        Self::is_lawful() && exists|x: Self| #[trigger] x.spec_serialize().is_prefix_of(bytes)
    }

    /// For a lawful type, a value read encodes as the start of the bytes,
    /// as any value whose encoding starts them does.
    open spec fn reading(bytes: Seq<u8>, v: Self) -> bool {
        Self::is_lawful() ==> {
            &&& v.spec_serialize().is_prefix_of(bytes)
            &&& forall|x: Self| #[trigger] x.spec_serialize().is_prefix_of(bytes) ==> v.spec_serialize()
                == x.spec_serialize()
        }
    }

    open spec fn encodes_exactly() -> bool {
        true
    }

    open spec fn walks_known() -> bool {
        true
    }

    open spec fn first_name_ok(name: Seq<char>) -> bool {
        false
    }

    open spec fn always_generates() -> bool {
        true
    }

    open spec fn field_count(&self) -> nat {
        0
    }

    open spec fn comparison_operands(&self, val: (u64, u64)) -> Seq<Seq<u8>> {
        Seq::empty()
    }

    open spec fn serialized_records(&self) -> Seq<Seq<u8>> {
        Seq::empty()
    }

    /// Splicing replaces the value by the one the bytes encode; replacing
    /// it by a generated one records the new value's encoding.
    open spec fn mutation(&self, ty: &MutationType, path: Seq<usize>, before: Visitor, after: Self, after_v: Visitor) -> bool {
        match *ty {
            MutationType::Splice(b) => {
                    &&& after_v == before
                    &&& Self::is_lawful() ==> forall|x: Self| #[trigger] x.spec_serialize().is_prefix_of((**b)@)
                        ==> after.spec_serialize() == x.spec_serialize()
                },
            MutationType::GenerateReplace(_) => {
                &&& ({
                    let x = spec_u32_from_bytes(random_bytes(before.rng_state(), 4nat).take(4));
                    if is_scalar(x) { after as u32 == x } else { after == '\0' }
                })
                &&& after_v.serialized().len() == before.serialized().len() + 1
                &&& after_v.serialized_bytes() == before.serialized_bytes().push(after.spec_serialize())
                &&& after_v.serialized_types() == before.serialized_types().push(Self::spec_name())
            },
            _ => true,
        }
    }

    open spec fn generate_ok(settings: GenerateSettings, rng: u64) -> bool {
        true
    }

    open spec fn mutate_ok(&self, ty: &MutationType, path: Seq<usize>) -> bool {
        &&& leaf_mutate_ok(ty, path)
        &&& (*ty matches MutationType::Splice(b) ==> (Self::is_lawful() ==> exists|x: Self| #[trigger] x.spec_serialize().is_prefix_of((**b)@)))
    }

    /// A leaf has no fields; its comparison operands are recorded.
    open spec fn walk(&self, index: usize, compared: Option<(u64, u64)>, before: Visitor, after: Visitor) -> bool {
        match compared {
            None => after == before,
            Some(val) => operands_recorded(before, self.comparison_operands(val), after),
        }
    }

    /// One registration, of the type itself.
    open spec fn registration(before: Visitor, parent: Option<Id>, variant: usize, after: Visitor) -> bool {
        one_edge(before, parent, variant, Self::spec_name(), after)
    }

    /// Records one edge, to the type itself, and goes no deeper.
    fn __autarkie_register(v: &mut Visitor, parent: Option<(Id, String)>, variant: usize) {
        let ghost before = *v;
        let me = Self::register_self(v, parent, variant);
        let ghost id = me.0;
        let ghost mid = *v;
        v.pop_ty();
        proof {
            assert(entered(before, parent_id(parent), variant, Self::spec_name(), id, mid));
            assert(before.ty_edges().is_prefix_of(v.ty_edges()));
            assert(before.ty_names().is_prefix_of(v.ty_names()));
            assert(v.ty_stack() =~= before.ty_stack());
        }
    }

    /// Generating draws from the visitor's random state and records nothing.
    open spec fn generation(before: Visitor, settings: Option<GenerateSettings>, r: Option<Self>, after: Visitor) -> bool {
        &&& after.draws_only(&before)
        &&& after.rng_state() == (rng_after(before.rng_state(), 4nat))
        &&& r matches Some(c) ==> (c as u32 == 0 || is_scalar(c as u32))
        &&& ({ let x = spec_u32_from_bytes(random_bytes(before.rng_state(), 4nat).take(4)); &&& is_scalar(x) ==> (r matches Some(c) && c as u32 == x) &&& !is_scalar(x) ==> r == Some('\0') })
    }

    /// The character whose scalar value is a generated `u32`; the NUL character where that is no scalar value.
    fn __autarkie_generate(
        visitor: &mut Visitor,
        depth: &mut usize,
        cur_depth: usize,
        settings: Option<GenerateSettings>,
    ) -> (r: Option<Self>)
    {
        let x = match <u32 as Node>::__autarkie_generate(visitor, depth, cur_depth, None) {
            Some(x) => x,
            None => 0u32,
        };
        match char_from_u32(x) {
            Some(c) => Some(c),
            None => Some('\0'),
        }
    }

    /// At the end of the path: replaces the value by the one the spliced
    /// bytes encode, or by a generated one, whose encoding is recorded.
    fn __autarkie_mutate(
        &mut self,
        ty: &mut MutationType,
        visitor: &mut Visitor,
        path: VecDeque<usize>,
    )
    {
        match ty {
            MutationType::Splice(other) => {
                let bytes: &[u8] = **other;
                proof {
                    assert(bytes@.skip(0) =~= bytes@);
                }
                match Self::__autarkie_deserialize(bytes, 0) {
                    Some((v, end)) => {
                        proof {
                            if Self::is_lawful() {
                                assert(v.spec_serialize() =~= bytes@.subrange(0, v.spec_serialize().len() as int));
                                assert(v.spec_serialize().is_prefix_of(bytes@));
                            }
                        }
                        *self = v;
                    },
                    None => {},
                }
            },
            MutationType::GenerateReplace(bias) => {
                match Self::__autarkie_generate(visitor, bias, 0, None) {
                    Some(generated) => {
                        *self = generated;
                        let bytes = self.__autarkie_serialize();
                        Self::record_encoding(visitor, bytes);
                    },
                    None => {},
                }
            },
            _ => {
                proof {
                    assert(false);
                }
            },
        }
    }

    fn __autarkie_serialize(&self) -> (r: Vec<u8>) {
        encode_char(*self)
    }

    fn __autarkie_deserialize(data: &[u8], pos: usize) -> (r: Option<(char, usize)>) {
        let rest = slice_subrange(data, pos, data.len());
        match decode_char(rest) {
            Some(c) => {
                let bytes = encode_char(c);
                Some((c, pos + bytes.len()))
            },
            None => None,
        }
    }

    /// A leaf has no fields.
    fn __autarkie_fields(&self, visitor: &mut Visitor, index: usize) {
    }

    /// A leaf that is no number records no operand.
    fn __autarkie_cmps(&self, visitor: &mut Visitor, index: usize, __autarkie_val: (u64, u64)) {
    }

    /// A leaf holds no values to record.
    fn __autarkie_serialized(&self, visitor: &mut Visitor) {
    }

    fn __autarkie_id_name() -> (r: String) {
        let r = "char".to_owned();
        assert(r@ == Self::spec_name());
        r
    }
}

impl Node for String {
    open spec fn node_shape(&self, shape: NodeType) -> bool {
        shape == NodeType::NonRecursive
    }

    open spec fn serialized_record_types(&self) -> Seq<Seq<char>> {
        Seq::empty()
    }

    /// A node with no children of its own.
    fn __autarkie_node_ty(&self, visitor: &Visitor) -> (r: NodeType) {
        NodeType::NonRecursive
    }

    open spec fn spec_serialize(&self) -> Seq<u8> {
        spec_string_bytes(self@)
    }

    open spec fn spec_name() -> Seq<char> {
        "alloc::string::String"@
    }

    open spec fn is_lawful() -> bool {
        true
    }

    open spec fn read_ok(bytes: Seq<u8>) -> bool {
        Self::is_lawful() && exists|x: Self| #[trigger] x.spec_serialize().is_prefix_of(bytes)
    }

    /// For a lawful type, a value read encodes as the start of the bytes,
    /// as any value whose encoding starts them does.
    open spec fn reading(bytes: Seq<u8>, v: Self) -> bool {
        Self::is_lawful() ==> {
            &&& v.spec_serialize().is_prefix_of(bytes)
            &&& forall|x: Self| #[trigger] x.spec_serialize().is_prefix_of(bytes) ==> v.spec_serialize()
                == x.spec_serialize()
        }
    }

    open spec fn encodes_exactly() -> bool {
        true
    }

    open spec fn walks_known() -> bool {
        true
    }

    open spec fn first_name_ok(name: Seq<char>) -> bool {
        false
    }

    open spec fn always_generates() -> bool {
        true
    }

    open spec fn field_count(&self) -> nat {
        0
    }

    open spec fn comparison_operands(&self, val: (u64, u64)) -> Seq<Seq<u8>> {
        Seq::empty()
    }

    open spec fn serialized_records(&self) -> Seq<Seq<u8>> {
        Seq::empty()
    }

    /// Splicing replaces the value by the one the bytes encode; replacing
    /// it by a generated one records the new value's encoding.
    open spec fn mutation(&self, ty: &MutationType, path: Seq<usize>, before: Visitor, after: Self, after_v: Visitor) -> bool {
        match *ty {
            MutationType::Splice(b) => {
                    &&& after_v == before
                    &&& Self::is_lawful() ==> forall|x: Self| #[trigger] x.spec_serialize().is_prefix_of((**b)@)
                        ==> after.spec_serialize() == x.spec_serialize()
                },
            MutationType::GenerateReplace(_) => {
                &&& (before.strings().len() == 0 ==> after@ == Seq::<char>::empty())
                &&& (before.strings().len() > 0 ==> after@ == before.strings()[
                    (rng_output(before.rng_state()) % (before.strings().len() as u64)) as int]@)
                &&& after_v.serialized().len() == before.serialized().len() + 1
                &&& after_v.serialized_bytes() == before.serialized_bytes().push(after.spec_serialize())
                &&& after_v.serialized_types() == before.serialized_types().push(Self::spec_name())
            },
            _ => true,
        }
    }

    open spec fn generate_ok(settings: GenerateSettings, rng: u64) -> bool {
        true
    }

    open spec fn mutate_ok(&self, ty: &MutationType, path: Seq<usize>) -> bool {
        &&& leaf_mutate_ok(ty, path)
        &&& (*ty matches MutationType::Splice(b) ==> (Self::is_lawful() ==> exists|x: Self| #[trigger] x.spec_serialize().is_prefix_of((**b)@)))
    }

    /// A leaf has no fields; its comparison operands are recorded.
    open spec fn walk(&self, index: usize, compared: Option<(u64, u64)>, before: Visitor, after: Visitor) -> bool {
        match compared {
            None => after == before,
            Some(val) => operands_recorded(before, self.comparison_operands(val), after),
        }
    }

    /// One registration, of the type itself.
    open spec fn registration(before: Visitor, parent: Option<Id>, variant: usize, after: Visitor) -> bool {
        one_edge(before, parent, variant, Self::spec_name(), after)
    }

    /// Records one edge, to the type itself, and goes no deeper.
    fn __autarkie_register(v: &mut Visitor, parent: Option<(Id, String)>, variant: usize) {
        let ghost before = *v;
        let me = Self::register_self(v, parent, variant);
        let ghost id = me.0;
        let ghost mid = *v;
        v.pop_ty();
        proof {
            assert(entered(before, parent_id(parent), variant, Self::spec_name(), id, mid));
            assert(before.ty_edges().is_prefix_of(v.ty_edges()));
            assert(before.ty_names().is_prefix_of(v.ty_names()));
            assert(v.ty_stack() =~= before.ty_stack());
        }
    }

    /// Generating draws from the visitor's random state and records nothing.
    open spec fn generation(before: Visitor, settings: Option<GenerateSettings>, r: Option<Self>, after: Visitor) -> bool {
        &&& after.draws_only(&before)
        &&& after.rng_state() == (if before.strings().len() > 0 { rng_step(before.rng_state()) } else { before.rng_state() })
        &&& r is Some
        &&& r matches Some(s) ==> (before.strings().len() == 0 ==> s@ == Seq::<char>::empty())
        &&& r matches Some(s) ==> (before.strings().len() > 0 ==> s@ == before.strings()[ (rng_output(before.rng_state()) % (before.strings().len() as u64)) as int]@)
    }

    /// A string from the visitor's pool.
    fn __autarkie_generate(
        visitor: &mut Visitor,
        depth: &mut usize,
        cur_depth: usize,
        settings: Option<GenerateSettings>,
    ) -> (r: Option<Self>)
    {
        Some(visitor.get_string())
    }

    /// At the end of the path: replaces the value by the one the spliced
    /// bytes encode, or by a generated one, whose encoding is recorded.
    fn __autarkie_mutate(
        &mut self,
        ty: &mut MutationType,
        visitor: &mut Visitor,
        path: VecDeque<usize>,
    )
    {
        match ty {
            MutationType::Splice(other) => {
                let bytes: &[u8] = **other;
                proof {
                    assert(bytes@.skip(0) =~= bytes@);
                }
                match Self::__autarkie_deserialize(bytes, 0) {
                    Some((v, end)) => {
                        proof {
                            if Self::is_lawful() {
                                assert(v.spec_serialize() =~= bytes@.subrange(0, v.spec_serialize().len() as int));
                                assert(v.spec_serialize().is_prefix_of(bytes@));
                            }
                        }
                        *self = v;
                    },
                    None => {},
                }
            },
            MutationType::GenerateReplace(bias) => {
                match Self::__autarkie_generate(visitor, bias, 0, None) {
                    Some(generated) => {
                        *self = generated;
                        let bytes = self.__autarkie_serialize();
                        Self::record_encoding(visitor, bytes);
                    },
                    None => {},
                }
            },
            _ => {
                proof {
                    assert(false);
                }
            },
        }
    }

    fn __autarkie_serialize(&self) -> (r: Vec<u8>) {
        encode_string(self)
    }

    fn __autarkie_deserialize(data: &[u8], pos: usize) -> (r: Option<(String, usize)>) {
        let rest = slice_subrange(data, pos, data.len());
        match decode_string(rest) {
            Some((s, n)) => Some((s, pos + n)),
            None => None,
        }
    }

    /// A leaf has no fields.
    fn __autarkie_fields(&self, visitor: &mut Visitor, index: usize) {
    }

    /// A leaf that is no number records no operand.
    fn __autarkie_cmps(&self, visitor: &mut Visitor, index: usize, __autarkie_val: (u64, u64)) {
    }

    /// A leaf holds no values to record.
    fn __autarkie_serialized(&self, visitor: &mut Visitor) {
    }

    fn __autarkie_id_name() -> (r: String) {
        let r = "alloc::string::String".to_owned();
        assert(r@ == Self::spec_name());
        r
    }
}

/// `String::into_boxed_str`: the same characters, in a box of their own.
#[verifier::external_body]
fn into_boxed_str(s: String) -> (r: Box<str>)
    ensures
        r@ == s@,
{
    s.into_boxed_str()
}

/// A boxed string encodes, and is generated, as a `String` is.
impl Node for Box<str> {
    open spec fn node_shape(&self, shape: NodeType) -> bool {
        shape == NodeType::NonRecursive
    }

    open spec fn serialized_record_types(&self) -> Seq<Seq<char>> {
        Seq::empty()
    }

    /// A node with no children of its own.
    fn __autarkie_node_ty(&self, visitor: &Visitor) -> (r: NodeType) {
        NodeType::NonRecursive
    }

    open spec fn spec_serialize(&self) -> Seq<u8> {
        spec_string_bytes(self@)
    }

    open spec fn spec_name() -> Seq<char> {
        "alloc::boxed::Box<str>"@
    }

    open spec fn is_lawful() -> bool {
        true
    }

    open spec fn read_ok(bytes: Seq<u8>) -> bool {
        Self::is_lawful() && exists|x: Self| #[trigger] x.spec_serialize().is_prefix_of(bytes)
    }

    /// For a lawful type, a value read encodes as the start of the bytes,
    /// as any value whose encoding starts them does.
    open spec fn reading(bytes: Seq<u8>, v: Self) -> bool {
        Self::is_lawful() ==> {
            &&& v.spec_serialize().is_prefix_of(bytes)
            &&& forall|x: Self| #[trigger] x.spec_serialize().is_prefix_of(bytes) ==> v.spec_serialize()
                == x.spec_serialize()
        }
    }

    open spec fn encodes_exactly() -> bool {
        true
    }

    open spec fn walks_known() -> bool {
        true
    }

    open spec fn first_name_ok(name: Seq<char>) -> bool {
        false
    }

    open spec fn always_generates() -> bool {
        true
    }

    open spec fn field_count(&self) -> nat {
        0
    }

    open spec fn comparison_operands(&self, val: (u64, u64)) -> Seq<Seq<u8>> {
        Seq::empty()
    }

    open spec fn serialized_records(&self) -> Seq<Seq<u8>> {
        Seq::empty()
    }

    /// Splicing replaces the value by the one the bytes encode; replacing
    /// it by a generated one records the new value's encoding.
    open spec fn mutation(&self, ty: &MutationType, path: Seq<usize>, before: Visitor, after: Self, after_v: Visitor) -> bool {
        match *ty {
            MutationType::Splice(b) => {
                    &&& after_v == before
                    &&& Self::is_lawful() ==> forall|x: Self| #[trigger] x.spec_serialize().is_prefix_of((**b)@)
                        ==> after.spec_serialize() == x.spec_serialize()
                },
            MutationType::GenerateReplace(_) => {
                &&& (before.strings().len() == 0 ==> after@ == Seq::<char>::empty())
                &&& (before.strings().len() > 0 ==> after@ == before.strings()[
                    (rng_output(before.rng_state()) % (before.strings().len() as u64)) as int]@)
                &&& after_v.serialized().len() == before.serialized().len() + 1
                &&& after_v.serialized_bytes() == before.serialized_bytes().push(after.spec_serialize())
                &&& after_v.serialized_types() == before.serialized_types().push(Self::spec_name())
            },
            _ => true,
        }
    }

    open spec fn generate_ok(settings: GenerateSettings, rng: u64) -> bool {
        true
    }

    open spec fn mutate_ok(&self, ty: &MutationType, path: Seq<usize>) -> bool {
        &&& leaf_mutate_ok(ty, path)
        &&& (*ty matches MutationType::Splice(b) ==> (Self::is_lawful() ==> exists|x: Self| #[trigger] x.spec_serialize().is_prefix_of((**b)@)))
    }

    /// A leaf has no fields; its comparison operands are recorded.
    open spec fn walk(&self, index: usize, compared: Option<(u64, u64)>, before: Visitor, after: Visitor) -> bool {
        match compared {
            None => after == before,
            Some(val) => operands_recorded(before, self.comparison_operands(val), after),
        }
    }

    /// One registration, of the type itself.
    open spec fn registration(before: Visitor, parent: Option<Id>, variant: usize, after: Visitor) -> bool {
        one_edge(before, parent, variant, Self::spec_name(), after)
    }

    /// Records one edge, to the type itself, and goes no deeper.
    fn __autarkie_register(v: &mut Visitor, parent: Option<(Id, String)>, variant: usize) {
        let ghost before = *v;
        let me = Self::register_self(v, parent, variant);
        let ghost id = me.0;
        let ghost mid = *v;
        v.pop_ty();
        proof {
            assert(entered(before, parent_id(parent), variant, Self::spec_name(), id, mid));
            assert(before.ty_edges().is_prefix_of(v.ty_edges()));
            assert(before.ty_names().is_prefix_of(v.ty_names()));
            assert(v.ty_stack() =~= before.ty_stack());
        }
    }

    /// Generating draws from the visitor's random state and records nothing.
    open spec fn generation(before: Visitor, settings: Option<GenerateSettings>, r: Option<Self>, after: Visitor) -> bool {
        &&& after.draws_only(&before)
        &&& after.rng_state() == (if before.strings().len() > 0 { rng_step(before.rng_state()) } else { before.rng_state() })
        &&& r is Some
        &&& r matches Some(s) ==> (before.strings().len() == 0 ==> s@ == Seq::<char>::empty())
        &&& r matches Some(s) ==> (before.strings().len() > 0 ==> s@ == before.strings()[ (rng_output(before.rng_state()) % (before.strings().len() as u64)) as int]@)
    }

    /// A string from the visitor's pool, boxed.
    fn __autarkie_generate(
        visitor: &mut Visitor,
        depth: &mut usize,
        cur_depth: usize,
        settings: Option<GenerateSettings>,
    ) -> (r: Option<Self>)
    {
        match String::__autarkie_generate(visitor, depth, cur_depth, settings) {
            Some(s) => Some(into_boxed_str(s)),
            None => None,
        }
    }

    /// At the end of the path: replaces the value by the one the spliced
    /// bytes encode, or by a generated one, whose encoding is recorded.
    fn __autarkie_mutate(
        &mut self,
        ty: &mut MutationType,
        visitor: &mut Visitor,
        path: VecDeque<usize>,
    )
    {
        match ty {
            MutationType::Splice(other) => {
                let bytes: &[u8] = **other;
                proof {
                    assert(bytes@.skip(0) =~= bytes@);
                }
                match Self::__autarkie_deserialize(bytes, 0) {
                    Some((v, end)) => {
                        proof {
                            if Self::is_lawful() {
                                assert(v.spec_serialize() =~= bytes@.subrange(0, v.spec_serialize().len() as int));
                                assert(v.spec_serialize().is_prefix_of(bytes@));
                            }
                        }
                        *self = v;
                    },
                    None => {},
                }
            },
            MutationType::GenerateReplace(bias) => {
                match Self::__autarkie_generate(visitor, bias, 0, None) {
                    Some(generated) => {
                        *self = generated;
                        let bytes = self.__autarkie_serialize();
                        Self::record_encoding(visitor, bytes);
                    },
                    None => {},
                }
            },
            _ => {
                proof {
                    assert(false);
                }
            },
        }
    }

    fn __autarkie_serialize(&self) -> (r: Vec<u8>) {
        let s: &str = &**self;
        let owned = s.to_owned();
        encode_string(&owned)
    }

    fn __autarkie_deserialize(data: &[u8], pos: usize) -> (r: Option<(Box<str>, usize)>) {
        let rest = slice_subrange(data, pos, data.len());
        match decode_string(rest) {
            Some((s, n)) => Some((into_boxed_str(s), pos + n)),
            None => None,
        }
    }

    /// A leaf has no fields.
    fn __autarkie_fields(&self, visitor: &mut Visitor, index: usize) {
    }

    /// A leaf that is no number records no operand.
    fn __autarkie_cmps(&self, visitor: &mut Visitor, index: usize, __autarkie_val: (u64, u64)) {
    }

    /// A leaf holds no values to record.
    fn __autarkie_serialized(&self, visitor: &mut Visitor) {
    }

    fn __autarkie_id_name() -> (r: String) {
        let r = "alloc::boxed::Box<str>".to_owned();
        assert(r@ == Self::spec_name());
        r
    }
}

impl<T: 'static> Node for PhantomData<T> {
    open spec fn node_shape(&self, shape: NodeType) -> bool {
        shape == NodeType::NonRecursive
    }

    open spec fn serialized_record_types(&self) -> Seq<Seq<char>> {
        Seq::empty()
    }

    /// A node with no children of its own.
    fn __autarkie_node_ty(&self, visitor: &Visitor) -> (r: NodeType) {
        NodeType::NonRecursive
    }

    open spec fn spec_serialize(&self) -> Seq<u8> {
        Seq::<u8>::empty()
    }

    open spec fn spec_name() -> Seq<char> {
        "core::marker::PhantomData"@
    }

    open spec fn is_lawful() -> bool {
        true
    }

    open spec fn read_ok(bytes: Seq<u8>) -> bool {
        Self::is_lawful() && exists|x: Self| #[trigger] x.spec_serialize().is_prefix_of(bytes)
    }

    /// For a lawful type, a value read encodes as the start of the bytes,
    /// as any value whose encoding starts them does.
    open spec fn reading(bytes: Seq<u8>, v: Self) -> bool {
        Self::is_lawful() ==> {
            &&& v.spec_serialize().is_prefix_of(bytes)
            &&& forall|x: Self| #[trigger] x.spec_serialize().is_prefix_of(bytes) ==> v.spec_serialize()
                == x.spec_serialize()
        }
    }

    open spec fn encodes_exactly() -> bool {
        true
    }

    open spec fn walks_known() -> bool {
        true
    }

    open spec fn first_name_ok(name: Seq<char>) -> bool {
        false
    }

    open spec fn always_generates() -> bool {
        true
    }

    open spec fn field_count(&self) -> nat {
        0
    }

    open spec fn comparison_operands(&self, val: (u64, u64)) -> Seq<Seq<u8>> {
        Seq::empty()
    }

    open spec fn serialized_records(&self) -> Seq<Seq<u8>> {
        Seq::empty()
    }

    /// Splicing replaces the value by the one the bytes encode; replacing
    /// it by a generated one records the new value's encoding.
    open spec fn mutation(&self, ty: &MutationType, path: Seq<usize>, before: Visitor, after: Self, after_v: Visitor) -> bool {
        match *ty {
            MutationType::Splice(b) => {
                    &&& after_v == before
                    &&& Self::is_lawful() ==> forall|x: Self| #[trigger] x.spec_serialize().is_prefix_of((**b)@)
                        ==> after.spec_serialize() == x.spec_serialize()
                },
            MutationType::GenerateReplace(_) => {
                &&& true
                &&& after_v.serialized().len() == before.serialized().len() + 1
                &&& after_v.serialized_bytes() == before.serialized_bytes().push(after.spec_serialize())
                &&& after_v.serialized_types() == before.serialized_types().push(Self::spec_name())
            },
            _ => true,
        }
    }

    open spec fn generate_ok(settings: GenerateSettings, rng: u64) -> bool {
        true
    }

    open spec fn mutate_ok(&self, ty: &MutationType, path: Seq<usize>) -> bool {
        &&& leaf_mutate_ok(ty, path)
        &&& (*ty matches MutationType::Splice(b) ==> (Self::is_lawful() ==> exists|x: Self| #[trigger] x.spec_serialize().is_prefix_of((**b)@)))
    }

    /// A leaf has no fields; its comparison operands are recorded.
    open spec fn walk(&self, index: usize, compared: Option<(u64, u64)>, before: Visitor, after: Visitor) -> bool {
        match compared {
            None => after == before,
            Some(val) => operands_recorded(before, self.comparison_operands(val), after),
        }
    }

    /// One registration, of the type itself.
    open spec fn registration(before: Visitor, parent: Option<Id>, variant: usize, after: Visitor) -> bool {
        one_edge(before, parent, variant, Self::spec_name(), after)
    }

    /// Records one edge, to the type itself, and goes no deeper.
    fn __autarkie_register(v: &mut Visitor, parent: Option<(Id, String)>, variant: usize) {
        let ghost before = *v;
        let me = Self::register_self(v, parent, variant);
        let ghost id = me.0;
        let ghost mid = *v;
        v.pop_ty();
        proof {
            assert(entered(before, parent_id(parent), variant, Self::spec_name(), id, mid));
            assert(before.ty_edges().is_prefix_of(v.ty_edges()));
            assert(before.ty_names().is_prefix_of(v.ty_names()));
            assert(v.ty_stack() =~= before.ty_stack());
        }
    }

    /// Generating draws from the visitor's random state and records nothing.
    open spec fn generation(before: Visitor, settings: Option<GenerateSettings>, r: Option<Self>, after: Visitor) -> bool {
        &&& after.draws_only(&before)
        &&& after.rng_state() == (before.rng_state())
        &&& r is Some
    }

    /// The marker value.
    fn __autarkie_generate(
        visitor: &mut Visitor,
        depth: &mut usize,
        cur_depth: usize,
        settings: Option<GenerateSettings>,
    ) -> (r: Option<Self>)
    {
        Some(PhantomData)
    }

    /// At the end of the path: replaces the value by the one the spliced
    /// bytes encode, or by a generated one, whose encoding is recorded.
    fn __autarkie_mutate(
        &mut self,
        ty: &mut MutationType,
        visitor: &mut Visitor,
        path: VecDeque<usize>,
    )
    {
        match ty {
            MutationType::Splice(other) => {
                let bytes: &[u8] = **other;
                proof {
                    assert(bytes@.skip(0) =~= bytes@);
                }
                match Self::__autarkie_deserialize(bytes, 0) {
                    Some((v, end)) => {
                        proof {
                            if Self::is_lawful() {
                                assert(v.spec_serialize() =~= bytes@.subrange(0, v.spec_serialize().len() as int));
                                assert(v.spec_serialize().is_prefix_of(bytes@));
                            }
                        }
                        *self = v;
                    },
                    None => {},
                }
            },
            MutationType::GenerateReplace(bias) => {
                match Self::__autarkie_generate(visitor, bias, 0, None) {
                    Some(generated) => {
                        *self = generated;
                        let bytes = self.__autarkie_serialize();
                        Self::record_encoding(visitor, bytes);
                    },
                    None => {},
                }
            },
            _ => {
                proof {
                    assert(false);
                }
            },
        }
    }

    fn __autarkie_serialize(&self) -> (r: Vec<u8>) {
        Vec::new()
    }

    fn __autarkie_deserialize(data: &[u8], pos: usize) -> (r: Option<(PhantomData<T>, usize)>) {
        proof {
            assert forall|x: Self| #[trigger] x.spec_serialize().is_prefix_of(data@.skip(pos as int)) implies x.spec_serialize() == Seq::<u8>::empty() by {}
        }
        Some((PhantomData, pos))
    }

    /// A leaf has no fields.
    fn __autarkie_fields(&self, visitor: &mut Visitor, index: usize) {
    }

    /// A leaf that is no number records no operand.
    fn __autarkie_cmps(&self, visitor: &mut Visitor, index: usize, __autarkie_val: (u64, u64)) {
    }

    /// A leaf holds no values to record.
    fn __autarkie_serialized(&self, visitor: &mut Visitor) {
    }

    fn __autarkie_id_name() -> (r: String) {
        let r = "core::marker::PhantomData".to_owned();
        assert(r@ == Self::spec_name());
        r
    }
}

} // verus!
