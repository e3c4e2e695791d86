//! Properties that hold across the operations of the library.
use vstd::prelude::*;
use std::borrow::Cow;
use crate::codec::{
    spec_u64_bytes, spec_u64_from_bytes, spec_u32_bytes, spec_string_bytes, lemma_u8_bytes, lemma_u16_bytes, lemma_u32_bytes,
    lemma_u64_bytes, lemma_u128_bytes, lemma_i8_bytes, lemma_i16_bytes, lemma_i32_bytes, lemma_i64_bytes,
    lemma_i128_bytes, lemma_usize_bytes, lemma_isize_bytes,
};
use crate::cow::{cow_items, cow_value};
use std::collections::BTreeMap;
use crate::node::{Node, MutationType, GenerateSettings, seq_encoding, seq_bytes, seq_comparison_operands, maybe_read, sure_read};
use crate::visitor::{Id, NodeType, Visitor};
use crate::map::{keys_ordered, pairs_map, map_entries, lemma_entries_walked_enter_pairs};
use crate::containers::value_recorded_first;
use crate::prefix::group_prefix;

verus! {

broadcast use group_prefix;

/// A written `u8` reads back as itself: whatever reading the bytes that
/// begin with its encoding gives (what `deserialize` returns) is `x`.
pub proof fn law_u8_reads_back_as_itself(x: u8, rest: Seq<u8>, r: u8)
    requires
        <u8 as Node>::reading(x.spec_serialize() + rest, r),
    ensures
        r == x,
{
    let data = x.spec_serialize() + rest;
    lemma_u8_bytes(x);
    lemma_u8_bytes(r);
    assert(x.spec_serialize().is_prefix_of(data));
    assert(r.spec_serialize() =~= data.take(1));
    assert(data.take(1) =~= x.spec_serialize());
}

/// A written `u16` reads back as itself: whatever reading the bytes that
/// begin with its encoding gives (what `deserialize` returns) is `x`.
pub proof fn law_u16_reads_back_as_itself(x: u16, rest: Seq<u8>, r: u16)
    requires
        <u16 as Node>::reading(x.spec_serialize() + rest, r),
    ensures
        r == x,
{
    let data = x.spec_serialize() + rest;
    lemma_u16_bytes(x);
    lemma_u16_bytes(r);
    assert(x.spec_serialize().is_prefix_of(data));
    assert(r.spec_serialize() =~= data.take(2));
    assert(data.take(2) =~= x.spec_serialize());
}

/// A written `u32` reads back as itself: whatever reading the bytes that
/// begin with its encoding gives (what `deserialize` returns) is `x`.
pub proof fn law_u32_reads_back_as_itself(x: u32, rest: Seq<u8>, r: u32)
    requires
        <u32 as Node>::reading(x.spec_serialize() + rest, r),
    ensures
        r == x,
{
    let data = x.spec_serialize() + rest;
    lemma_u32_bytes(x);
    lemma_u32_bytes(r);
    assert(x.spec_serialize().is_prefix_of(data));
    assert(r.spec_serialize() =~= data.take(4));
    assert(data.take(4) =~= x.spec_serialize());
}

/// A written `u64` reads back as itself: whatever reading the bytes that
/// begin with its encoding gives (what `deserialize` returns) is `x`.
pub proof fn law_u64_reads_back_as_itself(x: u64, rest: Seq<u8>, r: u64)
    requires
        <u64 as Node>::reading(x.spec_serialize() + rest, r),
    ensures
        r == x,
{
    let data = x.spec_serialize() + rest;
    lemma_u64_bytes(x);
    lemma_u64_bytes(r);
    assert(x.spec_serialize().is_prefix_of(data));
    assert(r.spec_serialize() =~= data.take(8));
    assert(data.take(8) =~= x.spec_serialize());
}

/// A written `u128` reads back as itself: whatever reading the bytes that
/// begin with its encoding gives (what `deserialize` returns) is `x`.
pub proof fn law_u128_reads_back_as_itself(x: u128, rest: Seq<u8>, r: u128)
    requires
        <u128 as Node>::reading(x.spec_serialize() + rest, r),
    ensures
        r == x,
{
    let data = x.spec_serialize() + rest;
    lemma_u128_bytes(x);
    lemma_u128_bytes(r);
    assert(x.spec_serialize().is_prefix_of(data));
    assert(r.spec_serialize() =~= data.take(16));
    assert(data.take(16) =~= x.spec_serialize());
}

/// A written `i8` reads back as itself: whatever reading the bytes that
/// begin with its encoding gives (what `deserialize` returns) is `x`.
pub proof fn law_i8_reads_back_as_itself(x: i8, rest: Seq<u8>, r: i8)
    requires
        <i8 as Node>::reading(x.spec_serialize() + rest, r),
    ensures
        r == x,
{
    let data = x.spec_serialize() + rest;
    lemma_i8_bytes(x);
    lemma_i8_bytes(r);
    assert(x.spec_serialize().is_prefix_of(data));
    assert(r.spec_serialize() =~= data.take(1));
    assert(data.take(1) =~= x.spec_serialize());
}

/// A written `i16` reads back as itself: whatever reading the bytes that
/// begin with its encoding gives (what `deserialize` returns) is `x`.
pub proof fn law_i16_reads_back_as_itself(x: i16, rest: Seq<u8>, r: i16)
    requires
        <i16 as Node>::reading(x.spec_serialize() + rest, r),
    ensures
        r == x,
{
    let data = x.spec_serialize() + rest;
    lemma_i16_bytes(x);
    lemma_i16_bytes(r);
    assert(x.spec_serialize().is_prefix_of(data));
    assert(r.spec_serialize() =~= data.take(2));
    assert(data.take(2) =~= x.spec_serialize());
}

/// A written `i32` reads back as itself: whatever reading the bytes that
/// begin with its encoding gives (what `deserialize` returns) is `x`.
pub proof fn law_i32_reads_back_as_itself(x: i32, rest: Seq<u8>, r: i32)
    requires
        <i32 as Node>::reading(x.spec_serialize() + rest, r),
    ensures
        r == x,
{
    let data = x.spec_serialize() + rest;
    lemma_i32_bytes(x);
    lemma_i32_bytes(r);
    assert(x.spec_serialize().is_prefix_of(data));
    assert(r.spec_serialize() =~= data.take(4));
    assert(data.take(4) =~= x.spec_serialize());
}

/// A written `i64` reads back as itself: whatever reading the bytes that
/// begin with its encoding gives (what `deserialize` returns) is `x`.
pub proof fn law_i64_reads_back_as_itself(x: i64, rest: Seq<u8>, r: i64)
    requires
        <i64 as Node>::reading(x.spec_serialize() + rest, r),
    ensures
        r == x,
{
    let data = x.spec_serialize() + rest;
    lemma_i64_bytes(x);
    lemma_i64_bytes(r);
    assert(x.spec_serialize().is_prefix_of(data));
    assert(r.spec_serialize() =~= data.take(8));
    assert(data.take(8) =~= x.spec_serialize());
}

/// A written `i128` reads back as itself: whatever reading the bytes that
/// begin with its encoding gives (what `deserialize` returns) is `x`.
pub proof fn law_i128_reads_back_as_itself(x: i128, rest: Seq<u8>, r: i128)
    requires
        <i128 as Node>::reading(x.spec_serialize() + rest, r),
    ensures
        r == x,
{
    let data = x.spec_serialize() + rest;
    lemma_i128_bytes(x);
    lemma_i128_bytes(r);
    assert(x.spec_serialize().is_prefix_of(data));
    assert(r.spec_serialize() =~= data.take(16));
    assert(data.take(16) =~= x.spec_serialize());
}

/// A written `usize` reads back as itself: whatever reading the bytes that
/// begin with its encoding gives (what `deserialize` returns) is `x`.
pub proof fn law_usize_reads_back_as_itself(x: usize, rest: Seq<u8>, r: usize)
    requires
        <usize as Node>::reading(x.spec_serialize() + rest, r),
    ensures
        r == x,
{
    let data = x.spec_serialize() + rest;
    lemma_usize_bytes(x);
    lemma_usize_bytes(r);
    assert(x.spec_serialize().is_prefix_of(data));
    assert(r.spec_serialize() =~= data.take(8));
    assert(data.take(8) =~= x.spec_serialize());
}

/// A written `isize` reads back as itself: whatever reading the bytes that
/// begin with its encoding gives (what `deserialize` returns) is `x`.
pub proof fn law_isize_reads_back_as_itself(x: isize, rest: Seq<u8>, r: isize)
    requires
        <isize as Node>::reading(x.spec_serialize() + rest, r),
    ensures
        r == x,
{
    let data = x.spec_serialize() + rest;
    lemma_isize_bytes(x);
    lemma_isize_bytes(r);
    assert(x.spec_serialize().is_prefix_of(data));
    assert(r.spec_serialize() =~= data.take(8));
    assert(data.take(8) =~= x.spec_serialize());
}

/// A written `bool` reads back as itself.
pub proof fn law_bool_reads_back_as_itself(x: bool, rest: Seq<u8>, r: bool)
    requires
        <bool as Node>::reading(x.spec_serialize() + rest, r),
    ensures
        r == x,
{
    let data = x.spec_serialize() + rest;
    assert(x.spec_serialize().is_prefix_of(data));
    assert(r.spec_serialize()[0] == data[0]);
}

/// The encodings of a sequence of `u8` pairs take two bytes a pair.
pub proof fn lemma_u8_pairs_bytes_len(s: Seq<(u8, u8)>)
    ensures
        seq_bytes(s).len() == 2 * s.len(),
    decreases s.len(),
{
    if s.len() > 0 {
        lemma_u8_pairs_bytes_len(s.drop_last());
        assert(s.last().spec_serialize() =~= seq![s.last().0, s.last().1]);
    }
}

/// Sequences of `u8` pairs of one length that encode alike are equal.
pub proof fn lemma_u8_pairs_determined(s: Seq<(u8, u8)>, t: Seq<(u8, u8)>)
    requires
        s.len() == t.len(),
        seq_bytes(s) == seq_bytes(t),
    ensures
        s == t,
    decreases s.len(),
{
    if s.len() > 0 {
        let fs = s.drop_last();
        let ft = t.drop_last();
        lemma_u8_pairs_bytes_len(fs);
        lemma_u8_pairs_bytes_len(ft);
        let n: int = 2 * (fs.len() as int);
        assert(s.last().spec_serialize() =~= seq![s.last().0, s.last().1]);
        assert(t.last().spec_serialize() =~= seq![t.last().0, t.last().1]);
        assert(seq_bytes(fs) =~= seq_bytes(s).take(n));
        assert(seq_bytes(ft) =~= seq_bytes(t).take(n));
        lemma_u8_pairs_determined(fs, ft);
        assert(seq_bytes(s)[n] == s.last().0);
        assert(seq_bytes(t)[n] == t.last().0);
        assert(seq_bytes(s)[n + 1] == s.last().1);
        assert(seq_bytes(t)[n + 1] == t.last().1);
        assert(s =~= fs.push(s.last()));
        assert(t =~= ft.push(t.last()));
    }
}

/// A map with `u8` keys and values that is read from bytes beginning with
/// the encoding of a sequence of entries holds exactly those entries,
/// inserted in turn. A map is written as the encoding of its entries, and
/// its entries inserted in turn give it back (both stated by its
/// `serialize`), so reading back what was written gives the map it was
/// written from.
pub proof fn law_u8_map_reads_back_its_entries(s: Seq<(u8, u8)>, rest: Seq<u8>, r: BTreeMap<u8, u8>)
    requires
        s.len() + rest.len() <= u64::MAX,
        keys_ordered::<u8>(),
        <BTreeMap<u8, u8> as Node>::reading(seq_encoding(s) + rest, r),
    ensures
        r@ == pairs_map(s),
{
    let data = seq_encoding(s) + rest;
    let t = choose|t: Seq<(u8, u8)>| #[trigger] pairs_map(t) == r@ && seq_encoding(t).is_prefix_of(data);
    lemma_u8_pairs_bytes_len(s);
    lemma_u8_pairs_bytes_len(t);
    lemma_u64_bytes(s.len() as u64);
    lemma_u64_bytes(t.len() as u64);
    assert(seq_encoding(t).len() <= data.len());
    assert(t.len() <= u64::MAX);
    assert(seq_encoding(t).take(8) =~= data.take(8));
    assert(data.take(8) =~= spec_u64_bytes(s.len() as u64));
    assert(seq_encoding(t).take(8) =~= spec_u64_bytes(t.len() as u64));
    assert(t.len() == s.len());
    assert(seq_bytes(t) =~= data.subrange(8, 8 + 2 * (s.len() as int)));
    assert(seq_bytes(s) =~= data.subrange(8, 8 + 2 * (s.len() as int)));
    lemma_u8_pairs_determined(s, t);
}

/// Comparing `a` with `b` records, for a number, the same operand as
/// comparing `b` with `a`: the side of the comparison that the number is
/// not on.
pub proof fn law_u64_comparison_is_symmetric(x: u64, a: u64, b: u64)
    ensures
        x.comparison_operands((a, b)) == x.comparison_operands((b, a)),
{
}

/// The same holds of a `u8`.
pub proof fn law_u8_comparison_is_symmetric(x: u8, a: u64, b: u64)
    ensures
        x.comparison_operands((a, b)) == x.comparison_operands((b, a)),
{
}

/// The same holds of a `u16`.
pub proof fn law_u16_comparison_is_symmetric(x: u16, a: u64, b: u64)
    ensures
        x.comparison_operands((a, b)) == x.comparison_operands((b, a)),
{
}

/// The same holds of a `u32`.
pub proof fn law_u32_comparison_is_symmetric(x: u32, a: u64, b: u64)
    ensures
        x.comparison_operands((a, b)) == x.comparison_operands((b, a)),
{
}

/// The same holds of a `u128`.
pub proof fn law_u128_comparison_is_symmetric(x: u128, a: u64, b: u64)
    ensures
        x.comparison_operands((a, b)) == x.comparison_operands((b, a)),
{
}

/// The same holds of a `i8`.
pub proof fn law_i8_comparison_is_symmetric(x: i8, a: u64, b: u64)
    ensures
        x.comparison_operands((a, b)) == x.comparison_operands((b, a)),
{
}

/// The same holds of a `i16`.
pub proof fn law_i16_comparison_is_symmetric(x: i16, a: u64, b: u64)
    ensures
        x.comparison_operands((a, b)) == x.comparison_operands((b, a)),
{
}

/// The same holds of a `i32`.
pub proof fn law_i32_comparison_is_symmetric(x: i32, a: u64, b: u64)
    ensures
        x.comparison_operands((a, b)) == x.comparison_operands((b, a)),
{
}

/// The same holds of a `i64`.
pub proof fn law_i64_comparison_is_symmetric(x: i64, a: u64, b: u64)
    ensures
        x.comparison_operands((a, b)) == x.comparison_operands((b, a)),
{
}

/// The same holds of a `i128`.
pub proof fn law_i128_comparison_is_symmetric(x: i128, a: u64, b: u64)
    ensures
        x.comparison_operands((a, b)) == x.comparison_operands((b, a)),
{
}

/// The same holds of a `usize`.
pub proof fn law_usize_comparison_is_symmetric(x: usize, a: u64, b: u64)
    ensures
        x.comparison_operands((a, b)) == x.comparison_operands((b, a)),
{
}

/// The same holds of a `isize`.
pub proof fn law_isize_comparison_is_symmetric(x: isize, a: u64, b: u64)
    ensures
        x.comparison_operands((a, b)) == x.comparison_operands((b, a)),
{
}

/// Comparing `a` with `b` records, for a sequence of `u64`, the same
/// operands as comparing `b` with `a`, number by number.
pub proof fn law_u64_sequence_comparison_is_symmetric(s: Seq<u64>, a: u64, b: u64)
    ensures
        seq_comparison_operands(s, (a, b)) == seq_comparison_operands(s, (b, a)),
    decreases s.len(),
{
    if s.len() > 0 {
        law_u64_sequence_comparison_is_symmetric(s.drop_last(), a, b);
        law_u64_comparison_is_symmetric(s.last(), a, b);
    }
}

/// The encoding of a sequence starts with the eight bytes that
/// `serialize_vec_len` writes for its length, and those bytes read back as
/// that length.
pub proof fn law_sequence_announces_length<T: Node>(s: Seq<T>)
    requires
        s.len() <= u64::MAX,
    ensures
        spec_u64_bytes(s.len() as u64).is_prefix_of(seq_encoding(s)),
        spec_u64_from_bytes(seq_encoding(s).take(8)) == s.len(),
{
    lemma_u64_bytes(s.len() as u64);
    assert(seq_encoding(s).take(8) =~= spec_u64_bytes(s.len() as u64));
}

/// A borrowed or owned slice encodes as a vector of the same items.
pub proof fn law_slice_encodes_as_vector<T: Node + Clone>(c: Cow<'static, [T]>, v: Vec<T>)
    requires
        cow_items(&c) == v@,
    ensures
        c.spec_serialize() == v.spec_serialize(),
{
}

/// A borrowed or owned value encodes as the value itself.
pub proof fn law_cow_encodes_as_value<T: Node + Clone>(c: Cow<'static, T>)
    ensures
        c.spec_serialize() == cow_value(&c).spec_serialize(),
{
}

/// A boxed string encodes as a `String` with the same characters.
pub proof fn law_boxed_str_encodes_as_string(b: Box<str>, s: String)
    requires
        b@ == s@,
    ensures
        b.spec_serialize() == s.spec_serialize(),
        s.spec_serialize() == spec_string_bytes(s@),
{
}

/// Whether values of `T` that encode alike are equal.
pub open spec fn encodes_injectively<T: Node>() -> bool {
    forall|a: T, b: T| #[trigger] a.spec_serialize() == #[trigger] b.spec_serialize() ==> a == b
}

/// Where reading is sure to succeed, `deserialize` returns what
/// `maybe_deserialize` returns on the same bytes: the option holds a value,
/// and for a lawful type the two encode alike, so that for a type whose
/// values are told apart by their encodings they are the same value.
pub proof fn law_deserialize_returns_what_maybe_deserialize_returns<T: Node>(bytes: Seq<u8>, r: T, m: Option<T>)
    requires
        T::read_ok(bytes),
        sure_read::<T>(bytes, r),
        maybe_read::<T>(bytes, m),
    ensures
        m is Some,
        T::is_lawful() ==> (m matches Some(v) && v.spec_serialize() == r.spec_serialize()),
        T::is_lawful() && encodes_injectively::<T>() ==> m == Some(r),
{
    if T::is_lawful() {
        let v = m->0;
        assert(v.spec_serialize().is_prefix_of(bytes));
        assert(r.spec_serialize() == v.spec_serialize());
    }
}

/// A written value of a lawful type whose values are told apart by their
/// encodings reads back as itself: from bytes that begin with its encoding,
/// `maybe_deserialize` gives it.
pub proof fn law_written_value_reads_back<T: Node>(x: T, rest: Seq<u8>, m: Option<T>)
    requires
        T::is_lawful(),
        encodes_injectively::<T>(),
        maybe_read::<T>(x.spec_serialize() + rest, m),
    ensures
        m == Some(x),
{
    assert(x.spec_serialize().is_prefix_of(x.spec_serialize() + rest));
    let v = m->0;
    assert(v.spec_serialize() == x.spec_serialize());
}

/// The same holds of `deserialize`: from bytes that begin with the encoding
/// of such a value, it returns that value.
pub proof fn law_written_value_deserializes_to_itself<T: Node>(x: T, rest: Seq<u8>, r: T)
    requires
        T::is_lawful(),
        encodes_injectively::<T>(),
        sure_read::<T>(x.spec_serialize() + rest, r),
    ensures
        r == x,
{
    assert(x.spec_serialize().is_prefix_of(x.spec_serialize() + rest));
    assert(r.spec_serialize() == x.spec_serialize());
}

/// Generating a borrowed-or-owned slice is generating a vector, held as
/// owned: from the same visitor, with the same settings, the same outcomes
/// and the same visitor after.
pub proof fn law_slice_generates_as_vector<T: Node + Clone>(
    before: Visitor,
    settings: Option<GenerateSettings>,
    w: Vec<T>,
    after: Visitor,
)
    ensures
        <Cow<'static, [T]> as Node>::generation(before, settings, Some(Cow::Owned(w)), after)
            <==> Vec::<T>::generation(before, settings, Some(w), after),
        <Cow<'static, [T]> as Node>::generation(before, settings, None, after) <==> Vec::<T>::generation(
            before,
            settings,
            None,
            after,
        ),
        forall|c: Cow<'static, [T]>| #[trigger]
            <Cow<'static, [T]> as Node>::generation(before, settings, Some(c), after) ==> c is Owned,
{
}

/// The encoding of a vector, whatever its items, starts with the eight
/// bytes that announce its length.
pub proof fn law_vector_announces_length<T: Node>(v: Vec<T>)
    ensures
        spec_u64_bytes(v@.len() as u64).is_prefix_of(v.spec_serialize()),
{
}

/// Values of `u8` that encode alike are equal, so the round trips above
/// hold of `u8`.
pub proof fn law_u8_encodes_injectively()
    ensures
        encodes_injectively::<u8>(),
{
    assert forall|a: u8, b: u8| #[trigger] a.spec_serialize() == #[trigger] b.spec_serialize() implies a == b by {
        lemma_u8_bytes(a);
        lemma_u8_bytes(b);
    }
}

/// Values of `u16` that encode alike are equal, so the round trips above
/// hold of `u16`.
pub proof fn law_u16_encodes_injectively()
    ensures
        encodes_injectively::<u16>(),
{
    assert forall|a: u16, b: u16| #[trigger] a.spec_serialize() == #[trigger] b.spec_serialize() implies a == b by {
        lemma_u16_bytes(a);
        lemma_u16_bytes(b);
    }
}

/// Values of `u32` that encode alike are equal, so the round trips above
/// hold of `u32`.
pub proof fn law_u32_encodes_injectively()
    ensures
        encodes_injectively::<u32>(),
{
    assert forall|a: u32, b: u32| #[trigger] a.spec_serialize() == #[trigger] b.spec_serialize() implies a == b by {
        lemma_u32_bytes(a);
        lemma_u32_bytes(b);
    }
}

/// Values of `u64` that encode alike are equal, so the round trips above
/// hold of `u64`.
pub proof fn law_u64_encodes_injectively()
    ensures
        encodes_injectively::<u64>(),
{
    assert forall|a: u64, b: u64| #[trigger] a.spec_serialize() == #[trigger] b.spec_serialize() implies a == b by {
        lemma_u64_bytes(a);
        lemma_u64_bytes(b);
    }
}

/// Values of `u128` that encode alike are equal, so the round trips above
/// hold of `u128`.
pub proof fn law_u128_encodes_injectively()
    ensures
        encodes_injectively::<u128>(),
{
    assert forall|a: u128, b: u128| #[trigger] a.spec_serialize() == #[trigger] b.spec_serialize() implies a == b by {
        lemma_u128_bytes(a);
        lemma_u128_bytes(b);
    }
}

/// Values of `i8` that encode alike are equal, so the round trips above
/// hold of `i8`.
pub proof fn law_i8_encodes_injectively()
    ensures
        encodes_injectively::<i8>(),
{
    assert forall|a: i8, b: i8| #[trigger] a.spec_serialize() == #[trigger] b.spec_serialize() implies a == b by {
        lemma_i8_bytes(a);
        lemma_i8_bytes(b);
    }
}

/// Values of `i16` that encode alike are equal, so the round trips above
/// hold of `i16`.
pub proof fn law_i16_encodes_injectively()
    ensures
        encodes_injectively::<i16>(),
{
    assert forall|a: i16, b: i16| #[trigger] a.spec_serialize() == #[trigger] b.spec_serialize() implies a == b by {
        lemma_i16_bytes(a);
        lemma_i16_bytes(b);
    }
}

/// Values of `i32` that encode alike are equal, so the round trips above
/// hold of `i32`.
pub proof fn law_i32_encodes_injectively()
    ensures
        encodes_injectively::<i32>(),
{
    assert forall|a: i32, b: i32| #[trigger] a.spec_serialize() == #[trigger] b.spec_serialize() implies a == b by {
        lemma_i32_bytes(a);
        lemma_i32_bytes(b);
    }
}

/// Values of `i64` that encode alike are equal, so the round trips above
/// hold of `i64`.
pub proof fn law_i64_encodes_injectively()
    ensures
        encodes_injectively::<i64>(),
{
    assert forall|a: i64, b: i64| #[trigger] a.spec_serialize() == #[trigger] b.spec_serialize() implies a == b by {
        lemma_i64_bytes(a);
        lemma_i64_bytes(b);
    }
}

/// Values of `i128` that encode alike are equal, so the round trips above
/// hold of `i128`.
pub proof fn law_i128_encodes_injectively()
    ensures
        encodes_injectively::<i128>(),
{
    assert forall|a: i128, b: i128| #[trigger] a.spec_serialize() == #[trigger] b.spec_serialize() implies a == b by {
        lemma_i128_bytes(a);
        lemma_i128_bytes(b);
    }
}

/// Values of `usize` that encode alike are equal, so the round trips above
/// hold of `usize`.
pub proof fn law_usize_encodes_injectively()
    ensures
        encodes_injectively::<usize>(),
{
    assert forall|a: usize, b: usize| #[trigger] a.spec_serialize() == #[trigger] b.spec_serialize() implies a == b by {
        lemma_usize_bytes(a);
        lemma_usize_bytes(b);
    }
}

/// Values of `isize` that encode alike are equal, so the round trips above
/// hold of `isize`.
pub proof fn law_isize_encodes_injectively()
    ensures
        encodes_injectively::<isize>(),
{
    assert forall|a: isize, b: isize| #[trigger] a.spec_serialize() == #[trigger] b.spec_serialize() implies a == b by {
        lemma_isize_bytes(a);
        lemma_isize_bytes(b);
    }
}

/// Values of `bool` that encode alike are equal.
pub proof fn law_bool_encodes_injectively()
    ensures
        encodes_injectively::<bool>(),
{
    assert forall|a: bool, b: bool| #[trigger] a.spec_serialize() == #[trigger] b.spec_serialize() implies a == b by {
        assert(a.spec_serialize()[0] == b.spec_serialize()[0]);
    }
}

/// Options of a type whose values are told apart by their encodings are
/// told apart by theirs: the tag byte tells presence, the rest the value.
pub proof fn law_option_encodes_injectively<T: Node>()
    requires
        encodes_injectively::<T>(),
    ensures
        encodes_injectively::<Option<T>>(),
{
    assert forall|a: Option<T>, b: Option<T>| #[trigger] a.spec_serialize() == #[trigger] b.spec_serialize() implies a
        == b by {
        assert(a.spec_serialize()[0] == b.spec_serialize()[0]);
        if a is Some && b is Some {
            let (x, y) = (a->0, b->0);
            assert(x.spec_serialize() =~= a.spec_serialize().skip(1));
            assert(y.spec_serialize() =~= b.spec_serialize().skip(1));
        }
    }
}

/// Results of types whose values are told apart by their encodings are
/// told apart by theirs: the four tag bytes tell the side, the rest the
/// value.
pub proof fn law_result_encodes_injectively<T: Node, E: Node>()
    requires
        encodes_injectively::<T>(),
        encodes_injectively::<E>(),
    ensures
        encodes_injectively::<Result<T, E>>(),
{
    lemma_u32_bytes(0u32);
    lemma_u32_bytes(1u32);
    assert forall|a: Result<T, E>, b: Result<T, E>| #[trigger] a.spec_serialize() == #[trigger] b.spec_serialize()
        implies a == b by {
        assert(a.spec_serialize().take(4) =~= b.spec_serialize().take(4));
        match a {
            Ok(x) => {
                assert(a.spec_serialize().take(4) =~= spec_u32_bytes(0u32));
                assert(x.spec_serialize() =~= a.spec_serialize().skip(4));
                match b {
                    Ok(y) => {
                        assert(y.spec_serialize() =~= b.spec_serialize().skip(4));
                    },
                    Err(y) => {
                        assert(b.spec_serialize().take(4) =~= spec_u32_bytes(1u32));
                    },
                }
            },
            Err(x) => {
                assert(a.spec_serialize().take(4) =~= spec_u32_bytes(1u32));
                assert(x.spec_serialize() =~= a.spec_serialize().skip(4));
                match b {
                    Ok(y) => {
                        assert(b.spec_serialize().take(4) =~= spec_u32_bytes(0u32));
                    },
                    Err(y) => {
                        assert(y.spec_serialize() =~= b.spec_serialize().skip(4));
                    },
                }
            },
        }
    }
}

/// Registering a vector registers its element type in its place, or,
/// where that type is being registered already, records one edge: under
/// the given parent and variant, to the element type (the edge is made for
/// it and carries the identity recorded under its name), leaving the
/// registration stack as it was. So a cycle through the elements of a
/// vector is recorded as a cycle to the element type.
pub proof fn law_vector_registration_points_at_the_element_type<T: Node>(
    before: Visitor,
    parent: Option<Id>,
    variant: usize,
    after: Visitor,
)
    requires
        Vec::<T>::registration(before, parent, variant, after),
    ensures
        T::registration(before, parent, variant, after) || {
            &&& after.ty_stack() == before.ty_stack()
            &&& after.ty_edges().len() == before.ty_edges().len() + 1
            &&& after.ty_edges().drop_last() == before.ty_edges()
            &&& after.ty_edges().last().0 == parent
            &&& after.ty_edges().last().2 == variant
            &&& after.edge_types() == before.edge_types().push(T::spec_name())
            &&& after.ty_names().last().0 == after.ty_edges().last().1
            &&& after.ty_names().last().1@ == T::spec_name()
        },
{
    if !T::registration(before, parent, variant, after) {
        let (id, mid) = choose|id: Id, mid: Visitor|
            #[trigger] crate::node::entered(before, parent, variant, T::spec_name(), id, mid) && crate::node::left(
                mid,
                after,
            );
        assert(after.ty_edges().drop_last() =~= before.ty_edges());
    }
}

/// Walking a map with at least one entry, for its fields (`compared` is
/// `None`) or for the operands of a comparison, keeps what was recorded
/// before and enters the first entry as a field at position 0, with the
/// plain shape, for the pair type `(K, V)`: the entry is filed under the
/// pair type, not under its key type or its value type.
pub proof fn law_map_walk_enters_entries_as_pairs<K: Node + Clone + Ord, V: Node + Clone>(
    m: BTreeMap<K, V>,
    index: usize,
    compared: Option<(u64, u64)>,
    before: Visitor,
    after: Visitor,
)
    requires
        BTreeMap::<K, V>::walks_known(),
        map_entries(&m).len() > 0,
        m.walk(index, compared, before, after),
    ensures
        before.fields().is_prefix_of(after.fields()),
        before.field_types().is_prefix_of(after.field_types()),
        after.field_types().len() > before.field_types().len(),
        after.field_types()[before.field_types().len() as int] == <(K, V)>::spec_name(),
        after.fields().len() > before.fields().len(),
        after.fields()[before.fields().len() as int].last().0 == (0usize, NodeType::NonRecursive),
{
    lemma_entries_walked_enter_pairs(map_entries(&m), compared, before, after);
}

/// Recording the values inside a result records first the encoding of the
/// value it holds, for the value's own type: the success type for a
/// success and the error type for an error.
pub proof fn law_result_records_its_value_for_its_own_type<T: Node, E: Node>(
    r: Result<T, E>,
    before: Visitor,
    after: Visitor,
)
    requires
        match r {
            Ok(x) => value_recorded_first(x, before, after),
            Err(e) => value_recorded_first(e, before, after),
        },
    ensures
        after.serialized().len() > before.serialized().len(),
        after.serialized_types()[before.serialized_types().len() as int] == match r {
            Ok(_) => T::spec_name(),
            Err(_) => E::spec_name(),
        },
        T::is_lawful() && E::is_lawful() ==> after.serialized()[before.serialized().len() as int].0 == match r {
            Ok(x) => x.spec_serialize(),
            Err(e) => e.spec_serialize(),
        },
{
}

/// Replacing a map by a generated one at the end of the path leaves it
/// empty and records, last, an encoding made for the map type itself (its
/// identity, under its name): where the map is written exactly, the
/// encoding of the empty map.
pub proof fn law_map_generate_replace_records_the_map<K: Node + Clone + Ord, V: Node + Clone>(
    m: BTreeMap<K, V>,
    ty: MutationType,
    before: Visitor,
    after: BTreeMap<K, V>,
    after_v: Visitor,
)
    requires
        ty is GenerateReplace,
        m.mutation(&ty, Seq::empty(), before, after, after_v),
    ensures
        after@ == Map::<K, V>::empty(),
        after_v.serialized_types().len() > before.serialized_types().len(),
        after_v.serialized_types().last() == BTreeMap::<K, V>::spec_name(),
        BTreeMap::<K, V>::encodes_exactly() ==> after_v.serialized().last().0 == after.spec_serialize(),
{
}

} // verus!
