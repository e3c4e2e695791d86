//! The `Node` trait: what every type of a grammar offers to the fuzzer.
use vstd::prelude::*;
use std::collections::VecDeque;
use std::hash::{Hash, Hasher};
use crate::visitor::{Id, NodeType, Visitor, FieldEntry, rng_output, rng_step};
use crate::prefix::group_prefix;
use crate::codec::spec_u64_bytes;

verus! {

broadcast use group_prefix, Visitor::lemma_extends_refl, Visitor::lemma_extends_trans;

/// A mutation to apply at the end of a path through a tree.
#[derive(Debug)]
pub enum MutationType<'a> {
    /// Replace the node by a freshly generated one, with this depth budget.
    GenerateReplace(usize),
    /// Remove the element at this index of a sequence.
    IterablePop(usize),
    /// Replace a recursive node (reserved).
    RecursiveReplace,
    /// Replace the node by the one these bytes encode.
    Splice(&'a mut &'a [u8]),
    /// Append a freshly generated element, with this depth budget.
    GenerateAppend(usize),
    /// Append the element these bytes encode.
    SpliceAppend(&'a mut &'a [u8]),
}

/// How many elements a generated sequence has, or in which range a
/// generated number falls.
#[derive(Debug)]
pub enum GenerateSettings {
    Length(usize),
    Range(std::ops::RangeInclusive<usize>),
}

/// `RangeInclusive::start`: the lower bound the range was made with, as
/// long as the range has not been iterated to its end.
pub assume_specification<Idx>[ std::ops::RangeInclusive::<Idx>::start ](
    r: &std::ops::RangeInclusive<Idx>,
) -> (ret: &Idx)
    ensures
        !r@.exhausted ==> *ret == r@.start,
;

/// `RangeInclusive::end`: the upper bound the range was made with, as long
/// as the range has not been iterated to its end.
pub assume_specification<Idx>[ std::ops::RangeInclusive::<Idx>::end ](
    r: &std::ops::RangeInclusive<Idx>,
) -> (ret: &Idx)
    ensures
        !r@.exhausted ==> *ret == r@.end,
;

/// The identity of type `T`: the 64-bit xxHash (seed 0) of what `TypeId`
/// feeds to a hasher. Nothing is stated of it: the `TypeId` of a type
/// depends on the compiler that built the program.
#[verifier::external_body]
pub(crate) fn type_id_hash<T: ?Sized + 'static>() -> Id {
    let mut hasher = twox_hash::XxHash64::default();
    std::any::TypeId::of::<T>().hash(&mut hasher);
    hasher.finish()
}

/// The mutations a leaf accepts: at the end of the path, a replacement.
pub open spec fn leaf_mutate_ok(ty: &MutationType, path: Seq<usize>) -> bool {
    &&& path.len() == 0
    &&& (*ty is Splice || *ty is GenerateReplace)
}

/// The encodings of the values of `s`, one after the other.
pub open spec fn seq_bytes<T: Node>(s: Seq<T>) -> Seq<u8>
    decreases s.len(),
{
    if s.len() == 0 {
        Seq::empty()
    } else {
        seq_bytes(s.drop_last()) + s.last().spec_serialize()
    }
}

/// The encoding of a sequence: its length as a `u64`, then the encodings
/// of its values.
pub open spec fn seq_encoding<T: Node>(s: Seq<T>) -> Seq<u8> {
    spec_u64_bytes(s.len() as u64) + seq_bytes(s)
}

/// The encodings of the first `i + 1` values are those of the first `i`,
/// then that of value `i`.
pub proof fn lemma_seq_bytes_step<T: Node>(s: Seq<T>, i: int)
    requires
        0 <= i < s.len(),
    ensures
        seq_bytes(s.take(i + 1)) == seq_bytes(s.take(i)) + s[i].spec_serialize(),
{
    assert(s.take(i + 1).drop_last() =~= s.take(i));
    assert(s.take(i + 1).last() == s[i]);
}

/// The encodings of the first `i` values start those of all of them.
pub proof fn lemma_seq_bytes_prefix<T: Node>(s: Seq<T>, i: int)
    requires
        0 <= i <= s.len(),
    ensures
        seq_bytes(s.take(i)).is_prefix_of(seq_bytes(s)),
    decreases s.len() - i,
{
    if i == s.len() {
        assert(s.take(i) =~= s);
        assert(seq_bytes(s) =~= seq_bytes(s).subrange(0, seq_bytes(s).len() as int));
    } else {
        lemma_seq_bytes_prefix(s, i + 1);
        lemma_seq_bytes_step(s, i);
        let a = seq_bytes(s.take(i));
        let b = seq_bytes(s.take(i + 1));
        let c = seq_bytes(s);
        assert(a =~= c.subrange(0, a.len() as int)) by {
            assert forall|k: int| 0 <= k < a.len() implies a[k] == c[k] by {
                assert(b[k] == a[k]);
                assert(c.subrange(0, b.len() as int)[k] == c[k]);
            }
        }
    }
}

/// Where `data` starts, after `p` bytes, with the encodings of the values
/// of `s`, the encoding of value `i` starts after those of the values before it.
pub proof fn lemma_seq_bytes_element<T: Node>(s: Seq<T>, i: int, data: Seq<u8>, p: int)
    requires
        0 <= i < s.len(),
        0 <= p,
        p + seq_bytes(s).len() <= data.len(),
        data.subrange(p, p + seq_bytes(s).len()) == seq_bytes(s),
    ensures
        s[i].spec_serialize().is_prefix_of(data.skip(p + seq_bytes(s.take(i)).len())),
{
    lemma_seq_bytes_prefix(s, i + 1);
    lemma_seq_bytes_step(s, i);
    let a = seq_bytes(s.take(i));
    let e = s[i].spec_serialize();
    let b = seq_bytes(s.take(i + 1));
    let c = seq_bytes(s);
    let q = p + a.len();
    assert(e =~= data.skip(q).subrange(0, e.len() as int)) by {
        assert forall|k: int| 0 <= k < e.len() implies e[k] == data.skip(q)[k] by {
            assert(b[a.len() + k] == e[k]);
            assert(c.subrange(0, b.len() as int)[a.len() + k] == c[a.len() + k]);
            assert(data.subrange(p, p + c.len())[a.len() + k] == data[q + k]);
        }
    }
}

/// Where `p` is a prefix of `d`, and `q` a prefix of what follows `p` in
/// `d`, `p` then `q` is a prefix of `d`.
pub proof fn lemma_tag_then(p: Seq<u8>, q: Seq<u8>, d: Seq<u8>)
    requires
        (p + q).is_prefix_of(d),
    ensures
        p.is_prefix_of(d),
        q.is_prefix_of(d.skip(p.len() as int)),
{
    assert(p =~= d.subrange(0, p.len() as int)) by {
        assert forall|k: int| 0 <= k < p.len() implies p[k] == d[k] by {
            assert((p + q)[k] == d.subrange(0, (p + q).len() as int)[k]);
        }
    }
    assert(q =~= d.skip(p.len() as int).subrange(0, q.len() as int)) by {
        assert forall|k: int| 0 <= k < q.len() implies q[k] == d.skip(p.len() as int)[k] by {
            assert((p + q)[p.len() + k] == d.subrange(0, (p + q).len() as int)[p.len() + k]);
        }
    }
}

/// Whether `bytes` start with the encoding of some value of `T`.
pub open spec fn encodes_some<T: Node>(bytes: Seq<u8>) -> bool {
    exists|x: T| #[trigger] x.spec_serialize().is_prefix_of(bytes)
}

/// Whether the visitors `vs` are those before and after generating each
/// value of `items` in turn, with no settings: generating `items[i]` from
/// `vs[i]` can give it and leave `vs[i + 1]`.
pub open spec fn generated_through<T: Node>(vs: Seq<Visitor>, items: Seq<T>) -> bool {
    &&& vs.len() == items.len() + 1
    &&& forall|i: int| 0 <= i < items.len() ==> T::generation(#[trigger] vs[i], None, Some(items[i]), vs[i + 1])
}

/// Whether generating the values of `items` in turn, each with no
/// settings, from the visitor `start`, can give them and leave `end`.
pub open spec fn elements_generated<T: Node>(start: Visitor, items: Seq<T>, end: Visitor) -> bool {
    exists|vs: Seq<Visitor>| #[trigger] generated_through(vs, items) && vs[0] == start && vs.last() == end
}

/// Generating nothing leaves the visitor as it was.
pub proof fn lemma_elements_generated_empty<T: Node>(start: Visitor)
    ensures
        elements_generated(start, Seq::<T>::empty(), start),
{
    assert(generated_through(seq![start], Seq::<T>::empty()));
}

/// Whether the visitors `vs` are those before and after each of the
/// generations, with no settings, that gave `rs` in turn (nothing where
/// one failed).
pub open spec fn attempts_through<T: Node>(vs: Seq<Visitor>, rs: Seq<Option<T>>) -> bool {
    &&& vs.len() == rs.len() + 1
    &&& forall|i: int| 0 <= i < rs.len() ==> T::generation(#[trigger] vs[i], None, rs[i], vs[i + 1])
}

/// Whether generating `rs.len()` times in turn, from the visitor `start`,
/// can give `rs` and leave `end`.
pub open spec fn attempts_generated<T: Node>(start: Visitor, rs: Seq<Option<T>>, end: Visitor) -> bool {
    exists|vs: Seq<Visitor>| #[trigger] attempts_through(vs, rs) && vs[0] == start && vs.last() == end
}

/// Making no attempt leaves the visitor as it was.
pub proof fn lemma_attempts_empty<T: Node>(start: Visitor)
    ensures
        attempts_generated(start, Seq::<Option<T>>::empty(), start),
{
    assert(attempts_through(seq![start], Seq::<Option<T>>::empty()));
}

/// One more attempt after `rs` extends them.
pub proof fn lemma_attempts_push<T: Node>(start: Visitor, rs: Seq<Option<T>>, mid: Visitor, x: Option<T>, end: Visitor)
    requires
        attempts_generated(start, rs, mid),
        T::generation(mid, None, x, end),
    ensures
        attempts_generated(start, rs.push(x), end),
{
    let vs = choose|vs: Seq<Visitor>| #[trigger] attempts_through(vs, rs) && vs[0] == start && vs.last() == mid;
    let ws = vs.push(end);
    let ys = rs.push(x);
    assert forall|i: int| 0 <= i < ys.len() implies T::generation(#[trigger] ws[i], None, ys[i], ws[i + 1]) by {
        if i < rs.len() {
            assert(ws[i] == vs[i]);
            assert(ws[i + 1] == vs[i + 1]);
            assert(ys[i] == rs[i]);
        }
    }
    assert(attempts_through(ws, ys));
}

/// Generating one more value after `items` extends what was generated.
pub proof fn lemma_elements_generated_push<T: Node>(start: Visitor, items: Seq<T>, mid: Visitor, x: T, end: Visitor)
    requires
        elements_generated(start, items, mid),
        T::generation(mid, None, Some(x), end),
    ensures
        elements_generated(start, items.push(x), end),
{
    let vs = choose|vs: Seq<Visitor>| #[trigger] generated_through(vs, items) && vs[0] == start && vs.last() == mid;
    let ws = vs.push(end);
    assert forall|i: int| 0 <= i < items.push(x).len() implies T::generation(
        #[trigger] ws[i],
        None,
        Some(items.push(x)[i]),
        ws[i + 1],
    ) by {
        if i < items.len() {
            assert(ws[i] == vs[i]);
            assert(ws[i + 1] == vs[i + 1]);
        }
    }
    assert(generated_through(ws, items.push(x)));
}

/// The number of elements that generating a sequence with `settings` makes,
/// drawn from the visitor `before`: the length asked for; within a range,
/// its start plus a draw modulo its width; otherwise a draw modulo the
/// visitor's iteration depth.
pub open spec fn drawn_length(before: Visitor, settings: Option<GenerateSettings>) -> nat {
    match settings {
        Some(GenerateSettings::Length(n)) => n as nat,
        Some(GenerateSettings::Range(rg)) => if rg@.start < rg@.end + 1 {
            (rg@.start + rng_output(before.rng_state()) % ((rg@.end + 1 - rg@.start) as u64)) as nat
        } else {
            rg@.start as nat
        },
        None => if before.depth().iterate > 0 {
            (rng_output(before.rng_state()) % (before.depth().iterate as u64)) as nat
        } else {
            0
        },
    }
}

/// Whether `drawn` is the visitor after drawing that length: one draw
/// where there was a range to draw from, none otherwise.
pub open spec fn length_drawn(before: Visitor, settings: Option<GenerateSettings>, drawn: Visitor) -> bool {
    let draws = match settings {
        Some(GenerateSettings::Length(_)) => false,
        Some(GenerateSettings::Range(rg)) => rg@.start < rg@.end + 1,
        None => before.depth().iterate > 0,
    };
    &&& drawn.draws_only(&before)
    &&& drawn.rng_state() == if draws { rng_step(before.rng_state()) } else { before.rng_state() }
}

/// Whether `after` is `before` once the registration of a type named
/// `name`, under `parent` at `variant`, has been entered: the edge and the
/// name are recorded and the type, `id`, is pushed.
pub open spec fn entered(before: Visitor, parent: Option<Id>, variant: usize, name: Seq<char>, id: Id, after: Visitor) -> bool {
    &&& after.registers_only(&before)
    &&& after.ty_stack() == before.ty_stack().push(id)
    &&& after.ty_edges() == before.ty_edges().push((parent, id, variant))
    &&& after.ty_names().len() == before.ty_names().len() + 1
    &&& after.ty_names().drop_last() =~= before.ty_names()
    &&& after.ty_names().last().0 == id
    &&& after.ty_names().last().1@ == name
    &&& after.edge_types() == before.edge_types().push(name)
}

/// Whether `after` is `before` once the innermost registration is left.
pub open spec fn left(before: Visitor, after: Visitor) -> bool {
    &&& after.registers_only(&before)
    &&& after.ty_stack() == before.ty_stack().drop_last()
    &&& after.ty_edges() == before.ty_edges()
    &&& after.ty_names() == before.ty_names()
    &&& after.edge_types() == before.edge_types()
}

/// Whether `after` is `before` with one registration of a type named
/// `name`, under `parent` at `variant`, entered and left again.
pub open spec fn one_edge(before: Visitor, parent: Option<Id>, variant: usize, name: Seq<char>, after: Visitor) -> bool {
    exists|id: Id, mid: Visitor| #[trigger] entered(before, parent, variant, name, id, mid) && left(mid, after)
}

/// Whether `after` is `before` once `C` is registered under `parent` at
/// `variant`: its own registration, or, where it is being registered
/// already, one edge to it.
pub open spec fn child_registered<C: Node>(before: Visitor, parent: Option<Id>, variant: usize, after: Visitor) -> bool {
    ||| C::registration(before, parent, variant, after)
    ||| one_edge(before, parent, variant, C::spec_name(), after)
}

/// Whether `after` is `before` with the field `entry`, holding a value of
/// the type named `ty`, entered: pushed on the field stack with that type's
/// identity, and the stack as it now is recorded.
pub open spec fn field_entered(before: Visitor, entry: FieldEntry, ty: Seq<char>, after: Visitor) -> bool {
    &&& after.field_stack() == before.field_stack().push(entry)
    &&& after.fields() == before.fields().push(before.field_stack().push(entry))
    &&& after.field_types() == before.field_types().push(ty)
    &&& after.edge_types() == before.edge_types()
    &&& after.serialized_types() == before.serialized_types()
    &&& after.ty_stack() == before.ty_stack()
    &&& after.ty_edges() == before.ty_edges()
    &&& after.ty_names() == before.ty_names()
    &&& after.depth() == before.depth()
    &&& after.strings() == before.strings()
    &&& after.serialized() == before.serialized()
    &&& after.operands() == before.operands()
    &&& after.rng_state() == before.rng_state()
}

/// Whether `after` is `before` with the innermost field left.
pub open spec fn field_left(before: Visitor, after: Visitor) -> bool {
    &&& after.field_stack() == before.field_stack().drop_last()
    &&& after.fields() == before.fields()
    &&& after.field_types() == before.field_types()
    &&& after.edge_types() == before.edge_types()
    &&& after.serialized_types() == before.serialized_types()
    &&& after.ty_stack() == before.ty_stack()
    &&& after.ty_edges() == before.ty_edges()
    &&& after.ty_names() == before.ty_names()
    &&& after.depth() == before.depth()
    &&& after.strings() == before.strings()
    &&& after.serialized() == before.serialized()
    &&& after.operands() == before.operands()
    &&& after.rng_state() == before.rng_state()
}

/// Whether `after` is `before` with the operands `ops` recorded and nothing
/// else done.
pub open spec fn operands_recorded(before: Visitor, ops: Seq<Seq<u8>>, after: Visitor) -> bool {
    &&& after.operands() == before.operands() + ops
    &&& after.field_types() == before.field_types()
    &&& after.edge_types() == before.edge_types()
    &&& after.serialized_types() == before.serialized_types()
    &&& after.field_stack() == before.field_stack()
    &&& after.fields() == before.fields()
    &&& after.ty_stack() == before.ty_stack()
    &&& after.ty_edges() == before.ty_edges()
    &&& after.ty_names() == before.ty_names()
    &&& after.depth() == before.depth()
    &&& after.strings() == before.strings()
    &&& after.serialized() == before.serialized()
    &&& after.rng_state() == before.rng_state()
}

/// Whether `after` is `before` once `x` is walked inside a field entered
/// at `index` with the plain shape, for a value of the type named `ty`: the
/// field is entered, `x` is walked as field `inner_index`, and the field is
/// left.
pub open spec fn walked_in_field<T: Node>(
    x: T,
    index: usize,
    ty: Seq<char>,
    inner_index: usize,
    compared: Option<(u64, u64)>,
    before: Visitor,
    after: Visitor,
) -> bool {
    exists|id: Id, v1: Visitor, v2: Visitor|
        #![trigger field_entered(before, ((index, NodeType::NonRecursive), id), ty, v1), x.walk(inner_index, compared, v1, v2)]
        field_entered(before, ((index, NodeType::NonRecursive), id), ty, v1) && x.walk(inner_index, compared, v1, v2)
            && field_left(v2, after)
}

/// Whether `after` is `before` once `x` is walked inside a field entered
/// at `index` with the shape of `x` itself, for a value of its type `T`:
/// the field is entered, `x` is walked as field `inner_index`, and the
/// field is left.
#[verifier::opaque]
pub open spec fn walked_in_shaped_field<T: Node>(
    x: T,
    index: usize,
    inner_index: usize,
    compared: Option<(u64, u64)>,
    before: Visitor,
    after: Visitor,
) -> bool {
    exists|shape: NodeType, id: Id, v1: Visitor, v2: Visitor|
        #![trigger field_entered(before, ((index, shape), id), T::spec_name(), v1), x.walk(inner_index, compared, v1, v2)]
        x.node_shape(shape) && field_entered(before, ((index, shape), id), T::spec_name(), v1) && x.walk(
            inner_index,
            compared,
            v1,
            v2,
        ) && field_left(v2, after)
}

/// The index an item at `i` is walked as, inside its field: 0 for its
/// fields, its position for its comparison operands.
pub open spec fn item_index(i: int, compared: Option<(u64, u64)>) -> usize {
    if compared is Some { i as usize } else { 0 }
}

/// Whether the visitors `vs` are those before and after walking each item
/// of `items` in turn, inside a field at its position.
pub open spec fn items_walked_through<T: Node>(vs: Seq<Visitor>, items: Seq<T>, compared: Option<(u64, u64)>) -> bool {
    &&& vs.len() == items.len() + 1
    &&& forall|i: int|
        0 <= i < items.len() ==> walked_in_shaped_field(
            items[i],
            i as usize,
            item_index(i, compared),
            compared,
            #[trigger] vs[i],
            vs[i + 1],
        )
}

/// Whether walking the items of `items` in turn, each inside a field at its
/// position, from the visitor `before`, can leave the visitor `after`.
pub open spec fn items_walked<T: Node>(items: Seq<T>, compared: Option<(u64, u64)>, before: Visitor, after: Visitor) -> bool {
    exists|vs: Seq<Visitor>| #[trigger] items_walked_through(vs, items, compared) && vs[0] == before && vs.last() == after
}

/// Walking no items leaves the visitor as it was.
pub proof fn lemma_items_walked_empty<T: Node>(compared: Option<(u64, u64)>, start: Visitor)
    ensures
        items_walked(Seq::<T>::empty(), compared, start, start),
{
    assert(items_walked_through(seq![start], Seq::<T>::empty(), compared));
}

/// Walking one more item after `items` extends the walk.
pub proof fn lemma_items_walked_push<T: Node>(
    items: Seq<T>,
    compared: Option<(u64, u64)>,
    start: Visitor,
    mid: Visitor,
    x: T,
    end: Visitor,
)
    requires
        items_walked(items, compared, start, mid),
        walked_in_shaped_field(x, items.len() as usize, item_index(items.len() as int, compared), compared, mid, end),
    ensures
        items_walked(items.push(x), compared, start, end),
{
    let vs = choose|vs: Seq<Visitor>| #[trigger] items_walked_through(vs, items, compared) && vs[0] == start && vs.last() == mid;
    let ws = vs.push(end);
    let ys = items.push(x);
    assert forall|i: int| 0 <= i < ys.len() implies walked_in_shaped_field(
        ys[i],
        i as usize,
        item_index(i, compared),
        compared,
        #[trigger] ws[i],
        ws[i + 1],
    ) by {
        if i < items.len() {
            assert(ws[i] == vs[i]);
            assert(ws[i + 1] == vs[i + 1]);
            assert(ys[i] == items[i]);
            assert(walked_in_shaped_field(items[i], i as usize, item_index(i, compared), compared, vs[i], vs[i + 1]));
        }
    }
    assert(items_walked_through(ws, ys, compared));
}

/// The identity of a registration's parent, where it has one.
pub open spec fn parent_id(parent: Option<(Id, String)>) -> Option<Id> {
    match parent {
        Some(p) => Some(p.0),
        None => None,
    }
}

/// How many fields walking the values of `s` enters: one for each value,
/// and those inside it.
pub open spec fn seq_field_count<T: Node>(s: Seq<T>) -> nat
    decreases s.len(),
{
    if s.len() == 0 {
        0
    } else {
        seq_field_count(s.drop_last()) + 1 + s.last().field_count()
    }
}

/// The operands that the comparison `val` records for the values of `s`.
pub open spec fn seq_comparison_operands<T: Node>(s: Seq<T>, val: (u64, u64)) -> Seq<Seq<u8>>
    decreases s.len(),
{
    if s.len() == 0 {
        Seq::empty()
    } else {
        seq_comparison_operands(s.drop_last(), val) + s.last().comparison_operands(val)
    }
}

/// The encodings that recording the values of `s` records: for each value,
/// its encoding and then what it records.
pub open spec fn seq_records<T: Node>(s: Seq<T>) -> Seq<Seq<u8>>
    decreases s.len(),
{
    if s.len() == 0 {
        Seq::empty()
    } else {
        seq_records(s.drop_last()) + seq![s.last().spec_serialize()] + s.last().serialized_records()
    }
}

/// For each record that recording the items of `s` in turn makes, the
/// name of the type it is made for: each item's type, then what the item
/// records.
pub open spec fn seq_record_types<T: Node>(s: Seq<T>) -> Seq<Seq<char>>
    decreases s.len(),
{
    if s.len() == 0 {
        Seq::empty()
    } else {
        seq_record_types(s.drop_last()) + seq![T::spec_name()] + s.last().serialized_record_types()
    }
}

/// A type of the grammar.
pub trait Node: Sized + 'static {
    /// The encoding of the value.
    spec fn spec_serialize(&self) -> Seq<u8>;

    /// The name of the type.
    spec fn spec_name() -> Seq<char>;

    /// Whether the encoding of the type is fully described by
    /// `spec_serialize`: values are written as it says, and any bytes that
    /// start with the encoding of a value read back as a value that
    /// encodes the same way.
    spec fn is_lawful() -> bool;

    /// Whether registering the type under `parent` at `variant`, from the
    /// visitor `before`, can leave the visitor `after`.
    spec fn registration(before: Visitor, parent: Option<Id>, variant: usize, after: Visitor) -> bool;

    /// Whether walking the value as field `index`, from the visitor
    /// `before`, can leave the visitor `after`: for its fields where `compared`
    /// is `None`, for the operands of the comparison `compared` otherwise.
    spec fn walk(&self, index: usize, compared: Option<(u64, u64)>, before: Visitor, after: Visitor) -> bool;

    /// Whether reading is sure to give a value from bytes that start this way.
    spec fn read_ok(bytes: Seq<u8>) -> bool;

    /// Whether `shape` is the shape of this value's node, as the walks
    /// record it.
    spec fn node_shape(&self, shape: NodeType) -> bool;

    /// Whether reading the start of `bytes` can give `v`.
    spec fn reading(bytes: Seq<u8>, v: Self) -> bool;

    /// Whether values are written exactly as `spec_serialize` says. This
    /// asks nothing of reading, so it holds of maps, whose reading accepts
    /// more than their writing produces.
    spec fn encodes_exactly() -> bool;

    /// Whether generation accepts these settings when the visitor's random
    /// state is `rng`: those on which generating would fail an arithmetic
    /// operation are refused.
    spec fn generate_ok(settings: GenerateSettings, rng: u64) -> bool;

    /// Whether generating with `settings`, from the visitor `before`, can
    /// give `r` and leave the visitor `after`.
    spec fn generation(before: Visitor, settings: Option<GenerateSettings>, r: Option<Self>, after: Visitor) -> bool;

    /// Whether the mutation `ty` can be applied at the end of `path`; for a
    /// lawful type, the bytes of a splice must start with an encoding, as
    /// they cannot be read otherwise.
    spec fn mutate_ok(&self, ty: &MutationType, path: Seq<usize>) -> bool;

    /// Whether mutating the value with `ty` along `path`, with the visitor
    /// `before`, can leave the value `after` and the visitor `after_v`.
    spec fn mutation(&self, ty: &MutationType, path: Seq<usize>, before: Visitor, after: Self, after_v: Visitor) -> bool;

    /// For a type that registers the type it holds in its place, whether
    /// `name` can be the name of the first type that registering it records:
    /// the held type's name or a name it allows. False for a type that
    /// registers itself first.
    spec fn first_name_ok(name: Seq<char>) -> bool;

    /// Whether generating a value of the type never gives up.
    spec fn always_generates() -> bool;

    /// Whether walking a value visits its parts in the order that the
    /// specification describes: for ordered maps, where the keys compare as
    /// their specification says.
    spec fn walks_known() -> bool;

    /// The number of fields that walking the value enters.
    spec fn field_count(&self) -> nat;

    /// The operands that the comparison `val` records for the value, in order.
    spec fn comparison_operands(&self, val: (u64, u64)) -> Seq<Seq<u8>>;

    /// The encodings that recording the values inside this one records, in order.
    spec fn serialized_records(&self) -> Seq<Seq<u8>>;

    /// For each record `__autarkie_serialized` makes, the name of the type
    /// it is made for.
    spec fn serialized_record_types(&self) -> Seq<Seq<char>>;

    /// Generates a value; `None` where generation gives up.
    fn __autarkie_generate(
        visitor: &mut Visitor,
        depth: &mut usize,
        cur_depth: usize,
        settings: Option<GenerateSettings>,
    ) -> (r: Option<Self>)
        requires
            settings matches Some(s) ==> Self::generate_ok(s, old(visitor).rng_state()),
        ensures
            final(visitor).draws_only(old(visitor)),
            Self::always_generates() ==> r is Some,
            *final(depth) == *old(depth),
            Self::generation(*old(visitor), settings, r, *final(visitor)),
    ;

    /// Registers the type under `parent`, at `variant`, and everything it
    /// contains that is not being registered already.
    fn __autarkie_register(v: &mut Visitor, parent: Option<(Id, String)>, variant: usize)
        ensures
            final(v).extends(old(v)),
            final(v).ty_edges().len() > old(v).ty_edges().len(),
            final(v).ty_edges()[old(v).ty_edges().len() as int].0 == parent_id(parent),
            final(v).ty_edges()[old(v).ty_edges().len() as int].2 == variant,
            final(v).ty_names().len() > old(v).ty_names().len(),
            final(v).ty_names()[old(v).ty_names().len() as int].0 == final(v).ty_edges()[old(
                v,
            ).ty_edges().len() as int].1,
            ({
                let name = final(v).ty_names()[old(v).ty_names().len() as int].1@;
                name == Self::spec_name() || Self::first_name_ok(name)
            }),
            final(v).fields() == old(v).fields(),
            final(v).serialized() == old(v).serialized(),
            final(v).operands() == old(v).operands(),
            final(v).rng_state() == old(v).rng_state(),
            Self::registration(*old(v), parent_id(parent), variant, *final(v)),
    ;

    /// The identity of the type.
    fn __autarkie_id() -> Id {
        type_id_hash::<Self>()
    }

    /// The name of the type: its path, with the names of its parameters.
    fn __autarkie_id_name() -> (r: String)
        ensures
            r@ == Self::spec_name(),
    ;

    /// The identity and the name of the type.
    fn __autarkie_id_tuple() -> (r: (Id, String))
        ensures
            r.1@ == Self::spec_name(),
    {
        (Self::__autarkie_id(), Self::__autarkie_id_name())
    }

    /// Enters the registration of this type, under `parent` at `variant`,
    /// with its own identity and name.
    fn register_self(v: &mut Visitor, parent: Option<(Id, String)>, variant: usize) -> (r: (Id, String))
        ensures
            r.1@ == Self::spec_name(),
            final(v).rng_state() == old(v).rng_state(),
            final(v).ty_stack() == old(v).ty_stack().push(r.0),
            final(v).ty_edges() == old(v).ty_edges().push(
                (match parent { Some(p) => Some(p.0), None => None }, r.0, variant),
            ),
            final(v).ty_names().len() == old(v).ty_names().len() + 1,
            final(v).ty_names().drop_last() == old(v).ty_names(),
            final(v).ty_names().last().0 == r.0,
            final(v).ty_names().last().1@ == Self::spec_name(),
            final(v).field_stack() == old(v).field_stack(),
            final(v).depth() == old(v).depth(),
            final(v).strings() == old(v).strings(),
            final(v).fields() == old(v).fields(),
            final(v).serialized() == old(v).serialized(),
            final(v).operands() == old(v).operands(),
            final(v).edge_types() == old(v).edge_types().push(Self::spec_name()),
            final(v).field_types() == old(v).field_types(),
            final(v).serialized_types() == old(v).serialized_types(),
    {
        let id = Self::__autarkie_id();
        let name = Self::__autarkie_id_name();
        let kept = name.clone();
        v.register_ty_named(parent, (id, name), variant, Ghost(Self::spec_name()));
        (id, kept)
    }

    /// Enters a field at `index` with shape `shape` holding a value of this
    /// type: pushes it, with the type's identity, and records the field
    /// stack as it now is.
    fn enter_as_field(v: &mut Visitor, index: usize, shape: NodeType) -> (r: FieldEntry)
        ensures
            r.0 == (index, shape),
            final(v).rng_state() == old(v).rng_state(),
            final(v).field_stack() == old(v).field_stack().push(r),
            final(v).fields() == old(v).fields().push(old(v).field_stack().push(r)),
            final(v).ty_stack() == old(v).ty_stack(),
            final(v).ty_edges() == old(v).ty_edges(),
            final(v).ty_names() == old(v).ty_names(),
            final(v).depth() == old(v).depth(),
            final(v).strings() == old(v).strings(),
            final(v).serialized() == old(v).serialized(),
            final(v).operands() == old(v).operands(),
            final(v).edge_types() == old(v).edge_types(),
            final(v).field_types() == old(v).field_types().push(Self::spec_name()),
            final(v).serialized_types() == old(v).serialized_types(),
    {
        let entry = ((index, shape), Self::__autarkie_id());
        v.register_field_named(entry, Ghost(Self::spec_name()));
        entry
    }

    /// Records the encoded value `data` of this type, with its identity.
    fn record_encoding(v: &mut Visitor, data: Vec<u8>)
        ensures
            final(v).rng_state() == old(v).rng_state(),
            final(v).serialized().len() == old(v).serialized().len() + 1,
            final(v).serialized().drop_last() == old(v).serialized(),
            final(v).serialized().last().0 == data@,
            final(v).serialized_bytes() == old(v).serialized_bytes().push(data@),
            final(v).ty_stack() == old(v).ty_stack(),
            final(v).ty_edges() == old(v).ty_edges(),
            final(v).ty_names() == old(v).ty_names(),
            final(v).field_stack() == old(v).field_stack(),
            final(v).depth() == old(v).depth(),
            final(v).strings() == old(v).strings(),
            final(v).fields() == old(v).fields(),
            final(v).operands() == old(v).operands(),
            final(v).edge_types() == old(v).edge_types(),
            final(v).field_types() == old(v).field_types(),
            final(v).serialized_types() == old(v).serialized_types().push(Self::spec_name()),
    {
        v.add_serialized_named(data, Self::__autarkie_id(), Ghost(Self::spec_name()));
        proof {
            assert(v.serialized().drop_last() =~= old(v).serialized());
        }
    }

    /// The identity of the type of the elements, for a sequence; of the
    /// type itself otherwise.
    fn inner_id() -> Id {
        Self::__autarkie_id()
    }

    /// Records the fields of the value, as seen from field `index` of its parent.
    fn __autarkie_fields(&self, visitor: &mut Visitor, index: usize)
        ensures
            final(visitor).keeps_state(old(visitor)),
            final(visitor).serialized() == old(visitor).serialized(),
            final(visitor).operands() == old(visitor).operands(),
            Self::walks_known() ==> final(visitor).fields().len() == old(visitor).fields().len() + self.field_count(),
            self.walk(index, None, *old(visitor), *final(visitor)),
    ;

    /// Records, for the comparison of `__autarkie_val.0` with
    /// `__autarkie_val.1`, the operand that would make a number in the value
    /// take the other side of the comparison.
    fn __autarkie_cmps(&self, visitor: &mut Visitor, index: usize, __autarkie_val: (u64, u64))
        ensures
            final(visitor).keeps_state(old(visitor)),
            final(visitor).serialized() == old(visitor).serialized(),
            Self::walks_known() ==> final(visitor).operands() == old(visitor).operands() + self.comparison_operands(
                __autarkie_val,
            ),
            Self::walks_known() ==> final(visitor).fields().len() == old(visitor).fields().len() + self.field_count(),
            self.walk(index, Some(__autarkie_val), *old(visitor), *final(visitor)),
    ;

    /// The shape of the node.
    fn __autarkie_node_ty(&self, visitor: &Visitor) -> (r: NodeType)
        ensures
            self.node_shape(r),
    ;

    /// Records the encodings of the values inside this one.
    fn __autarkie_serialized(&self, visitor: &mut Visitor)
        ensures
            final(visitor).keeps_state(old(visitor)),
            final(visitor).fields() == old(visitor).fields(),
            final(visitor).operands() == old(visitor).operands(),
            Self::walks_known() ==> final(visitor).serialized().len() == old(visitor).serialized().len()
                + self.serialized_records().len(),
            Self::walks_known() && Self::is_lawful() ==> final(visitor).serialized_bytes() == old(
                visitor,
            ).serialized_bytes() + self.serialized_records(),
            Self::walks_known() && Self::encodes_exactly() ==> final(visitor).serialized_bytes() == old(
                visitor,
            ).serialized_bytes() + self.serialized_records(),
            Self::walks_known() ==> final(visitor).serialized_types() == old(visitor).serialized_types()
                + self.serialized_record_types(),
    ;

    /// Applies `ty` at the end of `path`.
    fn __autarkie_mutate(
        &mut self,
        ty: &mut MutationType,
        visitor: &mut Visitor,
        path: VecDeque<usize>,
    )
        requires
            old(self).mutate_ok(&*old(ty), path@),
        ensures
            final(visitor).extends(old(visitor)),
            old(self).mutation(&*old(ty), path@, *old(visitor), *final(self), *final(visitor)),
    ;

    /// The encoding of the value.
    fn __autarkie_serialize(&self) -> (r: Vec<u8>)
        ensures
            Self::is_lawful() ==> r@ == self.spec_serialize(),
            Self::encodes_exactly() ==> r@ == self.spec_serialize(),
    ;

    /// Reads a value from `data` at `pos`: the value and where it ends.
    /// The bytes read are the encoding of the value read; and where `data`
    /// holds at `pos` the encoding of some value, the value read encodes the
    /// same way and ends where that encoding ends.
    fn __autarkie_deserialize(data: &[u8], pos: usize) -> (r: Option<(Self, usize)>)
        requires
            pos <= data@.len(),
        ensures
            r matches Some((v, end)) ==> pos <= end <= data@.len(),
            Self::read_ok(data@.skip(pos as int)) ==> r is Some,
            r matches Some((v, end)) ==> Self::reading(data@.skip(pos as int), v),
            Self::is_lawful() ==> (r matches Some((v, end)) ==> data@.subrange(pos as int, end as int)
                == v.spec_serialize()),
            Self::is_lawful() ==> forall|x: Self| #[trigger] x.spec_serialize().is_prefix_of(data@.skip(pos as int)) ==> {
                &&& r is Some
                &&& r matches Some((v, end)) ==> {
                    &&& v.spec_serialize() == x.spec_serialize()
                    &&& end == pos + x.spec_serialize().len()
                }
            },
    ;
}

/// Registers `C` under `parent` at `variant`, or, where `C` is being
/// registered already, only records the edge to it.
pub fn register_child<C: Node>(v: &mut Visitor, parent: (Id, String), variant: usize)
    ensures
        final(v).extends(old(v)),
        final(v).ty_edges().len() > old(v).ty_edges().len(),
        final(v).ty_edges()[old(v).ty_edges().len() as int].0 == Some(parent.0),
        final(v).ty_edges()[old(v).ty_edges().len() as int].2 == variant,
        final(v).ty_names().len() > old(v).ty_names().len(),
        final(v).ty_names()[old(v).ty_names().len() as int].0 == final(v).ty_edges()[old(
            v,
        ).ty_edges().len() as int].1,
        ({
            let name = final(v).ty_names()[old(v).ty_names().len() as int].1@;
            name == C::spec_name() || C::first_name_ok(name)
        }),
        final(v).fields() == old(v).fields(),
        final(v).serialized() == old(v).serialized(),
        final(v).operands() == old(v).operands(),
        final(v).rng_state() == old(v).rng_state(),
        child_registered::<C>(*old(v), Some(parent.0), variant, *final(v)),
{
    if !v.is_recursive(C::__autarkie_id()) {
        C::__autarkie_register(v, Some(parent), variant);
    } else {
        let ghost before = *v;
        let child = C::register_self(v, Some(parent), variant);
        let ghost id = child.0;
        let ghost mid = *v;
        v.pop_ty();
        proof {
            assert(entered(before, Some(parent.0), variant, C::spec_name(), id, mid));
        }
    }
}

/// Whether `r` is what reading a `T` from the start of `bytes` can give,
/// with no value where reading fails: for a lawful type, a value whose
/// encoding starts the bytes and encodes as any other such value; for a
/// map, the entries read, inserted in turn. Where reading is sure to
/// succeed, it does.
pub open spec fn maybe_read<T: Node>(bytes: Seq<u8>, r: Option<T>) -> bool {
    &&& T::read_ok(bytes) ==> r is Some
    &&& r matches Some(v) ==> T::reading(bytes, v)
    &&& T::is_lawful() ==> (r matches Some(v) ==> v.spec_serialize().is_prefix_of(bytes))
    &&& T::is_lawful() ==> forall|x: T| #[trigger] x.spec_serialize().is_prefix_of(bytes) ==> {
        &&& r is Some
        &&& r matches Some(v) ==> v.spec_serialize() == x.spec_serialize()
    }
}

/// Whether `r` is what reading a `T` from the start of `bytes`, where it is
/// sure to succeed, can give: a value that reading can give, which for a
/// lawful type encodes as any value whose encoding starts the bytes.
pub open spec fn sure_read<T: Node>(bytes: Seq<u8>, r: T) -> bool {
    &&& T::reading(bytes, r)
    &&& T::is_lawful() ==> forall|x: T| #[trigger] x.spec_serialize().is_prefix_of(bytes) ==> r.spec_serialize()
        == x.spec_serialize()
}

/// The encoding of `data`.
pub fn serialize<T: Node>(data: &T) -> (r: Vec<u8>)
    ensures
        T::is_lawful() || T::encodes_exactly() ==> r@ == data.spec_serialize(),
{
    data.__autarkie_serialize()
}

/// Reads a value from the start of `data`; bytes after it are ignored.
/// What is read is what reading the type can give from those bytes: for a
/// lawful type, the encoding of the value read starts them; for a map, the
/// entries read, inserted in turn. Where reading is sure to succeed, it does.
pub fn maybe_deserialize<T: Node>(data: &mut &[u8]) -> (r: Option<T>)
    ensures
        *final(data) == *old(data),
        maybe_read::<T>(old(data)@, r),
{
    let bytes: &[u8] = *data;
    proof {
        assert(bytes@.skip(0) =~= bytes@);
    }
    match T::__autarkie_deserialize(bytes, 0) {
        Some((v, end)) => {
            proof {
                if T::is_lawful() {
                    assert(v.spec_serialize().len() == end);
                    assert(v.spec_serialize() =~= bytes@.subrange(0, v.spec_serialize().len() as int));
                }
            }
            Some(v)
        },
        None => None,
    }
}

/// Reads a value from the start of `data`, on which reading is sure to
/// succeed: the value is what reading the type gives from those bytes.
pub fn deserialize<T: Node>(data: &mut &[u8]) -> (r: T)
    requires
        T::read_ok(old(data)@),
    ensures
        *final(data) == *old(data),
        sure_read::<T>(old(data)@, r),
{
    let r = maybe_deserialize::<T>(data);
    r.unwrap()
}

} // verus!
