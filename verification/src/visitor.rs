//! The state that walks over typed trees share: the registration stack and
//! graph of types, the stack of fields being visited, the byte snippets and
//! comparison operands collected on the way, and a source of random choices.
use vstd::prelude::*;
use crate::prefix::group_prefix;

verus! {

broadcast use group_prefix;

/// The identity of a type of the grammar.
pub type Id = u64;

/// How a node of a tree is shaped.
#[derive(Clone, Copy, Debug, PartialEq, Eq, Structural)]
pub enum NodeType {
    /// A node whose children are fixed fields.
    NonRecursive,
    /// A node that can contain itself.
    Recursive,
    /// A sequence: fixed in length (`true`) or not, its length, and the
    /// type of its elements.
    Iterable(bool, usize, Id),
}

/// Depth limits for generation: how deep generation may recurse, and how
/// many elements a generated sequence has at most.
#[derive(Clone, Copy, Debug, PartialEq, Eq, Structural)]
pub struct DepthInfo {
    pub generate: usize,
    pub iterate: usize,
}

/// One entry of the field stack: the index of the field in its parent and
/// the shape of the node there, with the type of that node.
pub type FieldEntry = ((usize, NodeType), Id);

/// One registration of a type: its parent (if any), the type and the
/// variant of the parent under which it occurs.
pub type TyEdge = (Option<Id>, Id, usize);

/// The random state after one draw (splitmix64).
pub open spec fn rng_step(s: u64) -> u64 {
    s.wrapping_add(0x9E37_79B9_7F4A_7C15u64)
}

/// The number one draw from state `s` gives (splitmix64).
pub open spec fn rng_output(s: u64) -> u64 {
    let z0 = rng_step(s);
    let z1 = (z0 ^ (z0 >> 30u64)).wrapping_mul(0xBF58_476D_1CE4_E5B9u64);
    let z2 = (z1 ^ (z1 >> 27u64)).wrapping_mul(0x94D0_49BB_1331_11EBu64);
    z2 ^ (z2 >> 31u64)
}

/// The random state after `n` draws.
pub open spec fn rng_after(s: u64, n: nat) -> u64
    decreases n,
{
    if n == 0 {
        s
    } else {
        rng_step(rng_after(s, (n - 1) as nat))
    }
}

/// The `n` bytes that `n` draws from state `s` give: the low byte of each.
pub open spec fn random_bytes(s: u64, n: nat) -> Seq<u8>
    decreases n,
{
    if n == 0 {
        Seq::empty()
    } else {
        random_bytes(s, (n - 1) as nat).push((rng_output(rng_after(s, (n - 1) as nat)) & 0xffu64) as u8)
    }
}

/// Whether a coin flip from state `s` comes up true: the low bit of a draw.
pub open spec fn rng_coin(s: u64) -> bool {
    rng_output(s) & 1u64 == 1u64
}

pub struct Visitor {
    rng: u64,
    depth: DepthInfo,
    strings: Vec<String>,
    ty_stack: Vec<Id>,
    ty_edges: Vec<TyEdge>,
    ty_names: Vec<(Id, String)>,
    field_stack: Vec<FieldEntry>,
    fields: Vec<Vec<FieldEntry>>,
    serialized: Vec<(Vec<u8>, Id)>,
    operands: Vec<Vec<u8>>,
    edge_types: Ghost<Seq<Seq<char>>>,
    field_types: Ghost<Seq<Seq<char>>>,
    serialized_types: Ghost<Seq<Seq<char>>>,
}

impl Visitor {
    /// The state of the source of random choices.
    pub closed spec fn rng_state(&self) -> u64 {
        self.rng
    }

    /// The types whose registration is in progress, innermost last.
    pub closed spec fn ty_stack(&self) -> Seq<Id> {
        self.ty_stack@
    }

    /// Every registration made so far, in order.
    pub closed spec fn ty_edges(&self) -> Seq<TyEdge> {
        self.ty_edges@
    }

    /// The names registered for types, in order.
    pub closed spec fn ty_names(&self) -> Seq<(Id, String)> {
        self.ty_names@
    }

    /// The fields being visited, outermost first.
    pub closed spec fn field_stack(&self) -> Seq<FieldEntry> {
        self.field_stack@
    }

    /// For every field visited so far, the field stack when it was entered.
    pub closed spec fn fields(&self) -> Seq<Seq<FieldEntry>> {
        self.fields@.map_values(|f: Vec<FieldEntry>| f@)
    }

    /// The encoded values collected so far, with the type of each.
    pub closed spec fn serialized(&self) -> Seq<(Seq<u8>, Id)> {
        self.serialized@.map_values(|e: (Vec<u8>, Id)| (e.0@, e.1))
    }

    /// The encodings collected so far, without their types.
    pub open spec fn serialized_bytes(&self) -> Seq<Seq<u8>> {
        self.serialized().map_values(|e: (Seq<u8>, Id)| e.0)
    }

    /// The comparison operands collected so far, encoded.
    pub closed spec fn operands(&self) -> Seq<Seq<u8>> {
        self.operands@.map_values(|c: Vec<u8>| c@)
    }

    /// For every registration made so far, the name of the type whose
    /// identity it records, where it was made for a type of the grammar by
    /// its own `Node::register_self`; the empty name otherwise.
    pub closed spec fn edge_types(&self) -> Seq<Seq<char>> {
        self.edge_types@
    }

    /// For every field entered so far, the name of the type whose identity
    /// its entry records, where it was entered for a type of the grammar by
    /// its own `Node::enter_as_field`; the empty name otherwise.
    pub closed spec fn field_types(&self) -> Seq<Seq<char>> {
        self.field_types@
    }

    /// For every encoded value collected so far, the name of the type whose
    /// identity it is recorded with, where it was recorded for a type of the
    /// grammar by its own `Node::record_encoding`; the empty name otherwise.
    pub closed spec fn serialized_types(&self) -> Seq<Seq<char>> {
        self.serialized_types@
    }

    /// The depth limits.
    pub closed spec fn depth(&self) -> DepthInfo {
        self.depth
    }

    /// The strings that generated strings are drawn from.
    pub closed spec fn strings(&self) -> Seq<String> {
        self.strings@
    }

    /// What every walk over a tree keeps: both stacks are as before, the
    /// depth limits and string pool are unchanged, and the records only grow.
    pub open spec fn extends(&self, old: &Visitor) -> bool {
        &&& self.ty_stack() == old.ty_stack()
        &&& self.field_stack() == old.field_stack()
        &&& self.depth() == old.depth()
        &&& self.strings() == old.strings()
        &&& old.ty_edges().is_prefix_of(self.ty_edges())
        &&& old.ty_names().is_prefix_of(self.ty_names())
        &&& old.fields().is_prefix_of(self.fields())
        &&& old.serialized().is_prefix_of(self.serialized())
        &&& old.operands().is_prefix_of(self.operands())
        &&& old.edge_types().is_prefix_of(self.edge_types())
        &&& old.field_types().is_prefix_of(self.field_types())
        &&& old.serialized_types().is_prefix_of(self.serialized_types())
    }

    /// The visitor has drawn no random number and registered no type since
    /// `old`: it differs from it at most in what it has recorded.
    pub open spec fn keeps_state(&self, old: &Visitor) -> bool {
        &&& self.extends(old)
        &&& self.rng_state() == old.rng_state()
        &&& self.ty_edges() == old.ty_edges()
        &&& self.ty_names() == old.ty_names()
        &&& self.edge_types() == old.edge_types()
    }

    /// The visitor has only drawn random numbers since `old`: it has
    /// recorded nothing and registered no type.
    pub open spec fn draws_only(&self, old: &Visitor) -> bool {
        &&& self.extends(old)
        &&& self.ty_edges() == old.ty_edges()
        &&& self.ty_names() == old.ty_names()
        &&& self.fields() == old.fields()
        &&& self.serialized() == old.serialized()
        &&& self.operands() == old.operands()
        &&& self.edge_types() == old.edge_types()
        &&& self.field_types() == old.field_types()
        &&& self.serialized_types() == old.serialized_types()
    }

    /// The visitor has drawn one random number since `old` and done nothing
    /// else.
    pub open spec fn stepped_from(&self, old: &Visitor) -> bool {
        &&& self.draws_only(old)
        &&& self.rng_state() == rng_step(old.rng_state())
    }

    /// The visitor differs from `old` at most in its type stack and graph.
    pub open spec fn registers_only(&self, old: &Visitor) -> bool {
        &&& self.field_stack() == old.field_stack()
        &&& self.depth() == old.depth()
        &&& self.strings() == old.strings()
        &&& self.fields() == old.fields()
        &&& self.serialized() == old.serialized()
        &&& self.operands() == old.operands()
        &&& self.rng_state() == old.rng_state()
        &&& self.field_types() == old.field_types()
        &&& self.serialized_types() == old.serialized_types()
    }

    /// A visitor extends itself.
    pub broadcast proof fn lemma_extends_refl(v: &Visitor)
        ensures
            #[trigger] v.extends(v),
    {
        broadcast use group_prefix;
    }

    /// Extending is transitive.
    pub broadcast proof fn lemma_extends_trans(a: &Visitor, b: &Visitor, c: &Visitor)
        requires
            #[trigger] b.extends(a),
            #[trigger] c.extends(b),
        ensures
            c.extends(a),
    {
        broadcast use group_prefix;
    }

    /// A visitor with the given seed, depth limits and pool of strings, and
    /// nothing recorded yet.
    pub fn new(seed: u64, depth: DepthInfo, strings: Vec<String>) -> (v: Visitor)
        ensures
            v.rng_state() == seed,
            v.depth() == depth,
            v.strings() == strings@,
            v.ty_stack() == Seq::<Id>::empty(),
            v.ty_edges() == Seq::<TyEdge>::empty(),
            v.ty_names() == Seq::<(Id, String)>::empty(),
            v.field_stack() == Seq::<FieldEntry>::empty(),
            v.fields() == Seq::<Seq<FieldEntry>>::empty(),
            v.serialized() == Seq::<(Seq<u8>, Id)>::empty(),
            v.operands() == Seq::<Seq<u8>>::empty(),
            v.edge_types() == Seq::<Seq<char>>::empty(),
            v.field_types() == Seq::<Seq<char>>::empty(),
            v.serialized_types() == Seq::<Seq<char>>::empty(),
    {
        let v = Visitor {
            rng: seed,
            depth,
            strings,
            ty_stack: Vec::new(),
            ty_edges: Vec::new(),
            ty_names: Vec::new(),
            field_stack: Vec::new(),
            fields: Vec::new(),
            serialized: Vec::new(),
            operands: Vec::new(),
            edge_types: Ghost(Seq::empty()),
            field_types: Ghost(Seq::empty()),
            serialized_types: Ghost(Seq::empty()),
        };
        assert(v.fields() =~= Seq::<Seq<FieldEntry>>::empty());
        assert(v.serialized() =~= Seq::<(Seq<u8>, Id)>::empty());
        assert(v.operands() =~= Seq::<Seq<u8>>::empty());
        v
    }

    /// The next raw random number (splitmix64).
    fn next_u64(&mut self) -> (r: u64)
        ensures
            r == rng_output(old(self).rng),
            final(self).rng == rng_step(old(self).rng),
            final(self).depth == old(self).depth,
            final(self).strings == old(self).strings,
            final(self).ty_stack == old(self).ty_stack,
            final(self).ty_edges == old(self).ty_edges,
            final(self).ty_names == old(self).ty_names,
            final(self).field_stack == old(self).field_stack,
            final(self).fields == old(self).fields,
            final(self).serialized == old(self).serialized,
            final(self).operands == old(self).operands,
            final(self).edge_types == old(self).edge_types,
            final(self).field_types == old(self).field_types,
            final(self).serialized_types == old(self).serialized_types,
    {
        self.rng = self.rng.wrapping_add(0x9E37_79B9_7F4A_7C15u64);
        let mut z: u64 = self.rng;
        z = (z ^ (z >> 30u64)).wrapping_mul(0xBF58_476D_1CE4_E5B9u64);
        z = (z ^ (z >> 27u64)).wrapping_mul(0x94D0_49BB_1331_11EBu64);
        z ^ (z >> 31u64)
    }

    /// A random number in `[lo, hi)`; `lo` where that range is empty.
    pub fn random_range(&mut self, lo: usize, hi: usize) -> (r: usize)
        ensures
            lo < hi ==> lo <= r < hi,
            lo < hi ==> r == lo + rng_output(old(self).rng_state()) % ((hi - lo) as u64),
            lo < hi ==> final(self).rng_state() == rng_step(old(self).rng_state()),
            hi <= lo ==> r == lo && final(self).rng_state() == old(self).rng_state(),
            final(self).extends(old(self)),
            final(self).ty_edges() == old(self).ty_edges(),
            final(self).ty_names() == old(self).ty_names(),
            final(self).fields() == old(self).fields(),
            final(self).serialized() == old(self).serialized(),
            final(self).operands() == old(self).operands(),
            final(self).edge_types() == old(self).edge_types(),
            final(self).field_types() == old(self).field_types(),
            final(self).serialized_types() == old(self).serialized_types(),
    {
        if hi <= lo {
            return lo;
        }
        let x = self.next_u64();
        let span = (hi - lo) as u64;
        let off = x % span;
        lo + (off as usize)
    }

    /// A random boolean.
    pub fn coinflip(&mut self) -> (r: bool)
        ensures
            r == rng_coin(old(self).rng_state()),
            final(self).rng_state() == rng_step(old(self).rng_state()),
            final(self).extends(old(self)),
            final(self).ty_edges() == old(self).ty_edges(),
            final(self).ty_names() == old(self).ty_names(),
            final(self).fields() == old(self).fields(),
            final(self).serialized() == old(self).serialized(),
            final(self).operands() == old(self).operands(),
            final(self).edge_types() == old(self).edge_types(),
            final(self).field_types() == old(self).field_types(),
            final(self).serialized_types() == old(self).serialized_types(),
    {
        let x = self.next_u64();
        x & 1u64 == 1u64
    }

    /// `n` random bytes.
    pub fn generate_bytes(&mut self, n: usize) -> (r: Vec<u8>)
        ensures
            r@.len() == n,
            r@ == random_bytes(old(self).rng_state(), n as nat),
            final(self).rng_state() == rng_after(old(self).rng_state(), n as nat),
            final(self).extends(old(self)),
            final(self).ty_edges() == old(self).ty_edges(),
            final(self).ty_names() == old(self).ty_names(),
            final(self).fields() == old(self).fields(),
            final(self).serialized() == old(self).serialized(),
            final(self).operands() == old(self).operands(),
            final(self).edge_types() == old(self).edge_types(),
            final(self).field_types() == old(self).field_types(),
            final(self).serialized_types() == old(self).serialized_types(),
    {
        let mut out: Vec<u8> = Vec::new();
        let mut i: usize = 0;
        while i < n
            invariant
                i <= n,
                out@.len() == i,
                out@ == random_bytes(old(self).rng, i as nat),
                self.rng == rng_after(old(self).rng, i as nat),
                self.depth == old(self).depth,
                self.strings == old(self).strings,
                self.ty_stack == old(self).ty_stack,
                self.ty_edges == old(self).ty_edges,
                self.ty_names == old(self).ty_names,
                self.field_stack == old(self).field_stack,
                self.fields == old(self).fields,
                self.serialized == old(self).serialized,
                self.operands == old(self).operands,
                self.edge_types == old(self).edge_types,
                self.field_types == old(self).field_types,
                self.serialized_types == old(self).serialized_types,
            decreases n - i,
        {
            let x = self.next_u64();
            out.push((x & 0xffu64) as u8);
            i = i + 1;
        }
        out
    }

    /// A string drawn from the pool; the empty string where the pool is empty.
    pub fn get_string(&mut self) -> (r: String)
        ensures
            old(self).strings().len() == 0 ==> r@ == Seq::<char>::empty(),
            old(self).strings().len() > 0 ==> r@ == old(self).strings()[
                (rng_output(old(self).rng_state()) % (old(self).strings().len() as u64)) as int]@,
            old(self).strings().len() == 0 ==> final(self).rng_state() == old(self).rng_state(),
            old(self).strings().len() > 0 ==> final(self).rng_state() == rng_step(old(self).rng_state()),
            final(self).extends(old(self)),
            final(self).ty_edges() == old(self).ty_edges(),
            final(self).ty_names() == old(self).ty_names(),
            final(self).fields() == old(self).fields(),
            final(self).serialized() == old(self).serialized(),
            final(self).operands() == old(self).operands(),
            final(self).edge_types() == old(self).edge_types(),
            final(self).field_types() == old(self).field_types(),
            final(self).serialized_types() == old(self).serialized_types(),
    {
        let n = self.strings.len();
        if n == 0 {
            return String::new();
        }
        let i = self.random_range(0, n);
        let s = self.strings[i].clone();
        assert(s@ == self.strings()[i as int]@);
        s
    }

    /// The most elements a generated sequence may have, exclusive.
    pub fn iterate_depth(&self) -> (r: usize)
        ensures
            r == self.depth().iterate,
    {
        self.depth.iterate
    }

    /// The generation depth limit.
    pub fn generate_depth(&self) -> (r: usize)
        ensures
            r == self.depth().generate,
    {
        self.depth.generate
    }

    /// Whether the type `id` is being registered, that is, whether reaching
    /// it again would close a cycle.
    pub fn is_recursive(&self, id: Id) -> (r: bool)
        ensures
            r == self.ty_stack().contains(id),
    {
        let mut i: usize = 0;
        while i < self.ty_stack.len()
            invariant
                i <= self.ty_stack@.len(),
                forall|j: int| 0 <= j < i ==> self.ty_stack@[j] != id,
            decreases self.ty_stack@.len() - i,
        {
            if self.ty_stack[i] == id {
                return true;
            }
            i = i + 1;
        }
        false
    }

    /// Enters the registration of type `ty`, under `parent` at `variant`:
    /// records the registration and the type's name, and pushes the type.
    pub fn register_ty(&mut self, parent: Option<(Id, String)>, ty: (Id, String), variant: usize)
        ensures
            final(self).rng_state() == old(self).rng_state(),
            final(self).ty_stack() == old(self).ty_stack().push(ty.0),
            final(self).ty_edges() == old(self).ty_edges().push(
                (match parent { Some(p) => Some(p.0), None => None }, ty.0, variant),
            ),
            final(self).ty_names() == old(self).ty_names().push(ty),
            final(self).field_stack() == old(self).field_stack(),
            final(self).depth() == old(self).depth(),
            final(self).strings() == old(self).strings(),
            final(self).fields() == old(self).fields(),
            final(self).serialized() == old(self).serialized(),
            final(self).operands() == old(self).operands(),
            final(self).edge_types() == old(self).edge_types().push(Seq::empty()),
            final(self).field_types() == old(self).field_types(),
            final(self).serialized_types() == old(self).serialized_types(),
    {
        self.edge_types = Ghost(self.edge_types@.push(Seq::empty()));
        let pid = match parent {
            Some(p) => Some(p.0),
            None => None,
        };
        self.ty_edges.push((pid, ty.0, variant));
        self.ty_stack.push(ty.0);
        self.ty_names.push(ty);
    }

    /// Leaves the registration of the innermost type.
    pub fn pop_ty(&mut self)
        ensures
            final(self).rng_state() == old(self).rng_state(),
            old(self).ty_stack().len() > 0 ==> final(self).ty_stack() == old(self).ty_stack().drop_last(),
            old(self).ty_stack().len() == 0 ==> final(self).ty_stack() == old(self).ty_stack(),
            final(self).ty_edges() == old(self).ty_edges(),
            final(self).ty_names() == old(self).ty_names(),
            final(self).field_stack() == old(self).field_stack(),
            final(self).depth() == old(self).depth(),
            final(self).strings() == old(self).strings(),
            final(self).fields() == old(self).fields(),
            final(self).serialized() == old(self).serialized(),
            final(self).operands() == old(self).operands(),
            final(self).edge_types() == old(self).edge_types(),
            final(self).field_types() == old(self).field_types(),
            final(self).serialized_types() == old(self).serialized_types(),
    {
        let _ = self.ty_stack.pop();
    }

    /// Records an encoded value of type `id`.
    pub fn add_serialized(&mut self, data: Vec<u8>, id: Id)
        ensures
            final(self).rng_state() == old(self).rng_state(),
            final(self).serialized() == old(self).serialized().push((data@, id)),
            final(self).serialized_bytes() == old(self).serialized_bytes().push(data@),
            final(self).ty_stack() == old(self).ty_stack(),
            final(self).ty_edges() == old(self).ty_edges(),
            final(self).ty_names() == old(self).ty_names(),
            final(self).field_stack() == old(self).field_stack(),
            final(self).depth() == old(self).depth(),
            final(self).strings() == old(self).strings(),
            final(self).fields() == old(self).fields(),
            final(self).operands() == old(self).operands(),
            final(self).edge_types() == old(self).edge_types(),
            final(self).field_types() == old(self).field_types(),
            final(self).serialized_types() == old(self).serialized_types().push(Seq::empty()),
    {
        self.serialized_types = Ghost(self.serialized_types@.push(Seq::empty()));
        self.serialized.push((data, id));
        assert(self.serialized() =~= old(self).serialized().push((data@, id)));
        assert(self.serialized_bytes() =~= old(self).serialized_bytes().push(data@));
    }

    /// Records an encoded comparison operand.
    pub fn register_cmp(&mut self, data: Vec<u8>)
        ensures
            final(self).rng_state() == old(self).rng_state(),
            final(self).operands() == old(self).operands().push(data@),
            final(self).ty_stack() == old(self).ty_stack(),
            final(self).ty_edges() == old(self).ty_edges(),
            final(self).ty_names() == old(self).ty_names(),
            final(self).field_stack() == old(self).field_stack(),
            final(self).depth() == old(self).depth(),
            final(self).strings() == old(self).strings(),
            final(self).fields() == old(self).fields(),
            final(self).serialized() == old(self).serialized(),
            final(self).edge_types() == old(self).edge_types(),
            final(self).field_types() == old(self).field_types(),
            final(self).serialized_types() == old(self).serialized_types(),
    {
        self.operands.push(data);
        assert(self.operands() =~= old(self).operands().push(data@));
    }

    /// Enters a field: pushes it and records the field stack as it now is.
    pub fn register_field_stack(&mut self, entry: FieldEntry)
        ensures
            final(self).rng_state() == old(self).rng_state(),
            final(self).field_stack() == old(self).field_stack().push(entry),
            final(self).fields() == old(self).fields().push(old(self).field_stack().push(entry)),
            final(self).ty_stack() == old(self).ty_stack(),
            final(self).ty_edges() == old(self).ty_edges(),
            final(self).ty_names() == old(self).ty_names(),
            final(self).depth() == old(self).depth(),
            final(self).strings() == old(self).strings(),
            final(self).serialized() == old(self).serialized(),
            final(self).operands() == old(self).operands(),
            final(self).edge_types() == old(self).edge_types(),
            final(self).field_types() == old(self).field_types().push(Seq::empty()),
            final(self).serialized_types() == old(self).serialized_types(),
    {
        self.field_types = Ghost(self.field_types@.push(Seq::empty()));
        self.field_stack.push(entry);
        let mut snapshot: Vec<FieldEntry> = Vec::new();
        let mut i: usize = 0;
        while i < self.field_stack.len()
            invariant
                i <= self.field_stack@.len(),
                snapshot@ == self.field_stack@.take(i as int),
            decreases self.field_stack@.len() - i,
        {
            snapshot.push(self.field_stack[i]);
            i = i + 1;
            assert(snapshot@ =~= self.field_stack@.take(i as int));
        }
        assert(snapshot@ =~= self.field_stack@);
        self.fields.push(snapshot);
        assert(self.fields() =~= old(self).fields().push(old(self).field_stack().push(entry)));
    }

    /// Enters the registration of the type named `name`, as `register_ty`
    /// does, noting that name for the edge recorded.
    pub(crate) fn register_ty_named(
        &mut self,
        parent: Option<(Id, String)>,
        ty: (Id, String),
        variant: usize,
        name: Ghost<Seq<char>>,
    )
        ensures
            final(self).rng_state() == old(self).rng_state(),
            final(self).ty_stack() == old(self).ty_stack().push(ty.0),
            final(self).ty_edges() == old(self).ty_edges().push(
                (match parent { Some(p) => Some(p.0), None => None }, ty.0, variant),
            ),
            final(self).ty_names() == old(self).ty_names().push(ty),
            final(self).field_stack() == old(self).field_stack(),
            final(self).depth() == old(self).depth(),
            final(self).strings() == old(self).strings(),
            final(self).fields() == old(self).fields(),
            final(self).serialized() == old(self).serialized(),
            final(self).operands() == old(self).operands(),
            final(self).edge_types() == old(self).edge_types().push(name@),
            final(self).field_types() == old(self).field_types(),
            final(self).serialized_types() == old(self).serialized_types(),
    {
        self.register_ty(parent, ty, variant);
        self.edge_types = Ghost(old(self).edge_types@.push(name@));
    }

    /// Enters a field holding a value of the type named `name`, as
    /// `register_field_stack` does, noting that name for the entry.
    pub(crate) fn register_field_named(&mut self, entry: FieldEntry, name: Ghost<Seq<char>>)
        ensures
            final(self).rng_state() == old(self).rng_state(),
            final(self).field_stack() == old(self).field_stack().push(entry),
            final(self).fields() == old(self).fields().push(old(self).field_stack().push(entry)),
            final(self).ty_stack() == old(self).ty_stack(),
            final(self).ty_edges() == old(self).ty_edges(),
            final(self).ty_names() == old(self).ty_names(),
            final(self).depth() == old(self).depth(),
            final(self).strings() == old(self).strings(),
            final(self).serialized() == old(self).serialized(),
            final(self).operands() == old(self).operands(),
            final(self).edge_types() == old(self).edge_types(),
            final(self).field_types() == old(self).field_types().push(name@),
            final(self).serialized_types() == old(self).serialized_types(),
    {
        self.register_field_stack(entry);
        self.field_types = Ghost(old(self).field_types@.push(name@));
    }

    /// Records an encoded value of the type named `name`, as
    /// `add_serialized` does, noting that name for the record.
    pub(crate) fn add_serialized_named(&mut self, data: Vec<u8>, id: Id, name: Ghost<Seq<char>>)
        ensures
            final(self).rng_state() == old(self).rng_state(),
            final(self).serialized() == old(self).serialized().push((data@, id)),
            final(self).serialized_bytes() == old(self).serialized_bytes().push(data@),
            final(self).ty_stack() == old(self).ty_stack(),
            final(self).ty_edges() == old(self).ty_edges(),
            final(self).ty_names() == old(self).ty_names(),
            final(self).field_stack() == old(self).field_stack(),
            final(self).depth() == old(self).depth(),
            final(self).strings() == old(self).strings(),
            final(self).fields() == old(self).fields(),
            final(self).operands() == old(self).operands(),
            final(self).edge_types() == old(self).edge_types(),
            final(self).field_types() == old(self).field_types(),
            final(self).serialized_types() == old(self).serialized_types().push(name@),
    {
        self.add_serialized(data, id);
        self.serialized_types = Ghost(old(self).serialized_types@.push(name@));
    }

    /// The types whose registration is in progress, innermost last.
    pub fn registering(&self) -> (r: &Vec<Id>)
        ensures
            r@ == self.ty_stack(),
    {
        &self.ty_stack
    }

    /// Every registration made so far, in order.
    pub fn registrations(&self) -> (r: &Vec<TyEdge>)
        ensures
            r@ == self.ty_edges(),
    {
        &self.ty_edges
    }

    /// The names registered for types, in order.
    pub fn type_names(&self) -> (r: &Vec<(Id, String)>)
        ensures
            r@ == self.ty_names(),
    {
        &self.ty_names
    }

    /// For every field visited so far, the field stack when it was entered.
    pub fn visited_fields(&self) -> (r: &Vec<Vec<FieldEntry>>)
        ensures
            r@.map_values(|f: Vec<FieldEntry>| f@) == self.fields(),
    {
        &self.fields
    }

    /// The encoded values collected so far, with the type of each.
    pub fn collected_serialized(&self) -> (r: &Vec<(Vec<u8>, Id)>)
        ensures
            r@.map_values(|e: (Vec<u8>, Id)| (e.0@, e.1)) == self.serialized(),
    {
        &self.serialized
    }

    /// The comparison operands collected so far, encoded.
    pub fn collected_operands(&self) -> (r: &Vec<Vec<u8>>)
        ensures
            r@.map_values(|c: Vec<u8>| c@) == self.operands(),
    {
        &self.operands
    }

    /// Leaves the innermost field.
    pub fn pop_field(&mut self)
        ensures
            final(self).rng_state() == old(self).rng_state(),
            old(self).field_stack().len() > 0 ==> final(self).field_stack() == old(self).field_stack().drop_last(),
            old(self).field_stack().len() == 0 ==> final(self).field_stack() == old(self).field_stack(),
            final(self).ty_stack() == old(self).ty_stack(),
            final(self).ty_edges() == old(self).ty_edges(),
            final(self).ty_names() == old(self).ty_names(),
            final(self).depth() == old(self).depth(),
            final(self).strings() == old(self).strings(),
            final(self).fields() == old(self).fields(),
            final(self).serialized() == old(self).serialized(),
            final(self).operands() == old(self).operands(),
            final(self).edge_types() == old(self).edge_types(),
            final(self).field_types() == old(self).field_types(),
            final(self).serialized_types() == old(self).serialized_types(),
    {
        let _ = self.field_stack.pop();
    }
}

} // verus!
