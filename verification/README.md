# autarkie

Grammar-aware structured values for fuzzing, verified with Verus. Every type
of a grammar implements the `Node` trait: it can be generated at random,
registered in the graph of types, walked for its fields and for the
comparison operands it holds, mutated along a path of indices, and written
to and read from the `bincode` byte encoding that the fuzzer splices.

## Layout

- `src/node.rs`: the `Node` trait, the mutations, and the free functions
  `serialize`, `maybe_deserialize` and `deserialize`.
- `src/visitor.rs`: the state a walk shares (type stack and graph, field
  stack, collected encodings and operands, random choices).
- `src/codec.rs`: the byte encodings of leaf values, through `bincode`.
- `src/scalars.rs`, `src/containers.rs`, `src/tuples.rs`, `src/map.rs`,
  `src/cow.rs`, `src/arrays.rs`: the `Node` impls of integers, `bool`,
  `char`, strings, vectors, options, results, boxes, tuples of up to twelve
  elements, ordered maps, borrowed-or-owned values and slices, and arrays.
- `src/scale.rs`: length prefixes in the SCALE encoding.
- `src/grammar.rs`: a small recursive expression grammar.
- `src/laws.rs`: properties that relate several operations.
- `app/`: codecs generic over the `serde` and `parity_scale_codec` traits,
  and `serde` forms of the grammar types.

The contracts on writing hold where a type *encodes exactly*
(`Node::encodes_exactly`): every type here does, ordered maps included where
their keys compare as their specification says. The contracts on reading
hold where a type is *lawful* (`Node::is_lawful`): every type here is,
except ordered maps, whose reading accepts entries in any order and with
repeated keys. What reading gives is stated for every type by
`Node::reading`, and when it is sure to succeed by `Node::read_ok`: for a
map, the entries read, inserted in turn. `deserialize` asks only the
latter, so maps are read back too.

Generation, registration and the walks over fields and comparisons are
stated as relations between the visitor before and after
(`Node::generation`, `Node::registration`, `Node::walk`), so a container's
contract says that its parts are what their own generation, registration
or walk gives. The shape a walk records for a field is the shape of the
value inside (`Node::node_shape`) for the items of sequences and the value
of an option, and the plain shape for the fields of tuples, results and
map entries.
