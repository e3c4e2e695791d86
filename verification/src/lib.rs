//! Grammar-aware structured values for fuzzing: generation, registration,
//! field discovery and path-directed mutation of typed trees, together with
//! the byte encodings the fuzzer splices.
#![allow(unused_imports)]

pub mod prefix;
pub mod codec;
pub mod casts;
pub mod visitor;
pub mod node;
pub mod scalars;
pub mod containers;
pub mod tuples;

pub mod map;
pub mod cow;
pub mod arrays;
pub mod scale;
pub mod grammar;
pub mod laws;
