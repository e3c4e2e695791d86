//! A small expression grammar whose types refer to each other through boxes,
//! vectors, options and results: the shapes a grammar tree takes when some
//! of its alternatives are recursive.
use vstd::prelude::*;

verus! {

/// An expression.
#[derive(Debug)]
pub enum Expr {
    Literal(String),
    Number(u128),
    /// Recursive.
    Add(Box<Expr>, Box<Expr>),
    /// Recursive through a vector.
    Vec(Vec<Expr>),
    /// Recursive through an option.
    What(Box<Option<Expr>>),
    /// Recursive through two structs.
    WhatTwo(InnerBoxed),
    /// Recursive through an enum.
    WhatTwoInner(InnerBoxedEnum),
    /// Recursive through a tuple.
    SayWhat((usize, Box<Expr>)),
    /// Recursive through a result.
    Res(Result<InnerBoxed, usize>),
    /// Recursive through a statement.
    Stmt(Box<Statement>),
}

/// An expression with a number.
#[derive(Debug)]
pub struct Inner {
    pub what: Expr,
    pub who: u64,
}

/// A struct that reaches an expression through another struct.
#[derive(Debug)]
pub struct InnerBoxed {
    pub what: InnerInnerBoxed,
}

/// A struct that holds a boxed expression.
#[derive(Debug)]
pub struct InnerInnerBoxed {
    pub what: Box<Expr>,
}

/// An enum with a single boxed expression.
#[derive(Debug)]
pub enum InnerBoxedEnum {
    Test(Box<Expr>),
}

/// A statement.
#[derive(Debug)]
pub enum Statement {
    Exp(Expr),
}

/// A struct whose field names are the names of locals that code written
/// for a grammar type uses.
#[derive(Clone, Debug)]
pub struct ShadowedMacroLocals {
    pub v: u32,
    pub val: u32,
    pub depth: u32,
    pub cur_depth: u32,
    pub is_recursive: u32,
    pub autarkie_visitor: u32,
    pub autarkie_path: u32,
    pub __autarkie_val: u32,
}

/// An enum whose variant's field names are the names of locals that code
/// written for a grammar type uses.
#[derive(Clone, Debug)]
pub enum ShadowedMacroLocalEnum {
    Named {
        v: u32,
        val: u32,
        depth: u32,
        cur_depth: u32,
        is_recursive: u32,
        autarkie_visitor: u32,
        autarkie_path: u32,
        __autarkie_val: u32,
    },
    Tuple(u32, u32),
}

} // verus!
