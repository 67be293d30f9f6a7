//! The abstract syntax tree the evaluator consumes. An external
//! tokenizer/parser produces it; the evaluator only reads it. Number
//! literals carry the IEEE-754 bit pattern of their value; all names and
//! string literals are sequences of Unicode scalar values.

use vstd::prelude::*;
use std::rc::Rc;

verus! {

/// Binary arithmetic and bit operators.
#[derive(Clone, Copy, PartialEq, Eq, Structural)]
pub enum BinKind {
    Plus,
    Minus,
    Multiply,
    Divide,
    BitAnd,
    BitOr,
    Shl,
    Shr,
}

/// Comparison and boolean operators.
#[derive(Clone, Copy, PartialEq, Eq, Structural)]
pub enum CmpKind {
    EquEqu,
    NotEqu,
    Greater,
    GreatEqu,
    Less,
    LessEqu,
    Bang,
    And,
    Or,
}

/// One node of the syntax tree.
pub enum Tree {
    /// Placeholder produced for empty or malformed source; evaluates to
    /// `Null`.
    Empty,
    /// A number literal, as the bit pattern of its double value.
    Number(u64),
    Bool(bool),
    /// A string literal.
    Str(Vec<char>),
    List(Vec<Tree>),
    Ident(Vec<char>),
    ListCall(Box<Tree>, Box<Tree>),
    FnCall { name: Vec<char>, args: Vec<Tree> },
    MemberAccess { target: Box<Tree>, member: Box<Tree> },
    Ret(Box<Tree>),
    BinOp(Box<Tree>, BinKind, Box<Tree>),
    CmpOp(Box<Tree>, CmpKind, Box<Tree>),
    Range(Box<Tree>, Box<Tree>),
    Exit(Box<Tree>),
    Write(Box<Tree>),
    Let(Vec<char>, Box<Tree>),
    Assign(Box<Tree>, Box<Tree>),
    If { expr: Box<Tree>, body: Vec<Tree>, els: Vec<Tree>, els_ifs: Vec<Tree> },
    ElsIf { expr: Box<Tree>, body: Vec<Tree> },
    While { expr: Box<Tree>, body: Vec<Tree> },
    For { var: Vec<char>, expr: Box<Tree>, body: Vec<Tree> },
    Fn { name: Vec<char>, args: Vec<Tree>, body: Rc<Vec<Tree>> },
    StructDef { name: Vec<char>, fields: Vec<Tree>, methods: Vec<Tree> },
    StructInit { name: Vec<char>, fields: Vec<(Vec<char>, Tree)> },
    Import { path: Box<Tree>, alias: Option<Vec<char>> },
}

} // verus!
