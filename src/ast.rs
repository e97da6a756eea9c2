//! The untyped syntax tree handed over by the parser.
use vstd::prelude::*;

verus! {

/// The types of the language; compared structurally.
#[derive(Debug, PartialEq, Eq)]
pub enum Type {
    Int,
    Float,
    Bool,
    Array(Box<Type>),
}

impl Type {
    /// A copy of this type, equal to it.
    pub fn duplicate(&self) -> (r: Type)
        ensures
            r == *self,
        decreases self,
    {
        match self {
            Type::Int => Type::Int,
            Type::Float => Type::Float,
            Type::Bool => Type::Bool,
            Type::Array(inner) => Type::Array(Box::new(inner.duplicate())),
        }
    }

    /// Structural equality of two types.
    pub fn same_as(&self, other: &Type) -> (r: bool)
        ensures
            r == (*self == *other),
        decreases self,
    {
        match (self, other) {
            (Type::Int, Type::Int) => true,
            (Type::Float, Type::Float) => true,
            (Type::Bool, Type::Bool) => true,
            (Type::Array(a), Type::Array(b)) => a.same_as(b),
            _ => false,
        }
    }
}

impl Clone for Type {
    fn clone(&self) -> Self {
        self.duplicate()
    }
}

/// Binary operators: arithmetic and comparisons.
#[derive(Debug, Clone, Copy, PartialEq, Eq)]
pub enum Op {
    Add,
    Sub,
    Mul,
    Div,
    Ge,
    Le,
    Gt,
    Lt,
    Eq,
    Neq,
}

/// Literal values.
#[derive(Debug, PartialEq)]
pub enum Value {
    Number(i32),
    Bool(bool),
    Array(Vec<Expr>),
}

/// Untyped expressions.
#[derive(Debug, PartialEq)]
pub enum Expr {
    Value(Value),
    Ident(String),
    Operation(Box<Expr>, Op, Box<Expr>),
    Def { ident: String, value: Box<Expr> },
    Then { lhs: Box<Expr>, rhs: Box<Expr> },
    FunctionCall(String, Vec<Box<Expr>>),
    IfThen { condition: Box<Expr>, then: Box<Expr>, other: Box<Expr> },
    Index { target: Box<Expr>, index: Box<Expr> },
    /// Counts `ident` from 1 up to `target` inclusive, evaluating `body` each time.
    Each { body: Box<Expr>, ident: String, target: Box<Expr> },
}

/// A declared parameter of a function.
#[derive(Debug, Clone, PartialEq)]
pub struct Arg {
    pub name: String,
    pub arg_type: Type,
}

impl Arg {
    /// A copy of this parameter, equal to it.
    pub fn duplicate(&self) -> (r: Arg)
        ensures
            r == *self,
    {
        Arg { name: self.name.clone(), arg_type: self.arg_type.duplicate() }
    }
}

/// A function as parsed: its return type is not declared but derived from its body.
#[derive(Debug, PartialEq)]
pub struct Func {
    pub name: String,
    pub args: Vec<Arg>,
    pub body: Expr,
}

} // verus!
