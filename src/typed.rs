//! The type-annotated syntax tree, and its mathematical model.
use vstd::prelude::*;
use crate::ast::{Arg, Op, Type};

verus! {

/// Literal values whose array elements carry their types.
#[derive(Debug, PartialEq)]
pub enum TypedValue {
    Number(i32),
    Bool(bool),
    Array(Vec<TypedExpr>),
}

/// Expressions in which every node carries its resolved type.
#[derive(Debug, PartialEq)]
pub enum TypedExpr {
    Value(Type, TypedValue),
    Ident(Type, String),
    Operation(Type, Box<TypedExpr>, Op, Box<TypedExpr>),
    Def { ident: String, value: Box<TypedExpr> },
    Then { lhs: Box<TypedExpr>, rhs: Box<TypedExpr> },
    FunctionCall(Type, String, Vec<Box<TypedExpr>>),
    IfThen { condition: Box<TypedExpr>, then: Box<TypedExpr>, other: Box<TypedExpr> },
    Index { target: Box<TypedExpr>, index: Box<TypedExpr>, contained_type: Type },
    /// The number of elements of an array.
    Len(Box<TypedExpr>),
    /// Counts `ident` from 1 up to `target` inclusive; yields zero.
    Each { body: Box<TypedExpr>, ident: String, target: Box<TypedExpr> },
}

/// A function signature: parameter types in order and the result type.
#[derive(Debug, Clone, PartialEq)]
pub struct FuncType {
    pub args: Vec<Type>,
    pub ret: Type,
}

/// A type-checked function; `func_type.ret` is the type of `body`.
#[derive(Debug, PartialEq)]
pub struct TypedFunc {
    pub name: String,
    pub args: Vec<Arg>,
    pub func_type: FuncType,
    pub body: TypedExpr,
}

/// Model of a typed literal: sequences in place of vectors.
pub enum TValue {
    Number(i32),
    Bool(bool),
    Array(Seq<TExpr>),
}

/// Model of a typed expression: sequences in place of vectors.
pub enum TExpr {
    Value(Type, TValue),
    Ident(Type, String),
    Operation(Type, Box<TExpr>, Op, Box<TExpr>),
    Def { ident: String, value: Box<TExpr> },
    Then { lhs: Box<TExpr>, rhs: Box<TExpr> },
    FunctionCall(Type, String, Seq<TExpr>),
    IfThen { condition: Box<TExpr>, then: Box<TExpr>, other: Box<TExpr> },
    Index { target: Box<TExpr>, index: Box<TExpr>, contained_type: Type },
    Len(Box<TExpr>),
    Each { body: Box<TExpr>, ident: String, target: Box<TExpr> },
}

/// Model of a typed function.
pub struct TFunc {
    pub name: String,
    pub args: Seq<Arg>,
    pub params: Seq<Type>,
    pub ret: Type,
    pub body: TExpr,
}

impl TExpr {
    /// The type of an expression: the annotation of its node, or for nodes that
    /// carry none, the type of the sub-expression whose value they yield.
    pub open spec fn ty(self) -> Type
        decreases self,
    {
        match self {
            TExpr::Value(t, _) => t,
            TExpr::Ident(t, _) => t,
            TExpr::Operation(t, _, _, _) => t,
            TExpr::Def { value, .. } => value.ty(),
            TExpr::Then { rhs, .. } => rhs.ty(),
            TExpr::FunctionCall(t, _, _) => t,
            TExpr::IfThen { then, .. } => then.ty(),
            TExpr::Index { contained_type, .. } => contained_type,
            TExpr::Len(_) => Type::Int,
            TExpr::Each { .. } => Type::Int,
        }
    }
}

/// Model of a sequence of typed expressions.
pub open spec fn view_exprs(s: Seq<TypedExpr>) -> Seq<TExpr>
    decreases s,
{
    if s.len() == 0 {
        Seq::empty()
    } else {
        view_exprs(s.subrange(0, s.len() - 1)).push(s[s.len() - 1].view())
    }
}

/// Model of a sequence of boxed typed expressions.
pub open spec fn view_boxed(s: Seq<Box<TypedExpr>>) -> Seq<TExpr>
    decreases s,
{
    if s.len() == 0 {
        Seq::empty()
    } else {
        view_boxed(s.subrange(0, s.len() - 1)).push(s[s.len() - 1].view())
    }
}

impl TypedExpr {
    pub open spec fn view(&self) -> TExpr
        decreases self,
    {
        match self {
            TypedExpr::Value(t, TypedValue::Number(n)) => TExpr::Value(*t, TValue::Number(*n)),
            TypedExpr::Value(t, TypedValue::Bool(b)) => TExpr::Value(*t, TValue::Bool(*b)),
            TypedExpr::Value(t, TypedValue::Array(v)) => TExpr::Value(
                *t,
                TValue::Array(view_exprs(v@)),
            ),
            TypedExpr::Ident(t, s) => TExpr::Ident(*t, *s),
            TypedExpr::Operation(t, l, op, r) => TExpr::Operation(
                *t,
                Box::new(l.view()),
                *op,
                Box::new(r.view()),
            ),
            TypedExpr::Def { ident, value } => TExpr::Def {
                ident: *ident,
                value: Box::new(value.view()),
            },
            TypedExpr::Then { lhs, rhs } => TExpr::Then {
                lhs: Box::new(lhs.view()),
                rhs: Box::new(rhs.view()),
            },
            TypedExpr::FunctionCall(t, name, args) => TExpr::FunctionCall(
                *t,
                *name,
                view_boxed(args@),
            ),
            TypedExpr::IfThen { condition, then, other } => TExpr::IfThen {
                condition: Box::new(condition.view()),
                then: Box::new(then.view()),
                other: Box::new(other.view()),
            },
            TypedExpr::Index { target, index, contained_type } => TExpr::Index {
                target: Box::new(target.view()),
                index: Box::new(index.view()),
                contained_type: *contained_type,
            },
            TypedExpr::Len(a) => TExpr::Len(Box::new(a.view())),
            TypedExpr::Each { body, ident, target } => TExpr::Each {
                body: Box::new(body.view()),
                ident: *ident,
                target: Box::new(target.view()),
            },
        }
    }
}

impl TypedFunc {
    pub open spec fn view(&self) -> TFunc {
        TFunc {
            name: self.name,
            args: self.args@,
            params: self.func_type.args@,
            ret: self.func_type.ret,
            body: self.body@,
        }
    }
}

/// The type of a typed expression.
pub fn get_type(expr: &TypedExpr) -> (r: Type)
    ensures
        r == expr@.ty(),
    decreases expr,
{
    match expr {
        TypedExpr::Value(t, _) => t.duplicate(),
        TypedExpr::Ident(t, _) => t.duplicate(),
        TypedExpr::Operation(t, _, _, _) => t.duplicate(),
        TypedExpr::Def { value, .. } => get_type(value),
        TypedExpr::Then { rhs, .. } => get_type(rhs),
        TypedExpr::FunctionCall(t, _, _) => t.duplicate(),
        TypedExpr::IfThen { then, .. } => get_type(then),
        TypedExpr::Index { contained_type, .. } => contained_type.duplicate(),
        TypedExpr::Len(_) => Type::Int,
        TypedExpr::Each { .. } => Type::Int,
    }
}

/// The type of a typed literal: `None` for an empty array, whose element type
/// cannot be inferred.
pub fn value_type(value: &TypedValue) -> (r: Option<Type>)
    ensures
        match value {
            TypedValue::Number(_) => r == Some(Type::Int),
            TypedValue::Bool(_) => r == Some(Type::Bool),
            TypedValue::Array(v) => if v@.len() == 0 {
                r is None
            } else {
                r == Some(Type::Array(Box::new(v@[0]@.ty())))
            },
        },
{
    match value {
        TypedValue::Number(_) => Some(Type::Int),
        TypedValue::Bool(_) => Some(Type::Bool),
        TypedValue::Array(v) => {
            if v.len() == 0 {
                None
            } else {
                Some(Type::Array(Box::new(get_type(&v[0]))))
            }
        },
    }
}

} // verus!
