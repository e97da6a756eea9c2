//! The type checker: assigns a type to every node of the syntax tree.
use vstd::prelude::*;
use vstd::string::StrSliceExecFns;
use crate::ast::{Arg, Expr, Func, Type, Value};
use crate::builtins::{builtin_names, builtins};
use crate::typed::{
    get_type, view_boxed, view_exprs, FuncType, TExpr, TFunc, TValue, TypedExpr, TypedFunc,
    TypedValue,
};

verus! {

/// Why a program is rejected by the type checker.
#[allow(inconsistent_fields)]
#[derive(Debug, Clone, PartialEq)]
pub enum TypeError {
    UndefinedVariable(String),
    UndefinedFunction(String),
    ArgumentCountMismatch { function: String, expected: usize, found: usize },
    ArgumentTypeMismatch { function: String, position: usize, expected: Type, found: Type },
    /// The operands of a binary operation differ in type.
    TypeMismatch { lhs: Type, rhs: Type },
    NonBooleanCondition(Type),
    BranchTypeMismatch { then_type: Type, else_type: Type },
    IndexTargetNotArray(Type),
    IndexNotInteger(Type),
    EmptyArrayTypeInference,
    /// The upper bound of a counting loop is not an `Int`.
    LoopBoundNotInteger(Type),
}

/// Variable bindings of one function, oldest first; later ones shadow earlier ones.
pub type Scope = Seq<(String, Type)>;

/// Signature table, oldest first: name, parameter types, result type.
pub type Sigs = Seq<(Seq<char>, Seq<Type>, Type)>;

/// The type bound to `name`: that of its latest binding.
pub open spec fn lookup_var(scope: Scope, name: Seq<char>) -> Option<Type>
    decreases scope.len(),
{
    if scope.len() == 0 {
        None
    } else if scope.last().0@ == name {
        Some(scope.last().1)
    } else {
        lookup_var(scope.drop_last(), name)
    }
}

/// The signature registered last under `name`.
pub open spec fn lookup_sig(sigs: Sigs, name: Seq<char>) -> Option<(Seq<Type>, Type)>
    decreases sigs.len(),
{
    if sigs.len() == 0 {
        None
    } else if sigs.last().0 == name {
        Some((sigs.last().1, sigs.last().2))
    } else {
        lookup_sig(sigs.drop_last(), name)
    }
}

/// Puts the typed expressions `acc` in front of a successful result.
pub open spec fn prepend(acc: Seq<TExpr>, r: Result<(Seq<TExpr>, Scope), TypeError>) -> Result<(Seq<TExpr>, Scope), TypeError> {
    match r {
        Ok((ts, s)) => Ok((acc + ts, s)),
        Err(e) => Err(e),
    }
}

/// Type-checks `e` under the signatures `sigs` and the bindings `scope`: the
/// typed expression and the bindings after it, or the first error met, left to right.
pub open spec fn check_expr(sigs: Sigs, scope: Scope, e: Expr) -> Result<(TExpr, Scope), TypeError>
    decreases e,
{
    match e {
        Expr::Value(Value::Number(n)) => Ok((TExpr::Value(Type::Int, TValue::Number(n)), scope)),
        Expr::Value(Value::Bool(b)) => Ok((TExpr::Value(Type::Bool, TValue::Bool(b)), scope)),
        Expr::Value(Value::Array(elems)) => {
            if elems@.len() == 0 {
                Err(TypeError::EmptyArrayTypeInference)
            } else {
                match check_elems(sigs, scope, elems@) {
                    Ok((ts, s)) => Ok(
                        (TExpr::Value(Type::Array(Box::new(ts[0].ty())), TValue::Array(ts)), s),
                    ),
                    Err(err) => Err(err),
                }
            }
        },
        Expr::Ident(name) => match lookup_var(scope, name@) {
            Some(t) => Ok((TExpr::Ident(t, name), scope)),
            None => Err(TypeError::UndefinedVariable(name)),
        },
        Expr::Operation(lhs, op, rhs) => match check_expr(sigs, scope, *lhs) {
            Err(err) => Err(err),
            Ok((l, s1)) => match check_expr(sigs, s1, *rhs) {
                Err(err) => Err(err),
                Ok((r, s2)) => if l.ty() == r.ty() {
                    Ok((TExpr::Operation(l.ty(), Box::new(l), op, Box::new(r)), s2))
                } else {
                    Err(TypeError::TypeMismatch { lhs: l.ty(), rhs: r.ty() })
                },
            },
        },
        Expr::Def { ident, value } => match check_expr(sigs, scope, *value) {
            Err(err) => Err(err),
            Ok((v, s1)) => Ok(
                (TExpr::Def { ident, value: Box::new(v) }, s1.push((ident, v.ty()))),
            ),
        },
        Expr::Then { lhs, rhs } => match check_expr(sigs, scope, *lhs) {
            Err(err) => Err(err),
            Ok((l, s1)) => match check_expr(sigs, s1, *rhs) {
                Err(err) => Err(err),
                Ok((r, s2)) => Ok((TExpr::Then { lhs: Box::new(l), rhs: Box::new(r) }, s2)),
            },
        },
        Expr::FunctionCall(name, args) => match lookup_sig(sigs, name@) {
            None => Err(TypeError::UndefinedFunction(name)),
            Some((params, ret)) => if args@.len() != params.len() {
                Err(
                    TypeError::ArgumentCountMismatch {
                        function: name,
                        expected: params.len() as usize,
                        found: args@.len() as usize,
                    },
                )
            } else {
                match check_args(sigs, scope, name, params, args@, 0) {
                    Ok((ts, s)) => Ok((TExpr::FunctionCall(ret, name, ts), s)),
                    Err(err) => Err(err),
                }
            },
        },
        Expr::IfThen { condition, then, other } => match check_expr(sigs, scope, *condition) {
            Err(err) => Err(err),
            Ok((c, s1)) => if c.ty() != Type::Bool {
                Err(TypeError::NonBooleanCondition(c.ty()))
            } else {
                match check_expr(sigs, s1, *then) {
                    Err(err) => Err(err),
                    Ok((t, s2)) => match check_expr(sigs, s2, *other) {
                        Err(err) => Err(err),
                        Ok((o, s3)) => if t.ty() == o.ty() {
                            Ok(
                                (
                                    TExpr::IfThen {
                                        condition: Box::new(c),
                                        then: Box::new(t),
                                        other: Box::new(o),
                                    },
                                    s3,
                                ),
                            )
                        } else {
                            Err(TypeError::BranchTypeMismatch { then_type: t.ty(), else_type: o.ty() })
                        },
                    },
                }
            },
        },
        Expr::Index { target, index } => match check_expr(sigs, scope, *target) {
            Err(err) => Err(err),
            Ok((t, s1)) => match check_expr(sigs, s1, *index) {
                Err(err) => Err(err),
                Ok((i, s2)) => match t.ty() {
                    Type::Array(c) => if i.ty() == Type::Int {
                        Ok(
                            (
                                TExpr::Index {
                                    target: Box::new(t),
                                    index: Box::new(i),
                                    contained_type: *c,
                                },
                                s2,
                            ),
                        )
                    } else {
                        Err(TypeError::IndexNotInteger(i.ty()))
                    },
                    _ => Err(TypeError::IndexTargetNotArray(t.ty())),
                },
            },
        },
        Expr::Each { body, ident, target } => match check_expr(sigs, scope, *target) {
            Err(err) => Err(err),
            Ok((t, s1)) => if t.ty() != Type::Int {
                Err(TypeError::LoopBoundNotInteger(t.ty()))
            } else {
                match check_expr(sigs, s1.push((ident, Type::Int)), *body) {
                    Err(err) => Err(err),
                    Ok((b, s2)) => Ok(
                        (
                            TExpr::Each { body: Box::new(b), ident, target: Box::new(t) },
                            s2,
                        ),
                    ),
                }
            },
        },
    }
}

/// Type-checks array elements left to right, threading the bindings.
pub open spec fn check_elems(sigs: Sigs, scope: Scope, elems: Seq<Expr>) -> Result<(Seq<TExpr>, Scope), TypeError>
    decreases elems,
{
    if elems.len() == 0 {
        Ok((Seq::empty(), scope))
    } else {
        match check_expr(sigs, scope, elems[0]) {
            Err(err) => Err(err),
            Ok((t, s1)) => prepend(seq![t], check_elems(sigs, s1, elems.subrange(1, elems.len() as int))),
        }
    }
}

/// Type-checks call arguments left to right against the parameter types
/// `params`; `pos` is the position of the first of `args` in the call.
pub open spec fn check_args(
    sigs: Sigs,
    scope: Scope,
    name: String,
    params: Seq<Type>,
    args: Seq<Box<Expr>>,
    pos: nat,
) -> Result<(Seq<TExpr>, Scope), TypeError>
    decreases args,
{
    if args.len() == 0 {
        Ok((Seq::empty(), scope))
    } else {
        match check_expr(sigs, scope, *args[0]) {
            Err(err) => Err(err),
            Ok((t, s1)) => if t.ty() != params[0] {
                Err(
                    TypeError::ArgumentTypeMismatch {
                        function: name,
                        position: pos as usize,
                        expected: params[0],
                        found: t.ty(),
                    },
                )
            } else {
                prepend(
                    seq![t],
                    check_args(
                        sigs,
                        s1,
                        name,
                        params.subrange(1, params.len() as int),
                        args.subrange(1, args.len() as int),
                        pos + 1,
                    ),
                )
            },
        }
    }
}

/// The bindings a function body starts with: its parameters.
pub open spec fn param_scope(args: Seq<Arg>) -> Scope {
    args.map_values(|a: Arg| (a.name, a.arg_type))
}

/// The declared parameter types of a function.
pub open spec fn param_types(args: Seq<Arg>) -> Seq<Type> {
    args.map_values(|a: Arg| a.arg_type)
}

/// Type-checks one function: its result type is the type of its body.
pub open spec fn check_func(sigs: Sigs, f: Func) -> Result<TFunc, TypeError> {
    match check_expr(sigs, param_scope(f.args@), f.body) {
        Ok((b, _)) => Ok(
            TFunc { name: f.name, args: f.args@, params: param_types(f.args@), ret: b.ty(), body: b },
        ),
        Err(err) => Err(err),
    }
}

/// Type-checks functions in order, each one's signature visible to those after it.
pub open spec fn check_funcs(sigs: Sigs, fs: Seq<Func>) -> Result<(Seq<TFunc>, Sigs), TypeError>
    decreases fs.len(),
{
    if fs.len() == 0 {
        Ok((Seq::empty(), sigs))
    } else {
        match check_func(sigs, fs[0]) {
            Err(err) => Err(err),
            Ok(tf) => match check_funcs(
                sigs.push((tf.name@, tf.params, tf.ret)),
                fs.subrange(1, fs.len() as int),
            ) {
                Ok((tfs, s)) => Ok((seq![tf] + tfs, s)),
                Err(err) => Err(err),
            },
        }
    }
}

/// Model of a list of typed functions.
pub open spec fn view_funcs(s: Seq<TypedFunc>) -> Seq<TFunc> {
    s.map_values(|f: TypedFunc| f@)
}

/// Puts the typed functions `acc` in front of a successful result.
pub open spec fn prepend_funcs(acc: Seq<TFunc>, r: Result<(Seq<TFunc>, Sigs), TypeError>) -> Result<(Seq<TFunc>, Sigs), TypeError> {
    match r {
        Ok((tfs, s)) => Ok((acc + tfs, s)),
        Err(e) => Err(e),
    }
}

proof fn lemma_prepend_funcs_push(acc: Seq<TFunc>, tf: TFunc, r: Result<(Seq<TFunc>, Sigs), TypeError>)
    ensures
        prepend_funcs(acc, prepend_funcs(seq![tf], r)) == prepend_funcs(acc.push(tf), r),
{
    if let Ok((tfs, s)) = r {
        assert(acc + (seq![tf] + tfs) =~= acc.push(tf) + tfs);
    }
}

/// The type a type name denotes: `Int`, `Float`, `Bool`, or `Array<T>` for a
/// type name `T`.
pub open spec fn type_of_name(s: Seq<char>) -> Option<Type>
    decreases s.len(),
{
    if s == "Int"@ {
        Some(Type::Int)
    } else if s == "Float"@ {
        Some(Type::Float)
    } else if s == "Bool"@ {
        Some(Type::Bool)
    } else if s.len() >= 7 && s.subrange(0, 6) == "Array<"@ && s.last() == '>' {
        match type_of_name(s.subrange(6, s.len() - 1)) {
            Some(t) => Some(Type::Array(Box::new(t))),
            None => None,
        }
    } else {
        None
    }
}

/// The signatures of the builtin functions.
pub open spec fn builtin_sigs() -> Sigs {
    builtin_names().map_values(|n: Seq<char>| (n, seq![Type::Int], Type::Int))
}

/// Whether `r`, with the bindings `after`, is what the model `m` gives: the same
/// typed expression and bindings, or the same error.
pub open spec fn agrees(r: Result<TypedExpr, TypeError>, after: Scope, m: Result<(TExpr, Scope), TypeError>) -> bool {
    match m {
        Ok((t, s)) => r is Ok && r->Ok_0@ == t && after == s,
        Err(err) => r == Err::<TypedExpr, TypeError>(err),
    }
}

proof fn lemma_view_exprs_push(s: Seq<TypedExpr>, x: TypedExpr)
    ensures
        view_exprs(s.push(x)) == view_exprs(s).push(x@),
{
    assert(s.push(x).subrange(0, s.len() as int) =~= s);
}

proof fn lemma_view_boxed_push(s: Seq<Box<TypedExpr>>, x: Box<TypedExpr>)
    ensures
        view_boxed(s.push(x)) == view_boxed(s).push(x@),
{
    assert(s.push(x).subrange(0, s.len() as int) =~= s);
}

proof fn lemma_view_exprs_index(s: Seq<TypedExpr>)
    ensures
        view_exprs(s).len() == s.len(),
        forall|i: int| 0 <= i < s.len() ==> #[trigger] view_exprs(s)[i] == s[i]@,
    decreases s.len(),
{
    if s.len() > 0 {
        lemma_view_exprs_index(s.subrange(0, s.len() - 1));
    }
}

proof fn lemma_prepend_push(acc: Seq<TExpr>, t: TExpr, r: Result<(Seq<TExpr>, Scope), TypeError>)
    ensures
        prepend(acc, prepend(seq![t], r)) == prepend(acc.push(t), r),
{
    if let Ok((ts, s)) = r {
        assert(acc + (seq![t] + ts) =~= acc.push(t) + ts);
    }
}

/// The table of function signatures, grown by one entry per checked function.
pub struct TypeGenerator {
    functions: Vec<(String, FuncType)>,
}

/// Model of a signature table.
pub open spec fn sigs_of(v: Seq<(String, FuncType)>) -> Sigs {
    v.map_values(|p: (String, FuncType)| (p.0@, p.1.args@, p.1.ret))
}

impl TypeGenerator {
    pub closed spec fn view(&self) -> Sigs {
        sigs_of(self.functions@)
    }

    /// A table holding the builtin signatures.
    pub fn new() -> (r: Self)
        ensures
            r@ == builtin_sigs(),
    {
        let names = builtins();
        let mut functions: Vec<(String, FuncType)> = Vec::new();
        let mut i: usize = 0;
        while i < names.len()
            invariant
                i <= names@.len(),
                names@.len() == builtin_names().len(),
                forall|j: int| 0 <= j < names@.len() ==> #[trigger] names@[j]@ == builtin_names()[j],
                functions@.len() == i,
                sigs_of(functions@) == builtin_sigs().subrange(0, i as int),
            decreases names.len() - i,
        {
            let mut params: Vec<Type> = Vec::new();
            params.push(Type::Int);
            functions.push((names[i].clone(), FuncType { args: params, ret: Type::Int }));
            assert(params@ =~= seq![Type::Int]);
            assert(names@[i as int]@ == builtin_names()[i as int]);
            assert(sigs_of(functions@)[i as int] == builtin_sigs()[i as int]);
            assert(sigs_of(functions@) =~= builtin_sigs().subrange(0, i + 1));
            i = i + 1;
        }
        assert(builtin_sigs().subrange(0, i as int) =~= builtin_sigs());
        TypeGenerator { functions }
    }

    /// The position in the table of the signature registered last under `name`.
    fn find_function(&self, name: &String) -> (r: Option<usize>)
        ensures
            match r {
                Some(k) => k < self.functions@.len() && lookup_sig(self@, name@) == Some(
                    (self.functions@[k as int].1.args@, self.functions@[k as int].1.ret),
                ),
                None => lookup_sig(self@, name@) is None,
            },
    {
        let mut i: usize = self.functions.len();
        assert(self@.subrange(0, i as int) =~= self@);
        while i > 0
            invariant
                i <= self.functions@.len(),
                lookup_sig(self@, name@) == lookup_sig(self@.subrange(0, i as int), name@),
            decreases i,
        {
            i = i - 1;
            assert(self@.subrange(0, i + 1).drop_last() =~= self@.subrange(0, i as int));
            if self.functions[i].0 == *name {
                return Some(i);
            }
        }
        None
    }

    /// Checks each function in order, registering each one's signature once
    /// it has been checked, so that the functions after it can call it.
    pub fn generate_types(&mut self, funcs: Vec<Func>) -> (r: Result<Vec<TypedFunc>, TypeError>)
        ensures
            match check_funcs(old(self)@, funcs@) {
                Ok((tfs, sigs)) => r is Ok && view_funcs(r->Ok_0@) == tfs && final(self)@ == sigs,
                Err(err) => r == Err::<Vec<TypedFunc>, TypeError>(err),
            },
            r is Ok ==> forall|i: int|
                0 <= i < r->Ok_0@.len() ==> (#[trigger] r->Ok_0@[i]).func_type.ret == r->Ok_0@[i].body@.ty(),
    {
        let ghost all = funcs@;
        let n = funcs.len();
        let mut pending = funcs;
        let mut out: Vec<TypedFunc> = Vec::new();
        let mut i: usize = 0;
        assert(all.subrange(0, n as int) =~= all);
        while i < n
            invariant
                n == all.len(),
                i <= n,
                pending@ == all.subrange(i as int, n as int),
                prepend_funcs(view_funcs(out@), check_funcs(self@, pending@)) == check_funcs(old(self)@, all),
                all == funcs@,
                forall|j: int| 0 <= j < out@.len() ==> (#[trigger] out@[j]).func_type.ret == out@[j].body@.ty(),
            decreases n - i,
        {
            assert(pending@.subrange(1, pending@.len() as int) =~= pending@.remove(0));
            let ghost fs = pending@;
            let f = pending.remove(0);
            assert(f == fs[0]);
            let tf = match self.generate_function_type(f) {
                Ok(tf) => tf,
                Err(err) => {
                    assert(check_funcs(self@, fs) == Err::<(Seq<TFunc>, Sigs), TypeError>(err));
                    return Err(err);
                },
            };
            let ghost before = self@;
            self.functions.push((tf.name.clone(), FuncType { args: copy_types(&tf.func_type.args), ret: tf.func_type.ret.duplicate() }));
            assert(self@ =~= before.push((tf@.name@, tf@.params, tf@.ret)));
            proof {
                lemma_prepend_funcs_push(view_funcs(out@), tf@, check_funcs(self@, pending@));
                assert(view_funcs(out@.push(tf)) =~= view_funcs(out@).push(tf@));
            }
            out.push(tf);
            i = i + 1;
        }
        assert(view_funcs(out@) + Seq::empty() =~= view_funcs(out@));
        Ok(out)
    }

    /// Checks one function against the current table, leaving the table as it is.
    fn generate_function_type(&self, func: Func) -> (r: Result<TypedFunc, TypeError>)
        ensures
            match check_func(self@, func) {
                Ok(tf) => r is Ok && r->Ok_0@ == tf,
                Err(err) => r == Err::<TypedFunc, TypeError>(err),
            },
    {
        let Func { name, args, body } = func;
        let mut scope: Vec<(String, Type)> = Vec::new();
        let mut params: Vec<Type> = Vec::new();
        let mut j: usize = 0;
        while j < args.len()
            invariant
                j <= args@.len(),
                scope@ == param_scope(args@.subrange(0, j as int)),
                params@ == param_types(args@.subrange(0, j as int)),
            decreases args.len() - j,
        {
            scope.push((args[j].name.clone(), args[j].arg_type.duplicate()));
            params.push(args[j].arg_type.duplicate());
            assert(scope@ =~= param_scope(args@.subrange(0, j + 1)));
            assert(params@ =~= param_types(args@.subrange(0, j + 1)));
            j = j + 1;
        }
        assert(args@.subrange(0, j as int) =~= args@);
        let b = match self.expression_type(&body, &mut scope) {
            Ok(b) => b,
            Err(err) => return Err(err),
        };
        let ret = get_type(&b);
        Ok(TypedFunc { name, args, func_type: FuncType { args: params, ret }, body: b })
    }

    /// Checks `e` under the bindings `scope`, adding the bindings that it makes.
    fn expression_type(&self, e: &Expr, scope: &mut Vec<(String, Type)>) -> (r: Result<TypedExpr, TypeError>)
        ensures
            agrees(r, final(scope)@, check_expr(self@, old(scope)@, *e)),
        decreases e,
    {
        match e {
            Expr::Value(value) => self.type_value(value, scope),
            Expr::Ident(name) => match lookup_variable(scope, name) {
                Some(t) => Ok(TypedExpr::Ident(t, name.clone())),
                None => Err(TypeError::UndefinedVariable(name.clone())),
            },
            Expr::Operation(lhs, op, rhs) => {
                let l = match self.expression_type(lhs, scope) {
                    Ok(t) => t,
                    Err(err) => return Err(err),
                };
                let r = match self.expression_type(rhs, scope) {
                    Ok(t) => t,
                    Err(err) => return Err(err),
                };
                match force_identical(&l, &r) {
                    Ok(t) => Ok(TypedExpr::Operation(t, Box::new(l), *op, Box::new(r))),
                    Err(err) => Err(err),
                }
            },
            Expr::Def { ident, value } => {
                let v = match self.expression_type(value, scope) {
                    Ok(t) => t,
                    Err(err) => return Err(err),
                };
                scope.push((ident.clone(), get_type(&v)));
                Ok(TypedExpr::Def { ident: ident.clone(), value: Box::new(v) })
            },
            Expr::Then { lhs, rhs } => {
                let l = match self.expression_type(lhs, scope) {
                    Ok(t) => t,
                    Err(err) => return Err(err),
                };
                let r = match self.expression_type(rhs, scope) {
                    Ok(t) => t,
                    Err(err) => return Err(err),
                };
                Ok(TypedExpr::Then { lhs: Box::new(l), rhs: Box::new(r) })
            },
            Expr::FunctionCall(name, args) => {
                let k = match self.find_function(name) {
                    Some(k) => k,
                    None => return Err(TypeError::UndefinedFunction(name.clone())),
                };
                let params = &self.functions[k].1.args;
                if args.len() != params.len() {
                    return Err(
                        TypeError::ArgumentCountMismatch {
                            function: name.clone(),
                            expected: params.len(),
                            found: args.len(),
                        },
                    );
                }
                let ghost s0 = scope@;
                let n = args.len();
                let mut acc: Vec<Box<TypedExpr>> = Vec::new();
                let mut i: usize = 0;
                assert(args@.subrange(0, n as int) =~= args@);
                assert(params@.subrange(0, n as int) =~= params@);
                while i < n
                    invariant
                        *e == Expr::FunctionCall(*name, *args),
                        s0 == old(scope)@,
                        k < self.functions@.len(),
                        *params == self.functions@[k as int].1.args,
                        lookup_sig(self@, name@) == Some((params@, self.functions@[k as int].1.ret)),
                        n == args@.len(),
                        n == params@.len(),
                        i <= n,
                        check_args(self@, s0, *name, params@, args@, 0) == prepend(
                            view_boxed(acc@),
                            check_args(
                                self@,
                                scope@,
                                *name,
                                params@.subrange(i as int, n as int),
                                args@.subrange(i as int, n as int),
                                i as nat,
                            ),
                        ),
                    decreases n - i,
                {
                    assert(args@.subrange(i as int, n as int).subrange(1, n - i) =~= args@.subrange(
                        i + 1,
                        n as int,
                    ));
                    assert(params@.subrange(i as int, n as int).subrange(1, n - i) =~= params@.subrange(
                        i + 1,
                        n as int,
                    ));
                    proof {
                        assert(decreases_to!(*e => e->FunctionCall_1));
                        assert(decreases_to!(*args => args@));
                        assert(decreases_to!(args@ => args@[i as int]));
                    }
                    let ghost si = scope@;
                    let t = match self.expression_type(&args[i], scope) {
                        Ok(t) => t,
                        Err(err) => {
                            assert(check_args(
                                self@,
                                si,
                                *name,
                                params@.subrange(i as int, n as int),
                                args@.subrange(i as int, n as int),
                                i as nat,
                            ) is Err);
                            return Err(err);
                        },
                    };
                    let ty = get_type(&t);
                    if !ty.same_as(&params[i]) {
                        return Err(
                            TypeError::ArgumentTypeMismatch {
                                function: name.clone(),
                                position: i,
                                expected: params[i].duplicate(),
                                found: ty,
                            },
                        );
                    }
                    let bt = Box::new(t);
                    proof {
                        lemma_view_boxed_push(acc@, bt);
                        lemma_prepend_push(
                            view_boxed(acc@),
                            bt@,
                            check_args(
                                self@,
                                scope@,
                                *name,
                                params@.subrange(i + 1, n as int),
                                args@.subrange(i + 1, n as int),
                                (i + 1) as nat,
                            ),
                        );
                    }
                    acc.push(bt);
                    i = i + 1;
                }
                assert(view_boxed(acc@) + Seq::empty() =~= view_boxed(acc@));
                Ok(TypedExpr::FunctionCall(self.functions[k].1.ret.duplicate(), name.clone(), acc))
            },
            Expr::IfThen { condition, then, other } => {
                let c = match self.expression_type(condition, scope) {
                    Ok(t) => t,
                    Err(err) => return Err(err),
                };
                let ct = get_type(&c);
                if !ct.same_as(&Type::Bool) {
                    return Err(TypeError::NonBooleanCondition(ct));
                }
                let t = match self.expression_type(then, scope) {
                    Ok(t) => t,
                    Err(err) => return Err(err),
                };
                let o = match self.expression_type(other, scope) {
                    Ok(t) => t,
                    Err(err) => return Err(err),
                };
                let tt = get_type(&t);
                let ot = get_type(&o);
                if !tt.same_as(&ot) {
                    return Err(TypeError::BranchTypeMismatch { then_type: tt, else_type: ot });
                }
                Ok(TypedExpr::IfThen { condition: Box::new(c), then: Box::new(t), other: Box::new(o) })
            },
            Expr::Index { target, index } => {
                let t = match self.expression_type(target, scope) {
                    Ok(t) => t,
                    Err(err) => return Err(err),
                };
                let i = match self.expression_type(index, scope) {
                    Ok(t) => t,
                    Err(err) => return Err(err),
                };
                let tt = get_type(&t);
                let it = get_type(&i);
                match tt {
                    Type::Array(c) => {
                        if it.same_as(&Type::Int) {
                            Ok(TypedExpr::Index { target: Box::new(t), index: Box::new(i), contained_type: *c })
                        } else {
                            Err(TypeError::IndexNotInteger(it))
                        }
                    },
                    _ => Err(TypeError::IndexTargetNotArray(tt)),
                }
            },
            Expr::Each { body, ident, target } => {
                let t = match self.expression_type(target, scope) {
                    Ok(t) => t,
                    Err(err) => return Err(err),
                };
                let tt = get_type(&t);
                if !tt.same_as(&Type::Int) {
                    return Err(TypeError::LoopBoundNotInteger(tt));
                }
                scope.push((ident.clone(), Type::Int));
                let b = match self.expression_type(body, scope) {
                    Ok(t) => t,
                    Err(err) => return Err(err),
                };
                Ok(TypedExpr::Each { body: Box::new(b), ident: ident.clone(), target: Box::new(t) })
            },
        }
    }

    /// Checks a literal under the bindings `scope`.
    fn type_value(&self, value: &Value, scope: &mut Vec<(String, Type)>) -> (r: Result<TypedExpr, TypeError>)
        ensures
            agrees(r, final(scope)@, check_expr(self@, old(scope)@, Expr::Value(*value))),
        decreases value,
    {
        match value {
            Value::Number(n) => Ok(TypedExpr::Value(Type::Int, TypedValue::Number(*n))),
            Value::Bool(b) => Ok(TypedExpr::Value(Type::Bool, TypedValue::Bool(*b))),
            Value::Array(elems) => {
                if elems.len() == 0 {
                    return Err(TypeError::EmptyArrayTypeInference);
                }
                let ghost s0 = scope@;
                let n = elems.len();
                let mut acc: Vec<TypedExpr> = Vec::new();
                let mut i: usize = 0;
                assert(elems@.subrange(0, n as int) =~= elems@);
                while i < n
                    invariant
                        *value == Value::Array(*elems),
                        s0 == old(scope)@,
                        n == elems@.len(),
                        i <= n,
                        check_elems(self@, s0, elems@) == prepend(
                            view_exprs(acc@),
                            check_elems(self@, scope@, elems@.subrange(i as int, n as int)),
                        ),
                    decreases n - i,
                {
                    assert(elems@.subrange(i as int, n as int).subrange(1, n - i) =~= elems@.subrange(
                        i + 1,
                        n as int,
                    ));
                    proof {
                        assert(decreases_to!(*value => value->Array_0));
                        assert(decreases_to!(*elems => elems@));
                        assert(decreases_to!(elems@ => elems@[i as int]));
                    }
                    let t = match self.expression_type(&elems[i], scope) {
                        Ok(t) => t,
                        Err(err) => return Err(err),
                    };
                    proof {
                        lemma_view_exprs_push(acc@, t);
                        lemma_prepend_push(
                            view_exprs(acc@),
                            t@,
                            check_elems(self@, scope@, elems@.subrange(i + 1, n as int)),
                        );
                    }
                    acc.push(t);
                    i = i + 1;
                }
                assert(view_exprs(acc@) + Seq::empty() =~= view_exprs(acc@));
                proof {
                    lemma_view_exprs_index(acc@);
                }
                let ty = get_type(&acc[0]);
                Ok(TypedExpr::Value(Type::Array(Box::new(ty)), TypedValue::Array(acc)))
            },
        }
    }
}

/// The type named by `written`, if it names one.
pub fn string_to_type(written: &str) -> (r: Option<Type>)
    ensures
        r == type_of_name(written@),
    decreases written@.len(),
{
    let name = written.to_owned();
    if name == "Int".to_owned() {
        return Some(Type::Int);
    }
    if name == "Float".to_owned() {
        return Some(Type::Float);
    }
    if name == "Bool".to_owned() {
        return Some(Type::Bool);
    }
    let n = written.unicode_len();
    if n >= 7 && written.substring_char(0, 6).to_owned() == "Array<".to_owned() && written.get_char(n - 1) == '>' {
        match string_to_type(written.substring_char(6, n - 1)) {
            Some(t) => Some(Type::Array(Box::new(t))),
            None => None,
        }
    } else {
        None
    }
}

/// A copy of a list of types.
fn copy_types(v: &Vec<Type>) -> (r: Vec<Type>)
    ensures
        r@ == v@,
{
    let mut r: Vec<Type> = Vec::new();
    let mut i: usize = 0;
    while i < v.len()
        invariant
            i <= v@.len(),
            r@ == v@.subrange(0, i as int),
        decreases v.len() - i,
    {
        r.push(v[i].duplicate());
        assert(r@ =~= v@.subrange(0, i + 1));
        i = i + 1;
    }
    assert(v@.subrange(0, i as int) =~= v@);
    r
}

/// The type shared by two operands, or the mismatch between them.
fn force_identical(lhs: &TypedExpr, rhs: &TypedExpr) -> (r: Result<Type, TypeError>)
    ensures
        lhs@.ty() == rhs@.ty() ==> r == Ok::<Type, TypeError>(lhs@.ty()),
        lhs@.ty() != rhs@.ty() ==> r == Err::<Type, TypeError>(
            TypeError::TypeMismatch { lhs: lhs@.ty(), rhs: rhs@.ty() },
        ),
{
    let l = get_type(lhs);
    let r = get_type(rhs);
    if l.same_as(&r) {
        Ok(l)
    } else {
        Err(TypeError::TypeMismatch { lhs: l, rhs: r })
    }
}

/// The type bound to `name` in `scope`: that of its latest binding.
fn lookup_variable(scope: &Vec<(String, Type)>, name: &String) -> (r: Option<Type>)
    ensures
        r == lookup_var(scope@, name@),
{
    let mut i: usize = scope.len();
    assert(scope@.subrange(0, i as int) =~= scope@);
    while i > 0
        invariant
            i <= scope@.len(),
            lookup_var(scope@, name@) == lookup_var(scope@.subrange(0, i as int), name@),
        decreases i,
    {
        i = i - 1;
        assert(scope@.subrange(0, i + 1).drop_last() =~= scope@.subrange(0, i as int));
        if scope[i].0 == *name {
            return Some(scope[i].1.duplicate());
        }
    }
    None
}

} // verus!
