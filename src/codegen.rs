//! Lowering of type-checked functions into backend instructions.
use vstd::prelude::*;
use vstd::pervasive::unreached;
use crate::ast::{Arg, Op};
use crate::builtins::{builtin_names, builtins};
use crate::ir::{view_insts, ArithOp, Cond, FunctionIr, FunctionModel, Inst, InstModel, Instr};
use crate::typed::{TypedExpr, TypedFunc, TypedValue};
use crate::sealing::{lemma_lowered_function_sealing, sealing_ok};
use crate::wellformed::{lemma_lowered_function_well_formed, well_formed};

verus! {

/// Why lowering stopped.
#[derive(Debug, Clone, PartialEq)]
pub enum CodegenError {
    UnknownFunctionReference(String),
    UndefinedVariableReference(String),
}

/// Size of a native word in bytes.
pub const WORD_BYTES: i64 = 8;

/// State of the lowering of one function: the instructions emitted so far and
/// the variable bound to each name, oldest first.
pub struct LState {
    pub insts: Seq<InstModel>,
    pub vars: Seq<(Seq<char>, usize)>,
}

/// The name that the next instruction gets: its position.
pub open spec fn next(st: LState) -> usize {
    st.insts.len() as usize
}

/// `st` with the instruction `i` appended.
pub open spec fn emit(st: LState, i: InstModel) -> LState {
    LState { insts: st.insts.push(i), vars: st.vars }
}

/// `st` with `name` bound to the variable `var`.
pub open spec fn bind(st: LState, name: Seq<char>, var: usize) -> LState {
    LState { insts: st.insts, vars: st.vars.push((name, var)) }
}

/// The variable bound last to `name`.
pub open spec fn lookup_slot(vars: Seq<(Seq<char>, usize)>, name: Seq<char>) -> Option<usize>
    decreases vars.len(),
{
    if vars.len() == 0 {
        None
    } else if vars.last().0 == name {
        Some(vars.last().1)
    } else {
        lookup_slot(vars.drop_last(), name)
    }
}

/// The id of the function registered last under `name`: its position in `funcs`.
pub open spec fn lookup_func(funcs: Seq<Seq<char>>, name: Seq<char>) -> Option<usize>
    decreases funcs.len(),
{
    if funcs.len() == 0 {
        None
    } else if funcs.last() == name {
        Some((funcs.len() - 1) as usize)
    } else {
        lookup_func(funcs.drop_last(), name)
    }
}

/// The arithmetic instruction of an arithmetic operator.
pub open spec fn arith_of(op: Op) -> Option<ArithOp> {
    match op {
        Op::Add => Some(ArithOp::Add),
        Op::Sub => Some(ArithOp::Sub),
        Op::Mul => Some(ArithOp::Mul),
        Op::Div => Some(ArithOp::SDiv),
        _ => None,
    }
}

/// The comparison of a comparison operator.
pub open spec fn cond_of(op: Op) -> Cond {
    match op {
        Op::Ge => Cond::SignedGe,
        Op::Le => Cond::SignedLe,
        Op::Gt => Cond::SignedGt,
        Op::Lt => Cond::SignedLt,
        Op::Eq => Cond::Equal,
        _ => Cond::NotEqual,
    }
}

/// A comparison: a one-bit result, sign-extended to a word.
pub open spec fn lower_comparison(st: LState, op: Op, lhs: usize, rhs: usize) -> (LState, usize) {
    let c = next(st);
    let st1 = emit(st, Instr::Icmp { dst: c, cond: cond_of(op), lhs, rhs });
    let d = next(st1);
    (emit(st1, Instr::Sextend { dst: d, src: c }), d)
}

/// Lowers `e`, calling functions by their ids in `funcs`: the state after it
/// and the value it yields, or the first unresolved name.
pub open spec fn lower(funcs: Seq<Seq<char>>, st: LState, e: TypedExpr) -> Result<(LState, usize), CodegenError>
    decreases e, 2nat,
{
    match e {
        TypedExpr::Value(_, TypedValue::Number(x)) => {
            let d = next(st);
            Ok((emit(st, Instr::Iconst { dst: d, imm: x as i64 }), d))
        },
        TypedExpr::Value(_, TypedValue::Bool(b)) => {
            let d = next(st);
            Ok((emit(st, Instr::Iconst { dst: d, imm: if b { -1i64 } else { 0i64 } }), d))
        },
        TypedExpr::Value(_, TypedValue::Array(elems)) => match lower_array(funcs, st, elems@) {
            Ok((st1, slot)) => {
                let d = next(st1);
                Ok((emit(st1, Instr::StackAddr { dst: d, slot }), d))
            },
            Err(err) => Err(err),
        },
        TypedExpr::Ident(_, name) => match lookup_slot(st.vars, name@) {
            Some(var) => {
                let d = next(st);
                Ok((emit(st, Instr::UseVar { dst: d, var }), d))
            },
            None => Err(CodegenError::UndefinedVariableReference(name)),
        },
        TypedExpr::Operation(_, lhs, op, rhs) => match lower(funcs, st, *lhs) {
            Err(err) => Err(err),
            Ok((st1, a)) => match lower(funcs, st1, *rhs) {
                Err(err) => Err(err),
                Ok((st2, b)) => match arith_of(op) {
                    Some(k) => {
                        let d = next(st2);
                        Ok((emit(st2, Instr::Arith { dst: d, op: k, lhs: a, rhs: b }), d))
                    },
                    None => Ok(lower_comparison(st2, op, a, b)),
                },
            },
        },
        TypedExpr::Def { ident, value } => match lower(funcs, st, *value) {
            Err(err) => Err(err),
            Ok((st1, v)) => {
                let var = next(st1);
                let st2 = emit(st1, Instr::DeclareVar { var });
                let st3 = emit(st2, Instr::DefVar { var, src: v });
                Ok((bind(st3, ident@, var), v))
            },
        },
        TypedExpr::Then { lhs, rhs } => match lower(funcs, st, *lhs) {
            Err(err) => Err(err),
            Ok((st1, _)) => lower(funcs, st1, *rhs),
        },
        TypedExpr::FunctionCall(_, name, args) => match lookup_func(funcs, name@) {
            None => Err(CodegenError::UnknownFunctionReference(name)),
            Some(f) => match lower_args(funcs, st, args@) {
                Err(err) => Err(err),
                Ok((st1, vals)) => {
                    let d = next(st1);
                    Ok((emit(st1, Instr::Call { dst: d, func: f, args: vals }), d))
                },
            },
        },
        TypedExpr::IfThen { condition, then, other } => match lower(funcs, st, *condition) {
            Err(err) => Err(err),
            Ok((st1, c)) => {
                let tb = next(st1);
                let st2 = emit(st1, Instr::CreateBlock { block: tb });
                let eb = next(st2);
                let st3 = emit(st2, Instr::CreateBlock { block: eb });
                let mb = next(st3);
                let st4 = emit(st3, Instr::CreateBlock { block: mb });
                let p = next(st4);
                let st5 = emit(st4, Instr::AppendBlockParam { block: mb, dst: p });
                let st6 = emit(
                    st5,
                    Instr::Brif { cond: c, then_block: tb, then_arg: None, else_block: eb, else_arg: None },
                );
                let st7 = emit(emit(st6, Instr::SwitchToBlock { block: tb }), Instr::SealBlock { block: tb });
                match lower(funcs, st7, *then) {
                    Err(err) => Err(err),
                    Ok((st8, v1)) => {
                        let st9 = emit(st8, Instr::Jump { block: mb, arg: Some(v1) });
                        let st10 = emit(emit(st9, Instr::SwitchToBlock { block: eb }), Instr::SealBlock { block: eb });
                        match lower(funcs, st10, *other) {
                            Err(err) => Err(err),
                            Ok((st11, v2)) => {
                                let st12 = emit(st11, Instr::Jump { block: mb, arg: Some(v2) });
                                let st13 = emit(
                                    emit(st12, Instr::SwitchToBlock { block: mb }),
                                    Instr::SealBlock { block: mb },
                                );
                                Ok((st13, p))
                            },
                        }
                    },
                }
            },
        },
        TypedExpr::Index { target, index, .. } => match lower(funcs, st, *target) {
            Err(err) => Err(err),
            Ok((st1, t)) => match lower(funcs, st1, *index) {
                Err(err) => Err(err),
                Ok((st2, i)) => {
                    let w = next(st2);
                    let st3 = emit(st2, Instr::Iconst { dst: w, imm: WORD_BYTES });
                    let o1 = next(st3);
                    let st4 = emit(st3, Instr::Arith { dst: o1, op: ArithOp::Mul, lhs: w, rhs: i });
                    let o2 = next(st4);
                    let st5 = emit(st4, Instr::Arith { dst: o2, op: ArithOp::Add, lhs: o1, rhs: w });
                    let a = next(st5);
                    let st6 = emit(st5, Instr::Arith { dst: a, op: ArithOp::Add, lhs: o2, rhs: t });
                    let d = next(st6);
                    Ok((emit(st6, Instr::Load { dst: d, addr: a }), d))
                },
            },
        },
        TypedExpr::Len(arr) => match lower(funcs, st, *arr) {
            Err(err) => Err(err),
            Ok((st1, a)) => {
                let d = next(st1);
                Ok((emit(st1, Instr::Load { dst: d, addr: a }), d))
            },
        },
        TypedExpr::Each { body, ident, target } => match lower(funcs, st, *target) {
            Err(err) => Err(err),
            Ok((st1, max)) => {
                let h = next(st1);
                let st2 = emit(st1, Instr::CreateBlock { block: h });
                let b = next(st2);
                let st3 = emit(st2, Instr::CreateBlock { block: b });
                let x = next(st3);
                let st4 = emit(st3, Instr::CreateBlock { block: x });
                let one = next(st4);
                let st5 = emit(st4, Instr::Iconst { dst: one, imm: 1 });
                let ph = next(st5);
                let st6 = emit(st5, Instr::AppendBlockParam { block: h, dst: ph });
                let pb = next(st6);
                let st7 = emit(st6, Instr::AppendBlockParam { block: b, dst: pb });
                let st8 = emit(emit(st7, Instr::Jump { block: h, arg: Some(one) }), Instr::SwitchToBlock { block: h });
                let c = next(st8);
                let st9 = emit(st8, Instr::Icmp { dst: c, cond: Cond::SignedGt, lhs: ph, rhs: max });
                let st10 = emit(
                    st9,
                    Instr::Brif { cond: c, then_block: x, then_arg: None, else_block: b, else_arg: Some(ph) },
                );
                let st11 = emit(st10, Instr::SwitchToBlock { block: b });
                let var = next(st11);
                let st12 = emit(emit(st11, Instr::DeclareVar { var }), Instr::DefVar { var, src: pb });
                match lower(funcs, bind(st12, ident@, var), *body) {
                    Err(err) => Err(err),
                    Ok((st13, _)) => {
                        let u = next(st13);
                        let st14 = emit(st13, Instr::UseVar { dst: u, var });
                        let s = next(st14);
                        let st15 = emit(st14, Instr::Arith { dst: s, op: ArithOp::Add, lhs: u, rhs: one });
                        let st16 = emit(
                            emit(st15, Instr::Jump { block: h, arg: Some(s) }),
                            Instr::SwitchToBlock { block: x },
                        );
                        let st17 = emit(
                            emit(emit(st16, Instr::SealBlock { block: h }), Instr::SealBlock { block: b }),
                            Instr::SealBlock { block: x },
                        );
                        let z = next(st17);
                        Ok((emit(st17, Instr::Iconst { dst: z, imm: 0 }), z))
                    },
                }
            },
        },
    }
}

/// Lowers an array literal into a fresh stack slot: its length at word 0 and
/// element `i` at word `i + 1`. Yields the slot.
pub open spec fn lower_array(funcs: Seq<Seq<char>>, st: LState, elems: Seq<TypedExpr>) -> Result<(LState, usize), CodegenError>
    decreases elems, 1nat,
{
    let slot = next(st);
    let st1 = emit(st, Instr::CreateStackSlot { slot, len: elems.len() as usize });
    let n = next(st1);
    let st2 = emit(st1, Instr::Iconst { dst: n, imm: elems.len() as i64 });
    let st3 = emit(st2, Instr::StackStore { src: n, slot, word: 0 });
    with_slot(lower_elems(funcs, st3, elems, slot, 1), slot)
}

/// A successful result paired with the slot `slot`.
pub open spec fn with_slot(r: Result<LState, CodegenError>, slot: usize) -> Result<(LState, usize), CodegenError> {
    match r {
        Ok(st) => Ok((st, slot)),
        Err(err) => Err(err),
    }
}

/// Lowers array elements left to right, storing each at the next word from `word` on.
pub open spec fn lower_elems(funcs: Seq<Seq<char>>, st: LState, elems: Seq<TypedExpr>, slot: usize, word: usize) -> Result<LState, CodegenError>
    decreases elems, 0nat,
{
    if elems.len() == 0 {
        Ok(st)
    } else {
        match lower(funcs, st, elems[0]) {
            Err(err) => Err(err),
            Ok((st1, v)) => lower_elems(
                funcs,
                emit(st1, Instr::StackStore { src: v, slot, word }),
                elems.subrange(1, elems.len() as int),
                slot,
                (word + 1) as usize,
            ),
        }
    }
}

/// Lowers call arguments left to right: the state after them and their values.
pub open spec fn lower_args(funcs: Seq<Seq<char>>, st: LState, args: Seq<Box<TypedExpr>>) -> Result<(LState, Seq<usize>), CodegenError>
    decreases args, 0nat,
{
    if args.len() == 0 {
        Ok((st, Seq::empty()))
    } else {
        match lower(funcs, st, *args[0]) {
            Err(err) => Err(err),
            Ok((st1, v)) => match lower_args(funcs, st1, args.subrange(1, args.len() as int)) {
                Err(err) => Err(err),
                Ok((st2, vs)) => Ok((st2, seq![v] + vs)),
            },
        }
    }
}

/// Whether `r`, with the state `after`, is what the model `m` gives.
pub open spec fn lowered(r: Result<usize, CodegenError>, after: LState, m: Result<(LState, usize), CodegenError>) -> bool {
    match m {
        Ok((st, v)) => r == Ok::<usize, CodegenError>(v) && after == st,
        Err(err) => r == Err::<usize, CodegenError>(err),
    }
}

/// Puts the values `acc` in front of a successful result.
pub open spec fn prepend_vals(acc: Seq<usize>, r: Result<(LState, Seq<usize>), CodegenError>) -> Result<(LState, Seq<usize>), CodegenError> {
    match r {
        Ok((st, vs)) => Ok((st, acc + vs)),
        Err(err) => Err(err),
    }
}

/// Lowers one function body into a fresh function-local state.
pub struct FunctionCompiler {
    functions: Vec<String>,
    variables: Vec<(String, usize)>,
    insts: Vec<Inst>,
}

/// Model of a list of names.
pub open spec fn names_of(v: Seq<String>) -> Seq<Seq<char>> {
    v.map_values(|s: String| s@)
}

impl FunctionCompiler {
    /// The function ids this compiler resolves calls with.
    pub closed spec fn funcs(&self) -> Seq<Seq<char>> {
        names_of(self.functions@)
    }

    /// The lowering state.
    pub closed spec fn state(&self) -> LState {
        LState {
            insts: view_insts(self.insts@),
            vars: self.variables@.map_values(|p: (String, usize)| (p.0@, p.1)),
        }
    }

    /// A compiler that resolves a call to `functions[i]` as function id `i`.
    pub fn new(functions: Vec<String>) -> (r: Self)
        ensures
            r.funcs() == names_of(functions@),
            r.state() == (LState { insts: Seq::empty(), vars: Seq::empty() }),
    {
        let r = FunctionCompiler { functions, variables: Vec::new(), insts: Vec::new() };
        assert(r.state().insts =~= Seq::empty());
        assert(r.state().vars =~= Seq::empty());
        r
    }

    fn emit(&mut self, i: Inst) -> (id: usize)
        ensures
            id == next(old(self).state()),
            final(self).state() == emit(old(self).state(), i@),
            final(self).functions == old(self).functions,
    {
        let id = self.insts.len();
        self.insts.push(i);
        assert(view_insts(self.insts@) =~= view_insts(old(self).insts@).push(i@));
        id
    }

    fn bind(&mut self, name: &String, var: usize)
        ensures
            final(self).state() == bind(old(self).state(), name@, var),
            final(self).functions == old(self).functions,
    {
        self.variables.push((name.clone(), var));
        assert(self.state().vars =~= old(self).state().vars.push((name@, var)));
    }

    /// The variable bound last to `name`.
    fn find_variable(&self, name: &String) -> (r: Option<usize>)
        ensures
            r == lookup_slot(self.state().vars, name@),
    {
        let ghost vars = self.state().vars;
        let mut i: usize = self.variables.len();
        assert(vars.subrange(0, i as int) =~= vars);
        while i > 0
            invariant
                vars == self.state().vars,
                i <= vars.len(),
                lookup_slot(vars, name@) == lookup_slot(vars.subrange(0, i as int), name@),
            decreases i,
        {
            i = i - 1;
            assert(vars.subrange(0, i + 1).drop_last() =~= vars.subrange(0, i as int));
            if self.variables[i].0 == *name {
                return Some(self.variables[i].1);
            }
        }
        None
    }

    /// The id of the function registered last under `name`.
    fn find_function(&self, name: &String) -> (r: Option<usize>)
        ensures
            r == lookup_func(self.funcs(), name@),
    {
        let ghost funcs = self.funcs();
        let mut i: usize = self.functions.len();
        assert(funcs.subrange(0, i as int) =~= funcs);
        while i > 0
            invariant
                funcs == self.funcs(),
                i <= funcs.len(),
                lookup_func(funcs, name@) == lookup_func(funcs.subrange(0, i as int), name@),
            decreases i,
        {
            i = i - 1;
            assert(funcs.subrange(0, i + 1).drop_last() =~= funcs.subrange(0, i as int));
            if self.functions[i] == *name {
                return Some(i);
            }
        }
        None
    }

    /// Emits a comparison whose one-bit result is sign-extended to a word.
    fn compile_comparison(&mut self, op: Op, lhs: usize, rhs: usize) -> (r: usize)
        ensures
            (final(self).state(), r) == lower_comparison(old(self).state(), op, lhs, rhs),
            final(self).functions == old(self).functions,
    {
        let cond = match op {
            Op::Ge => Cond::SignedGe,
            Op::Le => Cond::SignedLe,
            Op::Gt => Cond::SignedGt,
            Op::Lt => Cond::SignedLt,
            Op::Eq => Cond::Equal,
            _ => Cond::NotEqual,
        };
        let c = self.insts.len();
        self.emit(Instr::Icmp { dst: c, cond, lhs, rhs });
        let d = self.insts.len();
        self.emit(Instr::Sextend { dst: d, src: c });
        d
    }

    /// Lowers `e` at the end of the instructions so far; yields its value.
    fn compile_expr(&mut self, e: &TypedExpr) -> (r: Result<usize, CodegenError>)
        ensures
            lowered(r, final(self).state(), lower(old(self).funcs(), old(self).state(), *e)),
            final(self).functions == old(self).functions,
        decreases e, 1nat,
    {
        match e {
            TypedExpr::Value(_, TypedValue::Number(x)) => {
                let d = self.insts.len();
                self.emit(Instr::Iconst { dst: d, imm: *x as i64 });
                Ok(d)
            },
            TypedExpr::Value(_, TypedValue::Bool(b)) => {
                let d = self.insts.len();
                self.emit(Instr::Iconst { dst: d, imm: if *b { -1i64 } else { 0i64 } });
                Ok(d)
            },
            TypedExpr::Value(_, TypedValue::Array(elems)) => {
                let slot = match self.construct_array(elems) {
                    Ok(slot) => slot,
                    Err(err) => return Err(err),
                };
                let d = self.insts.len();
                self.emit(Instr::StackAddr { dst: d, slot });
                Ok(d)
            },
            TypedExpr::Ident(_, name) => match self.find_variable(name) {
                Some(var) => {
                    let d = self.insts.len();
                    self.emit(Instr::UseVar { dst: d, var });
                    Ok(d)
                },
                None => Err(CodegenError::UndefinedVariableReference(name.clone())),
            },
            TypedExpr::Operation(_, lhs, op, rhs) => {
                let a = match self.compile_expr(lhs) {
                    Ok(v) => v,
                    Err(err) => return Err(err),
                };
                let b = match self.compile_expr(rhs) {
                    Ok(v) => v,
                    Err(err) => return Err(err),
                };
                let k = match op {
                    Op::Add => ArithOp::Add,
                    Op::Sub => ArithOp::Sub,
                    Op::Mul => ArithOp::Mul,
                    Op::Div => ArithOp::SDiv,
                    _ => return Ok(self.compile_comparison(*op, a, b)),
                };
                let d = self.insts.len();
                self.emit(Instr::Arith { dst: d, op: k, lhs: a, rhs: b });
                Ok(d)
            },
            TypedExpr::Def { ident, value } => {
                let v = match self.compile_expr(value) {
                    Ok(v) => v,
                    Err(err) => return Err(err),
                };
                let var = self.insts.len();
                self.emit(Instr::DeclareVar { var });
                self.emit(Instr::DefVar { var, src: v });
                self.bind(ident, var);
                Ok(v)
            },
            TypedExpr::Then { lhs, rhs } => {
                match self.compile_expr(lhs) {
                    Ok(_) => {},
                    Err(err) => return Err(err),
                }
                self.compile_expr(rhs)
            },
            TypedExpr::FunctionCall(..) => self.compile_call(e),
            TypedExpr::IfThen { .. } => self.compile_if(e),
            TypedExpr::Index { .. } => self.compile_index(e),
            TypedExpr::Each { .. } => self.compile_each(e),
            TypedExpr::Len(arr) => {
                let a = match self.compile_expr(arr) {
                    Ok(v) => v,
                    Err(err) => return Err(err),
                };
                let d = self.insts.len();
                self.emit(Instr::Load { dst: d, addr: a });
                Ok(d)
            },
        }
    }

    /// Lowers a call: arguments left to right, then the call.
    fn compile_call(&mut self, e: &TypedExpr) -> (r: Result<usize, CodegenError>)
        requires
            *e is FunctionCall,
        ensures
            lowered(r, final(self).state(), lower(old(self).funcs(), old(self).state(), *e)),
            final(self).functions == old(self).functions,
        decreases e, 0nat,
    {
        let TypedExpr::FunctionCall(_, name, args) = e else {
            return unreached();
        };
        let f = match self.find_function(name) {
            Some(f) => f,
            None => return Err(CodegenError::UnknownFunctionReference(name.clone())),
        };
        let ghost funcs = self.funcs();
        let ghost st0 = self.state();
        let n = args.len();
        let mut vals: Vec<usize> = Vec::new();
        let mut i: usize = 0;
        assert(args@.subrange(0, n as int) =~= args@);
        while i < n
            invariant
                *e == TypedExpr::FunctionCall(e->FunctionCall_0, *name, *args),
                funcs == old(self).funcs(),
                st0 == old(self).state(),
                lookup_func(funcs, name@) == Some(f),
                self.functions == old(self).functions,
                n == args@.len(),
                i <= n,
                lower_args(funcs, st0, args@) == prepend_vals(
                    vals@,
                    lower_args(funcs, self.state(), args@.subrange(i as int, n as int)),
                ),
            decreases n - i,
        {
            assert(args@.subrange(i as int, n as int).subrange(1, n - i) =~= args@.subrange(
                i + 1,
                n as int,
            ));
            proof {
                assert(decreases_to!(*e => e->FunctionCall_2));
                assert(decreases_to!(*args => args@));
                assert(decreases_to!(args@ => args@[i as int]));
            }
            let ghost si = self.state();
            let v = match self.compile_expr(&args[i]) {
                Ok(v) => v,
                Err(err) => {
                    assert(lower_args(funcs, si, args@.subrange(i as int, n as int)) is Err);
                    return Err(err);
                },
            };
            proof {
                let rest = lower_args(funcs, self.state(), args@.subrange(i + 1, n as int));
                if let Ok((st2, vs)) = rest {
                    assert(vals@ + (seq![v] + vs) =~= vals@.push(v) + vs);
                }
            }
            vals.push(v);
            i = i + 1;
        }
        assert(vals@ + Seq::empty() =~= vals@);
        let d = self.insts.len();
        self.emit(Instr::Call { dst: d, func: f, args: vals });
        Ok(d)
    }

    /// Lowers a conditional through then, else and merge blocks; the merge block's parameter is its value.
    fn compile_if(&mut self, e: &TypedExpr) -> (r: Result<usize, CodegenError>)
        requires
            *e is IfThen,
        ensures
            lowered(r, final(self).state(), lower(old(self).funcs(), old(self).state(), *e)),
            final(self).functions == old(self).functions,
        decreases e, 0nat,
    {
        let TypedExpr::IfThen { condition, then, other } = e else {
            return unreached();
        };
        let c = match self.compile_expr(condition) {
            Ok(v) => v,
            Err(err) => return Err(err),
        };
        let tb = self.insts.len();
        self.emit(Instr::CreateBlock { block: tb });
        let eb = self.insts.len();
        self.emit(Instr::CreateBlock { block: eb });
        let mb = self.insts.len();
        self.emit(Instr::CreateBlock { block: mb });
        let p = self.insts.len();
        self.emit(Instr::AppendBlockParam { block: mb, dst: p });
        self.emit(
            Instr::Brif { cond: c, then_block: tb, then_arg: None, else_block: eb, else_arg: None },
        );
        self.emit(Instr::SwitchToBlock { block: tb });
        self.emit(Instr::SealBlock { block: tb });
        let v1 = match self.compile_expr(then) {
            Ok(v) => v,
            Err(err) => return Err(err),
        };
        self.emit(Instr::Jump { block: mb, arg: Some(v1) });
        self.emit(Instr::SwitchToBlock { block: eb });
        self.emit(Instr::SealBlock { block: eb });
        let v2 = match self.compile_expr(other) {
            Ok(v) => v,
            Err(err) => return Err(err),
        };
        self.emit(Instr::Jump { block: mb, arg: Some(v2) });
        self.emit(Instr::SwitchToBlock { block: mb });
        self.emit(Instr::SealBlock { block: mb });
        Ok(p)
    }

    /// Lowers an element read at base + (index + 1) words.
    fn compile_index(&mut self, e: &TypedExpr) -> (r: Result<usize, CodegenError>)
        requires
            *e is Index,
        ensures
            lowered(r, final(self).state(), lower(old(self).funcs(), old(self).state(), *e)),
            final(self).functions == old(self).functions,
        decreases e, 0nat,
    {
        let TypedExpr::Index { target, index, .. } = e else {
            return unreached();
        };
        let t = match self.compile_expr(target) {
            Ok(v) => v,
            Err(err) => return Err(err),
        };
        let i = match self.compile_expr(index) {
            Ok(v) => v,
            Err(err) => return Err(err),
        };
        let w = self.insts.len();
        self.emit(Instr::Iconst { dst: w, imm: WORD_BYTES });
        let o1 = self.insts.len();
        self.emit(Instr::Arith { dst: o1, op: ArithOp::Mul, lhs: w, rhs: i });
        let o2 = self.insts.len();
        self.emit(Instr::Arith { dst: o2, op: ArithOp::Add, lhs: o1, rhs: w });
        let a = self.insts.len();
        self.emit(Instr::Arith { dst: a, op: ArithOp::Add, lhs: o2, rhs: t });
        let d = self.insts.len();
        self.emit(Instr::Load { dst: d, addr: a });
        Ok(d)
    }

    /// Lowers a counting loop through header, body and exit blocks; yields zero.
    fn compile_each(&mut self, e: &TypedExpr) -> (r: Result<usize, CodegenError>)
        requires
            *e is Each,
        ensures
            lowered(r, final(self).state(), lower(old(self).funcs(), old(self).state(), *e)),
            final(self).functions == old(self).functions,
        decreases e, 0nat,
    {
        let TypedExpr::Each { body, ident, target } = e else {
            return unreached();
        };
        let max = match self.compile_expr(target) {
            Ok(v) => v,
            Err(err) => return Err(err),
        };
        let h = self.insts.len();
        self.emit(Instr::CreateBlock { block: h });
        let b = self.insts.len();
        self.emit(Instr::CreateBlock { block: b });
        let x = self.insts.len();
        self.emit(Instr::CreateBlock { block: x });
        let one = self.insts.len();
        self.emit(Instr::Iconst { dst: one, imm: 1 });
        let ph = self.insts.len();
        self.emit(Instr::AppendBlockParam { block: h, dst: ph });
        let pb = self.insts.len();
        self.emit(Instr::AppendBlockParam { block: b, dst: pb });
        self.emit(Instr::Jump { block: h, arg: Some(one) });
        self.emit(Instr::SwitchToBlock { block: h });
        let c = self.insts.len();
        self.emit(Instr::Icmp { dst: c, cond: Cond::SignedGt, lhs: ph, rhs: max });
        self.emit(
            Instr::Brif { cond: c, then_block: x, then_arg: None, else_block: b, else_arg: Some(ph) },
        );
        self.emit(Instr::SwitchToBlock { block: b });
        let var = self.insts.len();
        self.emit(Instr::DeclareVar { var });
        self.emit(Instr::DefVar { var, src: pb });
        self.bind(ident, var);
        match self.compile_expr(body) {
            Ok(_) => {},
            Err(err) => return Err(err),
        }
        let u = self.insts.len();
        self.emit(Instr::UseVar { dst: u, var });
        let sum = self.insts.len();
        self.emit(Instr::Arith { dst: sum, op: ArithOp::Add, lhs: u, rhs: one });
        self.emit(Instr::Jump { block: h, arg: Some(sum) });
        self.emit(Instr::SwitchToBlock { block: x });
        self.emit(Instr::SealBlock { block: h });
        self.emit(Instr::SealBlock { block: b });
        self.emit(Instr::SealBlock { block: x });
        let z = self.insts.len();
        self.emit(Instr::Iconst { dst: z, imm: 0 });
        Ok(z)
    }

    /// Lowers an array literal into a fresh stack slot holding its length at
    /// word 0 and its elements from word 1 on; yields the slot.
    fn construct_array(&mut self, elems: &Vec<TypedExpr>) -> (r: Result<usize, CodegenError>)
        ensures
            lowered(r, final(self).state(), lower_array(old(self).funcs(), old(self).state(), elems@)),
            final(self).functions == old(self).functions,
        decreases elems,
    {
        let n = elems.len();
        let slot = self.insts.len();
        self.emit(Instr::CreateStackSlot { slot, len: n });
        let len = self.insts.len();
        self.emit(Instr::Iconst { dst: len, imm: #[verifier::truncate] (n as i64) });
        self.emit(Instr::StackStore { src: len, slot, word: 0 });
        let ghost funcs = self.funcs();
        let ghost st3 = self.state();
        let mut i: usize = 0;
        assert(elems@.subrange(0, n as int) =~= elems@);
        while i < n
            invariant
                funcs == old(self).funcs(),
                self.functions == old(self).functions,
                lower_array(funcs, old(self).state(), elems@) == with_slot(lower_elems(funcs, st3, elems@, slot, 1), slot),
                n == elems@.len(),
                i <= n,
                lower_elems(funcs, st3, elems@, slot, 1) == lower_elems(
                    funcs,
                    self.state(),
                    elems@.subrange(i as int, n as int),
                    slot,
                    (i + 1) as usize,
                ),
            decreases n - i,
        {
            assert(elems@.subrange(i as int, n as int).subrange(1, n - i) =~= elems@.subrange(
                i + 1,
                n as int,
            ));
            proof {
                assert(decreases_to!(*elems => elems@));
                assert(decreases_to!(elems@ => elems@[i as int]));
            }
            let ghost si = self.state();
            let v = match self.compile_expr(&elems[i]) {
                Ok(v) => v,
                Err(err) => {
                    assert(lower_elems(funcs, si, elems@.subrange(i as int, n as int), slot, (i + 1) as usize) is Err);
                    return Err(err);
                },
            };
            self.emit(Instr::StackStore { src: v, slot, word: i + 1 });
            i = i + 1;
        }
        Ok(slot)
    }

    /// Lowers `func` from a fresh state: its instructions, ending in the return
    /// of its body's value.
    pub fn compile(self, func: &TypedFunc) -> (r: Result<Vec<Inst>, CodegenError>)
        ensures
            match lower_func(self.funcs(), *func) {
                Ok(insts) => r is Ok && view_insts(r->Ok_0@) == insts,
                Err(err) => r == Err::<Vec<Inst>, CodegenError>(err),
            },
            r is Ok ==> well_formed(view_insts(r->Ok_0@), self.funcs().len()),
            r is Ok ==> sealing_ok(view_insts(r->Ok_0@)),
    {
        let mut fc = FunctionCompiler { functions: self.functions, variables: Vec::new(), insts: Vec::new() };
        let ghost funcs = fc.funcs();
        assert(fc.state() == (LState { insts: Seq::empty(), vars: Seq::empty() })) by {
            assert(fc.state().insts =~= Seq::empty());
            assert(fc.state().vars =~= Seq::empty());
        }
        fc.emit(Instr::CreateBlock { block: 0 });
        let ghost st1 = fc.state();
        let n = func.args.len();
        let mut k: usize = 0;
        while k < n
            invariant
                n == func.args@.len(),
                k <= n,
                fc.funcs() == funcs,
                fc.state() == entry_params(st1, k as nat),
                fc.state().insts.len() == k + 1,
            decreases n - k,
        {
            let d = fc.insts.len();
            fc.emit(Instr::AppendBlockParam { block: 0, dst: d });
            k = k + 1;
        }
        fc.emit(Instr::SwitchToBlock { block: 0 });
        fc.emit(Instr::SealBlock { block: 0 });
        let ghost st3 = fc.state();
        let ghost names = param_names(func.args@);
        let mut k: usize = 0;
        while k < n
            invariant
                n == func.args@.len(),
                names == param_names(func.args@),
                k <= n,
                fc.funcs() == funcs,
                fc.state() == bind_params(st3, names, k as nat),
            decreases n - k,
        {
            let var = fc.insts.len();
            fc.emit(Instr::DeclareVar { var });
            fc.emit(Instr::DefVar { var, src: k + 1 });
            fc.bind(&func.args[k].name, var);
            k = k + 1;
        }
        let v = match fc.compile_expr(&func.body) {
            Ok(v) => v,
            Err(err) => return Err(err),
        };
        fc.emit(Instr::Return { value: v });
        let _total = fc.insts.len();
        proof {
            lemma_lowered_function_well_formed(funcs, *func);
            lemma_lowered_function_sealing(funcs, *func);
        }
        Ok(fc.insts)
    }
} // impl FunctionCompiler

/// Appends the first `n` parameters of the entry block (block 0); parameter
/// `k` is the value named `k + 1`.
pub open spec fn entry_params(st: LState, n: nat) -> LState
    decreases n,
{
    if n == 0 {
        st
    } else {
        let prev = entry_params(st, (n - 1) as nat);
        emit(prev, Instr::AppendBlockParam { block: 0, dst: next(prev) })
    }
}

/// Binds the first `n` parameter names, each to a fresh variable holding the
/// matching entry-block parameter.
pub open spec fn bind_params(st: LState, names: Seq<Seq<char>>, n: nat) -> LState
    decreases n,
{
    if n == 0 {
        st
    } else {
        let prev = bind_params(st, names, (n - 1) as nat);
        let var = next(prev);
        let st1 = emit(emit(prev, Instr::DeclareVar { var }), Instr::DefVar { var, src: n as usize });
        bind(st1, names[n - 1], var)
    }
}

/// The names of a function's parameters.
pub open spec fn param_names(args: Seq<Arg>) -> Seq<Seq<char>> {
    args.map_values(|a: Arg| a.name@)
}

/// Lowers a function: an entry block with one parameter per argument, each
/// argument bound to a variable, then the body, whose value is returned.
pub open spec fn lower_func(funcs: Seq<Seq<char>>, f: TypedFunc) -> Result<Seq<InstModel>, CodegenError> {
    let n = f.args@.len();
    let st1 = emit(LState { insts: Seq::empty(), vars: Seq::empty() }, Instr::CreateBlock { block: 0 });
    let st2 = entry_params(st1, n);
    let st3 = emit(emit(st2, Instr::SwitchToBlock { block: 0 }), Instr::SealBlock { block: 0 });
    let st4 = bind_params(st3, param_names(f.args@), n);
    match lower(funcs, st4, f.body) {
        Ok((st5, v)) => Ok(emit(st5, Instr::Return { value: v }).insts),
        Err(err) => Err(err),
    }
}

/// Name of the function exported as the program's entry point.
pub open spec fn entry_name() -> Seq<char> {
    "main"@
}

/// Lowers functions in order; each is callable, under the next id, by those
/// after it. Yields the lowered functions and the grown registry.
pub open spec fn compile_funcs(funcs: Seq<Seq<char>>, fs: Seq<TypedFunc>) -> Result<(Seq<FunctionModel>, Seq<Seq<char>>), CodegenError>
    decreases fs.len(),
{
    if fs.len() == 0 {
        Ok((Seq::empty(), funcs))
    } else {
        match lower_func(funcs, fs[0]) {
            Err(err) => Err(err),
            Ok(insts) => {
                let m = FunctionModel {
                    name: fs[0].name@,
                    exported: fs[0].name@ == entry_name(),
                    params: fs[0].args@.len(),
                    insts,
                };
                match compile_funcs(funcs.push(fs[0].name@), fs.subrange(1, fs.len() as int)) {
                    Ok((ms, reg)) => Ok((seq![m] + ms, reg)),
                    Err(err) => Err(err),
                }
            },
        }
    }
}

/// Model of a list of lowered functions.
pub open spec fn view_irs(s: Seq<FunctionIr>) -> Seq<FunctionModel> {
    s.map_values(|f: FunctionIr| f@)
}

/// Lowers whole programs; holds the registry of function ids: the builtins,
/// then each function lowered so far.
pub struct Compiler {
    functions: Vec<String>,
}

impl Compiler {
    pub closed spec fn view(&self) -> Seq<Seq<char>> {
        names_of(self.functions@)
    }

    /// A compiler whose registry holds the builtins.
    pub fn new() -> (r: Self)
        ensures
            r@ == builtin_names(),
    {
        let functions = builtins();
        assert(names_of(functions@) =~= builtin_names());
        Compiler { functions }
    }

    /// Lowers `funcs` in order, registering each one after its own lowering.
    pub fn compile_program(&mut self, funcs: Vec<TypedFunc>) -> (r: Result<Vec<FunctionIr>, CodegenError>)
        ensures
            match compile_funcs(old(self)@, funcs@) {
                Ok((ms, reg)) => r is Ok && view_irs(r->Ok_0@) == ms && final(self)@ == reg,
                Err(err) => r == Err::<Vec<FunctionIr>, CodegenError>(err),
            },
            r is Ok ==> forall|i: int|
                0 <= i < r->Ok_0@.len() ==> well_formed(
                    view_insts((#[trigger] r->Ok_0@[i]).insts@),
                    (old(self)@.len() + i) as nat,
                ),
    {
        let n = funcs.len();
        let mut out: Vec<FunctionIr> = Vec::new();
        let mut i: usize = 0;
        let main_name = "main".to_owned();
        assert(funcs@.subrange(0, n as int) =~= funcs@);
        while i < n
            invariant
                n == funcs@.len(),
                i <= n,
                main_name@ == entry_name(),
                self@.len() == old(self)@.len() + i,
                out@.len() == i,
                forall|j: int|
                    0 <= j < out@.len() ==> well_formed(
                        view_insts((#[trigger] out@[j]).insts@),
                        (old(self)@.len() + j) as nat,
                    ),
                compile_funcs(old(self)@, funcs@) == prepend_irs(
                    view_irs(out@),
                    compile_funcs(self@, funcs@.subrange(i as int, n as int)),
                ),
            decreases n - i,
        {
            let f = &funcs[i];
            assert(funcs@.subrange(i as int, n as int)[0] == funcs@[i as int]);
            assert(funcs@.subrange(i as int, n as int).subrange(1, n - i) =~= funcs@.subrange(
                i + 1,
                n as int,
            ));
            let fc = FunctionCompiler::new(copy_names(&self.functions));
            let insts = match fc.compile(f) {
                Ok(insts) => insts,
                Err(err) => return Err(err),
            };
            let ir = FunctionIr {
                name: f.name.clone(),
                exported: f.name == main_name,
                params: f.args.len(),
                insts,
            };
            let ghost before = self@;
            self.functions.push(f.name.clone());
            assert(self@ =~= before.push(f.name@));
            proof {
                let rest = compile_funcs(self@, funcs@.subrange(i + 1, n as int));
                if let Ok((ms, reg)) = rest {
                    assert(view_irs(out@) + (seq![ir@] + ms) =~= view_irs(out@.push(ir)) + ms);
                }
            }
            out.push(ir);
            i = i + 1;
        }
        assert(view_irs(out@) + Seq::empty() =~= view_irs(out@));
        Ok(out)
    }
}

/// Puts the lowered functions `acc` in front of a successful result.
pub open spec fn prepend_irs(acc: Seq<FunctionModel>, r: Result<(Seq<FunctionModel>, Seq<Seq<char>>), CodegenError>) -> Result<(Seq<FunctionModel>, Seq<Seq<char>>), CodegenError> {
    match r {
        Ok((ms, reg)) => Ok((acc + ms, reg)),
        Err(err) => Err(err),
    }
}

/// A copy of a list of names.
fn copy_names(v: &Vec<String>) -> (r: Vec<String>)
    ensures
        r@ == v@,
{
    let mut r: Vec<String> = Vec::new();
    let mut i: usize = 0;
    while i < v.len()
        invariant
            i <= v@.len(),
            r@ == v@.subrange(0, i as int),
        decreases v.len() - i,
    {
        r.push(v[i].clone());
        assert(r@ =~= v@.subrange(0, i + 1));
        i = i + 1;
    }
    assert(v@.subrange(0, i as int) =~= v@);
    r
}

} // verus!
