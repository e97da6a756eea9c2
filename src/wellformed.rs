//! Well-formedness of lowered instructions: every name an instruction uses was
//! created by an earlier instruction of the right kind.
use vstd::prelude::*;
use crate::codegen::{
    bind, bind_params, emit, entry_params, lookup_func, lookup_slot, lower, lower_args, lower_array,
    lower_elems, lower_func, next, param_names, LState,
};
use crate::ir::{InstModel, Instr};
use crate::typed::{TypedExpr, TypedFunc, TypedValue};

verus! {

/// The value an instruction defines, if any.
pub open spec fn defined_value(i: InstModel) -> Option<usize> {
    match i {
        Instr::AppendBlockParam { dst, .. } => Some(dst),
        Instr::Iconst { dst, .. } => Some(dst),
        Instr::Arith { dst, .. } => Some(dst),
        Instr::Icmp { dst, .. } => Some(dst),
        Instr::Sextend { dst, .. } => Some(dst),
        Instr::Load { dst, .. } => Some(dst),
        Instr::StackAddr { dst, .. } => Some(dst),
        Instr::UseVar { dst, .. } => Some(dst),
        Instr::Call { dst, .. } => Some(dst),
        _ => None,
    }
}

/// `v` names a value defined in `s`.
pub open spec fn is_value(s: Seq<InstModel>, v: usize) -> bool {
    v < s.len() && defined_value(s[v as int]) == Some(v)
}

/// `v` names a variable declared in `s`.
pub open spec fn is_var(s: Seq<InstModel>, v: usize) -> bool {
    v < s.len() && s[v as int] == Instr::<Seq<usize>>::DeclareVar { var: v }
}

/// `b` names a block created in `s`.
pub open spec fn is_block(s: Seq<InstModel>, b: usize) -> bool {
    b < s.len() && s[b as int] == Instr::<Seq<usize>>::CreateBlock { block: b }
}

/// `x` names a stack slot created in `s`.
pub open spec fn is_slot(s: Seq<InstModel>, x: usize) -> bool {
    x < s.len() && s[x as int] is CreateStackSlot && s[x as int]->CreateStackSlot_slot == x
}

pub open spec fn opt_value(s: Seq<InstModel>, a: Option<usize>) -> bool {
    a is Some ==> is_value(s, a->0)
}

/// Instruction `i`, appended to `s`, names itself by its position and uses
/// only names created in `s`; it calls only one of `nfuncs` functions.
pub open spec fn inst_ok(s: Seq<InstModel>, i: InstModel, nfuncs: nat) -> bool {
    match i {
        Instr::CreateBlock { block } => block == s.len(),
        Instr::AppendBlockParam { block, dst } => is_block(s, block) && dst == s.len(),
        Instr::SwitchToBlock { block } => is_block(s, block),
        Instr::SealBlock { block } => is_block(s, block),
        Instr::Iconst { dst, .. } => dst == s.len(),
        Instr::Arith { dst, lhs, rhs, .. } => dst == s.len() && is_value(s, lhs) && is_value(s, rhs),
        Instr::Icmp { dst, lhs, rhs, .. } => dst == s.len() && is_value(s, lhs) && is_value(s, rhs),
        Instr::Sextend { dst, src } => dst == s.len() && is_value(s, src),
        Instr::Load { dst, addr } => dst == s.len() && is_value(s, addr),
        Instr::CreateStackSlot { slot, .. } => slot == s.len(),
        Instr::StackStore { src, slot, .. } => is_value(s, src) && is_slot(s, slot),
        Instr::StackAddr { dst, slot } => dst == s.len() && is_slot(s, slot),
        Instr::DeclareVar { var } => var == s.len(),
        Instr::DefVar { var, src } => is_var(s, var) && is_value(s, src),
        Instr::UseVar { dst, var } => dst == s.len() && is_var(s, var),
        Instr::Call { dst, func, args } => dst == s.len() && func < nfuncs && forall|j: int|
            0 <= j < args.len() ==> is_value(s, #[trigger] args[j]),
        Instr::Jump { block, arg } => is_block(s, block) && opt_value(s, arg),
        Instr::Brif { cond, then_block, then_arg, else_block, else_arg } => is_value(s, cond)
            && is_block(s, then_block) && is_block(s, else_block) && opt_value(s, then_arg)
            && opt_value(s, else_arg),
        Instr::Return { value } => is_value(s, value),
    }
}

/// Every instruction of `s` is well formed with respect to those before it.
pub open spec fn well_formed(s: Seq<InstModel>, nfuncs: nat) -> bool
    decreases s.len(),
{
    s.len() == 0 || (well_formed(s.drop_last(), nfuncs) && inst_ok(s.drop_last(), s.last(), nfuncs))
}

/// `a` is a prefix of `b`.
pub open spec fn extends(a: Seq<InstModel>, b: Seq<InstModel>) -> bool {
    a.len() <= b.len() && forall|k: int| 0 <= k < a.len() ==> #[trigger] b[k] == a[k]
}

/// A lowering state whose instructions are well formed and whose variables
/// were all declared.
pub open spec fn state_ok(st: LState, nfuncs: nat) -> bool {
    &&& well_formed(st.insts, nfuncs)
    &&& forall|j: int| 0 <= j < st.vars.len() ==> is_var(st.insts, #[trigger] st.vars[j].1)
}

/// Appending a well-formed instruction keeps a state well formed.
pub broadcast proof fn lemma_emit(st: LState, i: InstModel, nfuncs: nat)
    requires
        state_ok(st, nfuncs),
        inst_ok(st.insts, i, nfuncs),
    ensures
        #[trigger] state_ok(emit(st, i), nfuncs),
{
    assert(emit(st, i).insts.drop_last() =~= st.insts);
}

/// Binding a name to a declared variable keeps a state well formed.
pub proof fn lemma_bind(st: LState, name: Seq<char>, var: usize, nfuncs: nat)
    requires
        state_ok(st, nfuncs),
        is_var(st.insts, var),
    ensures
        state_ok(bind(st, name, var), nfuncs),
{
    let st1 = bind(st, name, var);
    assert forall|j: int| 0 <= j < st1.vars.len() implies is_var(st1.insts, #[trigger] st1.vars[j].1) by {
        if j < st.vars.len() {
            assert(st1.vars[j] == st.vars[j]);
        }
    }
}

proof fn lemma_lookup_slot(vars: Seq<(Seq<char>, usize)>, name: Seq<char>)
    requires
        lookup_slot(vars, name) is Some,
    ensures
        exists|j: int| 0 <= j < vars.len() && #[trigger] vars[j].1 == lookup_slot(vars, name)->0,
    decreases vars.len(),
{
    if vars.last().0 != name {
        lemma_lookup_slot(vars.drop_last(), name);
        let j = choose|j: int| 0 <= j < vars.drop_last().len() && #[trigger] vars.drop_last()[j].1 == lookup_slot(vars.drop_last(), name)->0;
        assert(vars[j] == vars.drop_last()[j]);
    } else {
        assert(vars[vars.len() - 1].1 == lookup_slot(vars, name)->0);
    }
}

proof fn lemma_lookup_func(funcs: Seq<Seq<char>>, name: Seq<char>)
    requires
        lookup_func(funcs, name) is Some,
    ensures
        lookup_func(funcs, name)->0 < funcs.len(),
    decreases funcs.len(),
{
    if funcs.last() != name {
        lemma_lookup_func(funcs.drop_last(), name);
    }
}

/// Lowering only appends instructions.
pub proof fn lemma_lower_extends(funcs: Seq<Seq<char>>, st: LState, e: TypedExpr)
    ensures
        lower(funcs, st, e) is Ok ==> extends(st.insts, lower(funcs, st, e)->Ok_0.0.insts),
    decreases e, 2nat,
{
    match e {
        TypedExpr::Value(_, TypedValue::Array(elems)) => {
            lemma_array_extends(funcs, st, elems@);
        },
        TypedExpr::Operation(_, lhs, op, rhs) => {
            lemma_lower_extends(funcs, st, *lhs);
            if let Ok((st1, _)) = lower(funcs, st, *lhs) {
                lemma_lower_extends(funcs, st1, *rhs);
            }
        },
        TypedExpr::Def { ident, value } => {
            lemma_lower_extends(funcs, st, *value);
        },
        TypedExpr::Then { lhs, rhs } => {
            lemma_lower_extends(funcs, st, *lhs);
            if let Ok((st1, _)) = lower(funcs, st, *lhs) {
                lemma_lower_extends(funcs, st1, *rhs);
            }
        },
        TypedExpr::FunctionCall(_, name, args) => {
            lemma_args_extends(funcs, st, args@);
        },
        TypedExpr::IfThen { condition, then, other } => {
            lemma_lower_extends(funcs, st, *condition);
            if let Ok((st1, c)) = lower(funcs, st, *condition) {
                let tb = next(st1);
                let st2 = emit(st1, Instr::CreateBlock { block: tb });
                let eb = next(st2);
                let st3 = emit(st2, Instr::CreateBlock { block: eb });
                let mb = next(st3);
                let st4 = emit(st3, Instr::CreateBlock { block: mb });
                let p = next(st4);
                let st5 = emit(st4, Instr::AppendBlockParam { block: mb, dst: p });
                let st6 = emit(
                    st5,
                    Instr::Brif { cond: c, then_block: tb, then_arg: None, else_block: eb, else_arg: None },
                );
                let st7 = emit(emit(st6, Instr::SwitchToBlock { block: tb }), Instr::SealBlock { block: tb });
                lemma_lower_extends(funcs, st7, *then);
                if let Ok((st8, v1)) = lower(funcs, st7, *then) {
                    let st9 = emit(st8, Instr::Jump { block: mb, arg: Some(v1) });
                    let st10 = emit(emit(st9, Instr::SwitchToBlock { block: eb }), Instr::SealBlock { block: eb });
                    lemma_lower_extends(funcs, st10, *other);
                }
            }
        },
        TypedExpr::Index { target, index, .. } => {
            lemma_lower_extends(funcs, st, *target);
            if let Ok((st1, _)) = lower(funcs, st, *target) {
                lemma_lower_extends(funcs, st1, *index);
            }
        },
        TypedExpr::Len(arr) => {
            lemma_lower_extends(funcs, st, *arr);
        },
        TypedExpr::Each { body, ident, target } => {
            lemma_lower_extends(funcs, st, *target);
            if let Ok((st1, max)) = lower(funcs, st, *target) {
                let h = next(st1);
                let st2 = emit(st1, Instr::CreateBlock { block: h });
                let b = next(st2);
                let st3 = emit(st2, Instr::CreateBlock { block: b });
                let x = next(st3);
                let st4 = emit(st3, Instr::CreateBlock { block: x });
                let one = next(st4);
                let st5 = emit(st4, Instr::Iconst { dst: one, imm: 1 });
                let ph = next(st5);
                let st6 = emit(st5, Instr::AppendBlockParam { block: h, dst: ph });
                let pb = next(st6);
                let st7 = emit(st6, Instr::AppendBlockParam { block: b, dst: pb });
                let st8 = emit(emit(st7, Instr::Jump { block: h, arg: Some(one) }), Instr::SwitchToBlock { block: h });
                let c = next(st8);
                let st9 = emit(st8, Instr::Icmp { dst: c, cond: crate::ir::Cond::SignedGt, lhs: ph, rhs: max });
                let st10 = emit(
                    st9,
                    Instr::Brif { cond: c, then_block: x, then_arg: None, else_block: b, else_arg: Some(ph) },
                );
                let st11 = emit(st10, Instr::SwitchToBlock { block: b });
                let var = next(st11);
                let st12 = emit(emit(st11, Instr::DeclareVar { var }), Instr::DefVar { var, src: pb });
                lemma_lower_extends(funcs, bind(st12, ident@, var), *body);
            }
        },
        _ => {},
    }
}

pub proof fn lemma_array_extends(funcs: Seq<Seq<char>>, st: LState, elems: Seq<TypedExpr>)
    ensures
        lower_array(funcs, st, elems) is Ok ==> extends(st.insts, lower_array(funcs, st, elems)->Ok_0.0.insts),
    decreases elems, 1nat,
{
    let slot = next(st);
    let st1 = emit(st, Instr::CreateStackSlot { slot, len: elems.len() as usize });
    let n = next(st1);
    let st2 = emit(st1, Instr::Iconst { dst: n, imm: elems.len() as i64 });
    let st3 = emit(st2, Instr::StackStore { src: n, slot, word: 0 });
    lemma_elems_extends(funcs, st3, elems, slot, 1);
}

pub proof fn lemma_elems_extends(funcs: Seq<Seq<char>>, st: LState, elems: Seq<TypedExpr>, slot: usize, word: usize)
    ensures
        lower_elems(funcs, st, elems, slot, word) is Ok ==> extends(st.insts, lower_elems(funcs, st, elems, slot, word)->Ok_0.insts),
    decreases elems, 0nat,
{
    if elems.len() > 0 {
        lemma_lower_extends(funcs, st, elems[0]);
        if let Ok((st1, v)) = lower(funcs, st, elems[0]) {
            lemma_elems_extends(
                funcs,
                emit(st1, Instr::StackStore { src: v, slot, word }),
                elems.subrange(1, elems.len() as int),
                slot,
                (word + 1) as usize,
            );
        }
    }
}

pub proof fn lemma_args_extends(funcs: Seq<Seq<char>>, st: LState, args: Seq<Box<TypedExpr>>)
    ensures
        lower_args(funcs, st, args) is Ok ==> extends(st.insts, lower_args(funcs, st, args)->Ok_0.0.insts),
    decreases args, 0nat,
{
    if args.len() > 0 {
        lemma_lower_extends(funcs, st, *args[0]);
        if let Ok((st1, v)) = lower(funcs, st, *args[0]) {
            lemma_args_extends(funcs, st1, args.subrange(1, args.len() as int));
        }
    }
}

/// Lowering a well-formed state gives a well-formed state, and a value that
/// the new instructions define.
pub proof fn lemma_lower_ok(funcs: Seq<Seq<char>>, st: LState, e: TypedExpr)
    requires
        state_ok(st, funcs.len()),
        lower(funcs, st, e) is Ok,
        lower(funcs, st, e)->Ok_0.0.insts.len() <= usize::MAX,
    ensures
        state_ok(lower(funcs, st, e)->Ok_0.0, funcs.len()),
        is_value(lower(funcs, st, e)->Ok_0.0.insts, lower(funcs, st, e)->Ok_0.1),
    decreases e, 2nat,
{
    broadcast use lemma_emit;
    let nf = funcs.len();
    lemma_lower_extends(funcs, st, e);
    match e {
        TypedExpr::Value(_, TypedValue::Array(elems)) => {
            lemma_array_ok(funcs, st, elems@);
        },
        TypedExpr::Ident(_, name) => {
            lemma_lookup_slot(st.vars, name@);
        },
        TypedExpr::Operation(_, lhs, op, rhs) => {
            let (st1, a) = lower(funcs, st, *lhs)->Ok_0;
            lemma_lower_extends(funcs, st1, *rhs);
            lemma_lower_ok(funcs, st, *lhs);
            lemma_lower_ok(funcs, st1, *rhs);
        },
        TypedExpr::Def { ident, value } => {
            lemma_lower_ok(funcs, st, *value);
            let (st1, v) = lower(funcs, st, *value)->Ok_0;
            let var = next(st1);
            let st2 = emit(st1, Instr::DeclareVar { var });
            let st3 = emit(st2, Instr::DefVar { var, src: v });
            lemma_bind(st3, ident@, var, nf);
        },
        TypedExpr::Then { lhs, rhs } => {
            let (st1, _) = lower(funcs, st, *lhs)->Ok_0;
            lemma_lower_extends(funcs, st1, *rhs);
            lemma_lower_ok(funcs, st, *lhs);
            lemma_lower_ok(funcs, st1, *rhs);
        },
        TypedExpr::FunctionCall(_, name, args) => {
            lemma_lookup_func(funcs, name@);
            lemma_args_ok(funcs, st, args@);
        },
        TypedExpr::IfThen { .. } => {
            lemma_if_ok(funcs, st, e);
        },
        TypedExpr::Index { target, index, .. } => {
            let (st1, _) = lower(funcs, st, *target)->Ok_0;
            lemma_lower_extends(funcs, st1, *index);
            lemma_lower_ok(funcs, st, *target);
            lemma_lower_ok(funcs, st1, *index);
        },
        TypedExpr::Len(arr) => {
            lemma_lower_ok(funcs, st, *arr);
        },
        TypedExpr::Each { .. } => {
            lemma_each_ok(funcs, st, e);
        },
        _ => {},
    }
}

proof fn lemma_if_ok(funcs: Seq<Seq<char>>, st: LState, e: TypedExpr)
    requires
        e is IfThen,
        state_ok(st, funcs.len()),
        lower(funcs, st, e) is Ok,
        lower(funcs, st, e)->Ok_0.0.insts.len() <= usize::MAX,
    ensures
        state_ok(lower(funcs, st, e)->Ok_0.0, funcs.len()),
        is_value(lower(funcs, st, e)->Ok_0.0.insts, lower(funcs, st, e)->Ok_0.1),
    decreases e, 1nat,
{
    broadcast use lemma_emit;
    let nf = funcs.len();
    let condition = e->IfThen_condition;
    let then = e->IfThen_then;
    let other = e->IfThen_other;
    let (st1, c) = lower(funcs, st, *condition)->Ok_0;
    let tb = next(st1);
    let st2 = emit(st1, Instr::CreateBlock { block: tb });
    let eb = next(st2);
    let st3 = emit(st2, Instr::CreateBlock { block: eb });
    let mb = next(st3);
    let st4 = emit(st3, Instr::CreateBlock { block: mb });
    let p = next(st4);
    let st5 = emit(st4, Instr::AppendBlockParam { block: mb, dst: p });
    let st6 = emit(
        st5,
        Instr::Brif { cond: c, then_block: tb, then_arg: None, else_block: eb, else_arg: None },
    );
    let st7 = emit(emit(st6, Instr::SwitchToBlock { block: tb }), Instr::SealBlock { block: tb });
    lemma_lower_extends(funcs, st7, *then);
    let (st8, v1) = lower(funcs, st7, *then)->Ok_0;
    let st9 = emit(st8, Instr::Jump { block: mb, arg: Some(v1) });
    let st10 = emit(emit(st9, Instr::SwitchToBlock { block: eb }), Instr::SealBlock { block: eb });
    lemma_lower_extends(funcs, st10, *other);
    lemma_lower_ok(funcs, st, *condition);
    lemma_lower_ok(funcs, st7, *then);
    lemma_lower_ok(funcs, st10, *other);
}

proof fn lemma_each_ok(funcs: Seq<Seq<char>>, st: LState, e: TypedExpr)
    requires
        e is Each,
        state_ok(st, funcs.len()),
        lower(funcs, st, e) is Ok,
        lower(funcs, st, e)->Ok_0.0.insts.len() <= usize::MAX,
    ensures
        state_ok(lower(funcs, st, e)->Ok_0.0, funcs.len()),
        is_value(lower(funcs, st, e)->Ok_0.0.insts, lower(funcs, st, e)->Ok_0.1),
    decreases e, 1nat,
{
    broadcast use lemma_emit;
    let nf = funcs.len();
    let body = e->Each_body;
    let ident = e->Each_ident;
    let target = e->Each_target;
    let (st1, max) = lower(funcs, st, *target)->Ok_0;
    let h = next(st1);
    let st2 = emit(st1, Instr::CreateBlock { block: h });
    let b = next(st2);
    let st3 = emit(st2, Instr::CreateBlock { block: b });
    let x = next(st3);
    let st4 = emit(st3, Instr::CreateBlock { block: x });
    let one = next(st4);
    let st5 = emit(st4, Instr::Iconst { dst: one, imm: 1 });
    let ph = next(st5);
    let st6 = emit(st5, Instr::AppendBlockParam { block: h, dst: ph });
    let pb = next(st6);
    let st7 = emit(st6, Instr::AppendBlockParam { block: b, dst: pb });
    let st8 = emit(emit(st7, Instr::Jump { block: h, arg: Some(one) }), Instr::SwitchToBlock { block: h });
    let c = next(st8);
    let st9 = emit(st8, Instr::Icmp { dst: c, cond: crate::ir::Cond::SignedGt, lhs: ph, rhs: max });
    let st10 = emit(
        st9,
        Instr::Brif { cond: c, then_block: x, then_arg: None, else_block: b, else_arg: Some(ph) },
    );
    let st11 = emit(st10, Instr::SwitchToBlock { block: b });
    let var = next(st11);
    let st12 = emit(emit(st11, Instr::DeclareVar { var }), Instr::DefVar { var, src: pb });
    let stb = bind(st12, ident@, var);
    lemma_lower_extends(funcs, stb, *body);
    lemma_lower_ok(funcs, st, *target);
    assert(state_ok(st12, nf));
    lemma_bind(st12, ident@, var, nf);
    lemma_lower_ok(funcs, stb, *body);
}

pub proof fn lemma_array_ok(funcs: Seq<Seq<char>>, st: LState, elems: Seq<TypedExpr>)
    requires
        state_ok(st, funcs.len()),
        lower_array(funcs, st, elems) is Ok,
        lower_array(funcs, st, elems)->Ok_0.0.insts.len() <= usize::MAX,
    ensures
        state_ok(lower_array(funcs, st, elems)->Ok_0.0, funcs.len()),
        is_slot(lower_array(funcs, st, elems)->Ok_0.0.insts, lower_array(funcs, st, elems)->Ok_0.1),
    decreases elems, 1nat,
{
    broadcast use lemma_emit;
    let slot = next(st);
    let st1 = emit(st, Instr::CreateStackSlot { slot, len: elems.len() as usize });
    let n = next(st1);
    let st2 = emit(st1, Instr::Iconst { dst: n, imm: elems.len() as i64 });
    let st3 = emit(st2, Instr::StackStore { src: n, slot, word: 0 });
    lemma_elems_extends(funcs, st3, elems, slot, 1);
    lemma_elems_ok(funcs, st3, elems, slot, 1);
}

pub proof fn lemma_elems_ok(funcs: Seq<Seq<char>>, st: LState, elems: Seq<TypedExpr>, slot: usize, word: usize)
    requires
        state_ok(st, funcs.len()),
        is_slot(st.insts, slot),
        lower_elems(funcs, st, elems, slot, word) is Ok,
        lower_elems(funcs, st, elems, slot, word)->Ok_0.insts.len() <= usize::MAX,
    ensures
        state_ok(lower_elems(funcs, st, elems, slot, word)->Ok_0, funcs.len()),
    decreases elems, 0nat,
{
    broadcast use lemma_emit;
    if elems.len() > 0 {
        lemma_lower_extends(funcs, st, elems[0]);
        let (st1, v) = lower(funcs, st, elems[0])->Ok_0;
        let st2 = emit(st1, Instr::StackStore { src: v, slot, word });
        let rest = elems.subrange(1, elems.len() as int);
        lemma_elems_extends(funcs, st2, rest, slot, (word + 1) as usize);
        lemma_lower_ok(funcs, st, elems[0]);
        lemma_elems_ok(funcs, st2, rest, slot, (word + 1) as usize);
    }
}

pub proof fn lemma_args_ok(funcs: Seq<Seq<char>>, st: LState, args: Seq<Box<TypedExpr>>)
    requires
        state_ok(st, funcs.len()),
        lower_args(funcs, st, args) is Ok,
        lower_args(funcs, st, args)->Ok_0.0.insts.len() <= usize::MAX,
    ensures
        state_ok(lower_args(funcs, st, args)->Ok_0.0, funcs.len()),
        forall|j: int|
            0 <= j < lower_args(funcs, st, args)->Ok_0.1.len() ==> is_value(
                lower_args(funcs, st, args)->Ok_0.0.insts,
                #[trigger] lower_args(funcs, st, args)->Ok_0.1[j],
            ),
    decreases args, 0nat,
{
    if args.len() > 0 {
        lemma_lower_extends(funcs, st, *args[0]);
        let (st1, v) = lower(funcs, st, *args[0])->Ok_0;
        let rest = args.subrange(1, args.len() as int);
        lemma_args_extends(funcs, st1, rest);
        lemma_lower_ok(funcs, st, *args[0]);
        lemma_args_ok(funcs, st1, rest);
        let (st2, vs) = lower_args(funcs, st1, rest)->Ok_0;
        assert forall|j: int| 0 <= j < (seq![v] + vs).len() implies is_value(st2.insts, #[trigger] (seq![v] + vs)[j]) by {
            if j > 0 {
                assert((seq![v] + vs)[j] == vs[j - 1]);
            }
        }
    }
}

proof fn lemma_params_len(st: LState, names: Seq<Seq<char>>, k: nat)
    ensures
        entry_params(st, k).insts.len() == st.insts.len() + k,
        bind_params(st, names, k).insts.len() == st.insts.len() + 2 * k,
    decreases k,
{
    if k > 0 {
        lemma_params_len(st, names, (k - 1) as nat);
    }
}

proof fn lemma_entry_params(st1: LState, k: nat, nfuncs: nat)
    requires
        state_ok(st1, nfuncs),
        st1.insts.len() == 1,
        st1.insts[0] == (Instr::<Seq<usize>>::CreateBlock { block: 0 }),
        1 + k <= usize::MAX,
    ensures
        state_ok(entry_params(st1, k), nfuncs),
        entry_params(st1, k).insts.len() == 1 + k,
        entry_params(st1, k).insts[0] == (Instr::<Seq<usize>>::CreateBlock { block: 0 }),
        forall|j: usize| 1 <= j <= k ==> #[trigger] is_value(entry_params(st1, k).insts, j),
    decreases k,
{
    broadcast use lemma_emit;
    if k > 0 {
        lemma_entry_params(st1, (k - 1) as nat, nfuncs);
        let prev = entry_params(st1, (k - 1) as nat);
        assert(is_block(prev.insts, 0));
        assert forall|j: usize| 1 <= j <= k implies #[trigger] is_value(entry_params(st1, k).insts, j) by {
            if j < k {
                assert(is_value(prev.insts, j));
            }
        }
    }
}

proof fn lemma_bind_params(st3: LState, names: Seq<Seq<char>>, k: nat, n: nat, nfuncs: nat)
    requires
        state_ok(st3, nfuncs),
        k <= n,
        forall|j: usize| 1 <= j <= n ==> #[trigger] is_value(st3.insts, j),
        st3.insts.len() + 2 * k <= usize::MAX,
    ensures
        state_ok(bind_params(st3, names, k), nfuncs),
        bind_params(st3, names, k).insts.len() == st3.insts.len() + 2 * k,
        extends(st3.insts, bind_params(st3, names, k).insts),
    decreases k,
{
    broadcast use lemma_emit;
    if k > 0 {
        lemma_bind_params(st3, names, (k - 1) as nat, n, nfuncs);
        let prev = bind_params(st3, names, (k - 1) as nat);
        let var = next(prev);
        assert(is_value(st3.insts, k as usize));
        let st1 = emit(emit(prev, Instr::DeclareVar { var }), Instr::DefVar { var, src: k as usize });
        lemma_bind(st1, names[k - 1], var, nfuncs);
    }
}

/// Every instruction of a lowered function uses only values, variables,
/// blocks and stack slots created by instructions before it, and calls only
/// registered functions.
pub proof fn lemma_lowered_function_well_formed(funcs: Seq<Seq<char>>, f: TypedFunc)
    requires
        lower_func(funcs, f) is Ok,
        lower_func(funcs, f)->Ok_0.len() <= usize::MAX,
    ensures
        well_formed(lower_func(funcs, f)->Ok_0, funcs.len()),
{
    broadcast use lemma_emit;
    let nf = funcs.len();
    let n = f.args@.len();
    let st0 = LState { insts: Seq::empty(), vars: Seq::empty() };
    let st1 = emit(st0, Instr::CreateBlock { block: 0 });
    let st2 = entry_params(st1, n);
    let st3 = emit(emit(st2, Instr::SwitchToBlock { block: 0 }), Instr::SealBlock { block: 0 });
    let st4 = bind_params(st3, param_names(f.args@), n);
    lemma_lower_extends(funcs, st4, f.body);
    let (st5, v) = lower(funcs, st4, f.body)->Ok_0;
    lemma_params_len(st1, param_names(f.args@), n);
    lemma_params_len(st3, param_names(f.args@), n);
    assert(state_ok(st0, nf));
    assert(state_ok(st1, nf));
    lemma_entry_params(st1, n, nf);
    assert(is_block(st2.insts, 0));
    assert forall|j: usize| 1 <= j <= n implies #[trigger] is_value(st3.insts, j) by {
        assert(is_value(st2.insts, j));
    }
    lemma_bind_params(st3, param_names(f.args@), n, n, nf);
    lemma_lower_ok(funcs, st4, f.body);
    assert(state_ok(emit(st5, Instr::Return { value: v }), nf));
}

} // verus!
