//! The sealing discipline of lowered instructions: a block is sealed once,
//! and only after every edge into it has been emitted.
use vstd::prelude::*;
use crate::codegen::{
    bind, bind_params, emit, entry_params, lower, lower_args, lower_array, lower_elems, lower_func,
    next, param_names, LState,
};
use crate::ir::{Cond, InstModel, Instr};
use crate::typed::{TypedExpr, TypedFunc, TypedValue};
use crate::wellformed::{lemma_args_extends, lemma_elems_extends, lemma_lower_extends};

verus! {

/// The blocks sealed by the instructions `s`.
pub open spec fn sealed(s: Seq<InstModel>) -> Set<usize>
    decreases s.len(),
{
    if s.len() == 0 {
        Set::empty()
    } else {
        match s.last() {
            Instr::SealBlock { block } => sealed(s.drop_last()).insert(block),
            _ => sealed(s.drop_last()),
        }
    }
}

/// Instruction `i`, appended to `s`, neither adds an edge into a sealed block
/// nor seals a block twice.
pub open spec fn seal_step_ok(s: Seq<InstModel>, i: InstModel) -> bool {
    match i {
        Instr::Jump { block, .. } => !sealed(s).contains(block),
        Instr::Brif { then_block, else_block, .. } => !sealed(s).contains(then_block) && !sealed(
            s,
        ).contains(else_block),
        Instr::SealBlock { block } => !sealed(s).contains(block),
        _ => true,
    }
}

/// Every instruction of `s` keeps to the sealing discipline.
pub open spec fn sealing_ok(s: Seq<InstModel>) -> bool
    decreases s.len(),
{
    s.len() == 0 || (sealing_ok(s.drop_last()) && seal_step_ok(s.drop_last(), s.last()))
}

pub broadcast proof fn lemma_seal_emit(st: LState, i: InstModel)
    ensures
        #[trigger] emit(st, i) == emit(st, i),
        sealed(emit(st, i).insts) == (match i {
            Instr::SealBlock { block } => sealed(st.insts).insert(block),
            _ => sealed(st.insts),
        }),
        sealing_ok(emit(st, i).insts) == (sealing_ok(st.insts) && seal_step_ok(st.insts, i)),
        emit(st, i).insts.len() == st.insts.len() + 1,
{
    assert(st.insts.push(i).drop_last() =~= st.insts);
}

/// The state `st` before lowering: disciplined, with only blocks below `a` sealed.
pub open spec fn seal_pre(st: LState) -> bool {
    sealing_ok(st.insts) && forall|b: usize| #[trigger] sealed(st.insts).contains(b) ==> b < st.insts.len()
}

/// The state `fin` after lowering from `st`: disciplined, and sealing only
/// blocks that were sealed before or created since.
pub open spec fn seal_post(st: LState, fin: LState) -> bool {
    &&& sealing_ok(fin.insts)
    &&& forall|b: usize| #[trigger] sealed(fin.insts).contains(b) ==> b < fin.insts.len()
    &&& forall|b: usize|
        #[trigger] sealed(fin.insts).contains(b) ==> sealed(st.insts).contains(b) || b >= st.insts.len()
}

/// Lowering keeps to the sealing discipline, and seals only blocks it creates.
#[verifier::rlimit(40)]
pub proof fn lemma_lower_seals(funcs: Seq<Seq<char>>, st: LState, e: TypedExpr)
    requires
        seal_pre(st),
        lower(funcs, st, e) is Ok,
        lower(funcs, st, e)->Ok_0.0.insts.len() <= usize::MAX,
    ensures
        seal_post(st, lower(funcs, st, e)->Ok_0.0),
    decreases e, 2nat,
{
    broadcast use lemma_seal_emit;
    lemma_lower_extends(funcs, st, e);
    match e {
        TypedExpr::Value(_, TypedValue::Array(elems)) => {
            lemma_array_seals(funcs, st, elems@);
        },
        TypedExpr::Operation(_, lhs, op, rhs) => {
            let (st1, a) = lower(funcs, st, *lhs)->Ok_0;
            lemma_lower_extends(funcs, st, *lhs);
            lemma_lower_extends(funcs, st1, *rhs);
            lemma_lower_seals(funcs, st, *lhs);
            lemma_lower_seals(funcs, st1, *rhs);
        },
        TypedExpr::Def { ident, value } => {
            lemma_lower_seals(funcs, st, *value);
        },
        TypedExpr::Then { lhs, rhs } => {
            let (st1, _) = lower(funcs, st, *lhs)->Ok_0;
            lemma_lower_extends(funcs, st, *lhs);
            lemma_lower_extends(funcs, st1, *rhs);
            lemma_lower_seals(funcs, st, *lhs);
            lemma_lower_seals(funcs, st1, *rhs);
        },
        TypedExpr::FunctionCall(_, name, args) => {
            lemma_args_seals(funcs, st, args@);
        },
        TypedExpr::IfThen { .. } => {
            lemma_if_seals(funcs, st, e);
        },
        TypedExpr::Index { target, index, .. } => {
            let (st1, _) = lower(funcs, st, *target)->Ok_0;
            lemma_lower_extends(funcs, st, *target);
            lemma_lower_extends(funcs, st1, *index);
            lemma_lower_seals(funcs, st, *target);
            lemma_lower_seals(funcs, st1, *index);
        },
        TypedExpr::Len(arr) => {
            lemma_lower_seals(funcs, st, *arr);
        },
        TypedExpr::Each { .. } => {
            lemma_each_seals(funcs, st, e);
        },
        _ => {},
    }
}

proof fn lemma_if_seals(funcs: Seq<Seq<char>>, st: LState, e: TypedExpr)
    requires
        e is IfThen,
        seal_pre(st),
        lower(funcs, st, e) is Ok,
        lower(funcs, st, e)->Ok_0.0.insts.len() <= usize::MAX,
    ensures
        seal_post(st, lower(funcs, st, e)->Ok_0.0),
    decreases e, 1nat,
{
    broadcast use lemma_seal_emit;
    let condition = e->IfThen_condition;
    let then = e->IfThen_then;
    let other = e->IfThen_other;
    lemma_lower_extends(funcs, st, e);
    lemma_lower_extends(funcs, st, *condition);
    let (st1, c) = lower(funcs, st, *condition)->Ok_0;
    let tb = next(st1);
    let st2 = emit(st1, Instr::CreateBlock { block: tb });
    let eb = next(st2);
    let st3 = emit(st2, Instr::CreateBlock { block: eb });
    let mb = next(st3);
    let st4 = emit(st3, Instr::CreateBlock { block: mb });
    let p = next(st4);
    let st5 = emit(st4, Instr::AppendBlockParam { block: mb, dst: p });
    let st6 = emit(
        st5,
        Instr::Brif { cond: c, then_block: tb, then_arg: None, else_block: eb, else_arg: None },
    );
    let st7 = emit(emit(st6, Instr::SwitchToBlock { block: tb }), Instr::SealBlock { block: tb });
    lemma_lower_extends(funcs, st7, *then);
    let (st8, v1) = lower(funcs, st7, *then)->Ok_0;
    let st9 = emit(st8, Instr::Jump { block: mb, arg: Some(v1) });
    let st10 = emit(emit(st9, Instr::SwitchToBlock { block: eb }), Instr::SealBlock { block: eb });
    lemma_lower_extends(funcs, st10, *other);
    let (st11, v2) = lower(funcs, st10, *other)->Ok_0;
    lemma_lower_seals(funcs, st, *condition);
    assert(seal_post(st, st7));
    lemma_lower_seals(funcs, st7, *then);
    assert(seal_post(st, st10));
    lemma_lower_seals(funcs, st10, *other);
}

proof fn lemma_each_seals(funcs: Seq<Seq<char>>, st: LState, e: TypedExpr)
    requires
        e is Each,
        seal_pre(st),
        lower(funcs, st, e) is Ok,
        lower(funcs, st, e)->Ok_0.0.insts.len() <= usize::MAX,
    ensures
        seal_post(st, lower(funcs, st, e)->Ok_0.0),
    decreases e, 1nat,
{
    broadcast use lemma_seal_emit;
    let body = e->Each_body;
    let ident = e->Each_ident;
    let target = e->Each_target;
    lemma_lower_extends(funcs, st, e);
    lemma_lower_extends(funcs, st, *target);
    let (st1, max) = lower(funcs, st, *target)->Ok_0;
    let h = next(st1);
    let st2 = emit(st1, Instr::CreateBlock { block: h });
    let b = next(st2);
    let st3 = emit(st2, Instr::CreateBlock { block: b });
    let x = next(st3);
    let st4 = emit(st3, Instr::CreateBlock { block: x });
    let one = next(st4);
    let st5 = emit(st4, Instr::Iconst { dst: one, imm: 1 });
    let ph = next(st5);
    let st6 = emit(st5, Instr::AppendBlockParam { block: h, dst: ph });
    let pb = next(st6);
    let st7 = emit(st6, Instr::AppendBlockParam { block: b, dst: pb });
    let st8 = emit(emit(st7, Instr::Jump { block: h, arg: Some(one) }), Instr::SwitchToBlock { block: h });
    let c = next(st8);
    let st9 = emit(st8, Instr::Icmp { dst: c, cond: Cond::SignedGt, lhs: ph, rhs: max });
    let st10 = emit(
        st9,
        Instr::Brif { cond: c, then_block: x, then_arg: None, else_block: b, else_arg: Some(ph) },
    );
    let st11 = emit(st10, Instr::SwitchToBlock { block: b });
    let var = next(st11);
    let st12 = emit(emit(st11, Instr::DeclareVar { var }), Instr::DefVar { var, src: pb });
    let stb = bind(st12, ident@, var);
    lemma_lower_extends(funcs, stb, *body);
    lemma_lower_seals(funcs, st, *target);
    assert(seal_post(st, stb));
    lemma_lower_seals(funcs, stb, *body);
}

proof fn lemma_array_seals(funcs: Seq<Seq<char>>, st: LState, elems: Seq<TypedExpr>)
    requires
        seal_pre(st),
        lower_array(funcs, st, elems) is Ok,
        lower_array(funcs, st, elems)->Ok_0.0.insts.len() <= usize::MAX,
    ensures
        seal_post(st, lower_array(funcs, st, elems)->Ok_0.0),
    decreases elems, 1nat,
{
    broadcast use lemma_seal_emit;
    let slot = next(st);
    let st1 = emit(st, Instr::CreateStackSlot { slot, len: elems.len() as usize });
    let n = next(st1);
    let st2 = emit(st1, Instr::Iconst { dst: n, imm: elems.len() as i64 });
    let st3 = emit(st2, Instr::StackStore { src: n, slot, word: 0 });
    lemma_elems_extends(funcs, st3, elems, slot, 1);
    lemma_elems_seals(funcs, st3, elems, slot, 1);
}

proof fn lemma_elems_seals(funcs: Seq<Seq<char>>, st: LState, elems: Seq<TypedExpr>, slot: usize, word: usize)
    requires
        seal_pre(st),
        lower_elems(funcs, st, elems, slot, word) is Ok,
        lower_elems(funcs, st, elems, slot, word)->Ok_0.insts.len() <= usize::MAX,
    ensures
        seal_post(st, lower_elems(funcs, st, elems, slot, word)->Ok_0),
    decreases elems, 0nat,
{
    broadcast use lemma_seal_emit;
    if elems.len() > 0 {
        lemma_lower_extends(funcs, st, elems[0]);
        let (st1, v) = lower(funcs, st, elems[0])->Ok_0;
        let st2 = emit(st1, Instr::StackStore { src: v, slot, word });
        let rest = elems.subrange(1, elems.len() as int);
        lemma_elems_extends(funcs, st2, rest, slot, (word + 1) as usize);
        lemma_lower_seals(funcs, st, elems[0]);
        lemma_elems_seals(funcs, st2, rest, slot, (word + 1) as usize);
    }
}

proof fn lemma_args_seals(funcs: Seq<Seq<char>>, st: LState, args: Seq<Box<TypedExpr>>)
    requires
        seal_pre(st),
        lower_args(funcs, st, args) is Ok,
        lower_args(funcs, st, args)->Ok_0.0.insts.len() <= usize::MAX,
    ensures
        seal_post(st, lower_args(funcs, st, args)->Ok_0.0),
    decreases args, 0nat,
{
    if args.len() > 0 {
        lemma_lower_extends(funcs, st, *args[0]);
        let (st1, v) = lower(funcs, st, *args[0])->Ok_0;
        let rest = args.subrange(1, args.len() as int);
        lemma_args_extends(funcs, st1, rest);
        lemma_lower_seals(funcs, st, *args[0]);
        lemma_args_seals(funcs, st1, rest);
    }
}

proof fn lemma_params_seal(st: LState, names: Seq<Seq<char>>, k: nat)
    ensures
        sealed(entry_params(st, k).insts) == sealed(st.insts),
        sealing_ok(entry_params(st, k).insts) == sealing_ok(st.insts),
        sealed(bind_params(st, names, k).insts) == sealed(st.insts),
        sealing_ok(bind_params(st, names, k).insts) == sealing_ok(st.insts),
        entry_params(st, k).insts.len() == st.insts.len() + k,
        bind_params(st, names, k).insts.len() == st.insts.len() + 2 * k,
    decreases k,
{
    broadcast use lemma_seal_emit;
    if k > 0 {
        lemma_params_seal(st, names, (k - 1) as nat);
    }
}

/// A lowered function seals each block once, after every edge into it.
pub proof fn lemma_lowered_function_sealing(funcs: Seq<Seq<char>>, f: TypedFunc)
    requires
        lower_func(funcs, f) is Ok,
        lower_func(funcs, f)->Ok_0.len() <= usize::MAX,
    ensures
        sealing_ok(lower_func(funcs, f)->Ok_0),
{
    broadcast use lemma_seal_emit;
    let n = f.args@.len();
    let st0 = LState { insts: Seq::empty(), vars: Seq::empty() };
    let st1 = emit(st0, Instr::CreateBlock { block: 0 });
    let st2 = entry_params(st1, n);
    let st3 = emit(emit(st2, Instr::SwitchToBlock { block: 0 }), Instr::SealBlock { block: 0 });
    let st4 = bind_params(st3, param_names(f.args@), n);
    lemma_params_seal(st1, param_names(f.args@), n);
    lemma_params_seal(st3, param_names(f.args@), n);
    lemma_lower_extends(funcs, st4, f.body);
    assert(sealed(st0.insts) =~= Set::<usize>::empty());
    assert(seal_pre(st4));
    lemma_lower_seals(funcs, st4, f.body);
}

} // verus!
