//! Properties of the type checker and of lowering, over their models.
use vstd::prelude::*;
use crate::ast::{Expr, Func, Op};
use crate::checker::{check_expr, check_funcs, Scope, Sigs, TypeError};
use crate::codegen::{compile_funcs, view_irs};
use crate::ir::FunctionIr;
use crate::typed::TypedFunc;

verus! {

/// Every function of a well-typed program has as its result type the type of
/// its body.
pub proof fn lemma_return_type_is_body_type(sigs: Sigs, fs: Seq<Func>)
    requires
        check_funcs(sigs, fs) is Ok,
    ensures
        forall|i: int|
            0 <= i < fs.len() ==> #[trigger] check_funcs(sigs, fs)->Ok_0.0[i].ret
                == check_funcs(sigs, fs)->Ok_0.0[i].body.ty(),
        check_funcs(sigs, fs)->Ok_0.0.len() == fs.len(),
    decreases fs.len(),
{
    if fs.len() > 0 {
        let tf = crate::checker::check_func(sigs, fs[0])->Ok_0;
        let rest = fs.subrange(1, fs.len() as int);
        let sigs1 = sigs.push((tf.name@, tf.params, tf.ret));
        lemma_return_type_is_body_type(sigs1, rest);
        let tfs = check_funcs(sigs, fs)->Ok_0.0;
        assert(tfs == seq![tf] + check_funcs(sigs1, rest)->Ok_0.0);
        assert forall|i: int| 0 <= i < fs.len() implies #[trigger] tfs[i].ret == tfs[i].body.ty() by {
            if i > 0 {
                assert(tfs[i] == check_funcs(sigs1, rest)->Ok_0.0[i - 1]);
            }
        }
    }
}

/// A binary operation whose operands check to different types is rejected
/// with `TypeMismatch`, and yields no typed node.
pub proof fn lemma_operand_types_must_match(sigs: Sigs, scope: Scope, lhs: Expr, op: Op, rhs: Expr)
    requires
        check_expr(sigs, scope, lhs) is Ok,
        check_expr(sigs, check_expr(sigs, scope, lhs)->Ok_0.1, rhs) is Ok,
        check_expr(sigs, scope, lhs)->Ok_0.0.ty() != check_expr(
            sigs,
            check_expr(sigs, scope, lhs)->Ok_0.1,
            rhs,
        )->Ok_0.0.ty(),
    ensures
        check_expr(sigs, scope, Expr::Operation(Box::new(lhs), op, Box::new(rhs))) == Err::<
            (crate::typed::TExpr, Scope),
            TypeError,
        >(
            TypeError::TypeMismatch {
                lhs: check_expr(sigs, scope, lhs)->Ok_0.0.ty(),
                rhs: check_expr(sigs, check_expr(sigs, scope, lhs)->Ok_0.1, rhs)->Ok_0.0.ty(),
            },
        ),
{
}

/// Lowering the same typed functions twice against the same registry gives
/// identical lowered functions.
pub proof fn lemma_recompile_identical(
    registry: Seq<Seq<char>>,
    funcs: Seq<TypedFunc>,
    first: Seq<FunctionIr>,
    second: Seq<FunctionIr>,
)
    requires
        compile_funcs(registry, funcs) is Ok,
        view_irs(first) == compile_funcs(registry, funcs)->Ok_0.0,
        view_irs(second) == compile_funcs(registry, funcs)->Ok_0.0,
    ensures
        view_irs(first) == view_irs(second),
{
}

} // verus!
