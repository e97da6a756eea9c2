use langc::ast::{Arg, Expr, Func, Op, Type, Value};
use langc::checker::{string_to_type, TypeError, TypeGenerator};
use langc::typed::{FuncType, TypedExpr, TypedValue};

fn num(n: i32) -> Expr {
    Expr::Value(Value::Number(n))
}

fn boolean(b: bool) -> Expr {
    Expr::Value(Value::Bool(b))
}

fn ident(s: &str) -> Expr {
    Expr::Ident(s.to_string())
}

fn op(l: Expr, o: Op, r: Expr) -> Expr {
    Expr::Operation(Box::new(l), o, Box::new(r))
}

fn func(name: &str, args: Vec<Arg>, body: Expr) -> Func {
    Func { name: name.to_string(), args, body }
}

fn check_body(body: Expr) -> Result<TypedExpr, TypeError> {
    let mut tg = TypeGenerator::new();
    tg.generate_types(vec![func("main", vec![], body)]).map(|mut fs| fs.remove(0).body)
}

fn body_type(body: Expr) -> Result<Type, TypeError> {
    let mut tg = TypeGenerator::new();
    tg.generate_types(vec![func("main", vec![], body)]).map(|fs| fs[0].func_type.ret.clone())
}

#[test]
fn return_type_is_body_type() {
    let mut tg = TypeGenerator::new();
    let fs = tg
        .generate_types(vec![
            func("f", vec![Arg { name: "x".to_string(), arg_type: Type::Bool }], ident("x")),
            func("main", vec![], op(num(2), Op::Add, num(3))),
        ])
        .unwrap();
    assert_eq!(fs[0].func_type, FuncType { args: vec![Type::Bool], ret: Type::Bool });
    assert_eq!(fs[1].func_type, FuncType { args: vec![], ret: Type::Int });
    assert_eq!(
        fs[1].body,
        TypedExpr::Operation(
            Type::Int,
            Box::new(TypedExpr::Value(Type::Int, TypedValue::Number(2))),
            Op::Add,
            Box::new(TypedExpr::Value(Type::Int, TypedValue::Number(3))),
        )
    );
}

#[test]
fn operand_type_mismatch() {
    assert_eq!(
        check_body(op(num(1), Op::Add, boolean(true))),
        Err(TypeError::TypeMismatch { lhs: Type::Int, rhs: Type::Bool })
    );
    assert_eq!(
        check_body(op(boolean(false), Op::Lt, num(1))),
        Err(TypeError::TypeMismatch { lhs: Type::Bool, rhs: Type::Int })
    );
}

#[test]
fn comparison_keeps_operand_type() {
    assert_eq!(body_type(op(num(1), Op::Lt, num(2))), Ok(Type::Int));
    assert_eq!(body_type(op(boolean(true), Op::Eq, boolean(false))), Ok(Type::Bool));
}

#[test]
fn array_literal_types() {
    assert_eq!(
        body_type(Expr::Value(Value::Array(vec![num(5)]))),
        Ok(Type::Array(Box::new(Type::Int)))
    );
    assert_eq!(
        check_body(Expr::Value(Value::Array(vec![]))),
        Err(TypeError::EmptyArrayTypeInference)
    );
}

#[test]
fn non_boolean_condition() {
    let e = Expr::IfThen { condition: Box::new(num(5)), then: Box::new(num(1)), other: Box::new(num(2)) };
    assert_eq!(check_body(e), Err(TypeError::NonBooleanCondition(Type::Int)));
}

#[test]
fn branch_type_mismatch() {
    let e = Expr::IfThen {
        condition: Box::new(boolean(true)),
        then: Box::new(num(1)),
        other: Box::new(boolean(true)),
    };
    assert_eq!(
        check_body(e),
        Err(TypeError::BranchTypeMismatch { then_type: Type::Int, else_type: Type::Bool })
    );
}

#[test]
fn conditional_types_to_branch_type() {
    let e = Expr::IfThen {
        condition: Box::new(boolean(true)),
        then: Box::new(boolean(false)),
        other: Box::new(boolean(true)),
    };
    assert_eq!(body_type(e), Ok(Type::Bool));
}

#[test]
fn builtin_call_types() {
    let good = Expr::FunctionCall("printint".to_string(), vec![Box::new(num(5))]);
    assert_eq!(body_type(good), Ok(Type::Int));
    let bad = Expr::FunctionCall("printint".to_string(), vec![Box::new(boolean(true))]);
    assert_eq!(
        check_body(bad),
        Err(TypeError::ArgumentTypeMismatch {
            function: "printint".to_string(),
            position: 0,
            expected: Type::Int,
            found: Type::Bool,
        })
    );
}

#[test]
fn call_errors() {
    let unknown = Expr::FunctionCall("nope".to_string(), vec![]);
    assert_eq!(check_body(unknown), Err(TypeError::UndefinedFunction("nope".to_string())));
    let count = Expr::FunctionCall("readchar".to_string(), vec![Box::new(num(1)), Box::new(num(2))]);
    assert_eq!(
        check_body(count),
        Err(TypeError::ArgumentCountMismatch { function: "readchar".to_string(), expected: 1, found: 2 })
    );
}

#[test]
fn undefined_variable() {
    assert_eq!(check_body(ident("y")), Err(TypeError::UndefinedVariable("y".to_string())));
}

#[test]
fn index_rules() {
    let arr = || Expr::Value(Value::Array(vec![boolean(true), boolean(false)]));
    let ok = Expr::Index { target: Box::new(arr()), index: Box::new(num(0)) };
    assert_eq!(body_type(ok), Ok(Type::Bool));
    let not_array = Expr::Index { target: Box::new(num(3)), index: Box::new(num(0)) };
    assert_eq!(check_body(not_array), Err(TypeError::IndexTargetNotArray(Type::Int)));
    let not_int = Expr::Index { target: Box::new(arr()), index: Box::new(boolean(true)) };
    assert_eq!(check_body(not_int), Err(TypeError::IndexNotInteger(Type::Bool)));
}

#[test]
fn def_stays_visible_for_rest_of_function() {
    let inner = Expr::IfThen {
        condition: Box::new(boolean(true)),
        then: Box::new(Expr::Def { ident: "a".to_string(), value: Box::new(num(1)) }),
        other: Box::new(num(2)),
    };
    let e = Expr::Then { lhs: Box::new(inner), rhs: Box::new(ident("a")) };
    assert_eq!(body_type(e), Ok(Type::Int));
}

#[test]
fn loop_rules() {
    let each = Expr::Each { body: Box::new(ident("i")), ident: "i".to_string(), target: Box::new(num(3)) };
    assert_eq!(body_type(each), Ok(Type::Int));
    let bad = Expr::Each { body: Box::new(num(0)), ident: "i".to_string(), target: Box::new(boolean(true)) };
    assert_eq!(check_body(bad), Err(TypeError::LoopBoundNotInteger(Type::Bool)));
}

#[test]
fn signatures_visible_only_after_checking() {
    let mut tg = TypeGenerator::new();
    let call_g = Expr::FunctionCall("g".to_string(), vec![]);
    let r = tg.generate_types(vec![func("f", vec![], call_g), func("g", vec![], num(1))]);
    assert_eq!(r, Err(TypeError::UndefinedFunction("g".to_string())));

    let mut tg = TypeGenerator::new();
    let call_g = Expr::FunctionCall("g".to_string(), vec![]);
    let fs = tg.generate_types(vec![func("g", vec![], boolean(true)), func("f", vec![], call_g)]).unwrap();
    assert_eq!(fs[1].func_type.ret, Type::Bool);
}

#[test]
fn type_names() {
    assert_eq!(string_to_type("Int"), Some(Type::Int));
    assert_eq!(string_to_type("Float"), Some(Type::Float));
    assert_eq!(string_to_type("Bool"), Some(Type::Bool));
    assert_eq!(
        string_to_type("Array<Array<Bool>>"),
        Some(Type::Array(Box::new(Type::Array(Box::new(Type::Bool)))))
    );
    assert_eq!(string_to_type("Array<Int"), None);
    assert_eq!(string_to_type("Str"), None);
    assert_eq!(string_to_type("Array<>"), None);
}
