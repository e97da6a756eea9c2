use std::collections::HashMap;

use langc::ast::{Expr, Func, Op, Type, Value};
use langc::checker::TypeGenerator;
use langc::codegen::{CodegenError, Compiler, FunctionCompiler};
use langc::ir::{ArithOp, Cond, FunctionIr, Inst, Instr};
use langc::typed::{FuncType, TypedExpr, TypedFunc, TypedValue};

const BUILTIN_COUNT: usize = 5;
const SLOT_SPAN: i64 = 1 << 20;

/// Runs lowered functions; calls to builtins are recorded and return 0.
struct Machine<'a> {
    funcs: &'a [FunctionIr],
    calls: Vec<(usize, i64)>,
}

impl<'a> Machine<'a> {
    fn run(&mut self, index: usize, args: &[i64]) -> i64 {
        let insts: &Vec<Inst> = &self.funcs[index].insts;
        let mut starts: HashMap<usize, usize> = HashMap::new();
        let mut params: HashMap<usize, Vec<usize>> = HashMap::new();
        for (pos, inst) in insts.iter().enumerate() {
            match inst {
                Instr::SwitchToBlock { block } => {
                    starts.entry(*block).or_insert(pos + 1);
                }
                Instr::AppendBlockParam { block, dst } => params.entry(*block).or_default().push(*dst),
                _ => {}
            }
        }
        let mut vals: HashMap<usize, i64> = HashMap::new();
        let mut vars: HashMap<usize, i64> = HashMap::new();
        let mut slots: HashMap<usize, Vec<i64>> = HashMap::new();
        let mut enter = |vals: &mut HashMap<usize, i64>, block: usize, args: &[i64]| -> usize {
            for (p, a) in params.get(&block).cloned().unwrap_or_default().iter().zip(args) {
                vals.insert(*p, *a);
            }
            starts[&block]
        };
        let mut pc = enter(&mut vals, 0, args);
        let mut steps = 0;
        loop {
            steps += 1;
            assert!(steps < 100_000, "runaway program");
            let inst = &insts[pc];
            pc += 1;
            match inst {
                Instr::CreateBlock { .. }
                | Instr::AppendBlockParam { .. }
                | Instr::SealBlock { .. }
                | Instr::DeclareVar { .. } => {}
                Instr::SwitchToBlock { .. } => panic!("fell through into a block"),
                Instr::Iconst { dst, imm } => {
                    vals.insert(*dst, *imm);
                }
                Instr::Arith { dst, op, lhs, rhs } => {
                    let (a, b) = (vals[lhs], vals[rhs]);
                    let v = match op {
                        ArithOp::Add => a.wrapping_add(b),
                        ArithOp::Sub => a.wrapping_sub(b),
                        ArithOp::Mul => a.wrapping_mul(b),
                        ArithOp::SDiv => a / b,
                    };
                    vals.insert(*dst, v);
                }
                Instr::Icmp { dst, cond, lhs, rhs } => {
                    let (a, b) = (vals[lhs], vals[rhs]);
                    let c = match cond {
                        Cond::SignedGe => a >= b,
                        Cond::SignedLe => a <= b,
                        Cond::SignedGt => a > b,
                        Cond::SignedLt => a < b,
                        Cond::Equal => a == b,
                        Cond::NotEqual => a != b,
                    };
                    vals.insert(*dst, c as i64);
                }
                Instr::Sextend { dst, src } => {
                    vals.insert(*dst, if vals[src] & 1 == 1 { -1 } else { 0 });
                }
                Instr::CreateStackSlot { slot, len } => {
                    slots.insert(*slot, vec![0; len + 1]);
                }
                Instr::StackStore { src, slot, word } => {
                    let v = vals[src];
                    slots.get_mut(slot).unwrap()[*word] = v;
                }
                Instr::StackAddr { dst, slot } => {
                    vals.insert(*dst, (*slot as i64 + 1) * SLOT_SPAN);
                }
                Instr::Load { dst, addr } => {
                    let a = vals[addr];
                    let slot = (a / SLOT_SPAN - 1) as usize;
                    let word = ((a % SLOT_SPAN) / 8) as usize;
                    vals.insert(*dst, slots[&slot][word]);
                }
                Instr::DefVar { var, src } => {
                    vars.insert(*var, vals[src]);
                }
                Instr::UseVar { dst, var } => {
                    vals.insert(*dst, vars[var]);
                }
                Instr::Call { dst, func, args } => {
                    let argv: Vec<i64> = args.iter().map(|a| vals[a]).collect();
                    let v = if *func < BUILTIN_COUNT {
                        self.calls.push((*func, argv[0]));
                        0
                    } else {
                        self.run(*func - BUILTIN_COUNT, &argv)
                    };
                    vals.insert(*dst, v);
                }
                Instr::Jump { block, arg } => {
                    let a: Vec<i64> = arg.iter().map(|v| vals[v]).collect();
                    pc = enter(&mut vals, *block, &a);
                }
                Instr::Brif { cond, then_block, then_arg, else_block, else_arg } => {
                    let (block, arg) =
                        if vals[cond] != 0 { (then_block, then_arg) } else { (else_block, else_arg) };
                    let a: Vec<i64> = arg.iter().map(|v| vals[v]).collect();
                    pc = enter(&mut vals, *block, &a);
                }
                Instr::Return { value } => return vals[value],
            }
        }
    }
}

fn num(n: i32) -> Expr {
    Expr::Value(Value::Number(n))
}

fn ident(s: &str) -> Expr {
    Expr::Ident(s.to_string())
}

fn compile(funcs: Vec<Func>) -> Vec<FunctionIr> {
    let typed = TypeGenerator::new().generate_types(funcs).unwrap();
    Compiler::new().compile_program(typed).unwrap()
}

fn main_of(body: Expr) -> Func {
    Func { name: "main".to_string(), args: vec![], body }
}

fn typed_main(body: TypedExpr) -> TypedFunc {
    TypedFunc {
        name: "main".to_string(),
        args: vec![],
        func_type: FuncType { args: vec![], ret: Type::Int },
        body,
    }
}

#[test]
fn addition_returns_five() {
    let irs = compile(vec![main_of(Expr::Operation(Box::new(num(2)), Op::Add, Box::new(num(3))))]);
    assert_eq!(irs.len(), 1);
    assert!(irs[0].exported);
    assert_eq!(
        irs[0].insts,
        vec![
            Instr::CreateBlock { block: 0 },
            Instr::SwitchToBlock { block: 0 },
            Instr::SealBlock { block: 0 },
            Instr::Iconst { dst: 3, imm: 2 },
            Instr::Iconst { dst: 4, imm: 3 },
            Instr::Arith { dst: 5, op: ArithOp::Add, lhs: 3, rhs: 4 },
            Instr::Return { value: 5 },
        ]
    );
    let mut m = Machine { funcs: &irs, calls: vec![] };
    assert_eq!(m.run(0, &[]), 5);
}

#[test]
fn each_loop_runs_body_for_each_counter() {
    let body = Expr::FunctionCall("printint".to_string(), vec![Box::new(ident("i"))]);
    let each = Expr::Each { body: Box::new(body), ident: "i".to_string(), target: Box::new(num(3)) };
    let irs = compile(vec![main_of(each)]);
    let created = irs[0].insts.iter().filter(|i| matches!(i, Instr::CreateBlock { .. })).count();
    assert_eq!(created, 4);
    let mut m = Machine { funcs: &irs, calls: vec![] };
    assert_eq!(m.run(0, &[]), 0);
    assert_eq!(m.calls, vec![(0, 1), (0, 2), (0, 3)]);
}

#[test]
fn each_loop_seals_header_after_back_edge() {
    let each = Expr::Each { body: Box::new(ident("i")), ident: "i".to_string(), target: Box::new(num(3)) };
    let irs = compile(vec![main_of(each)]);
    let insts = &irs[0].insts;
    let header = insts
        .iter()
        .find_map(|i| match i {
            Instr::Jump { block, arg: Some(_) } => Some(*block),
            _ => None,
        })
        .unwrap();
    let jumps: Vec<usize> = insts
        .iter()
        .enumerate()
        .filter(|(_, i)| matches!(i, Instr::Jump { block, .. } if *block == header))
        .map(|(p, _)| p)
        .collect();
    let seal = insts.iter().position(|i| *i == Instr::SealBlock { block: header }).unwrap();
    assert_eq!(jumps.len(), 2);
    assert!(jumps.iter().all(|p| *p < seal));
}

#[test]
fn array_length_and_index() {
    let arr = || {
        TypedExpr::Value(
            Type::Array(Box::new(Type::Int)),
            TypedValue::Array(vec![
                TypedExpr::Value(Type::Int, TypedValue::Number(1)),
                TypedExpr::Value(Type::Int, TypedValue::Number(2)),
                TypedExpr::Value(Type::Int, TypedValue::Number(3)),
            ]),
        )
    };
    let len = typed_main(TypedExpr::Len(Box::new(arr())));
    let irs = Compiler::new().compile_program(vec![len]).unwrap();
    assert!(irs[0].insts.contains(&Instr::CreateStackSlot { slot: 3, len: 3 }));
    assert_eq!(Machine { funcs: &irs, calls: vec![] }.run(0, &[]), 3);

    for (i, want) in [(0, 1), (1, 2), (2, 3)] {
        let index = typed_main(TypedExpr::Index {
            target: Box::new(arr()),
            index: Box::new(TypedExpr::Value(Type::Int, TypedValue::Number(i))),
            contained_type: Type::Int,
        });
        let irs = Compiler::new().compile_program(vec![index]).unwrap();
        assert_eq!(Machine { funcs: &irs, calls: vec![] }.run(0, &[]), want);
    }
}

#[test]
fn recompiling_is_identical() {
    let program = || {
        vec![
            Func {
                name: "double".to_string(),
                args: vec![langc::ast::Arg { name: "x".to_string(), arg_type: Type::Int }],
                body: Expr::Operation(Box::new(ident("x")), Op::Mul, Box::new(num(2))),
            },
            main_of(Expr::IfThen {
                condition: Box::new(Expr::Value(Value::Bool(true))),
                then: Box::new(Expr::FunctionCall("double".to_string(), vec![Box::new(num(21))])),
                other: Box::new(num(0)),
            }),
        ]
    };
    let first = compile(program());
    let second = compile(program());
    assert_eq!(first, second);
    assert!(!first[0].exported);
    assert!(first[1].exported);
    assert_eq!(Machine { funcs: &first, calls: vec![] }.run(1, &[]), 42);
}

#[test]
fn booleans_and_comparisons() {
    let cmp = Expr::Operation(Box::new(num(2)), Op::Lt, Box::new(num(3)));
    let irs = compile(vec![main_of(cmp)]);
    assert_eq!(Machine { funcs: &irs, calls: vec![] }.run(0, &[]), -1);
    let irs = compile(vec![main_of(Expr::Value(Value::Bool(true)))]);
    assert_eq!(Machine { funcs: &irs, calls: vec![] }.run(0, &[]), -1);
    let irs = compile(vec![main_of(Expr::Value(Value::Bool(false)))]);
    assert_eq!(Machine { funcs: &irs, calls: vec![] }.run(0, &[]), 0);
    let div = Expr::Operation(Box::new(num(-7)), Op::Div, Box::new(num(2)));
    let irs = compile(vec![main_of(div)]);
    assert_eq!(Machine { funcs: &irs, calls: vec![] }.run(0, &[]), -3);
}

#[test]
fn def_binds_fresh_variable() {
    let e = Expr::Then {
        lhs: Box::new(Expr::Def { ident: "a".to_string(), value: Box::new(num(4)) }),
        rhs: Box::new(Expr::Then {
            lhs: Box::new(Expr::Def { ident: "a".to_string(), value: Box::new(num(6)) }),
            rhs: Box::new(Expr::Operation(Box::new(ident("a")), Op::Sub, Box::new(num(1)))),
        }),
    };
    let irs = compile(vec![main_of(e)]);
    let vars: Vec<usize> = irs[0]
        .insts
        .iter()
        .filter_map(|i| match i {
            Instr::DeclareVar { var } => Some(*var),
            _ => None,
        })
        .collect();
    assert_eq!(vars.len(), 2);
    assert_ne!(vars[0], vars[1]);
    assert_eq!(Machine { funcs: &irs, calls: vec![] }.run(0, &[]), 5);
}

#[test]
fn parameters_reach_body() {
    let sub = Func {
        name: "sub".to_string(),
        args: vec![
            langc::ast::Arg { name: "a".to_string(), arg_type: Type::Int },
            langc::ast::Arg { name: "b".to_string(), arg_type: Type::Int },
        ],
        body: Expr::Operation(Box::new(ident("a")), Op::Sub, Box::new(ident("b"))),
    };
    let irs = compile(vec![sub]);
    assert_eq!(irs[0].params, 2);
    assert_eq!(Machine { funcs: &irs, calls: vec![] }.run(0, &[10, 4]), 6);
}

#[test]
fn codegen_errors() {
    let call = typed_main(TypedExpr::FunctionCall(Type::Int, "missing".to_string(), vec![]));
    assert_eq!(
        Compiler::new().compile_program(vec![call]),
        Err(CodegenError::UnknownFunctionReference("missing".to_string()))
    );
    let var = typed_main(TypedExpr::Ident(Type::Int, "ghost".to_string()));
    let fc = FunctionCompiler::new(vec!["printint".to_string()]);
    assert_eq!(fc.compile(&var), Err(CodegenError::UndefinedVariableReference("ghost".to_string())));
}

#[test]
fn builtins_get_first_ids() {
    let call = Expr::FunctionCall("readchar".to_string(), vec![Box::new(num(0))]);
    let irs = compile(vec![main_of(call)]);
    assert!(irs[0].insts.iter().any(|i| matches!(i, Instr::Call { func: 4, .. })));
}

fn defines(insts: &[Inst], v: usize) -> bool {
    match insts.get(v) {
        Some(Instr::AppendBlockParam { dst, .. })
        | Some(Instr::Iconst { dst, .. })
        | Some(Instr::Arith { dst, .. })
        | Some(Instr::Icmp { dst, .. })
        | Some(Instr::Sextend { dst, .. })
        | Some(Instr::Load { dst, .. })
        | Some(Instr::StackAddr { dst, .. })
        | Some(Instr::UseVar { dst, .. })
        | Some(Instr::Call { dst, .. }) => *dst == v,
        _ => false,
    }
}

#[test]
fn operands_are_defined_before_use() {
    let int = |n: i32| TypedExpr::Value(Type::Int, TypedValue::Number(n));
    let var = || TypedExpr::Ident(Type::Int, "i".to_string());
    let body = TypedExpr::Each {
        body: Box::new(TypedExpr::IfThen {
            condition: Box::new(TypedExpr::Operation(Type::Bool, Box::new(var()), Op::Eq, Box::new(int(2)))),
            then: Box::new(TypedExpr::FunctionCall(Type::Int, "printint".to_string(), vec![Box::new(var())])),
            other: Box::new(TypedExpr::Index {
                target: Box::new(TypedExpr::Value(
                    Type::Array(Box::new(Type::Int)),
                    TypedValue::Array(vec![int(7), var()]),
                )),
                index: Box::new(int(1)),
                contained_type: Type::Int,
            }),
        }),
        ident: "i".to_string(),
        target: Box::new(int(4)),
    };
    let irs = Compiler::new().compile_program(vec![typed_main(body)]).unwrap();
    let insts = &irs[0].insts;
    for (pos, inst) in insts.iter().enumerate() {
        let before = &insts[..pos];
        let operands: Vec<usize> = match inst {
            Instr::Arith { lhs, rhs, .. } | Instr::Icmp { lhs, rhs, .. } => vec![*lhs, *rhs],
            Instr::Sextend { src, .. } | Instr::DefVar { src, .. } | Instr::StackStore { src, .. } => vec![*src],
            Instr::Load { addr, .. } => vec![*addr],
            Instr::Call { args, .. } => args.clone(),
            Instr::Jump { arg, .. } => arg.iter().copied().collect(),
            Instr::Brif { cond, then_arg, else_arg, .. } => {
                let mut v = vec![*cond];
                v.extend(then_arg.iter().copied());
                v.extend(else_arg.iter().copied());
                v
            }
            Instr::Return { value } => vec![*value],
            _ => vec![],
        };
        for o in operands {
            assert!(defines(before, o), "operand {o} of instruction {pos} is not defined before it");
        }
        if let Instr::UseVar { var, .. } | Instr::DefVar { var, .. } = inst {
            assert_eq!(before.get(*var), Some(&Instr::DeclareVar { var: *var }));
        }
    }
    let mut m = Machine { funcs: &irs, calls: vec![] };
    assert_eq!(m.run(0, &[]), 0);
    assert_eq!(m.calls, vec![(0, 2)]);
}
