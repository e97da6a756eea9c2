//! The instructions through which lowering drives a code-generation backend.
//!
//! Every value, block, variable and stack slot is named by the position of the
//! instruction that creates it in its function's instruction list, so names are
//! fresh by construction.
use vstd::prelude::*;

verus! {

/// Integer arithmetic on native words.
#[derive(Debug, Clone, Copy, PartialEq, Eq)]
pub enum ArithOp {
    Add,
    Sub,
    Mul,
    /// Signed division.
    SDiv,
}

/// Signed integer comparisons.
#[derive(Debug, Clone, Copy, PartialEq, Eq)]
pub enum Cond {
    SignedGe,
    SignedLe,
    SignedGt,
    SignedLt,
    Equal,
    NotEqual,
}

/// One backend instruction; `A` holds the arguments of a call.
#[derive(Debug, Clone, PartialEq)]
pub enum Instr<A> {
    /// Creates block `block`.
    CreateBlock { block: usize },
    /// Gives block `block` one more incoming parameter, the value `dst`.
    AppendBlockParam { block: usize, dst: usize },
    /// Makes `block` the block that following instructions go to.
    SwitchToBlock { block: usize },
    /// Declares that every edge into `block` has been emitted.
    SealBlock { block: usize },
    /// The native word `imm`.
    Iconst { dst: usize, imm: i64 },
    Arith { dst: usize, op: ArithOp, lhs: usize, rhs: usize },
    /// A one-bit comparison result.
    Icmp { dst: usize, cond: Cond, lhs: usize, rhs: usize },
    /// Sign-extends a one-bit value to a native word.
    Sextend { dst: usize, src: usize },
    /// Loads the word at address `addr`.
    Load { dst: usize, addr: usize },
    /// Allocates stack room for a length word followed by `len` element words.
    CreateStackSlot { slot: usize, len: usize },
    /// Stores `src` at word `word` of slot `slot`.
    StackStore { src: usize, slot: usize, word: usize },
    /// The address of slot `slot`.
    StackAddr { dst: usize, slot: usize },
    DeclareVar { var: usize },
    DefVar { var: usize, src: usize },
    UseVar { dst: usize, var: usize },
    /// Calls function `func` and takes its first result.
    Call { dst: usize, func: usize, args: A },
    Jump { block: usize, arg: Option<usize> },
    /// Goes to `then_block` when `cond` is nonzero, else to `else_block`.
    Brif {
        cond: usize,
        then_block: usize,
        then_arg: Option<usize>,
        else_block: usize,
        else_arg: Option<usize>,
    },
    Return { value: usize },
}

/// An instruction as emitted.
pub type Inst = Instr<Vec<usize>>;

/// Model of an instruction.
pub type InstModel = Instr<Seq<usize>>;

impl Instr<Vec<usize>> {
    pub open spec fn view(&self) -> InstModel {
        match *self {
            Instr::CreateBlock { block } => Instr::CreateBlock { block },
            Instr::AppendBlockParam { block, dst } => Instr::AppendBlockParam { block, dst },
            Instr::SwitchToBlock { block } => Instr::SwitchToBlock { block },
            Instr::SealBlock { block } => Instr::SealBlock { block },
            Instr::Iconst { dst, imm } => Instr::Iconst { dst, imm },
            Instr::Arith { dst, op, lhs, rhs } => Instr::Arith { dst, op, lhs, rhs },
            Instr::Icmp { dst, cond, lhs, rhs } => Instr::Icmp { dst, cond, lhs, rhs },
            Instr::Sextend { dst, src } => Instr::Sextend { dst, src },
            Instr::Load { dst, addr } => Instr::Load { dst, addr },
            Instr::CreateStackSlot { slot, len } => Instr::CreateStackSlot { slot, len },
            Instr::StackStore { src, slot, word } => Instr::StackStore { src, slot, word },
            Instr::StackAddr { dst, slot } => Instr::StackAddr { dst, slot },
            Instr::DeclareVar { var } => Instr::DeclareVar { var },
            Instr::DefVar { var, src } => Instr::DefVar { var, src },
            Instr::UseVar { dst, var } => Instr::UseVar { dst, var },
            Instr::Call { dst, func, args } => Instr::Call { dst, func, args: args@ },
            Instr::Jump { block, arg } => Instr::Jump { block, arg },
            Instr::Brif { cond, then_block, then_arg, else_block, else_arg } => Instr::Brif {
                cond,
                then_block,
                then_arg,
                else_block,
                else_arg,
            },
            Instr::Return { value } => Instr::Return { value },
        }
    }
}

/// A lowered function.
#[derive(Debug, Clone, PartialEq)]
pub struct FunctionIr {
    pub name: String,
    /// Whether the function is the exported entry point; all others are local.
    pub exported: bool,
    /// Number of parameters; each is a native word, as is the result.
    pub params: usize,
    pub insts: Vec<Inst>,
}

/// Model of a lowered function.
pub struct FunctionModel {
    pub name: Seq<char>,
    pub exported: bool,
    pub params: nat,
    pub insts: Seq<InstModel>,
}

/// Model of a sequence of instructions.
pub open spec fn view_insts(s: Seq<Inst>) -> Seq<InstModel> {
    s.map_values(|i: Inst| i@)
}

impl FunctionIr {
    pub open spec fn view(&self) -> FunctionModel {
        FunctionModel {
            name: self.name@,
            exported: self.exported,
            params: self.params as nat,
            insts: view_insts(self.insts@),
        }
    }
}

} // verus!
