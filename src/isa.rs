//! The instruction set: operators, conditions, registers, statements, and the
//! errors the assembler reports.

use vstd::prelude::*;

verus! {

/// One of the six binary ALU operations of a Calculate instruction.
#[derive(Clone, Copy, Debug, PartialEq, Eq, Structural)]
pub enum Operator {
    Or,
    Nand,
    Nor,
    And,
    Add,
    Sub,
}

/// One of the eight conditions selected by a Set-Condition instruction.
#[derive(Clone, Copy, Debug, PartialEq, Eq, Structural)]
pub enum Condition {
    Off,
    Eq,
    Ls,
    LsEq,
    On,
    NEq,
    GrEq,
    Gr,
}

/// A register; `Io` is the single input/output register.
#[derive(Clone, Copy, Debug, PartialEq, Eq, Structural)]
pub enum Reg {
    Reg0,
    Reg1,
    Reg2,
    Reg3,
    Reg4,
    Reg5,
    Io,
}

impl Operator {
    /// The operator's index in the operand field of its instruction.
    pub open spec fn index(self) -> u8 {
        match self {
            Operator::Or => 0,
            Operator::Nand => 1,
            Operator::Nor => 2,
            Operator::And => 3,
            Operator::Add => 4,
            Operator::Sub => 5,
        }
    }

    /// The canonical (upper-case) mnemonic.
    pub open spec fn name(self) -> Seq<char> {
        match self {
            Operator::Or => "OR"@,
            Operator::Nand => "NAND"@,
            Operator::Nor => "NOR"@,
            Operator::And => "AND"@,
            Operator::Add => "ADD"@,
            Operator::Sub => "SUB"@,
        }
    }

    pub fn code(&self) -> (r: u8)
        ensures
            r == self.index(),
    {
        match self {
            Operator::Or => 0,
            Operator::Nand => 1,
            Operator::Nor => 2,
            Operator::And => 3,
            Operator::Add => 4,
            Operator::Sub => 5,
        }
    }

    pub fn mnemonic(&self) -> (r: &'static str)
        ensures
            r@ == self.name(),
    {
        match self {
            Operator::Or => "OR",
            Operator::Nand => "NAND",
            Operator::Nor => "NOR",
            Operator::And => "AND",
            Operator::Add => "ADD",
            Operator::Sub => "SUB",
        }
    }
}

impl Condition {
    /// The condition's index in the operand field of its instruction.
    pub open spec fn index(self) -> u8 {
        match self {
            Condition::Off => 0,
            Condition::Eq => 1,
            Condition::Ls => 2,
            Condition::LsEq => 3,
            Condition::On => 4,
            Condition::NEq => 5,
            Condition::GrEq => 6,
            Condition::Gr => 7,
        }
    }

    /// The canonical (upper-case) mnemonic.
    pub open spec fn name(self) -> Seq<char> {
        match self {
            Condition::Off => "OFF"@,
            Condition::Eq => "EQ"@,
            Condition::Ls => "LS"@,
            Condition::LsEq => "LSEQ"@,
            Condition::On => "ON"@,
            Condition::NEq => "NEQ"@,
            Condition::GrEq => "GREQ"@,
            Condition::Gr => "GR"@,
        }
    }

    pub fn code(&self) -> (r: u8)
        ensures
            r == self.index(),
    {
        match self {
            Condition::Off => 0,
            Condition::Eq => 1,
            Condition::Ls => 2,
            Condition::LsEq => 3,
            Condition::On => 4,
            Condition::NEq => 5,
            Condition::GrEq => 6,
            Condition::Gr => 7,
        }
    }

    pub fn mnemonic(&self) -> (r: &'static str)
        ensures
            r@ == self.name(),
    {
        match self {
            Condition::Off => "OFF",
            Condition::Eq => "EQ",
            Condition::Ls => "LS",
            Condition::LsEq => "LSEQ",
            Condition::On => "ON",
            Condition::NEq => "NEQ",
            Condition::GrEq => "GREQ",
            Condition::Gr => "GR",
        }
    }
}

impl Reg {
    /// The register's 3-bit index.
    pub open spec fn index(self) -> u8 {
        match self {
            Reg::Reg0 => 0,
            Reg::Reg1 => 1,
            Reg::Reg2 => 2,
            Reg::Reg3 => 3,
            Reg::Reg4 => 4,
            Reg::Reg5 => 5,
            Reg::Io => 6,
        }
    }

    /// The canonical (upper-case) name.
    pub open spec fn name(self) -> Seq<char> {
        match self {
            Reg::Reg0 => "REG0"@,
            Reg::Reg1 => "REG1"@,
            Reg::Reg2 => "REG2"@,
            Reg::Reg3 => "REG3"@,
            Reg::Reg4 => "REG4"@,
            Reg::Reg5 => "REG5"@,
            Reg::Io => "IO"@,
        }
    }

    pub fn code(&self) -> (r: u8)
        ensures
            r == self.index(),
    {
        match self {
            Reg::Reg0 => 0,
            Reg::Reg1 => 1,
            Reg::Reg2 => 2,
            Reg::Reg3 => 3,
            Reg::Reg4 => 4,
            Reg::Reg5 => 5,
            Reg::Io => 6,
        }
    }

    pub fn mnemonic(&self) -> (r: &'static str)
        ensures
            r@ == self.name(),
    {
        match self {
            Reg::Reg0 => "REG0",
            Reg::Reg1 => "REG1",
            Reg::Reg2 => "REG2",
            Reg::Reg3 => "REG3",
            Reg::Reg4 => "REG4",
            Reg::Reg5 => "REG5",
            Reg::Io => "IO",
        }
    }
}

/// The operand of a Load-Immediate statement.
#[derive(Clone, Debug, PartialEq, Eq)]
pub enum Immediate {
    Int(u8),
    Label(String),
}

/// One source statement.
#[derive(Clone, Debug, PartialEq, Eq)]
pub enum Stmt {
    Let(Immediate),
    Calc(Operator),
    CopyReg(Reg, Reg),
    Cond(Condition),
    Label(String),
}

/// The mathematical value of an `Immediate`.
pub enum ImmModel {
    Int(u8),
    Label(Seq<char>),
}

/// The mathematical value of a `Stmt`.
pub enum StmtModel {
    Let(ImmModel),
    Calc(Operator),
    CopyReg(Reg, Reg),
    Cond(Condition),
    Label(Seq<char>),
}

impl View for Immediate {
    type V = ImmModel;

    open spec fn view(&self) -> ImmModel {
        match self {
            Immediate::Int(v) => ImmModel::Int(*v),
            Immediate::Label(n) => ImmModel::Label(n@),
        }
    }
}

impl View for Stmt {
    type V = StmtModel;

    open spec fn view(&self) -> StmtModel {
        match self {
            Stmt::Let(i) => StmtModel::Let(i@),
            Stmt::Calc(o) => StmtModel::Calc(*o),
            Stmt::CopyReg(d, s) => StmtModel::CopyReg(*d, *s),
            Stmt::Cond(c) => StmtModel::Cond(*c),
            Stmt::Label(n) => StmtModel::Label(n@),
        }
    }
}

/// The models of a sequence of statements.
pub open spec fn models(v: Seq<Stmt>) -> Seq<StmtModel> {
    v.map_values(|s: Stmt| s@)
}

/// The views of a sequence of strings.
pub open spec fn views(v: Seq<String>) -> Seq<Seq<char>> {
    v.map_values(|s: String| s@)
}

/// What went wrong.
#[derive(Clone, Copy, Debug, PartialEq, Eq, Structural)]
pub enum ErrorKind {
    /// `LET` without an operand.
    MissingImmediate,
    /// A `LET` operand that is neither a label reference nor a decimal integer.
    InvalidNumber,
    /// A literal immediate above 31.
    ImmediateTooLarge,
    /// A negative literal immediate.
    NegativeImmediate,
    /// A leading token that names no statement.
    UnknownOpcode,
    /// `COPY` with fewer than two register operands.
    MissingRegister,
    /// A register name that names no register.
    UnknownRegister,
    /// A condition name that names no condition.
    UnknownCondition,
    /// A label whose address does not fit in six bits.
    AddressOverflow,
    /// A label that is referenced but never defined.
    UnresolvedLabel,
}

/// An assembly error: its kind, where it arose (a line index while parsing, a
/// statement index afterwards) and the offending token or label name.
#[derive(Clone, Debug, PartialEq, Eq)]
pub struct AsmError {
    pub kind: ErrorKind,
    pub at: usize,
    pub token: String,
}

/// The mathematical value of an error: position, kind and offending text.
pub type ErrorModel = (int, ErrorKind, Seq<char>);

impl AsmError {
    pub open spec fn model(&self) -> ErrorModel {
        (self.at as int, self.kind, self.token@)
    }
}

/// Whether `s` is a Label-Definition.
pub open spec fn is_label(s: StmtModel) -> bool {
    s is Label
}

/// The number of instruction-emitting (non-label) statements in `s`.
pub open spec fn instr_count(s: Seq<StmtModel>) -> nat
    decreases s.len(),
{
    if s.len() == 0 {
        0
    } else if is_label(s.last()) {
        instr_count(s.drop_last())
    } else {
        instr_count(s.drop_last()) + 1
    }
}

/// The instruction class of a non-label statement, held in bits 6 and 7.
pub open spec fn class_of(s: StmtModel) -> u8 {
    match s {
        StmtModel::Let(_) => 0,
        StmtModel::Calc(_) => 1,
        StmtModel::CopyReg(_, _) => 2,
        StmtModel::Cond(_) => 3,
        StmtModel::Label(_) => 0,
    }
}

/// Every literal immediate of `s` fits the five-bit field.
pub open spec fn immediates_fit(s: Seq<StmtModel>) -> bool {
    forall|i: int| 0 <= i < s.len() ==> (#[trigger] s[i] matches StmtModel::Let(ImmModel::Int(v)) ==> v <= 31)
}

} // verus!
