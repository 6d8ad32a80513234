//! Source text to statements.

use vstd::prelude::*;
use vstd::string::*;
use crate::isa::{AsmError, Condition, ErrorKind, ErrorModel, ImmModel, Immediate, Operator, Reg, Stmt, StmtModel};
use crate::isa::{models, views};
use crate::lexer::{decimal_value, parse_i32, same_text, split_words, to_upper, upper_of, words};

verus! {

/// A failure within one line: its kind and the offending token.
pub type LineError = (ErrorKind, Seq<char>);

/// The operator that an upper-case mnemonic names.
pub open spec fn calc_of(u: Seq<char>) -> Option<Operator> {
    if u == "OR"@ {
        Some(Operator::Or)
    } else if u == "NAND"@ {
        Some(Operator::Nand)
    } else if u == "NOR"@ {
        Some(Operator::Nor)
    } else if u == "AND"@ {
        Some(Operator::And)
    } else if u == "ADD"@ {
        Some(Operator::Add)
    } else if u == "SUB"@ {
        Some(Operator::Sub)
    } else {
        None
    }
}

/// The condition that an upper-case mnemonic names.
pub open spec fn cond_of(u: Seq<char>) -> Option<Condition> {
    if u == "OFF"@ {
        Some(Condition::Off)
    } else if u == "EQ"@ {
        Some(Condition::Eq)
    } else if u == "LS"@ {
        Some(Condition::Ls)
    } else if u == "LSEQ"@ {
        Some(Condition::LsEq)
    } else if u == "ON"@ {
        Some(Condition::On)
    } else if u == "NEQ"@ {
        Some(Condition::NEq)
    } else if u == "GREQ"@ {
        Some(Condition::GrEq)
    } else if u == "GR"@ {
        Some(Condition::Gr)
    } else {
        None
    }
}

/// The register that an upper-case name denotes; `IO`, `IN` and `OUT` all
/// denote the input/output register.
pub open spec fn reg_of(u: Seq<char>) -> Option<Reg> {
    if u == "REG0"@ {
        Some(Reg::Reg0)
    } else if u == "REG1"@ {
        Some(Reg::Reg1)
    } else if u == "REG2"@ {
        Some(Reg::Reg2)
    } else if u == "REG3"@ {
        Some(Reg::Reg3)
    } else if u == "REG4"@ {
        Some(Reg::Reg4)
    } else if u == "REG5"@ {
        Some(Reg::Reg5)
    } else if u == "IO"@ || u == "OUT"@ || u == "IN"@ {
        Some(Reg::Io)
    } else {
        None
    }
}

/// A register operand, looked up case-insensitively.
pub open spec fn reg_outcome(t: Seq<char>) -> Result<Reg, LineError> {
    match reg_of(upper_of(t)) {
        Some(r) => Ok(r),
        None => Err((ErrorKind::UnknownRegister, t)),
    }
}

/// A token of the form `@name:`.
pub open spec fn is_label_def(t: Seq<char>) -> bool {
    t.len() >= 2 && t[0] == '@' && t.last() == ':'
}

/// A comment token: one that starts with `#`.
pub open spec fn is_comment(t: Seq<char>) -> bool {
    t.len() > 0 && t[0] == '#'
}

/// The operand of `LET`: `@name` refers to a label, anything else must be a
/// decimal integer in [0, 31].
pub open spec fn imm_outcome(t: Seq<char>) -> Result<StmtModel, LineError> {
    if t.len() > 0 && t[0] == '@' {
        Ok(StmtModel::Let(ImmModel::Label(t.skip(1))))
    } else {
        match decimal_value(t) {
            Some(v) => if v < i32::MIN || v > i32::MAX {
                Err((ErrorKind::InvalidNumber, t))
            } else if v >= 32 {
                Err((ErrorKind::ImmediateTooLarge, t))
            } else if v < 0 {
                Err((ErrorKind::NegativeImmediate, t))
            } else {
                Ok(StmtModel::Let(ImmModel::Int(v as u8)))
            },
            None => Err((ErrorKind::InvalidNumber, t)),
        }
    }
}

/// `COPY dest src`, given its two operand tokens.
pub open spec fn copy_outcome(d: Seq<char>, s: Seq<char>) -> Result<StmtModel, LineError> {
    match reg_outcome(d) {
        Err(e) => Err(e),
        Ok(dr) => match reg_outcome(s) {
            Err(e) => Err(e),
            Ok(sr) => Ok(StmtModel::CopyReg(dr, sr)),
        },
    }
}

/// An instruction line whose words are `w` (at least one, not a label or a
/// comment); `u` is the first word in upper case.
pub open spec fn instr_outcome(w: Seq<Seq<char>>, u: Seq<char>) -> Result<StmtModel, LineError> {
    if u == "LET"@ {
        if w.len() < 2 {
            Err((ErrorKind::MissingImmediate, w[0]))
        } else {
            imm_outcome(w[1])
        }
    } else if calc_of(u) is Some {
        Ok(StmtModel::Calc(calc_of(u).unwrap()))
    } else if u == "COPY"@ {
        if w.len() < 3 {
            Err((ErrorKind::MissingRegister, w[0]))
        } else {
            copy_outcome(w[1], w[2])
        }
    } else if cond_of(u) is Some {
        Ok(StmtModel::Cond(cond_of(u).unwrap()))
    } else {
        Err((ErrorKind::UnknownOpcode, w[0]))
    }
}

/// One source line: nothing (blank or comment), a statement, or an error.
pub open spec fn line_outcome(line: Seq<char>) -> Result<Option<StmtModel>, LineError> {
    let w = words(line);
    if w.len() == 0 || is_comment(w[0]) {
        Ok(None)
    } else if is_label_def(w[0]) {
        Ok(Some(StmtModel::Label(w[0].subrange(1, w[0].len() - 1))))
    } else {
        match instr_outcome(w, upper_of(w[0])) {
            Ok(s) => Ok(Some(s)),
            Err(e) => Err(e),
        }
    }
}

/// A whole program: its statements in source order, or the first error with
/// the index of its line.
pub open spec fn parse_spec(lines: Seq<Seq<char>>) -> Result<Seq<StmtModel>, ErrorModel>
    decreases lines.len(),
{
    if lines.len() == 0 {
        Ok(seq![])
    } else {
        match parse_spec(lines.drop_last()) {
            Err(e) => Err(e),
            Ok(ss) => match line_outcome(lines.last()) {
                Err((k, t)) => Err((lines.len() - 1, k, t)),
                Ok(None) => Ok(ss),
                Ok(Some(s)) => Ok(ss.push(s)),
            },
        }
    }
}

/// `e` is the line-level error `le`, not yet placed on a line.
pub open spec fn error_is(e: AsmError, le: LineError) -> bool {
    e.kind == le.0 && e.token@ == le.1 && e.at == 0
}

pub open spec fn stmt_result_is(r: Result<Stmt, AsmError>, o: Result<StmtModel, LineError>) -> bool {
    match r {
        Ok(s) => o is Ok && o->Ok_0 == s@,
        Err(e) => o is Err && error_is(e, o->Err_0),
    }
}

fn error_at(kind: ErrorKind, token: &str) -> (e: AsmError)
    ensures
        error_is(e, (kind, token@)),
{
    AsmError { kind, at: 0, token: token.to_owned() }
}

/// Whether `token` is exactly one of the six operator mnemonics.
pub fn is_calc(token: &str) -> (r: bool)
    ensures
        r == calc_of(token@) is Some,
{
    same_text(token, "OR") || same_text(token, "NAND") || same_text(token, "NOR")
        || same_text(token, "AND") || same_text(token, "ADD") || same_text(token, "SUB")
}

/// Whether `token` is exactly one of the eight condition mnemonics.
pub fn is_cond(token: &str) -> (r: bool)
    ensures
        r == cond_of(token@) is Some,
{
    same_text(token, "OFF") || same_text(token, "EQ") || same_text(token, "LS") || same_text(
        token,
        "LSEQ",
    ) || same_text(token, "ON") || same_text(token, "NEQ") || same_text(token, "GREQ")
        || same_text(token, "GR")
}

/// The Calculate statement that an upper-case operator mnemonic names.
pub fn parse_calc(operator: &str) -> (r: Result<Stmt, AsmError>)
    ensures
        match calc_of(operator@) {
            Some(o) => r == Ok::<Stmt, AsmError>(Stmt::Calc(o)),
            None => r is Err && error_is(r->Err_0, (ErrorKind::UnknownOpcode, operator@)),
        },
{
    if same_text(operator, "OR") {
        Ok(Stmt::Calc(Operator::Or))
    } else if same_text(operator, "NAND") {
        Ok(Stmt::Calc(Operator::Nand))
    } else if same_text(operator, "NOR") {
        Ok(Stmt::Calc(Operator::Nor))
    } else if same_text(operator, "AND") {
        Ok(Stmt::Calc(Operator::And))
    } else if same_text(operator, "ADD") {
        Ok(Stmt::Calc(Operator::Add))
    } else if same_text(operator, "SUB") {
        Ok(Stmt::Calc(Operator::Sub))
    } else {
        Err(error_at(ErrorKind::UnknownOpcode, operator))
    }
}

/// The Set-Condition statement that an upper-case condition mnemonic names.
pub fn parse_cond(condition: &str) -> (r: Result<Stmt, AsmError>)
    ensures
        match cond_of(condition@) {
            Some(c) => r == Ok::<Stmt, AsmError>(Stmt::Cond(c)),
            None => r is Err && error_is(r->Err_0, (ErrorKind::UnknownCondition, condition@)),
        },
{
    if same_text(condition, "OFF") {
        Ok(Stmt::Cond(Condition::Off))
    } else if same_text(condition, "EQ") {
        Ok(Stmt::Cond(Condition::Eq))
    } else if same_text(condition, "LS") {
        Ok(Stmt::Cond(Condition::Ls))
    } else if same_text(condition, "LSEQ") {
        Ok(Stmt::Cond(Condition::LsEq))
    } else if same_text(condition, "ON") {
        Ok(Stmt::Cond(Condition::On))
    } else if same_text(condition, "NEQ") {
        Ok(Stmt::Cond(Condition::NEq))
    } else if same_text(condition, "GREQ") {
        Ok(Stmt::Cond(Condition::GrEq))
    } else if same_text(condition, "GR") {
        Ok(Stmt::Cond(Condition::Gr))
    } else {
        Err(error_at(ErrorKind::UnknownCondition, condition))
    }
}

/// The register that an upper-case name denotes.
pub fn register_named(u: &str) -> (r: Option<Reg>)
    ensures
        r == reg_of(u@),
{
    if same_text(u, "REG0") {
        Some(Reg::Reg0)
    } else if same_text(u, "REG1") {
        Some(Reg::Reg1)
    } else if same_text(u, "REG2") {
        Some(Reg::Reg2)
    } else if same_text(u, "REG3") {
        Some(Reg::Reg3)
    } else if same_text(u, "REG4") {
        Some(Reg::Reg4)
    } else if same_text(u, "REG5") {
        Some(Reg::Reg5)
    } else if same_text(u, "IO") || same_text(u, "OUT") || same_text(u, "IN") {
        Some(Reg::Io)
    } else {
        None
    }
}

/// A register name, in any case.
pub fn parse_reg(reg: &str) -> (r: Result<Reg, AsmError>)
    ensures
        match reg_outcome(reg@) {
            Ok(x) => r == Ok::<Reg, AsmError>(x),
            Err(le) => r is Err && error_is(r->Err_0, le),
        },
{
    let u = to_upper(reg);
    match register_named(u.as_str()) {
        Some(x) => Ok(x),
        None => Err(error_at(ErrorKind::UnknownRegister, reg)),
    }
}

/// `COPY dest src`: both operands must name registers.
pub fn parse_copy(dest: &str, src: &str) -> (r: Result<Stmt, AsmError>)
    ensures
        stmt_result_is(r, copy_outcome(dest@, src@)),
{
    let d = parse_reg(dest)?;
    let s = parse_reg(src)?;
    Ok(Stmt::CopyReg(d, s))
}

/// The operand of `LET`.
pub fn parse_immediate(operand: &str) -> (r: Result<Stmt, AsmError>)
    ensures
        stmt_result_is(r, imm_outcome(operand@)),
{
    let n = operand.unicode_len();
    if n > 0 && operand.get_char(0) == '@' {
        let name = operand.substring_char(1, n).to_owned();
        return Ok(Stmt::Let(Immediate::Label(name)));
    }
    match parse_i32(operand) {
        None => Err(error_at(ErrorKind::InvalidNumber, operand)),
        Some(v) => if v >= 32 {
            Err(error_at(ErrorKind::ImmediateTooLarge, operand))
        } else if v < 0 {
            Err(error_at(ErrorKind::NegativeImmediate, operand))
        } else {
            Ok(Stmt::Let(Immediate::Int(v as u8)))
        },
    }
}

/// One source line: `None` for a blank or comment line.
pub fn parse_line(line: &str) -> (r: Result<Option<Stmt>, AsmError>)
    ensures
        match line_outcome(line@) {
            Ok(None) => r == Ok::<Option<Stmt>, AsmError>(None),
            Ok(Some(m)) => r is Ok && r->Ok_0 is Some && r->Ok_0->Some_0@ == m,
            Err(le) => r is Err && error_is(r->Err_0, le),
        },
{
    let w = split_words(line);
    let ghost wv = words(line@);
    if w.len() == 0 {
        return Ok(None);
    }
    assert(wv[0] == w@[0]@);
    let first = w[0].as_str();
    let n = first.unicode_len();
    if n > 0 && first.get_char(0) == '#' {
        return Ok(None);
    }
    if n >= 2 && first.get_char(0) == '@' && first.get_char(n - 1) == ':' {
        let name = first.substring_char(1, n - 1).to_owned();
        return Ok(Some(Stmt::Label(name)));
    }
    let upper = to_upper(first);
    let u = upper.as_str();
    let stmt = if same_text(u, "LET") {
        if w.len() < 2 {
            return Err(error_at(ErrorKind::MissingImmediate, first));
        }
        assert(wv[1] == w@[1]@);
        parse_immediate(w[1].as_str())?
    } else if is_calc(u) {
        parse_calc(u)?
    } else if same_text(u, "COPY") {
        if w.len() < 3 {
            return Err(error_at(ErrorKind::MissingRegister, first));
        }
        assert(wv[1] == w@[1]@);
        assert(wv[2] == w@[2]@);
        parse_copy(w[1].as_str(), w[2].as_str())?
    } else if is_cond(u) {
        parse_cond(u)?
    } else {
        return Err(error_at(ErrorKind::UnknownOpcode, first));
    };
    Ok(Some(stmt))
}

/// A whole program, line by line: the statements in source order, or the first
/// error, placed on the index of its line.
pub fn parse(lines: &Vec<String>) -> (r: Result<Vec<Stmt>, AsmError>)
    ensures
        match r {
            Ok(v) => parse_spec(views(lines@)) == Ok::<Seq<StmtModel>, ErrorModel>(models(v@)),
            Err(e) => parse_spec(views(lines@)) == Err::<Seq<StmtModel>, ErrorModel>(e.model()),
        },
{
    let mut stmts: Vec<Stmt> = Vec::new();
    let mut i: usize = 0;
    let ghost all = views(lines@);
    assert(all.take(0) =~= seq![]);
    assert(models(stmts@) =~= seq![]);
    while i < lines.len()
        invariant
            i <= lines.len(),
            all == views(lines@),
            parse_spec(all.take(i as int)) == Ok::<Seq<StmtModel>, ErrorModel>(models(stmts@)),
        decreases lines.len() - i,
    {
        let ghost before = models(stmts@);
        assert(all.take(i + 1).drop_last() =~= all.take(i as int));
        assert(all.take(i + 1).last() == lines@[i as int]@);
        match parse_line(lines[i].as_str()) {
            Err(e) => {
                let mut e = e;
                e.at = i;
                proof {
                    if i + 1 < lines.len() {
                        lemma_parse_error_stays(all, i + 1);
                    } else {
                        assert(all.take(i + 1) =~= all);
                    }
                }
                return Err(e);
            },
            Ok(None) => {},
            Ok(Some(s)) => {
                stmts.push(s);
                assert(models(stmts@) =~= before.push(s@));
            },
        }
        i = i + 1;
    }
    assert(all.take(i as int) =~= all);
    Ok(stmts)
}

/// Once a prefix of the lines fails, the whole program fails with that error.
proof fn lemma_parse_error_stays(lines: Seq<Seq<char>>, k: int)
    requires
        0 <= k < lines.len(),
        parse_spec(lines.take(k)) is Err,
    ensures
        parse_spec(lines) == parse_spec(lines.take(k)),
    decreases lines.len() - k,
{
    assert(lines.take(k + 1).drop_last() =~= lines.take(k));
    if k + 1 < lines.len() {
        lemma_parse_error_stays(lines, k + 1);
    } else {
        assert(lines.take(k + 1) =~= lines);
    }
}

} // verus!
