//! Properties of the whole pipeline, proved over the specifications of its
//! stages.

use vstd::prelude::*;
use crate::codegen::{assemble, byte_of, emit, lemma_emit_len};
use crate::isa::{class_of, immediates_fit, instr_count, is_label, ErrorKind, ErrorModel, ImmModel, Reg, StmtModel};
use crate::lexer::{decimal_value, upper_of, words};
use crate::parser::{
    copy_outcome, imm_outcome, is_comment, is_label_def, line_outcome, parse_spec, reg_outcome, LineError,
};
use crate::resolve::{lemma_resolve_error_stays, resolve, ADDRESS_LIMIT};

verus! {

/// The byte emitted for the statement at index `i` sits at the index that
/// counts the instruction statements before it.
proof fn lemma_emit_at(s: Seq<StmtModel>, m: Map<Seq<char>, nat>, i: int)
    requires
        emit(s, m) is Ok,
        0 <= i < s.len(),
        !is_label(s[i]),
    ensures
        instr_count(s.take(i)) < emit(s, m)->Ok_0.len(),
        emit(s, m)->Ok_0[instr_count(s.take(i)) as int] == byte_of(s[i], m),
        s[i] matches StmtModel::Let(ImmModel::Label(n)) ==> m.contains_key(n),
    decreases s.len(),
{
    let p = s.drop_last();
    lemma_emit_len(s, m);
    lemma_emit_len(p, m);
    if i == s.len() - 1 {
        assert(s.take(i) =~= p);
    } else {
        lemma_emit_at(p, m, i);
        assert(p.take(i) =~= s.take(i));
    }
}

/// Every address in a symbol table fits in six bits.
proof fn lemma_resolve_bound(s: Seq<StmtModel>)
    requires
        resolve(s) is Ok,
    ensures
        forall|k: Seq<char>| #[trigger] resolve(s)->Ok_0.contains_key(k) ==> resolve(s)->Ok_0[k]
            < ADDRESS_LIMIT,
    decreases s.len(),
{
    if s.len() > 0 {
        lemma_resolve_bound(s.drop_last());
    }
}

/// A label's address is the number of instruction statements before its
/// last definition.
proof fn lemma_resolve_last_def(s: Seq<StmtModel>, n: Seq<char>, d: int)
    requires
        resolve(s) is Ok,
        0 <= d < s.len(),
        s[d] == StmtModel::Label(n),
        forall|k: int| d < k < s.len() ==> s[k] != StmtModel::Label(n),
    ensures
        resolve(s)->Ok_0.contains_key(n),
        resolve(s)->Ok_0[n] == instr_count(s.take(d)),
    decreases s.len(),
{
    let p = s.drop_last();
    if d == s.len() - 1 {
        assert(s.take(d) =~= p);
    } else {
        assert(s.last() != StmtModel::Label(n));
        lemma_resolve_last_def(p, n, d);
        assert(p.take(d) =~= s.take(d));
    }
}

/// Resolution only ever fails for want of address space.
proof fn lemma_resolve_error_kind(s: Seq<StmtModel>)
    requires
        resolve(s) is Err,
    ensures
        resolve(s)->Err_0.1 == ErrorKind::AddressOverflow,
    decreases s.len(),
{
    if resolve(s.drop_last()) is Err {
        lemma_resolve_error_kind(s.drop_last());
    }
}

/// Assembly emits exactly one byte per non-label statement.
pub proof fn law_one_byte_per_instruction(s: Seq<StmtModel>)
    requires
        assemble(s) is Ok,
    ensures
        assemble(s)->Ok_0.len() == instr_count(s),
{
    lemma_emit_len(s, resolve(s)->Ok_0);
}

/// The top two bits of each emitted byte are the instruction class of its
/// statement: 0 for Load-Immediate, 1 for Calculate, 2 for Copy-Register and
/// 3 for Set-Condition.
pub proof fn law_class_tag(s: Seq<StmtModel>, i: int)
    requires
        assemble(s) is Ok,
        immediates_fit(s),
        0 <= i < s.len(),
        !is_label(s[i]),
    ensures
        instr_count(s.take(i)) < assemble(s)->Ok_0.len(),
        assemble(s)->Ok_0[instr_count(s.take(i)) as int] / 64 == class_of(s[i]),
{
    let m = resolve(s)->Ok_0;
    lemma_emit_at(s, m, i);
    lemma_resolve_bound(s);
    match s[i] {
        StmtModel::Let(ImmModel::Label(n)) => {
            assert(m.contains_key(n));
        },
        StmtModel::CopyReg(d, r) => {
            assert(d.index() <= 6 && r.index() <= 6);
            assert(d.index() + r.index() * 8 + 128 < 192) by (nonlinear_arith)
                requires
                    d.index() <= 6,
                    r.index() <= 6,
            ;
        },
        _ => {},
    }
}

/// A reference to a label encodes the label's address, the number of
/// instruction statements before its last definition, whether the reference
/// stands before that definition or after it.
pub proof fn law_label_reference(s: Seq<StmtModel>, n: Seq<char>, i: int, d: int)
    requires
        assemble(s) is Ok,
        0 <= i < s.len(),
        0 <= d < s.len(),
        s[i] == StmtModel::Let(ImmModel::Label(n)),
        s[d] == StmtModel::Label(n),
        forall|k: int| d < k < s.len() ==> s[k] != StmtModel::Label(n),
    ensures
        instr_count(s.take(i)) < assemble(s)->Ok_0.len(),
        assemble(s)->Ok_0[instr_count(s.take(i)) as int] == instr_count(s.take(d)),
{
    let m = resolve(s)->Ok_0;
    lemma_emit_at(s, m, i);
    lemma_resolve_last_def(s, n, d);
    lemma_resolve_bound(s);
}

/// A label defined after 64 or more instruction statements makes assembly
/// fail with an address-space error.
pub proof fn law_address_space(s: Seq<StmtModel>, d: int)
    requires
        0 <= d < s.len(),
        is_label(s[d]),
        instr_count(s.take(d)) >= ADDRESS_LIMIT,
    ensures
        assemble(s) is Err,
        assemble(s)->Err_0.1 == ErrorKind::AddressOverflow,
{
    assert(s.take(d + 1).drop_last() =~= s.take(d));
    assert(s.take(d + 1).last() == s[d]);
    assert(resolve(s.take(d + 1)) is Err);
    lemma_resolve_error_stays(s, d + 1);
    lemma_resolve_error_kind(s);
}

/// `LET v` with 0 <= v <= 31 parses to one Load-Immediate statement, which
/// assembles to the single byte v.
pub proof fn law_let_literal(line: Seq<char>, kw: Seq<char>, digits: Seq<char>, v: int)
    requires
        words(line) == seq![kw, digits],
        upper_of(kw) == "LET"@,
        !is_comment(kw),
        !is_label_def(kw),
        decimal_value(digits) == Some(v),
        0 <= v <= 31,
    ensures
        parse_spec(seq![line]) == Ok::<Seq<StmtModel>, ErrorModel>(
            seq![StmtModel::Let(ImmModel::Int(v as u8))],
        ),
        assemble(seq![StmtModel::Let(ImmModel::Int(v as u8))]) == Ok::<Seq<u8>, ErrorModel>(
            seq![v as u8],
        ),
{
    let st = StmtModel::Let(ImmModel::Int(v as u8));
    let s = seq![st];
    lemma_single_line(line, kw, digits);
    assert(imm_outcome(digits) == Ok::<StmtModel, LineError>(st));
    assert(line_outcome(line) == Ok::<Option<StmtModel>, LineError>(Some(st)));
    assert(s.drop_last() =~= Seq::<StmtModel>::empty());
    assert(Seq::<StmtModel>::empty().push(st) =~= s);
    assert(s.last() == st);
    assert(resolve(s.drop_last()) == Ok::<Map<Seq<char>, nat>, ErrorModel>(Map::empty()));
    assert(resolve(s) == Ok::<Map<Seq<char>, nat>, ErrorModel>(Map::empty()));
    assert(emit(s.drop_last(), Map::empty()) == Ok::<Seq<u8>, ErrorModel>(Seq::empty()));
    assert(Seq::<u8>::empty().push(v as u8) =~= seq![v as u8]);
}

/// `LET v` with v < 0 or v > 31 does not parse.
pub proof fn law_let_out_of_range(line: Seq<char>, kw: Seq<char>, digits: Seq<char>, v: int)
    requires
        words(line) == seq![kw, digits],
        upper_of(kw) == "LET"@,
        !is_comment(kw),
        !is_label_def(kw),
        decimal_value(digits) == Some(v),
        v < 0 || v > 31,
    ensures
        parse_spec(seq![line]) is Err,
        i32::MIN <= v < 0 ==> parse_spec(seq![line])->Err_0.1 == ErrorKind::NegativeImmediate,
        31 < v <= i32::MAX ==> parse_spec(seq![line])->Err_0.1 == ErrorKind::ImmediateTooLarge,
{
    lemma_single_line(line, kw, digits);
    assert(imm_outcome(digits) is Err);
}

/// The one-line program `line`, whose words are `LET` and an operand.
proof fn lemma_single_line(line: Seq<char>, kw: Seq<char>, operand: Seq<char>)
    requires
        words(line) == seq![kw, operand],
        upper_of(kw) == "LET"@,
        !is_comment(kw),
        !is_label_def(kw),
        decimal_value(operand) is Some,
    ensures
        operand.len() > 0 && operand[0] != '@',
        line_outcome(line) == match imm_outcome(operand) {
            Ok(st) => Ok::<Option<StmtModel>, LineError>(Some(st)),
            Err(e) => Err(e),
        },
        parse_spec(seq![line]) == match line_outcome(line) {
            Ok(Some(st)) => Ok::<Seq<StmtModel>, ErrorModel>(seq![st]),
            Ok(None) => Ok(seq![]),
            Err((k, t)) => Err((0, k, t)),
        },
{
    let w = words(line);
    assert(w[0] == kw);
    assert(w[1] == operand);
    assert(seq![line].drop_last() =~= Seq::<Seq<char>>::empty());
    assert(seq![line].last() == line);
    assert(parse_spec(seq![line].drop_last()) == Ok::<Seq<StmtModel>, ErrorModel>(Seq::empty()));
    match line_outcome(line) {
        Ok(Some(st)) => {
            assert(Seq::<StmtModel>::empty().push(st) =~= seq![st]);
        },
        _ => {},
    }
}

/// Mnemonics are case-insensitive: two lines whose first words agree in upper
/// case and whose other words are equal parse to the same statement, or fail
/// in the same way.
pub proof fn law_mnemonic_case(a: Seq<char>, b: Seq<char>)
    requires
        words(a).len() > 0,
        words(b).len() > 0,
        words(a).skip(1) == words(b).skip(1),
        upper_of(words(a)[0]) == upper_of(words(b)[0]),
        !is_comment(words(a)[0]) && !is_label_def(words(a)[0]),
        !is_comment(words(b)[0]) && !is_label_def(words(b)[0]),
    ensures
        line_outcome(a) is Ok == line_outcome(b) is Ok,
        line_outcome(a) is Ok ==> line_outcome(a) == line_outcome(b),
        line_outcome(a) is Err ==> line_outcome(a)->Err_0.0 == line_outcome(b)->Err_0.0,
{
    let wa = words(a);
    let wb = words(b);
    assert(wa.len() == wa.skip(1).len() + 1);
    assert(wb.len() == wb.skip(1).len() + 1);
    if wa.len() >= 2 {
        assert(wa[1] == wa.skip(1)[0]);
        assert(wb[1] == wb.skip(1)[0]);
    }
    if wa.len() >= 3 {
        assert(wa[2] == wa.skip(1)[1]);
        assert(wb[2] == wb.skip(1)[1]);
    }
}

/// `IO`, `IN` and `OUT`, in any case, all name the input/output register,
/// as destination and as source of `COPY`.
pub proof fn law_io_aliases(a: Seq<char>, b: Seq<char>)
    requires
        upper_of(a) == "IO"@ || upper_of(a) == "IN"@ || upper_of(a) == "OUT"@,
        upper_of(b) == "IO"@ || upper_of(b) == "IN"@ || upper_of(b) == "OUT"@,
    ensures
        reg_outcome(a) == Ok::<Reg, LineError>(Reg::Io),
        reg_outcome(b) == Ok::<Reg, LineError>(Reg::Io),
        copy_outcome(a, b) == Ok::<StmtModel, LineError>(StmtModel::CopyReg(Reg::Io, Reg::Io)),
{
    reveal_strlit("IO");
    reveal_strlit("IN");
    reveal_strlit("OUT");
    reveal_strlit("REG0");
    reveal_strlit("REG1");
    reveal_strlit("REG2");
    reveal_strlit("REG3");
    reveal_strlit("REG4");
    reveal_strlit("REG5");
    assert("IO"@.len() == 2 && "IN"@.len() == 2 && "OUT"@.len() == 3);
    assert("REG0"@.len() == 4 && "REG1"@.len() == 4 && "REG2"@.len() == 4);
    assert("REG3"@.len() == 4 && "REG4"@.len() == 4 && "REG5"@.len() == 4);
}

/// Every program that parses holds only literal immediates in [0, 31], so the
/// class-tag property above applies to all of them.
pub proof fn law_parsed_immediates_fit(lines: Seq<Seq<char>>)
    requires
        parse_spec(lines) is Ok,
    ensures
        immediates_fit(parse_spec(lines)->Ok_0),
    decreases lines.len(),
{
    if lines.len() > 0 {
        law_parsed_immediates_fit(lines.drop_last());
        let prev = parse_spec(lines.drop_last())->Ok_0;
        let line = lines.last();
        match line_outcome(line) {
            Ok(Some(st)) => {
                let s = prev.push(st);
                assert(forall|i: int| 0 <= i < prev.len() ==> s[i] == prev[i]);
            },
            _ => {},
        }
    }
}

} // verus!
