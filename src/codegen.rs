//! Encoding statements into instruction bytes.

use vstd::prelude::*;
use crate::isa::{
    class_of, immediates_fit, instr_count, is_label, models, AsmError, ErrorKind, ErrorModel,
    ImmModel, Immediate, Stmt, StmtModel,
};
use crate::resolve::{resolve, solve_labels, ADDRESS_LIMIT};

verus! {

/// The byte of a non-label statement, given the symbol table `m`: the class
/// tag in bits 6 and 7, the operand below.
pub open spec fn byte_of(s: StmtModel, m: Map<Seq<char>, nat>) -> u8 {
    match s {
        StmtModel::Let(ImmModel::Int(v)) => v,
        StmtModel::Let(ImmModel::Label(n)) => m[n] as u8,
        StmtModel::Calc(o) => (o.index() + 64) as u8,
        StmtModel::CopyReg(d, r) => (d.index() + r.index() * 8 + 128) as u8,
        StmtModel::Cond(c) => (c.index() + 192) as u8,
        StmtModel::Label(_) => 0,
    }
}

/// One byte per non-label statement, in order, or the first reference to a
/// label that `m` does not hold.
pub open spec fn emit(s: Seq<StmtModel>, m: Map<Seq<char>, nat>) -> Result<Seq<u8>, ErrorModel>
    decreases s.len(),
{
    if s.len() == 0 {
        Ok(seq![])
    } else {
        match emit(s.drop_last(), m) {
            Err(e) => Err(e),
            Ok(c) => match s.last() {
                StmtModel::Label(_) => Ok(c),
                StmtModel::Let(ImmModel::Label(n)) => if m.contains_key(n) {
                    Ok(c.push(byte_of(s.last(), m)))
                } else {
                    Err((s.len() - 1, ErrorKind::UnresolvedLabel, n))
                },
                _ => Ok(c.push(byte_of(s.last(), m))),
            },
        }
    }
}

/// The machine code of a program: labels resolved first, then every
/// statement encoded.
pub open spec fn assemble(s: Seq<StmtModel>) -> Result<Seq<u8>, ErrorModel> {
    match resolve(s) {
        Err(e) => Err(e),
        Ok(m) => emit(s, m),
    }
}

/// Encodes `stmts`: one byte per non-label statement, in source order.
pub fn generate_code(stmts: &Vec<Stmt>) -> (r: Result<Vec<u8>, AsmError>)
    ensures
        match r {
            Ok(c) => assemble(models(stmts@)) == Ok::<Seq<u8>, ErrorModel>(c@),
            Err(e) => assemble(models(stmts@)) == Err::<Seq<u8>, ErrorModel>(e.model()),
        },
        r is Ok ==> r->Ok_0@.len() == instr_count(models(stmts@)),
{
    let table = solve_labels(stmts)?;
    let ghost s = models(stmts@);
    let ghost m = table@;
    let mut code: Vec<u8> = Vec::new();
    let mut i: usize = 0;
    assert(s.take(0) =~= seq![]);
    while i < stmts.len()
        invariant
            i <= stmts.len(),
            s == models(stmts@),
            m == table@,
            resolve(s) == Ok::<Map<Seq<char>, nat>, ErrorModel>(m),
            emit(s.take(i as int), m) == Ok::<Seq<u8>, ErrorModel>(code@),
        decreases stmts.len() - i,
    {
        assert(s.take(i + 1).drop_last() =~= s.take(i as int));
        assert(s.take(i + 1).last() == stmts@[i as int]@);
        let byte: u8 = match &stmts[i] {
            Stmt::Label(_) => {
                i = i + 1;
                continue;
            },
            Stmt::Let(Immediate::Int(v)) => *v,
            Stmt::Let(Immediate::Label(name)) => match table.get(name.as_str()) {
                Some(a) => a,
                None => {
                    proof {
                        lemma_emit_error_stays(s, m, i + 1);
                    }
                    return Err(
                        AsmError { kind: ErrorKind::UnresolvedLabel, at: i, token: name.clone() },
                    );
                },
            },
            Stmt::Calc(o) => o.code() + 64,
            Stmt::CopyReg(d, r) => d.code() + r.code() * 8 + 128,
            Stmt::Cond(c) => c.code() + 192,
        };
        code.push(byte);
        i = i + 1;
    }
    assert(s.take(i as int) =~= s);
    proof {
        lemma_emit_len(s, m);
    }
    Ok(code)
}

/// Once a prefix of the statements fails to encode, the whole program fails
/// with that error.
proof fn lemma_emit_error_stays(s: Seq<StmtModel>, m: Map<Seq<char>, nat>, k: int)
    requires
        0 <= k <= s.len(),
        emit(s.take(k), m) is Err,
    ensures
        emit(s, m) == emit(s.take(k), m),
    decreases s.len() - k,
{
    if k < s.len() {
        assert(s.take(k + 1).drop_last() =~= s.take(k));
        lemma_emit_error_stays(s, m, k + 1);
    } else {
        assert(s.take(k) =~= s);
    }
}

/// Encoding emits exactly one byte per non-label statement.
pub(crate) proof fn lemma_emit_len(s: Seq<StmtModel>, m: Map<Seq<char>, nat>)
    requires
        emit(s, m) is Ok,
    ensures
        emit(s, m)->Ok_0.len() == instr_count(s),
    decreases s.len(),
{
    if s.len() > 0 {
        lemma_emit_len(s.drop_last(), m);
    }
}

} // verus!
