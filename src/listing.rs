//! The annotated listing: one line per statement, bytes in decimal with the
//! statement echoed as a comment.

use vstd::prelude::*;
use vstd::string::*;
use crate::isa::{instr_count, is_label, models, ImmModel, Immediate, Stmt, StmtModel};

verus! {

/// The decimal digit `d`.
pub open spec fn digit_text(d: nat) -> Seq<char> {
    if d == 0 {
        "0"@
    } else if d == 1 {
        "1"@
    } else if d == 2 {
        "2"@
    } else if d == 3 {
        "3"@
    } else if d == 4 {
        "4"@
    } else if d == 5 {
        "5"@
    } else if d == 6 {
        "6"@
    } else if d == 7 {
        "7"@
    } else if d == 8 {
        "8"@
    } else {
        "9"@
    }
}

/// `n` in decimal, without leading zeros.
pub open spec fn decimal(n: nat) -> Seq<char>
    decreases n,
{
    if n < 10 {
        digit_text(n)
    } else {
        decimal(n / 10) + digit_text(n % 10)
    }
}

/// The spaces that left-align the decimal text of a byte in three columns.
pub open spec fn padding(n: nat) -> Seq<char> {
    if n < 10 {
        "  "@
    } else if n < 100 {
        " "@
    } else {
        seq![]
    }
}

/// A statement in its canonical mnemonic form.
pub open spec fn stmt_text(s: StmtModel) -> Seq<char> {
    match s {
        StmtModel::Let(ImmModel::Int(v)) => "LET "@ + decimal(v as nat),
        StmtModel::Let(ImmModel::Label(n)) => "LET @"@ + n,
        StmtModel::Calc(o) => o.name(),
        StmtModel::CopyReg(d, r) => "COPY "@ + d.name() + " "@ + r.name(),
        StmtModel::Cond(c) => c.name(),
        StmtModel::Label(n) => "@"@ + n + ":"@,
    }
}

/// The listing line of a label definition.
pub open spec fn label_line(n: Seq<char>) -> Seq<char> {
    "    # @"@ + n + ":\n"@
}

/// The listing line of an instruction statement `s` encoded as `b`.
pub open spec fn code_line(b: u8, s: StmtModel) -> Seq<char> {
    decimal(b as nat) + padding(b as nat) + " # "@ + stmt_text(s) + "\n"@
}

/// The listing of statements `s` whose instruction bytes are `c`, in order.
pub open spec fn listing(s: Seq<StmtModel>, c: Seq<u8>) -> Seq<char>
    decreases s.len(),
{
    if s.len() == 0 {
        seq![]
    } else {
        match s.last() {
            StmtModel::Label(n) => listing(s.drop_last(), c) + label_line(n),
            _ => listing(s.drop_last(), c.drop_last()) + code_line(c.last(), s.last()),
        }
    }
}

fn digit(d: u8) -> (r: &'static str)
    requires
        d < 10,
    ensures
        r@ == digit_text(d as nat),
{
    if d == 0 {
        "0"
    } else if d == 1 {
        "1"
    } else if d == 2 {
        "2"
    } else if d == 3 {
        "3"
    } else if d == 4 {
        "4"
    } else if d == 5 {
        "5"
    } else if d == 6 {
        "6"
    } else if d == 7 {
        "7"
    } else if d == 8 {
        "8"
    } else {
        "9"
    }
}

/// Appends `n` in decimal.
fn push_decimal(out: &mut String, n: u8)
    ensures
        final(out)@ == old(out)@ + decimal(n as nat),
{
    reveal_with_fuel(decimal, 3);
    if n >= 100 {
        out.append(digit(n / 100));
    }
    if n >= 10 {
        out.append(digit((n / 10) % 10));
    }
    out.append(digit(n % 10));
    proof {
        let a = old(out)@;
        if n >= 100 {
            assert(decimal(n as nat) == decimal((n / 10) as nat) + digit_text((n % 10) as nat));
            assert(decimal((n / 10) as nat) == digit_text((n / 100) as nat) + digit_text(
                ((n / 10) % 10) as nat,
            ));
            assert(final(out)@ =~= a + decimal(n as nat));
        } else if n >= 10 {
            assert(final(out)@ =~= a + decimal(n as nat));
        }
    }
}

/// Appends the mnemonic form of `s`.
fn push_stmt(out: &mut String, s: &Stmt)
    ensures
        final(out)@ == old(out)@ + stmt_text(s@),
{
    let ghost a = old(out)@;
    match s {
        Stmt::Let(Immediate::Int(v)) => {
            out.append("LET ");
            push_decimal(out, *v);
            assert(final(out)@ =~= a + stmt_text(s@));
        },
        Stmt::Let(Immediate::Label(n)) => {
            out.append("LET @");
            out.append(n.as_str());
            assert(final(out)@ =~= a + stmt_text(s@));
        },
        Stmt::Calc(o) => {
            out.append(o.mnemonic());
        },
        Stmt::CopyReg(d, r) => {
            out.append("COPY ");
            out.append(d.mnemonic());
            out.append(" ");
            out.append(r.mnemonic());
            assert(final(out)@ =~= a + stmt_text(s@));
        },
        Stmt::Cond(c) => {
            out.append(c.mnemonic());
        },
        Stmt::Label(n) => {
            out.append("@");
            out.append(n.as_str());
            out.append(":");
            assert(final(out)@ =~= a + stmt_text(s@));
        },
    }
}

/// A prefix never holds more instruction statements than the whole.
proof fn lemma_count_prefix(s: Seq<StmtModel>, j: int)
    requires
        0 <= j <= s.len(),
    ensures
        instr_count(s.take(j)) <= instr_count(s),
    decreases s.len() - j,
{
    if j < s.len() {
        assert(s.take(j + 1).drop_last() =~= s.take(j));
        lemma_count_prefix(s, j + 1);
    } else {
        assert(s.take(j) =~= s);
    }
}

/// The listing of `stmts` with their bytes `code`, consumed in lockstep: a
/// comment line for each label, and for each other statement its byte in
/// decimal (left-aligned in three columns) followed by the statement.
pub fn write_output(stmts: &Vec<Stmt>, code: &Vec<u8>) -> (r: String)
    requires
        code@.len() == instr_count(models(stmts@)),
    ensures
        r@ == listing(models(stmts@), code@),
{
    let ghost s = models(stmts@);
    let mut out = String::new();
    let mut k: usize = 0;
    let mut i: usize = 0;
    let n = code.len();
    assert(s.take(0) =~= seq![]);
    assert(code@.take(0) =~= seq![]);
    while i < stmts.len()
        invariant
            i <= stmts.len(),
            s == models(stmts@),
            code@.len() == instr_count(s),
            n == code@.len(),
            k == instr_count(s.take(i as int)),
            out@ == listing(s.take(i as int), code@.take(k as int)),
        decreases stmts.len() - i,
    {
        let ghost before = out@;
        assert(s.take(i + 1).drop_last() =~= s.take(i as int));
        assert(s.take(i + 1).last() == stmts@[i as int]@);
        proof {
            lemma_count_prefix(s, i + 1);
        }
        match &stmts[i] {
            Stmt::Label(n) => {
                out.append("    # @");
                out.append(n.as_str());
                out.append(":\n");
                assert(out@ =~= before + label_line(n@));
            },
            st => {
                assert(!is_label(s.take(i + 1).last()));
                assert(instr_count(s.take(i + 1)) == k + 1);
                let b = code[k];
                assert(code@.take(k + 1).drop_last() =~= code@.take(k as int));
                push_decimal(&mut out, b);
                if b < 10 {
                    out.append("  ");
                } else if b < 100 {
                    out.append(" ");
                }
                assert(out@ =~= before + decimal(b as nat) + padding(b as nat));
                out.append(" # ");
                push_stmt(&mut out, st);
                out.append("\n");
                assert(out@ =~= before + code_line(b, st@));
                k = k + 1;
            },
        }
        i = i + 1;
    }
    assert(s.take(i as int) =~= s);
    assert(code@.take(k as int) =~= code@);
    out
}

} // verus!
