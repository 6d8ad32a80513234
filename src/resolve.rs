//! Label resolution: the symbol table from label names to instruction addresses.

use vstd::prelude::*;
use crate::isa::{models, instr_count, AsmError, ErrorKind, ErrorModel, Stmt, StmtModel};

verus! {

/// Labels get six-bit addresses: each must be below this bound.
pub const ADDRESS_LIMIT: usize = 64;

/// The symbol table of a program: a label's address is the number of
/// instruction statements before its definition. A later definition of a name
/// replaces an earlier one.
pub open spec fn resolve(s: Seq<StmtModel>) -> Result<Map<Seq<char>, nat>, ErrorModel>
    decreases s.len(),
{
    if s.len() == 0 {
        Ok(Map::empty())
    } else {
        match resolve(s.drop_last()) {
            Err(e) => Err(e),
            Ok(m) => match s.last() {
                StmtModel::Label(n) => {
                    let a = instr_count(s.drop_last());
                    if a < ADDRESS_LIMIT {
                        Ok(m.insert(n, a))
                    } else {
                        Err((s.len() - 1, ErrorKind::AddressOverflow, n))
                    }
                },
                _ => Ok(m),
            },
        }
    }
}

/// One definition in a symbol table.
#[derive(Clone, Debug)]
pub struct LabelEntry {
    pub name: String,
    pub addr: u8,
}

/// The map that a list of definitions gives, later ones winning.
pub open spec fn entries_map(e: Seq<LabelEntry>) -> Map<Seq<char>, nat>
    decreases e.len(),
{
    if e.len() == 0 {
        Map::empty()
    } else {
        entries_map(e.drop_last()).insert(e.last().name@, e.last().addr as nat)
    }
}

/// A table mapping label names to instruction addresses.
pub struct SymbolTable {
    entries: Vec<LabelEntry>,
}

impl View for SymbolTable {
    type V = Map<Seq<char>, nat>;

    closed spec fn view(&self) -> Map<Seq<char>, nat> {
        entries_map(self.entries@)
    }
}

/// Definitions after index `i` that do not name `k` leave its entry alone.
proof fn lemma_entries_suffix(e: Seq<LabelEntry>, i: int, k: Seq<char>)
    requires
        0 <= i <= e.len(),
        forall|j: int| i <= j < e.len() ==> (#[trigger] e[j]).name@ != k,
    ensures
        entries_map(e).contains_key(k) == entries_map(e.take(i)).contains_key(k),
        entries_map(e).contains_key(k) ==> entries_map(e)[k] == entries_map(e.take(i))[k],
    decreases e.len() - i,
{
    if i < e.len() {
        lemma_entries_suffix(e, i + 1, k);
        assert(e.take(i + 1).drop_last() =~= e.take(i));
    } else {
        assert(e.take(i) =~= e);
    }
}

impl SymbolTable {
    pub fn new() -> (t: SymbolTable)
        ensures
            t@ == Map::<Seq<char>, nat>::empty(),
    {
        SymbolTable { entries: Vec::new() }
    }

    /// Records `name` at `addr`, replacing any earlier definition.
    pub fn define(&mut self, name: String, addr: u8)
        ensures
            final(self)@ == old(self)@.insert(name@, addr as nat),
    {
        self.entries.push(LabelEntry { name, addr });
        assert(self.entries@.drop_last() =~= old(self).entries@);
    }

    /// The address of `name`, if it is defined.
    pub fn get(&self, name: &str) -> (r: Option<u8>)
        ensures
            match r {
                Some(a) => self@.contains_key(name@) && self@[name@] == a as nat,
                None => !self@.contains_key(name@),
            },
    {
        let mut i: usize = self.entries.len();
        while i > 0
            invariant
                i <= self.entries@.len(),
                forall|j: int| i <= j < self.entries@.len() ==> (#[trigger] self.entries@[j]).name@
                    != name@,
            decreases i,
        {
            let e = &self.entries[i - 1];
            if same_name(&e.name, name) {
                proof {
                    let es = self.entries@;
                    lemma_entries_suffix(es, i as int, name@);
                    assert(es.take(i as int).drop_last() =~= es.take(i - 1));
                }
                return Some(e.addr);
            }
            i = i - 1;
        }
        proof {
            lemma_entries_suffix(self.entries@, 0, name@);
            assert(self.entries@.take(0) =~= seq![]);
        }
        None
    }
}

fn same_name(a: &String, b: &str) -> (r: bool)
    ensures
        r == (a@ == b@),
{
    crate::lexer::same_text(a.as_str(), b)
}

/// Builds the symbol table of `stmts`, or fails on the first label whose
/// address does not fit in six bits.
pub fn solve_labels(stmts: &Vec<Stmt>) -> (r: Result<SymbolTable, AsmError>)
    ensures
        match r {
            Ok(t) => resolve(models(stmts@)) == Ok::<Map<Seq<char>, nat>, ErrorModel>(t@),
            Err(e) => resolve(models(stmts@)) == Err::<Map<Seq<char>, nat>, ErrorModel>(e.model()),
        },
{
    let ghost s = models(stmts@);
    let mut table = SymbolTable::new();
    let mut addr: usize = 0;
    let mut i: usize = 0;
    assert(s.take(0) =~= seq![]);
    while i < stmts.len()
        invariant
            i <= stmts.len(),
            s == models(stmts@),
            addr == instr_count(s.take(i as int)),
            addr <= i,
            resolve(s.take(i as int)) == Ok::<Map<Seq<char>, nat>, ErrorModel>(table@),
        decreases stmts.len() - i,
    {
        assert(s.take(i + 1).drop_last() =~= s.take(i as int));
        assert(s.take(i + 1).last() == stmts@[i as int]@);
        match &stmts[i] {
            Stmt::Label(name) => {
                if addr >= ADDRESS_LIMIT {
                    proof {
                        lemma_resolve_error_stays(s, i + 1);
                    }
                    return Err(AsmError { kind: ErrorKind::AddressOverflow, at: i, token: name.clone() });
                }
                table.define(name.clone(), addr as u8);
            },
            _ => {
                addr = addr + 1;
            },
        }
        i = i + 1;
    }
    assert(s.take(i as int) =~= s);
    Ok(table)
}

/// Once a prefix of the statements fails to resolve, the whole program fails
/// with that error.
pub(crate) proof fn lemma_resolve_error_stays(s: Seq<StmtModel>, k: int)
    requires
        0 <= k <= s.len(),
        resolve(s.take(k)) is Err,
    ensures
        resolve(s) == resolve(s.take(k)),
    decreases s.len() - k,
{
    if k < s.len() {
        assert(s.take(k + 1).drop_last() =~= s.take(k));
        lemma_resolve_error_stays(s, k + 1);
    } else {
        assert(s.take(k) =~= s);
    }
}

} // verus!
