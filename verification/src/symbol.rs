//! Symbols and the table that names them.

use crate::ast::{names_view, Node, NodeModel};
use vstd::prelude::*;

verus! {

/// The operations that the assembler itself provides.
#[derive(Clone, Copy, Debug, PartialEq, Eq, Structural)]
pub enum Builtin {
    /// `@`: the current position in the current bank.
    Position,
    /// `@@`: the number of the current bank.
    CurrentBank,
    /// `bank`: the bank of a location.
    BankOf,
    /// `+`: the sum of two plain values, modulo 256.
    Add,
}

impl Builtin {
    /// The number of arguments that the operation takes.
    pub open spec fn arity_spec(self) -> usize {
        match self {
            Builtin::Position => 0,
            Builtin::CurrentBank => 0,
            Builtin::BankOf => 1,
            Builtin::Add => 2,
        }
    }

    /// The number of arguments that the operation takes.
    #[verifier::when_used_as_spec(arity_spec)]
    pub fn arity(self) -> (count: usize)
        ensures
            count == self.arity_spec(),
    {
        match self {
            Builtin::Position => 0,
            Builtin::CurrentBank => 0,
            Builtin::BankOf => 1,
            Builtin::Add => 2,
        }
    }
}

/// What a name stands for.
#[derive(Debug, PartialEq, Eq)]
pub enum Symbol {
    /// A (bank, address) pair packed into sixteen bits, bank high.
    Location(u16),
    /// Parameter names and a body that is substituted at each use, never
    /// evaluated where it is defined.
    Macro { params: Vec<String>, body: Node },
    /// An operation of the assembler.
    Builtin(Builtin),
}

/// The mathematical value of a `Symbol`.
pub ghost enum SymbolModel {
    Location(u16),
    Macro { params: Seq<Seq<char>>, body: NodeModel },
    Builtin(Builtin),
}

impl Symbol {
    pub open spec fn view(&self) -> SymbolModel {
        match self {
            Symbol::Location(location) => SymbolModel::Location(*location),
            Symbol::Macro { params, body } => SymbolModel::Macro {
                params: names_view(params@),
                body: body@,
            },
            Symbol::Builtin(op) => SymbolModel::Builtin(*op),
        }
    }
}

/// The table that a list of definitions amounts to: each definition
/// replaces any earlier one of the same name.
pub open spec fn table_of(names: Seq<String>, symbols: Seq<Symbol>) -> Map<Seq<char>, SymbolModel>
    decreases names.len(),
{
    if names.len() == 0 {
        Map::empty()
    } else {
        table_of(names.drop_last(), symbols.drop_last()).insert(names.last()@, symbols.last()@)
    }
}

/// If `name` stands at `k` and nowhere behind it, the table holds for it
/// the symbol at `k`.
proof fn lemma_table_latest(names: Seq<String>, symbols: Seq<Symbol>, name: Seq<char>, k: int)
    requires
        names.len() == symbols.len(),
        0 <= k < names.len(),
        names[k]@ == name,
        forall|j: int| k < j < names.len() ==> names[j]@ != name,
    ensures
        table_of(names, symbols).contains_key(name),
        table_of(names, symbols)[name] == symbols[k]@,
    decreases names.len(),
{
    if k < names.len() - 1 {
        lemma_table_latest(names.drop_last(), symbols.drop_last(), name, k);
    }
}

/// A name that stands nowhere in the list is not in the table.
proof fn lemma_table_absent(names: Seq<String>, symbols: Seq<Symbol>, name: Seq<char>)
    requires
        forall|j: int| 0 <= j < names.len() ==> names[j]@ != name,
    ensures
        !table_of(names, symbols).contains_key(name),
    decreases names.len(),
{
    if names.len() > 0 {
        lemma_table_absent(names.drop_last(), symbols.drop_last(), name);
    }
}

/// A mapping from names to symbols.
pub struct SymbolTable {
    names: Vec<String>,
    symbols: Vec<Symbol>,
}

impl SymbolTable {
    /// Whether the table is in order. Every table that this module hands
    /// out is.
    pub closed spec fn well_formed(&self) -> bool {
        self.names@.len() == self.symbols@.len()
    }

    /// The mapping that the table holds.
    pub closed spec fn view(&self) -> Map<Seq<char>, SymbolModel> {
        table_of(self.names@, self.symbols@)
    }

    /// The empty table.
    pub fn new() -> (table: Self)
        ensures
            table.well_formed(),
            table@ == Map::<Seq<char>, SymbolModel>::empty(),
    {
        SymbolTable { names: Vec::new(), symbols: Vec::new() }
    }

    /// Binds `name` to `symbol`, in place of whatever it was bound to.
    pub fn define(&mut self, name: String, symbol: Symbol)
        requires
            old(self).well_formed(),
        ensures
            final(self).well_formed(),
            final(self)@ == old(self)@.insert(name@, symbol@),
    {
        self.names.push(name);
        self.symbols.push(symbol);
        assert(self.names@.drop_last() =~= old(self).names@);
        assert(self.symbols@.drop_last() =~= old(self).symbols@);
    }

    /// The symbol that `name` is bound to, if it is bound.
    pub fn lookup(&self, name: &String) -> (found: Option<&Symbol>)
        requires
            self.well_formed(),
        ensures
            match found {
                Some(symbol) => self@.contains_key(name@) && self@[name@] == symbol@,
                None => !self@.contains_key(name@),
            },
    {
        let mut i: usize = self.names.len();
        while i > 0
            invariant
                self.well_formed(),
                i <= self.names@.len(),
                forall|j: int| i <= j < self.names@.len() ==> self.names@[j]@ != name@,
            decreases i,
        {
            i -= 1;
            if self.names[i] == *name {
                proof {
                    lemma_table_latest(self.names@, self.symbols@, name@, i as int);
                }
                return Some(&self.symbols[i]);
            }
        }
        proof {
            lemma_table_absent(self.names@, self.symbols@, name@);
        }
        None
    }
}

} // verus!
