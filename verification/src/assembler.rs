//! The assembler: expansion of a chunk of syntax tree, then the commit of
//! the expanded statements to banked output.
//!
//! A statement, once expanded, is one of these:
//! - a void node: its children are statements, committed in order;
//! - an integer or a location without children: one data byte, the
//!   integer's value or the location's address;
//! - the identifier `@` over one or two plain values: the position is set,
//!   to the one value, or the bank to the first and the position to the
//!   second;
//! - an identifier that states an instruction (see `encode`): its byte.
//!
//! A byte goes to the current position of the current bank, and the
//! position moves on by one, from 255 back to 0 in the same bank.

use crate::ast::{address_of, location_address, nodes_view, Kind, KindModel, Node, NodeModel};
use crate::encode::{instruction_model, parse_instruction, text_is, Instruction};
use crate::error::ErrorKind;
use crate::memory::{global_address, MEMORY_SIZE};
use crate::expand::{eval_model, evaluate, plain_value, plain_value_model, result_view};
use crate::symbol::{Builtin, Symbol, SymbolModel, SymbolTable};
use vstd::prelude::*;

verus! {

/// Number of banks, and of bytes in a bank.
pub const BANK_SIZE: usize = 256;

/// The output written to one bank.
pub struct Bank {
    number: u8,
    position: u8,
    data: [u8; 256],
}

/// The mathematical value of a `Bank`: where the next byte goes, and its
/// 256 bytes.
pub ghost struct BankModel {
    pub position: u8,
    pub data: Seq<u8>,
}

impl BankModel {
    /// A bank that nothing was written to.
    pub open spec fn fresh() -> BankModel {
        BankModel { position: 0, data: Seq::new(BANK_SIZE as nat, |i: int| 0u8) }
    }

    /// The bank after `byte` was written at its position.
    pub open spec fn put(self, byte: u8) -> BankModel {
        BankModel {
            position: ((self.position + 1) % 256) as u8,
            data: self.data.update(self.position as int, byte),
        }
    }
}

impl Bank {
    pub closed spec fn view(&self) -> BankModel {
        BankModel { position: self.position, data: self.data@ }
    }

    /// The number of the bank.
    pub closed spec fn number_spec(&self) -> u8 {
        self.number
    }

    fn new(number: u8) -> (bank: Bank)
        ensures
            bank@ == BankModel::fresh(),
            bank.number_spec() == number,
    {
        let bank = Bank { number, position: 0, data: [0u8; 256] };
        assert(bank@.data =~= BankModel::fresh().data);
        bank
    }

    fn put(&mut self, byte: u8)
        ensures
            final(self)@ == old(self)@.put(byte),
            final(self).number_spec() == old(self).number_spec(),
    {
        let position = self.position as usize;
        self.data[position] = byte;
        self.position = self.position.wrapping_add(1);
    }

    /// The number of the bank.
    #[verifier::when_used_as_spec(number_spec)]
    pub fn number(&self) -> (number: u8)
        ensures
            number == self.number_spec(),
    {
        self.number
    }

    /// Where the next byte goes.
    pub fn position(&self) -> (position: u8)
        ensures
            position == self@.position,
    {
        self.position
    }

    /// The byte at `addr`.
    pub fn byte_at(&self, addr: u8) -> (byte: u8)
        ensures
            self@.data.len() == BANK_SIZE,
            byte == self@.data[addr as int],
    {
        self.data[addr as usize]
    }
}

/// The output of the assembler: the current bank, and the banks that were
/// written to or positioned in. A bank outside the map is untouched: it
/// reads as a fresh one.
pub ghost struct Layout {
    pub bank: u8,
    pub banks: Map<u8, BankModel>,
}

impl Layout {
    /// What bank `bank` holds.
    pub open spec fn bank_model(self, bank: u8) -> BankModel {
        if self.banks.contains_key(bank) {
            self.banks[bank]
        } else {
            BankModel::fresh()
        }
    }

    /// The current position in the current bank.
    pub open spec fn position(self) -> u8 {
        self.bank_model(self.bank).position
    }

    /// The layout after `byte` was written at the current position.
    pub open spec fn emit(self, byte: u8) -> Layout {
        Layout {
            bank: self.bank,
            banks: self.banks.insert(self.bank, self.bank_model(self.bank).put(byte)),
        }
    }

    /// The layout after the position was set, in bank `bank` if one is
    /// given and in the current bank if not.
    pub open spec fn seek(self, bank: Option<u8>, position: u8) -> Layout {
        let target = match bank {
            Some(bank) => bank,
            None => self.bank,
        };
        Layout {
            bank: target,
            banks: self.banks.insert(
                target,
                BankModel { position, data: self.bank_model(target).data },
            ),
        }
    }
}

/// What an expanded node asks of the commit phase.
pub ghost enum Statement {
    /// The statements of a void node, in order.
    Block(Seq<NodeModel>),
    /// One data byte.
    Data(u8),
    /// The position is set, and the bank if one is given.
    Position { bank: Option<u8>, position: u8 },
    /// One instruction byte.
    Emit(Instruction),
    /// The node is no statement.
    Malformed,
}

/// The statement that the children of an `@` node state.
pub open spec fn position_model(operands: Seq<NodeModel>) -> Statement {
    if operands.len() == 1 {
        match plain_value_model(operands[0]) {
            Some(position) => Statement::Position { bank: None, position },
            None => Statement::Malformed,
        }
    } else if operands.len() == 2 {
        match (plain_value_model(operands[0]), plain_value_model(operands[1])) {
            (Some(bank), Some(position)) => Statement::Position { bank: Some(bank), position },
            _ => Statement::Malformed,
        }
    } else {
        Statement::Malformed
    }
}

/// The statement that an expanded node states.
pub open spec fn statement_model(node: NodeModel) -> Statement {
    match node.kind {
        KindModel::Void => Statement::Block(node.children),
        KindModel::Integer(value) => if node.children.len() == 0 {
            Statement::Data(value)
        } else {
            Statement::Malformed
        },
        KindModel::Location(location) => if node.children.len() == 0 {
            Statement::Data(address_of(location))
        } else {
            Statement::Malformed
        },
        KindModel::Identifier(name) => if name == "@"@ {
            position_model(node.children)
        } else {
            match instruction_model(name, node.children) {
                Some(instruction) => Statement::Emit(instruction),
                None => Statement::Malformed,
            }
        },
        _ => Statement::Malformed,
    }
}

/// The layout after a commit, and whether the commit succeeded. The
/// layout after a failed commit holds what was written before the failure.
pub ghost struct Committed {
    pub layout: Layout,
    pub result: Result<(), ErrorKind>,
}

/// The commit of one expanded node.
pub open spec fn commit_model(layout: Layout, node: NodeModel) -> Committed
    decreases node,
{
    if node.kind is Void {
        commit_all_model(layout, node.children)
    } else {
        match statement_model(node) {
            Statement::Data(byte) => Committed { layout: layout.emit(byte), result: Ok(()) },
            Statement::Position { bank, position } => Committed {
                layout: layout.seek(bank, position),
                result: Ok(()),
            },
            Statement::Emit(instruction) => Committed {
                layout: layout.emit(instruction.encoding()),
                result: Ok(()),
            },
            _ => Committed { layout, result: Err(ErrorKind::MalformedStatement) },
        }
    }
}

/// The commit of `nodes` in order, up to the first that fails.
pub open spec fn commit_all_model(layout: Layout, nodes: Seq<NodeModel>) -> Committed
    decreases nodes,
{
    if nodes.len() == 0 {
        Committed { layout, result: Ok(()) }
    } else {
        let front = commit_all_model(layout, nodes.drop_last());
        match front.result {
            Ok(_) => commit_model(front.layout, nodes.last()),
            Err(_) => front,
        }
    }
}

/// A failure among the first `k` nodes is the failure of the whole list.
pub proof fn lemma_commit_failure(layout: Layout, nodes: Seq<NodeModel>, k: int)
    requires
        0 <= k <= nodes.len(),
        commit_all_model(layout, nodes.take(k)).result is Err,
    ensures
        commit_all_model(layout, nodes) == commit_all_model(layout, nodes.take(k)),
    decreases nodes.len() - k,
{
    if k < nodes.len() {
        assert(nodes.take(k + 1).drop_last() =~= nodes.take(k));
        lemma_commit_failure(layout, nodes, k + 1);
    } else {
        assert(nodes.take(k) =~= nodes);
    }
}

/// A bank that was touched stays touched, whatever is committed after,
/// and whether or not the commit succeeds.
pub proof fn lemma_banks_persist(layout: Layout, node: NodeModel, bank: u8)
    requires
        layout.banks.contains_key(bank),
    ensures
        commit_model(layout, node).layout.banks.contains_key(bank),
    decreases node,
{
    if node.kind is Void {
        lemma_banks_persist_all(layout, node.children, bank);
    }
}

/// A bank that was touched stays touched over a list of commits.
pub proof fn lemma_banks_persist_all(layout: Layout, nodes: Seq<NodeModel>, bank: u8)
    requires
        layout.banks.contains_key(bank),
    ensures
        commit_all_model(layout, nodes).layout.banks.contains_key(bank),
    decreases nodes,
{
    if nodes.len() > 0 {
        lemma_banks_persist_all(layout, nodes.drop_last(), bank);
        let front = commit_all_model(layout, nodes.drop_last());
        if front.result is Ok {
            lemma_banks_persist(front.layout, nodes.last(), bank);
        }
    }
}

/// The symbols that every assembler starts with: `@`, `@@`, `bank` and
/// `+`.
pub open spec fn initial_symbols() -> Map<Seq<char>, SymbolModel> {
    Map::<Seq<char>, SymbolModel>::empty().insert(
        "@"@,
        SymbolModel::Builtin(Builtin::Position),
    ).insert("@@"@, SymbolModel::Builtin(Builtin::CurrentBank)).insert(
        "bank"@,
        SymbolModel::Builtin(Builtin::BankOf),
    ).insert("+"@, SymbolModel::Builtin(Builtin::Add))
}

/// What the ingestion of a chunk leaves and yields.
pub ghost struct Ingested {
    pub symbols: Map<Seq<char>, SymbolModel>,
    pub layout: Layout,
    pub result: Result<(), ErrorKind>,
}

/// The ingestion of `chunk`: it is evaluated at level 0, and what it
/// expands to is committed. If the evaluation fails, nothing is committed.
pub open spec fn ingest_model(
    symbols: Map<Seq<char>, SymbolModel>,
    layout: Layout,
    chunk: NodeModel,
) -> Ingested {
    let evaluated = eval_model(symbols, layout.bank, layout.position(), chunk, 0);
    match evaluated.result {
        Ok(expanded) => {
            let committed = commit_model(layout, expanded);
            Ingested {
                symbols: evaluated.symbols,
                layout: committed.layout,
                result: committed.result,
            }
        },
        Err(error) => Ingested { symbols: evaluated.symbols, layout, result: Err(error) },
    }
}

/// The state that the assembler keeps from chunk to chunk.
pub struct Assembler {
    bank_number: u8,
    // `None` for a bank that is untouched
    banks: Vec<Option<Box<Bank>>>,
    symbols: SymbolTable,
}

impl Assembler {
    /// Whether the assembler is in order. Every assembler that `new`
    /// hands out is, and every method keeps it so.
    pub closed spec fn well_formed(&self) -> bool {
        &&& self.banks@.len() == BANK_SIZE
        &&& self.symbols.well_formed()
        &&& forall|i: int|
            0 <= i < self.banks@.len() ==> (#[trigger] self.banks@[i] matches Some(bank)
                ==> bank.number_spec() == i)
    }

    /// The output so far.
    pub closed spec fn layout(&self) -> Layout {
        Layout {
            bank: self.bank_number,
            banks: Map::new(
                |bank: u8| self.banks@[bank as int] is Some,
                |bank: u8| self.banks@[bank as int]->0@,
            ),
        }
    }

    /// The symbol table.
    pub closed spec fn symbols(&self) -> Map<Seq<char>, SymbolModel> {
        self.symbols@
    }

    /// An assembler at position 0 of bank 0, with no bank touched and the
    /// builtin symbols defined.
    pub fn new() -> (assembler: Self)
        ensures
            assembler.well_formed(),
            assembler.symbols() == initial_symbols(),
            assembler.layout() == (Layout { bank: 0, banks: Map::empty() }),
    {
        let mut symbols = SymbolTable::new();
        symbols.define(String::from_str("@"), Symbol::Builtin(Builtin::Position));
        symbols.define(String::from_str("@@"), Symbol::Builtin(Builtin::CurrentBank));
        symbols.define(String::from_str("bank"), Symbol::Builtin(Builtin::BankOf));
        symbols.define(String::from_str("+"), Symbol::Builtin(Builtin::Add));
        let mut banks: Vec<Option<Box<Bank>>> = Vec::new();
        let mut i: usize = 0;
        while i < BANK_SIZE
            invariant
                i <= BANK_SIZE,
                banks@.len() == i,
                forall|j: int| 0 <= j < i ==> banks@[j] is None,
            decreases BANK_SIZE - i,
        {
            banks.push(None);
            i += 1;
        }
        let assembler = Assembler { bank_number: 0, banks, symbols };
        assert(assembler.layout().banks =~= Map::<u8, BankModel>::empty());
        assembler
    }

    /// The number of the current bank.
    pub fn bank_number(&self) -> (bank: u8)
        ensures
            bank == self.layout().bank,
    {
        self.bank_number
    }

    /// The bank of the given number, if it was touched.
    pub fn bank(&self, number: u8) -> (bank: Option<&Bank>)
        requires
            self.well_formed(),
        ensures
            bank is Some <==> self.layout().banks.contains_key(number),
            bank matches Some(found) ==> found@ == self.layout().banks[number]
                && found.number_spec() == number,
    {
        match &self.banks[number as usize] {
            Some(bank) => Some(&**bank),
            None => None,
        }
    }

    /// The current position in the current bank.
    pub fn position(&self) -> (position: u8)
        requires
            self.well_formed(),
        ensures
            position == self.layout().position(),
    {
        match self.bank(self.bank_number) {
            Some(bank) => bank.position(),
            None => 0,
        }
    }

    /// The byte at `addr` of bank `bank`: zero in a bank that is
    /// untouched.
    pub fn byte_at(&self, bank: u8, addr: u8) -> (byte: u8)
        requires
            self.well_formed(),
        ensures
            byte == self.layout().bank_model(bank).data[addr as int],
    {
        match self.bank(bank) {
            Some(found) => found.byte_at(addr),
            None => 0,
        }
    }

    /// The output as one image of 65536 bytes, bank 0 first: what a memory
    /// is loaded with.
    pub fn image(&self) -> (image: Vec<u8>)
        requires
            self.well_formed(),
        ensures
            image@.len() == MEMORY_SIZE,
            forall|bank: u8, addr: u8| #[trigger]
                image@[global_address(bank, addr)] == self.layout().bank_model(
                    bank,
                ).data[addr as int],
    {
        let mut image: Vec<u8> = Vec::new();
        let mut bank: usize = 0;
        while bank < BANK_SIZE
            invariant
                self.well_formed(),
                bank <= BANK_SIZE,
                image@.len() == bank * 256,
                forall|b: u8, a: u8|
                    b < bank ==> #[trigger] image@[global_address(b, a)]
                        == self.layout().bank_model(b).data[a as int],
            decreases BANK_SIZE - bank,
        {
            let mut addr: usize = 0;
            while addr < BANK_SIZE
                invariant
                    self.well_formed(),
                    bank < BANK_SIZE,
                    addr <= BANK_SIZE,
                    image@.len() == bank * 256 + addr,
                    forall|b: u8, a: u8|
                        b < bank || (b == bank && a < addr) ==> #[trigger] image@[global_address(
                            b,
                            a,
                        )] == self.layout().bank_model(b).data[a as int],
                decreases BANK_SIZE - addr,
            {
                image.push(self.byte_at(bank as u8, addr as u8));
                addr += 1;
            }
            bank += 1;
        }
        image
    }

    /// Binds `name` to `symbol`, in place of whatever it was bound to.
    pub fn define(&mut self, name: String, symbol: Symbol)
        requires
            old(self).well_formed(),
        ensures
            final(self).well_formed(),
            final(self).symbols() == old(self).symbols().insert(name@, symbol@),
            final(self).layout() == old(self).layout(),
    {
        self.symbols.define(name, symbol);
    }

    /// The symbol that `name` is bound to, if it is bound.
    pub fn lookup(&self, name: &String) -> (found: Option<&Symbol>)
        requires
            self.well_formed(),
        ensures
            match found {
                Some(symbol) => self.symbols().contains_key(name@) && self.symbols()[name@]
                    == symbol@,
                None => !self.symbols().contains_key(name@),
            },
    {
        self.symbols.lookup(name)
    }

    // Takes the bank of the given number out of its slot, fresh if it was
    // untouched.
    fn take_bank(&mut self, number: u8) -> (bank: Box<Bank>)
        requires
            old(self).well_formed(),
        ensures
            bank@ == old(self).layout().bank_model(number),
            bank.number_spec() == number,
            final(self).banks@ == old(self).banks@.update(number as int, None),
            final(self).bank_number == old(self).bank_number,
            final(self).symbols == old(self).symbols,
    {
        match self.banks[number as usize].take() {
            Some(bank) => bank,
            None => Box::new(Bank::new(number)),
        }
    }

    // Writes `byte` at the current position and moves on.
    fn emit(&mut self, byte: u8)
        requires
            old(self).well_formed(),
        ensures
            final(self).well_formed(),
            final(self).symbols() == old(self).symbols(),
            final(self).layout() == old(self).layout().emit(byte),
    {
        let number = self.bank_number;
        let mut bank = self.take_bank(number);
        bank.put(byte);
        self.banks[number as usize] = Some(bank);
        assert(self.layout().banks =~= old(self).layout().emit(byte).banks);
    }

    // Sets the position, in bank `bank` if one is given.
    fn seek(&mut self, bank: Option<u8>, position: u8)
        requires
            old(self).well_formed(),
        ensures
            final(self).well_formed(),
            final(self).symbols() == old(self).symbols(),
            final(self).layout() == old(self).layout().seek(bank, position),
    {
        let number = match bank {
            Some(number) => number,
            None => self.bank_number,
        };
        let mut target = self.take_bank(number);
        target.position = position;
        self.banks[number as usize] = Some(target);
        self.bank_number = number;
        assert(self.layout().banks =~= old(self).layout().seek(bank, position).banks);
    }

    /// Evaluates `node` at level `depth` and returns what it expands to.
    /// Labels and definitions enter the symbol table as they are met;
    /// nothing is written to any bank.
    pub fn eval_node(&mut self, node: &Node, depth: usize) -> (result: Result<Node, ErrorKind>)
        requires
            old(self).well_formed(),
        ensures
            final(self).well_formed(),
            final(self).layout() == old(self).layout(),
            final(self).symbols() == eval_model(
                old(self).symbols(),
                old(self).layout().bank,
                old(self).layout().position(),
                node@,
                depth as nat,
            ).symbols,
            result_view(result) == eval_model(
                old(self).symbols(),
                old(self).layout().bank,
                old(self).layout().position(),
                node@,
                depth as nat,
            ).result,
    {
        let bank = self.bank_number;
        let position = self.position();
        evaluate(&mut self.symbols, bank, position, node, depth)
    }

    /// Commits an expanded node: writes the bytes that its statements
    /// state and sets the positions that they set, in order. The first
    /// node that is no statement ends the commit with
    /// `MalformedStatement`; what was committed before it stays.
    pub fn ingest_node(&mut self, node: &Node) -> (result: Result<(), ErrorKind>)
        requires
            old(self).well_formed(),
        ensures
            final(self).well_formed(),
            final(self).symbols() == old(self).symbols(),
            final(self).layout() == commit_model(old(self).layout(), node@).layout,
            result == commit_model(old(self).layout(), node@).result,
        decreases node,
    {
        proof {
            node.lemma_view_children();
        }
        let ghost nodes = node@.children;
        match &node.kind {
            Kind::Void => {
                let mut i: usize = 0;
                assert(nodes.take(0) =~= Seq::<NodeModel>::empty());
                while i < node.children.len()
                    invariant
                        self.well_formed(),
                        self.symbols() == old(self).symbols(),
                        nodes == node@.children,
                        nodes == nodes_view(node.children@),
                        node@.kind is Void,
                        i <= node.children@.len(),
                        commit_all_model(old(self).layout(), nodes.take(i as int)) == (Committed {
                            layout: self.layout(),
                            result: Ok(()),
                        }),
                    decreases node.children@.len() - i,
                {
                    proof {
                        assert(nodes.take(i + 1).drop_last() =~= nodes.take(i as int));
                        assert(nodes.take(i + 1).last() == node.children@[i as int]@);
                    }
                    let committed = self.ingest_node(&node.children[i]);
                    match committed {
                        Ok(done) => {
                            assert(done == ());
                        },
                        Err(error) => {
                            proof {
                                lemma_commit_failure(old(self).layout(), nodes, i + 1);
                            }
                            return Err(error);
                        },
                    }
                    i += 1;
                }
                proof {
                    assert(nodes.take(i as int) =~= nodes);
                }
                Ok(())
            },
            Kind::Integer(value) => {
                if node.children.len() == 0 {
                    self.emit(*value);
                    Ok(())
                } else {
                    Err(ErrorKind::MalformedStatement)
                }
            },
            Kind::Location(location) => {
                if node.children.len() == 0 {
                    self.emit(location_address(*location));
                    Ok(())
                } else {
                    Err(ErrorKind::MalformedStatement)
                }
            },
            Kind::Identifier(name) => {
                if text_is(name, "@") {
                    if node.children.len() == 1 {
                        match plain_value(&node.children[0]) {
                            Some(position) => {
                                self.seek(None, position);
                                Ok(())
                            },
                            None => Err(ErrorKind::MalformedStatement),
                        }
                    } else if node.children.len() == 2 {
                        match (plain_value(&node.children[0]), plain_value(&node.children[1])) {
                            (Some(bank), Some(position)) => {
                                self.seek(Some(bank), position);
                                Ok(())
                            },
                            _ => Err(ErrorKind::MalformedStatement),
                        }
                    } else {
                        Err(ErrorKind::MalformedStatement)
                    }
                } else {
                    let byte = match parse_instruction(name, &node.children) {
                        Some(instruction) => instruction.encode(),
                        None => None,
                    };
                    match byte {
                        Some(byte) => {
                            self.emit(byte);
                            Ok(())
                        },
                        None => Err(ErrorKind::MalformedStatement),
                    }
                }
            },
            _ => Err(ErrorKind::MalformedStatement),
        }
    }

    /// Takes in a chunk of any number of statements: expands it, then
    /// commits what it expanded to. The chunk is expanded whole before any
    /// of it is committed, so a label in it is bound to the position at
    /// which the chunk began. A failure ends the chunk: what the chunk
    /// defined and committed before the failure stays, and so does
    /// everything from the chunks before.
    pub fn ingest(&mut self, chunk: Node) -> (result: Result<(), ErrorKind>)
        requires
            old(self).well_formed(),
        ensures
            final(self).well_formed(),
            final(self).symbols() == ingest_model(
                old(self).symbols(),
                old(self).layout(),
                chunk@,
            ).symbols,
            final(self).layout() == ingest_model(
                old(self).symbols(),
                old(self).layout(),
                chunk@,
            ).layout,
            result == ingest_model(old(self).symbols(), old(self).layout(), chunk@).result,
    {
        match self.eval_node(&chunk, 0) {
            Ok(expanded) => self.ingest_node(&expanded),
            Err(error) => Err(error),
        }
    }
}

} // verus!
