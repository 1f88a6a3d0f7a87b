//! Instructions as the assembler writes them, and their encoding.
//!
//! | mnemonic | operands | opcode bits 5-0 |
//! |----------|----------|-----------------|
//! | `immd`   | a value below 16 | `00vvvv` |
//! | `load`   | none | `010000` |
//! | `halt`   | none | `010011` |
//! | `mix`    | a register | `0101rr` |
//! | `inc`    | a register | `0110rr` |
//! | `dec`    | a register | `0111rr` |
//! | `bit`    | base and arg registers | `10bbrr` |
//! | `onto`   | base and arg registers | `11bbrr` |
//!
//! The registers are `A` (0), `IP` (1), `P` (2) and `[P]` (3), the memory
//! cell that P points to. With `[P]` for both operands, `bit` and `onto`
//! are the instructions that set the bank of P and the bank of IP.
//!
//! An instruction is an identifier node that bears the mnemonic. Its
//! children are, in this order: `+` (the predicate bit is set) or `-` (it
//! is clear), or neither; `!` (the commit bit is set), or not; then the
//! operands.

use crate::ast::{nodes_view, Kind, KindModel, Node, NodeModel};
use crate::expand::{plain_value, plain_value_model};
use crate::isa::{arg_selector, base_selector, commit_bit, low_nibble, major_opcode, predicate_bit};
use vstd::prelude::*;

verus! {

/// A place that an instruction reads or writes.
#[derive(Clone, Copy, Debug, PartialEq, Eq, Structural)]
pub enum Register {
    A,
    IP,
    P,
    /// The memory cell at (bank_P, P).
    Memory,
}

/// What an instruction does.
#[derive(Clone, Copy, Debug, PartialEq, Eq, Structural)]
pub enum Operation {
    /// Enters a nibble into I.
    Immd(u8),
    Load,
    Halt,
    Mix(Register),
    Inc(Register),
    Dec(Register),
    /// Base, then arg.
    Bit(Register, Register),
    /// Base, then arg.
    Onto(Register, Register),
}

/// An operation with the two bits that govern it.
#[derive(Clone, Copy, Debug, PartialEq, Eq, Structural)]
pub struct Instruction {
    /// The instruction takes effect only while the condition flag is set
    /// (`true`) or clear (`false`).
    pub predicate: bool,
    /// The condition that the instruction computes replaces the flag.
    pub commit: bool,
    pub operation: Operation,
}

impl Register {
    /// The number by which an instruction byte names the register.
    pub open spec fn selector_spec(self) -> u8 {
        match self {
            Register::A => 0,
            Register::IP => 1,
            Register::P => 2,
            Register::Memory => 3,
        }
    }

    /// The number by which an instruction byte names the register.
    pub fn selector(self) -> (selector: u8)
        ensures
            selector == self.selector_spec(),
    {
        match self {
            Register::A => 0,
            Register::IP => 1,
            Register::P => 2,
            Register::Memory => 3,
        }
    }
}

impl Operation {
    /// Whether the operation can be encoded: the operand of `immd` is a
    /// nibble.
    pub open spec fn encodable(self) -> bool {
        self matches Operation::Immd(value) ==> value < 16
    }

    /// Whether the fields of `byte` that the simulator reads are those of
    /// the operation.
    pub open spec fn read_from(self, byte: u8) -> bool {
        match self {
            Operation::Immd(value) => major_opcode(byte) == 0 && low_nibble(byte) == value,
            Operation::Load => byte & 0x3f == 0x10,
            Operation::Halt => byte & 0x3f == 0x13,
            Operation::Mix(arg) => major_opcode(byte) == 1 && base_selector(byte) == 1
                && arg_selector(byte) == arg.selector_spec(),
            Operation::Inc(arg) => major_opcode(byte) == 1 && base_selector(byte) == 2
                && arg_selector(byte) == arg.selector_spec(),
            Operation::Dec(arg) => major_opcode(byte) == 1 && base_selector(byte) == 3
                && arg_selector(byte) == arg.selector_spec(),
            Operation::Bit(base, arg) => major_opcode(byte) == 2 && base_selector(byte)
                == base.selector_spec() && arg_selector(byte) == arg.selector_spec(),
            Operation::Onto(base, arg) => major_opcode(byte) == 3 && base_selector(byte)
                == base.selector_spec() && arg_selector(byte) == arg.selector_spec(),
        }
    }

    /// Bits 5-0 of the instruction byte.
    pub open spec fn opcode(self) -> u8 {
        match self {
            Operation::Immd(value) => value,
            Operation::Load => 0x10,
            Operation::Halt => 0x13,
            Operation::Mix(arg) => 0x14 | arg.selector_spec(),
            Operation::Inc(arg) => 0x18 | arg.selector_spec(),
            Operation::Dec(arg) => 0x1c | arg.selector_spec(),
            Operation::Bit(base, arg) => 0x20 | (base.selector_spec() << 2) | arg.selector_spec(),
            Operation::Onto(base, arg) => 0x30 | (base.selector_spec() << 2) | arg.selector_spec(),
        }
    }
}

impl Instruction {
    /// Bits 7 and 6 of the instruction byte, in place: the predicate and
    /// the commit bit.
    pub open spec fn flags(self) -> u8 {
        if self.predicate {
            if self.commit {
                0xc0
            } else {
                0x80
            }
        } else {
            if self.commit {
                0x40
            } else {
                0
            }
        }
    }

    /// The instruction byte: the predicate in bit 7, the commit bit in bit
    /// 6, the opcode below them.
    pub open spec fn encoding(self) -> u8 {
        self.flags() | self.operation.opcode()
    }

    /// The instruction byte, if the operation can be encoded.
    pub fn encode(&self) -> (byte: Option<u8>)
        ensures
            byte == if self.operation.encodable() {
                Some(self.encoding())
            } else {
                None
            },
    {
        let opcode: u8 = match self.operation {
            Operation::Immd(value) => {
                if value >= 16 {
                    return None;
                }
                value
            },
            Operation::Load => 0x10,
            Operation::Halt => 0x13,
            Operation::Mix(arg) => 0x14 | arg.selector(),
            Operation::Inc(arg) => 0x18 | arg.selector(),
            Operation::Dec(arg) => 0x1c | arg.selector(),
            Operation::Bit(base, arg) => 0x20 | (base.selector() << 2) | arg.selector(),
            Operation::Onto(base, arg) => 0x30 | (base.selector() << 2) | arg.selector(),
        };
        let flags: u8 = if self.predicate {
            if self.commit {
                0xc0
            } else {
                0x80
            }
        } else {
            if self.commit {
                0x40
            } else {
                0
            }
        };
        Some(flags | opcode)
    }

    /// The fields that the simulator reads from the encoding are the ones
    /// that the instruction was made of.
    pub proof fn lemma_encoding_fields(self)
        requires
            self.operation.encodable(),
        ensures
            predicate_bit(self.encoding()) == self.predicate,
            commit_bit(self.encoding()) == self.commit,
            self.operation.read_from(self.encoding()),
    {
        let flags = self.flags();
        match self.operation {
            Operation::Immd(value) => {
                lemma_nibble_fields(flags, value);
            },
            Operation::Load => {
                lemma_nibble_fields(flags, 0x10);
            },
            Operation::Halt => {
                lemma_nibble_fields(flags, 0x13);
            },
            Operation::Mix(arg) => {
                lemma_minor_fields(flags, 0x14, 1, arg.selector_spec());
            },
            Operation::Inc(arg) => {
                lemma_minor_fields(flags, 0x18, 2, arg.selector_spec());
            },
            Operation::Dec(arg) => {
                lemma_minor_fields(flags, 0x1c, 3, arg.selector_spec());
            },
            Operation::Bit(base, arg) => {
                lemma_selector_fields(flags, 0x20, 2, base.selector_spec(), arg.selector_spec());
            },
            Operation::Onto(base, arg) => {
                lemma_selector_fields(flags, 0x30, 3, base.selector_spec(), arg.selector_spec());
            },
        }
    }
}

proof fn lemma_selector_fields(flags: u8, head: u8, major: u8, base: u8, arg: u8)
    by (bit_vector)
    requires
        flags == 0 || flags == 0x40 || flags == 0x80 || flags == 0xc0,
        (head == 0x20 && major == 2) || (head == 0x30 && major == 3),
        base <= 3,
        arg <= 3,
    ensures
        ({
            let byte = flags | (head | (base << 2) | arg);
            &&& (byte & 0x80 != 0) == (flags >= 0x80)
            &&& (byte & 0x40 != 0) == (flags == 0x40 || flags == 0xc0)
            &&& (byte >> 4) & 3 == major
            &&& (byte >> 2) & 3 == base
            &&& byte & 3 == arg
        }),
{
}

proof fn lemma_minor_fields(flags: u8, head: u8, minor: u8, arg: u8)
    by (bit_vector)
    requires
        flags == 0 || flags == 0x40 || flags == 0x80 || flags == 0xc0,
        (head == 0x14 && minor == 1) || (head == 0x18 && minor == 2) || (head == 0x1c && minor
            == 3),
        arg <= 3,
    ensures
        ({
            let byte = flags | (head | arg);
            &&& (byte & 0x80 != 0) == (flags >= 0x80)
            &&& (byte & 0x40 != 0) == (flags == 0x40 || flags == 0xc0)
            &&& (byte >> 4) & 3 == 1
            &&& (byte >> 2) & 3 == minor
            &&& byte & 3 == arg
        }),
{
}

proof fn lemma_nibble_fields(flags: u8, nibble: u8)
    by (bit_vector)
    requires
        flags == 0 || flags == 0x40 || flags == 0x80 || flags == 0xc0,
        nibble < 16 || nibble == 0x10 || nibble == 0x13,
    ensures
        ({
            let byte = flags | nibble;
            &&& (byte & 0x80 != 0) == (flags >= 0x80)
            &&& (byte & 0x40 != 0) == (flags == 0x40 || flags == 0xc0)
            &&& nibble < 16 ==> (byte >> 4) & 3 == 0
            &&& nibble < 16 ==> byte & 0x0f == nibble
            &&& nibble >= 16 ==> byte & 0x3f == nibble
        }),
{
}

/// The text of a bare word: an identifier without children.
pub open spec fn word_model(node: NodeModel) -> Option<Seq<char>> {
    match node.kind {
        KindModel::Identifier(name) => if node.children.len() == 0 {
            Some(name)
        } else {
            None
        },
        _ => None,
    }
}

/// Whether `node` is the bare word `text`.
pub fn is_word(node: &Node, text: &str) -> (same: bool)
    ensures
        same == (word_model(node@) == Some(text@)),
{
    proof {
        node.lemma_view_children();
    }
    match &node.kind {
        Kind::Identifier(name) => node.children.len() == 0 && *name == String::from_str(text),
        _ => false,
    }
}

/// The register that a node names.
pub open spec fn register_model(node: NodeModel) -> Option<Register> {
    if word_model(node) == Some("A"@) {
        Some(Register::A)
    } else if word_model(node) == Some("IP"@) {
        Some(Register::IP)
    } else if word_model(node) == Some("P"@) {
        Some(Register::P)
    } else if word_model(node) == Some("[P]"@) {
        Some(Register::Memory)
    } else {
        None
    }
}

/// The register that a node names.
pub fn parse_register(node: &Node) -> (register: Option<Register>)
    ensures
        register == register_model(node@),
{
    if is_word(node, "A") {
        Some(Register::A)
    } else if is_word(node, "IP") {
        Some(Register::IP)
    } else if is_word(node, "P") {
        Some(Register::P)
    } else if is_word(node, "[P]") {
        Some(Register::Memory)
    } else {
        None
    }
}

/// The operation that a mnemonic and its operands name, if they name one.
pub open spec fn operation_model(mnemonic: Seq<char>, operands: Seq<NodeModel>) -> Option<
    Operation,
> {
    if mnemonic == "immd"@ {
        if operands.len() == 1 {
            match plain_value_model(operands[0]) {
                Some(value) => if value < 16 {
                    Some(Operation::Immd(value))
                } else {
                    None
                },
                None => None,
            }
        } else {
            None
        }
    } else if mnemonic == "load"@ {
        if operands.len() == 0 {
            Some(Operation::Load)
        } else {
            None
        }
    } else if mnemonic == "halt"@ {
        if operands.len() == 0 {
            Some(Operation::Halt)
        } else {
            None
        }
    } else if mnemonic == "mix"@ || mnemonic == "inc"@ || mnemonic == "dec"@ {
        if operands.len() == 1 {
            match register_model(operands[0]) {
                Some(arg) => Some(
                    if mnemonic == "mix"@ {
                        Operation::Mix(arg)
                    } else if mnemonic == "inc"@ {
                        Operation::Inc(arg)
                    } else {
                        Operation::Dec(arg)
                    },
                ),
                None => None,
            }
        } else {
            None
        }
    } else if mnemonic == "bit"@ || mnemonic == "onto"@ {
        if operands.len() == 2 {
            match (register_model(operands[0]), register_model(operands[1])) {
                (Some(base), Some(arg)) => Some(
                    if mnemonic == "bit"@ {
                        Operation::Bit(base, arg)
                    } else {
                        Operation::Onto(base, arg)
                    },
                ),
                _ => None,
            }
        } else {
            None
        }
    } else {
        None
    }
}

/// The flags at the head of an instruction's children, and how many
/// children they take.
pub ghost struct Flags {
    pub predicate: bool,
    pub commit: bool,
    pub count: int,
}

/// The flags that lead `children`: first `+` or `-` or neither, then `!`
/// or not.
pub open spec fn flags_model(children: Seq<NodeModel>) -> Flags {
    let signed = children.len() > 0 && (word_model(children[0]) == Some("+"@) || word_model(
        children[0],
    ) == Some("-"@));
    let predicate = children.len() > 0 && word_model(children[0]) == Some("+"@);
    let at: int = if signed {
        1
    } else {
        0
    };
    let commit = children.len() > at && word_model(children[at]) == Some("!"@);
    Flags {
        predicate,
        commit,
        count: if commit {
            at + 1
        } else {
            at
        },
    }
}

/// The instruction that an identifier node with the text `mnemonic` and
/// the children `children` states, if it states one.
pub open spec fn instruction_model(mnemonic: Seq<char>, children: Seq<NodeModel>) -> Option<
    Instruction,
> {
    let flags = flags_model(children);
    match operation_model(mnemonic, children.skip(flags.count)) {
        Some(operation) => Some(
            Instruction { predicate: flags.predicate, commit: flags.commit, operation },
        ),
        None => None,
    }
}

/// Whether `name` reads `text`.
pub fn text_is(name: &String, text: &str) -> (same: bool)
    ensures
        same == (name@ == text@),
{
    *name == String::from_str(text)
}

/// The instruction that an identifier node with the text `mnemonic` and
/// the children `children` states, if it states one.
pub fn parse_instruction(mnemonic: &String, children: &Vec<Node>) -> (instruction: Option<
    Instruction,
>)
    ensures
        instruction == instruction_model(mnemonic@, nodes_view(children@)),
        instruction matches Some(i) ==> i.operation.encodable(),
{
    let ghost nodes = nodes_view(children@);
    let mut at: usize = 0;
    let mut predicate = false;
    let mut commit = false;
    if children.len() > 0 {
        if is_word(&children[0], "+") {
            predicate = true;
            at = 1;
        } else if is_word(&children[0], "-") {
            at = 1;
        }
    }
    if children.len() > at && is_word(&children[at], "!") {
        commit = true;
        at += 1;
    }
    assert(flags_model(nodes) == (Flags { predicate, commit, count: at as int }));
    let ghost operands = nodes.skip(at as int);
    let count = children.len() - at;
    assert(operands.len() == count);
    assert(forall|j: int| 0 <= j < count ==> operands[j] == children@[at + j]@);
    let operation = if text_is(mnemonic, "immd") {
        if count == 1 {
            match plain_value(&children[at]) {
                Some(value) => if value < 16 {
                    Some(Operation::Immd(value))
                } else {
                    None
                },
                None => None,
            }
        } else {
            None
        }
    } else if text_is(mnemonic, "load") {
        if count == 0 {
            Some(Operation::Load)
        } else {
            None
        }
    } else if text_is(mnemonic, "halt") {
        if count == 0 {
            Some(Operation::Halt)
        } else {
            None
        }
    } else if text_is(mnemonic, "mix") || text_is(mnemonic, "inc") || text_is(mnemonic, "dec") {
        if count == 1 {
            match parse_register(&children[at]) {
                Some(arg) => Some(
                    if text_is(mnemonic, "mix") {
                        Operation::Mix(arg)
                    } else if text_is(mnemonic, "inc") {
                        Operation::Inc(arg)
                    } else {
                        Operation::Dec(arg)
                    },
                ),
                None => None,
            }
        } else {
            None
        }
    } else if text_is(mnemonic, "bit") || text_is(mnemonic, "onto") {
        if count == 2 {
            match (parse_register(&children[at]), parse_register(&children[at + 1])) {
                (Some(base), Some(arg)) => Some(
                    if text_is(mnemonic, "bit") {
                        Operation::Bit(base, arg)
                    } else {
                        Operation::Onto(base, arg)
                    },
                ),
                _ => None,
            }
        } else {
            None
        }
    } else {
        None
    };
    assert(operation == operation_model(mnemonic@, operands));
    match operation {
        Some(operation) => Some(Instruction { predicate, commit, operation }),
        None => None,
    }
}

} // verus!
