//! The meaning of one instruction byte.
//!
//! An instruction byte is read positionally, bit 7 first:
//!
//! | bits | field |
//! |------|-------|
//! | 7    | predicate: the instruction takes effect only if this equals the condition flag |
//! | 6    | commit: the condition the instruction computes replaces the condition flag |
//! | 5-4  | major opcode: 0 immd, 1 single-register and register-free, 2 bit, 3 onto |
//! | 3-2  | base selector (major 2, 3) or minor opcode (major 1) |
//! | 1-0  | arg selector |
//!
//! A selector names A (0), IP (1), P (2) or the memory cell at (bank_P, P) (3).
//!
//! The same step is stated twice: once by cases on the opcode
//! ([`step_spec`]) and once as gated data flow ([`step_hw_spec`]).
//! [`lemma_step_hw_agrees`] shows that the two are one function.

use vstd::prelude::*;

verus! {

/// The register file.
#[derive(Clone, Copy, Debug, PartialEq, Eq, Structural)]
pub struct Registers {
    /// The condition flag.
    pub condition: bool,
    /// The immediate accumulator: four bits enter per instruction.
    pub reg_i: u8,
    /// The accumulator.
    pub reg_a: u8,
    /// The instruction pointer.
    pub reg_ip: u8,
    /// The pointer register.
    pub reg_p: u8,
    /// The bank that instructions are fetched from.
    pub bank_ip: u8,
    /// The bank that the pointer register addresses.
    pub bank_p: u8,
}

/// What one step yields.
pub ghost struct Outcome {
    /// Whether the step executed a halt instruction.
    pub halted: bool,
    /// The register file after the step.
    pub registers: Registers,
    /// The byte written to the cell at (bank_P, P) of the state before the
    /// step, if the step writes memory.
    pub store: Option<u8>,
}

/// Bit 7: the condition-flag value under which the instruction takes effect.
pub open spec fn predicate_bit(instruction: u8) -> bool {
    instruction & 0x80 != 0
}

/// Bit 6: whether the computed condition replaces the condition flag.
pub open spec fn commit_bit(instruction: u8) -> bool {
    instruction & 0x40 != 0
}

/// Bits 5-4.
pub open spec fn major_opcode(instruction: u8) -> u8 {
    (instruction >> 4) & 3
}

/// Bits 3-2: the base selector of a two-register instruction, the minor
/// opcode under major opcode 1.
pub open spec fn base_selector(instruction: u8) -> u8 {
    (instruction >> 2) & 3
}

/// Bits 1-0.
pub open spec fn arg_selector(instruction: u8) -> u8 {
    instruction & 3
}

/// Bits 3-0.
pub open spec fn low_nibble(instruction: u8) -> u8 {
    instruction & 0x0f
}

/// The value a selector names; `cell` is the byte at (bank_P, P).
pub open spec fn selected(registers: Registers, cell: u8, selector: u8) -> u8 {
    if selector == 0 {
        registers.reg_a
    } else if selector == 1 {
        registers.reg_ip
    } else if selector == 2 {
        registers.reg_p
    } else {
        cell
    }
}

/// Bit `k` of `x`, as 0 or 1.
pub open spec fn bit_at(x: u8, k: u8) -> u8 {
    (x >> k) & 1
}

/// The two-bit group of `x` whose low bit is bit `shift`.
pub open spec fn pair_at(x: u8, shift: u8) -> u8 {
    (x >> shift) & 3
}

/// onto: base + arg + I, modulo 256.
pub open spec fn onto_value(base: u8, arg: u8, immediate: u8) -> u8 {
    ((base + arg + immediate) % 256) as u8
}

/// onto: whether either of the two additions carries, which is whether the
/// sum leaves the byte range.
pub open spec fn onto_carry(base: u8, arg: u8, immediate: u8) -> bool {
    base + arg + immediate > 255
}

/// inc: arg + I, modulo 256.
pub open spec fn inc_value(arg: u8, immediate: u8) -> u8 {
    ((arg + immediate) % 256) as u8
}

pub open spec fn inc_carry(arg: u8, immediate: u8) -> bool {
    arg + immediate > 255
}

/// dec: arg - I, modulo 256.
pub open spec fn dec_value(arg: u8, immediate: u8) -> u8 {
    ((arg - immediate) % 256) as u8
}

pub open spec fn dec_borrow(arg: u8, immediate: u8) -> bool {
    arg < immediate
}

/// bit: the result's bit `k`, in place. The bits of base and arg at `k`
/// form a two-bit index, base high, that picks one of the four low bits of
/// I.
pub open spec fn truth_lane(base: u8, arg: u8, immediate: u8, k: u8) -> u8 {
    bit_at(immediate, (bit_at(base, k) << 1) | bit_at(arg, k)) << k
}

/// The bits of the bit result below position `n`.
pub open spec fn truth_lanes(base: u8, arg: u8, immediate: u8, n: u8) -> u8
    decreases n,
{
    if n == 0 {
        0
    } else {
        truth_lanes(base, arg, immediate, (n - 1) as u8) | truth_lane(
            base,
            arg,
            immediate,
            (n - 1) as u8,
        )
    }
}

/// bit: the low four bits of I are the truth table of a binary operation,
/// applied at each of the eight bit positions.
pub open spec fn bit_value(base: u8, arg: u8, immediate: u8) -> u8 {
    truth_lanes(base, arg, immediate, 8)
}

/// bit: bits 6-4 of I pick a bit of the result; the condition is whether
/// that bit equals bit 7 of I.
pub open spec fn bit_condition(value: u8, immediate: u8) -> bool {
    bit_at(value, (immediate >> 4) & 7) == bit_at(immediate, 7)
}

/// mix: the output group whose low bit is bit `shift`, in place. The group
/// of I at that place is the number of the group of base that is copied.
pub open spec fn mix_lane(base: u8, immediate: u8, shift: u8) -> u8 {
    pair_at(base, pair_at(immediate, shift) << 1) << shift
}

/// The groups of the mix result below bit `2 * n`.
pub open spec fn mix_lanes(base: u8, immediate: u8, n: u8) -> u8
    decreases n,
{
    if n == 0 {
        0
    } else {
        mix_lanes(base, immediate, (n - 1) as u8) | mix_lane(
            base,
            immediate,
            (2 * (n - 1)) as u8,
        )
    }
}

/// mix: each of the four two-bit groups of the result is the group of base
/// that the same group of I names.
pub open spec fn mix_value(base: u8, immediate: u8) -> u8 {
    mix_lanes(base, immediate, 4)
}

/// The instruction pointer after an instruction that does not write it.
pub open spec fn next_ip(reg_ip: u8) -> u8 {
    ((reg_ip + 1) % 256) as u8
}

/// What every step does, whether or not the instruction takes effect: IP
/// advances and I moves four bits to the left.
pub open spec fn epilogue(registers: Registers) -> Registers {
    Registers { reg_ip: next_ip(registers.reg_ip), reg_i: registers.reg_i << 4, ..registers }
}

/// The outcome of an instruction that writes `value` to the place that
/// `selector` names and computes `condition`. A write to IP replaces the
/// advance.
pub open spec fn write_back(
    registers: Registers,
    selector: u8,
    value: u8,
    condition: bool,
) -> Outcome {
    let rest = Registers { condition, ..epilogue(registers) };
    if selector == 0 {
        Outcome { halted: false, registers: Registers { reg_a: value, ..rest }, store: None }
    } else if selector == 1 {
        Outcome { halted: false, registers: Registers { reg_ip: value, ..rest }, store: None }
    } else if selector == 2 {
        Outcome { halted: false, registers: Registers { reg_p: value, ..rest }, store: None }
    } else {
        Outcome { halted: false, registers: rest, store: Some(value) }
    }
}

/// The outcome of an instruction that changes no selectable place and
/// computes `condition`.
pub open spec fn no_write(registers: Registers, condition: bool) -> Outcome {
    Outcome {
        halted: false,
        registers: Registers { condition, ..epilogue(registers) },
        store: None,
    }
}

/// What the instruction does once its predicate has matched. The condition
/// in the outcome is the one the instruction computes, whatever the commit
/// bit says.
pub open spec fn effect(registers: Registers, instruction: u8, cell: u8) -> Outcome {
    let immediate = registers.reg_i;
    let base = selected(registers, cell, base_selector(instruction));
    let arg = selected(registers, cell, arg_selector(instruction));
    let major = major_opcode(instruction);
    let minor = base_selector(instruction);
    if major == 0 {
        // immd: the low nibble enters I
        let rest = no_write(registers, false);
        Outcome {
            registers: Registers {
                reg_i: (immediate << 4) | low_nibble(instruction),
                ..rest.registers
            },
            ..rest
        }
    } else if major != 1 && low_nibble(instruction) == 0x0f {
        // both selectors name the memory cell: a bank register is set from I
        let rest = no_write(registers, false);
        if major == 3 {
            Outcome { registers: Registers { bank_ip: immediate, ..rest.registers }, ..rest }
        } else {
            Outcome { registers: Registers { bank_p: immediate, ..rest.registers }, ..rest }
        }
    } else if major == 3 {
        write_back(
            registers,
            base_selector(instruction),
            onto_value(base, arg, immediate),
            onto_carry(base, arg, immediate),
        )
    } else if major == 2 {
        let value = bit_value(base, arg, immediate);
        write_back(registers, base_selector(instruction), value, bit_condition(value, immediate))
    } else if minor == 2 {
        write_back(
            registers,
            arg_selector(instruction),
            inc_value(arg, immediate),
            inc_carry(arg, immediate),
        )
    } else if minor == 3 {
        write_back(
            registers,
            arg_selector(instruction),
            dec_value(arg, immediate),
            dec_borrow(arg, immediate),
        )
    } else if minor == 1 {
        let value = mix_value(arg, immediate);
        write_back(registers, arg_selector(instruction), value, value == 0)
    } else if arg_selector(instruction) == 0 {
        // load: I takes the value of A and the condition flips
        let rest = no_write(registers, !registers.condition);
        Outcome { registers: Registers { reg_i: registers.reg_a, ..rest.registers }, ..rest }
    } else if arg_selector(instruction) == 3 {
        // halt
        Outcome { halted: true, ..no_write(registers, false) }
    } else {
        no_write(registers, false)
    }
}

/// One step, by cases. `instruction` is the byte at (bank_IP, IP) and
/// `cell` the byte at (bank_P, P).
///
/// An instruction whose predicate bit differs from the condition flag does
/// nothing but the epilogue. One whose predicate matches has its effect, and
/// the condition it computes replaces the flag only under the commit bit.
pub open spec fn step_spec(registers: Registers, instruction: u8, cell: u8) -> Outcome {
    if predicate_bit(instruction) != registers.condition {
        Outcome { halted: false, registers: epilogue(registers), store: None }
    } else {
        let fired = effect(registers, instruction, cell);
        Outcome {
            registers: Registers {
                condition: if commit_bit(instruction) {
                    fired.registers.condition
                } else {
                    registers.condition
                },
                ..fired.registers
            },
            ..fired
        }
    }
}

/// The result and condition outputs of the arithmetic unit, computed for
/// every instruction byte whether or not anything will use them.
pub open spec fn alu(opcode: u8, base: u8, arg: u8, immediate: u8) -> (u8, bool) {
    if opcode & 0x30 == 0x30 {
        (onto_value(base, arg, immediate), onto_carry(base, arg, immediate))
    } else if opcode & 0x30 == 0x20 {
        let value = bit_value(base, arg, immediate);
        (value, bit_condition(value, immediate))
    } else if opcode & 0x3c == 0x14 {
        let value = mix_value(base, immediate);
        (value, value == 0)
    } else if opcode & 0x3c == 0x18 {
        (inc_value(base, immediate), inc_carry(base, immediate))
    } else if opcode & 0x3c == 0x1c {
        (dec_value(base, immediate), dec_borrow(base, immediate))
    } else {
        (0, false)
    }
}

/// One step, as data flow: the operands, the output of the arithmetic unit
/// and the write enable are functions of the instruction byte alone, and
/// each register of the result is selected by the predicate match and the
/// write target.
pub open spec fn step_hw_spec(registers: Registers, instruction: u8, cell: u8) -> Outcome {
    let match_condition = predicate_bit(instruction) == registers.condition;
    let opcode = instruction & 0x3f;
    let base_reg = if opcode & 0x20 == 0x20 {
        (opcode & 0x0c) >> 2
    } else {
        opcode & 0x03
    };
    let arg_reg = opcode & 0x03;
    let base = selected(registers, cell, base_reg);
    let arg = selected(registers, cell, arg_reg);
    let is_write = opcode & 0x30 != 0 && opcode & 0x3c != 0x10 && opcode & 0x2f != 0x2f;
    let (result, result_cond) = alu(opcode, base, arg, registers.reg_i);
    let enabled = match_condition && is_write;
    let new_cond = if is_write {
        result_cond
    } else if opcode == 0x10 {
        !registers.condition
    } else {
        false
    };
    Outcome {
        halted: match_condition && opcode == 0x13,
        registers: Registers {
            condition: if match_condition && instruction & 0x40 == 0x40 {
                new_cond
            } else {
                registers.condition
            },
            reg_i: if match_condition && opcode == 0x10 {
                registers.reg_a
            } else if match_condition && opcode & 0x30 == 0 {
                (registers.reg_i << 4) | (opcode & 0x0f)
            } else {
                registers.reg_i << 4
            },
            reg_a: if enabled && base_reg == 0 {
                result
            } else {
                registers.reg_a
            },
            reg_ip: if enabled && base_reg == 1 {
                result
            } else {
                next_ip(registers.reg_ip)
            },
            reg_p: if enabled && base_reg == 2 {
                result
            } else {
                registers.reg_p
            },
            bank_ip: if match_condition && opcode == 0x3f {
                registers.reg_i
            } else {
                registers.bank_ip
            },
            bank_p: if match_condition && opcode == 0x2f {
                registers.reg_i
            } else {
                registers.bank_p
            },
        },
        store: if enabled && base_reg == 3 {
            Some(result)
        } else {
            None
        },
    }
}

/// How the masks of the data-flow form read the fields of the instruction
/// byte.
pub proof fn lemma_opcode_masks(instruction: u8)
    by (bit_vector)
    ensures
        ({
            let opcode = instruction & 0x3f;
            let major = (instruction >> 4) & 3;
            let minor = (instruction >> 2) & 3;
            let arg = instruction & 3;
            &&& major <= 3 && minor <= 3 && arg <= 3
            &&& opcode & 0x03 == arg
            &&& (opcode & 0x0c) >> 2 == minor
            &&& opcode & 0x0f == instruction & 0x0f
            &&& (instruction & 0x40 == 0x40) == (instruction & 0x40 != 0)
            &&& (opcode & 0x20 == 0x20) == (major == 2 || major == 3)
            &&& (opcode & 0x30 == 0) == (major == 0)
            &&& (opcode & 0x30 == 0x30) == (major == 3)
            &&& (opcode & 0x30 == 0x20) == (major == 2)
            &&& (opcode & 0x3c == 0x10) == (major == 1 && minor == 0)
            &&& (opcode & 0x3c == 0x14) == (major == 1 && minor == 1)
            &&& (opcode & 0x3c == 0x18) == (major == 1 && minor == 2)
            &&& (opcode & 0x3c == 0x1c) == (major == 1 && minor == 3)
            &&& (opcode & 0x2f == 0x2f) == ((major == 2 || major == 3) && instruction & 0x0f
                == 0x0f)
            &&& (opcode == 0x10) == (major == 1 && minor == 0 && arg == 0)
            &&& (opcode == 0x13) == (major == 1 && minor == 0 && arg == 3)
            &&& (opcode == 0x2f) == (major == 2 && instruction & 0x0f == 0x0f)
            &&& (opcode == 0x3f) == (major == 3 && instruction & 0x0f == 0x0f)
            &&& (instruction & 0x0f == 0x0f) == (minor == 3 && arg == 3)
            &&& (instruction & 0x30) >> 4 == major
            &&& (instruction & 0x0c) >> 2 == minor
            &&& (instruction & 0x30 == 0x30) == (major == 3)
        }),
{
}

/// The case form and the data-flow form of a step are the same function:
/// on every instruction byte, in every state and over every memory cell
/// they yield the same halt flag, the same register file and the same
/// memory write.
pub proof fn lemma_step_hw_agrees(registers: Registers, instruction: u8, cell: u8)
    ensures
        step_hw_spec(registers, instruction, cell) == step_spec(registers, instruction, cell),
{
    lemma_opcode_masks(instruction);
}

/// The bit result, bit by bit: its bit `k` is the bit of I that the bits
/// of base and arg at `k` select. So the low four bits of I are a truth
/// table: 1000 makes the instruction an AND, 1110 an OR.
pub proof fn lemma_bit_value(base: u8, arg: u8, immediate: u8, k: u8)
    requires
        k < 8,
    ensures
        bit_at(bit_value(base, arg, immediate), k) == bit_at(
            immediate,
            (bit_at(base, k) << 1) | bit_at(arg, k),
        ),
        immediate & 0x0f == 0x08 ==> bit_value(base, arg, immediate) == base & arg,
        immediate & 0x0f == 0x0e ==> bit_value(base, arg, immediate) == base | arg,
{
    reveal_with_fuel(truth_lanes, 9);
    let value = bit_value(base, arg, immediate);
    let l0 = truth_lane(base, arg, immediate, 0);
    let l1 = truth_lane(base, arg, immediate, 1);
    let l2 = truth_lane(base, arg, immediate, 2);
    let l3 = truth_lane(base, arg, immediate, 3);
    let l4 = truth_lane(base, arg, immediate, 4);
    let l5 = truth_lane(base, arg, immediate, 5);
    let l6 = truth_lane(base, arg, immediate, 6);
    let l7 = truth_lane(base, arg, immediate, 7);
    assert(value == 0 | l0 | l1 | l2 | l3 | l4 | l5 | l6 | l7);
    assert({
        &&& (value >> k) & 1 == (immediate >> ((((base >> k) & 1) << 1) | ((arg >> k) & 1))) & 1
        &&& immediate & 0x0f == 0x08 ==> value == base & arg
        &&& immediate & 0x0f == 0x0e ==> value == base | arg
    }) by (bit_vector)
        requires
            k < 8,
            value == 0 | l0 | l1 | l2 | l3 | l4 | l5 | l6 | l7,
            l0 == ((immediate >> ((((base >> 0) & 1) << 1) | ((arg >> 0) & 1))) & 1) << 0,
            l1 == ((immediate >> ((((base >> 1) & 1) << 1) | ((arg >> 1) & 1))) & 1) << 1,
            l2 == ((immediate >> ((((base >> 2) & 1) << 1) | ((arg >> 2) & 1))) & 1) << 2,
            l3 == ((immediate >> ((((base >> 3) & 1) << 1) | ((arg >> 3) & 1))) & 1) << 3,
            l4 == ((immediate >> ((((base >> 4) & 1) << 1) | ((arg >> 4) & 1))) & 1) << 4,
            l5 == ((immediate >> ((((base >> 5) & 1) << 1) | ((arg >> 5) & 1))) & 1) << 5,
            l6 == ((immediate >> ((((base >> 6) & 1) << 1) | ((arg >> 6) & 1))) & 1) << 6,
            l7 == ((immediate >> ((((base >> 7) & 1) << 1) | ((arg >> 7) & 1))) & 1) << 7,
    ;
}

/// The mix result, group by group: the group whose low bit is bit `shift`
/// is the group of base that the group of I at the same place names. So
/// with I = 11100100 the result is base itself.
pub proof fn lemma_mix_value(base: u8, immediate: u8, shift: u8)
    requires
        shift == 0 || shift == 2 || shift == 4 || shift == 6,
    ensures
        pair_at(mix_value(base, immediate), shift) == pair_at(
            base,
            pair_at(immediate, shift) << 1,
        ),
        immediate == 0xe4 ==> mix_value(base, immediate) == base,
{
    reveal_with_fuel(mix_lanes, 5);
    let value = mix_value(base, immediate);
    let l0 = mix_lane(base, immediate, 0);
    let l1 = mix_lane(base, immediate, 2);
    let l2 = mix_lane(base, immediate, 4);
    let l3 = mix_lane(base, immediate, 6);
    assert(value == 0 | l0 | l1 | l2 | l3);
    assert({
        &&& (value >> shift) & 3 == (base >> (((immediate >> shift) & 3) << 1)) & 3
        &&& immediate == 0xe4 ==> value == base
    }) by (bit_vector)
        requires
            shift == 0 || shift == 2 || shift == 4 || shift == 6,
            value == 0 | l0 | l1 | l2 | l3,
            l0 == ((base >> (((immediate >> 0) & 3) << 1)) & 3) << 0,
            l1 == ((base >> (((immediate >> 2) & 3) << 1)) & 3) << 2,
            l2 == ((base >> (((immediate >> 4) & 3) << 1)) & 3) << 4,
            l3 == ((base >> (((immediate >> 6) & 3) << 1)) & 3) << 6,
    ;
}

/// Two immd instructions in a row, both taking effect, leave in I the
/// nibble of the first above the nibble of the second, whatever I held.
pub proof fn lemma_immediates_accumulate(
    registers: Registers,
    first: u8,
    second: u8,
    first_cell: u8,
    second_cell: u8,
)
    requires
        major_opcode(first) == 0,
        major_opcode(second) == 0,
        predicate_bit(first) == registers.condition,
        predicate_bit(second) == step_spec(registers, first, first_cell).registers.condition,
    ensures
        step_spec(
            step_spec(registers, first, first_cell).registers,
            second,
            second_cell,
        ).registers.reg_i == (low_nibble(first) << 4) | low_nibble(second),
{
    let held = registers.reg_i;
    let high = first & 0x0f;
    let low = second & 0x0f;
    assert((((held << 4) | high) << 4) | low == (high << 4) | low) by (bit_vector);
}

/// A halt whose predicate matches reports the halt and does nothing beyond
/// the epilogue, but that under the commit bit it clears the condition
/// flag.
pub proof fn lemma_halt(registers: Registers, instruction: u8, cell: u8)
    requires
        instruction & 0x3f == 0x13,
        predicate_bit(instruction) == registers.condition,
    ensures
        step_spec(registers, instruction, cell) == (Outcome {
            halted: true,
            registers: Registers {
                condition: registers.condition && !commit_bit(instruction),
                ..epilogue(registers)
            },
            store: None,
        }),
{
    lemma_opcode_masks(instruction);
}

/// A two-register instruction with the memory cell for both operands sets
/// a bank register to I exactly, onto that of IP and bit that of P. It
/// writes no memory, and under the commit bit it clears the condition
/// flag.
pub proof fn lemma_bank_switch(registers: Registers, instruction: u8, cell: u8)
    requires
        instruction & 0x2f == 0x2f,
        predicate_bit(instruction) == registers.condition,
    ensures
        step_spec(registers, instruction, cell) == (Outcome {
            halted: false,
            registers: Registers {
                condition: registers.condition && !commit_bit(instruction),
                bank_ip: if instruction & 0x10 != 0 {
                    registers.reg_i
                } else {
                    registers.bank_ip
                },
                bank_p: if instruction & 0x10 != 0 {
                    registers.bank_p
                } else {
                    registers.reg_i
                },
                ..epilogue(registers)
            },
            store: None,
        }),
{
    lemma_opcode_masks(instruction);
    assert({
        &&& (instruction & 0x3f) & 0x2f == instruction & 0x2f
        &&& instruction & 0x2f == 0x2f ==> (instruction & 0x10 != 0) == ((instruction >> 4) & 3
            == 3)
    }) by (bit_vector);
}

/// The value a selector names; `cell` is the byte at (bank_P, P).
pub fn select(registers: &Registers, cell: u8, selector: u8) -> (value: u8)
    ensures
        value == selected(*registers, cell, selector),
{
    if selector == 0 {
        registers.reg_a
    } else if selector == 1 {
        registers.reg_ip
    } else if selector == 2 {
        registers.reg_p
    } else {
        cell
    }
}

/// onto: the sum of base, arg and I in eight bits, and whether either of
/// the two additions carried.
pub fn onto(base: u8, arg: u8, immediate: u8) -> (r: (u8, bool))
    ensures
        r.0 == onto_value(base, arg, immediate),
        r.1 == onto_carry(base, arg, immediate),
{
    let first = base.wrapping_add(arg);
    let first_overflow = first < base;
    let value = first.wrapping_add(immediate);
    let second_overflow = value < first;
    (value, first_overflow || second_overflow)
}

/// inc: arg + I in eight bits, and the carry.
pub fn inc(arg: u8, immediate: u8) -> (r: (u8, bool))
    ensures
        r.0 == inc_value(arg, immediate),
        r.1 == inc_carry(arg, immediate),
{
    let value = arg.wrapping_add(immediate);
    (value, value < arg)
}

/// dec: arg - I in eight bits, and the borrow.
pub fn dec(arg: u8, immediate: u8) -> (r: (u8, bool))
    ensures
        r.0 == dec_value(arg, immediate),
        r.1 == dec_borrow(arg, immediate),
{
    let value = arg.wrapping_sub(immediate);
    (value, arg < immediate)
}

/// bit: the binary operation whose truth table is the low four bits of I,
/// applied to base and arg bit by bit, and the condition that the high
/// four bits of I select.
pub fn bit(base: u8, arg: u8, immediate: u8) -> (r: (u8, bool))
    ensures
        r.0 == bit_value(base, arg, immediate),
        r.1 == bit_condition(r.0, immediate),
{
    let mut value: u8 = 0;
    let mut k: u8 = 0;
    assert(0u8 >> 0u8 == 0) by (bit_vector);
    while k < 8
        invariant
            k <= 8,
            value == truth_lanes(base, arg, immediate, k),
            k < 8 ==> value >> k == 0,
        decreases 8 - k,
    {
        let base_bit: u8 = (base >> k) & 1;
        let arg_bit: u8 = (arg >> k) & 1;
        assert({
            &&& (base_bit << 1) <= 2 && arg_bit <= 1
            &&& (base_bit << 1) + arg_bit == (base_bit << 1) | arg_bit
            &&& (base_bit << 1) | arg_bit <= 3
        }) by (bit_vector)
            requires
                base_bit == (base >> k) & 1,
                arg_bit == (arg >> k) & 1,
        ;
        // the two bits together number one of the four low bits of I
        let lookup_bit: u8 = (base_bit << 1) + arg_bit;
        let result_bit: u8 = (immediate >> lookup_bit) & 1;
        assert({
            &&& value + (result_bit << k) <= 255
            &&& (value + (result_bit << k)) as u8 == value | (result_bit << k)
            &&& k < 7 ==> (value | (result_bit << k)) >> ((k + 1) as u8) == 0
        }) by (bit_vector)
            requires
                k < 8,
                value >> k == 0,
                result_bit == (immediate >> lookup_bit) & 1,
        ;
        value += result_bit << k;
        k += 1;
    }
    let cond_bit: u8 = (immediate & 0x70) >> 4;
    assert({
        &&& cond_bit == (immediate >> 4) & 7
        &&& cond_bit <= 7
        &&& (immediate & 0x80) >> 7 == (immediate >> 7) & 1
    }) by (bit_vector)
        requires
            cond_bit == (immediate & 0x70) >> 4,
    ;
    let cond_value: u8 = (value >> cond_bit) & 1;
    (value, cond_value == ((immediate & 0x80) >> 7))
}

/// mix: each two-bit group of the result is the group of arg that the same
/// group of I names, and the condition is whether the result is zero.
pub fn mix(arg: u8, immediate: u8) -> (r: (u8, bool))
    ensures
        r.0 == mix_value(arg, immediate),
        r.1 == (r.0 == 0),
{
    let mut result: u8 = 0;
    let mut pair: u8 = 0;
    assert(0u8 >> 0u8 == 0) by (bit_vector);
    while pair < 4
        invariant
            pair <= 4,
            result == mix_lanes(arg, immediate, pair),
            pair < 4 ==> result >> ((2 * pair) as u8) == 0,
        decreases 4 - pair,
    {
        let shift: u8 = 2 * pair;
        let address: u8 = (immediate >> shift) & 0x03;
        assert(address <= 3 && 2 * address == address << 1) by (bit_vector)
            requires
                address == (immediate >> shift) & 0x03,
        ;
        let value: u8 = (arg >> (2 * address)) & 0x03;
        assert({
            &&& result + (value << shift) <= 255
            &&& (result + (value << shift)) as u8 == result | (value << shift)
            &&& shift < 6 ==> (result | (value << shift)) >> ((shift + 2) as u8) == 0
        }) by (bit_vector)
            requires
                shift == 0 || shift == 2 || shift == 4 || shift == 6,
                result >> shift == 0,
                value == (arg >> ((2 * address) as u8)) & 0x03,
        ;
        result += value << shift;
        pair += 1;
    }
    (result, result == 0)
}

} // verus!
