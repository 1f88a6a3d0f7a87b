//! The simulator: a register file stepped over a memory.

use crate::isa::{
    bit, dec, inc, lemma_opcode_masks, lemma_step_hw_agrees, mix, onto, select, selected,
    step_hw_spec, step_spec, Outcome, Registers,
};
use crate::memory::{global_address, Memory};
use vstd::prelude::*;

verus! {

/// A processor and the memory it runs on. The processor holds the memory
/// for as long as it lives.
pub struct Cpu<'a, M: Memory> {
    pub registers: Registers,
    pub memory: &'a mut M,
}

impl<'a, M: Memory> Cpu<'a, M> {
    /// The instruction byte that the next step executes: the one at
    /// (bank_IP, IP).
    pub open spec fn fetched(&self) -> u8 {
        self.memory.contents()[global_address(self.registers.bank_ip, self.registers.reg_ip)]
    }

    /// The byte at (bank_P, P).
    pub open spec fn pointed(&self) -> u8 {
        self.memory.contents()[global_address(self.registers.bank_p, self.registers.reg_p)]
    }

    /// The memory contents once `store`, if there is one, has been written
    /// to (bank_P, P).
    pub open spec fn memory_after(&self, store: Option<u8>) -> Seq<u8> {
        match store {
            Some(value) => self.memory.written(
                self.registers.bank_p,
                self.registers.reg_p,
                value,
            ),
            None => self.memory.contents(),
        }
    }

    /// What the next step yields, by cases on the opcode.
    pub open spec fn next(&self) -> Outcome {
        step_spec(self.registers, self.fetched(), self.pointed())
    }

    /// What the next step yields, as data flow.
    pub open spec fn next_hw(&self) -> Outcome {
        step_hw_spec(self.registers, self.fetched(), self.pointed())
    }

    /// `step` and `step_hw` agree: from one state they yield the same
    /// halt flag, the same registers and the same memory.
    pub proof fn lemma_next_agrees(&self)
        ensures
            self.next_hw() == self.next(),
    {
        lemma_step_hw_agrees(self.registers, self.fetched(), self.pointed());
    }

    /// A processor over `memory` with every register zero and the
    /// condition flag clear.
    pub fn new(memory: &'a mut M) -> (cpu: Self)
        ensures
            cpu.registers == (Registers {
                condition: false,
                reg_i: 0,
                reg_a: 0,
                reg_ip: 0,
                reg_p: 0,
                bank_ip: 0,
                bank_p: 0,
            }),
            *cpu.memory == *old(memory),
            *final(cpu.memory) == *final(memory),
    {
        Cpu {
            registers: Registers {
                condition: false,
                reg_i: 0,
                reg_a: 0,
                reg_ip: 0,
                reg_p: 0,
                bank_ip: 0,
                bank_p: 0,
            },
            memory,
        }
    }

    fn read_reg(&self, selector: u8) -> (value: u8)
        requires
            selector < 4,
        ensures
            value == selected(self.registers, self.pointed(), selector),
    {
        match selector {
            0 => self.registers.reg_a,
            1 => self.registers.reg_ip,
            2 => self.registers.reg_p,
            _ => self.memory.read(self.registers.bank_p, self.registers.reg_p),
        }
    }

    // IP is not written here: the new value goes to `new_ip`, which `step`
    // stores once the instruction is done.
    fn write_reg(&mut self, new_ip: &mut u8, selector: u8, value: u8)
        requires
            selector < 4,
        ensures
            final(self).registers == if selector == 0 {
                Registers { reg_a: value, ..old(self).registers }
            } else if selector == 2 {
                Registers { reg_p: value, ..old(self).registers }
            } else {
                old(self).registers
            },
            *final(new_ip) == if selector == 1 {
                value
            } else {
                *old(new_ip)
            },
            final(self).memory.contents() == old(self).memory_after(
                if selector == 3 {
                    Some(value)
                } else {
                    None
                },
            ),
            *final(final(self).memory) == *final(old(self).memory),
    {
        match selector {
            0 => {
                self.registers.reg_a = value;
            },
            1 => {
                *new_ip = value;
            },
            2 => {
                self.registers.reg_p = value;
            },
            _ => {
                self.memory.write(self.registers.bank_p, self.registers.reg_p, value);
            },
        }
    }

    /// Executes the instruction at (bank_IP, IP) in place and returns
    /// whether it was a halt.
    pub fn step(&mut self) -> (halted: bool)
        ensures
            halted == old(self).next().halted,
            final(self).registers == old(self).next().registers,
            final(self).memory.contents() == old(self).memory_after(old(self).next().store),
            *final(final(self).memory) == *final(old(self).memory),
    {
        let instruction = self.memory.read(self.registers.bank_ip, self.registers.reg_ip);
        proof {
            lemma_opcode_masks(instruction);
        }
        // what the step leaves in I and IP unless the instruction says otherwise
        let immediate = self.registers.reg_i;
        let mut new_immediate = immediate << 4;
        let mut new_ip = self.registers.reg_ip.wrapping_add(1);
        let mut halt = false;
        // the instruction takes effect only if its predicate bit equals the condition flag
        if ((instruction & 0x80) != 0) == self.registers.condition {
            let new_cond: bool;
            match (instruction & 0x30) >> 4 {
                // immd VALUE
                0 => {
                    let nibble = instruction & 0x0f;
                    assert({
                        &&& new_immediate + nibble <= 255
                        &&& (new_immediate + nibble) as u8 == new_immediate | nibble
                    }) by (bit_vector)
                        requires
                            new_immediate == immediate << 4,
                            nibble == instruction & 0x0f,
                    ;
                    new_immediate += nibble;
                    new_cond = false;
                },
                1 => match (instruction & 0x0c) >> 2 {
                    0 => match instruction & 0x03 {
                        // load: I = A, and the condition flips
                        0 => {
                            new_immediate = self.registers.reg_a;
                            new_cond = !self.registers.condition;
                        },
                        3 => {
                            halt = true;
                            new_cond = false;
                        },
                        _ => {
                            new_cond = false;
                        },
                    },
                    // mix ARG
                    1 => {
                        let arg = self.read_reg(instruction & 0x03);
                        let (result, zero) = mix(arg, self.registers.reg_i);
                        self.write_reg(&mut new_ip, instruction & 0x03, result);
                        new_cond = zero;
                    },
                    // inc ARG, dec ARG
                    minor => {
                        let arg = self.read_reg(instruction & 0x03);
                        let (result, overflow) = if minor == 2 {
                            inc(arg, self.registers.reg_i)
                        } else {
                            dec(arg, self.registers.reg_i)
                        };
                        self.write_reg(&mut new_ip, instruction & 0x03, result);
                        new_cond = overflow;
                    },
                },
                // bit BASE ARG, onto BASE ARG
                _ => {
                    if instruction & 0x0f == 0x0f {
                        // with [P] for both operands the instruction sets a bank:
                        // onto that of IP, bit that of P
                        if instruction & 0x30 == 0x30 {
                            self.registers.bank_ip = self.registers.reg_i;
                        } else {
                            self.registers.bank_p = self.registers.reg_i;
                        }
                        new_cond = false;
                    } else {
                        let base = self.read_reg((instruction & 0x0c) >> 2);
                        let arg = self.read_reg(instruction & 0x03);
                        let (result, cond) = if instruction & 0x30 == 0x30 {
                            onto(base, arg, self.registers.reg_i)
                        } else {
                            bit(base, arg, self.registers.reg_i)
                        };
                        self.write_reg(&mut new_ip, (instruction & 0x0c) >> 2, result);
                        new_cond = cond;
                    }
                },
            }
            if (instruction & 0x40) != 0 {
                self.registers.condition = new_cond;
            }
        }
        self.registers.reg_ip = new_ip;
        self.registers.reg_i = new_immediate;
        halt
    }

    /// Executes the instruction at (bank_IP, IP) as hardware would: the
    /// operands, the output of the arithmetic unit and the write enable are
    /// computed whatever the instruction is, and each register of the new
    /// state is selected from them. Returns whether the instruction was a
    /// halt, and the processor after it.
    pub fn step_hw(self) -> (r: (bool, Self))
        ensures
            r.0 == self.next_hw().halted,
            r.1.registers == self.next_hw().registers,
            r.1.memory.contents() == self.memory_after(self.next_hw().store),
            *final(r.1.memory) == *final(self.memory),
    {
        let Cpu { registers, memory } = self;
        let instruction = memory.read(registers.bank_ip, registers.reg_ip);
        let match_condition = ((instruction & 0x80) != 0) == registers.condition;
        let opcode = instruction & 0x3f;

        let base_reg = if opcode & 0x20 == 0x20 {
            (opcode & 0x0c) >> 2
        } else {
            opcode & 0x03
        };
        let arg_reg = opcode & 0x03;

        let read_value = memory.read(registers.bank_p, registers.reg_p);
        let base = select(&registers, read_value, base_reg);
        let arg = select(&registers, read_value, arg_reg);

        // every opcode writes its base register but immd, the register-free
        // ones and the two that set a bank
        let is_write = opcode & 0x30 != 0 && opcode & 0x3c != 0x10 && opcode & 0x2f != 0x2f;

        // the arithmetic unit
        let (result, result_cond) = if opcode & 0x30 == 0x30 {
            onto(base, arg, registers.reg_i)
        } else if opcode & 0x30 == 0x20 {
            bit(base, arg, registers.reg_i)
        } else if opcode & 0x3c == 0x14 {
            mix(base, registers.reg_i)
        } else if opcode & 0x3c == 0x18 {
            inc(base, registers.reg_i)
        } else if opcode & 0x3c == 0x1c {
            dec(base, registers.reg_i)
        } else {
            (0, false)
        };

        // the one conditional effect: whether a write goes out to memory
        if match_condition && is_write && base_reg == 0x03 {
            memory.write(registers.bank_p, registers.reg_p, result);
        }
        let reg_a = if match_condition && is_write && base_reg == 0 {
            result
        } else {
            registers.reg_a
        };
        // IP advances unless it is written, also when the instruction is skipped
        let reg_ip = if match_condition && is_write && base_reg == 1 {
            result
        } else {
            registers.reg_ip.wrapping_add(1)
        };
        let reg_p = if match_condition && is_write && base_reg == 2 {
            result
        } else {
            registers.reg_p
        };

        let new_cond = if is_write {
            result_cond
        } else if opcode == 0x10 {
            // load flips the condition
            !registers.condition
        } else {
            false
        };

        let reg_i = if match_condition && opcode == 0x10 {
            // load
            registers.reg_a
        } else if match_condition && opcode & 0x30 == 0 {
            // immd
            registers.reg_i << 4 | (opcode & 0x0f)
        } else {
            registers.reg_i << 4
        };
        let bank_p = if match_condition && opcode == 0x2f {
            registers.reg_i
        } else {
            registers.bank_p
        };
        let bank_ip = if match_condition && opcode == 0x3f {
            registers.reg_i
        } else {
            registers.bank_ip
        };
        let halt = match_condition && opcode == 0x13;

        let new_cpu = Cpu {
            registers: Registers {
                condition: if match_condition && instruction & 0x40 == 0x40 {
                    new_cond
                } else {
                    registers.condition
                },
                reg_i,
                reg_a,
                reg_ip,
                reg_p,
                bank_ip,
                bank_p,
            },
            memory,
        };
        (halt, new_cpu)
    }
}

} // verus!
