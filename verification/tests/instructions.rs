use nibble8::ast::{Kind, Node};
use nibble8::cpu::Cpu;
use nibble8::encode::{
    is_word, parse_instruction, parse_register, text_is, Instruction, Operation, Register,
};
use nibble8::isa;
use nibble8::isa::Registers;
use nibble8::memory::{Memory, SimpleMemory};

fn word(name: &str) -> Node {
    Node::leaf(Kind::Identifier(name.to_string()))
}

fn plain(operation: Operation) -> Instruction {
    Instruction { predicate: false, commit: false, operation }
}

const REGISTERS: [Register; 4] = [Register::A, Register::IP, Register::P, Register::Memory];

#[test]
fn register_selectors() {
    assert_eq!(Register::A.selector(), 0);
    assert_eq!(Register::IP.selector(), 1);
    assert_eq!(Register::P.selector(), 2);
    assert_eq!(Register::Memory.selector(), 3);
}

#[test]
fn encode_lays_out_the_fields() {
    assert_eq!(plain(Operation::Immd(0x0a)).encode(), Some(0x0a));
    assert_eq!(plain(Operation::Load).encode(), Some(0x10));
    assert_eq!(plain(Operation::Halt).encode(), Some(0x13));
    for (r, arg) in REGISTERS.into_iter().enumerate() {
        let r = r as u8;
        assert_eq!(plain(Operation::Mix(arg)).encode(), Some(0x14 + r));
        assert_eq!(plain(Operation::Inc(arg)).encode(), Some(0x18 + r));
        assert_eq!(plain(Operation::Dec(arg)).encode(), Some(0x1c + r));
        for (b, base) in REGISTERS.into_iter().enumerate() {
            let b = b as u8;
            assert_eq!(plain(Operation::Bit(base, arg)).encode(), Some(0x20 + 4 * b + r));
            assert_eq!(plain(Operation::Onto(base, arg)).encode(), Some(0x30 + 4 * b + r));
        }
    }
}

#[test]
fn encode_sets_the_flag_bits() {
    let operation = Operation::Onto(Register::P, Register::IP);
    let byte = |predicate, commit| Instruction { predicate, commit, operation }.encode();
    assert_eq!(byte(false, false), Some(0x39));
    assert_eq!(byte(false, true), Some(0x79));
    assert_eq!(byte(true, false), Some(0xb9));
    assert_eq!(byte(true, true), Some(0xf9));
}

#[test]
fn encode_refuses_a_wide_immediate() {
    assert_eq!(plain(Operation::Immd(15)).encode(), Some(0x0f));
    assert_eq!(plain(Operation::Immd(16)).encode(), None);
    assert_eq!(plain(Operation::Immd(0x1a)).encode(), None);
    assert_eq!(plain(Operation::Immd(255)).encode(), None);
    let flagged = Instruction { predicate: true, commit: true, operation: Operation::Immd(16) };
    assert_eq!(flagged.encode(), None);
}

// What the simulator does with an encoded instruction.
fn run(instruction: Instruction, registers: Registers) -> Registers {
    let mut memory = SimpleMemory::new(&[]);
    memory.write(registers.bank_ip, registers.reg_ip, instruction.encode().unwrap());
    let mut cpu = Cpu { registers, memory: &mut memory };
    cpu.step();
    cpu.registers
}

#[test]
fn simulator_reads_what_was_encoded() {
    let start = Registers {
        condition: true,
        reg_i: 0x02,
        reg_a: 0x10,
        reg_ip: 0x40,
        reg_p: 0x07,
        bank_ip: 1,
        bank_p: 2,
    };
    let with = |operation| Instruction { predicate: true, commit: true, operation };
    let after = run(with(Operation::Immd(9)), start);
    assert_eq!(after, Registers { condition: false, reg_i: 0x29, reg_ip: 0x41, ..start });
    let after = run(with(Operation::Load), start);
    assert_eq!(after, Registers { condition: false, reg_i: 0x10, reg_ip: 0x41, ..start });
    let after = run(with(Operation::Inc(Register::P)), start);
    assert_eq!(after, Registers { condition: false, reg_i: 0x20, reg_p: 0x09, reg_ip: 0x41, ..start });
    let after = run(with(Operation::Dec(Register::A)), start);
    assert_eq!(after, Registers { condition: false, reg_i: 0x20, reg_a: 0x0e, reg_ip: 0x41, ..start });
    let after = run(with(Operation::Onto(Register::A, Register::P)), start);
    assert_eq!(after, Registers { condition: false, reg_i: 0x20, reg_a: 0x19, reg_ip: 0x41, ..start });
    let after = run(with(Operation::Onto(Register::IP, Register::A)), start);
    assert_eq!(after, Registers { condition: false, reg_i: 0x20, reg_ip: 0x52, ..start });
    let after = run(with(Operation::Onto(Register::Memory, Register::Memory)), start);
    assert_eq!(after, Registers { condition: false, reg_i: 0x20, reg_ip: 0x41, bank_ip: 2, ..start });
    let after = run(with(Operation::Bit(Register::Memory, Register::Memory)), start);
    assert_eq!(after, Registers { condition: false, reg_i: 0x20, reg_ip: 0x41, bank_p: 2, ..start });
    // with the predicate clear the instruction is skipped while the flag is set
    let skipped = Instruction { predicate: false, commit: true, operation: Operation::Load };
    assert_eq!(run(skipped, start), Registers { reg_i: 0x20, reg_ip: 0x41, ..start });
}

#[test]
fn words_and_registers_are_recognised() {
    assert!(is_word(&word("A"), "A"));
    assert!(!is_word(&word("A"), "a"));
    assert!(!is_word(&word("AA"), "A"));
    assert!(!is_word(&Node::leaf(Kind::Call("A".to_string())), "A"));
    assert!(!is_word(&Node::new(Kind::Identifier("A".to_string()), vec![word("x")]), "A"));
    assert!(text_is(&"onto".to_string(), "onto"));
    assert!(!text_is(&"onto".to_string(), "ont"));
    assert_eq!(parse_register(&word("A")), Some(Register::A));
    assert_eq!(parse_register(&word("IP")), Some(Register::IP));
    assert_eq!(parse_register(&word("P")), Some(Register::P));
    assert_eq!(parse_register(&word("[P]")), Some(Register::Memory));
    assert_eq!(parse_register(&word("I")), None);
    assert_eq!(parse_register(&word("[A]")), None);
    assert_eq!(parse_register(&Node::leaf(Kind::Integer(0))), None);
}

#[test]
fn instructions_are_parsed() {
    let parse = |mnemonic: &str, children: Vec<Node>| {
        parse_instruction(&mnemonic.to_string(), &children)
    };
    assert_eq!(parse("load", vec![]), Some(plain(Operation::Load)));
    assert_eq!(parse("halt", vec![]), Some(plain(Operation::Halt)));
    assert_eq!(
        parse("immd", vec![Node::leaf(Kind::Integer(7))]),
        Some(plain(Operation::Immd(7)))
    );
    assert_eq!(
        parse("immd", vec![Node::leaf(Kind::Location(0x1203))]),
        Some(plain(Operation::Immd(3)))
    );
    assert_eq!(parse("immd", vec![Node::leaf(Kind::Location(0x0010))]), None);
    assert_eq!(parse("mix", vec![word("A")]), Some(plain(Operation::Mix(Register::A))));
    assert_eq!(parse("inc", vec![word("[P]")]), Some(plain(Operation::Inc(Register::Memory))));
    assert_eq!(parse("dec", vec![word("IP")]), Some(plain(Operation::Dec(Register::IP))));
    assert_eq!(
        parse("bit", vec![word("P"), word("A")]),
        Some(plain(Operation::Bit(Register::P, Register::A)))
    );
    assert_eq!(
        parse("onto", vec![word("+"), word("!"), word("A"), word("[P]")]),
        Some(Instruction {
            predicate: true,
            commit: true,
            operation: Operation::Onto(Register::A, Register::Memory),
        })
    );
    assert_eq!(
        parse("onto", vec![word("-"), word("A"), word("[P]")]),
        Some(plain(Operation::Onto(Register::A, Register::Memory)))
    );
    assert_eq!(
        parse("mix", vec![word("!"), word("P")]),
        Some(Instruction { predicate: false, commit: true, operation: Operation::Mix(Register::P) })
    );
    assert_eq!(parse("Onto", vec![word("A"), word("A")]), None);
    assert_eq!(parse("onto", vec![word("A")]), None);
    assert_eq!(parse("onto", vec![word("A"), word("A"), word("A")]), None);
    assert_eq!(parse("", vec![]), None);
    assert_eq!(parse("+", vec![]), None);
}

#[test]
fn select_names_the_four_places() {
    let registers = Registers {
        condition: false,
        reg_i: 1,
        reg_a: 2,
        reg_ip: 3,
        reg_p: 4,
        bank_ip: 5,
        bank_p: 6,
    };
    assert_eq!(isa::select(&registers, 9, 0), 2);
    assert_eq!(isa::select(&registers, 9, 1), 3);
    assert_eq!(isa::select(&registers, 9, 2), 4);
    assert_eq!(isa::select(&registers, 9, 3), 9);
}

#[test]
fn onto_sums_with_carry() {
    assert_eq!(isa::onto(1, 2, 3), (6, false));
    assert_eq!(isa::onto(0xff, 0xff, 1), (0xff, true));
    assert_eq!(isa::onto(0xff, 0xff, 0xff), (0xfd, true));
    assert_eq!(isa::onto(0xff, 0x00, 0x01), (0x00, true));
    assert_eq!(isa::onto(0x80, 0x80, 0x00), (0x00, true));
    assert_eq!(isa::onto(0x7f, 0x80, 0x00), (0xff, false));
    for base in [0u8, 1, 0x7f, 0x80, 0xff] {
        for arg in [0u8, 1, 0x7f, 0x80, 0xff] {
            for immediate in [0u8, 1, 0x7f, 0x80, 0xff] {
                let sum = base as u32 + arg as u32 + immediate as u32;
                assert_eq!(isa::onto(base, arg, immediate), ((sum % 256) as u8, sum > 255));
            }
        }
    }
}

#[test]
fn inc_and_dec_are_inverse() {
    assert_eq!(isa::inc(0xfe, 1), (0xff, false));
    assert_eq!(isa::inc(0xff, 1), (0x00, true));
    assert_eq!(isa::inc(0x80, 0x80), (0x00, true));
    assert_eq!(isa::dec(0x00, 1), (0xff, true));
    assert_eq!(isa::dec(0x01, 1), (0x00, false));
    assert_eq!(isa::dec(0x10, 0x20), (0xf0, true));
    for arg in 0..=255u8 {
        for immediate in [0u8, 1, 0x0f, 0x80, 0xff] {
            let (up, _) = isa::inc(arg, immediate);
            assert_eq!(isa::dec(up, immediate).0, arg);
        }
    }
}

#[test]
fn bit_is_any_binary_operation() {
    for base in [0x00u8, 0x0f, 0x35, 0xca, 0xff] {
        for arg in [0x00u8, 0x33, 0x5a, 0xa6, 0xff] {
            assert_eq!(isa::bit(base, arg, 0b1000).0, base & arg);
            assert_eq!(isa::bit(base, arg, 0b1110).0, base | arg);
            assert_eq!(isa::bit(base, arg, 0b0110).0, base ^ arg);
            assert_eq!(isa::bit(base, arg, 0b0111).0, !(base & arg));
            assert_eq!(isa::bit(base, arg, 0b0011).0, !base);
            assert_eq!(isa::bit(base, arg, 0b0101).0, !arg);
            assert_eq!(isa::bit(base, arg, 0b0100).0, base & !arg);
            assert_eq!(isa::bit(base, arg, 0b0010).0, !base & arg);
            // the high nibble does not change the value
            assert_eq!(isa::bit(base, arg, 0b1111_0110).0, base ^ arg);
        }
    }
}

#[test]
fn bit_condition_compares_one_bit() {
    // the value is 0b0100_0000
    for index in 0..8u8 {
        let immediate = (index << 4) | 0b1000;
        assert_eq!(isa::bit(0x40, 0xff, immediate), (0x40, index != 6));
        assert_eq!(isa::bit(0x40, 0xff, immediate | 0x80), (0x40, index == 6));
    }
}

#[test]
fn mix_copies_pairs() {
    assert_eq!(isa::mix(0b1101_1000, 0b1110_0100), (0b1101_1000, false));
    assert_eq!(isa::mix(0b1101_1000, 0b1001_0011), (0b0110_0011, false));
    assert_eq!(isa::mix(0b1101_1000, 0b0000_0000), (0, true));
    assert_eq!(isa::mix(0b0000_0011, 0b0000_0000), (0xff, false));
    assert_eq!(isa::mix(0b0000_0011, 0b1111_1111), (0x00, true));
    assert_eq!(isa::mix(0b1000_0000, 0b1111_1111), (0xaa, false));
    assert_eq!(isa::mix(0b0001_1011, 0b0001_1011), (0b1110_0100, false));
    for value in 0..=255u8 {
        assert_eq!(isa::mix(value, 0b1110_0100).0, value);
        assert_eq!(isa::mix(value, 0b1001_0011).0, value.rotate_left(2));
        assert_eq!(isa::mix(value, 0b0011_1001).0, value.rotate_right(2));
    }
}
