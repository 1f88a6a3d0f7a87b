use nibble8::error::ErrorKind;
use nibble8::memory::{Memory, NullMemory, SimpleMemory};

#[test]
fn null_memory_reads_zero_and_ignores_writes() {
    let mut memory = NullMemory {};
    assert_eq!(memory.read(0, 0), 0);
    memory.write(3, 4, 0xff);
    assert_eq!(memory.read(3, 4), 0);
    assert_eq!(memory.read(255, 255), 0);
}

#[test]
fn simple_memory_starts_zeroed() {
    let memory = SimpleMemory::new(&[]);
    for bank in 0..=255u8 {
        for addr in 0..=255u8 {
            assert_eq!(memory.read(bank, addr), 0);
        }
    }
}

#[test]
fn simple_memory_loads_initial_bytes_from_bank_zero() {
    let image: Vec<u8> = (0..600u32).map(|i| (i % 251) as u8 + 1).collect();
    let memory = SimpleMemory::new(&image);
    assert_eq!(memory.read(0, 0), 1);
    assert_eq!(memory.read(0, 255), (255 % 251) as u8 + 1);
    assert_eq!(memory.read(1, 0), (256 % 251) as u8 + 1);
    assert_eq!(memory.read(2, 87), (599 % 251) as u8 + 1);
    assert_eq!(memory.read(2, 88), 0);
    assert_eq!(memory.read(255, 255), 0);
}

#[test]
fn simple_memory_takes_a_full_image() {
    let image = vec![0x5au8; 65536];
    let memory = SimpleMemory::new(&image);
    assert_eq!(memory.read(0, 0), 0x5a);
    assert_eq!(memory.read(255, 255), 0x5a);
}

#[test]
fn load_refuses_an_image_that_does_not_fit() {
    assert_eq!(SimpleMemory::load(&vec![0u8; 65537]).err(), Some(ErrorKind::IoError));
    assert_eq!(SimpleMemory::load(&vec![0u8; 70000]).err(), Some(ErrorKind::IoError));
    let memory = SimpleMemory::load(&vec![7u8; 65536]);
    assert_eq!(memory.map(|m| m.read(255, 255)).ok(), Some(7));
    let memory = SimpleMemory::load(&[1, 2, 3]);
    assert_eq!(memory.map(|m| (m.read(0, 2), m.read(0, 3))).ok(), Some((3, 0)));
}

#[test]
fn write_then_read_round_trips_everywhere() {
    let mut memory = SimpleMemory::new(&[]);
    for bank in 0..=255u8 {
        for addr in 0..=255u8 {
            let value = bank.wrapping_mul(31).wrapping_add(addr) ^ 0xa5;
            memory.write(bank, addr, value);
            assert_eq!(memory.read(bank, addr), value);
        }
    }
    // no cell was disturbed by writes to the others
    for bank in 0..=255u8 {
        for addr in 0..=255u8 {
            let value = bank.wrapping_mul(31).wrapping_add(addr) ^ 0xa5;
            assert_eq!(memory.read(bank, addr), value);
        }
    }
}

#[test]
fn write_changes_one_cell() {
    let mut memory = SimpleMemory::new(&[]);
    memory.write(1, 2, 0xee);
    for bank in 0..=255u8 {
        for addr in 0..=255u8 {
            let expected = if (bank, addr) == (1, 2) { 0xee } else { 0 };
            assert_eq!(memory.read(bank, addr), expected);
        }
    }
    // (2, 1) is another cell than (1, 2)
    memory.write(2, 1, 0x11);
    assert_eq!(memory.read(1, 2), 0xee);
    assert_eq!(memory.read(2, 1), 0x11);
}
