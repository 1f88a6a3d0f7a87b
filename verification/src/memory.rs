//! Byte-addressable storage keyed by (bank, address).

use crate::error::ErrorKind;
use vstd::prelude::*;

verus! {

/// Number of addressable cells: 256 banks of 256 bytes.
pub const MEMORY_SIZE: usize = 65536;

/// The global address of a cell: the bank is the high byte, the address
/// within the bank the low byte.
pub open spec fn global_address(bank: u8, addr: u8) -> int {
    bank as int * 256 + addr as int
}

/// Storage that the simulator reads instructions and data from and writes
/// results to.
pub trait Memory {
    /// The byte held at each global address.
    spec fn contents(&self) -> Seq<u8>;

    /// The contents after `value` has been written at (`bank`, `addr`).
    spec fn written(&self, bank: u8, addr: u8, value: u8) -> Seq<u8>;

    fn read(&self, bank: u8, addr: u8) -> (value: u8)
        ensures
            value == self.contents()[global_address(bank, addr)],
    ;

    fn write(&mut self, bank: u8, addr: u8, value: u8)
        ensures
            final(self).contents() == old(self).written(bank, addr, value),
    ;
}

/// A memory that ignores writes and always reads 0.
pub struct NullMemory {}

impl Memory for NullMemory {
    open spec fn contents(&self) -> Seq<u8> {
        Seq::new(MEMORY_SIZE as nat, |i: int| 0u8)
    }

    open spec fn written(&self, bank: u8, addr: u8, value: u8) -> Seq<u8> {
        self.contents()
    }

    fn read(&self, _bank: u8, _addr: u8) -> (value: u8)
        ensures
            value == 0,
    {
        0
    }

    fn write(&mut self, _bank: u8, _addr: u8, _value: u8) {
    }
}

/// A directly mapped memory of 65536 bytes, zero wherever no initial data
/// was given.
pub struct SimpleMemory {
    data: [u8; 65536],
}

impl Memory for SimpleMemory {
    closed spec fn contents(&self) -> Seq<u8> {
        self.data@
    }

    closed spec fn written(&self, bank: u8, addr: u8, value: u8) -> Seq<u8> {
        self.data@.update(global_address(bank, addr), value)
    }

    fn read(&self, bank: u8, addr: u8) -> (value: u8) {
        self.data[Self::to_index(bank, addr)]
    }

    fn write(&mut self, bank: u8, addr: u8, value: u8)
        ensures
            final(self).contents() == old(self).contents().update(
                global_address(bank, addr),
                value,
            ),
    {
        let index = Self::to_index(bank, addr);
        self.data[index] = value;
    }
}

/// The image that `initial` loads: its bytes from global address 0 on, and
/// zero in every cell behind them.
pub open spec fn loaded_image(initial: Seq<u8>) -> Seq<u8> {
    Seq::new(
        MEMORY_SIZE as nat,
        |i: int|
            if i < initial.len() {
                initial[i]
            } else {
                0u8
            },
    )
}

impl SimpleMemory {
    /// A memory that holds `initial` from bank 0, address 0 on.
    pub fn new(initial: &[u8]) -> (memory: Self)
        requires
            initial@.len() <= MEMORY_SIZE,
        ensures
            memory.contents() == loaded_image(initial@),
    {
        let mut data = [0u8; 65536];
        let mut i: usize = 0;
        while i < initial.len()
            invariant
                i <= initial@.len() <= MEMORY_SIZE,
                forall|j: int| 0 <= j < i ==> data@[j] == initial@[j],
                forall|j: int| i <= j < MEMORY_SIZE ==> data@[j] == 0,
            decreases initial@.len() - i,
        {
            data[i] = initial[i];
            i += 1;
        }
        assert(data@ =~= loaded_image(initial@));
        SimpleMemory { data }
    }

    /// As `new`, for an image of any length: one that is larger than the
    /// address space is refused with `IoError`.
    pub fn load(initial: &[u8]) -> (loaded: Result<Self, ErrorKind>)
        ensures
            match loaded {
                Ok(memory) => initial@.len() <= MEMORY_SIZE && memory.contents() == loaded_image(
                    initial@,
                ),
                Err(error) => initial@.len() > MEMORY_SIZE && error == ErrorKind::IoError,
            },
    {
        if initial.len() > MEMORY_SIZE {
            Err(ErrorKind::IoError)
        } else {
            Ok(Self::new(initial))
        }
    }

    fn to_index(bank: u8, addr: u8) -> (index: usize)
        ensures
            index == global_address(bank, addr),
    {
        let wide: u16 = ((bank as u16) << 8) | (addr as u16);
        assert(wide == bank as u16 * 256 + addr as u16) by (bit_vector)
            requires
                wide == ((bank as u16) << 8) | (addr as u16),
        ;
        wide as usize
    }

    /// Every cell is one of the 65536, and a write changes the cell it
    /// names and no other.
    pub proof fn lemma_written(&self, bank: u8, addr: u8, value: u8)
        ensures
            self.contents().len() == MEMORY_SIZE,
            self.written(bank, addr, value) == self.contents().update(
                global_address(bank, addr),
                value,
            ),
    {
    }
}

/// Distinct (bank, address) pairs name distinct cells, all of them inside
/// the address space.
pub proof fn lemma_global_address_injective(bank: u8, addr: u8, other_bank: u8, other_addr: u8)
    ensures
        0 <= global_address(bank, addr) < MEMORY_SIZE,
        global_address(bank, addr) == global_address(other_bank, other_addr) <==> bank
            == other_bank && addr == other_addr,
{
}

/// A read of a `SimpleMemory` after a write returns the written value at the
/// written cell and the earlier value at every other cell.
pub proof fn lemma_write_then_read(
    memory: SimpleMemory,
    bank: u8,
    addr: u8,
    value: u8,
    read_bank: u8,
    read_addr: u8,
)
    ensures
        memory.written(bank, addr, value)[global_address(read_bank, read_addr)] == if read_bank
            == bank && read_addr == addr {
            value
        } else {
            memory.contents()[global_address(read_bank, read_addr)]
        },
{
    memory.lemma_written(bank, addr, value);
    lemma_global_address_injective(bank, addr, read_bank, read_addr);
}

} // verus!
