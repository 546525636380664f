//! The 4 KiB linear byte store of the machine.

use crate::display::font_sprites;
use crate::display::font_table;
use crate::display::FONT_SPRITES_ADDRESS;
use vstd::prelude::*;
use vstd::slice::slice_subrange;

verus! {

/// Number of addressable bytes.
pub const MEMORY_SIZE: usize = 4096;

/// Bytes at the bottom of the address space that are kept for the interpreter;
/// programs are loaded right above them.
pub const RESERVED_SIZE: usize = 512;

/// The big-endian 16-bit word made of the bytes at `addr` and `addr + 1`.
pub open spec fn word_at(bytes: Seq<u8>, addr: int) -> u16
    recommends
        0 <= addr,
        addr + 1 < bytes.len(),
{
    (bytes[addr] as int * 256 + bytes[addr + 1] as int) as u16
}

/// `bytes` with the `data.len()` bytes from `addr` on replaced by `data`.
pub open spec fn overwrite(bytes: Seq<u8>, addr: int, data: Seq<u8>) -> Seq<u8>
    recommends
        0 <= addr,
        addr + data.len() <= bytes.len(),
{
    Seq::new(
        bytes.len(),
        |i: int|
            if addr <= i < addr + data.len() {
                data[i - addr]
            } else {
                bytes[i]
            },
    )
}

/// What a memory holds when it is made: the font table from address 0 on,
/// and zero in every byte after it.
pub open spec fn fresh_memory() -> Seq<u8> {
    overwrite(Seq::new(MEMORY_SIZE as nat, |i: int| 0u8), FONT_SPRITES_ADDRESS as int, font_table())
}

/// A memory that was just made has 4096 bytes: the eighty bytes of the
/// font's sixteen glyphs first, and then zeros.
pub proof fn lemma_fresh_memory()
    ensures
        fresh_memory().len() == MEMORY_SIZE,
        fresh_memory().subrange(0, 80) == font_table(),
        forall|i: int| 80 <= i < MEMORY_SIZE ==> fresh_memory()[i] == 0,
{
    assert(font_table().len() == 80);
    assert(fresh_memory().subrange(0, 80) =~= font_table());
}

/// The memory: 4096 bytes, addressed from zero.
pub struct Memory {
    bytes: [u8; MEMORY_SIZE],
}

impl View for Memory {
    type V = Seq<u8>;

    closed spec fn view(&self) -> Seq<u8> {
        self.bytes@
    }
}

impl Memory {
    /// Every memory holds exactly `MEMORY_SIZE` bytes.
    pub broadcast proof fn lemma_len(&self)
        ensures
            #[trigger] self@.len() == MEMORY_SIZE,
    {
    }

    /// A memory with the font table at the bottom and every other byte zero.
    pub fn new() -> (m: Memory)
        ensures
            m@ == fresh_memory(),
    {
        let mut m = Memory { bytes: [0u8;MEMORY_SIZE] };
        assert(m@ =~= Seq::new(MEMORY_SIZE as nat, |i: int| 0u8));
        m.write_slice(FONT_SPRITES_ADDRESS, font_sprites());
        m
    }

    /// The whole store as a mutable slice.
    pub fn as_bytes_mut(&mut self) -> (s: &mut [u8])
        ensures
            s@ == old(self)@,
            final(s)@ == final(self)@,
    {
        &mut self.bytes
    }

    /// The big-endian word at `addr`, or `None` where `addr + 1` is past the end.
    pub fn read_u16(&self, addr: u16) -> (r: Option<u16>)
        ensures
            r == if addr as int + 1 < MEMORY_SIZE {
                Some(word_at(self@, addr as int))
            } else {
                None
            },
    {
        let a = addr as usize;
        if a + 1 < MEMORY_SIZE {
            let hi = self.bytes[a] as u16;
            let lo = self.bytes[a + 1] as u16;
            Some(hi * 256 + lo)
        } else {
            None
        }
    }

    /// The `n` bytes from `addr` on, or `None` where they do not all lie inside
    /// the store.
    pub fn read_slice(&self, addr: u16, n: u8) -> (r: Option<&[u8]>)
        ensures
            addr + n <= MEMORY_SIZE ==> r is Some && r->0@ == self@.subrange(
                addr as int,
                addr + n,
            ),
            addr + n > MEMORY_SIZE ==> r is None,
    {
        let a = addr as usize;
        let end = a + n as usize;
        if end <= MEMORY_SIZE {
            Some(slice_subrange(self.bytes.as_slice(), a, end))
        } else {
            None
        }
    }

    /// Copies `data` into the store from `addr` on.
    pub fn write_slice(&mut self, addr: u16, data: &[u8])
        requires
            addr + data@.len() <= MEMORY_SIZE,
        ensures
            final(self)@ == overwrite(old(self)@, addr as int, data@),
    {
        let a = addr as usize;
        let n = data.len();
        let mut k: usize = 0;
        while k < n
            invariant
                n == data@.len(),
                a == addr,
                a + n <= MEMORY_SIZE,
                k <= n,
                self@ == overwrite(old(self)@, addr as int, data@.take(k as int)),
            decreases n - k,
        {
            self.bytes[a + k] = data[k];
            k += 1;
            assert(self@ =~= overwrite(old(self)@, addr as int, data@.take(k as int)));
        }
        assert(data@.take(n as int) =~= data@);
    }
}

impl Default for Memory {
    fn default() -> (m: Memory)
        ensures
            m@ == fresh_memory(),
    {
        Memory::new()
    }
}

} // verus!
