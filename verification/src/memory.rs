//! The fixed-capacity byte bank that holds one participant's program and
//! serves as its scratch space.

use vstd::prelude::*;

verus! {

/// Capacity of a memory bank in bytes.
pub const MEMSIZE: usize = 256;

/// A bank of exactly `MEMSIZE` bytes.
#[derive(Clone, Copy, Debug)]
pub struct Memory {
    memory: [u8; MEMSIZE],
}

impl View for Memory {
    type V = Seq<u8>;

    closed spec fn view(&self) -> Seq<u8> {
        self.memory@
    }
}

impl Memory {
    /// A bank always holds exactly `MEMSIZE` bytes.
    pub proof fn lemma_capacity(&self)
        ensures
            self@.len() == MEMSIZE,
    {
    }

    /// A bank of zeroes.
    pub fn new() -> (m: Memory)
        ensures
            m@ == Seq::new(MEMSIZE as nat, |i: int| 0u8),
    {
        let m = Memory { memory: [0u8;MEMSIZE] };
        assert(m@ =~= Seq::new(MEMSIZE as nat, |i: int| 0u8));
        m
    }

    /// The capacity of the bank.
    pub fn len(self: &Self) -> (n: usize)
        ensures
            n == MEMSIZE,
            n == self@.len(),
    {
        MEMSIZE
    }

    /// The byte at offset `idx`, or an error when `idx` lies outside the bank.
    pub fn get_item(self: &Self, idx: usize) -> (r: Result<u8, ()>)
        ensures
            idx < MEMSIZE ==> r == Ok::<u8, ()>(self@[idx as int]),
            idx >= MEMSIZE ==> r == Err::<u8, ()>(()),
    {
        if idx >= MEMSIZE {
            Err(())
        } else {
            Ok(self.memory[idx])
        }
    }

    /// Copies `data` to the start of the bank and keeps the bytes behind it.
    /// Data longer than the bank is refused, and the bank is then unchanged.
    pub fn set(self: &mut Self, data: &Vec<u8>) -> (r: Result<(), ()>)
        ensures
            final(self)@ == loaded(old(self)@, data@),
            r is Ok <==> data@.len() <= MEMSIZE,
            r is Err ==> final(self)@ == old(self)@,
    {
        if data.len() > MEMSIZE {
            return Err(());
        }
        let n = data.len();
        let mut i: usize = 0;
        while i < n
            invariant
                n == data@.len(),
                n <= MEMSIZE,
                i <= n,
                forall|j: int| 0 <= j < i ==> self.memory@[j] == data@[j],
                forall|j: int| i <= j < MEMSIZE ==> self.memory@[j] == old(self).memory@[j],
            decreases n - i,
        {
            self.memory[i] = data[i];
            i += 1;
        }
        assert(self@ =~= loaded(old(self)@, data@));
        Ok(())
    }

    /// Writes `data` at offset `idx`, or fails and leaves the bank unchanged
    /// when `idx` lies outside it.
    pub fn set_item(self: &mut Self, idx: usize, data: u8) -> (r: Result<(), ()>)
        ensures
            idx < MEMSIZE ==> r is Ok && final(self)@ == old(self)@.update(idx as int, data),
            idx >= MEMSIZE ==> r is Err && final(self)@ == old(self)@,
    {
        if idx >= MEMSIZE {
            return Err(());
        }
        self.memory[idx] = data;
        assert(self@ =~= old(self)@.update(idx as int, data));
        Ok(())
    }
}

/// What a bank holds after an upload of `data`: `data` followed by the old
/// bytes behind it, or the old bank where `data` does not fit.
pub open spec fn loaded(bank: Seq<u8>, data: Seq<u8>) -> Seq<u8> {
    if data.len() <= bank.len() {
        data + bank.subrange(data.len() as int, bank.len() as int)
    } else {
        bank
    }
}

/// An upload that fits keeps the bank's length, puts the data in front and
/// leaves every byte behind it as it was.
pub proof fn lemma_loaded_bytes(bank: Seq<u8>, data: Seq<u8>)
    requires
        data.len() <= bank.len(),
    ensures
        loaded(bank, data).len() == bank.len(),
        forall|j: int| 0 <= j < data.len() ==> loaded(bank, data)[j] == data[j],
        forall|j: int| data.len() <= j < bank.len() ==> loaded(bank, data)[j] == bank[j],
{
}

} // verus!
