//! A model of the guest's linear memory and its exported allocator.
//!
//! Linear memory is a single byte-addressable region. The allocator
//! contract the guest exports — `allocate(size)` returning a fresh
//! address, `deallocate(pointer, size)` releasing it — is modelled by a
//! bump allocator: `allocate` extends memory and hands back the address
//! of the fresh zeroed block, so distinct allocations never overlap.
//!
//! Ownership of a staged argument block is single: guest-side decoding
//! reads the block without claiming it, and the host, which allocated
//! it, releases it after the call returns. `deallocate` therefore leaves
//! the modelled bytes in place; what matters for the protocol's proofs
//! is that no block is written twice, which the bump discipline gives.

use vstd::prelude::*;

verus! {

/// The guest's linear memory under a bump allocator.
pub struct GuestMemory {
    data: Vec<u8>,
}

impl View for GuestMemory {
    type V = Seq<u8>;

    closed spec fn view(&self) -> Seq<u8> {
        self.data@
    }
}

/// The bytes at `[addr, addr + len)` of a memory image, or `None` where
/// the range leaves the image.
pub open spec fn spec_read(mem: Seq<u8>, addr: int, len: int) -> Option<Seq<u8>> {
    if 0 <= addr && 0 <= len && addr + len <= mem.len() {
        Some(mem.subrange(addr, addr + len))
    } else {
        None
    }
}

impl GuestMemory {
    /// An empty linear memory.
    pub fn new() -> (m: GuestMemory)
        ensures
            m@.len() == 0,
    {
        GuestMemory { data: Vec::new() }
    }

    /// Bytes currently committed.
    pub fn size(&self) -> (n: usize)
        ensures
            n == self@.len(),
    {
        self.data.len()
    }

    /// The guest's `allocate` export: hands out a zeroed block of `size`
    /// bytes at a fresh address past everything allocated before.
    pub fn allocate(&mut self, size: u32) -> (addr: u32)
        requires
            old(self)@.len() + size <= u32::MAX,
        ensures
            addr == old(self)@.len(),
            final(self)@ == old(self)@ + Seq::new(size as nat, |i: int| 0u8),
    {
        let addr = self.data.len() as u32;
        let mut k: u32 = 0;
        while k < size
            invariant
                k <= size,
                self@ == old(self)@ + Seq::new(k as nat, |i: int| 0u8),
            decreases size - k,
        {
            self.data.push(0);
            proof {
                assert(old(self)@ + Seq::new((k + 1) as nat, |i: int| 0u8) =~= (old(self)@
                    + Seq::new(k as nat, |i: int| 0u8)).push(0u8));
            }
            k = k + 1;
        }
        addr
    }

    /// The guest's `deallocate` export. Release does not disturb the
    /// modelled bytes; the bump discipline never reissues the address.
    pub fn deallocate(&mut self, addr: u32, size: u32)
        ensures
            final(self)@ == old(self)@,
    {
        let _ = addr;
        let _ = size;
    }

    /// Allocates a block exactly holding `bytes`: the staging step of
    /// the calling convention, one `allocate` plus one write.
    pub fn alloc_bytes(&mut self, bytes: &Vec<u8>) -> (addr: u32)
        requires
            old(self)@.len() + bytes@.len() <= u32::MAX,
        ensures
            addr == old(self)@.len(),
            final(self)@ == old(self)@ + bytes@,
    {
        let addr = self.data.len() as u32;
        let mut k: usize = 0;
        proof {
            assert(self@ =~= old(self)@ + bytes@.subrange(0, 0));
        }
        while k < bytes.len()
            invariant
                k <= bytes@.len(),
                self@ == old(self)@ + bytes@.subrange(0, k as int),
            decreases bytes@.len() - k,
        {
            self.data.push(bytes[k]);
            proof {
                assert(old(self)@ + bytes@.subrange(0, k + 1) =~= (old(self)@ + bytes@.subrange(
                    0,
                    k as int,
                )).push(bytes@[k as int]));
            }
            k = k + 1;
        }
        proof {
            assert(bytes@.subrange(0, bytes@.len() as int) =~= bytes@);
        }
        addr
    }

    /// Writes `bytes` over the committed range starting at `addr`,
    /// leaving every byte outside the range as it was.
    pub fn write_bytes(&mut self, addr: u32, bytes: &Vec<u8>)
        requires
            addr + bytes@.len() <= old(self)@.len(),
        ensures
            final(self)@.len() == old(self)@.len(),
            final(self)@.subrange(addr as int, addr + bytes@.len()) == bytes@,
            forall|i: int|
                0 <= i < old(self)@.len() && !(addr <= i < addr + bytes@.len())
                    ==> final(self)@[i] == old(self)@[i],
    {
        let base = addr as usize;
        let n = self.data.len();
        let mut k: usize = 0;
        while k < bytes.len()
            invariant
                k <= bytes@.len(),
                base == addr,
                n == self@.len(),
                base + bytes@.len() <= self@.len(),
                self@.len() == old(self)@.len(),
                self@.subrange(addr as int, addr + k) == bytes@.subrange(0, k as int),
                forall|i: int|
                    0 <= i < old(self)@.len() && !(addr <= i < addr + k) ==> self@[i] == old(
                        self,
                    )@[i],
            decreases bytes@.len() - k,
        {
            self.data.set(base + k, bytes[k]);
            proof {
                assert(self@.subrange(addr as int, addr + (k + 1)) =~= bytes@.subrange(0, k + 1));
            }
            k = k + 1;
        }
        proof {
            assert(self@.subrange(addr as int, addr + bytes@.len()) =~= bytes@);
        }
    }

    /// Reads `len` bytes at `addr`, or `None` where the range leaves
    /// memory.
    pub fn read_bytes(&self, addr: u32, len: u32) -> (r: Option<Vec<u8>>)
        ensures
            r is Some <==> spec_read(self@, addr as int, len as int) is Some,
            r is Some ==> r->Some_0@ == spec_read(self@, addr as int, len as int)->Some_0,
    {
        let a = addr as usize;
        let l = len as usize;
        if a > self.data.len() || l > self.data.len() - a {
            return None;
        }
        let mut out: Vec<u8> = Vec::new();
        let mut k: usize = 0;
        proof {
            assert(out@ =~= self@.subrange(addr as int, addr as int));
        }
        let n = self.data.len();
        while k < l
            invariant
                k <= l,
                a == addr,
                l == len,
                n == self@.len(),
                a + l <= self@.len(),
                out@ == self@.subrange(addr as int, addr + k),
            decreases l - k,
        {
            out.push(self.data[a + k]);
            proof {
                assert(self@.subrange(addr as int, addr + (k + 1)) =~= self@.subrange(
                    addr as int,
                    addr + k,
                ).push(self@[addr + k]));
            }
            k = k + 1;
        }
        Some(out)
    }
}

} // verus!
