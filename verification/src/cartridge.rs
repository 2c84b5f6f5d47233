use vstd::prelude::*;

verus! {

/// The largest program image a machine with 4096 bytes of memory can hold:
/// everything below the conventional entry address 0x200 is reserved.
pub const ROM_CAPACITY: usize = 3584;

/// A program image, held as a fixed-capacity byte block plus the number of
/// bytes that were actually supplied. Reading the bytes from storage is the
/// caller's business; this type only fixes the block the machine loads.
pub struct Cartridge {
    pub rom: Vec<u8>,
    pub size: usize,
}

impl Cartridge {
    pub open spec fn wf(self) -> bool {
        &&& self.rom@.len() == ROM_CAPACITY
        &&& self.size <= ROM_CAPACITY
    }

    /// Copies the supplied bytes into a block of exactly `ROM_CAPACITY`
    /// bytes, zero-padded at the tail; bytes past the capacity are dropped.
    pub fn new(data: &[u8]) -> (r: Cartridge)
        ensures
            r.wf(),
            r.size == if data@.len() < ROM_CAPACITY { data@.len() as int } else {
                ROM_CAPACITY as int
            },
            forall|k: int| 0 <= k < r.size ==> r.rom@[k] == data@[k],
            forall|k: int| r.size <= k < ROM_CAPACITY ==> r.rom@[k] == 0,
    {
        let n: usize = if data.len() < ROM_CAPACITY {
            data.len()
        } else {
            ROM_CAPACITY
        };
        let mut rom: Vec<u8> = Vec::new();
        let mut k: usize = 0;
        while k < n
            invariant
                k <= n,
                n <= data@.len(),
                n <= ROM_CAPACITY,
                rom@.len() == k,
                forall|j: int| 0 <= j < k ==> rom@[j] == data@[j],
            decreases n - k,
        {
            rom.push(data[k]);
            k = k + 1;
        }
        while k < ROM_CAPACITY
            invariant
                n <= k <= ROM_CAPACITY,
                rom@.len() == k,
                n <= data@.len(),
                forall|j: int| 0 <= j < n ==> rom@[j] == data@[j],
                forall|j: int| n <= j < k ==> rom@[j] == 0,
            decreases ROM_CAPACITY - k,
        {
            rom.push(0);
            k = k + 1;
        }
        Cartridge { rom, size: n }
    }
}

} // verus!
