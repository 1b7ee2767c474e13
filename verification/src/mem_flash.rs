//! An in-memory NOR flash simulator: the concrete [`FlashChip`].
//!
//! It stores the chip content as a byte vector and mirrors NOR behaviour:
//! erase sets bytes to `0xFF`, program can only clear bits.  Faults can be
//! injected — failing transactions, failing erases, or programs that are
//! silently dropped (stuck cells) — which makes the part unreliable and lets
//! callers exercise the translator's error paths.

use vstd::prelude::*;

use crate::chip::{
    all_blank, erased, programmed, FlashChip, SECTOR_SIZE,
};
use crate::errors::StorageError;

verus! {

/// The simulated chip.
pub struct MemFlash {
    mem: Vec<u8>,
    device_id: (u8, u8),
    fail_io: bool,
    fail_erase: bool,
    drop_writes: bool,
}

/// The device identifier the simulator reports by default.
pub const DEFAULT_ID_0: u8 = 0x40;

/// Second byte of the default device identifier.
pub const DEFAULT_ID_1: u8 = 0x18;

impl MemFlash {
    /// A fully erased chip of `capacity` bytes.
    pub fn blank(capacity: u32) -> (r: MemFlash)
        requires
            capacity % SECTOR_SIZE == 0,
        ensures
            r.inv(),
            r.contents() == all_blank(capacity as nat),
            r.reliable(),
            r.id() == (DEFAULT_ID_0, DEFAULT_ID_1),
    {
        let mut mem: Vec<u8> = Vec::new();
        let mut i: u32 = 0;
        while i < capacity
            invariant
                i <= capacity,
                mem@.len() == i,
                forall|k: int| 0 <= k < i ==> mem@[k] == 0xFFu8,
            decreases capacity - i,
        {
            mem.push(0xFF);
            i = i + 1;
        }
        proof {
            assert(mem@ =~= all_blank(capacity as nat));
        }
        MemFlash { mem, device_id: (DEFAULT_ID_0, DEFAULT_ID_1), fail_io: false, fail_erase: false, drop_writes: false }
    }

    /// A chip preloaded with `mem`.
    pub fn from_vec(mem: Vec<u8>) -> (r: MemFlash)
        requires
            mem@.len() as int % (SECTOR_SIZE as int) == 0,
            mem@.len() <= u32::MAX,
        ensures
            r.inv(),
            r.contents() == mem@,
            r.reliable(),
            r.id() == (DEFAULT_ID_0, DEFAULT_ID_1),
    {
        MemFlash { mem, device_id: (DEFAULT_ID_0, DEFAULT_ID_1), fail_io: false, fail_erase: false, drop_writes: false }
    }

    /// Report `id` instead of the default device identifier.
    pub fn set_id(&mut self, id0: u8, id1: u8)
        ensures
            final(self).inv() == old(self).inv(),
            final(self).contents() == old(self).contents(),
            final(self).reliable() == old(self).reliable(),
            final(self).id() == (id0, id1),
    {
        self.device_id = (id0, id1);
    }

    /// From now on every read, program and identifier query fails at the bus.
    pub fn inject_io_failure(&mut self)
        ensures
            final(self).inv() == old(self).inv(),
            final(self).contents() == old(self).contents(),
            final(self).id() == old(self).id(),
            !final(self).reliable(),
    {
        self.fail_io = true;
    }

    /// From now on every erase operation fails.
    pub fn inject_erase_failure(&mut self)
        ensures
            final(self).inv() == old(self).inv(),
            final(self).contents() == old(self).contents(),
            final(self).id() == old(self).id(),
            !final(self).reliable(),
    {
        self.fail_erase = true;
    }

    /// From now on programs report success but change nothing, as a part
    /// with stuck cells would.
    pub fn inject_write_drop(&mut self)
        ensures
            final(self).inv() == old(self).inv(),
            final(self).contents() == old(self).contents(),
            final(self).id() == old(self).id(),
            !final(self).reliable(),
    {
        self.drop_writes = true;
    }
}

impl FlashChip for MemFlash {
    closed spec fn contents(&self) -> Seq<u8> {
        self.mem@
    }

    closed spec fn reliable(&self) -> bool {
        !self.fail_io && !self.fail_erase && !self.drop_writes
    }

    closed spec fn id(&self) -> (u8, u8) {
        self.device_id
    }

    closed spec fn inv(&self) -> bool {
        self.mem@.len() as int % (SECTOR_SIZE as int) == 0 && self.mem@.len() <= u32::MAX
    }

    proof fn capacity_properties(&self) {
    }

    fn capacity(&self) -> (r: u32) {
        self.mem.len() as u32
    }

    fn read(&mut self, addr: u32, len: usize) -> (r: Result<Vec<u8>, StorageError>) {
        if self.fail_io {
            return Err(StorageError::HardwareIo);
        }
        let mut out: Vec<u8> = Vec::new();
        let base: usize = addr as usize;
        let mut i: usize = 0;
        while i < len
            invariant
                i <= len,
                base == addr,
                base + len <= self.mem@.len(),
                self.mem@.len() <= u32::MAX,
                out@ == self.mem@.subrange(base as int, base as int + i as int),
            decreases len - i,
        {
            out.push(self.mem[base + i]);
            proof {
                assert(out@ =~= self.mem@.subrange(base as int, base as int + (i + 1) as int));
            }
            i = i + 1;
        }
        Ok(out)
    }

    fn program(&mut self, addr: u32, data: &[u8]) -> (r: Result<(), StorageError>) {
        if self.fail_io {
            return Err(StorageError::HardwareIo);
        }
        if self.drop_writes {
            return Ok(());
        }
        let ghost orig = self.mem@;
        let base: usize = addr as usize;
        let mut j: usize = 0;
        while j < data.len()
            invariant
                j <= data@.len(),
                base == addr,
                base + data@.len() <= self.mem@.len(),
                self.mem@.len() <= u32::MAX,
                self.mem@ == programmed(orig, base as int, data@.take(j as int)),
                self.device_id == old(self).device_id,
                self.fail_io == old(self).fail_io,
                self.fail_erase == old(self).fail_erase,
                self.drop_writes == old(self).drop_writes,
            decreases data@.len() - j,
        {
            proof {
                assert(self.mem@[base + j as int] == orig[base + j as int]);
            }
            let b: u8 = self.mem[base + j] & data[j];
            self.mem[base + j] = b;
            proof {
                assert(self.mem@ =~= programmed(orig, base as int, data@.take(j + 1 as int)));
            }
            j = j + 1;
        }
        proof {
            assert(data@.take(data@.len() as int) =~= data@);
        }
        Ok(())
    }

    fn erase_sector(&mut self, addr: u32) -> (r: Result<(), StorageError>) {
        if self.fail_erase {
            return Err(StorageError::EraseFailure);
        }
        let ghost orig = self.mem@;
        let base: usize = addr as usize;
        let mut j: usize = 0;
        while j < SECTOR_SIZE as usize
            invariant
                j <= SECTOR_SIZE,
                base == addr,
                base + SECTOR_SIZE <= self.mem@.len(),
                self.mem@.len() <= u32::MAX,
                self.mem@ == erased(orig, base as int, j as int),
                self.device_id == old(self).device_id,
                self.fail_io == old(self).fail_io,
                self.fail_erase == old(self).fail_erase,
                self.drop_writes == old(self).drop_writes,
            decreases SECTOR_SIZE - j,
        {
            self.mem[base + j] = 0xFF;
            proof {
                assert(self.mem@ =~= erased(orig, base as int, j + 1 as int));
            }
            j = j + 1;
        }
        Ok(())
    }

    fn erase_all(&mut self) -> (r: Result<(), StorageError>) {
        if self.fail_erase {
            return Err(StorageError::EraseFailure);
        }
        let ghost orig = self.mem@;
        let n: usize = self.mem.len();
        let mut j: usize = 0;
        while j < n
            invariant
                j <= n,
                n == self.mem@.len(),
                forall|k: int| 0 <= k < j ==> self.mem@[k] == 0xFFu8,
                self.device_id == old(self).device_id,
                self.fail_io == old(self).fail_io,
                self.fail_erase == old(self).fail_erase,
                self.drop_writes == old(self).drop_writes,
            decreases n - j,
        {
            self.mem[j] = 0xFF;
            j = j + 1;
        }
        proof {
            assert(self.mem@ =~= all_blank(orig.len()));
        }
        Ok(())
    }

    fn read_id(&mut self) -> (r: Result<(u8, u8), StorageError>) {
        if self.fail_io {
            return Err(StorageError::HardwareIo);
        }
        Ok(self.device_id)
    }
}

} // verus!

