//! The flash block translator: fixed-size logical blocks over a
//! sector-erasable chip.
//!
//! A write to a block whose erase unit is already blank takes the fast path
//! (program only, no read, no erase).  A write into a dirty unit takes the
//! slow path: read the whole unit, erase it, patch the block's range in the
//! scratch copy, program the unit back, then read it back and compare —
//! a difference is a verification failure, never silently ignored.

use vstd::arithmetic::div_mod::{
    lemma_div_by_self, lemma_div_is_ordered, lemma_fundamental_div_mod,
    lemma_fundamental_div_mod_converse, lemma_mod_division_less_than_divisor, lemma_small_mod,
};
use vstd::arithmetic::mul::{
    lemma_mul_inequality, lemma_mul_is_associative, lemma_mul_is_commutative,
    lemma_mul_is_distributive_add_other_way, lemma_mul_is_distributive_sub_other_way,
    lemma_mul_nonnegative, lemma_mul_strict_inequality_converse,
};
use vstd::prelude::*;

use crate::chip::{
    all_blank, erased, lemma_programmed_on_blank, programmed, spliced, unit_blank, FlashChip,
    SECTOR_SIZE,
};
use crate::errors::{LightNoteErrors, StorageError};

verus! {

/// How many bytes the blank scan reads per chip transaction; small to bound
/// working memory.
pub const READ_CHUNK_SIZE: u32 = 4;

/// First byte of the device identifier the translator expects at power-on.
pub const EXPECTED_ID_0: u8 = 0x40;

/// Second byte of the expected device identifier.
pub const EXPECTED_ID_1: u8 = 0x18;

/// The erase-before-write engine over a physical chip.
pub struct SpiFlash<C: FlashChip> {
    /// The chip, owned exclusively by the translator.
    pub chip: C,
    /// Bytes per logical block; divides [`SECTOR_SIZE`], fixed at
    /// construction.
    pub block_size: u32,
}

impl<C: FlashChip> SpiFlash<C> {
    /// The bytes currently stored on the chip.
    pub open spec fn contents(&self) -> Seq<u8> {
        self.chip.contents()
    }

    /// Whether the chip is operating fault-free.
    pub open spec fn reliable(&self) -> bool {
        self.chip.reliable()
    }

    /// The chip's device identifier.
    pub open spec fn chip_id(&self) -> (u8, u8) {
        self.chip.id()
    }

    /// Total capacity in bytes.
    pub open spec fn cap(&self) -> int {
        self.chip.contents().len() as int
    }

    /// Bytes per logical block.
    pub open spec fn bs(&self) -> int {
        self.block_size as int
    }

    /// Well-formedness: the chip handle is sound, and the block size is a
    /// positive divisor of the erase-unit size.
    pub open spec fn wf(&self) -> bool {
        &&& self.chip.inv()
        &&& 0 < self.block_size
        &&& (SECTOR_SIZE as int) % self.bs() == 0
        &&& 0 < self.cap()
    }

    /// The largest addressable logical block address.
    pub open spec fn max_lba_spec(&self) -> int {
        self.cap() / self.bs() - 1
    }

    /// How many erase units the chip holds.
    pub open spec fn unit_count(&self) -> int {
        self.cap() / (SECTOR_SIZE as int)
    }

    /// The erase unit that owns logical block `lba`.
    pub open spec fn unit_of(&self, lba: int) -> int {
        (lba * self.bs()) / (SECTOR_SIZE as int)
    }

    /// The bytes of logical block `lba` within contents `c`.
    pub open spec fn block_at(&self, c: Seq<u8>, lba: int) -> Seq<u8> {
        c.subrange(lba * self.bs(), lba * self.bs() + self.bs())
    }

    /// What every operation preserves: geometry, capacity, the chip's
    /// reliability and identifier, and well-formedness.
    pub open spec fn preserves(pre: Self, post: Self) -> bool {
        &&& post.wf()
        &&& post.block_size == pre.block_size
        &&& post.contents().len() == pre.contents().len()
        &&& post.reliable() == pre.reliable()
        &&& post.chip_id() == pre.chip_id()
    }

    /// Basic bounds that follow from well-formedness alone.
    pub proof fn lemma_wf_bounds(&self)
        requires
            self.wf(),
        ensures
            self.cap() <= u32::MAX,
            self.cap() % (SECTOR_SIZE as int) == 0,
            self.bs() <= SECTOR_SIZE as int <= self.cap(),
            self.max_lba_spec() >= 0,
    {
        let s = SECTOR_SIZE as int;
        let bs = self.bs();
        let cap = self.cap();
        self.chip.capacity_properties();
        if bs > s {
            lemma_small_mod(s as nat, bs as nat);
            assert(false);
        }
        if cap < s {
            lemma_small_mod(cap as nat, s as nat);
            assert(false);
        }
        lemma_div_is_ordered(bs, cap, bs);
        lemma_div_by_self(bs);
    }

    /// Placement of a valid block within its erase unit and the chip.
    pub proof fn lemma_block_geometry(&self, lba: int)
        requires
            self.wf(),
            0 <= lba <= self.max_lba_spec(),
        ensures
            0 <= lba * self.bs(),
            lba * self.bs() + self.bs() <= self.cap(),
            0 <= self.unit_of(lba) < self.unit_count(),
            self.unit_of(lba) * (SECTOR_SIZE as int) <= lba * self.bs(),
            lba * self.bs() + self.bs() <= self.unit_of(lba) * (SECTOR_SIZE as int)
                + (SECTOR_SIZE as int),
            self.unit_of(lba) * (SECTOR_SIZE as int) + (SECTOR_SIZE as int) <= self.cap(),
            self.cap() <= u32::MAX,
            self.cap() % (SECTOR_SIZE as int) == 0,
    {
        let s = SECTOR_SIZE as int;
        let bs = self.bs();
        let cap = self.cap();
        let a = lba * bs;
        self.chip.capacity_properties();
        lemma_mul_nonnegative(lba, bs);
        // The block size cannot exceed the sector size it divides.
        if bs > s {
            lemma_small_mod(s as nat, bs as nat);
            assert(false);
        }
        // The block lies within the chip: (lba + 1) * bs <= (cap / bs) * bs <= cap.
        lemma_mul_inequality(lba + 1, cap / bs, bs);
        lemma_fundamental_div_mod(cap, bs);
        lemma_mod_division_less_than_divisor(cap, bs);
        lemma_mul_is_distributive_add_other_way(bs, lba, 1);
        lemma_mul_is_commutative(cap / bs, bs);
        assert(a + bs <= cap);
        // The sector is a whole number of blocks: s == k * bs.
        let k = s / bs;
        lemma_fundamental_div_mod(s, bs);
        lemma_mul_is_commutative(bs, k);
        assert(s == k * bs);
        if k < 1 {
            lemma_mul_inequality(k, 0, bs);
            assert(false);
        }
        // Split lba into sectors and a remainder: a == q * s + r * bs.
        let q = lba / k;
        let r = lba % k;
        lemma_fundamental_div_mod(lba, k);
        lemma_mod_division_less_than_divisor(lba, k);
        lemma_mul_is_distributive_add_other_way(bs, k * q, r);
        lemma_mul_is_commutative(k, q);
        lemma_mul_is_associative(q, k, bs);
        assert(a == q * s + r * bs);
        lemma_mul_nonnegative(r, bs);
        lemma_mul_inequality(r, k - 1, bs);
        lemma_mul_is_distributive_sub_other_way(bs, k, 1);
        assert(r * bs <= s - bs);
        lemma_mul_nonnegative(q, s);
        lemma_fundamental_div_mod_converse(a, s, q, r * bs);
        assert(self.unit_of(lba) == q);
        // The unit lies within the chip: q + 1 <= cap / s.
        lemma_fundamental_div_mod(cap, s);
        lemma_mul_is_commutative(cap / s, s);
        assert(cap == (cap / s) * s);
        lemma_mul_strict_inequality_converse(q, cap / s, s);
        lemma_mul_inequality(q + 1, cap / s, s);
        lemma_mul_is_distributive_add_other_way(s, q, 1);
        assert(q * s + s <= cap);
    }

    /// Which logical block a valid byte address falls in.
    pub proof fn lemma_addr_block(&self, addr: int)
        requires
            self.wf(),
            0 <= addr < self.cap(),
        ensures
            self.cap() % self.bs() == 0,
            0 <= addr / self.bs() <= self.max_lba_spec(),
            (addr / self.bs()) * self.bs() <= addr < (addr / self.bs()) * self.bs() + self.bs(),
    {
        let s = SECTOR_SIZE as int;
        let bs = self.bs();
        let cap = self.cap();
        self.lemma_wf_bounds();
        // The capacity is a whole number of blocks: cap == ((cap / s) * k) * bs.
        let k = s / bs;
        lemma_fundamental_div_mod(s, bs);
        lemma_mul_is_commutative(bs, k);
        lemma_fundamental_div_mod(cap, s);
        lemma_mul_is_commutative(cap / s, s);
        assert(cap == (cap / s) * (k * bs));
        lemma_mul_is_associative(cap / s, k, bs);
        lemma_mul_nonnegative(cap / s, k);
        lemma_fundamental_div_mod_converse(cap, bs, (cap / s) * k, 0);
        assert(cap % bs == 0);
        // The address's own block: q * bs <= addr < q * bs + bs.
        lemma_fundamental_div_mod(addr, bs);
        lemma_mod_division_less_than_divisor(addr, bs);
        let q = addr / bs;
        lemma_mul_is_commutative(bs, q);
        // addr <= cap - 1, and (cap - 1) / bs == cap / bs - 1 since bs divides cap.
        lemma_div_is_ordered(addr, cap - 1, bs);
        lemma_mul_is_commutative(bs, cap / bs);
        lemma_mul_is_distributive_sub_other_way(bs, cap / bs, 1);
        lemma_fundamental_div_mod_converse(cap - 1, bs, cap / bs - 1, bs - 1);
    }

    /// A new translator over `chip`.  The block size is a deployment
    /// constant and must evenly divide the erase-unit size.
    pub fn new(chip: C, block_size: u32) -> (r: SpiFlash<C>)
        requires
            chip.inv(),
            0 < block_size,
            SECTOR_SIZE % block_size == 0,
            chip.contents().len() > 0,
        ensures
            r.wf(),
            r.contents() == chip.contents(),
            r.block_size == block_size,
            r.reliable() == chip.reliable(),
            r.chip_id() == chip.id(),
    {
        SpiFlash { chip, block_size }
    }

    /// Total capacity in bytes.
    pub fn capacity(&self) -> (r: u32)
        requires
            self.wf(),
        ensures
            r as int == self.cap(),
    {
        self.chip.capacity()
    }

    /// `capacity / block_size - 1`, constant after construction.
    pub fn max_lba(&self) -> (r: u32)
        requires
            self.wf(),
        ensures
            r as int == self.max_lba_spec(),
    {
        proof {
            self.lemma_wf_bounds();
        }
        self.chip.capacity() / self.block_size - 1
    }

    /// Read of one logical block, translated to `lba * block_size`.
    pub fn read_block(&mut self, lba: u32) -> (r: Result<Vec<u8>, StorageError>)
        requires
            old(self).wf(),
        ensures
            *final(self) == *old(self),
            (lba as int > old(self).max_lba_spec()) <==> (r is Err && r->Err_0
                == StorageError::InvalidAddress),
            r is Ok ==> r->Ok_0@ == old(self).block_at(old(self).contents(), lba as int),
            old(self).reliable() && lba as int <= old(self).max_lba_spec() ==> r is Ok,
            r is Err ==> r->Err_0 == StorageError::InvalidAddress || r->Err_0
                == StorageError::HardwareIo,
    {
        let max = self.max_lba();
        if lba > max {
            return Err(StorageError::InvalidAddress);
        }
        proof {
            self.lemma_block_geometry(lba as int);
        }
        let addr: u32 = lba * self.block_size;
        self.chip.read(addr, self.block_size as usize)
    }

    /// Whether erase unit `unit` currently holds only `0xFF`, found by
    /// scanning the unit in small chunks and stopping at the first written
    /// byte.  No persistent state, so no staleness risk.
    pub fn is_unit_blank(&mut self, unit: u32) -> (r: Result<bool, StorageError>)
        requires
            old(self).wf(),
        ensures
            *final(self) == *old(self),
            (unit as int >= old(self).unit_count()) <==> (r is Err && r->Err_0
                == StorageError::InvalidAddress),
            r is Ok ==> r->Ok_0 == unit_blank(old(self).contents(), unit as int),
            old(self).reliable() && (unit as int) < old(self).unit_count() ==> r is Ok,
            r is Err ==> r->Err_0 == StorageError::InvalidAddress || r->Err_0
                == StorageError::HardwareIo,
    {
        let cap = self.chip.capacity();
        let units: u32 = cap / SECTOR_SIZE;
        if unit >= units {
            proof {
                self.lemma_unit_geometry(unit as int);
            }
            return Err(StorageError::InvalidAddress);
        }
        proof {
            self.lemma_unit_geometry(unit as int);
        }
        let base: u32 = unit * SECTOR_SIZE;
        let ghost c = self.contents();
        let mut off: u32 = 0;
        while off < SECTOR_SIZE
            invariant
                *self == *old(self),
                self.wf(),
                off <= SECTOR_SIZE,
                off % READ_CHUNK_SIZE == 0,
                base == unit * SECTOR_SIZE,
                base + SECTOR_SIZE <= self.cap() <= u32::MAX,
                c == self.contents(),
                forall|i: int| base <= i < base + off ==> c[i] == 0xFFu8,
            decreases SECTOR_SIZE - off,
        {
            let chunk = match self.chip.read(base + off, READ_CHUNK_SIZE as usize) {
                Ok(v) => v,
                Err(e) => {
                    return Err(e);
                },
            };
            let mut j: usize = 0;
            while j < READ_CHUNK_SIZE as usize
                invariant
                    *self == *old(self),
                    self.wf(),
                    c == self.contents(),
                    (unit as int) < self.unit_count(),
                    j <= READ_CHUNK_SIZE,
                    chunk@.len() == READ_CHUNK_SIZE as int,
                    base == unit * SECTOR_SIZE,
                    off + READ_CHUNK_SIZE <= SECTOR_SIZE,
                    base + SECTOR_SIZE <= c.len() <= u32::MAX,
                    chunk@ == c.subrange(
                        base + off as int,
                        base + off as int + READ_CHUNK_SIZE as int,
                    ),
                    forall|i: int| base + off <= i < base + off + j ==> c[i] == 0xFFu8,
                decreases READ_CHUNK_SIZE as usize - j,
            {
                if chunk[j] != 0xFF {
                    proof {
                        assert(c[base + off as int + j as int] != 0xFFu8);
                        assert(!unit_blank(c, unit as int));
                    }
                    return Ok(false);
                }
                j = j + 1;
            }
            off = off + READ_CHUNK_SIZE;
        }
        proof {
            assert(unit_blank(c, unit as int));
        }
        Ok(true)
    }

    /// Placement of a valid erase unit within the chip.
    pub proof fn lemma_unit_geometry(&self, unit: int)
        requires
            self.wf(),
            0 <= unit,
        ensures
            self.cap() % (SECTOR_SIZE as int) == 0,
            self.cap() <= u32::MAX,
            unit < self.unit_count() ==> 0 <= unit * (SECTOR_SIZE as int) && unit * (
            SECTOR_SIZE as int) + (SECTOR_SIZE as int) <= self.cap(),
    {
        let s = SECTOR_SIZE as int;
        let cap = self.cap();
        self.chip.capacity_properties();
        if unit < cap / s {
            lemma_mul_nonnegative(unit, s);
            lemma_mul_inequality(unit + 1, cap / s, s);
            lemma_fundamental_div_mod(cap, s);
            lemma_mod_division_less_than_divisor(cap, s);
            lemma_mul_is_distributive_add_other_way(s, unit, 1);
            lemma_mul_is_commutative(cap / s, s);
        }
    }

    /// Erase-state query at block granularity: whether the unit owning
    /// `lba` is blank.
    pub fn is_block_erased(&mut self, lba: u32) -> (r: Result<bool, StorageError>)
        requires
            old(self).wf(),
        ensures
            *final(self) == *old(self),
            (lba as int > old(self).max_lba_spec()) <==> (r is Err && r->Err_0
                == StorageError::InvalidAddress),
            r is Ok ==> r->Ok_0 == unit_blank(
                old(self).contents(),
                old(self).unit_of(lba as int),
            ),
            old(self).reliable() && lba as int <= old(self).max_lba_spec() ==> r is Ok,
            r is Err ==> r->Err_0 == StorageError::InvalidAddress || r->Err_0
                == StorageError::HardwareIo,
    {
        let max = self.max_lba();
        if lba > max {
            return Err(StorageError::InvalidAddress);
        }
        proof {
            self.lemma_block_geometry(lba as int);
        }
        let addr: u32 = lba * self.block_size;
        let unit: u32 = addr / SECTOR_SIZE;
        let r = self.is_unit_blank(unit);
        proof {
            if r is Err {
                assert(unit as int == self.unit_of(lba as int));
            }
        }
        r
    }

    /// Fast path: program only the target block's bytes; no read, no erase.
    /// Valid only because the owning unit is already blank.
    fn write_block_fast(&mut self, lba: u32, data: &[u8]) -> (r: Result<(), StorageError>)
        requires
            old(self).wf(),
            data@.len() == old(self).bs(),
            0 <= lba as int <= old(self).max_lba_spec(),
            unit_blank(old(self).contents(), old(self).unit_of(lba as int)),
        ensures
            Self::preserves(*old(self), *final(self)),
            old(self).reliable() ==> r is Ok,
            r is Ok ==> forall|i: int|
                0 <= i < old(self).cap() && !(lba as int * old(self).bs() <= i < lba as int * old(self).bs() + old(self).bs()) ==> final(self).contents()[i] == old(self).contents()[i],
            r is Ok && old(self).reliable() ==> final(self).contents() == spliced(
                old(self).contents(),
                lba as int * old(self).bs(),
                data@,
            ),
            r is Err ==> *final(self) == *old(self) && r->Err_0 == StorageError::HardwareIo,
    {
        proof {
            self.lemma_block_geometry(lba as int);
        }
        let ghost c0 = self.contents();
        let ghost ua = self.unit_of(lba as int) * (SECTOR_SIZE as int);
        let addr: u32 = lba * self.block_size;
        let r = self.chip.program(addr, data);
        proof {
            assert forall|i: int| addr <= i < addr + data@.len() implies c0[i] == 0xFFu8 by {
                assert(ua <= i < ua + SECTOR_SIZE as int);
            }
            if r is Ok && old(self).reliable() {
                lemma_programmed_on_blank(c0, addr as int, data@);
            }
        }
        r
    }

    /// Slow path: read the whole erase unit, erase it, overwrite the block's
    /// sub-range in the scratch copy, program the unit back, then read it
    /// back and byte-compare against the intended result.
    fn write_block_slow(&mut self, lba: u32, data: &[u8]) -> (r: Result<(), StorageError>)
        requires
            old(self).wf(),
            data@.len() == old(self).bs(),
            0 <= lba as int <= old(self).max_lba_spec(),
        ensures
            Self::preserves(*old(self), *final(self)),
            old(self).reliable() ==> r is Ok,
            r is Ok ==> final(self).contents() == spliced(
                old(self).contents(),
                lba as int * old(self).bs(),
                data@,
            ),
            forall|i: int|
                0 <= i < old(self).cap() && !(old(self).unit_of(lba as int) * (SECTOR_SIZE as int)
                    <= i < old(self).unit_of(lba as int) * (SECTOR_SIZE as int) + (
                SECTOR_SIZE as int)) ==> final(self).contents()[i] == old(self).contents()[i],
            r is Err ==> r->Err_0 == StorageError::HardwareIo || r->Err_0
                == StorageError::EraseFailure || r->Err_0 == StorageError::VerificationMismatch,
    {
        let ghost c0 = self.contents();
        let ghost s_int = SECTOR_SIZE as int;
        proof {
            self.lemma_block_geometry(lba as int);
        }
        let addr: u32 = lba * self.block_size;
        let unit: u32 = addr / SECTOR_SIZE;
        let ua: u32 = unit * SECTOR_SIZE;
        let off: usize = (addr - ua) as usize;
        let bsz: usize = self.block_size as usize;
        let ghost unit0 = c0.subrange(ua as int, ua as int + s_int);
        // 1. Read the whole unit into a scratch buffer.
        let mut scratch = match self.chip.read(ua, SECTOR_SIZE as usize) {
            Ok(v) => v,
            Err(e) => {
                return Err(e);
            },
        };
        // 2. Overwrite the block's sub-range within the scratch copy.
        proof {
            assert(scratch@ =~= spliced(unit0, off as int, data@.take(0)));
        }
        let mut j: usize = 0;
        while j < bsz
            invariant
                *self == *old(self),
                self.wf(),
                j <= bsz,
                bsz == self.bs(),
                data@.len() == bsz,
                off + bsz <= SECTOR_SIZE,
                scratch@.len() == s_int,
                s_int == SECTOR_SIZE as int,
                scratch@ == spliced(unit0, off as int, data@.take(j as int)),
            decreases bsz - j,
        {
            scratch[off + j] = data[j];
            proof {
                assert(scratch@ =~= spliced(unit0, off as int, data@.take(j as int + 1)));
            }
            j = j + 1;
        }
        proof {
            assert(data@.take(data@.len() as int) =~= data@);
        }
        // 3. Erase the unit.
        match self.chip.erase_sector(ua) {
            Ok(u) => u,
            Err(e) => {
                return Err(e);
            },
        };
        // 4. Program the whole unit back.
        match self.chip.program(ua, scratch.as_slice()) {
            Ok(u) => u,
            Err(e) => {
                return Err(e);
            },
        };
        let ghost c2 = self.contents();
        proof {
            if old(self).reliable() {
                lemma_programmed_on_blank(erased(c0, ua as int, s_int), ua as int, scratch@);
                assert(c2.subrange(ua as int, ua as int + s_int) =~= scratch@);
            }
        }
        // 5. Read back and byte-compare against the intended result.
        let back = match self.chip.read(ua, SECTOR_SIZE as usize) {
            Ok(v) => v,
            Err(e) => {
                return Err(e);
            },
        };
        let mut k: usize = 0;
        while k < SECTOR_SIZE as usize
            invariant
                self.wf(),
                self.block_size == old(self).block_size,
                self.cap() == old(self).cap(),
                self.reliable() == old(self).reliable(),
                self.chip_id() == old(self).chip_id(),
                c0 == old(self).contents(),
                c2 == self.contents(),
                s_int == SECTOR_SIZE as int,
                k <= SECTOR_SIZE as usize,
                back@.len() == s_int,
                scratch@.len() == s_int,
                addr == lba as int * self.bs(),
                ua == unit * SECTOR_SIZE,
                ua as int == self.unit_of(lba as int) * s_int,
                ua + s_int <= self.cap(),
                addr == ua + off,
                off + bsz <= SECTOR_SIZE,
                bsz == self.bs(),
                data@.len() == bsz,
                back@ == c2.subrange(ua as int, ua as int + s_int),
                scratch@ == spliced(unit0, off as int, data@),
                unit0 == c0.subrange(ua as int, ua as int + s_int),
                forall|i: int|
                    0 <= i < c2.len() && !(ua <= i < ua + s_int) ==> c2[i] == c0[i],
                self.reliable() ==> c2.subrange(ua as int, ua as int + s_int) == scratch@,
                forall|m: int| 0 <= m < k ==> back@[m] == scratch@[m],
            decreases SECTOR_SIZE as usize - k,
        {
            if back[k] != scratch[k] {
                proof {
                    assert(!self.reliable());
                }
                return Err(StorageError::VerificationMismatch);
            }
            k = k + 1;
        }
        proof {
            assert(back@ =~= scratch@);
            assert forall|i: int| 0 <= i < c2.len() implies c2[i] == spliced(
                c0,
                addr as int,
                data@,
            )[i] by {
                if ua <= i < ua + s_int {
                    assert(c2[i] == back@[i - ua]);
                    assert(back@[i - ua] == spliced(unit0, off as int, data@)[i - ua]);
                }
            }
            assert(c2 =~= spliced(c0, addr as int, data@));
        }
        Ok(())
    }

    /// Write one logical block: the fast append-only path when the owning
    /// erase unit is blank, the slow read-erase-modify-write path otherwise.
    pub fn write_block(&mut self, lba: u32, data: &[u8]) -> (r: Result<(), StorageError>)
        requires
            old(self).wf(),
        ensures
            Self::preserves(*old(self), *final(self)),
            (lba as int > old(self).max_lba_spec()) <==> (r is Err && r->Err_0
                == StorageError::InvalidAddress),
            (lba as int <= old(self).max_lba_spec() && data@.len() != old(self).bs()) <==> (r
                is Err && r->Err_0 == StorageError::UnsupportedLength),
            old(self).reliable() && lba as int <= old(self).max_lba_spec() && data@.len() == old(self).bs() ==> r is Ok,
            r is Ok ==> forall|i: int|
                0 <= i < old(self).cap() && !(old(self).unit_of(lba as int) * (SECTOR_SIZE as int)
                    <= i < old(self).unit_of(lba as int) * (SECTOR_SIZE as int) + (
                SECTOR_SIZE as int)) ==> final(self).contents()[i] == old(self).contents()[i],
            r is Ok && (old(self).reliable() || !unit_blank(
                old(self).contents(),
                old(self).unit_of(lba as int),
            )) ==> final(self).contents() == spliced(
                old(self).contents(),
                lba as int * old(self).bs(),
                data@,
            ),
    {
        let max = self.max_lba();
        if lba > max {
            return Err(StorageError::InvalidAddress);
        }
        if data.len() != self.block_size as usize {
            return Err(StorageError::UnsupportedLength);
        }
        proof {
            self.lemma_block_geometry(lba as int);
        }
        let blank = match self.is_block_erased(lba) {
            Ok(b) => b,
            Err(e) => {
                return Err(e);
            },
        };
        if blank {
            self.write_block_fast(lba, data)
        } else {
            self.write_block_slow(lba, data)
        }
    }

    /// Full-chip erase; on success every erase unit is blank again.
    pub fn erase_device(&mut self) -> (r: Result<(), StorageError>)
        requires
            old(self).wf(),
        ensures
            Self::preserves(*old(self), *final(self)),
            r is Ok ==> final(self).contents() == all_blank(old(self).contents().len()),
            old(self).reliable() ==> r is Ok,
            r is Err ==> *final(self) == *old(self) && r->Err_0 == StorageError::EraseFailure,
    {
        self.chip.erase_all()
    }

    /// Byte-addressed read: the update protocol's view of the flash region.
    pub fn read_bytes(&mut self, addr: u32, len: usize) -> (r: Result<Vec<u8>, StorageError>)
        requires
            old(self).wf(),
        ensures
            *final(self) == *old(self),
            (addr + len > old(self).cap()) <==> (r is Err && r->Err_0
                == StorageError::InvalidAddress),
            r is Ok ==> r->Ok_0@ == old(self).contents().subrange(
                addr as int,
                addr as int + len as int,
            ),
            old(self).reliable() && addr + len <= old(self).cap() ==> r is Ok,
            r is Err ==> r->Err_0 == StorageError::InvalidAddress || r->Err_0
                == StorageError::HardwareIo,
    {
        let cap = self.chip.capacity();
        if len as u64 > cap as u64 || addr as u64 > cap as u64 - len as u64 {
            return Err(StorageError::InvalidAddress);
        }
        self.chip.read(addr, len)
    }

    /// Byte-addressed program: assumes the host erased the range first, as
    /// the update protocol does.
    pub fn program_bytes(&mut self, addr: u32, data: &[u8]) -> (r: Result<(), StorageError>)
        requires
            old(self).wf(),
        ensures
            Self::preserves(*old(self), *final(self)),
            (addr + data@.len() > old(self).cap()) <==> (r is Err && r->Err_0
                == StorageError::InvalidAddress),
            old(self).reliable() && addr + data@.len() <= old(self).cap() ==> r is Ok && final(self).contents() == programmed(old(self).contents(), addr as int, data@),
            r is Ok ==> forall|i: int|
                0 <= i < old(self).cap() && !(addr <= i < addr + data@.len()) ==> final(self).contents()[i] == old(self).contents()[i],
            r is Err ==> *final(self) == *old(self) && (r->Err_0 == StorageError::InvalidAddress
                || r->Err_0 == StorageError::HardwareIo),
    {
        let cap = self.chip.capacity();
        if data.len() as u64 > cap as u64 || addr as u64 > cap as u64 - data.len() as u64 {
            return Err(StorageError::InvalidAddress);
        }
        self.chip.program(addr, data)
    }

    /// Erase of the one unit starting at the aligned address `addr`.
    pub fn erase_unit_at(&mut self, addr: u32) -> (r: Result<(), StorageError>)
        requires
            old(self).wf(),
            addr % SECTOR_SIZE == 0,
            addr + SECTOR_SIZE <= old(self).cap(),
        ensures
            Self::preserves(*old(self), *final(self)),
            r is Ok ==> final(self).contents() == erased(
                old(self).contents(),
                addr as int,
                SECTOR_SIZE as int,
            ),
            old(self).reliable() ==> r is Ok,
            r is Err ==> *final(self) == *old(self) && r->Err_0 == StorageError::EraseFailure,
    {
        self.chip.erase_sector(addr)
    }

    /// Power-on identity check: retry the identifier query a bounded number
    /// of times and accept once the chip reports the expected part.
    pub fn check_flash_id(&mut self) -> (r: Result<(), LightNoteErrors>)
        requires
            old(self).wf(),
        ensures
            *final(self) == *old(self),
            r is Ok ==> old(self).chip_id() == (EXPECTED_ID_0, EXPECTED_ID_1),
            old(self).reliable() ==> (r is Ok <==> old(self).chip_id() == (
                EXPECTED_ID_0,
                EXPECTED_ID_1,
            )),
            r is Err ==> r->Err_0 == LightNoteErrors::FailedToReadFlashID,
    {
        let mut attempt: u32 = 0;
        while attempt < 20
            invariant
                *self == *old(self),
                self.wf(),
                attempt > 0 ==> (self.reliable() ==> self.chip_id() != (
                    EXPECTED_ID_0,
                    EXPECTED_ID_1,
                )),
            decreases 20 - attempt,
        {
            match self.chip.read_id() {
                Ok(id) => {
                    if id.0 == EXPECTED_ID_0 && id.1 == EXPECTED_ID_1 {
                        return Ok(());
                    }
                },
                Err(_) => {},
            }
            attempt = attempt + 1;
        }
        Err(LightNoteErrors::FailedToReadFlashID)
    }
}

/// Round trip at block granularity: after a successful `write_block` of
/// `d` to `lba` (whose ensures give contents `spliced(c, lba * bs, d)`),
/// `read_block(lba)` returns exactly `d`.
pub proof fn lemma_block_round_trip<C: FlashChip>(
    flash: SpiFlash<C>,
    c: Seq<u8>,
    lba: int,
    d: Seq<u8>,
)
    requires
        flash.wf(),
        0 <= lba <= flash.max_lba_spec(),
        d.len() == flash.bs(),
        c.len() == flash.cap(),
    ensures
        flash.block_at(spliced(c, lba * flash.bs(), d), lba) == d,
{
    flash.lemma_block_geometry(lba);
    lemma_round_trip(c, lba * flash.bs(), d);
}

/// Round trip: the bytes written to a range are exactly what a read of that
/// range returns afterwards.
pub proof fn lemma_round_trip(c: Seq<u8>, a: int, d: Seq<u8>)
    requires
        0 <= a,
        a + d.len() <= c.len(),
    ensures
        spliced(c, a, d).subrange(a, a + d.len() as int) == d,
{
    assert(spliced(c, a, d).subrange(a, a + d.len() as int) =~= d);
}

/// Partial-unit preservation: writing one block leaves every other block's
/// content unchanged, sibling blocks in the same erase unit included.
pub proof fn lemma_sibling_preserved(c: Seq<u8>, bs: int, lba: int, d: Seq<u8>, other: int)
    requires
        0 < bs,
        0 <= lba,
        0 <= other,
        other != lba,
        (lba + 1) * bs <= c.len(),
        (other + 1) * bs <= c.len(),
        d.len() == bs,
    ensures
        spliced(c, lba * bs, d).subrange(other * bs, other * bs + bs) == c.subrange(
            other * bs,
            other * bs + bs,
        ),
{
    lemma_mul_is_distributive_add_other_way(bs, lba, 1);
    lemma_mul_is_distributive_add_other_way(bs, other, 1);
    if other < lba {
        lemma_mul_inequality(other + 1, lba, bs);
    } else {
        lemma_mul_inequality(lba + 1, other, bs);
    }
    lemma_mul_nonnegative(lba, bs);
    lemma_mul_nonnegative(other, bs);
    assert(spliced(c, lba * bs, d).subrange(other * bs, other * bs + bs) =~= c.subrange(
        other * bs,
        other * bs + bs,
    ));
}

/// Fast/slow equivalence: on a blank unit, programming a block directly
/// (the fast path) gives the same final content as first erasing the unit
/// and then writing the block over the erased copy (the slow path).
pub proof fn lemma_fast_slow_equivalence(c: Seq<u8>, unit: int, off: int, d: Seq<u8>)
    requires
        0 <= unit,
        0 <= off,
        off + d.len() <= SECTOR_SIZE as int,
        unit * (SECTOR_SIZE as int) + (SECTOR_SIZE as int) <= c.len(),
        unit_blank(c, unit),
    ensures
        programmed(c, unit * (SECTOR_SIZE as int) + off, d) == spliced(
            erased(c, unit * (SECTOR_SIZE as int), SECTOR_SIZE as int),
            unit * (SECTOR_SIZE as int) + off,
            d,
        ),
{
    let s = SECTOR_SIZE as int;
    let a = unit * s + off;
    lemma_mul_nonnegative(unit, s);
    assert(erased(c, unit * s, s) =~= c);
    assert forall|i: int| a <= i < a + d.len() implies c[i] == 0xFFu8 by {
        assert(unit * s <= i < unit * s + s);
    }
    lemma_programmed_on_blank(c, a, d);
}

/// Erase idempotence on the blank state: after a full-chip erase every
/// erase unit reads as blank.
pub proof fn lemma_erase_blanks_every_unit(len: nat, unit: int)
    requires
        0 <= unit,
        unit * (SECTOR_SIZE as int) + (SECTOR_SIZE as int) <= len,
    ensures
        unit_blank(all_blank(len), unit),
{
    lemma_mul_nonnegative(unit, SECTOR_SIZE as int);
}

/// A successful write of data holding at least one written (non-`0xFF`)
/// byte leaves the owning erase unit dirty.
pub proof fn lemma_write_dirties_unit(c: Seq<u8>, a: int, d: Seq<u8>, unit: int, j: int)
    requires
        0 <= j < d.len(),
        d[j] != 0xFFu8,
        0 <= unit,
        unit * (SECTOR_SIZE as int) <= a,
        a + d.len() <= unit * (SECTOR_SIZE as int) + (SECTOR_SIZE as int),
        unit * (SECTOR_SIZE as int) + (SECTOR_SIZE as int) <= c.len(),
    ensures
        !unit_blank(spliced(c, a, d), unit),
{
    lemma_mul_nonnegative(unit, SECTOR_SIZE as int);
    assert(spliced(c, a, d)[a + j] == d[j]);
}

} // verus!
