//! The address-space multiplexer behind the firmware-update protocol.
//!
//! One linear address space is split into four disjoint, statically ordered
//! regions: a linear image of the whole flash, a read-only window into the
//! persisted EEPROM control bytes, a read-only build-identifier record, and
//! a single write-only control word whose program decodes a display address
//! and clears the answer-pending flag.  Any address outside all four is
//! invalid.

use vstd::arithmetic::div_mod::lemma_fundamental_div_mod;
use vstd::arithmetic::mul::{
    lemma_mul_inequality, lemma_mul_is_commutative, lemma_mul_is_distributive_add_other_way,
    lemma_mul_strict_inequality_converse,
};
use vstd::prelude::*;

use crate::chip::{erased, programmed, FlashChip, SECTOR_SIZE};
use crate::errors::StorageError;
use crate::flash::SpiFlash;
use crate::nvm::{
    le_bytes, lemma_word_round_trip, word_at, Nvm, ANSWER_PENDING_OFFSET, DISPLAY_ADDRESS_OFFSET,
    EEPROM_SIZE_IN_BYTES,
};

verus! {

/// Base of the read-only EEPROM window, directly above the largest flash
/// image the map accepts.
pub const EEPROM_REGION_BASE: u32 = 0x0100_0000;

/// Base of the read-only build-identifier record.
pub const VERSION_REGION_BASE: u32 = 0x0100_0800;

/// Size of the build-identifier record.
pub const VERSION_REGION_SIZE: u32 = 16;

/// The one address whose program is a control-state update, not a flash
/// write.
pub const CONTROL_REGION_BASE: u32 = 0x0100_0900;

/// Size of the control region: one 32-bit word.
pub const CONTROL_REGION_SIZE: u32 = 4;

/// The largest byte count a single read or program request may carry.
pub const MAX_TRANSFER_LENGTH: usize = 4096;

/// Worst-case page-program latency in milliseconds, for host polling.
pub const PROGRAM_TIME_MS: u32 = 3;

/// Worst-case sector-erase latency in milliseconds.
pub const SECTOR_ERASE_TIME_MS: u32 = 400;

/// Worst-case full-chip-erase latency in milliseconds.
pub const FULL_ERASE_TIME_MS: u32 = 200_000;

/// The four virtual regions, in their dispatch priority order.
#[derive(Clone, Copy, Debug, PartialEq, Eq, Structural)]
pub enum VirtualAddressRegion {
    VersionRegion,
    EepromRegion,
    ControlRegion,
    FlashRegion,
}

/// The build identifier served from the version region.
pub open spec fn version_spec() -> Seq<u8> {
    seq![
        0x6cu8, 0x69, 0x67, 0x68, 0x74, 0x6e, 0x6f, 0x74, 0x65, 0x2d, 0x66, 0x77, 0x2d, 0x31,
        0x2e, 0x30,
    ]
}

/// The build identifier as bytes.
pub fn version_bytes() -> (r: Vec<u8>)
    ensures
        r@ == version_spec(),
{
    let mut v: Vec<u8> = Vec::new();
    v.push(0x6c);
    v.push(0x69);
    v.push(0x67);
    v.push(0x68);
    v.push(0x74);
    v.push(0x6e);
    v.push(0x6f);
    v.push(0x74);
    v.push(0x65);
    v.push(0x2d);
    v.push(0x66);
    v.push(0x77);
    v.push(0x2d);
    v.push(0x31);
    v.push(0x2e);
    v.push(0x30);
    proof {
        assert(v@ =~= version_spec());
    }
    v
}

/// A read of `len` bytes starting `off` bytes into the version record:
/// the identifier itself, padded with zeroes past its end.
pub open spec fn version_window(off: int, len: nat) -> Seq<u8> {
    Seq::new(len, |i: int| if off + i < version_spec().len() {
        version_spec()[off + i]
    } else {
        0u8
    })
}

/// Which region an address belongs to, against a flash of `cap` bytes;
/// `None` for an address outside all four.
pub open spec fn region_of_spec(address: u32, cap: int) -> Option<VirtualAddressRegion> {
    if VERSION_REGION_BASE <= address < VERSION_REGION_BASE + VERSION_REGION_SIZE {
        Some(VirtualAddressRegion::VersionRegion)
    } else if EEPROM_REGION_BASE <= address < EEPROM_REGION_BASE + EEPROM_SIZE_IN_BYTES {
        Some(VirtualAddressRegion::EepromRegion)
    } else if CONTROL_REGION_BASE <= address < CONTROL_REGION_BASE + CONTROL_REGION_SIZE {
        Some(VirtualAddressRegion::ControlRegion)
    } else if address < cap {
        Some(VirtualAddressRegion::FlashRegion)
    } else {
        None
    }
}

/// Which region an address belongs to.
pub fn region_of(address: u32, capacity: u32) -> (r: Option<VirtualAddressRegion>)
    ensures
        r == region_of_spec(address, capacity as int),
{
    if VERSION_REGION_BASE <= address && address < VERSION_REGION_BASE + VERSION_REGION_SIZE {
        Some(VirtualAddressRegion::VersionRegion)
    } else if EEPROM_REGION_BASE <= address && address < EEPROM_REGION_BASE
        + EEPROM_SIZE_IN_BYTES {
        Some(VirtualAddressRegion::EepromRegion)
    } else if CONTROL_REGION_BASE <= address && address < CONTROL_REGION_BASE
        + CONTROL_REGION_SIZE {
        Some(VirtualAddressRegion::ControlRegion)
    } else if address < capacity {
        Some(VirtualAddressRegion::FlashRegion)
    } else {
        None
    }
}

/// The update-protocol memory: the flash translator plus the persisted
/// control store, multiplexed onto one linear address space.
pub struct DfuMemory<C: FlashChip> {
    /// The flash image behind the `FlashRegion`.
    pub flash: SpiFlash<C>,
    /// The persisted control store behind the EEPROM window and the
    /// control region.
    pub nvm: Nvm,
}

impl<C: FlashChip> DfuMemory<C> {
    /// Well-formedness: both parts sound, and the flash image small enough
    /// that the regions cannot overlap.
    pub open spec fn wf(&self) -> bool {
        &&& self.flash.wf()
        &&& self.nvm.wf()
        &&& self.flash.cap() <= EEPROM_REGION_BASE
    }

    /// What every operation preserves.
    pub open spec fn preserves(pre: Self, post: Self) -> bool {
        &&& post.wf()
        &&& post.flash.block_size == pre.flash.block_size
        &&& post.flash.contents().len() == pre.flash.contents().len()
        &&& post.flash.reliable() == pre.flash.reliable()
        &&& post.flash.chip_id() == pre.flash.chip_id()
    }

    /// Assemble the update-protocol memory.
    pub fn new(flash: SpiFlash<C>, nvm: Nvm) -> (r: DfuMemory<C>)
        requires
            flash.wf(),
            nvm.wf(),
            flash.cap() <= EEPROM_REGION_BASE,
        ensures
            r.wf(),
            r.flash == flash,
            r.nvm == nvm,
    {
        DfuMemory { flash, nvm }
    }

    /// Read `length` bytes at `address`, routed to the owning region.
    pub fn read(&mut self, address: u32, length: usize) -> (r: Result<Vec<u8>, StorageError>)
        requires
            old(self).wf(),
        ensures
            *final(self) == *old(self),
            (length > MAX_TRANSFER_LENGTH) <==> (r is Err && r->Err_0
                == StorageError::UnsupportedLength),
            length <= MAX_TRANSFER_LENGTH ==> match region_of_spec(address, old(self).flash.cap()) {
                Some(VirtualAddressRegion::VersionRegion) => r is Ok && r->Ok_0@
                    == version_window(address - VERSION_REGION_BASE, length as nat),
                Some(VirtualAddressRegion::EepromRegion) => {
                    &&& (address - EEPROM_REGION_BASE + length <= EEPROM_SIZE_IN_BYTES <==> r
                        is Ok)
                    &&& (r is Err ==> r->Err_0 == StorageError::InvalidAddress)
                    &&& r is Ok ==> r->Ok_0@ == old(self).nvm.control().subrange(
                        address - EEPROM_REGION_BASE,
                        address - EEPROM_REGION_BASE + length,
                    )
                },
                Some(VirtualAddressRegion::ControlRegion) => r is Err && r->Err_0
                    == StorageError::InvalidAddress,
                Some(VirtualAddressRegion::FlashRegion) => {
                    &&& (address + length > old(self).flash.cap() <==> r is Err && r->Err_0
                        == StorageError::InvalidAddress)
                    &&& r is Ok ==> r->Ok_0@ == old(self).flash.contents().subrange(
                        address as int,
                        address as int + length as int,
                    )
                    &&& old(self).flash.reliable() && address + length <= old(self).flash.cap()
                        ==> r is Ok
                },
                None => r is Err && r->Err_0 == StorageError::InvalidAddress,
            },
    {
        if length > MAX_TRANSFER_LENGTH {
            return Err(StorageError::UnsupportedLength);
        }
        let capacity = self.flash.capacity();
        match region_of(address, capacity) {
            Some(VirtualAddressRegion::VersionRegion) => {
                let off: usize = (address - VERSION_REGION_BASE) as usize;
                let ver = version_bytes();
                let mut out: Vec<u8> = Vec::new();
                let mut i: usize = 0;
                while i < length
                    invariant
                        i <= length,
                        length <= MAX_TRANSFER_LENGTH,
                        off < VERSION_REGION_SIZE,
                        ver@ == version_spec(),
                        out@ == version_window(off as int, i as nat),
                    decreases length - i,
                {
                    if off + i < ver.len() {
                        out.push(ver[off + i]);
                    } else {
                        out.push(0);
                    }
                    proof {
                        assert(out@ =~= version_window(off as int, i as nat + 1));
                    }
                    i = i + 1;
                }
                Ok(out)
            },
            Some(VirtualAddressRegion::EepromRegion) => {
                let off: u32 = address - EEPROM_REGION_BASE;
                match self.nvm.read_raw(off, length) {
                    Ok(v) => Ok(v),
                    Err(_) => Err(StorageError::InvalidAddress),
                }
            },
            Some(VirtualAddressRegion::ControlRegion) => Err(StorageError::InvalidAddress),
            Some(VirtualAddressRegion::FlashRegion) => self.flash.read_bytes(address, length),
            None => Err(StorageError::InvalidAddress),
        }
    }

    /// Erase at `address`: an erase-unit-aligned address within the flash
    /// region erases that unit; anything else inside a region is silently
    /// accepted as a no-op, because the protocol issues erases
    /// speculatively across a range and tolerates them.
    pub fn erase(&mut self, address: u32) -> (r: Result<(), StorageError>)
        requires
            old(self).wf(),
        ensures
            Self::preserves(*old(self), *final(self)),
            final(self).nvm == old(self).nvm,
            match region_of_spec(address, old(self).flash.cap()) {
                Some(VirtualAddressRegion::FlashRegion) => {
                    &&& address % SECTOR_SIZE == 0 ==> {
                        &&& (r is Ok ==> final(self).flash.contents() == erased(
                            old(self).flash.contents(),
                            address as int,
                            SECTOR_SIZE as int,
                        ))
                        &&& (old(self).flash.reliable() ==> r is Ok)
                        &&& (r is Err ==> *final(self) == *old(self) && r->Err_0
                            == StorageError::EraseFailure)
                    }
                    &&& address % SECTOR_SIZE != 0 ==> r is Ok && *final(self) == *old(self)
                },
                Some(_) => r is Ok && *final(self) == *old(self),
                None => r is Err && r->Err_0 == StorageError::InvalidAddress && *final(self)
                    == *old(self),
            },
    {
        let capacity = self.flash.capacity();
        match region_of(address, capacity) {
            Some(VirtualAddressRegion::FlashRegion) => {
                if address % SECTOR_SIZE == 0 {
                    proof {
                        self.lemma_aligned_below_capacity(address as int);
                    }
                    self.flash.erase_unit_at(address)
                } else {
                    Ok(())
                }
            },
            Some(_) => Ok(()),
            None => Err(StorageError::InvalidAddress),
        }
    }

    /// An aligned address strictly below the capacity leaves room for a
    /// whole erase unit.
    proof fn lemma_aligned_below_capacity(&self, address: int)
        requires
            self.wf(),
            0 <= address < self.flash.cap(),
            address % (SECTOR_SIZE as int) == 0,
        ensures
            address + SECTOR_SIZE as int <= self.flash.cap(),
    {
        let s = SECTOR_SIZE as int;
        let cap = self.flash.cap();
        self.flash.lemma_wf_bounds();
        lemma_fundamental_div_mod(address, s);
        lemma_fundamental_div_mod(cap, s);
        let q = address / s;
        lemma_mul_strict_inequality_converse(q, cap / s, s);
        lemma_mul_is_commutative(q, s);
        lemma_mul_is_commutative(cap / s, s);
        lemma_mul_inequality(q + 1, cap / s, s);
        lemma_mul_is_distributive_add_other_way(s, q, 1);
    }

    /// Program `data` at `address`.  In the flash region this is a plain
    /// program of a host-erased range; at the control address it decodes
    /// the staged word as the next content address, persists it, and
    /// clears the answer-pending flag; the read-only regions reject it.
    #[verifier::rlimit(30)]
    pub fn program(&mut self, address: u32, data: &[u8]) -> (r: Result<(), StorageError>)
        requires
            old(self).wf(),
        ensures
            Self::preserves(*old(self), *final(self)),
            data@.len() > MAX_TRANSFER_LENGTH ==> r is Err && r->Err_0
                == StorageError::UnsupportedLength && *final(self) == *old(self),
            data@.len() <= MAX_TRANSFER_LENGTH ==> match region_of_spec(
                address,
                old(self).flash.cap(),
            ) {
                Some(VirtualAddressRegion::ControlRegion) => {
                    &&& final(self).flash == old(self).flash
                    &&& (address == CONTROL_REGION_BASE && data@.len() == 4 ==> r is Ok && final(self).nvm.control() == crate::chip::spliced(
                        crate::chip::spliced(
                            old(self).nvm.control(),
                            DISPLAY_ADDRESS_OFFSET as int,
                            le_bytes(word_at(data@, 0)),
                        ),
                        ANSWER_PENDING_OFFSET as int,
                        le_bytes(0u32),
                    ) && final(self).nvm.sector_map() == old(self).nvm.sector_map()
                        && word_at(final(self).nvm.control(), DISPLAY_ADDRESS_OFFSET as int)
                        == word_at(data@, 0)
                        && word_at(final(self).nvm.control(), ANSWER_PENDING_OFFSET as int) == 0)
                    &&& (address == CONTROL_REGION_BASE && data@.len() != 4 ==> r is Err
                        && r->Err_0 == StorageError::UnsupportedLength && final(self).nvm == old(self).nvm)
                    &&& (address != CONTROL_REGION_BASE ==> r is Err && r->Err_0
                        == StorageError::InvalidAddress && final(self).nvm == old(self).nvm)
                },
                Some(VirtualAddressRegion::FlashRegion) => {
                    &&& final(self).nvm == old(self).nvm
                    &&& (address + data@.len() > old(self).flash.cap() <==> r is Err && r->Err_0
                        == StorageError::InvalidAddress)
                    &&& (old(self).flash.reliable() && address + data@.len() <= old(self).flash.cap() ==> r is Ok && final(self).flash.contents() == programmed(
                        old(self).flash.contents(),
                        address as int,
                        data@,
                    ))
                    &&& (r is Ok ==> forall|i: int|
                        0 <= i < old(self).flash.cap() && !(address <= i < address + data@.len())
                            ==> final(self).flash.contents()[i] == old(self).flash.contents()[i])
                    &&& (r is Err ==> *final(self) == *old(self))
                },
                Some(VirtualAddressRegion::VersionRegion) => r is Err && r->Err_0
                    == StorageError::InvalidAddress && *final(self) == *old(self),
                Some(VirtualAddressRegion::EepromRegion) => r is Err && r->Err_0
                    == StorageError::InvalidAddress && *final(self) == *old(self),
                None => r is Err && r->Err_0 == StorageError::InvalidAddress && *final(self)
                    == *old(self),
            },
    {
        if data.len() > MAX_TRANSFER_LENGTH {
            return Err(StorageError::UnsupportedLength);
        }
        let capacity = self.flash.capacity();
        match region_of(address, capacity) {
            Some(VirtualAddressRegion::ControlRegion) => {
                if address != CONTROL_REGION_BASE {
                    return Err(StorageError::InvalidAddress);
                }
                if data.len() != 4 {
                    return Err(StorageError::UnsupportedLength);
                }
                let next_addr: u32 = (data[0] as u32) + (data[1] as u32) * 0x100 + (data[2]
                    as u32) * 0x10000 + (data[3] as u32) * 0x1000000;
                self.nvm.save_display_addr(next_addr);
                self.nvm.save_answer_pending(false);
                proof {
                    old(self).nvm.lemma_wf_len();
                    let c0 = old(self).nvm.control();
                    let w = word_at(data@, 0);
                    let after_addr = crate::chip::spliced(
                        c0,
                        DISPLAY_ADDRESS_OFFSET as int,
                        le_bytes(w),
                    );
                    assert(next_addr == w);
                    lemma_word_round_trip(c0, DISPLAY_ADDRESS_OFFSET as int, w);
                    lemma_word_round_trip(after_addr, ANSWER_PENDING_OFFSET as int, 0);
                    assert(word_at(self.nvm.control(), DISPLAY_ADDRESS_OFFSET as int) == word_at(
                        after_addr,
                        DISPLAY_ADDRESS_OFFSET as int,
                    ));
                }
                Ok(())
            },
            Some(VirtualAddressRegion::FlashRegion) => self.flash.program_bytes(address, data),
            Some(VirtualAddressRegion::VersionRegion) => Err(StorageError::InvalidAddress),
            Some(VirtualAddressRegion::EepromRegion) => Err(StorageError::InvalidAddress),
            None => Err(StorageError::InvalidAddress),
        }
    }
}

} // verus!

