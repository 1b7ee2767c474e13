//! The persisted control store: named 32-bit fields at fixed offsets in the
//! first EEPROM bank, and the per-sector erase-state bitmap in the second.
//!
//! Each field has a defined fallback when the EEPROM is blank (all-1s) or
//! holds a code that does not decode, so first boot and stale telemetry are
//! safe.  The EEPROM banks are modelled as the byte arrays they are; the
//! hardware guarantees their persistence across reset.

use vstd::arithmetic::div_mod::lemma_fundamental_div_mod;
use vstd::prelude::*;

use crate::chip::{all_blank, spliced};
use crate::voltage::VoltageLevels;

verus! {

/// Offset of the wake-up reason field within the first bank.
pub const WAKE_UP_REASON_OFFSET: usize = 0x4;

/// Offset of the charge-level field.
pub const VOLTAGE_LEVEL_OFFSET: usize = 0x8;

/// Offset of the display-address field.
pub const DISPLAY_ADDRESS_OFFSET: usize = 0xc;

/// Offset of the answer-pending flag.
pub const ANSWER_PENDING_OFFSET: usize = 0x10;

/// Bytes in each EEPROM bank.
pub const EEPROM_SIZE_IN_BYTES: u32 = 2048;

/// How many flash sectors the erase-state bitmap covers.
pub const FLASH_NUM_SECTORS: u32 = 4096;

/// What can go wrong against the EEPROM banks.
#[derive(Clone, Copy, Debug, PartialEq, Eq, Structural)]
pub enum Error {
    InvalidAddress,
}

/// Why the device last woke up.  Zero is never used as a stored code, so an
/// uninitialized word cannot be mistaken for a reason.
#[derive(Clone, Copy, Debug, PartialEq, Eq, Structural)]
pub enum WakeUpReasons {
    ButtonPress,
    RtcTimeout,
    ChargingStartedEvent,
    AccelerometerEvent,
    SomeOtherWeirdEvent,
}

impl WakeUpReasons {
    /// The numeric code a reason is persisted as.
    pub open spec fn code_spec(self) -> u32 {
        match self {
            WakeUpReasons::ButtonPress => 1,
            WakeUpReasons::RtcTimeout => 2,
            WakeUpReasons::ChargingStartedEvent => 3,
            WakeUpReasons::AccelerometerEvent => 5,
            WakeUpReasons::SomeOtherWeirdEvent => 6,
        }
    }

    /// The numeric code a reason is persisted as.
    pub fn code(self) -> (r: u32)
        ensures
            r == self.code_spec(),
    {
        match self {
            WakeUpReasons::ButtonPress => 1,
            WakeUpReasons::RtcTimeout => 2,
            WakeUpReasons::ChargingStartedEvent => 3,
            WakeUpReasons::AccelerometerEvent => 5,
            WakeUpReasons::SomeOtherWeirdEvent => 6,
        }
    }

    /// Which reason a stored code decodes to, if any.
    pub open spec fn from_int_spec(v: u32) -> Option<WakeUpReasons> {
        if v == 1 {
            Some(WakeUpReasons::ButtonPress)
        } else if v == 2 {
            Some(WakeUpReasons::RtcTimeout)
        } else if v == 3 {
            Some(WakeUpReasons::ChargingStartedEvent)
        } else if v == 5 {
            Some(WakeUpReasons::AccelerometerEvent)
        } else if v == 6 {
            Some(WakeUpReasons::SomeOtherWeirdEvent)
        } else {
            None
        }
    }

    /// Decode a stored code; `None` for anything out of range.
    pub fn from_int(v: u32) -> (r: Option<WakeUpReasons>)
        ensures
            r == Self::from_int_spec(v),
    {
        if v == 1 {
            Some(WakeUpReasons::ButtonPress)
        } else if v == 2 {
            Some(WakeUpReasons::RtcTimeout)
        } else if v == 3 {
            Some(WakeUpReasons::ChargingStartedEvent)
        } else if v == 5 {
            Some(WakeUpReasons::AccelerometerEvent)
        } else if v == 6 {
            Some(WakeUpReasons::SomeOtherWeirdEvent)
        } else {
            None
        }
    }
}

/// The little-endian 32-bit word at `off` within `c`.
pub open spec fn word_at(c: Seq<u8>, off: int) -> u32 {
    ((c[off] as int) + (c[off + 1] as int) * 0x100 + (c[off + 2] as int) * 0x10000 + (c[off + 3]
        as int) * 0x1000000) as u32
}

/// The four little-endian bytes of `v`.
pub open spec fn le_bytes(v: u32) -> Seq<u8> {
    seq![
        (v % 0x100) as u8,
        ((v / 0x100) % 0x100) as u8,
        ((v / 0x10000) % 0x100) as u8,
        ((v / 0x1000000) % 0x100) as u8,
    ]
}

/// Storing a word and reading it back at the same offset yields the word.
pub proof fn lemma_word_round_trip(c: Seq<u8>, off: int, v: u32)
    requires
        0 <= off,
        off + 4 <= c.len(),
    ensures
        word_at(spliced(c, off, le_bytes(v)), off) == v,
{
    let w = spliced(c, off, le_bytes(v));
    assert(w[off] == le_bytes(v)[0]);
    assert(w[off + 1] == le_bytes(v)[1]);
    assert(w[off + 2] == le_bytes(v)[2]);
    assert(w[off + 3] == le_bytes(v)[3]);
    assert((v % 0x100) + ((v / 0x100) % 0x100) * 0x100 + ((v / 0x10000) % 0x100) * 0x10000 + ((v
        / 0x1000000) % 0x100) * 0x1000000 == v) by (bit_vector);
}

/// Whether the bitmap `m` records sector `sector` as erased.
pub open spec fn sector_bit(m: Seq<u8>, sector: int) -> bool {
    m[sector / 8] & (1u8 << ((sector % 8) as u8)) != 0
}

/// The two EEPROM banks: control fields in the first, the erase-state
/// bitmap in the second.
pub struct Nvm {
    bank1: Vec<u8>,
    bank2: Vec<u8>,
}

impl Nvm {
    /// The control bytes of the first bank.
    pub closed spec fn control(&self) -> Seq<u8> {
        self.bank1@
    }

    /// The erase-state bitmap bytes of the second bank.
    pub closed spec fn sector_map(&self) -> Seq<u8> {
        self.bank2@
    }

    /// Both banks have their full hardware size.
    pub closed spec fn wf(&self) -> bool {
        self.bank1@.len() == EEPROM_SIZE_IN_BYTES as int && self.bank2@.len()
            == EEPROM_SIZE_IN_BYTES as int
    }

    /// The sizes that well-formedness fixes for both banks.
    pub proof fn lemma_wf_len(&self)
        requires
            self.wf(),
        ensures
            self.control().len() == EEPROM_SIZE_IN_BYTES as int,
            self.sector_map().len() == EEPROM_SIZE_IN_BYTES as int,
    {
    }

    /// A store as it looks on first boot: both banks blank (all-1s).
    pub fn new() -> (r: Nvm)
        ensures
            r.wf(),
            r.control() == all_blank(EEPROM_SIZE_IN_BYTES as nat),
            r.sector_map() == all_blank(EEPROM_SIZE_IN_BYTES as nat),
    {
        let bank1 = blank_bank();
        let bank2 = blank_bank();
        Nvm { bank1, bank2 }
    }

    /// The little-endian word at `off` in the first bank.
    fn read_word(&self, off: usize) -> (r: u32)
        requires
            self.wf(),
            off + 4 <= EEPROM_SIZE_IN_BYTES,
        ensures
            r == word_at(self.control(), off as int),
    {
        let b0 = self.bank1[off] as u32;
        let b1 = self.bank1[off + 1] as u32;
        let b2 = self.bank1[off + 2] as u32;
        let b3 = self.bank1[off + 3] as u32;
        b0 + b1 * 0x100 + b2 * 0x10000 + b3 * 0x1000000
    }

    /// Store `v` little-endian at `off` in the first bank.
    fn write_word(&mut self, off: usize, v: u32)
        requires
            old(self).wf(),
            off + 4 <= EEPROM_SIZE_IN_BYTES,
        ensures
            final(self).wf(),
            final(self).control() == spliced(old(self).control(), off as int, le_bytes(v)),
            final(self).sector_map() == old(self).sector_map(),
    {
        self.bank1[off] = (v % 0x100) as u8;
        self.bank1[off + 1] = ((v / 0x100) % 0x100) as u8;
        self.bank1[off + 2] = ((v / 0x10000) % 0x100) as u8;
        self.bank1[off + 3] = ((v / 0x1000000) % 0x100) as u8;
        proof {
            assert(self.bank1@ =~= spliced(old(self).control(), off as int, le_bytes(v)));
        }
    }

    /// Persist the wake-up reason.
    pub fn save_wakeup_reason(&mut self, reason: WakeUpReasons)
        requires
            old(self).wf(),
        ensures
            final(self).wf(),
            final(self).control() == spliced(
                old(self).control(),
                WAKE_UP_REASON_OFFSET as int,
                le_bytes(reason.code_spec()),
            ),
            final(self).sector_map() == old(self).sector_map(),
    {
        let code = reason.code();
        self.write_word(WAKE_UP_REASON_OFFSET, code);
    }

    /// The persisted wake-up reason; an undecodable word resolves to
    /// `SomeOtherWeirdEvent` rather than an error.
    pub fn read_wakeup_reason(&self) -> (r: WakeUpReasons)
        requires
            self.wf(),
        ensures
            r == (match WakeUpReasons::from_int_spec(
                word_at(self.control(), WAKE_UP_REASON_OFFSET as int),
            ) {
                Some(reason) => reason,
                None => WakeUpReasons::SomeOtherWeirdEvent,
            }),
    {
        let val = self.read_word(WAKE_UP_REASON_OFFSET);
        match WakeUpReasons::from_int(val) {
            Some(reason) => reason,
            None => WakeUpReasons::SomeOtherWeirdEvent,
        }
    }

    /// Persist the last observed charge level.
    pub fn save_charge_level(&mut self, charge: VoltageLevels)
        requires
            old(self).wf(),
        ensures
            final(self).wf(),
            final(self).control() == spliced(
                old(self).control(),
                VOLTAGE_LEVEL_OFFSET as int,
                le_bytes(charge.code_spec()),
            ),
            final(self).sector_map() == old(self).sector_map(),
    {
        let code = charge.code();
        self.write_word(VOLTAGE_LEVEL_OFFSET, code);
    }

    /// The persisted charge level; an undecodable word resolves to
    /// `Critical`, the safe low assumption.
    pub fn read_charge_level(&self) -> (r: VoltageLevels)
        requires
            self.wf(),
        ensures
            r == (match VoltageLevels::from_int_spec(
                word_at(self.control(), VOLTAGE_LEVEL_OFFSET as int),
            ) {
                Some(level) => level,
                None => VoltageLevels::Critical,
            }),
    {
        let val = self.read_word(VOLTAGE_LEVEL_OFFSET);
        match VoltageLevels::from_int(val) {
            Some(level) => level,
            None => VoltageLevels::Critical,
        }
    }

    /// Persist the address of the content shown on the display.
    pub fn save_display_addr(&mut self, disp_addr: u32)
        requires
            old(self).wf(),
        ensures
            final(self).wf(),
            final(self).control() == spliced(
                old(self).control(),
                DISPLAY_ADDRESS_OFFSET as int,
                le_bytes(disp_addr),
            ),
            final(self).sector_map() == old(self).sector_map(),
    {
        self.write_word(DISPLAY_ADDRESS_OFFSET, disp_addr);
    }

    /// The persisted display address; `None` while the word is still blank.
    pub fn read_disp_addr(&self) -> (r: Option<u32>)
        requires
            self.wf(),
        ensures
            ({
                let v = word_at(self.control(), DISPLAY_ADDRESS_OFFSET as int);
                if v != 0xFFFF_FFFFu32 {
                    r == Some(v)
                } else {
                    r is None
                }
            }),
    {
        let val = self.read_word(DISPLAY_ADDRESS_OFFSET);
        if val != 0xFFFF_FFFF {
            Some(val)
        } else {
            None
        }
    }

    /// Persist the answer-pending flag.
    pub fn save_answer_pending(&mut self, answer_pending: bool)
        requires
            old(self).wf(),
        ensures
            final(self).wf(),
            final(self).control() == spliced(
                old(self).control(),
                ANSWER_PENDING_OFFSET as int,
                le_bytes(if answer_pending { 1u32 } else { 0u32 }),
            ),
            final(self).sector_map() == old(self).sector_map(),
    {
        let code: u32 = if answer_pending { 1 } else { 0 };
        self.write_word(ANSWER_PENDING_OFFSET, code);
    }

    /// The persisted answer-pending flag; any non-zero word counts as set.
    pub fn read_answer_pending(&self) -> (r: bool)
        requires
            self.wf(),
        ensures
            r == (word_at(self.control(), ANSWER_PENDING_OFFSET as int) != 0),
    {
        let val = self.read_word(ANSWER_PENDING_OFFSET);
        val != 0
    }

    /// Raw read of the first bank, the update protocol's EEPROM window.
    pub fn read_raw(&self, offset: u32, length: usize) -> (r: Result<Vec<u8>, Error>)
        requires
            self.wf(),
        ensures
            (offset + length > EEPROM_SIZE_IN_BYTES) <==> (r is Err && r->Err_0
                == Error::InvalidAddress),
            r is Ok ==> r->Ok_0@ == self.control().subrange(
                offset as int,
                offset as int + length as int,
            ),
    {
        if length as u64 > EEPROM_SIZE_IN_BYTES as u64 || offset as u64 > EEPROM_SIZE_IN_BYTES
            as u64 - length as u64 {
            return Err(Error::InvalidAddress);
        }
        let base: usize = offset as usize;
        let mut out: Vec<u8> = Vec::new();
        let mut i: usize = 0;
        while i < length
            invariant
                self.wf(),
                i <= length,
                base == offset,
                base + length <= EEPROM_SIZE_IN_BYTES,
                out@ == self.control().subrange(base as int, base as int + i as int),
            decreases length - i,
        {
            out.push(self.bank1[base + i]);
            proof {
                assert(out@ =~= self.control().subrange(base as int, base as int + i as int + 1));
            }
            i = i + 1;
        }
        Ok(out)
    }

    /// Whether the bitmap records `sector` as erased.
    pub fn read_sector_is_erased(&self, sector: u32) -> (r: Result<bool, Error>)
        requires
            self.wf(),
        ensures
            (sector > FLASH_NUM_SECTORS) <==> (r is Err && r->Err_0 == Error::InvalidAddress),
            r is Ok ==> r->Ok_0 == sector_bit(self.sector_map(), sector as int),
    {
        if sector > FLASH_NUM_SECTORS {
            return Err(Error::InvalidAddress);
        }
        let byte = self.bank2[(sector / 8) as usize];
        let bit: u8 = (sector % 8) as u8;
        Ok(byte & (1u8 << bit) != 0)
    }

    /// Record in the bitmap whether `sector` is erased, leaving every other
    /// sector's record unchanged.
    pub fn save_sector_is_erased(&mut self, sector: u32, is_erased: bool) -> (r: Result<
        (),
        Error,
    >)
        requires
            old(self).wf(),
        ensures
            final(self).wf(),
            final(self).control() == old(self).control(),
            (sector > FLASH_NUM_SECTORS) <==> (r is Err && r->Err_0 == Error::InvalidAddress),
            r is Err ==> final(self).sector_map() == old(self).sector_map(),
            r is Ok ==> sector_bit(final(self).sector_map(), sector as int) == is_erased,
            r is Ok ==> forall|s2: int|
                0 <= s2 <= FLASH_NUM_SECTORS && s2 != sector ==> sector_bit(
                    final(self).sector_map(),
                    s2,
                ) == sector_bit(old(self).sector_map(), s2),
    {
        if sector > FLASH_NUM_SECTORS {
            return Err(Error::InvalidAddress);
        }
        let idx: usize = (sector / 8) as usize;
        let bit: u8 = (sector % 8) as u8;
        let val = self.bank2[idx];
        let new_val: u8 = if is_erased {
            val | (1u8 << bit)
        } else {
            val & !(1u8 << bit)
        };
        self.bank2[idx] = new_val;
        proof {
            let m0 = old(self).sector_map();
            let m1 = self.sector_map();
            let s = sector as int;
            if is_erased {
                assert((val | (1u8 << bit)) & (1u8 << bit) != 0) by (bit_vector)
                    requires
                        bit < 8,
                ;
            } else {
                assert((val & !(1u8 << bit)) & (1u8 << bit) == 0) by (bit_vector)
                    requires
                        bit < 8,
                ;
            }
            assert forall|s2: int|
                0 <= s2 <= FLASH_NUM_SECTORS && s2 != s implies sector_bit(m1, s2) == sector_bit(
                m0,
                s2,
            ) by {
                if s2 / 8 == s / 8 {
                    lemma_fundamental_div_mod(s2, 8);
                    lemma_fundamental_div_mod(s, 8);
                    let bit2: u8 = (s2 % 8) as u8;
                    assert((val | (1u8 << bit)) & (1u8 << bit2) == val & (1u8 << bit2))
                        by (bit_vector)
                        requires
                            bit < 8,
                            bit2 < 8,
                            bit != bit2,
                    ;
                    assert((val & !(1u8 << bit)) & (1u8 << bit2) == val & (1u8 << bit2))
                        by (bit_vector)
                        requires
                            bit < 8,
                            bit2 < 8,
                            bit != bit2,
                    ;
                }
            }
        }
        Ok(())
    }

    /// Mark every sector of the chip as erased, as after a full-chip erase.
    pub fn save_all_sectors_erased(&mut self) -> (r: Result<(), Error>)
        requires
            old(self).wf(),
        ensures
            final(self).wf(),
            final(self).control() == old(self).control(),
            r is Ok,
            forall|s: int| 0 <= s < FLASH_NUM_SECTORS ==> sector_bit(final(self).sector_map(), s),
            forall|k: int|
                FLASH_NUM_SECTORS / 8 <= k < EEPROM_SIZE_IN_BYTES ==> final(self).sector_map()[k]
                    == old(self).sector_map()[k],
    {
        let map_bytes: usize = (FLASH_NUM_SECTORS / 8) as usize;
        let mut i: usize = 0;
        while i < map_bytes
            invariant
                self.wf(),
                self.control() == old(self).control(),
                i <= map_bytes,
                map_bytes == FLASH_NUM_SECTORS / 8,
                forall|k: int| 0 <= k < i ==> self.bank2@[k] == 0xFFu8,
                forall|k: int|
                    i <= k < EEPROM_SIZE_IN_BYTES ==> self.bank2@[k] == old(self).bank2@[k],
            decreases map_bytes - i,
        {
            self.bank2[i] = 0xFF;
            i = i + 1;
        }
        proof {
            assert forall|s: int| 0 <= s < FLASH_NUM_SECTORS implies sector_bit(
                self.sector_map(),
                s,
            ) by {
                lemma_fundamental_div_mod(s, 8);
                let bit: u8 = (s % 8) as u8;
                assert(0xFFu8 & (1u8 << bit) != 0) by (bit_vector)
                    requires
                        bit < 8,
                ;
            }
        }
        Ok(())
    }
}

/// One blank (all-1s) EEPROM bank.
fn blank_bank() -> (r: Vec<u8>)
    ensures
        r@ == all_blank(EEPROM_SIZE_IN_BYTES as nat),
{
    let mut bank: Vec<u8> = Vec::new();
    let mut i: u32 = 0;
    while i < EEPROM_SIZE_IN_BYTES
        invariant
            i <= EEPROM_SIZE_IN_BYTES,
            bank@.len() == i,
            forall|k: int| 0 <= k < i ==> bank@[k] == 0xFFu8,
        decreases EEPROM_SIZE_IN_BYTES - i,
    {
        bank.push(0xFF);
        i = i + 1;
    }
    proof {
        assert(bank@ =~= all_blank(EEPROM_SIZE_IN_BYTES as nat));
    }
    bank
}

} // verus!
