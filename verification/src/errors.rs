//! Error kinds reported by the storage stack, and the board-level error codes
//! blinked out on the LEDs.

use vstd::prelude::*;

verus! {

/// What can go wrong in the flash translation layer and the address
/// multiplexer.
///
/// `HardwareIo` and `VerificationMismatch` are never retried internally;
/// `InvalidAddress` and `UnsupportedLength` are rejected before any flash
/// access is attempted.
#[derive(Clone, Copy, Debug, PartialEq, Eq, Structural)]
pub enum StorageError {
    /// A flash or EEPROM transaction failed at the bus level.
    HardwareIo,
    /// A sector or chip erase did not complete.
    EraseFailure,
    /// A post-write read-back differed from the intended content.
    VerificationMismatch,
    /// The address lies outside every defined region, or out of bounds.
    InvalidAddress,
    /// The request exceeds the maximum transfer size.
    UnsupportedLength,
}

/// Device-level error codes; each one is blinked out on two LEDs.
#[derive(Clone, Copy, Debug, PartialEq, Eq, Structural)]
pub enum LightNoteErrors {
    FailedToVerifyAccelConfig,
    InvalidFlashConfigMagicId,
    InvalidQAType,
    FailedToReadFlashID,
    AwakenedByUnexpectedEvent,
    FailedToRenderText,
    FailedToRenderImage,
    FailedToReadFromFlash,
}

impl LightNoteErrors {
    /// The numeric code assigned to each error.
    pub open spec fn code_spec(self) -> u8 {
        match self {
            LightNoteErrors::FailedToVerifyAccelConfig => 12,
            LightNoteErrors::InvalidFlashConfigMagicId => 32,
            LightNoteErrors::InvalidQAType => 33,
            LightNoteErrors::FailedToReadFlashID => 37,
            LightNoteErrors::AwakenedByUnexpectedEvent => 41,
            LightNoteErrors::FailedToRenderText => 44,
            LightNoteErrors::FailedToRenderImage => 45,
            LightNoteErrors::FailedToReadFromFlash => 73,
        }
    }

    /// The numeric code of this error.
    pub fn code(self) -> (r: u8)
        ensures
            r == self.code_spec(),
    {
        match self {
            LightNoteErrors::FailedToVerifyAccelConfig => 12,
            LightNoteErrors::InvalidFlashConfigMagicId => 32,
            LightNoteErrors::InvalidQAType => 33,
            LightNoteErrors::FailedToReadFlashID => 37,
            LightNoteErrors::AwakenedByUnexpectedEvent => 41,
            LightNoteErrors::FailedToRenderText => 44,
            LightNoteErrors::FailedToRenderImage => 45,
            LightNoteErrors::FailedToReadFromFlash => 73,
        }
    }
}

impl From<crate::nvm::Error> for StorageError {
    /// An out-of-bounds EEPROM access is an invalid address to the storage
    /// stack.
    fn from(e: crate::nvm::Error) -> (r: StorageError) {
        match e {
            crate::nvm::Error::InvalidAddress => StorageError::InvalidAddress,
        }
    }
}

impl vstd::std_specs::convert::FromSpecImpl<crate::nvm::Error> for StorageError {
    open spec fn obeys_from_spec() -> bool {
        true
    }

    open spec fn from_spec(e: crate::nvm::Error) -> StorageError {
        StorageError::InvalidAddress
    }
}

impl From<crate::config::FlashConfigError> for LightNoteErrors {
    /// Each layout-record failure has its own blink code.
    fn from(fc_error: crate::config::FlashConfigError) -> (r: LightNoteErrors) {
        match fc_error {
            crate::config::FlashConfigError::InvalidFlashConfigMagicId => LightNoteErrors::InvalidFlashConfigMagicId,
            crate::config::FlashConfigError::InvalidQAType => LightNoteErrors::InvalidQAType,
            crate::config::FlashConfigError::FailedToReadFlash => LightNoteErrors::FailedToReadFromFlash,
        }
    }
}

impl vstd::std_specs::convert::FromSpecImpl<crate::config::FlashConfigError> for LightNoteErrors {
    open spec fn obeys_from_spec() -> bool {
        true
    }

    open spec fn from_spec(fc_error: crate::config::FlashConfigError) -> LightNoteErrors {
        match fc_error {
            crate::config::FlashConfigError::InvalidFlashConfigMagicId => LightNoteErrors::InvalidFlashConfigMagicId,
            crate::config::FlashConfigError::InvalidQAType => LightNoteErrors::InvalidQAType,
            crate::config::FlashConfigError::FailedToReadFlash => LightNoteErrors::FailedToReadFromFlash,
        }
    }
}

/// How an error code is blinked out: `code == 50*fifties + 10*tens + 5*fives
/// + ones`.  The LED driver emits long flashes for the `fifties` and `fives`
/// counts and short ones for `tens` and `ones`.
pub fn blink_pattern(code: u8) -> (r: (u8, u8, u8, u8))
    ensures
        code == 50 * r.0 + 10 * r.1 + 5 * r.2 + r.3,
        r.1 < 5,
        r.2 < 2,
        r.3 < 5,
{
    let tens_total: u8 = code / 10;
    let fifties: u8 = tens_total / 5;
    let tens: u8 = tens_total % 5;
    let ones_total: u8 = code % 10;
    let fives: u8 = ones_total / 5;
    let ones: u8 = ones_total % 5;
    (fifties, tens, fives, ones)
}

} // verus!
