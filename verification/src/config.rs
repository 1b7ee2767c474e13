//! The content-layout record stored in the last flash sector: page size,
//! page count, and how questions and answers are rendered.

use vstd::prelude::*;

use crate::chip::FlashChip;
use crate::errors::StorageError;
use crate::flash::SpiFlash;
use crate::nvm::word_at;

verus! {

/// Where the layout record lives in flash.
pub const CONFIG_SECTOR_ADDRESS: u32 = 0xff_f000;

/// The magic word that marks a valid record.
pub const CONFIG_MAGIC_ID: u32 = 0x23571113;

/// Offset of the magic word within the record.
pub const MAGIC_ID_OFFSET: usize = 0x0;

/// Offset of the page-size half-word.
pub const PAGE_SIZE_OFFSET: usize = 0x4;

/// Offset of the page-count word.
pub const NUM_PAGES_OFFSET: usize = 0x6;

/// Offset of the question-type byte.
pub const TYPE_Q_OFFSET: usize = 0xa;

/// Offset of the answer-type byte.
pub const TYPE_A_OFFSET: usize = 0xb;

/// Total size of the record in bytes.
pub const CONFIG_SIZE: usize = 0xc;

/// How a question or answer page is rendered.
#[derive(Clone, Copy, Debug, PartialEq, Eq, Structural)]
pub enum QAType {
    MonospaceText,
    Text,
    RawImage,
}

/// Why a layout record was rejected.
#[derive(Clone, Copy, Debug, PartialEq, Eq, Structural)]
pub enum FlashConfigError {
    InvalidFlashConfigMagicId,
    InvalidQAType,
    FailedToReadFlash,
}

impl QAType {
    /// The byte a type is stored as.
    pub open spec fn code_spec(self) -> u8 {
        match self {
            QAType::MonospaceText => 0,
            QAType::Text => 1,
            QAType::RawImage => 2,
        }
    }

    /// The byte a type is stored as.
    pub fn code(self) -> (r: u8)
        ensures
            r == self.code_spec(),
    {
        match self {
            QAType::MonospaceText => 0,
            QAType::Text => 1,
            QAType::RawImage => 2,
        }
    }

    /// Which type a stored byte decodes to, if any.
    pub open spec fn from_u8_spec(v: u8) -> Option<QAType> {
        if v == 0 {
            Some(QAType::MonospaceText)
        } else if v == 1 {
            Some(QAType::Text)
        } else if v == 2 {
            Some(QAType::RawImage)
        } else {
            None
        }
    }

    /// Decode a stored byte; anything out of range is an invalid type.
    pub fn from_u8(v: u8) -> (r: Result<QAType, FlashConfigError>)
        ensures
            match Self::from_u8_spec(v) {
                Some(t) => r == Ok::<QAType, FlashConfigError>(t),
                None => r == Err::<QAType, FlashConfigError>(FlashConfigError::InvalidQAType),
            },
    {
        if v == 0 {
            Ok(QAType::MonospaceText)
        } else if v == 1 {
            Ok(QAType::Text)
        } else if v == 2 {
            Ok(QAType::RawImage)
        } else {
            Err(FlashConfigError::InvalidQAType)
        }
    }

    /// A human-readable name for the type.
    pub fn label(self) -> (r: &'static str)
        ensures
            self == QAType::MonospaceText ==> r@ == "monospace"@,
            self == QAType::Text ==> r@ == "text"@,
            self == QAType::RawImage ==> r@ == "image"@,
    {
        match self {
            QAType::MonospaceText => "monospace",
            QAType::Text => "text",
            QAType::RawImage => "image",
        }
    }
}

impl From<StorageError> for FlashConfigError {
    /// Any storage failure while fetching the record reads as one thing: the
    /// flash could not be read.
    fn from(_e: StorageError) -> (r: FlashConfigError) {
        FlashConfigError::FailedToReadFlash
    }
}

impl vstd::std_specs::convert::FromSpecImpl<StorageError> for FlashConfigError {
    open spec fn obeys_from_spec() -> bool {
        true
    }

    open spec fn from_spec(_e: StorageError) -> FlashConfigError {
        FlashConfigError::FailedToReadFlash
    }
}

/// The little-endian 16-bit half-word at `off` within `c`.
pub open spec fn half_word_at(c: Seq<u8>, off: int) -> u16 {
    ((c[off] as int) + (c[off + 1] as int) * 0x100) as u16
}

/// The content layout: how big a page is, how many there are, and how the
/// question and answer of each page are rendered.
#[derive(Clone, Copy, Debug, PartialEq, Eq, Structural)]
pub struct FlashConfig {
    /// Bytes per content page.
    pub page_size: u16,
    /// How many pages the content holds.
    pub num_pages: u32,
    /// How a question page is rendered.
    pub q_type: QAType,
    /// How an answer page is rendered.
    pub a_type: QAType,
}

impl Default for FlashConfig {
    /// A safe fallback: at worst the display shows the noise at address
    /// zero.
    fn default() -> (r: FlashConfig)
        ensures
            r.page_size == 8192,
            r.num_pages == 1,
            r.q_type == QAType::RawImage,
            r.a_type == QAType::RawImage,
    {
        FlashConfig { page_size: 8192, num_pages: 1, q_type: QAType::RawImage, a_type: QAType::RawImage }
    }
}

/// What a record's bytes decode to: the magic word is checked first, then
/// the two type bytes.
pub open spec fn parse_spec(buf: Seq<u8>) -> Result<FlashConfig, FlashConfigError> {
    if word_at(buf, MAGIC_ID_OFFSET as int) != CONFIG_MAGIC_ID {
        Err(FlashConfigError::InvalidFlashConfigMagicId)
    } else {
        match QAType::from_u8_spec(buf[TYPE_Q_OFFSET as int]) {
            None => Err(FlashConfigError::InvalidQAType),
            Some(q_type) => match QAType::from_u8_spec(buf[TYPE_A_OFFSET as int]) {
                None => Err(FlashConfigError::InvalidQAType),
                Some(a_type) => Ok(
                    FlashConfig {
                        page_size: half_word_at(buf, PAGE_SIZE_OFFSET as int),
                        num_pages: word_at(buf, NUM_PAGES_OFFSET as int),
                        q_type,
                        a_type,
                    },
                ),
            },
        }
    }
}

impl FlashConfig {
    /// Decode a layout record from its raw bytes.
    pub fn parse(buf: &[u8]) -> (r: Result<FlashConfig, FlashConfigError>)
        requires
            buf@.len() >= CONFIG_SIZE,
        ensures
            r == parse_spec(buf@),
    {
        let magic: u32 = (buf[0] as u32) + (buf[1] as u32) * 0x100 + (buf[2] as u32) * 0x10000 + (
        buf[3] as u32) * 0x1000000;
        if magic != CONFIG_MAGIC_ID {
            return Err(FlashConfigError::InvalidFlashConfigMagicId);
        }
        let page_size: u16 = (buf[4] as u16) + (buf[5] as u16) * 0x100;
        let num_pages: u32 = (buf[6] as u32) + (buf[7] as u32) * 0x100 + (buf[8] as u32) * 0x10000
            + (buf[9] as u32) * 0x1000000;
        let q_type = match QAType::from_u8(buf[10]) {
            Ok(t) => t,
            Err(e) => {
                return Err(e);
            },
        };
        let a_type = match QAType::from_u8(buf[11]) {
            Ok(t) => t,
            Err(e) => {
                return Err(e);
            },
        };
        Ok(FlashConfig { page_size, num_pages, q_type, a_type })
    }

    /// Fetch and decode the layout record from its fixed flash address.
    pub fn from_flash<C: FlashChip>(flash: &mut SpiFlash<C>) -> (r: Result<
        FlashConfig,
        FlashConfigError,
    >)
        requires
            old(flash).wf(),
        ensures
            *final(flash) == *old(flash),
            CONFIG_SECTOR_ADDRESS + CONFIG_SIZE > old(flash).cap() ==> r == Err::<
                FlashConfig,
                FlashConfigError,
            >(FlashConfigError::FailedToReadFlash),
            old(flash).reliable() && CONFIG_SECTOR_ADDRESS + CONFIG_SIZE <= old(flash).cap()
                ==> r == parse_spec(
                old(flash).contents().subrange(
                    CONFIG_SECTOR_ADDRESS as int,
                    CONFIG_SECTOR_ADDRESS as int + CONFIG_SIZE as int,
                ),
            ),
            !(r is Err && r->Err_0 == FlashConfigError::FailedToReadFlash) ==> r == parse_spec(
                old(flash).contents().subrange(
                    CONFIG_SECTOR_ADDRESS as int,
                    CONFIG_SECTOR_ADDRESS as int + CONFIG_SIZE as int,
                ),
            ),
    {
        match flash.read_bytes(CONFIG_SECTOR_ADDRESS, CONFIG_SIZE) {
            Ok(buf) => FlashConfig::parse(buf.as_slice()),
            Err(_) => Err(FlashConfigError::FailedToReadFlash),
        }
    }
}

} // verus!
