use lightnote::config::{FlashConfig, FlashConfigError, QAType, CONFIG_SECTOR_ADDRESS};
use lightnote::errors::{blink_pattern, LightNoteErrors, StorageError};
use lightnote::flash::SpiFlash;
use lightnote::mem_flash::MemFlash;
use lightnote::usb::serial_string_from_device_id;
use lightnote::voltage::{
    charge_to_show_for, charging_levels, divider_voltage, vdd_from_calibration, VoltageLevels,
};

#[test]
fn blink_pattern_examples() {
    assert_eq!(blink_pattern(73), (1, 2, 0, 3));
    assert_eq!(blink_pattern(12), (0, 1, 0, 2));
    assert_eq!(blink_pattern(45), (0, 4, 1, 0));
    assert_eq!(blink_pattern(0), (0, 0, 0, 0));
    assert_eq!(blink_pattern(255), (5, 0, 1, 0));
}

#[test]
fn error_codes_match_blink_table() {
    assert_eq!(LightNoteErrors::FailedToVerifyAccelConfig.code(), 12);
    assert_eq!(LightNoteErrors::InvalidFlashConfigMagicId.code(), 32);
    assert_eq!(LightNoteErrors::InvalidQAType.code(), 33);
    assert_eq!(LightNoteErrors::FailedToReadFlashID.code(), 37);
    assert_eq!(LightNoteErrors::AwakenedByUnexpectedEvent.code(), 41);
    assert_eq!(LightNoteErrors::FailedToRenderText.code(), 44);
    assert_eq!(LightNoteErrors::FailedToRenderImage.code(), 45);
    assert_eq!(LightNoteErrors::FailedToReadFromFlash.code(), 73);
}

#[test]
fn error_conversions() {
    assert_eq!(
        StorageError::from(lightnote::nvm::Error::InvalidAddress),
        StorageError::InvalidAddress,
    );
    assert_eq!(
        LightNoteErrors::from(FlashConfigError::InvalidFlashConfigMagicId),
        LightNoteErrors::InvalidFlashConfigMagicId,
    );
    assert_eq!(
        LightNoteErrors::from(FlashConfigError::InvalidQAType),
        LightNoteErrors::InvalidQAType,
    );
    assert_eq!(
        LightNoteErrors::from(FlashConfigError::FailedToReadFlash),
        LightNoteErrors::FailedToReadFromFlash,
    );
    assert_eq!(
        FlashConfigError::from(StorageError::HardwareIo),
        FlashConfigError::FailedToReadFlash,
    );
}

#[test]
fn charging_level_thresholds() {
    assert_eq!(charging_levels(0), VoltageLevels::Dead);
    assert_eq!(charging_levels(2700), VoltageLevels::Dead);
    assert_eq!(charging_levels(2701), VoltageLevels::Critical);
    assert_eq!(charging_levels(3000), VoltageLevels::Critical);
    assert_eq!(charging_levels(3001), VoltageLevels::VeryLow);
    assert_eq!(charging_levels(3500), VoltageLevels::VeryLow);
    assert_eq!(charging_levels(3501), VoltageLevels::Low);
    assert_eq!(charging_levels(4000), VoltageLevels::Low);
    assert_eq!(charging_levels(4001), VoltageLevels::Medium);
    assert_eq!(charging_levels(4500), VoltageLevels::Medium);
    assert_eq!(charging_levels(4501), VoltageLevels::High);
    assert_eq!(charging_levels(5000), VoltageLevels::High);
    assert_eq!(charging_levels(5001), VoltageLevels::Full);
    assert_eq!(charging_levels(u16::MAX), VoltageLevels::Full);
}

#[test]
fn charge_indicator_only_when_low() {
    assert_eq!(charge_to_show_for(VoltageLevels::Dead), Some(VoltageLevels::Dead));
    assert_eq!(charge_to_show_for(VoltageLevels::Low), Some(VoltageLevels::Low));
    assert_eq!(charge_to_show_for(VoltageLevels::Medium), None);
    assert_eq!(charge_to_show_for(VoltageLevels::Full), None);
}

#[test]
fn voltage_arithmetic() {
    // A reading equal to the calibration value means the supply sits at
    // the calibration voltage.
    assert_eq!(vdd_from_calibration(1672, 1672), 3000);
    assert_eq!(vdd_from_calibration(1672, 3344), 1500);
    assert_eq!(divider_voltage(2048, 3000), 3000);
    assert_eq!(divider_voltage(0, 3000), 0);
    assert_eq!(divider_voltage(4095, 3000), 6000);
}

#[test]
fn voltage_labels() {
    assert_eq!(VoltageLevels::Full.label(), "Full");
    assert_eq!(VoltageLevels::Dead.label(), "Dead");
    assert_eq!(VoltageLevels::from_int(6), Some(VoltageLevels::Full));
    assert_eq!(VoltageLevels::from_int(7), None);
}

fn config_record() -> Vec<u8> {
    vec![0x13, 0x11, 0x57, 0x23, 0x00, 0x20, 100, 0, 0, 0, 2, 1]
}

#[test]
fn config_parses_valid_record() {
    let cfg = FlashConfig::parse(&config_record()).unwrap();
    assert_eq!(cfg.page_size, 8192);
    assert_eq!(cfg.num_pages, 100);
    assert_eq!(cfg.q_type, QAType::RawImage);
    assert_eq!(cfg.a_type, QAType::Text);
}

#[test]
fn config_rejects_bad_magic() {
    let mut rec = config_record();
    rec[0] = 0x14;
    assert_eq!(FlashConfig::parse(&rec), Err(FlashConfigError::InvalidFlashConfigMagicId));
}

#[test]
fn config_rejects_bad_type() {
    let mut rec = config_record();
    rec[10] = 7;
    assert_eq!(FlashConfig::parse(&rec), Err(FlashConfigError::InvalidQAType));
    let mut rec = config_record();
    rec[11] = 3;
    assert_eq!(FlashConfig::parse(&rec), Err(FlashConfigError::InvalidQAType));
}

#[test]
fn config_default_is_safe_fallback() {
    let cfg = FlashConfig::default();
    assert_eq!(cfg.page_size, 8192);
    assert_eq!(cfg.num_pages, 1);
    assert_eq!(cfg.q_type, QAType::RawImage);
    assert_eq!(cfg.a_type, QAType::RawImage);
}

#[test]
fn config_from_flash_round_trip() {
    let chip = MemFlash::blank(16 * 1024 * 1024);
    let mut flash = SpiFlash::new(chip, 4096);
    flash.program_bytes(CONFIG_SECTOR_ADDRESS, &config_record()).unwrap();
    let cfg = FlashConfig::from_flash(&mut flash).unwrap();
    assert_eq!(cfg.num_pages, 100);
}

#[test]
fn config_from_small_flash_fails_to_read() {
    let chip = MemFlash::blank(8192);
    let mut flash = SpiFlash::new(chip, 512);
    assert_eq!(
        FlashConfig::from_flash(&mut flash),
        Err(FlashConfigError::FailedToReadFlash),
    );
}

#[test]
fn qa_type_labels_and_codes() {
    assert_eq!(QAType::MonospaceText.label(), "monospace");
    assert_eq!(QAType::Text.label(), "text");
    assert_eq!(QAType::RawImage.label(), "image");
    assert_eq!(QAType::from_u8(0), Ok(QAType::MonospaceText));
    assert_eq!(QAType::from_u8(3), Err(FlashConfigError::InvalidQAType));
}

#[test]
fn serial_is_lowercase_hex_of_id() {
    let id = [0x01u8, 0xAB, 0xFF, 0x00, 0x12, 0x34, 0x56, 0x78, 0x9A, 0xBC, 0xDE, 0xF0];
    let serial = serial_string_from_device_id(&id);
    assert_eq!(serial, b"01abff00123456789abcdef0".to_vec());
    assert_eq!(serial_string_from_device_id(&[]), Vec::<u8>::new());
}
