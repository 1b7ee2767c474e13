use lightnote::nvm::{Error, Nvm, WakeUpReasons};
use lightnote::voltage::VoltageLevels;

#[test]
fn first_boot_defaults() {
    let nvm = Nvm::new();
    assert_eq!(nvm.read_wakeup_reason(), WakeUpReasons::SomeOtherWeirdEvent);
    assert_eq!(nvm.read_charge_level(), VoltageLevels::Critical);
    assert_eq!(nvm.read_disp_addr(), None);
    // A blank flag word is all-1s, which counts as set.
    assert_eq!(nvm.read_answer_pending(), true);
}

#[test]
fn wakeup_reason_round_trip() {
    let reasons = [
        WakeUpReasons::ButtonPress,
        WakeUpReasons::RtcTimeout,
        WakeUpReasons::ChargingStartedEvent,
        WakeUpReasons::AccelerometerEvent,
        WakeUpReasons::SomeOtherWeirdEvent,
    ];
    let mut nvm = Nvm::new();
    for reason in reasons {
        nvm.save_wakeup_reason(reason);
        assert_eq!(nvm.read_wakeup_reason(), reason);
    }
}

#[test]
fn wakeup_codes_decode() {
    assert_eq!(WakeUpReasons::from_int(1), Some(WakeUpReasons::ButtonPress));
    assert_eq!(WakeUpReasons::from_int(2), Some(WakeUpReasons::RtcTimeout));
    assert_eq!(WakeUpReasons::from_int(3), Some(WakeUpReasons::ChargingStartedEvent));
    assert_eq!(WakeUpReasons::from_int(4), None);
    assert_eq!(WakeUpReasons::from_int(5), Some(WakeUpReasons::AccelerometerEvent));
    assert_eq!(WakeUpReasons::from_int(6), Some(WakeUpReasons::SomeOtherWeirdEvent));
    assert_eq!(WakeUpReasons::from_int(0), None);
}

#[test]
fn charge_level_round_trip() {
    let mut nvm = Nvm::new();
    nvm.save_charge_level(VoltageLevels::Full);
    assert_eq!(nvm.read_charge_level(), VoltageLevels::Full);
    nvm.save_charge_level(VoltageLevels::Dead);
    assert_eq!(nvm.read_charge_level(), VoltageLevels::Dead);
}

#[test]
fn display_address_round_trip() {
    let mut nvm = Nvm::new();
    nvm.save_display_addr(0x1234_5678);
    assert_eq!(nvm.read_disp_addr(), Some(0x1234_5678));
    // The blank word stays "unset".
    nvm.save_display_addr(0xFFFF_FFFF);
    assert_eq!(nvm.read_disp_addr(), None);
}

#[test]
fn answer_pending_round_trip() {
    let mut nvm = Nvm::new();
    nvm.save_answer_pending(false);
    assert_eq!(nvm.read_answer_pending(), false);
    nvm.save_answer_pending(true);
    assert_eq!(nvm.read_answer_pending(), true);
}

#[test]
fn raw_window_is_little_endian() {
    let mut nvm = Nvm::new();
    nvm.save_display_addr(0x0403_0201);
    let bytes = nvm.read_raw(0xc, 4).unwrap();
    assert_eq!(bytes, vec![0x01, 0x02, 0x03, 0x04]);
}

#[test]
fn raw_window_bounds() {
    let nvm = Nvm::new();
    assert_eq!(nvm.read_raw(2044, 4).unwrap().len(), 4);
    assert_eq!(nvm.read_raw(2045, 4), Err(Error::InvalidAddress));
    assert_eq!(nvm.read_raw(0, 2049), Err(Error::InvalidAddress));
}

#[test]
fn sector_bitmap_round_trip() {
    let mut nvm = Nvm::new();
    // A blank bank is all-1s: every sector starts marked erased.
    assert_eq!(nvm.read_sector_is_erased(10).unwrap(), true);
    nvm.save_sector_is_erased(10, false).unwrap();
    assert_eq!(nvm.read_sector_is_erased(10).unwrap(), false);
    // Neighbouring records are untouched, within the same byte too.
    assert_eq!(nvm.read_sector_is_erased(9).unwrap(), true);
    assert_eq!(nvm.read_sector_is_erased(11).unwrap(), true);
    nvm.save_sector_is_erased(10, true).unwrap();
    assert_eq!(nvm.read_sector_is_erased(10).unwrap(), true);
}

#[test]
fn sector_bitmap_full_reset() {
    let mut nvm = Nvm::new();
    nvm.save_sector_is_erased(0, false).unwrap();
    nvm.save_sector_is_erased(4095, false).unwrap();
    nvm.save_all_sectors_erased().unwrap();
    assert_eq!(nvm.read_sector_is_erased(0).unwrap(), true);
    assert_eq!(nvm.read_sector_is_erased(4095).unwrap(), true);
}

#[test]
fn sector_bitmap_bounds() {
    let mut nvm = Nvm::new();
    assert_eq!(nvm.read_sector_is_erased(4097), Err(Error::InvalidAddress));
    assert_eq!(nvm.save_sector_is_erased(4097, true), Err(Error::InvalidAddress));
}
