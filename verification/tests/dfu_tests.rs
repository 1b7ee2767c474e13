use lightnote::dfu::{
    region_of, DfuMemory, VirtualAddressRegion, CONTROL_REGION_BASE, EEPROM_REGION_BASE,
    VERSION_REGION_BASE,
};
use lightnote::errors::StorageError;
use lightnote::flash::SpiFlash;
use lightnote::mem_flash::MemFlash;
use lightnote::nvm::Nvm;

const SECTOR: u32 = 4096;

fn device_with(preload: Vec<u8>) -> DfuMemory<MemFlash> {
    let chip = MemFlash::from_vec(preload);
    DfuMemory::new(SpiFlash::new(chip, 512), Nvm::new())
}

fn blank_device(sectors: u32) -> DfuMemory<MemFlash> {
    let chip = MemFlash::blank(sectors * SECTOR);
    DfuMemory::new(SpiFlash::new(chip, 512), Nvm::new())
}

#[test]
fn version_read_returns_build_identifier() {
    let mut dev = blank_device(3);
    let id = dev.read(VERSION_REGION_BASE, 16).unwrap();
    assert_eq!(id, b"lightnote-fw-1.0".to_vec());
}

#[test]
fn version_read_ignores_flash_content() {
    let mut dirty = vec![0xABu8; 2 * SECTOR as usize];
    dirty[0] = 0;
    let mut dev_a = device_with(dirty);
    let mut dev_b = blank_device(2);
    assert_eq!(
        dev_a.read(VERSION_REGION_BASE, 16).unwrap(),
        dev_b.read(VERSION_REGION_BASE, 16).unwrap(),
    );
}

#[test]
fn version_read_pads_and_truncates() {
    let mut dev = blank_device(1);
    let long = dev.read(VERSION_REGION_BASE, 20).unwrap();
    assert_eq!(&long[..16], b"lightnote-fw-1.0");
    assert_eq!(&long[16..], &[0, 0, 0, 0]);
    let short = dev.read(VERSION_REGION_BASE, 9).unwrap();
    assert_eq!(short, b"lightnote".to_vec());
    let tail = dev.read(VERSION_REGION_BASE + 10, 6).unwrap();
    assert_eq!(tail, b"fw-1.0".to_vec());
}

#[test]
fn control_program_sets_display_address_and_clears_pending() {
    let mut dev = blank_device(1);
    dev.nvm.save_answer_pending(true);
    dev.program(CONTROL_REGION_BASE, &[0x00, 0x10, 0x00, 0x00]).unwrap();
    assert_eq!(dev.nvm.read_disp_addr(), Some(0x1000));
    assert_eq!(dev.nvm.read_answer_pending(), false);
}

#[test]
fn control_program_wrong_length_rejected() {
    let mut dev = blank_device(1);
    assert_eq!(
        dev.program(CONTROL_REGION_BASE, &[0x00, 0x10, 0x00]),
        Err(StorageError::UnsupportedLength),
    );
}

#[test]
fn control_read_not_supported() {
    let mut dev = blank_device(1);
    assert_eq!(dev.read(CONTROL_REGION_BASE, 4), Err(StorageError::InvalidAddress));
}

#[test]
fn eeprom_window_reads_control_bytes() {
    let chip = MemFlash::blank(SECTOR);
    let mut nvm = Nvm::new();
    nvm.save_charge_level(lightnote::voltage::VoltageLevels::High);
    let mut dev = DfuMemory::new(SpiFlash::new(chip, 512), nvm);
    let bytes = dev.read(EEPROM_REGION_BASE + 8, 4).unwrap();
    assert_eq!(bytes, vec![5, 0, 0, 0]);
}

#[test]
fn eeprom_window_is_read_only() {
    let mut dev = blank_device(1);
    assert_eq!(
        dev.program(EEPROM_REGION_BASE, &[0, 0, 0, 0]),
        Err(StorageError::InvalidAddress),
    );
}

#[test]
fn version_region_is_read_only() {
    let mut dev = blank_device(1);
    assert_eq!(
        dev.program(VERSION_REGION_BASE, &[1, 2, 3, 4]),
        Err(StorageError::InvalidAddress),
    );
}

#[test]
fn flash_region_round_trip() {
    let mut dev = blank_device(2);
    let data: Vec<u8> = (0..64).collect();
    dev.program(0x100, &data).unwrap();
    assert_eq!(dev.read(0x100, 64).unwrap(), data);
}

#[test]
fn erase_aligned_erases_unit() {
    let preload = vec![0x5Au8; 2 * SECTOR as usize];
    let mut dev = device_with(preload);
    dev.erase(SECTOR).unwrap();
    assert_eq!(dev.read(SECTOR, 4).unwrap(), vec![0xFF; 4]);
    // The other unit keeps its content.
    assert_eq!(dev.read(0, 4).unwrap(), vec![0x5A; 4]);
}

#[test]
fn erase_misaligned_is_silent_noop() {
    let preload = vec![0x5Au8; SECTOR as usize];
    let mut dev = device_with(preload);
    dev.erase(3).unwrap();
    assert_eq!(dev.read(0, 8).unwrap(), vec![0x5A; 8]);
}

#[test]
fn erase_outside_all_regions_invalid() {
    let mut dev = blank_device(1);
    assert_eq!(dev.erase(0x0200_0000), Err(StorageError::InvalidAddress));
    // Inside another region it is tolerated as a no-op.
    assert_eq!(dev.erase(VERSION_REGION_BASE), Ok(()));
}

#[test]
fn read_outside_all_regions_invalid() {
    let mut dev = blank_device(1);
    // Past the flash image but below the EEPROM window.
    assert_eq!(dev.read(SECTOR, 4), Err(StorageError::InvalidAddress));
    assert_eq!(dev.read(0x0200_0000, 4), Err(StorageError::InvalidAddress));
}

#[test]
fn oversized_transfer_rejected() {
    let mut dev = blank_device(2);
    assert_eq!(dev.read(0, 4097), Err(StorageError::UnsupportedLength));
    let big = vec![0u8; 4097];
    assert_eq!(dev.program(0, &big), Err(StorageError::UnsupportedLength));
}

#[test]
fn region_dispatch_priorities() {
    let cap = 2 * SECTOR;
    assert_eq!(region_of(0, cap), Some(VirtualAddressRegion::FlashRegion));
    assert_eq!(region_of(cap - 1, cap), Some(VirtualAddressRegion::FlashRegion));
    assert_eq!(region_of(cap, cap), None);
    assert_eq!(region_of(EEPROM_REGION_BASE, cap), Some(VirtualAddressRegion::EepromRegion));
    assert_eq!(
        region_of(EEPROM_REGION_BASE + 2047, cap),
        Some(VirtualAddressRegion::EepromRegion),
    );
    assert_eq!(region_of(VERSION_REGION_BASE, cap), Some(VirtualAddressRegion::VersionRegion));
    assert_eq!(region_of(CONTROL_REGION_BASE, cap), Some(VirtualAddressRegion::ControlRegion));
    assert_eq!(region_of(CONTROL_REGION_BASE + 4, cap), None);
}
