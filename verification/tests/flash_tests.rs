use lightnote::errors::{LightNoteErrors, StorageError};
use lightnote::flash::SpiFlash;
use lightnote::mem_flash::MemFlash;

const SECTOR: u32 = 4096;

fn patterned(len: usize, seed: u8) -> Vec<u8> {
    (0..len).map(|i| (i as u8).wrapping_mul(31).wrapping_add(seed)).collect()
}

#[test]
fn round_trip_fast_path() {
    let chip = MemFlash::blank(3 * SECTOR);
    let mut flash = SpiFlash::new(chip, 512);
    let data = patterned(512, 7);
    flash.write_block(5, &data).unwrap();
    let back = flash.read_block(5).unwrap();
    assert_eq!(back, data);
}

#[test]
fn round_trip_slow_path() {
    let chip = MemFlash::blank(3 * SECTOR);
    let mut flash = SpiFlash::new(chip, 512);
    let first = patterned(512, 1);
    let second = patterned(512, 99);
    flash.write_block(5, &first).unwrap();
    // The unit is now dirty, so this overwrite takes the slow path.
    flash.write_block(5, &second).unwrap();
    let back = flash.read_block(5).unwrap();
    assert_eq!(back, second);
}

#[test]
fn fast_and_slow_paths_agree() {
    let data = patterned(512, 42);

    // Fast path: a freshly erased unit, programmed directly.
    let chip_a = MemFlash::blank(2 * SECTOR);
    let mut flash_a = SpiFlash::new(chip_a, 512);
    flash_a.write_block(3, &data).unwrap();

    // Slow path: the same unit starts dirty, so the write must
    // read-erase-modify-write.
    let mut preload = vec![0xFFu8; 2 * SECTOR as usize];
    for i in 0..512 {
        preload[3 * 512 + i] = 0x55;
    }
    let chip_b = MemFlash::from_vec(preload);
    let mut flash_b = SpiFlash::new(chip_b, 512);
    flash_b.write_block(3, &data).unwrap();

    assert_eq!(flash_a.read_block(3).unwrap(), data);
    assert_eq!(flash_b.read_block(3).unwrap(), data);
}

#[test]
fn sibling_block_preserved_across_slow_path() {
    let chip = MemFlash::blank(2 * SECTOR);
    let mut flash = SpiFlash::new(chip, 512);
    let neighbour = patterned(512, 3);
    let incoming = patterned(512, 200);
    // Block 0 and block 1 share erase unit 0 (eight 512-byte blocks per unit).
    flash.write_block(0, &neighbour).unwrap();
    // Unit 0 is now dirty: writing block 1 takes the slow path.
    flash.write_block(1, &incoming).unwrap();
    assert_eq!(flash.read_block(0).unwrap(), neighbour);
    assert_eq!(flash.read_block(1).unwrap(), incoming);
}

#[test]
fn erase_device_blanks_every_unit() {
    let mut preload = vec![0u8; 3 * SECTOR as usize];
    preload[17] = 0xAA;
    let chip = MemFlash::from_vec(preload);
    let mut flash = SpiFlash::new(chip, 512);
    assert_eq!(flash.is_unit_blank(0).unwrap(), false);
    flash.erase_device().unwrap();
    for unit in 0..3 {
        assert_eq!(flash.is_unit_blank(unit).unwrap(), true);
    }
}

#[test]
fn write_dirties_owning_unit_until_next_erase() {
    let chip = MemFlash::blank(2 * SECTOR);
    let mut flash = SpiFlash::new(chip, 512);
    let data = patterned(512, 5);
    flash.write_block(2, &data).unwrap();
    assert_eq!(flash.is_block_erased(2).unwrap(), false);
    assert_eq!(flash.is_unit_blank(0).unwrap(), false);
    // The sibling-free second unit is untouched.
    assert_eq!(flash.is_unit_blank(1).unwrap(), true);
    flash.erase_device().unwrap();
    assert_eq!(flash.is_block_erased(2).unwrap(), true);
}

#[test]
fn all_ff_write_leaves_unit_blank() {
    // The one content for which a successful write does not dirty the
    // unit: programming nothing but erased bytes.
    let chip = MemFlash::blank(SECTOR);
    let mut flash = SpiFlash::new(chip, 512);
    let data = vec![0xFFu8; 512];
    flash.write_block(0, &data).unwrap();
    assert_eq!(flash.is_unit_blank(0).unwrap(), true);
}

#[test]
fn invalid_lba_rejected() {
    let chip = MemFlash::blank(2 * SECTOR);
    let mut flash = SpiFlash::new(chip, 512);
    let max = flash.max_lba();
    assert_eq!(max, 2 * SECTOR / 512 - 1);
    let data = patterned(512, 0);
    assert_eq!(flash.write_block(max + 1, &data), Err(StorageError::InvalidAddress));
    assert_eq!(flash.read_block(max + 1), Err(StorageError::InvalidAddress));
    assert!(flash.write_block(max, &data).is_ok());
}

#[test]
fn wrong_block_length_rejected() {
    let chip = MemFlash::blank(SECTOR);
    let mut flash = SpiFlash::new(chip, 512);
    let short = vec![0u8; 100];
    assert_eq!(flash.write_block(0, &short), Err(StorageError::UnsupportedLength));
}

#[test]
fn max_lba_matches_capacity() {
    let chip = MemFlash::blank(16 * 1024 * 1024);
    let flash = SpiFlash::new(chip, 4096);
    assert_eq!(flash.max_lba(), 16 * 1024 * 1024 / 4096 - 1);
}

#[test]
fn verification_mismatch_surfaces() {
    // A dirty unit forces the slow path; dropped programs make the
    // read-back differ from the intended content.
    let mut preload = vec![0xFFu8; SECTOR as usize];
    preload[0] = 0x11;
    let mut chip = MemFlash::from_vec(preload);
    chip.inject_write_drop();
    let mut flash = SpiFlash::new(chip, 512);
    let data = patterned(512, 9);
    assert_eq!(flash.write_block(0, &data), Err(StorageError::VerificationMismatch));
}

#[test]
fn hardware_io_surfaces() {
    let mut chip = MemFlash::blank(SECTOR);
    chip.inject_io_failure();
    let mut flash = SpiFlash::new(chip, 512);
    assert_eq!(flash.read_block(0), Err(StorageError::HardwareIo));
    let data = patterned(512, 1);
    assert_eq!(flash.write_block(0, &data), Err(StorageError::HardwareIo));
}

#[test]
fn erase_failure_surfaces() {
    let mut preload = vec![0u8; SECTOR as usize];
    preload[9] = 0x42;
    let mut chip = MemFlash::from_vec(preload);
    chip.inject_erase_failure();
    let mut flash = SpiFlash::new(chip, 512);
    assert_eq!(flash.erase_device(), Err(StorageError::EraseFailure));
    // The slow path needs a sector erase, which also fails.
    let data = patterned(512, 1);
    assert_eq!(flash.write_block(0, &data), Err(StorageError::EraseFailure));
}

#[test]
fn unit_scan_bounds_checked() {
    let chip = MemFlash::blank(2 * SECTOR);
    let mut flash = SpiFlash::new(chip, 512);
    assert_eq!(flash.is_unit_blank(2), Err(StorageError::InvalidAddress));
}

#[test]
fn check_flash_id_accepts_expected_part() {
    let chip = MemFlash::blank(SECTOR);
    let mut flash = SpiFlash::new(chip, 512);
    assert!(flash.check_flash_id().is_ok());
}

#[test]
fn check_flash_id_rejects_strange_part() {
    let mut chip = MemFlash::blank(SECTOR);
    chip.set_id(0xEF, 0x15);
    let mut flash = SpiFlash::new(chip, 512);
    assert_eq!(flash.check_flash_id(), Err(LightNoteErrors::FailedToReadFlashID));
}

#[test]
fn byte_reads_and_programs() {
    let chip = MemFlash::blank(SECTOR);
    let mut flash = SpiFlash::new(chip, 512);
    let data = vec![1u8, 2, 3, 4];
    flash.program_bytes(100, &data).unwrap();
    assert_eq!(flash.read_bytes(100, 4).unwrap(), data);
    assert_eq!(flash.read_bytes(SECTOR - 1, 2), Err(StorageError::InvalidAddress));
    assert_eq!(flash.program_bytes(SECTOR - 1, &data), Err(StorageError::InvalidAddress));
}
