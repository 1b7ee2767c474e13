use lightnote::errors::StorageError;
use lightnote::flash::SpiFlash;
use lightnote::mem_flash::MemFlash;
use lightnote::transfer::{ChunkedTransfer, TransferDir};

const SECTOR: u32 = 4096;

fn patterned_flash(sectors: u32) -> SpiFlash<MemFlash> {
    let preload: Vec<u8> = (0..sectors * SECTOR).map(|i| (i % 251) as u8).collect();
    SpiFlash::new(MemFlash::from_vec(preload), 512)
}

#[test]
fn chunked_read_crosses_callback_boundary() {
    let mut flash = patterned_flash(1);
    let mut xfer = ChunkedTransfer::new();
    // Four blocks: 2048 bytes, while each callback carries at most 600.
    xfer.start(&flash, TransferDir::Read, 0, 4).unwrap();
    let mut collected: Vec<u8> = Vec::new();
    let mut callbacks = 0;
    loop {
        let (chunk, done) = xfer.read_step(&mut flash, 600).unwrap();
        collected.extend_from_slice(&chunk);
        callbacks += 1;
        if done {
            break;
        }
    }
    assert_eq!(callbacks, 4);
    assert_eq!(collected.len(), 2048);
    let expected: Vec<u8> = (0..2048u32).map(|i| (i % 251) as u8).collect();
    assert_eq!(collected, expected);
    // The final callback leaves the cursor reset.
    assert!(xfer.is_idle());
    assert_eq!(xfer.offset(), 0);
}

#[test]
fn chunked_read_with_block_sized_chunks() {
    let mut flash = patterned_flash(1);
    let mut xfer = ChunkedTransfer::new();
    xfer.start(&flash, TransferDir::Read, 2, 2).unwrap();
    let (first, done1) = xfer.read_step(&mut flash, 512).unwrap();
    assert!(!done1);
    assert_eq!(xfer.offset(), 512);
    let (second, done2) = xfer.read_step(&mut flash, 512).unwrap();
    assert!(done2);
    let mut expected: Vec<u8> = Vec::new();
    for i in 2 * 512..4 * 512u32 {
        expected.push((i % 251) as u8);
    }
    let mut collected = first;
    collected.extend_from_slice(&second);
    assert_eq!(collected, expected);
}

#[test]
fn chunked_write_lands_all_bytes() {
    let chip = MemFlash::blank(SECTOR);
    let mut flash = SpiFlash::new(chip, 512);
    let mut xfer = ChunkedTransfer::new();
    xfer.start(&flash, TransferDir::Write, 1, 2).unwrap();
    let payload: Vec<u8> = (0..1024u32).map(|i| (i * 7 % 256) as u8).collect();
    let mut sent = 0;
    let mut done = false;
    for chunk in payload.chunks(300) {
        assert!(!done);
        done = xfer.write_step(&mut flash, chunk).unwrap();
        sent += chunk.len();
    }
    assert_eq!(sent, 1024);
    assert!(done);
    assert!(xfer.is_idle());
    let mut back = flash.read_block(1).unwrap();
    back.extend_from_slice(&flash.read_block(2).unwrap());
    assert_eq!(back, payload);
}

#[test]
fn start_rejects_empty_and_overlong_commands() {
    let flash = patterned_flash(1);
    let mut xfer = ChunkedTransfer::new();
    assert_eq!(
        xfer.start(&flash, TransferDir::Read, 0, 0),
        Err(StorageError::UnsupportedLength),
    );
    assert!(xfer.is_idle());
    // Eight 512-byte blocks fit in one sector; nine do not.
    assert_eq!(
        xfer.start(&flash, TransferDir::Read, 0, 9),
        Err(StorageError::InvalidAddress),
    );
    assert_eq!(
        xfer.start(&flash, TransferDir::Read, 8, 1),
        Err(StorageError::InvalidAddress),
    );
    assert!(xfer.is_idle());
    assert!(xfer.start(&flash, TransferDir::Read, 0, 8).is_ok());
}

#[test]
fn translator_error_aborts_whole_command() {
    let mut flash = patterned_flash(1);
    let mut xfer = ChunkedTransfer::new();
    xfer.start(&flash, TransferDir::Read, 0, 4).unwrap();
    let (_, done) = xfer.read_step(&mut flash, 600).unwrap();
    assert!(!done);
    flash.chip.inject_io_failure();
    assert_eq!(xfer.read_step(&mut flash, 600), Err(StorageError::HardwareIo));
    assert!(xfer.is_idle());
    assert_eq!(xfer.offset(), 0);
}

#[test]
fn new_command_resets_inflight_cursor() {
    let mut flash = patterned_flash(1);
    let mut xfer = ChunkedTransfer::new();
    xfer.start(&flash, TransferDir::Read, 0, 4).unwrap();
    let (_, _) = xfer.read_step(&mut flash, 600).unwrap();
    assert_eq!(xfer.offset(), 600);
    // A protocol violation: a new command while one is in progress.  The
    // machine starts over rather than interleave.
    xfer.start(&flash, TransferDir::Read, 1, 1).unwrap();
    assert_eq!(xfer.offset(), 0);
    let (chunk, done) = xfer.read_step(&mut flash, 4096).unwrap();
    assert!(done);
    assert_eq!(chunk.len(), 512);
}

#[test]
fn usb_reset_forces_idle() {
    let mut flash = patterned_flash(1);
    let mut xfer = ChunkedTransfer::new();
    xfer.start(&flash, TransferDir::Write, 0, 2).unwrap();
    xfer.write_step(&mut flash, &[1, 2, 3]).unwrap();
    xfer.reset();
    assert!(xfer.is_idle());
    assert_eq!(xfer.offset(), 0);
}
