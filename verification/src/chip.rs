//! The physical flash chip boundary.
//!
//! The translator sees the chip only through the [`FlashChip`] trait: a
//! byte-range read, a byte-range program, sector and chip erase, and a
//! device-identifier query.  The chip's state is modelled as the sequence of
//! bytes it stores.  A NOR program operation can only clear bits, so the
//! effect of a fault-free program is the bitwise AND of the old content and
//! the data; `reliable` says whether the part is operating fault-free.

use vstd::prelude::*;

use crate::errors::StorageError;

verus! {

/// The smallest erasable granularity of the chip, in bytes.
pub const SECTOR_SIZE: u32 = 4096;

/// Every byte of `c` in `[a, a + l)` is in the erased state `0xFF`.
pub open spec fn blank_range(c: Seq<u8>, a: int, l: int) -> bool {
    forall|i: int| a <= i < a + l ==> c[i] == 0xFFu8
}

/// The erase unit `unit` of `c` holds only erased bytes.
pub open spec fn unit_blank(c: Seq<u8>, unit: int) -> bool {
    blank_range(c, unit * (SECTOR_SIZE as int), SECTOR_SIZE as int)
}

/// `c` with the range starting at `a` overwritten by `d`.
pub open spec fn spliced(c: Seq<u8>, a: int, d: Seq<u8>) -> Seq<u8> {
    Seq::new(c.len(), |i: int| if a <= i < a + d.len() {
        d[i - a]
    } else {
        c[i]
    })
}

/// `c` after a fault-free NOR program of `d` at `a`: programming can only
/// clear bits, so each targeted byte becomes the AND of old content and data.
pub open spec fn programmed(c: Seq<u8>, a: int, d: Seq<u8>) -> Seq<u8> {
    Seq::new(c.len(), |i: int| if a <= i < a + d.len() {
        c[i] & d[i - a]
    } else {
        c[i]
    })
}

/// `c` with the range `[a, a + l)` erased to `0xFF`.
pub open spec fn erased(c: Seq<u8>, a: int, l: int) -> Seq<u8> {
    Seq::new(c.len(), |i: int| if a <= i < a + l {
        0xFFu8
    } else {
        c[i]
    })
}

/// A fully erased array of `len` bytes.
pub open spec fn all_blank(len: nat) -> Seq<u8> {
    Seq::new(len, |i: int| 0xFFu8)
}

/// Programming over blank bytes lands exactly: on an erased range the NOR
/// AND semantics degenerate to a plain overwrite.
pub proof fn lemma_programmed_on_blank(c: Seq<u8>, a: int, d: Seq<u8>)
    requires
        0 <= a,
        a + d.len() <= c.len(),
        blank_range(c, a, d.len() as int),
    ensures
        programmed(c, a, d) == spliced(c, a, d),
{
    assert forall|i: int| 0 <= i < c.len() implies programmed(c, a, d)[i] == spliced(
        c,
        a,
        d,
    )[i] by {
        if a <= i < a + d.len() {
            assert(c[i] == 0xFFu8);
            let x = d[i - a];
            assert(0xFFu8 & x == x) by (bit_vector);
        }
    }
    assert(programmed(c, a, d) =~= spliced(c, a, d));
}

/// The physical flash chip interface: the translator's only hardware
/// boundary.  Exactly one implementation is active at a time.
pub trait FlashChip: Sized {
    /// The bytes currently stored on the chip.
    spec fn contents(&self) -> Seq<u8>;

    /// Whether the part is operating fault-free: transactions succeed and a
    /// program clears exactly the requested bits.
    spec fn reliable(&self) -> bool;

    /// The two-byte device identifier the chip reports.
    spec fn id(&self) -> (u8, u8);

    /// Structural well-formedness of the handle.
    spec fn inv(&self) -> bool;

    /// A well-formed chip stores a whole number of sectors, addressable
    /// with 32 bits.
    proof fn capacity_properties(&self)
        requires
            self.inv(),
        ensures
            self.contents().len() as int % (SECTOR_SIZE as int) == 0,
            self.contents().len() <= u32::MAX,
    ;

    /// Total addressable capacity in bytes.
    fn capacity(&self) -> (r: u32)
        requires
            self.inv(),
        ensures
            r as int == self.contents().len(),
    ;

    /// Byte-range read.
    fn read(&mut self, addr: u32, len: usize) -> (r: Result<Vec<u8>, StorageError>)
        requires
            old(self).inv(),
            addr + len <= old(self).contents().len(),
        ensures
            *final(self) == *old(self),
            r is Ok ==> r->Ok_0@ == old(self).contents().subrange(
                addr as int,
                addr as int + len as int,
            ),
            old(self).reliable() ==> r is Ok,
            r is Err ==> r->Err_0 == StorageError::HardwareIo,
    ;

    /// Byte-range program.  Even on success a faulty part may fail to clear
    /// some bits, so the programmed range is pinned down only when the part
    /// is reliable; bytes outside the range are never touched.
    fn program(&mut self, addr: u32, data: &[u8]) -> (r: Result<(), StorageError>)
        requires
            old(self).inv(),
            addr + data@.len() <= old(self).contents().len(),
        ensures
            final(self).inv(),
            final(self).contents().len() == old(self).contents().len(),
            final(self).reliable() == old(self).reliable(),
            final(self).id() == old(self).id(),
            old(self).reliable() ==> r is Ok && final(self).contents() == programmed(
                old(self).contents(),
                addr as int,
                data@,
            ),
            r is Ok ==> forall|i: int|
                0 <= i < old(self).contents().len() && !(addr <= i < addr + data@.len())
                    ==> final(self).contents()[i] == old(self).contents()[i],
            r is Err ==> *final(self) == *old(self) && r->Err_0 == StorageError::HardwareIo,
    ;

    /// Erase of the one sector starting at `addr`.
    fn erase_sector(&mut self, addr: u32) -> (r: Result<(), StorageError>)
        requires
            old(self).inv(),
            addr % SECTOR_SIZE == 0,
            addr + SECTOR_SIZE <= old(self).contents().len(),
        ensures
            final(self).inv(),
            final(self).contents().len() == old(self).contents().len(),
            final(self).reliable() == old(self).reliable(),
            final(self).id() == old(self).id(),
            r is Ok ==> final(self).contents() == erased(
                old(self).contents(),
                addr as int,
                SECTOR_SIZE as int,
            ),
            old(self).reliable() ==> r is Ok,
            r is Err ==> *final(self) == *old(self) && r->Err_0 == StorageError::EraseFailure,
    ;

    /// Full-chip erase.
    fn erase_all(&mut self) -> (r: Result<(), StorageError>)
        requires
            old(self).inv(),
        ensures
            final(self).inv(),
            final(self).contents().len() == old(self).contents().len(),
            final(self).reliable() == old(self).reliable(),
            final(self).id() == old(self).id(),
            r is Ok ==> final(self).contents() == all_blank(old(self).contents().len()),
            old(self).reliable() ==> r is Ok,
            r is Err ==> *final(self) == *old(self) && r->Err_0 == StorageError::EraseFailure,
    ;

    /// Device-identifier query, used for power-on verification.
    fn read_id(&mut self) -> (r: Result<(u8, u8), StorageError>)
        requires
            old(self).inv(),
        ensures
            *final(self) == *old(self),
            r is Ok ==> r->Ok_0 == old(self).id(),
            old(self).reliable() ==> r is Ok,
            r is Err ==> r->Err_0 == StorageError::HardwareIo,
    ;
}

} // verus!
