//! The chunked transfer state machine: one logical block-device command
//! driven across many bounded-size protocol callbacks.
//!
//! Exactly one cursor exists system-wide.  A command starts it, each
//! callback moves at most one transport payload through the block
//! translator, and completion — or any translator error, or a host USB
//! reset — returns it to `Idle`.  A command arriving while another is in
//! progress resets the cursor defensively rather than interleave.

use vstd::arithmetic::div_mod::{
    lemma_fundamental_div_mod, lemma_mod_multiples_basic, lemma_small_mod,
};
use vstd::arithmetic::mul::{
    lemma_mul_inequality_converse, lemma_mul_is_commutative,
    lemma_mul_is_distributive_add_other_way, lemma_mul_is_distributive_sub_other_way,
    lemma_mul_nonnegative,
};
use vstd::prelude::*;

use crate::chip::FlashChip;
use crate::errors::StorageError;
use crate::flash::SpiFlash;

verus! {

/// Per-operation state: the target, the byte length requested, and how far
/// the transfer has come.
#[derive(Clone, Copy, Debug, PartialEq, Eq, Structural)]
pub struct TransferCursor {
    /// First logical block of the command.
    pub lba: u32,
    /// Total bytes the command moves.
    pub total_bytes: u32,
    /// Bytes already moved.
    pub offset: u32,
}

/// Whether a transfer is running.
#[derive(Clone, Copy, Debug, PartialEq, Eq, Structural)]
pub enum TransferState {
    Idle,
    InProgress(TransferCursor),
}

/// Which way the data moves.
#[derive(Clone, Copy, Debug, PartialEq, Eq, Structural)]
pub enum TransferDir {
    Read,
    Write,
}

/// The one transfer cursor, with the write-side staging buffer.
pub struct ChunkedTransfer {
    state: TransferState,
    dir: TransferDir,
    block_size: u32,
    staged: Vec<u8>,
    accepted: Ghost<Seq<u8>>,
}

impl ChunkedTransfer {
    /// Whether a transfer is running, and its cursor.
    pub closed spec fn state_spec(&self) -> TransferState {
        self.state
    }

    /// Which way the running transfer moves data.
    pub closed spec fn dir_spec(&self) -> TransferDir {
        self.dir
    }

    /// The block size the running transfer was started against.
    pub closed spec fn bs(&self) -> int {
        self.block_size as int
    }

    /// The write bytes accepted but not yet flushed to a full block.
    pub closed spec fn staged_spec(&self) -> Seq<u8> {
        self.staged@
    }

    /// Every write byte accepted since the command started.
    pub closed spec fn accepted_spec(&self) -> Seq<u8> {
        self.accepted@
    }

    /// No transfer is running.
    pub open spec fn is_idle_spec(&self) -> bool {
        self.state_spec() is Idle
    }

    /// The running transfer's cursor.
    pub open spec fn cursor_spec(&self) -> TransferCursor {
        self.state_spec()->InProgress_0
    }

    /// Structural well-formedness of the machine.
    pub open spec fn wf(&self) -> bool {
        match self.state_spec() {
            TransferState::Idle => true,
            TransferState::InProgress(cur) => {
                &&& 0 < self.bs()
                &&& cur.offset <= cur.total_bytes
                &&& cur.total_bytes as int % self.bs() == 0
                &&& (self.dir_spec() == TransferDir::Read ==> self.staged_spec().len() == 0
                    && self.accepted_spec().len() == 0)
                &&& (self.dir_spec() == TransferDir::Write ==> {
                    &&& self.accepted_spec().len() == cur.offset
                    &&& self.staged_spec().len() < self.bs()
                    &&& self.staged_spec().len() <= cur.offset
                    &&& (cur.offset as int - self.staged_spec().len() as int) % self.bs() == 0
                    &&& self.staged_spec() == self.accepted_spec().skip(
                        cur.offset - self.staged_spec().len(),
                    )
                })
            },
        }
    }

    /// The running transfer addresses blocks that exist on `flash`.
    pub open spec fn fits<C: FlashChip>(&self, flash: SpiFlash<C>) -> bool {
        match self.state_spec() {
            TransferState::Idle => true,
            TransferState::InProgress(cur) => self.bs() == flash.bs() && cur.lba * flash.bs()
                + cur.total_bytes <= flash.cap(),
        }
    }

    /// For a write transfer: everything accepted and flushed so far stands
    /// on the flash.
    pub open spec fn write_coupled(&self, contents: Seq<u8>) -> bool {
        match self.state_spec() {
            TransferState::Idle => true,
            TransferState::InProgress(cur) => self.dir_spec() == TransferDir::Write ==> {
                let start = cur.lba * self.bs();
                let flushed = cur.offset as int - self.staged_spec().len() as int;
                contents.subrange(start, start + flushed) == self.accepted_spec().take(flushed)
            },
        }
    }

    /// A fresh, idle machine.
    pub fn new() -> (r: ChunkedTransfer)
        ensures
            r.is_idle_spec(),
            r.wf(),
    {
        ChunkedTransfer {
            state: TransferState::Idle,
            dir: TransferDir::Read,
            block_size: 1,
            staged: Vec::new(),
            accepted: Ghost(Seq::empty()),
        }
    }

    /// Force the machine back to `Idle` and discard any partial cursor:
    /// the handling of a host-initiated USB reset or a reconfiguration.
    pub fn reset(&mut self)
        ensures
            final(self).is_idle_spec(),
            final(self).wf(),
    {
        self.state = TransferState::Idle;
        self.staged.clear();
        self.accepted = Ghost(Seq::empty());
    }

    /// Whether the machine is idle.
    pub fn is_idle(&self) -> (r: bool)
        ensures
            r == self.is_idle_spec(),
    {
        match self.state {
            TransferState::Idle => true,
            TransferState::InProgress(_) => false,
        }
    }

    /// Bytes moved by the running transfer; zero when idle.
    pub fn offset(&self) -> (r: u32)
        ensures
            self.is_idle_spec() ==> r == 0,
            !self.is_idle_spec() ==> r == self.cursor_spec().offset,
    {
        match self.state {
            TransferState::Idle => 0,
            TransferState::InProgress(cur) => cur.offset,
        }
    }

    /// Begin a command of `block_count` blocks at `lba`.  A command already
    /// in progress is discarded defensively first.
    pub fn start<C: FlashChip>(
        &mut self,
        flash: &SpiFlash<C>,
        dir: TransferDir,
        lba: u32,
        block_count: u32,
    ) -> (r: Result<(), StorageError>)
        requires
            flash.wf(),
        ensures
            final(self).wf(),
            (block_count == 0) <==> (r is Err && r->Err_0 == StorageError::UnsupportedLength),
            (block_count > 0 && lba as int + block_count as int - 1 > flash.max_lba_spec()) <==> (
            r is Err && r->Err_0 == StorageError::InvalidAddress),
            r is Err ==> final(self).is_idle_spec(),
            r is Ok ==> {
                &&& final(self).state_spec() == TransferState::InProgress(
                    TransferCursor {
                        lba,
                        total_bytes: (block_count as int * flash.bs()) as u32,
                        offset: 0,
                    },
                )
                &&& final(self).dir_spec() == dir
                &&& final(self).bs() == flash.bs()
                &&& final(self).fits(*flash)
                &&& final(self).staged_spec().len() == 0
                &&& final(self).accepted_spec().len() == 0
                &&& final(self).write_coupled(flash.contents())
            },
    {
        self.state = TransferState::Idle;
        self.staged.clear();
        self.accepted = Ghost(Seq::empty());
        if block_count == 0 {
            return Err(StorageError::UnsupportedLength);
        }
        let max = flash.max_lba();
        if lba > max || block_count - 1 > max - lba {
            return Err(StorageError::InvalidAddress);
        }
        proof {
            flash.lemma_block_geometry(lba as int + block_count as int - 1);
            lemma_mul_is_distributive_add_other_way(
                flash.bs(),
                lba as int + block_count as int - 1,
                1,
            );
            lemma_mul_is_distributive_add_other_way(flash.bs(), lba as int, block_count as int);
            lemma_mul_nonnegative(lba as int, flash.bs());
        }
        let total: u32 = block_count * flash.block_size;
        self.state = TransferState::InProgress(
            TransferCursor { lba, total_bytes: total, offset: 0 },
        );
        self.dir = dir;
        self.block_size = flash.block_size;
        proof {
            lemma_mul_nonnegative(block_count as int, flash.bs());
            lemma_mod_multiples_basic(block_count as int, flash.bs());
            let start = lba as int * flash.bs();
            assert(flash.contents().subrange(start, start) =~= Seq::<u8>::empty());
            assert(self.accepted@.take(0) =~= Seq::<u8>::empty());
        }
        Ok(())
    }

    /// One read callback: move the window
    /// `[offset, min(offset + max_chunk, total))` out through the
    /// translator, one logical block at a time.  The second component of a
    /// success says whether the command completed, which resets the cursor;
    /// an error aborts the whole command.
    pub fn read_step<C: FlashChip>(&mut self, flash: &mut SpiFlash<C>, max_chunk: usize) -> (r:
        Result<(Vec<u8>, bool), StorageError>)
        requires
            old(self).wf(),
            old(flash).wf(),
            old(self).state_spec() is InProgress,
            old(self).dir_spec() == TransferDir::Read,
            old(self).fits(*old(flash)),
            max_chunk >= 1,
        ensures
            *final(flash) == *old(flash),
            final(self).wf(),
            final(self).bs() == old(self).bs(),
            old(flash).reliable() ==> r is Ok,
            r is Err ==> final(self).is_idle_spec() && r->Err_0 == StorageError::HardwareIo,
            r is Ok ==> ({
                let cur = old(self).cursor_spec();
                let remaining = cur.total_bytes - cur.offset;
                let moved = if max_chunk < remaining {
                    max_chunk as int
                } else {
                    remaining as int
                };
                &&& r->Ok_0.0@ == old(flash).contents().subrange(
                    cur.lba * old(self).bs() + cur.offset,
                    cur.lba * old(self).bs() + cur.offset + moved,
                )
                &&& r->Ok_0.1 == (cur.offset + moved == cur.total_bytes)
                &&& (r->Ok_0.1 ==> final(self).is_idle_spec())
                &&& (!r->Ok_0.1 ==> final(self).state_spec() == TransferState::InProgress(
                    TransferCursor {
                        lba: cur.lba,
                        total_bytes: cur.total_bytes,
                        offset: (cur.offset + moved) as u32,
                    },
                ) && final(self).dir_spec() == TransferDir::Read && final(self).fits(*old(flash)))
            }),
    {
        let ghost c = flash.contents();
        let cur = match self.state {
            TransferState::InProgress(cur) => cur,
            TransferState::Idle => {
                proof {
                    assert(false);
                }
                TransferCursor { lba: 0, total_bytes: 0, offset: 0 }
            },
        };
        let bsz: u32 = self.block_size;
        proof {
            flash.lemma_wf_bounds();
            lemma_mul_nonnegative(cur.lba as int, bsz as int);
        }
        let remaining: u32 = cur.total_bytes - cur.offset;
        let window: u32 = if (max_chunk as u64) < (remaining as u64) {
            max_chunk as u32
        } else {
            remaining
        };
        let start_byte: u32 = cur.lba * bsz + cur.offset;
        let mut out: Vec<u8> = Vec::new();
        let mut moved: u32 = 0;
        while moved < window
            invariant
                *self == *old(self),
                *flash == *old(flash),
                self.wf(),
                flash.wf(),
                c == flash.contents(),
                self.state_spec() == TransferState::InProgress(cur),
                bsz == self.block_size,
                bsz == flash.block_size,
                cur.lba * flash.bs() + cur.total_bytes <= flash.cap(),
                flash.cap() <= u32::MAX,
                cur.offset + window <= cur.total_bytes,
                start_byte == cur.lba * flash.bs() + cur.offset,
                moved <= window,
                out@ == c.subrange(start_byte as int, start_byte as int + moved as int),
            decreases window - moved,
        {
            let addr: u32 = start_byte + moved;
            proof {
                flash.lemma_addr_block(addr as int);
                flash.lemma_block_geometry(addr as int / flash.bs());
                vstd::arithmetic::div_mod::lemma_fundamental_div_mod(addr as int, flash.bs());
                vstd::arithmetic::mul::lemma_mul_is_commutative(flash.bs(), addr as int / flash.bs());
            }
            let cur_lba: u32 = addr / bsz;
            let in_off: u32 = addr % bsz;
            let block = match flash.read_block(cur_lba) {
                Ok(b) => b,
                Err(e) => {
                    self.state = TransferState::Idle;
                    self.staged.clear();
                    self.accepted = Ghost(Seq::empty());
                    return Err(e);
                },
            };
            let take: u32 = if bsz - in_off < window - moved {
                bsz - in_off
            } else {
                window - moved
            };
            let mut t: u32 = 0;
            while t < take
                invariant
                    t <= take,
                    take >= 1,
                    in_off + take <= bsz,
                    cur_lba as int * flash.bs() + flash.bs() <= c.len(),
                    block@.len() == flash.bs(),
                    addr == cur_lba * flash.bs() + in_off,
                    addr == start_byte + moved,
                    moved + take <= window,
                    start_byte as int + window as int <= c.len(),
                    block@ == c.subrange(
                        cur_lba as int * flash.bs(),
                        cur_lba as int * flash.bs() + flash.bs(),
                    ),
                    bsz == flash.block_size,
                    flash.wf(),
                    c == flash.contents(),
                    out@ == c.subrange(start_byte as int, start_byte as int + moved as int + t
                        as int),
                decreases take - t,
            {
                out.push(block[(in_off + t) as usize]);
                proof {
                    assert(block@[in_off + t] == c[addr + t]);
                    assert(out@ =~= c.subrange(
                        start_byte as int,
                        start_byte as int + moved as int + t as int + 1,
                    ));
                }
                t = t + 1;
            }
            moved = moved + take;
        }
        let new_offset: u32 = cur.offset + window;
        if new_offset == cur.total_bytes {
            self.state = TransferState::Idle;
            self.staged.clear();
            self.accepted = Ghost(Seq::empty());
            Ok((out, true))
        } else {
            self.state = TransferState::InProgress(
                TransferCursor { lba: cur.lba, total_bytes: cur.total_bytes, offset: new_offset },
            );
            Ok((out, false))
        }
    }

    /// One write callback: accept `chunk` into the staging buffer and flush
    /// every completed block through the translator.  A success says
    /// whether the command completed, which resets the cursor; a translator
    /// error aborts the whole command, with no automatic retry.
    pub fn write_step<C: FlashChip>(&mut self, flash: &mut SpiFlash<C>, chunk: &[u8]) -> (r:
        Result<bool, StorageError>)
        requires
            old(self).wf(),
            old(flash).wf(),
            old(self).state_spec() is InProgress,
            old(self).dir_spec() == TransferDir::Write,
            old(self).fits(*old(flash)),
            chunk@.len() <= old(self).cursor_spec().total_bytes - old(self).cursor_spec().offset,
        ensures
            SpiFlash::preserves(*old(flash), *final(flash)),
            final(self).wf(),
            final(self).bs() == old(self).bs(),
            old(flash).reliable() ==> r is Ok,
            r is Err ==> final(self).is_idle_spec(),
            r is Ok ==> ({
                let cur = old(self).cursor_spec();
                let done = cur.offset + chunk@.len() == cur.total_bytes;
                &&& r->Ok_0 == done
                &&& (done ==> final(self).is_idle_spec())
                &&& (!done ==> final(self).state_spec() == TransferState::InProgress(
                    TransferCursor {
                        lba: cur.lba,
                        total_bytes: cur.total_bytes,
                        offset: (cur.offset + chunk@.len()) as u32,
                    },
                ) && final(self).dir_spec() == TransferDir::Write && final(self).fits(*old(flash))
                    && final(self).accepted_spec() == old(self).accepted_spec() + chunk@)
            }),
            old(flash).reliable() && old(self).write_coupled(old(flash).contents()) && r is Ok
                ==> ({
                let cur = old(self).cursor_spec();
                let acc = old(self).accepted_spec() + chunk@;
                &&& final(self).write_coupled(final(flash).contents())
                &&& (cur.offset + chunk@.len() == cur.total_bytes ==> final(flash).contents().subrange(
                    cur.lba * old(self).bs(),
                    cur.lba * old(self).bs() + cur.total_bytes,
                ) == acc)
            }),
    {
        let ghost c0 = flash.contents();
        let ghost rel = flash.reliable();
        let ghost coupled0 = old(self).write_coupled(c0);
        let cur = match self.state {
            TransferState::InProgress(cur) => cur,
            TransferState::Idle => {
                proof {
                    assert(false);
                }
                TransferCursor { lba: 0, total_bytes: 0, offset: 0 }
            },
        };
        let bsz: u32 = self.block_size;
        proof {
            flash.lemma_wf_bounds();
            flash.lemma_addr_block(0);
            lemma_mul_nonnegative(cur.lba as int, bsz as int);
        }
        let ghost start = cur.lba as int * bsz as int;
        // Accept the chunk.
        self.staged.extend_from_slice(chunk);
        let ghost acc = old(self).accepted_spec() + chunk@;
        proof {
            self.accepted@ = acc;
        }
        let new_offset: u32 = cur.offset + chunk.len() as u32;
        proof {
            let f0 = new_offset as int - self.staged@.len() as int;
            assert(self.staged@ =~= acc.skip(f0));
            if rel && coupled0 {
                assert(c0.subrange(start, start + f0) =~= acc.take(f0));
            }
        }
        // Flush every completed block.
        while self.staged.len() >= bsz as usize
            invariant
                self.state == TransferState::InProgress(cur),
                self.dir == TransferDir::Write,
                self.block_size == bsz,
                0 < bsz,
                self.accepted@ == acc,
                bsz as int == old(self).bs(),
                c0 == old(flash).contents(),
                rel == old(flash).reliable(),
                flash.wf(),
                flash.block_size == bsz,
                flash.block_size == old(flash).block_size,
                flash.cap() == c0.len(),
                flash.cap() <= u32::MAX,
                flash.cap() % (bsz as int) == 0,
                flash.reliable() == rel,
                flash.chip_id() == old(flash).chip_id(),
                start == cur.lba as int * bsz as int,
                start + cur.total_bytes <= flash.cap(),
                acc.len() == new_offset,
                new_offset <= cur.total_bytes,
                cur.total_bytes as int % bsz as int == 0,
                self.staged@.len() <= acc.len(),
                (new_offset as int - self.staged@.len() as int) % (bsz as int) == 0,
                self.staged@ == acc.skip(new_offset as int - self.staged@.len() as int),
                rel && coupled0 ==> flash.contents().subrange(
                    start,
                    start + (new_offset as int - self.staged@.len() as int),
                ) == acc.take(new_offset as int - self.staged@.len() as int),
            decreases self.staged.len(),
        {
            let flushed_bytes: u32 = new_offset - self.staged.len() as u32;
            let ghost f = flushed_bytes as int;
            proof {
                lemma_fundamental_div_mod(f, bsz as int);
                lemma_mul_is_commutative(bsz as int, f / (bsz as int));
                assert(f == (f / (bsz as int)) * (bsz as int));
                lemma_mul_is_distributive_add_other_way(
                    bsz as int,
                    cur.lba as int,
                    f / (bsz as int),
                );
                // The target block exists: (wl + 1) * bsz <= cap.
                lemma_fundamental_div_mod(flash.cap(), bsz as int);
                lemma_mul_is_commutative(bsz as int, flash.cap() / (bsz as int));
                lemma_mul_is_distributive_add_other_way(
                    bsz as int,
                    cur.lba as int + f / (bsz as int),
                    1,
                );
                lemma_mul_inequality_converse(
                    cur.lba as int + f / (bsz as int) + 1,
                    flash.cap() / (bsz as int),
                    bsz as int,
                );
            }
            let wl: u32 = cur.lba + flushed_bytes / bsz;
            // Assemble the completed block from the staged prefix.
            let mut block: Vec<u8> = Vec::new();
            let mut t: usize = 0;
            while t < bsz as usize
                invariant
                    t <= bsz,
                    bsz as int <= self.staged@.len(),
                    block@ == self.staged@.take(t as int),
                decreases bsz as usize - t,
            {
                block.push(self.staged[t]);
                proof {
                    assert(block@ =~= self.staged@.take(t as int + 1));
                }
                t = t + 1;
            }
            let ghost pre = flash.contents();
            match flash.write_block(wl, block.as_slice()) {
                Ok(u) => u,
                Err(e) => {
                    self.state = TransferState::Idle;
                    self.staged.clear();
                    self.accepted = Ghost(Seq::empty());
                    return Err(e);
                },
            };
            proof {
                if rel && coupled0 {
                    let post = flash.contents();
                    assert(post == crate::chip::spliced(pre, wl as int * bsz as int, block@));
                    assert(block@ =~= acc.subrange(f, f + bsz as int));
                    assert forall|i: int| start <= i < start + f + bsz as int implies post[i]
                        == acc[i - start] by {
                        if i < start + f {
                            assert(post[i] == pre[i]);
                            assert(pre.subrange(start, start + f)[i - start] == acc.take(f)[i
                                - start]);
                        } else {
                            assert(post[i] == block@[i - start - f]);
                        }
                    }
                    assert(post.subrange(start, start + f + bsz as int) =~= acc.take(f + bsz
                        as int));
                }
            }
            // Drop the flushed prefix from the staging buffer.
            let mut rest: Vec<u8> = Vec::new();
            let mut t2: usize = bsz as usize;
            while t2 < self.staged.len()
                invariant
                    bsz as int <= t2 <= self.staged@.len(),
                    rest@ == self.staged@.subrange(bsz as int, t2 as int),
                decreases self.staged@.len() - t2,
            {
                rest.push(self.staged[t2]);
                proof {
                    assert(rest@ =~= self.staged@.subrange(bsz as int, t2 as int + 1));
                }
                t2 = t2 + 1;
            }
            proof {
                assert(rest@ =~= self.staged@.skip(bsz as int));
                assert(self.staged@.skip(bsz as int) =~= acc.skip(f + bsz as int));
                lemma_mul_is_distributive_add_other_way(bsz as int, f / (bsz as int), 1);
                lemma_mod_multiples_basic(f / (bsz as int) + 1, bsz as int);
                lemma_mul_is_commutative(f / (bsz as int) + 1, bsz as int);
            }
            self.staged = rest;
        }
        if new_offset == cur.total_bytes {
            proof {
                // The staging buffer must be empty: its length is a multiple
                // of the block size and smaller than one block.
                let l = self.staged@.len() as int;
                let b = bsz as int;
                lemma_fundamental_div_mod(cur.total_bytes as int, b);
                lemma_fundamental_div_mod(new_offset as int - l, b);
                if l != 0 {
                    lemma_fundamental_div_mod(l, b);
                    lemma_small_mod(l as nat, b as nat);
                    lemma_sub_mod_zero(new_offset as int, l, b);
                    assert(false);
                }
                assert(self.staged@ =~= Seq::<u8>::empty());
                if rel && coupled0 {
                    assert(flash.contents().subrange(start, start + cur.total_bytes as int)
                        == acc.take(new_offset as int));
                    assert(acc.take(new_offset as int) =~= acc);
                }
            }
            self.state = TransferState::Idle;
            self.staged.clear();
            self.accepted = Ghost(Seq::empty());
            Ok(true)
        } else {
            self.state = TransferState::InProgress(
                TransferCursor { lba: cur.lba, total_bytes: cur.total_bytes, offset: new_offset },
            );
            Ok(false)
        }
    }
}

/// Two multiples of `b` differ by a multiple of `b`.
proof fn lemma_sub_mod_zero(x: int, l: int, b: int)
    requires
        0 < b,
        0 <= l,
        x % b == 0,
        (x - l) % b == 0,
    ensures
        l % b == 0,
{
    lemma_fundamental_div_mod(x, b);
    lemma_fundamental_div_mod(x - l, b);
    lemma_mul_is_distributive_sub_other_way(b, x / b, (x - l) / b);
    lemma_mul_is_commutative(b, x / b);
    lemma_mul_is_commutative(b, (x - l) / b);
    assert(l == (x / b - (x - l) / b) * b);
    lemma_mod_multiples_basic(x / b - (x - l) / b, b);
    lemma_mul_is_commutative(x / b - (x - l) / b, b);
}

} // verus!
