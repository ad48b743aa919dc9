//! The follow cursor: one followed file's read position and line emission.
//!
//! A cursor owns the byte offset up to which its file has been consumed and
//! decides, from the bytes the platform layer reads at that offset, which
//! complete lines to emit and how far the offset moves. The surrounding
//! program does the actual I/O: it seeks to the offset the cursor reports,
//! reads whatever is there, and hands the bytes in. Partial trailing data is
//! never emitted and never advances the offset; it is simply read again on
//! the next round, so re-reads are byte-exact.

use vstd::prelude::*;

use crate::lines::complete_lines;
use crate::lines::consumed_len;
use crate::lines::fully_terminated;
use crate::lines::lemma_byte_accounting;
use crate::lines::lemma_no_lost_lines;
use crate::lines::lemma_take_consumed;
use crate::lines::lemma_tail_bound;
use crate::lines::lines_view;
use crate::lines::split_lines;
use crate::lines::total_line_bytes;

verus! {

/// What a follower is doing.
///
/// `Draining` reads at the current offset; `Waiting` blocks on the wake slot
/// with a timeout; `Failed` is the terminal state after a read error, fatal
/// to this one follower only.
#[derive(Clone, Copy, Debug, PartialEq, Eq, Structural)]
pub enum CursorState {
    Draining,
    Waiting,
    Failed,
}

/// One followed file's cursor: its consumption offset and follow state.
pub struct FollowCursor {
    offset: u64,
    state: CursorState,
    start: Ghost<u64>,
    consumed: Ghost<Seq<u8>>,
}

impl FollowCursor {
    /// The offset of the first byte not yet consumed.
    pub closed spec fn offset_spec(self) -> u64 {
        self.offset
    }

    /// The offset the cursor was created at (where following began).
    pub closed spec fn start_spec(self) -> u64 {
        self.start@
    }

    /// The bytes consumed so far: every byte of every emitted line,
    /// terminators included, in file order.
    pub closed spec fn consumed_spec(self) -> Seq<u8> {
        self.consumed@
    }

    /// The current follow state.
    pub closed spec fn state_spec(self) -> CursorState {
        self.state
    }

    /// The lines emitted so far, in file order, terminators stripped.
    pub open spec fn emitted(self) -> Seq<Seq<u8>> {
        complete_lines(self.consumed_spec())
    }

    /// Well-formedness: consumption ends exactly at a line boundary, and the
    /// offset is the starting offset plus every byte consumed since.
    pub open spec fn wf(self) -> bool {
        &&& fully_terminated(self.consumed_spec())
        &&& self.offset_spec() == self.start_spec() + self.consumed_spec().len()
    }

    /// A cursor for a freshly adopted file, beginning at `start_offset`
    /// (the file's current end: only content appended from now on is followed).
    pub fn new(start_offset: u64) -> (c: FollowCursor)
        ensures
            c.wf(),
            c.state_spec() == CursorState::Draining,
            c.offset_spec() == start_offset,
            c.start_spec() == start_offset,
            c.emitted() == Seq::<Seq<u8>>::empty(),
    {
        let c = FollowCursor {
            offset: start_offset,
            state: CursorState::Draining,
            start: Ghost(start_offset),
            consumed: Ghost(Seq::empty()),
        };
        proof {
            assert(c.emitted() =~= Seq::<Seq<u8>>::empty());
        }
        c
    }

    /// The offset to seek to before the next read.
    pub fn offset(&self) -> (o: u64)
        ensures
            o == self.offset_spec(),
    {
        self.offset
    }

    /// The current follow state.
    pub fn state(&self) -> (s: CursorState)
        ensures
            s == self.state_spec(),
    {
        self.state
    }

    /// Take in the bytes read at the current offset and give back the
    /// complete lines found in them, in order, terminators stripped.
    ///
    /// The offset advances by exactly the bytes those lines covered — never
    /// past a partial tail, and never backwards. When no line completed
    /// (nothing was read, or only a partial tail), the cursor turns to
    /// `Waiting` for a wake or a timeout; otherwise it keeps draining.
    pub fn on_read(&mut self, data: &Vec<u8>) -> (emitted_now: Vec<Vec<u8>>)
        requires
            old(self).wf(),
            old(self).state_spec() == CursorState::Draining,
            old(self).offset_spec() + data@.len() <= u64::MAX,
        ensures
            final(self).wf(),
            lines_view(emitted_now@) == complete_lines(data@),
            final(self).emitted() == old(self).emitted() + complete_lines(data@),
            final(self).consumed_spec() == old(self).consumed_spec() + data@.take(
                consumed_len(data@),
            ),
            final(self).offset_spec() == old(self).offset_spec() + consumed_len(data@),
            old(self).offset_spec() <= final(self).offset_spec(),
            final(self).start_spec() == old(self).start_spec(),
            final(self).state_spec() == (if complete_lines(data@).len() == 0 {
                CursorState::Waiting
            } else {
                CursorState::Draining
            }),
    {
        let (emitted_now, consumed) = split_lines(data);
        proof {
            lemma_tail_bound(data@);
            lemma_take_consumed(data@);
            lemma_no_lost_lines(self.consumed@, data@.take(consumed_len(data@)));
        }
        self.offset = self.offset + consumed as u64;
        proof {
            self.consumed@ = self.consumed@ + data@.take(consumed_len(data@));
        }
        if emitted_now.len() == 0 {
            self.state = CursorState::Waiting;
        } else {
            self.state = CursorState::Draining;
        }
        proof {
            assert(lines_view(emitted_now@).len() == complete_lines(data@).len());
        }
        emitted_now
    }

    /// Leave `Waiting` — on a wake or on the timeout alike — and report the
    /// offset to re-seek to before reading again. The handle's own position
    /// is not trusted across a wait; the stored offset is.
    pub fn resume(&mut self) -> (seek_to: u64)
        requires
            old(self).wf(),
            old(self).state_spec() == CursorState::Waiting,
        ensures
            final(self).wf(),
            final(self).state_spec() == CursorState::Draining,
            final(self).offset_spec() == old(self).offset_spec(),
            final(self).start_spec() == old(self).start_spec(),
            final(self).consumed_spec() == old(self).consumed_spec(),
            final(self).emitted() == old(self).emitted(),
            seek_to == old(self).offset_spec(),
    {
        self.state = CursorState::Draining;
        self.offset
    }

    /// A read error distinct from "no data yet": fatal to this follower
    /// alone. The cursor stops for good; nothing already accounted changes,
    /// and no other follower is touched.
    pub fn on_read_error(&mut self)
        requires
            old(self).wf(),
        ensures
            final(self).wf(),
            final(self).state_spec() == CursorState::Failed,
            final(self).offset_spec() == old(self).offset_spec(),
            final(self).start_spec() == old(self).start_spec(),
            final(self).consumed_spec() == old(self).consumed_spec(),
            final(self).emitted() == old(self).emitted(),
    {
        self.state = CursorState::Failed;
    }
}

/// Offset accounting: a well-formed cursor's offset always equals its
/// starting offset plus the total byte length — one terminator per line
/// included — of every line it has emitted.
pub proof fn lemma_offset_accounts_for_emitted(c: FollowCursor)
    requires
        c.wf(),
    ensures
        c.offset_spec() == c.start_spec() + total_line_bytes(c.emitted()),
{
    lemma_byte_accounting(c.consumed_spec());
}

} // verus!
