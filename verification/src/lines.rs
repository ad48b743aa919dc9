//! Splitting appended bytes into complete lines.
//!
//! A follower only ever emits *complete* lines: maximal byte runs terminated
//! by a newline, handed on with the terminator stripped. Bytes after the last
//! terminator are a partial tail; they are not emitted and not counted as
//! consumed, so the read offset stays at the first byte of the next unread
//! line and the tail is simply read again once more bytes arrive.
//!
//! The model is a left-to-right scan: an accumulator carries the lines
//! completed so far and the bytes of the line in progress.

use vstd::prelude::*;

verus! {

/// The line terminator byte (`\n`).
pub const NL: u8 = 10;

/// Accumulator of the line scan: completed lines and the line in progress.
pub struct LineAcc {
    pub lines: Seq<Seq<u8>>,
    pub cur: Seq<u8>,
}

/// Scan state before any byte: no lines, nothing in progress.
pub open spec fn line_acc_init() -> LineAcc {
    LineAcc { lines: Seq::empty(), cur: Seq::empty() }
}

/// One byte of the scan: a terminator completes the line in progress,
/// any other byte extends it.
pub open spec fn line_step(acc: LineAcc, b: u8) -> LineAcc {
    if b == NL {
        LineAcc { lines: acc.lines.push(acc.cur), cur: Seq::empty() }
    } else {
        LineAcc { lines: acc.lines, cur: acc.cur.push(b) }
    }
}

/// Scan `data` starting from accumulator `acc`.
pub open spec fn line_fold(acc: LineAcc, data: Seq<u8>) -> LineAcc
    decreases data.len(),
{
    if data.len() == 0 {
        acc
    } else {
        line_step(line_fold(acc, data.drop_last()), data.last())
    }
}

/// Scan `data` from the empty accumulator.
pub open spec fn line_scan(data: Seq<u8>) -> LineAcc {
    line_fold(line_acc_init(), data)
}

/// The complete (terminated) lines of `data`, in order, terminators stripped.
pub open spec fn complete_lines(data: Seq<u8>) -> Seq<Seq<u8>> {
    line_scan(data).lines
}

/// The bytes of `data` after its last terminator: the unfinished line.
pub open spec fn partial_tail(data: Seq<u8>) -> Seq<u8> {
    line_scan(data).cur
}

/// How many leading bytes of `data` belong to complete lines.
pub open spec fn consumed_len(data: Seq<u8>) -> int {
    data.len() - partial_tail(data).len()
}

/// Whether `data` ends exactly at a line boundary (empty or terminated).
pub open spec fn fully_terminated(data: Seq<u8>) -> bool {
    partial_tail(data).len() == 0
}

/// Total byte length of a sequence of lines, one terminator per line included.
pub open spec fn total_line_bytes(lines: Seq<Seq<u8>>) -> int
    decreases lines.len(),
{
    if lines.len() == 0 {
        0
    } else {
        total_line_bytes(lines.drop_last()) + lines.last().len() + 1
    }
}

/// The view of a vector of byte lines as a sequence of byte sequences.
pub open spec fn lines_view(lines: Seq<Vec<u8>>) -> Seq<Seq<u8>> {
    lines.map_values(|l: Vec<u8>| l@)
}

/// Scanning one more byte of `data` extends the scan of its prefix by one step.
pub proof fn lemma_scan_snoc(data: Seq<u8>, i: int)
    requires
        0 <= i < data.len(),
    ensures
        line_scan(data.take(i + 1)) == line_step(line_scan(data.take(i)), data[i]),
{
    assert(data.take(i + 1).drop_last() =~= data.take(i));
    assert(data.take(i + 1).last() == data[i]);
}

/// Scanning a concatenation is scanning the second part from where the first ended.
pub proof fn lemma_fold_concat(acc: LineAcc, d1: Seq<u8>, d2: Seq<u8>)
    ensures
        line_fold(acc, d1 + d2) == line_fold(line_fold(acc, d1), d2),
    decreases d2.len(),
{
    if d2.len() == 0 {
        assert(d1 + d2 =~= d1);
    } else {
        lemma_fold_concat(acc, d1, d2.drop_last());
        assert((d1 + d2).drop_last() =~= d1 + d2.drop_last());
        assert((d1 + d2).last() == d2.last());
    }
}

/// Lines already completed before a scan ride along unchanged: scanning from
/// `acc` yields `acc.lines` followed by whatever the scan itself completes,
/// and the line in progress does not depend on `acc.lines`.
pub proof fn lemma_fold_lines_prefix(acc: LineAcc, data: Seq<u8>)
    ensures
        line_fold(acc, data).lines == acc.lines + line_fold(
            (LineAcc { lines: Seq::empty(), cur: acc.cur }),
            data,
        ).lines,
        line_fold(acc, data).cur == line_fold(
            (LineAcc { lines: Seq::empty(), cur: acc.cur }),
            data,
        ).cur,
    decreases data.len(),
{
    let base = LineAcc { lines: Seq::empty(), cur: acc.cur };
    if data.len() == 0 {
        assert(acc.lines + base.lines =~= acc.lines);
    } else {
        lemma_fold_lines_prefix(acc, data.drop_last());
        let b = data.last();
        let fa = line_fold(acc, data.drop_last());
        let fb = line_fold(base, data.drop_last());
        if b == NL {
            assert((acc.lines + fb.lines).push(fb.cur) =~= acc.lines + fb.lines.push(fb.cur));
        }
    }
}

/// The line in progress is never longer than what has been scanned.
pub proof fn lemma_tail_bound(data: Seq<u8>)
    ensures
        0 <= consumed_len(data) <= data.len(),
    decreases data.len(),
{
    if data.len() > 0 {
        lemma_tail_bound(data.drop_last());
    }
}

/// The consumed prefix of `data` ends at a line boundary and carries exactly
/// the complete lines of `data`.
pub proof fn lemma_take_consumed(data: Seq<u8>)
    ensures
        fully_terminated(data.take(consumed_len(data))),
        complete_lines(data.take(consumed_len(data))) == complete_lines(data),
    decreases data.len(),
{
    lemma_tail_bound(data);
    if data.len() > 0 {
        let b = data.last();
        if b == NL {
            assert(data.take(consumed_len(data)) =~= data);
        } else {
            lemma_tail_bound(data.drop_last());
            lemma_take_consumed(data.drop_last());
            assert(consumed_len(data) == consumed_len(data.drop_last()));
            assert(data.take(consumed_len(data)) =~= data.drop_last().take(
                consumed_len(data.drop_last()),
            ));
        }
    }
}

/// No lost lines: when the bytes scanned so far end at a line boundary,
/// scanning further bytes appends exactly their complete lines, in order —
/// nothing is dropped, duplicated or reordered, whatever the burst boundaries.
pub proof fn lemma_no_lost_lines(d1: Seq<u8>, d2: Seq<u8>)
    requires
        fully_terminated(d1),
    ensures
        complete_lines(d1 + d2) == complete_lines(d1) + complete_lines(d2),
        partial_tail(d1 + d2) == partial_tail(d2),
{
    lemma_fold_concat(line_acc_init(), d1, d2);
    let acc = line_scan(d1);
    lemma_fold_lines_prefix(acc, d2);
    assert(acc.cur =~= Seq::<u8>::empty());
    assert((LineAcc { lines: Seq::<Seq<u8>>::empty(), cur: acc.cur }) == line_acc_init());
}

/// No emission without a terminator: bytes holding no newline complete no
/// line at all; they stay, whole, in the partial tail.
pub proof fn lemma_no_terminator_no_lines(data: Seq<u8>)
    requires
        forall|i: int| 0 <= i < data.len() ==> data[i] != NL,
    ensures
        complete_lines(data).len() == 0,
        partial_tail(data) == data,
    decreases data.len(),
{
    if data.len() > 0 {
        lemma_no_terminator_no_lines(data.drop_last());
        assert(partial_tail(data.drop_last()).push(data.last()) =~= data);
    }
}

/// Scanning from a line in progress `cur`: the first line completed gains
/// `cur` as its head, later lines and the new tail are untouched; if nothing
/// completes, `cur` simply grows.
pub proof fn lemma_fold_cur_prefix(cur: Seq<u8>, data: Seq<u8>)
    ensures
        complete_lines(data).len() == 0 ==> line_fold(
            (LineAcc { lines: Seq::empty(), cur: cur }),
            data,
        ) == (LineAcc { lines: Seq::<Seq<u8>>::empty(), cur: cur + partial_tail(data) }),
        complete_lines(data).len() > 0 ==> line_fold(
            (LineAcc { lines: Seq::empty(), cur: cur }),
            data,
        ) == (LineAcc {
            lines: seq![cur + complete_lines(data)[0]] + complete_lines(data).skip(1),
            cur: partial_tail(data),
        }),
    decreases data.len(),
{
    let base = LineAcc { lines: Seq::<Seq<u8>>::empty(), cur: cur };
    if data.len() == 0 {
        assert(cur + partial_tail(data) =~= cur);
        assert(line_fold(base, data) == (LineAcc {
            lines: Seq::<Seq<u8>>::empty(),
            cur: cur + partial_tail(data),
        }));
    } else {
        let dl = data.drop_last();
        let b = data.last();
        lemma_fold_cur_prefix(cur, dl);
        let prev = line_scan(dl);
        if complete_lines(dl).len() == 0 {
            if b == NL {
                assert(complete_lines(data) =~= seq![prev.cur]);
                assert(seq![cur + complete_lines(data)[0]] + complete_lines(data).skip(1) =~= seq![
                    cur + prev.cur,
                ]);
                assert(line_fold(base, data).lines =~= seq![cur + prev.cur]);
            } else {
                assert(complete_lines(data) =~= complete_lines(dl));
                assert((cur + prev.cur).push(b) =~= cur + prev.cur.push(b));
            }
        } else {
            if b == NL {
                assert(complete_lines(data) =~= complete_lines(dl).push(prev.cur));
                assert(complete_lines(data)[0] == complete_lines(dl)[0]);
                assert((seq![cur + complete_lines(dl)[0]] + complete_lines(dl).skip(1)).push(
                    prev.cur,
                ) =~= seq![cur + complete_lines(data)[0]] + complete_lines(data).skip(1));
            } else {
                assert(complete_lines(data) =~= complete_lines(dl));
            }
        }
    }
}

/// A buffered partial fragment is neither split nor duplicated: once later
/// bytes bring a terminator, the fragment stands, whole and once, at the head
/// of the first line then completed.
pub proof fn lemma_partial_fragment_completes(d1: Seq<u8>, d2: Seq<u8>)
    requires
        forall|i: int| 0 <= i < d1.len() ==> d1[i] != NL,
        complete_lines(d2).len() > 0,
    ensures
        complete_lines(d1 + d2) == seq![d1 + complete_lines(d2)[0]] + complete_lines(d2).skip(1),
        partial_tail(d1 + d2) == partial_tail(d2),
{
    lemma_no_terminator_no_lines(d1);
    lemma_fold_concat(line_acc_init(), d1, d2);
    assert(line_scan(d1).lines =~= Seq::<Seq<u8>>::empty());
    assert(line_scan(d1) == (LineAcc { lines: Seq::<Seq<u8>>::empty(), cur: d1 }));
    lemma_fold_cur_prefix(d1, d2);
}

/// Byte accounting: scanned bytes are exactly the bytes of the completed
/// lines, one terminator each, plus the partial tail.
pub proof fn lemma_byte_accounting(data: Seq<u8>)
    ensures
        data.len() == total_line_bytes(complete_lines(data)) + partial_tail(data).len(),
    decreases data.len(),
{
    if data.len() > 0 {
        lemma_byte_accounting(data.drop_last());
        if data.last() == NL {
            let prev = line_scan(data.drop_last());
            assert(complete_lines(data).drop_last() =~= complete_lines(data.drop_last()));
            assert(complete_lines(data).last() == prev.cur);
        }
    }
}

/// Split `data` into its complete lines (terminators stripped, in order) and
/// the count of bytes they covered, terminators included. Bytes past the last
/// terminator are not returned and not counted.
pub fn split_lines(data: &Vec<u8>) -> (r: (Vec<Vec<u8>>, usize))
    ensures
        lines_view(r.0@) == complete_lines(data@),
        r.1 == consumed_len(data@),
{
    let mut lines: Vec<Vec<u8>> = Vec::new();
    let mut cur: Vec<u8> = Vec::new();
    let mut i: usize = 0;
    proof {
        assert(data@.take(0) =~= Seq::<u8>::empty());
        assert(lines_view(lines@) =~= Seq::<Seq<u8>>::empty());
    }
    while i < data.len()
        invariant
            i <= data.len(),
            lines_view(lines@) == line_scan(data@.take(i as int)).lines,
            cur@ == line_scan(data@.take(i as int)).cur,
        decreases data.len() - i,
    {
        let b = data[i];
        proof {
            lemma_scan_snoc(data@, i as int);
        }
        if b == NL {
            let ghost old_lines = lines@;
            let ghost finished = cur@;
            lines.push(cur);
            cur = Vec::new();
            proof {
                assert(lines_view(lines@) =~= lines_view(old_lines).push(finished));
            }
        } else {
            cur.push(b);
        }
        i = i + 1;
    }
    proof {
        assert(data@.take(data@.len() as int) =~= data@);
        lemma_tail_bound(data@);
    }
    let consumed: usize = data.len() - cur.len();
    (lines, consumed)
}

} // verus!
