//! Laws of the frame scanner, proved over the scan model in [`crate::mpeg_fix`].

use vstd::prelude::*;
use crate::mpeg_fix::{
    scan_from, header_ok, frame_len_at, next_scan_pos, is_sync,
    lemma_next_scan_pos_bounds,
};

verus! {

/// True when `s`, from `pos` to its end, is nothing but back-to-back
/// valid frames: each header is usable, each frame lies fully inside the
/// buffer, and the next frame (or the end) follows immediately.
pub open spec fn clean_from(s: Seq<u8>, pos: int) -> bool
    decreases s.len() - pos,
    when 0 <= pos <= s.len()
{
    if pos == s.len() {
        true
    } else if pos + 4 <= s.len() && header_ok(s, pos) && pos + frame_len_at(s, pos) <= s.len() {
        clean_from(s, pos + frame_len_at(s, pos))
    } else {
        false
    }
}

/// Being a run of back-to-back frames does not depend on what stands in
/// front of it in the buffer.
proof fn lemma_clean_from_shift(a: Seq<u8>, b: Seq<u8>, pos: int)
    requires
        0 <= pos <= b.len(),
    ensures
        clean_from(a + b, a.len() + pos) == clean_from(b, pos),
    decreases b.len() - pos,
{
    let s = a + b;
    let p = a.len() + pos;
    if pos == b.len() {
        assert(p == s.len());
    } else if pos + 4 <= b.len() {
        assert(s[p] == b[pos]);
        assert(s[p + 1] == b[pos + 1]);
        assert(s[p + 2] == b[pos + 2]);
        assert(header_ok(s, p) == header_ok(b, pos));
        assert(frame_len_at(s, p) == frame_len_at(b, pos));
        if header_ok(b, pos) {
            let fl = frame_len_at(b, pos);
            if pos + fl <= b.len() {
                lemma_clean_from_shift(a, b, pos + fl);
            }
        }
    }
}

proof fn lemma_scan_of_clean(s: Seq<u8>, pos: int)
    requires
        0 <= pos <= s.len(),
        clean_from(s, pos),
    ensures
        scan_from(s, pos) == s.subrange(pos, s.len() as int),
    decreases s.len() - pos,
{
    if pos == s.len() {
        assert(scan_from(s, pos) =~= s.subrange(pos, s.len() as int));
    } else {
        let fl = frame_len_at(s, pos);
        let after = pos + fl;
        if after + 2 <= s.len() {
            // A clean stream continues with a frame header right away,
            // so the peek sees a sync pattern and the cursor stays put.
            reveal_with_fuel(clean_from, 2);
            assert(header_ok(s, after));
            assert(is_sync(s[after], s[after + 1]));
        }
        assert(next_scan_pos(s, after, fl) == after);
        lemma_scan_of_clean(s, after);
        assert(scan_from(s, pos) =~= s.subrange(pos, s.len() as int));
    }
}

/// A stream that holds only back-to-back valid frames with no padding
/// passes through the scanner unchanged, byte for byte.
pub proof fn lemma_clean_stream_unchanged(s: Seq<u8>)
    requires
        clean_from(s, 0),
    ensures
        scan_from(s, 0) == s,
{
    lemma_scan_of_clean(s, 0);
    assert(s.subrange(0, s.len() as int) =~= s);
}

proof fn lemma_scan_output_clean(s: Seq<u8>, pos: int)
    requires
        0 <= pos <= s.len(),
    ensures
        clean_from(scan_from(s, pos), 0),
    decreases s.len() - pos,
{
    if pos + 4 > s.len() {
        // the scan yields nothing, and nothing is vacuously clean
    } else if !header_ok(s, pos) {
        lemma_scan_output_clean(s, pos + 1);
    } else {
        let fl = frame_len_at(s, pos);
        if pos + fl <= s.len() {
            let next = next_scan_pos(s, pos + fl, fl);
            lemma_next_scan_pos_bounds(s, pos + fl, fl);
            lemma_scan_output_clean(s, next);
            let chunk = s.subrange(pos, pos + fl);
            let rest = scan_from(s, next);
            let o = chunk + rest;
            assert(o[0] == s[pos]);
            assert(o[1] == s[pos + 1]);
            assert(o[2] == s[pos + 2]);
            assert(header_ok(o, 0));
            assert(frame_len_at(o, 0) == fl);
            lemma_clean_from_shift(chunk, rest, 0);
            assert(clean_from(o, fl));
            assert(clean_from(o, 0));
        }
    }
}

/// Frame boundaries are preserved: the scanner's output is itself a run
/// of back-to-back valid frames — re-scanned from its own offset 0, every
/// copied frame re-validates as a sync-valid header whose computed length
/// is exactly the number of bytes copied for it.
pub proof fn lemma_output_frames_valid(s: Seq<u8>)
    ensures
        clean_from(scan_from(s, 0), 0),
{
    lemma_scan_output_clean(s, 0);
}

/// Repairing a stream twice gives what repairing it once gives: the
/// output is already clean, so a second pass copies it unchanged.
pub proof fn lemma_scan_idempotent(s: Seq<u8>)
    ensures
        scan_from(scan_from(s, 0), 0) == scan_from(s, 0),
{
    lemma_scan_output_clean(s, 0);
    lemma_clean_stream_unchanged(scan_from(s, 0));
}

/// True when the scan of `s` from `pos` never copies a byte twice.
/// After a copied frame, the cursor normally resumes at or past the
/// frame's end; the one exception is the step-back rule, which can move
/// it one byte back into the frame just copied. That byte is re-read
/// harmlessly unless a full valid frame starts exactly there — this
/// predicate rules that overlap out, step by step.
pub open spec fn stepback_safe(s: Seq<u8>, pos: int) -> bool
    decreases s.len() - pos,
    when 0 <= pos
    via stepback_safe_decreases
{
    if pos + 4 > s.len() {
        true
    } else if !header_ok(s, pos) {
        stepback_safe(s, pos + 1)
    } else {
        let frame_len = frame_len_at(s, pos);
        if pos + frame_len > s.len() {
            true
        } else {
            let next = next_scan_pos(s, pos + frame_len, frame_len);
            &&& (next >= pos + frame_len
                || next + 4 > s.len()
                || !header_ok(s, next)
                || next + frame_len_at(s, next) > s.len())
            &&& stepback_safe(s, next)
        }
    }
}

#[via_fn]
proof fn stepback_safe_decreases(s: Seq<u8>, pos: int) {
    if pos + 4 <= s.len() && header_ok(s, pos) {
        let frame_len = frame_len_at(s, pos);
        if pos + frame_len <= s.len() {
            lemma_next_scan_pos_bounds(s, pos + frame_len, frame_len);
        }
    }
}

proof fn lemma_clean_from_is_stepback_safe(s: Seq<u8>, pos: int)
    requires
        0 <= pos <= s.len(),
        clean_from(s, pos),
    ensures
        stepback_safe(s, pos),
    decreases s.len() - pos,
{
    if pos != s.len() {
        let fl = frame_len_at(s, pos);
        let after = pos + fl;
        if after + 2 <= s.len() {
            reveal_with_fuel(clean_from, 2);
            assert(is_sync(s[after], s[after + 1]));
        }
        assert(next_scan_pos(s, after, fl) == after);
        lemma_clean_from_is_stepback_safe(s, after);
    }
}

/// On a clean stream the cursor lands exactly on each next frame and the
/// step-back rule never fires, so such a stream is always stepback-safe:
/// the shrink-or-equal law applies to every clean input.
pub proof fn lemma_clean_stream_stepback_safe(s: Seq<u8>)
    requires
        clean_from(s, 0),
    ensures
        stepback_safe(s, 0),
{
    lemma_clean_from_is_stepback_safe(s, 0);
}

proof fn lemma_scan_len_bounded(s: Seq<u8>, pos: int)
    requires
        0 <= pos <= s.len(),
        stepback_safe(s, pos),
    ensures
        scan_from(s, pos).len() <= s.len() - pos,
    decreases s.len() - pos,
{
    if pos + 4 > s.len() {
        // nothing more is emitted
    } else if !header_ok(s, pos) {
        lemma_scan_len_bounded(s, pos + 1);
    } else {
        let fl = frame_len_at(s, pos);
        if pos + fl <= s.len() {
            let next = next_scan_pos(s, pos + fl, fl);
            lemma_next_scan_pos_bounds(s, pos + fl, fl);
            if next >= pos + fl {
                lemma_scan_len_bounded(s, next);
            } else {
                // The cursor stepped back one byte into the copied frame.
                // By stepback_safe no full frame starts there, so the scan
                // moves on (or stops) without copying that byte again.
                assert(next == pos + fl - 1);
                if next + 4 > s.len() {
                    assert(scan_from(s, next).len() == 0);
                } else if !header_ok(s, next) {
                    reveal_with_fuel(stepback_safe, 2);
                    lemma_scan_len_bounded(s, next + 1);
                    assert(scan_from(s, next) == scan_from(s, next + 1));
                } else {
                    assert(next + frame_len_at(s, next) > s.len());
                    assert(scan_from(s, next).len() == 0);
                }
            }
        }
    }
}

/// Monotonic shrink-or-equal: stripping padding never lengthens the
/// stream. This holds whenever the scan never copies a byte twice; the
/// step-back recovery rule can, in contrived inputs, re-enter a
/// just-copied frame and copy its last byte again, and `stepback_safe`
/// excludes exactly those scans.
pub proof fn lemma_output_not_longer(s: Seq<u8>)
    requires
        stepback_safe(s, 0),
    ensures
        scan_from(s, 0).len() <= s.len(),
{
    lemma_scan_len_bounded(s, 0);
}

/// Truncation safety: when the frame declared at `pos` would run past
/// the end of the buffer, the scan stops there and copies none of it.
pub proof fn lemma_truncated_frame_dropped(s: Seq<u8>, pos: int)
    requires
        0 <= pos,
        pos + 4 <= s.len(),
        header_ok(s, pos),
        pos + frame_len_at(s, pos) > s.len(),
    ensures
        scan_from(s, pos) == Seq::<u8>::empty(),
{
}

/// Resynchronization: a stray first byte that does not open a sync
/// pattern changes nothing but the starting point — the scan of the
/// whole buffer equals the scan that starts one byte later.
pub proof fn lemma_stray_byte_skipped(s: Seq<u8>)
    requires
        2 <= s.len(),
        !is_sync(s[0], s[1]),
    ensures
        scan_from(s, 0) == scan_from(s, 1),
{
    if s.len() < 4 {
        assert(scan_from(s, 0) =~= scan_from(s, 1));
    }
}

/// Resynchronization, second half: after the stray byte is skipped, the
/// valid frame that follows it is copied intact at the front of the output.
pub proof fn lemma_resync_copies_frame(s: Seq<u8>)
    requires
        5 <= s.len(),
        !is_sync(s[0], s[1]),
        header_ok(s, 1),
        1 + frame_len_at(s, 1) <= s.len(),
    ensures
        scan_from(s, 0).subrange(0, frame_len_at(s, 1)) == s.subrange(1, 1 + frame_len_at(s, 1)),
{
    lemma_stray_byte_skipped(s);
    let fl = frame_len_at(s, 1);
    assert(scan_from(s, 1).subrange(0, fl) =~= s.subrange(1, 1 + fl));
}

} // verus!

