//! The FSB5 MPEG frame scanner and its lookup tables.
//!
//! A frame begins with a 4-byte header: a sync pattern (`0xFF`, then a
//! byte whose high nibble is `0xF`), followed by bit fields giving the
//! MPEG version, layer, bitrate index, sample-rate index and padding bit.
//! The scanner copies each valid frame verbatim and skips the alignment
//! padding and zero runs that FSB5 inserts between frames.

use vstd::prelude::*;

verus! {

/// True when the two bytes carry the MPEG frame sync pattern.
pub open spec fn is_sync(b0: u8, b1: u8) -> bool {
    b0 == 0xFF && (b1 & 0xF0) == 0xF0
}

/// MPEG version index decoded from the second header byte:
/// 0 = MPEG-1, 1 = MPEG-2, 2 = MPEG-2.5 (3 = the reserved version slot).
pub open spec fn spec_version_index(b1: u8) -> int {
    3 - (((b1 >> 3) & 0x03) as int)
}

/// Layer decoded from the second header byte: 1, 2 or 3 (4 = reserved).
pub open spec fn spec_layer(b1: u8) -> int {
    4 - (((b1 >> 1) & 0x03) as int)
}

/// Bitrate table index: the high nibble of the third header byte.
pub open spec fn spec_bitrate_index(b2: u8) -> int {
    ((b2 >> 4) & 0x0F) as int
}

/// Sample-rate table index: bits 3..2 of the third header byte.
pub open spec fn spec_sample_rate_index(b2: u8) -> int {
    ((b2 >> 2) & 0x03) as int
}

/// Padding flag: bit 1 of the third header byte.
pub open spec fn spec_padding(b2: u8) -> int {
    ((b2 >> 1) & 0x01) as int
}

/// MPEG-1 Layer I bitrates in kbps; -1 marks the reserved slot.
pub open spec fn v1_bitrates_l1(i: int) -> int {
    if i == 0 { 0 } else if i == 1 { 32 } else if i == 2 { 64 }
    else if i == 3 { 96 } else if i == 4 { 128 } else if i == 5 { 160 }
    else if i == 6 { 192 } else if i == 7 { 224 } else if i == 8 { 256 }
    else if i == 9 { 288 } else if i == 10 { 320 } else if i == 11 { 352 }
    else if i == 12 { 384 } else if i == 13 { 416 } else if i == 14 { 448 }
    else { -1 }
}

/// MPEG-1 Layer II bitrates in kbps; -1 marks the reserved slot.
pub open spec fn v1_bitrates_l2(i: int) -> int {
    if i == 0 { 0 } else if i == 1 { 32 } else if i == 2 { 48 }
    else if i == 3 { 56 } else if i == 4 { 64 } else if i == 5 { 80 }
    else if i == 6 { 96 } else if i == 7 { 112 } else if i == 8 { 128 }
    else if i == 9 { 160 } else if i == 10 { 192 } else if i == 11 { 224 }
    else if i == 12 { 256 } else if i == 13 { 320 } else if i == 14 { 384 }
    else { -1 }
}

/// MPEG-1 Layer III bitrates in kbps; -1 marks the reserved slot.
pub open spec fn v1_bitrates_l3(i: int) -> int {
    if i == 0 { 0 } else if i == 1 { 32 } else if i == 2 { 40 }
    else if i == 3 { 48 } else if i == 4 { 56 } else if i == 5 { 64 }
    else if i == 6 { 80 } else if i == 7 { 96 } else if i == 8 { 112 }
    else if i == 9 { 128 } else if i == 10 { 160 } else if i == 11 { 192 }
    else if i == 12 { 224 } else if i == 13 { 256 } else if i == 14 { 320 }
    else { -1 }
}

/// MPEG-2/2.5 Layer I bitrates in kbps; -1 marks the reserved slot.
pub open spec fn v2_bitrates_l1(i: int) -> int {
    if i == 0 { 0 } else if i == 1 { 32 } else if i == 2 { 48 }
    else if i == 3 { 56 } else if i == 4 { 64 } else if i == 5 { 80 }
    else if i == 6 { 96 } else if i == 7 { 112 } else if i == 8 { 128 }
    else if i == 9 { 144 } else if i == 10 { 160 } else if i == 11 { 176 }
    else if i == 12 { 192 } else if i == 13 { 224 } else if i == 14 { 256 }
    else { -1 }
}

/// MPEG-2/2.5 bitrates in kbps, shared by Layer II and Layer III;
/// -1 marks the reserved slot.
pub open spec fn v2_bitrates_l2l3(i: int) -> int {
    if i == 0 { 0 } else if i == 1 { 8 } else if i == 2 { 16 }
    else if i == 3 { 24 } else if i == 4 { 32 } else if i == 5 { 40 }
    else if i == 6 { 48 } else if i == 7 { 56 } else if i == 8 { 64 }
    else if i == 9 { 80 } else if i == 10 { 96 } else if i == 11 { 112 }
    else if i == 12 { 128 } else if i == 13 { 144 } else if i == 14 { 160 }
    else { -1 }
}

/// MPEG-1 sample rates in Hz; -1 marks the reserved slot.
pub open spec fn sample_rates_v1(i: int) -> int {
    if i == 0 { 44100 } else if i == 1 { 48000 } else if i == 2 { 32000 } else { -1 }
}

/// MPEG-2 sample rates in Hz; -1 marks the reserved slot.
pub open spec fn sample_rates_v2(i: int) -> int {
    if i == 0 { 22050 } else if i == 1 { 24000 } else if i == 2 { 16000 } else { -1 }
}

/// MPEG-2.5 sample rates in Hz; -1 marks the reserved slot.
pub open spec fn sample_rates_v25(i: int) -> int {
    if i == 0 { 11025 } else if i == 1 { 12000 } else if i == 2 { 8000 } else { -1 }
}

/// Bitrate in kbps for a version index, layer and bitrate index.
/// For MPEG-2/2.5 Layer III the Layer II table is used, matching the
/// low-bitrate table sharing of the real MPEG-2 layout.
pub open spec fn spec_bitrate(version_index: int, layer: int, bitrate_index: int) -> int {
    let l = if version_index >= 1 && layer == 3 { 2 } else { layer };
    if version_index == 0 {
        if l == 1 { v1_bitrates_l1(bitrate_index) }
        else if l == 2 { v1_bitrates_l2(bitrate_index) }
        else if l == 3 { v1_bitrates_l3(bitrate_index) }
        else { -1 }
    } else {
        if l == 1 { v2_bitrates_l1(bitrate_index) }
        else if l == 2 || l == 3 { v2_bitrates_l2l3(bitrate_index) }
        else { -1 }
    }
}

/// Sample rate in Hz for a version index and sample-rate index.
pub open spec fn spec_sample_rate(version_index: int, sample_rate_index: int) -> int {
    if version_index == 0 { sample_rates_v1(sample_rate_index) }
    else if version_index == 1 { sample_rates_v2(sample_rate_index) }
    else if version_index == 2 { sample_rates_v25(sample_rate_index) }
    else { -1 }
}

/// Frame length in bytes. Layer I frames are counted in 4-byte slots;
/// Layers II and III share the 144 multiplier for every MPEG version.
/// MPEG-2/2.5 Layer III's alternate divisor is deliberately not
/// special-cased: byte-exact output compatibility comes first.
pub open spec fn spec_frame_len(layer: int, bitrate_kbps: int, sample_rate_hz: int, padding: int) -> int {
    if layer == 1 {
        ((12 * bitrate_kbps * 1000) / sample_rate_hz + padding) * 4
    } else {
        (144 * bitrate_kbps * 1000) / sample_rate_hz + padding
    }
}

fn bitrate_v1_l1(i: usize) -> (r: i32)
    requires
        i < 16,
    ensures
        r as int == v1_bitrates_l1(i as int),
{
    match i {
        0 => 0, 1 => 32, 2 => 64, 3 => 96, 4 => 128, 5 => 160, 6 => 192,
        7 => 224, 8 => 256, 9 => 288, 10 => 320, 11 => 352, 12 => 384,
        13 => 416, 14 => 448, _ => -1,
    }
}

fn bitrate_v1_l2(i: usize) -> (r: i32)
    requires
        i < 16,
    ensures
        r as int == v1_bitrates_l2(i as int),
{
    match i {
        0 => 0, 1 => 32, 2 => 48, 3 => 56, 4 => 64, 5 => 80, 6 => 96,
        7 => 112, 8 => 128, 9 => 160, 10 => 192, 11 => 224, 12 => 256,
        13 => 320, 14 => 384, _ => -1,
    }
}

fn bitrate_v1_l3(i: usize) -> (r: i32)
    requires
        i < 16,
    ensures
        r as int == v1_bitrates_l3(i as int),
{
    match i {
        0 => 0, 1 => 32, 2 => 40, 3 => 48, 4 => 56, 5 => 64, 6 => 80,
        7 => 96, 8 => 112, 9 => 128, 10 => 160, 11 => 192, 12 => 224,
        13 => 256, 14 => 320, _ => -1,
    }
}

fn bitrate_v2_l1(i: usize) -> (r: i32)
    requires
        i < 16,
    ensures
        r as int == v2_bitrates_l1(i as int),
{
    match i {
        0 => 0, 1 => 32, 2 => 48, 3 => 56, 4 => 64, 5 => 80, 6 => 96,
        7 => 112, 8 => 128, 9 => 144, 10 => 160, 11 => 176, 12 => 192,
        13 => 224, 14 => 256, _ => -1,
    }
}

fn bitrate_v2_l2l3(i: usize) -> (r: i32)
    requires
        i < 16,
    ensures
        r as int == v2_bitrates_l2l3(i as int),
{
    match i {
        0 => 0, 1 => 8, 2 => 16, 3 => 24, 4 => 32, 5 => 40, 6 => 48,
        7 => 56, 8 => 64, 9 => 80, 10 => 96, 11 => 112, 12 => 128,
        13 => 144, 14 => 160, _ => -1,
    }
}

fn sample_rate_v1(i: usize) -> (r: i32)
    requires
        i < 4,
    ensures
        r as int == sample_rates_v1(i as int),
{
    match i {
        0 => 44100, 1 => 48000, 2 => 32000, _ => -1,
    }
}

fn sample_rate_v2(i: usize) -> (r: i32)
    requires
        i < 4,
    ensures
        r as int == sample_rates_v2(i as int),
{
    match i {
        0 => 22050, 1 => 24000, 2 => 16000, _ => -1,
    }
}

fn sample_rate_v25(i: usize) -> (r: i32)
    requires
        i < 4,
    ensures
        r as int == sample_rates_v25(i as int),
{
    match i {
        0 => 11025, 1 => 12000, 2 => 8000, _ => -1,
    }
}

/// Bitrate in kbps for an MPEG version index (0: MPEG-1, 1: MPEG-2,
/// 2: MPEG-2.5), a layer in 1..=3 and a bitrate index in 0..16.
/// Returns 0 for the "free" slot and -1 for the reserved one; only a
/// positive result names a usable bitrate.
pub fn get_mpeg_bitrate(mpeg_version_index: u8, layer: i32, bitrate_index: usize) -> (r: i32)
    requires
        1 <= layer <= 3,
        bitrate_index < 16,
    ensures
        r as int == spec_bitrate(mpeg_version_index as int, layer as int, bitrate_index as int),
        -1 <= r <= 448,
{
    let l: i32 = if mpeg_version_index >= 1 && layer == 3 { 2 } else { layer };
    if mpeg_version_index == 0 {
        if l == 1 {
            bitrate_v1_l1(bitrate_index)
        } else if l == 2 {
            bitrate_v1_l2(bitrate_index)
        } else {
            bitrate_v1_l3(bitrate_index)
        }
    } else {
        if l == 1 {
            bitrate_v2_l1(bitrate_index)
        } else {
            bitrate_v2_l2l3(bitrate_index)
        }
    }
}

/// Sample rate in Hz for an MPEG version index (0: MPEG-1, 1: MPEG-2,
/// 2: MPEG-2.5) and a sample-rate index in 0..4. Returns -1 for the
/// reserved index and for any version index past 2.
pub fn get_mpeg_sample_rate(mpeg_version_index: usize, sample_rate_index: usize) -> (r: i32)
    requires
        sample_rate_index < 4,
    ensures
        r as int == spec_sample_rate(mpeg_version_index as int, sample_rate_index as int),
        -1 <= r <= 48000,
{
    match mpeg_version_index {
        0 => sample_rate_v1(sample_rate_index),
        1 => sample_rate_v2(sample_rate_index),
        2 => sample_rate_v25(sample_rate_index),
        _ => -1,
    }
}

/// Frame length in bytes from the decoded header fields, with
/// truncating integer division throughout.
pub fn get_mpeg_frame_len_bytes(layer: i32, bitrate_kbps: i32, sample_rate_hz: i32, padding: i32) -> (r: i32)
    requires
        0 < bitrate_kbps <= 448,
        0 < sample_rate_hz,
        0 <= padding <= 1,
    ensures
        r as int == spec_frame_len(layer as int, bitrate_kbps as int, sample_rate_hz as int, padding as int),
        0 <= r <= 64_512_001,
{
    let br: u64 = bitrate_kbps as u64;
    let sr: u64 = sample_rate_hz as u64;
    let pad: u64 = padding as u64;
    if layer == 1 {
        let q: u64 = (12 * br * 1000) / sr;
        proof {
            vstd::arithmetic::div_mod::lemma_div_basics_5(12 * br as int * 1000, sr as int);
        }
        ((q + pad) * 4) as i32
    } else {
        let q: u64 = (144 * br * 1000) / sr;
        proof {
            vstd::arithmetic::div_mod::lemma_div_basics_5(144 * br as int * 1000, sr as int);
        }
        (q + pad) as i32
    }
}

/// The least multiple of 4 that is `n` or more.
pub open spec fn spec_next_multiple_of_4(n: int) -> int {
    if n % 4 == 0 { n } else { n + (4 - n % 4) }
}

/// Frame length in bytes of the header candidate at `pos`, decoded from
/// its second and third bytes.
pub open spec fn frame_len_at(s: Seq<u8>, pos: int) -> int
    recommends
        0 <= pos,
        pos + 4 <= s.len(),
{
    let b1 = s[pos + 1];
    let b2 = s[pos + 2];
    spec_frame_len(
        spec_layer(b1),
        spec_bitrate(spec_version_index(b1), spec_layer(b1), spec_bitrate_index(b2)),
        spec_sample_rate(spec_version_index(b1), spec_sample_rate_index(b2)),
        spec_padding(b2),
    )
}

/// True when a usable frame header stands at `pos`: sync pattern present,
/// layer in 1..=3, bitrate and sample rate resolve to usable table entries,
/// and the computed frame length is not degenerate.
pub open spec fn header_ok(s: Seq<u8>, pos: int) -> bool
    recommends
        0 <= pos,
        pos + 4 <= s.len(),
{
    let b1 = s[pos + 1];
    let b2 = s[pos + 2];
    &&& is_sync(s[pos], b1)
    &&& 1 <= spec_layer(b1) <= 3
    &&& spec_bitrate(spec_version_index(b1), spec_layer(b1), spec_bitrate_index(b2)) > 0
    &&& spec_sample_rate(spec_version_index(b1), spec_sample_rate_index(b2)) > 0
    &&& frame_len_at(s, pos) >= 4
}

/// First offset at or after `pos` that does not hold a zero byte
/// (or the end of the buffer).
pub open spec fn skip_zeros(s: Seq<u8>, pos: int) -> int
    decreases s.len() - pos,
    when 0 <= pos <= s.len()
{
    if pos < s.len() && s[pos] == 0 {
        skip_zeros(s, pos + 1)
    } else {
        pos
    }
}

pub proof fn lemma_skip_zeros_bounds(s: Seq<u8>, pos: int)
    requires
        0 <= pos <= s.len(),
    ensures
        pos <= skip_zeros(s, pos) <= s.len(),
    decreases s.len() - pos,
{
    if pos < s.len() && s[pos] == 0 {
        lemma_skip_zeros_bounds(s, pos + 1);
    }
}

/// Where the scan resumes after a frame that ended at `pos` with length
/// `frame_len`. When the next two bytes already look like a sync pattern
/// (or fewer than two remain) the cursor stays put; otherwise it moves to
/// the next 4-byte-aligned offset, runs past every zero byte, and — when
/// that leaves it short of the end — steps back one byte so that a
/// trailing non-zero byte is re-examined as a sync candidate.
pub open spec fn next_scan_pos(s: Seq<u8>, pos: int, frame_len: int) -> int
    recommends
        0 <= pos <= s.len(),
        0 <= frame_len,
{
    if pos + 2 <= s.len() && !is_sync(s[pos], s[pos + 1]) {
        let seek = spec_next_multiple_of_4(frame_len) - frame_len;
        let aligned = if pos + seek <= s.len() { pos + seek } else { s.len() as int };
        let after_zeros = skip_zeros(s, aligned);
        if after_zeros < s.len() {
            if after_zeros >= 1 { after_zeros - 1 } else { 0 }
        } else {
            after_zeros
        }
    } else {
        pos
    }
}

pub proof fn lemma_next_scan_pos_bounds(s: Seq<u8>, pos: int, frame_len: int)
    requires
        0 <= pos <= s.len(),
        0 <= frame_len,
    ensures
        pos - 1 <= next_scan_pos(s, pos, frame_len) <= s.len(),
{
    if pos + 2 <= s.len() && !is_sync(s[pos], s[pos + 1]) {
        let seek = spec_next_multiple_of_4(frame_len) - frame_len;
        let aligned = if pos + seek <= s.len() { pos + seek } else { s.len() as int };
        lemma_skip_zeros_bounds(s, aligned);
    }
}

/// The repaired byte sequence produced by scanning `s` from `pos` on:
/// every valid frame is copied verbatim, bytes between frames are
/// dropped, and the scan ends silently once fewer than four bytes remain
/// or the next frame would run past the end of the buffer.
pub open spec fn scan_from(s: Seq<u8>, pos: int) -> Seq<u8>
    decreases s.len() - pos,
    when 0 <= pos
    via scan_from_decreases
{
    if pos + 4 > s.len() {
        Seq::empty()
    } else if !header_ok(s, pos) {
        scan_from(s, pos + 1)
    } else {
        let frame_len = frame_len_at(s, pos);
        if pos + frame_len > s.len() {
            Seq::empty()
        } else {
            s.subrange(pos, pos + frame_len)
                + scan_from(s, next_scan_pos(s, pos + frame_len, frame_len))
        }
    }
}

#[via_fn]
proof fn scan_from_decreases(s: Seq<u8>, pos: int) {
    if pos + 4 <= s.len() && header_ok(s, pos) {
        let frame_len = frame_len_at(s, pos);
        if pos + frame_len <= s.len() {
            lemma_next_scan_pos_bounds(s, pos + frame_len, frame_len);
        }
    }
}

/// Round `n` up to the next multiple of 4 (or keep it when it already is one).
pub fn next_multiple_of_4(n: i32) -> (r: i32)
    requires
        0 <= n <= 0x7FFFFFFC,
    ensures
        r as int == spec_next_multiple_of_4(n as int),
        n <= r < n + 4,
        r as int % 4 == 0,
{
    let rem: i32 = n % 4;
    if rem == 0 {
        n
    } else {
        n + (4 - rem)
    }
}

/// Scans `input` for MPEG frames and returns a buffer holding only the
/// valid frames, each copied verbatim, with all inter-frame padding and
/// zero runs removed. Never fails: malformed or truncated input degrades
/// to a shorter (possibly empty) output.
pub fn fix_fsb5_mpeg(input: &[u8]) -> (out: Vec<u8>)
    ensures
        out@ == scan_from(input@, 0),
{
    let end: usize = input.len();
    let mut out: Vec<u8> = Vec::new();
    let mut pos: usize = 0;
    while end - pos >= 4
        invariant_except_break
            pos <= end,
            end == input@.len(),
            scan_from(input@, 0) == out@ + scan_from(input@, pos as int),
        ensures
            pos <= end,
            end == input@.len(),
            scan_from(input@, 0) == out@ + scan_from(input@, pos as int),
            scan_from(input@, pos as int) == Seq::<u8>::empty(),
        decreases end - pos,
    {
        let ghost fstart: int = pos as int;
        let b0 = input[pos];
        let b1 = input[pos + 1];
        let b2 = input[pos + 2];

        // Validate the sync pattern: 0xFF, then a high nibble of 0xF.
        if !(b0 == 0xFF && (b1 & 0xF0) == 0xF0) {
            proof {
                assert(!header_ok(input@, fstart));
            }
            pos = pos + 1;
        } else {
            proof {
                assert(((b1 >> 3) & 0x03) <= 3) by (bit_vector);
                assert(((b1 >> 1) & 0x03) <= 3) by (bit_vector);
                assert(((b2 >> 4) & 0x0F) <= 15) by (bit_vector);
                assert(((b2 >> 2) & 0x03) <= 3) by (bit_vector);
                assert(((b2 >> 1) & 0x01) <= 1) by (bit_vector);
            }
            let version_index: u8 = 3 - ((b1 >> 3) & 0x03);
            let layer: i32 = 4 - (((b1 >> 1) & 0x03) as i32);
            if layer < 1 || layer > 3 {
                proof {
                    assert(!header_ok(input@, fstart));
                }
                pos = pos + 1;
            } else {
                let bitrate_index: usize = ((b2 >> 4) & 0x0F) as usize;
                let sample_rate_index: usize = ((b2 >> 2) & 0x03) as usize;
                let padding: i32 = ((b2 >> 1) & 0x01) as i32;

                let bitrate_kbps = get_mpeg_bitrate(version_index, layer, bitrate_index);
                if bitrate_kbps <= 0 {
                    proof {
                        assert(!header_ok(input@, fstart));
                    }
                    pos = pos + 1;
                } else {
                    let sample_rate = get_mpeg_sample_rate(version_index as usize, sample_rate_index);
                    if sample_rate <= 0 {
                        proof {
                            assert(!header_ok(input@, fstart));
                        }
                        pos = pos + 1;
                    } else {
                        let frame_len = get_mpeg_frame_len_bytes(layer, bitrate_kbps, sample_rate, padding);
                        if frame_len < 4 {
                            proof {
                                assert(!header_ok(input@, fstart));
                            }
                            pos = pos + 1;
                        } else {
                            proof {
                                assert(frame_len as int == frame_len_at(input@, fstart));
                                assert(header_ok(input@, fstart));
                            }
                            let flen: usize = frame_len as usize;
                            if flen > end - pos {
                                // Not enough data for the full frame: drop it
                                // and stop scanning.
                                proof {
                                    assert(scan_from(input@, fstart) == Seq::<u8>::empty());
                                }
                                break;
                            }
                            // Copy header and payload verbatim.
                            let ghost out_before: Seq<u8> = out@;
                            let mut i: usize = 0;
                            while i < flen
                                invariant
                                    i <= flen,
                                    pos + flen <= end,
                                    end == input@.len(),
                                    pos == fstart,
                                    out@ == out_before + input@.subrange(fstart, fstart + i as int),
                                decreases flen - i,
                            {
                                out.push(input[pos + i]);
                                i = i + 1;
                                proof {
                                    assert(out@ =~= out_before + input@.subrange(fstart, fstart + i as int));
                                }
                            }
                            pos = pos + flen;

                            // Peek: when what follows does not look like a
                            // header, realign to the next 4-byte boundary,
                            // run past zero bytes, then step back one byte.
                            if end - pos >= 2 && !(input[pos] == 0xFF && (input[pos + 1] & 0xF0) == 0xF0) {
                                let seek: usize = (next_multiple_of_4(frame_len) - frame_len) as usize;
                                if seek <= end - pos {
                                    pos = pos + seek;
                                } else {
                                    pos = end;
                                }
                                let ghost aligned: int = pos as int;
                                while pos < end && input[pos] == 0
                                    invariant
                                        aligned <= pos <= end,
                                        end == input@.len(),
                                        skip_zeros(input@, pos as int) == skip_zeros(input@, aligned),
                                    decreases end - pos,
                                {
                                    pos = pos + 1;
                                }
                                proof {
                                    assert(pos as int == skip_zeros(input@, aligned));
                                }
                                if pos < end {
                                    pos = pos - 1;
                                }
                                proof {
                                    assert(pos as int == next_scan_pos(input@, fstart + flen as int, flen as int));
                                }
                            } else {
                                proof {
                                    assert(pos as int == next_scan_pos(input@, fstart + flen as int, flen as int));
                                }
                            }
                            proof {
                                assert(scan_from(input@, fstart) == input@.subrange(fstart, fstart + flen as int)
                                    + scan_from(input@, pos as int));
                                assert(scan_from(input@, 0) =~= out@ + scan_from(input@, pos as int));
                            }
                        }
                    }
                }
            }
        }
    }
    proof {
        assert(out@ + Seq::<u8>::empty() =~= out@);
    }
    out
}

} // verus!
