use fsb5_mpeg::mpeg_fix::{
    fix_fsb5_mpeg, get_mpeg_bitrate, get_mpeg_frame_len_bytes, get_mpeg_sample_rate,
    next_multiple_of_4,
};

/// A valid MPEG-1 Layer III frame: 128 kbps, 44100 Hz, no padding bit,
/// so 144 * 128 * 1000 / 44100 = 417 bytes long.
fn frame_417(fill: u8) -> Vec<u8> {
    let mut f = vec![0xFF, 0xFB, 0x90, 0x00];
    f.extend(std::iter::repeat(fill).take(413));
    f
}

#[test]
fn empty_input_yields_empty_output() {
    let out = fix_fsb5_mpeg(&[]);
    assert_eq!(out.len(), 0);
}

#[test]
fn short_garbage_yields_empty_output() {
    assert_eq!(fix_fsb5_mpeg(&[0xFF, 0xFB, 0x90]).len(), 0);
    assert_eq!(fix_fsb5_mpeg(&[0x00, 0x01, 0x02, 0x03, 0x04]).len(), 0);
}

#[test]
fn two_frames_with_alignment_padding_removed() {
    let frame = frame_417(0xAA);
    let mut input = frame.clone();
    input.extend([0x00, 0x00, 0x00]);
    input.extend(frame.clone());
    assert_eq!(input.len(), 837);

    let out = fix_fsb5_mpeg(&input);
    let mut expected = frame.clone();
    expected.extend(frame.clone());
    assert_eq!(out.len(), 2 * 417);
    assert_eq!(out, expected);
    // the inter-frame zero run is gone: nothing in the result is zero
    // but the header bytes that were zero to begin with
    assert!(!out.windows(3).any(|w| w == [0x00, 0x00, 0x00]));
}

#[test]
fn nonzero_garbage_between_frames_removed() {
    let frame = frame_417(0xAA);
    let mut input = frame.clone();
    input.extend([0x11, 0x22, 0x33]);
    input.extend(frame.clone());

    let out = fix_fsb5_mpeg(&input);
    let mut expected = frame.clone();
    expected.extend(frame.clone());
    assert_eq!(out, expected);
}

#[test]
fn clean_stream_passes_through_unchanged() {
    let frame = frame_417(0x5C);
    let mut input = frame.clone();
    input.extend(frame.clone());
    let out = fix_fsb5_mpeg(&input);
    assert_eq!(out, input);
}

#[test]
fn output_never_longer_than_input() {
    let frame = frame_417(0xAA);
    let mut input = frame.clone();
    input.extend([0x00, 0x00, 0x00]);
    input.extend(frame);
    let out = fix_fsb5_mpeg(&input);
    assert!(out.len() <= input.len());

    let junk = vec![0x12u8; 100];
    assert!(fix_fsb5_mpeg(&junk).len() <= junk.len());
}

#[test]
fn truncated_frame_dropped_entirely() {
    let frame = frame_417(0xAA);
    // one byte short of a full frame: nothing may be copied
    let out = fix_fsb5_mpeg(&frame[..416]);
    assert_eq!(out.len(), 0);
}

#[test]
fn truncated_second_frame_dropped_scanning_stops() {
    let frame = frame_417(0xAA);
    let mut input = frame.clone();
    input.extend(&frame[..100]);
    let out = fix_fsb5_mpeg(&input);
    assert_eq!(out, frame);
}

#[test]
fn stray_byte_before_frame_is_skipped() {
    let frame = frame_417(0xAA);
    for stray in [0x00u8, 0x55, 0xFE] {
        let mut input = vec![stray];
        input.extend(frame.clone());
        let out = fix_fsb5_mpeg(&input);
        assert_eq!(out, frame, "stray byte {stray:#x} not skipped");
    }
}

#[test]
fn reserved_bitrate_index_advances_one_byte() {
    // 0xF0 in the third byte is bitrate index 15, the reserved slot:
    // the scanner must move on by one byte and still find the real frame.
    let frame = frame_417(0xAA);
    let mut input = vec![0xFF, 0xFB, 0xF0, 0x00];
    input.extend(frame.clone());
    let out = fix_fsb5_mpeg(&input);
    assert_eq!(out, frame);
}

#[test]
fn reserved_sample_rate_index_advances_one_byte() {
    // 0x9C puts the sample-rate index at 3, the reserved slot
    let frame = frame_417(0xAA);
    let mut input = vec![0xFF, 0xFB, 0x9C, 0x00];
    input.extend(frame.clone());
    let out = fix_fsb5_mpeg(&input);
    assert_eq!(out, frame);
}

#[test]
fn output_frames_revalidate_on_rescan() {
    let frame = frame_417(0xAA);
    let mut input = frame.clone();
    input.extend([0x00, 0x00, 0x00]);
    input.extend(frame.clone());
    let out = fix_fsb5_mpeg(&input);

    // the first copied frame re-validates from offset 0 of the output
    assert_eq!(out[0], 0xFF);
    assert_eq!(out[1] & 0xF0, 0xF0);
    let len = get_mpeg_frame_len_bytes(3, 128, 44100, 0) as usize;
    assert_eq!(len, 417);
    assert_eq!(&out[..4], &[0xFF, 0xFB, 0x90, 0x00]);
    assert_eq!(&out[len..len + 4], &[0xFF, 0xFB, 0x90, 0x00]);

    // and a second repair pass leaves the output untouched
    assert_eq!(fix_fsb5_mpeg(&out), out);
}

#[test]
fn bitrate_tables_exact_values() {
    // MPEG-1 tables, one per layer
    assert_eq!(get_mpeg_bitrate(0, 1, 14), 448);
    assert_eq!(get_mpeg_bitrate(0, 2, 9), 160);
    assert_eq!(get_mpeg_bitrate(0, 3, 9), 128);
    // MPEG-2 Layer I has its own table
    assert_eq!(get_mpeg_bitrate(1, 1, 9), 144);
    // MPEG-2/2.5 Layers II and III share one table
    assert_eq!(get_mpeg_bitrate(1, 2, 4), 32);
    assert_eq!(get_mpeg_bitrate(1, 3, 4), 32);
    assert_eq!(get_mpeg_bitrate(2, 3, 1), 8);
    // index 0 is "free", index 15 is reserved
    assert_eq!(get_mpeg_bitrate(0, 3, 0), 0);
    assert_eq!(get_mpeg_bitrate(0, 3, 15), -1);
    assert_eq!(get_mpeg_bitrate(2, 2, 15), -1);
}

#[test]
fn sample_rate_tables_exact_values() {
    assert_eq!(get_mpeg_sample_rate(0, 0), 44100);
    assert_eq!(get_mpeg_sample_rate(0, 1), 48000);
    assert_eq!(get_mpeg_sample_rate(0, 2), 32000);
    assert_eq!(get_mpeg_sample_rate(1, 1), 24000);
    assert_eq!(get_mpeg_sample_rate(2, 2), 8000);
    // index 3 is reserved for every version
    assert_eq!(get_mpeg_sample_rate(0, 3), -1);
    assert_eq!(get_mpeg_sample_rate(1, 3), -1);
    assert_eq!(get_mpeg_sample_rate(2, 3), -1);
    // a version index past 2.5 resolves to nothing
    assert_eq!(get_mpeg_sample_rate(3, 0), -1);
}

#[test]
fn frame_length_formulas() {
    // Layer I counts 4-byte slots
    assert_eq!(get_mpeg_frame_len_bytes(1, 448, 44100, 1), (121 + 1) * 4);
    assert_eq!(get_mpeg_frame_len_bytes(1, 32, 44100, 0), 8 * 4);
    // Layers II and III share the 144 multiplier
    assert_eq!(get_mpeg_frame_len_bytes(3, 128, 44100, 0), 417);
    assert_eq!(get_mpeg_frame_len_bytes(3, 128, 44100, 1), 418);
    assert_eq!(get_mpeg_frame_len_bytes(2, 192, 48000, 1), 577);
}

#[test]
fn next_multiple_of_4_rounds_up() {
    assert_eq!(next_multiple_of_4(0), 0);
    assert_eq!(next_multiple_of_4(1), 4);
    assert_eq!(next_multiple_of_4(416), 416);
    assert_eq!(next_multiple_of_4(417), 420);
    assert_eq!(next_multiple_of_4(418), 420);
    assert_eq!(next_multiple_of_4(419), 420);
}
