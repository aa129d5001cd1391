use jaudio::wave_file::{extract_pcm_data, AudioFormat, WaveError, WaveFile, HEADER_LEN};

fn le32_at(b: &[u8], at: usize) -> u32 {
    u32::from_le_bytes([b[at], b[at + 1], b[at + 2], b[at + 3]])
}

fn le16_at(b: &[u8], at: usize) -> u16 {
    u16::from_le_bytes([b[at], b[at + 1]])
}

#[test]
fn pcm_format_code_is_one() {
    assert_eq!(AudioFormat::PCM.get_val(), 1);
    let w = WaveFile::new(AudioFormat::PCM, 1, 8000, 8);
    let out = w.to_bytes();
    assert_eq!(&out[20..22], &[0x01, 0x00]);
}

#[test]
fn new_derives_block_align_and_byte_rate() {
    let w = WaveFile::new(AudioFormat::PCM, 2, 44100, 16);
    assert_eq!(w.block_align(), 4);
    let out = w.to_bytes();
    assert_eq!(le32_at(&out, 28), 176400);
    assert_eq!(le16_at(&out, 32), 4);

    let w = WaveFile::new(AudioFormat::PCM, 6, 48000, 24);
    assert_eq!(w.block_align(), 18);
    let out = w.to_bytes();
    assert_eq!(le32_at(&out, 28), 864000);
    assert_eq!(le16_at(&out, 34), 24);
    assert_eq!(le16_at(&out, 22), 6);
    assert_eq!(le32_at(&out, 24), 48000);
}

#[test]
fn new_starts_empty() {
    let mut w = WaveFile::new(AudioFormat::PCM, 1, 22050, 8);
    assert!(w.bytes().is_empty());
}

#[test]
fn aligned_appends_concatenate_in_call_order() {
    let mut w = WaveFile::new(AudioFormat::PCM, 1, 8000, 16);
    let mut a = vec![1u8, 2];
    let mut b = vec![3u8, 4, 5, 6];
    let mut c: Vec<u8> = Vec::new();
    assert_eq!(w.add_bytes(&mut a), Ok(()));
    assert_eq!(w.add_bytes(&mut b), Ok(()));
    assert_eq!(w.add_bytes(&mut c), Ok(()));
    assert!(a.is_empty());
    assert!(b.is_empty());
    assert_eq!(w.bytes().clone(), vec![1u8, 2, 3, 4, 5, 6]);
}

#[test]
fn misaligned_append_leaves_everything_unchanged() {
    let mut w = WaveFile::new(AudioFormat::PCM, 2, 44100, 24);
    assert_eq!(w.block_align(), 6);
    let mut a = vec![9u8; 12];
    assert_eq!(w.add_bytes(&mut a), Ok(()));
    let mut b = vec![7u8; 8];
    assert_eq!(w.add_bytes(&mut b), Err(WaveError::AlignmentError));
    assert_eq!(b, vec![7u8; 8]);
    assert_eq!(w.bytes().clone(), vec![9u8; 12]);
}

#[test]
fn round_trip_gives_back_the_samples() {
    let mut w = WaveFile::new(AudioFormat::PCM, 2, 44100, 16);
    let samples: Vec<u8> = (0..40u8).collect();
    let mut input = samples.clone();
    assert_eq!(w.add_bytes(&mut input), Ok(()));
    let out = w.to_bytes();
    assert_eq!(extract_pcm_data(&out), Ok(samples));
}

#[test]
fn round_trip_of_an_empty_container() {
    let w = WaveFile::new(AudioFormat::PCM, 1, 8000, 8);
    let out = w.to_bytes();
    assert_eq!(extract_pcm_data(&out), Ok(Vec::new()));
}

#[test]
fn stream_length_is_header_plus_samples() {
    let mut w = WaveFile::new(AudioFormat::PCM, 1, 8000, 8);
    assert_eq!(w.to_bytes().len(), HEADER_LEN);
    assert_eq!(HEADER_LEN, 44);
    let mut a = vec![0x80u8; 7];
    assert_eq!(w.add_bytes(&mut a), Ok(()));
    assert_eq!(w.to_bytes().len(), 51);
}

#[test]
fn header_tags_stand_at_fixed_offsets() {
    for (ch, rate, bits) in [(1u32, 8000u32, 8u32), (2, 44100, 16), (70000, 3, 32)] {
        let w = WaveFile::new(AudioFormat::PCM, ch, rate, bits);
        let out = w.to_bytes();
        assert_eq!(&out[0..4], b"RIFF");
        assert_eq!(&out[8..12], b"WAVE");
        assert_eq!(&out[12..16], b"fmt ");
        assert_eq!(&out[36..40], b"data");
        assert_eq!(le32_at(&out, 16), 16);
    }
}

#[test]
fn stereo_frame_scenario() {
    let mut w = WaveFile::new(AudioFormat::PCM, 2, 44100, 16);
    let mut frame = vec![0x01u8, 0x00, 0x02, 0x00];
    assert_eq!(w.add_bytes(&mut frame), Ok(()));
    assert_eq!(w.block_align(), 4);
    let out = w.to_bytes();
    assert_eq!(out.len(), 48);
    assert_eq!(&out[24..28], &44100u32.to_le_bytes());
    assert_eq!(&out[32..34], &[0x04, 0x00]);
}

#[test]
fn misaligned_append_after_frame_scenario() {
    let mut w = WaveFile::new(AudioFormat::PCM, 2, 44100, 16);
    let mut frame = vec![0x01u8, 0x00, 0x02, 0x00];
    assert_eq!(w.add_bytes(&mut frame), Ok(()));
    let mut three = vec![0x05u8, 0x06, 0x07];
    assert_eq!(w.add_bytes(&mut three), Err(WaveError::AlignmentError));
    assert_eq!(w.bytes().len(), 4);
}

#[test]
fn extract_from_ten_bytes_is_out_of_bounds() {
    let raw = vec![0u8; 10];
    assert_eq!(extract_pcm_data(&raw), Err(WaveError::OutOfBounds));
}

#[test]
fn extract_from_forty_three_bytes_is_out_of_bounds() {
    let raw = vec![0u8; 43];
    assert_eq!(extract_pcm_data(&raw), Err(WaveError::OutOfBounds));
}

#[test]
fn extract_from_bare_header_is_empty() {
    let raw = vec![0xffu8; 44];
    assert_eq!(extract_pcm_data(&raw), Ok(Vec::new()));
}

#[test]
fn extract_from_scenario_stream() {
    let mut w = WaveFile::new(AudioFormat::PCM, 2, 44100, 16);
    let mut frame = vec![0x01u8, 0x00, 0x02, 0x00];
    assert_eq!(w.add_bytes(&mut frame), Ok(()));
    let out = w.to_bytes();
    assert_eq!(out.len(), 48);
    assert_eq!(extract_pcm_data(&out), Ok(vec![0x01u8, 0x00, 0x02, 0x00]));
}

#[test]
fn size_fields_count_the_sample_bytes() {
    let mut w = WaveFile::new(AudioFormat::PCM, 2, 44100, 16);
    let mut frame = vec![0x01u8, 0x00, 0x02, 0x00];
    assert_eq!(w.add_bytes(&mut frame), Ok(()));
    let out = w.to_bytes();
    assert_eq!(le32_at(&out, 4), 40);
    assert_eq!(le32_at(&out, 40), 4);
}

#[test]
fn data_size_counts_bytes_for_eight_bit_samples() {
    let mut w = WaveFile::new(AudioFormat::PCM, 2, 8000, 8);
    let mut a = vec![0x80u8; 6];
    assert_eq!(w.add_bytes(&mut a), Ok(()));
    let out = w.to_bytes();
    assert_eq!(le32_at(&out, 40), 6);
    assert_eq!(le32_at(&out, 4), 42);
}

#[test]
fn two_byte_fields_keep_their_low_bytes() {
    let w = WaveFile::new(AudioFormat::PCM, 70000, 1, 8);
    assert_eq!(w.block_align(), 70000);
    let out = w.to_bytes();
    assert_eq!(&out[22..24], &[0x70, 0x11]);
    assert_eq!(&out[32..34], &[0x70, 0x11]);
    assert_eq!(le32_at(&out, 28), 70000);
}

#[test]
fn samples_edited_through_bytes_are_serialised() {
    let mut w = WaveFile::new(AudioFormat::PCM, 1, 8000, 8);
    w.bytes().push(0x42);
    w.bytes().push(0x43);
    let out = w.to_bytes();
    assert_eq!(&out[44..], &[0x42, 0x43]);
    assert_eq!(le32_at(&out, 40), 2);
}
