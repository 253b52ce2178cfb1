use mimo_tts::error::AppError;
use mimo_tts::wav::{get_wav_data, get_wav_duration_parts, merge_wav_bytes, read_wav_header, WavSource};

/// A mono 16-bit 44.1 kHz WAV image of a 440 Hz tone lasting `duration_secs`.
fn create_test_wav(duration_secs: f64) -> Vec<u8> {
    const SAMPLE_RATE: u32 = 44100;
    const CHANNELS: u16 = 1;
    const BITS_PER_SAMPLE: u16 = 16;
    const BYTES_PER_SAMPLE: u16 = 2;
    let num_samples = (SAMPLE_RATE as f64 * duration_secs) as usize;
    let data_size = (num_samples * CHANNELS as usize * BYTES_PER_SAMPLE as usize) as u32;
    let file_size = 36 + data_size;
    let mut buf = Vec::with_capacity(44 + data_size as usize);
    buf.extend_from_slice(b"RIFF");
    buf.extend_from_slice(&file_size.to_le_bytes());
    buf.extend_from_slice(b"WAVE");
    buf.extend_from_slice(b"fmt ");
    buf.extend_from_slice(&16u32.to_le_bytes());
    buf.extend_from_slice(&1u16.to_le_bytes());
    buf.extend_from_slice(&CHANNELS.to_le_bytes());
    buf.extend_from_slice(&SAMPLE_RATE.to_le_bytes());
    let byte_rate = SAMPLE_RATE * CHANNELS as u32 * BYTES_PER_SAMPLE as u32;
    buf.extend_from_slice(&byte_rate.to_le_bytes());
    let block_align = CHANNELS * BYTES_PER_SAMPLE;
    buf.extend_from_slice(&block_align.to_le_bytes());
    buf.extend_from_slice(&BITS_PER_SAMPLE.to_le_bytes());
    buf.extend_from_slice(b"data");
    buf.extend_from_slice(&data_size.to_le_bytes());
    for i in 0..num_samples {
        let t = 2.0 * std::f64::consts::PI * 440.0 * i as f64 / SAMPLE_RATE as f64;
        let sample = (i16::MAX as f64 * t.sin()) as i16;
        buf.extend_from_slice(&sample.to_le_bytes());
    }
    buf
}

fn source(path: &str, bytes: Vec<u8>) -> WavSource {
    WavSource { path: path.to_string(), bytes }
}

fn seconds(data_size: u32, bits_per_second: u64) -> f64 {
    data_size as f64 * 8.0 / bits_per_second as f64
}

#[test]
fn test_merge_three_wavs() {
    let chunks = vec![
        source("chunk1.wav", create_test_wav(1.0)),
        source("chunk2.wav", create_test_wav(1.0)),
        source("chunk3.wav", create_test_wav(1.0)),
    ];
    let merged = merge_wav_bytes(&chunks, "merged.wav").unwrap();
    let duration = seconds(merged.data_size, merged.bits_per_second);
    assert!((duration - 3.0).abs() < 0.01, "Duration should be ~3.0s, got {duration}");
    let header = read_wav_header(&merged.bytes, "merged.wav").unwrap();
    assert_eq!(header.sample_rate, 44100);
    assert_eq!(header.channels, 1);
    assert_eq!(header.bits_per_sample, 16);
    assert_eq!(header.data_size as usize, merged.bytes.len() - 44);
    let riff = u32::from_le_bytes([merged.bytes[4], merged.bytes[5], merged.bytes[6], merged.bytes[7]]);
    assert_eq!(riff as usize, merged.bytes.len() - 8);
}

#[test]
fn test_merge_single_wav() {
    let wav = create_test_wav(1.0);
    let merged = merge_wav_bytes(&[source("single.wav", wav.clone())], "output.wav").unwrap();
    assert_eq!(merged.bytes, wav);
    let duration = seconds(merged.data_size, merged.bits_per_second);
    assert!((duration - 1.0).abs() < 0.01, "Duration should be ~1.0s, got {duration}");
}

#[test]
fn test_merge_empty_input() {
    let result = merge_wav_bytes(&[], "dummy.wav");
    match result {
        Err(AppError::InvalidInput(msg)) => {
            assert!(msg.contains("empty"), "Error should mention empty: {msg}");
        }
        _ => panic!("Expected InvalidInput error"),
    }
}

#[test]
fn test_read_wav_header_valid() {
    let wav = create_test_wav(0.5);
    let header = read_wav_header(&wav, "test.wav").unwrap();
    assert_eq!(header.sample_rate, 44100);
    assert_eq!(header.channels, 1);
    assert_eq!(header.bits_per_sample, 16);
}

#[test]
fn test_get_wav_duration() {
    let wav = create_test_wav(2.0);
    let (data_size, rate) = get_wav_duration_parts(&wav, "dur_test.wav").unwrap();
    let duration = seconds(data_size, rate);
    assert!((duration - 2.0).abs() < 0.01, "Duration should be ~2.0s, got {duration}");
}

#[test]
fn short_image_is_refused_with_its_size() {
    match read_wav_header(&[0u8; 10], "x.wav") {
        Err(AppError::InvalidInput(m)) => assert_eq!(m, "WAV file too small (10 bytes): x.wav"),
        other => panic!("unexpected {:?}", other),
    }
    match get_wav_data(&[0u8; 3], "y.wav") {
        Err(AppError::InvalidInput(m)) => assert_eq!(m, "WAV file too small (3 bytes): y.wav"),
        other => panic!("unexpected {:?}", other),
    }
}

#[test]
fn non_riff_image_is_refused() {
    let mut wav = create_test_wav(0.01);
    wav[0] = b'X';
    match read_wav_header(&wav, "bad.wav") {
        Err(AppError::InvalidInput(m)) => assert_eq!(m, "Not a valid WAV file: bad.wav"),
        other => panic!("unexpected {:?}", other),
    }
}

#[test]
fn zero_rate_header_has_no_duration() {
    let mut wav = create_test_wav(0.01);
    wav[24] = 0;
    wav[25] = 0;
    wav[26] = 0;
    wav[27] = 0;
    match get_wav_duration_parts(&wav, "z.wav") {
        Err(AppError::InvalidInput(m)) => assert_eq!(m, "Invalid WAV header parameters"),
        other => panic!("unexpected {:?}", other),
    }
}

#[test]
fn incompatible_chunk_is_named() {
    let mut other = create_test_wav(0.01);
    other[24..28].copy_from_slice(&22050u32.to_le_bytes());
    let chunks = vec![source("a.wav", create_test_wav(0.01)), source("b.wav", other)];
    match merge_wav_bytes(&chunks, "out.wav") {
        Err(AppError::InvalidInput(m)) => assert_eq!(
            m,
            "Incompatible WAV format in b.wav: expected 44100Hz/1ch/16bit, got 22050Hz/1ch/16bit"
        ),
        other => panic!("unexpected {:?}", other.map(|w| w.data_size)),
    }
}

#[test]
fn merged_data_is_the_concatenation() {
    let a = create_test_wav(0.01);
    let b = create_test_wav(0.02);
    let merged = merge_wav_bytes(&[source("a", a.clone()), source("b", b.clone())], "o").unwrap();
    let mut expected = a[44..].to_vec();
    expected.extend_from_slice(&b[44..]);
    assert_eq!(get_wav_data(&merged.bytes, "o").unwrap(), expected);
    assert_eq!(&merged.bytes[..4], b"RIFF");
    assert_eq!(&merged.bytes[8..40], &a[8..40]);
}
