use audiowaveform_rs::{
    chunk_size_for, detail_level_for, process_audio_file, DetailLevel, WaveformError,
};

#[test]
fn detail_level_boundaries() {
    let rate: u32 = 44100;
    // Exactly 300 s selects Medium, not Dense; exactly 600 s Coarse, not Medium.
    assert_eq!(detail_level_for(300 * rate as usize, rate), DetailLevel::Medium);
    assert_eq!(detail_level_for(600 * rate as usize, rate), DetailLevel::Coarse);
    assert_eq!(detail_level_for(300 * rate as usize - 1, rate), DetailLevel::Dense);
    assert_eq!(detail_level_for(600 * rate as usize - 1, rate), DetailLevel::Medium);
    assert_eq!(detail_level_for(0, rate), DetailLevel::Dense);
}

#[test]
fn chunk_size_uses_detail_divisor() {
    // 10 s at 44.1 kHz: Dense, so the chunk is a third of a second of samples.
    assert_eq!(chunk_size_for(44100, 441000), 14700);
    // 400 s: Medium, half a second of samples.
    assert_eq!(chunk_size_for(44100, 400 * 44100), 22050);
    // 700 s: Coarse, a full second of samples.
    assert_eq!(chunk_size_for(44100, 700 * 44100), 44100);
}

#[test]
fn waveform_length_is_twice_chunk_count() {
    // rate 6, short stream: Dense, chunk size 2; 7 samples -> 4 chunks -> 8 entries.
    let samples: Vec<i32> = vec![5, -3, 8, 0, 1, 2, 9];
    let w = process_audio_file(&samples, 6, 16).unwrap();
    assert_eq!(w.len(), 8);
    // rate 4: Dense, chunk size 1; 10 samples -> 20 entries.
    let samples: Vec<i32> = vec![1; 10];
    let w = process_audio_file(&samples, 4, 16).unwrap();
    assert_eq!(w.len(), 20);
}

#[test]
fn empty_stream_yields_empty_waveform() {
    let samples: Vec<i32> = Vec::new();
    let w = process_audio_file(&samples, 44100, 16).unwrap();
    assert!(w.is_empty());
}

#[test]
fn pairs_mirror_for_in_range_samples() {
    let samples: Vec<i32> = vec![20000, -15000, 300, -2, 0, 7, -32768, 32767, 12, -12];
    let w = process_audio_file(&samples, 6, 16).unwrap();
    assert_eq!(w.len() % 2, 0);
    for k in 0..w.len() / 2 {
        let neg = w[2 * k];
        let pos = w[2 * k + 1];
        assert_eq!(neg as i16, -(pos as i16));
        assert!((0..=127).contains(&pos));
    }
}

#[test]
fn all_zero_samples_yield_all_zero_waveform() {
    let samples: Vec<i32> = vec![0; 1000];
    let w = process_audio_file(&samples, 44100, 16).unwrap();
    assert_eq!(w.len(), 2);
    assert!(w.iter().all(|&v| v == 0));
    let samples: Vec<i32> = vec![0; 9];
    let w = process_audio_file(&samples, 9, 24).unwrap();
    assert_eq!(w.len(), 6);
    assert!(w.iter().all(|&v| v == 0));
}

#[test]
fn extraction_is_idempotent() {
    let samples: Vec<i32> = vec![4, -9, 100, -32768, 32767, 0, 55, -1];
    let w1 = process_audio_file(&samples, 5, 16).unwrap();
    let w2 = process_audio_file(&samples, 5, 16).unwrap();
    assert_eq!(w1, w2);
}

#[test]
fn end_to_end_square_wave() {
    // 10 s at 44.1 kHz, 16-bit: one square-wave half-cycle, low then high, at
    // the full nominal amplitude 2^15 so the scaled value is exactly 127.
    let rate: u32 = 44100;
    let total = 10 * rate as usize;
    let mut samples: Vec<i32> = Vec::with_capacity(total);
    for i in 0..total {
        samples.push(if i < total / 2 { -32768 } else { 32768 });
    }
    assert_eq!(detail_level_for(total, rate), DetailLevel::Dense);
    assert_eq!(chunk_size_for(rate, total), 14700);
    let w = process_audio_file(&samples, rate, 16).unwrap();
    assert_eq!(w.len(), 60);
    for k in 0..30 {
        assert_eq!(w[2 * k], -127);
        assert_eq!(w[2 * k + 1], 127);
    }
}

#[test]
fn near_maximum_sixteen_bit_peak_scales_to_126() {
    // The largest representable 16-bit sample is 32767, one below the nominal
    // amplitude 32768, so it floors to 126 rather than 127.
    let samples: Vec<i32> = vec![32767, -32767, 32767];
    let w = process_audio_file(&samples, 3, 16).unwrap();
    assert_eq!(w, vec![-126, 126, -126, 126, -126, 126]);
}

#[test]
fn one_bit_depth_boundary_values() {
    // Bit depth 1 has nominal amplitude 1: a peak of 1 scales to exactly 127.
    let samples: Vec<i32> = vec![1];
    let w = process_audio_file(&samples, 3, 1).unwrap();
    assert_eq!(w, vec![-127, 127]);
    // A peak above the nominal amplitude wraps through the 8-bit cast:
    // 2 * 127 = 254 truncates to -2, and its emitted partner is 2.
    let samples: Vec<i32> = vec![2];
    let w = process_audio_file(&samples, 3, 1).unwrap();
    assert_eq!(w, vec![2, -2]);
    // 3 * 127 = 381 truncates to 125.
    let samples: Vec<i32> = vec![3];
    let w = process_audio_file(&samples, 3, 1).unwrap();
    assert_eq!(w, vec![-125, 125]);
}

#[test]
fn most_negative_sample_at_full_depth() {
    // |i32::MIN| is 2^31, the nominal amplitude of a 32-bit stream.
    let samples: Vec<i32> = vec![i32::MIN];
    let w = process_audio_file(&samples, 3, 32).unwrap();
    assert_eq!(w, vec![-127, 127]);
}

#[test]
fn zero_chunk_size_is_refused() {
    // A sample rate below the detail divisor floors the chunk size to zero.
    let samples: Vec<i32> = vec![1, 2, 3];
    assert_eq!(process_audio_file(&samples, 2, 16), Err(WaveformError::ZeroChunkSize));
    assert_eq!(process_audio_file(&samples, 0, 16), Err(WaveformError::ZeroChunkSize));
    assert_eq!(
        WaveformError::ZeroChunkSize.message(),
        "chunk size is zero for this sample rate"
    );
}

#[test]
fn zero_bit_depth_is_refused() {
    let samples: Vec<i32> = vec![1, 2, 3];
    assert_eq!(process_audio_file(&samples, 44100, 0), Err(WaveformError::ZeroBitDepth));
    assert_eq!(WaveformError::ZeroBitDepth.message(), "bit depth is zero");
}
