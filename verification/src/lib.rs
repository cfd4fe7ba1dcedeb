//! Waveform summaries for linear-PCM audio.
//!
//! A decoded sample stream is partitioned into fixed-size chunks, one pair of
//! alternating negative/positive peak magnitudes is emitted per chunk, and the
//! pairs are scaled to the signed 8-bit range. A batch layer applies this to a
//! list of decoded files, isolating per-file failures and preserving order.

pub mod batch;
pub mod engine;
pub mod paths;

pub use batch::process_multiple_files;
pub use batch::process_one;
pub use batch::AudioWaveform;
pub use batch::DecodedAudio;

pub use engine::process_audio_file;
pub use engine::detail_level_for;
pub use engine::chunk_size_for;
pub use engine::DetailLevel;
pub use engine::WaveformError;
pub use paths::file_name_of;
pub use paths::has_wav_extension;
pub use paths::validate_audio_path;
pub use paths::validate_paths;
