use audiowaveform_rs::{
    file_name_of, has_wav_extension, process_multiple_files, process_one, validate_audio_path,
    validate_paths, DecodedAudio,
};

#[test]
fn file_name_is_final_component() {
    assert_eq!(file_name_of("dir/sub/x.wav"), "x.wav");
    assert_eq!(file_name_of("x.wav"), "x.wav");
    assert_eq!(file_name_of("/abs/path/track.wav"), "track.wav");
    assert_eq!(file_name_of("dir/"), "");
    assert_eq!(file_name_of(""), "");
}

#[test]
fn wav_extension_is_exact_and_case_sensitive() {
    assert!(has_wav_extension("a.wav"));
    assert!(has_wav_extension("dir/b.c.wav"));
    assert!(!has_wav_extension("b.mp3"));
    assert!(!has_wav_extension("a.WAV"));
    assert!(!has_wav_extension(".wav"));
    assert!(!has_wav_extension("noext"));
    assert!(!has_wav_extension("dir.wav/plain"));
}

#[test]
fn validate_reports_missing_file_first() {
    assert_eq!(validate_audio_path("a.wav", true), Ok(()));
    assert_eq!(
        validate_audio_path("a.wav", false),
        Err(String::from("The specified file does not exist."))
    );
    assert_eq!(
        validate_audio_path("b.mp3", true),
        Err(String::from("The specified file is not a WAV file."))
    );
}

#[test]
fn first_invalid_path_stops_the_batch() {
    let paths = vec![String::from("a.wav"), String::from("b.mp3")];
    let exists = vec![true, true];
    let err = validate_paths(&paths, &exists).unwrap_err();
    assert_eq!(err, "Error with file b.mp3: The specified file is not a WAV file.");
    assert!(err.contains("b.mp3"));

    let paths = vec![String::from("b.mp3"), String::from("c.mp3")];
    let err = validate_paths(&paths, &exists).unwrap_err();
    assert!(err.contains("b.mp3"));
    assert!(!err.contains("c.mp3"));

    let paths = vec![String::from("a.wav"), String::from("b.wav")];
    assert_eq!(validate_paths(&paths, &exists), Ok(()));
}

fn decoded(samples: Vec<i32>) -> DecodedAudio {
    DecodedAudio { samples, sample_rate: 3, bits_per_sample: 16 }
}

#[test]
fn batch_preserves_order_and_isolates_failures() {
    let paths = vec![
        String::from("dir/a.wav"),
        String::from("b.wav"),
        String::from("c.wav"),
    ];
    let outcomes: Vec<Result<DecodedAudio, String>> = vec![
        Ok(decoded(vec![0, 0, 0])),
        Err(String::from("decode failed")),
        Ok(decoded(vec![32767])),
    ];
    let results = process_multiple_files(&paths, &outcomes);
    assert_eq!(results.len(), 3);

    let a = results[0].as_ref().unwrap();
    assert_eq!(a.filename, "a.wav");
    assert_eq!(a.data, vec![0, 0, 0, 0, 0, 0]);

    let b = results[1].as_ref().unwrap_err();
    assert_eq!(b.as_str(), "Error processing b.wav: decode failed");

    let c = results[2].as_ref().unwrap();
    assert_eq!(c.filename, "c.wav");
    assert_eq!(c.data, vec![-126, 126]);
}

#[test]
fn engine_refusal_becomes_a_path_error() {
    let outcome: Result<DecodedAudio, String> = Ok(DecodedAudio {
        samples: vec![1, 2, 3],
        sample_rate: 0,
        bits_per_sample: 16,
    });
    let r = process_one("x.wav", &outcome);
    assert_eq!(
        r.unwrap_err(),
        "Error processing x.wav: chunk size is zero for this sample rate"
    );
}
