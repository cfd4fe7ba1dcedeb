//! The batch layer: one decoded outcome per input path is turned into one
//! result per path, in input order, failures isolated per file.

use vstd::prelude::*;
use crate::engine;
use crate::paths;

verus! {

/// One decoded audio stream as the decoder hands it over: the flattened
/// sample sequence plus the stream descriptor.
pub struct DecodedAudio {
    pub samples: Vec<i32>,
    pub sample_rate: u32,
    pub bits_per_sample: u16,
}

/// One successful batch entry: the waveform data and the file name (the final
/// path component) it belongs to.
#[derive(Debug)]
pub struct AudioWaveform {
    pub data: Vec<i8>,
    pub filename: String,
}

/// The message a failed batch entry carries: the offending path and the
/// underlying cause.
pub open spec fn spec_error_message(path: Seq<char>, cause: Seq<char>) -> Seq<char> {
    "Error processing "@ + path + ": "@ + cause
}

fn error_message(path: &str, cause: &str) -> (m: String)
    ensures
        m@ == spec_error_message(path@, cause@),
{
    String::from_str("Error processing ").concat(path).concat(": ").concat(cause)
}

/// What the batch layer owes for one path given its decode outcome: on a
/// decoded stream the engine's waveform under the path's file name, the
/// engine's refusals and the decoder's failures both as a message naming the
/// path, and nothing else.
pub open spec fn spec_batch_item(
    path: Seq<char>,
    decoded: Result<DecodedAudio, String>,
    r: Result<AudioWaveform, String>,
) -> bool {
    match decoded {
        Ok(d) => {
            match engine::spec_engine_error(
                d.samples@.len(),
                d.sample_rate as nat,
                d.bits_per_sample as nat,
            ) {
                Some(e) => {
                    &&& r is Err
                    &&& r->Err_0@ == spec_error_message(path, e.spec_message())
                },
                None => {
                    &&& r is Ok
                    &&& r->Ok_0.data@ == engine::spec_waveform(
                        d.samples@,
                        d.sample_rate as nat,
                        d.bits_per_sample as nat,
                    )
                    &&& r->Ok_0.filename@ == paths::spec_file_name(path)
                },
            }
        },
        Err(cause) => {
            &&& r is Err
            &&& r->Err_0@ == spec_error_message(path, cause@)
        },
    }
}

/// Process one path's decode outcome: run the engine on a decoded stream and
/// attach the file name, or wrap the failure into this path's error entry.
pub fn process_one(path: &str, decoded: &Result<DecodedAudio, String>) -> (r: Result<
    AudioWaveform,
    String,
>)
    ensures
        spec_batch_item(path@, *decoded, r),
{
    match decoded {
        Ok(d) => match engine::process_audio_file(&d.samples, d.sample_rate, d.bits_per_sample) {
            Ok(data) => Ok(
                AudioWaveform { data, filename: paths::file_name_of(path) },
            ),
            Err(e) => Err(error_message(path, e.message().as_str())),
        },
        Err(cause) => Err(error_message(path, cause.as_str())),
    }
}

/// Process a batch of decode outcomes, one per path: the result list has one
/// entry per path, in input order, each entry depending on its own path and
/// outcome alone, so one file's failure never disturbs its siblings.
pub fn process_multiple_files(
    paths: &Vec<String>,
    decoded: &Vec<Result<DecodedAudio, String>>,
) -> (results: Vec<Result<AudioWaveform, String>>)
    requires
        decoded@.len() == paths@.len(),
    ensures
        results@.len() == paths@.len(),
        forall|i: int|
            0 <= i < paths@.len() ==> spec_batch_item(
                paths@[i]@,
                decoded@[i],
                #[trigger] results@[i],
            ),
{
    let mut results: Vec<Result<AudioWaveform, String>> = Vec::new();
    let mut i: usize = 0;
    while i < paths.len()
        invariant
            i <= paths@.len(),
            decoded@.len() == paths@.len(),
            results@.len() == i as int,
            forall|j: int|
                0 <= j < i ==> spec_batch_item(paths@[j]@, decoded@[j], #[trigger] results@[j]),
        decreases paths@.len() - i,
    {
        let r = process_one(paths[i].as_str(), &decoded[i]);
        results.push(r);
        i = i + 1;
    }
    results
}

} // verus!
