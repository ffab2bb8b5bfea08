//! Pre-recorded playback: decoding a WAV file into samples and pacing the
//! analysis loop to real time.
use vstd::prelude::*;

verus! {

/// Sample rate of the analysed audio, in Hz.
pub const SAMPLE_RATE: usize = 44100;

/// Length of one playback chunk in milliseconds.
pub const CHUNK_DURATION_MS: usize = 32;

/// Samples per playback chunk.
pub const CHUNK_SIZE: usize = SAMPLE_RATE * CHUNK_DURATION_MS / 1000;

#[verifier::external_type_specification]
#[verifier::external_body]
pub struct ExWavError(hound::Error);

/// The samples of a WAV file read as 16-bit integers, or `None` when the file
/// cannot be decoded that way.
pub uninterp spec fn wav_samples_of(bytes: Seq<u8>) -> Option<Seq<i16>>;

/// Relies on hound: `WavReader::new` parses the header and
/// `WavReader::samples::<i16>` yields every sample in file order; the outcome
/// depends on the bytes alone.
#[verifier::external_body]
fn read_wav_samples(bytes: &[u8]) -> (r: Result<Vec<i16>, hound::Error>)
    ensures
        match r {
            Ok(v) => wav_samples_of(bytes@) == Some(v@),
            Err(_) => wav_samples_of(bytes@) is None,
        },
{
    let mut reader = hound::WavReader::new(std::io::Cursor::new(bytes))?;
    reader.samples::<i16>().collect()
}

#[derive(Clone, Copy, Debug, PartialEq, Eq, Structural)]
pub enum AudioError {
    /// The bytes are not a WAV file whose samples read as 16-bit integers.
    MalformedWav,
}

/// The samples of a WAV file, interleaved channels in file order.
pub fn decode_wav(bytes: &[u8]) -> (r: Result<Vec<i16>, AudioError>)
    ensures
        match r {
            Ok(v) => wav_samples_of(bytes@) == Some(v@),
            Err(e) => e == AudioError::MalformedWav && wav_samples_of(bytes@) is None,
        },
{
    match read_wav_samples(bytes) {
        Ok(v) => Ok(v),
        Err(_) => Err(AudioError::MalformedWav),
    }
}

/// How long to sleep after a chunk that took `elapsed` to process so that one
/// chunk takes `target`: the remainder, never negative.
pub fn pacing_delay(elapsed_micros: u64, target_micros: u64) -> (r: u64)
    ensures
        r == if elapsed_micros < target_micros {
            target_micros - elapsed_micros
        } else {
            0
        },
{
    if elapsed_micros < target_micros {
        target_micros - elapsed_micros
    } else {
        0
    }
}

} // verus!
