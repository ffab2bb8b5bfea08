use audio_visualizer::audio::{decode_wav, pacing_delay, AudioError, CHUNK_SIZE};

fn wav_bytes(samples: &[i16]) -> Vec<u8> {
    let data_len = (samples.len() * 2) as u32;
    let mut b = Vec::new();
    b.extend_from_slice(b"RIFF");
    b.extend_from_slice(&(36 + data_len).to_le_bytes());
    b.extend_from_slice(b"WAVEfmt ");
    b.extend_from_slice(&16u32.to_le_bytes());
    b.extend_from_slice(&1u16.to_le_bytes());
    b.extend_from_slice(&1u16.to_le_bytes());
    b.extend_from_slice(&44100u32.to_le_bytes());
    b.extend_from_slice(&(44100u32 * 2).to_le_bytes());
    b.extend_from_slice(&2u16.to_le_bytes());
    b.extend_from_slice(&16u16.to_le_bytes());
    b.extend_from_slice(b"data");
    b.extend_from_slice(&data_len.to_le_bytes());
    for s in samples {
        b.extend_from_slice(&s.to_le_bytes());
    }
    b
}

#[test]
fn decodes_pcm16_wav() {
    let samples = vec![0i16, 1, -1, 32767, -32768, 1234];
    assert_eq!(decode_wav(&wav_bytes(&samples)), Ok(samples));
    assert_eq!(decode_wav(&wav_bytes(&[])), Ok(vec![]));
}

#[test]
fn rejects_what_is_not_wav() {
    assert_eq!(decode_wav(b"not a wav file at all"), Err(AudioError::MalformedWav));
    assert_eq!(decode_wav(&[]), Err(AudioError::MalformedWav));
}

#[test]
fn pacing_never_sleeps_a_negative_time() {
    assert_eq!(pacing_delay(5_000, 16_000), 11_000);
    assert_eq!(pacing_delay(16_000, 16_000), 0);
    assert_eq!(pacing_delay(40_000, 16_000), 0);
    assert_eq!(pacing_delay(0, 16_000), 16_000);
}

#[test]
fn playback_chunk_is_32_ms() {
    assert_eq!(CHUNK_SIZE, 1411);
}
