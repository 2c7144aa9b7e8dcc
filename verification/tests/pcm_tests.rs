use neuro_note::pcm::{downmix_to_mono, resample_to_16k, samples_to_le_bytes, to_pcm16_mono_16k};
use neuro_note::remap_u16_sample;
use neuro_note::session::AudioChunk;

#[test]
fn test_to_pcm_identity_when_16k_mono() {
    let samples: Vec<i16> = (0..100).map(|i| i as i16).collect();
    let bytes = to_pcm16_mono_16k(&samples, 1, 16_000);
    assert_eq!(bytes.len(), samples.len() * 2);
    // First few bytes match little endian of samples
    assert_eq!(bytes[0], (0i16).to_le_bytes()[0]);
    assert_eq!(bytes[2], (1i16).to_le_bytes()[0]);
}

#[test]
fn test_to_pcm_downmix_stereo() {
    // Two-channel interleaved: L=1000, R=3000 -> avg=2000
    let samples: Vec<i16> = vec![1000, 3000, 1000, 3000, 1000, 3000];
    let bytes = to_pcm16_mono_16k(&samples, 2, 16_000);
    assert_eq!(bytes.len(), 3 * 2);
    let v = i16::from_le_bytes([bytes[0], bytes[1]]);
    assert_eq!(v, 2000);
}

#[test]
fn test_to_pcm_resample_8k_to_16k() {
    let samples: Vec<i16> = (0..80).map(|i| (i * 100) as i16).collect();
    let bytes = to_pcm16_mono_16k(&samples, 1, 8_000);
    // Expect roughly doubled samples (linear interpolation)
    assert!(bytes.len() >= samples.len() * 2);
}

#[test]
fn test_audio_conversion() {
    // Test mono 16kHz (should be identity)
    let samples: Vec<i16> = (0..160).map(|i| i as i16).collect();
    let result = to_pcm16_mono_16k(&samples, 1, 16000);
    assert_eq!(result.len(), samples.len() * 2); // 2 bytes per i16

    // Test stereo downmix
    let stereo_samples: Vec<i16> = vec![1000, 3000, 1000, 3000]; // L=1000, R=3000
    let result = to_pcm16_mono_16k(&stereo_samples, 2, 16000);
    assert_eq!(result.len(), 4); // 2 samples * 2 bytes each
    let first_sample = i16::from_le_bytes([result[0], result[1]]);
    assert_eq!(first_sample, 2000); // Average of 1000 and 3000

    // Test resampling from 8kHz to 16kHz
    let samples_8k: Vec<i16> = (0..80).map(|i| (i * 100) as i16).collect();
    let result = to_pcm16_mono_16k(&samples_8k, 1, 8000);
    assert!(result.len() >= samples_8k.len() * 2); // Should be roughly doubled
}

#[test]
fn test_audio_chunk_creation() {
    let chunk = AudioChunk {
        samples: vec![100, 200, 300],
        channels: 1,
        sample_rate: 16000,
    };

    assert_eq!(chunk.samples.len(), 3);
    assert_eq!(chunk.channels, 1);
    assert_eq!(chunk.sample_rate, 16000);
}

#[test]
fn test_downmix_negative_and_partial_frame() {
    // Truncating average of a negative pair, plus a trailing partial frame
    // that is still divided by the full channel count.
    let samples: Vec<i16> = vec![-1001, -1002, 500];
    let mono = downmix_to_mono(&samples, 2);
    assert_eq!(mono, vec![-1001, 250]);
}

#[test]
fn test_resample_doubles_8k_exactly() {
    let samples: Vec<i16> = vec![0, 1000, 2000, 3000];
    let out = resample_to_16k(&samples, 8000);
    assert_eq!(out.len(), 8);
    // Even positions copy the source, odd positions interpolate halfway.
    assert_eq!(out[0], 0);
    assert_eq!(out[1], 500);
    assert_eq!(out[2], 1000);
    assert_eq!(out[3], 1500);
}

#[test]
fn test_le_bytes_negative_sample() {
    let out = samples_to_le_bytes(&[-2i16]);
    assert_eq!(out, (-2i16).to_le_bytes().to_vec());
}

#[test]
fn test_remap_u16_sample() {
    assert_eq!(remap_u16_sample(0), -32768);
    assert_eq!(remap_u16_sample(32768), 0);
    assert_eq!(remap_u16_sample(65535), 32767);
}
