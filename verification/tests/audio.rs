use topdown_racer::audio::create_pcm_wav;

/// 25 full cycles of a 110.25 Hz engine tone with three harmonics.
fn engine_samples() -> Vec<i16> {
    let sample_rate = 44100u32;
    let f0 = 110.25f32;
    (0..10000)
        .map(|i| {
            let t = i as f32 / sample_rate as f32;
            let p = 2.0 * std::f32::consts::PI * f0 * t;
            let v = p.sin() * 0.5 + (p * 2.0).sin() * 0.3 + (p * 3.0).sin() * 0.15
                + (p * 4.0).sin() * 0.05;
            (v * 16000.0) as i16
        })
        .collect()
}

/// 200 cycles of 882 Hz tire noise.
fn skid_samples() -> Vec<i16> {
    let sample_rate = 44100u32;
    (0..10000usize)
        .map(|i| {
            let t = i as f32 / sample_rate as f32;
            let carrier = (2.0 * std::f32::consts::PI * 882.0 * t).sin();
            let modulator = (2.0 * std::f32::consts::PI * 176.4 * t).sin();
            let hash =
                ((i.wrapping_mul(1103515245).wrapping_add(12345)) % 1000) as f32 / 1000.0 - 0.5;
            let v = (carrier * 0.6 + carrier * modulator * 0.2 + hash * 0.2).clamp(-1.0, 1.0);
            (v * 14000.0) as i16
        })
        .collect()
}

#[test]
fn pcm_wav_generator_produces_valid_wave_header() {
    let engine_wav = create_pcm_wav(44100, &engine_samples());
    assert!(engine_wav.len() > 44);
    assert_eq!(&engine_wav[0..4], b"RIFF");
    assert_eq!(&engine_wav[8..12], b"WAVE");
    assert_eq!(&engine_wav[12..16], b"fmt ");
    assert_eq!(&engine_wav[36..40], b"data");

    let skid_wav = create_pcm_wav(44100, &skid_samples());
    assert!(skid_wav.len() > 44);
    assert_eq!(&skid_wav[0..4], b"RIFF");
    assert_eq!(&skid_wav[8..12], b"WAVE");
}

#[test]
fn wav_header_fields_and_samples_are_little_endian() {
    let wav = create_pcm_wav(44100, &[1, -2, 0x1234]);
    let mut expected: Vec<u8> = Vec::new();
    expected.extend_from_slice(b"RIFF");
    expected.extend_from_slice(&(36u32 + 6).to_le_bytes());
    expected.extend_from_slice(b"WAVEfmt ");
    expected.extend_from_slice(&16u32.to_le_bytes());
    expected.extend_from_slice(&1u16.to_le_bytes());
    expected.extend_from_slice(&1u16.to_le_bytes());
    expected.extend_from_slice(&44100u32.to_le_bytes());
    expected.extend_from_slice(&88200u32.to_le_bytes());
    expected.extend_from_slice(&2u16.to_le_bytes());
    expected.extend_from_slice(&16u16.to_le_bytes());
    expected.extend_from_slice(b"data");
    expected.extend_from_slice(&6u32.to_le_bytes());
    expected.extend_from_slice(&[0x01, 0x00, 0xfe, 0xff, 0x34, 0x12]);
    assert_eq!(wav, expected);
}

#[test]
fn empty_wav_is_just_the_header() {
    let wav = create_pcm_wav(8000, &[]);
    assert_eq!(wav.len(), 44);
    assert_eq!(&wav[4..8], &36u32.to_le_bytes());
    assert_eq!(&wav[40..44], &0u32.to_le_bytes());
}
