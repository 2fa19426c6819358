//! Audio admission, encodings, resampling, and voice activity.

use impossible_voice::audio::{AudioError, AudioLimits, MonoPcm};
use impossible_voice::incremental::IncrementalPcm16;
use impossible_voice::resample::{Interpolation, Resampling, StreamingResampler};
use impossible_voice::sample::Sample;
use impossible_voice::vad::{EnergyVad, VadConfig, VadEvent};

fn sample(value: f32) -> Sample {
    Sample { bits: value.to_bits() }
}

fn samples(values: &[f32]) -> Vec<Sample> {
    values.iter().map(|value| sample(*value)).collect()
}

fn number(value: Sample) -> f32 {
    f32::from_bits(value.bits)
}

fn interpolate(step: &Interpolation) -> f32 {
    let fraction = f32::from(step.numerator) / f32::from(step.denominator);
    number(step.left) + (number(step.right) - number(step.left)) * fraction
}

fn resample(audio: &MonoPcm, rate: u32) -> Result<MonoPcm, AudioError> {
    match audio.resample(rate)? {
        Resampling::Unchanged(same) => Ok(same),
        Resampling::Steps(steps) => MonoPcm::new(
            rate,
            steps.iter().map(|step| sample(interpolate(step))).collect(),
        ),
    }
}

fn voiced(config: &VadConfig, frame: &[Sample]) -> bool {
    let energy = frame
        .iter()
        .map(|value| f64::from(number(*value)) * f64::from(number(*value)))
        .sum::<f64>()
        / frame.len() as f64;
    energy.sqrt() >= f64::from(number(config.rms_threshold))
}

#[test]
fn pcm16_round_trips_through_wav() {
    let pcm = [i16::MIN, -1, 0, 1, i16::MAX]
        .into_iter()
        .flat_map(i16::to_le_bytes)
        .collect::<Vec<_>>();
    let audio = MonoPcm::from_pcm16_le(&pcm, 16_000, AudioLimits::default()).unwrap();
    let wav = audio.to_wav_pcm16().unwrap();
    let decoded = MonoPcm::from_wav(&wav, AudioLimits::default()).unwrap();
    assert_eq!(decoded.to_pcm16_le(), pcm);
}

#[test]
fn wav_rejects_stereo_and_declared_length_mismatch() {
    let audio = MonoPcm::new(16_000, samples(&[0.0, 0.5])).unwrap();
    let mut wav = audio.to_wav_pcm16().unwrap();
    wav[22..24].copy_from_slice(&2_u16.to_le_bytes());
    assert!(MonoPcm::from_wav(&wav, AudioLimits::default()).is_err());
    wav[22..24].copy_from_slice(&1_u16.to_le_bytes());
    wav.push(0);
    assert!(MonoPcm::from_wav(&wav, AudioLimits::default()).is_err());
}

#[test]
fn duration_and_encoded_size_limits_fail_before_decode() {
    let bytes = vec![0_u8; 3_202];
    let short = AudioLimits::new(bytes.len(), 100).unwrap();
    assert!(MonoPcm::from_pcm16_le(&bytes, 16_000, short).is_err());
    let small = AudioLimits::new(2, 1_000).unwrap();
    assert!(MonoPcm::from_pcm16_le(&bytes, 16_000, small).is_err());
}

#[test]
fn incremental_pcm_accepts_split_samples_and_rejects_partial_finish() {
    let mut decoder = IncrementalPcm16::new(16_000, AudioLimits::default()).unwrap();
    assert!(decoder.push(&[0x34]).unwrap().is_empty());
    let emitted = decoder.push(&[0x12, 0x78, 0x56]).unwrap();
    assert_eq!(emitted.len(), 2);
    assert_eq!(decoder.finish().unwrap().to_pcm16_le(), [0x34, 0x12, 0x78, 0x56]);

    let mut partial = IncrementalPcm16::new(16_000, AudioLimits::default()).unwrap();
    let _ = partial.push(&[1]).unwrap();
    assert!(partial.finish().is_err());
}

#[test]
fn resampling_is_deterministic_and_preserves_endpoints() {
    let input = MonoPcm::new(8_000, samples(&[-1.0, 0.0, 1.0])).unwrap();
    let first = resample(&input, 16_000).unwrap();
    let second = resample(&input, 16_000).unwrap();
    assert_eq!(first, second);
    assert_eq!(first.samples().first(), Some(&sample(-1.0)));
    assert_eq!(first.samples().last(), Some(&sample(1.0)));
    assert_eq!(first.samples().len(), 5);
}

#[test]
fn vad_has_bounded_start_and_end_transitions() {
    let config = VadConfig {
        rms_threshold: sample(0.1),
        min_speech_ms: 20,
        trailing_silence_ms: 40,
        max_utterance_ms: 1_000,
    };
    let mut vad = EnergyVad::new(config, 16_000).unwrap();
    let mut process = |vad: &mut EnergyVad, frame: Vec<Sample>| {
        let loud = voiced(&config, &frame);
        vad.process(&frame, loud).unwrap()
    };
    assert_eq!(process(&mut vad, vec![sample(0.5); 160]), VadEvent::Unchanged);
    assert_eq!(process(&mut vad, vec![sample(0.5); 160]), VadEvent::Started);
    assert!(vad.active());
    assert_eq!(process(&mut vad, vec![sample(0.0); 320]), VadEvent::Unchanged);
    assert_eq!(process(&mut vad, vec![sample(0.0); 320]), VadEvent::Ended);
    assert!(!vad.active());
}

#[test]
fn every_pcm16_value_is_an_exact_single_precision_number() {
    for value in i16::MIN..=i16::MAX {
        let expected = f32::from(value) / 32_768.0;
        let converted = Sample::from_pcm16(value);
        assert_eq!(converted.bits, expected.to_bits());
        assert_eq!(converted.to_pcm16(), value);
    }
}

#[test]
fn samples_round_to_the_nearest_pcm16_value_away_from_zero() {
    let reference = |value: f32| -> i16 {
        if value <= -1.0 {
            i16::MIN
        } else {
            (value.clamp(-1.0, 1.0) * 32_768.0)
                .round()
                .clamp(f32::from(i16::MIN), f32::from(i16::MAX)) as i16
        }
    };
    let mut cases = vec![0.0_f32, -0.0, 1.0, -1.0, 0.5, -0.5, 0.25, 1.0e-5, -1.0e-5, 1.0e-40];
    for step in 0..2_000_u32 {
        let value = step as f32 / 2_000.0;
        cases.push(value);
        cases.push(-value);
        cases.push((step as f32 + 0.5) / 32_768.0);
        cases.push(-(step as f32 + 0.5) / 32_768.0);
    }
    for value in cases {
        assert_eq!(sample(value).to_pcm16(), reference(value), "{value}");
    }
}

#[test]
fn samples_outside_the_normal_range_are_refused() {
    for value in [1.000_001_f32, -1.000_001, f32::NAN, f32::INFINITY, f32::NEG_INFINITY] {
        let refused = MonoPcm::new(16_000, vec![sample(value)]);
        assert_eq!(refused.unwrap_err().message, "audio samples are invalid");
    }
    assert_eq!(
        MonoPcm::new(16_000, Vec::new()).unwrap_err().message,
        "audio must contain samples"
    );
    assert_eq!(
        MonoPcm::new(11_025, vec![sample(0.0)]).unwrap_err().message,
        "audio sample rate is unsupported"
    );
}

#[test]
fn every_supported_rate_is_accepted() {
    for rate in [8_000, 16_000, 22_050, 24_000, 32_000, 44_100, 48_000] {
        assert_eq!(MonoPcm::new(rate, vec![sample(0.0)]).unwrap().sample_rate(), rate);
    }
    assert!(MonoPcm::new(0, vec![sample(0.0)]).is_err());
}

#[test]
fn limits_must_be_positive_and_name_what_they_refuse() {
    assert_eq!(AudioLimits::new(0, 1).unwrap_err().message, "audio limits must be non-zero");
    assert_eq!(AudioLimits::new(1, 0).unwrap_err().message, "audio limits must be non-zero");
    let limits = AudioLimits::new(4, 1_000).unwrap();
    assert_eq!(
        MonoPcm::from_pcm16_le(&[0; 6], 16_000, limits).unwrap_err().message,
        "encoded audio exceeds its byte limit"
    );
    let brief = AudioLimits::new(1_000_000, 1).unwrap();
    assert!(MonoPcm::from_pcm16_le(&[0; 32], 16_000, brief).is_ok());
    assert_eq!(
        MonoPcm::from_pcm16_le(&[0; 34], 16_000, brief).unwrap_err().message,
        "audio duration exceeds its limit"
    );
    let endless = AudioLimits::new(1_000_000, u64::MAX).unwrap();
    assert_eq!(
        MonoPcm::from_pcm16_le(&[0; 2], 16_000, endless).unwrap_err().message,
        "audio duration exceeds its limit"
    );
    let audio = MonoPcm::from_pcm16_le(&[0; 6], 16_000, AudioLimits::default()).unwrap();
    assert!(limits.validate_pcm(&audio).is_err());
    assert!(AudioLimits::default().validate_pcm(&audio).is_ok());
}

#[test]
fn raw_pcm_of_odd_or_no_length_is_refused() {
    for bytes in [vec![], vec![1_u8], vec![1, 2, 3]] {
        assert_eq!(
            MonoPcm::from_pcm16_le(&bytes, 16_000, AudioLimits::default()).unwrap_err().message,
            "PCM16 audio has an invalid byte length"
        );
    }
}

#[test]
fn wav_header_has_the_canonical_form() {
    let audio = MonoPcm::from_pcm16_le(&[1, 2, 3, 4], 22_050, AudioLimits::default()).unwrap();
    let wav = audio.to_wav_pcm16().unwrap();
    let mut expected = b"RIFF".to_vec();
    expected.extend_from_slice(&40_u32.to_le_bytes());
    expected.extend_from_slice(b"WAVEfmt ");
    expected.extend_from_slice(&16_u32.to_le_bytes());
    expected.extend_from_slice(&1_u16.to_le_bytes());
    expected.extend_from_slice(&1_u16.to_le_bytes());
    expected.extend_from_slice(&22_050_u32.to_le_bytes());
    expected.extend_from_slice(&44_100_u32.to_le_bytes());
    expected.extend_from_slice(&2_u16.to_le_bytes());
    expected.extend_from_slice(&16_u16.to_le_bytes());
    expected.extend_from_slice(b"data");
    expected.extend_from_slice(&4_u32.to_le_bytes());
    expected.extend_from_slice(&[1, 2, 3, 4]);
    assert_eq!(wav, expected);
}

fn container(chunks: &[(&[u8; 4], &[u8])]) -> Vec<u8> {
    let mut body = b"WAVE".to_vec();
    for (tag, content) in chunks {
        body.extend_from_slice(*tag);
        body.extend_from_slice(&(content.len() as u32).to_le_bytes());
        body.extend_from_slice(content);
        if content.len() % 2 == 1 {
            body.push(0);
        }
    }
    let mut file = b"RIFF".to_vec();
    file.extend_from_slice(&(body.len() as u32).to_le_bytes());
    file.extend_from_slice(&body);
    file
}

fn format_chunk(rate: u32) -> Vec<u8> {
    let mut chunk = vec![1, 0, 1, 0];
    chunk.extend_from_slice(&rate.to_le_bytes());
    chunk.extend_from_slice(&(2 * rate).to_le_bytes());
    chunk.extend_from_slice(&[2, 0, 16, 0]);
    chunk
}

fn wav_error(bytes: &[u8]) -> &'static str {
    MonoPcm::from_wav(bytes, AudioLimits::default()).unwrap_err().message
}

#[test]
fn wav_chunks_may_come_in_any_order_with_unknown_ones_between() {
    let format = format_chunk(8_000);
    let file = container(&[
        (b"LIST", b"odd"),
        (b"data", &[5, 0, 6, 0]),
        (b"fmt ", &format),
        (b"data", &[7, 0]),
        (b"fmt ", &[0; 3]),
    ]);
    let audio = MonoPcm::from_wav(&file, AudioLimits::default()).unwrap();
    assert_eq!(audio.sample_rate(), 8_000);
    assert_eq!(audio.to_pcm16_le(), [5, 0, 6, 0]);
}

#[test]
fn wav_failures_are_told_apart() {
    let format = format_chunk(16_000);
    let data: &[u8] = &[0, 0];
    assert_eq!(wav_error(b"RIFF"), "WAV container is malformed");
    assert_eq!(wav_error(b"RIFX\x04\0\0\0WAVE"), "WAV container is malformed");
    assert_eq!(wav_error(b"RIFF\x05\0\0\0WAVE"), "WAV container length is invalid");
    assert_eq!(wav_error(b"RIFF\x08\0\0\0WAVEdata"), "WAV chunk is malformed");
    assert_eq!(wav_error(b"RIFF\x0c\0\0\0WAVEdata\x04\0\0\0"), "WAV chunk is malformed");
    assert_eq!(wav_error(&container(&[(b"data", data)])), "WAV format chunk is missing");
    assert_eq!(wav_error(&container(&[(b"fmt ", &format)])), "WAV data chunk is missing");
    assert_eq!(
        wav_error(&container(&[(b"fmt ", &format[..15])])),
        "WAV format chunk is malformed"
    );
    assert_eq!(
        wav_error(&container(&[(b"fmt ", &format_chunk(9_000)), (b"data", data)])),
        "audio sample rate is unsupported"
    );
    let mut compressed = format.clone();
    compressed[0] = 6;
    assert_eq!(
        wav_error(&container(&[(b"fmt ", &compressed), (b"data", data)])),
        "WAV encoding must be mono PCM16"
    );
    assert_eq!(
        wav_error(&container(&[(b"fmt ", &format), (b"data", &[])])),
        "PCM16 audio has an invalid byte length"
    );
    let file = container(&[(b"fmt ", &format), (b"data", data)]);
    let small = AudioLimits::new(20, 1_000).unwrap();
    assert_eq!(
        MonoPcm::from_wav(&file, small).unwrap_err().message,
        "encoded audio exceeds its byte limit"
    );
}

#[test]
fn incremental_decoding_does_not_depend_on_frame_boundaries() {
    let bytes: Vec<u8> = (0..=255).chain(0..=255).collect();
    let whole = MonoPcm::from_pcm16_le(&bytes, 16_000, AudioLimits::default()).unwrap();
    for size in [1, 2, 3, 5, 7, 64, 511] {
        let mut decoder = IncrementalPcm16::new(16_000, AudioLimits::default()).unwrap();
        let mut emitted = Vec::new();
        for frame in bytes.chunks(size) {
            emitted.extend(decoder.push(frame).unwrap());
        }
        assert_eq!(emitted, whole.samples());
        assert_eq!(decoder.finish().unwrap(), whole);
    }
}

#[test]
fn incremental_decoding_is_bounded_and_refuses_without_losing_what_it_has() {
    let limits = AudioLimits::new(4, 1_000).unwrap();
    let mut decoder = IncrementalPcm16::new(16_000, limits).unwrap();
    assert_eq!(decoder.push(&[1, 0, 2]).unwrap().len(), 1);
    assert_eq!(
        decoder.push(&[0, 9]).unwrap_err().message,
        "encoded audio exceeds its byte limit"
    );
    assert_eq!(decoder.push(&[]).unwrap().len(), 0);
    assert_eq!(decoder.push(&[0]).unwrap().len(), 1);
    assert_eq!(decoder.finish().unwrap().to_pcm16_le(), [1, 0, 2, 0]);
    assert!(IncrementalPcm16::new(1, limits).is_err());
    let empty = IncrementalPcm16::new(16_000, limits).unwrap();
    assert_eq!(empty.finish().unwrap_err().message, "audio must contain samples");
    let mut odd = IncrementalPcm16::new(16_000, limits).unwrap();
    odd.push(&[1]).unwrap();
    assert_eq!(odd.finish().unwrap_err().message, "PCM16 stream ended with a partial sample");
}

#[test]
fn resampling_plans_exact_positions() {
    let audio = MonoPcm::new(8_000, samples(&[0.0, 1.0, 0.0, -1.0])).unwrap();
    match audio.resample(22_050).unwrap() {
        Resampling::Steps(steps) => {
            assert_eq!(steps.len(), 3 * 22_050 / 8_000 + 1);
            assert_eq!(steps[1].numerator, 8_000);
            assert_eq!(steps[1].denominator, 22_050);
            assert_eq!(steps[1].left, sample(0.0));
            assert_eq!(steps[1].right, sample(1.0));
            assert_eq!(steps[3].numerator, (3 * 8_000 % 22_050) as u16);
            assert_eq!(steps[3].left, sample(1.0));
        }
        Resampling::Unchanged(_) => panic!("the rates differ"),
    }
    match audio.resample(8_000).unwrap() {
        Resampling::Unchanged(same) => assert_eq!(same, audio),
        Resampling::Steps(_) => panic!("the rates are the same"),
    }
    assert!(audio.resample(12_000).is_err());
}

#[test]
fn streaming_conversion_agrees_with_batch_conversion() {
    let values: Vec<f32> = (0..1_000).map(|i| ((i * 37) % 200) as f32 / 100.0 - 1.0).collect();
    for (source, target) in [(8_000, 16_000), (48_000, 16_000), (44_100, 16_000), (16_000, 16_000)] {
        let audio = MonoPcm::new(source, samples(&values)).unwrap();
        let whole = resample(&audio, target).unwrap();
        for size in [1, 3, 160, 999] {
            let mut resampler = StreamingResampler::new(source, target).unwrap();
            let mut streamed = Vec::new();
            for piece in audio.samples().chunks(size) {
                for step in resampler.push(piece).unwrap() {
                    streamed.push(sample(interpolate(&step)));
                }
            }
            assert_eq!(streamed, whole.samples());
        }
    }
    assert!(StreamingResampler::new(16_000, 1).is_err());
    assert!(StreamingResampler::new(1, 16_000).is_err());
}

#[test]
fn vad_configuration_and_frames_are_validated() {
    let valid = VadConfig::default();
    assert_eq!(valid.rms_threshold, sample(0.015));
    assert!(EnergyVad::new(valid, 16_000).is_ok());
    assert!(EnergyVad::new(valid, 16_001).is_err());
    for threshold in [-0.1, 1.1, f32::NAN, f32::INFINITY] {
        let config = VadConfig { rms_threshold: sample(threshold), ..valid };
        assert_eq!(
            EnergyVad::new(config, 16_000).unwrap_err().message,
            "voice activity configuration is invalid"
        );
    }
    for threshold in [0.0, -0.0, 1.0] {
        let config = VadConfig { rms_threshold: sample(threshold), ..valid };
        assert!(EnergyVad::new(config, 16_000).is_ok());
    }
    for config in [
        VadConfig { min_speech_ms: 0, ..valid },
        VadConfig { trailing_silence_ms: 0, ..valid },
        VadConfig { max_utterance_ms: 119, ..valid },
    ] {
        assert!(EnergyVad::new(config, 16_000).is_err());
    }
    let mut vad = EnergyVad::new(valid, 16_000).unwrap();
    assert!(vad.process(&[], true).is_err());
    assert!(vad.process(&[sample(f32::NAN)], true).is_err());
    assert_eq!(vad.process(&[sample(2.0)], true).unwrap(), VadEvent::Unchanged);
}

#[test]
fn vad_closes_an_utterance_at_its_hard_limit() {
    let config = VadConfig {
        rms_threshold: sample(0.1),
        min_speech_ms: 10,
        trailing_silence_ms: 10_000,
        max_utterance_ms: 50,
    };
    let mut vad = EnergyVad::new(config, 16_000).unwrap();
    let frame = vec![sample(0.5); 160];
    let events: Vec<VadEvent> = (0..6).map(|_| vad.process(&frame, true).unwrap()).collect();
    assert_eq!(
        events,
        [
            VadEvent::Started,
            VadEvent::Unchanged,
            VadEvent::Unchanged,
            VadEvent::Unchanged,
            VadEvent::Ended,
            VadEvent::Started,
        ]
    );
}
