use bing_stt::voice_activity_detection::{
    pcm16le_to_samples, short_time_energy, take_channel, voice_activity_detection,
    zero_crossing_rate, VadError, VoiceActivityDetector,
};

#[test]
fn zero_crossing_rate_constant_sign_is_zero() {
    let all_positive: Vec<i32> = vec![5, 5, 5, 5];
    assert_eq!(zero_crossing_rate(&all_positive), (0, 3));
    let all_negative: Vec<i32> = vec![-3, -7, -1];
    assert_eq!(zero_crossing_rate(&all_negative), (0, 2));
}

#[test]
fn zero_crossing_rate_alternating_is_one() {
    let alternating: Vec<i32> = vec![1, -1, 1, -1, 1];
    let (crossings, pairs) = zero_crossing_rate(&alternating);
    assert_eq!(pairs, 4);
    assert_eq!(crossings, pairs);
}

#[test]
fn zero_crossing_rate_short_frames() {
    assert_eq!(zero_crossing_rate(&vec![]), (0, 0));
    assert_eq!(zero_crossing_rate(&vec![7]), (0, 0));
    // A zero sample counts as a crossing on both sides.
    assert_eq!(zero_crossing_rate(&vec![1, 0, 1]), (2, 2));
}

#[test]
fn short_time_energy_of_zero_frame_is_zero() {
    let silent: Vec<i32> = vec![0, 0, 0, 0, 0];
    assert_eq!(short_time_energy(&silent), 0);
}

#[test]
fn short_time_energy_of_constant_frame_is_square() {
    let constant: Vec<i32> = vec![4, 4, 4, 4];
    assert_eq!(short_time_energy(&constant), 16);
    let negative: Vec<i32> = vec![-30000; 7];
    assert_eq!(short_time_energy(&negative), 900_000_000);
}

#[test]
fn short_time_energy_rounds_down() {
    // (1 + 4 + 4) / 3 = 3.
    assert_eq!(short_time_energy(&vec![1, 2, -2]), 3);
}

#[test]
fn detect_rejects_empty_frame() {
    let mut vad = VoiceActivityDetector::default();
    assert_eq!(vad.detect(&vec![]), Err(VadError::InvalidInput));
}

#[test]
fn detect_is_deterministic() {
    let frames: Vec<Vec<i32>> = vec![
        vec![10, 12, 9, 11, 10, 12],
        vec![900, 950, 920, 980, 910, 960],
        vec![5, -5, 5, -5, 5, -5],
        vec![800, 820, 790, 810, 805, 815],
        vec![0, 0, 0, 0, 0, 0],
    ];
    let mut first = VoiceActivityDetector::new(100, 300, 100);
    let mut second = VoiceActivityDetector::new(100, 300, 100);
    for frame in frames.iter() {
        let a = first.detect(frame).unwrap();
        let b = second.detect(frame).unwrap();
        assert_eq!(a, b);
    }
}

#[test]
fn decision_hysteresis_on_borderline_frame() {
    // A frame whose zero-crossing rate (2/10 = 0.2) lies between the low
    // (0.1) and high (0.3) thresholds, with energy above the dynamic
    // threshold (0 + (500 - 0) * 0.1 = 50): a previously active detector
    // stays active, a previously inactive one does not enter.
    assert!(voice_activity_detection(true, 2, 10, 100, 100, 300, 0, 500, 100));
    assert!(!voice_activity_detection(false, 2, 10, 100, 100, 300, 0, 500, 100));
}

#[test]
fn detect_hysteresis_keeps_activity() {
    let mut vad = VoiceActivityDetector::new(100, 300, 100);
    // Calibrate a low noise floor, then activate with a high-energy
    // constant-sign frame.
    let quiet: Vec<i32> = vec![10, 11, 9, 10, 10, 11, 9, 10, 10, 11, 9];
    assert_eq!(vad.detect(&quiet), Ok(false));
    let loud: Vec<i32> = vec![1000; 11];
    assert_eq!(vad.detect(&loud), Ok(true));
    // Borderline frame: 2 crossings over 10 pairs (rate 0.2, between the
    // thresholds), energy still high. Only hysteresis keeps it active.
    let borderline: Vec<i32> = vec![900, 910, 905, 915, -900, -905, 910, 905, 915, 900, 910];
    let (crossings, pairs) = zero_crossing_rate(&borderline);
    assert_eq!(pairs, 10);
    assert_eq!(crossings, 2);
    assert_eq!(vad.detect(&borderline), Ok(true));
    // The same borderline frame never activates a detector that saw the
    // same noise floor but was not already active: its rate is above the
    // strict entry threshold.
    let mut entry = VoiceActivityDetector::new(100, 300, 100);
    assert_eq!(entry.detect(&quiet), Ok(false));
    assert_eq!(entry.detect(&borderline), Ok(false));
}

#[test]
fn first_frame_is_never_active() {
    // On the very first frame the energy range collapses to that frame's
    // energy, so the dynamic threshold equals it and the strict entry
    // comparison fails.
    let mut vad = VoiceActivityDetector::default();
    assert_eq!(vad.detect(&vec![1000; 8]), Ok(false));
}

#[test]
fn pcm16le_decodes_signed_samples() {
    // 0x0001, -1 (0xFFFF), -32768 (0x8000), 32767 (0x7FFF); odd byte dropped.
    let bytes = [0x01, 0x00, 0xFF, 0xFF, 0x00, 0x80, 0xFF, 0x7F, 0x42];
    assert_eq!(pcm16le_to_samples(&bytes), vec![1, -1, -32768, 32767]);
}

#[test]
fn take_channel_strides_interleaved_samples() {
    let interleaved = [10, 20, 11, 21, 12, 22, 13];
    assert_eq!(take_channel(&interleaved, 2, 0), vec![10, 11, 12, 13]);
    assert_eq!(take_channel(&interleaved, 2, 1), vec![20, 21, 22]);
    assert_eq!(take_channel(&interleaved, 1, 0), interleaved.to_vec());
    assert_eq!(take_channel(&[], 2, 1), Vec::<i32>::new());
}
