use dictation::asr::resample_to_16k;
use dictation::audio::{
    downmix, find_device, format_supported, normalize_i16, resolve_device, rms_numerator,
    AudioDevice, LevelMeter, SampleFormat, SAMPLE_FULL_SCALE,
};

#[test]
fn downmix_stereo_means() {
    let data = vec![1000i32, 2000, 3000, 5000];
    let mono = downmix(&data, 2);
    assert_eq!(mono, vec![1500, 4000]);
}

#[test]
fn downmix_rounds_toward_zero() {
    let data = vec![-3i32, -4];
    let mono = downmix(&data, 2);
    assert_eq!(mono, vec![-3]);
}

#[test]
fn downmix_mono_is_identity() {
    let data = vec![5i32, -7, 0, 32768];
    let mono = downmix(&data, 1);
    assert_eq!(mono, data);
}

#[test]
fn downmix_then_rms_equals_rms_of_frame_mean() {
    // One three-channel frame: the mono mix is its arithmetic mean, so
    // both RMS numerators are the square of that mean.
    let frame = vec![2i32, 4, 6];
    let mean = (2 + 4 + 6) / 3;
    let mono = downmix(&frame, 3);
    assert_eq!(mono, vec![mean]);
    assert_eq!(rms_numerator(&mono), (mean * mean) as u64);
}

#[test]
fn rms_numerator_sums_squares() {
    let mono = vec![3i32, -4];
    assert_eq!(rms_numerator(&mono), 25);
    assert_eq!(rms_numerator(&Vec::new()), 0);
}

#[test]
fn level_meter_throttles_to_16_ms() {
    let mut meter = LevelMeter::new(0);
    assert!(!meter.should_emit(10));
    assert!(meter.should_emit(16));
    assert!(!meter.should_emit(31));
    assert!(meter.should_emit(32));
}

#[test]
fn sample_formats() {
    assert!(format_supported(&SampleFormat::FloatBits32));
    assert!(format_supported(&SampleFormat::SignedBits16));
    assert!(!format_supported(&SampleFormat::Other));
    assert_eq!(normalize_i16(-32768), -32768);
    assert_eq!(normalize_i16(32767), 32767);
    assert_eq!(SAMPLE_FULL_SCALE, 32768);
}

fn two_devices() -> Vec<AudioDevice> {
    vec![
        AudioDevice { name: String::from("Built-in Microphone"), is_default: true },
        AudioDevice { name: String::from("USB Mic"), is_default: false },
    ]
}

#[test]
fn device_fallback_to_default() {
    // A configured device that does not exist falls back to the default
    // device; the caller keeps the stored name untouched.
    let devices = two_devices();
    let (chosen, fell_back) = resolve_device("NoSuchMic", &devices);
    assert_eq!(chosen, Some(0));
    assert!(fell_back);
    assert_eq!(devices[chosen.unwrap()].name, "Built-in Microphone");
}

#[test]
fn device_found_by_name() {
    let devices = two_devices();
    assert_eq!(resolve_device("USB Mic", &devices), (Some(1), false));
    assert_eq!(resolve_device("", &devices), (Some(0), false));
    assert_eq!(find_device("USB Mic", &devices), Some(1));
    assert_eq!(find_device("", &devices), Some(0));
    assert_eq!(find_device("nope", &devices), None);
}

#[test]
fn resample_16k_is_identity() {
    let samples = vec![1i32, -2, 3, -4];
    assert_eq!(resample_to_16k(&samples, 16000), samples);
}

#[test]
fn resample_length_is_ceiling() {
    // ceil(9 * 16000 / 48000) = 3, picking every third sample.
    let samples: Vec<i32> = (0..9).collect();
    let out = resample_to_16k(&samples, 48000);
    assert_eq!(out, vec![0, 3, 6]);

    // ceil(10 * 16000 / 48000) = 4.
    let samples: Vec<i32> = (0..10).collect();
    assert_eq!(resample_to_16k(&samples, 48000).len(), 4);
}

#[test]
fn resample_interpolates_linearly() {
    let samples = vec![0i32, 16000];
    let out = resample_to_16k(&samples, 8000);
    assert_eq!(out, vec![0, 8000, 16000, 16000]);
}

#[test]
fn resample_empty_is_empty() {
    let out = resample_to_16k(&Vec::new(), 44100);
    assert!(out.is_empty());
}
