use walkie::device::{
    find_device, find_input_config, find_output_config, plan_capture, plan_playback, ConfigRange,
    DeviceChoice, DeviceError, SampleFormat, SampleKind, StreamPlan,
};

fn names() -> Vec<Option<String>> {
    vec![Some("a".to_string()), None, Some("b".to_string()), Some("b".to_string())]
}

fn range(channels: u16, min: u32, max: u32, format: SampleFormat) -> ConfigRange {
    ConfigRange { channels, min_sample_rate: min, max_sample_rate: max, format }
}

#[test]
fn first_device_of_the_name_is_found() {
    assert_eq!(find_device(true, Some("b"), &names(), false).unwrap(), DeviceChoice::Listed(2));
    let missing = find_device(false, Some("c"), &names(), true).unwrap_err();
    assert!(matches!(&missing, DeviceError::NotFound(n) if n == "c"));
    assert_eq!(missing.message(), "device 'c' not found");
}

#[test]
fn default_device_is_taken_without_a_name() {
    assert_eq!(find_device(true, None, &vec![], true).unwrap(), DeviceChoice::Default);
    let input = find_device(true, None, &names(), false).unwrap_err();
    assert_eq!(input.message(), "no default input device");
    let output = find_device(false, None, &names(), false).unwrap_err();
    assert!(matches!(output, DeviceError::NoDefault { input: false }));
    assert_eq!(output.message(), "no default output device");
}

#[test]
fn fewest_channels_win_and_the_first_of_them() {
    let ranges = vec![
        range(1, 8_000, 44_100, SampleFormat::F32),
        range(6, 48_000, 48_000, SampleFormat::F32),
        range(2, 8_000, 96_000, SampleFormat::I16),
        range(2, 48_000, 48_000, SampleFormat::U8),
    ];
    assert_eq!(find_input_config(&ranges).unwrap(), 2);
    assert_eq!(
        plan_playback(&ranges).unwrap(),
        StreamPlan { config: 2, channels: 2, format: SampleKind::I16 }
    );
}

#[test]
fn missing_rate_is_told() {
    let ranges = vec![range(1, 8_000, 47_999, SampleFormat::F32), range(1, 48_001, 96_000, SampleFormat::F32)];
    assert_eq!(
        find_input_config(&ranges).unwrap_err().message(),
        "input device does not support 48000Hz"
    );
    assert_eq!(
        find_output_config(&ranges).unwrap_err().message(),
        "output device does not support 48000Hz"
    );
    assert!(matches!(
        plan_capture(&vec![]),
        Err(DeviceError::RateUnsupported { input: true })
    ));
}

#[test]
fn formats_are_told_apart() {
    for (format, kind) in [
        (SampleFormat::F32, SampleKind::F32),
        (SampleFormat::I16, SampleKind::I16),
        (SampleFormat::I32, SampleKind::I32),
        (SampleFormat::U8, SampleKind::U8),
    ] {
        let plan = plan_capture(&vec![range(1, 48_000, 48_000, format)]).unwrap();
        assert_eq!(plan, StreamPlan { config: 0, channels: 1, format: kind });
    }
}

#[test]
fn unusable_format_is_told() {
    let ranges = || vec![range(1, 48_000, 48_000, SampleFormat::Other("f64".to_string()))];
    assert_eq!(
        plan_capture(&ranges()).unwrap_err().message(),
        "unsupported input sample format: f64"
    );
    assert_eq!(
        plan_playback(&ranges()).unwrap_err().message(),
        "unsupported output sample format: f64"
    );
}
