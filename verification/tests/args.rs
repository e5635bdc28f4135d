use walkie::args::{parse_args, ArgError, Args};

fn parse(args: &[&str]) -> Result<Args, ArgError> {
    parse_args(&args.iter().map(|a| a.to_string()).collect())
}

#[test]
fn no_arguments_ask_for_nothing() {
    let args = parse(&[]).unwrap();
    assert!(!args.list_devices);
    assert_eq!(args.input_device, None);
    assert_eq!(args.output_device, None);
}

#[test]
fn devices_are_read_in_any_order() {
    for line in [
        ["--input-device", "mic", "--output-device", "ear"],
        ["--output-device", "ear", "--input-device", "mic"],
    ] {
        let args = parse(&line).unwrap();
        assert_eq!(args.input_device.as_deref(), Some("mic"));
        assert_eq!(args.output_device.as_deref(), Some("ear"));
        assert!(!args.list_devices);
    }
}

#[test]
fn later_device_stands_for_an_earlier_one() {
    let args = parse(&["--input-device", "a", "--list-devices", "--input-device", "b"]).unwrap();
    assert_eq!(args.input_device.as_deref(), Some("b"));
    assert!(args.list_devices);
}

#[test]
fn value_may_look_like_an_option() {
    let args = parse(&["--input-device", "--list-devices"]).unwrap();
    assert_eq!(args.input_device.as_deref(), Some("--list-devices"));
    assert!(!args.list_devices);
}

#[test]
fn missing_values_are_told() {
    let input = parse(&["--input-device"]).unwrap_err();
    assert!(matches!(input, ArgError::NoInputDevice));
    assert_eq!(input.message(), "--input-device requires a value");
    let output = parse(&["--list-devices", "--output-device"]).unwrap_err();
    assert!(matches!(output, ArgError::NoOutputDevice));
    assert_eq!(output.message(), "--output-device requires a value");
}

#[test]
fn unknown_argument_is_told_with_the_usage() {
    let e = parse(&["--list-devices", "help", "--input-device"]).unwrap_err();
    assert!(matches!(&e, ArgError::Unknown(a) if a == "help"));
    assert_eq!(
        e.message(),
        "unknown argument: help\n\nUsage: walkie [--list-devices] [--input-device <NAME>] [--output-device <NAME>]"
    );
}

#[test]
fn first_unknown_argument_is_told() {
    match parse(&["--list-devices", "-x", "-y"]) {
        Err(ArgError::Unknown(arg)) => assert_eq!(arg, "-x"),
        other => panic!("{other:?}"),
    }
}
