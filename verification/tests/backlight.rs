use deskutils::backlight::{
    brightness_args, brightness_pair, ddcutil_args, ddcutil_outcome, parse_brightness,
    program_name, set_brightness, usage, BacklightError, BrightnessError,
};

#[test]
fn brightness_range_is_checked() {
    assert_eq!(parse_brightness("0", "brightness").unwrap(), 0);
    assert_eq!(parse_brightness("100", "brightness").unwrap(), 100);
    assert_eq!(parse_brightness("+42", "brightness").unwrap(), 42);
    assert_eq!(parse_brightness("007", "brightness").unwrap(), 7);
    let e = parse_brightness("101", "brightness").unwrap_err();
    assert!(matches!(e, BrightnessError::OutOfRange { .. }));
    assert_eq!(e.message(), "brightness must be between 0 and 100");
    let e = parse_brightness("abc", "brightness").unwrap_err();
    assert_eq!(e.message(), "brightness must be an integer between 0 and 100");
    for bad in ["-1", "", "+", " 5", "256", "1.5"] {
        assert!(matches!(
            parse_brightness(bad, "level"),
            Err(BrightnessError::NotAnInteger { .. })
        ));
    }
    assert!(matches!(
        parse_brightness("255", "level"),
        Err(BrightnessError::OutOfRange { .. })
    ));
}

#[test]
fn every_brightness_reads_back() {
    for n in 0u8..=255 {
        let r = parse_brightness(&n.to_string(), "b");
        if n <= 100 {
            assert_eq!(r.unwrap(), n);
        } else {
            assert!(matches!(r, Err(BrightnessError::OutOfRange { .. })));
        }
    }
}

#[test]
fn argument_count_and_second_display() {
    let one = vec!["10".to_string()];
    assert_eq!(brightness_args(&one).unwrap(), (10, 10));
    let two = vec!["10".to_string(), "25".to_string()];
    assert_eq!(brightness_args(&two).unwrap(), (10, 25));
    let none: Vec<String> = vec![];
    let e = brightness_args(&none).unwrap_err();
    assert_eq!(e.message(), "invalid argument count");
    let three = vec!["1".to_string(), "2".to_string(), "3".to_string()];
    assert!(matches!(brightness_args(&three), Err(BacklightError::ArgumentCount)));
    let bad = vec!["10".to_string(), "x".to_string()];
    assert!(matches!(brightness_args(&bad), Err(BacklightError::Brightness(_))));
    assert_eq!(brightness_pair(10, None), (10, 10));
    assert_eq!(brightness_pair(10, Some(25)), (10, 25));
}

#[test]
fn ddcutil_command_lines() {
    assert_eq!(
        ddcutil_args("1", "50"),
        vec![
            "ddcutil",
            "--display",
            "1",
            "--skip-ddc-checks",
            "--enable-dynamic-sleep",
            "setvcp",
            "10",
            "50"
        ]
    );
    let (d1, d2) = set_brightness(7, 100);
    assert_eq!(d1[2], "1");
    assert_eq!(d1[7], "7");
    assert_eq!(d2[2], "2");
    assert_eq!(d2[7], "100");
    assert!(ddcutil_outcome(true, true).is_ok());
    let e = ddcutil_outcome(true, false).unwrap_err();
    assert_eq!(e.message(), "one or more ddcutil commands failed");
}

#[test]
fn usage_text() {
    assert_eq!(program_name(Some("/usr/bin/backlight-rs")), "backlight-rs");
    assert_eq!(program_name(None), "backlight");
    assert_eq!(program_name(Some("/")), "backlight");
    let lines = usage("bl");
    assert_eq!(lines[0], "Usage:");
    assert_eq!(
        lines[1],
        "  bl <brightness 0-100>                 # Set both displays to same brightness"
    );
    assert_eq!(
        lines[2],
        "  bl <brightness1 0-100> <brightness2 0-100>  # Set each display individually"
    );
}
