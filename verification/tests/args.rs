use telink_ota::cli::{parse_args, ArgError, Command};

fn args(list: &[&str]) -> Vec<String> {
    list.iter().map(|s| s.to_string()).collect()
}

#[test]
fn too_few_arguments_is_a_usage_error() {
    assert_eq!(parse_args(&args(&[])).unwrap_err(), ArgError::Usage);
    assert_eq!(parse_args(&args(&["telink-ota", "/dev/hidraw0"])).unwrap_err(), ArgError::Usage);
}

#[test]
fn unknown_command_is_a_usage_error() {
    assert_eq!(parse_args(&args(&["telink-ota", "/dev/null", "bogus"])).unwrap_err(), ArgError::Usage);
}

#[test]
fn version_parses_with_and_without_verbose() {
    let o = parse_args(&args(&["telink-ota", "/dev/hidraw3", "version"])).unwrap();
    assert_eq!(o.device, "/dev/hidraw3");
    assert!(matches!(o.command, Command::Version));
    assert!(!o.verbose);
    let o = parse_args(&args(&["telink-ota", "/dev/hidraw3", "version", "-v"])).unwrap();
    assert!(o.verbose);
    let o = parse_args(&args(&["telink-ota", "/dev/hidraw3", "version", "--verbose"])).unwrap();
    assert!(o.verbose);
}

#[test]
fn flash_without_a_path_is_a_usage_error() {
    assert_eq!(
        parse_args(&args(&["telink-ota", "/dev/hidraw0", "flash"])).unwrap_err(),
        ArgError::Usage
    );
}

#[test]
fn flash_without_confirm_is_refused() {
    assert_eq!(
        parse_args(&args(&["telink-ota", "/dev/hidraw0", "flash", "firmware.bin"])).unwrap_err(),
        ArgError::UnconfirmedFlash
    );
}

#[test]
fn flash_with_confirm_parses_the_image_path() {
    let o = parse_args(&args(&[
        "telink-ota",
        "/dev/hidraw0",
        "flash",
        "firmware.bin",
        "--confirm-flash",
    ]))
    .unwrap();
    assert_eq!(o.device, "/dev/hidraw0");
    match o.command {
        Command::Flash { path } => assert_eq!(path, "firmware.bin"),
        Command::Version => panic!("expected flash"),
    }
    assert!(!o.verbose);
}

#[test]
fn a_flag_in_the_path_position_is_a_usage_error() {
    for flag in ["--confirm-flash", "--verbose", "-v"] {
        assert_eq!(
            parse_args(&args(&["telink-ota", "/dev/hidraw0", "flash", flag, "--confirm-flash"]))
                .unwrap_err(),
            ArgError::Usage
        );
    }
    assert_eq!(
        parse_args(&args(&["telink-ota", "/dev/hidraw0", "flash", "--confirm-flash"])).unwrap_err(),
        ArgError::Usage
    );
}

#[test]
fn confirm_and_verbose_flags_may_come_anywhere_after_the_path() {
    let o = parse_args(&args(&[
        "telink-ota",
        "-v",
        "flash",
        "fw.bin",
        "extra",
        "--confirm-flash",
    ]))
    .unwrap();
    assert_eq!(o.device, "-v");
    match o.command {
        Command::Flash { path } => assert_eq!(path, "fw.bin"),
        Command::Version => panic!("expected flash"),
    }
    assert!(o.verbose);
}
