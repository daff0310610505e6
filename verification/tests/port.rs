use serial_monitor::port::{check_port, validate_port};

#[test]
fn unix_terminal_devices_are_accepted() {
    assert_eq!(validate_port("/dev/ttyUSB0"), Ok(String::from("/dev/ttyUSB0")));
    assert_eq!(validate_port("/dev/ttyACM1"), Ok(String::from("/dev/ttyACM1")));
    assert_eq!(validate_port("/dev/tty"), Ok(String::from("/dev/tty")));
}

#[test]
fn windows_ports_are_accepted_in_any_case() {
    assert_eq!(validate_port("COM1"), Ok(String::from("COM1")));
    assert_eq!(validate_port("com3"), Ok(String::from("com3")));
    assert_eq!(validate_port("Com12"), Ok(String::from("Com12")));
    assert_eq!(validate_port("COM"), Ok(String::from("COM")));
}

#[test]
fn other_names_are_rejected_with_the_expected_forms() {
    assert_eq!(
        validate_port("/dev/usb0"),
        Err(String::from(
            "Invalid port: /dev/usb0. Must start with '/dev/tty' (Unix) or 'COM' (Windows)"
        ))
    );
    assert_eq!(
        validate_port(""),
        Err(String::from(
            "Invalid port: . Must start with '/dev/tty' (Unix) or 'COM' (Windows)"
        ))
    );
    assert!(validate_port("CO").is_err());
    assert!(validate_port(" COM1").is_err());
    assert!(validate_port("/DEV/TTY0").is_err());
    assert!(validate_port("dev/ttyUSB0").is_err());
}

#[test]
fn the_decision_rests_on_the_name_and_its_upper_case_form() {
    assert_eq!(check_port("com7", "COM7"), Ok(String::from("com7")));
    assert!(check_port("com7", "com7").is_err());
    assert_eq!(check_port("/dev/ttyS0", "anything"), Ok(String::from("/dev/ttyS0")));
    assert_eq!(
        check_port("lpt1", "LPT1"),
        Err(String::from(
            "Invalid port: lpt1. Must start with '/dev/tty' (Unix) or 'COM' (Windows)"
        ))
    );
}
