use tt_riingd::protocol::{build_color_package, build_package, Command, DeviceError, Response};

#[test]
fn set_speed_bytes_and_parse_status() {
    let cmd = Command::SetSpeed {
        port: 2,
        speed: 123,
    };
    let bytes = cmd.to_bytes();
    assert_eq!(bytes, vec![0x00, 0x32, 0x51, 2, 0x01, 123]);

    let mut buf = [0u8; 193];
    buf[2] = 0xFC;
    let resp = Response::parse(cmd, &buf).unwrap();
    assert_eq!(resp, Response::Status(0xFC));
}

#[test]
fn get_data_parse() {
    let cmd = Command::GetData { port: 1 };
    let mut buf = [0u8; 193];
    buf[2] = 55;
    buf[3] = 0x10;
    buf[4] = 0x20;
    let resp = Response::parse(cmd, &buf).unwrap();
    match resp {
        Response::Data { speed, rpm } => {
            assert_eq!(speed, 55);
            assert_eq!(rpm, 0x2010);
        }
        _ => panic!("expected Data"),
    }
}

#[test]
fn set_rgb_bytes() {
    let colors = vec![(1, 2, 3); 52];
    let cmd = Command::SetRgb {
        port: 3,
        mode: 0x24,
        colors: colors.clone(),
    };
    let bytes = cmd.to_bytes();
    assert_eq!(bytes[0..5], [0x00, 0x32, 0x52, 3, 0x24]);
    for chunk in bytes[5..].chunks(3) {
        assert_eq!(chunk, &[1, 2, 3]);
    }
    assert_eq!(bytes.len(), 5 + 52 * 3);
}

#[test]
fn fixed_command_encodings() {
    assert_eq!(Command::Init.to_bytes(), vec![0x00, 0xFE, 0x33]);
    assert_eq!(Command::GetFirmwareVersion.to_bytes(), vec![0x00, 0x33, 0x50]);
    assert_eq!(Command::GetData { port: 4 }.to_bytes(), vec![0x00, 0x33, 0x51, 4]);
}

#[test]
fn set_rgb_payload_is_161_bytes() {
    let cmd = Command::SetRgb { port: 3, mode: 0x24, colors: vec![(1, 2, 3); 52] };
    let bytes = cmd.to_bytes();
    assert_eq!(bytes.len(), 161);
    assert_eq!(cmd.expected_response_len(), 193);
}

#[test]
fn set_rgb_without_colors_is_header_only() {
    let cmd = Command::SetRgb { port: 1, mode: 0x24, colors: vec![] };
    assert_eq!(cmd.to_bytes(), vec![0x00, 0x32, 0x52, 1, 0x24]);
}

#[test]
fn firmware_version_parse() {
    let mut buf = [0u8; 193];
    buf[0] = 1;
    buf[1] = 2;
    buf[2] = 3;
    let resp = Response::parse(Command::GetFirmwareVersion, &buf).unwrap();
    assert_eq!(resp, Response::FirmwareVersion { major: 1, minor: 2, patch: 3 });
}

#[test]
fn status_parse_keeps_any_status_byte() {
    let mut buf = [0u8; 193];
    buf[2] = 0x00;
    let resp = Response::parse(Command::SetSpeed { port: 2, speed: 123 }, &buf).unwrap();
    assert_eq!(resp, Response::Status(0x00));
}

#[test]
fn short_buffers_are_rejected() {
    let buf = [0u8; 4];
    assert_eq!(
        Response::parse(Command::GetData { port: 1 }, &buf),
        Err(DeviceError::ResponseTooShort { expected: 5, got: 4 })
    );
    let buf = [0u8; 2];
    assert_eq!(
        Response::parse(Command::Init, &buf),
        Err(DeviceError::ResponseTooShort { expected: 3, got: 2 })
    );
    assert_eq!(
        Response::parse(Command::GetFirmwareVersion, &buf),
        Err(DeviceError::ResponseTooShort { expected: 3, got: 2 })
    );
}

#[test]
fn rpm_is_little_endian() {
    let mut buf = [0u8; 193];
    buf[3] = 0xFF;
    buf[4] = 0xFF;
    match Response::parse(Command::GetData { port: 1 }, &buf).unwrap() {
        Response::Data { rpm, .. } => assert_eq!(rpm, 0xFFFF),
        _ => panic!("expected Data"),
    }
    buf[3] = 0x34;
    buf[4] = 0x12;
    match Response::parse(Command::GetData { port: 1 }, &buf).unwrap() {
        Response::Data { rpm, .. } => assert_eq!(rpm, (0x12u16 << 8) | 0x34u16),
        _ => panic!("expected Data"),
    }
}

#[test]
fn speed_package_array() {
    assert_eq!(build_package(2, 77), [0x00, 0x32, 0x51, 2, 0x01, 77]);
}

#[test]
fn color_package_report() {
    let p = build_color_package(3, 10, 20, 30);
    assert_eq!(p[0..5], [0x00, 0x32, 0x52, 3, 0x24]);
    for k in 0..52 {
        assert_eq!(p[5 + 3 * k..8 + 3 * k], [10, 20, 30]);
    }
    assert!(p[161..].iter().all(|b| *b == 0));
}
