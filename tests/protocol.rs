use urg_rust::codec::{decode6, decode_decimal_field, push_padded_decimal};
use urg_rust::command::{multi_scan, single_scan, ScanKind};
use urg_rust::exchange::{Body, Exchange, Phase, Progress};
use urg_rust::framing::{field_value, timestamp_field};
use urg_rust::scan::{decode_samples, payload_of, single_scan_exchange, ScanStream, UrgPayload};
use urg_rust::session::{
    reboot_confirm_exchange, reboot_request_exchange, sensor_params_exchange,
    start_capture_exchange, status_exchange, stop_capture_exchange, version_exchange,
    CaptureCommand, CaptureState, SensorParams, StatusInfo, VersionInfo,
};
use urg_rust::UrgError;

/// Hands `lines` to `ex` until it stops asking for lines.
fn run(ex: &mut Exchange, lines: &[&[u8]]) -> (usize, Progress) {
    let mut taken = 0;
    for line in lines {
        taken += 1;
        match ex.feed(line) {
            Progress::NeedLine => {}
            other => return (taken, other),
        }
    }
    (taken, Progress::NeedLine)
}

fn complete(ex: &mut Exchange, lines: &[&[u8]]) {
    let (taken, progress) = run(ex, lines);
    assert!(matches!(progress, Progress::Complete), "{:?}", progress);
    assert_eq!(taken, lines.len());
}

#[test]
fn decode_test() {
    let res = decode6(b"1Dh");
    assert_eq!(res, 5432);
    let res = decode6(&[0x31, 0x44, 0x68]);
    assert_eq!(res, 5432);
}

#[test]
fn decode6_edges() {
    assert_eq!(decode6(b""), 0);
    assert_eq!(decode6(b"0"), 0);
    assert_eq!(decode6(b"o"), 63);
    // A byte below 0x30 still decodes: (0x2F - 0x30) & 0x3F == 63.
    assert_eq!(decode6(&[0x2F]), 63);
    assert_eq!(decode6(b"1Dh0"), 5432 * 64);
    // Six bytes carry 36 bits; the top four fall off.
    assert_eq!(decode6(b"oooooo"), u32::MAX);
}

#[test]
fn decimal_fields() {
    assert_eq!(decode_decimal_field(b"1080"), Ok(1080));
    assert_eq!(decode_decimal_field(b"0"), Ok(0));
    assert_eq!(decode_decimal_field(b"4294967295"), Ok(u32::MAX));
    assert_eq!(
        decode_decimal_field(b"4294967296"),
        Err(UrgError::MalformedField { field: b"4294967296".to_vec() })
    );
    assert_eq!(decode_decimal_field(b""), Err(UrgError::MalformedField { field: vec![] }));
    assert_eq!(
        decode_decimal_field(b"12a"),
        Err(UrgError::MalformedField { field: b"12a".to_vec() })
    );
    assert_eq!(
        decode_decimal_field(b"+1"),
        Err(UrgError::MalformedField { field: b"+1".to_vec() })
    );
}

#[test]
fn padded_decimals() {
    let mut out = b"x".to_vec();
    push_padded_decimal(&mut out, 0, 4);
    assert_eq!(out, b"x0000".to_vec());
    let mut out = Vec::new();
    push_padded_decimal(&mut out, 1080, 4);
    assert_eq!(out, b"1080".to_vec());
    let mut out = Vec::new();
    push_padded_decimal(&mut out, 7, 2);
    assert_eq!(out, b"07".to_vec());
    let mut out = Vec::new();
    push_padded_decimal(&mut out, 12345, 4);
    assert_eq!(out, b"12345".to_vec());
}

#[test]
fn scan_commands() {
    assert_eq!(single_scan(ScanKind::Distance, 0, 1080, 0), b"GD0000108000".to_vec());
    assert_eq!(single_scan(ScanKind::DistanceIntensity, 44, 725, 1), b"GE0044072501".to_vec());
    assert_eq!(multi_scan(ScanKind::Distance, 0, 1080, 0, 0, 3), b"MD0000108000003".to_vec());
    assert_eq!(
        multi_scan(ScanKind::DistanceIntensity, 0, 1080, 2, 1, 0),
        b"ME0000108002100".to_vec()
    );
}

#[test]
fn tagged_fields() {
    assert_eq!(field_value(b"VEND:Hokuyo;[\n"), Ok(b"Hokuyo".to_vec()));
    assert_eq!(field_value(b""), Err(UrgError::ConnectionClosed));
    assert_eq!(field_value(b"\n"), Err(UrgError::MalformedField { field: vec![] }));
    assert_eq!(
        field_value(b"ABCD:X\n"),
        Err(UrgError::MalformedField { field: b"ABCD:".to_vec() })
    );
}

#[test]
fn timestamp_lines() {
    assert_eq!(timestamp_field(b"1Dh0X\n"), Ok(5432 * 64));
    assert_eq!(timestamp_field(b""), Err(UrgError::ConnectionClosed));
    assert_eq!(
        timestamp_field(b"1DhX\n"),
        Err(UrgError::MalformedTimestamp { line: b"1DhX\n".to_vec() })
    );
}

#[test]
fn outgoing_bytes() {
    assert_eq!(version_exchange().outgoing(), Some(b"VV\n".to_vec()));
    assert_eq!(sensor_params_exchange().outgoing(), Some(b"PP\n".to_vec()));
    assert_eq!(status_exchange().outgoing(), Some(b"II\n".to_vec()));
    assert_eq!(start_capture_exchange().outgoing(), Some(b"BM\n".to_vec()));
    assert_eq!(stop_capture_exchange().outgoing(), Some(b"QT\n".to_vec()));
    assert_eq!(reboot_request_exchange().outgoing(), Some(b"RB\n".to_vec()));
    assert_eq!(reboot_confirm_exchange().outgoing(), Some(b"RB\n".to_vec()));
    let only = Exchange::verify_only(b"MD0000108000000".to_vec(), b"99".to_vec(), Body::Scan);
    assert_eq!(only.outgoing(), None);
}

#[test]
fn echo_mismatch_fails_before_any_field() {
    let mut ex = version_exchange();
    let lines: [&[u8]; 3] = [b"PP\n", b"00P\n", b"VEND:Hokuyo;[\n"];
    let (taken, progress) = run(&mut ex, &lines);
    assert_eq!(taken, 1);
    match progress {
        Progress::Failed(e) => assert_eq!(
            e,
            UrgError::EchoMismatch { sent: b"VV".to_vec(), received: b"PP".to_vec() }
        ),
        other => panic!("{:?}", other),
    }
    assert_eq!(ex.phase(), Phase::Failed);
    assert!(ex.fields().is_empty());
}

#[test]
fn status_mismatch_fails() {
    let mut ex = reboot_request_exchange();
    let lines: [&[u8]; 2] = [b"RB\n", b"00P\n"];
    let (taken, progress) = run(&mut ex, &lines);
    assert_eq!(taken, 2);
    match progress {
        Progress::Failed(e) => assert_eq!(
            e,
            UrgError::StatusMismatch {
                command: b"RB".to_vec(),
                expected: b"01".to_vec(),
                received: b"00".to_vec(),
            }
        ),
        other => panic!("{:?}", other),
    }
}

#[test]
fn closed_stream_fails() {
    let mut ex = start_capture_exchange();
    let lines: [&[u8]; 3] = [b"BM\n", b"00P\n", b""];
    let (taken, progress) = run(&mut ex, &lines);
    assert_eq!(taken, 3);
    assert!(matches!(progress, Progress::Failed(UrgError::ConnectionClosed)));
}

#[test]
fn block_ends_at_terminator() {
    let mut ex = start_capture_exchange();
    complete(&mut ex, &[b"BM\n", b"00P\n", b"abcX\n", b"\n"]);
    assert_eq!(ex.block(), &b"abc".to_vec());
    assert_eq!(ex.phase(), Phase::Done);
}

#[test]
fn two_byte_line_is_no_terminator() {
    let mut ex = stop_capture_exchange();
    let lines: [&[u8]; 4] = [b"QT\n", b"00P\n", b"abcX\n", b"00\n"];
    let (taken, progress) = run(&mut ex, &lines);
    assert_eq!(taken, 4);
    assert!(matches!(progress, Progress::NeedLine));
    assert_eq!(ex.block(), &b"abc0".to_vec());
    assert!(matches!(ex.feed(b"\n"), Progress::Complete));
}

#[test]
fn single_distance_scan() {
    let mut ex = single_scan_exchange(ScanKind::Distance, 0, 1080, 0);
    assert_eq!(ex.outgoing(), Some(b"GD0000108000\n".to_vec()));
    complete(
        &mut ex,
        &[b"GD0000108000\n", b"00P\n", b"1Dh0X\n", b"1Dh00oX\n", b"001X\n", b"\n"],
    );
    let payload = payload_of(ScanKind::Distance, &ex).unwrap();
    assert_eq!(
        payload,
        UrgPayload { time_stamp: 5432 * 64, distance: vec![5432, 63, 1], intensity: vec![] }
    );
}

#[test]
fn intensity_scan_lengths_agree() {
    let mut ex = single_scan_exchange(ScanKind::DistanceIntensity, 0, 1, 0);
    complete(&mut ex, &[b"GE0000000100\n", b"00P\n", b"0001X\n", b"1Dh001X\n", b"00o1DhX\n", b"\n"]);
    let payload = payload_of(ScanKind::DistanceIntensity, &ex).unwrap();
    assert_eq!(payload.time_stamp, 1);
    assert_eq!(payload.distance, vec![5432, 63]);
    assert_eq!(payload.intensity, vec![1, 5432]);
    assert_eq!(payload.distance.len(), payload.intensity.len());
}

#[test]
fn ragged_block_is_malformed() {
    assert_eq!(
        decode_samples(ScanKind::Distance, b"1Dh0"),
        Err(UrgError::MalformedBlock { len: 4, width: 3 })
    );
    assert_eq!(
        decode_samples(ScanKind::DistanceIntensity, b"1Dh"),
        Err(UrgError::MalformedBlock { len: 3, width: 6 })
    );
    assert_eq!(decode_samples(ScanKind::Distance, b""), Ok((vec![], vec![])));
}

#[test]
fn bad_timestamp_in_scan() {
    let mut ex = single_scan_exchange(ScanKind::Distance, 0, 1080, 0);
    let lines: [&[u8]; 3] = [b"GD0000108000\n", b"00P\n", b"\n"];
    let (_, progress) = run(&mut ex, &lines);
    match progress {
        Progress::Failed(e) => {
            assert_eq!(e, UrgError::MalformedTimestamp { line: b"\n".to_vec() })
        }
        other => panic!("{:?}", other),
    }
}

#[test]
fn bounded_series_of_three() {
    let mut stream = ScanStream::new(ScanKind::Distance, 0, 1080, 0, 0, 3);
    let mut request = stream.request();
    assert_eq!(request.outgoing(), Some(b"MD0000108000003\n".to_vec()));
    complete(&mut request, &[b"MD0000108000003\n", b"00P\n", b"\n"]);

    let mut echoes = Vec::new();
    let mut records = Vec::new();
    while let Some(mut ex) = stream.next_exchange() {
        assert_eq!(ex.outgoing(), None);
        let echo = match records.len() {
            0 => b"MD0000108000002\n",
            1 => b"MD0000108000001\n",
            _ => b"MD0000108000000\n",
        };
        complete(&mut ex, &[echo, b"99b\n", b"0001X\n", b"1Dh1DhX\n", b"\n"]);
        echoes.push(echo.to_vec());
        records.push(payload_of(stream.kind(), &ex).unwrap());
    }
    assert_eq!(records.len(), 3);
    assert!(stream.is_finished());
    for record in &records {
        assert_eq!(record.distance, vec![5432, 5432]);
        assert!(record.intensity.is_empty());
    }
}

#[test]
fn bounded_series_rejects_wrong_count_echo() {
    let mut stream = ScanStream::new(ScanKind::Distance, 0, 1080, 0, 0, 3);
    let mut ex = stream.next_exchange().unwrap();
    let lines: [&[u8]; 1] = [b"MD0000108000003\n"];
    let (_, progress) = run(&mut ex, &lines);
    match progress {
        Progress::Failed(e) => assert_eq!(
            e,
            UrgError::EchoMismatch {
                sent: b"MD0000108000002".to_vec(),
                received: b"MD0000108000003".to_vec(),
            }
        ),
        other => panic!("{:?}", other),
    }
}

#[test]
fn unbounded_series_stops_on_request() {
    let mut stream = ScanStream::new(ScanKind::DistanceIntensity, 0, 1080, 0, 0, 0);
    let mut request = stream.request();
    assert_eq!(request.outgoing(), Some(b"ME0000108000000\n".to_vec()));
    complete(&mut request, &[b"ME0000108000000\n", b"00P\n", b"\n"]);

    let stop_after = 4;
    let mut delivered = 0;
    while let Some(mut ex) = stream.next_exchange() {
        complete(&mut ex, &[b"ME0000108000000\n", b"99b\n", b"0001X\n", b"1Dh001X\n", b"\n"]);
        let record = payload_of(stream.kind(), &ex).unwrap();
        assert_eq!(record.distance.len(), record.intensity.len());
        delivered += 1;
        if delivered == stop_after {
            stream.stop();
        }
    }
    assert_eq!(delivered, stop_after);
    assert!(stream.next_exchange().is_none());
}

#[test]
fn version_reply() {
    let mut ex = version_exchange();
    complete(
        &mut ex,
        &[
            b"VV\n",
            b"00P\n",
            b"VEND:Hokuyo Automatic Co., Ltd.;[\n",
            b"PROD:UST-10LX;X\n",
            b"FIRM:1.0.0;X\n",
            b"PROT:SCIP 2.2;X\n",
            b"SERI:H1234;X\n",
            b"\n",
        ],
    );
    let info = VersionInfo::from_reply(&ex);
    assert_eq!(info.vendor_info, b"Hokuyo Automatic Co., Ltd.".to_vec());
    assert_eq!(info.product_info, b"UST-10LX".to_vec());
    assert_eq!(info.firmware_version, b"1.0.0".to_vec());
    assert_eq!(info.protocol_version, b"SCIP 2.2".to_vec());
    assert_eq!(info.serial_number, b"H1234".to_vec());
}

const PARAM_LINES: [&[u8]; 11] = [
    b"PP\n",
    b"00P\n",
    b"MODL:UST-10LX;X\n",
    b"DMIN:20;X\n",
    b"DMAX:30000;X\n",
    b"ARES:1440;X\n",
    b"AMIN:0;X\n",
    b"AMAX:1080;X\n",
    b"AFRT:540;X\n",
    b"SCAN:2400;X\n",
    b"\n",
];

#[test]
fn sensor_params_reply() {
    let mut ex = sensor_params_exchange();
    complete(&mut ex, &PARAM_LINES);
    let params = SensorParams::from_reply(&ex);
    assert_eq!(
        params,
        SensorParams {
            sensor_model: b"UST-10LX".to_vec(),
            min_distance_mm: 20,
            max_distance_mm: 30000,
            angular_area: 1440,
            start_step: 0,
            end_step: 1080,
            front_dir_step: 540,
            std_scan_speed_rpm: 2400,
        }
    );
}

#[test]
fn sensor_params_bad_number() {
    let mut lines = PARAM_LINES;
    lines[5] = b"ARES:14x0;X\n";
    lines[7] = b"AMAX:?;X\n";
    let mut ex = sensor_params_exchange();
    let (taken, progress) = run(&mut ex, &lines);
    // The reply fails at the first bad number; no later line is taken.
    assert_eq!(taken, 6);
    match progress {
        Progress::Failed(e) => {
            assert_eq!(e, UrgError::MalformedField { field: b"14x0".to_vec() })
        }
        other => panic!("{:?}", other),
    }
    assert_eq!(ex.phase(), Phase::Failed);
    assert_eq!(ex.fields(), &vec![b"UST-10LX".to_vec(), b"20".to_vec(), b"30000".to_vec()]);
}

#[test]
fn sensor_params_number_too_large() {
    let mut lines = PARAM_LINES;
    lines[9] = b"SCAN:4294967296;X\n";
    let mut ex = sensor_params_exchange();
    let (taken, progress) = run(&mut ex, &lines);
    assert_eq!(taken, 10);
    match progress {
        Progress::Failed(e) => {
            assert_eq!(e, UrgError::MalformedField { field: b"4294967296".to_vec() })
        }
        other => panic!("{:?}", other),
    }
}

#[test]
fn status_bad_speed_fails_at_its_line() {
    let mut ex = status_exchange();
    let lines: [&[u8]; 6] = [
        b"II\n",
        b"00P\n",
        b"MODL:UST-10LX;X\n",
        b"LASR:ON;X\n",
        b"SCSP:fast;X\n",
        b"MESM:Measuring;X\n",
    ];
    let (taken, progress) = run(&mut ex, &lines);
    assert_eq!(taken, 5);
    match progress {
        Progress::Failed(e) => {
            assert_eq!(e, UrgError::MalformedField { field: b"fast".to_vec() })
        }
        other => panic!("{:?}", other),
    }
}

#[test]
fn text_fields_need_no_digits() {
    let mut ex = version_exchange();
    let lines: [&[u8]; 8] = [
        b"VV\n",
        b"00P\n",
        b"VEND:x;X\n",
        b"PROD:y;X\n",
        b"FIRM:z;X\n",
        b"PROT:w;X\n",
        b"SERI:;X\n",
        b"\n",
    ];
    complete(&mut ex, &lines);
    assert_eq!(VersionInfo::from_reply(&ex).serial_number, Vec::<u8>::new());
}

#[test]
fn capture_state_transitions() {
    assert_eq!(CaptureState::Idle.after(CaptureCommand::Start, true), CaptureState::Capturing);
    assert_eq!(CaptureState::Idle.after(CaptureCommand::Start, false), CaptureState::Idle);
    assert_eq!(CaptureState::Capturing.after(CaptureCommand::Stop, true), CaptureState::Idle);
    assert_eq!(
        CaptureState::Capturing.after(CaptureCommand::Stop, false),
        CaptureState::Capturing
    );
    assert_eq!(
        CaptureState::Capturing.after(CaptureCommand::Start, true),
        CaptureState::Capturing
    );
}

#[test]
fn status_reply() {
    let mut ex = status_exchange();
    complete(
        &mut ex,
        &[
            b"II\n",
            b"00P\n",
            b"MODL:UST-10LX;X\n",
            b"LASR:ON;X\n",
            b"SCSP:2400;X\n",
            b"MESM:Measuring;X\n",
            b"SBPS:Ethernet 100 [Mbps];X\n",
            b"TIME:1Dh0;X\n",
            b"STAT:Stable 000 no error.;X\n",
            b"\n",
        ],
    );
    let status = StatusInfo::from_reply(&ex);
    assert_eq!(status.sensor_model, b"UST-10LX".to_vec());
    assert_eq!(status.laser_status, b"ON".to_vec());
    assert_eq!(status.scanning_speed_rpm, 2400);
    assert_eq!(status.measurement_mode, b"Measuring".to_vec());
    assert_eq!(status.communication_speed, b"Ethernet 100 [Mbps]".to_vec());
    assert_eq!(status.time_stamp, 5432 * 64);
    assert_eq!(status.sensor_status, b"Stable 000 no error.".to_vec());
}
