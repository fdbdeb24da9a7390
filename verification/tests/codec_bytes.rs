use lightctl::codec::{decode_report, encode_report, encode_request, DecodeError};
use lightctl::envelope::RequestOptions;
use lightctl::message::{Command, Report};

fn options(tagged: bool, source: u32, sequence: u8) -> RequestOptions {
    RequestOptions {
        tagged,
        source,
        target: [0; 8],
        ack_required: false,
        res_required: true,
        sequence,
    }
}

#[test]
fn get_color_request_bytes_are_exact() {
    let o = RequestOptions {
        tagged: true,
        source: 10,
        target: [0; 8],
        ack_required: false,
        res_required: true,
        sequence: 7,
    };
    let bytes = encode_request(&o, &Command::GetColor);
    let expected: Vec<u8> = vec![
        36, 0, // size: header only
        0x00, 0x34, // flags: protocol 1024, addressable, tagged
        10, 0, 0, 0, // source
        0, 0, 0, 0, 0, 0, 0, 0, // frame target
        0, 0, 0, 0, 0, 0, // reserved
        1,  // response required
        7,  // sequence
        0, 0, 0, 0, 0, 0, 0, 0, // reserved
        101, 0, // message type: status query
        0, 0, // reserved
    ];
    assert_eq!(bytes, expected);
}

#[test]
fn set_power_request_carries_level() {
    let o = options(false, 0, 3);
    let bytes = encode_request(&o, &Command::SetPower { level: 65535 });
    assert_eq!(bytes.len(), 38);
    assert_eq!(bytes[0], 38);
    assert_eq!(&bytes[2..4], &[0x00, 0x14]);
    assert_eq!(&bytes[32..34], &[21, 0]);
    assert_eq!(&bytes[36..38], &[0xff, 0xff]);
}

#[test]
fn set_color_request_layout() {
    let o = options(true, 0, 9);
    let bytes = encode_request(
        &o,
        &Command::SetColor {
            reserved: 1,
            hue: 0x1234,
            saturation: 0x5678,
            brightness: 0x9abc,
            kelvin: 3500,
            duration_ms: 450,
        },
    );
    assert_eq!(bytes.len(), 49);
    assert_eq!(&bytes[32..34], &[102, 0]);
    assert_eq!(bytes[36], 1);
    assert_eq!(&bytes[37..39], &[0x34, 0x12]);
    assert_eq!(&bytes[39..41], &[0x78, 0x56]);
    assert_eq!(&bytes[41..43], &[0xbc, 0x9a]);
    assert_eq!(&bytes[43..45], &[0xac, 0x0d]);
    assert_eq!(&bytes[45..49], &[194, 1, 0, 0]);
}

#[test]
fn set_label_request_pads_to_width() {
    let o = options(true, 0, 1);
    let bytes = encode_request(&o, &Command::SetLabel { label: String::from("Desk") });
    assert_eq!(bytes.len(), 68);
    assert_eq!(&bytes[36..40], b"Desk");
    assert!(bytes[40..68].iter().all(|b| *b == 0));
}

#[test]
fn decode_rejects_short_datagram() {
    let data = vec![1u8, 2, 3];
    assert!(matches!(decode_report(&data), Err(DecodeError::TooShort)));
}

#[test]
fn decode_rejects_foreign_protocol() {
    let o = options(false, 1, 0);
    let mut bytes = encode_report(&o, &Report::StateService { service: 1, port: 56700 });
    bytes[2] = 0x01;
    bytes[3] = 0x00;
    assert!(matches!(decode_report(&bytes), Err(DecodeError::UnsupportedProtocol)));
}

#[test]
fn decode_rejects_truncated_payload() {
    let o = options(false, 1, 0);
    let bytes = encode_report(&o, &Report::StateService { service: 1, port: 56700 });
    assert!(matches!(decode_report(&bytes[..38]), Err(DecodeError::TruncatedPayload)));
}

#[test]
fn unknown_message_kind_decodes_to_other() {
    let o = options(false, 1, 0);
    let mut bytes = encode_report(&o, &Report::StateService { service: 1, port: 56700 });
    bytes[32] = 22; // a state-power report, a kind this core ignores
    bytes[33] = 0;
    assert!(matches!(decode_report(&bytes), Ok(Report::Other)));
}

#[test]
fn service_advertisement_round_trips() {
    let o = options(false, 2, 5);
    let bytes = encode_report(&o, &Report::StateService { service: 1, port: 56700 });
    match decode_report(&bytes) {
        Ok(Report::StateService { service, port }) => {
            assert_eq!(service, 1);
            assert_eq!(port, 56700);
        }
        other => panic!("unexpected decode: {:?}", other),
    }
}

#[test]
fn firmware_report_round_trips() {
    let o = options(false, 2, 5);
    let bytes = encode_report(
        &o,
        &Report::HostFirmware { build: 1532997580, version_minor: 70, version_major: 3 },
    );
    match decode_report(&bytes) {
        Ok(Report::HostFirmware { build, version_minor, version_major }) => {
            assert_eq!(build, 1532997580);
            assert_eq!(version_minor, 70);
            assert_eq!(version_major, 3);
        }
        other => panic!("unexpected decode: {:?}", other),
    }
}

#[test]
fn label_report_round_trips_trimming_padding() {
    let o = options(false, 2, 5);
    let bytes = encode_report(&o, &Report::Label { label: String::from("Lamp") });
    match decode_report(&bytes) {
        Ok(Report::Label { label }) => assert_eq!(label, "Lamp"),
        other => panic!("unexpected decode: {:?}", other),
    }
}

#[test]
fn light_state_report_round_trips() {
    let o = options(false, 2, 5);
    let bytes = encode_report(
        &o,
        &Report::LightState {
            hue: 100,
            saturation: 200,
            brightness: 300,
            kelvin: 4000,
            power: 65535,
            label: String::from("Lamp"),
        },
    );
    match decode_report(&bytes) {
        Ok(Report::LightState { hue, saturation, brightness, kelvin, power, label }) => {
            assert_eq!(hue, 100);
            assert_eq!(saturation, 200);
            assert_eq!(brightness, 300);
            assert_eq!(kelvin, 4000);
            assert_eq!(power, 65535);
            assert_eq!(label, "Lamp");
        }
        other => panic!("unexpected decode: {:?}", other),
    }
}

#[test]
fn decode_tolerates_trailing_buffer_slack() {
    // the receive path hands the whole fixed buffer over, not just the
    // datagram's bytes
    let o = options(false, 2, 5);
    let mut bytes = encode_report(&o, &Report::StateService { service: 1, port: 56700 });
    bytes.resize(128, 0);
    assert!(matches!(
        decode_report(&bytes),
        Ok(Report::StateService { service: 1, port: 56700 })
    ));
}

#[test]
fn query_commands_have_empty_payloads() {
    let o = options(true, 0, 0);
    let service = encode_request(&o, &Command::GetService);
    assert_eq!(service.len(), 36);
    assert_eq!(&service[32..34], &[2, 0]);
    let firmware = encode_request(&o, &Command::GetHostFirmware);
    assert_eq!(firmware.len(), 36);
    assert_eq!(&firmware[32..34], &[14, 0]);
    let label = encode_request(&o, &Command::GetLabel);
    assert_eq!(label.len(), 36);
    assert_eq!(&label[32..34], &[23, 0]);
}
