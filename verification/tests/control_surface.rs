use lightctl::channel::CommandChannel;
use lightctl::control::{
    handle_power_toggle, handle_set_color, handle_set_name, ColorRequest, NameRequest,
    PowerRequest,
};
use lightctl::envelope::Sequencer;
use lightctl::message::Command;
use lightctl::onboard::{build_onboarding_request, pad_with_nulls};
use lightctl::registry::Registry;

fn known_device(reg: &mut Registry, ip: &str) -> String {
    let a = String::from(ip);
    reg.merge_light_state(&a, 100, 200, 300, 4000, 0, String::from("Lamp"));
    a
}

#[test]
fn power_toggle_turns_a_dim_light_full_on() {
    let mut reg = Registry::new();
    let mut chan = CommandChannel::new();
    let mut seq = Sequencer::new();
    let a = known_device(&mut reg, "10.0.0.2:56700");

    let r = handle_power_toggle(
        &mut reg,
        &mut chan,
        &mut seq,
        &PowerRequest { ip: a.clone() },
    );
    assert!(r.is_ok());
    assert_eq!(reg.get(&a).unwrap().power, Some(65535));
    let sent = chan.try_receive_all();
    assert_eq!(sent.len(), 1);
    assert_eq!(sent[0].target, a);
    assert!(matches!(sent[0].message, Command::SetPower { level: 65535 }));
    assert_eq!(sent[0].options.sequence, 0);
    assert_eq!(seq.last, 1);
}

#[test]
fn power_toggle_turns_a_full_light_off() {
    let mut reg = Registry::new();
    let mut chan = CommandChannel::new();
    let mut seq = Sequencer::new();
    let a = String::from("10.0.0.2:56700");
    reg.merge_light_state(&a, 1, 2, 3, 4, 65535, String::from("Lamp"));

    handle_power_toggle(&mut reg, &mut chan, &mut seq, &PowerRequest { ip: a.clone() }).unwrap();
    assert_eq!(reg.get(&a).unwrap().power, Some(0));
    let sent = chan.try_receive_all();
    assert!(matches!(sent[0].message, Command::SetPower { level: 0 }));
}

#[test]
fn set_color_updates_registry_and_enqueues_command() {
    let mut reg = Registry::new();
    let mut chan = CommandChannel::new();
    let mut seq = Sequencer::new();
    let a = known_device(&mut reg, "10.0.0.2:56700");

    let req = ColorRequest { ip: a.clone(), hue: 11, saturation: 22, brightness: 33, kelvin: 44 };
    handle_set_color(&mut reg, &mut chan, &mut seq, &req).unwrap();

    let light = reg.get(&a).unwrap();
    assert_eq!(light.hue, Some(11));
    assert_eq!(light.saturation, Some(22));
    assert_eq!(light.brightness, Some(33));
    assert_eq!(light.kelvin, Some(44));
    assert_eq!(light.label, Some(String::from("Lamp")));

    let sent = chan.try_receive_all();
    assert_eq!(sent.len(), 1);
    match &sent[0].message {
        Command::SetColor { reserved, hue, saturation, brightness, kelvin, duration_ms } => {
            assert_eq!(*reserved, 1);
            assert_eq!(*hue, 11);
            assert_eq!(*saturation, 22);
            assert_eq!(*brightness, 33);
            assert_eq!(*kelvin, 44);
            assert_eq!(*duration_ms, 450);
        }
        other => panic!("unexpected command: {:?}", other),
    }
}

#[test]
fn set_name_stores_the_name_and_sends_it_padded() {
    let mut reg = Registry::new();
    let mut chan = CommandChannel::new();
    let mut seq = Sequencer::new();
    let a = known_device(&mut reg, "10.0.0.2:56700");

    let req = NameRequest { ip: a.clone(), name: String::from("Desk Lamp") };
    handle_set_name(&mut reg, &mut chan, &mut seq, &req).unwrap();

    assert_eq!(reg.get(&a).unwrap().label, Some(String::from("Desk Lamp")));
    let sent = chan.try_receive_all();
    match &sent[0].message {
        Command::SetLabel { label } => {
            assert_eq!(label.len(), 32);
            assert!(label.starts_with("Desk Lamp"));
            assert!(label[9..].bytes().all(|b| b == 0));
        }
        other => panic!("unexpected command: {:?}", other),
    }
}

#[test]
fn operator_sequence_numbers_advance_per_command() {
    let mut reg = Registry::new();
    let mut chan = CommandChannel::new();
    let mut seq = Sequencer::new();
    let a = known_device(&mut reg, "10.0.0.2:56700");

    handle_power_toggle(&mut reg, &mut chan, &mut seq, &PowerRequest { ip: a.clone() }).unwrap();
    handle_power_toggle(&mut reg, &mut chan, &mut seq, &PowerRequest { ip: a.clone() }).unwrap();
    let sent = chan.try_receive_all();
    assert_eq!(sent[0].options.sequence, 0);
    assert_eq!(sent[1].options.sequence, 1);
}

#[test]
fn pad_with_nulls_pads_short_input() {
    let padded = pad_with_nulls("abc", 6);
    assert_eq!(padded.len(), 6);
    assert_eq!(&padded[..3], "abc");
    assert!(padded[3..].bytes().all(|b| b == 0));
}

#[test]
fn pad_with_nulls_keeps_long_input() {
    let padded = pad_with_nulls("abcdef", 4);
    assert_eq!(padded, "abcdef");
}

#[test]
fn onboarding_packet_has_the_provisioning_layout() {
    let (options, bytes) = build_onboarding_request("HomeNet", "passphrase");
    assert!(options.tagged);
    assert!(options.ack_required);
    assert!(options.res_required);
    assert_eq!(options.sequence, 0);
    assert_eq!(bytes.len(), 36 + 1 + 32 + 64 + 1);
    // message type 305, little-endian
    assert_eq!(&bytes[32..34], &[0x31, 0x01]);
    assert_eq!(bytes[36], 2); // interface selector
    assert_eq!(&bytes[37..44], b"HomeNet");
    assert!(bytes[44..69].iter().all(|b| *b == 0));
    assert_eq!(&bytes[69..79], b"passphrase");
    assert!(bytes[79..133].iter().all(|b| *b == 0));
    assert_eq!(bytes[133], 5); // security protocol selector
}
