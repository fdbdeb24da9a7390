use lightctl::channel::CommandChannel;
use lightctl::discovery::{discovery_probes, run_discovery_cycle};
use lightctl::envelope::RequestOptions;
use lightctl::message::Command;

fn discovery_options(sequence: u8) -> RequestOptions {
    RequestOptions {
        tagged: true,
        source: 10,
        target: [0; 8],
        ack_required: false,
        res_required: true,
        sequence,
    }
}

#[test]
fn one_probe_per_endpoint_with_port_suffix() {
    let endpoints = vec![String::from("192.168.1.255"), String::from("10.0.0.255")];
    let mut options = discovery_options(0);
    let probes = discovery_probes(&endpoints, &mut options);
    assert_eq!(probes.len(), 2);
    assert_eq!(probes[0].target, "192.168.1.255:56700");
    assert_eq!(probes[1].target, "10.0.0.255:56700");
    assert!(matches!(probes[0].message, Command::GetColor));
    assert!(matches!(probes[1].message, Command::GetColor));
    assert!(probes[0].options.tagged);
    assert!(probes[0].options.res_required);
    assert!(!probes[0].options.ack_required);
    assert_eq!(probes[0].options.source, 10);
}

#[test]
fn probe_sequences_are_consecutive_modulo_256() {
    let endpoints = vec![
        String::from("192.168.1.255"),
        String::from("10.0.0.255"),
        String::from("172.17.0.255"),
    ];
    let mut options = discovery_options(254);
    let probes = discovery_probes(&endpoints, &mut options);
    assert_eq!(probes[0].options.sequence, 254);
    assert_eq!(probes[1].options.sequence, 255);
    assert_eq!(probes[2].options.sequence, 0);
    assert_eq!(options.sequence, 1);
}

#[test]
fn own_device_network_is_skipped() {
    let endpoints = vec![
        String::from("192.168.1.255"),
        String::from("172.16.0.255"),
        String::from("10.0.0.255"),
    ];
    let mut options = discovery_options(0);
    let probes = discovery_probes(&endpoints, &mut options);
    assert_eq!(probes.len(), 2);
    assert_eq!(probes[0].target, "192.168.1.255:56700");
    assert_eq!(probes[1].target, "10.0.0.255:56700");
    // the skipped endpoint consumes no sequence number
    assert_eq!(options.sequence, 2);
}

#[test]
fn discovery_cycle_enqueues_probes_in_order() {
    let mut chan = CommandChannel::new();
    let endpoints = vec![String::from("192.168.1.255"), String::from("10.0.0.255")];
    let mut options = discovery_options(0);
    let r = run_discovery_cycle(&mut chan, &endpoints, &mut options);
    assert!(r.is_ok());
    let drained = chan.try_receive_all();
    assert_eq!(drained.len(), 2);
    assert_eq!(drained[0].target, "192.168.1.255:56700");
    assert_eq!(drained[0].options.sequence, 0);
    assert_eq!(drained[1].target, "10.0.0.255:56700");
    assert_eq!(drained[1].options.sequence, 1);
}

#[test]
fn discovery_cycle_after_shutdown_fails_terminally() {
    let mut chan = CommandChannel::new();
    chan.close();
    let endpoints = vec![String::from("192.168.1.255")];
    let mut options = discovery_options(0);
    let r = run_discovery_cycle(&mut chan, &endpoints, &mut options);
    assert!(r.is_err());
    assert_eq!(chan.len(), 0);
}

#[test]
fn no_endpoints_no_probes() {
    let endpoints: Vec<String> = Vec::new();
    let mut options = discovery_options(42);
    let probes = discovery_probes(&endpoints, &mut options);
    assert!(probes.is_empty());
    assert_eq!(options.sequence, 42);
}
