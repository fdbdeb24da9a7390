use lightctl::channel::CommandChannel;
use lightctl::envelope::{RequestOptions, Sequencer};
use lightctl::message::{Command, Request};

fn probe_options(sequence: u8) -> RequestOptions {
    RequestOptions {
        tagged: true,
        source: 10,
        target: [0; 8],
        ack_required: false,
        res_required: true,
        sequence,
    }
}

fn request_to(target: &str, sequence: u8) -> Request {
    Request {
        options: probe_options(sequence),
        message: Command::GetColor,
        target: String::from(target),
    }
}

#[test]
fn empty_drain_returns_no_items() {
    let mut chan = CommandChannel::new();
    let drained = chan.try_receive_all();
    assert!(drained.is_empty());
    assert_eq!(chan.len(), 0);
}

#[test]
fn send_accepts_every_item_while_open() {
    let mut chan = CommandChannel::new();
    for i in 0..1000u32 {
        let r = chan.send(request_to("10.0.0.2:56700", (i % 256) as u8));
        assert!(r.is_ok());
    }
    assert_eq!(chan.len(), 1000);
}

#[test]
fn drain_preserves_enqueue_order() {
    let mut chan = CommandChannel::new();
    chan.send(request_to("10.0.0.2:56700", 0)).unwrap();
    chan.send(request_to("10.0.0.3:56700", 1)).unwrap();
    chan.send(request_to("10.0.0.4:56700", 2)).unwrap();
    let drained = chan.try_receive_all();
    assert_eq!(drained.len(), 3);
    assert_eq!(drained[0].target, "10.0.0.2:56700");
    assert_eq!(drained[1].target, "10.0.0.3:56700");
    assert_eq!(drained[2].target, "10.0.0.4:56700");
    assert_eq!(drained[0].options.sequence, 0);
    assert_eq!(drained[1].options.sequence, 1);
    assert_eq!(drained[2].options.sequence, 2);
    assert_eq!(chan.len(), 0);
}

#[test]
fn send_after_close_reports_terminal_error() {
    let mut chan = CommandChannel::new();
    chan.send(request_to("10.0.0.2:56700", 0)).unwrap();
    chan.close();
    assert!(chan.is_shut_down());
    let r = chan.send(request_to("10.0.0.3:56700", 1));
    assert!(r.is_err());
    assert_eq!(chan.len(), 1);
}

#[test]
fn sequencer_returns_current_then_advances() {
    let mut seq = Sequencer::new();
    assert_eq!(seq.next(), 0);
    assert_eq!(seq.next(), 1);
    assert_eq!(seq.next(), 2);
}

#[test]
fn sequencer_wraps_modulo_256() {
    let mut seq = Sequencer { last: 255 };
    assert_eq!(seq.next(), 255);
    assert_eq!(seq.next(), 0);
}

#[test]
fn increment_sequence_wraps_and_keeps_other_fields() {
    let mut options = probe_options(255);
    options.increment_sequence();
    assert_eq!(options.sequence, 0);
    assert!(options.tagged);
    assert_eq!(options.source, 10);
    assert!(!options.ack_required);
    assert!(options.res_required);
    options.increment_sequence();
    assert_eq!(options.sequence, 1);
}
