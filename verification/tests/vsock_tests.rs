use vhost_user_vsock::backend::{virtio_vsock_config, VhostUserVsockBackend};
use vhost_user_vsock::event::EventAction::{
    CheckPendingRx, NotifyBackend, ProcessRx, ProcessTx, UpdateAvailEvents,
};
use vhost_user_vsock::event::{EventAction, EventLoop};
use vhost_user_vsock::thread::{QueueStep, RxOutcome, TxOutcome, UsedDescHeads, VhostUserVsockThread};
use vhost_user_vsock::{
    Error, OptionParserError, VhostUserVsockBackendConfig, BACKEND_EVENT, EVT_QUEUE_EVENT,
    NUM_QUEUES, QUEUE_SIZE, RX_QUEUE_EVENT, TX_QUEUE_EVENT,
};

fn parse_ok(s: &str) -> VhostUserVsockBackendConfig {
    match VhostUserVsockBackendConfig::parse(s) {
        Ok(c) => c,
        Err(e) => panic!("unexpected error {:?}", e),
    }
}

#[test]
fn parse_readme_example() {
    let c = parse_ok("guest_cid=4,uds_path=/tmp/vm4.vsock,socket=/tmp/vhost4.socket");
    assert_eq!(c.guest_cid, 4);
    assert_eq!(c.uds_path, "/tmp/vm4.vsock");
    assert_eq!(c.socket, "/tmp/vhost4.socket");
}

#[test]
fn parse_any_order() {
    let c = parse_ok("socket=/s,guest_cid=77,uds_path=/u");
    assert_eq!(c.guest_cid, 77);
    assert_eq!(c.uds_path, "/u");
    assert_eq!(c.socket, "/s");
}

#[test]
fn parse_default_guest_cid() {
    let c = parse_ok("uds_path=/a,socket=/b");
    assert_eq!(c.guest_cid, 3);
    assert_eq!(c.uds_path, "/a");
    assert_eq!(c.socket, "/b");
}

#[test]
fn parse_empty_guest_cid_is_default() {
    let c = parse_ok("guest_cid=,uds_path=/a,socket=/b");
    assert_eq!(c.guest_cid, 3);
}

#[test]
fn parse_trims_whitespace() {
    let c = parse_ok("  guest_cid= 12 ,uds_path=\t/a ,socket= /b\n");
    assert_eq!(c.guest_cid, 12);
    assert_eq!(c.uds_path, "/a");
    assert_eq!(c.socket, "/b");
}

#[test]
fn parse_later_value_wins() {
    let c = parse_ok("guest_cid=5,uds_path=/a,socket=/b,guest_cid=6,uds_path=/c");
    assert_eq!(c.guest_cid, 6);
    assert_eq!(c.uds_path, "/c");
}

#[test]
fn parse_plus_sign_and_max() {
    assert_eq!(parse_ok("guest_cid=+9,uds_path=/a,socket=/b").guest_cid, 9);
    assert_eq!(parse_ok("guest_cid=4294967295,uds_path=/a,socket=/b").guest_cid, 4294967295);
    assert_eq!(parse_ok("guest_cid=007,uds_path=/a,socket=/b").guest_cid, 7);
}

#[test]
fn parse_conversion_errors() {
    for bad in ["4294967296", "-1", "+", "12a", "1 2", "99999999999999999999"] {
        let s = format!("guest_cid={},uds_path=/a,socket=/b", bad);
        match VhostUserVsockBackendConfig::parse(&s) {
            Err(Error::FailedConfigParse(OptionParserError::Conversion(name, value))) => {
                assert_eq!(name, "guest_cid");
                assert_eq!(value, bad);
            }
            other => panic!("unexpected result for {}: {:?}", bad, other.map(|c| c.guest_cid)),
        }
    }
}

#[test]
fn parse_unknown_option() {
    match VhostUserVsockBackendConfig::parse("guest_cid=3,sock=/x,socket=/b") {
        Err(Error::FailedConfigParse(OptionParserError::UnknownOption(name))) => {
            assert_eq!(name, "sock")
        }
        _ => panic!("expected an unknown option"),
    }
    match VhostUserVsockBackendConfig::parse("uds_path=/a, socket=/b") {
        Err(Error::FailedConfigParse(OptionParserError::UnknownOption(name))) => {
            assert_eq!(name, " socket")
        }
        _ => panic!("expected an unknown option"),
    }
    match VhostUserVsockBackendConfig::parse("uds_path=/a,,socket=/b") {
        Err(Error::FailedConfigParse(OptionParserError::UnknownOption(name))) => {
            assert_eq!(name, "")
        }
        _ => panic!("expected an unknown option"),
    }
}

#[test]
fn parse_invalid_syntax() {
    match VhostUserVsockBackendConfig::parse("uds_path=/a,socket=/b=c") {
        Err(Error::FailedConfigParse(OptionParserError::InvalidSyntax(option))) => {
            assert_eq!(option, "socket=/b=c")
        }
        _ => panic!("expected invalid syntax"),
    }
}

#[test]
fn parse_first_error_wins() {
    match VhostUserVsockBackendConfig::parse("x=1,socket=a=b") {
        Err(Error::FailedConfigParse(OptionParserError::UnknownOption(name))) => {
            assert_eq!(name, "x")
        }
        _ => panic!("expected an unknown option"),
    }
}

#[test]
fn parse_missing_parameters() {
    assert!(matches!(
        VhostUserVsockBackendConfig::parse("guest_cid=3,uds_path=/a"),
        Err(Error::SocketParameterMissing)
    ));
    assert!(matches!(
        VhostUserVsockBackendConfig::parse("guest_cid=3,socket=/b"),
        Err(Error::UDSPathParameterMissing)
    ));
    assert!(matches!(
        VhostUserVsockBackendConfig::parse("uds_path,socket=/b"),
        Err(Error::UDSPathParameterMissing)
    ));
    assert!(matches!(
        VhostUserVsockBackendConfig::parse("uds_path=/a,socket="),
        Err(Error::SocketParameterMissing)
    ));
    assert!(matches!(
        VhostUserVsockBackendConfig::parse("   "),
        Err(Error::SocketParameterMissing)
    ));
    assert!(matches!(
        VhostUserVsockBackendConfig::parse(""),
        Err(Error::SocketParameterMissing)
    ));
}

#[test]
fn parse_conversion_before_missing() {
    assert!(matches!(
        VhostUserVsockBackendConfig::parse("guest_cid=x"),
        Err(Error::FailedConfigParse(OptionParserError::Conversion(_, _)))
    ));
}

#[test]
fn parse_unicode_values() {
    let c = parse_ok("uds_path=/tmp/ü\u{2003},socket=\u{3000}/ß");
    assert_eq!(c.uds_path, "/tmp/ü");
    assert_eq!(c.socket, "/ß");
}

fn backend(cid: u32) -> VhostUserVsockBackend {
    VhostUserVsockBackend::new(cid, VhostUserVsockThread::new())
}

#[test]
fn device_constants() {
    let b = backend(3);
    assert_eq!(b.num_queues(), NUM_QUEUES);
    assert_eq!(b.num_queues(), 2);
    assert_eq!(b.max_queue_size(), QUEUE_SIZE);
    assert_eq!(b.max_queue_size(), 128);
    assert_eq!(b.queues_per_thread(), vec![0b11]);
    assert_eq!(b.exit_event(0), Some(4));
    assert_eq!(b.num_threads(), 1);
}

#[test]
fn device_features() {
    let b = backend(3);
    let expected: u64 = (1u64 << 32) | (1u64 << 24) | (1u64 << 29) | 0x4000_0000;
    assert_eq!(b.features(), expected);
    assert_eq!(b.features(), 0x1_6100_0000);
    assert_eq!(b.protocol_features(), 0x200);
}

#[test]
fn device_config_space() {
    let b = backend(4);
    assert_eq!(b.config(), virtio_vsock_config { guest_cid: 4 });
    assert_eq!(b.get_config(0, 8), 4u64.to_ne_bytes().to_vec());
    let b = backend(0xdead_beef);
    assert_eq!(b.get_config(3, 1), 0xdead_beefu64.to_ne_bytes().to_vec());
    let c = virtio_vsock_config { guest_cid: 0x0102_0304_0506_0708 };
    let bytes = c.to_bytes();
    assert_eq!(bytes.len(), 8);
    assert_eq!(bytes, c.guest_cid.to_ne_bytes().to_vec());
    assert!(bytes == vec![8, 7, 6, 5, 4, 3, 2, 1] || bytes == vec![1, 2, 3, 4, 5, 6, 7, 8]);
    assert_eq!(bytes == vec![8, 7, 6, 5, 4, 3, 2, 1], 1u16.to_ne_bytes()[0] == 1);
    let mut raw = [0u8; 8];
    raw.copy_from_slice(&bytes);
    assert_eq!(u64::from_ne_bytes(raw), c.guest_cid);
}

#[test]
fn device_event_idx_and_memory() {
    let mut b = backend(3);
    assert!(!b.thread(0).event_idx);
    assert!(!b.thread(0).has_mem);
    b.set_event_idx(true);
    assert!(b.thread(0).event_idx);
    assert!(!b.thread(0).has_mem);
    b.update_memory();
    assert!(b.thread(0).has_mem);
    assert!(b.thread(0).event_idx);
    b.set_event_idx(false);
    assert!(!b.thread(0).event_idx);
    assert!(b.thread(0).has_mem);
    assert_eq!(b.config().guest_cid, 3);
}

#[test]
fn device_vring_workers() {
    let b = backend(3);
    assert!(b.accepts_vring_workers(1));
    assert!(!b.accepts_vring_workers(0));
    assert!(!b.accepts_vring_workers(2));
}

#[test]
fn thread_set_vring_worker() {
    let mut t = VhostUserVsockThread::new();
    assert!(!t.has_vring_worker);
    assert_eq!(t.set_vring_worker(), BACKEND_EVENT as u64);
    assert!(t.has_vring_worker);
}

/// Runs the handler, answering every action from `answers`, and returns the
/// actions in the order they were asked for.
fn drive(mut h: EventLoop, answers: &[bool]) -> Vec<EventAction> {
    let mut seen = Vec::new();
    let mut i = 0;
    while !h.is_finished() {
        seen.push(h.action());
        let a = if i < answers.len() { answers[i] } else { false };
        i += 1;
        h.complete(a);
        assert!(seen.len() < 100);
    }
    assert!(matches!(h.result(), Ok(false)));
    seen
}

#[test]
fn event_refusals() {
    assert!(matches!(EventLoop::start(RX_QUEUE_EVENT, 0x4, false), Err(Error::HandleEventNotEpollIn)));
    assert!(matches!(EventLoop::start(RX_QUEUE_EVENT, 0x5, true), Err(Error::HandleEventNotEpollIn)));
    assert!(matches!(EventLoop::start(7, 0x4, false), Err(Error::HandleEventNotEpollIn)));
    assert!(matches!(EventLoop::start(4, 1, false), Err(Error::HandleEventUnknownEvent)));
    let b = backend(3);
    assert!(matches!(b.handle_event(9, 1, 0), Err(Error::HandleEventUnknownEvent)));
    assert!(b.handle_event(TX_QUEUE_EVENT, 1, 0).is_ok());
}

#[test]
fn event_rx_without_event_idx() {
    let h = EventLoop::start(RX_QUEUE_EVENT, 1, false).unwrap();
    assert_eq!(drive(h, &[true, true]), vec![CheckPendingRx, ProcessRx]);
    let h = EventLoop::start(RX_QUEUE_EVENT, 1, false).unwrap();
    assert_eq!(drive(h, &[false]), vec![CheckPendingRx]);
}

#[test]
fn event_tx_and_backend() {
    let h = EventLoop::start(TX_QUEUE_EVENT, 1, false).unwrap();
    assert_eq!(drive(h, &[true, true, true]), vec![ProcessTx, CheckPendingRx, ProcessRx]);
    let h = EventLoop::start(TX_QUEUE_EVENT, 1, false).unwrap();
    assert_eq!(drive(h, &[true, false]), vec![ProcessTx, CheckPendingRx]);
    let h = EventLoop::start(BACKEND_EVENT, 1, false).unwrap();
    assert_eq!(drive(h, &[false, false, true, false]), vec![NotifyBackend, ProcessTx, CheckPendingRx, ProcessRx]);
}

#[test]
fn event_evt_queue() {
    let h = EventLoop::start(EVT_QUEUE_EVENT, 1, false).unwrap();
    assert_eq!(drive(h, &[true]), Vec::<EventAction>::new());
    let h = EventLoop::start(EVT_QUEUE_EVENT, 1, true).unwrap();
    assert_eq!(drive(h, &[true, true]), vec![UpdateAvailEvents]);
}

#[test]
fn event_idx_repeats_rounds_while_working() {
    let h = EventLoop::start(TX_QUEUE_EVENT, 1, true).unwrap();
    // round 1: tx works, no rx; round 2: no tx work, rx pending but no work.
    let answers = [true, false, false, false, true, false, false];
    assert_eq!(
        drive(h, &answers),
        vec![ProcessTx, CheckPendingRx, UpdateAvailEvents, ProcessTx, CheckPendingRx, ProcessRx, UpdateAvailEvents]
    );
    let h = EventLoop::start(RX_QUEUE_EVENT, 1, true).unwrap();
    let answers = [true, true, false, true, false, false, false];
    assert_eq!(
        drive(h, &answers),
        vec![CheckPendingRx, ProcessRx, UpdateAvailEvents, CheckPendingRx, ProcessRx, UpdateAvailEvents]
    );
}

#[test]
fn event_uses_thread_event_idx() {
    let mut b = backend(3);
    b.set_event_idx(true);
    let h = b.handle_event(EVT_QUEUE_EVENT, 1, 0).unwrap();
    assert_eq!(drive(h, &[]), vec![UpdateAvailEvents]);
}

#[test]
fn rx_pass() {
    let mut t = VhostUserVsockThread::new();
    assert!(t.process_rx().is_none());
    t.has_mem = true;
    let mut p = t.process_rx().unwrap();
    assert_eq!(p.len(), 0);
    assert!(!p.signal());
    assert_eq!(p.add_rx(3, RxOutcome::Received { hdr_len: 44, data_len: 100 }), QueueStep::Next);
    assert_eq!(p.add_rx(5, RxOutcome::Invalid), QueueStep::Next);
    assert!(!p.stopped());
    assert_eq!(p.add_rx(6, RxOutcome::NotReceived), QueueStep::Rewind);
    assert!(p.stopped());
    assert_eq!(p.heads(), &vec![(3, 144), (5, 0)]);
    assert!(p.signal());
}

#[test]
fn tx_pass() {
    let mut t = VhostUserVsockThread::new();
    assert!(t.process_tx().is_none());
    t.has_mem = true;
    let mut p = t.process_tx().unwrap();
    assert_eq!(p.add_tx(0, TxOutcome::Invalid), QueueStep::Next);
    assert_eq!(p.add_tx(1, TxOutcome::Sent), QueueStep::Next);
    assert!(!p.stopped());
    assert_eq!(p.add_tx(2, TxOutcome::NotSent), QueueStep::Rewind);
    assert!(p.stopped());
    assert_eq!(p.heads(), &vec![(0, 0), (1, 0)]);
    assert!(p.signal());
    let mut q = UsedDescHeads::new();
    assert_eq!(q.add_tx(9, TxOutcome::NotSent), QueueStep::Rewind);
    assert!(!q.signal());
}

#[test]
fn pass_fills_to_queue_size() {
    let mut p = UsedDescHeads::new();
    for i in 0..QUEUE_SIZE {
        assert_eq!(p.add_tx(i as u16, TxOutcome::Sent), QueueStep::Next);
    }
    assert_eq!(p.len(), QUEUE_SIZE);
    assert_eq!(p.add_tx(200, TxOutcome::NotSent), QueueStep::Rewind);
    assert_eq!(p.len(), QUEUE_SIZE);
}

#[test]
fn event_set_refused_for_any_thread() {
    let b = backend(3);
    for thread_id in [0usize, 1, 7, usize::MAX] {
        for evset in [0u32, 0x4, 0x5, 0x11, 0x8] {
            assert!(matches!(
                b.handle_event(RX_QUEUE_EVENT, evset, thread_id),
                Err(Error::HandleEventNotEpollIn)
            ));
        }
    }
    assert!(EventLoop::accepts_event_set(1));
    assert!(!EventLoop::accepts_event_set(5));
}

#[test]
fn queue_masks_kept_by_every_method() {
    let mut b = backend(3);
    b.set_event_idx(true);
    b.update_memory();
    assert_eq!(b.set_vring_worker(0), BACKEND_EVENT as u64);
    assert!(b.thread(0).has_vring_worker);
    assert!(b.thread(0).event_idx);
    assert!(b.thread(0).has_mem);
    let masks = b.queues_per_thread();
    assert_eq!(masks, vec![0b11]);
    assert_eq!(masks.len(), b.num_threads());
    let all = masks.iter().fold(0u64, |acc, m| acc | m);
    assert_eq!(all, (1u64 << b.num_queues()) - 1);
}
