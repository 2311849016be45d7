use crabyknife::checksum::checksum;
use crabyknife::ping::{
    build_packet, is_valid_reply, probe_report, probe_step, run_probes, simulate_ping, FatalError,
    ProbeEvent, ProbeReport, ProbeStep, RecvOutcome, SetupOutcome, DEFAULT_PROBE_COUNT,
};

#[test]
fn test_build_packet_exact_bytes() {
    // seq = 0, identifier = 0x1234: the checksum over
    // [08 00 00 00 12 34 00 00] is !(0x0800 + 0x1234) = 0xE5CB.
    let packet = build_packet(0, 0x1234);
    assert_eq!(packet, vec![0x08, 0x00, 0xE5, 0xCB, 0x12, 0x34, 0x00, 0x00]);
}

#[test]
fn test_build_packet_verifies_to_zero() {
    let packet = build_packet(7, 0xBEEF);
    assert_eq!(packet.len(), 8);
    assert_eq!(packet[0], 8);
    assert_eq!(packet[1], 0);
    assert_eq!(checksum(&packet), 0x0000);
}

#[test]
fn test_build_packet_deterministic() {
    let a = build_packet(3, 0xABCD);
    let b = build_packet(3, 0xABCD);
    assert_eq!(a, b);
}

#[test]
fn test_reply_classification() {
    // 28 bytes with the ICMP type byte (offset 20) equal to 0: a reply.
    let mut buf = [0u8; 28];
    assert!(is_valid_reply(&buf));
    // The same buffer with type 3 (destination unreachable): no reply.
    buf[20] = 0x03;
    assert!(!is_valid_reply(&buf));
    // Shorter than 28 bytes: never a reply, whatever it holds.
    let short = [0u8; 27];
    assert!(!is_valid_reply(&short));
}

#[test]
fn test_probe_report_variants() {
    let valid = RecvOutcome::Received { data: vec![0u8; 28], rtt_ms: 12 };
    assert_eq!(probe_report(4, &valid), ProbeReport::Reply { seq: 4, rtt_ms: 12 });

    let mut bad = vec![0u8; 28];
    bad[20] = 0x03;
    let malformed = RecvOutcome::Received { data: bad, rtt_ms: 12 };
    assert_eq!(probe_report(4, &malformed), ProbeReport::Malformed { seq: 4 });

    assert_eq!(probe_report(4, &RecvOutcome::TimedOut), ProbeReport::TimedOut { seq: 4 });
}

#[test]
fn test_send_failure_aborts_run() {
    // A failed send is fatal for the whole run, unlike a missing reply.
    assert_eq!(
        probe_step(3, ProbeEvent::SendFailed),
        ProbeStep::Abort(FatalError::SendFailed { seq: 3 })
    );
    assert_eq!(
        probe_step(2, ProbeEvent::Sent(RecvOutcome::TimedOut)),
        ProbeStep::Report(ProbeReport::TimedOut { seq: 2 })
    );
    let reply = ProbeEvent::Sent(RecvOutcome::Received { data: vec![0u8; 28], rtt_ms: 9 });
    assert_eq!(probe_step(1, reply), ProbeStep::Report(ProbeReport::Reply { seq: 1, rtt_ms: 9 }));
}

#[test]
fn test_all_timeouts_reported_in_order() {
    // A transport that never answers: one timeout per sequence number,
    // in increasing order, and the run is not cut short.
    let outcomes = vec![
        RecvOutcome::TimedOut,
        RecvOutcome::TimedOut,
        RecvOutcome::TimedOut,
        RecvOutcome::TimedOut,
        RecvOutcome::TimedOut,
    ];
    let run = run_probes(0x4242, DEFAULT_PROBE_COUNT, &outcomes);
    assert_eq!(run.reports.len(), 5);
    assert_eq!(run.packets.len(), 5);
    for (i, report) in run.reports.iter().enumerate() {
        assert_eq!(*report, ProbeReport::TimedOut { seq: i as u16 });
    }
}

#[test]
fn test_run_builds_each_packet() {
    let outcomes = vec![RecvOutcome::TimedOut, RecvOutcome::TimedOut];
    let run = run_probes(0x1234, 2, &outcomes);
    assert_eq!(run.packets[0], build_packet(0, 0x1234));
    assert_eq!(run.packets[1], build_packet(1, 0x1234));
    assert_eq!(run.packets[0], vec![0x08, 0x00, 0xE5, 0xCB, 0x12, 0x34, 0x00, 0x00]);
}

#[test]
fn test_resolution_failure_prevents_probes() {
    // A failed name resolution is fatal before any packet is built.
    let outcomes: Vec<RecvOutcome> = Vec::new();
    let r = simulate_ping(&SetupOutcome::ResolutionFailed, 0x1234, 0, &outcomes);
    match r {
        Err(e) => assert_eq!(e, FatalError::ResolutionFailed),
        Ok(_) => panic!("a failed resolution must abort the run"),
    }
}

#[test]
fn test_socket_failures_are_fatal() {
    let outcomes: Vec<RecvOutcome> = Vec::new();
    match simulate_ping(&SetupOutcome::SocketFailed, 0, 0, &outcomes) {
        Err(e) => assert_eq!(e, FatalError::SocketCreationFailed),
        Ok(_) => panic!("a failed socket creation must abort the run"),
    }
    match simulate_ping(&SetupOutcome::TimeoutConfigFailed, 0, 0, &outcomes) {
        Err(e) => assert_eq!(e, FatalError::TimeoutConfigFailed),
        Ok(_) => panic!("a failed timeout configuration must abort the run"),
    }
}

#[test]
fn test_single_drop_does_not_stop_run() {
    // One dropped reply among good ones: the other probes still run and
    // report replies; only the dropped one reports a timeout.
    let good = || RecvOutcome::Received { data: vec![0u8; 28], rtt_ms: 5 };
    let outcomes = vec![good(), good(), RecvOutcome::TimedOut, good(), good()];
    let run = simulate_ping(&SetupOutcome::Ready, 0x7777, 5, &outcomes).unwrap();
    assert_eq!(run.reports.len(), 5);
    assert_eq!(run.reports[0], ProbeReport::Reply { seq: 0, rtt_ms: 5 });
    assert_eq!(run.reports[1], ProbeReport::Reply { seq: 1, rtt_ms: 5 });
    assert_eq!(run.reports[2], ProbeReport::TimedOut { seq: 2 });
    assert_eq!(run.reports[3], ProbeReport::Reply { seq: 3, rtt_ms: 5 });
    assert_eq!(run.reports[4], ProbeReport::Reply { seq: 4, rtt_ms: 5 });
}
