//! The ICMP echo probe core: building Echo Request packets, classifying
//! inbound datagrams as Echo Replies, and turning per-probe transport
//! outcomes into per-probe reports. All network I/O, timing and printing
//! live outside this crate; callers hand in the bytes and outcomes.

use crate::checksum::{
    checksum, checksum_spec, high_byte, lemma_checksum_round_trip, low_byte, with_checksum,
};
use vstd::prelude::*;

verus! {

/// ICMP type of an Echo Request.
pub const ICMP_ECHO_REQUEST: u8 = 8;

/// ICMP type of an Echo Reply.
pub const ICMP_ECHO_REPLY: u8 = 0;

/// Length of the ICMP echo header; the packets built here carry no
/// payload beyond it.
pub const ICMP_HEADER_LEN: usize = 8;

/// Offset of the ICMP type byte in a received datagram, past the
/// assumed 20-byte IPv4 header.
pub const ICMP_TYPE_OFFSET: usize = 20;

/// Smallest datagram that can hold an IPv4 header and an ICMP header.
pub const MIN_REPLY_LEN: usize = 28;

/// How many probes one run sends by default.
pub const DEFAULT_PROBE_COUNT: u16 = 5;

/// Default receive timeout, in seconds.
pub const DEFAULT_TIMEOUT_SECS: u64 = 1;

/// Default pause between probes, in seconds.
pub const DEFAULT_DELAY_SECS: u64 = 1;

/// The eight header bytes of an Echo Request with the checksum field
/// still zero: type, code, checksum, then identifier and sequence
/// number in big-endian order.
pub open spec fn echo_request_zeroed(seq: u16, identifier: u16) -> Seq<u8> {
    seq![
        ICMP_ECHO_REQUEST,
        0u8,
        0u8,
        0u8,
        high_byte(identifier),
        low_byte(identifier),
        high_byte(seq),
        low_byte(seq),
    ]
}

/// The complete Echo Request packet: the zero-checksum header with its
/// own checksum stored in bytes 2 and 3.
pub open spec fn echo_request_bytes(seq: u16, identifier: u16) -> Seq<u8> {
    with_checksum(
        echo_request_zeroed(seq, identifier),
        checksum_spec(echo_request_zeroed(seq, identifier)),
    )
}

/// A received datagram counts as an Echo Reply exactly when it is long
/// enough to hold an IPv4 header plus an ICMP header and the ICMP type
/// byte says Echo Reply. The reply's own checksum and identifier field
/// are deliberately not checked: conventional loose classification,
/// kept as is rather than silently strengthened.
pub open spec fn is_echo_reply(data: Seq<u8>) -> bool {
    data.len() >= MIN_REPLY_LEN && data[ICMP_TYPE_OFFSET as int] == ICMP_ECHO_REPLY
}

/// Builds the Echo Request packet for one probe: sequence number `seq`,
/// run identifier `identifier`, checksum filled in so that the packet
/// verifies to zero.
pub fn build_packet(seq: u16, identifier: u16) -> (packet: Vec<u8>)
    ensures
        packet@ == echo_request_bytes(seq, identifier),
        packet@.len() == ICMP_HEADER_LEN as int,
        checksum_spec(packet@) == 0,
{
    let mut header: Vec<u8> = Vec::new();
    header.push(ICMP_ECHO_REQUEST);
    header.push(0);
    header.push(0);
    header.push(0);
    header.push((identifier / 256) as u8);
    header.push((identifier % 256) as u8);
    header.push((seq / 256) as u8);
    header.push((seq % 256) as u8);
    proof {
        assert(header@ =~= echo_request_zeroed(seq, identifier));
    }
    let cs = checksum(header.as_slice());
    let mut packet: Vec<u8> = Vec::new();
    packet.push(ICMP_ECHO_REQUEST);
    packet.push(0);
    packet.push((cs / 256) as u8);
    packet.push((cs % 256) as u8);
    packet.push((identifier / 256) as u8);
    packet.push((identifier % 256) as u8);
    packet.push((seq / 256) as u8);
    packet.push((seq % 256) as u8);
    proof {
        assert(packet@ =~= echo_request_bytes(seq, identifier));
        lemma_checksum_round_trip(echo_request_zeroed(seq, identifier));
    }
    packet
}

/// The two checksum bytes of an Echo Request are fully determined by
/// the other six: they hold the checksum of the packet with the field
/// zeroed, and they make the whole packet checksum-verify to zero.
pub proof fn lemma_checksum_bytes_determined(seq: u16, identifier: u16)
    ensures
        ({
            let packet = echo_request_bytes(seq, identifier);
            let zeroed = packet.update(2, 0u8).update(3, 0u8);
            &&& packet[2] == high_byte(checksum_spec(zeroed))
            &&& packet[3] == low_byte(checksum_spec(zeroed))
            &&& checksum_spec(packet) == 0
        }),
{
    let packet = echo_request_bytes(seq, identifier);
    let zeroed = packet.update(2, 0u8).update(3, 0u8);
    assert(zeroed =~= echo_request_zeroed(seq, identifier));
    lemma_checksum_round_trip(echo_request_zeroed(seq, identifier));
}

/// Checks whether a received datagram is a well-formed Echo Reply.
pub fn is_valid_reply(data: &[u8]) -> (r: bool)
    ensures
        r == is_echo_reply(data@),
{
    data.len() >= MIN_REPLY_LEN && data[ICMP_TYPE_OFFSET] == ICMP_ECHO_REPLY
}

/// What the transport produced for one probe: a datagram with its
/// measured round-trip time, or nothing within the timeout bound (a
/// receive error counts as a timeout).
pub enum RecvOutcome {
    Received { data: Vec<u8>, rtt_ms: u64 },
    TimedOut,
}

/// The reported result of one probe.
#[derive(Clone, Copy, PartialEq, Eq, Structural, Debug)]
pub enum ProbeReport {
    Reply { seq: u16, rtt_ms: u64 },
    Malformed { seq: u16 },
    TimedOut { seq: u16 },
}

/// An error that aborts a whole run before or between probes; per-probe
/// timeouts and malformed replies are never fatal.
#[derive(Clone, Copy, PartialEq, Eq, Structural, Debug)]
pub enum FatalError {
    ResolutionFailed,
    SocketCreationFailed,
    TimeoutConfigFailed,
    SendFailed { seq: u16 },
}

/// How a run's setup went: name resolution, raw socket creation and
/// timeout configuration each either succeeded or name the failure.
#[derive(Clone, Copy, PartialEq, Eq, Structural, Debug)]
pub enum SetupOutcome {
    Ready,
    ResolutionFailed,
    SocketFailed,
    TimeoutConfigFailed,
}

/// The report owed for probe `seq` given its transport outcome: a reply
/// that classifies as an Echo Reply is reported with its round-trip
/// time, any other datagram as malformed, and silence as a timeout.
pub open spec fn report_for(seq: u16, outcome: RecvOutcome) -> ProbeReport {
    match outcome {
        RecvOutcome::Received { data, rtt_ms } => if is_echo_reply(data@) {
            ProbeReport::Reply { seq, rtt_ms }
        } else {
            ProbeReport::Malformed { seq }
        },
        RecvOutcome::TimedOut => ProbeReport::TimedOut { seq },
    }
}

/// Turns one probe's transport outcome into its report.
pub fn probe_report(seq: u16, outcome: &RecvOutcome) -> (r: ProbeReport)
    ensures
        r == report_for(seq, *outcome),
{
    match outcome {
        RecvOutcome::Received { data, rtt_ms } => {
            if is_valid_reply(data.as_slice()) {
                ProbeReport::Reply { seq, rtt_ms: *rtt_ms }
            } else {
                ProbeReport::Malformed { seq }
            }
        },
        RecvOutcome::TimedOut => ProbeReport::TimedOut { seq },
    }
}

/// What the transport did for one probe: the send went out and the
/// receive had an outcome, or the send itself failed.
pub enum ProbeEvent {
    Sent(RecvOutcome),
    SendFailed,
}

/// What one probe's event means for the run: a report for that probe
/// alone, or an abort of the whole run.
#[derive(Clone, Copy, PartialEq, Eq, Structural, Debug)]
pub enum ProbeStep {
    Report(ProbeReport),
    Abort(FatalError),
}

/// The step owed for probe `seq` given its transport event: a failed
/// send aborts the whole run, while any receive outcome only marks its
/// own probe.
pub open spec fn step_for(seq: u16, event: ProbeEvent) -> ProbeStep {
    match event {
        ProbeEvent::Sent(outcome) => ProbeStep::Report(report_for(seq, outcome)),
        ProbeEvent::SendFailed => ProbeStep::Abort(FatalError::SendFailed { seq }),
    }
}

/// Decides one probe of the transport loop; the caller performs the
/// step it returns.
pub fn probe_step(seq: u16, event: ProbeEvent) -> (r: ProbeStep)
    ensures
        r == step_for(seq, event),
{
    match event {
        ProbeEvent::Sent(outcome) => ProbeStep::Report(probe_report(seq, &outcome)),
        ProbeEvent::SendFailed => ProbeStep::Abort(FatalError::SendFailed { seq }),
    }
}

/// The reports owed for a whole run: probe `i` gets sequence number `i`
/// and the report for its own outcome.
pub open spec fn reports_for(outcomes: Seq<RecvOutcome>) -> Seq<ProbeReport> {
    Seq::new(outcomes.len(), |i: int| report_for(i as u16, outcomes[i]))
}

/// Everything a finished run produced: the packet sent for each probe
/// and the report for each probe, both indexed by sequence number.
pub struct RunResult {
    pub packets: Vec<Vec<u8>>,
    pub reports: Vec<ProbeReport>,
}

/// Runs a whole probe sequence against transport outcomes supplied as
/// data: builds the Echo Request for every sequence number `0..count`
/// and reports each probe from its outcome. No outcome ends the run
/// early.
pub fn run_probes(identifier: u16, count: u16, outcomes: &Vec<RecvOutcome>) -> (r: RunResult)
    requires
        outcomes@.len() == count as int,
    ensures
        r.packets@.len() == count as int,
        forall|i: int|
            0 <= i < count as int ==> (#[trigger] r.packets@[i])@ == echo_request_bytes(
                i as u16,
                identifier,
            ),
        r.reports@ == reports_for(outcomes@),
{
    let mut packets: Vec<Vec<u8>> = Vec::new();
    let mut reports: Vec<ProbeReport> = Vec::new();
    let mut i: u16 = 0;
    while i < count
        invariant
            outcomes@.len() == count as int,
            i <= count,
            packets@.len() == i as int,
            forall|j: int|
                0 <= j < i as int ==> (#[trigger] packets@[j])@ == echo_request_bytes(
                    j as u16,
                    identifier,
                ),
            reports@.len() == i as int,
            forall|j: int|
                0 <= j < i as int ==> #[trigger] reports@[j] == report_for(
                    j as u16,
                    outcomes@[j],
                ),
        decreases count as int - i as int,
    {
        let packet = build_packet(i, identifier);
        packets.push(packet);
        let report = probe_report(i, &outcomes[i as usize]);
        reports.push(report);
        i = i + 1;
    }
    proof {
        assert(reports@ =~= reports_for(outcomes@));
    }
    RunResult { packets, reports }
}

/// One whole invocation over a transport supplied as data: a failed
/// setup is fatal before any packet is built, while a ready setup runs
/// every probe to its report.
pub fn simulate_ping(
    setup: &SetupOutcome,
    identifier: u16,
    count: u16,
    outcomes: &Vec<RecvOutcome>,
) -> (r: Result<RunResult, FatalError>)
    requires
        outcomes@.len() == count as int,
    ensures
        *setup == SetupOutcome::ResolutionFailed ==> (r matches Err(e) && e
            == FatalError::ResolutionFailed),
        *setup == SetupOutcome::SocketFailed ==> (r matches Err(e) && e
            == FatalError::SocketCreationFailed),
        *setup == SetupOutcome::TimeoutConfigFailed ==> (r matches Err(e) && e
            == FatalError::TimeoutConfigFailed),
        *setup == SetupOutcome::Ready ==> (r matches Ok(run) && {
            &&& run.packets@.len() == count as int
            &&& forall|i: int|
                0 <= i < count as int ==> (#[trigger] run.packets@[i])@ == echo_request_bytes(
                    i as u16,
                    identifier,
                )
            &&& run.reports@ == reports_for(outcomes@)
        }),
{
    match setup {
        SetupOutcome::ResolutionFailed => Err(FatalError::ResolutionFailed),
        SetupOutcome::SocketFailed => Err(FatalError::SocketCreationFailed),
        SetupOutcome::TimeoutConfigFailed => Err(FatalError::TimeoutConfigFailed),
        SetupOutcome::Ready => Ok(run_probes(identifier, count, outcomes)),
    }
}

/// A run whose every receive times out still reports one outcome per
/// probe: exactly one timeout per sequence number, in increasing
/// sequence order, and the run is never cut short.
pub proof fn lemma_all_timeouts_reported(outcomes: Seq<RecvOutcome>)
    requires
        outcomes.len() <= 0xFFFF,
        forall|i: int| 0 <= i < outcomes.len() ==> outcomes[i] is TimedOut,
    ensures
        reports_for(outcomes).len() == outcomes.len(),
        forall|i: int|
            0 <= i < outcomes.len() ==> reports_for(outcomes)[i] == (ProbeReport::TimedOut {
                seq: i as u16,
            }),
{
}

/// One dropped reply is isolated to its own probe: replacing probe
/// `j`'s outcome by a timeout leaves every other probe's report exactly
/// as it was, and the run still reports all probes.
pub proof fn lemma_dropped_reply_isolated(outcomes: Seq<RecvOutcome>, j: int)
    requires
        0 <= j < outcomes.len(),
    ensures
        ({
            let dropped = reports_for(outcomes.update(j, RecvOutcome::TimedOut));
            &&& dropped.len() == outcomes.len()
            &&& dropped[j] == (ProbeReport::TimedOut { seq: j as u16 })
            &&& forall|i: int|
                0 <= i < outcomes.len() && i != j ==> dropped[i] == reports_for(outcomes)[i]
        }),
{
}

} // verus!
