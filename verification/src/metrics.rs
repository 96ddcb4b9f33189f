//! What is recorded of a connection when it ends: which metrics, under which labels, with which
//! values.
use vstd::prelude::*;

verus! {

/// The largest initial congestion window of the transport.
pub const MAX_INITIAL_CWND: usize = 12520;

/// Ratios are recorded as integers, multiplied by this factor.
pub const PRECISION_FACTOR: u64 = 10_000;

/// How many frames of each kind were sent or received.
#[derive(Clone, Copy, Debug, PartialEq, Eq, Structural)]
pub struct FrameStats {
    pub ack: usize,
    pub crypto: usize,
    pub stream: usize,
    pub reset_stream: usize,
    pub stop_sending: usize,
    pub ping: usize,
    pub padding: usize,
    pub max_streams: usize,
    pub streams_blocked: usize,
    pub max_data: usize,
    pub data_blocked: usize,
    pub max_stream_data: usize,
    pub stream_data_blocked: usize,
    pub new_connection_id: usize,
    pub retire_connection_id: usize,
    pub path_challenge: usize,
    pub path_response: usize,
    pub connection_close: usize,
    pub handshake_done: usize,
    pub new_token: usize,
    pub ack_frequency: usize,
    pub datagram: usize,
}

/// How many packets with each mark were counted on a path.
#[derive(Clone, Copy, Debug, PartialEq, Eq, Structural)]
pub struct EcnCount {
    pub ect0: u64,
    pub ce: u64,
}

/// What the validation of a path for congestion marks found.
#[derive(Clone, Copy, Debug, PartialEq, Eq, Structural)]
pub enum ValidationOutcome {
    Capable,
    BlackHole,
    Bleaching,
    ReceivedUnsentEct1,
}

/// Why the slow start ended.
#[derive(Clone, Copy, Debug, PartialEq, Eq, Structural)]
pub enum SlowStartExitReason {
    CongestionEvent,
    Heuristic,
}

/// How often the congestion controller saw each kind of congestion event.
#[derive(Clone, Copy, Debug, PartialEq, Eq, Structural)]
pub struct CongestionEvents {
    pub ecn: usize,
    pub loss: usize,
    pub spurious: usize,
}

/// What the congestion controller counted. The accuracies are percentages: how far the window
/// at the end of the slow start lay from the final window, and from the final maximum.
#[derive(Clone, Copy, Debug, PartialEq, Eq, Structural)]
pub struct CongestionStats {
    pub cwnd: Option<usize>,
    pub slow_start_exit_cwnd: Option<usize>,
    pub slow_start_exit_reason: Option<SlowStartExitReason>,
    pub exit_accuracy: i64,
    pub w_max: Option<u64>,
    pub exit_accuracy_w_max: i64,
    pub hystart_css_rounds_finished: usize,
    pub hystart_css_entries: usize,
    pub search_empty_buffer_target: Option<u64>,
    pub search_full_buffer_target: Option<u64>,
    pub search_lookback_bins_needed: Option<usize>,
    pub search_max_norm_diff: Option<usize>,
    pub search_reset_count: usize,
    pub search_reset_max_passed_bins: Option<usize>,
    pub search_zero_sent_bytes: usize,
    /// Microseconds.
    pub search_first_rtt: Option<u128>,
    /// Microseconds.
    pub search_second_rtt: Option<u128>,
    pub congestion_events: CongestionEvents,
}

/// What the transport counted.
#[derive(Debug)]
pub struct TransportStats {
    pub packets_tx: usize,
    pub packets_rx: usize,
    pub lost: usize,
    pub frame_tx: FrameStats,
    pub frame_rx: FrameStats,
    pub ecn_rx: Vec<EcnCount>,
    pub ecn_tx_acked: Vec<EcnCount>,
    pub ecn_path_validation: Vec<(ValidationOutcome, usize)>,
    /// Microseconds.
    pub min_rtt: u128,
    pub pmtud_peer_max_udp_payload: Option<usize>,
    pub cc: CongestionStats,
}

/// The preferences on which it depends what is recorded.
#[derive(Clone, Copy, Debug, PartialEq, Eq, Structural)]
pub struct MetricsPreferences {
    pub use_nspr_for_io: bool,
    pub ecn_report: bool,
    pub ecn_mark: bool,
    pub slow_start_algorithm: u32,
}

/// A counter with labels.
#[derive(Clone, Copy, Debug, PartialEq, Eq, Structural)]
pub enum Counter {
    QuicFrameCount,
    EcnPathCapability,
    SlowStartExited,
    CongestionWindowGrowth,
    SlowStartExitedFiltered,
    SlowStartExitDirectionLoss,
    SlowStartExitDirectionHeuristic,
    SlowStartExitReason,
    SearchRttInflated,
    CongestionEventReason,
}

/// A distribution of values.
#[derive(Clone, Copy, Debug, PartialEq, Eq, Structural)]
pub enum Distribution {
    EcnCeEct0RatioReceived,
    EcnCeEct0RatioSent,
    LossRatio,
    FinalCwnd,
    LossRatioFiltered,
    SlowStartExitCwnd,
    FinalWMax,
    SlowStartExitAccuracy,
    SlowStartExitAccuracyWMax,
    HystartCssRoundsFinished,
    HystartCssEntries,
    SearchEmptyBufferBdpEstimate,
    SearchFullBufferBdpEstimate,
    SearchLookbackBins,
    SearchMaxNormDiff,
    SearchResetCount,
    SearchMaxPassedBins,
    SearchZeroBytesSent,
    SearchFirstRttVsMinRtt,
    SearchFirstRttVsSecondRtt,
    CongestionEventCount,
    PeerMaxUdpPayload,
    SpuriousCongestionEventRatio,
}

/// One thing that is recorded.
#[derive(Clone, Copy, Debug)]
#[allow(inconsistent_fields)]
pub enum Record {
    /// Add to a counter under a label.
    Count { counter: Counter, label: &'static str, value: i32 },
    /// Add a sample to a distribution, under a label where it has them.
    Sample { distribution: Distribution, label: Option<&'static str>, value: i64 },
    /// Add a value to a distribution.
    Accumulate { distribution: Distribution, value: u64 },
}

/// A count, cut off where `i32` ends.
pub open spec fn saturated(value: usize) -> i32 {
    if value <= i32::MAX {
        value as i32
    } else {
        i32::MAX
    }
}

fn saturate(value: usize) -> (count: i32)
    ensures
        count == saturated(value),
{
    if value <= i32::MAX as usize {
        value as i32
    } else {
        i32::MAX
    }
}

pub open spec fn count(counter: Counter, label: &'static str, value: i32) -> Record {
    Record::Count { counter, label, value }
}

pub open spec fn sample(distribution: Distribution, value: i64) -> Record {
    Record::Sample { distribution, label: None, value }
}

pub open spec fn labeled(distribution: Distribution, label: &'static str, value: i64) -> Record {
    Record::Sample { distribution, label: Some(label), value }
}

pub open spec fn accumulate(distribution: Distribution, value: u64) -> Record {
    Record::Accumulate { distribution, value }
}

/// Nothing that is recorded.
pub open spec fn nothing() -> Seq<Record> {
    Seq::empty()
}

/// What is recorded of the frames of one direction.
pub open spec fn frame_records(s: FrameStats, sent: bool) -> Seq<Record> {
    if sent {
        seq![
            count(Counter::QuicFrameCount, "ack_tx", saturated(s.ack)),
            count(Counter::QuicFrameCount, "crypto_tx", saturated(s.crypto)),
            count(Counter::QuicFrameCount, "stream_tx", saturated(s.stream)),
            count(Counter::QuicFrameCount, "reset_stream_tx", saturated(s.reset_stream)),
            count(Counter::QuicFrameCount, "stop_sending_tx", saturated(s.stop_sending)),
            count(Counter::QuicFrameCount, "ping_tx", saturated(s.ping)),
            count(Counter::QuicFrameCount, "padding_tx", saturated(s.padding)),
            count(Counter::QuicFrameCount, "max_streams_tx", saturated(s.max_streams)),
            count(Counter::QuicFrameCount, "streams_blocked_tx", saturated(s.streams_blocked)),
            count(Counter::QuicFrameCount, "max_data_tx", saturated(s.max_data)),
            count(Counter::QuicFrameCount, "data_blocked_tx", saturated(s.data_blocked)),
            count(Counter::QuicFrameCount, "max_stream_data_tx", saturated(s.max_stream_data)),
            count(Counter::QuicFrameCount, "stream_data_blocked_tx", saturated(s.stream_data_blocked)),
            count(Counter::QuicFrameCount, "new_connection_id_tx", saturated(s.new_connection_id)),
            count(Counter::QuicFrameCount, "retire_connection_id_tx", saturated(s.retire_connection_id)),
            count(Counter::QuicFrameCount, "path_challenge_tx", saturated(s.path_challenge)),
            count(Counter::QuicFrameCount, "path_response_tx", saturated(s.path_response)),
            count(Counter::QuicFrameCount, "connection_close_tx", saturated(s.connection_close)),
            count(Counter::QuicFrameCount, "handshake_done_tx", saturated(s.handshake_done)),
            count(Counter::QuicFrameCount, "new_token_tx", saturated(s.new_token)),
            count(Counter::QuicFrameCount, "ack_frequency_tx", saturated(s.ack_frequency)),
            count(Counter::QuicFrameCount, "datagram_tx", saturated(s.datagram)),
        ]
    } else {
        seq![
            count(Counter::QuicFrameCount, "ack_rx", saturated(s.ack)),
            count(Counter::QuicFrameCount, "crypto_rx", saturated(s.crypto)),
            count(Counter::QuicFrameCount, "stream_rx", saturated(s.stream)),
            count(Counter::QuicFrameCount, "reset_stream_rx", saturated(s.reset_stream)),
            count(Counter::QuicFrameCount, "stop_sending_rx", saturated(s.stop_sending)),
            count(Counter::QuicFrameCount, "ping_rx", saturated(s.ping)),
            count(Counter::QuicFrameCount, "padding_rx", saturated(s.padding)),
            count(Counter::QuicFrameCount, "max_streams_rx", saturated(s.max_streams)),
            count(Counter::QuicFrameCount, "streams_blocked_rx", saturated(s.streams_blocked)),
            count(Counter::QuicFrameCount, "max_data_rx", saturated(s.max_data)),
            count(Counter::QuicFrameCount, "data_blocked_rx", saturated(s.data_blocked)),
            count(Counter::QuicFrameCount, "max_stream_data_rx", saturated(s.max_stream_data)),
            count(Counter::QuicFrameCount, "stream_data_blocked_rx", saturated(s.stream_data_blocked)),
            count(Counter::QuicFrameCount, "new_connection_id_rx", saturated(s.new_connection_id)),
            count(Counter::QuicFrameCount, "retire_connection_id_rx", saturated(s.retire_connection_id)),
            count(Counter::QuicFrameCount, "path_challenge_rx", saturated(s.path_challenge)),
            count(Counter::QuicFrameCount, "path_response_rx", saturated(s.path_response)),
            count(Counter::QuicFrameCount, "connection_close_rx", saturated(s.connection_close)),
            count(Counter::QuicFrameCount, "handshake_done_rx", saturated(s.handshake_done)),
            count(Counter::QuicFrameCount, "new_token_rx", saturated(s.new_token)),
            count(Counter::QuicFrameCount, "ack_frequency_rx", saturated(s.ack_frequency)),
            count(Counter::QuicFrameCount, "datagram_rx", saturated(s.datagram)),
        ]
    }
}

fn push_count(out: &mut Vec<Record>, counter: Counter, label: &'static str, value: i32)
    ensures
        final(out)@ == old(out)@.push(count(counter, label, value)),
{
    out.push(Record::Count { counter, label, value });
}

fn push_sample(out: &mut Vec<Record>, distribution: Distribution, value: i64)
    ensures
        final(out)@ == old(out)@.push(sample(distribution, value)),
{
    out.push(Record::Sample { distribution, label: None, value });
}

fn push_labeled(
    out: &mut Vec<Record>,
    distribution: Distribution,
    label: &'static str,
    value: i64,
)
    ensures
        final(out)@ == old(out)@.push(labeled(distribution, label, value)),
{
    out.push(Record::Sample { distribution, label: Some(label), value });
}

fn push_accumulate(out: &mut Vec<Record>, distribution: Distribution, value: u64)
    ensures
        final(out)@ == old(out)@.push(accumulate(distribution, value)),
{
    out.push(Record::Accumulate { distribution, value });
}

/// Records the frames of one direction.
fn record_frames(out: &mut Vec<Record>, s: &FrameStats, sent: bool)
    ensures
        final(out)@ == old(out)@ + frame_records(*s, sent),
{
    let c = Counter::QuicFrameCount;
    if sent {
        push_count(out, c, "ack_tx", saturate(s.ack));
        push_count(out, c, "crypto_tx", saturate(s.crypto));
        push_count(out, c, "stream_tx", saturate(s.stream));
        push_count(out, c, "reset_stream_tx", saturate(s.reset_stream));
        push_count(out, c, "stop_sending_tx", saturate(s.stop_sending));
        push_count(out, c, "ping_tx", saturate(s.ping));
        push_count(out, c, "padding_tx", saturate(s.padding));
        push_count(out, c, "max_streams_tx", saturate(s.max_streams));
        push_count(out, c, "streams_blocked_tx", saturate(s.streams_blocked));
        push_count(out, c, "max_data_tx", saturate(s.max_data));
        push_count(out, c, "data_blocked_tx", saturate(s.data_blocked));
        push_count(out, c, "max_stream_data_tx", saturate(s.max_stream_data));
        push_count(out, c, "stream_data_blocked_tx", saturate(s.stream_data_blocked));
        push_count(out, c, "new_connection_id_tx", saturate(s.new_connection_id));
        push_count(out, c, "retire_connection_id_tx", saturate(s.retire_connection_id));
        push_count(out, c, "path_challenge_tx", saturate(s.path_challenge));
        push_count(out, c, "path_response_tx", saturate(s.path_response));
        push_count(out, c, "connection_close_tx", saturate(s.connection_close));
        push_count(out, c, "handshake_done_tx", saturate(s.handshake_done));
        push_count(out, c, "new_token_tx", saturate(s.new_token));
        push_count(out, c, "ack_frequency_tx", saturate(s.ack_frequency));
        push_count(out, c, "datagram_tx", saturate(s.datagram));
    } else {
        push_count(out, c, "ack_rx", saturate(s.ack));
        push_count(out, c, "crypto_rx", saturate(s.crypto));
        push_count(out, c, "stream_rx", saturate(s.stream));
        push_count(out, c, "reset_stream_rx", saturate(s.reset_stream));
        push_count(out, c, "stop_sending_rx", saturate(s.stop_sending));
        push_count(out, c, "ping_rx", saturate(s.ping));
        push_count(out, c, "padding_rx", saturate(s.padding));
        push_count(out, c, "max_streams_rx", saturate(s.max_streams));
        push_count(out, c, "streams_blocked_rx", saturate(s.streams_blocked));
        push_count(out, c, "max_data_rx", saturate(s.max_data));
        push_count(out, c, "data_blocked_rx", saturate(s.data_blocked));
        push_count(out, c, "max_stream_data_rx", saturate(s.max_stream_data));
        push_count(out, c, "stream_data_blocked_rx", saturate(s.stream_data_blocked));
        push_count(out, c, "new_connection_id_rx", saturate(s.new_connection_id));
        push_count(out, c, "retire_connection_id_rx", saturate(s.retire_connection_id));
        push_count(out, c, "path_challenge_rx", saturate(s.path_challenge));
        push_count(out, c, "path_response_rx", saturate(s.path_response));
        push_count(out, c, "connection_close_rx", saturate(s.connection_close));
        push_count(out, c, "handshake_done_rx", saturate(s.handshake_done));
        push_count(out, c, "new_token_rx", saturate(s.new_token));
        push_count(out, c, "ack_frequency_rx", saturate(s.ack_frequency));
        push_count(out, c, "datagram_rx", saturate(s.datagram));
    }
    assert(out@ =~= old(out)@ + frame_records(*s, sent));
}

/// The number of packets with the mark ECT(0) over all paths.
pub open spec fn ect0_sum(counts: Seq<EcnCount>) -> nat
    decreases counts.len(),
{
    if counts.len() == 0 {
        0
    } else {
        ect0_sum(counts.drop_last()) + counts.last().ect0 as nat
    }
}

/// The number of packets with the mark CE over all paths.
pub open spec fn ce_sum(counts: Seq<EcnCount>) -> nat
    decreases counts.len(),
{
    if counts.len() == 0 {
        0
    } else {
        ce_sum(counts.drop_last()) + counts.last().ce as nat
    }
}

/// Whether the sums of counts, and the multiple that a ratio needs, can be computed.
pub open spec fn sums_fit(counts: Seq<EcnCount>) -> bool {
    &&& ect0_sum(counts) <= u64::MAX
    &&& ce_sum(counts) <= u64::MAX
    &&& ect0_sum(counts) > 0 ==> ce_sum(counts) * PRECISION_FACTOR <= u64::MAX
}

proof fn lemma_sums_grow(counts: Seq<EcnCount>, k: int)
    requires
        0 <= k <= counts.len(),
    ensures
        ect0_sum(counts.take(k)) <= ect0_sum(counts),
        ce_sum(counts.take(k)) <= ce_sum(counts),
    decreases counts.len(),
{
    if k < counts.len() {
        assert(counts.drop_last().take(k) =~= counts.take(k));
        lemma_sums_grow(counts.drop_last(), k);
    } else {
        assert(counts.take(k) =~= counts);
    }
}

fn sums(counts: &Vec<EcnCount>) -> (both: Option<(u64, u64)>)
    ensures
        match both {
            Some(b) => b.0 == ect0_sum(counts@) && b.1 == ce_sum(counts@),
            None => ect0_sum(counts@) > u64::MAX || ce_sum(counts@) > u64::MAX,
        },
{
    let mut ect0: u64 = 0;
    let mut ce: u64 = 0;
    let mut i: usize = 0;
    assert(counts@.take(0) =~= Seq::<EcnCount>::empty());
    while i < counts.len()
        invariant
            i <= counts@.len(),
            ect0 == ect0_sum(counts@.take(i as int)),
            ce == ce_sum(counts@.take(i as int)),
        decreases counts@.len() - i,
    {
        proof {
            assert(counts@.take(i + 1).drop_last() =~= counts@.take(i as int));
            lemma_sums_grow(counts@, i + 1);
        }
        match (ect0.checked_add(counts[i].ect0), ce.checked_add(counts[i].ce)) {
            (Some(a), Some(b)) => {
                ect0 = a;
                ce = b;
            },
            _ => {
                return None;
            },
        }
        i += 1;
    }
    assert(counts@.take(i as int) =~= counts@);
    Some((ect0, ce))
}

/// Whether the sums of counts, and the multiple that a ratio needs, can be computed.
fn can_sum(counts: &Vec<EcnCount>) -> (can: bool)
    ensures
        can == sums_fit(counts@),
{
    match sums(counts) {
        Some((ect0, ce)) => ect0 == 0 || ce <= u64::MAX / PRECISION_FACTOR,
        None => false,
    }
}

/// What is recorded of the ratio of the marks CE and ECT(0).
pub open spec fn ratio_records(counts: Seq<EcnCount>, distribution: Distribution) -> Seq<Record> {
    let ratio = (ce_sum(counts) * PRECISION_FACTOR) / (ect0_sum(counts) as int);
    if ect0_sum(counts) > 0 && ratio <= i64::MAX {
        seq![sample(distribution, ratio as i64)]
    } else {
        nothing()
    }
}

fn record_ratio(out: &mut Vec<Record>, counts: &Vec<EcnCount>, distribution: Distribution)
    requires
        sums_fit(counts@),
    ensures
        final(out)@ == old(out)@ + ratio_records(counts@, distribution),
{
    if let Some((ect0, ce)) = sums(counts) {
        if ect0 > 0 {
            let ratio: u64 = (ce * PRECISION_FACTOR) / ect0;
            if ratio <= i64::MAX as u64 {
                push_sample(out, distribution, ratio as i64);
            }
        }
    }
    assert(out@ =~= old(out)@ + ratio_records(counts@, distribution));
}

/// The label of a validation outcome.
pub open spec fn outcome_label(outcome: ValidationOutcome) -> &'static str {
    match outcome {
        ValidationOutcome::Capable => "capable",
        ValidationOutcome::BlackHole => "black-hole",
        ValidationOutcome::Bleaching => "bleaching",
        ValidationOutcome::ReceivedUnsentEct1 => "received-unsent-ect-1",
    }
}

fn label_of_outcome(outcome: ValidationOutcome) -> (label: &'static str)
    ensures
        label == outcome_label(outcome),
{
    match outcome {
        ValidationOutcome::Capable => "capable",
        ValidationOutcome::BlackHole => "black-hole",
        ValidationOutcome::Bleaching => "bleaching",
        ValidationOutcome::ReceivedUnsentEct1 => "received-unsent-ect-1",
    }
}

/// What is recorded of the validation of paths; a count that does not fit is left out.
pub open spec fn validation_records(outcomes: Seq<(ValidationOutcome, usize)>) -> Seq<Record>
    decreases outcomes.len(),
{
    if outcomes.len() == 0 {
        nothing()
    } else {
        let (outcome, value) = outcomes.last();
        let before = validation_records(outcomes.drop_last());
        if value <= i32::MAX {
            before.push(count(Counter::EcnPathCapability, outcome_label(outcome), value as i32))
        } else {
            before
        }
    }
}

fn record_validation(out: &mut Vec<Record>, outcomes: &Vec<(ValidationOutcome, usize)>)
    ensures
        final(out)@ == old(out)@ + validation_records(outcomes@),
{
    let ghost start = out@;
    let mut i: usize = 0;
    proof {
        assert(outcomes@.take(0) =~= Seq::<(ValidationOutcome, usize)>::empty());
        assert(start =~= start + validation_records(outcomes@.take(0)));
    }
    while i < outcomes.len()
        invariant
            i <= outcomes@.len(),
            out@ == start + validation_records(outcomes@.take(i as int)),
        decreases outcomes@.len() - i,
    {
        let (outcome, value) = outcomes[i];
        proof {
            assert(outcomes@.take(i + 1).drop_last() =~= outcomes@.take(i as int));
        }
        if value <= i32::MAX as usize {
            push_count(out, Counter::EcnPathCapability, label_of_outcome(outcome), value as i32);
        }
        assert(out@ =~= start + validation_records(outcomes@.take(i + 1)));
        i += 1;
    }
    assert(outcomes@.take(i as int) =~= outcomes@);
}

/// The final congestion window, where it grew beyond the initial one.
pub open spec fn grown_cwnd(cc: CongestionStats) -> Option<usize> {
    match cc.cwnd {
        Some(c) => if c > MAX_INITIAL_CWND {
            Some(c)
        } else {
            None
        },
        None => None,
    }
}

/// How the congestion window grew.
pub open spec fn growth_label(cc: CongestionStats) -> &'static str {
    match grown_cwnd(cc) {
        Some(_) => match cc.slow_start_exit_cwnd {
            Some(exit) => if exit < MAX_INITIAL_CWND {
                "no_growth_then_exit_then_growth"
            } else {
                "had_growth"
            },
            None => "had_growth",
        },
        None => match cc.slow_start_exit_cwnd {
            Some(_) => "no_growth_but_exit",
            None => "no_growth",
        },
    }
}

/// The loss ratio, where it can be recorded.
pub open spec fn loss_ratio(stats: TransportStats) -> Option<i64> {
    let ratio = (stats.lost * PRECISION_FACTOR) / (stats.packets_tx as int);
    if ratio <= i64::MAX {
        Some(ratio as i64)
    } else {
        None
    }
}

/// On which side of the final window the slow start ended.
pub open spec fn direction_label(exit: usize, last: usize) -> &'static str {
    if exit > last {
        "overshoot"
    } else if exit < last {
        "undershoot"
    } else {
        "exact"
    }
}

/// What is recorded of the end of the slow start, in a connection whose window grew to `last`.
pub open spec fn exit_records(cc: CongestionStats, last: usize) -> Seq<Record> {
    match (cc.slow_start_exit_cwnd, cc.slow_start_exit_reason) {
        (Some(exit), Some(reason)) => {
            let accuracy_label = match reason {
                SlowStartExitReason::CongestionEvent => "ce_exit",
                SlowStartExitReason::Heuristic => "heuristic_exit",
            };
            seq![
                accumulate(Distribution::SlowStartExitCwnd, exit as u64),
                count(Counter::SlowStartExitedFiltered, "exited", 1),
            ] + (match cc.w_max {
                Some(w) => seq![accumulate(Distribution::FinalWMax, w)],
                None => nothing(),
            }) + (match reason {
                SlowStartExitReason::CongestionEvent => seq![
                    count(
                        Counter::SlowStartExitDirectionLoss,
                        direction_label(exit, last),
                        1,
                    ),
                    count(Counter::SlowStartExitReason, "ce", 1),
                ],
                SlowStartExitReason::Heuristic => seq![
                    count(
                        Counter::SlowStartExitDirectionHeuristic,
                        direction_label(exit, last),
                        1,
                    ),
                    count(Counter::SlowStartExitReason, "heuristic", 1),
                ],
            }) + seq![
                labeled(Distribution::SlowStartExitAccuracy, accuracy_label, cc.exit_accuracy),
            ] + (match cc.w_max {
                Some(_) => seq![
                    labeled(
                        Distribution::SlowStartExitAccuracyWMax,
                        accuracy_label,
                        cc.exit_accuracy_w_max,
                    ),
                ],
                None => nothing(),
            })
        },
        _ => seq![count(Counter::SlowStartExitedFiltered, "not_exited", 1)],
    }
}

fn record_exit(out: &mut Vec<Record>, cc: &CongestionStats, last: usize)
    ensures
        final(out)@ == old(out)@ + exit_records(*cc, last),
{
    match (cc.slow_start_exit_cwnd, cc.slow_start_exit_reason) {
        (Some(exit), Some(reason)) => {
            push_accumulate(out, Distribution::SlowStartExitCwnd, exit as u64);
            push_count(out, Counter::SlowStartExitedFiltered, "exited", 1);
            if let Some(w) = cc.w_max {
                push_accumulate(out, Distribution::FinalWMax, w);
            }
            let direction = if exit > last {
                "overshoot"
            } else if exit < last {
                "undershoot"
            } else {
                "exact"
            };
            let accuracy_label = match reason {
                SlowStartExitReason::CongestionEvent => {
                    push_count(out, Counter::SlowStartExitDirectionLoss, direction, 1);
                    push_count(out, Counter::SlowStartExitReason, "ce", 1);
                    "ce_exit"
                },
                SlowStartExitReason::Heuristic => {
                    push_count(out, Counter::SlowStartExitDirectionHeuristic, direction, 1);
                    push_count(out, Counter::SlowStartExitReason, "heuristic", 1);
                    "heuristic_exit"
                },
            };
            push_labeled(
                out,
                Distribution::SlowStartExitAccuracy,
                accuracy_label,
                cc.exit_accuracy,
            );
            if cc.w_max.is_some() {
                push_labeled(
                    out,
                    Distribution::SlowStartExitAccuracyWMax,
                    accuracy_label,
                    cc.exit_accuracy_w_max,
                );
            }
        },
        _ => {
            push_count(out, Counter::SlowStartExitedFiltered, "not_exited", 1);
        },
    }
    assert(out@ =~= old(out)@ + exit_records(*cc, last));
}

/// The label under which HyStart is counted.
pub open spec fn hystart_label(cc: CongestionStats) -> &'static str {
    match (cc.slow_start_exit_cwnd, cc.slow_start_exit_reason) {
        (Some(_), Some(SlowStartExitReason::CongestionEvent)) => "exited_ce",
        (Some(_), Some(SlowStartExitReason::Heuristic)) => "exited_hystart",
        _ => "not_exited",
    }
}

/// The label under which SEARCH is counted.
pub open spec fn search_label(cc: CongestionStats) -> &'static str {
    match (cc.slow_start_exit_cwnd, cc.slow_start_exit_reason) {
        (Some(_), Some(SlowStartExitReason::CongestionEvent)) => "exited_ce",
        (Some(_), Some(SlowStartExitReason::Heuristic)) => "exited_search",
        _ => "not_exited",
    }
}

/// What is recorded of HyStart.
pub open spec fn hystart_records(cc: CongestionStats) -> Seq<Record> {
    seq![
        labeled(
            Distribution::HystartCssRoundsFinished,
            hystart_label(cc),
            cc.hystart_css_rounds_finished as i64,
        ),
        labeled(
            Distribution::HystartCssEntries,
            hystart_label(cc),
            cc.hystart_css_entries as i64,
        ),
    ]
}

fn record_hystart(out: &mut Vec<Record>, cc: &CongestionStats)
    ensures
        final(out)@ == old(out)@ + hystart_records(*cc),
{
    let label = match (cc.slow_start_exit_cwnd, cc.slow_start_exit_reason) {
        (Some(_), Some(SlowStartExitReason::CongestionEvent)) => "exited_ce",
        (Some(_), Some(SlowStartExitReason::Heuristic)) => "exited_hystart",
        _ => "not_exited",
    };
    push_labeled(
        out,
        Distribution::HystartCssRoundsFinished,
        label,
        cc.hystart_css_rounds_finished as i64,
    );
    push_labeled(out, Distribution::HystartCssEntries, label, cc.hystart_css_entries as i64);
    assert(out@ =~= old(out)@ + hystart_records(*cc));
}

/// A number of microseconds, cut off where `u64` ends.
pub open spec fn micros(n: u128) -> u64 {
    if n <= u64::MAX {
        n as u64
    } else {
        u64::MAX
    }
}

fn to_micros(n: u128) -> (m: u64)
    ensures
        m == micros(n),
{
    if n <= u64::MAX as u128 {
        n as u64
    } else {
        u64::MAX
    }
}

/// What is recorded of the first round trip time that SEARCH used.
pub open spec fn rtt_records(cc: CongestionStats, min_rtt: u128) -> Seq<Record> {
    match cc.search_first_rtt {
        None => nothing(),
        Some(first) => (if micros(min_rtt) > 0 {
            seq![
                sample(
                    Distribution::SearchFirstRttVsMinRtt,
                    ((micros(first) * 100) / (micros(min_rtt) as int)) as u64 as i64,
                ),
            ]
        } else {
            nothing()
        }) + (match cc.search_second_rtt {
            Some(second) => if micros(second) > 0 {
                seq![
                    sample(
                        Distribution::SearchFirstRttVsSecondRtt,
                        ((micros(first) * 100) / (micros(second) as int)) as u64 as i64,
                    ),
                ]
            } else {
                nothing()
            },
            None => nothing(),
        }),
    }
}

/// Whether a hundred times the first round trip time can be computed, where it is compared with
/// another one.
pub open spec fn rtt_fits(cc: CongestionStats, min_rtt: u128) -> bool {
    let compared = micros(min_rtt) > 0 || (cc.search_second_rtt matches Some(second) && micros(
        second,
    ) > 0);
    compared ==> (cc.search_first_rtt matches Some(first) ==> micros(first) * 100 <= u64::MAX)
}

fn can_compare_rtt(cc: &CongestionStats, min_rtt: u128) -> (can: bool)
    ensures
        can == rtt_fits(*cc, min_rtt),
{
    let compared = to_micros(min_rtt) > 0 || match cc.search_second_rtt {
        Some(second) => to_micros(second) > 0,
        None => false,
    };
    !compared || match cc.search_first_rtt {
        Some(first) => to_micros(first) <= u64::MAX / 100,
        None => true,
    }
}

fn record_rtt(out: &mut Vec<Record>, cc: &CongestionStats, min_rtt: u128)
    requires
        rtt_fits(*cc, min_rtt),
    ensures
        final(out)@ == old(out)@ + rtt_records(*cc, min_rtt),
{
    if let Some(first) = cc.search_first_rtt {
        let first_us: u64 = to_micros(first);
        let min_us: u64 = to_micros(min_rtt);
        if min_us > 0 {
            let percent: u64 = first_us * 100 / min_us;
            push_sample(out, Distribution::SearchFirstRttVsMinRtt, percent as i64);
        }
        if let Some(second) = cc.search_second_rtt {
            let second_us: u64 = to_micros(second);
            if second_us > 0 {
                let percent: u64 = first_us * 100 / second_us;
                push_sample(out, Distribution::SearchFirstRttVsSecondRtt, percent as i64);
            }
        }
    }
    assert(out@ =~= old(out)@ + rtt_records(*cc, min_rtt));
}

/// What is recorded of the estimates that SEARCH made.
pub open spec fn search_estimate_records(cc: CongestionStats) -> Seq<Record> {
    (match cc.search_empty_buffer_target {
        Some(v) => seq![accumulate(Distribution::SearchEmptyBufferBdpEstimate, v)],
        None => nothing(),
    }) + (match cc.search_full_buffer_target {
        Some(v) => seq![accumulate(Distribution::SearchFullBufferBdpEstimate, v)],
        None => nothing(),
    }) + (match cc.search_lookback_bins_needed {
        Some(bins) => seq![
            sample(Distribution::SearchLookbackBins, bins as i64),
            count(Counter::SearchRttInflated, "inflated", 1),
        ],
        None => seq![count(Counter::SearchRttInflated, "never_inflated", 1)],
    })
}

fn record_search_estimates(out: &mut Vec<Record>, cc: &CongestionStats)
    ensures
        final(out)@ == old(out)@ + search_estimate_records(*cc),
{
    if let Some(v) = cc.search_empty_buffer_target {
        push_accumulate(out, Distribution::SearchEmptyBufferBdpEstimate, v);
    }
    if let Some(v) = cc.search_full_buffer_target {
        push_accumulate(out, Distribution::SearchFullBufferBdpEstimate, v);
    }
    if let Some(bins) = cc.search_lookback_bins_needed {
        push_sample(out, Distribution::SearchLookbackBins, bins as i64);
        push_count(out, Counter::SearchRttInflated, "inflated", 1);
    } else {
        push_count(out, Counter::SearchRttInflated, "never_inflated", 1);
    }
    assert(out@ =~= old(out)@ + search_estimate_records(*cc));
}

/// What is recorded of how SEARCH left the slow start, and how often it began anew.
pub open spec fn search_tuning_records(cc: CongestionStats) -> Seq<Record> {
    (match cc.search_max_norm_diff {
        Some(d) => seq![labeled(Distribution::SearchMaxNormDiff, search_label(cc), d as i64)],
        None => nothing(),
    }) + seq![
        labeled(Distribution::SearchResetCount, search_label(cc), cc.search_reset_count as i64),
    ] + (match cc.search_reset_max_passed_bins {
        Some(bins) => seq![sample(Distribution::SearchMaxPassedBins, bins as i64)],
        None => nothing(),
    }) + seq![
        labeled(
            Distribution::SearchZeroBytesSent,
            search_label(cc),
            cc.search_zero_sent_bytes as i64,
        ),
    ]
}

fn record_search_tuning(out: &mut Vec<Record>, cc: &CongestionStats)
    ensures
        final(out)@ == old(out)@ + search_tuning_records(*cc),
{
    let label = match (cc.slow_start_exit_cwnd, cc.slow_start_exit_reason) {
        (Some(_), Some(SlowStartExitReason::CongestionEvent)) => "exited_ce",
        (Some(_), Some(SlowStartExitReason::Heuristic)) => "exited_search",
        _ => "not_exited",
    };
    if let Some(d) = cc.search_max_norm_diff {
        push_labeled(out, Distribution::SearchMaxNormDiff, label, d as i64);
    }
    push_labeled(out, Distribution::SearchResetCount, label, cc.search_reset_count as i64);
    if let Some(bins) = cc.search_reset_max_passed_bins {
        push_sample(out, Distribution::SearchMaxPassedBins, bins as i64);
    }
    push_labeled(out, Distribution::SearchZeroBytesSent, label, cc.search_zero_sent_bytes as i64);
    assert(out@ =~= old(out)@ + search_tuning_records(*cc));
}

/// What is recorded of SEARCH.
pub open spec fn search_records(cc: CongestionStats, min_rtt: u128) -> Seq<Record> {
    search_estimate_records(cc) + search_tuning_records(cc) + rtt_records(cc, min_rtt)
}

fn record_search(out: &mut Vec<Record>, cc: &CongestionStats, min_rtt: u128)
    requires
        rtt_fits(*cc, min_rtt),
    ensures
        final(out)@ == old(out)@ + search_records(*cc, min_rtt),
{
    record_search_estimates(out, cc);
    record_search_tuning(out, cc);
    record_rtt(out, cc, min_rtt);
    assert(out@ =~= old(out)@ + search_records(*cc, min_rtt));
}

/// What is recorded of a connection whose congestion window grew to `last`.
pub open spec fn growth_records(
    stats: TransportStats,
    prefs: MetricsPreferences,
    last: usize,
) -> Seq<Record> {
    seq![accumulate(Distribution::FinalCwnd, last as u64)] + (match loss_ratio(stats) {
        Some(loss) => seq![sample(Distribution::LossRatioFiltered, loss)],
        None => nothing(),
    }) + exit_records(stats.cc, last) + (if prefs.slow_start_algorithm == 1 {
        hystart_records(stats.cc)
    } else {
        nothing()
    }) + (if prefs.slow_start_algorithm == 2 {
        search_records(stats.cc, stats.min_rtt)
    } else {
        nothing()
    })
}

/// What is recorded of the losses and of the congestion window.
pub open spec fn window_records(stats: TransportStats) -> Seq<Record> {
    (match loss_ratio(stats) {
        Some(loss) => seq![sample(Distribution::LossRatio, loss)],
        None => nothing(),
    }) + seq![
        count(
            Counter::SlowStartExited,
            if stats.cc.slow_start_exit_cwnd is Some {
                "exited"
            } else {
                "not_exited"
            },
            1,
        ),
        count(Counter::CongestionWindowGrowth, growth_label(stats.cc), 1),
    ]
}

/// What is recorded of the number of congestion events and of the peer's largest datagram.
pub open spec fn size_records(stats: TransportStats) -> Seq<Record> {
    let events = stats.cc.congestion_events;
    seq![
        sample(
            Distribution::CongestionEventCount,
            (if events.ecn + events.loss > events.spurious {
                events.ecn + events.loss - events.spurious
            } else {
                0
            }) as usize as i64,
        ),
    ] + (match stats.pmtud_peer_max_udp_payload {
        Some(max) => if max <= i64::MAX {
            seq![sample(Distribution::PeerMaxUdpPayload, max as i64)]
        } else {
            nothing()
        },
        None => nothing(),
    })
}

/// What is recorded of a connection in which something was received.
pub open spec fn answered_records(stats: TransportStats, prefs: MetricsPreferences) -> Seq<Record> {
    window_records(stats) + (match grown_cwnd(stats.cc) {
        Some(last) => growth_records(stats, prefs, last),
        None => nothing(),
    }) + size_records(stats)
}

/// What is recorded of the congestion events.
pub open spec fn event_records(events: CongestionEvents) -> Seq<Record> {
    let ratio = (events.spurious * PRECISION_FACTOR) / (events.loss as int);
    (if events.loss != 0 && ratio <= i64::MAX {
        seq![sample(Distribution::SpuriousCongestionEventRatio, ratio as i64)]
    } else {
        nothing()
    }) + (if events.loss <= i32::MAX {
        seq![count(Counter::CongestionEventReason, "loss", events.loss as i32)]
    } else {
        nothing()
    }) + (if events.ecn <= i32::MAX {
        seq![count(Counter::CongestionEventReason, "ecn-ce", events.ecn as i32)]
    } else {
        nothing()
    })
}

/// What is recorded of the congestion marks.
pub open spec fn ecn_records(stats: TransportStats, prefs: MetricsPreferences) -> Seq<Record> {
    let eligible = !prefs.use_nspr_for_io && stats.frame_rx.handshake_done != 0;
    (if eligible && prefs.ecn_report {
        ratio_records(stats.ecn_rx@, Distribution::EcnCeEct0RatioReceived)
    } else {
        nothing()
    }) + (if eligible && prefs.ecn_mark {
        ratio_records(stats.ecn_tx_acked@, Distribution::EcnCeEct0RatioSent) + validation_records(
            stats.ecn_path_validation@,
        )
    } else {
        nothing()
    })
}

/// What is recorded of a connection. Of one that sent nothing, nothing is.
pub open spec fn all_records(stats: TransportStats, prefs: MetricsPreferences) -> Seq<Record> {
    if stats.packets_tx == 0 {
        nothing()
    } else {
        frame_records(stats.frame_tx, true) + frame_records(stats.frame_rx, false) + ecn_records(
            stats,
            prefs,
        ) + (if stats.packets_rx != 0 {
            answered_records(stats, prefs)
        } else {
            nothing()
        }) + event_records(stats.cc.congestion_events)
    }
}

/// Whether the products that are recorded of a connection in which something was received can be
/// computed.
pub open spec fn answered_fit(stats: TransportStats, prefs: MetricsPreferences) -> bool {
    &&& stats.lost * PRECISION_FACTOR <= usize::MAX
    &&& stats.cc.congestion_events.ecn + stats.cc.congestion_events.loss <= usize::MAX
    &&& grown_cwnd(stats.cc) is Some && prefs.slow_start_algorithm == 2 ==> rtt_fits(
        stats.cc,
        stats.min_rtt,
    )
}

/// Whether the sums and products that are recorded of a connection can be computed.
pub open spec fn stats_fit(stats: TransportStats, prefs: MetricsPreferences) -> bool {
    let eligible = !prefs.use_nspr_for_io && stats.frame_rx.handshake_done != 0;
    let events = stats.cc.congestion_events;
    stats.packets_tx != 0 ==> {
        &&& eligible && prefs.ecn_report ==> sums_fit(stats.ecn_rx@)
        &&& eligible && prefs.ecn_mark ==> sums_fit(stats.ecn_tx_acked@)
        &&& stats.packets_rx != 0 ==> answered_fit(stats, prefs)
        &&& events.loss != 0 ==> events.spurious * PRECISION_FACTOR <= usize::MAX
    }
}

/// Whether what is recorded of a connection can be computed.
pub fn can_record(stats: &TransportStats, prefs: &MetricsPreferences) -> (can: bool)
    ensures
        can == stats_fit(*stats, *prefs),
{
    if stats.packets_tx == 0 {
        return true;
    }
    let eligible = !prefs.use_nspr_for_io && stats.frame_rx.handshake_done != 0;
    if eligible && prefs.ecn_report && !can_sum(&stats.ecn_rx) {
        return false;
    }
    if eligible && prefs.ecn_mark && !can_sum(&stats.ecn_tx_acked) {
        return false;
    }
    let most: usize = usize::MAX / (PRECISION_FACTOR as usize);
    let events = stats.cc.congestion_events;
    if stats.packets_rx != 0 {
        if stats.lost > most || events.ecn > usize::MAX - events.loss {
            return false;
        }
        if grown(&stats.cc).is_some() && prefs.slow_start_algorithm == 2 && !can_compare_rtt(
            &stats.cc,
            stats.min_rtt,
        ) {
            return false;
        }
    }
    events.loss == 0 || events.spurious <= most
}

/// The congestion window, where it grew.
fn grown(cc: &CongestionStats) -> (window: Option<usize>)
    ensures
        window == grown_cwnd(*cc),
{
    match cc.cwnd {
        Some(c) => if c > MAX_INITIAL_CWND {
            Some(c)
        } else {
            None
        },
        None => None,
    }
}

fn record_growth(
    out: &mut Vec<Record>,
    stats: &TransportStats,
    prefs: &MetricsPreferences,
    last: usize,
    loss: Option<i64>,
)
    requires
        prefs.slow_start_algorithm == 2 ==> rtt_fits(stats.cc, stats.min_rtt),
        loss == loss_ratio(*stats),
    ensures
        final(out)@ == old(out)@ + growth_records(*stats, *prefs, last),
{
    push_accumulate(out, Distribution::FinalCwnd, last as u64);
    if let Some(loss) = loss {
        push_sample(out, Distribution::LossRatioFiltered, loss);
    }
    record_exit(out, &stats.cc, last);
    if prefs.slow_start_algorithm == 1 {
        record_hystart(out, &stats.cc);
    }
    if prefs.slow_start_algorithm == 2 {
        record_search(out, &stats.cc, stats.min_rtt);
    }
    assert(out@ =~= old(out)@ + growth_records(*stats, *prefs, last));
}

fn record_window(
    out: &mut Vec<Record>,
    stats: &TransportStats,
    grown: Option<usize>,
    loss: Option<i64>,
)
    requires
        grown == grown_cwnd(stats.cc),
        loss == loss_ratio(*stats),
    ensures
        final(out)@ == old(out)@ + window_records(*stats),
{
    if let Some(loss) = loss {
        push_sample(out, Distribution::LossRatio, loss);
    }
    if stats.cc.slow_start_exit_cwnd.is_some() {
        push_count(out, Counter::SlowStartExited, "exited", 1);
    } else {
        push_count(out, Counter::SlowStartExited, "not_exited", 1);
    }
    let label = match (grown, stats.cc.slow_start_exit_cwnd) {
        (Some(_), Some(exit)) => if exit < MAX_INITIAL_CWND {
            "no_growth_then_exit_then_growth"
        } else {
            "had_growth"
        },
        (Some(_), None) => "had_growth",
        (None, Some(_)) => "no_growth_but_exit",
        (None, None) => "no_growth",
    };
    push_count(out, Counter::CongestionWindowGrowth, label, 1);
    assert(out@ =~= old(out)@ + window_records(*stats));
}

fn record_sizes(out: &mut Vec<Record>, stats: &TransportStats)
    requires
        stats.cc.congestion_events.ecn + stats.cc.congestion_events.loss <= usize::MAX,
    ensures
        final(out)@ == old(out)@ + size_records(*stats),
{
    let events = stats.cc.congestion_events;
    let seen: usize = events.ecn + events.loss;
    let genuine: usize = if seen > events.spurious {
        seen - events.spurious
    } else {
        0
    };
    push_sample(out, Distribution::CongestionEventCount, genuine as i64);
    if let Some(max) = stats.pmtud_peer_max_udp_payload {
        if max as u64 <= i64::MAX as u64 {
            push_sample(out, Distribution::PeerMaxUdpPayload, max as i64);
        }
    }
    assert(out@ =~= old(out)@ + size_records(*stats));
}

fn record_answered(out: &mut Vec<Record>, stats: &TransportStats, prefs: &MetricsPreferences)
    requires
        answered_fit(*stats, *prefs),
        stats.packets_tx > 0,
    ensures
        final(out)@ == old(out)@ + answered_records(*stats, *prefs),
{
    let ratio: usize = (stats.lost * PRECISION_FACTOR as usize) / stats.packets_tx;
    let loss: Option<i64> = if ratio as u64 <= i64::MAX as u64 {
        Some(ratio as i64)
    } else {
        None
    };
    let window = grown(&stats.cc);
    record_window(out, stats, window, loss);
    if let Some(last) = window {
        record_growth(out, stats, prefs, last, loss);
    }
    record_sizes(out, stats);
    assert(out@ =~= old(out)@ + answered_records(*stats, *prefs));
}

fn record_events(out: &mut Vec<Record>, events: &CongestionEvents)
    requires
        events.loss != 0 ==> events.spurious * PRECISION_FACTOR <= usize::MAX,
    ensures
        final(out)@ == old(out)@ + event_records(*events),
{
    if events.loss != 0 {
        let ratio: usize = (events.spurious * PRECISION_FACTOR as usize) / events.loss;
        if ratio as u64 <= i64::MAX as u64 {
            push_sample(out, Distribution::SpuriousCongestionEventRatio, ratio as i64);
        }
    }
    if events.loss <= i32::MAX as usize {
        push_count(out, Counter::CongestionEventReason, "loss", events.loss as i32);
    }
    if events.ecn <= i32::MAX as usize {
        push_count(out, Counter::CongestionEventReason, "ecn-ce", events.ecn as i32);
    }
    assert(out@ =~= old(out)@ + event_records(*events));
}

/// What is recorded of a connection when it ends, in this order.
pub fn record_stats_in_glean(stats: &TransportStats, prefs: &MetricsPreferences) -> (records: Vec<
    Record,
>)
    requires
        stats_fit(*stats, *prefs),
    ensures
        records@ == all_records(*stats, *prefs),
{
    let mut out: Vec<Record> = Vec::new();
    if stats.packets_tx == 0 {
        return out;
    }
    record_frames(&mut out, &stats.frame_tx, true);
    record_frames(&mut out, &stats.frame_rx, false);
    let eligible = !prefs.use_nspr_for_io && stats.frame_rx.handshake_done != 0;
    if eligible && prefs.ecn_report {
        record_ratio(&mut out, &stats.ecn_rx, Distribution::EcnCeEct0RatioReceived);
    }
    if eligible && prefs.ecn_mark {
        record_ratio(&mut out, &stats.ecn_tx_acked, Distribution::EcnCeEct0RatioSent);
        record_validation(&mut out, &stats.ecn_path_validation);
    }
    if stats.packets_rx != 0 {
        record_answered(&mut out, stats, prefs);
    }
    record_events(&mut out, &stats.cc.congestion_events);
    assert(out@ =~= all_records(*stats, *prefs));
    out
}

/// Whether a distribution is only kept for connections whose congestion window grew.
pub open spec fn is_growth_distribution(distribution: Distribution) -> bool {
    match distribution {
        Distribution::EcnCeEct0RatioReceived => false,
        Distribution::EcnCeEct0RatioSent => false,
        Distribution::LossRatio => false,
        Distribution::CongestionEventCount => false,
        Distribution::PeerMaxUdpPayload => false,
        Distribution::SpuriousCongestionEventRatio => false,
        _ => true,
    }
}

/// Whether a counter is only kept for connections whose congestion window grew.
pub open spec fn is_growth_counter(counter: Counter) -> bool {
    match counter {
        Counter::SlowStartExitedFiltered => true,
        Counter::SlowStartExitDirectionLoss => true,
        Counter::SlowStartExitDirectionHeuristic => true,
        Counter::SlowStartExitReason => true,
        Counter::SearchRttInflated => true,
        _ => false,
    }
}

/// Whether a record is only made for connections whose congestion window grew.
pub open spec fn is_growth_record(record: Record) -> bool {
    match record {
        Record::Count { counter, .. } => is_growth_counter(counter),
        Record::Sample { distribution, .. } => is_growth_distribution(distribution),
        Record::Accumulate { distribution, .. } => is_growth_distribution(distribution),
    }
}

/// Whether no record is among these that is only made where the window grew.
#[verifier::opaque]
pub open spec fn without_growth(records: Seq<Record>) -> bool {
    forall|i: int| 0 <= i < records.len() ==> !is_growth_record(#[trigger] records[i])
}

proof fn lemma_joined(a: Seq<Record>, b: Seq<Record>)
    requires
        without_growth(a),
        without_growth(b),
    ensures
        without_growth(a + b),
{
    reveal(without_growth);
    assert forall|i: int| 0 <= i < (a + b).len() implies !is_growth_record(
        #[trigger] (a + b)[i],
    ) by {
        if i < a.len() {
            assert((a + b)[i] == a[i]);
        } else {
            assert((a + b)[i] == b[i - a.len()]);
        }
    }
}

proof fn lemma_frames_without_growth(s: FrameStats, sent: bool)
    ensures
        without_growth(frame_records(s, sent)),
{
    reveal(without_growth);
    let records = frame_records(s, sent);
    assert forall|i: int| 0 <= i < records.len() implies !is_growth_record(
        #[trigger] records[i],
    ) by {
        assert(records[i] is Count && records[i]->counter == Counter::QuicFrameCount);
    }
}

proof fn lemma_validation_without_growth(outcomes: Seq<(ValidationOutcome, usize)>)
    ensures
        without_growth(validation_records(outcomes)),
    decreases outcomes.len(),
{
    reveal(without_growth);
    if outcomes.len() > 0 {
        lemma_validation_without_growth(outcomes.drop_last());
    }
}

proof fn lemma_ecn_without_growth(stats: TransportStats, prefs: MetricsPreferences)
    ensures
        without_growth(ecn_records(stats, prefs)),
{
    let received = ratio_records(stats.ecn_rx@, Distribution::EcnCeEct0RatioReceived);
    let sent = ratio_records(stats.ecn_tx_acked@, Distribution::EcnCeEct0RatioSent);
    let validation = validation_records(stats.ecn_path_validation@);
    assert(without_growth(received) && without_growth(sent) && without_growth(nothing())) by {
        reveal(without_growth);
    }
    lemma_validation_without_growth(stats.ecn_path_validation@);
    lemma_joined(sent, validation);
    lemma_joined(received, sent + validation);
    lemma_joined(nothing(), sent + validation);
    lemma_joined(received, nothing());
    lemma_joined(nothing(), nothing());
}

proof fn lemma_answered_without_growth(stats: TransportStats, prefs: MetricsPreferences)
    requires
        grown_cwnd(stats.cc) is None,
    ensures
        without_growth(answered_records(stats, prefs)),
{
    assert(without_growth(window_records(stats)) && without_growth(size_records(stats))
        && without_growth(nothing())) by {
        reveal(without_growth);
    }
    lemma_joined(window_records(stats), nothing());
    lemma_joined(window_records(stats) + nothing(), size_records(stats));
}

/// Of the slow start and of what it led to, nothing is recorded for a connection whose congestion
/// window never grew beyond the initial one.
pub proof fn law_no_growth_no_growth_records(stats: TransportStats, prefs: MetricsPreferences)
    requires
        grown_cwnd(stats.cc) is None,
    ensures
        without_growth(all_records(stats, prefs)),
{
    let tx = frame_records(stats.frame_tx, true);
    let rx = frame_records(stats.frame_rx, false);
    let ecn = ecn_records(stats, prefs);
    let events = event_records(stats.cc.congestion_events);
    assert(without_growth(events) && without_growth(nothing())) by {
        reveal(without_growth);
    }
    let answered = if stats.packets_rx != 0 {
        answered_records(stats, prefs)
    } else {
        nothing()
    };
    lemma_frames_without_growth(stats.frame_tx, true);
    lemma_frames_without_growth(stats.frame_rx, false);
    lemma_ecn_without_growth(stats, prefs);
    lemma_answered_without_growth(stats, prefs);
    lemma_joined(tx, rx);
    lemma_joined(tx + rx, ecn);
    lemma_joined(tx + rx + ecn, answered);
    lemma_joined(tx + rx + ecn + answered, events);
}

/// Whether a number is a count, cut off where 31 bits end.
pub open spec fn is_cut(value: i32, count: usize) -> bool {
    if count < 0x8000_0000 {
        value == count
    } else {
        value == 0x7fff_ffff
    }
}

/// Whether a value is the count of the kind of frame that a label names, of those that were sent.
pub open spec fn is_sent_count(s: FrameStats, label: &'static str, value: i32) -> bool {
    ||| label == "ack_tx" && is_cut(value, s.ack)
    ||| label == "crypto_tx" && is_cut(value, s.crypto)
    ||| label == "stream_tx" && is_cut(value, s.stream)
    ||| label == "reset_stream_tx" && is_cut(value, s.reset_stream)
    ||| label == "stop_sending_tx" && is_cut(value, s.stop_sending)
    ||| label == "ping_tx" && is_cut(value, s.ping)
    ||| label == "padding_tx" && is_cut(value, s.padding)
    ||| label == "max_streams_tx" && is_cut(value, s.max_streams)
    ||| label == "streams_blocked_tx" && is_cut(value, s.streams_blocked)
    ||| label == "max_data_tx" && is_cut(value, s.max_data)
    ||| label == "data_blocked_tx" && is_cut(value, s.data_blocked)
    ||| label == "max_stream_data_tx" && is_cut(value, s.max_stream_data)
    ||| label == "stream_data_blocked_tx" && is_cut(value, s.stream_data_blocked)
    ||| label == "new_connection_id_tx" && is_cut(value, s.new_connection_id)
    ||| label == "retire_connection_id_tx" && is_cut(value, s.retire_connection_id)
    ||| label == "path_challenge_tx" && is_cut(value, s.path_challenge)
    ||| label == "path_response_tx" && is_cut(value, s.path_response)
    ||| label == "connection_close_tx" && is_cut(value, s.connection_close)
    ||| label == "handshake_done_tx" && is_cut(value, s.handshake_done)
    ||| label == "new_token_tx" && is_cut(value, s.new_token)
    ||| label == "ack_frequency_tx" && is_cut(value, s.ack_frequency)
    ||| label == "datagram_tx" && is_cut(value, s.datagram)
}

/// Whether a value is the count of the kind of frame that a label names, of those that were
/// received.
pub open spec fn is_received_count(s: FrameStats, label: &'static str, value: i32) -> bool {
    ||| label == "ack_rx" && is_cut(value, s.ack)
    ||| label == "crypto_rx" && is_cut(value, s.crypto)
    ||| label == "stream_rx" && is_cut(value, s.stream)
    ||| label == "reset_stream_rx" && is_cut(value, s.reset_stream)
    ||| label == "stop_sending_rx" && is_cut(value, s.stop_sending)
    ||| label == "ping_rx" && is_cut(value, s.ping)
    ||| label == "padding_rx" && is_cut(value, s.padding)
    ||| label == "max_streams_rx" && is_cut(value, s.max_streams)
    ||| label == "streams_blocked_rx" && is_cut(value, s.streams_blocked)
    ||| label == "max_data_rx" && is_cut(value, s.max_data)
    ||| label == "data_blocked_rx" && is_cut(value, s.data_blocked)
    ||| label == "max_stream_data_rx" && is_cut(value, s.max_stream_data)
    ||| label == "stream_data_blocked_rx" && is_cut(value, s.stream_data_blocked)
    ||| label == "new_connection_id_rx" && is_cut(value, s.new_connection_id)
    ||| label == "retire_connection_id_rx" && is_cut(value, s.retire_connection_id)
    ||| label == "path_challenge_rx" && is_cut(value, s.path_challenge)
    ||| label == "path_response_rx" && is_cut(value, s.path_response)
    ||| label == "connection_close_rx" && is_cut(value, s.connection_close)
    ||| label == "handshake_done_rx" && is_cut(value, s.handshake_done)
    ||| label == "new_token_rx" && is_cut(value, s.new_token)
    ||| label == "ack_frequency_rx" && is_cut(value, s.ack_frequency)
    ||| label == "datagram_rx" && is_cut(value, s.datagram)
}

proof fn lemma_frames_recorded(s: FrameStats, r: Record)
    ensures
        frame_records(s, true).contains(r) <==> (r matches Record::Count { counter, label, value }
            && counter is QuicFrameCount && is_sent_count(s, label, value)),
        frame_records(s, false).contains(r) <==> (r matches Record::Count { counter, label, value }
            && counter is QuicFrameCount && is_received_count(s, label, value)),
{
    let tx = frame_records(s, true);
    let rx = frame_records(s, false);
    if let Record::Count { counter, label, value } = r {
        if counter is QuicFrameCount {
            if label == "ack_tx" && is_cut(value, s.ack) {
                assert(tx[0] == r);
            }
            if label == "crypto_tx" && is_cut(value, s.crypto) {
                assert(tx[1] == r);
            }
            if label == "stream_tx" && is_cut(value, s.stream) {
                assert(tx[2] == r);
            }
            if label == "reset_stream_tx" && is_cut(value, s.reset_stream) {
                assert(tx[3] == r);
            }
            if label == "stop_sending_tx" && is_cut(value, s.stop_sending) {
                assert(tx[4] == r);
            }
            if label == "ping_tx" && is_cut(value, s.ping) {
                assert(tx[5] == r);
            }
            if label == "padding_tx" && is_cut(value, s.padding) {
                assert(tx[6] == r);
            }
            if label == "max_streams_tx" && is_cut(value, s.max_streams) {
                assert(tx[7] == r);
            }
            if label == "streams_blocked_tx" && is_cut(value, s.streams_blocked) {
                assert(tx[8] == r);
            }
            if label == "max_data_tx" && is_cut(value, s.max_data) {
                assert(tx[9] == r);
            }
            if label == "data_blocked_tx" && is_cut(value, s.data_blocked) {
                assert(tx[10] == r);
            }
            if label == "max_stream_data_tx" && is_cut(value, s.max_stream_data) {
                assert(tx[11] == r);
            }
            if label == "stream_data_blocked_tx" && is_cut(value, s.stream_data_blocked) {
                assert(tx[12] == r);
            }
            if label == "new_connection_id_tx" && is_cut(value, s.new_connection_id) {
                assert(tx[13] == r);
            }
            if label == "retire_connection_id_tx" && is_cut(value, s.retire_connection_id) {
                assert(tx[14] == r);
            }
            if label == "path_challenge_tx" && is_cut(value, s.path_challenge) {
                assert(tx[15] == r);
            }
            if label == "path_response_tx" && is_cut(value, s.path_response) {
                assert(tx[16] == r);
            }
            if label == "connection_close_tx" && is_cut(value, s.connection_close) {
                assert(tx[17] == r);
            }
            if label == "handshake_done_tx" && is_cut(value, s.handshake_done) {
                assert(tx[18] == r);
            }
            if label == "new_token_tx" && is_cut(value, s.new_token) {
                assert(tx[19] == r);
            }
            if label == "ack_frequency_tx" && is_cut(value, s.ack_frequency) {
                assert(tx[20] == r);
            }
            if label == "datagram_tx" && is_cut(value, s.datagram) {
                assert(tx[21] == r);
            }
            if label == "ack_rx" && is_cut(value, s.ack) {
                assert(rx[0] == r);
            }
            if label == "crypto_rx" && is_cut(value, s.crypto) {
                assert(rx[1] == r);
            }
            if label == "stream_rx" && is_cut(value, s.stream) {
                assert(rx[2] == r);
            }
            if label == "reset_stream_rx" && is_cut(value, s.reset_stream) {
                assert(rx[3] == r);
            }
            if label == "stop_sending_rx" && is_cut(value, s.stop_sending) {
                assert(rx[4] == r);
            }
            if label == "ping_rx" && is_cut(value, s.ping) {
                assert(rx[5] == r);
            }
            if label == "padding_rx" && is_cut(value, s.padding) {
                assert(rx[6] == r);
            }
            if label == "max_streams_rx" && is_cut(value, s.max_streams) {
                assert(rx[7] == r);
            }
            if label == "streams_blocked_rx" && is_cut(value, s.streams_blocked) {
                assert(rx[8] == r);
            }
            if label == "max_data_rx" && is_cut(value, s.max_data) {
                assert(rx[9] == r);
            }
            if label == "data_blocked_rx" && is_cut(value, s.data_blocked) {
                assert(rx[10] == r);
            }
            if label == "max_stream_data_rx" && is_cut(value, s.max_stream_data) {
                assert(rx[11] == r);
            }
            if label == "stream_data_blocked_rx" && is_cut(value, s.stream_data_blocked) {
                assert(rx[12] == r);
            }
            if label == "new_connection_id_rx" && is_cut(value, s.new_connection_id) {
                assert(rx[13] == r);
            }
            if label == "retire_connection_id_rx" && is_cut(value, s.retire_connection_id) {
                assert(rx[14] == r);
            }
            if label == "path_challenge_rx" && is_cut(value, s.path_challenge) {
                assert(rx[15] == r);
            }
            if label == "path_response_rx" && is_cut(value, s.path_response) {
                assert(rx[16] == r);
            }
            if label == "connection_close_rx" && is_cut(value, s.connection_close) {
                assert(rx[17] == r);
            }
            if label == "handshake_done_rx" && is_cut(value, s.handshake_done) {
                assert(rx[18] == r);
            }
            if label == "new_token_rx" && is_cut(value, s.new_token) {
                assert(rx[19] == r);
            }
            if label == "ack_frequency_rx" && is_cut(value, s.ack_frequency) {
                assert(rx[20] == r);
            }
            if label == "datagram_rx" && is_cut(value, s.datagram) {
                assert(rx[21] == r);
            }
        }
    }
}

proof fn lemma_either(a: Seq<Record>, b: Seq<Record>, r: Record)
    ensures
        (a + b).contains(r) <==> a.contains(r) || b.contains(r),
{
    if a.contains(r) {
        let i = a.index_of(r);
        assert((a + b)[i] == r);
    }
    if b.contains(r) {
        let i = b.index_of(r);
        assert((a + b)[a.len() + i] == r);
    }
}

/// The sums over no paths are zero, and each further path adds its counts.
pub proof fn law_marks_are_added(counts: Seq<EcnCount>, more: EcnCount)
    ensures
        ect0_sum(Seq::empty()) == 0 && ce_sum(Seq::empty()) == 0,
        ect0_sum(counts.push(more)) == ect0_sum(counts) + more.ect0,
        ce_sum(counts.push(more)) == ce_sum(counts) + more.ce,
{
    assert(counts.push(more).drop_last() =~= counts);
}

/// Whether a value is the ratio of two numbers in ten-thousandths, rounded down.
pub open spec fn is_ratio(value: i64, part: nat, whole: nat) -> bool {
    whole > 0 && value == (part * 10_000) / whole
}

proof fn lemma_ratio_recorded(counts: Seq<EcnCount>, distribution: Distribution, r: Record)
    ensures
        ratio_records(counts, distribution).contains(r) <==> (r matches Record::Sample {
            distribution: d,
            label,
            value,
        } && d == distribution && label is None && is_ratio(
            value,
            ce_sum(counts),
            ect0_sum(counts),
        )),
{
    if ratio_records(counts, distribution).len() > 0 {
        assert(ratio_records(counts, distribution)[0] is Sample);
    }
    if let Record::Sample { distribution: d, label, value } = r {
        if d == distribution && label is None && is_ratio(value, ce_sum(counts), ect0_sum(counts)) {
            assert(ratio_records(counts, distribution)[0] == r);
        }
    }
}

/// Whether a path was found to be what a label names, and so many were.
pub open spec fn is_found(
    found: (ValidationOutcome, usize),
    label: &'static str,
    value: i32,
) -> bool {
    &&& found.1 == value
    &&& found.0 is Capable ==> label == "capable"
    &&& found.0 is BlackHole ==> label == "black-hole"
    &&& found.0 is Bleaching ==> label == "bleaching"
    &&& found.0 is ReceivedUnsentEct1 ==> label == "received-unsent-ect-1"
}

proof fn lemma_validation_recorded(outcomes: Seq<(ValidationOutcome, usize)>, r: Record)
    ensures
        validation_records(outcomes).contains(r) <==> (r matches Record::Count {
            counter,
            label,
            value,
        } && counter is EcnPathCapability && exists|i: int|
            0 <= i < outcomes.len() && is_found(#[trigger] outcomes[i], label, value)),
    decreases outcomes.len(),
{
    if outcomes.len() > 0 {
        let before = outcomes.drop_last();
        lemma_validation_recorded(before, r);
        let records = validation_records(before);
        assert(validation_records(outcomes) == records || validation_records(outcomes)
            == records.push(validation_records(outcomes).last()));
        if records.contains(r) {
            let i = records.index_of(r);
            assert(validation_records(outcomes)[i] == r);
            let k = choose|k: int|
                0 <= k < before.len() && is_found(
                    #[trigger] before[k],
                    r->Count_label,
                    r->Count_value,
                );
            assert(outcomes[k] == before[k]);
        }
        if let Record::Count { counter, label, value } = r {
            if counter is EcnPathCapability && is_found(outcomes.last(), label, value) {
                assert(validation_records(outcomes).last() == r);
                assert(validation_records(outcomes)[validation_records(outcomes).len() - 1] == r);
            }
            if exists|i: int|
                0 <= i < outcomes.len() && is_found(#[trigger] outcomes[i], label, value) {
                let i = choose|i: int|
                    0 <= i < outcomes.len() && is_found(#[trigger] outcomes[i], label, value);
                if i < before.len() {
                    assert(before[i] == outcomes[i]);
                }
            }
        }
    }
}

/// Whether the congestion window ended beyond the largest initial one.
pub open spec fn window_grew(cc: CongestionStats) -> bool {
    cc.cwnd matches Some(last) && last > 12520
}

/// Whether the slow start ended, with its reason.
pub open spec fn exited_by(cc: CongestionStats, reason: SlowStartExitReason) -> bool {
    cc.slow_start_exit_cwnd is Some && cc.slow_start_exit_reason == Some(reason)
}

/// Whether the slow start ended for a reason.
pub open spec fn exited(cc: CongestionStats) -> bool {
    cc.slow_start_exit_cwnd is Some && cc.slow_start_exit_reason is Some
}

/// Whether a label tells where the slow start ended: above the last window, below it, or on it.
pub open spec fn tells_direction(cc: CongestionStats, label: &'static str) -> bool {
    let (exit, last) = (cc.slow_start_exit_cwnd->0, cc.cwnd->0);
    &&& exit > last ==> label == "overshoot"
    &&& exit < last ==> label == "undershoot"
    &&& exit == last ==> label == "exact"
}

/// Whether a counter is counted up under a label, for a connection in which something was
/// received.
pub open spec fn is_counted(
    stats: TransportStats,
    prefs: MetricsPreferences,
    counter: Counter,
    label: &'static str,
) -> bool {
    let cc = stats.cc;
    match counter {
        Counter::SlowStartExited => {
            &&& cc.slow_start_exit_cwnd is Some ==> label == "exited"
            &&& cc.slow_start_exit_cwnd is None ==> label == "not_exited"
        },
        Counter::CongestionWindowGrowth => {
            let early = cc.slow_start_exit_cwnd matches Some(exit) && exit < 12520;
            &&& window_grew(cc) && early ==> label == "no_growth_then_exit_then_growth"
            &&& window_grew(cc) && !early ==> label == "had_growth"
            &&& !window_grew(cc) && cc.slow_start_exit_cwnd is Some ==> label
                == "no_growth_but_exit"
            &&& !window_grew(cc) && cc.slow_start_exit_cwnd is None ==> label == "no_growth"
        },
        Counter::SlowStartExitedFiltered => {
            &&& window_grew(cc)
            &&& exited(cc) ==> label == "exited"
            &&& !exited(cc) ==> label == "not_exited"
        },
        Counter::SlowStartExitDirectionLoss => {
            &&& window_grew(cc) && exited_by(cc, SlowStartExitReason::CongestionEvent)
            &&& tells_direction(cc, label)
        },
        Counter::SlowStartExitDirectionHeuristic => {
            &&& window_grew(cc) && exited_by(cc, SlowStartExitReason::Heuristic)
            &&& tells_direction(cc, label)
        },
        Counter::SlowStartExitReason => {
            &&& window_grew(cc) && exited(cc)
            &&& exited_by(cc, SlowStartExitReason::CongestionEvent) ==> label == "ce"
            &&& exited_by(cc, SlowStartExitReason::Heuristic) ==> label == "heuristic"
        },
        Counter::SearchRttInflated => {
            &&& window_grew(cc) && prefs.slow_start_algorithm == 2
            &&& cc.search_lookback_bins_needed is Some ==> label == "inflated"
            &&& cc.search_lookback_bins_needed is None ==> label == "never_inflated"
        },
        _ => false,
    }
}

/// Whether a label tells how the slow start ended, where its own way to end it is called `own`.
pub open spec fn tells_exit(
    cc: CongestionStats,
    label: Option<&'static str>,
    own: &'static str,
) -> bool {
    &&& exited_by(cc, SlowStartExitReason::CongestionEvent) ==> label == Some("exited_ce")
    &&& exited_by(cc, SlowStartExitReason::Heuristic) ==> label == Some(own)
    &&& !exited(cc) ==> label == Some("not_exited")
}

/// Whether a label tells for which reason the slow start ended.
pub open spec fn tells_reason(cc: CongestionStats, label: Option<&'static str>) -> bool {
    &&& exited_by(cc, SlowStartExitReason::CongestionEvent) ==> label == Some("ce_exit")
    &&& exited_by(cc, SlowStartExitReason::Heuristic) ==> label == Some("heuristic_exit")
}

/// A number of microseconds, cut off where 64 bits end.
pub open spec fn cut_micros(n: u128) -> int {
    if n < 0x1_0000_0000_0000_0000 {
        n as int
    } else {
        0xffff_ffff_ffff_ffff
    }
}

/// Whether a value is how many hundredths of another time the first one is.
pub open spec fn is_percent(value: i64, first: Option<u128>, other: u128) -> bool {
    &&& first is Some && cut_micros(other) > 0
    &&& value == ((cut_micros(first->0) * 100) / cut_micros(other)) as u64 as i64
}

/// Whether a sample is added to a distribution, for a connection in which something was received.
pub open spec fn is_sampled(
    stats: TransportStats,
    prefs: MetricsPreferences,
    distribution: Distribution,
    label: Option<&'static str>,
    value: i64,
) -> bool {
    let cc = stats.cc;
    let events = cc.congestion_events;
    let hystart = window_grew(cc) && prefs.slow_start_algorithm == 1;
    let search = window_grew(cc) && prefs.slow_start_algorithm == 2;
    match distribution {
        Distribution::LossRatio => label is None && is_ratio(
            value,
            stats.lost as nat,
            stats.packets_tx as nat,
        ),
        Distribution::LossRatioFiltered => window_grew(cc) && label is None && is_ratio(
            value,
            stats.lost as nat,
            stats.packets_tx as nat,
        ),
        Distribution::SlowStartExitAccuracy => window_grew(cc) && exited(cc) && tells_reason(
            cc,
            label,
        ) && value == cc.exit_accuracy,
        Distribution::SlowStartExitAccuracyWMax => window_grew(cc) && exited(cc) && cc.w_max is Some
            && tells_reason(cc, label) && value == cc.exit_accuracy_w_max,
        Distribution::HystartCssRoundsFinished => hystart && tells_exit(
            cc,
            label,
            "exited_hystart",
        ) && value == cc.hystart_css_rounds_finished as i64,
        Distribution::HystartCssEntries => hystart && tells_exit(cc, label, "exited_hystart")
            && value == cc.hystart_css_entries as i64,
        Distribution::SearchLookbackBins => search && label is None
            && cc.search_lookback_bins_needed is Some && value
            == cc.search_lookback_bins_needed->0 as i64,
        Distribution::SearchMaxNormDiff => search && tells_exit(cc, label, "exited_search")
            && cc.search_max_norm_diff is Some && value == cc.search_max_norm_diff->0 as i64,
        Distribution::SearchResetCount => search && tells_exit(cc, label, "exited_search") && value
            == cc.search_reset_count as i64,
        Distribution::SearchMaxPassedBins => search && label is None
            && cc.search_reset_max_passed_bins is Some && value
            == cc.search_reset_max_passed_bins->0 as i64,
        Distribution::SearchZeroBytesSent => search && tells_exit(cc, label, "exited_search")
            && value == cc.search_zero_sent_bytes as i64,
        Distribution::SearchFirstRttVsMinRtt => search && label is None && is_percent(
            value,
            cc.search_first_rtt,
            stats.min_rtt,
        ),
        Distribution::SearchFirstRttVsSecondRtt => search && label is None && cc.search_second_rtt
            is Some && is_percent(value, cc.search_first_rtt, cc.search_second_rtt->0),
        Distribution::CongestionEventCount => label is None && value == (if events.ecn + events.loss
            > events.spurious {
            events.ecn + events.loss - events.spurious
        } else {
            0
        }) as usize as i64,
        Distribution::PeerMaxUdpPayload => label is None && stats.pmtud_peer_max_udp_payload is Some
            && value == stats.pmtud_peer_max_udp_payload->0,
        _ => false,
    }
}

/// Whether a value is added to a distribution, for a connection in which something was received.
pub open spec fn is_accumulated(
    stats: TransportStats,
    prefs: MetricsPreferences,
    distribution: Distribution,
    value: u64,
) -> bool {
    let cc = stats.cc;
    let search = window_grew(cc) && prefs.slow_start_algorithm == 2;
    match distribution {
        Distribution::FinalCwnd => window_grew(cc) && value == cc.cwnd->0,
        Distribution::SlowStartExitCwnd => window_grew(cc) && exited(cc) && value
            == cc.slow_start_exit_cwnd->0,
        Distribution::FinalWMax => window_grew(cc) && exited(cc) && cc.w_max == Some(value),
        Distribution::SearchEmptyBufferBdpEstimate => search && cc.search_empty_buffer_target
            == Some(value),
        Distribution::SearchFullBufferBdpEstimate => search && cc.search_full_buffer_target == Some(
            value,
        ),
        _ => false,
    }
}

/// Whether a record is made of a connection in which something was received, besides those that
/// are made of every one.
pub open spec fn is_answered_record(
    stats: TransportStats,
    prefs: MetricsPreferences,
    r: Record,
) -> bool {
    match r {
        Record::Count { counter, label, value } => value == 1 && is_counted(
            stats,
            prefs,
            counter,
            label,
        ),
        Record::Sample { distribution, label, value } => is_sampled(
            stats,
            prefs,
            distribution,
            label,
            value,
        ),
        Record::Accumulate { distribution, value } => is_accumulated(
            stats,
            prefs,
            distribution,
            value,
        ),
    }
}

/// Whether a record is one of the congestion events.
pub open spec fn is_event_record(events: CongestionEvents, r: Record) -> bool {
    match r {
        Record::Count { counter, label, value } => counter is CongestionEventReason && (label
            == "loss" && value == events.loss || label == "ecn-ce" && value == events.ecn),
        Record::Sample { distribution, label, value } => distribution
            is SpuriousCongestionEventRatio && label is None && is_ratio(
            value,
            events.spurious as nat,
            events.loss as nat,
        ),
        Record::Accumulate { .. } => false,
    }
}

proof fn lemma_events_recorded(events: CongestionEvents, r: Record)
    ensures
        event_records(events).contains(r) <==> is_event_record(events, r),
{
    let ratio = (events.spurious * PRECISION_FACTOR) / (events.loss as int);
    let a = if events.loss != 0 && ratio <= i64::MAX {
        seq![sample(Distribution::SpuriousCongestionEventRatio, ratio as i64)]
    } else {
        nothing()
    };
    let b = if events.loss <= i32::MAX {
        seq![count(Counter::CongestionEventReason, "loss", events.loss as i32)]
    } else {
        nothing()
    };
    let c = if events.ecn <= i32::MAX {
        seq![count(Counter::CongestionEventReason, "ecn-ce", events.ecn as i32)]
    } else {
        nothing()
    };
    lemma_either(a, b, r);
    lemma_either(a + b, c, r);
    lemma_at_most_one(a, r);
    lemma_at_most_one(b, r);
    lemma_at_most_one(c, r);
}

proof fn lemma_at_most_one(s: Seq<Record>, r: Record)
    requires
        s.len() <= 1,
    ensures
        s.contains(r) <==> s.len() == 1 && s[0] == r,
{
}

proof fn lemma_two(s: Seq<Record>, r: Record)
    requires
        s.len() == 2,
    ensures
        s.contains(r) <==> s[0] == r || s[1] == r,
{
}

proof fn lemma_window_recorded(stats: TransportStats, r: Record)
    ensures
        window_records(stats).contains(r) <==> {
            ||| loss_ratio(stats) is Some && r == sample(
                Distribution::LossRatio,
                loss_ratio(stats)->0,
            )
            ||| r == count(
                Counter::SlowStartExited,
                if stats.cc.slow_start_exit_cwnd is Some {
                    "exited"
                } else {
                    "not_exited"
                },
                1,
            )
            ||| r == count(Counter::CongestionWindowGrowth, growth_label(stats.cc), 1)
        },
{
    let a = match loss_ratio(stats) {
        Some(loss) => seq![sample(Distribution::LossRatio, loss)],
        None => nothing(),
    };
    let b = seq![
        count(
            Counter::SlowStartExited,
            if stats.cc.slow_start_exit_cwnd is Some {
                "exited"
            } else {
                "not_exited"
            },
            1,
        ),
        count(Counter::CongestionWindowGrowth, growth_label(stats.cc), 1),
    ];
    lemma_either(a, b, r);
    lemma_at_most_one(a, r);
    lemma_two(b, r);
}

proof fn lemma_sizes_recorded(stats: TransportStats, prefs: MetricsPreferences, r: Record)
    ensures
        size_records(stats).contains(r) <==> (r matches Record::Sample {
            distribution,
            label,
            value,
        } && (distribution is CongestionEventCount || distribution is PeerMaxUdpPayload)
            && is_sampled(stats, prefs, distribution, label, value)),
{
    let events = stats.cc.congestion_events;
    let a = seq![
        sample(
            Distribution::CongestionEventCount,
            (if events.ecn + events.loss > events.spurious {
                events.ecn + events.loss - events.spurious
            } else {
                0
            }) as usize as i64,
        ),
    ];
    let b = match stats.pmtud_peer_max_udp_payload {
        Some(max) => if max <= i64::MAX {
            seq![sample(Distribution::PeerMaxUdpPayload, max as i64)]
        } else {
            nothing()
        },
        None => nothing(),
    };
    lemma_either(a, b, r);
    lemma_at_most_one(a, r);
    lemma_at_most_one(b, r);
}

/// Whether a record tells how the slow start of a connection whose window grew ended.
pub open spec fn is_exit_record(
    stats: TransportStats,
    prefs: MetricsPreferences,
    r: Record,
) -> bool {
    match r {
        Record::Count { counter, label, value } => value == 1 && (counter
            is SlowStartExitedFiltered || counter is SlowStartExitDirectionLoss || counter
            is SlowStartExitDirectionHeuristic || counter is SlowStartExitReason) && is_counted(
            stats,
            prefs,
            counter,
            label,
        ),
        Record::Sample { distribution, label, value } => (distribution is SlowStartExitAccuracy
            || distribution is SlowStartExitAccuracyWMax) && is_sampled(
            stats,
            prefs,
            distribution,
            label,
            value,
        ),
        Record::Accumulate { distribution, value } => (distribution is SlowStartExitCwnd
            || distribution is FinalWMax) && is_accumulated(stats, prefs, distribution, value),
    }
}

proof fn lemma_exit_recorded(
    stats: TransportStats,
    prefs: MetricsPreferences,
    last: usize,
    r: Record,
)
    requires
        grown_cwnd(stats.cc) == Some(last),
    ensures
        exit_records(stats.cc, last).contains(r) <==> is_exit_record(stats, prefs, r),
{
    let cc = stats.cc;
    match (cc.slow_start_exit_cwnd, cc.slow_start_exit_reason) {
        (Some(exit), Some(reason)) => {
            let accuracy_label = match reason {
                SlowStartExitReason::CongestionEvent => "ce_exit",
                SlowStartExitReason::Heuristic => "heuristic_exit",
            };
            let a = seq![
                accumulate(Distribution::SlowStartExitCwnd, exit as u64),
                count(Counter::SlowStartExitedFiltered, "exited", 1),
            ];
            let b = match cc.w_max {
                Some(w) => seq![accumulate(Distribution::FinalWMax, w)],
                None => nothing(),
            };
            let c = match reason {
                SlowStartExitReason::CongestionEvent => seq![
                    count(Counter::SlowStartExitDirectionLoss, direction_label(exit, last), 1),
                    count(Counter::SlowStartExitReason, "ce", 1),
                ],
                SlowStartExitReason::Heuristic => seq![
                    count(Counter::SlowStartExitDirectionHeuristic, direction_label(exit, last), 1),
                    count(Counter::SlowStartExitReason, "heuristic", 1),
                ],
            };
            let d = seq![
                labeled(Distribution::SlowStartExitAccuracy, accuracy_label, cc.exit_accuracy),
            ];
            let e = match cc.w_max {
                Some(_) => seq![
                    labeled(
                        Distribution::SlowStartExitAccuracyWMax,
                        accuracy_label,
                        cc.exit_accuracy_w_max,
                    ),
                ],
                None => nothing(),
            };
            assert(exit_records(cc, last) == a + b + c + d + e);
            lemma_either(a, b, r);
            lemma_either(a + b, c, r);
            lemma_either(a + b + c, d, r);
            lemma_either(a + b + c + d, e, r);
            lemma_two(a, r);
            lemma_at_most_one(b, r);
            lemma_two(c, r);
            lemma_at_most_one(d, r);
            lemma_at_most_one(e, r);
        },
        _ => {
            lemma_at_most_one(exit_records(cc, last), r);
        },
    }
}

/// Whether a distribution is one of those of HyStart.
pub open spec fn is_hystart(distribution: Distribution) -> bool {
    distribution is HystartCssRoundsFinished || distribution is HystartCssEntries
}

proof fn lemma_hystart_recorded(stats: TransportStats, prefs: MetricsPreferences, r: Record)
    requires
        window_grew(stats.cc) && prefs.slow_start_algorithm == 1,
    ensures
        hystart_records(stats.cc).contains(r) <==> (r matches Record::Sample {
            distribution,
            label,
            value,
        } && is_hystart(distribution) && is_sampled(stats, prefs, distribution, label, value)),
{
    lemma_two(hystart_records(stats.cc), r);
}

/// Whether a record is one of those of SEARCH.
pub open spec fn is_search_record(
    stats: TransportStats,
    prefs: MetricsPreferences,
    r: Record,
) -> bool {
    match r {
        Record::Count { counter, label, value } => value == 1 && counter is SearchRttInflated
            && is_counted(stats, prefs, counter, label),
        Record::Sample { distribution, label, value } => (distribution is SearchLookbackBins
            || distribution is SearchMaxNormDiff || distribution is SearchResetCount || distribution
            is SearchMaxPassedBins || distribution is SearchZeroBytesSent || distribution
            is SearchFirstRttVsMinRtt || distribution is SearchFirstRttVsSecondRtt) && is_sampled(
            stats,
            prefs,
            distribution,
            label,
            value,
        ),
        Record::Accumulate { distribution, value } => (distribution is SearchEmptyBufferBdpEstimate
            || distribution is SearchFullBufferBdpEstimate) && is_accumulated(
            stats,
            prefs,
            distribution,
            value,
        ),
    }
}

proof fn lemma_estimates_recorded(cc: CongestionStats, r: Record)
    ensures
        search_estimate_records(cc).contains(r) <==> {
            ||| cc.search_empty_buffer_target matches Some(v) && r == accumulate(
                Distribution::SearchEmptyBufferBdpEstimate,
                v,
            )
            ||| cc.search_full_buffer_target matches Some(v) && r == accumulate(
                Distribution::SearchFullBufferBdpEstimate,
                v,
            )
            ||| cc.search_lookback_bins_needed matches Some(bins) && (r == sample(
                Distribution::SearchLookbackBins,
                bins as i64,
            ) || r == count(Counter::SearchRttInflated, "inflated", 1))
            ||| cc.search_lookback_bins_needed is None && r == count(
                Counter::SearchRttInflated,
                "never_inflated",
                1,
            )
        },
{
    let a = match cc.search_empty_buffer_target {
        Some(v) => seq![accumulate(Distribution::SearchEmptyBufferBdpEstimate, v)],
        None => nothing(),
    };
    let b = match cc.search_full_buffer_target {
        Some(v) => seq![accumulate(Distribution::SearchFullBufferBdpEstimate, v)],
        None => nothing(),
    };
    let c = match cc.search_lookback_bins_needed {
        Some(bins) => seq![
            sample(Distribution::SearchLookbackBins, bins as i64),
            count(Counter::SearchRttInflated, "inflated", 1),
        ],
        None => seq![count(Counter::SearchRttInflated, "never_inflated", 1)],
    };
    lemma_either(a, b, r);
    lemma_either(a + b, c, r);
    lemma_at_most_one(a, r);
    lemma_at_most_one(b, r);
    if cc.search_lookback_bins_needed is Some {
        lemma_two(c, r);
    } else {
        lemma_at_most_one(c, r);
    }
}

proof fn lemma_tuning_recorded(cc: CongestionStats, r: Record)
    ensures
        search_tuning_records(cc).contains(r) <==> {
            ||| cc.search_max_norm_diff matches Some(d) && r == labeled(
                Distribution::SearchMaxNormDiff,
                search_label(cc),
                d as i64,
            )
            ||| r == labeled(
                Distribution::SearchResetCount,
                search_label(cc),
                cc.search_reset_count as i64,
            )
            ||| cc.search_reset_max_passed_bins matches Some(bins) && r == sample(
                Distribution::SearchMaxPassedBins,
                bins as i64,
            )
            ||| r == labeled(
                Distribution::SearchZeroBytesSent,
                search_label(cc),
                cc.search_zero_sent_bytes as i64,
            )
        },
{
    let a = match cc.search_max_norm_diff {
        Some(d) => seq![labeled(Distribution::SearchMaxNormDiff, search_label(cc), d as i64)],
        None => nothing(),
    };
    let b = seq![
        labeled(Distribution::SearchResetCount, search_label(cc), cc.search_reset_count as i64),
    ];
    let c = match cc.search_reset_max_passed_bins {
        Some(bins) => seq![sample(Distribution::SearchMaxPassedBins, bins as i64)],
        None => nothing(),
    };
    let d = seq![
        labeled(
            Distribution::SearchZeroBytesSent,
            search_label(cc),
            cc.search_zero_sent_bytes as i64,
        ),
    ];
    lemma_either(a, b, r);
    lemma_either(a + b, c, r);
    lemma_either(a + b + c, d, r);
    lemma_at_most_one(a, r);
    lemma_at_most_one(b, r);
    lemma_at_most_one(c, r);
    lemma_at_most_one(d, r);
}

proof fn lemma_rtt_recorded(cc: CongestionStats, min_rtt: u128, r: Record)
    ensures
        rtt_records(cc, min_rtt).contains(r) <==> (r matches Record::Sample {
            distribution,
            label,
            value,
        } && label is None && (distribution is SearchFirstRttVsMinRtt && is_percent(
            value,
            cc.search_first_rtt,
            min_rtt,
        ) || distribution is SearchFirstRttVsSecondRtt && cc.search_second_rtt is Some
            && is_percent(value, cc.search_first_rtt, cc.search_second_rtt->0))),
{
    if let Some(first) = cc.search_first_rtt {
        let a = if micros(min_rtt) > 0 {
            seq![
                sample(
                    Distribution::SearchFirstRttVsMinRtt,
                    ((micros(first) * 100) / (micros(min_rtt) as int)) as u64 as i64,
                ),
            ]
        } else {
            nothing()
        };
        let b = match cc.search_second_rtt {
            Some(second) => if micros(second) > 0 {
                seq![
                    sample(
                        Distribution::SearchFirstRttVsSecondRtt,
                        ((micros(first) * 100) / (micros(second) as int)) as u64 as i64,
                    ),
                ]
            } else {
                nothing()
            },
            None => nothing(),
        };
        assert(rtt_records(cc, min_rtt) == a + b);
        lemma_either(a, b, r);
        lemma_at_most_one(a, r);
        lemma_at_most_one(b, r);
    } else {
        lemma_at_most_one(rtt_records(cc, min_rtt), r);
    }
}

proof fn lemma_search_recorded(stats: TransportStats, prefs: MetricsPreferences, r: Record)
    requires
        window_grew(stats.cc) && prefs.slow_start_algorithm == 2,
    ensures
        search_records(stats.cc, stats.min_rtt).contains(r) <==> is_search_record(stats, prefs, r),
{
    let cc = stats.cc;
    let a = search_estimate_records(cc);
    let b = search_tuning_records(cc);
    let c = rtt_records(cc, stats.min_rtt);
    lemma_either(a, b, r);
    lemma_either(a + b, c, r);
    lemma_estimates_recorded(cc, r);
    lemma_tuning_recorded(cc, r);
    lemma_rtt_recorded(cc, stats.min_rtt, r);
}

proof fn lemma_growth_recorded(
    stats: TransportStats,
    prefs: MetricsPreferences,
    last: usize,
    r: Record,
)
    requires
        grown_cwnd(stats.cc) == Some(last),
    ensures
        growth_records(stats, prefs, last).contains(r) <==> {
            ||| r == accumulate(Distribution::FinalCwnd, last as u64)
            ||| loss_ratio(stats) is Some && r == sample(
                Distribution::LossRatioFiltered,
                loss_ratio(stats)->0,
            )
            ||| is_exit_record(stats, prefs, r)
            ||| prefs.slow_start_algorithm == 1 && hystart_records(stats.cc).contains(r)
            ||| prefs.slow_start_algorithm == 2 && search_records(stats.cc, stats.min_rtt).contains(
                r,
            )
        },
{
    let a = seq![accumulate(Distribution::FinalCwnd, last as u64)];
    let b = match loss_ratio(stats) {
        Some(loss) => seq![sample(Distribution::LossRatioFiltered, loss)],
        None => nothing(),
    };
    let c = exit_records(stats.cc, last);
    let d = if prefs.slow_start_algorithm == 1 {
        hystart_records(stats.cc)
    } else {
        nothing()
    };
    let e = if prefs.slow_start_algorithm == 2 {
        search_records(stats.cc, stats.min_rtt)
    } else {
        nothing()
    };
    lemma_either(a, b, r);
    lemma_either(a + b, c, r);
    lemma_either(a + b + c, d, r);
    lemma_either(a + b + c + d, e, r);
    lemma_at_most_one(a, r);
    lemma_at_most_one(b, r);
    lemma_exit_recorded(stats, prefs, last, r);
}

proof fn lemma_answered_recorded(stats: TransportStats, prefs: MetricsPreferences, r: Record)
    requires
        stats.packets_tx > 0,
    ensures
        answered_records(stats, prefs).contains(r) <==> is_answered_record(stats, prefs, r),
{
    let a = window_records(stats);
    let b = match grown_cwnd(stats.cc) {
        Some(last) => growth_records(stats, prefs, last),
        None => nothing(),
    };
    let c = size_records(stats);
    lemma_either(a, b, r);
    lemma_either(a + b, c, r);
    lemma_window_recorded(stats, r);
    lemma_sizes_recorded(stats, prefs, r);
    if let Some(last) = grown_cwnd(stats.cc) {
        lemma_growth_recorded(stats, prefs, last, r);
        if prefs.slow_start_algorithm == 1 {
            lemma_hystart_recorded(stats, prefs, r);
        }
        if prefs.slow_start_algorithm == 2 {
            lemma_search_recorded(stats, prefs, r);
        }
    }
}

/// Whether a record tells of the congestion marks: of what was received where marks are reported,
/// and of what was sent where packets are marked, once the handshake is done, and never with the
/// embedder's own sockets.
pub open spec fn is_ecn_record(
    stats: TransportStats,
    prefs: MetricsPreferences,
    r: Record,
) -> bool {
    &&& !prefs.use_nspr_for_io && stats.frame_rx.handshake_done > 0
    &&& match r {
        Record::Count { counter, label, value } => counter is EcnPathCapability && prefs.ecn_mark
            && exists|i: int|
            0 <= i < stats.ecn_path_validation@.len() && is_found(
                #[trigger] stats.ecn_path_validation@[i],
                label,
                value,
            ),
        Record::Sample { distribution, label, value } => label is None && (distribution
            is EcnCeEct0RatioReceived && prefs.ecn_report && is_ratio(
            value,
            ce_sum(stats.ecn_rx@),
            ect0_sum(stats.ecn_rx@),
        ) || distribution is EcnCeEct0RatioSent && prefs.ecn_mark && is_ratio(
            value,
            ce_sum(stats.ecn_tx_acked@),
            ect0_sum(stats.ecn_tx_acked@),
        )),
        Record::Accumulate { .. } => false,
    }
}

proof fn lemma_ecn_recorded(stats: TransportStats, prefs: MetricsPreferences, r: Record)
    ensures
        ecn_records(stats, prefs).contains(r) <==> is_ecn_record(stats, prefs, r),
{
    let eligible = !prefs.use_nspr_for_io && stats.frame_rx.handshake_done != 0;
    let received = ratio_records(stats.ecn_rx@, Distribution::EcnCeEct0RatioReceived);
    let sent = ratio_records(stats.ecn_tx_acked@, Distribution::EcnCeEct0RatioSent);
    let validation = validation_records(stats.ecn_path_validation@);
    let a = if eligible && prefs.ecn_report {
        received
    } else {
        nothing()
    };
    let b = if eligible && prefs.ecn_mark {
        sent + validation
    } else {
        nothing()
    };
    lemma_either(a, b, r);
    lemma_either(sent, validation, r);
    lemma_ratio_recorded(stats.ecn_rx@, Distribution::EcnCeEct0RatioReceived, r);
    lemma_ratio_recorded(stats.ecn_tx_acked@, Distribution::EcnCeEct0RatioSent, r);
    lemma_validation_recorded(stats.ecn_path_validation@, r);
}

/// What is recorded of a connection that sent something, and nothing else is: every kind of frame
/// under its label and direction, the congestion marks, the congestion events, and, where
/// something was received, what is said of the losses, the window and the slow start. Of a
/// connection that sent nothing, nothing is recorded.
pub proof fn law_what_is_recorded(
    stats: TransportStats,
    prefs: MetricsPreferences,
    records: Vec<Record>,
    r: Record,
)
    requires
        stats_fit(stats, prefs),
        call_ensures(record_stats_in_glean, (&stats, &prefs), records),
    ensures
        records@.contains(r) <==> stats.packets_tx > 0 && {
            ||| r matches Record::Count { counter, label, value } && counter is QuicFrameCount && (
            is_sent_count(stats.frame_tx, label, value) || is_received_count(
                stats.frame_rx,
                label,
                value,
            ))
            ||| is_ecn_record(stats, prefs, r)
            ||| stats.packets_rx > 0 && is_answered_record(stats, prefs, r)
            ||| is_event_record(stats.cc.congestion_events, r)
        },
{
    if stats.packets_tx > 0 {
        let a = frame_records(stats.frame_tx, true);
        let b = frame_records(stats.frame_rx, false);
        let c = ecn_records(stats, prefs);
        let d = if stats.packets_rx != 0 {
            answered_records(stats, prefs)
        } else {
            nothing()
        };
        let e = event_records(stats.cc.congestion_events);
        lemma_either(a, b, r);
        lemma_either(a + b, c, r);
        lemma_either(a + b + c, d, r);
        lemma_either(a + b + c + d, e, r);
        lemma_frames_recorded(stats.frame_tx, r);
        lemma_frames_recorded(stats.frame_rx, r);
        lemma_ecn_recorded(stats, prefs, r);
        lemma_answered_recorded(stats, prefs, r);
        lemma_events_recorded(stats.cc.congestion_events, r);
    }
}

/// What is recorded of a connection can be computed where no sum or product that is needed for it
/// exceeds its type; what is not needed does not matter.
pub proof fn law_what_can_be_recorded(
    stats: TransportStats,
    prefs: MetricsPreferences,
    can: bool,
)
    requires
        call_ensures(can_record, (&stats, &prefs), can),
    ensures
        can <==> stats_fit(stats, prefs),
        stats.packets_tx == 0 ==> can,
        stats.packets_tx > 0 && stats.cc.congestion_events.loss > 0
            && stats.cc.congestion_events.spurious * 10_000 > usize::MAX ==> !can,
        stats.packets_tx > 0 && stats.packets_rx > 0 && stats.lost * 10_000 > usize::MAX ==> !can,
{
}

}
