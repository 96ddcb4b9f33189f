//! A multicast scenario that the server plays through with one WebTransport session.
//!
//! The scenario moves from phase to phase. In each phase it waits for feedback of the client or
//! for a moment in time, then asks for some operations, and once they are done goes on to the
//! next phase.
use crate::bytes::{append, be_bytes, write_be};
use crate::moq::varint::{varint, varint_bytes};
use crate::text::{decimal, push_decimal};
use std::collections::HashSet;
use vstd::prelude::*;
use vstd::string::StringSliceAdditionalSpecFns;

verus! {

broadcast use vstd::std_specs::hash::group_hash_axioms;

/// The offset at which a stream's body begins: behind the WebTransport prefix.
pub const MCQUIC_STREAM_BODY_OFFSET: u64 = 10;

pub const MCQUIC_LATE_JOIN_STREAM_ID: u64 = 4_000_003;

pub const MCQUIC_LATE_JOIN_RESET_STREAM_ID: u64 = 4_000_007;

/// How long the scenario waits between two steps, in nanoseconds.
pub const MCQUIC_STEP_DELAY: u64 = 150_000_000;

/// How long the scenario may take, in nanoseconds.
pub const MCQUIC_SCENARIO_TIMEOUT: u64 = 20_000_000_000;

/// The smallest number of acknowledgements after which a full scenario may complete.
pub const MCQUIC_MIN_ACK_FRAMES: u64 = 7;

#[derive(Clone, Copy, Debug, PartialEq, Eq, Structural)]
pub enum McquicWebTransportScenarioKind {
    Full,
    Revocation,
}

#[derive(Clone, Copy, Debug, PartialEq, Eq, Structural)]
pub enum McquicWebTransportPhase {
    AwaitingInitialDecline,
    AwaitingJoin,
    AwaitingRevocationAck { packet_number: u64 },
    AwaitingRevocation,
    AwaitingHighStreamAck { packet_number: u64 },
    AwaitingHighResetAck { packet_number: u64 },
    BeforePrefixDelay { release_at: u64 },
    AwaitingBeforePrefixAck { stream_id: u64, packet_number: u64 },
    AwaitingRecoveryAck { stream_id: u64, packet_number: u64 },
    KeyReleaseDelay { release_at: u64, from_packet_number: u64, packet_number: u64 },
    AwaitingKeyDelayedAck { packet_number: u64 },
    IntegrityReleaseDelay { release_at: u64, packet_number: u64 },
    AwaitingIntegrityDelayedAck { packet_number: u64 },
    ResetPrefixDelay { release_at: u64, stream_id: u64 },
    AwaitingResetAck { packet_number: u64 },
    AwaitingLeft,
    RetireDelay { release_at: u64 },
    AwaitingRetired,
    Complete,
}

/// A stream that an operation speaks of: the one created last in the same step, or one that is
/// known by its number.
#[derive(Clone, Copy, Debug, PartialEq, Eq, Structural)]
pub enum StreamRef {
    New,
    Known(u64),
}

/// The body of a unicast message.
#[derive(Clone, Copy, Debug)]
pub enum Message {
    Text(&'static str),
    /// The report at the end of a full scenario.
    Complete { acks: u64 },
}

/// One operation of a step.
#[derive(Clone, Copy, Debug)]
pub enum ScenarioOp {
    /// Queue the announcement of the channel.
    SendAnnounce,
    /// Queue a request to join the channel with the first key.
    SendJoin { limits_sequence: u64, state_sequence: u64 },
    /// Queue the channel's first key.
    SendFirstKey,
    /// Queue the channel's second key.
    SendSecondKey { from_packet_number: u64 },
    /// Queue a request to leave the channel.
    SendLeave { state_sequence: u64, after_packet_number: u64 },
    /// Queue the retirement of the channel.
    SendRetire { after_packet_number: u64 },
    /// Create a unidirectional stream.
    CreateStream,
    /// Send the WebTransport prefix on a stream.
    SendPrefix(StreamRef),
    /// Send bytes on a stream.
    SendBytes(StreamRef, &'static str),
    /// Send the WebTransport prefix and a message on the new stream.
    SendMessage(Message),
    /// Finish the new stream.
    CloseMessage,
    /// Let the channel's sender use the second key from its next packet on.
    RotateKey,
    /// Encode a channel packet with the end of a stream.
    WriteStreamPacket { stream: StreamRef, offset: u64, data: &'static str },
    /// Encode a channel packet that resets a stream.
    WriteResetPacket { stream: StreamRef, final_size: u64 },
    /// Queue the integrity record of the packet that was encoded last.
    SendIntegrity,
    /// Send the packet that was encoded last to the channel's group.
    SendPacket,
}

/// What the operations of a step brought about. A number that none of them gave is zero.
#[derive(Clone, Copy, Debug, PartialEq, Eq, Structural)]
pub struct StepOutcome {
    /// The stream that was created last.
    pub stream_id: u64,
    /// The number of the packet that was encoded last.
    pub packet_number: u64,
    /// The first packet for which the second key is used.
    pub from_packet_number: u64,
}

/// Why a scenario failed.
#[derive(Debug)]
pub enum ScenarioError {
    /// The scenario took too long in this phase.
    TimedOut(McquicWebTransportPhase),
    Failed(String),
}

/// What [`McquicWebTransportScenario::begin`] decided.
#[derive(Clone, Copy, Debug, PartialEq, Eq, Structural)]
pub enum Begin {
    /// It is too early to start.
    Wait,
    /// The scenario has to be started first.
    Start,
    /// The scenario is under way.
    Run,
}

/// The state of a channel as the client reports it.
#[derive(Clone, Copy, Debug, PartialEq, Eq, Structural)]
pub enum McquicChannelState {
    DeclinedJoin,
    Joined,
    Left,
    Retired,
}

/// What the client reports.
pub enum Feedback {
    Ack { channel_id: Vec<u8>, largest_acknowledged: u64 },
    State { channel_id: Vec<u8>, state: McquicChannelState, sequence: u64, reason_code: u64 },
    Limits {
        sequence: u64,
        ipv4_channels_allowed: bool,
        ipv6_channels_allowed: bool,
        max_aggregate_rate_kibps: u64,
        max_channel_ids: u64,
        max_joined_count: u64,
    },
    /// Any other frame, as text.
    Other(String),
}

/// The identifier of the scenario's channel.
pub open spec fn channel_id() -> Seq<u8> {
    "mcquic-wt-test".spec_bytes()
}

/// A scenario and how far it has come.
pub struct McquicWebTransportScenario {
    session: u64,
    kind: McquicWebTransportScenarioKind,
    phase: McquicWebTransportPhase,
    start_at: u64,
    started: bool,
    deadline: u64,
    latest_limits_sequence: u64,
    latest_state_sequence: u64,
    latest_packet_number: u64,
    acknowledged_packets: HashSet<u64>,
    ack_frames_seen: u64,
    saw_initial_decline: bool,
    saw_joined: bool,
    saw_left: bool,
    saw_retired: bool,
    saw_zero_limits: bool,
}

/// The contents of a [`McquicWebTransportScenario`].
pub struct ScenarioView {
    pub session: u64,
    pub kind: McquicWebTransportScenarioKind,
    pub phase: McquicWebTransportPhase,
    pub start_at: u64,
    pub started: bool,
    pub deadline: u64,
    pub latest_limits_sequence: u64,
    pub latest_state_sequence: u64,
    pub latest_packet_number: u64,
    pub acknowledged_packets: Set<u64>,
    pub ack_frames_seen: u64,
    pub saw_initial_decline: bool,
    pub saw_joined: bool,
    pub saw_left: bool,
    pub saw_retired: bool,
    pub saw_zero_limits: bool,
}

impl View for McquicWebTransportScenario {
    type V = ScenarioView;

    closed spec fn view(&self) -> ScenarioView {
        ScenarioView {
            session: self.session,
            kind: self.kind,
            phase: self.phase,
            start_at: self.start_at,
            started: self.started,
            deadline: self.deadline,
            latest_limits_sequence: self.latest_limits_sequence,
            latest_state_sequence: self.latest_state_sequence,
            latest_packet_number: self.latest_packet_number,
            acknowledged_packets: self.acknowledged_packets@,
            ack_frames_seen: self.ack_frames_seen,
            saw_initial_decline: self.saw_initial_decline,
            saw_joined: self.saw_joined,
            saw_left: self.saw_left,
            saw_retired: self.saw_retired,
            saw_zero_limits: self.saw_zero_limits,
        }
    }
}

/// A scenario that was just set up.
pub open spec fn fresh(
    session: u64,
    kind: McquicWebTransportScenarioKind,
    now: u64,
) -> ScenarioView {
    ScenarioView {
        session,
        kind,
        phase: McquicWebTransportPhase::AwaitingInitialDecline,
        start_at: (now + MCQUIC_STEP_DELAY) as u64,
        started: false,
        deadline: (now + MCQUIC_SCENARIO_TIMEOUT) as u64,
        latest_limits_sequence: 0,
        latest_state_sequence: 0,
        latest_packet_number: 0,
        acknowledged_packets: Set::empty(),
        ack_frames_seen: 0,
        saw_initial_decline: false,
        saw_joined: false,
        saw_left: false,
        saw_retired: false,
        saw_zero_limits: false,
    }
}

/// How far a phase lies along the scenario.
pub open spec fn rank(phase: McquicWebTransportPhase) -> nat {
    match phase {
        McquicWebTransportPhase::AwaitingInitialDecline => 0,
        McquicWebTransportPhase::AwaitingJoin => 1,
        McquicWebTransportPhase::AwaitingRevocationAck { .. } => 2,
        McquicWebTransportPhase::AwaitingRevocation => 3,
        McquicWebTransportPhase::AwaitingHighStreamAck { .. } => 4,
        McquicWebTransportPhase::AwaitingHighResetAck { .. } => 5,
        McquicWebTransportPhase::BeforePrefixDelay { .. } => 6,
        McquicWebTransportPhase::AwaitingBeforePrefixAck { .. } => 7,
        McquicWebTransportPhase::AwaitingRecoveryAck { .. } => 8,
        McquicWebTransportPhase::KeyReleaseDelay { .. } => 9,
        McquicWebTransportPhase::AwaitingKeyDelayedAck { .. } => 10,
        McquicWebTransportPhase::IntegrityReleaseDelay { .. } => 11,
        McquicWebTransportPhase::AwaitingIntegrityDelayedAck { .. } => 12,
        McquicWebTransportPhase::ResetPrefixDelay { .. } => 13,
        McquicWebTransportPhase::AwaitingResetAck { .. } => 14,
        McquicWebTransportPhase::AwaitingLeft => 15,
        McquicWebTransportPhase::RetireDelay { .. } => 16,
        McquicWebTransportPhase::AwaitingRetired => 17,
        McquicWebTransportPhase::Complete => 18,
    }
}

impl ScenarioView {
    /// What a phase tells of the feedback that the client gave before it.
    pub open spec fn wf(self) -> bool {
        let r = rank(self.phase);
        &&& r >= 1 ==> self.saw_initial_decline
        &&& r >= 2 ==> self.saw_joined
        &&& (r == 2 || r == 3) ==> self.kind == McquicWebTransportScenarioKind::Revocation
        &&& 4 <= r <= 17 ==> self.kind == McquicWebTransportScenarioKind::Full
        &&& 16 <= r <= 17 ==> self.saw_left
        &&& r == 18 ==> self.saw_left
        &&& r == 18 && self.kind == McquicWebTransportScenarioKind::Full ==> self.saw_retired
            && self.ack_frames_seen >= MCQUIC_MIN_ACK_FRAMES
        &&& r == 18 && self.kind == McquicWebTransportScenarioKind::Revocation
            ==> self.saw_zero_limits
    }

    pub open spec fn acknowledged(self, packet_number: u64) -> bool {
        self.acknowledged_packets.contains(packet_number)
    }

    /// Whether what the phase waits for has come.
    pub open spec fn ready(self, now: u64) -> bool {
        match self.phase {
            McquicWebTransportPhase::AwaitingInitialDecline => self.saw_initial_decline,
            McquicWebTransportPhase::AwaitingJoin => self.saw_joined,
            McquicWebTransportPhase::AwaitingRevocationAck { packet_number } => self.acknowledged(
                packet_number,
            ),
            McquicWebTransportPhase::AwaitingRevocation => self.saw_left && self.saw_zero_limits,
            McquicWebTransportPhase::AwaitingHighStreamAck { packet_number } => self.acknowledged(
                packet_number,
            ),
            McquicWebTransportPhase::AwaitingHighResetAck { packet_number } => self.acknowledged(
                packet_number,
            ),
            McquicWebTransportPhase::BeforePrefixDelay { release_at } => now >= release_at,
            McquicWebTransportPhase::AwaitingBeforePrefixAck { stream_id, packet_number } => {
                self.acknowledged(packet_number)
            },
            McquicWebTransportPhase::AwaitingRecoveryAck { stream_id, packet_number } => {
                self.acknowledged(packet_number)
            },
            McquicWebTransportPhase::KeyReleaseDelay {
                release_at,
                from_packet_number,
                packet_number,
            } => now >= release_at,
            McquicWebTransportPhase::AwaitingKeyDelayedAck { packet_number } => self.acknowledged(
                packet_number,
            ),
            McquicWebTransportPhase::IntegrityReleaseDelay { release_at, packet_number } => now
                >= release_at,
            McquicWebTransportPhase::AwaitingIntegrityDelayedAck { packet_number } => {
                self.acknowledged(packet_number)
            },
            McquicWebTransportPhase::ResetPrefixDelay { release_at, stream_id } => now
                >= release_at,
            McquicWebTransportPhase::AwaitingResetAck { packet_number } => self.acknowledged(
                packet_number,
            ),
            McquicWebTransportPhase::AwaitingLeft => self.saw_left,
            McquicWebTransportPhase::RetireDelay { release_at } => now >= release_at,
            McquicWebTransportPhase::AwaitingRetired => self.saw_retired,
            McquicWebTransportPhase::Complete => false,
        }
    }

    /// Whether the client retired the channel with too few acknowledgements.
    pub open spec fn retired_early(self, now: u64) -> bool {
        self.phase == McquicWebTransportPhase::AwaitingRetired && self.saw_retired
            && self.ack_frames_seen < MCQUIC_MIN_ACK_FRAMES
    }

    /// The operations that the phase asks for.
    pub open spec fn operations(self) -> Seq<ScenarioOp> {
        match self.phase {
            McquicWebTransportPhase::AwaitingInitialDecline => message_ops(
                Message::Text("unicast-fallback-before-join"),
            ) + seq![
                ScenarioOp::SendFirstKey,
                ScenarioOp::SendJoin {
                    limits_sequence: self.latest_limits_sequence,
                    state_sequence: self.latest_state_sequence,
                },
            ],
            McquicWebTransportPhase::AwaitingJoin => match self.kind {
                McquicWebTransportScenarioKind::Revocation => prefixed_stream_ops() + packet_ops(
                    ScenarioOp::WriteStreamPacket {
                        stream: StreamRef::New,
                        offset: MCQUIC_STREAM_BODY_OFFSET,
                        data: "multicast-before-revocation",
                    },
                ),
                McquicWebTransportScenarioKind::Full => packet_ops(
                    ScenarioOp::WriteStreamPacket {
                        stream: StreamRef::Known(MCQUIC_LATE_JOIN_STREAM_ID),
                        offset: MCQUIC_STREAM_BODY_OFFSET,
                        data: "sparse-high-stream",
                    },
                ),
            },
            McquicWebTransportPhase::AwaitingRevocation => message_ops(
                Message::Text("unicast-fallback-after-revocation"),
            ),
            McquicWebTransportPhase::AwaitingHighStreamAck { .. } => packet_ops(
                ScenarioOp::WriteResetPacket {
                    stream: StreamRef::Known(MCQUIC_LATE_JOIN_RESET_STREAM_ID),
                    final_size: 0,
                },
            ),
            McquicWebTransportPhase::BeforePrefixDelay { .. } => seq![ScenarioOp::CreateStream]
                + packet_ops(
                ScenarioOp::WriteStreamPacket {
                    stream: StreamRef::New,
                    offset: MCQUIC_STREAM_BODY_OFFSET,
                    data: "multicast-before-prefix",
                },
            ),
            McquicWebTransportPhase::AwaitingBeforePrefixAck { stream_id, .. } => seq![
                ScenarioOp::SendPrefix(StreamRef::Known(stream_id)),
            ] + prefixed_stream_ops() + packet_ops(
                ScenarioOp::WriteStreamPacket {
                    stream: StreamRef::New,
                    offset: (MCQUIC_STREAM_BODY_OFFSET + "lost-".spec_bytes().len()) as u64,
                    data: "tail",
                },
            ),
            McquicWebTransportPhase::AwaitingRecoveryAck { stream_id, .. } => seq![
                ScenarioOp::SendBytes(StreamRef::Known(stream_id), "lost-"),
                ScenarioOp::RotateKey,
            ] + prefixed_stream_ops() + packet_ops(
                ScenarioOp::WriteStreamPacket {
                    stream: StreamRef::New,
                    offset: MCQUIC_STREAM_BODY_OFFSET,
                    data: "multicast-key-delayed",
                },
            ),
            McquicWebTransportPhase::KeyReleaseDelay { from_packet_number, .. } => seq![
                ScenarioOp::SendSecondKey { from_packet_number },
            ],
            McquicWebTransportPhase::AwaitingKeyDelayedAck { .. } => prefixed_stream_ops() + seq![
                ScenarioOp::WriteStreamPacket {
                    stream: StreamRef::New,
                    offset: MCQUIC_STREAM_BODY_OFFSET,
                    data: "multicast-integrity-delayed",
                },
                ScenarioOp::SendPacket,
            ],
            McquicWebTransportPhase::IntegrityReleaseDelay { .. } => seq![
                ScenarioOp::SendIntegrity,
            ],
            McquicWebTransportPhase::AwaitingIntegrityDelayedAck { .. } => prefixed_stream_ops(),
            McquicWebTransportPhase::ResetPrefixDelay { stream_id, .. } => packet_ops(
                ScenarioOp::WriteResetPacket {
                    stream: StreamRef::Known(stream_id),
                    final_size: MCQUIC_STREAM_BODY_OFFSET,
                },
            ),
            McquicWebTransportPhase::AwaitingResetAck { .. } => seq![
                ScenarioOp::SendLeave {
                    state_sequence: self.latest_state_sequence,
                    after_packet_number: self.latest_packet_number,
                },
            ],
            McquicWebTransportPhase::AwaitingLeft => message_ops(
                Message::Text("unicast-fallback-after-leave"),
            ),
            McquicWebTransportPhase::RetireDelay { .. } => seq![
                ScenarioOp::SendRetire { after_packet_number: self.latest_packet_number },
            ],
            McquicWebTransportPhase::AwaitingRetired => message_ops(
                Message::Complete { acks: self.ack_frames_seen },
            ),
            _ => Seq::empty(),
        }
    }

    /// The phase that follows, given what the operations brought about.
    pub open spec fn next_phase(self, now: u64, outcome: StepOutcome) -> McquicWebTransportPhase {
        let packet_number = outcome.packet_number;
        let stream_id = outcome.stream_id;
        let release_at = (now + MCQUIC_STEP_DELAY) as u64;
        match self.phase {
            McquicWebTransportPhase::AwaitingInitialDecline => {
                McquicWebTransportPhase::AwaitingJoin
            },
            McquicWebTransportPhase::AwaitingJoin => match self.kind {
                McquicWebTransportScenarioKind::Revocation => {
                    McquicWebTransportPhase::AwaitingRevocationAck { packet_number }
                },
                McquicWebTransportScenarioKind::Full => {
                    McquicWebTransportPhase::AwaitingHighStreamAck { packet_number }
                },
            },
            McquicWebTransportPhase::AwaitingRevocationAck { .. } => {
                McquicWebTransportPhase::AwaitingRevocation
            },
            McquicWebTransportPhase::AwaitingRevocation => McquicWebTransportPhase::Complete,
            McquicWebTransportPhase::AwaitingHighStreamAck { .. } => {
                McquicWebTransportPhase::AwaitingHighResetAck { packet_number }
            },
            McquicWebTransportPhase::AwaitingHighResetAck { .. } => {
                McquicWebTransportPhase::BeforePrefixDelay { release_at }
            },
            McquicWebTransportPhase::BeforePrefixDelay { .. } => {
                McquicWebTransportPhase::AwaitingBeforePrefixAck { stream_id, packet_number }
            },
            McquicWebTransportPhase::AwaitingBeforePrefixAck { .. } => {
                McquicWebTransportPhase::AwaitingRecoveryAck { stream_id, packet_number }
            },
            McquicWebTransportPhase::AwaitingRecoveryAck { .. } => {
                McquicWebTransportPhase::KeyReleaseDelay {
                    release_at,
                    from_packet_number: outcome.from_packet_number,
                    packet_number,
                }
            },
            McquicWebTransportPhase::KeyReleaseDelay { packet_number, .. } => {
                McquicWebTransportPhase::AwaitingKeyDelayedAck { packet_number }
            },
            McquicWebTransportPhase::AwaitingKeyDelayedAck { .. } => {
                McquicWebTransportPhase::IntegrityReleaseDelay { release_at, packet_number }
            },
            McquicWebTransportPhase::IntegrityReleaseDelay { packet_number, .. } => {
                McquicWebTransportPhase::AwaitingIntegrityDelayedAck { packet_number }
            },
            McquicWebTransportPhase::AwaitingIntegrityDelayedAck { .. } => {
                McquicWebTransportPhase::ResetPrefixDelay { release_at, stream_id }
            },
            McquicWebTransportPhase::ResetPrefixDelay { .. } => {
                McquicWebTransportPhase::AwaitingResetAck { packet_number }
            },
            McquicWebTransportPhase::AwaitingResetAck { .. } => {
                McquicWebTransportPhase::AwaitingLeft
            },
            McquicWebTransportPhase::AwaitingLeft => {
                McquicWebTransportPhase::RetireDelay { release_at }
            },
            McquicWebTransportPhase::RetireDelay { .. } => McquicWebTransportPhase::AwaitingRetired,
            McquicWebTransportPhase::AwaitingRetired => McquicWebTransportPhase::Complete,
            McquicWebTransportPhase::Complete => McquicWebTransportPhase::Complete,
        }
    }

    /// Whether the phase that follows waits for a time.
    pub open spec fn sets_delay(self) -> bool {
        match self.phase {
            McquicWebTransportPhase::AwaitingHighResetAck { .. } => true,
            McquicWebTransportPhase::AwaitingRecoveryAck { .. } => true,
            McquicWebTransportPhase::AwaitingKeyDelayedAck { .. } => true,
            McquicWebTransportPhase::AwaitingIntegrityDelayedAck { .. } => true,
            McquicWebTransportPhase::AwaitingLeft => true,
            _ => false,
        }
    }

    /// Whether a packet is sent in the phase.
    pub open spec fn sends_packet(self) -> bool {
        match self.phase {
            McquicWebTransportPhase::AwaitingJoin => true,
            McquicWebTransportPhase::AwaitingHighStreamAck { .. } => true,
            McquicWebTransportPhase::BeforePrefixDelay { .. } => true,
            McquicWebTransportPhase::AwaitingBeforePrefixAck { .. } => true,
            McquicWebTransportPhase::AwaitingRecoveryAck { .. } => true,
            McquicWebTransportPhase::AwaitingKeyDelayedAck { .. } => true,
            McquicWebTransportPhase::ResetPrefixDelay { .. } => true,
            _ => false,
        }
    }

    /// The scenario once the operations of the phase are done.
    pub open spec fn after_step(self, now: u64, outcome: StepOutcome) -> ScenarioView {
        ScenarioView {
            phase: self.next_phase(now, outcome),
            latest_packet_number: if self.sends_packet() {
                outcome.packet_number
            } else {
                self.latest_packet_number
            },
            ..self
        }
    }

    /// Whether the next phase is looked at without a pause.
    pub open spec fn goes_on(self) -> bool {
        self.phase == McquicWebTransportPhase::AwaitingInitialDecline || self.phase
            is AwaitingRevocationAck
    }

    /// The scenario once it took in an acknowledgement.
    pub open spec fn after_ack(self, largest_acknowledged: u64) -> ScenarioView {
        ScenarioView {
            acknowledged_packets: self.acknowledged_packets.insert(largest_acknowledged),
            ack_frames_seen: (self.ack_frames_seen + 1) as u64,
            ..self
        }
    }

    /// The scenario once it took in a channel state.
    pub open spec fn after_state(self, state: McquicChannelState, sequence: u64) -> ScenarioView {
        let latest_state_sequence = if sequence > self.latest_state_sequence {
            sequence
        } else {
            self.latest_state_sequence
        };
        match state {
            McquicChannelState::DeclinedJoin => ScenarioView {
                latest_state_sequence,
                saw_initial_decline: true,
                ..self
            },
            McquicChannelState::Joined => ScenarioView {
                latest_state_sequence,
                saw_joined: true,
                ..self
            },
            McquicChannelState::Left => ScenarioView {
                latest_state_sequence,
                saw_left: true,
                ..self
            },
            McquicChannelState::Retired => ScenarioView {
                latest_state_sequence,
                saw_retired: true,
                ..self
            },
        }
    }

    /// The scenario once a channel state failed it: a state of the scenario's channel is still
    /// counted.
    pub open spec fn after_bad_state(self, named_channel: bool, sequence: u64) -> ScenarioView {
        ScenarioView {
            latest_state_sequence: if named_channel && sequence > self.latest_state_sequence {
                sequence
            } else {
                self.latest_state_sequence
            },
            ..self
        }
    }

    /// The scenario once it took in limits, which may be zero.
    pub open spec fn after_limits(self, sequence: u64, zero: bool) -> ScenarioView {
        ScenarioView {
            latest_limits_sequence: if sequence > self.latest_limits_sequence {
                sequence
            } else {
                self.latest_limits_sequence
            },
            saw_zero_limits: self.saw_zero_limits || zero,
            ..self
        }
    }

    /// Whether nothing that was seen before is forgotten, and the scenario is the same.
    pub open spec fn remembers(self, before: ScenarioView) -> bool {
        &&& self.session == before.session && self.kind == before.kind && self.deadline
            == before.deadline
        &&& before.acknowledged_packets.subset_of(self.acknowledged_packets)
        &&& before.ack_frames_seen <= self.ack_frames_seen
        &&& before.latest_limits_sequence <= self.latest_limits_sequence
        &&& before.latest_state_sequence <= self.latest_state_sequence
        &&& before.saw_initial_decline ==> self.saw_initial_decline
        &&& before.saw_joined ==> self.saw_joined
        &&& before.saw_left ==> self.saw_left
        &&& before.saw_retired ==> self.saw_retired
        &&& before.saw_zero_limits ==> self.saw_zero_limits
    }

    /// Why a channel state fails the scenario, where it does.
    pub open spec fn state_error(self, state: McquicChannelState, reason_code: u64) -> Option<
        Seq<char>,
    > {
        let initial = self.phase == McquicWebTransportPhase::AwaitingInitialDecline;
        if state == McquicChannelState::DeclinedJoin && !initial {
            Some(
                "client unexpectedly declined MCQUIC join after key installation: reason "@
                    + decimal(reason_code as nat),
            )
        } else if state == McquicChannelState::Joined && initial {
            Some("client joined before declining the intentionally unsynchronized join"@)
        } else {
            None
        }
    }
}

/// The operations that send a message on a stream of its own.
pub open spec fn message_ops(message: Message) -> Seq<ScenarioOp> {
    seq![ScenarioOp::CreateStream, ScenarioOp::SendMessage(message), ScenarioOp::CloseMessage]
}

/// The operations that open a stream with the WebTransport prefix.
pub open spec fn prefixed_stream_ops() -> Seq<ScenarioOp> {
    seq![ScenarioOp::CreateStream, ScenarioOp::SendPrefix(StreamRef::New)]
}

/// The operations that send a packet on the channel after its integrity record.
pub open spec fn packet_ops(write: ScenarioOp) -> Seq<ScenarioOp> {
    seq![write, ScenarioOp::SendIntegrity, ScenarioOp::SendPacket]
}

/// The operations with which a scenario starts.
pub open spec fn start_ops() -> Seq<ScenarioOp> {
    seq![
        ScenarioOp::SendAnnounce,
        ScenarioOp::SendJoin { limits_sequence: 0, state_sequence: 0 },
    ]
}

fn push_message(ops: &mut Vec<ScenarioOp>, message: Message)
    ensures
        final(ops)@ == old(ops)@ + message_ops(message),
{
    ops.push(ScenarioOp::CreateStream);
    ops.push(ScenarioOp::SendMessage(message));
    ops.push(ScenarioOp::CloseMessage);
    assert(ops@ =~= old(ops)@ + message_ops(message));
}

fn push_prefixed_stream(ops: &mut Vec<ScenarioOp>)
    ensures
        final(ops)@ == old(ops)@ + prefixed_stream_ops(),
{
    ops.push(ScenarioOp::CreateStream);
    ops.push(ScenarioOp::SendPrefix(StreamRef::New));
    assert(ops@ =~= old(ops)@ + prefixed_stream_ops());
}

fn push_packet(ops: &mut Vec<ScenarioOp>, write: ScenarioOp)
    ensures
        final(ops)@ == old(ops)@ + packet_ops(write),
{
    ops.push(write);
    ops.push(ScenarioOp::SendIntegrity);
    ops.push(ScenarioOp::SendPacket);
    assert(ops@ =~= old(ops)@ + packet_ops(write));
}

impl StepOutcome {
    /// The outcome of no operation.
    pub fn new() -> (outcome: Self)
        ensures
            outcome == (StepOutcome { stream_id: 0, packet_number: 0, from_packet_number: 0 }),
    {
        StepOutcome { stream_id: 0, packet_number: 0, from_packet_number: 0 }
    }

    /// The number of the stream that an operation speaks of.
    pub fn resolve(&self, stream: StreamRef) -> (stream_id: u64)
        ensures
            stream_id == (match stream {
                StreamRef::New => self.stream_id,
                StreamRef::Known(id) => id,
            }),
    {
        match stream {
            StreamRef::New => self.stream_id,
            StreamRef::Known(id) => id,
        }
    }
}

/// The text of a failure, as a scenario error.
fn failed(text: &str) -> (error: ScenarioError)
    ensures
        error matches ScenarioError::Failed(t) && t@ == text@,
{
    ScenarioError::Failed(text.to_owned())
}

/// The text of a failure that ends in a number.
fn failed_with_number(text: &str, n: u64, end: &str) -> (error: ScenarioError)
    ensures
        error matches ScenarioError::Failed(t) && t@ == text@ + decimal(n as nat) + end@,
{
    let mut out = text.to_owned();
    push_decimal(&mut out, n);
    out.append(end);
    ScenarioError::Failed(out)
}

/// Whether an error has this text.
pub open spec fn fails_with(error: ScenarioError, text: Seq<char>) -> bool {
    error matches ScenarioError::Failed(t) && t@ == text
}

impl McquicWebTransportScenario {
    /// A full scenario for a session.
    pub fn new(session: u64, now: u64) -> (scenario: Self)
        requires
            now + MCQUIC_SCENARIO_TIMEOUT <= u64::MAX,
        ensures
            scenario@ == fresh(session, McquicWebTransportScenarioKind::Full, now),
            scenario@.wf(),
    {
        Self::new_with_kind(session, now, McquicWebTransportScenarioKind::Full)
    }

    /// A scenario in which the client withdraws its permission.
    pub fn new_revocation(session: u64, now: u64) -> (scenario: Self)
        requires
            now + MCQUIC_SCENARIO_TIMEOUT <= u64::MAX,
        ensures
            scenario@ == fresh(session, McquicWebTransportScenarioKind::Revocation, now),
            scenario@.wf(),
    {
        Self::new_with_kind(session, now, McquicWebTransportScenarioKind::Revocation)
    }

    pub fn new_with_kind(
        session: u64,
        now: u64,
        kind: McquicWebTransportScenarioKind,
    ) -> (scenario: Self)
        requires
            now + MCQUIC_SCENARIO_TIMEOUT <= u64::MAX,
        ensures
            scenario@ == fresh(session, kind, now),
            scenario@.wf(),
    {
        McquicWebTransportScenario {
            session,
            kind,
            phase: McquicWebTransportPhase::AwaitingInitialDecline,
            start_at: now + MCQUIC_STEP_DELAY,
            started: false,
            deadline: now + MCQUIC_SCENARIO_TIMEOUT,
            latest_limits_sequence: 0,
            latest_state_sequence: 0,
            latest_packet_number: 0,
            acknowledged_packets: HashSet::new(),
            ack_frames_seen: 0,
            saw_initial_decline: false,
            saw_joined: false,
            saw_left: false,
            saw_retired: false,
            saw_zero_limits: false,
        }
    }

    /// The session that the scenario is played with.
    pub fn session(&self) -> (session: u64)
        ensures
            session == self@.session,
    {
        self.session
    }

    /// What is to be done first at time `now`.
    pub fn begin(&self, now: u64) -> (begin: Result<Begin, ScenarioError>)
        ensures
            begin is Err <==> now >= self@.deadline,
            begin matches Err(e) ==> e == ScenarioError::TimedOut(self@.phase),
            begin matches Ok(b) ==> b == (if self@.started {
                Begin::Run
            } else if now < self@.start_at {
                Begin::Wait
            } else {
                Begin::Start
            }),
    {
        if now >= self.deadline {
            return Err(ScenarioError::TimedOut(self.phase));
        }
        if self.started {
            Ok(Begin::Run)
        } else if now < self.start_at {
            Ok(Begin::Wait)
        } else {
            Ok(Begin::Start)
        }
    }

    /// The operations with which the scenario starts, where the client knows of multicast.
    pub fn start(&self, has_client_parameters: bool) -> (ops: Result<
        Vec<ScenarioOp>,
        ScenarioError,
    >)
        ensures
            ops is Ok <==> has_client_parameters,
            ops matches Ok(o) ==> o@ == start_ops(),
            ops matches Err(e) ==> fails_with(
                e,
                "client did not advertise generic MCQUIC transport parameters"@,
            ),
    {
        if !has_client_parameters {
            return Err(failed("client did not advertise generic MCQUIC transport parameters"));
        }
        let mut ops: Vec<ScenarioOp> = Vec::new();
        ops.push(ScenarioOp::SendAnnounce);
        ops.push(ScenarioOp::SendJoin { limits_sequence: 0, state_sequence: 0 });
        assert(ops@ =~= start_ops());
        Ok(ops)
    }

    /// Notes that the operations with which the scenario starts are done.
    pub fn mark_started(&mut self)
        requires
            old(self)@.wf(),
        ensures
            final(self)@ == (ScenarioView { started: true, ..old(self)@ }),
            final(self)@.wf(),
    {
        self.started = true;
    }

    /// Takes in an acknowledgement.
    fn on_ack(&mut self, channel: &[u8], largest_acknowledged: u64) -> (done: Result<
        (),
        ScenarioError,
    >)
        requires
            old(self)@.wf(),
            old(self)@.ack_frames_seen < u64::MAX,
        ensures
            final(self)@.wf(),
            done is Ok <==> channel@ == channel_id(),
            done is Ok ==> final(self)@ == old(self)@.after_ack(largest_acknowledged),
            done matches Err(e) ==> *final(self) == *old(self) && fails_with(
                e,
                "client ACK named an unexpected MCQUIC channel"@,
            ),
    {
        if !crate::bytes::is_text(channel, "mcquic-wt-test") {
            return Err(failed("client ACK named an unexpected MCQUIC channel"));
        }
        self.acknowledged_packets.insert(largest_acknowledged);
        self.ack_frames_seen = self.ack_frames_seen + 1;
        Ok(())
    }

    /// Takes in a channel state.
    fn on_state(
        &mut self,
        channel: &[u8],
        state: McquicChannelState,
        sequence: u64,
        reason_code: u64,
    ) -> (done: Result<(), ScenarioError>)
        requires
            old(self)@.wf(),
        ensures
            final(self)@.wf(),
            done is Ok <==> channel@ == channel_id() && old(self)@.state_error(state, reason_code)
                is None,
            done is Ok ==> final(self)@ == old(self)@.after_state(state, sequence),
            done is Err ==> final(self)@ == old(self)@.after_bad_state(
                channel@ == channel_id(),
                sequence,
            ),
            done matches Err(e) ==> fails_with(
                e,
                if channel@ != channel_id() {
                    "client state named an unexpected MCQUIC channel"@
                } else {
                    old(self)@.state_error(state, reason_code)->0
                },
            ),
    {
        if !crate::bytes::is_text(channel, "mcquic-wt-test") {
            return Err(failed("client state named an unexpected MCQUIC channel"));
        }
        if sequence > self.latest_state_sequence {
            self.latest_state_sequence = sequence;
        }
        let initial = self.phase == McquicWebTransportPhase::AwaitingInitialDecline;
        match state {
            McquicChannelState::DeclinedJoin => {
                if !initial {
                    proof {
                        reveal_strlit("");
                    }
                    let error = failed_with_number(
                        "client unexpectedly declined MCQUIC join after key installation: reason ",
                        reason_code,
                        "",
                    );
                    assert(fails_with(error, old(self)@.state_error(state, reason_code)->0)) by {
                        assert(("client unexpectedly declined MCQUIC join after key installation: reason "@
                            + decimal(reason_code as nat) + ""@)
                            =~= "client unexpectedly declined MCQUIC join after key installation: reason "@
                            + decimal(reason_code as nat));
                    }
                    return Err(error);
                }
                self.saw_initial_decline = true;
            },
            McquicChannelState::Joined => {
                if initial {
                    return Err(
                        failed(
                            "client joined before declining the intentionally unsynchronized join",
                        ),
                    );
                }
                self.saw_joined = true;
            },
            McquicChannelState::Left => {
                self.saw_left = true;
            },
            McquicChannelState::Retired => {
                self.saw_retired = true;
            },
        }
        Ok(())
    }

    /// Takes in what the client reports. A failure ends the scenario.
    pub fn feedback(&mut self, feedback: &Feedback) -> (done: Result<(), ScenarioError>)
        requires
            old(self)@.wf(),
            old(self)@.ack_frames_seen < u64::MAX,
        ensures
            final(self)@.wf(),
            final(self)@.phase == old(self)@.phase,
            match *feedback {
                Feedback::Ack { channel_id: channel, largest_acknowledged } => {
                    &&& done is Ok <==> channel@ == channel_id()
                    &&& done is Ok ==> final(self)@ == old(self)@.after_ack(largest_acknowledged)
                    &&& done is Err ==> final(self)@ == old(self)@
                    &&& done matches Err(e) ==> fails_with(
                        e,
                        "client ACK named an unexpected MCQUIC channel"@,
                    )
                },
                Feedback::State { channel_id: channel, state, sequence, reason_code } => {
                    &&& done is Ok <==> channel@ == channel_id() && old(self)@.state_error(
                        state,
                        reason_code,
                    ) is None
                    &&& done is Ok ==> final(self)@ == old(self)@.after_state(state, sequence)
                    &&& done is Err ==> final(self)@ == old(self)@.after_bad_state(
                        channel@ == channel_id(),
                        sequence,
                    )
                    &&& done matches Err(e) ==> fails_with(
                        e,
                        if channel@ != channel_id() {
                            "client state named an unexpected MCQUIC channel"@
                        } else {
                            old(self)@.state_error(state, reason_code)->0
                        },
                    )
                },
                Feedback::Limits {
                    sequence,
                    ipv4_channels_allowed,
                    ipv6_channels_allowed,
                    max_aggregate_rate_kibps,
                    max_channel_ids,
                    max_joined_count,
                } => {
                    let zero = !ipv4_channels_allowed && !ipv6_channels_allowed
                        && max_aggregate_rate_kibps == 0 && max_channel_ids == 0
                        && max_joined_count == 0;
                    &&& done is Ok
                    &&& final(self)@ == old(self)@.after_limits(sequence, zero)
                },
                Feedback::Other(text) => {
                    &&& final(self)@ == old(self)@
                    &&& done matches Err(e)
                    &&& fails_with(e, "unexpected client MCQUIC feedback frame: "@ + text@)
                },
            },
    {
        match feedback {
            Feedback::Ack { channel_id, largest_acknowledged } => {
                self.on_ack(channel_id.as_slice(), *largest_acknowledged)
            },
            Feedback::State { channel_id, state, sequence, reason_code } => {
                self.on_state(channel_id.as_slice(), *state, *sequence, *reason_code)
            },
            Feedback::Limits {
                sequence,
                ipv4_channels_allowed,
                ipv6_channels_allowed,
                max_aggregate_rate_kibps,
                max_channel_ids,
                max_joined_count,
            } => {
                if *sequence > self.latest_limits_sequence {
                    self.latest_limits_sequence = *sequence;
                }
                if !*ipv4_channels_allowed && !*ipv6_channels_allowed && *max_aggregate_rate_kibps
                    == 0 && *max_channel_ids == 0 && *max_joined_count == 0 {
                    self.saw_zero_limits = true;
                }
                Ok(())
            },
            Feedback::Other(text) => {
                let mut out = "unexpected client MCQUIC feedback frame: ".to_owned();
                out.append(text.as_str());
                Err(ScenarioError::Failed(out))
            },
        }
    }

    /// What there is to say where feedback was announced and none came.
    pub fn missing_feedback() -> (error: ScenarioError)
        ensures
            fails_with(error, "MCQUIC feedback was readable but no frame was returned"@),
    {
        failed("MCQUIC feedback was readable but no frame was returned")
    }

    pub fn acknowledged(&self, packet_number: u64) -> (acknowledged: bool)
        ensures
            acknowledged == self@.acknowledged(packet_number),
    {
        self.acknowledged_packets.contains(&packet_number)
    }

    /// Whether what the phase waits for has come.
    fn is_ready(&self, now: u64) -> (ready: bool)
        ensures
            ready == self@.ready(now),
    {
        match self.phase {
            McquicWebTransportPhase::AwaitingInitialDecline => self.saw_initial_decline,
            McquicWebTransportPhase::AwaitingJoin => self.saw_joined,
            McquicWebTransportPhase::AwaitingRevocationAck { packet_number } => self.acknowledged(
                packet_number,
            ),
            McquicWebTransportPhase::AwaitingRevocation => self.saw_left && self.saw_zero_limits,
            McquicWebTransportPhase::AwaitingHighStreamAck { packet_number } => self.acknowledged(
                packet_number,
            ),
            McquicWebTransportPhase::AwaitingHighResetAck { packet_number } => self.acknowledged(
                packet_number,
            ),
            McquicWebTransportPhase::BeforePrefixDelay { release_at } => now >= release_at,
            McquicWebTransportPhase::AwaitingBeforePrefixAck { packet_number, .. } => {
                self.acknowledged(packet_number)
            },
            McquicWebTransportPhase::AwaitingRecoveryAck { packet_number, .. } => {
                self.acknowledged(packet_number)
            },
            McquicWebTransportPhase::KeyReleaseDelay { release_at, .. } => now >= release_at,
            McquicWebTransportPhase::AwaitingKeyDelayedAck { packet_number } => self.acknowledged(
                packet_number,
            ),
            McquicWebTransportPhase::IntegrityReleaseDelay { release_at, .. } => now >= release_at,
            McquicWebTransportPhase::AwaitingIntegrityDelayedAck { packet_number } => {
                self.acknowledged(packet_number)
            },
            McquicWebTransportPhase::ResetPrefixDelay { release_at, .. } => now >= release_at,
            McquicWebTransportPhase::AwaitingResetAck { packet_number } => self.acknowledged(
                packet_number,
            ),
            McquicWebTransportPhase::AwaitingLeft => self.saw_left,
            McquicWebTransportPhase::RetireDelay { release_at } => now >= release_at,
            McquicWebTransportPhase::AwaitingRetired => self.saw_retired,
            McquicWebTransportPhase::Complete => false,
        }
    }

    /// The operations that the phase asks for.
    fn phase_operations(&self) -> (ops: Vec<ScenarioOp>)
        ensures
            ops@ == self@.operations(),
    {
        let mut ops: Vec<ScenarioOp> = Vec::new();
        match self.phase {
            McquicWebTransportPhase::AwaitingInitialDecline => {
                push_message(&mut ops, Message::Text("unicast-fallback-before-join"));
                ops.push(ScenarioOp::SendFirstKey);
                ops.push(
                    ScenarioOp::SendJoin {
                        limits_sequence: self.latest_limits_sequence,
                        state_sequence: self.latest_state_sequence,
                    },
                );
            },
            McquicWebTransportPhase::AwaitingJoin => {
                if self.kind == McquicWebTransportScenarioKind::Revocation {
                    push_prefixed_stream(&mut ops);
                    push_packet(
                        &mut ops,
                        ScenarioOp::WriteStreamPacket {
                            stream: StreamRef::New,
                            offset: MCQUIC_STREAM_BODY_OFFSET,
                            data: "multicast-before-revocation",
                        },
                    );
                } else {
                    push_packet(
                        &mut ops,
                        ScenarioOp::WriteStreamPacket {
                            stream: StreamRef::Known(MCQUIC_LATE_JOIN_STREAM_ID),
                            offset: MCQUIC_STREAM_BODY_OFFSET,
                            data: "sparse-high-stream",
                        },
                    );
                }
            },
            McquicWebTransportPhase::AwaitingRevocation => {
                push_message(&mut ops, Message::Text("unicast-fallback-after-revocation"));
            },
            McquicWebTransportPhase::AwaitingHighStreamAck { .. } => {
                push_packet(
                    &mut ops,
                    ScenarioOp::WriteResetPacket {
                        stream: StreamRef::Known(MCQUIC_LATE_JOIN_RESET_STREAM_ID),
                        final_size: 0,
                    },
                );
            },
            McquicWebTransportPhase::BeforePrefixDelay { .. } => {
                ops.push(ScenarioOp::CreateStream);
                push_packet(
                    &mut ops,
                    ScenarioOp::WriteStreamPacket {
                        stream: StreamRef::New,
                        offset: MCQUIC_STREAM_BODY_OFFSET,
                        data: "multicast-before-prefix",
                    },
                );
            },
            McquicWebTransportPhase::AwaitingBeforePrefixAck { stream_id, .. } => {
                proof {
                    reveal_strlit("lost-");
                    vstd::string::is_ascii_spec_bytes("lost-");
                }
                let missing: usize = "lost-".as_bytes().len();
                ops.push(ScenarioOp::SendPrefix(StreamRef::Known(stream_id)));
                push_prefixed_stream(&mut ops);
                push_packet(
                    &mut ops,
                    ScenarioOp::WriteStreamPacket {
                        stream: StreamRef::New,
                        offset: MCQUIC_STREAM_BODY_OFFSET + missing as u64,
                        data: "tail",
                    },
                );
            },
            McquicWebTransportPhase::AwaitingRecoveryAck { stream_id, .. } => {
                ops.push(ScenarioOp::SendBytes(StreamRef::Known(stream_id), "lost-"));
                ops.push(ScenarioOp::RotateKey);
                push_prefixed_stream(&mut ops);
                push_packet(
                    &mut ops,
                    ScenarioOp::WriteStreamPacket {
                        stream: StreamRef::New,
                        offset: MCQUIC_STREAM_BODY_OFFSET,
                        data: "multicast-key-delayed",
                    },
                );
            },
            McquicWebTransportPhase::KeyReleaseDelay { from_packet_number, .. } => {
                ops.push(ScenarioOp::SendSecondKey { from_packet_number });
            },
            McquicWebTransportPhase::AwaitingKeyDelayedAck { .. } => {
                push_prefixed_stream(&mut ops);
                ops.push(
                    ScenarioOp::WriteStreamPacket {
                        stream: StreamRef::New,
                        offset: MCQUIC_STREAM_BODY_OFFSET,
                        data: "multicast-integrity-delayed",
                    },
                );
                ops.push(ScenarioOp::SendPacket);
            },
            McquicWebTransportPhase::IntegrityReleaseDelay { .. } => {
                ops.push(ScenarioOp::SendIntegrity);
            },
            McquicWebTransportPhase::AwaitingIntegrityDelayedAck { .. } => {
                push_prefixed_stream(&mut ops);
            },
            McquicWebTransportPhase::ResetPrefixDelay { stream_id, .. } => {
                push_packet(
                    &mut ops,
                    ScenarioOp::WriteResetPacket {
                        stream: StreamRef::Known(stream_id),
                        final_size: MCQUIC_STREAM_BODY_OFFSET,
                    },
                );
            },
            McquicWebTransportPhase::AwaitingResetAck { .. } => {
                ops.push(
                    ScenarioOp::SendLeave {
                        state_sequence: self.latest_state_sequence,
                        after_packet_number: self.latest_packet_number,
                    },
                );
            },
            McquicWebTransportPhase::AwaitingLeft => {
                push_message(&mut ops, Message::Text("unicast-fallback-after-leave"));
            },
            McquicWebTransportPhase::RetireDelay { .. } => {
                ops.push(
                    ScenarioOp::SendRetire { after_packet_number: self.latest_packet_number },
                );
            },
            McquicWebTransportPhase::AwaitingRetired => {
                push_message(&mut ops, Message::Complete { acks: self.ack_frames_seen });
            },
            _ => {},
        }
        assert(ops@ =~= self@.operations());
        ops
    }

    /// The operations that are due at time `now`; none where the phase still waits.
    pub fn advance(&self, now: u64) -> (ops: Result<Option<Vec<ScenarioOp>>, ScenarioError>)
        ensures
            ops is Err <==> self@.retired_early(now),
            ops matches Err(e) ==> fails_with(
                e,
                "client retired after only "@ + decimal(self@.ack_frames_seen as nat)
                    + " MC_ACK frames"@,
            ),
            ops matches Ok(o) ==> {
                &&& o is Some <==> self@.ready(now)
                &&& o matches Some(list) ==> list@ == self@.operations()
            },
    {
        if !self.is_ready(now) {
            return Ok(None);
        }
        if self.phase == McquicWebTransportPhase::AwaitingRetired && self.ack_frames_seen
            < MCQUIC_MIN_ACK_FRAMES {
            return Err(
                failed_with_number(
                    "client retired after only ",
                    self.ack_frames_seen,
                    " MC_ACK frames",
                ),
            );
        }
        Ok(Some(self.phase_operations()))
    }

    /// Goes on to the next phase once the operations that were due are done, and tells whether
    /// it is to be looked at right away.
    pub fn finish_step(&mut self, now: u64, outcome: StepOutcome) -> (go_on: bool)
        requires
            old(self)@.wf(),
            old(self)@.ready(now),
            !old(self)@.retired_early(now),
            old(self)@.sets_delay() ==> now + MCQUIC_STEP_DELAY <= u64::MAX,
        ensures
            final(self)@ == old(self)@.after_step(now, outcome),
            final(self)@.wf(),
            go_on == old(self)@.goes_on(),
    {
        let packet_number: u64 = outcome.packet_number;
        let stream_id: u64 = outcome.stream_id;
        let mut go_on = false;
        match self.phase {
            McquicWebTransportPhase::AwaitingInitialDecline => {
                self.phase = McquicWebTransportPhase::AwaitingJoin;
                go_on = true;
            },
            McquicWebTransportPhase::AwaitingJoin => {
                self.latest_packet_number = packet_number;
                if self.kind == McquicWebTransportScenarioKind::Revocation {
                    self.phase = McquicWebTransportPhase::AwaitingRevocationAck { packet_number };
                } else {
                    self.phase = McquicWebTransportPhase::AwaitingHighStreamAck { packet_number };
                }
            },
            McquicWebTransportPhase::AwaitingRevocationAck { .. } => {
                self.phase = McquicWebTransportPhase::AwaitingRevocation;
                go_on = true;
            },
            McquicWebTransportPhase::AwaitingRevocation => {
                self.phase = McquicWebTransportPhase::Complete;
            },
            McquicWebTransportPhase::AwaitingHighStreamAck { .. } => {
                self.latest_packet_number = packet_number;
                self.phase = McquicWebTransportPhase::AwaitingHighResetAck { packet_number };
            },
            McquicWebTransportPhase::AwaitingHighResetAck { .. } => {
                self.phase = McquicWebTransportPhase::BeforePrefixDelay {
                    release_at: now + MCQUIC_STEP_DELAY,
                };
            },
            McquicWebTransportPhase::BeforePrefixDelay { .. } => {
                self.latest_packet_number = packet_number;
                self.phase =
                McquicWebTransportPhase::AwaitingBeforePrefixAck { stream_id, packet_number };
            },
            McquicWebTransportPhase::AwaitingBeforePrefixAck { .. } => {
                self.latest_packet_number = packet_number;
                self.phase =
                McquicWebTransportPhase::AwaitingRecoveryAck { stream_id, packet_number };
            },
            McquicWebTransportPhase::AwaitingRecoveryAck { .. } => {
                self.latest_packet_number = packet_number;
                self.phase =
                McquicWebTransportPhase::KeyReleaseDelay {
                    release_at: now + MCQUIC_STEP_DELAY,
                    from_packet_number: outcome.from_packet_number,
                    packet_number,
                };
            },
            McquicWebTransportPhase::KeyReleaseDelay { packet_number: delayed, .. } => {
                self.phase =
                McquicWebTransportPhase::AwaitingKeyDelayedAck { packet_number: delayed };
            },
            McquicWebTransportPhase::AwaitingKeyDelayedAck { .. } => {
                self.latest_packet_number = packet_number;
                self.phase =
                McquicWebTransportPhase::IntegrityReleaseDelay {
                    release_at: now + MCQUIC_STEP_DELAY,
                    packet_number,
                };
            },
            McquicWebTransportPhase::IntegrityReleaseDelay { packet_number: delayed, .. } => {
                self.phase =
                McquicWebTransportPhase::AwaitingIntegrityDelayedAck { packet_number: delayed };
            },
            McquicWebTransportPhase::AwaitingIntegrityDelayedAck { .. } => {
                self.phase = McquicWebTransportPhase::ResetPrefixDelay {
                    release_at: now + MCQUIC_STEP_DELAY,
                    stream_id,
                };
            },
            McquicWebTransportPhase::ResetPrefixDelay { .. } => {
                self.latest_packet_number = packet_number;
                self.phase = McquicWebTransportPhase::AwaitingResetAck { packet_number };
            },
            McquicWebTransportPhase::AwaitingResetAck { .. } => {
                self.phase = McquicWebTransportPhase::AwaitingLeft;
            },
            McquicWebTransportPhase::AwaitingLeft => {
                self.phase = McquicWebTransportPhase::RetireDelay {
                    release_at: now + MCQUIC_STEP_DELAY,
                };
            },
            McquicWebTransportPhase::RetireDelay { .. } => {
                self.phase = McquicWebTransportPhase::AwaitingRetired;
            },
            McquicWebTransportPhase::AwaitingRetired => {
                self.phase = McquicWebTransportPhase::Complete;
            },
            McquicWebTransportPhase::Complete => {},
        }
        go_on
    }

    pub fn is_complete(&self) -> (complete: bool)
        ensures
            complete == (self@.phase == McquicWebTransportPhase::Complete),
    {
        self.phase == McquicWebTransportPhase::Complete
    }
}

/// A completed scenario saw everything that its kind asks of the client: a full one that it
/// declined, joined, left and retired, and acknowledged often enough; a revocation that it
/// declined, joined and left, and took back its limits.
pub proof fn law_complete(v: ScenarioView)
    requires
        v.wf(),
        v.phase == McquicWebTransportPhase::Complete,
    ensures
        v.saw_initial_decline && v.saw_joined && v.saw_left,
        v.kind == McquicWebTransportScenarioKind::Full ==> v.saw_retired && v.ack_frames_seen
            >= MCQUIC_MIN_ACK_FRAMES,
        v.kind == McquicWebTransportScenarioKind::Revocation ==> v.saw_zero_limits,
{
}

proof fn lemma_step_wf(v: ScenarioView, now: u64, outcome: StepOutcome)
    requires
        v.wf(),
        v.ready(now),
        !v.retired_early(now),
    ensures
        v.after_step(now, outcome).wf(),
{
}

/// A scenario after steps that were taken one after the other, with what each brought about.
pub open spec fn stepped(v: ScenarioView, now: u64, outcomes: Seq<StepOutcome>) -> ScenarioView
    decreases outcomes.len(),
{
    if outcomes.len() == 0 {
        v
    } else {
        stepped(v, now, outcomes.drop_last()).after_step(now, outcomes.last())
    }
}

/// The operations of steps that were taken one after the other.
pub open spec fn performed(v: ScenarioView, now: u64, outcomes: Seq<StepOutcome>) -> Seq<ScenarioOp>
    decreases outcomes.len(),
{
    if outcomes.len() == 0 {
        Seq::empty()
    } else {
        performed(v, now, outcomes.drop_last()) + stepped(
            v,
            now,
            outcomes.drop_last(),
        ).operations()
    }
}

/// Whether each of the steps was due when it was taken, and none failed.
pub open spec fn were_due(v: ScenarioView, now: u64, outcomes: Seq<StepOutcome>) -> bool
    decreases outcomes.len(),
{
    outcomes.len() == 0 || {
        let before = stepped(v, now, outcomes.drop_last());
        were_due(v, now, outcomes.drop_last()) && before.ready(now) && !before.retired_early(now)
    }
}

/// The last message of a completed scenario.
pub open spec fn last_message(v: ScenarioView) -> Message {
    match v.kind {
        McquicWebTransportScenarioKind::Revocation => Message::Text(
            "unicast-fallback-after-revocation",
        ),
        McquicWebTransportScenarioKind::Full => Message::Complete { acks: v.ack_frames_seen },
    }
}

proof fn lemma_stepped(v: ScenarioView, now: u64, outcomes: Seq<StepOutcome>)
    requires
        v.wf(),
        were_due(v, now, outcomes),
    ensures
        stepped(v, now, outcomes).wf(),
    decreases outcomes.len(),
{
    if outcomes.len() > 0 {
        lemma_stepped(v, now, outcomes.drop_last());
        lemma_step_wf(stepped(v, now, outcomes.drop_last()), now, outcomes.last());
    }
}

/// A scenario that steps bring to its end has seen all that its kind asks of the client, and the
/// last that it did was to say so: a revocation that the client is served without multicast
/// again, a full one that it is complete, with the number of acknowledgements.
pub proof fn law_last_message(v: ScenarioView, now: u64, outcomes: Seq<StepOutcome>)
    requires
        v.wf(),
        v.phase != McquicWebTransportPhase::Complete,
        were_due(v, now, outcomes),
        stepped(v, now, outcomes).phase == McquicWebTransportPhase::Complete,
    ensures
        ({
            let end = stepped(v, now, outcomes);
            let ops = performed(v, now, outcomes);
            &&& end.kind == McquicWebTransportScenarioKind::Revocation ==> end.saw_left
                && end.saw_zero_limits && message_text(last_message(end))
                == "unicast-fallback-after-revocation"@
            &&& end.kind == McquicWebTransportScenarioKind::Full ==> end.saw_retired
                && end.ack_frames_seen >= 7 && message_text(last_message(end))
                == "mcquic-complete:declined,joined,left,retired;acks="@ + decimal(
                end.ack_frames_seen as nat,
            )
            &&& ops.len() >= 3 && ops.skip(ops.len() - 3) == message_ops(last_message(end))
        }),
{
    lemma_stepped(v, now, outcomes);
    assert(outcomes.len() > 0);
    let before = stepped(v, now, outcomes.drop_last());
    lemma_stepped(v, now, outcomes.drop_last());
    let ops = performed(v, now, outcomes);
    assert(ops.skip(ops.len() - 3) =~= before.operations());
}

/// A completed scenario stays so, whatever the client still reports, and does nothing more.
pub proof fn law_complete_for_good(
    v: ScenarioView,
    now: u64,
    packet_number: u64,
    state: McquicChannelState,
    named: bool,
    sequence: u64,
    zero: bool,
)
    requires
        v.phase == McquicWebTransportPhase::Complete,
    ensures
        !v.ready(now),
        !v.retired_early(now),
        v.after_ack(packet_number).phase == v.phase,
        v.after_state(state, sequence).phase == v.phase,
        v.after_bad_state(named, sequence).phase == v.phase,
        v.after_limits(sequence, zero).phase == v.phase,
{
}

/// Every step leads to a later phase, so a scenario takes no more steps than there are phases,
/// and none after it is complete.
pub proof fn law_steps_lead_on(v: ScenarioView, now: u64, outcome: StepOutcome)
    requires
        v.ready(now),
    ensures
        rank(v.after_step(now, outcome).phase) > rank(v.phase),
        rank(v.after_step(now, outcome).phase) <= 18,
{
}

/// The feedback that was seen is never forgotten, and neither a step nor feedback changes the
/// session, the kind or the deadline.
pub proof fn law_memory(
    v: ScenarioView,
    now: u64,
    outcome: StepOutcome,
    packet_number: u64,
    state: McquicChannelState,
    sequence: u64,
    zero: bool,
)
    requires
        v.ack_frames_seen < u64::MAX,
    ensures
        v.after_step(now, outcome).remembers(v),
        v.after_ack(packet_number).remembers(v),
        v.after_ack(packet_number).acknowledged(packet_number),
        v.after_state(state, sequence).remembers(v),
        v.after_bad_state(true, sequence).remembers(v),
        v.after_limits(sequence, zero).remembers(v),
{
}

/// The ten bytes with which a WebTransport stream of a session begins: the stream type in two
/// bytes and the session in eight.
pub open spec fn webtransport_prefix(session_id: u64) -> Seq<u8> {
    seq![0x40u8, 0x54u8] + be_bytes((session_id + 0xc000_0000_0000_0000) as nat, 8)
}

/// What is wrong with a session that no variable-length integer holds.
pub open spec fn bad_session(session_id: u64) -> Seq<char> {
    "WebTransport session ID "@ + decimal(session_id as nat) + " is not a QUIC varint"@
}

/// The bytes with which a WebTransport stream of a session begins.
pub fn mcquic_webtransport_prefix(session_id: u64) -> (prefix: Result<Vec<u8>, ScenarioError>)
    ensures
        prefix is Ok <==> session_id < 0x4000_0000_0000_0000,
        prefix matches Ok(p) ==> p@ == webtransport_prefix(session_id) && p@.len() == 10,
        prefix matches Err(e) ==> fails_with(e, bad_session(session_id)),
{
    if session_id >= 0x4000_0000_0000_0000 {
        return Err(
            failed_with_number("WebTransport session ID ", session_id, " is not a QUIC varint"),
        );
    }
    let mut prefix: Vec<u8> = Vec::new();
    prefix.push(0x40);
    prefix.push(0x54);
    write_be(&mut prefix, session_id + 0xc000_0000_0000_0000, 8);
    proof {
        assert(prefix@ =~= webtransport_prefix(session_id));
        crate::bytes::lemma_be_bytes_len((session_id + 0xc000_0000_0000_0000) as nat, 8);
    }
    Ok(prefix)
}

/// The text of a message.
pub open spec fn message_text(message: Message) -> Seq<char> {
    match message {
        Message::Text(text) => text@,
        Message::Complete { acks } => "mcquic-complete:declined,joined,left,retired;acks="@
            + decimal(acks as nat),
    }
}

/// The bytes that carry a message on a stream of a session: the prefix, and the message.
pub fn message_bytes(session_id: u64, message: Message) -> (data: Result<Vec<u8>, ScenarioError>)
    ensures
        data is Ok <==> session_id < 0x4000_0000_0000_0000,
        data matches Ok(d) ==> d@ == webtransport_prefix(session_id) + vstd::utf8::encode_utf8(
            message_text(message),
        ),
        data matches Err(e) ==> fails_with(e, bad_session(session_id)),
{
    let mut data = mcquic_webtransport_prefix(session_id)?;
    match message {
        Message::Text(text) => {
            append(&mut data, text.as_bytes());
        },
        Message::Complete { acks } => {
            let mut text = "mcquic-complete:declined,joined,left,retired;acks=".to_owned();
            push_decimal(&mut text, acks);
            append(&mut data, text.as_str().as_bytes());
        },
    }
    Ok(data)
}

/// What is wrong with a write that took `sent` of `len` bytes.
pub open spec fn short_write(what: Seq<char>, sent: nat, len: nat) -> Seq<char> {
    what + decimal(sent) + "/"@ + decimal(len)
}

/// Checks that a write took all the bytes; `what` says what was written.
pub fn check_write(what: &str, sent: usize, len: usize) -> (done: Result<(), ScenarioError>)
    ensures
        done is Ok <==> sent == len,
        done matches Err(e) ==> fails_with(e, short_write(what@, sent as nat, len as nat)),
{
    if sent != len {
        let mut text = what.to_owned();
        push_decimal(&mut text, sent as u64);
        text.append("/");
        push_decimal(&mut text, len as u64);
        return Err(ScenarioError::Failed(text));
    }
    Ok(())
}

/// A scenario starts 150 ms after it was set up and may take 20 s; nothing was seen of the client
/// yet.
pub proof fn law_set_up(
    session: u64,
    now: u64,
    kind: McquicWebTransportScenarioKind,
    full: McquicWebTransportScenario,
    revocation: McquicWebTransportScenario,
    either: McquicWebTransportScenario,
)
    requires
        now + 20_000_000_000 <= u64::MAX,
        call_ensures(McquicWebTransportScenario::new, (session, now), full),
        call_ensures(McquicWebTransportScenario::new_revocation, (session, now), revocation),
        call_ensures(McquicWebTransportScenario::new_with_kind, (session, now, kind), either),
    ensures
        full@.kind is Full && revocation@.kind is Revocation && either@.kind == kind,
        full@.session == session && revocation@.session == session && either@.session == session,
        full@.start_at == now + 150_000_000 && full@.deadline == now + 20_000_000_000,
        revocation@.start_at == now + 150_000_000 && revocation@.deadline == now + 20_000_000_000,
        either@.start_at == now + 150_000_000 && either@.deadline == now + 20_000_000_000,
        either@.phase is AwaitingInitialDecline && !either@.started && either@.ack_frames_seen == 0,
        either@.latest_limits_sequence == 0 && either@.latest_state_sequence == 0,
        either@.latest_packet_number == 0 && either@.acknowledged_packets == Set::<u64>::empty(),
        !either@.saw_initial_decline && !either@.saw_joined && !either@.saw_left,
        !either@.saw_retired && !either@.saw_zero_limits,
{
}

/// Before anything else it is looked at whether the time is over; a scenario that is not started
/// waits for its moment. It starts with the announcement and a request to join that cannot
/// succeed, where the client knows of multicast.
pub proof fn law_beginning(
    scenario: McquicWebTransportScenario,
    now: u64,
    begin: Result<Begin, ScenarioError>,
    knows: bool,
    ops: Result<Vec<ScenarioOp>, ScenarioError>,
    started: &mut McquicWebTransportScenario,
)
    requires
        call_ensures(McquicWebTransportScenario::begin, (&scenario, now), begin),
        call_ensures(McquicWebTransportScenario::start, (&scenario, knows), ops),
        old(started)@.wf(),
        call_ensures(McquicWebTransportScenario::mark_started, (started,), ()),
    ensures
        begin is Err <==> scenario@.deadline <= now,
        begin matches Err(e) ==> e == ScenarioError::TimedOut(scenario@.phase),
        begin matches Ok(b) ==> {
            &&& b is Run <==> scenario@.started
            &&& b is Wait <==> !scenario@.started && now < scenario@.start_at
            &&& b is Start <==> !scenario@.started && now >= scenario@.start_at
        },
        ops is Ok <==> knows,
        ops matches Ok(o) ==> o@.len() == 2 && o@[0] is SendAnnounce && o@[1]
            == (ScenarioOp::SendJoin { limits_sequence: 0, state_sequence: 0 }),
        ops matches Err(e) ==> fails_with(
            e,
            "client did not advertise generic MCQUIC transport parameters"@,
        ),
        final(started)@.started,
        final(started)@.phase == old(started)@.phase && final(started)@.remembers(old(started)@),
{
}

/// The packet that a phase waits to be acknowledged, where it waits for one.
pub open spec fn awaited_packet(phase: McquicWebTransportPhase) -> Option<u64> {
    match phase {
        McquicWebTransportPhase::AwaitingRevocationAck { packet_number } => Some(packet_number),
        McquicWebTransportPhase::AwaitingHighStreamAck { packet_number } => Some(packet_number),
        McquicWebTransportPhase::AwaitingHighResetAck { packet_number } => Some(packet_number),
        McquicWebTransportPhase::AwaitingBeforePrefixAck { packet_number, .. } => Some(
            packet_number,
        ),
        McquicWebTransportPhase::AwaitingRecoveryAck { packet_number, .. } => Some(packet_number),
        McquicWebTransportPhase::AwaitingKeyDelayedAck { packet_number } => Some(packet_number),
        McquicWebTransportPhase::AwaitingIntegrityDelayedAck { packet_number } => Some(
            packet_number,
        ),
        McquicWebTransportPhase::AwaitingResetAck { packet_number } => Some(packet_number),
        _ => None,
    }
}

/// The moment that a phase waits for, where it waits for one.
pub open spec fn awaited_moment(phase: McquicWebTransportPhase) -> Option<u64> {
    match phase {
        McquicWebTransportPhase::BeforePrefixDelay { release_at } => Some(release_at),
        McquicWebTransportPhase::KeyReleaseDelay { release_at, .. } => Some(release_at),
        McquicWebTransportPhase::IntegrityReleaseDelay { release_at, .. } => Some(release_at),
        McquicWebTransportPhase::ResetPrefixDelay { release_at, .. } => Some(release_at),
        McquicWebTransportPhase::RetireDelay { release_at } => Some(release_at),
        _ => None,
    }
}

/// A step is taken once what its phase waits for has come: the packet was acknowledged, the
/// moment is there, or the client said of the channel what was asked of it. A client that retired
/// with fewer than seven acknowledgements fails the scenario.
pub proof fn law_what_is_waited_for(
    scenario: McquicWebTransportScenario,
    now: u64,
    ops: Result<Option<Vec<ScenarioOp>>, ScenarioError>,
)
    requires
        call_ensures(McquicWebTransportScenario::advance, (&scenario, now), ops),
    ensures
        ({
            let v = scenario@;
            let due = ops is Err || ops->Ok_0 is Some;
            &&& awaited_packet(v.phase) matches Some(n) ==> (due
                <==> v.acknowledged_packets.contains(n))
            &&& awaited_moment(v.phase) matches Some(at) ==> (due <==> at <= now)
            &&& v.phase is AwaitingInitialDecline ==> (due <==> v.saw_initial_decline)
            &&& v.phase is AwaitingJoin ==> (due <==> v.saw_joined)
            &&& v.phase is AwaitingRevocation ==> (due <==> v.saw_left && v.saw_zero_limits)
            &&& v.phase is AwaitingLeft ==> (due <==> v.saw_left)
            &&& v.phase is AwaitingRetired ==> (due <==> v.saw_retired)
            &&& v.phase is Complete ==> !due
            &&& ops is Err <==> v.phase is AwaitingRetired && v.saw_retired && v.ack_frames_seen < 7
            &&& ops matches Err(e) ==> fails_with(
                e,
                "client retired after only "@ + decimal(v.ack_frames_seen as nat)
                    + " MC_ACK frames"@,
            )
        }),
{
}

/// Whether operations send a text on a stream of its own and do nothing else.
pub open spec fn sends_text(ops: Seq<ScenarioOp>, text: &'static str) -> bool {
    &&& ops.len() == 3
    &&& ops[0] is CreateStream
    &&& ops[1] == ScenarioOp::SendMessage(Message::Text(text))
    &&& ops[2] is CloseMessage
}

/// Whether operations open a stream with its prefix and do nothing else.
pub open spec fn opens_prefixed(ops: Seq<ScenarioOp>) -> bool {
    ops.len() == 2 && ops[0] is CreateStream && ops[1] == ScenarioOp::SendPrefix(StreamRef::New)
}

/// Whether operations send a packet, with its integrity record before it.
pub open spec fn sends_sealed(ops: Seq<ScenarioOp>, write: ScenarioOp) -> bool {
    ops.len() == 3 && ops[0] == write && ops[1] is SendIntegrity && ops[2] is SendPacket
}

/// What the server does with the client until it has joined: a message without multicast, the
/// key, and the request to join once more, under the numbers that the client gave last; then the
/// first packet, on a stream that was never opened, or on one of its own in a revocation. A
/// revocation ends in a message without multicast.
pub proof fn law_joining_steps(
    scenario: McquicWebTransportScenario,
    now: u64,
    ops: Result<Option<Vec<ScenarioOp>>, ScenarioError>,
    list: Vec<ScenarioOp>,
)
    requires
        call_ensures(McquicWebTransportScenario::advance, (&scenario, now), ops),
        ops == Ok::<Option<Vec<ScenarioOp>>, ScenarioError>(Some(list)),
    ensures
        ({
            let v = scenario@;
            let o = list@;
            &&& v.phase is AwaitingInitialDecline ==> o.len() == 5 && sends_text(
                o.take(3),
                "unicast-fallback-before-join",
            ) && o[3] is SendFirstKey && o[4] == (ScenarioOp::SendJoin {
                limits_sequence: v.latest_limits_sequence,
                state_sequence: v.latest_state_sequence,
            })
            &&& v.phase is AwaitingJoin && v.kind is Full ==> sends_sealed(
                o,
                ScenarioOp::WriteStreamPacket {
                    stream: StreamRef::Known(4_000_003),
                    offset: 10,
                    data: "sparse-high-stream",
                },
            )
            &&& v.phase is AwaitingJoin && v.kind is Revocation ==> o.len() == 5 && opens_prefixed(
                o.take(2),
            ) && sends_sealed(
                o.skip(2),
                ScenarioOp::WriteStreamPacket {
                    stream: StreamRef::New,
                    offset: 10,
                    data: "multicast-before-revocation",
                },
            )
            &&& v.phase is AwaitingRevocationAck ==> o.len() == 0
            &&& v.phase is AwaitingRevocation ==> sends_text(o, "unicast-fallback-after-revocation")
        }),
{
    let o = list@;
    assert(o == scenario@.operations());
}

/// What the server does with a client that has joined, up to the packet whose key it holds back:
/// it resets a stream that was never opened, sends a packet before the prefix of its stream, one
/// whose beginning is lost on multicast and follows on its stream, and one under the second key.
pub proof fn law_recovery_steps(
    scenario: McquicWebTransportScenario,
    now: u64,
    ops: Result<Option<Vec<ScenarioOp>>, ScenarioError>,
    list: Vec<ScenarioOp>,
)
    requires
        call_ensures(McquicWebTransportScenario::advance, (&scenario, now), ops),
        ops == Ok::<Option<Vec<ScenarioOp>>, ScenarioError>(Some(list)),
    ensures
        ({
            let v = scenario@;
            let o = list@;
            &&& v.phase is AwaitingHighStreamAck ==> sends_sealed(
                o,
                ScenarioOp::WriteResetPacket {
                    stream: StreamRef::Known(4_000_007),
                    final_size: 0,
                },
            )
            &&& v.phase is AwaitingHighResetAck ==> o.len() == 0
            &&& v.phase is BeforePrefixDelay ==> o.len() == 4 && o[0] is CreateStream
                && sends_sealed(
                o.skip(1),
                ScenarioOp::WriteStreamPacket {
                    stream: StreamRef::New,
                    offset: 10,
                    data: "multicast-before-prefix",
                },
            )
            &&& v.phase matches McquicWebTransportPhase::AwaitingBeforePrefixAck { stream_id, .. }
                ==> o.len() == 6 && o[0] == ScenarioOp::SendPrefix(StreamRef::Known(stream_id))
                && opens_prefixed(o.subrange(1, 3)) && sends_sealed(
                o.skip(3),
                ScenarioOp::WriteStreamPacket {
                    stream: StreamRef::New,
                    offset: 15,
                    data: "tail",
                },
            )
            &&& v.phase matches McquicWebTransportPhase::AwaitingRecoveryAck { stream_id, .. }
                ==> o.len() == 7 && o[0] == ScenarioOp::SendBytes(
                StreamRef::Known(stream_id),
                "lost-",
            ) && o[1] is RotateKey && opens_prefixed(o.subrange(2, 4)) && sends_sealed(
                o.skip(4),
                ScenarioOp::WriteStreamPacket {
                    stream: StreamRef::New,
                    offset: 10,
                    data: "multicast-key-delayed",
                },
            )
            &&& v.phase matches McquicWebTransportPhase::KeyReleaseDelay { from_packet_number, .. }
                ==> o.len() == 1 && o[0] == (ScenarioOp::SendSecondKey { from_packet_number })
        }),
{
    reveal_strlit("lost-");
    vstd::string::is_ascii_spec_bytes("lost-");
    assert("lost-".spec_bytes().len() == 5);
    let o = list@;
    assert(o == scenario@.operations());
}

/// What the server does after that, to the end: a packet before its integrity record, the reset
/// of a stream behind its prefix, the requests to leave and to retire after the last packet, a
/// message without multicast between them, and the report.
pub proof fn law_leaving_steps(
    scenario: McquicWebTransportScenario,
    now: u64,
    ops: Result<Option<Vec<ScenarioOp>>, ScenarioError>,
    list: Vec<ScenarioOp>,
)
    requires
        call_ensures(McquicWebTransportScenario::advance, (&scenario, now), ops),
        ops == Ok::<Option<Vec<ScenarioOp>>, ScenarioError>(Some(list)),
    ensures
        ({
            let v = scenario@;
            let o = list@;
            &&& v.phase is AwaitingKeyDelayedAck ==> o.len() == 4 && opens_prefixed(o.take(2))
                && o[2] == (ScenarioOp::WriteStreamPacket {
                stream: StreamRef::New,
                offset: 10,
                data: "multicast-integrity-delayed",
            }) && o[3] is SendPacket
            &&& v.phase is IntegrityReleaseDelay ==> o.len() == 1 && o[0] is SendIntegrity
            &&& v.phase is AwaitingIntegrityDelayedAck ==> opens_prefixed(o)
            &&& v.phase matches McquicWebTransportPhase::ResetPrefixDelay { stream_id, .. }
                ==> sends_sealed(
                o,
                ScenarioOp::WriteResetPacket {
                    stream: StreamRef::Known(stream_id),
                    final_size: 10,
                },
            )
            &&& v.phase is AwaitingResetAck ==> o.len() == 1 && o[0] == (ScenarioOp::SendLeave {
                state_sequence: v.latest_state_sequence,
                after_packet_number: v.latest_packet_number,
            })
            &&& v.phase is AwaitingLeft ==> sends_text(o, "unicast-fallback-after-leave")
            &&& v.phase is RetireDelay ==> o.len() == 1 && o[0] == (ScenarioOp::SendRetire {
                after_packet_number: v.latest_packet_number,
            })
            &&& v.phase is AwaitingRetired ==> o.len() == 3 && o[0] is CreateStream && o[1]
                == ScenarioOp::SendMessage(Message::Complete { acks: v.ack_frames_seen }) && o[2]
                is CloseMessage
        }),
{
    let o = list@;
    assert(o == scenario@.operations());
}

/// The order of the phases. A phase that waits for an acknowledgement waits for that of the
/// packet that was sent before it, one that waits for a moment waits 150 ms, and what a later
/// phase needs to know of a stream, a packet or a key is what the step brought about.
pub proof fn law_phases_follow(
    scenario: &mut McquicWebTransportScenario,
    now: u64,
    outcome: StepOutcome,
    go_on: bool,
)
    requires
        old(scenario)@.wf(),
        old(scenario)@.ready(now),
        !old(scenario)@.retired_early(now),
        old(scenario)@.sets_delay() ==> now + 150_000_000 <= u64::MAX,
        call_ensures(McquicWebTransportScenario::finish_step, (scenario, now, outcome), go_on),
    ensures
        ({
            let v = old(scenario)@;
            let before = v.phase;
            let after = final(scenario)@.phase;
            &&& before is AwaitingInitialDecline ==> after is AwaitingJoin
            &&& before is AwaitingJoin && v.kind is Revocation ==> after is AwaitingRevocationAck
            &&& before is AwaitingRevocationAck ==> after is AwaitingRevocation
            &&& before is AwaitingRevocation ==> after is Complete
            &&& before is AwaitingJoin && v.kind is Full ==> after is AwaitingHighStreamAck
            &&& before is AwaitingHighStreamAck ==> after is AwaitingHighResetAck
            &&& before is AwaitingHighResetAck ==> after is BeforePrefixDelay
            &&& before is BeforePrefixDelay ==> after is AwaitingBeforePrefixAck
            &&& before is AwaitingBeforePrefixAck ==> after is AwaitingRecoveryAck
            &&& before is AwaitingRecoveryAck ==> after is KeyReleaseDelay
            &&& before is KeyReleaseDelay ==> after is AwaitingKeyDelayedAck
            &&& before is AwaitingKeyDelayedAck ==> after is IntegrityReleaseDelay
            &&& before is IntegrityReleaseDelay ==> after is AwaitingIntegrityDelayedAck
            &&& before is AwaitingIntegrityDelayedAck ==> after is ResetPrefixDelay
            &&& before is ResetPrefixDelay ==> after is AwaitingResetAck
            &&& before is AwaitingResetAck ==> after is AwaitingLeft
            &&& before is AwaitingLeft ==> after is RetireDelay
            &&& before is RetireDelay ==> after is AwaitingRetired
            &&& before is AwaitingRetired ==> after is Complete
            &&& awaited_moment(after) matches Some(at) ==> at == now + 150_000_000
            &&& awaited_packet(after) matches Some(n) ==> n == (match before {
                McquicWebTransportPhase::KeyReleaseDelay { packet_number, .. } => packet_number,
                McquicWebTransportPhase::IntegrityReleaseDelay {
                    packet_number,
                    ..
                } => packet_number,
                _ => outcome.packet_number,
            })
            &&& after matches McquicWebTransportPhase::AwaitingBeforePrefixAck { stream_id, .. }
                ==> stream_id == outcome.stream_id
            &&& after matches McquicWebTransportPhase::AwaitingRecoveryAck { stream_id, .. }
                ==> stream_id == outcome.stream_id
            &&& after matches McquicWebTransportPhase::ResetPrefixDelay { stream_id, .. }
                ==> stream_id == outcome.stream_id
            &&& after matches McquicWebTransportPhase::KeyReleaseDelay {
                from_packet_number,
                packet_number,
                ..
            } ==> from_packet_number == outcome.from_packet_number && packet_number
                == outcome.packet_number
            &&& after matches McquicWebTransportPhase::IntegrityReleaseDelay { packet_number, .. }
                ==> packet_number == outcome.packet_number
            &&& go_on <==> before is AwaitingInitialDecline || before is AwaitingRevocationAck
        }),
{
}

/// Whether an operation sends a packet on the channel.
pub open spec fn is_send(op: ScenarioOp) -> bool {
    op is SendPacket
}

/// The number of the last packet is that of the last packet that was sent, and nothing else that
/// was seen of the client changes in a step.
pub proof fn law_last_packet(
    scenario: &mut McquicWebTransportScenario,
    now: u64,
    outcome: StepOutcome,
    go_on: bool,
)
    requires
        old(scenario)@.wf(),
        old(scenario)@.ready(now),
        !old(scenario)@.retired_early(now),
        old(scenario)@.sets_delay() ==> now + 150_000_000 <= u64::MAX,
        call_ensures(McquicWebTransportScenario::finish_step, (scenario, now, outcome), go_on),
    ensures
        ({
            let sends = exists|i: int|
                0 <= i < old(scenario)@.operations().len() && is_send(
                    #[trigger] old(scenario)@.operations()[i],
                );
            &&& sends ==> final(scenario)@.latest_packet_number == outcome.packet_number
            &&& !sends ==> final(scenario)@.latest_packet_number == old(
                scenario,
            )@.latest_packet_number
            &&& final(scenario)@.remembers(old(scenario)@)
            &&& final(scenario)@.ack_frames_seen == old(scenario)@.ack_frames_seen
            &&& final(scenario)@.acknowledged_packets == old(scenario)@.acknowledged_packets
        }),
{
    let v = old(scenario)@;
    let o = v.operations();
    if v.sends_packet() {
        assert(is_send(o[o.len() - 1]));
    } else {
        assert forall|i: int| 0 <= i < o.len() implies !is_send(#[trigger] o[i]) by {}
    }
}

/// What is seen of the client in its feedback: one more acknowledgement, and its packet; a state
/// of the channel, and its number where it is a later one; limits, and whether they are all zero.
/// Feedback that names another channel, that comes at the wrong time or is of no kind that is
/// known fails the scenario.
pub proof fn law_feedback(
    scenario: &mut McquicWebTransportScenario,
    feedback: Feedback,
    done: Result<(), ScenarioError>,
)
    requires
        old(scenario)@.wf(),
        old(scenario)@.ack_frames_seen < u64::MAX,
        call_ensures(McquicWebTransportScenario::feedback, (scenario, &feedback), done),
    ensures
        ({
            let v = old(scenario)@;
            let w = final(scenario)@;
            let named = "mcquic-wt-test".spec_bytes();
            let initial = v.phase is AwaitingInitialDecline;
            &&& w.phase == v.phase && w.session == v.session && w.kind == v.kind
            &&& w.latest_packet_number == v.latest_packet_number
            &&& done is Err <==> {
                ||| feedback matches Feedback::Ack { channel_id, .. } && channel_id@ != named
                ||| feedback matches Feedback::State { channel_id, state, .. } && (channel_id@
                    != named || (state is DeclinedJoin && !initial) || (state is Joined && initial))
                ||| feedback is Other
            }
            &&& feedback matches Feedback::Ack { largest_acknowledged, .. } ==> done is Ok
                ==> w.ack_frames_seen == v.ack_frames_seen + 1
                && w.acknowledged_packets.contains(largest_acknowledged)
            &&& feedback !is Ack || done is Err ==> w.ack_frames_seen == v.ack_frames_seen
                && w.acknowledged_packets == v.acknowledged_packets
            &&& feedback matches Feedback::State { channel_id, state, sequence, .. } ==> {
                &&& done is Ok ==> {
                    &&& w.saw_initial_decline <==> v.saw_initial_decline || state is DeclinedJoin
                    &&& w.saw_joined <==> v.saw_joined || state is Joined
                    &&& w.saw_left <==> v.saw_left || state is Left
                    &&& w.saw_retired <==> v.saw_retired || state is Retired
                }
                &&& channel_id@ == named ==> w.latest_state_sequence >= sequence
                    && w.latest_state_sequence >= v.latest_state_sequence && (
                w.latest_state_sequence == sequence || w.latest_state_sequence
                    == v.latest_state_sequence)
            }
            &&& feedback !is State || done is Err ==> w.saw_initial_decline == v.saw_initial_decline
                && w.saw_joined == v.saw_joined && w.saw_left == v.saw_left && w.saw_retired
                == v.saw_retired
            &&& feedback matches Feedback::Limits {
                sequence,
                ipv4_channels_allowed,
                ipv6_channels_allowed,
                max_aggregate_rate_kibps,
                max_channel_ids,
                max_joined_count,
            } ==> {
                &&& w.saw_zero_limits <==> v.saw_zero_limits || (max_aggregate_rate_kibps == 0
                    && max_channel_ids == 0 && max_joined_count == 0 && !ipv4_channels_allowed
                    && !ipv6_channels_allowed)
                &&& w.latest_limits_sequence >= sequence && w.latest_limits_sequence
                    >= v.latest_limits_sequence && (w.latest_limits_sequence == sequence
                    || w.latest_limits_sequence == v.latest_limits_sequence)
            }
            &&& feedback !is Limits ==> w.saw_zero_limits == v.saw_zero_limits
                && w.latest_limits_sequence == v.latest_limits_sequence
        }),
{
}

/// What a client is told that it did wrong.
pub proof fn law_feedback_errors(
    scenario: &mut McquicWebTransportScenario,
    feedback: Feedback,
    done: Result<(), ScenarioError>,
    missing: ScenarioError,
)
    requires
        old(scenario)@.wf(),
        old(scenario)@.ack_frames_seen < u64::MAX,
        call_ensures(McquicWebTransportScenario::feedback, (scenario, &feedback), done),
        call_ensures(McquicWebTransportScenario::missing_feedback, (), missing),
    ensures
        fails_with(missing, "MCQUIC feedback was readable but no frame was returned"@),
        done matches Err(e) ==> {
            let named = "mcquic-wt-test".spec_bytes();
            &&& feedback is Ack ==> fails_with(e, "client ACK named an unexpected MCQUIC channel"@)
            &&& feedback matches Feedback::State { channel_id, state, reason_code, .. } ==> {
                &&& channel_id@ != named ==> fails_with(
                    e,
                    "client state named an unexpected MCQUIC channel"@,
                )
                &&& channel_id@ == named && state is Joined ==> fails_with(
                    e,
                    "client joined before declining the intentionally unsynchronized join"@,
                )
                &&& channel_id@ == named && state is DeclinedJoin ==> fails_with(
                    e,
                    "client unexpectedly declined MCQUIC join after key installation: reason "@
                        + decimal(reason_code as nat),
                )
            }
            &&& feedback matches Feedback::Other(text) ==> fails_with(
                e,
                "unexpected client MCQUIC feedback frame: "@ + text@,
            )
        },
{
}

/// A stream of a session begins with the type of such streams and the number of the session, both
/// as variable-length integers, of two and of eight bytes.
pub proof fn law_stream_prefix(
    session_id: u64,
    prefix: Result<Vec<u8>, ScenarioError>,
    message: Message,
    data: Result<Vec<u8>, ScenarioError>,
    rest: Seq<u8>,
)
    requires
        call_ensures(mcquic_webtransport_prefix, (session_id,), prefix),
        call_ensures(message_bytes, (session_id, message), data),
    ensures
        prefix is Ok <==> session_id < 0x4000_0000_0000_0000,
        data is Ok <==> session_id < 0x4000_0000_0000_0000,
        prefix matches Ok(p) ==> p@.len() == 10 && varint(p@ + rest) == Some(
            (0x54u64, p@.skip(2) + rest),
        ) && varint(p@.skip(2) + rest) == Some((session_id, rest)),
        prefix matches Ok(p) ==> data matches Ok(d) && d@.take(10) == p@ && d@.skip(10)
            == vstd::utf8::encode_utf8(message_text(message)),
        prefix matches Err(e) ==> fails_with(
            e,
            "WebTransport session ID "@ + decimal(session_id as nat) + " is not a QUIC varint"@,
        ),
{
    if let Ok(p) = prefix {
        let body = vstd::utf8::encode_utf8(message_text(message));
        let d = data->Ok_0;
        assert(d@ == p@ + body);
        assert(d@.take(10) =~= p@);
        assert(d@.skip(10) =~= body);
        lemma_prefix_is_read(session_id, rest);
    }
}

proof fn lemma_prefix_is_read(session_id: u64, rest: Seq<u8>)
    requires
        session_id < 0x4000_0000_0000_0000,
    ensures
        ({
            let p = webtransport_prefix(session_id);
            &&& varint(p + rest) == Some((0x54u64, p.skip(2) + rest))
            &&& varint(p.skip(2) + rest) == Some((session_id, rest))
        }),
{
    let p = webtransport_prefix(session_id);
    let number = be_bytes((session_id + 0xc000_0000_0000_0000) as nat, 8);
    crate::bytes::lemma_be_bytes_len((session_id + 0xc000_0000_0000_0000) as nat, 8);
    assert(p.skip(2) =~= number);
    assert(be_bytes(0x4054, 2) =~= seq![0x40u8, 0x54]) by {
        reveal_with_fuel(be_bytes, 3);
    }
    crate::moq::varint::law_varint_round_trip(0x54, number + rest);
    assert(varint_bytes(0x54) =~= seq![0x40u8, 0x54]);
    assert(p + rest =~= varint_bytes(0x54) + (number + rest));
    lemma_eight_bytes(session_id, rest);
}

proof fn lemma_eight_bytes(value: u64, rest: Seq<u8>)
    requires
        value < 0x4000_0000_0000_0000,
    ensures
        varint(be_bytes((value + 0xc000_0000_0000_0000) as nat, 8) + rest) == Some((value, rest)),
{
    let coded = (value + 0xc000_0000_0000_0000) as nat;
    let b = be_bytes(coded, 8);
    let s = b + rest;
    crate::bytes::lemma_be_bytes_len(coded, 8);
    crate::bytes::lemma_be_span_values();
    crate::bytes::lemma_be_round_trip(coded, 8);
    crate::moq::varint::lemma_be_first_byte(coded, 8);
    assert(s[0] == b[0]);
    assert(s.take(8) =~= b);
    assert(s.skip(8) =~= rest);
    assert(crate::bytes::be_span((8nat - 1) as nat) == 0x100_0000_0000_0000);
    assert(coded / 0x100_0000_0000_0000 >= 0xc0);
    assert(b[0] >= 0xc0);
    assert(crate::moq::varint::announced_len(s[0]) == 8);
    assert(crate::bytes::be_value(s.take(8)) == coded);
    assert(crate::bytes::be_span(8) / 4 == 0x4000_0000_0000_0000);
    assert(coded % 0x4000_0000_0000_0000 == value as nat);
}

/// The text of a message is its own, or the report with the number of acknowledgements; a write
/// is complete where every byte was taken, and otherwise told with both numbers.
pub proof fn law_messages_and_writes(
    message: Message,
    what: &str,
    sent: usize,
    len: usize,
    done: Result<(), ScenarioError>,
    scenario: McquicWebTransportScenario,
    session: u64,
    packet_number: u64,
    acknowledged: bool,
    complete: bool,
    outcome: StepOutcome,
    stream: StreamRef,
    stream_id: u64,
    empty: StepOutcome,
)
    requires
        call_ensures(check_write, (what, sent, len), done),
        call_ensures(McquicWebTransportScenario::session, (&scenario,), session),
        call_ensures(
            McquicWebTransportScenario::acknowledged,
            (&scenario, packet_number),
            acknowledged,
        ),
        call_ensures(McquicWebTransportScenario::is_complete, (&scenario,), complete),
        call_ensures(StepOutcome::resolve, (&outcome, stream), stream_id),
        call_ensures(StepOutcome::new, (), empty),
    ensures
        message matches Message::Text(text) ==> message_text(message) == text@,
        message matches Message::Complete { acks } ==> message_text(message)
            == "mcquic-complete:declined,joined,left,retired;acks="@ + decimal(acks as nat),
        done is Ok <==> sent == len,
        done matches Err(e) ==> fails_with(
            e,
            what@ + decimal(sent as nat) + "/"@ + decimal(len as nat),
        ),
        session == scenario@.session,
        acknowledged <==> scenario@.acknowledged_packets.contains(packet_number),
        complete <==> scenario@.phase is Complete,
        stream is New ==> stream_id == outcome.stream_id,
        stream matches StreamRef::Known(id) ==> stream_id == id,
        empty.stream_id == 0 && empty.packet_number == 0 && empty.from_packet_number == 0,
{
}

}
