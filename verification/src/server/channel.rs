//! The multicast channel of the scenarios: its frames, and the messages beside it.
use crate::address::IpAddress;
use crate::bytes::{append, is_text, repeated, text_bytes};
use crate::server::scenario::{
    bad_session, channel_id, fails_with, mcquic_webtransport_prefix, webtransport_prefix, ScenarioError,
    ScenarioOp,
};
use vstd::prelude::*;
use vstd::string::StringSliceAdditionalSpecFns;

verus! {

/// The address that the channel is sent from.
pub const MCQUIC_SOURCE: [u8; 4] = [127, 0, 0, 1];

/// The group that the channel is sent to.
pub const MCQUIC_GROUP: [u8; 4] = [232, 0, 0, 1];

/// A control frame that the server sends.
#[derive(Debug)]
pub enum ServerFrame {
    Announce {
        channel_id: Vec<u8>,
        source: [u8; 4],
        group: [u8; 4],
        udp_port: u16,
        header_protection_algorithm: u64,
        header_secret: Vec<u8>,
        aead_algorithm: u64,
        integrity_hash_algorithm: u64,
        max_rate_kibps: u64,
        max_ack_delay_ms: u64,
    },
    Key { channel_id: Vec<u8>, key_sequence: u64, from_packet_number: u64, secret: Vec<u8> },
    Join {
        channel_id: Vec<u8>,
        mc_limits_sequence: u64,
        mc_state_sequence: u64,
        mc_key_sequence: u64,
    },
    Leave { channel_id: Vec<u8>, mc_state_sequence: u64, after_packet_number: u64 },
    Retire { channel_id: Vec<u8>, after_packet_number: u64 },
}

/// The contents of a [`ServerFrame`].
pub enum ServerFrameView {
    Announce {
        channel_id: Seq<u8>,
        source: [u8; 4],
        group: [u8; 4],
        udp_port: u16,
        header_protection_algorithm: u64,
        header_secret: Seq<u8>,
        aead_algorithm: u64,
        integrity_hash_algorithm: u64,
        max_rate_kibps: u64,
        max_ack_delay_ms: u64,
    },
    Key { channel_id: Seq<u8>, key_sequence: u64, from_packet_number: u64, secret: Seq<u8> },
    Join {
        channel_id: Seq<u8>,
        mc_limits_sequence: u64,
        mc_state_sequence: u64,
        mc_key_sequence: u64,
    },
    Leave { channel_id: Seq<u8>, mc_state_sequence: u64, after_packet_number: u64 },
    Retire { channel_id: Seq<u8>, after_packet_number: u64 },
}

impl View for ServerFrame {
    type V = ServerFrameView;

    open spec fn view(&self) -> ServerFrameView {
        match *self {
            ServerFrame::Announce {
                channel_id,
                source,
                group,
                udp_port,
                header_protection_algorithm,
                header_secret,
                aead_algorithm,
                integrity_hash_algorithm,
                max_rate_kibps,
                max_ack_delay_ms,
            } => ServerFrameView::Announce {
                channel_id: channel_id@,
                source,
                group,
                udp_port,
                header_protection_algorithm,
                header_secret: header_secret@,
                aead_algorithm,
                integrity_hash_algorithm,
                max_rate_kibps,
                max_ack_delay_ms,
            },
            ServerFrame::Key {
                channel_id,
                key_sequence,
                from_packet_number,
                secret,
            } => ServerFrameView::Key {
                channel_id: channel_id@,
                key_sequence,
                from_packet_number,
                secret: secret@,
            },
            ServerFrame::Join {
                channel_id,
                mc_limits_sequence,
                mc_state_sequence,
                mc_key_sequence,
            } => ServerFrameView::Join {
                channel_id: channel_id@,
                mc_limits_sequence,
                mc_state_sequence,
                mc_key_sequence,
            },
            ServerFrame::Leave {
                channel_id,
                mc_state_sequence,
                after_packet_number,
            } => ServerFrameView::Leave {
                channel_id: channel_id@,
                mc_state_sequence,
                after_packet_number,
            },
            ServerFrame::Retire {
                channel_id,
                after_packet_number,
            } => ServerFrameView::Retire { channel_id: channel_id@, after_packet_number },
        }
    }
}

/// A secret in which every byte is the same.
pub open spec fn secret(byte: u8) -> Seq<u8> {
    Seq::new(32, |i: int| byte)
}

/// The announcement of the channel on a port.
pub open spec fn announcement(udp_port: u16) -> ServerFrameView {
    ServerFrameView::Announce {
        channel_id: channel_id(),
        source: MCQUIC_SOURCE,
        group: MCQUIC_GROUP,
        udp_port,
        header_protection_algorithm: 0x1301,
        header_secret: secret(0x11),
        aead_algorithm: 0x1301,
        integrity_hash_algorithm: 1,
        max_rate_kibps: 1024,
        max_ack_delay_ms: 10,
    }
}

/// The first key of the channel.
pub open spec fn first_key_view() -> ServerFrameView {
    ServerFrameView::Key {
        channel_id: channel_id(),
        key_sequence: 1,
        from_packet_number: 0,
        secret: secret(0x22),
    }
}

/// The second key of the channel.
pub open spec fn second_key_view(from_packet_number: u64) -> ServerFrameView {
    ServerFrameView::Key {
        channel_id: channel_id(),
        key_sequence: 2,
        from_packet_number,
        secret: secret(0x33),
    }
}

/// The announcement of the channel on a port.
pub fn announce(udp_port: u16) -> (frame: ServerFrame)
    ensures
        frame@ == announcement(udp_port),
{
    ServerFrame::Announce {
        channel_id: text_bytes("mcquic-wt-test"),
        source: MCQUIC_SOURCE,
        group: MCQUIC_GROUP,
        udp_port,
        header_protection_algorithm: 0x1301,
        header_secret: repeated(0x11, 32),
        aead_algorithm: 0x1301,
        integrity_hash_algorithm: 1,
        max_rate_kibps: 1024,
        max_ack_delay_ms: 10,
    }
}

/// The first key of the channel.
pub fn first_key() -> (frame: ServerFrame)
    ensures
        frame@ == first_key_view(),
{
    ServerFrame::Key {
        channel_id: text_bytes("mcquic-wt-test"),
        key_sequence: 1,
        from_packet_number: 0,
        secret: repeated(0x22, 32),
    }
}

/// The second key of the channel, which is used from a packet on.
pub fn second_key(from_packet_number: u64) -> (frame: ServerFrame)
    ensures
        frame@ == second_key_view(from_packet_number),
{
    ServerFrame::Key {
        channel_id: text_bytes("mcquic-wt-test"),
        key_sequence: 2,
        from_packet_number,
        secret: repeated(0x33, 32),
    }
}

/// The control frame that an operation of a scenario queues, where it queues one that does not
/// come from the channel's sender.
pub open spec fn queued_frame(op: ScenarioOp, udp_port: u16) -> Option<ServerFrameView> {
    match op {
        ScenarioOp::SendAnnounce => Some(announcement(udp_port)),
        ScenarioOp::SendJoin { limits_sequence, state_sequence } => Some(
            ServerFrameView::Join {
                channel_id: channel_id(),
                mc_limits_sequence: limits_sequence,
                mc_state_sequence: state_sequence,
                mc_key_sequence: 1,
            },
        ),
        ScenarioOp::SendFirstKey => Some(first_key_view()),
        ScenarioOp::SendSecondKey { from_packet_number } => Some(
            second_key_view(from_packet_number),
        ),
        ScenarioOp::SendLeave { state_sequence, after_packet_number } => Some(
            ServerFrameView::Leave {
                channel_id: channel_id(),
                mc_state_sequence: state_sequence,
                after_packet_number,
            },
        ),
        ScenarioOp::SendRetire { after_packet_number } => Some(
            ServerFrameView::Retire { channel_id: channel_id(), after_packet_number },
        ),
        _ => None,
    }
}

/// The control frame that an operation of a scenario queues.
pub fn control_frame(op: ScenarioOp, udp_port: u16) -> (frame: Option<ServerFrame>)
    ensures
        match frame {
            Some(f) => queued_frame(op, udp_port) == Some(f@),
            None => queued_frame(op, udp_port) is None,
        },
{
    match op {
        ScenarioOp::SendAnnounce => Some(announce(udp_port)),
        ScenarioOp::SendJoin { limits_sequence, state_sequence } => Some(
            ServerFrame::Join {
                channel_id: text_bytes("mcquic-wt-test"),
                mc_limits_sequence: limits_sequence,
                mc_state_sequence: state_sequence,
                mc_key_sequence: 1,
            },
        ),
        ScenarioOp::SendFirstKey => Some(first_key()),
        ScenarioOp::SendSecondKey { from_packet_number } => Some(second_key(from_packet_number)),
        ScenarioOp::SendLeave { state_sequence, after_packet_number } => Some(
            ServerFrame::Leave {
                channel_id: text_bytes("mcquic-wt-test"),
                mc_state_sequence: state_sequence,
                after_packet_number,
            },
        ),
        ScenarioOp::SendRetire { after_packet_number } => Some(
            ServerFrame::Retire { channel_id: text_bytes("mcquic-wt-test"), after_packet_number },
        ),
        _ => None,
    }
}

/// The bytes that carry a body on a unidirectional stream of a session.
pub fn raw_webtransport_message(session_id: u64, body: &[u8]) -> (data: Result<
    Vec<u8>,
    ScenarioError,
>)
    ensures
        data is Ok <==> session_id < 0x4000_0000_0000_0000,
        data matches Ok(d) ==> d@ == webtransport_prefix(session_id) + body@,
        data matches Err(e) ==> fails_with(e, bad_session(session_id)),
{
    let mut data = mcquic_webtransport_prefix(session_id)?;
    append(&mut data, body);
    Ok(data)
}

/// The datagram that tests whether multicast reaches this machine.
pub open spec fn probe_bytes() -> Seq<u8> {
    "mcquic-loopback-ssm-probe".spec_bytes()
}

/// The datagram that tests whether multicast reaches this machine.
pub fn probe() -> (data: Vec<u8>)
    ensures
        data@ == probe_bytes(),
{
    text_bytes("mcquic-loopback-ssm-probe")
}

/// Whether a datagram is the one that was sent as a test.
pub fn is_probe(source: &IpAddress, data: &[u8]) -> (probe: bool)
    ensures
        probe == (source matches IpAddress::V4(octets) && octets@ == MCQUIC_SOURCE@ && data@
            == probe_bytes()),
{
    match source {
        IpAddress::V4(octets) => {
            let same = octets[0] == MCQUIC_SOURCE[0] && octets[1] == MCQUIC_SOURCE[1] && octets[2]
                == MCQUIC_SOURCE[2] && octets[3] == MCQUIC_SOURCE[3];
            proof {
                if same {
                    assert(octets@ =~= MCQUIC_SOURCE@);
                }
            }
            same && is_text(data, "mcquic-loopback-ssm-probe")
        },
        IpAddress::V6(_) => false,
    }
}

/// A join asks for the first key of the channel that is announced, and not for the second.
pub proof fn law_join_needs_first_key(limits_sequence: u64, state_sequence: u64, udp_port: u16)
    ensures
        ({
            let join = queued_frame(
                ScenarioOp::SendJoin { limits_sequence, state_sequence },
                udp_port,
            )->0;
            join->Join_mc_key_sequence == first_key_view()->Key_key_sequence
                && join->Join_mc_key_sequence != second_key_view(0)->Key_key_sequence
                && join->Join_channel_id == announcement(udp_port)->Announce_channel_id
        }),
{
}

/// The channel is announced from the loopback address to a group for one source, with the
/// algorithms that a client offers, and its secret is 32 equal bytes.
pub proof fn law_announcement(udp_port: u16, frame: ServerFrame)
    requires
        call_ensures(announce, (udp_port,), frame),
    ensures
        frame is Announce,
        frame->Announce_channel_id@ == "mcquic-wt-test".spec_bytes(),
        frame->source@ == seq![127u8, 0, 0, 1],
        frame->group@ == seq![232u8, 0, 0, 1],
        frame->udp_port == udp_port,
        frame->header_protection_algorithm == 0x1301 && frame->aead_algorithm == 0x1301,
        frame->integrity_hash_algorithm == 1,
        frame->max_rate_kibps == 1024 && frame->max_ack_delay_ms == 10,
        frame->header_secret@ == Seq::new(32, |i: int| 0x11u8),
{
    assert(frame@ == announcement(udp_port));
    assert(MCQUIC_SOURCE@ =~= seq![127u8, 0, 0, 1]);
    assert(MCQUIC_GROUP@ =~= seq![232u8, 0, 0, 1]);
}

/// The two keys of the channel differ in number and secret; the first is used from the first
/// packet on, the second from the packet that is named.
pub proof fn law_keys(from_packet_number: u64, first: ServerFrame, second: ServerFrame)
    requires
        call_ensures(first_key, (), first),
        call_ensures(second_key, (from_packet_number,), second),
    ensures
        first is Key && second is Key,
        first->Key_channel_id@ == "mcquic-wt-test".spec_bytes(),
        second->Key_channel_id@ == "mcquic-wt-test".spec_bytes(),
        first->key_sequence == 1 && second->key_sequence == 2,
        first->from_packet_number == 0 && second->from_packet_number == from_packet_number,
        first->secret@ == Seq::new(32, |i: int| 0x22u8),
        second->secret@ == Seq::new(32, |i: int| 0x33u8),
{
    assert(first@ == first_key_view());
    assert(second@ == second_key_view(from_packet_number));
}

/// An operation queues the frame of its own kind, with its own numbers; operations that queue no
/// frame of their own are the others.
pub proof fn law_queued_frames(op: ScenarioOp, udp_port: u16, frame: Option<ServerFrame>)
    requires
        call_ensures(control_frame, (op, udp_port), frame),
    ensures
        frame is Some <==> op is SendAnnounce || op is SendJoin || op is SendFirstKey || op
            is SendSecondKey || op is SendLeave || op is SendRetire,
        frame matches Some(f) ==> {
            &&& f is Announce <==> op is SendAnnounce
            &&& f is Join <==> op is SendJoin
            &&& f is Key <==> op is SendFirstKey || op is SendSecondKey
            &&& f is Leave <==> op is SendLeave
            &&& f is Retire <==> op is SendRetire
            &&& op is SendAnnounce ==> f@->udp_port == udp_port
            &&& op matches ScenarioOp::SendJoin { limits_sequence, state_sequence }
                ==> f@->mc_limits_sequence == limits_sequence && f@->Join_mc_state_sequence
                == state_sequence && f@->mc_key_sequence == 1
            &&& op is SendFirstKey ==> f@->key_sequence == 1
            &&& op matches ScenarioOp::SendSecondKey { from_packet_number } ==> f@->key_sequence
                == 2 && f@->from_packet_number == from_packet_number
            &&& op matches ScenarioOp::SendLeave { state_sequence, after_packet_number }
                ==> f@->Leave_mc_state_sequence == state_sequence
                && f@->Leave_after_packet_number == after_packet_number
            &&& op matches ScenarioOp::SendRetire { after_packet_number }
                ==> f@->Retire_after_packet_number == after_packet_number
        },
{
    if let Some(f) = frame {
        assert(queued_frame(op, udp_port) == Some(f@));
    }
}

/// A message on a stream is its body behind the prefix of the session, and the datagram that
/// tests the way is known by its bytes and its source.
pub proof fn law_channel_messages(
    session_id: u64,
    body: &[u8],
    data: Result<Vec<u8>, ScenarioError>,
    prefix: Result<Vec<u8>, ScenarioError>,
    sent: Vec<u8>,
    source: IpAddress,
    received: &[u8],
    is: bool,
)
    requires
        call_ensures(raw_webtransport_message, (session_id, body), data),
        call_ensures(mcquic_webtransport_prefix, (session_id,), prefix),
        call_ensures(probe, (), sent),
        call_ensures(is_probe, (&source, received), is),
    ensures
        data is Ok <==> session_id < 0x4000_0000_0000_0000,
        data matches Ok(d) ==> prefix is Ok && d@ == prefix->Ok_0@ + body@,
        data matches Err(e) ==> fails_with(e, bad_session(session_id)),
        sent@ == "mcquic-loopback-ssm-probe".spec_bytes(),
        is <==> received@ == sent@ && (source matches IpAddress::V4(octets) && octets@ == seq![
            127u8,
            0,
            0,
            1,
        ]),
{
    assert(MCQUIC_SOURCE@ =~= seq![127u8, 0, 0, 1]);
}

}
