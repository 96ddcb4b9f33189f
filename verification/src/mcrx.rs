//! The multicast receiver: subscriptions, and received packets as the embedder gets them.
use crate::address::IpAddress;
use crate::nsresult::NsResult;
use crate::text::{decoded, or_empty, text_or_empty};
use crate::thin::{thin_bytes, thin_from, thin_new};
use thin_vec::ThinVec;
use vstd::prelude::*;
use vstd::utf8::{decode_utf8, valid_utf8};

verus! {

/// The kinds of errors of the multicast receiver that are told apart.
#[derive(Clone, Copy, Debug, PartialEq, Eq, Structural)]
pub enum McrxErrorKind {
    InvalidDestinationPort,
    InvalidMulticastGroup,
    InvalidSourceAddress,
    InvalidIpv4SsmGroup,
    InvalidIpv6SsmGroup,
    SourceAddressFamilyMismatch,
    InterfaceAddressFamilyMismatch,
    InvalidInterfaceIndex,
    InterfaceIndexRequiresIpv6,
    ExistingSocketAddressFamilyMismatch,
    ExistingSocketPortMismatch,
    DuplicateSubscription,
    SubscriptionAlreadyJoined,
    SubscriptionNotFound,
    SubscriptionNotJoined,
    SocketBindFailed,
    Other,
}

/// What the embedder is told of an error of the multicast receiver.
pub open spec fn mcrx_result(kind: McrxErrorKind) -> NsResult {
    match kind {
        McrxErrorKind::DuplicateSubscription => NsResult::NS_ERROR_FILE_ALREADY_EXISTS,
        McrxErrorKind::SubscriptionAlreadyJoined => NsResult::NS_ERROR_FILE_ALREADY_EXISTS,
        McrxErrorKind::SubscriptionNotFound => NsResult::NS_ERROR_NOT_AVAILABLE,
        McrxErrorKind::SubscriptionNotJoined => NsResult::NS_ERROR_NOT_AVAILABLE,
        McrxErrorKind::SocketBindFailed => NsResult::NS_ERROR_SOCKET_ADDRESS_IN_USE,
        McrxErrorKind::Other => NsResult::NS_ERROR_UNEXPECTED,
        _ => NsResult::NS_ERROR_INVALID_ARG,
    }
}

/// What the embedder is told of an error of the multicast receiver.
pub fn mcquic_mcrx_error_to_nsresult(kind: McrxErrorKind) -> (result: NsResult)
    ensures
        result == mcrx_result(kind),
{
    match kind {
        McrxErrorKind::InvalidDestinationPort
        | McrxErrorKind::InvalidMulticastGroup
        | McrxErrorKind::InvalidSourceAddress
        | McrxErrorKind::InvalidIpv4SsmGroup
        | McrxErrorKind::InvalidIpv6SsmGroup
        | McrxErrorKind::SourceAddressFamilyMismatch
        | McrxErrorKind::InterfaceAddressFamilyMismatch
        | McrxErrorKind::InvalidInterfaceIndex
        | McrxErrorKind::InterfaceIndexRequiresIpv6
        | McrxErrorKind::ExistingSocketAddressFamilyMismatch
        | McrxErrorKind::ExistingSocketPortMismatch => NsResult::NS_ERROR_INVALID_ARG,
        McrxErrorKind::DuplicateSubscription | McrxErrorKind::SubscriptionAlreadyJoined => {
            NsResult::NS_ERROR_FILE_ALREADY_EXISTS
        },
        McrxErrorKind::SubscriptionNotFound | McrxErrorKind::SubscriptionNotJoined => {
            NsResult::NS_ERROR_NOT_AVAILABLE
        },
        McrxErrorKind::SocketBindFailed => NsResult::NS_ERROR_SOCKET_ADDRESS_IN_USE,
        McrxErrorKind::Other => NsResult::NS_ERROR_UNEXPECTED,
    }
}

/// The text of an address, where the bytes are one.
pub fn mcrx_ip_text(value: &[u8]) -> (text: Result<String, NsResult>)
    ensures
        match text {
            Ok(t) => valid_utf8(value@) && t@ == decode_utf8(value@),
            Err(e) => !valid_utf8(value@) && e == NsResult::NS_ERROR_INVALID_ARG,
        },
{
    match decoded(value) {
        Some(text) => Ok(text),
        None => Err(NsResult::NS_ERROR_INVALID_ARG),
    }
}

/// The text of an address that may be left out: no bytes stand for none.
pub fn optional_mcrx_ip_text(value: &[u8]) -> (text: Result<Option<String>, NsResult>)
    ensures
        match text {
            Ok(None) => value@.len() == 0,
            Ok(Some(t)) => value@.len() > 0 && valid_utf8(value@) && t@ == decode_utf8(value@),
            Err(e) => value@.len() > 0 && !valid_utf8(value@) && e
                == NsResult::NS_ERROR_INVALID_ARG,
        },
{
    if value.len() == 0 {
        return Ok(None);
    }
    match mcrx_ip_text(value) {
        Ok(text) => Ok(Some(text)),
        Err(e) => Err(e),
    }
}

/// A subscription to a group from one source.
#[derive(Clone, Copy, Debug)]
pub struct SsmSubscription {
    pub source: IpAddress,
    pub group: IpAddress,
    pub dst_port: u16,
    pub interface: Option<IpAddress>,
    pub interface_index: Option<u32>,
}

/// A subscription, from its parts. An address is none where its text is no address; the outer
/// `Option` of the interface tells that, the inner one whether an interface is named at all.
pub fn ssm_subscription(
    source: Option<IpAddress>,
    group: Option<IpAddress>,
    dst_port: u16,
    interface: Option<Option<IpAddress>>,
    has_interface_index: bool,
    interface_index: u32,
) -> (subscription: Result<SsmSubscription, NsResult>)
    ensures
        match (source, group, interface) {
            (Some(s), Some(g), Some(i)) => subscription == Ok::<SsmSubscription, NsResult>(
                SsmSubscription {
                    source: s,
                    group: g,
                    dst_port,
                    interface: i,
                    interface_index: if has_interface_index {
                        Some(interface_index)
                    } else {
                        None
                    },
                },
            ),
            _ => subscription == Err::<SsmSubscription, NsResult>(NsResult::NS_ERROR_INVALID_ARG),
        },
{
    match (source, group, interface) {
        (Some(source), Some(group), Some(interface)) => Ok(
            SsmSubscription {
                source,
                group,
                dst_port,
                interface,
                interface_index: if has_interface_index {
                    Some(interface_index)
                } else {
                    None
                },
            },
        ),
        _ => Err(NsResult::NS_ERROR_INVALID_ARG),
    }
}

/// What the embedder is told once a subscription was to be added.
pub fn subscription_added(added: Result<u64, McrxErrorKind>, subscription_id: &mut u64) -> (result:
    NsResult)
    ensures
        match added {
            Ok(id) => result == NsResult::NS_OK && *final(subscription_id) == id,
            Err(kind) => result == mcrx_result(kind) && *final(subscription_id) == 0,
        },
{
    *subscription_id = 0;
    match added {
        Ok(id) => {
            *subscription_id = id;
            NsResult::NS_OK
        },
        Err(kind) => mcquic_mcrx_error_to_nsresult(kind),
    }
}

/// What the embedder is told once a subscription was to be joined or left.
pub fn subscription_changed(changed: Result<(), McrxErrorKind>) -> (result: NsResult)
    ensures
        result == (match changed {
            Ok(()) => NsResult::NS_OK,
            Err(kind) => mcrx_result(kind),
        }),
{
    match changed {
        Ok(()) => NsResult::NS_OK,
        Err(kind) => mcquic_mcrx_error_to_nsresult(kind),
    }
}

/// A received packet. Addresses are texts.
#[derive(Debug)]
pub struct ReceivedPacket {
    pub subscription_id: u64,
    pub source_ip: String,
    pub source_port: u16,
    pub group_ip: String,
    pub dst_port: u16,
    pub socket_local_addr: Option<(String, u16)>,
    pub configured_interface: Option<String>,
    pub configured_interface_index: Option<u32>,
    pub destination_local_ip: Option<String>,
    pub ingress_interface_index: Option<u32>,
    pub payload: Vec<u8>,
}

/// A received packet as the embedder gets it. What is not known is zero, false or empty.
#[derive(Debug)]
pub struct McquicMcrxPacket {
    pub subscription_id: u64,
    pub source_ip: String,
    pub source_port: u16,
    pub group_ip: String,
    pub dst_port: u16,
    pub socket_local_ip: String,
    pub socket_local_port: u16,
    pub configured_interface_ip: String,
    pub has_configured_interface_index: bool,
    pub configured_interface_index: u32,
    pub destination_local_ip: String,
    pub has_ingress_interface_index: bool,
    pub ingress_interface_index: u32,
    pub payload: ThinVec<u8>,
}

/// The contents of a [`McquicMcrxPacket`].
pub struct PacketView {
    pub subscription_id: u64,
    pub source_ip: Seq<char>,
    pub source_port: u16,
    pub group_ip: Seq<char>,
    pub dst_port: u16,
    pub socket_local_ip: Seq<char>,
    pub socket_local_port: u16,
    pub configured_interface_ip: Seq<char>,
    pub has_configured_interface_index: bool,
    pub configured_interface_index: u32,
    pub destination_local_ip: Seq<char>,
    pub has_ingress_interface_index: bool,
    pub ingress_interface_index: u32,
    pub payload: Seq<u8>,
}

impl View for McquicMcrxPacket {
    type V = PacketView;

    open spec fn view(&self) -> PacketView {
        PacketView {
            subscription_id: self.subscription_id,
            source_ip: self.source_ip@,
            source_port: self.source_port,
            group_ip: self.group_ip@,
            dst_port: self.dst_port,
            socket_local_ip: self.socket_local_ip@,
            socket_local_port: self.socket_local_port,
            configured_interface_ip: self.configured_interface_ip@,
            has_configured_interface_index: self.has_configured_interface_index,
            configured_interface_index: self.configured_interface_index,
            destination_local_ip: self.destination_local_ip@,
            has_ingress_interface_index: self.has_ingress_interface_index,
            ingress_interface_index: self.ingress_interface_index,
            payload: thin_bytes(self.payload),
        }
    }
}

impl Default for McquicMcrxPacket {
    fn default() -> (packet: Self)
        ensures
            packet@ == (PacketView {
                subscription_id: 0,
                source_ip: Seq::empty(),
                source_port: 0,
                group_ip: Seq::empty(),
                dst_port: 0,
                socket_local_ip: Seq::empty(),
                socket_local_port: 0,
                configured_interface_ip: Seq::empty(),
                has_configured_interface_index: false,
                configured_interface_index: 0,
                destination_local_ip: Seq::empty(),
                has_ingress_interface_index: false,
                ingress_interface_index: 0,
                payload: Seq::empty(),
            }),
    {
        let packet = McquicMcrxPacket {
            subscription_id: 0,
            source_ip: String::new(),
            source_port: 0,
            group_ip: String::new(),
            dst_port: 0,
            socket_local_ip: String::new(),
            socket_local_port: 0,
            configured_interface_ip: String::new(),
            has_configured_interface_index: false,
            configured_interface_index: 0,
            destination_local_ip: String::new(),
            has_ingress_interface_index: false,
            ingress_interface_index: 0,
            payload: thin_new(),
        };
        assert(packet.source_ip@ =~= Seq::<char>::empty());
        packet
    }
}

/// The text of an address, or no text.
pub fn ip_string(ip: &Option<String>) -> (text: String)
    ensures
        text@ == text_or_empty(*ip),
{
    or_empty(ip)
}

/// A received packet as the embedder gets it.
pub open spec fn packet_view(packet: ReceivedPacket) -> PacketView {
    PacketView {
        subscription_id: packet.subscription_id,
        source_ip: packet.source_ip@,
        source_port: packet.source_port,
        group_ip: packet.group_ip@,
        dst_port: packet.dst_port,
        socket_local_ip: match packet.socket_local_addr {
            Some((ip, _)) => ip@,
            None => Seq::empty(),
        },
        socket_local_port: match packet.socket_local_addr {
            Some((_, port)) => port,
            None => 0,
        },
        configured_interface_ip: text_or_empty(packet.configured_interface),
        has_configured_interface_index: packet.configured_interface_index is Some,
        configured_interface_index: match packet.configured_interface_index {
            Some(index) => index,
            None => 0,
        },
        destination_local_ip: text_or_empty(packet.destination_local_ip),
        has_ingress_interface_index: packet.ingress_interface_index is Some,
        ingress_interface_index: match packet.ingress_interface_index {
            Some(index) => index,
            None => 0,
        },
        payload: packet.payload@,
    }
}

/// Gives the embedder a received packet.
pub fn fill_mcquic_mcrx_packet(out: &mut McquicMcrxPacket, packet: &ReceivedPacket)
    ensures
        final(out)@ == packet_view(*packet),
{
    out.subscription_id = packet.subscription_id;
    out.source_ip = packet.source_ip.as_str().to_owned();
    out.source_port = packet.source_port;
    out.group_ip = packet.group_ip.as_str().to_owned();
    out.dst_port = packet.dst_port;
    match &packet.socket_local_addr {
        Some((ip, port)) => {
            out.socket_local_ip = ip.as_str().to_owned();
            out.socket_local_port = *port;
        },
        None => {
            out.socket_local_ip = ip_string(&None);
            out.socket_local_port = 0;
        },
    }
    out.configured_interface_ip = ip_string(&packet.configured_interface);
    out.has_configured_interface_index = packet.configured_interface_index.is_some();
    out.configured_interface_index = match packet.configured_interface_index {
        Some(index) => index,
        None => 0,
    };
    out.destination_local_ip = ip_string(&packet.destination_local_ip);
    out.has_ingress_interface_index = packet.ingress_interface_index.is_some();
    out.ingress_interface_index = match packet.ingress_interface_index {
        Some(index) => index,
        None => 0,
    };
    out.payload = thin_from(packet.payload.as_slice());
}

/// Gives the embedder the packet that was polled for, if one was there.
pub fn packet_polled(
    polled: &Result<Option<ReceivedPacket>, McrxErrorKind>,
    packet: &mut McquicMcrxPacket,
) -> (result: NsResult)
    ensures
        match *polled {
            Ok(Some(p)) => result == NsResult::NS_OK && final(packet)@ == packet_view(p),
            Ok(None) => result == NsResult::NS_BASE_STREAM_WOULD_BLOCK && *final(packet) == *old(
                packet,
            ),
            Err(kind) => result == mcrx_result(kind) && *final(packet) == *old(packet),
        },
{
    match polled {
        Ok(Some(p)) => {
            fill_mcquic_mcrx_packet(packet, p);
            NsResult::NS_OK
        },
        Ok(None) => NsResult::NS_BASE_STREAM_WOULD_BLOCK,
        Err(kind) => mcquic_mcrx_error_to_nsresult(*kind),
    }
}

/// An error of the multicast receiver is never told as a success.
pub proof fn law_mcrx_errors_are_errors(kind: McrxErrorKind)
    ensures
        mcrx_result(kind) != NsResult::NS_OK,
{
}

/// What the embedder is told of each kind of error: that a subscription is there already, that it
/// is not there, that the address is in use, or that an argument was bad, which is said of all
/// that is wrong with a subscription itself.
pub proof fn law_mcrx_errors_are_told(
    kind: McrxErrorKind,
    result: NsResult,
    changed: Result<(), McrxErrorKind>,
    told: NsResult,
)
    requires
        call_ensures(mcquic_mcrx_error_to_nsresult, (kind,), result),
        call_ensures(subscription_changed, (changed,), told),
    ensures
        result == NsResult::NS_ERROR_FILE_ALREADY_EXISTS <==> kind is DuplicateSubscription || kind
            is SubscriptionAlreadyJoined,
        result == NsResult::NS_ERROR_NOT_AVAILABLE <==> kind is SubscriptionNotFound || kind
            is SubscriptionNotJoined,
        result == NsResult::NS_ERROR_SOCKET_ADDRESS_IN_USE <==> kind is SocketBindFailed,
        result == NsResult::NS_ERROR_UNEXPECTED <==> kind is Other,
        result == NsResult::NS_ERROR_INVALID_ARG <==> kind is InvalidDestinationPort || kind
            is InvalidMulticastGroup || kind is InvalidSourceAddress || kind is InvalidIpv4SsmGroup
            || kind is InvalidIpv6SsmGroup || kind is SourceAddressFamilyMismatch || kind
            is InterfaceAddressFamilyMismatch || kind is InvalidInterfaceIndex || kind
            is InterfaceIndexRequiresIpv6 || kind is ExistingSocketAddressFamilyMismatch || kind
            is ExistingSocketPortMismatch,
        told == NsResult::NS_OK <==> changed is Ok,
        changed == Err::<(), McrxErrorKind>(kind) ==> told == result,
{
}

/// The text of an address is what its bytes hold; one that may be left out is left out where
/// there are no bytes.
pub proof fn law_address_texts(
    value: &[u8],
    text: Result<String, NsResult>,
    optional: Result<Option<String>, NsResult>,
)
    requires
        call_ensures(mcrx_ip_text, (value,), text),
        call_ensures(optional_mcrx_ip_text, (value,), optional),
    ensures
        text is Ok <==> valid_utf8(value@),
        text matches Ok(t) ==> t@ == decode_utf8(value@),
        text matches Err(e) ==> e == NsResult::NS_ERROR_INVALID_ARG,
        optional matches Ok(None) <==> value@.len() == 0,
        optional is Err <==> value@.len() > 0 && !valid_utf8(value@),
        optional matches Ok(Some(t)) ==> t@ == decode_utf8(value@),
        optional matches Err(e) ==> e == NsResult::NS_ERROR_INVALID_ARG,
{
}

/// A subscription holds its parts, each in its place, and is refused where one of its addresses
/// is none. Once it is added, the embedder gets its number, and zero where it is not.
pub proof fn law_subscriptions(
    source: Option<IpAddress>,
    group: Option<IpAddress>,
    dst_port: u16,
    interface: Option<Option<IpAddress>>,
    has_interface_index: bool,
    interface_index: u32,
    subscription: Result<SsmSubscription, NsResult>,
    added: Result<u64, McrxErrorKind>,
    id: &mut u64,
    result: NsResult,
)
    requires
        call_ensures(
            ssm_subscription,
            (source, group, dst_port, interface, has_interface_index, interface_index),
            subscription,
        ),
        call_ensures(subscription_added, (added, id), result),
    ensures
        subscription is Ok <==> source is Some && group is Some && interface is Some,
        subscription matches Ok(s) ==> {
            &&& source == Some(s.source) && group == Some(s.group) && interface == Some(s.interface)
            &&& s.dst_port == dst_port
            &&& s.interface_index is Some <==> has_interface_index
            &&& s.interface_index matches Some(index) ==> index == interface_index
        },
        subscription matches Err(e) ==> e == NsResult::NS_ERROR_INVALID_ARG,
        result == NsResult::NS_OK <==> added is Ok,
        added matches Ok(n) ==> *final(id) == n,
        added matches Err(kind) ==> *final(id) == 0 && result == mcrx_result(kind),
{
}

/// The embedder gets a packet with each thing in its place, and is told to wait where there is
/// none; what is not known of a packet is marked so.
pub proof fn law_packets_are_handed_over(
    polled: Result<Option<ReceivedPacket>, McrxErrorKind>,
    packet: &mut McquicMcrxPacket,
    result: NsResult,
)
    requires
        call_ensures(packet_polled, (&polled, packet), result),
    ensures
        result == NsResult::NS_OK <==> polled matches Ok(Some(_)),
        result == NsResult::NS_BASE_STREAM_WOULD_BLOCK <==> polled matches Ok(None),
        polled matches Err(kind) ==> result == mcrx_result(kind),
        !(polled matches Ok(Some(_))) ==> *final(packet) == *old(packet),
        polled matches Ok(Some(p)) ==> {
            let out = *final(packet);
            &&& out.subscription_id == p.subscription_id
            &&& out.source_ip@ == p.source_ip@ && out.source_port == p.source_port
            &&& out.group_ip@ == p.group_ip@ && out.dst_port == p.dst_port
            &&& thin_bytes(out.payload) == p.payload@
            &&& p.socket_local_addr matches Some(local) ==> out.socket_local_ip@ == local.0@
                && out.socket_local_port == local.1
            &&& p.socket_local_addr is None ==> out.socket_local_ip@.len() == 0
                && out.socket_local_port == 0
            &&& p.configured_interface matches Some(ip) ==> out.configured_interface_ip@ == ip@
            &&& p.configured_interface is None ==> out.configured_interface_ip@.len() == 0
            &&& p.destination_local_ip matches Some(ip) ==> out.destination_local_ip@ == ip@
            &&& p.destination_local_ip is None ==> out.destination_local_ip@.len() == 0
            &&& out.has_configured_interface_index <==> p.configured_interface_index is Some
            &&& out.configured_interface_index == p.configured_interface_index.unwrap_or(0)
            &&& out.has_ingress_interface_index <==> p.ingress_interface_index is Some
            &&& out.ingress_interface_index == p.ingress_interface_index.unwrap_or(0)
        },
{
    if let Ok(Some(p)) = polled {
        assert(final(packet)@ == packet_view(p));
    }
}

}
