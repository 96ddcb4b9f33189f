//! The server that connects its clients to others, by TCP and by UDP.
use crate::bytes::{append, copy, either, is_text, last_separator, split, split_at, text_bytes};
use crate::headers::{header_views, Header, HeaderView};
use crate::server::requests::{
    action_views, bare_head, find_header, find_value, push_action, push_text, RequestAction,
    RequestActionView,
};
use crate::text::{parse_unsigned, unsigned};
use vstd::prelude::*;
use vstd::slice::slice_subrange;
use vstd::string::StringSliceAdditionalSpecFns;
use vstd::utf8::valid_utf8;

verus! {

/// Whether a host is a name for this machine.
pub open spec fn is_local_name(host: Seq<u8>) -> bool {
    ||| host == "foo.example.com".spec_bytes()
    ||| host == "alt1.example.com".spec_bytes()
    ||| host == "alt2.example.com".spec_bytes()
}

fn names_this_machine(host: &[u8]) -> (local: bool)
    ensures
        local == is_local_name(host@),
{
    is_text(host, "foo.example.com") || is_text(host, "alt1.example.com") || is_text(
        host,
        "alt2.example.com",
    )
}

/// Where a colon stands last, or -1.
pub open spec fn last_colon(host: Seq<u8>) -> int {
    last_separator(host, either(0x3a, 0x3a))
}

fn find_last_colon(host: &[u8]) -> (at: Option<usize>)
    ensures
        match at {
            Some(i) => i < host@.len() && last_colon(host@) == i,
            None => last_colon(host@) == -1,
        },
{
    let mut n: usize = host.len();
    assert(host@.take(n as int) =~= host@);
    while n > 0
        invariant
            n <= host@.len(),
            last_colon(host@) == last_colon(host@.take(n as int)),
        decreases n,
    {
        n -= 1;
        proof {
            assert(host@.take(n + 1).last() == host@[n as int]);
            assert(host@.take(n + 1).drop_last() =~= host@.take(n as int));
        }
        if host[n] == 0x3a {
            return Some(n);
        }
    }
    None
}

/// Where a client is connected that asks for a host: names for this machine lead to it, at the
/// same port.
pub open spec fn tcp_target(host: Seq<u8>) -> Seq<u8> {
    let colon = last_colon(host);
    let name = if colon >= 0 {
        host.take(colon)
    } else {
        host
    };
    if is_local_name(name) {
        if colon >= 0 {
            "127.0.0.1:".spec_bytes() + host.skip(colon + 1)
        } else {
            "127.0.0.1:80".spec_bytes()
        }
    } else {
        host
    }
}

/// Where a client is connected that asks for a host.
pub fn find_tcp_target(host: &[u8]) -> (target: Vec<u8>)
    ensures
        target@ == tcp_target(host@),
{
    match find_last_colon(host) {
        Some(colon) => {
            let name = slice_subrange(host, 0, colon);
            assert(name@ =~= host@.take(colon as int));
            if names_this_machine(name) {
                let end: usize = host.len();
                let port = slice_subrange(host, colon + 1, end);
                assert(port@ =~= host@.skip(colon + 1));
                let mut target = text_bytes("127.0.0.1:");
                append(&mut target, port);
                target
            } else {
                copy(host)
            }
        },
        None => {
            if names_this_machine(host) {
                text_bytes("127.0.0.1:80")
            } else {
                copy(host)
            }
        },
    }
}

/// Whether a request asks to be connected to a host.
pub open spec fn is_connect(headers: Seq<HeaderView>) -> bool {
    &&& find_value(headers, ":method"@) == Some("CONNECT".spec_bytes())
    &&& find_value(headers, ":authority"@) matches Some(host) && valid_utf8(host)
}

/// Where a request asks to be connected to, if it does.
pub fn connect_target(headers: &Vec<Header>) -> (target: Option<Vec<u8>>)
    ensures
        target is Some <==> is_connect(header_views(headers@)),
        target matches Some(t) ==> t@ == tcp_target(
            find_value(header_views(headers@), ":authority"@)->0,
        ),
{
    match find_header(headers, ":method") {
        Some(method) => {
            if !is_text(method, "CONNECT") {
                return None;
            }
        },
        None => {
            return None;
        },
    }
    match find_header(headers, ":authority") {
        Some(host) => {
            if crate::text::decoded(host).is_none() {
                return None;
            }
            Some(find_tcp_target(host))
        },
        None => None,
    }
}

/// What a client is told whose request could be met, or could not.
pub open spec fn connect_answer(connected: bool) -> Seq<RequestActionView> {
    if connected {
        seq![bare_head("200")]
    } else {
        seq![bare_head("502"), RequestActionView::CloseSend]
    }
}

/// What a client is told whose request could be met, or could not.
pub fn answer_connect(connected: bool) -> (actions: Vec<RequestAction>)
    ensures
        action_views(actions@) == connect_answer(connected),
{
    let status = if connected {
        "200"
    } else {
        "502"
    };
    let mut head: Vec<Header> = Vec::new();
    push_text(&mut head, ":status", status);
    push_text(&mut head, "cache-control", "no-cache");
    assert(header_views(head@) =~= bare_head(status)->SendHeaders_0);
    let mut actions: Vec<RequestAction> = Vec::new();
    push_action(&mut actions, RequestAction::SendHeaders(head));
    if !connected {
        push_action(&mut actions, RequestAction::CloseSend);
    }
    assert(action_views(actions@) =~= connect_answer(connected));
    actions
}

/// Where a client asks to send datagrams to.
pub struct UdpTarget {
    pub host: Vec<u8>,
    pub port: u16,
}

/// The host and the port that a path names: they stand fifth and sixth between its slashes. A
/// path that is no text names none.
pub open spec fn udp_target(path: Seq<u8>) -> Option<(Seq<u8>, u16)> {
    let parts = split(path, either(0x2f, 0x2f));
    if !valid_utf8(path) || parts.len() < 6 {
        None
    } else {
        match unsigned(parts[5], u16::MAX as nat) {
            Some(port) => Some(
                (
                    if is_local_name(parts[4]) {
                        "127.0.0.1".spec_bytes()
                    } else {
                        parts[4]
                    },
                    port as u16,
                ),
            ),
            None => None,
        }
    }
}

/// The host and the port that a path names.
pub fn find_udp_target(path: &[u8]) -> (target: Option<UdpTarget>)
    ensures
        match target {
            Some(t) => udp_target(path@) == Some((t.host@, t.port)),
            None => udp_target(path@) is None,
        },
{
    let parts = split_at(path, 0x2f, 0x2f);
    let ghost all = crate::bytes::slices(parts@);
    if crate::text::decoded(path).is_none() || parts.len() < 6 {
        return None;
    }
    assert(all[4] == parts@[4]@ && all[5] == parts@[5]@);
    match parse_unsigned(parts[5], 0xffff) {
        Some(port) => {
            let host = if names_this_machine(parts[4]) {
                text_bytes("127.0.0.1")
            } else {
                copy(parts[4])
            };
            Some(UdpTarget { host, port: port as u16 })
        },
        None => None,
    }
}

/// A connection by TCP on behalf of a client.
#[derive(Debug)]
pub struct TcpTunnel {
    send_buffer: Vec<u8>,
    recv_buffer: Vec<u8>,
    send_fin: bool,
    received_fin: bool,
}

/// The contents of a [`TcpTunnel`].
#[verifier::ext_equal]
pub struct TunnelView {
    /// What is still to be sent to the other side.
    pub send_buffer: Seq<u8>,
    /// What is still to be sent to the client.
    pub recv_buffer: Seq<u8>,
    /// The client sends no more.
    pub send_fin: bool,
    /// The other side sends no more, or failed.
    pub received_fin: bool,
}

impl View for TcpTunnel {
    type V = TunnelView;

    closed spec fn view(&self) -> TunnelView {
        TunnelView {
            send_buffer: self.send_buffer@,
            recv_buffer: self.recv_buffer@,
            send_fin: self.send_fin,
            received_fin: self.received_fin,
        }
    }
}

fn drop_front(buffer: &mut Vec<u8>, n: usize)
    requires
        n <= old(buffer)@.len(),
    ensures
        final(buffer)@ == old(buffer)@.skip(n as int),
{
    let rest = copy(slice_subrange(buffer.as_slice(), n, buffer.len()));
    assert(rest@ =~= buffer@.skip(n as int));
    *buffer = rest;
}

impl TcpTunnel {
    pub fn new() -> (tunnel: Self)
        ensures
            tunnel@ == (TunnelView {
                send_buffer: Seq::empty(),
                recv_buffer: Seq::empty(),
                send_fin: false,
                received_fin: false,
            }),
    {
        TcpTunnel {
            send_buffer: Vec::new(),
            recv_buffer: Vec::new(),
            send_fin: false,
            received_fin: false,
        }
    }

    /// Takes in data of the client.
    pub fn on_data(&mut self, data: &[u8], fin: bool)
        ensures
            final(self)@ == (TunnelView {
                send_buffer: old(self)@.send_buffer + data@,
                send_fin: old(self)@.send_fin || fin,
                ..old(self)@
            }),
    {
        append(&mut self.send_buffer, data);
        self.send_fin = self.send_fin || fin;
    }

    /// What is to be sent to the client.
    pub fn for_client(&self) -> (data: &[u8])
        ensures
            data@ == self@.recv_buffer,
    {
        self.recv_buffer.as_slice()
    }

    /// Takes in how much the client took, or that it failed, and tells whether to send on.
    pub fn client_took(&mut self, sent: Option<usize>) -> (go_on: bool)
        requires
            sent matches Some(n) ==> n <= old(self)@.recv_buffer.len(),
        ensures
            match sent {
                Some(n) => {
                    &&& final(self)@ == (TunnelView {
                        recv_buffer: old(self)@.recv_buffer.skip(n as int),
                        ..old(self)@
                    })
                    &&& go_on == (0 < n < old(self)@.recv_buffer.len())
                },
                None => !go_on && final(self)@ == old(self)@,
            },
    {
        match sent {
            Some(n) => {
                if n == 0 {
                    assert(self@.recv_buffer.skip(0) =~= self@.recv_buffer);
                    return false;
                }
                drop_front(&mut self.recv_buffer, n);
                self.recv_buffer.len() > 0
            },
            None => false,
        }
    }

    /// Takes in what the other side sent, or that it failed, and tells whether to read on. Where
    /// nothing came it sends no more.
    pub fn on_read(&mut self, data: Option<&[u8]>) -> (go_on: bool)
        ensures
            match data {
                Some(d) => if d@.len() > 0 {
                    go_on && final(self)@ == (TunnelView {
                        recv_buffer: old(self)@.recv_buffer + d@,
                        ..old(self)@
                    })
                } else {
                    !go_on && final(self)@ == (TunnelView { received_fin: true, ..old(self)@ })
                },
                None => !go_on && final(self)@ == (TunnelView {
                    received_fin: true,
                    ..old(self)@
                }),
            },
    {
        match data {
            Some(d) => {
                if d.len() > 0 {
                    append(&mut self.recv_buffer, d);
                    true
                } else {
                    self.received_fin = true;
                    false
                }
            },
            None => {
                self.received_fin = true;
                false
            },
        }
    }

    /// What is to be sent to the other side.
    pub fn for_origin(&self) -> (data: &[u8])
        ensures
            data@ == self@.send_buffer,
    {
        self.send_buffer.as_slice()
    }

    /// Takes in how much the other side took, or that it failed, and tells whether to send on.
    pub fn origin_took(&mut self, sent: Option<usize>) -> (go_on: bool)
        requires
            sent matches Some(n) ==> n <= old(self)@.send_buffer.len(),
        ensures
            match sent {
                Some(n) => {
                    &&& final(self)@ == (TunnelView {
                        send_buffer: old(self)@.send_buffer.skip(n as int),
                        ..old(self)@
                    })
                    &&& go_on == (0 < n < old(self)@.send_buffer.len())
                },
                None => !go_on && final(self)@ == (TunnelView {
                    received_fin: true,
                    ..old(self)@
                }),
            },
    {
        match sent {
            Some(n) => {
                if n == 0 {
                    assert(self@.send_buffer.skip(0) =~= self@.send_buffer);
                    return false;
                }
                drop_front(&mut self.send_buffer, n);
                self.send_buffer.len() > 0
            },
            None => {
                self.received_fin = true;
                false
            },
        }
    }

    /// Whether the other side is to be told that the client sends no more.
    pub fn shuts_down(&self) -> (shuts_down: bool)
        ensures
            shuts_down == self@.send_fin,
    {
        self.send_fin
    }
}

/// Something that happens to a buffer.
pub enum BufferEvent {
    /// Bytes come.
    In(Seq<u8>),
    /// So many bytes are taken.
    Out(nat),
}

/// What was taken from a buffer that was empty, and what is left in it.
pub open spec fn replay(events: Seq<BufferEvent>) -> (Seq<u8>, Seq<u8>)
    decreases events.len(),
{
    if events.len() == 0 {
        (Seq::empty(), Seq::empty())
    } else {
        let before = replay(events.drop_last());
        match events.last() {
            BufferEvent::In(data) => (before.0, before.1 + data),
            BufferEvent::Out(n) => (
                before.0 + before.1.take(n as int),
                before.1.skip(n as int),
            ),
        }
    }
}

/// What came, all of it.
pub open spec fn incoming(events: Seq<BufferEvent>) -> Seq<u8>
    decreases events.len(),
{
    if events.len() == 0 {
        Seq::empty()
    } else {
        match events.last() {
            BufferEvent::In(data) => incoming(events.drop_last()) + data,
            BufferEvent::Out(_) => incoming(events.drop_last()),
        }
    }
}

/// Whether no more was taken at any time than was there.
pub open spec fn is_possible(events: Seq<BufferEvent>) -> bool
    decreases events.len(),
{
    events.len() > 0 ==> is_possible(events.drop_last()) && (events.last() matches BufferEvent::Out(
        n,
    ) ==> n <= replay(events.drop_last()).1.len())
}

/// A tunnel loses nothing, doubles nothing and keeps the order: what was taken from a buffer and
/// what is left in it are what came.
pub proof fn law_tunnel_keeps_order(events: Seq<BufferEvent>)
    requires
        is_possible(events),
    ensures
        replay(events).0 + replay(events).1 == incoming(events),
    decreases events.len(),
{
    if events.len() > 0 {
        law_tunnel_keeps_order(events.drop_last());
        let before = replay(events.drop_last());
        match events.last() {
            BufferEvent::In(data) => {
                assert(before.0 + (before.1 + data) =~= (before.0 + before.1) + data);
            },
            BufferEvent::Out(n) => {
                assert((before.0 + before.1.take(n as int)) + before.1.skip(n as int) =~= before.0
                    + before.1);
            },
        }
    } else {
        assert(replay(events).0 + replay(events).1 =~= incoming(events));
    }
}

/// Datagrams that are to be sent on behalf of a client.
#[derive(Debug)]
pub struct DatagramQueue {
    waiting: Vec<Vec<u8>>,
}

impl View for DatagramQueue {
    type V = Seq<Seq<u8>>;

    closed spec fn view(&self) -> Seq<Seq<u8>> {
        self.waiting@.map_values(|d: Vec<u8>| d@)
    }
}

/// What came of an attempt to send a datagram.
#[derive(Clone, Copy, Debug, PartialEq, Eq, Structural)]
pub enum SendOutcome {
    /// So many bytes were taken.
    Taken(usize),
    /// Nothing can be sent right now.
    Busy,
    Failed,
}

/// What is to be done after an attempt to send a datagram.
#[derive(Clone, Copy, Debug, PartialEq, Eq, Structural)]
pub enum SendStep {
    /// Send the next one.
    Next,
    /// Try again later.
    Later,
    /// Close the session.
    Close,
}

impl DatagramQueue {
    pub fn new() -> (queue: Self)
        ensures
            queue@ == Seq::<Seq<u8>>::empty(),
    {
        let queue = DatagramQueue { waiting: Vec::new() };
        assert(queue@ =~= Seq::<Seq<u8>>::empty());
        queue
    }

    /// Adds a datagram behind the others.
    pub fn push(&mut self, datagram: Vec<u8>)
        ensures
            final(self)@ == old(self)@.push(datagram@),
    {
        self.waiting.push(datagram);
        assert(self@ =~= old(self)@.push(datagram@));
    }

    /// The datagram that is to be sent next.
    pub fn next(&self) -> (datagram: Option<&[u8]>)
        ensures
            match datagram {
                Some(d) => self@.len() > 0 && d@ == self@[0],
                None => self@.len() == 0,
            },
    {
        if self.waiting.len() > 0 {
            Some(self.waiting[0].as_slice())
        } else {
            None
        }
    }

    /// Takes in what came of the attempt to send the next datagram. One of which nothing was
    /// taken waits; one that failed is given up.
    pub fn sent(&mut self, outcome: SendOutcome) -> (step: SendStep)
        requires
            old(self)@.len() > 0,
            outcome matches SendOutcome::Taken(n) ==> n == 0 || n == old(self)@[0].len(),
        ensures
            match outcome {
                SendOutcome::Taken(n) => if n == 0 {
                    step == SendStep::Later && final(self)@ == old(self)@
                } else {
                    step == SendStep::Next && final(self)@ == old(self)@.skip(1)
                },
                SendOutcome::Busy => step == SendStep::Later && final(self)@ == old(self)@,
                SendOutcome::Failed => step == SendStep::Close && final(self)@ == old(
                    self,
                )@.skip(1),
            },
    {
        let step = match outcome {
            SendOutcome::Taken(n) => if n == 0 {
                SendStep::Later
            } else {
                SendStep::Next
            },
            SendOutcome::Busy => SendStep::Later,
            SendOutcome::Failed => SendStep::Close,
        };
        if step != SendStep::Later {
            let _sent = self.waiting.remove(0);
            assert(self@ =~= old(self)@.skip(1));
        }
        step
    }
}

/// The code with which a session is closed whose socket failed.
pub const UDP_SOCKET_ERROR: u64 = 0x0100;

/// The text with which a session is closed whose socket failed.
pub const UDP_SOCKET_ERROR_TEXT: &'static str = "UDP socket error";

/// What came of an attempt to receive a datagram.
#[derive(Clone, Copy, Debug, PartialEq, Eq, Structural)]
pub enum ReceiveOutcome {
    Datagram,
    /// Nothing is there right now.
    Nothing,
    Failed,
}

/// Something that happens while the connections to others are looked at.
#[derive(Clone, Copy, Debug, PartialEq, Eq, Structural)]
pub enum PollEvent {
    /// So many bytes were read from another side by TCP, or that failed.
    Read(Option<usize>),
    /// So many bytes were written to another side by TCP, or that failed.
    Written(Option<usize>),
    /// The socket of this session was asked for a datagram.
    Received(u64, ReceiveOutcome),
    /// The socket of this session was given a datagram.
    Sent(u64, SendStep),
}

/// Whether something came or went.
pub open spec fn moves(event: PollEvent) -> bool {
    match event {
        PollEvent::Read(n) | PollEvent::Written(n) => n matches Some(k) && k > 0,
        PollEvent::Received(_, outcome) => outcome == ReceiveOutcome::Datagram,
        PollEvent::Sent(_, step) => step == SendStep::Next,
    }
}

/// The session whose socket failed.
pub open spec fn failing(event: PollEvent) -> Option<u64> {
    match event {
        PollEvent::Received(session, ReceiveOutcome::Failed) => Some(session),
        PollEvent::Sent(session, SendStep::Close) => Some(session),
        _ => None,
    }
}

/// What a look at the connections to others has come to.
#[derive(Debug)]
pub struct ProxyPoll {
    progressed: bool,
    failed: Vec<u64>,
}

/// The contents of a [`ProxyPoll`].
#[verifier::ext_equal]
pub struct PollView {
    /// Whether something came or went, so that the server is to be asked for its output.
    pub progressed: bool,
    /// The sessions that are to be forgotten and closed, because their sockets failed.
    pub failed: Seq<u64>,
}

/// What is known once an event was taken in. A session is closed only once.
pub open spec fn poll_step(poll: PollView, event: PollEvent) -> PollView {
    PollView {
        progressed: poll.progressed || moves(event),
        failed: match failing(event) {
            Some(session) if !poll.failed.contains(session) => poll.failed.push(session),
            _ => poll.failed,
        },
    }
}

/// What is known after a list of events.
pub open spec fn poll_after(events: Seq<PollEvent>) -> PollView
    decreases events.len(),
{
    if events.len() == 0 {
        PollView { progressed: false, failed: Seq::empty() }
    } else {
        poll_step(poll_after(events.drop_last()), events.last())
    }
}

impl View for ProxyPoll {
    type V = PollView;

    closed spec fn view(&self) -> PollView {
        PollView { progressed: self.progressed, failed: self.failed@ }
    }
}

impl ProxyPoll {
    pub fn new() -> (poll: Self)
        ensures
            poll@ == (PollView { progressed: false, failed: Seq::empty() }),
    {
        ProxyPoll { progressed: false, failed: Vec::new() }
    }

    /// Takes in an event, and tells whether something came or went.
    pub fn on_event(&mut self, event: PollEvent) -> (moved: bool)
        ensures
            moved == moves(event),
            final(self)@ == poll_step(old(self)@, event),
    {
        let (moved, failed): (bool, Option<u64>) = match event {
            PollEvent::Read(n) => (n.is_some() && n.unwrap() > 0, None),
            PollEvent::Written(n) => (n.is_some() && n.unwrap() > 0, None),
            PollEvent::Received(session, outcome) => match outcome {
                ReceiveOutcome::Datagram => (true, None),
                ReceiveOutcome::Nothing => (false, None),
                ReceiveOutcome::Failed => (false, Some(session)),
            },
            PollEvent::Sent(session, step) => match step {
                SendStep::Next => (true, None),
                SendStep::Later => (false, None),
                SendStep::Close => (false, Some(session)),
            },
        };
        self.progressed = self.progressed || moved;
        if let Some(session) = failed {
            let mut i: usize = 0;
            while i < self.failed.len()
                invariant
                    i <= self.failed@.len(),
                    forall|j: int| 0 <= j < i ==> self.failed@[j] != session,
                    self@ == (PollView {
                        progressed: old(self)@.progressed || moves(event),
                        failed: old(self)@.failed,
                    }),
                    moved == moves(event),
                    failing(event) == Some(session),
                decreases self.failed@.len() - i,
            {
                if self.failed[i] == session {
                    return moved;
                }
                i += 1;
            }
            self.failed.push(session);
        }
        moved
    }

    /// Whether the server is to be asked for its output.
    pub fn is_ready(&self) -> (ready: bool)
        ensures
            ready == self@.progressed,
    {
        self.progressed
    }

    /// The sessions that are to be forgotten and closed.
    pub fn failed_sessions(&self) -> (failed: &[u64])
        ensures
            failed@ == self@.failed,
    {
        self.failed.as_slice()
    }
}

/// The server is ready exactly where something came or went, and the sessions that are closed are
/// those whose sockets failed, each of them once.
pub proof fn law_poll(events: Seq<PollEvent>)
    ensures
        poll_after(events).progressed <==> exists|i: int|
            0 <= i < events.len() && moves(#[trigger] events[i]),
        forall|session: u64| #[trigger]
            poll_after(events).failed.contains(session) <==> exists|i: int|
                0 <= i < events.len() && failing(#[trigger] events[i]) == Some(session),
        poll_after(events).failed.no_duplicates(),
    decreases events.len(),
{
    if events.len() > 0 {
        let before = events.drop_last();
        let last = events.len() - 1;
        law_poll(before);
        let old_failed = poll_after(before).failed;
        let new_failed = poll_after(events).failed;
        if poll_after(events).progressed {
            if poll_after(before).progressed {
                let i = choose|i: int| 0 <= i < before.len() && moves(#[trigger] before[i]);
                assert(moves(events[i]));
            } else {
                assert(moves(events[last]));
            }
        }
        if exists|i: int| 0 <= i < events.len() && moves(#[trigger] events[i]) {
            let i = choose|i: int| 0 <= i < events.len() && moves(#[trigger] events[i]);
            if i < last {
                assert(moves(before[i]));
            }
        }
        assert forall|session: u64| #[trigger] new_failed.contains(session) <==> exists|i: int|
            0 <= i < events.len() && failing(#[trigger] events[i]) == Some(session) by {
            if new_failed.contains(session) {
                if old_failed.contains(session) {
                    let i = choose|i: int|
                        0 <= i < before.len() && failing(#[trigger] before[i]) == Some(session);
                    assert(failing(events[i]) == Some(session));
                } else {
                    let k = choose|k: int| 0 <= k < new_failed.len() && new_failed[k] == session;
                    if k < old_failed.len() {
                        assert(old_failed[k] == session);
                    }
                    assert(failing(events[last]) == Some(session));
                }
            }
            if exists|i: int| 0 <= i < events.len() && failing(#[trigger] events[i]) == Some(
                session,
            ) {
                let i = choose|i: int|
                    0 <= i < events.len() && failing(#[trigger] events[i]) == Some(session);
                if i < last {
                    assert(failing(before[i]) == Some(session));
                    assert(old_failed.contains(session));
                    let k = choose|k: int| 0 <= k < old_failed.len() && old_failed[k] == session;
                    assert(new_failed[k] == session);
                } else if !old_failed.contains(session) {
                    assert(new_failed[old_failed.len() as int] == session);
                }
            }
        }
        assert(new_failed.no_duplicates()) by {
            if new_failed.len() > old_failed.len() {
                let session = new_failed.last();
                assert(new_failed =~= old_failed.push(session));
                assert(!old_failed.contains(session));
            }
        }
    }
}

/// The names for this machine lead to it whatever the port, and a host that is no such name is
/// asked for as it is.
pub proof fn law_local_names(name: Seq<u8>, port: Seq<u8>)
    requires
        forall|i: int| 0 <= i < port.len() ==> #[trigger] port[i] != 0x3a,
    ensures
        tcp_target(name + seq![0x3au8] + port) == if is_local_name(name) {
            "127.0.0.1:".spec_bytes() + port
        } else {
            name + seq![0x3au8] + port
        },
{
    let host = name + seq![0x3au8] + port;
    crate::bytes::lemma_last_separator(host, either(0x3a, 0x3a));
    let colon = last_colon(host);
    let sep = either(0x3a, 0x3a);
    assert(sep(host[name.len() as int]));
    if colon > name.len() {
        assert(host[colon] == port[colon - name.len() - 1]);
    }
    assert(colon == name.len());
    assert(host.take(colon) =~= name);
    assert(host.skip(colon + 1) =~= port);
}

/// A client that asks for one of the three names of this machine is connected to it, at the port
/// that it asks for, or the usual one where it asks for none; any other host is asked for as it
/// is.
pub proof fn law_tcp_targets(host: &[u8], target: Vec<u8>, name: Seq<u8>, port: Seq<u8>)
    requires
        call_ensures(find_tcp_target, (host,), target),
        forall|i: int| 0 <= i < port.len() ==> #[trigger] port[i] != 0x3a,
    ensures
        ({
            let local = name == "foo.example.com".spec_bytes() || name
                == "alt1.example.com".spec_bytes() || name == "alt2.example.com".spec_bytes();
            &&& host@ == name + seq![0x3au8] + port && local ==> target@
                == "127.0.0.1:".spec_bytes() + port
            &&& host@ == name + seq![0x3au8] + port && !local ==> target@ == host@
            &&& host@ == name && local && !name.contains(0x3a) ==> target@
                == "127.0.0.1:80".spec_bytes()
            &&& host@ == name && !local && !name.contains(0x3a) ==> target@ == host@
        }),
{
    law_local_names(name, port);
    if host@ == name && !name.contains(0x3a) {
        crate::bytes::lemma_last_separator(host@, either(0x3a, 0x3a));
        let sep = either(0x3a, 0x3a);
        let colon = last_colon(host@);
        if colon >= 0 {
            assert(sep(host@[colon]));
            assert(name.contains(0x3a));
        }
    }
}

/// A request asks to be connected where its method is CONNECT and it names a host that is text.
/// One that is connected is told so and goes on; one that is not is told that the gateway failed,
/// and ends.
pub proof fn law_connect_requests(
    headers: Vec<Header>,
    target: Option<Vec<u8>>,
    connected: bool,
    actions: Vec<RequestAction>,
)
    requires
        call_ensures(connect_target, (&headers,), target),
        call_ensures(answer_connect, (connected,), actions),
    ensures
        ({
            let asked = header_views(headers@);
            let a = action_views(actions@);
            let host = find_value(asked, ":authority"@);
            &&& target is Some <==> find_value(asked, ":method"@) == Some("CONNECT".spec_bytes())
                && host is Some && valid_utf8(host->0)
            &&& target matches Some(t) ==> t@ == tcp_target(host->0)
            &&& a[0] is SendHeaders && a[0]->SendHeaders_0[0].name == ":status"@
            &&& a[0]->SendHeaders_0[1].name == "cache-control"@ && a[0]->SendHeaders_0[1].value
                == "no-cache".spec_bytes()
            &&& connected ==> a.len() == 1 && a[0]->SendHeaders_0[0].value == "200".spec_bytes()
            &&& !connected ==> a.len() == 2 && a[0]->SendHeaders_0[0].value == "502".spec_bytes()
                && a[1] is CloseSend
        }),
{
}

/// The host and the port that a client sends datagrams to stand fifth and sixth between the
/// slashes of the path; the names of this machine lead to it.
pub proof fn law_udp_targets(
    path: &[u8],
    target: Option<UdpTarget>,
    a: Seq<u8>,
    b: Seq<u8>,
    c: Seq<u8>,
    host: Seq<u8>,
    port: nat,
)
    requires
        call_ensures(find_udp_target, (path,), target),
        forall|i: int| 0 <= i < a.len() ==> #[trigger] a[i] != 0x2f,
        forall|i: int| 0 <= i < b.len() ==> #[trigger] b[i] != 0x2f,
        forall|i: int| 0 <= i < c.len() ==> #[trigger] c[i] != 0x2f,
        forall|i: int| 0 <= i < host.len() ==> #[trigger] host[i] != 0x2f,
        port <= 0xffff,
        valid_utf8(path@),
        path@ == seq![0x2fu8] + a + seq![0x2fu8] + b + seq![0x2fu8] + c + seq![0x2fu8] + host
            + seq![0x2fu8] + vstd::utf8::encode_utf8(crate::text::decimal(port)),
    ensures
        ({
            let local = host == "foo.example.com".spec_bytes() || host
                == "alt1.example.com".spec_bytes() || host == "alt2.example.com".spec_bytes();
            &&& target is Some && target->0.port == port
            &&& local ==> target->0.host@ == "127.0.0.1".spec_bytes()
            &&& !local ==> target->0.host@ == host
        }),
{
    let digits = vstd::utf8::encode_utf8(crate::text::decimal(port));
    crate::text::lemma_decimal_bytes(port);
    crate::text::law_decimal_round_trip(port, 0xffff);
    assert forall|i: int| 0 <= i < digits.len() implies #[trigger] digits[i] != 0x2f by {
        assert(crate::text::is_digit(digits[i]));
    }
    let none = Seq::<u8>::empty();
    let p1 = none + seq![0x2fu8] + a;
    let p2 = p1 + seq![0x2fu8] + b;
    let p3 = p2 + seq![0x2fu8] + c;
    let p4 = p3 + seq![0x2fu8] + host;
    let p5 = p4 + seq![0x2fu8] + digits;
    crate::bytes::law_pieces(none, 0x2f, 0x2f, 0x2f, none);
    crate::bytes::law_pieces(none, 0x2f, 0x2f, 0x2f, a);
    crate::bytes::law_pieces(p1, 0x2f, 0x2f, 0x2f, b);
    crate::bytes::law_pieces(p2, 0x2f, 0x2f, 0x2f, c);
    crate::bytes::law_pieces(p3, 0x2f, 0x2f, 0x2f, host);
    crate::bytes::law_pieces(p4, 0x2f, 0x2f, 0x2f, digits);
    assert(p5 =~= path@);
}

/// What the client sends is kept for the other side in order, and what it takes is taken from the
/// front; the end that the client announces is kept.
pub proof fn law_to_the_other_side(
    tunnel: &mut TcpTunnel,
    data: &[u8],
    fin: bool,
    other: &mut TcpTunnel,
    sent: Option<usize>,
    go_on: bool,
    asked: TcpTunnel,
    waiting: &[u8],
    shuts_down: bool,
    fresh: TcpTunnel,
)
    requires
        call_ensures(TcpTunnel::new, (), fresh),
        call_ensures(TcpTunnel::on_data, (tunnel, data, fin), ()),
        sent matches Some(n) ==> n <= old(other)@.send_buffer.len(),
        call_ensures(TcpTunnel::origin_took, (other, sent), go_on),
        call_ensures(TcpTunnel::for_origin, (&asked,), waiting),
        call_ensures(TcpTunnel::shuts_down, (&asked,), shuts_down),
    ensures
        fresh@.send_buffer.len() == 0 && fresh@.recv_buffer.len() == 0,
        !fresh@.send_fin && !fresh@.received_fin,
        final(tunnel)@.send_buffer == old(tunnel)@.send_buffer + data@,
        final(tunnel)@.send_fin <==> old(tunnel)@.send_fin || fin,
        final(tunnel)@.recv_buffer == old(tunnel)@.recv_buffer,
        final(tunnel)@.received_fin == old(tunnel)@.received_fin,
        sent matches Some(n) ==> old(other)@.send_buffer.take(n as int) + final(other)@.send_buffer
            == old(other)@.send_buffer,
        sent is None ==> final(other)@.send_buffer == old(other)@.send_buffer,
        final(other)@.received_fin <==> old(other)@.received_fin || sent is None,
        final(other)@.recv_buffer == old(other)@.recv_buffer,
        go_on <==> (sent matches Some(n) && n > 0 && final(other)@.send_buffer.len() > 0),
        waiting@ == asked@.send_buffer,
        shuts_down <==> asked@.send_fin,
{
    if let Some(n) = sent {
        let b = old(other)@.send_buffer;
        assert(b.take(n as int) + b.skip(n as int) =~= b);
    }
}

/// What the other side sends is kept for the client in order, and what it takes is taken from the
/// front; nothing, or a failure, is the end of the other side.
pub proof fn law_to_the_client(
    tunnel: &mut TcpTunnel,
    data: Option<&[u8]>,
    read_on: bool,
    other: &mut TcpTunnel,
    sent: Option<usize>,
    go_on: bool,
    asked: TcpTunnel,
    waiting: &[u8],
)
    requires
        call_ensures(TcpTunnel::on_read, (tunnel, data), read_on),
        sent matches Some(n) ==> n <= old(other)@.recv_buffer.len(),
        call_ensures(TcpTunnel::client_took, (other, sent), go_on),
        call_ensures(TcpTunnel::for_client, (&asked,), waiting),
    ensures
        read_on <==> (data matches Some(d) && d@.len() > 0),
        data matches Some(d) ==> final(tunnel)@.recv_buffer == old(tunnel)@.recv_buffer + d@,
        data is None ==> final(tunnel)@.recv_buffer == old(tunnel)@.recv_buffer,
        final(tunnel)@.received_fin <==> old(tunnel)@.received_fin || !read_on,
        final(tunnel)@.send_buffer == old(tunnel)@.send_buffer,
        final(tunnel)@.send_fin == old(tunnel)@.send_fin,
        sent matches Some(n) ==> old(other)@.recv_buffer.take(n as int) + final(other)@.recv_buffer
            == old(other)@.recv_buffer,
        sent is None ==> final(other)@ == old(other)@,
        final(other)@.received_fin == old(other)@.received_fin,
        final(other)@.send_buffer == old(other)@.send_buffer,
        go_on <==> (sent matches Some(n) && n > 0 && final(other)@.recv_buffer.len() > 0),
        waiting@ == asked@.recv_buffer,
{
    if let Some(n) = sent {
        let b = old(other)@.recv_buffer;
        assert(b.take(n as int) + b.skip(n as int) =~= b);
    }
    if let Some(d) = data {
        if d@.len() == 0 {
            assert(old(tunnel)@.recv_buffer + d@ =~= old(tunnel)@.recv_buffer);
        }
    }
}

/// Datagrams go out in the order in which they came. One that was taken, or that failed, is over;
/// one that could not be sent yet stays the first. Only a failure closes the session.
pub proof fn law_datagrams_in_order(
    queue: &mut DatagramQueue,
    datagram: Vec<u8>,
    other: &mut DatagramQueue,
    outcome: SendOutcome,
    step: SendStep,
    asked: DatagramQueue,
    next: Option<&[u8]>,
    fresh: DatagramQueue,
)
    requires
        call_ensures(DatagramQueue::new, (), fresh),
        call_ensures(DatagramQueue::push, (queue, datagram), ()),
        old(other)@.len() > 0,
        outcome matches SendOutcome::Taken(n) ==> n == 0 || n == old(other)@[0].len(),
        call_ensures(DatagramQueue::sent, (other, outcome), step),
        call_ensures(DatagramQueue::next, (&asked,), next),
    ensures
        fresh@.len() == 0,
        final(queue)@ == old(queue)@ + seq![datagram@],
        next is None <==> asked@.len() == 0,
        next matches Some(d) ==> d@ == asked@.first(),
        step is Close <==> outcome is Failed,
        step is Later <==> outcome is Busy || outcome == SendOutcome::Taken(0),
        step is Later ==> final(other)@ == old(other)@,
        step !is Later ==> seq![old(other)@.first()] + final(other)@ == old(other)@,
{
    assert(old(queue)@.push(datagram@) =~= old(queue)@ + seq![datagram@]);
    if step !is Later {
        assert(seq![old(other)@.first()] + old(other)@.skip(1) =~= old(other)@);
    }
}

/// Something came or went where bytes were read or written, a datagram came, or one went. A
/// session is given up where its socket failed.
pub proof fn law_poll_calls(
    poll: &mut ProxyPoll,
    event: PollEvent,
    moved: bool,
    asked: ProxyPoll,
    ready: bool,
    failed: &[u64],
    fresh: ProxyPoll,
    session: u64,
)
    requires
        call_ensures(ProxyPoll::new, (), fresh),
        call_ensures(ProxyPoll::on_event, (poll, event), moved),
        call_ensures(ProxyPoll::is_ready, (&asked,), ready),
        call_ensures(ProxyPoll::failed_sessions, (&asked,), failed),
    ensures
        !fresh@.progressed && fresh@.failed.len() == 0,
        moved <==> {
            ||| event matches PollEvent::Read(Some(n)) && n > 0
            ||| event matches PollEvent::Written(Some(n)) && n > 0
            ||| event matches PollEvent::Received(_, outcome) && outcome is Datagram
            ||| event matches PollEvent::Sent(_, step) && step is Next
        },
        final(poll)@.progressed <==> old(poll)@.progressed || moved,
        event == PollEvent::Received(session, ReceiveOutcome::Failed) || event == PollEvent::Sent(
            session,
            SendStep::Close,
        ) ==> final(poll)@.failed.contains(session),
        final(poll)@.failed == old(poll)@.failed || exists|s: u64|
            final(poll)@.failed == #[trigger] old(poll)@.failed.push(s) && !old(
                poll,
            )@.failed.contains(s) && (event == PollEvent::Received(s, ReceiveOutcome::Failed)
                || event == PollEvent::Sent(s, SendStep::Close)),
        ready <==> asked@.progressed,
        failed@ == asked@.failed,
{
    if let Some(s) = failing(event) {
        if !old(poll)@.failed.contains(s) {
            assert(final(poll)@.failed == old(poll)@.failed.push(s));
            assert(final(poll)@.failed[old(poll)@.failed.len() as int] == s);
        }
    }
}

/// What a client is told where the socket of its session fails: that nothing is wrong in HTTP/3,
/// and in words that the socket is.
pub proof fn law_socket_failure()
    ensures
        UDP_SOCKET_ERROR == 0x100,
        UDP_SOCKET_ERROR_TEXT@ == "UDP socket error"@,
{
}

}
