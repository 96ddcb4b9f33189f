//! Multicast channels of a connection: control frames as the embedder gets them, and which
//! channel a frame or a packet is for.
use crate::bytes::{bytes_eq, copy};
use crate::errors::{
    mcquic_http3_error_to_nsresult, mcquic_http3_result, mcquic_transport_error_to_nsresult,
    mcquic_transport_result, Http3Error, TransportError,
};
use crate::io::{cap, capped};
use crate::nsresult::NsResult;
use crate::thin::{thin_bytes, thin_from, thin_new};
use thin_vec::ThinVec;
use vstd::prelude::*;
use vstd::string::StringSliceAdditionalSpecFns;

verus! {

/// How many bytes of a stream are read at once.
pub const MCQUIC_MOQT_STREAM_READ_SIZE: usize = 4096;

/// What a client allows of multicast.
#[derive(Clone, Copy, Debug, PartialEq, Eq, Structural)]
pub struct ClientLimits {
    pub ipv4_channels_allowed: bool,
    pub ipv6_channels_allowed: bool,
    pub max_aggregate_rate_kibps: u64,
    pub max_channel_ids: u64,
}

/// What a client allows of multicast unless told otherwise.
pub open spec fn default_limits() -> ClientLimits {
    ClientLimits {
        ipv4_channels_allowed: true,
        ipv6_channels_allowed: true,
        max_aggregate_rate_kibps: 100_000,
        max_channel_ids: 32,
    }
}

/// What a client allows of multicast unless told otherwise.
pub fn default_mcquic_client_limits() -> (limits: ClientLimits)
    ensures
        limits == default_limits(),
{
    ClientLimits {
        ipv4_channels_allowed: true,
        ipv6_channels_allowed: true,
        max_aggregate_rate_kibps: 100_000,
        max_channel_ids: 32,
    }
}

#[derive(Clone, Copy, Debug, PartialEq, Eq, Structural)]
pub enum McquicControlFrameTag {
    NoFrame,
    Announce,
    Key,
    Integrity,
    Join,
    Leave,
    Retire,
    State,
    Ack,
    Limits,
}

/// A control frame, as far as the embedder gets it. Addresses are texts.
#[derive(Debug)]
pub enum McquicFrame {
    Announce { channel_id: Vec<u8>, source: String, group: String, udp_port: u16 },
    Key { channel_id: Vec<u8>, key_sequence: u64, from_packet_number: u64 },
    Integrity {
        channel_id: Vec<u8>,
        packet_number_start: u64,
        packet_hash_count: Option<u64>,
    },
    Join { channel_id: Vec<u8>, mc_key_sequence: u64, mc_state_sequence: u64 },
    Leave { channel_id: Vec<u8>, mc_state_sequence: u64, after_packet_number: u64 },
    Retire { channel_id: Vec<u8>, after_packet_number: u64 },
    State { channel_id: Vec<u8>, sequence: u64, state: u8 },
    Ack { channel_id: Vec<u8>, largest_acknowledged: u64 },
    Limits { sequence: u64 },
}

/// A control frame as the embedder gets it. A field that the frame's kind does not have is zero
/// or empty.
#[derive(Debug)]
pub struct McquicControlFrameExternal {
    pub tag: McquicControlFrameTag,
    pub channel_id: ThinVec<u8>,
    pub source_ip: String,
    pub group_ip: String,
    pub udp_port: u16,
    pub key_sequence: u64,
    pub packet_number_start: u64,
    pub packet_hash_count: u64,
    pub largest_acknowledged: u64,
    pub state_sequence: u64,
    pub channel_state: u8,
}

/// The contents of a [`McquicControlFrameExternal`].
pub struct ControlFrameView {
    pub tag: McquicControlFrameTag,
    pub channel_id: Seq<u8>,
    pub source_ip: Seq<char>,
    pub group_ip: Seq<char>,
    pub udp_port: u16,
    pub key_sequence: u64,
    pub packet_number_start: u64,
    pub packet_hash_count: u64,
    pub largest_acknowledged: u64,
    pub state_sequence: u64,
    pub channel_state: u8,
}

impl View for McquicControlFrameExternal {
    type V = ControlFrameView;

    open spec fn view(&self) -> ControlFrameView {
        ControlFrameView {
            tag: self.tag,
            channel_id: thin_bytes(self.channel_id),
            source_ip: self.source_ip@,
            group_ip: self.group_ip@,
            udp_port: self.udp_port,
            key_sequence: self.key_sequence,
            packet_number_start: self.packet_number_start,
            packet_hash_count: self.packet_hash_count,
            largest_acknowledged: self.largest_acknowledged,
            state_sequence: self.state_sequence,
            channel_state: self.channel_state,
        }
    }
}

/// A frame in which every field is zero or empty.
pub open spec fn no_frame() -> ControlFrameView {
    ControlFrameView {
        tag: McquicControlFrameTag::NoFrame,
        channel_id: Seq::empty(),
        source_ip: Seq::empty(),
        group_ip: Seq::empty(),
        udp_port: 0,
        key_sequence: 0,
        packet_number_start: 0,
        packet_hash_count: 0,
        largest_acknowledged: 0,
        state_sequence: 0,
        channel_state: 0,
    }
}

impl Default for McquicControlFrameExternal {
    fn default() -> (frame: Self)
        ensures
            frame@ == no_frame(),
    {
        let frame = McquicControlFrameExternal {
            tag: McquicControlFrameTag::NoFrame,
            channel_id: thin_new(),
            source_ip: String::new(),
            group_ip: String::new(),
            udp_port: 0,
            key_sequence: 0,
            packet_number_start: 0,
            packet_hash_count: 0,
            largest_acknowledged: 0,
            state_sequence: 0,
            channel_state: 0,
        };
        assert(frame.source_ip@ =~= Seq::<char>::empty());
        frame
    }
}

/// A control frame as the embedder gets it.
pub open spec fn external_frame(frame: McquicFrame) -> ControlFrameView {
    match frame {
        McquicFrame::Announce { channel_id, source, group, udp_port } => ControlFrameView {
            tag: McquicControlFrameTag::Announce,
            channel_id: channel_id@,
            source_ip: source@,
            group_ip: group@,
            udp_port,
            ..no_frame()
        },
        McquicFrame::Key { channel_id, key_sequence, from_packet_number } => ControlFrameView {
            tag: McquicControlFrameTag::Key,
            channel_id: channel_id@,
            key_sequence,
            packet_number_start: from_packet_number,
            ..no_frame()
        },
        McquicFrame::Integrity { channel_id, packet_number_start, packet_hash_count } => {
            ControlFrameView {
                tag: McquicControlFrameTag::Integrity,
                channel_id: channel_id@,
                packet_number_start,
                packet_hash_count: match packet_hash_count {
                    Some(n) => n,
                    None => 0,
                },
                ..no_frame()
            }
        },
        McquicFrame::Join { channel_id, mc_key_sequence, mc_state_sequence } => ControlFrameView {
            tag: McquicControlFrameTag::Join,
            channel_id: channel_id@,
            key_sequence: mc_key_sequence,
            state_sequence: mc_state_sequence,
            ..no_frame()
        },
        McquicFrame::Leave { channel_id, mc_state_sequence, after_packet_number } => {
            ControlFrameView {
                tag: McquicControlFrameTag::Leave,
                channel_id: channel_id@,
                state_sequence: mc_state_sequence,
                packet_number_start: after_packet_number,
                ..no_frame()
            }
        },
        McquicFrame::Retire { channel_id, after_packet_number } => ControlFrameView {
            tag: McquicControlFrameTag::Retire,
            channel_id: channel_id@,
            packet_number_start: after_packet_number,
            ..no_frame()
        },
        McquicFrame::State { channel_id, sequence, state } => ControlFrameView {
            tag: McquicControlFrameTag::State,
            channel_id: channel_id@,
            state_sequence: sequence,
            channel_state: state,
            ..no_frame()
        },
        McquicFrame::Ack { channel_id, largest_acknowledged } => ControlFrameView {
            tag: McquicControlFrameTag::Ack,
            channel_id: channel_id@,
            largest_acknowledged,
            ..no_frame()
        },
        McquicFrame::Limits { sequence } => ControlFrameView {
            tag: McquicControlFrameTag::Limits,
            state_sequence: sequence,
            ..no_frame()
        },
    }
}

/// Gives the embedder a control frame.
pub fn fill_mcquic_control_frame(out: &mut McquicControlFrameExternal, frame: &McquicFrame)
    ensures
        final(out)@ == external_frame(*frame),
{
    *out = McquicControlFrameExternal::default();
    match frame {
        McquicFrame::Announce { channel_id, source, group, udp_port } => {
            out.tag = McquicControlFrameTag::Announce;
            out.channel_id = thin_from(channel_id.as_slice());
            out.source_ip = source.as_str().to_owned();
            out.group_ip = group.as_str().to_owned();
            out.udp_port = *udp_port;
        },
        McquicFrame::Key { channel_id, key_sequence, from_packet_number } => {
            out.tag = McquicControlFrameTag::Key;
            out.channel_id = thin_from(channel_id.as_slice());
            out.key_sequence = *key_sequence;
            out.packet_number_start = *from_packet_number;
        },
        McquicFrame::Integrity { channel_id, packet_number_start, packet_hash_count } => {
            out.tag = McquicControlFrameTag::Integrity;
            out.channel_id = thin_from(channel_id.as_slice());
            out.packet_number_start = *packet_number_start;
            out.packet_hash_count = match packet_hash_count {
                Some(n) => *n,
                None => 0,
            };
        },
        McquicFrame::Join { channel_id, mc_key_sequence, mc_state_sequence } => {
            out.tag = McquicControlFrameTag::Join;
            out.channel_id = thin_from(channel_id.as_slice());
            out.key_sequence = *mc_key_sequence;
            out.state_sequence = *mc_state_sequence;
        },
        McquicFrame::Leave { channel_id, mc_state_sequence, after_packet_number } => {
            out.tag = McquicControlFrameTag::Leave;
            out.channel_id = thin_from(channel_id.as_slice());
            out.state_sequence = *mc_state_sequence;
            out.packet_number_start = *after_packet_number;
        },
        McquicFrame::Retire { channel_id, after_packet_number } => {
            out.tag = McquicControlFrameTag::Retire;
            out.channel_id = thin_from(channel_id.as_slice());
            out.packet_number_start = *after_packet_number;
        },
        McquicFrame::State { channel_id, sequence, state } => {
            out.tag = McquicControlFrameTag::State;
            out.channel_id = thin_from(channel_id.as_slice());
            out.state_sequence = *sequence;
            out.channel_state = *state;
        },
        McquicFrame::Ack { channel_id, largest_acknowledged } => {
            out.tag = McquicControlFrameTag::Ack;
            out.channel_id = thin_from(channel_id.as_slice());
            out.largest_acknowledged = *largest_acknowledged;
        },
        McquicFrame::Limits { sequence } => {
            out.tag = McquicControlFrameTag::Limits;
            out.state_sequence = *sequence;
        },
    }
}

/// Gives the embedder the next control frame, if there is one; a frame of the kind `NoFrame`
/// stands for none.
pub fn neqo_http3conn_mcquic_recv_control_frame(
    received: &Option<McquicFrame>,
    frame: &mut McquicControlFrameExternal,
) -> (result: NsResult)
    ensures
        result == NsResult::NS_OK,
        final(frame)@ == (match *received {
            Some(f) => external_frame(f),
            None => no_frame(),
        }),
{
    *frame = McquicControlFrameExternal::default();
    if let Some(f) = received {
        fill_mcquic_control_frame(frame, f);
    }
    NsResult::NS_OK
}

/// A datagram that a channel released.
#[derive(Debug)]
pub struct McquicChannelDatagram {
    pub channel_id: ThinVec<u8>,
    pub packet_number: u64,
    pub payload: ThinVec<u8>,
}

impl Default for McquicChannelDatagram {
    fn default() -> (datagram: Self)
        ensures
            thin_bytes(datagram.channel_id) == Seq::<u8>::empty(),
            datagram.packet_number == 0,
            thin_bytes(datagram.payload) == Seq::<u8>::empty(),
    {
        McquicChannelDatagram { channel_id: thin_new(), packet_number: 0, payload: thin_new() }
    }
}

/// A datagram that the receiving side of a channel released.
#[derive(Debug)]
pub struct ReleasedDatagram {
    pub channel_id: Vec<u8>,
    pub packet_number: u64,
    pub data: Vec<u8>,
}

/// Gives the embedder a datagram that a channel released, if there is one.
pub fn neqo_http3conn_mcquic_pop_channel_datagram(
    released: &Option<ReleasedDatagram>,
    datagram: &mut McquicChannelDatagram,
) -> (found: bool)
    ensures
        found == (*released is Some),
        match *released {
            Some(r) => {
                &&& thin_bytes(final(datagram).channel_id) == r.channel_id@
                &&& final(datagram).packet_number == r.packet_number
                &&& thin_bytes(final(datagram).payload) == r.data@
            },
            None => {
                &&& thin_bytes(final(datagram).channel_id) == Seq::<u8>::empty()
                &&& final(datagram).packet_number == 0
                &&& thin_bytes(final(datagram).payload) == Seq::<u8>::empty()
            },
        },
{
    *datagram = McquicChannelDatagram::default();
    match released {
        Some(r) => {
            datagram.channel_id = thin_from(r.channel_id.as_slice());
            datagram.packet_number = r.packet_number;
            datagram.payload = thin_from(r.data.as_slice());
            true
        },
        None => false,
    }
}

/// Whether a byte string comes before another in the order of a dictionary.
pub open spec fn comes_before(a: Seq<u8>, b: Seq<u8>) -> bool
    decreases b.len(),
{
    if b.len() == 0 {
        false
    } else if a.len() == 0 {
        true
    } else if a[0] != b[0] {
        a[0] < b[0]
    } else {
        comes_before(a.skip(1), b.skip(1))
    }
}

proof fn lemma_order_is_strict(a: Seq<u8>)
    ensures
        !comes_before(a, a),
    decreases a.len(),
{
    if a.len() > 0 {
        lemma_order_is_strict(a.skip(1));
    }
}

proof fn lemma_order_is_total(a: Seq<u8>, b: Seq<u8>)
    ensures
        comes_before(a, b) || a == b || comes_before(b, a),
    decreases a.len(),
{
    if a.len() > 0 && b.len() > 0 && a[0] == b[0] {
        lemma_order_is_total(a.skip(1), b.skip(1));
        if a.skip(1) == b.skip(1) {
            assert(a =~= seq![a[0]] + a.skip(1));
            assert(b =~= seq![b[0]] + b.skip(1));
        }
    } else if a.len() == 0 && b.len() == 0 {
        assert(a =~= b);
    }
}

proof fn lemma_order_is_transitive(a: Seq<u8>, b: Seq<u8>, c: Seq<u8>)
    requires
        comes_before(a, b),
        comes_before(b, c),
    ensures
        comes_before(a, c),
    decreases a.len(),
{
    if a.len() > 0 && a[0] == b[0] && b[0] == c[0] {
        lemma_order_is_transitive(a.skip(1), b.skip(1), c.skip(1));
    }
}

/// Whether a byte string comes before another in the order of a dictionary.
pub fn is_before(a: &[u8], b: &[u8]) -> (before: bool)
    ensures
        before == comes_before(a@, b@),
{
    let mut i: usize = 0;
    proof {
        assert(a@.skip(0) =~= a@);
        assert(b@.skip(0) =~= b@);
    }
    while i < a.len() && i < b.len() && a[i] == b[i]
        invariant
            i <= a@.len(),
            i <= b@.len(),
            comes_before(a@, b@) == comes_before(a@.skip(i as int), b@.skip(i as int)),
        decreases a@.len() - i,
    {
        proof {
            assert(a@.skip(i as int).skip(1) =~= a@.skip(i + 1));
            assert(b@.skip(i as int).skip(1) =~= b@.skip(i + 1));
        }
        i += 1;
    }
    if i >= b.len() {
        false
    } else if i >= a.len() {
        true
    } else {
        a[i] < b[i]
    }
}

/// The channels that a connection knows, in the order of their identifiers. A channel is held by
/// the handle of its receiving side; no two entries have the same identifier.
#[derive(Debug)]
pub struct ChannelTable {
    entries: Vec<(Vec<u8>, u64)>,
}

/// Whether a list of entries is in the order of their identifiers, each of which stands once.
pub open spec fn in_order(entries: Seq<(Seq<u8>, u64)>) -> bool {
    forall|i: int, j: int|
        0 <= i < j < entries.len() ==> comes_before(
            (#[trigger] entries[i]).0,
            (#[trigger] entries[j]).0,
        )
}

/// The channels in a list of entries, with their handles.
pub open spec fn channel_map(entries: Seq<(Seq<u8>, u64)>) -> Map<Seq<u8>, u64>
    decreases entries.len(),
{
    if entries.len() == 0 {
        Map::empty()
    } else {
        channel_map(entries.drop_last()).insert(entries.last().0, entries.last().1)
    }
}

proof fn lemma_channel_map(entries: Seq<(Seq<u8>, u64)>)
    requires
        in_order(entries),
    ensures
        forall|i: int|
            0 <= i < entries.len() ==> channel_map(entries).contains_key(
                (#[trigger] entries[i]).0,
            ) && channel_map(entries)[entries[i].0] == entries[i].1,
        forall|id: Seq<u8>| #[trigger]
            channel_map(entries).contains_key(id) ==> exists|i: int|
                0 <= i < entries.len() && (#[trigger] entries[i]).0 == id,
    decreases entries.len(),
{
    if entries.len() > 0 {
        let shorter = entries.drop_last();
        assert forall|i: int, j: int| 0 <= i < j < shorter.len() implies comes_before(
            (#[trigger] shorter[i]).0,
            (#[trigger] shorter[j]).0,
        ) by {
            assert(shorter[i] == entries[i] && shorter[j] == entries[j]);
        }
        lemma_channel_map(shorter);
        let last = entries.len() - 1;
        assert forall|i: int| 0 <= i < entries.len() implies channel_map(entries).contains_key(
            (#[trigger] entries[i]).0,
        ) && channel_map(entries)[entries[i].0] == entries[i].1 by {
            if i < last {
                assert(shorter[i] == entries[i]);
                assert(comes_before(entries[i].0, entries[last].0));
                lemma_order_is_strict(entries[last].0);
            }
        }
        assert forall|id: Seq<u8>| #[trigger] channel_map(entries).contains_key(id) implies exists|
            i: int,
        |
            0 <= i < entries.len() && (#[trigger] entries[i]).0 == id by {
            if id == entries.last().0 {
                assert(entries[last].0 == id);
            } else {
                assert(channel_map(shorter).contains_key(id));
                let i = choose|i: int| 0 <= i < shorter.len() && (#[trigger] shorter[i]).0 == id;
                assert(entries[i].0 == id);
            }
        }
    }
}

/// The entries with one more, or with another handle in the one at place `k`.
pub open spec fn with_entry(
    entries: Seq<(Seq<u8>, u64)>,
    k: int,
    replace: bool,
    entry: (Seq<u8>, u64),
) -> Seq<(Seq<u8>, u64)> {
    if replace {
        entries.update(k, entry)
    } else {
        entries.insert(k, entry)
    }
}

proof fn lemma_with_entry(
    entries: Seq<(Seq<u8>, u64)>,
    k: int,
    replace: bool,
    id: Seq<u8>,
    handle: u64,
)
    requires
        in_order(entries),
        0 <= k <= entries.len(),
        forall|i: int| 0 <= i < k ==> comes_before((#[trigger] entries[i]).0, id),
        replace ==> k < entries.len() && entries[k].0 == id,
        !replace && k < entries.len() ==> comes_before(id, entries[k].0),
    ensures
        in_order(with_entry(entries, k, replace, (id, handle))),
        channel_map(with_entry(entries, k, replace, (id, handle))) == channel_map(entries).insert(
            id,
            handle,
        ),
{
    let after = with_entry(entries, k, replace, (id, handle));
    assert forall|i: int, j: int| 0 <= i < j < after.len() implies comes_before(
        (#[trigger] after[i]).0,
        (#[trigger] after[j]).0,
    ) by {
        if replace {
            assert(after[i].0 == entries[i].0 && after[j].0 == entries[j].0);
        } else {
            if j < k {
                assert(after[i] == entries[i] && after[j] == entries[j]);
            } else if j == k {
                assert(after[i] == entries[i]);
            } else if i < k {
                assert(after[i] == entries[i] && after[j] == entries[j - 1]);
            } else if i == k {
                assert(after[j] == entries[j - 1]);
                if j - 1 > k {
                    assert(comes_before(entries[k].0, entries[j - 1].0));
                    lemma_order_is_transitive(id, entries[k].0, entries[j - 1].0);
                }
            } else {
                assert(after[i] == entries[i - 1] && after[j] == entries[j - 1]);
            }
        }
    }
    lemma_channel_map(entries);
    lemma_channel_map(after);
    let m = channel_map(after);
    let n = channel_map(entries).insert(id, handle);
    assert(after[k] == (id, handle));
    assert forall|x: Seq<u8>| m.contains_key(x) <==> n.contains_key(x) by {
        if m.contains_key(x) {
            let i = choose|i: int| 0 <= i < after.len() && (#[trigger] after[i]).0 == x;
            if i != k {
                let o = if replace || i < k {
                    i
                } else {
                    i - 1
                };
                assert(after[i] == entries[o]);
            }
        }
        if n.contains_key(x) && x != id {
            let i = choose|i: int| 0 <= i < entries.len() && (#[trigger] entries[i]).0 == x;
            let o = if replace || i < k {
                i
            } else {
                i + 1
            };
            assert(after[o] == entries[i]);
        }
    }
    assert forall|x: Seq<u8>| m.contains_key(x) implies #[trigger] m[x] == n[x] by {
        let i = choose|i: int| 0 <= i < after.len() && (#[trigger] after[i]).0 == x;
        if x != id {
            let o = if replace || i < k {
                i
            } else {
                i - 1
            };
            assert(after[i] == entries[o]);
        }
    }
    assert(m =~= n);
}

/// What is to be done with a control frame, besides giving it to the embedder.
#[derive(Clone, Copy, Debug, PartialEq, Eq, Structural)]
pub enum FrameAction {
    /// Make a receiving side of the announced channel.
    CreateChannel,
    /// Give the key to the receiving side with this handle.
    InsertKey(u64),
    /// Give the integrity record to the receiving side with this handle.
    InsertIntegrity(u64),
    /// The frame speaks of a channel that was not announced.
    UnknownChannel,
    Nothing,
}

impl ChannelTable {
    /// The entries, as identifiers and handles.
    pub closed spec fn entries(&self) -> Seq<(Seq<u8>, u64)> {
        self.entries@.map_values(|e: (Vec<u8>, u64)| (e.0@, e.1))
    }

    /// The entries are in order, and no identifier stands twice.
    pub open spec fn wf(&self) -> bool {
        in_order(self.entries())
    }

    /// The handles of the channels' receiving sides.
    pub open spec fn channels(&self) -> Map<Seq<u8>, u64> {
        channel_map(self.entries())
    }

    pub fn new() -> (table: Self)
        ensures
            table.wf(),
            table.channels() == Map::<Seq<u8>, u64>::empty(),
            table.entries().len() == 0,
    {
        let table = ChannelTable { entries: Vec::new() };
        assert(table.entries() =~= Seq::<(Seq<u8>, u64)>::empty());
        table
    }

    /// The first place whose identifier does not come before `channel_id`.
    fn place(&self, channel_id: &[u8]) -> (k: usize)
        requires
            self.wf(),
        ensures
            k <= self.entries().len(),
            forall|i: int|
                0 <= i < k ==> comes_before((#[trigger] self.entries()[i]).0, channel_id@),
            k < self.entries().len() ==> !comes_before(self.entries()[k as int].0, channel_id@),
    {
        let mut k: usize = 0;
        while k < self.entries.len()
            invariant
                k <= self.entries@.len(),
                forall|i: int|
                    0 <= i < k ==> comes_before((#[trigger] self.entries()[i]).0, channel_id@),
            decreases self.entries@.len() - k,
        {
            assert(self.entries()[k as int].0 == self.entries@[k as int].0@);
            if !is_before(self.entries[k].0.as_slice(), channel_id) {
                return k;
            }
            k += 1;
        }
        k
    }

    /// The handle of a channel's receiving side.
    pub fn find(&self, channel_id: &[u8]) -> (handle: Option<u64>)
        requires
            self.wf(),
        ensures
            handle == (if self.channels().contains_key(channel_id@) {
                Some(self.channels()[channel_id@])
            } else {
                None
            }),
    {
        let k: usize = self.place(channel_id);
        proof {
            lemma_channel_map(self.entries());
        }
        if k < self.entries.len() && bytes_eq(self.entries[k].0.as_slice(), channel_id) {
            assert(self.entries()[k as int].0 == channel_id@);
            return Some(self.entries[k].1);
        }
        proof {
            if self.channels().contains_key(channel_id@) {
                let i = choose|i: int|
                    0 <= i < self.entries().len() && (#[trigger] self.entries()[i]).0
                        == channel_id@;
                lemma_order_is_strict(channel_id@);
                assert(i >= k);
                if i == k {
                    assert(self.entries()[k as int].0 == self.entries@[k as int].0@);
                } else {
                    assert(comes_before(self.entries()[k as int].0, self.entries()[i].0));
                }
            }
        }
        None
    }

    /// Notes the receiving side of a channel, in place of one that was noted before under the
    /// same identifier.
    pub fn insert(&mut self, channel_id: &[u8], handle: u64)
        requires
            old(self).wf(),
        ensures
            final(self).wf(),
            final(self).channels() == old(self).channels().insert(channel_id@, handle),
    {
        let k: usize = self.place(channel_id);
        let ghost before = self.entries();
        let replace = k < self.entries.len() && bytes_eq(
            self.entries[k].0.as_slice(),
            channel_id,
        );
        proof {
            if k < before.len() {
                assert(before[k as int].0 == self.entries@[k as int].0@);
                lemma_order_is_total(channel_id@, before[k as int].0);
            }
            lemma_with_entry(before, k as int, replace, channel_id@, handle);
        }
        if replace {
            self.entries.set(k, (copy(channel_id), handle));
        } else {
            self.entries.insert(k, (copy(channel_id), handle));
        }
        assert(self.entries() =~= with_entry(before, k as int, replace, (channel_id@, handle)));
    }

    /// The handles of all channels' receiving sides, in the order of their identifiers.
    pub fn handles(&self) -> (handles: Vec<u64>)
        ensures
            handles@ == self.entries().map_values(|e: (Seq<u8>, u64)| e.1),
    {
        let mut handles: Vec<u64> = Vec::new();
        let mut i: usize = 0;
        while i < self.entries.len()
            invariant
                i <= self.entries@.len(),
                handles@ == self.entries().take(i as int).map_values(|e: (Seq<u8>, u64)| e.1),
            decreases self.entries@.len() - i,
        {
            handles.push(self.entries[i].1);
            assert(handles@ =~= self.entries().take(i + 1).map_values(|e: (Seq<u8>, u64)| e.1));
            i += 1;
        }
        assert(self.entries().take(i as int) =~= self.entries());
        handles
    }

    /// What is to be done with a control frame.
    pub fn apply_mcquic_control_frame(&self, frame: &McquicFrame) -> (action: FrameAction)
        requires
            self.wf(),
        ensures
            action == (match *frame {
                McquicFrame::Announce { channel_id, source, group, udp_port } => {
                    FrameAction::CreateChannel
                },
                McquicFrame::Key { channel_id, key_sequence, from_packet_number } => {
                    if self.channels().contains_key(channel_id@) {
                        FrameAction::InsertKey(self.channels()[channel_id@])
                    } else {
                        FrameAction::UnknownChannel
                    }
                },
                McquicFrame::Integrity { channel_id, packet_number_start, packet_hash_count } => {
                    if self.channels().contains_key(channel_id@) {
                        FrameAction::InsertIntegrity(self.channels()[channel_id@])
                    } else {
                        FrameAction::UnknownChannel
                    }
                },
                _ => FrameAction::Nothing,
            }),
    {
        match frame {
            McquicFrame::Announce { .. } => FrameAction::CreateChannel,
            McquicFrame::Key { channel_id, .. } => match self.find(channel_id.as_slice()) {
                Some(handle) => FrameAction::InsertKey(handle),
                None => FrameAction::UnknownChannel,
            },
            McquicFrame::Integrity { channel_id, .. } => match self.find(channel_id.as_slice()) {
                Some(handle) => FrameAction::InsertIntegrity(handle),
                None => FrameAction::UnknownChannel,
            },
            _ => FrameAction::Nothing,
        }
    }
}

/// What the embedder is told once a protected packet was for a channel; none where there is no
/// such channel.
pub fn packet_processed(processed: &Option<Result<(), TransportError>>) -> (result: NsResult)
    ensures
        result == (match *processed {
            None => NsResult::NS_ERROR_NOT_AVAILABLE,
            Some(Ok(())) => NsResult::NS_OK,
            Some(Err(e)) => mcquic_transport_result(e),
        }),
{
    match processed {
        None => NsResult::NS_ERROR_NOT_AVAILABLE,
        Some(Ok(())) => NsResult::NS_OK,
        Some(Err(e)) => mcquic_transport_error_to_nsresult(e),
    }
}

/// What the embedder is told once a stream for control messages was to be opened.
pub fn moq_stream_opened(opened: &Result<u64, Http3Error>, stream_id: &mut u64) -> (result:
    NsResult)
    ensures
        match *opened {
            Ok(id) => result == NsResult::NS_OK && *final(stream_id) == id,
            Err(e) => result == mcquic_http3_result(e) && *final(stream_id) == 0,
        },
{
    *stream_id = 0;
    match opened {
        Ok(id) => {
            *stream_id = *id;
            NsResult::NS_OK
        },
        Err(e) => mcquic_http3_error_to_nsresult(e),
    }
}

/// What the embedder is told once bytes were to be sent on a stream for control messages.
pub fn moq_stream_sent(outcome: &Result<usize, Http3Error>, sent: &mut u32) -> (result: NsResult)
    ensures
        match *outcome {
            Ok(amount) => result == NsResult::NS_OK && *final(sent) == capped(amount as nat),
            Err(e) => result == mcquic_http3_result(e) && *final(sent) == 0,
        },
{
    *sent = 0;
    match outcome {
        Ok(amount) => {
            *sent = cap(*amount);
            NsResult::NS_OK
        },
        Err(e) => mcquic_http3_error_to_nsresult(e),
    }
}

/// What the embedder is told once bytes were to be received on a stream for control messages:
/// `buf` holds what was read. A stream without more data has ended.
pub fn moq_stream_received(
    outcome: &Result<(usize, bool), Http3Error>,
    buf: &[u8],
    payload: &mut ThinVec<u8>,
    fin: &mut bool,
) -> (result: NsResult)
    requires
        *outcome matches Ok((amount, ended)) ==> amount <= buf@.len(),
    ensures
        match *outcome {
            Ok((amount, ended)) => {
                &&& result == (if amount == 0 && !ended {
                    NsResult::NS_BASE_STREAM_WOULD_BLOCK
                } else {
                    NsResult::NS_OK
                })
                &&& thin_bytes(*final(payload)) == buf@.take(amount as int)
                &&& *final(fin) == ended
            },
            Err(e) => {
                &&& result == (match e {
                    Http3Error::NoMoreData => NsResult::NS_OK,
                    _ => mcquic_http3_result(e),
                })
                &&& thin_bytes(*final(payload)) == Seq::<u8>::empty()
                &&& *final(fin) == (e is NoMoreData)
            },
        },
{
    *payload = thin_new();
    *fin = false;
    match outcome {
        Ok((amount, ended)) => {
            if *amount == 0 && !*ended {
                assert(buf@.take(0) =~= Seq::<u8>::empty());
                return NsResult::NS_BASE_STREAM_WOULD_BLOCK;
            }
            let read = vstd::slice::slice_subrange(buf, 0, *amount);
            assert(read@ =~= buf@.take(*amount as int));
            *payload = thin_from(read);
            *fin = *ended;
            NsResult::NS_OK
        },
        Err(e) => match e {
            Http3Error::NoMoreData => {
                *fin = true;
                NsResult::NS_OK
            },
            _ => mcquic_http3_error_to_nsresult(e),
        },
    }
}

/// A report of what the client allows.
#[derive(Clone, Copy, Debug, PartialEq, Eq, Structural)]
pub struct LimitsFrame {
    pub sequence: u64,
    pub limits: ClientLimits,
    pub max_joined_count: u64,
}

/// The report of what the client allows, where it takes part in multicast at all.
pub fn limits_frame(limits: Option<ClientLimits>, sequence: u64) -> (frame: Result<
    LimitsFrame,
    NsResult,
>)
    ensures
        frame == (match limits {
            None => Err::<LimitsFrame, NsResult>(NsResult::NS_ERROR_NOT_AVAILABLE),
            Some(l) => Ok::<LimitsFrame, NsResult>(
                LimitsFrame { sequence, limits: l, max_joined_count: l.max_channel_ids },
            ),
        }),
{
    match limits {
        None => Err(NsResult::NS_ERROR_NOT_AVAILABLE),
        Some(l) => Ok(LimitsFrame { sequence, limits: l, max_joined_count: l.max_channel_ids }),
    }
}

/// Whose reason a report gives.
#[derive(Clone, Copy, Debug, PartialEq, Eq, Structural)]
pub enum StateReasonScope {
    Transport,
}

/// The reason that a report gives.
#[derive(Clone, Copy, Debug, PartialEq, Eq, Structural)]
pub enum StateReason {
    RequestedByServer,
}

/// A report that a channel was joined, as the server asked.
#[derive(Debug)]
pub struct JoinedStateFrame {
    pub channel_id: Vec<u8>,
    pub sequence: u64,
    pub reason_scope: StateReasonScope,
    pub reason: StateReason,
    pub reason_phrase: Vec<u8>,
}

/// The report that a channel was joined.
pub fn joined_state(channel_id: &[u8], sequence: u64) -> (frame: JoinedStateFrame)
    ensures
        frame.channel_id@ == channel_id@,
        frame.sequence == sequence,
        frame.reason_scope == StateReasonScope::Transport,
        frame.reason == StateReason::RequestedByServer,
        frame.reason_phrase@ == "joined".spec_bytes(),
{
    JoinedStateFrame {
        channel_id: copy(channel_id),
        sequence,
        reason_scope: StateReasonScope::Transport,
        reason: StateReason::RequestedByServer,
        reason_phrase: crate::bytes::text_bytes("joined"),
    }
}

/// What the embedder is told once a control frame was to be sent.
pub fn frame_sent(sent: &Result<(), Http3Error>) -> (result: NsResult)
    ensures
        result == (match *sent {
            Ok(()) => NsResult::NS_OK,
            Err(e) => mcquic_http3_result(e),
        }),
{
    match sent {
        Ok(()) => NsResult::NS_OK,
        Err(e) => mcquic_http3_error_to_nsresult(e),
    }
}

/// Whether acknowledgements were sent, and what the embedder is told of it.
#[derive(Clone, Copy, Debug, PartialEq, Eq, Structural)]
pub struct McquicSendPendingAcksResult {
    pub result: NsResult,
    pub sent: bool,
}

/// What is to be done about acknowledgements that are due.
#[derive(Clone, Copy, Debug, PartialEq, Eq, Structural)]
pub enum AckStep {
    /// Send the acknowledgement at this place in the list.
    Send(usize),
    /// Every acknowledgement was sent: their channels are to be told, and this is the result.
    MarkSent(McquicSendPendingAcksResult),
    /// An acknowledgement was not sent: no channel is told, and this is the result.
    Failed(McquicSendPendingAcksResult),
}

/// The sending of `pending` acknowledgements, of which some were sent.
#[derive(Debug)]
pub struct AckLoop {
    pending: usize,
    sent: usize,
}

impl AckLoop {
    /// No more were sent than are due.
    pub closed spec fn wf(&self) -> bool {
        self.sent <= self.pending
    }

    /// How many are due.
    pub closed spec fn pending(&self) -> usize {
        self.pending
    }

    /// How many were sent.
    pub closed spec fn sent(&self) -> usize {
        self.sent
    }

    /// What is to be done next.
    pub open spec fn next(&self) -> AckStep {
        if self.sent() < self.pending() {
            AckStep::Send(self.sent())
        } else {
            AckStep::MarkSent(
                McquicSendPendingAcksResult {
                    result: NsResult::NS_OK,
                    sent: self.pending() > 0,
                },
            )
        }
    }

    fn step(&self) -> (step: AckStep)
        requires
            self.wf(),
        ensures
            step == self.next(),
    {
        if self.sent < self.pending {
            AckStep::Send(self.sent)
        } else {
            AckStep::MarkSent(
                McquicSendPendingAcksResult {
                    result: NsResult::NS_OK,
                    sent: self.pending > 0,
                },
            )
        }
    }

    /// Begins to send acknowledgements.
    pub fn begin(pending: usize) -> (begun: (Self, AckStep))
        ensures
            begun.0.wf(),
            begun.0.pending() == pending,
            begun.0.sent() == 0,
            begun.1 == begun.0.next(),
    {
        let acks = AckLoop { pending, sent: 0 };
        let step = acks.step();
        (acks, step)
    }

    /// Takes in whether the acknowledgement that was to be sent was.
    pub fn sent_one(&mut self, sent: &Result<(), Http3Error>) -> (step: AckStep)
        requires
            old(self).wf(),
            old(self).sent() < old(self).pending(),
        ensures
            final(self).wf(),
            final(self).pending() == old(self).pending(),
            match *sent {
                Ok(()) => final(self).sent() == old(self).sent() + 1 && step == final(self).next(),
                Err(e) => final(self).sent() == old(self).sent() && step == AckStep::Failed(
                    McquicSendPendingAcksResult { result: mcquic_http3_result(e), sent: false },
                ),
            },
    {
        match sent {
            Ok(()) => {
                self.sent = self.sent + 1;
                self.step()
            },
            Err(e) => AckStep::Failed(
                McquicSendPendingAcksResult {
                    result: mcquic_http3_error_to_nsresult(e),
                    sent: false,
                },
            ),
        }
    }
}

/// The channels are told that their acknowledgements were sent only once every one was.
pub proof fn law_mark_only_after_all(acks: AckLoop)
    requires
        acks.wf(),
    ensures
        acks.next() is MarkSent <==> acks.sent() == acks.pending(),
{
}

/// The tag names the kind of the frame that came: each tag exactly where a frame of its kind came,
/// so that frames of different kinds have different tags and none has that of no frame.
pub proof fn law_frame_tags(
    frame: McquicFrame,
    out: &mut McquicControlFrameExternal,
    received: Option<McquicFrame>,
    next: &mut McquicControlFrameExternal,
    result: NsResult,
)
    requires
        call_ensures(fill_mcquic_control_frame, (out, &frame), ()),
        call_ensures(neqo_http3conn_mcquic_recv_control_frame, (&received, next), result),
    ensures
        final(out)@ == external_frame(frame),
        final(next)@ == (match received {
            Some(f) => external_frame(f),
            None => no_frame(),
        }),
        result == NsResult::NS_OK,
        external_frame(frame).tag == McquicControlFrameTag::Announce <==> frame is Announce,
        external_frame(frame).tag == McquicControlFrameTag::Key <==> frame is Key,
        external_frame(frame).tag == McquicControlFrameTag::Integrity <==> frame is Integrity,
        external_frame(frame).tag == McquicControlFrameTag::Join <==> frame is Join,
        external_frame(frame).tag == McquicControlFrameTag::Leave <==> frame is Leave,
        external_frame(frame).tag == McquicControlFrameTag::Retire <==> frame is Retire,
        external_frame(frame).tag == McquicControlFrameTag::State <==> frame is State,
        external_frame(frame).tag == McquicControlFrameTag::Ack <==> frame is Ack,
        external_frame(frame).tag == McquicControlFrameTag::Limits <==> frame is Limits,
        external_frame(frame).tag != McquicControlFrameTag::NoFrame,
        no_frame().tag == McquicControlFrameTag::NoFrame,
{
}

/// The frame that an external one stands for, where its tag is that of a frame; the address of an
/// announced channel and the number of an integrity record's hashes are as they were told.
pub open spec fn told_frame(told: ControlFrameView) -> Option<FrameContent> {
    match told.tag {
        McquicControlFrameTag::NoFrame => None,
        McquicControlFrameTag::Announce => Some(
            FrameContent::Announce {
                channel_id: told.channel_id,
                source: told.source_ip,
                group: told.group_ip,
                udp_port: told.udp_port,
            },
        ),
        McquicControlFrameTag::Key => Some(
            FrameContent::Key {
                channel_id: told.channel_id,
                key_sequence: told.key_sequence,
                from_packet_number: told.packet_number_start,
            },
        ),
        McquicControlFrameTag::Integrity => Some(
            FrameContent::Integrity {
                channel_id: told.channel_id,
                packet_number_start: told.packet_number_start,
                packet_hash_count: told.packet_hash_count,
            },
        ),
        McquicControlFrameTag::Join => Some(
            FrameContent::Join {
                channel_id: told.channel_id,
                mc_key_sequence: told.key_sequence,
                mc_state_sequence: told.state_sequence,
            },
        ),
        McquicControlFrameTag::Leave => Some(
            FrameContent::Leave {
                channel_id: told.channel_id,
                mc_state_sequence: told.state_sequence,
                after_packet_number: told.packet_number_start,
            },
        ),
        McquicControlFrameTag::Retire => Some(
            FrameContent::Retire {
                channel_id: told.channel_id,
                after_packet_number: told.packet_number_start,
            },
        ),
        McquicControlFrameTag::State => Some(
            FrameContent::State {
                channel_id: told.channel_id,
                sequence: told.state_sequence,
                state: told.channel_state,
            },
        ),
        McquicControlFrameTag::Ack => Some(
            FrameContent::Ack {
                channel_id: told.channel_id,
                largest_acknowledged: told.largest_acknowledged,
            },
        ),
        McquicControlFrameTag::Limits => Some(
            FrameContent::Limits { sequence: told.state_sequence },
        ),
    }
}

/// The contents of a [`McquicFrame`]. The number of hashes is zero where it is not known.
pub enum FrameContent {
    Announce { channel_id: Seq<u8>, source: Seq<char>, group: Seq<char>, udp_port: u16 },
    Key { channel_id: Seq<u8>, key_sequence: u64, from_packet_number: u64 },
    Integrity { channel_id: Seq<u8>, packet_number_start: u64, packet_hash_count: u64 },
    Join { channel_id: Seq<u8>, mc_key_sequence: u64, mc_state_sequence: u64 },
    Leave { channel_id: Seq<u8>, mc_state_sequence: u64, after_packet_number: u64 },
    Retire { channel_id: Seq<u8>, after_packet_number: u64 },
    State { channel_id: Seq<u8>, sequence: u64, state: u8 },
    Ack { channel_id: Seq<u8>, largest_acknowledged: u64 },
    Limits { sequence: u64 },
}

impl View for McquicFrame {
    type V = FrameContent;

    open spec fn view(&self) -> FrameContent {
        match *self {
            McquicFrame::Announce { channel_id, source, group, udp_port } => {
                FrameContent::Announce {
                    channel_id: channel_id@,
                    source: source@,
                    group: group@,
                    udp_port,
                }
            },
            McquicFrame::Key { channel_id, key_sequence, from_packet_number } => {
                FrameContent::Key { channel_id: channel_id@, key_sequence, from_packet_number }
            },
            McquicFrame::Integrity { channel_id, packet_number_start, packet_hash_count } => {
                FrameContent::Integrity {
                    channel_id: channel_id@,
                    packet_number_start,
                    packet_hash_count: packet_hash_count.unwrap_or(0),
                }
            },
            McquicFrame::Join { channel_id, mc_key_sequence, mc_state_sequence } => {
                FrameContent::Join { channel_id: channel_id@, mc_key_sequence, mc_state_sequence }
            },
            McquicFrame::Leave { channel_id, mc_state_sequence, after_packet_number } => {
                FrameContent::Leave {
                    channel_id: channel_id@,
                    mc_state_sequence,
                    after_packet_number,
                }
            },
            McquicFrame::Retire { channel_id, after_packet_number } => FrameContent::Retire {
                channel_id: channel_id@,
                after_packet_number,
            },
            McquicFrame::State { channel_id, sequence, state } => FrameContent::State {
                channel_id: channel_id@,
                sequence,
                state,
            },
            McquicFrame::Ack { channel_id, largest_acknowledged } => FrameContent::Ack {
                channel_id: channel_id@,
                largest_acknowledged,
            },
            McquicFrame::Limits { sequence } => FrameContent::Limits { sequence },
        }
    }
}

/// Nothing of a frame is lost on the way to the embedder, and nothing is mixed up: from what the
/// embedder gets, the frame can be told again.
pub proof fn law_frame_is_told(frame: McquicFrame)
    ensures
        told_frame(external_frame(frame)) == Some(frame@),
{
}

/// What a frame does not have, the embedder gets as zero or empty.
pub proof fn law_frame_has_no_more(frame: McquicFrame)
    ensures
        ({
            let told = external_frame(frame);
            &&& !(frame is Announce) ==> told.source_ip.len() == 0 && told.group_ip.len() == 0
                && told.udp_port == 0
            &&& !(frame is Key || frame is Join) ==> told.key_sequence == 0
            &&& !(frame is Key || frame is Integrity || frame is Leave || frame is Retire)
                ==> told.packet_number_start == 0
            &&& !(frame is Integrity) ==> told.packet_hash_count == 0
            &&& !(frame is Ack) ==> told.largest_acknowledged == 0
            &&& !(frame is Join || frame is Leave || frame is State || frame is Limits)
                ==> told.state_sequence == 0
            &&& !(frame is State) ==> told.channel_state == 0
            &&& frame is Limits ==> told.channel_id.len() == 0
        }),
{
}

/// A control frame for a channel that was announced goes to that channel's receiving side: a key
/// as a key, and an integrity record as one. One for any other channel is refused. An announcement
/// always makes a receiving side, and no other frame does anything.
pub proof fn law_frames_reach_their_channel(
    table: ChannelTable,
    frame: McquicFrame,
    action: FrameAction,
)
    requires
        table.wf(),
        call_ensures(ChannelTable::apply_mcquic_control_frame, (&table, &frame), action),
    ensures
        action == FrameAction::CreateChannel <==> frame is Announce,
        forall|handle: u64| #[trigger]
            is_key_for(action, handle) <==> (frame matches McquicFrame::Key { channel_id, .. }
                && table.channels().contains_pair(channel_id@, handle)),
        forall|handle: u64| #[trigger]
            is_integrity_for(action, handle) <==> (frame matches McquicFrame::Integrity {
                channel_id,
                ..
            } && table.channels().contains_pair(channel_id@, handle)),
        action == FrameAction::UnknownChannel <==> {
            ||| frame matches McquicFrame::Key { channel_id, .. }
                && !table.channels().contains_key(channel_id@)
            ||| frame matches McquicFrame::Integrity { channel_id, .. }
                && !table.channels().contains_key(channel_id@)
        },
{
}

pub open spec fn is_key_for(action: FrameAction, handle: u64) -> bool {
    action == FrameAction::InsertKey(handle)
}

pub open spec fn is_integrity_for(action: FrameAction, handle: u64) -> bool {
    action == FrameAction::InsertIntegrity(handle)
}

/// The channels of a connection are found again under their identifiers, each with the receiving
/// side that was noted last; all others are as they were.
pub proof fn law_channel_is_found(
    table: &mut ChannelTable,
    channel_id: &[u8],
    handle: u64,
    other: &[u8],
    before: Option<u64>,
    after: Option<u64>,
)
    requires
        call_ensures(ChannelTable::insert, (table, channel_id, handle), ()),
        call_ensures(ChannelTable::find, (&*old(table), other), before),
        call_ensures(ChannelTable::find, (&*final(table), other), after),
    ensures
        other@ == channel_id@ ==> after == Some(handle),
        other@ != channel_id@ ==> after == before,
{
}

/// A packet that a channel took is told as a success, one for a channel that is not known as
/// such, and only a packet that was bad in itself as a bad argument.
pub proof fn law_packet_processed(
    processed: Option<Result<(), TransportError>>,
    result: NsResult,
)
    requires
        call_ensures(packet_processed, (&processed,), result),
    ensures
        result == NsResult::NS_OK <==> (processed matches Some(Ok(_))),
        processed is None ==> result == NsResult::NS_ERROR_NOT_AVAILABLE,
        processed matches Some(Err(e)) ==> (result == NsResult::NS_ERROR_NOT_AVAILABLE <==> e
            is NotAvailable),
        processed matches Some(Err(e)) ==> (result == NsResult::NS_ERROR_INVALID_ARG <==> (e
            is FrameEncoding || e is InvalidInput || e is ProtocolViolation || e
            is UnknownFrameType)),
        result == NsResult::NS_OK || result == NsResult::NS_ERROR_NOT_AVAILABLE || result
            == NsResult::NS_ERROR_INVALID_ARG || result
            == NsResult::NS_ERROR_NET_HTTP3_PROTOCOL_ERROR,
{
}

/// What the embedder is told of a stream for control messages is what happened: its number, how
/// many bytes were taken, as far as 32 bits hold it, and which bytes came. Nothing is told of a
/// stream that failed but the error, which is never told as a success; only a stream that has no
/// more data has simply ended.
pub proof fn law_moq_streams(
    opened: Result<u64, Http3Error>,
    stream_id: &mut u64,
    open_result: NsResult,
    outcome: Result<usize, Http3Error>,
    sent: &mut u32,
    send_result: NsResult,
    received: Result<(usize, bool), Http3Error>,
    buf: &[u8],
    payload: &mut ThinVec<u8>,
    fin: &mut bool,
    receive_result: NsResult,
)
    requires
        call_ensures(moq_stream_opened, (&opened, stream_id), open_result),
        call_ensures(moq_stream_sent, (&outcome, sent), send_result),
        call_ensures(moq_stream_received, (&received, buf, payload, fin), receive_result),
        received matches Ok((n, _)) ==> n <= buf@.len(),
    ensures
        open_result == NsResult::NS_OK <==> opened is Ok,
        *final(stream_id) == opened.ok().unwrap_or(0),
        send_result == NsResult::NS_OK <==> outcome is Ok,
        outcome matches Ok(n) ==> (n <= 0xffff_ffff ==> *final(sent) == n) && (n > 0xffff_ffff
            ==> *final(sent) == 0xffff_ffff),
        outcome is Err ==> *final(sent) == 0,
        received matches Ok((n, ended)) ==> {
            &&& *final(fin) == ended
            &&& thin_bytes(*final(payload)) == buf@.subrange(0, n as int)
            &&& receive_result == NsResult::NS_OK <==> n > 0 || ended
            &&& receive_result == NsResult::NS_BASE_STREAM_WOULD_BLOCK <==> n == 0 && !ended
        },
        received matches Err(e) ==> {
            &&& thin_bytes(*final(payload)).len() == 0
            &&& receive_result == NsResult::NS_OK <==> e is NoMoreData
            &&& *final(fin) <==> e is NoMoreData
            &&& receive_result != NsResult::NS_BASE_STREAM_WOULD_BLOCK
        },
        open_result == NsResult::NS_ERROR_NOT_AVAILABLE <==> (opened matches Err(e)
            && is_unavailable(e)),
        open_result == NsResult::NS_ERROR_INVALID_ARG <==> (opened matches Err(e) && is_bad_input(
            e,
        )),
        send_result == NsResult::NS_ERROR_NOT_AVAILABLE <==> (outcome matches Err(e)
            && is_unavailable(e)),
        send_result == NsResult::NS_ERROR_INVALID_ARG <==> (outcome matches Err(e) && is_bad_input(
            e,
        )),
        receive_result == NsResult::NS_ERROR_NOT_AVAILABLE <==> (received matches Err(e)
            && is_unavailable(e)),
        receive_result == NsResult::NS_ERROR_INVALID_ARG <==> (received matches Err(e)
            && is_bad_input(e)),
{
}

/// Whether an error says that multicast is not to be had.
pub open spec fn is_unavailable(error: Http3Error) -> bool {
    error is Unavailable || (error matches Http3Error::Transport(e) && e is NotAvailable)
}

/// Whether an error says that what was handed over was bad.
pub open spec fn is_bad_input(error: Http3Error) -> bool {
    error is InvalidInput || (error matches Http3Error::Transport(e) && (e is FrameEncoding || e
        is InvalidInput || e is ProtocolViolation || e is UnknownFrameType))
}

/// A report carries what the client allows, and as many channels as it has identifiers for;
/// a client that takes no part sends none. A frame that was sent is told as a success, and no
/// other.
pub proof fn law_reports(
    limits: Option<ClientLimits>,
    sequence: u64,
    frame: Result<LimitsFrame, NsResult>,
    channel_id: &[u8],
    joined: JoinedStateFrame,
    sent: Result<(), Http3Error>,
    result: NsResult,
)
    requires
        call_ensures(limits_frame, (limits, sequence), frame),
        call_ensures(joined_state, (channel_id, sequence), joined),
        call_ensures(frame_sent, (&sent,), result),
    ensures
        frame is Ok <==> limits is Some,
        frame matches Ok(f) ==> Some(f.limits) == limits && f.sequence == sequence
            && f.max_joined_count == f.limits.max_channel_ids,
        frame matches Err(e) ==> e == NsResult::NS_ERROR_NOT_AVAILABLE,
        joined.channel_id@ == channel_id@,
        joined.sequence == sequence,
        joined.reason_phrase@ == seq![0x6au8, 0x6f, 0x69, 0x6e, 0x65, 0x64],
        result == NsResult::NS_OK <==> sent is Ok,
        result == NsResult::NS_ERROR_NOT_AVAILABLE <==> (sent matches Err(e) && is_unavailable(e)),
        result == NsResult::NS_ERROR_INVALID_ARG <==> (sent matches Err(e) && is_bad_input(e)),
{
    reveal_strlit("joined");
    vstd::string::is_ascii_spec_bytes("joined");
    assert("joined".spec_bytes() =~= seq![0x6au8, 0x6f, 0x69, 0x6e, 0x65, 0x64]);
}

/// The acknowledgements that are due are sent one after the other, each of them once; the first
/// that fails ends it with its error and marks none as sent.
pub proof fn law_acks_in_order(acks: &mut AckLoop, sent: Result<(), Http3Error>, step: AckStep)
    requires
        old(acks).wf(),
        old(acks).sent() < old(acks).pending(),
        call_ensures(AckLoop::sent_one, (acks, &sent), step),
    ensures
        old(acks).next() == AckStep::Send(old(acks).sent()),
        sent is Ok && old(acks).sent() + 1 < old(acks).pending() ==> step == AckStep::Send(
            (old(acks).sent() + 1) as usize,
        ),
        sent is Ok && old(acks).sent() + 1 == old(acks).pending() ==> step == AckStep::MarkSent(
            McquicSendPendingAcksResult { result: NsResult::NS_OK, sent: true },
        ),
        sent is Err ==> (step matches AckStep::Failed(r) && !r.sent && r.result
            != NsResult::NS_OK && (r.result == NsResult::NS_ERROR_INVALID_ARG <==> is_bad_input(
            sent->Err_0,
        )) && (r.result == NsResult::NS_ERROR_NOT_AVAILABLE <==> is_unavailable(sent->Err_0))),
{
}

/// Where nothing is due, nothing is sent.
pub proof fn law_no_acks(pending: usize, begun: (AckLoop, AckStep))
    requires
        call_ensures(AckLoop::begin, (pending,), begun),
    ensures
        pending == 0 ==> begun.1 == AckStep::MarkSent(
            McquicSendPendingAcksResult { result: NsResult::NS_OK, sent: false },
        ),
        pending > 0 ==> begun.1 == AckStep::Send(0),
{
}

/// A datagram that a channel released reaches the embedder whole.
pub proof fn law_released_datagram(
    released: Option<ReleasedDatagram>,
    datagram: &mut McquicChannelDatagram,
    found: bool,
)
    requires
        call_ensures(neqo_http3conn_mcquic_pop_channel_datagram, (&released, datagram), found),
    ensures
        found <==> released is Some,
        released matches Some(r) ==> thin_bytes(final(datagram).payload) == r.data@ && thin_bytes(
            final(datagram).channel_id,
        ) == r.channel_id@ && final(datagram).packet_number == r.packet_number,
        released is None ==> thin_bytes(final(datagram).payload).len() == 0 && thin_bytes(
            final(datagram).channel_id,
        ).len() == 0 && final(datagram).packet_number == 0,
{
}

/// Channels stand in the order of a dictionary: at the first byte in which two identifiers differ
/// the smaller one comes first, and an identifier comes before those that it begins.
pub proof fn law_channel_order(a: &[u8], b: &[u8], before: bool, i: int)
    requires
        call_ensures(is_before, (a, b), before),
        0 <= i <= a@.len(),
        i <= b@.len(),
        a@.take(i) == b@.take(i),
        i < a@.len() && i < b@.len() ==> a@[i] != b@[i],
    ensures
        before <==> i < b@.len() && (i == a@.len() || a@[i] < b@[i]),
{
    lemma_order_at(a@, b@, i);
}

proof fn lemma_order_at(a: Seq<u8>, b: Seq<u8>, i: int)
    requires
        0 <= i <= a.len(),
        i <= b.len(),
        a.take(i) == b.take(i),
        i < a.len() && i < b.len() ==> a[i] != b[i],
    ensures
        comes_before(a, b) <==> i < b.len() && (i == a.len() || a[i] < b[i]),
    decreases i,
{
    if i > 0 {
        assert(a.take(i)[0] == a[0] && b.take(i)[0] == b[0]);
        assert(a.skip(1).take(i - 1) =~= a.take(i).skip(1));
        assert(b.skip(1).take(i - 1) =~= b.take(i).skip(1));
        lemma_order_at(a.skip(1), b.skip(1), i - 1);
    }
}

/// Every channel is asked for what it holds, each once, in the order of the table; the limits of
/// a client are those that it starts with.
pub proof fn law_every_handle(
    table: ChannelTable,
    handles: Vec<u64>,
    limits: ClientLimits,
    i: int,
)
    requires
        call_ensures(ChannelTable::handles, (&table,), handles),
        call_ensures(default_mcquic_client_limits, (), limits),
    ensures
        handles@.len() == table.entries().len(),
        0 <= i < table.entries().len() ==> handles@[i] == table.entries()[i].1,
        limits.ipv4_channels_allowed && limits.ipv6_channels_allowed,
        limits.max_aggregate_rate_kibps == 100_000 && limits.max_channel_ids == 32,
{
}

/// A stream is read four kibibytes at a time.
pub proof fn law_read_size()
    ensures
        MCQUIC_MOQT_STREAM_READ_SIZE == 4 * 1024,
{
}

}
