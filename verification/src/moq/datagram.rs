//! Object datagrams: native ones, and those of the older format that begins with `MOQ1`.
use crate::bytes::{
    be_bytes, be_span, be_value, copy, has_prefix, is_text, lemma_be_round_trip,
    lemma_be_span_values, read_be,
};
use crate::moq::reader::{exact, McquicMoqReader};
use crate::moq::varint::{announced_len, law_varint_round_trip, varint, varint_bytes};
use crate::text::decoded;
use crate::thin::{thin_bytes, thin_from, thin_new, thin_slice};
use thin_vec::ThinVec;
use vstd::prelude::*;
use vstd::slice::slice_subrange;
use vstd::string::StringSliceAdditionalSpecFns;
use vstd::utf8::{decode_utf8, valid_utf8};

verus! {

pub const MCQUIC_MOQT_DATAGRAM_PROPERTIES: u64 = 0x01;

pub const MCQUIC_MOQT_DATAGRAM_END_OF_GROUP: u64 = 0x02;

pub const MCQUIC_MOQT_DATAGRAM_ZERO_OBJECT_ID: u64 = 0x04;

pub const MCQUIC_MOQT_DATAGRAM_DEFAULT_PRIORITY: u64 = 0x08;

pub const MCQUIC_MOQT_DATAGRAM_STATUS: u64 = 0x20;

pub const MCQUIC_MOQ1_VERSION: u8 = 1;

pub const MCQUIC_MOQ1_FLAG_KEYFRAME: u8 = 0x01;

pub const MCQUIC_MOQ1_FLAG_CONFIG: u8 = 0x02;

pub const MCQUIC_MOQ1_FLAG_END_OF_GROUP: u8 = 0x04;

pub const MCQUIC_MOQ1_FLAG_INDEPENDENT: u8 = 0x08;

pub const MCQUIC_MOQ1_FLAG_HAS_MULTICAST_PROVENANCE: u8 = 0x10;

pub const MCQUIC_MOQ1_FIXED_HEADER_LEN: usize = 56;

#[derive(Clone, Copy, Debug, PartialEq, Eq, Structural)]
pub enum McquicMoqDatagramFormat {
    Unknown,
    NativeMoqtObject,
    LegacyMoq1Object,
}

#[derive(Clone, Copy, Debug, PartialEq, Eq, Structural)]
pub enum McquicMoqObjectStatus {
    Unknown,
    Normal,
    EndOfGroup,
    EndOfTrack,
}

/// A decoded object datagram. A field that the datagram's format does not have is zero, false
/// or empty.
pub struct McquicMoqDatagramExternal {
    pub format: McquicMoqDatagramFormat,
    pub track_alias: u64,
    pub has_track_alias: bool,
    pub group_id: u64,
    pub object_id: u64,
    pub publisher_sequence: u64,
    pub pts_millis: u64,
    pub status: McquicMoqObjectStatus,
    pub end_of_group: bool,
    pub keyframe: bool,
    pub config: bool,
    pub independent: bool,
    pub payload_len: u64,
    pub has_publisher_priority: bool,
    pub publisher_priority: u8,
    pub has_multicast_packet_number: bool,
    pub multicast_packet_number: u64,
    pub namespace: String,
    pub track_name: String,
    pub multicast_channel: ThinVec<u8>,
    pub payload: ThinVec<u8>,
}

/// The contents of a [`McquicMoqDatagramExternal`].
pub struct DatagramView {
    pub format: McquicMoqDatagramFormat,
    pub track_alias: u64,
    pub has_track_alias: bool,
    pub group_id: u64,
    pub object_id: u64,
    pub publisher_sequence: u64,
    pub pts_millis: u64,
    pub status: McquicMoqObjectStatus,
    pub end_of_group: bool,
    pub keyframe: bool,
    pub config: bool,
    pub independent: bool,
    pub payload_len: u64,
    pub has_publisher_priority: bool,
    pub publisher_priority: u8,
    pub has_multicast_packet_number: bool,
    pub multicast_packet_number: u64,
    pub namespace: Seq<char>,
    pub track_name: Seq<char>,
    pub multicast_channel: Seq<u8>,
    pub payload: Seq<u8>,
}

impl View for McquicMoqDatagramExternal {
    type V = DatagramView;

    open spec fn view(&self) -> DatagramView {
        DatagramView {
            format: self.format,
            track_alias: self.track_alias,
            has_track_alias: self.has_track_alias,
            group_id: self.group_id,
            object_id: self.object_id,
            publisher_sequence: self.publisher_sequence,
            pts_millis: self.pts_millis,
            status: self.status,
            end_of_group: self.end_of_group,
            keyframe: self.keyframe,
            config: self.config,
            independent: self.independent,
            payload_len: self.payload_len,
            has_publisher_priority: self.has_publisher_priority,
            publisher_priority: self.publisher_priority,
            has_multicast_packet_number: self.has_multicast_packet_number,
            multicast_packet_number: self.multicast_packet_number,
            namespace: self.namespace@,
            track_name: self.track_name@,
            multicast_channel: thin_bytes(self.multicast_channel),
            payload: thin_bytes(self.payload),
        }
    }
}

/// A datagram in which every field is zero, false or empty.
pub open spec fn no_datagram() -> DatagramView {
    DatagramView {
        format: McquicMoqDatagramFormat::Unknown,
        track_alias: 0,
        has_track_alias: false,
        group_id: 0,
        object_id: 0,
        publisher_sequence: 0,
        pts_millis: 0,
        status: McquicMoqObjectStatus::Unknown,
        end_of_group: false,
        keyframe: false,
        config: false,
        independent: false,
        payload_len: 0,
        has_publisher_priority: false,
        publisher_priority: 0,
        has_multicast_packet_number: false,
        multicast_packet_number: 0,
        namespace: Seq::empty(),
        track_name: Seq::empty(),
        multicast_channel: Seq::empty(),
        payload: Seq::empty(),
    }
}

impl Default for McquicMoqDatagramExternal {
    fn default() -> (datagram: Self)
        ensures
            datagram@ == no_datagram(),
    {
        let datagram = McquicMoqDatagramExternal {
            format: McquicMoqDatagramFormat::Unknown,
            track_alias: 0,
            has_track_alias: false,
            group_id: 0,
            object_id: 0,
            publisher_sequence: 0,
            pts_millis: 0,
            status: McquicMoqObjectStatus::Unknown,
            end_of_group: false,
            keyframe: false,
            config: false,
            independent: false,
            payload_len: 0,
            has_publisher_priority: false,
            publisher_priority: 0,
            has_multicast_packet_number: false,
            multicast_packet_number: 0,
            namespace: String::new(),
            track_name: String::new(),
            multicast_channel: thin_new(),
            payload: thin_new(),
        };
        assert(datagram.namespace@ =~= Seq::<char>::empty());
        datagram
    }
}

/// The status that a number in a native datagram stands for.
pub open spec fn object_status(value: u64) -> Option<McquicMoqObjectStatus> {
    if value == 0 {
        Some(McquicMoqObjectStatus::Normal)
    } else if value == 3 {
        Some(McquicMoqObjectStatus::EndOfGroup)
    } else if value == 4 {
        Some(McquicMoqObjectStatus::EndOfTrack)
    } else {
        None
    }
}

/// The status that a number in a native datagram stands for.
pub fn mcquic_moqt_object_status(value: u64) -> (status: Option<McquicMoqObjectStatus>)
    ensures
        status == object_status(value),
{
    if value == 0 {
        Some(McquicMoqObjectStatus::Normal)
    } else if value == 3 {
        Some(McquicMoqObjectStatus::EndOfGroup)
    } else if value == 4 {
        Some(McquicMoqObjectStatus::EndOfTrack)
    } else {
        None
    }
}

/// Whether a number is the type of a native object datagram. One with a status does not end a
/// group by its type.
pub open spec fn is_datagram_type(ty: u64) -> bool {
    (ty <= 0x0f || 0x20 <= ty <= 0x2f) && !(ty & MCQUIC_MOQT_DATAGRAM_STATUS != 0 && ty
        & MCQUIC_MOQT_DATAGRAM_END_OF_GROUP != 0)
}

/// The object number at the start of `s`, where the type does not say that it is zero, and what
/// follows it.
pub open spec fn object_number(ty: u64, s: Seq<u8>) -> Option<(u64, Seq<u8>)> {
    if ty & MCQUIC_MOQT_DATAGRAM_ZERO_OBJECT_ID != 0 {
        Some((0, s))
    } else {
        varint(s)
    }
}

/// The publisher's priority at the start of `s`, where the type does not leave it out, and what
/// follows it.
pub open spec fn priority(ty: u64, s: Seq<u8>) -> Option<(Option<u8>, Seq<u8>)> {
    if ty & MCQUIC_MOQT_DATAGRAM_DEFAULT_PRIORITY != 0 {
        Some((None, s))
    } else if s.len() == 0 {
        None
    } else {
        Some((Some(s[0]), s.skip(1)))
    }
}

/// What follows the properties at the start of `s`, where the type announces any.
pub open spec fn after_properties(ty: u64, s: Seq<u8>) -> Option<Seq<u8>> {
    if ty & MCQUIC_MOQT_DATAGRAM_PROPERTIES != 0 {
        match varint(s) {
            None => None,
            Some((len, s1)) => if len as usize == 0 {
                None
            } else {
                match exact(s1, len as usize) {
                    None => None,
                    Some((_, s2)) => Some(s2),
                }
            },
        }
    } else {
        Some(s)
    }
}

/// The status of an object and its payload, of which a datagram has one.
pub open spec fn status_or_payload(ty: u64, s: Seq<u8>) -> Option<
    (McquicMoqObjectStatus, Seq<u8>),
> {
    if ty & MCQUIC_MOQT_DATAGRAM_STATUS != 0 {
        match varint(s) {
            None => None,
            Some((value, rest)) => match object_status(value) {
                None => None,
                Some(status) => if rest.len() == 0 {
                    Some((status, Seq::empty()))
                } else {
                    None
                },
            },
        }
    } else {
        Some((McquicMoqObjectStatus::Normal, s))
    }
}

/// The native object datagram that `s` is.
pub open spec fn native_datagram(s: Seq<u8>) -> Option<DatagramView> {
    match varint(s) {
        None => None,
        Some((ty, s0)) => if !is_datagram_type(ty) {
            None
        } else {
            match varint(s0) {
                None => None,
                Some((track_alias, s1)) => match varint(s1) {
                    None => None,
                    Some((group_id, s2)) => match object_number(ty, s2) {
                        None => None,
                        Some((object_id, s3)) => match priority(ty, s3) {
                            None => None,
                            Some((publisher_priority, s4)) => match after_properties(ty, s4) {
                                None => None,
                                Some(s5) => match status_or_payload(ty, s5) {
                                    None => None,
                                    Some((status, payload)) => Some(
                                        DatagramView {
                                            format: McquicMoqDatagramFormat::NativeMoqtObject,
                                            track_alias,
                                            has_track_alias: true,
                                            group_id,
                                            object_id,
                                            publisher_sequence: group_id,
                                            status,
                                            end_of_group: ty & MCQUIC_MOQT_DATAGRAM_END_OF_GROUP
                                                != 0 || status == McquicMoqObjectStatus::EndOfGroup,
                                            payload_len: payload.len() as u64,
                                            has_publisher_priority: publisher_priority is Some,
                                            publisher_priority: match publisher_priority {
                                                Some(p) => p,
                                                None => 0,
                                            },
                                            payload,
                                            ..no_datagram()
                                        },
                                    ),
                                },
                            },
                        },
                    },
                },
            }
        },
    }
}

/// Decodes a native object datagram.
pub fn mcquic_decode_native_moqt_object_datagram(payload: &[u8]) -> (datagram: Option<
    McquicMoqDatagramExternal,
>)
    ensures
        datagram is Some <==> native_datagram(payload@) is Some,
        datagram matches Some(d) ==> native_datagram(payload@) == Some(d@),
{
    let mut reader = McquicMoqReader::new(payload);
    let ty: u64 = reader.read_varint()?;
    let in_allowed_range = ty <= 0x0f || (0x20 <= ty && ty <= 0x2f);
    let has_properties = ty & MCQUIC_MOQT_DATAGRAM_PROPERTIES != 0;
    let end_of_group = ty & MCQUIC_MOQT_DATAGRAM_END_OF_GROUP != 0;
    let zero_object_id = ty & MCQUIC_MOQT_DATAGRAM_ZERO_OBJECT_ID != 0;
    let default_priority = ty & MCQUIC_MOQT_DATAGRAM_DEFAULT_PRIORITY != 0;
    let has_status = ty & MCQUIC_MOQT_DATAGRAM_STATUS != 0;
    if !in_allowed_range || (has_status && end_of_group) {
        return None;
    }
    let track_alias: u64 = reader.read_varint()?;
    let group_id: u64 = reader.read_varint()?;
    let object_id: u64 = if zero_object_id {
        0
    } else {
        reader.read_varint()?
    };
    let publisher_priority: Option<u8> = if default_priority {
        None
    } else {
        Some(reader.read_u8()?)
    };
    if has_properties {
        let property_len: u64 = reader.read_varint()?;
        if property_len as usize == 0 {
            return None;
        }
        reader.read_exact(property_len as usize)?;
    }
    let mut status = McquicMoqObjectStatus::Normal;
    let object_payload: Vec<u8> = if has_status {
        let value: u64 = reader.read_varint()?;
        status = mcquic_moqt_object_status(value)?;
        if reader.remaining() != 0 {
            return None;
        }
        Vec::new()
    } else {
        copy(reader.read_to_end())
    };
    let mut datagram = McquicMoqDatagramExternal::default();
    datagram.format = McquicMoqDatagramFormat::NativeMoqtObject;
    datagram.track_alias = track_alias;
    datagram.has_track_alias = true;
    datagram.group_id = group_id;
    datagram.object_id = object_id;
    datagram.publisher_sequence = group_id;
    datagram.status = status;
    datagram.end_of_group = end_of_group || status == McquicMoqObjectStatus::EndOfGroup;
    datagram.payload_len = object_payload.len() as u64;
    datagram.has_publisher_priority = publisher_priority.is_some();
    datagram.publisher_priority = match publisher_priority {
        Some(p) => p,
        None => 0,
    };
    datagram.payload = thin_from(object_payload.as_slice());
    proof {
        if has_status {
            assert(object_payload@ =~= Seq::<u8>::empty());
        }
    }
    Some(datagram)
}

/// The number at the bytes from `i` to `j` of a header.
pub open spec fn header_field(s: Seq<u8>, i: int, j: int) -> nat {
    be_value(s.subrange(i, j))
}

/// The length that the header of a legacy datagram announces.
pub open spec fn legacy_len(s: Seq<u8>) -> nat {
    MCQUIC_MOQ1_FIXED_HEADER_LEN as nat + header_field(s, 6, 8) + header_field(s, 8, 10)
        + header_field(s, 10, 12) + header_field(s, 12, 16)
}

/// Whether `s` begins with the magic number and the version of the legacy format, and has the
/// length that its header announces.
pub open spec fn is_legacy(s: Seq<u8>) -> bool {
    &&& s.len() >= MCQUIC_MOQ1_FIXED_HEADER_LEN
    &&& has_prefix(s, "MOQ1".spec_bytes())
    &&& s[4] == MCQUIC_MOQ1_VERSION
    &&& s.len() == legacy_len(s)
}

/// The legacy object datagram that `s` is.
pub open spec fn legacy_datagram(s: Seq<u8>) -> Option<DatagramView> {
    if !is_legacy(s) {
        None
    } else {
        let flags = s[5];
        let namespace_end = 56 + header_field(s, 6, 8);
        let track_name_end = namespace_end + header_field(s, 8, 10);
        let channel_end = track_name_end + header_field(s, 10, 12);
        let namespace = s.subrange(56, namespace_end as int);
        let track_name = s.subrange(namespace_end as int, track_name_end as int);
        let has_multicast_packet_number = flags & MCQUIC_MOQ1_FLAG_HAS_MULTICAST_PROVENANCE != 0;
        if !valid_utf8(namespace) || !valid_utf8(track_name) {
            None
        } else {
            Some(
                DatagramView {
                    format: McquicMoqDatagramFormat::LegacyMoq1Object,
                    group_id: header_field(s, 16, 24) as u64,
                    object_id: header_field(s, 24, 32) as u64,
                    publisher_sequence: header_field(s, 32, 40) as u64,
                    pts_millis: header_field(s, 40, 48) as u64,
                    status: McquicMoqObjectStatus::Normal,
                    end_of_group: flags & MCQUIC_MOQ1_FLAG_END_OF_GROUP != 0,
                    keyframe: flags & MCQUIC_MOQ1_FLAG_KEYFRAME != 0,
                    config: flags & MCQUIC_MOQ1_FLAG_CONFIG != 0,
                    independent: flags & MCQUIC_MOQ1_FLAG_INDEPENDENT != 0,
                    payload_len: header_field(s, 12, 16) as u64,
                    has_multicast_packet_number,
                    multicast_packet_number: if has_multicast_packet_number {
                        header_field(s, 48, 56) as u64
                    } else {
                        0
                    },
                    namespace: decode_utf8(namespace),
                    track_name: decode_utf8(track_name),
                    multicast_channel: s.subrange(track_name_end as int, channel_end as int),
                    payload: s.skip(channel_end as int),
                    ..no_datagram()
                },
            )
        }
    }
}

/// Reads the number at the bytes from `i` to `j` of a header.
fn read_field(s: &[u8], i: usize, j: usize) -> (value: u64)
    requires
        i <= j <= s@.len(),
        j - i <= 8,
    ensures
        value == header_field(s@, i as int, j as int),
        value < be_span((j - i) as nat),
{
    read_be(slice_subrange(s, i, j))
}

/// Decodes an object datagram of the legacy format.
pub fn mcquic_decode_legacy_moq1_object_datagram(payload: &[u8]) -> (datagram: Option<
    McquicMoqDatagramExternal,
>)
    ensures
        datagram is Some <==> legacy_datagram(payload@) is Some,
        datagram matches Some(d) ==> legacy_datagram(payload@) == Some(d@),
{
    if payload.len() < MCQUIC_MOQ1_FIXED_HEADER_LEN {
        return None;
    }
    proof {
        lemma_be_span_values();
        lemma_magic();
        assert(payload@.take(4) =~= payload@.subrange(0, 4));
    }
    if !is_text(slice_subrange(payload, 0, 4), "MOQ1") || payload[4] != MCQUIC_MOQ1_VERSION {
        return None;
    }
    let flags: u8 = payload[5];
    let namespace_len: u64 = read_field(payload, 6, 8);
    let track_name_len: u64 = read_field(payload, 8, 10);
    let multicast_channel_len: u64 = read_field(payload, 10, 12);
    let object_payload_len: u64 = read_field(payload, 12, 16);
    let group_id: u64 = read_field(payload, 16, 24);
    let object_id: u64 = read_field(payload, 24, 32);
    let publisher_sequence: u64 = read_field(payload, 32, 40);
    let pts_millis: u64 = read_field(payload, 40, 48);
    let multicast_packet_number: u64 = read_field(payload, 48, 56);
    let total_len: u64 = MCQUIC_MOQ1_FIXED_HEADER_LEN as u64 + namespace_len + track_name_len
        + multicast_channel_len + object_payload_len;
    if payload.len() as u64 != total_len {
        return None;
    }
    let namespace_end: usize = MCQUIC_MOQ1_FIXED_HEADER_LEN + namespace_len as usize;
    let track_name_end: usize = namespace_end + track_name_len as usize;
    let multicast_channel_end: usize = track_name_end + multicast_channel_len as usize;
    let namespace = decoded(
        slice_subrange(payload, MCQUIC_MOQ1_FIXED_HEADER_LEN, namespace_end),
    )?;
    let track_name = decoded(slice_subrange(payload, namespace_end, track_name_end))?;
    let has_multicast_packet_number = flags & MCQUIC_MOQ1_FLAG_HAS_MULTICAST_PROVENANCE != 0;
    let object_payload = slice_subrange(payload, multicast_channel_end, payload.len());
    assert(object_payload@ =~= payload@.skip(multicast_channel_end as int));
    let mut datagram = McquicMoqDatagramExternal::default();
    datagram.format = McquicMoqDatagramFormat::LegacyMoq1Object;
    datagram.group_id = group_id;
    datagram.object_id = object_id;
    datagram.publisher_sequence = publisher_sequence;
    datagram.pts_millis = pts_millis;
    datagram.status = McquicMoqObjectStatus::Normal;
    datagram.end_of_group = flags & MCQUIC_MOQ1_FLAG_END_OF_GROUP != 0;
    datagram.keyframe = flags & MCQUIC_MOQ1_FLAG_KEYFRAME != 0;
    datagram.config = flags & MCQUIC_MOQ1_FLAG_CONFIG != 0;
    datagram.independent = flags & MCQUIC_MOQ1_FLAG_INDEPENDENT != 0;
    datagram.payload_len = object_payload_len;
    datagram.has_multicast_packet_number = has_multicast_packet_number;
    datagram.multicast_packet_number = if has_multicast_packet_number {
        multicast_packet_number
    } else {
        0
    };
    datagram.namespace = namespace;
    datagram.track_name = track_name;
    datagram.multicast_channel = thin_from(
        slice_subrange(payload, track_name_end, multicast_channel_end),
    );
    datagram.payload = thin_from(object_payload);
    Some(datagram)
}

/// The object datagram that `s` is, in either format.
pub open spec fn moq_datagram(s: Seq<u8>) -> Option<DatagramView> {
    match native_datagram(s) {
        Some(d) => Some(d),
        None => legacy_datagram(s),
    }
}

/// Decodes an object datagram into `datagram` and tells whether it is one; where it is none,
/// `datagram` is left with every field zero, false or empty.
pub fn neqo_mcquic_decode_moq_datagram(
    payload: &ThinVec<u8>,
    datagram: &mut McquicMoqDatagramExternal,
) -> (found: bool)
    ensures
        found == (moq_datagram(thin_bytes(*payload)) is Some),
        found ==> moq_datagram(thin_bytes(*payload)) == Some(final(datagram)@),
        !found ==> final(datagram)@ == no_datagram(),
{
    *datagram = McquicMoqDatagramExternal::default();
    let bytes = thin_slice(payload);
    match mcquic_decode_native_moqt_object_datagram(bytes) {
        Some(d) => {
            *datagram = d;
            true
        },
        None => match mcquic_decode_legacy_moq1_object_datagram(bytes) {
            Some(d) => {
                *datagram = d;
                true
            },
            None => false,
        },
    }
}

proof fn lemma_magic()
    ensures
        "MOQ1".spec_bytes() == seq![0x4du8, 0x4fu8, 0x51u8, 0x31u8],
{
    reveal_strlit("MOQ1");
    vstd::string::is_ascii_spec_bytes("MOQ1");
    assert("MOQ1".spec_bytes() =~= seq![0x4du8, 0x4fu8, 0x51u8, 0x31u8]);
}

proof fn lemma_magic_number(s: Seq<u8>)
    requires
        has_prefix(s, "MOQ1".spec_bytes()),
    ensures
        varint(s) == Some((0x0d4fu64, s.skip(2))),
{
    lemma_magic();
    let head = s.take(4);
    assert(s[0] == head[0] && s[1] == head[1]);
    let digits = seq![0x4du8, 0x4fu8];
    assert(s.take(2) =~= digits);
    assert(digits.drop_last() =~= seq![0x4du8]);
    assert(seq![0x4du8].drop_last() =~= Seq::<u8>::empty());
    assert(be_value(Seq::<u8>::empty()) == 0);
    assert(be_value(seq![0x4du8]) == 0x4d);
    assert(be_value(digits) == 0x4d4f);
    assert(announced_len(s[0]) == 2);
    lemma_be_span_values();
    assert(be_span(2) / 4 == 0x4000);
    assert(0x4d4fnat % 0x4000nat == 0x0d4f);
}

/// The two formats do not overlap: what begins with the legacy magic number is no native
/// datagram, whatever follows it. So the order in which the formats are tried does not matter.
pub proof fn law_formats_are_disjoint(s: Seq<u8>)
    requires
        has_prefix(s, "MOQ1".spec_bytes()),
    ensures
        native_datagram(s) is None,
        moq_datagram(s) == legacy_datagram(s),
{
    lemma_magic_number(s);
}

/// An object with a status has no payload, and of a legacy datagram the announced payload length
/// is that of its payload.
pub proof fn law_payload_len(s: Seq<u8>)
    requires
        s.len() <= u64::MAX,
    ensures
        moq_datagram(s) matches Some(d) ==> d.payload_len == d.payload.len() && d.payload.len()
            <= s.len() && (d.status != McquicMoqObjectStatus::Normal ==> d.payload_len == 0),
{
    crate::moq::varint::lemma_varint_shorter(s);
    if native_datagram(s) is Some {
        let (ty, s0) = varint(s)->0;
        crate::moq::varint::lemma_varint_shorter(s0);
        let s1 = (varint(s0)->0).1;
        crate::moq::varint::lemma_varint_shorter(s1);
        let s2 = (varint(s1)->0).1;
        crate::moq::varint::lemma_varint_shorter(s2);
        let s3 = (object_number(ty, s2)->0).1;
        let s4 = (priority(ty, s3)->0).1;
        crate::moq::varint::lemma_varint_shorter(s4);
    }
}

proof fn lemma_type_bits(ty: u64)
    requires
        ty <= 0x2f,
    ensures
        ty & MCQUIC_MOQT_DATAGRAM_PROPERTIES != 0 <==> ty % 2 == 1,
        ty & MCQUIC_MOQT_DATAGRAM_END_OF_GROUP != 0 <==> (ty / 2) % 2 == 1,
        ty & MCQUIC_MOQT_DATAGRAM_ZERO_OBJECT_ID != 0 <==> (ty / 4) % 2 == 1,
        ty & MCQUIC_MOQT_DATAGRAM_DEFAULT_PRIORITY != 0 <==> (ty / 8) % 2 == 1,
        ty & MCQUIC_MOQT_DATAGRAM_STATUS != 0 <==> (ty / 32) % 2 == 1,
{
    assert((ty & 0x01 != 0 <==> ty % 2 == 1) && (ty & 0x02 != 0 <==> (ty / 2) % 2 == 1) && (ty & 0x04
        != 0 <==> (ty / 4) % 2 == 1) && (ty & 0x08 != 0 <==> (ty / 8) % 2 == 1) && (ty & 0x20 != 0
        <==> (ty / 32) % 2 == 1)) by (bit_vector)
        requires
            ty <= 0x2f,
    ;
}

/// The type of a native datagram tells what it holds: by its bits, from the lowest on, that it has
/// properties, that it ends its group, that its object is the first, that its priority is left
/// out, and by the sixth that it has a status in place of a payload. One with a status does not end
/// its group by its type, but by its status.
pub proof fn law_type_tells_contents(s: Seq<u8>)
    requires
        native_datagram(s) is Some,
    ensures
        varint(s) is Some,
        ({
            let ty = (varint(s)->0).0;
            let d = native_datagram(s)->0;
            &&& ty <= 0x0f || 0x20 <= ty <= 0x2f
            &&& d.format == McquicMoqDatagramFormat::NativeMoqtObject
            &&& d.has_track_alias
            &&& d.end_of_group <==> (ty / 2) % 2 == 1 || d.status
                == McquicMoqObjectStatus::EndOfGroup
            &&& ty >= 0x20 ==> (ty / 2) % 2 == 0 && d.payload.len() == 0
            &&& ty <= 0x0f ==> d.status == McquicMoqObjectStatus::Normal
            &&& d.status != McquicMoqObjectStatus::Unknown
            &&& (ty / 4) % 2 == 1 ==> d.object_id == 0
            &&& d.has_publisher_priority <==> (ty / 8) % 2 == 0
            &&& !d.has_publisher_priority ==> d.publisher_priority == 0
            &&& d.publisher_sequence == d.group_id
            &&& d.pts_millis == 0 && !d.keyframe && !d.config && !d.independent
            &&& !d.has_multicast_packet_number && d.multicast_packet_number == 0
            &&& d.namespace.len() == 0 && d.track_name.len() == 0 && d.multicast_channel.len() == 0
        }),
{
    let ty = (varint(s)->0).0;
    lemma_type_bits(ty);
}

/// What a native datagram holds.
pub struct NativeContent {
    pub track_alias: u64,
    pub group_id: u64,
    /// None for the first of its group, whose number is left out.
    pub object_id: Option<u64>,
    pub priority: Option<u8>,
    pub properties: Option<Seq<u8>>,
    pub end_of_group: bool,
    /// A status, or none for an object with a payload.
    pub status: Option<u64>,
    pub payload: Seq<u8>,
}

/// The type of a native datagram with these contents.
pub open spec fn native_type(c: NativeContent) -> u64 {
    ((if c.properties is Some {
        1int
    } else {
        0
    }) + (if c.end_of_group {
        2int
    } else {
        0
    }) + (if c.object_id is None {
        4int
    } else {
        0
    }) + (if c.priority is None {
        8int
    } else {
        0
    }) + (if c.status is Some {
        32int
    } else {
        0
    })) as u64
}

/// A native datagram with these contents: the type, the alias, the group, the object, the
/// priority, the properties behind their length, and the status or the payload.
pub open spec fn native_bytes(c: NativeContent) -> Seq<u8> {
    varint_bytes(native_type(c)) + (varint_bytes(c.track_alias) + (varint_bytes(c.group_id)
        + object_bytes(c)))
}

/// What stands behind the group in a native datagram with these contents.
pub open spec fn object_bytes(c: NativeContent) -> Seq<u8> {
    match c.object_id {
        Some(id) => varint_bytes(id) + priority_bytes(c),
        None => priority_bytes(c),
    }
}

/// What stands behind the object's number in a native datagram with these contents.
pub open spec fn priority_bytes(c: NativeContent) -> Seq<u8> {
    match c.priority {
        Some(p) => seq![p] + property_bytes(c),
        None => property_bytes(c),
    }
}

/// What stands behind the priority in a native datagram with these contents.
pub open spec fn property_bytes(c: NativeContent) -> Seq<u8> {
    match c.properties {
        Some(p) => varint_bytes(p.len() as u64) + (p + tail_bytes(c)),
        None => tail_bytes(c),
    }
}

/// The end of a native datagram with these contents.
pub open spec fn tail_bytes(c: NativeContent) -> Seq<u8> {
    match c.status {
        Some(status) => varint_bytes(status),
        None => c.payload,
    }
}

/// Whether a native datagram can hold these contents: numbers that fit, properties that are not
/// empty, a status that is one, and a status or the end of a group but not both.
pub open spec fn is_native_content(c: NativeContent) -> bool {
    &&& c.track_alias < 0x4000_0000_0000_0000
    &&& c.group_id < 0x4000_0000_0000_0000
    &&& c.object_id matches Some(id) ==> id < 0x4000_0000_0000_0000
    &&& c.properties matches Some(p) ==> 0 < p.len() < 0x4000_0000
    &&& c.status matches Some(v) ==> (v == 0 || v == 3 || v == 4) && c.payload.len() == 0
        && !c.end_of_group
}

proof fn lemma_native_front(c: NativeContent)
    requires
        is_native_content(c),
    ensures
        is_datagram_type(native_type(c)),
        ({
            let s1 = varint_bytes(c.group_id) + object_bytes(c);
            let s0 = varint_bytes(c.track_alias) + s1;
            &&& varint(native_bytes(c)) == Some((native_type(c), s0))
            &&& varint(s0) == Some((c.track_alias, s1))
            &&& varint(s1) == Some((c.group_id, object_bytes(c)))
        }),
{
    lemma_type_bits(native_type(c));
    let s2 = object_bytes(c);
    let s1 = varint_bytes(c.group_id) + s2;
    law_varint_round_trip(native_type(c), varint_bytes(c.track_alias) + s1);
    law_varint_round_trip(c.track_alias, s1);
    law_varint_round_trip(c.group_id, s2);
}

proof fn lemma_object_number(c: NativeContent)
    requires
        is_native_content(c),
    ensures
        object_number(native_type(c), object_bytes(c)) == Some(
            (c.object_id.unwrap_or(0), priority_bytes(c)),
        ),
{
    lemma_type_bits(native_type(c));
    if let Some(id) = c.object_id {
        law_varint_round_trip(id, priority_bytes(c));
    }
}

proof fn lemma_priority(c: NativeContent)
    requires
        is_native_content(c),
    ensures
        priority(native_type(c), priority_bytes(c)) == Some((c.priority, property_bytes(c))),
{
    lemma_type_bits(native_type(c));
    if let Some(p) = c.priority {
        assert(priority_bytes(c).skip(1) =~= property_bytes(c));
    }
}

proof fn lemma_properties(c: NativeContent)
    requires
        is_native_content(c),
    ensures
        after_properties(native_type(c), property_bytes(c)) == Some(tail_bytes(c)),
{
    lemma_type_bits(native_type(c));
    if let Some(p) = c.properties {
        law_varint_round_trip(p.len() as u64, p + tail_bytes(c));
        assert((p + tail_bytes(c)).skip(p.len() as int) =~= tail_bytes(c));
    }
}

proof fn lemma_native_tail(c: NativeContent)
    requires
        is_native_content(c),
    ensures
        status_or_payload(native_type(c), tail_bytes(c)) == Some(
            (
                match c.status {
                    Some(v) => object_status(v)->0,
                    None => McquicMoqObjectStatus::Normal,
                },
                c.payload,
            ),
        ),
{
    lemma_type_bits(native_type(c));
    if let Some(v) = c.status {
        let none = Seq::<u8>::empty();
        law_varint_round_trip(v, none);
        assert(varint_bytes(v) + none =~= varint_bytes(v));
        assert(c.payload =~= none);
    }
}

/// Decoding a native datagram gives back what it holds: the alias, the group, the object, the
/// priority, whether it ends its group, the status and the payload.
pub proof fn law_native_round_trip(c: NativeContent)
    requires
        is_native_content(c),
        c.payload.len() <= u64::MAX,
    ensures
        native_datagram(native_bytes(c)) matches Some(d) && d.track_alias == c.track_alias
            && d.group_id == c.group_id && d.object_id == c.object_id.unwrap_or(0)
            && d.has_publisher_priority == (c.priority is Some) && d.publisher_priority
            == c.priority.unwrap_or(0) && d.end_of_group == (c.end_of_group || c.status == Some(
            3u64,
        )) && d.payload == c.payload && d.payload_len == c.payload.len() && (d.status
            == McquicMoqObjectStatus::Normal <==> c.status is None || c.status == Some(0u64)) && (
        d.status == McquicMoqObjectStatus::EndOfGroup <==> c.status == Some(3u64)) && (d.status
            == McquicMoqObjectStatus::EndOfTrack <==> c.status == Some(4u64)),
{
    let ty = native_type(c);
    lemma_native_front(c);
    lemma_object_number(c);
    lemma_priority(c);
    lemma_properties(c);
    lemma_native_tail(c);
    assert(native_datagram(native_bytes(c)) is Some);
    lemma_type_bits(ty);
}

/// What a legacy datagram holds.
pub struct LegacyContent {
    pub flags: u8,
    pub namespace: Seq<u8>,
    pub track_name: Seq<u8>,
    pub channel: Seq<u8>,
    pub group_id: u64,
    pub object_id: u64,
    pub publisher_sequence: u64,
    pub pts_millis: u64,
    pub packet_number: u64,
    pub payload: Seq<u8>,
}

/// The header of a legacy datagram with these contents: `MOQ1`, the version, the flags, the
/// lengths of the names, the channel and the payload, and five numbers of eight bytes.
pub open spec fn legacy_header(c: LegacyContent) -> Seq<u8> {
    seq![0x4du8, 0x4f, 0x51, 0x31, 0x01, c.flags] + be_bytes(c.namespace.len(), 2) + be_bytes(
        c.track_name.len(),
        2,
    ) + be_bytes(c.channel.len(), 2) + be_bytes(c.payload.len(), 4) + be_bytes(
        c.group_id as nat,
        8,
    ) + be_bytes(c.object_id as nat, 8) + be_bytes(c.publisher_sequence as nat, 8) + be_bytes(
        c.pts_millis as nat,
        8,
    ) + be_bytes(c.packet_number as nat, 8)
}

/// A legacy datagram with these contents.
pub open spec fn legacy_bytes(c: LegacyContent) -> Seq<u8> {
    legacy_header(c) + c.namespace + c.track_name + c.channel + c.payload
}

proof fn lemma_legacy_header(c: LegacyContent, s: Seq<u8>)
    requires
        s == legacy_bytes(c),
        c.namespace.len() <= 0xffff,
        c.track_name.len() <= 0xffff,
        c.channel.len() <= 0xffff,
        c.payload.len() <= 0xffff_ffff,
    ensures
        s.len() >= 56,
        s.take(4) == seq![0x4du8, 0x4f, 0x51, 0x31],
        s[4] == 1,
        s[5] == c.flags,
        header_field(s, 6, 8) == c.namespace.len(),
        header_field(s, 8, 10) == c.track_name.len(),
        header_field(s, 10, 12) == c.channel.len(),
        header_field(s, 12, 16) == c.payload.len(),
        header_field(s, 16, 24) == c.group_id,
        header_field(s, 24, 32) == c.object_id,
        header_field(s, 32, 40) == c.publisher_sequence,
        header_field(s, 40, 48) == c.pts_millis,
        header_field(s, 48, 56) == c.packet_number,
        s.len() == 56 + c.namespace.len() + c.track_name.len() + c.channel.len() + c.payload.len(),
{
    let magic = seq![0x4du8, 0x4f, 0x51, 0x31, 0x01, c.flags];
    let p1 = magic + be_bytes(c.namespace.len(), 2);
    let p2 = p1 + be_bytes(c.track_name.len(), 2);
    let p3 = p2 + be_bytes(c.channel.len(), 2);
    let p4 = p3 + be_bytes(c.payload.len(), 4);
    let p5 = p4 + be_bytes(c.group_id as nat, 8);
    let p6 = p5 + be_bytes(c.object_id as nat, 8);
    let p7 = p6 + be_bytes(c.publisher_sequence as nat, 8);
    let p8 = p7 + be_bytes(c.pts_millis as nat, 8);
    let p9 = p8 + be_bytes(c.packet_number as nat, 8);
    lemma_be_span_values();
    lemma_header_grows(magic, c.namespace.len(), 2);
    lemma_header_grows(p1, c.track_name.len(), 2);
    lemma_header_grows(p2, c.channel.len(), 2);
    lemma_header_grows(p3, c.payload.len(), 4);
    lemma_header_grows(p4, c.group_id as nat, 8);
    lemma_header_grows(p5, c.object_id as nat, 8);
    lemma_header_grows(p6, c.publisher_sequence as nat, 8);
    lemma_header_grows(p7, c.pts_millis as nat, 8);
    lemma_header_grows(p8, c.packet_number as nat, 8);
    let rest = c.namespace + c.track_name + c.channel + c.payload;
    assert(s =~= p9 + rest);
    assert(s.take(56) =~= p9);
    assert(s.take(48) =~= s.take(56).take(48));
    assert(p9.take(48) =~= p8);
    assert(s.take(40) =~= s.take(48).take(40));
    assert(p8.take(40) =~= p7);
    assert(s.take(32) =~= s.take(40).take(32));
    assert(p7.take(32) =~= p6);
    assert(s.take(24) =~= s.take(32).take(24));
    assert(p6.take(24) =~= p5);
    assert(s.take(16) =~= s.take(24).take(16));
    assert(p5.take(16) =~= p4);
    assert(s.take(12) =~= s.take(16).take(12));
    assert(p4.take(12) =~= p3);
    assert(s.take(10) =~= s.take(12).take(10));
    assert(p3.take(10) =~= p2);
    assert(s.take(8) =~= s.take(10).take(8));
    assert(p2.take(8) =~= p1);
    lemma_same_header(p1, s, 6, 8);
    lemma_same_header(p2, s, 8, 10);
    lemma_same_header(p3, s, 10, 12);
    lemma_same_header(p4, s, 12, 16);
    lemma_same_header(p5, s, 16, 24);
    lemma_same_header(p6, s, 24, 32);
    lemma_same_header(p7, s, 32, 40);
    lemma_same_header(p8, s, 40, 48);
    lemma_same_header(p9, s, 48, 56);
    assert(s.take(6) =~= s.take(8).take(6));
    assert(p1.take(6) =~= magic);
    assert(s[4] == s.take(6)[4] && s[5] == s.take(6)[5]);
    assert(s.take(4) =~= s.take(6).take(4));
    assert(magic.take(4) =~= seq![0x4du8, 0x4f, 0x51, 0x31]);
}

/// A number behind a part of a header is read again.
proof fn lemma_header_grows(before: Seq<u8>, value: nat, n: nat)
    requires
        value < be_span(n),
    ensures
        ({
            let header = before + be_bytes(value, n);
            &&& header.len() == before.len() + n
            &&& header_field(header, before.len() as int, (before.len() + n) as int) == value
        }),
{
    lemma_be_round_trip(value, n);
    let header = before + be_bytes(value, n);
    assert(header.subrange(before.len() as int, (before.len() + n) as int) =~= be_bytes(value, n));
}

/// A field of the beginning of a header is a field of the header.
proof fn lemma_same_header(before: Seq<u8>, s: Seq<u8>, i: int, j: int)
    requires
        0 <= i <= j <= before.len() <= s.len(),
        s.take(before.len() as int) == before,
    ensures
        header_field(s, i, j) == header_field(before, i, j),
{
    assert(s.take(before.len() as int).subrange(i, j) =~= s.subrange(i, j));
}

/// Decoding a legacy datagram gives back what it holds. Its flags tell, from the lowest on, a key
/// frame, a configuration, the end of a group, an object on its own, and that it came by multicast
/// with a packet number.
pub proof fn law_legacy_round_trip(c: LegacyContent)
    requires
        valid_utf8(c.namespace),
        valid_utf8(c.track_name),
        c.namespace.len() <= 0xffff,
        c.track_name.len() <= 0xffff,
        c.channel.len() <= 0xffff,
        c.payload.len() <= 0xffff_ffff,
    ensures
        legacy_datagram(legacy_bytes(c)) matches Some(d) && d.format
            == McquicMoqDatagramFormat::LegacyMoq1Object && d.group_id == c.group_id && d.object_id
            == c.object_id && d.publisher_sequence == c.publisher_sequence && d.pts_millis
            == c.pts_millis && d.namespace == decode_utf8(c.namespace) && d.track_name
            == decode_utf8(c.track_name) && d.multicast_channel == c.channel && d.payload
            == c.payload && d.payload_len == c.payload.len() && d.status
            == McquicMoqObjectStatus::Normal && !d.has_track_alias && d.track_alias == 0
            && !d.has_publisher_priority && d.publisher_priority == 0 && (d.keyframe <==> c.flags
            % 2 == 1) && (d.config <==> (c.flags / 2) % 2 == 1) && (d.end_of_group <==> (c.flags
            / 4) % 2 == 1) && (d.independent <==> (c.flags / 8) % 2 == 1) && (
        d.has_multicast_packet_number <==> (c.flags / 16) % 2 == 1) && d.multicast_packet_number
            == if (c.flags / 16) % 2 == 1 {
            c.packet_number
        } else {
            0
        },
{
    let s = legacy_bytes(c);
    let flags = c.flags;
    lemma_legacy_header(c, s);
    lemma_magic();
    assert((flags & 0x01 != 0 <==> flags % 2 == 1) && (flags & 0x02 != 0 <==> (flags / 2) % 2 == 1)
        && (flags & 0x04 != 0 <==> (flags / 4) % 2 == 1) && (flags & 0x08 != 0 <==> (flags / 8) % 2
        == 1) && (flags & 0x10 != 0 <==> (flags / 16) % 2 == 1)) by (bit_vector);
    let n = 56 + c.namespace.len();
    let t = n + c.track_name.len();
    let h = t + c.channel.len();
    assert(s.subrange(56, n as int) =~= c.namespace);
    assert(s.subrange(n as int, t as int) =~= c.track_name);
    assert(s.subrange(t as int, h as int) =~= c.channel);
    assert(s.skip(h as int) =~= c.payload);
}

/// Only what begins with the magic number and the version, and is as long as its header says, is a
/// legacy datagram.
pub proof fn law_legacy_is_exact(s: Seq<u8>)
    requires
        legacy_datagram(s) is Some,
    ensures
        s.len() >= 56,
        s.subrange(0, 5) == seq![0x4du8, 0x4f, 0x51, 0x31, 0x01],
        s.len() == 56 + header_field(s, 6, 8) + header_field(s, 8, 10) + header_field(s, 10, 12)
            + header_field(s, 12, 16),
{
    lemma_magic();
    let head = s.take(4);
    assert(s[0] == head[0] && s[1] == head[1] && s[2] == head[2] && s[3] == head[3]);
    assert(s.subrange(0, 5) =~= seq![0x4du8, 0x4f, 0x51, 0x31, 0x01]);
}

/// What a call decodes is the datagram that the bytes are, in the native format first; what is
/// none leaves nothing behind.
pub proof fn law_datagram_calls(
    bytes: &[u8],
    native: Option<McquicMoqDatagramExternal>,
    legacy: Option<McquicMoqDatagramExternal>,
    payload: ThinVec<u8>,
    datagram: &mut McquicMoqDatagramExternal,
    found: bool,
    value: u64,
    status: Option<McquicMoqObjectStatus>,
)
    requires
        call_ensures(mcquic_decode_native_moqt_object_datagram, (bytes,), native),
        call_ensures(mcquic_decode_legacy_moq1_object_datagram, (bytes,), legacy),
        call_ensures(neqo_mcquic_decode_moq_datagram, (&payload, datagram), found),
        call_ensures(mcquic_moqt_object_status, (value,), status),
    ensures
        native is Some <==> native_datagram(bytes@) is Some,
        native matches Some(d) ==> native_datagram(bytes@) == Some(d@),
        legacy is Some <==> legacy_datagram(bytes@) is Some,
        legacy matches Some(d) ==> legacy_datagram(bytes@) == Some(d@),
        found <==> native_datagram(thin_bytes(payload)) is Some || legacy_datagram(
            thin_bytes(payload),
        ) is Some,
        native_datagram(thin_bytes(payload)) matches Some(d) ==> final(datagram)@ == d,
        native_datagram(thin_bytes(payload)) is None ==> (legacy_datagram(thin_bytes(payload))
            matches Some(d) ==> final(datagram)@ == d),
        !found ==> final(datagram).format == McquicMoqDatagramFormat::Unknown,
        !found ==> final(datagram).status == McquicMoqObjectStatus::Unknown,
        !found ==> thin_bytes(final(datagram).payload).len() == 0,
        status == Some(McquicMoqObjectStatus::Normal) <==> value == 0,
        status == Some(McquicMoqObjectStatus::EndOfGroup) <==> value == 3,
        status == Some(McquicMoqObjectStatus::EndOfTrack) <==> value == 4,
        status is None <==> value != 0 && value != 3 && value != 4,
{
}

}
