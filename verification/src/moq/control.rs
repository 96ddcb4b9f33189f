//! Control messages: their decoding.
use crate::bytes::{be_value, lemma_be_span_values, read_be};
use crate::moq::reader::{exact, McquicMoqReader};
use crate::moq::varint::{lemma_varint_shorter, varint};
use crate::text::{decoded, join, joined, lossy_text, lossy_utf8, strings};
use crate::thin::{thin_bytes, thin_slice};
use thin_vec::ThinVec;
use vstd::prelude::*;
use vstd::utf8::{decode_utf8, valid_utf8};

verus! {

pub const MCQUIC_MOQT_MESSAGE_SETUP: u64 = 0x2f00;

pub const MCQUIC_MOQT_MESSAGE_SUBSCRIBE: u64 = 0x03;

pub const MCQUIC_MOQT_MESSAGE_SUBSCRIBE_OK: u64 = 0x04;

pub const MCQUIC_MOQT_MESSAGE_REQUEST_ERROR: u64 = 0x05;

pub const MCQUIC_MOQT_MESSAGE_REQUEST_OK: u64 = 0x07;

/// The largest number of fields in a namespace.
pub const MCQUIC_MOQT_MAX_NAMESPACE_FIELDS: usize = 32;

/// The largest length of a namespace's fields and a track's name together.
pub const MCQUIC_MOQT_MAX_FULL_TRACK_NAME_BYTES: usize = 4096;

#[derive(Clone, Copy, Debug, PartialEq, Eq, Structural)]
pub enum McquicMoqControlMessageTag {
    Unknown,
    Setup,
    Subscribe,
    SubscribeOk,
    RequestOk,
    RequestError,
}

/// A decoded control message. A field that the message's kind does not have is zero or empty.
pub struct McquicMoqControlMessageExternal {
    pub tag: McquicMoqControlMessageTag,
    pub consumed: u64,
    pub request_id: u64,
    pub track_alias: u64,
    pub error_code: u64,
    pub retry_interval: u64,
    pub namespace: String,
    pub track_name: String,
    pub reason: String,
}

/// The contents of a [`McquicMoqControlMessageExternal`].
pub struct ControlMessageView {
    pub tag: McquicMoqControlMessageTag,
    pub consumed: u64,
    pub request_id: u64,
    pub track_alias: u64,
    pub error_code: u64,
    pub retry_interval: u64,
    pub namespace: Seq<char>,
    pub track_name: Seq<char>,
    pub reason: Seq<char>,
}

impl View for McquicMoqControlMessageExternal {
    type V = ControlMessageView;

    open spec fn view(&self) -> ControlMessageView {
        ControlMessageView {
            tag: self.tag,
            consumed: self.consumed,
            request_id: self.request_id,
            track_alias: self.track_alias,
            error_code: self.error_code,
            retry_interval: self.retry_interval,
            namespace: self.namespace@,
            track_name: self.track_name@,
            reason: self.reason@,
        }
    }
}

/// A message in which every field is zero or empty.
pub open spec fn no_message() -> ControlMessageView {
    ControlMessageView {
        tag: McquicMoqControlMessageTag::Unknown,
        consumed: 0,
        request_id: 0,
        track_alias: 0,
        error_code: 0,
        retry_interval: 0,
        namespace: Seq::empty(),
        track_name: Seq::empty(),
        reason: Seq::empty(),
    }
}

impl Default for McquicMoqControlMessageExternal {
    fn default() -> (message: Self)
        ensures
            message@ == no_message(),
    {
        let message = McquicMoqControlMessageExternal {
            tag: McquicMoqControlMessageTag::Unknown,
            consumed: 0,
            request_id: 0,
            track_alias: 0,
            error_code: 0,
            retry_interval: 0,
            namespace: String::new(),
            track_name: String::new(),
            reason: String::new(),
        };
        assert(message.namespace@ =~= Seq::<char>::empty());
        message
    }
}

/// The type of the key-value pair at the start of `s` and what follows the pair. Types are
/// written as the difference to the previous one and grow; an even type has an integer as its
/// value, an odd one a byte string.
pub open spec fn key_value(s: Seq<u8>, previous: Option<u64>) -> Option<(u64, Seq<u8>)> {
    match varint(s) {
        None => None,
        Some((delta, s1)) => {
            let ty: int = match previous {
                Some(p) => p + delta,
                None => delta as int,
            };
            if ty > u64::MAX || (previous is Some && delta == 0) {
                None
            } else {
                match varint(s1) {
                    None => None,
                    Some((v, s2)) => if ty % 2 == 0 {
                        Some((ty as u64, s2))
                    } else {
                        match exact(s2, v as usize) {
                            None => None,
                            Some((_, s3)) => Some((ty as u64, s3)),
                        }
                    },
                }
            }
        },
    }
}

pub proof fn lemma_key_value_shorter(s: Seq<u8>, previous: Option<u64>)
    ensures
        key_value(s, previous) matches Some((_, rest)) ==> rest.len() < s.len(),
{
    lemma_varint_shorter(s);
    if varint(s) is Some {
        lemma_varint_shorter((varint(s)->0).1);
    }
}

/// What is left of `s` where the reading of a key-value pair ends, be it read or refused.
pub open spec fn key_value_left(s: Seq<u8>, previous: Option<u64>) -> Seq<u8> {
    match varint(s) {
        None => s,
        Some((delta, s1)) => {
            let ty: int = match previous {
                Some(p) => p + delta,
                None => delta as int,
            };
            if ty > u64::MAX || (previous is Some && delta == 0) {
                s1
            } else {
                match varint(s1) {
                    None => s1,
                    Some((v, s2)) => match exact(s2, v as usize) {
                        Some((_, s3)) if ty % 2 != 0 => s3,
                        _ => s2,
                    },
                }
            }
        },
    }
}

/// Whether `s` is a sequence of key-value pairs.
pub open spec fn key_values(s: Seq<u8>, previous: Option<u64>) -> bool
    decreases s.len(),
{
    proof {
        lemma_key_value_shorter(s, previous);
    }
    s.len() == 0 || match key_value(s, previous) {
        Some((ty, rest)) => key_values(rest, Some(ty)),
        None => false,
    }
}

/// What follows `count` key-value pairs in `s`.
pub open spec fn after_pairs(s: Seq<u8>, count: nat, previous: Option<u64>) -> Option<Seq<u8>>
    decreases count,
{
    if count == 0 {
        Some(s)
    } else {
        match key_value(s, previous) {
            None => None,
            Some((ty, rest)) => after_pairs(rest, (count - 1) as nat, Some(ty)),
        }
    }
}

/// What is left of `s` where the reading of `count` key-value pairs ends.
pub open spec fn pairs_left(s: Seq<u8>, count: nat, previous: Option<u64>) -> Seq<u8>
    decreases count,
{
    if count == 0 {
        s
    } else {
        match key_value(s, previous) {
            None => key_value_left(s, previous),
            Some((ty, rest)) => pairs_left(rest, (count - 1) as nat, Some(ty)),
        }
    }
}

/// What is left of `s` where the reading of a parameter list ends.
pub open spec fn parameters_left(s: Seq<u8>) -> Seq<u8> {
    match varint(s) {
        None => s,
        Some((count, rest)) => pairs_left(rest, count as nat, None),
    }
}

/// What follows a parameter list in `s`: a number, and as many key-value pairs.
pub open spec fn after_parameters(s: Seq<u8>) -> Option<Seq<u8>> {
    match varint(s) {
        None => None,
        Some((count, rest)) => after_pairs(rest, count as nat, None),
    }
}

/// Reads a key-value pair and gives its type.
pub fn mcquic_moq_read_key_value(
    reader: &mut McquicMoqReader<'_>,
    previous: Option<u64>,
) -> (ty: Option<u64>)
    requires
        old(reader).wf(),
    ensures
        final(reader).wf(),
        final(reader).input() == old(reader).input(),
        ty is Some <==> key_value(old(reader).rest(), previous) is Some,
        ty matches Some(t) ==> key_value(old(reader).rest(), previous) == Some(
            (t, final(reader).rest()),
        ),
        final(reader).rest() == key_value_left(old(reader).rest(), previous),
{
    let delta: u64 = reader.read_varint()?;
    let ty: u64 = match previous {
        Some(p) => {
            let ty: u64 = p.checked_add(delta)?;
            if ty <= p {
                return None;
            }
            ty
        },
        None => delta,
    };
    if ty % 2 == 0 {
        reader.read_varint()?;
    } else {
        let len: u64 = reader.read_varint()?;
        reader.read_exact(len as usize)?;
    }
    Some(ty)
}

/// Checks that `input` is a sequence of key-value pairs.
pub fn mcquic_moq_skip_key_values_bounded(input: &[u8]) -> (done: Option<()>)
    ensures
        done is Some <==> key_values(input@, None),
{
    let mut reader = McquicMoqReader::new(input);
    let mut previous: Option<u64> = None;
    while reader.remaining() != 0
        invariant
            reader.wf(),
            key_values(input@, None) == key_values(reader.rest(), previous),
        decreases reader.rest().len(),
    {
        proof {
            lemma_key_value_shorter(reader.rest(), previous);
        }
        let ty: u64 = mcquic_moq_read_key_value(&mut reader, previous)?;
        previous = Some(ty);
    }
    Some(())
}

/// Reads a parameter list.
pub fn mcquic_moq_skip_parameter_list(reader: &mut McquicMoqReader<'_>) -> (done: Option<()>)
    requires
        old(reader).wf(),
    ensures
        final(reader).wf(),
        final(reader).input() == old(reader).input(),
        done is Some <==> after_parameters(old(reader).rest()) is Some,
        done is Some ==> after_parameters(old(reader).rest()) == Some(final(reader).rest()),
        final(reader).rest() == parameters_left(old(reader).rest()),
{
    let count: u64 = reader.read_varint()?;
    let ghost input = reader.input();
    let ghost start = reader.rest();
    let mut previous: Option<u64> = None;
    let mut i: u64 = 0;
    while i < count
        invariant
            i <= count,
            reader.wf(),
            reader.input() == input,
            input == old(reader).input(),
            after_parameters(old(reader).rest()) == after_pairs(start, count as nat, None),
            after_pairs(start, count as nat, None) == after_pairs(
                reader.rest(),
                (count - i) as nat,
                previous,
            ),
            parameters_left(old(reader).rest()) == pairs_left(
                reader.rest(),
                (count - i) as nat,
                previous,
            ),
        decreases count - i,
    {
        let ty: u64 = mcquic_moq_read_key_value(reader, previous)?;
        previous = Some(ty);
        i += 1;
    }
    Some(())
}

/// The fields of a namespace that follow `fields` in `s`, `n` of them, and what follows them.
/// Each is a nonempty text behind its length.
pub open spec fn name_fields(s: Seq<u8>, n: nat, fields: Seq<Seq<u8>>) -> Option<
    (Seq<Seq<u8>>, Seq<u8>),
>
    decreases n,
{
    if n == 0 {
        Some((fields, s))
    } else {
        match varint(s) {
            None => None,
            Some((len, s1)) => if len as usize == 0 {
                None
            } else {
                match exact(s1, len as usize) {
                    None => None,
                    Some((field, s2)) => if valid_utf8(field) {
                        name_fields(s2, (n - 1) as nat, fields.push(field))
                    } else {
                        None
                    },
                }
            },
        }
    }
}

/// What is left of `s` where the reading of `n` fields of a namespace ends.
pub open spec fn fields_left(s: Seq<u8>, n: nat) -> Seq<u8>
    decreases n,
{
    if n == 0 {
        s
    } else {
        match varint(s) {
            None => s,
            Some((len, s1)) => if len as usize == 0 {
                s1
            } else {
                match exact(s1, len as usize) {
                    None => s1,
                    Some((field, s2)) => if valid_utf8(field) {
                        fields_left(s2, (n - 1) as nat)
                    } else {
                        s2
                    },
                }
            },
        }
    }
}

/// The length of a list of byte strings, all together.
pub open spec fn total_len(fields: Seq<Seq<u8>>) -> nat
    decreases fields.len(),
{
    if fields.len() == 0 {
        0
    } else {
        total_len(fields.drop_last()) + fields.last().len()
    }
}

/// The texts of a namespace's fields with a slash between two of them.
pub open spec fn namespace_text(fields: Seq<Seq<u8>>) -> Seq<char> {
    joined(fields.map_values(|f: Seq<u8>| decode_utf8(f)), "/"@)
}

/// The namespace and the track name at the start of `s`, and what follows them.
pub open spec fn full_track_name(s: Seq<u8>) -> Option<(Seq<char>, Seq<char>, Seq<u8>)> {
    match varint(s) {
        None => None,
        Some((count, s1)) => {
            let n = count as usize;
            if n == 0 || n > MCQUIC_MOQT_MAX_NAMESPACE_FIELDS {
                None
            } else {
                match name_fields(s1, n as nat, Seq::empty()) {
                    None => None,
                    Some((fields, s2)) => match varint(s2) {
                        None => None,
                        Some((len, s3)) => match exact(s3, len as usize) {
                            None => None,
                            Some((name, rest)) => if total_len(fields) + name.len()
                                > MCQUIC_MOQT_MAX_FULL_TRACK_NAME_BYTES || !valid_utf8(name) {
                                None
                            } else {
                                Some((namespace_text(fields), decode_utf8(name), rest))
                            },
                        },
                    },
                }
            }
        },
    }
}

/// What is left of `s` where the reading of a namespace and a track name ends.
pub open spec fn full_track_name_left(s: Seq<u8>) -> Seq<u8> {
    match varint(s) {
        None => s,
        Some((count, s1)) => {
            let n = count as usize;
            if n == 0 || n > MCQUIC_MOQT_MAX_NAMESPACE_FIELDS {
                s1
            } else {
                let s2 = fields_left(s1, n as nat);
                match varint(s2) {
                    Some((len, s3)) if name_fields(s1, n as nat, Seq::empty()) is Some => match exact(
                        s3,
                        len as usize,
                    ) {
                        None => s3,
                        Some((_, rest)) => rest,
                    },
                    _ => s2,
                }
            }
        },
    }
}

/// Reads a namespace and a track name.
pub fn mcquic_moq_decode_full_track_name(reader: &mut McquicMoqReader<'_>) -> (name: Option<
    (String, String),
>)
    requires
        old(reader).wf(),
    ensures
        final(reader).wf(),
        final(reader).input() == old(reader).input(),
        name is Some <==> full_track_name(old(reader).rest()) is Some,
        name matches Some((namespace, track)) ==> full_track_name(old(reader).rest()) == Some(
            (namespace@, track@, final(reader).rest()),
        ),
        final(reader).rest() == full_track_name_left(old(reader).rest()),
{
    let field_count: usize = reader.read_varint()? as usize;
    if field_count == 0 || field_count > MCQUIC_MOQT_MAX_NAMESPACE_FIELDS {
        return None;
    }
    let ghost input = reader.input();
    let ghost start = reader.rest();
    let ghost mut fields: Seq<Seq<u8>> = Seq::empty();
    let mut namespace: Vec<String> = Vec::new();
    let mut full_len: usize = 0;
    let mut i: usize = 0;
    proof {
        reader.lemma_rest();
        assert(strings(namespace@) =~= fields.map_values(|f: Seq<u8>| decode_utf8(f)));
    }
    while i < field_count
        invariant
            i <= field_count,
            reader.wf(),
            reader.input() == input,
            input == old(reader).input(),
            name_fields(start, field_count as nat, Seq::empty()) is None ==> full_track_name(
                old(reader).rest(),
            ) is None,
            strings(namespace@) == fields.map_values(|f: Seq<u8>| decode_utf8(f)),
            full_len == total_len(fields),
            full_len + reader.rest().len() <= start.len() <= usize::MAX,
            name_fields(start, field_count as nat, Seq::empty()) == name_fields(
                reader.rest(),
                (field_count - i) as nat,
                fields,
            ),
            name_fields(start, field_count as nat, Seq::empty()) is None ==> full_track_name_left(
                old(reader).rest(),
            ) == fields_left(start, field_count as nat),
            fields_left(start, field_count as nat) == fields_left(
                reader.rest(),
                (field_count - i) as nat,
            ),
        decreases field_count - i,
    {
        let ghost before = reader.rest();
        let field_len: usize = reader.read_varint()? as usize;
        proof {
            lemma_varint_shorter(before);
        }
        if field_len == 0 {
            return None;
        }
        let field = reader.read_exact(field_len)?;
        let text = decoded(field)?;
        full_len = full_len + field.len();
        proof {
            assert(fields.push(field@).drop_last() =~= fields);
        }
        let ghost texts = strings(namespace@);
        namespace.push(text);
        proof {
            assert(strings(namespace@) =~= texts.push(text@));
            assert(fields.push(field@).map_values(|f: Seq<u8>| decode_utf8(f)) =~= texts.push(
                text@,
            ));
            fields = fields.push(field@);
        }
        i += 1;
    }
    let ghost after = reader.rest();
    let name_len: usize = reader.read_varint()? as usize;
    proof {
        lemma_varint_shorter(after);
    }
    let name = reader.read_exact(name_len)?;
    full_len = full_len + name.len();
    if full_len > MCQUIC_MOQT_MAX_FULL_TRACK_NAME_BYTES {
        return None;
    }
    let track = decoded(name)?;
    Some((join(&namespace, "/"), track))
}

/// The type of the control message at the start of `s`, its payload, and what follows it. The
/// payload stands behind its length in two bytes.
pub open spec fn control_frame(s: Seq<u8>) -> Option<(u64, Seq<u8>, Seq<u8>)> {
    match varint(s) {
        None => None,
        Some((ty, s1)) => match exact(s1, 2) {
            None => None,
            Some((len, s2)) => match exact(s2, be_value(len) as usize) {
                None => None,
                Some((payload, rest)) => Some((ty, payload, rest)),
            },
        },
    }
}

/// The control message of type `ty` with this payload.
pub open spec fn control_payload(ty: u64, p: Seq<u8>) -> Option<ControlMessageView> {
    if ty == MCQUIC_MOQT_MESSAGE_SETUP {
        if key_values(p, None) {
            Some(ControlMessageView { tag: McquicMoqControlMessageTag::Setup, ..no_message() })
        } else {
            None
        }
    } else if ty == MCQUIC_MOQT_MESSAGE_SUBSCRIBE {
        match varint(p) {
            None => None,
            Some((request_id, p1)) => match full_track_name(p1) {
                None => None,
                Some((namespace, track_name, p2)) => if after_parameters(p2) == Some(
                    Seq::<u8>::empty(),
                ) {
                    Some(
                        ControlMessageView {
                            tag: McquicMoqControlMessageTag::Subscribe,
                            request_id,
                            namespace,
                            track_name,
                            ..no_message()
                        },
                    )
                } else {
                    None
                },
            },
        }
    } else if ty == MCQUIC_MOQT_MESSAGE_SUBSCRIBE_OK {
        match varint(p) {
            None => None,
            Some((track_alias, p1)) => match after_parameters(p1) {
                None => None,
                Some(p2) => if key_values(p2, None) {
                    Some(
                        ControlMessageView {
                            tag: McquicMoqControlMessageTag::SubscribeOk,
                            track_alias,
                            ..no_message()
                        },
                    )
                } else {
                    None
                },
            },
        }
    } else if ty == MCQUIC_MOQT_MESSAGE_REQUEST_OK {
        match after_parameters(p) {
            None => None,
            Some(p1) => if key_values(p1, None) {
                Some(
                    ControlMessageView {
                        tag: McquicMoqControlMessageTag::RequestOk,
                        ..no_message()
                    },
                )
            } else {
                None
            },
        }
    } else if ty == MCQUIC_MOQT_MESSAGE_REQUEST_ERROR {
        match varint(p) {
            None => None,
            Some((error_code, p1)) => match varint(p1) {
                None => None,
                Some((retry_interval, p2)) => match varint(p2) {
                    None => None,
                    Some((len, p3)) => match exact(p3, len as usize) {
                        None => None,
                        Some((reason, _)) => Some(
                            ControlMessageView {
                                tag: McquicMoqControlMessageTag::RequestError,
                                error_code,
                                retry_interval,
                                reason: lossy_utf8(reason),
                                ..no_message()
                            },
                        ),
                    },
                },
            },
        }
    } else {
        None
    }
}

/// The control message at the start of `s`; `consumed` tells how many bytes it takes.
pub open spec fn control_message(s: Seq<u8>) -> Option<ControlMessageView> {
    match control_frame(s) {
        None => None,
        Some((ty, payload, rest)) => match control_payload(ty, payload) {
            None => None,
            Some(m) => Some(ControlMessageView { consumed: (s.len() - rest.len()) as u64, ..m }),
        },
    }
}

/// Decodes the payload of a control message.
fn decode_control_payload(ty: u64, payload: &[u8]) -> (message: Option<
    McquicMoqControlMessageExternal,
>)
    ensures
        message is Some <==> control_payload(ty, payload@) is Some,
        message matches Some(m) ==> control_payload(ty, payload@) == Some(m@),
{
    let mut reader = McquicMoqReader::new(payload);
    let mut message = McquicMoqControlMessageExternal::default();
    if ty == MCQUIC_MOQT_MESSAGE_SETUP {
        mcquic_moq_skip_key_values_bounded(reader.read_to_end())?;
        message.tag = McquicMoqControlMessageTag::Setup;
    } else if ty == MCQUIC_MOQT_MESSAGE_SUBSCRIBE {
        message.tag = McquicMoqControlMessageTag::Subscribe;
        message.request_id = reader.read_varint()?;
        let (namespace, track_name) = mcquic_moq_decode_full_track_name(&mut reader)?;
        mcquic_moq_skip_parameter_list(&mut reader)?;
        if reader.remaining() != 0 {
            return None;
        }
        assert(reader.rest() =~= Seq::<u8>::empty());
        message.namespace = namespace;
        message.track_name = track_name;
    } else if ty == MCQUIC_MOQT_MESSAGE_SUBSCRIBE_OK {
        message.tag = McquicMoqControlMessageTag::SubscribeOk;
        message.track_alias = reader.read_varint()?;
        mcquic_moq_skip_parameter_list(&mut reader)?;
        mcquic_moq_skip_key_values_bounded(reader.read_to_end())?;
    } else if ty == MCQUIC_MOQT_MESSAGE_REQUEST_OK {
        message.tag = McquicMoqControlMessageTag::RequestOk;
        mcquic_moq_skip_parameter_list(&mut reader)?;
        mcquic_moq_skip_key_values_bounded(reader.read_to_end())?;
    } else if ty == MCQUIC_MOQT_MESSAGE_REQUEST_ERROR {
        message.tag = McquicMoqControlMessageTag::RequestError;
        message.error_code = reader.read_varint()?;
        message.retry_interval = reader.read_varint()?;
        let reason_len: u64 = reader.read_varint()?;
        let reason = reader.read_exact(reason_len as usize)?;
        message.reason = lossy_text(reason);
    } else {
        return None;
    }
    Some(message)
}

/// Decodes the control message at the start of `input`.
pub fn mcquic_decode_moqt_control_message(input: &[u8]) -> (message: Option<
    McquicMoqControlMessageExternal,
>)
    ensures
        message is Some <==> control_message(input@) is Some,
        message matches Some(m) ==> control_message(input@) == Some(m@),
{
    let mut reader = McquicMoqReader::new(input);
    let ty: u64 = reader.read_varint()?;
    let digits = reader.read_exact(2)?;
    proof {
        lemma_be_span_values();
    }
    let message_len: usize = read_be(digits) as usize;
    let payload = reader.read_exact(message_len)?;
    let consumed: u64 = reader.offset() as u64;
    let mut message = decode_control_payload(ty, payload)?;
    message.consumed = consumed;
    Some(message)
}

/// Decodes the control message at the start of `payload` into `message` and tells whether there
/// is one; where there is none, `message` is left with every field zero or empty.
pub fn neqo_mcquic_moq_decode_control_message(
    payload: &ThinVec<u8>,
    message: &mut McquicMoqControlMessageExternal,
) -> (found: bool)
    ensures
        found == (control_message(thin_bytes(*payload)) is Some),
        found ==> control_message(thin_bytes(*payload)) == Some(final(message)@),
        !found ==> final(message)@ == no_message(),
{
    *message = McquicMoqControlMessageExternal::default();
    match mcquic_decode_moqt_control_message(thin_slice(payload)) {
        Some(m) => {
            *message = m;
            true
        },
        None => false,
    }
}

}
