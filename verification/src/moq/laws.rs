//! What decoding gives back of an encoded control message.
use crate::bytes::{
    be_bytes, either, last_separator, lemma_be_round_trip, lemma_be_span_values,
    lemma_last_separator, lemma_split_last, lemma_split_none, split,
};
use crate::moq::control::{
    after_pairs, after_parameters, control_frame, control_message, full_track_name, key_value,
    key_values, mcquic_decode_moqt_control_message, name_fields, namespace_text,
    neqo_mcquic_moq_decode_control_message, no_message, total_len, ControlMessageView,
    McquicMoqControlMessageExternal, McquicMoqControlMessageTag, MCQUIC_MOQT_MESSAGE_SETUP,
    MCQUIC_MOQT_MESSAGE_SUBSCRIBE,
};
use crate::moq::encode::{
    control_bytes, fields_bytes, implementation_name, is_full_track_name, lemma_setup_literals,
    mcquic_moq_encode_control_message, mcquic_moq_encode_full_track_name,
    mcquic_moq_encode_key_value_bytes, mcquic_moq_encode_setup, mcquic_moq_encode_subscribe,
    mcquic_moq_namespace_fields,
    lemma_subscribe_payload_len, lemma_total_len_grows, lemma_varint_len, namespace_fields,
    neqo_mcquic_moq_encode_setup_subscribe, nonempty, pair_bytes, setup_message, setup_path,
    setup_payload, setup_subscribe, sized_bytes,
    subscribe_message, subscribe_payload, track_bytes,
};
use crate::moq::reader::exact;
use crate::moq::varint::{law_varint_round_trip, varint, varint_bytes, MCQUIC_MOQT_MAX_VARINT};
use crate::nsresult::NsResult;
use crate::text::{joined, lossy_utf8};
use crate::thin::thin_bytes;
use thin_vec::ThinVec;
use vstd::prelude::*;
use vstd::string::StringSliceAdditionalSpecFns;
use vstd::utf8::{
    decode_utf8, decode_utf8_split, is_char_boundary_iff_not_is_continuation_byte, valid_utf8,
    valid_utf8_split,
};

verus! {

/// The frame of a control message, with `rest` behind it, gives the type, the payload and
/// `rest`.
pub proof fn law_control_frame_round_trip(ty: u64, payload: Seq<u8>, rest: Seq<u8>)
    requires
        ty <= MCQUIC_MOQT_MAX_VARINT,
        payload.len() <= 0xffff,
    ensures
        control_frame(control_bytes(ty, payload) + rest) == Some((ty, payload, rest)),
{
    let s = control_bytes(ty, payload) + rest;
    let len = be_bytes(payload.len(), 2);
    lemma_be_span_values();
    lemma_be_round_trip(payload.len(), 2);
    law_varint_round_trip(ty, len + payload + rest);
    assert(s =~= varint_bytes(ty) + (len + payload + rest));
    let s1 = len + payload + rest;
    assert(s1.take(2) =~= len);
    assert(s1.skip(2) =~= payload + rest);
    let s2 = payload + rest;
    assert(s2.take(payload.len() as int) =~= payload);
    assert(s2.skip(payload.len() as int) =~= rest);
}

proof fn lemma_sized_round_trip(value: Seq<u8>, rest: Seq<u8>)
    requires
        value.len() <= 0xffff,
    ensures
        varint(sized_bytes(value) + rest) == Some((value.len() as u64, value + rest)),
        exact(value + rest, value.len() as u64 as usize) == Some((value, rest)),
{
    law_varint_round_trip(value.len() as u64, value + rest);
    assert(sized_bytes(value) + rest =~= varint_bytes(value.len() as u64) + (value + rest));
    assert((value + rest).take(value.len() as int) =~= value);
    assert((value + rest).skip(value.len() as int) =~= rest);
}

proof fn lemma_pair_round_trip(delta: u64, value: Seq<u8>, rest: Seq<u8>, previous: Option<u64>)
    requires
        value.len() <= 0xffff,
        0 < delta <= 0xffff,
        previous matches Some(p) ==> p <= 0xffff && (p + delta) % 2 == 1,
        previous is None ==> delta % 2 == 1,
    ensures
        key_value(pair_bytes(delta, value) + rest, previous) == Some(
            (
                (match previous {
                    Some(p) => p + delta,
                    None => delta as int,
                }) as u64,
                rest,
            ),
        ),
{
    law_varint_round_trip(delta, sized_bytes(value) + rest);
    lemma_sized_round_trip(value, rest);
    assert(pair_bytes(delta, value) + rest =~= varint_bytes(delta) + (sized_bytes(value) + rest));
}

/// Decoding an encoded setup message, with any bytes behind it, gives a setup message that
/// takes exactly the bytes that were encoded.
pub proof fn law_setup_round_trip(authority: Seq<u8>, rest: Seq<u8>)
    requires
        setup_message(authority) is Some,
        setup_message(authority)->0.len() + rest.len() <= u64::MAX,
    ensures
        control_message(setup_message(authority)->0 + rest) == Some(
            ControlMessageView {
                tag: McquicMoqControlMessageTag::Setup,
                consumed: setup_message(authority)->0.len() as u64,
                ..no_message()
            },
        ),
{
    let m = setup_message(authority)->0;
    law_control_frame_round_trip(MCQUIC_MOQT_MESSAGE_SETUP, setup_payload(authority), rest);
    lemma_setup_payload(authority);
    assert((m + rest).len() - rest.len() == m.len());
}

proof fn lemma_setup_payload(authority: Seq<u8>)
    requires
        setup_payload(authority).len() <= 0xffff,
    ensures
        key_values(setup_payload(authority), None),
{
    let p = setup_payload(authority);
    let a = pair_bytes(1, setup_path());
    let b = pair_bytes(4, authority);
    let c = pair_bytes(2, implementation_name());
    let e = Seq::<u8>::empty();
    lemma_setup_literals();
    assert(authority.len() <= p.len());
    lemma_varint_len(1);
    lemma_varint_len(4);
    lemma_varint_len(2);
    assert(c + e =~= c);
    assert(key_values(e, Some(7)));
    assert(key_values(c, Some(5))) by {
        lemma_pair_round_trip(2, implementation_name(), e, Some(5));
    }
    assert(key_values(b + c, Some(1))) by {
        lemma_pair_round_trip(4, authority, c, Some(1));
    }
    assert(p =~= a + (b + c));
    assert(key_values(p, None)) by {
        lemma_pair_round_trip(1, setup_path(), b + c, None);
    }
}

proof fn lemma_fields_bytes_first(fields: Seq<Seq<u8>>)
    requires
        fields.len() > 0,
    ensures
        fields_bytes(fields) == sized_bytes(fields[0]) + fields_bytes(fields.skip(1)),
    decreases fields.len(),
{
    if fields.len() == 1 {
        assert(fields.drop_last() =~= Seq::<Seq<u8>>::empty());
        assert(fields.skip(1) =~= Seq::<Seq<u8>>::empty());
        assert(fields.last() == fields[0]);
        assert(fields_bytes(fields.drop_last()) =~= Seq::<u8>::empty());
        assert(fields_bytes(fields.skip(1)) =~= Seq::<u8>::empty());
        assert(fields_bytes(fields) =~= sized_bytes(fields[0]));
        assert(sized_bytes(fields[0]) + fields_bytes(fields.skip(1)) =~= sized_bytes(fields[0]));
    } else {
        lemma_fields_bytes_first(fields.drop_last());
        assert(fields.drop_last().skip(1) =~= fields.skip(1).drop_last());
        assert(fields.skip(1).last() == fields.last());
        assert(fields_bytes(fields) =~= sized_bytes(fields[0]) + fields_bytes(fields.skip(1)));
    }
}

proof fn lemma_name_fields_round_trip(
    fields: Seq<Seq<u8>>,
    rest: Seq<u8>,
    before: Seq<Seq<u8>>,
)
    requires
        forall|i: int|
            0 <= i < fields.len() ==> 0 < (#[trigger] fields[i]).len() <= 0xffff && valid_utf8(
                fields[i],
            ),
    ensures
        name_fields(fields_bytes(fields) + rest, fields.len(), before) == Some(
            (before + fields, rest),
        ),
    decreases fields.len(),
{
    let s = fields_bytes(fields) + rest;
    if fields.len() == 0 {
        assert(s =~= rest);
        assert(before + fields =~= before);
    } else {
        lemma_fields_bytes_first(fields);
        let tail = fields.skip(1);
        let more = fields_bytes(tail) + rest;
        assert(s =~= sized_bytes(fields[0]) + more);
        assert(0 < fields[0].len() <= 0xffff);
        lemma_sized_round_trip(fields[0], more);
        assert forall|i: int| 0 <= i < tail.len() implies 0 < (#[trigger] tail[i]).len() <= 0xffff
            && valid_utf8(tail[i]) by {
            assert(tail[i] == fields[i + 1]);
        }
        lemma_name_fields_round_trip(tail, rest, before.push(fields[0]));
        assert(before.push(fields[0]) + tail =~= before + fields);
    }
}

proof fn lemma_field_len(fields: Seq<Seq<u8>>, i: int)
    requires
        0 <= i < fields.len(),
    ensures
        fields[i].len() <= total_len(fields),
{
    lemma_total_len_grows(fields, i + 1);
    assert(fields.take(i + 1).last() == fields[i]);
}

/// The slash as a separator.
pub open spec fn slash() -> spec_fn(u8) -> bool {
    either(0x2f, 0x2f)
}

proof fn lemma_boundaries(bytes: Seq<u8>, i: int)
    requires
        valid_utf8(bytes),
        0 <= i < bytes.len(),
        bytes[i] == 0x2f,
    ensures
        valid_utf8(bytes.take(i)),
        valid_utf8(bytes.skip(i + 1)),
        decode_utf8(bytes) == decode_utf8(bytes.take(i)) + "/"@ + decode_utf8(bytes.skip(i + 1)),
{
    is_char_boundary_iff_not_is_continuation_byte(bytes, i);
    valid_utf8_split(bytes, i);
    decode_utf8_split(bytes, i);
    let head = bytes.subrange(0, i);
    let tail = bytes.subrange(i, bytes.len() as int);
    assert(head =~= bytes.take(i));
    assert(tail[0] == 0x2f);
    assert(vstd::utf8::pop_first_scalar(tail) =~= bytes.skip(i + 1));
    assert(0x2fu8 & 0x7fu8 == 0x2f) by (bit_vector);
    reveal_strlit("/");
    assert(vstd::utf8::decode_first_scalar(tail) == 0x2f);
    assert(decode_utf8(tail) =~= "/"@ + decode_utf8(bytes.skip(i + 1)));
    assert(decode_utf8(bytes) =~= decode_utf8(bytes.take(i)) + "/"@ + decode_utf8(
        bytes.skip(i + 1),
    ));
}

proof fn lemma_pieces_are_texts(bytes: Seq<u8>)
    requires
        valid_utf8(bytes),
    ensures
        forall|i: int|
            0 <= i < split(bytes, slash()).len() ==> valid_utf8(#[trigger] split(bytes, slash())[i]),
        namespace_text(split(bytes, slash())) == decode_utf8(bytes),
        split(bytes, slash()).len() > 0,
    decreases bytes.len(),
{
    let sep = slash();
    let i = last_separator(bytes, sep);
    let f = |b: Seq<u8>| decode_utf8(b);
    lemma_last_separator(bytes, sep);
    if i < 0 {
        lemma_split_none(bytes, sep);
        assert(seq![bytes].map_values(f) =~= seq![decode_utf8(bytes)]);
    } else {
        let head = bytes.take(i);
        let tail = bytes.skip(i + 1);
        lemma_split_last(bytes, sep, i);
        lemma_boundaries(bytes, i);
        lemma_pieces_are_texts(head);
        let before = split(head, sep);
        let pieces = before.push(tail);
        let texts = pieces.map_values(f);
        assert(pieces.drop_last() =~= before);
        assert(texts.drop_last() =~= before.map_values(f));
        assert(texts.last() == decode_utf8(tail));
        assert(joined(texts, "/"@) == joined(before.map_values(f), "/"@) + "/"@ + decode_utf8(tail));
    }
}

proof fn lemma_nonempty(pieces: Seq<Seq<u8>>)
    requires
        forall|i: int| 0 <= i < pieces.len() ==> valid_utf8(#[trigger] pieces[i]),
    ensures
        forall|i: int|
            0 <= i < nonempty(pieces).len() ==> (#[trigger] nonempty(pieces)[i]).len() > 0
                && valid_utf8(nonempty(pieces)[i]),
        (forall|i: int| 0 <= i < pieces.len() ==> (#[trigger] pieces[i]).len() > 0) ==> nonempty(
            pieces,
        ) == pieces,
    decreases pieces.len(),
{
    if pieces.len() > 0 {
        let shorter = pieces.drop_last();
        assert forall|i: int| 0 <= i < shorter.len() implies valid_utf8(#[trigger] shorter[i]) by {
            assert(shorter[i] == pieces[i]);
        }
        lemma_nonempty(shorter);
        assert(valid_utf8(pieces[pieces.len() - 1]));
        let kept = nonempty(pieces);
        let before = nonempty(shorter);
        assert forall|i: int| 0 <= i < kept.len() implies (#[trigger] kept[i]).len() > 0
            && valid_utf8(kept[i]) by {
            if i < before.len() {
                assert(kept[i] == before[i]);
            } else {
                assert(kept[i] == pieces.last());
            }
        }
        if forall|i: int| 0 <= i < pieces.len() ==> (#[trigger] pieces[i]).len() > 0 {
            assert forall|i: int| 0 <= i < shorter.len() implies (#[trigger] shorter[i]).len()
                > 0 by {
                assert(shorter[i] == pieces[i]);
            }
            assert(pieces[pieces.len() - 1].len() > 0);
            assert(shorter.push(pieces.last()) =~= pieces);
        }
    } else {
        assert(nonempty(pieces) =~= pieces);
    }
}

proof fn lemma_fields_are_texts(namespace: Seq<u8>, track_name: Seq<u8>)
    requires
        valid_utf8(namespace),
        is_full_track_name(namespace, track_name),
    ensures
        forall|i: int|
            0 <= i < namespace_fields(namespace).len() ==> 0 < (#[trigger] namespace_fields(
                namespace,
            )[i]).len() <= 0xffff && valid_utf8(namespace_fields(namespace)[i]),
{
    let fields = namespace_fields(namespace);
    lemma_pieces_are_texts(namespace);
    lemma_nonempty(split(namespace, slash()));
    assert forall|i: int| 0 <= i < fields.len() implies 0 < (#[trigger] fields[i]).len() <= 0xffff
        && valid_utf8(fields[i]) by {
        lemma_field_len(fields, i);
    }
}

proof fn lemma_track_name_round_trip(namespace: Seq<u8>, track_name: Seq<u8>, rest: Seq<u8>)
    requires
        valid_utf8(namespace),
        valid_utf8(track_name),
        is_full_track_name(namespace, track_name),
    ensures
        full_track_name(track_bytes(namespace_fields(namespace), track_name) + rest) == Some(
            (namespace_text(namespace_fields(namespace)), decode_utf8(track_name), rest),
        ),
{
    let fields = namespace_fields(namespace);
    let named = sized_bytes(track_name) + rest;
    let listed = fields_bytes(fields) + named;
    assert(track_bytes(fields, track_name) + rest =~= varint_bytes(fields.len() as u64) + listed);
    law_varint_round_trip(fields.len() as u64, listed);
    lemma_fields_are_texts(namespace, track_name);
    lemma_name_fields_round_trip(fields, named, Seq::empty());
    assert(Seq::<Seq<u8>>::empty() + fields =~= fields);
    lemma_sized_round_trip(track_name, rest);
}

/// Decoding an encoded subscribe message, with any bytes behind it, gives the request with its
/// number, the namespace's fields and the track's name, and takes exactly the bytes that were
/// encoded.
pub proof fn law_subscribe_round_trip(namespace: Seq<u8>, track_name: Seq<u8>, rest: Seq<u8>)
    requires
        valid_utf8(namespace),
        valid_utf8(track_name),
        subscribe_message(namespace, track_name) is Some,
        subscribe_message(namespace, track_name)->0.len() + rest.len() <= u64::MAX,
    ensures
        control_message(subscribe_message(namespace, track_name)->0 + rest) == Some(
            ControlMessageView {
                tag: McquicMoqControlMessageTag::Subscribe,
                consumed: subscribe_message(namespace, track_name)->0.len() as u64,
                request_id: 0,
                namespace: namespace_text(namespace_fields(namespace)),
                track_name: decode_utf8(track_name),
                ..no_message()
            },
        ),
{
    let m = subscribe_message(namespace, track_name)->0;
    let p = subscribe_payload(namespace, track_name);
    let fields = namespace_fields(namespace);
    lemma_subscribe_payload_len(namespace, track_name);
    law_control_frame_round_trip(MCQUIC_MOQT_MESSAGE_SUBSCRIBE, p, rest);
    assert((m + rest).len() - rest.len() == m.len());
    let last = varint_bytes(0);
    let e = Seq::<u8>::empty();
    let counted = track_bytes(fields, track_name) + last;
    assert(p =~= varint_bytes(0) + counted);
    law_varint_round_trip(0, counted);
    lemma_track_name_round_trip(namespace, track_name, last);
    law_varint_round_trip(0, e);
    assert(last + e =~= last);
    assert(after_pairs(e, 0, None) == Some(e));
}

/// A namespace in which no field is empty is given back as it was.
pub proof fn law_namespace_round_trip(namespace: Seq<u8>)
    requires
        valid_utf8(namespace),
        forall|i: int|
            0 <= i < split(namespace, slash()).len() ==> (#[trigger] split(
                namespace,
                slash(),
            )[i]).len() > 0,
    ensures
        namespace_text(namespace_fields(namespace)) == decode_utf8(namespace),
{
    lemma_pieces_are_texts(namespace);
    lemma_nonempty(split(namespace, slash()));
}

/// What a client sends to ask for a track is a setup message and, behind it, a subscribe message
/// for the track, and nothing else.
pub proof fn law_setup_subscribe_round_trip(
    authority: Seq<u8>,
    namespace: Seq<u8>,
    track_name: Seq<u8>,
)
    requires
        setup_subscribe(authority, namespace, track_name) is Some,
        setup_subscribe(authority, namespace, track_name)->0.len() <= u64::MAX,
    ensures
        ({
            let sent = setup_subscribe(authority, namespace, track_name)->0;
            match control_message(sent) {
                Some(first) => {
                    let behind = sent.skip(first.consumed as int);
                    &&& first.tag == McquicMoqControlMessageTag::Setup
                    &&& control_message(behind) == Some(
                        ControlMessageView {
                            tag: McquicMoqControlMessageTag::Subscribe,
                            consumed: behind.len() as u64,
                            namespace: namespace_text(namespace_fields(namespace)),
                            track_name: decode_utf8(track_name),
                            ..no_message()
                        },
                    )
                },
                None => false,
            }
        }),
{
    let setup = setup_message(authority)->0;
    let subscribe = subscribe_message(namespace, track_name)->0;
    let e = Seq::<u8>::empty();
    law_setup_round_trip(authority, subscribe);
    assert((setup + subscribe).skip(setup.len() as int) =~= subscribe);
    law_subscribe_round_trip(namespace, track_name, e);
    assert(subscribe + e =~= subscribe);
}

/// The kind of a control message is told by its type, and there are no other types. What the
/// message's kind does not have is zero or empty.
pub proof fn law_type_tells_message(s: Seq<u8>)
    requires
        control_message(s) is Some,
    ensures
        control_frame(s) is Some,
        ({
            let (ty, payload, rest) = control_frame(s)->0;
            let m = control_message(s)->0;
            &&& m.tag == McquicMoqControlMessageTag::Setup <==> ty == 0x2f00
            &&& m.tag == McquicMoqControlMessageTag::Subscribe <==> ty == 0x03
            &&& m.tag == McquicMoqControlMessageTag::SubscribeOk <==> ty == 0x04
            &&& m.tag == McquicMoqControlMessageTag::RequestError <==> ty == 0x05
            &&& m.tag == McquicMoqControlMessageTag::RequestOk <==> ty == 0x07
            &&& m.tag != McquicMoqControlMessageTag::Unknown
            &&& m.consumed == (s.len() - rest.len()) as u64
            &&& ty != 0x03 ==> m.request_id == 0 && m.namespace.len() == 0 && m.track_name.len()
                == 0
            &&& ty != 0x04 ==> m.track_alias == 0
            &&& ty != 0x05 ==> m.error_code == 0 && m.retry_interval == 0 && m.reason.len() == 0
        }),
{
}

/// A refusal carries its code, after how long to try again, and its reason.
pub proof fn law_request_error_is_read(
    code: u64,
    retry: u64,
    reason: Seq<u8>,
    more: Seq<u8>,
    rest: Seq<u8>,
)
    requires
        code < 0x4000_0000_0000_0000,
        retry < 0x4000_0000_0000_0000,
        ({
            let payload = varint_bytes(code) + (varint_bytes(retry) + (varint_bytes(
                reason.len() as u64,
            ) + (reason + more)));
            payload.len() <= 0xffff && control_bytes(0x05, payload).len() + rest.len() <= u64::MAX
        }),
    ensures
        ({
            let payload = varint_bytes(code) + (varint_bytes(retry) + (varint_bytes(
                reason.len() as u64,
            ) + (reason + more)));
            control_message(control_bytes(0x05, payload) + rest) matches Some(m) && m.tag
                == McquicMoqControlMessageTag::RequestError && m.error_code == code
                && m.retry_interval == retry && m.reason == lossy_utf8(reason) && m.consumed
                == control_bytes(0x05, payload).len()
        }),
{
    let p2 = varint_bytes(reason.len() as u64) + (reason + more);
    let p1 = varint_bytes(retry) + p2;
    let payload = varint_bytes(code) + p1;
    assert(reason.len() <= payload.len());
    law_varint_round_trip(code, p1);
    law_varint_round_trip(retry, p2);
    law_varint_round_trip(reason.len() as u64, reason + more);
    assert((reason + more).take(reason.len() as int) =~= reason);
    law_control_frame_round_trip(0x05, payload, rest);
}

/// The answer to a subscription carries the alias of the track, behind which parameters and
/// extensions may stand; an answer without an alias has only those.
pub proof fn law_answers_are_read(alias: u64, pairs: Seq<u8>, rest: Seq<u8>)
    requires
        alias < 0x4000_0000_0000_0000,
        after_parameters(pairs) matches Some(extensions) && key_values(extensions, None),
        pairs.len() + 8 <= 0xffff,
        control_bytes(0x04, varint_bytes(alias) + pairs).len() + rest.len() <= u64::MAX,
        control_bytes(0x07, pairs).len() + rest.len() <= u64::MAX,
    ensures
        control_message(control_bytes(0x04, varint_bytes(alias) + pairs) + rest) matches Some(m)
            && m.tag == McquicMoqControlMessageTag::SubscribeOk && m.track_alias == alias
            && m.consumed == control_bytes(0x04, varint_bytes(alias) + pairs).len(),
        control_message(control_bytes(0x07, pairs) + rest) matches Some(m) && m.tag
            == McquicMoqControlMessageTag::RequestOk && m.consumed == control_bytes(
            0x07,
            pairs,
        ).len(),
{
    law_varint_round_trip(alias, pairs);
    lemma_varint_len(alias);
    law_control_frame_round_trip(0x04, varint_bytes(alias) + pairs, rest);
    law_control_frame_round_trip(0x07, pairs, rest);
}

/// Parameters and extensions are pairs of a type and a value: types are written as differences
/// that are not zero but for the first, an even type has a number, and an odd one bytes behind
/// their length. Nothing else may stand among them.
pub proof fn law_pairs_are_read(
    delta: u64,
    value: u64,
    bytes: Seq<u8>,
    rest: Seq<u8>,
    previous: Option<u64>,
)
    requires
        delta < 0x4000_0000_0000_0000,
        value < 0x4000_0000_0000_0000,
        bytes.len() <= 0xffff,
        previous matches Some(p) ==> p < 0x4000_0000_0000_0000,
    ensures
        ({
            let ty = previous.unwrap_or(0) + delta;
            let allowed = previous is None || delta > 0;
            let with_number = varint_bytes(delta) + (varint_bytes(value) + rest);
            let with_bytes = varint_bytes(delta) + (varint_bytes(bytes.len() as u64) + (bytes
                + rest));
            &&& ty % 2 == 0 ==> key_value(with_number, previous) == (if allowed {
                Some((ty as u64, rest))
            } else {
                None
            })
            &&& ty % 2 == 1 ==> key_value(with_bytes, previous) == (if allowed {
                Some((ty as u64, rest))
            } else {
                None
            })
        }),
{
    law_varint_round_trip(delta, varint_bytes(value) + rest);
    law_varint_round_trip(value, rest);
    law_varint_round_trip(delta, varint_bytes(bytes.len() as u64) + (bytes + rest));
    law_varint_round_trip(bytes.len() as u64, bytes + rest);
    assert((bytes + rest).take(bytes.len() as int) =~= bytes);
    assert((bytes + rest).skip(bytes.len() as int) =~= rest);
}

/// A parameter list is a number and as many pairs; extensions are pairs to the end.
pub proof fn law_lists_of_pairs(s: Seq<u8>, previous: Option<u64>, n: nat)
    ensures
        key_values(Seq::empty(), previous),
        after_parameters(varint_bytes(0) + s) == Some(s),
        s.len() > 0 ==> (key_values(s, previous) <==> (key_value(s, previous) matches Some(
            (ty, rest),
        ) && key_values(rest, Some(ty)))),
        after_pairs(s, n + 1, previous) == (match key_value(s, previous) {
            Some((ty, rest)) => after_pairs(rest, n, Some(ty)),
            None => None,
        }),
{
    law_varint_round_trip(0, s);
}

/// What a client sends first: a setup message with the path `/`, the authority that was asked for
/// and the name of this implementation, in this order under the types one, five and seven.
pub proof fn law_setup_layout(authority: Seq<u8>)
    requires
        setup_message(authority) is Some,
    ensures
        ({
            let name = seq![
                0x66u8, 0x69, 0x72, 0x65, 0x66, 0x6f, 0x78, 0x2d, 0x6e, 0x65, 0x71, 0x6f, 0x2d,
                0x6d, 0x63, 0x71, 0x75, 0x69, 0x63, 0x2f, 0x30, 0x2e, 0x31,
            ];
            let payload = varint_bytes(1) + varint_bytes(1) + seq![0x2fu8] + varint_bytes(4)
                + varint_bytes(authority.len() as u64) + authority + varint_bytes(2)
                + varint_bytes(23) + name;
            setup_message(authority)->0 == varint_bytes(0x2f00) + be_bytes(payload.len(), 2)
                + payload
        }),
{
    let name = seq![
        0x66u8, 0x69, 0x72, 0x65, 0x66, 0x6f, 0x78, 0x2d, 0x6e, 0x65, 0x71, 0x6f, 0x2d, 0x6d, 0x63,
        0x71, 0x75, 0x69, 0x63, 0x2f, 0x30, 0x2e, 0x31,
    ];
    reveal_strlit("/");
    reveal_strlit("firefox-neqo-mcquic/0.1");
    vstd::string::is_ascii_spec_bytes("/");
    vstd::string::is_ascii_spec_bytes("firefox-neqo-mcquic/0.1");
    assert("/".spec_bytes() =~= seq![0x2fu8]);
    assert("firefox-neqo-mcquic/0.1".spec_bytes() =~= name);
    let payload = varint_bytes(1) + varint_bytes(1) + seq![0x2fu8] + varint_bytes(4) + varint_bytes(
        authority.len() as u64,
    ) + authority + varint_bytes(2) + varint_bytes(23) + name;
    assert(setup_payload(authority) =~= payload);
}

/// A subscription is refused for no fields or more than 32, or for more than 4096 bytes in its
/// names together, and for nothing else. It asks under the number zero, without parameters.
pub proof fn law_subscribe_layout(namespace: Seq<u8>, track_name: Seq<u8>)
    ensures
        ({
            let fields = namespace_fields(namespace);
            &&& subscribe_message(namespace, track_name) is Some <==> 1 <= fields.len() <= 32
                && fields.flatten().len() + track_name.len() <= 4096
            &&& subscribe_message(namespace, track_name) matches Some(m) ==> {
                let payload = varint_bytes(0) + varint_bytes(fields.len() as u64)
                    + fields.map_values(
                    |f: Seq<u8>| varint_bytes(f.len() as u64) + f,
                ).flatten() + varint_bytes(track_name.len() as u64) + track_name + varint_bytes(0);
                m == varint_bytes(0x03) + be_bytes(payload.len(), 2) + payload
            }
        }),
{
    let fields = namespace_fields(namespace);
    lemma_total_flat(fields);
    lemma_fields_flat(fields);
    if subscribe_message(namespace, track_name) is Some {
        let payload = varint_bytes(0) + varint_bytes(fields.len() as u64) + fields.map_values(
            |f: Seq<u8>| varint_bytes(f.len() as u64) + f,
        ).flatten() + varint_bytes(track_name.len() as u64) + track_name + varint_bytes(0);
        assert(subscribe_payload(namespace, track_name) =~= payload);
    }
}

proof fn lemma_total_flat(fields: Seq<Seq<u8>>)
    ensures
        total_len(fields) == fields.flatten().len(),
    decreases fields.len(),
{
    if fields.len() > 0 {
        lemma_total_flat(fields.drop_last());
        fields.drop_last().lemma_flatten_push(fields.last());
        assert(fields.drop_last().push(fields.last()) =~= fields);
    }
}

proof fn lemma_fields_flat(fields: Seq<Seq<u8>>)
    ensures
        fields_bytes(fields) == fields.map_values(
            |f: Seq<u8>| varint_bytes(f.len() as u64) + f,
        ).flatten(),
    decreases fields.len(),
{
    let sized = |f: Seq<u8>| varint_bytes(f.len() as u64) + f;
    if fields.len() > 0 {
        let before = fields.drop_last();
        lemma_fields_flat(before);
        before.map_values(sized).lemma_flatten_push(sized(fields.last()));
        assert(fields.map_values(sized) =~= before.map_values(sized).push(sized(fields.last())));
    } else {
        assert(fields.map_values(sized) =~= Seq::<Seq<u8>>::empty());
        assert(fields.map_values(sized).flatten() =~= Seq::<u8>::empty());
    }
}

/// The fields of a namespace are what stands between its slashes: none is empty, none holds a
/// slash, and a further one behind a slash is a further field.
pub proof fn law_namespace_grows(namespace: Seq<u8>, field: Seq<u8>)
    requires
        forall|i: int| 0 <= i < field.len() ==> #[trigger] field[i] != 0x2f,
    ensures
        namespace_fields(field) == (if field.len() == 0 {
            Seq::<Seq<u8>>::empty()
        } else {
            seq![field]
        }),
        namespace_fields(namespace + seq![0x2fu8] + field) == (if field.len() == 0 {
            namespace_fields(namespace)
        } else {
            namespace_fields(namespace).push(field)
        }),
{
    let sep = either(0x2f, 0x2f);
    let all = namespace + seq![0x2fu8] + field;
    let at = namespace.len() as int;
    assert forall|j: int| 0 <= j < field.len() implies !sep(#[trigger] field[j]) by {}
    lemma_split_none(field, sep);
    assert(seq![field].drop_last() =~= Seq::<Seq<u8>>::empty());
    assert(seq![field].last() == field);
    assert(nonempty(Seq::<Seq<u8>>::empty()) == Seq::<Seq<u8>>::empty());
    assert(Seq::<Seq<u8>>::empty().push(field) =~= seq![field]);
    assert(sep(all[at]));
    assert forall|j: int| at < j < all.len() implies !sep(#[trigger] all[j]) by {
        assert(all[j] == field[j - at - 1]);
    }
    lemma_split_last(all, sep, at);
    assert(all.take(at) =~= namespace);
    assert(all.skip(at + 1) =~= field);
    let pieces = split(namespace, sep);
    assert(pieces.push(field).drop_last() =~= pieces);
    assert(pieces.push(field).last() == field);
}

/// What a call decodes or encodes is the message that is said here; where it cannot, nothing is
/// left behind and the embedder is told so.
pub proof fn law_control_calls(
    input: &[u8],
    decoded: Option<McquicMoqControlMessageExternal>,
    bytes: ThinVec<u8>,
    message: &mut McquicMoqControlMessageExternal,
    found: bool,
    authority: &[u8],
    namespace: &[u8],
    track_name: &[u8],
    payload: &mut ThinVec<u8>,
    result: NsResult,
)
    requires
        call_ensures(mcquic_decode_moqt_control_message, (input,), decoded),
        call_ensures(neqo_mcquic_moq_decode_control_message, (&bytes, message), found),
        call_ensures(
            neqo_mcquic_moq_encode_setup_subscribe,
            (authority, namespace, track_name, payload),
            result,
        ),
    ensures
        decoded is Some <==> control_message(input@) is Some,
        decoded matches Some(m) ==> control_message(input@) == Some(m@),
        found <==> control_message(thin_bytes(bytes)) is Some,
        found ==> control_message(thin_bytes(bytes)) == Some(final(message)@),
        !found ==> final(message).tag == McquicMoqControlMessageTag::Unknown,
        !found ==> final(message).consumed == 0,
        result == NsResult::NS_OK <==> {
            &&& valid_utf8(authority@) && authority@.len() > 0
            &&& valid_utf8(namespace@)
            &&& valid_utf8(track_name@) && track_name@.len() > 0
            &&& setup_message(authority@) is Some
            &&& subscribe_message(namespace@, track_name@) is Some
        },
        result != NsResult::NS_OK ==> result == NsResult::NS_ERROR_INVALID_ARG && thin_bytes(
            *final(payload),
        ).len() == 0,
        result == NsResult::NS_OK ==> thin_bytes(*final(payload)) == setup_message(authority@)->0
            + subscribe_message(namespace@, track_name@)->0,
{
}

/// A subscription is read with its number, its fields with slashes between them, and its track
/// name, where it has 1 to 32 fields, none of them empty, and at most 4096 bytes in its names
/// together; otherwise it is refused, and so is anything behind its parameters.
pub proof fn law_subscription_is_read(
    id: u64,
    fields: Seq<Seq<u8>>,
    track_name: Seq<u8>,
    parameters: Seq<u8>,
    rest: Seq<u8>,
)
    requires
        id < 0x4000_0000_0000_0000,
        fields.len() <= 0xffff,
        forall|i: int| 0 <= i < fields.len() ==> (#[trigger] fields[i]).len() <= 0xffff,
        forall|i: int| 0 <= i < fields.len() ==> valid_utf8(#[trigger] fields[i]),
        track_name.len() <= 0xffff,
        valid_utf8(track_name),
        after_parameters(parameters) == Some(Seq::<u8>::empty()),
        ({
            let payload = varint_bytes(id) + (track_bytes(fields, track_name) + parameters);
            payload.len() <= 0xffff && control_bytes(0x03, payload).len() + rest.len() <= u64::MAX
        }),
    ensures
        ({
            let payload = varint_bytes(id) + (track_bytes(fields, track_name) + parameters);
            let read = control_message(control_bytes(0x03, payload) + rest);
            let full = forall|i: int| 0 <= i < fields.len() ==> (#[trigger] fields[i]).len() > 0;
            &&& full ==> (read is Some <==> 1 <= fields.len() <= 32 && fields.flatten().len()
                + track_name.len() <= 4096)
            &&& full && read is Some ==> read->0.tag == McquicMoqControlMessageTag::Subscribe
                && read->0.request_id == id && read->0.track_name == decode_utf8(track_name)
                && read->0.namespace == joined(
                fields.map_values(|f: Seq<u8>| decode_utf8(f)),
                "/"@,
            ) && read->0.consumed == control_bytes(0x03, payload).len()
        }),
{
    let named = sized_bytes(track_name) + parameters;
    let listed = fields_bytes(fields) + named;
    let all = track_bytes(fields, track_name) + parameters;
    let payload = varint_bytes(id) + all;
    lemma_total_flat(fields);
    assert(all =~= varint_bytes(fields.len() as u64) + listed);
    law_varint_round_trip(id, all);
    law_varint_round_trip(fields.len() as u64, listed);
    law_control_frame_round_trip(0x03, payload, rest);
    lemma_sized_round_trip(track_name, parameters);
    if forall|i: int| 0 <= i < fields.len() ==> (#[trigger] fields[i]).len() > 0 {
        assert forall|i: int| 0 <= i < fields.len() implies 0 < (#[trigger] fields[i]).len()
            <= 0xffff && valid_utf8(fields[i]) by {}
        lemma_name_fields_round_trip(fields, named, Seq::empty());
        assert(Seq::<Seq<u8>>::empty() + fields =~= fields);
    }
}

/// A field of a namespace may not be empty.
pub proof fn law_no_empty_field(s: Seq<u8>, n: nat, fields: Seq<Seq<u8>>)
    requires
        n > 0,
    ensures
        name_fields(varint_bytes(0) + s, n, fields) is None,
{
    law_varint_round_trip(0, s);
}

/// Each part of a message is encoded behind what stands there already, where it can be: a message
/// of at most 65535 bytes behind its type and its length in two bytes, and an option with bytes,
/// whose type is odd and larger than the one before.
pub proof fn law_encoded_parts(
    ty: u64,
    payload: &[u8],
    message: Option<Vec<u8>>,
    out: &mut Vec<u8>,
    previous: &mut u64,
    option: u64,
    value: &[u8],
    done: Option<()>,
)
    requires
        call_ensures(mcquic_moq_encode_control_message, (ty, payload), message),
        value@.len() < 0x4000_0000_0000_0000,
        call_ensures(mcquic_moq_encode_key_value_bytes, (out, previous, option, value), done),
    ensures
        message is Some <==> payload@.len() <= 65535 && ty < 0x4000_0000_0000_0000,
        message matches Some(m) ==> m@ == varint_bytes(ty) + be_bytes(payload@.len(), 2)
            + payload@,
        done is Some <==> option % 2 == 1 && option > *old(previous) && option - *old(previous)
            < 0x4000_0000_0000_0000,
        done is Some ==> *final(previous) == option && final(out)@ == old(out)@ + (varint_bytes(
            (option - *old(previous)) as u64,
        ) + (varint_bytes(value@.len() as u64) + value@)),
        done is None ==> *final(previous) == *old(previous) && final(out)@ == old(out)@,
{
    if done is Some {
        assert(pair_bytes((option - *old(previous)) as u64, value@) =~= varint_bytes(
            (option - *old(previous)) as u64,
        ) + (varint_bytes(value@.len() as u64) + value@));
    }
}

/// What is encoded of a subscription and a setup, by themselves, is what is said of them here.
pub proof fn law_encoded_messages(
    authority: &[u8],
    setup: Option<Vec<u8>>,
    namespace: &str,
    track_name: &[u8],
    subscribe: Option<Vec<u8>>,
    fields: Option<Vec<&[u8]>>,
    out: &mut Vec<u8>,
    done: Option<()>,
    i: int,
)
    requires
        call_ensures(mcquic_moq_encode_setup, (authority,), setup),
        call_ensures(mcquic_moq_encode_subscribe, (namespace, track_name), subscribe),
        call_ensures(mcquic_moq_namespace_fields, (namespace,), fields),
        call_ensures(mcquic_moq_encode_full_track_name, (namespace, track_name, out), done),
    ensures
        ({
            let all = namespace_fields(namespace.spec_bytes());
            &&& setup is Some <==> setup_message(authority@) is Some
            &&& setup matches Some(m) ==> setup_message(authority@) == Some(m@)
            &&& subscribe is Some <==> subscribe_message(namespace.spec_bytes(), track_name@)
                is Some
            &&& subscribe matches Some(m) ==> subscribe_message(
                namespace.spec_bytes(),
                track_name@,
            ) == Some(m@)
            &&& fields is Some <==> 1 <= all.len() <= 32
            &&& fields matches Some(f) ==> f@.len() == all.len() && (0 <= i < all.len()
                ==> f@[i]@ == all[i])
            &&& done is Some <==> 1 <= all.len() <= 32 && all.flatten().len() + track_name@.len()
                <= 4096
            &&& done is Some ==> final(out)@ == old(out)@ + track_bytes(all, track_name@)
            &&& done is None ==> final(out)@ == old(out)@
        }),
{
    let all = namespace_fields(namespace.spec_bytes());
    lemma_total_flat(all);
    if let Some(f) = fields {
        assert(crate::bytes::slices(f@).len() == f@.len());
        if 0 <= i < all.len() {
            assert(crate::bytes::slices(f@)[i] == f@[i]@);
        }
    }
}

}
