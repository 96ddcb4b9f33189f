//! Control messages: their encoding.
use crate::bytes::{append, be_bytes, either, slices, split, split_at, write_be};
use crate::moq::control::{
    total_len, MCQUIC_MOQT_MAX_FULL_TRACK_NAME_BYTES, MCQUIC_MOQT_MAX_NAMESPACE_FIELDS,
    MCQUIC_MOQT_MESSAGE_SETUP, MCQUIC_MOQT_MESSAGE_SUBSCRIBE,
};
use crate::moq::varint::{mcquic_moq_encode_varint, varint_bytes, MCQUIC_MOQT_MAX_VARINT};
use crate::nsresult::NsResult;
use crate::text::utf8_text;
use crate::thin::{thin_bytes, thin_from, thin_new};
use thin_vec::ThinVec;
use vstd::prelude::*;
use vstd::string::StringSliceAdditionalSpecFns;
use vstd::utf8::valid_utf8;

verus! {

pub const MCQUIC_MOQT_SETUP_OPTION_PATH: u64 = 0x01;

pub const MCQUIC_MOQT_SETUP_OPTION_AUTHORITY: u64 = 0x05;

pub const MCQUIC_MOQT_SETUP_OPTION_IMPLEMENTATION: u64 = 0x07;

pub const MCQUIC_MOQT_SUBSCRIBE_REQUEST_ID: u64 = 0;

/// The path that a setup message names.
pub open spec fn setup_path() -> Seq<u8> {
    "/".spec_bytes()
}

/// The name by which a setup message introduces this implementation.
pub open spec fn implementation_name() -> Seq<u8> {
    "firefox-neqo-mcquic/0.1".spec_bytes()
}

/// A control message: its type, the length of its payload in two bytes, the payload.
pub open spec fn control_bytes(ty: u64, payload: Seq<u8>) -> Seq<u8> {
    varint_bytes(ty) + be_bytes(payload.len(), 2) + payload
}

/// A key-value pair with a byte string: the difference to the previous type, the length, the
/// bytes.
pub open spec fn pair_bytes(delta: u64, value: Seq<u8>) -> Seq<u8> {
    varint_bytes(delta) + varint_bytes(value.len() as u64) + value
}

/// The payload of a setup message.
pub open spec fn setup_payload(authority: Seq<u8>) -> Seq<u8> {
    pair_bytes(MCQUIC_MOQT_SETUP_OPTION_PATH, setup_path()) + pair_bytes(4, authority)
        + pair_bytes(2, implementation_name())
}

/// The setup message, where its payload is short enough.
pub open spec fn setup_message(authority: Seq<u8>) -> Option<Seq<u8>> {
    if setup_payload(authority).len() <= 0xffff {
        Some(control_bytes(MCQUIC_MOQT_MESSAGE_SETUP, setup_payload(authority)))
    } else {
        None
    }
}

/// The byte strings of a list that are not empty.
pub open spec fn nonempty(pieces: Seq<Seq<u8>>) -> Seq<Seq<u8>>
    decreases pieces.len(),
{
    if pieces.len() == 0 {
        Seq::empty()
    } else if pieces.last().len() == 0 {
        nonempty(pieces.drop_last())
    } else {
        nonempty(pieces.drop_last()).push(pieces.last())
    }
}

/// The fields of a namespace: what stands between its slashes, without the empty ones.
pub open spec fn namespace_fields(namespace: Seq<u8>) -> Seq<Seq<u8>> {
    nonempty(split(namespace, either(0x2f, 0x2f)))
}

/// A byte string behind its length.
pub open spec fn sized_bytes(value: Seq<u8>) -> Seq<u8> {
    varint_bytes(value.len() as u64) + value
}

/// Byte strings one after the other, each behind its length.
pub open spec fn fields_bytes(fields: Seq<Seq<u8>>) -> Seq<u8>
    decreases fields.len(),
{
    if fields.len() == 0 {
        Seq::empty()
    } else {
        fields_bytes(fields.drop_last()) + sized_bytes(fields.last())
    }
}

/// A namespace and a track name.
pub open spec fn track_bytes(fields: Seq<Seq<u8>>, track_name: Seq<u8>) -> Seq<u8> {
    varint_bytes(fields.len() as u64) + fields_bytes(fields) + sized_bytes(track_name)
}

/// Whether a namespace has a number of fields, and is with the track name of a length, that can
/// be subscribed to.
pub open spec fn is_full_track_name(namespace: Seq<u8>, track_name: Seq<u8>) -> bool {
    let fields = namespace_fields(namespace);
    0 < fields.len() <= MCQUIC_MOQT_MAX_NAMESPACE_FIELDS && total_len(fields) + track_name.len()
        <= MCQUIC_MOQT_MAX_FULL_TRACK_NAME_BYTES
}

/// The payload of a subscribe message.
pub open spec fn subscribe_payload(namespace: Seq<u8>, track_name: Seq<u8>) -> Seq<u8> {
    varint_bytes(MCQUIC_MOQT_SUBSCRIBE_REQUEST_ID) + track_bytes(
        namespace_fields(namespace),
        track_name,
    ) + varint_bytes(0)
}

/// The subscribe message for a track that can be subscribed to.
pub open spec fn subscribe_message(namespace: Seq<u8>, track_name: Seq<u8>) -> Option<Seq<u8>> {
    if is_full_track_name(namespace, track_name) {
        Some(
            control_bytes(MCQUIC_MOQT_MESSAGE_SUBSCRIBE, subscribe_payload(namespace, track_name)),
        )
    } else {
        None
    }
}

/// Encodes a control message, where its payload and its type are small enough.
pub fn mcquic_moq_encode_control_message(message_type: u64, payload: &[u8]) -> (message: Option<
    Vec<u8>,
>)
    ensures
        message is Some <==> payload@.len() <= 0xffff && message_type <= MCQUIC_MOQT_MAX_VARINT,
        message matches Some(m) ==> m@ == control_bytes(message_type, payload@),
{
    if payload.len() > 0xffff {
        return None;
    }
    let mut out: Vec<u8> = Vec::new();
    mcquic_moq_encode_varint(message_type, &mut out)?;
    write_be(&mut out, payload.len() as u64, 2);
    append(&mut out, payload);
    assert(out@ =~= control_bytes(message_type, payload@));
    Some(out)
}

/// Appends a key-value pair with a byte string; types have to grow, and to be odd.
pub fn mcquic_moq_encode_key_value_bytes(
    out: &mut Vec<u8>,
    previous_type: &mut u64,
    ty: u64,
    value: &[u8],
) -> (done: Option<()>)
    ensures
        done is Some <==> ty > *old(previous_type) && ty % 2 == 1 && ty - *old(previous_type)
            <= MCQUIC_MOQT_MAX_VARINT && value@.len() <= MCQUIC_MOQT_MAX_VARINT,
        done is Some ==> final(out)@ == old(out)@ + pair_bytes(
            (ty - *old(previous_type)) as u64,
            value@,
        ) && *final(previous_type) == ty,
        done is None ==> *final(previous_type) == *old(previous_type) && final(out)@ == (if ty
            > *old(previous_type) && ty % 2 == 1 && ty - *old(previous_type)
            <= MCQUIC_MOQT_MAX_VARINT {
            old(out)@ + varint_bytes((ty - *old(previous_type)) as u64)
        } else {
            old(out)@
        }),
{
    if ty <= *previous_type || ty % 2 == 0 {
        return None;
    }
    let delta: u64 = ty - *previous_type;
    mcquic_moq_encode_varint(delta, out)?;
    mcquic_moq_encode_varint(value.len() as u64, out)?;
    append(out, value);
    *previous_type = ty;
    assert(out@ =~= old(out)@ + pair_bytes(delta, value@));
    Some(())
}

/// Encodes the setup message for `authority`.
pub fn mcquic_moq_encode_setup(authority: &[u8]) -> (message: Option<Vec<u8>>)
    ensures
        message is Some <==> setup_message(authority@) is Some,
        message matches Some(m) ==> setup_message(authority@) == Some(m@),
{
    let path = "/";
    let implementation = "firefox-neqo-mcquic/0.1";
    proof {
        lemma_setup_literals();
    }
    let mut payload: Vec<u8> = Vec::new();
    let mut previous_type: u64 = 0;
    mcquic_moq_encode_key_value_bytes(
        &mut payload,
        &mut previous_type,
        MCQUIC_MOQT_SETUP_OPTION_PATH,
        path.as_bytes(),
    )?;
    mcquic_moq_encode_key_value_bytes(
        &mut payload,
        &mut previous_type,
        MCQUIC_MOQT_SETUP_OPTION_AUTHORITY,
        authority,
    )?;
    mcquic_moq_encode_key_value_bytes(
        &mut payload,
        &mut previous_type,
        MCQUIC_MOQT_SETUP_OPTION_IMPLEMENTATION,
        implementation.as_bytes(),
    )?;
    assert(payload@ =~= setup_payload(authority@));
    mcquic_moq_encode_control_message(MCQUIC_MOQT_MESSAGE_SETUP, payload.as_slice())
}

pub proof fn lemma_setup_literals()
    ensures
        setup_path().len() == 1,
        implementation_name().len() == 23,
{
    reveal_strlit("/");
    reveal_strlit("firefox-neqo-mcquic/0.1");
    vstd::string::is_ascii_spec_bytes("/");
    vstd::string::is_ascii_spec_bytes("firefox-neqo-mcquic/0.1");
}

/// The fields of a namespace, where it has at least one and not too many.
pub fn mcquic_moq_namespace_fields<'a>(namespace: &'a str) -> (fields: Option<Vec<&'a [u8]>>)
    ensures
        fields is Some <==> 0 < namespace_fields(namespace.spec_bytes()).len()
            <= MCQUIC_MOQT_MAX_NAMESPACE_FIELDS,
        fields matches Some(f) ==> slices(f@) == namespace_fields(namespace.spec_bytes()),
{
    let pieces = split_at(namespace.as_bytes(), 0x2f, 0x2f);
    let ghost all = slices(pieces@);
    let mut fields: Vec<&'a [u8]> = Vec::new();
    let mut i: usize = 0;
    assert(slices(fields@) =~= nonempty(all.take(0)));
    while i < pieces.len()
        invariant
            i <= pieces@.len(),
            all == slices(pieces@),
            slices(fields@) == nonempty(all.take(i as int)),
        decreases pieces@.len() - i,
    {
        let piece = pieces[i];
        let ghost kept = slices(fields@);
        proof {
            assert(all.take(i + 1).drop_last() =~= all.take(i as int));
            assert(all.take(i + 1).last() == piece@);
        }
        if piece.len() > 0 {
            fields.push(piece);
            assert(slices(fields@) =~= kept.push(piece@));
        }
        i += 1;
    }
    assert(all.take(i as int) =~= all);
    assert(fields@.len() == slices(fields@).len());
    if fields.len() == 0 || fields.len() > MCQUIC_MOQT_MAX_NAMESPACE_FIELDS {
        return None;
    }
    Some(fields)
}

/// Appends a namespace and a track name that can be subscribed to.
pub fn mcquic_moq_encode_full_track_name(
    namespace: &str,
    track_name: &[u8],
    out: &mut Vec<u8>,
) -> (done: Option<()>)
    ensures
        done is Some <==> is_full_track_name(namespace.spec_bytes(), track_name@),
        done is Some ==> final(out)@ == old(out)@ + track_bytes(
            namespace_fields(namespace.spec_bytes()),
            track_name@,
        ),
        done is None ==> final(out)@ == old(out)@,
{
    let fields = mcquic_moq_namespace_fields(namespace)?;
    let ghost all = slices(fields@);
    let mut full_len: usize = 0;
    let mut i: usize = 0;
    assert(all.take(0) =~= Seq::<Seq<u8>>::empty());
    while i < fields.len()
        invariant
            i <= fields@.len(),
            all == slices(fields@),
            full_len == total_len(all.take(i as int)),
            full_len <= MCQUIC_MOQT_MAX_FULL_TRACK_NAME_BYTES,
            all == namespace_fields(namespace.spec_bytes()),
            out@ == old(out)@,
        decreases fields@.len() - i,
    {
        proof {
            assert(all.take(i + 1).drop_last() =~= all.take(i as int));
            assert(all.take(i + 1).last() == fields@[i as int]@);
            lemma_total_len_grows(all, i + 1);
        }
        if fields[i].len() > MCQUIC_MOQT_MAX_FULL_TRACK_NAME_BYTES - full_len {
            return None;
        }
        full_len = full_len + fields[i].len();
        i += 1;
    }
    assert(all.take(i as int) =~= all);
    if track_name.len() > MCQUIC_MOQT_MAX_FULL_TRACK_NAME_BYTES - full_len {
        return None;
    }
    mcquic_moq_encode_varint(fields.len() as u64, out)?;
    let ghost base = out@;
    let mut k: usize = 0;
    assert(all.take(0) =~= Seq::<Seq<u8>>::empty());
    while k < fields.len()
        invariant
            k <= fields@.len(),
            all == slices(fields@),
            out@ == base + fields_bytes(all.take(k as int)),
            total_len(all) <= MCQUIC_MOQT_MAX_FULL_TRACK_NAME_BYTES,
        decreases fields@.len() - k,
    {
        proof {
            assert(all.take(k + 1).drop_last() =~= all.take(k as int));
            assert(all.take(k + 1).last() == fields@[k as int]@);
            lemma_total_len_grows(all, k + 1);
        }
        let field = fields[k];
        let done = mcquic_moq_encode_varint(field.len() as u64, out);
        assert(done is Some);
        append(out, field);
        assert(out@ =~= base + fields_bytes(all.take(k + 1)));
        k += 1;
    }
    assert(all.take(k as int) =~= all);
    mcquic_moq_encode_varint(track_name.len() as u64, out)?;
    append(out, track_name);
    assert(out@ =~= old(out)@ + track_bytes(all, track_name@));
    Some(())
}

pub proof fn lemma_total_len_grows(fields: Seq<Seq<u8>>, k: int)
    requires
        0 <= k <= fields.len(),
    ensures
        total_len(fields.take(k)) <= total_len(fields),
    decreases fields.len(),
{
    if k < fields.len() {
        assert(fields.drop_last().take(k) =~= fields.take(k));
        lemma_total_len_grows(fields.drop_last(), k);
    } else {
        assert(fields.take(k) =~= fields);
    }
}

pub proof fn lemma_varint_len(value: u64)
    ensures
        1 <= varint_bytes(value).len() <= 8,
{
    reveal_with_fuel(be_bytes, 9);
}

proof fn lemma_fields_bytes_len(fields: Seq<Seq<u8>>)
    ensures
        fields_bytes(fields).len() <= total_len(fields) + 8 * fields.len(),
    decreases fields.len(),
{
    if fields.len() > 0 {
        lemma_fields_bytes_len(fields.drop_last());
        lemma_varint_len(fields.last().len() as u64);
    }
}

pub proof fn lemma_subscribe_payload_len(namespace: Seq<u8>, track_name: Seq<u8>)
    requires
        is_full_track_name(namespace, track_name),
    ensures
        subscribe_payload(namespace, track_name).len() <= 0xffff,
{
    lemma_fields_bytes_len(namespace_fields(namespace));
    lemma_varint_len(0);
    lemma_varint_len(track_name.len() as u64);
    lemma_varint_len(namespace_fields(namespace).len() as u64);
}

/// Encodes the subscribe message for a track.
pub fn mcquic_moq_encode_subscribe(namespace: &str, track_name: &[u8]) -> (message: Option<
    Vec<u8>,
>)
    ensures
        message is Some <==> subscribe_message(namespace.spec_bytes(), track_name@) is Some,
        message matches Some(m) ==> subscribe_message(namespace.spec_bytes(), track_name@) == Some(
            m@,
        ),
{
    let mut payload: Vec<u8> = Vec::new();
    mcquic_moq_encode_varint(MCQUIC_MOQT_SUBSCRIBE_REQUEST_ID, &mut payload)?;
    mcquic_moq_encode_full_track_name(namespace, track_name, &mut payload)?;
    mcquic_moq_encode_varint(0, &mut payload)?;
    proof {
        assert(payload@ =~= subscribe_payload(namespace.spec_bytes(), track_name@));
        lemma_subscribe_payload_len(namespace.spec_bytes(), track_name@);
    }
    mcquic_moq_encode_control_message(MCQUIC_MOQT_MESSAGE_SUBSCRIBE, payload.as_slice())
}

/// The setup message and the subscribe message, one behind the other: what a client sends to
/// ask for a track.
pub open spec fn setup_subscribe(
    authority: Seq<u8>,
    namespace: Seq<u8>,
    track_name: Seq<u8>,
) -> Option<Seq<u8>> {
    if valid_utf8(authority) && authority.len() > 0 && valid_utf8(namespace) && valid_utf8(
        track_name,
    ) && track_name.len() > 0 && setup_message(authority) is Some && subscribe_message(
        namespace,
        track_name,
    ) is Some {
        Some(setup_message(authority)->0 + subscribe_message(namespace, track_name)->0)
    } else {
        None
    }
}

/// Encodes what a client sends to ask for a track. The payload is empty where it cannot be
/// encoded.
pub fn neqo_mcquic_moq_encode_setup_subscribe(
    authority: &[u8],
    track_namespace: &[u8],
    track_name: &[u8],
    payload: &mut ThinVec<u8>,
) -> (result: NsResult)
    ensures
        result == NsResult::NS_OK || result == NsResult::NS_ERROR_INVALID_ARG,
        result == NsResult::NS_OK <==> setup_subscribe(
            authority@,
            track_namespace@,
            track_name@,
        ) is Some,
        result == NsResult::NS_OK ==> setup_subscribe(authority@, track_namespace@, track_name@)
            == Some(thin_bytes(*final(payload))),
        result != NsResult::NS_OK ==> thin_bytes(*final(payload)) == Seq::<u8>::empty(),
{
    *payload = thin_new();
    let authority = match utf8_text(authority) {
        Some(text) => if authority.len() > 0 {
            text
        } else {
            return NsResult::NS_ERROR_INVALID_ARG;
        },
        None => {
            return NsResult::NS_ERROR_INVALID_ARG;
        },
    };
    let track_namespace = match utf8_text(track_namespace) {
        Some(text) => text,
        None => {
            return NsResult::NS_ERROR_INVALID_ARG;
        },
    };
    let track_name = match utf8_text(track_name) {
        Some(text) => if track_name.len() > 0 {
            text
        } else {
            return NsResult::NS_ERROR_INVALID_ARG;
        },
        None => {
            return NsResult::NS_ERROR_INVALID_ARG;
        },
    };
    let setup = match mcquic_moq_encode_setup(authority.as_bytes()) {
        Some(setup) => setup,
        None => {
            return NsResult::NS_ERROR_INVALID_ARG;
        },
    };
    let subscribe = match mcquic_moq_encode_subscribe(track_namespace, track_name.as_bytes()) {
        Some(subscribe) => subscribe,
        None => {
            return NsResult::NS_ERROR_INVALID_ARG;
        },
    };
    let mut out: Vec<u8> = Vec::new();
    append(&mut out, setup.as_slice());
    append(&mut out, subscribe.as_slice());
    assert(out@ =~= setup@ + subscribe@);
    *payload = thin_from(out.as_slice());
    NsResult::NS_OK
}

}
