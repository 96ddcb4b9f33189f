//! Byte strings: comparison, concatenation, splitting and big-endian integers.
use vstd::prelude::*;
use vstd::slice::{slice_subrange, slice_to_vec};
use vstd::string::StringSliceAdditionalSpecFns;
use vstd::utf8::encode_utf8_decode_utf8;

verus! {

/// Whether two byte strings are equal.
pub fn bytes_eq(a: &[u8], b: &[u8]) -> (equal: bool)
    ensures
        equal == (a@ == b@),
{
    if a.len() != b.len() {
        return false;
    }
    let mut i: usize = 0;
    while i < a.len()
        invariant
            a@.len() == b@.len(),
            i <= a@.len(),
            forall|j: int| 0 <= j < i ==> a@[j] == b@[j],
        decreases a@.len() - i,
    {
        if a[i] != b[i] {
            return false;
        }
        i += 1;
    }
    assert(a@ =~= b@);
    true
}

/// Whether two strings are equal.
pub fn str_eq(a: &str, b: &str) -> (equal: bool)
    ensures
        equal == (a@ == b@),
{
    let equal = bytes_eq(a.as_bytes(), b.as_bytes());
    proof {
        encode_utf8_decode_utf8(a@);
        encode_utf8_decode_utf8(b@);
    }
    equal
}

/// Whether `bytes` is the UTF-8 form of `text`.
pub fn is_text(bytes: &[u8], text: &str) -> (equal: bool)
    ensures
        equal == (bytes@ == text.spec_bytes()),
{
    bytes_eq(bytes, text.as_bytes())
}

/// Appends `data` to `out`.
pub fn append(out: &mut Vec<u8>, data: &[u8])
    ensures
        final(out)@ == old(out)@ + data@,
{
    out.extend_from_slice(data);
    assert(out@ =~= old(out)@ + data@);
}

/// A copy of `data`.
pub fn copy(data: &[u8]) -> (out: Vec<u8>)
    ensures
        out@ == data@,
{
    slice_to_vec(data)
}

/// The UTF-8 form of `text`, as an owned byte string.
pub fn text_bytes(text: &str) -> (out: Vec<u8>)
    ensures
        out@ == text.spec_bytes(),
{
    slice_to_vec(text.as_bytes())
}

/// A byte string of `n` bytes that all equal `byte`.
pub fn repeated(byte: u8, n: usize) -> (out: Vec<u8>)
    ensures
        out@ == Seq::new(n as nat, |i: int| byte),
{
    let mut out: Vec<u8> = Vec::new();
    let mut i: usize = 0;
    while i < n
        invariant
            i <= n,
            out@ == Seq::new(i as nat, |j: int| byte),
        decreases n - i,
    {
        out.push(byte);
        i += 1;
        assert(out@ =~= Seq::new(i as nat, |j: int| byte));
    }
    out
}

/// Whether `bytes` begins with `prefix`.
pub open spec fn has_prefix(bytes: Seq<u8>, prefix: Seq<u8>) -> bool {
    prefix.len() <= bytes.len() && bytes.take(prefix.len() as int) == prefix
}

/// What follows `prefix` in `bytes`, where `bytes` begins with it.
pub fn strip_prefix<'a>(bytes: &'a [u8], prefix: &[u8]) -> (rest: Option<&'a [u8]>)
    ensures
        rest is Some <==> has_prefix(bytes@, prefix@),
        rest matches Some(r) ==> r@ == bytes@.skip(prefix@.len() as int),
{
    if bytes.len() < prefix.len() {
        return None;
    }
    if bytes_eq(slice_subrange(bytes, 0, prefix.len()), prefix) {
        let rest = slice_subrange(bytes, prefix.len(), bytes.len());
        assert(rest@ =~= bytes@.skip(prefix@.len() as int));
        assert(bytes@.take(prefix@.len() as int) =~= bytes@.subrange(0, prefix@.len() as int));
        Some(rest)
    } else {
        assert(bytes@.take(prefix@.len() as int) =~= bytes@.subrange(0, prefix@.len() as int));
        None
    }
}

/// The number that `bytes` denotes in base 256, most significant byte first.
pub open spec fn be_value(bytes: Seq<u8>) -> nat
    decreases bytes.len(),
{
    if bytes.len() == 0 {
        0
    } else {
        be_value(bytes.drop_last()) * 256 + bytes.last() as nat
    }
}

/// The last `n` base-256 digits of `value`, most significant first.
pub open spec fn be_bytes(value: nat, n: nat) -> Seq<u8>
    decreases n,
{
    if n == 0 {
        Seq::empty()
    } else {
        be_bytes(value / 256, (n - 1) as nat).push((value % 256) as u8)
    }
}

/// The number of values that `n` base-256 digits can tell apart.
pub open spec fn be_span(n: nat) -> nat
    decreases n,
{
    if n == 0 {
        1
    } else {
        be_span((n - 1) as nat) * 256
    }
}

pub proof fn lemma_be_span_values()
    ensures
        be_span(0) == 1,
        be_span(1) == 0x100,
        be_span(2) == 0x1_0000,
        be_span(3) == 0x100_0000,
        be_span(4) == 0x1_0000_0000,
        be_span(5) == 0x100_0000_0000,
        be_span(6) == 0x1_0000_0000_0000,
        be_span(7) == 0x100_0000_0000_0000,
        be_span(8) == 0x1_0000_0000_0000_0000,
{
    reveal_with_fuel(be_span, 9);
}

pub proof fn lemma_be_value_bound(bytes: Seq<u8>)
    ensures
        be_value(bytes) < be_span(bytes.len()),
    decreases bytes.len(),
{
    if bytes.len() > 0 {
        lemma_be_value_bound(bytes.drop_last());
    }
}

/// Writing a number in `n` bytes and reading it back gives the number, where `n` bytes hold it.
pub proof fn lemma_be_round_trip(value: nat, n: nat)
    requires
        value < be_span(n),
    ensures
        be_bytes(value, n).len() == n,
        be_value(be_bytes(value, n)) == value,
    decreases n,
{
    if n > 0 {
        assert(value / 256 < be_span((n - 1) as nat)) by (nonlinear_arith)
            requires
                value < be_span((n - 1) as nat) * 256,
        ;
        lemma_be_round_trip(value / 256, (n - 1) as nat);
        let b = be_bytes(value, n);
        assert(b.drop_last() =~= be_bytes(value / 256, (n - 1) as nat));
    }
}

/// Reading `n` bytes as a number and writing it in `n` bytes gives the bytes.
pub proof fn lemma_be_round_trip_bytes(bytes: Seq<u8>)
    ensures
        be_bytes(be_value(bytes), bytes.len()) == bytes,
    decreases bytes.len(),
{
    if bytes.len() > 0 {
        lemma_be_round_trip_bytes(bytes.drop_last());
        let hi = be_value(bytes.drop_last());
        assert(be_value(bytes) / 256 == hi);
        assert(be_value(bytes) % 256 == bytes.last() as nat);
    }
    assert(be_bytes(be_value(bytes), bytes.len()) =~= bytes);
}

pub proof fn lemma_be_bytes_len(value: nat, n: nat)
    ensures
        be_bytes(value, n).len() == n,
    decreases n,
{
    if n > 0 {
        lemma_be_bytes_len(value / 256, (n - 1) as nat);
    }
}

/// Reads at most eight bytes as a big-endian number.
pub fn read_be(bytes: &[u8]) -> (value: u64)
    requires
        bytes@.len() <= 8,
    ensures
        value == be_value(bytes@),
        value < be_span(bytes@.len()),
{
    let mut value: u64 = 0;
    let mut i: usize = 0;
    proof {
        lemma_be_span_values();
    }
    while i < bytes.len()
        invariant
            i <= bytes@.len() <= 8,
            value == be_value(bytes@.take(i as int)),
            value < be_span(i as nat),
        decreases bytes@.len() - i,
    {
        proof {
            assert(bytes@.take(i + 1).drop_last() =~= bytes@.take(i as int));
            lemma_be_value_bound(bytes@.take(i as int));
            lemma_be_value_bound(bytes@.take(i + 1));
            lemma_be_span_values();
            assert(be_span(i as nat) <= be_span(7)) by {
                reveal_with_fuel(be_span, 9);
            }
        }
        value = value * 256 + bytes[i] as u64;
        i += 1;
    }
    assert(bytes@.take(i as int) =~= bytes@);
    value
}

/// Appends the last `n` big-endian bytes of `value`.
pub fn write_be(out: &mut Vec<u8>, value: u64, n: usize)
    requires
        n <= 8,
    ensures
        final(out)@ == old(out)@ + be_bytes(value as nat, n as nat),
    decreases n,
{
    if n > 0 {
        write_be(out, value / 256, n - 1);
        out.push((value % 256) as u8);
    }
    assert(out@ =~= old(out)@ + be_bytes(value as nat, n as nat));
}

/// The pieces of `bytes` between the bytes that `sep` accepts, empty ones among them.
pub open spec fn split(bytes: Seq<u8>, sep: spec_fn(u8) -> bool) -> Seq<Seq<u8>>
    decreases bytes.len(),
{
    if bytes.len() == 0 {
        seq![Seq::<u8>::empty()]
    } else {
        let before = split(bytes.drop_last(), sep);
        if sep(bytes.last()) {
            before.push(Seq::empty())
        } else {
            before.update(before.len() - 1, before.last().push(bytes.last()))
        }
    }
}

pub proof fn lemma_split_nonempty(bytes: Seq<u8>, sep: spec_fn(u8) -> bool)
    ensures
        split(bytes, sep).len() >= 1,
    decreases bytes.len(),
{
    if bytes.len() > 0 {
        lemma_split_nonempty(bytes.drop_last(), sep);
    }
}

/// Splitting at the last separator: what follows it is the last piece.
pub proof fn lemma_split_last(bytes: Seq<u8>, sep: spec_fn(u8) -> bool, i: int)
    requires
        0 <= i < bytes.len(),
        sep(bytes[i]),
        forall|j: int| i < j < bytes.len() ==> !sep(#[trigger] bytes[j]),
    ensures
        split(bytes, sep) == split(bytes.take(i), sep).push(bytes.skip(i + 1)),
    decreases bytes.len(),
{
    let shorter = bytes.drop_last();
    if i == bytes.len() - 1 {
        assert(shorter =~= bytes.take(i));
        assert(bytes.skip(i + 1) =~= Seq::<u8>::empty());
    } else {
        assert forall|j: int| i < j < shorter.len() implies !sep(#[trigger] shorter[j]) by {
            assert(shorter[j] == bytes[j]);
        }
        lemma_split_last(shorter, sep, i);
        assert(shorter.take(i) =~= bytes.take(i));
        let before = split(bytes.take(i), sep);
        let piece = shorter.skip(i + 1);
        assert(!sep(bytes[bytes.len() - 1]));
        assert(piece.push(bytes.last()) =~= bytes.skip(i + 1));
        assert(before.push(piece).update(before.len() as int, piece.push(bytes.last()))
            =~= before.push(bytes.skip(i + 1)));
    }
}

/// Without a separator there is one piece.
pub proof fn lemma_split_none(bytes: Seq<u8>, sep: spec_fn(u8) -> bool)
    requires
        forall|j: int| 0 <= j < bytes.len() ==> !sep(#[trigger] bytes[j]),
    ensures
        split(bytes, sep) == seq![bytes],
    decreases bytes.len(),
{
    if bytes.len() > 0 {
        let shorter = bytes.drop_last();
        assert forall|j: int| 0 <= j < shorter.len() implies !sep(#[trigger] shorter[j]) by {
            assert(shorter[j] == bytes[j]);
        }
        lemma_split_none(shorter, sep);
        assert(!sep(bytes[bytes.len() - 1]));
        assert(shorter.push(bytes.last()) =~= bytes);
        assert(split(bytes, sep) =~= seq![bytes]);
    } else {
        assert(bytes =~= Seq::<u8>::empty());
        assert(split(bytes, sep) =~= seq![bytes]);
    }
}

/// The position of the last separator, or -1.
pub open spec fn last_separator(bytes: Seq<u8>, sep: spec_fn(u8) -> bool) -> int
    decreases bytes.len(),
{
    if bytes.len() == 0 {
        -1
    } else if sep(bytes.last()) {
        bytes.len() - 1
    } else {
        last_separator(bytes.drop_last(), sep)
    }
}

pub proof fn lemma_last_separator(bytes: Seq<u8>, sep: spec_fn(u8) -> bool)
    ensures
        -1 <= last_separator(bytes, sep) < bytes.len(),
        last_separator(bytes, sep) >= 0 ==> sep(bytes[last_separator(bytes, sep)]),
        forall|j: int| last_separator(bytes, sep) < j < bytes.len() ==> !sep(#[trigger] bytes[j]),
    decreases bytes.len(),
{
    if bytes.len() > 0 && !sep(bytes.last()) {
        let shorter = bytes.drop_last();
        lemma_last_separator(shorter, sep);
        assert forall|j: int| last_separator(bytes, sep) < j < bytes.len() implies !sep(
            #[trigger] bytes[j],
        ) by {
            if j < shorter.len() {
                assert(!sep(shorter[j]));
            }
        }
    }
}

/// The first position that holds `byte`.
pub fn position(bytes: &[u8], byte: u8) -> (at: Option<usize>)
    ensures
        at matches Some(i) ==> i < bytes@.len() && bytes@[i as int] == byte && forall|j: int|
            0 <= j < i ==> bytes@[j] != byte,
        at is None ==> !bytes@.contains(byte),
        at is None ==> forall|j: int| 0 <= j < bytes@.len() ==> bytes@[j] != byte,
{
    let mut i: usize = 0;
    while i < bytes.len()
        invariant
            i <= bytes@.len(),
            forall|j: int| 0 <= j < i ==> bytes@[j] != byte,
        decreases bytes@.len() - i,
    {
        if bytes[i] == byte {
            return Some(i);
        }
        i += 1;
    }
    None
}

/// Recognises the bytes `a` and `b`.
pub open spec fn either(a: u8, b: u8) -> spec_fn(u8) -> bool {
    |x: u8| x == a || x == b
}

/// The contents of a list of byte slices.
pub open spec fn slices(list: Seq<&[u8]>) -> Seq<Seq<u8>> {
    list.map_values(|p: &[u8]| p@)
}

/// Splits `bytes` at every byte that equals `a` or `b`.
pub fn split_at<'a>(bytes: &'a [u8], a: u8, b: u8) -> (pieces: Vec<&'a [u8]>)
    ensures
        slices(pieces@) == split(bytes@, either(a, b)),
{
    let mut pieces: Vec<&'a [u8]> = Vec::new();
    let mut start: usize = 0;
    let mut i: usize = 0;
    let ghost sep = either(a, b);
    proof {
        assert(bytes@.take(0) =~= Seq::<u8>::empty());
        assert(bytes@.subrange(0, 0) =~= Seq::<u8>::empty());
        assert(slices(pieces@).push(Seq::<u8>::empty()) =~= seq![Seq::<u8>::empty()]);
    }
    while i < bytes.len()
        invariant
            sep == either(a, b),
            start <= i <= bytes@.len(),
            split(bytes@.take(i as int), sep) == slices(pieces@).push(
                bytes@.subrange(start as int, i as int),
            ),
        decreases bytes@.len() - i,
    {
        let ghost before = slices(pieces@);
        let ghost current = bytes@.subrange(start as int, i as int);
        proof {
            assert(bytes@.take(i + 1).drop_last() =~= bytes@.take(i as int));
            assert(bytes@.take(i + 1).last() == bytes@[i as int]);
        }
        if bytes[i] == a || bytes[i] == b {
            pieces.push(slice_subrange(bytes, start, i));
            start = i + 1;
            proof {
                assert(slices(pieces@) =~= before.push(current));
                assert(bytes@.subrange(start as int, i + 1) =~= Seq::<u8>::empty());
            }
        } else {
            proof {
                assert(current.push(bytes@[i as int]) =~= bytes@.subrange(start as int, i + 1));
                assert(before.push(current).update(
                    before.len() as int,
                    current.push(bytes@[i as int]),
                ) =~= before.push(bytes@.subrange(start as int, i + 1)));
            }
        }
        i += 1;
    }
    let ghost before = slices(pieces@);
    pieces.push(slice_subrange(bytes, start, i));
    proof {
        assert(bytes@.take(i as int) =~= bytes@);
        assert(slices(pieces@) =~= before.push(bytes@.subrange(start as int, i as int)));
    }
    pieces
}

/// Two byte strings are equal where they have the same length and the same bytes at every place;
/// a text is compared by its bytes.
pub proof fn law_equality(
    a: &[u8],
    b: &[u8],
    equal: bool,
    text: &str,
    is: bool,
    other: &str,
    same: bool,
)
    requires
        call_ensures(bytes_eq, (a, b), equal),
        call_ensures(is_text, (a, text), is),
        call_ensures(str_eq, (text, other), same),
    ensures
        equal <==> a@.len() == b@.len() && forall|i: int|
            0 <= i < a@.len() ==> #[trigger] a@[i] == b@[i],
        is <==> a@ == text.spec_bytes(),
        same <==> text@.len() == other@.len() && forall|i: int|
            0 <= i < text@.len() ==> #[trigger] text@[i] == other@[i],
{
    if a@.len() == b@.len() && forall|i: int| 0 <= i < a@.len() ==> #[trigger] a@[i] == b@[i] {
        assert(a@ =~= b@);
    }
    if text@.len() == other@.len() && forall|i: int|
        0 <= i < text@.len() ==> #[trigger] text@[i] == other@[i] {
        assert(text@ =~= other@);
    }
}

/// What follows a prefix is what gives the whole back behind the prefix, and there is something
/// exactly where there can be.
pub proof fn law_prefix(bytes: &[u8], prefix: &[u8], rest: Option<&[u8]>)
    requires
        call_ensures(strip_prefix, (bytes, prefix), rest),
    ensures
        rest matches Some(r) ==> prefix@ + r@ == bytes@,
        rest is None ==> forall|r: Seq<u8>| #[trigger] (prefix@ + r) != bytes@,
{
    if let Some(r) = rest {
        assert(bytes@.take(prefix@.len() as int) + bytes@.skip(prefix@.len() as int) =~= bytes@);
    } else {
        assert forall|r: Seq<u8>| #[trigger] (prefix@ + r) != bytes@ by {
            assert((prefix@ + r).take(prefix@.len() as int) =~= prefix@);
        }
    }
}

/// A number is read from bytes with the most significant first: each further byte makes it 256
/// times as large and adds itself.
pub proof fn law_digits_of_256(bytes: Seq<u8>, byte: u8)
    ensures
        be_value(Seq::empty()) == 0,
        be_value(bytes.push(byte)) == be_value(bytes) * 256 + byte,
{
    assert(bytes.push(byte).drop_last() =~= bytes);
}

/// Bytes that were written of a number are read as that number, and as many were written as were
/// asked for.
pub proof fn law_written_is_read(
    out: &mut Vec<u8>,
    value: u64,
    n: usize,
    bytes: &[u8],
    read: u64,
)
    requires
        0 < n <= 8,
        n == 1 ==> value < 0x100,
        n == 2 ==> value < 0x1_0000,
        n == 3 ==> value < 0x100_0000,
        n == 4 ==> value < 0x1_0000_0000,
        n == 5 ==> value < 0x100_0000_0000,
        n == 6 ==> value < 0x1_0000_0000_0000,
        n == 7 ==> value < 0x100_0000_0000_0000,
        call_ensures(write_be, (out, value, n), ()),
        bytes@.len() <= 8,
        call_ensures(read_be, (bytes,), read),
        final(out)@ == old(out)@ + bytes@,
    ensures
        bytes@.len() == n,
        read == value,
{
    lemma_be_bytes_len(value as nat, n as nat);
    lemma_be_span_values();
    reveal_with_fuel(be_span, 9);
    lemma_be_round_trip(value as nat, n as nat);
    let b = be_bytes(value as nat, n as nat);
    let k = old(out)@.len() as int;
    assert((old(out)@ + b).skip(k) =~= b);
    assert((old(out)@ + bytes@).skip(k) =~= bytes@);
}

/// A list of bytes is copied and appended as it is, a text as its bytes; a repeated byte stands
/// at every place.
pub proof fn law_copies(
    out: &mut Vec<u8>,
    data: &[u8],
    copied: Vec<u8>,
    text: &str,
    of_text: Vec<u8>,
    byte: u8,
    n: usize,
    many: Vec<u8>,
)
    requires
        call_ensures(append, (out, data), ()),
        call_ensures(copy, (data,), copied),
        call_ensures(text_bytes, (text,), of_text),
        call_ensures(repeated, (byte, n), many),
    ensures
        final(out)@ == old(out)@ + data@,
        copied@ == data@,
        of_text@ == text.spec_bytes(),
        many@.len() == n,
        forall|i: int| 0 <= i < n ==> #[trigger] many@[i] == byte,
{
}

/// The pieces of a byte string without a separator are itself, and what follows a separator and
/// holds none is one more piece.
pub proof fn law_pieces(bytes: Seq<u8>, a: u8, b: u8, at: u8, piece: Seq<u8>)
    requires
        at == a || at == b,
        forall|i: int| 0 <= i < piece.len() ==> #[trigger] piece[i] != a && piece[i] != b,
    ensures
        split(piece, either(a, b)) == seq![piece],
        split(bytes + seq![at] + piece, either(a, b)) == split(bytes, either(a, b)).push(piece),
{
    let sep = either(a, b);
    let all = bytes + seq![at] + piece;
    let k = bytes.len() as int;
    lemma_split_none(piece, sep);
    assert forall|j: int| k < j < all.len() implies !sep(#[trigger] all[j]) by {
        assert(all[j] == piece[j - k - 1]);
    }
    lemma_split_last(all, sep, k);
    assert(all.take(k) =~= bytes);
    assert(all.skip(k + 1) =~= piece);
}

/// Splitting gives the pieces, in order, and a position is the first that holds the byte.
pub proof fn law_searches(
    bytes: &[u8],
    a: u8,
    b: u8,
    pieces: Vec<&[u8]>,
    at: Option<usize>,
    i: int,
)
    requires
        call_ensures(split_at, (bytes, a, b), pieces),
        call_ensures(position, (bytes, a), at),
    ensures
        pieces@.len() == split(bytes@, either(a, b)).len(),
        0 <= i < pieces@.len() ==> pieces@[i]@ == split(bytes@, either(a, b))[i],
        at is Some <==> bytes@.contains(a),
        at matches Some(k) ==> bytes@[k as int] == a && !bytes@.take(k as int).contains(a),
{
    assert(slices(pieces@).len() == pieces@.len());
    if 0 <= i < pieces@.len() {
        assert(slices(pieces@)[i] == pieces@[i]@);
    }
    if let Some(k) = at {
        assert(k < bytes@.len());
        assert(bytes@[k as int] == a);
        assert(bytes@.contains(a));
    }
}

}
