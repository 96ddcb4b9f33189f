//! Text: UTF-8 decoding, decimal numbers, trimming and joining.
use vstd::arithmetic::power::{lemma_pow0, lemma_pow1, lemma_pow_positive, pow};
use vstd::prelude::*;
use vstd::slice::slice_subrange;
use vstd::string::StringSliceAdditionalSpecFns;
use vstd::utf8::{
    decode_utf8, encode_scalar, encode_utf8, encode_utf8_decode_utf8, is_ascii_chars,
    is_ascii_chars_encode_utf8, valid_utf8,
};

verus! {

/// What `String::from_utf8_lossy` makes of a byte string.
pub uninterp spec fn lossy_utf8(bytes: Seq<u8>) -> Seq<char>;

/// The lower case of a string, as `str::to_lowercase` gives it.
pub uninterp spec fn lowercase(text: Seq<char>) -> Seq<char>;

/// The lower case of an ASCII character; other characters are kept.
pub open spec fn ascii_lowercase(c: char) -> char {
    if 'A' <= c && c <= 'Z' {
        ((c as u32 + 32) as u32) as char
    } else {
        c
    }
}

/// Calls `core::str::from_utf8`: a byte string is text exactly where it is valid UTF-8, and the
/// text then has these bytes as its UTF-8 form.
#[verifier::external_body]
pub(crate) fn utf8_text(bytes: &[u8]) -> (text: Option<&str>)
    ensures
        text is Some <==> valid_utf8(bytes@),
        text matches Some(t) ==> t.spec_bytes() == bytes@,
{
    core::str::from_utf8(bytes).ok()
}

/// Calls `String::from_utf8_lossy`: the text is named by [`lossy_utf8`], and is the decoded
/// text where the bytes are valid UTF-8.
#[verifier::external_body]
pub(crate) fn lossy_text(bytes: &[u8]) -> (text: String)
    ensures
        text@ == lossy_utf8(bytes@),
        valid_utf8(bytes@) ==> text@ == decode_utf8(bytes@),
{
    String::from_utf8_lossy(bytes).into_owned()
}

/// Whether a character has the Unicode property `White_Space`.
pub open spec fn is_white_space(c: char) -> bool {
    ||| '\u{9}' <= c && c <= '\u{d}'
    ||| c == '\u{20}'
    ||| c == '\u{85}'
    ||| c == '\u{a0}'
    ||| c == '\u{1680}'
    ||| '\u{2000}' <= c && c <= '\u{200a}'
    ||| c == '\u{2028}'
    ||| c == '\u{2029}'
    ||| c == '\u{202f}'
    ||| c == '\u{205f}'
    ||| c == '\u{3000}'
}

/// `s` without the items at its start that `f` accepts.
pub open spec fn trim_start<A>(s: Seq<A>, f: spec_fn(A) -> bool) -> Seq<A>
    decreases s.len(),
{
    if s.len() > 0 && f(s[0]) {
        trim_start(s.skip(1), f)
    } else {
        s
    }
}

/// `s` without the items at its end that `f` accepts.
pub open spec fn trim_end<A>(s: Seq<A>, f: spec_fn(A) -> bool) -> Seq<A>
    decreases s.len(),
{
    if s.len() > 0 && f(s.last()) {
        trim_end(s.drop_last(), f)
    } else {
        s
    }
}

/// `s` without the items at either end that `f` accepts.
pub open spec fn trim<A>(s: Seq<A>, f: spec_fn(A) -> bool) -> Seq<A> {
    trim_end(trim_start(s, f), f)
}

/// Calls `str::trim`: removes the white space at both ends.
#[verifier::external_body]
pub(crate) fn trim_text(text: &str) -> (trimmed: &str)
    ensures
        trimmed@ == trim(text@, |c: char| is_white_space(c)),
{
    text.trim()
}

/// Whether a character is one of ASCII that has no case.
pub open spec fn is_ascii_caseless(c: char) -> bool {
    c <= '\u{7f}' && !('A' <= c <= 'Z') && !('a' <= c <= 'z')
}

/// Calls `str::to_lowercase`: the result is named by [`lowercase`]; of an ASCII text it is the
/// text with each of `A` to `Z` replaced by its small letter. Of any text, the result holds none
/// of `A` to `Z`, and no character of ASCII without case that the text does not hold: only
/// characters with case are replaced, and by letters and the marks on them.
#[verifier::external_body]
pub(crate) fn lowercase_text(text: &str) -> (lower: String)
    ensures
        lower@ == lowercase(text@),
        is_ascii_chars(text@) ==> lower@ == text@.map_values(|c: char| ascii_lowercase(c)),
        forall|i: int| 0 <= i < lower@.len() ==> !('A' <= #[trigger] lower@[i] <= 'Z'),
        forall|i: int|
            0 <= i < lower@.len() && is_ascii_caseless(#[trigger] lower@[i]) ==> text@.contains(
                lower@[i],
            ),
{
    text.to_lowercase()
}

proof fn lemma_ascii_scalar(c: char)
    requires
        c <= '\u{7f}',
    ensures
        encode_scalar(c as u32) == seq![c as u8],
{
    let single = seq![c];
    is_ascii_chars_encode_utf8(single);
    assert(encode_utf8(single.drop_first()).len() == 0);
    assert(encode_utf8(single) =~= encode_scalar(c as u32));
    assert(single[0] as u8 == encode_utf8(single)[0]);
}

/// A character of ASCII that a text holds stands in its encoding as one byte.
pub proof fn lemma_ascii_encoded(text: Seq<char>, i: int)
    requires
        0 <= i < text.len(),
        text[i] <= '\u{7f}',
    ensures
        encode_utf8(text).contains(text[i] as u8),
    decreases text.len(),
{
    let first = encode_scalar(text[0] as u32);
    let rest = encode_utf8(text.drop_first());
    assert(encode_utf8(text) == first + rest);
    if i == 0 {
        lemma_ascii_scalar(text[0]);
        assert(encode_utf8(text)[0] == text[0] as u8);
    } else {
        lemma_ascii_encoded(text.drop_first(), i - 1);
        let j = choose|j: int| 0 <= j < rest.len() && rest[j] == text[i] as u8;
        assert(encode_utf8(text)[first.len() + j] == text[i] as u8);
    }
}

/// The text that `bytes` decodes to, where they are valid UTF-8.
pub fn decoded(bytes: &[u8]) -> (text: Option<String>)
    ensures
        text is Some <==> valid_utf8(bytes@),
        text matches Some(t) ==> t@ == decode_utf8(bytes@),
{
    match utf8_text(bytes) {
        Some(t) => {
            proof {
                encode_utf8_decode_utf8(t@);
            }
            Some(t.to_owned())
        },
        None => None,
    }
}

/// `bytes` without the bytes `a` and `b` at its start.
pub fn trim_bytes_start<'a>(bytes: &'a [u8], a: u8, b: u8) -> (rest: &'a [u8])
    ensures
        rest@ == trim_start(bytes@, crate::bytes::either(a, b)),
{
    let ghost f = crate::bytes::either(a, b);
    let mut start: usize = 0;
    assert(bytes@.skip(0) =~= bytes@);
    while start < bytes.len() && (bytes[start] == a || bytes[start] == b)
        invariant
            f == crate::bytes::either(a, b),
            start <= bytes@.len(),
            trim_start(bytes@.skip(start as int), f) == trim_start(bytes@, f),
        decreases bytes@.len() - start,
    {
        assert(bytes@.skip(start as int).skip(1) =~= bytes@.skip(start + 1));
        assert(bytes@.skip(start as int)[0] == bytes@[start as int]);
        start += 1;
    }
    let rest = slice_subrange(bytes, start, bytes.len());
    assert(rest@ =~= bytes@.skip(start as int));
    rest
}

/// `bytes` without the bytes `a` and `b` at its end.
pub fn trim_bytes_end<'a>(bytes: &'a [u8], a: u8, b: u8) -> (rest: &'a [u8])
    ensures
        rest@ == trim_end(bytes@, crate::bytes::either(a, b)),
{
    let ghost f = crate::bytes::either(a, b);
    let mut end: usize = bytes.len();
    assert(bytes@.take(end as int) =~= bytes@);
    while end > 0 && (bytes[end - 1] == a || bytes[end - 1] == b)
        invariant
            f == crate::bytes::either(a, b),
            end <= bytes@.len(),
            trim_end(bytes@.take(end as int), f) == trim_end(bytes@, f),
        decreases end,
    {
        assert(bytes@.take(end as int).drop_last() =~= bytes@.take(end - 1));
        assert(bytes@.take(end as int).last() == bytes@[end - 1]);
        end -= 1;
    }
    let rest = slice_subrange(bytes, 0, end);
    assert(rest@ =~= bytes@.take(end as int));
    rest
}

/// `bytes` without the bytes `a` and `b` at either end.
pub fn trim_bytes<'a>(bytes: &'a [u8], a: u8, b: u8) -> (rest: &'a [u8])
    ensures
        rest@ == trim(bytes@, crate::bytes::either(a, b)),
{
    trim_bytes_end(trim_bytes_start(bytes, a, b), a, b)
}

/// The character of a decimal digit.
pub open spec fn digit_char(d: nat) -> char {
    (('0' as u32 + d) as u32) as char
}

/// The decimal digits of a number, without leading zeros.
pub open spec fn decimal(n: nat) -> Seq<char>
    decreases n,
{
    if n < 10 {
        seq![digit_char(n)]
    } else {
        decimal(n / 10).push(digit_char(n % 10))
    }
}

/// The text of one decimal digit.
fn digit_text(d: u64) -> (text: &'static str)
    requires
        d < 10,
    ensures
        text@ == seq![digit_char(d as nat)],
{
    proof {
        reveal_strlit("0");
        reveal_strlit("1");
        reveal_strlit("2");
        reveal_strlit("3");
        reveal_strlit("4");
        reveal_strlit("5");
        reveal_strlit("6");
        reveal_strlit("7");
        reveal_strlit("8");
        reveal_strlit("9");
    }
    let text = if d == 0 {
        "0"
    } else if d == 1 {
        "1"
    } else if d == 2 {
        "2"
    } else if d == 3 {
        "3"
    } else if d == 4 {
        "4"
    } else if d == 5 {
        "5"
    } else if d == 6 {
        "6"
    } else if d == 7 {
        "7"
    } else if d == 8 {
        "8"
    } else {
        "9"
    };
    assert(text@ =~= seq![digit_char(d as nat)]);
    text
}

/// Appends the decimal form of `n`.
pub fn push_decimal(out: &mut String, n: u64)
    ensures
        final(out)@ == old(out)@ + decimal(n as nat),
    decreases n,
{
    if n >= 10 {
        push_decimal(out, n / 10);
    }
    out.append(digit_text(n % 10));
    assert(out@ =~= old(out)@ + decimal(n as nat));
}

/// The decimal form of `n`.
pub fn decimal_text(n: u64) -> (text: String)
    ensures
        text@ == decimal(n as nat),
{
    let mut text = String::new();
    push_decimal(&mut text, n);
    assert(text@ =~= decimal(n as nat));
    text
}

/// Whether a byte is one of the ASCII digits.
pub open spec fn is_digit(b: u8) -> bool {
    0x30 <= b <= 0x39
}

/// The number that a string of ASCII digits denotes.
pub open spec fn digits_value(s: Seq<u8>) -> nat
    decreases s.len(),
{
    if s.len() == 0 {
        0
    } else {
        digits_value(s.drop_last()) * 10 + (s.last() - 0x30) as nat
    }
}

/// The number that `s` denotes, where it is a nonempty string of digits and at most `max`.
pub open spec fn number(s: Seq<u8>, max: nat) -> Option<nat> {
    if s.len() > 0 && (forall|i: int| 0 <= i < s.len() ==> #[trigger] is_digit(s[i]))
        && digits_value(s) <= max {
        Some(digits_value(s))
    } else {
        None
    }
}

/// The number that `s` denotes, with or without a plus sign before its digits.
pub open spec fn unsigned(s: Seq<u8>, max: nat) -> Option<nat> {
    if s.len() > 0 && s[0] == 0x2b {
        number(s.skip(1), max)
    } else {
        number(s, max)
    }
}

/// The number in the range of `i32` that `s` denotes, with or without a sign before its digits.
pub open spec fn signed32(s: Seq<u8>) -> Option<int> {
    if s.len() > 0 && s[0] == 0x2d {
        match number(s.skip(1), 0x8000_0000) {
            Some(n) => Some(-(n as int)),
            None => None,
        }
    } else {
        match unsigned(s, 0x7fff_ffff) {
            Some(n) => Some(n as int),
            None => None,
        }
    }
}

proof fn lemma_digits_value_grows(s: Seq<u8>, k: int)
    requires
        0 <= k <= s.len(),
        forall|i: int| 0 <= i < s.len() ==> #[trigger] is_digit(s[i]),
    ensures
        digits_value(s.take(k)) <= digits_value(s),
    decreases s.len(),
{
    if k < s.len() {
        assert(s.drop_last().take(k) =~= s.take(k));
        assert forall|i: int| 0 <= i < s.drop_last().len() implies #[trigger] is_digit(
            s.drop_last()[i],
        ) by {
            assert(is_digit(s[i]));
        }
        lemma_digits_value_grows(s.drop_last(), k);
        assert(is_digit(s[s.len() - 1]));
    } else {
        assert(s.take(k) =~= s);
    }
}

/// The decimal form of a number is a string of digits that denotes it.
pub proof fn lemma_decimal_bytes(n: nat)
    ensures
        is_ascii_chars(decimal(n)),
        encode_utf8(decimal(n)).len() == decimal(n).len() > 0,
        forall|i: int|
            0 <= i < encode_utf8(decimal(n)).len() ==> #[trigger] is_digit(
                encode_utf8(decimal(n))[i],
            ),
        digits_value(encode_utf8(decimal(n))) == n,
    decreases n,
{
    let bytes = encode_utf8(decimal(n));
    if n < 10 {
        is_ascii_chars_encode_utf8(decimal(n));
        assert(digits_value(bytes.drop_last()) == 0);
        assert(decimal(n)[0] as u8 == bytes[0]);
    } else {
        let front = encode_utf8(decimal(n / 10));
        lemma_decimal_bytes(n / 10);
        is_ascii_chars_encode_utf8(decimal(n / 10));
        is_ascii_chars_encode_utf8(decimal(n));
        assert forall|i: int| 0 <= i < front.len() implies bytes[i] == front[i] by {
            assert(decimal(n)[i] == decimal(n / 10)[i]);
        }
        assert(bytes.drop_last() =~= front);
        assert(decimal(n)[front.len() as int] == digit_char(n % 10));
        assert(decimal(n)[front.len() as int] as u8 == bytes.last());
        assert forall|i: int| 0 <= i < bytes.len() implies #[trigger] is_digit(bytes[i]) by {
            if i < front.len() {
                assert(is_digit(front[i]));
            }
        }
    }
}

/// The decimal form of a number, read back, is the number.
pub proof fn law_decimal_round_trip(n: nat, max: nat)
    requires
        n <= max,
    ensures
        unsigned(encode_utf8(decimal(n)), max) == Some(n),
{
    lemma_decimal_bytes(n);
    assert(is_digit(encode_utf8(decimal(n))[0]));
}

/// Reads a string of digits that denotes at most `max`.
pub fn parse_number(s: &[u8], max: u64) -> (value: Option<u64>)
    ensures
        value is Some <==> number(s@, max as nat) is Some,
        value matches Some(v) ==> number(s@, max as nat) == Some(v as nat),
{
    if s.len() == 0 {
        return None;
    }
    let mut value: u64 = 0;
    let mut i: usize = 0;
    while i < s.len()
        invariant
            i <= s@.len(),
            value <= max,
            value == digits_value(s@.take(i as int)),
            forall|j: int| 0 <= j < i ==> #[trigger] is_digit(s@[j]),
        decreases s@.len() - i,
    {
        let b: u8 = s[i];
        if b < 0x30 || b > 0x39 {
            assert(!is_digit(s@[i as int]));
            return None;
        }
        let d: u64 = (b - 0x30) as u64;
        proof {
            assert(s@.take(i + 1).drop_last() =~= s@.take(i as int));
            assert(s@.take(i + 1).last() == b);
            assert(digits_value(s@.take(i + 1)) == value * 10 + d);
        }
        if d > max || value > (max - d) / 10 {
            proof {
                if number(s@, max as nat) is Some {
                    lemma_digits_value_grows(s@, i + 1);
                }
            }
            return None;
        }
        value = value * 10 + d;
        i += 1;
    }
    assert(s@.take(i as int) =~= s@);
    Some(value)
}

/// Reads a number at most `max`, as the unsigned integer types of the standard library do.
pub fn parse_unsigned(s: &[u8], max: u64) -> (value: Option<u64>)
    ensures
        value is Some <==> unsigned(s@, max as nat) is Some,
        value matches Some(v) ==> unsigned(s@, max as nat) == Some(v as nat) && v <= max,
{
    if s.len() > 0 && s[0] == 0x2b {
        let rest = slice_subrange(s, 1, s.len());
        assert(rest@ =~= s@.skip(1));
        parse_number(rest, max)
    } else {
        parse_number(s, max)
    }
}

/// Reads a number of the type `i32`, as the standard library does.
pub fn parse_i32(s: &[u8]) -> (value: Option<i32>)
    ensures
        value is Some <==> signed32(s@) is Some,
        value matches Some(v) ==> signed32(s@) == Some(v as int),
{
    if s.len() > 0 && s[0] == 0x2d {
        let rest = slice_subrange(s, 1, s.len());
        assert(rest@ =~= s@.skip(1));
        match parse_number(rest, 0x8000_0000) {
            Some(n) => Some((0 - n as i64) as i32),
            None => None,
        }
    } else {
        match parse_unsigned(s, 0x7fff_ffff) {
            Some(n) => Some(n as i32),
            None => None,
        }
    }
}

/// The texts in `parts`, one after the other, with `sep` between two of them.
pub open spec fn joined(parts: Seq<Seq<char>>, sep: Seq<char>) -> Seq<char>
    decreases parts.len(),
{
    if parts.len() == 0 {
        Seq::empty()
    } else if parts.len() == 1 {
        parts[0]
    } else {
        joined(parts.drop_last(), sep) + sep + parts.last()
    }
}

/// The contents of a list of strings.
pub open spec fn strings(list: Seq<String>) -> Seq<Seq<char>> {
    list.map_values(|s: String| s@)
}

/// Joins `parts` with `sep` between two of them.
pub fn join(parts: &Vec<String>, sep: &str) -> (text: String)
    ensures
        text@ == joined(strings(parts@), sep@),
{
    let mut text = String::new();
    let mut i: usize = 0;
    let ghost all = strings(parts@);
    assert(text@ =~= joined(all.take(0), sep@));
    while i < parts.len()
        invariant
            i <= parts@.len(),
            all == strings(parts@),
            text@ == joined(all.take(i as int), sep@),
        decreases parts@.len() - i,
    {
        proof {
            assert(all.take(i + 1).drop_last() =~= all.take(i as int));
            assert(all.take(i + 1).last() == parts@[i as int]@);
        }
        if i > 0 {
            text.append(sep);
        }
        text.append(parts[i].as_str());
        assert(text@ =~= joined(all.take(i + 1), sep@));
        i += 1;
    }
    assert(all.take(i as int) =~= all);
    text
}

/// The lower case of an ASCII letter; other bytes are kept.
pub open spec fn lower_byte(b: u8) -> u8 {
    if 0x41 <= b <= 0x5a {
        (b + 32) as u8
    } else {
        b
    }
}

/// Whether two byte strings differ at most in the case of ASCII letters.
pub open spec fn same_ignoring_case(a: Seq<u8>, b: Seq<u8>) -> bool {
    a.map_values(|x: u8| lower_byte(x)) == b.map_values(|x: u8| lower_byte(x))
}

fn to_lower_byte(b: u8) -> (lower: u8)
    ensures
        lower == lower_byte(b),
{
    if 0x41 <= b && b <= 0x5a {
        b + 32
    } else {
        b
    }
}

/// Whether two byte strings differ at most in the case of ASCII letters.
pub fn eq_ignoring_case(a: &[u8], b: &[u8]) -> (same: bool)
    ensures
        same == same_ignoring_case(a@, b@),
{
    let ghost la = a@.map_values(|x: u8| lower_byte(x));
    let ghost lb = b@.map_values(|x: u8| lower_byte(x));
    if a.len() != b.len() {
        assert(la.len() != lb.len());
        return false;
    }
    let mut i: usize = 0;
    while i < a.len()
        invariant
            a@.len() == b@.len(),
            i <= a@.len(),
            la == a@.map_values(|x: u8| lower_byte(x)),
            lb == b@.map_values(|x: u8| lower_byte(x)),
            forall|j: int| 0 <= j < i ==> la[j] == lb[j],
        decreases a@.len() - i,
    {
        if to_lower_byte(a[i]) != to_lower_byte(b[i]) {
            assert(la[i as int] != lb[i as int]);
            return false;
        }
        i += 1;
    }
    assert(la =~= lb);
    true
}

/// A text, or none.
pub open spec fn text_or_empty(text: Option<String>) -> Seq<char> {
    match text {
        Some(t) => t@,
        None => Seq::empty(),
    }
}

/// A copy of a text, or none.
pub fn or_empty(text: &Option<String>) -> (out: String)
    ensures
        out@ == text_or_empty(*text),
{
    match text {
        Some(t) => t.as_str().to_owned(),
        None => {
            let out = String::new();
            assert(out@ =~= Seq::<char>::empty());
            out
        },
    }
}

/// The decimal form of a number has at each place the digit of that place, and does not begin
/// with a zero but for zero itself.
pub proof fn law_decimal_digits(n: nat)
    ensures
        decimal(n).len() > 0,
        forall|i: int|
            0 <= i < decimal(n).len() ==> '0' <= #[trigger] decimal(n)[i] <= '9' && decimal(n)[i] as int
                - '0' as int == (n as int / pow(10, (decimal(n).len() - 1 - i) as nat)) % 10,
        n < pow(10, decimal(n).len()),
        n > 0 ==> n >= pow(10, (decimal(n).len() - 1) as nat),
        n == 0 ==> decimal(n).len() == 1,
    decreases n,
{
    let d = decimal(n);
    lemma_pow0(10);
    lemma_pow1(10);
    if n < 10 {
        assert(d =~= seq![digit_char(n)]);
    } else {
        let front = decimal(n / 10);
        let k = front.len();
        law_decimal_digits(n / 10);
        assert(d =~= front.push(digit_char(n % 10)));
        assert(pow(10, k + 1) == 10 * pow(10, k)) by {
            reveal(pow);
        }
        assert(pow(10, k) == 10 * pow(10, (k - 1) as nat)) by {
            reveal(pow);
        }
        assert forall|i: int| 0 <= i < d.len() implies '0' <= #[trigger] d[i] <= '9' && d[i] as int
            - '0' as int == (n as int / pow(10, (d.len() - 1 - i) as nat)) % 10 by {
            if i < k {
                assert(d[i] == front[i]);
                let e = (k - 1 - i) as nat;
                assert(pow(10, e + 1) == 10 * pow(10, e)) by {
                    reveal(pow);
                }
                lemma_pow_positive(10, e);
                vstd::arithmetic::div_mod::lemma_div_denominator(n as int, 10, pow(10, e));
                assert(n as int / 10 == (n / 10) as int);
            } else {
                assert(d[i] == digit_char(n % 10));
            }
        }
    }
}

/// A number is read digit by digit: each one more makes it ten times as large and adds itself,
/// as long as it is at most `max`. A plus sign may stand before it, and nothing else but digits.
pub proof fn law_number_is_read(s: Seq<u8>, d: u8, max: nat)
    ensures
        unsigned(Seq::empty(), max) is None,
        unsigned(seq![d], max) == (if 0x30 <= d <= 0x39 && d - 0x30 <= max {
            Some((d - 0x30) as nat)
        } else {
            None
        }),
        s.len() > 0 && s != seq![0x2bu8] ==> unsigned(s.push(d), max) == (match unsigned(s, max) {
            Some(n) => if 0x30 <= d <= 0x39 && n * 10 + (d - 0x30) <= max {
                Some((n * 10 + (d - 0x30)) as nat)
            } else {
                None
            },
            None => None,
        }),
        s.len() == 0 || s[0] != 0x2b ==> unsigned(seq![0x2bu8] + s, max) == unsigned(s, max),
{
    let one = seq![d];
    assert(one.drop_last() =~= Seq::<u8>::empty());
    assert(digits_value(Seq::<u8>::empty()) == 0);
    assert(is_digit(d) ==> (forall|i: int| 0 <= i < one.len() ==> #[trigger] is_digit(one[i])));
    if d == 0x2b {
        assert(one.skip(1) =~= Seq::<u8>::empty());
    }
    assert(!is_digit(d) ==> !is_digit(one[0]));
    let plus = seq![0x2bu8] + s;
    assert(plus.skip(1) =~= s);
    if s.len() > 0 && s != seq![0x2bu8] {
        let all = s.push(d);
        if s[0] == 0x2b {
            assert(all.skip(1) =~= s.skip(1).push(d));
            if s.len() == 1 {
                assert(s =~= seq![0x2bu8]);
            }
            lemma_number_push(s.skip(1), d, max);
        } else {
            lemma_number_push(s, d, max);
        }
    }
}

proof fn lemma_number_push(s: Seq<u8>, d: u8, max: nat)
    requires
        s.len() > 0,
    ensures
        number(s.push(d), max) == (match number(s, max) {
            Some(n) => if 0x30 <= d <= 0x39 && n * 10 + (d - 0x30) <= max {
                Some((n * 10 + (d - 0x30)) as nat)
            } else {
                None
            },
            None => None,
        }),
{
    let all = s.push(d);
    assert(all.drop_last() =~= s);
    if forall|i: int| 0 <= i < all.len() ==> #[trigger] is_digit(all[i]) {
        assert forall|i: int| 0 <= i < s.len() implies #[trigger] is_digit(s[i]) by {
            assert(is_digit(all[i]));
        }
        assert(is_digit(all[s.len() as int]));
    } else if is_digit(d) {
        let i = choose|i: int| 0 <= i < all.len() && !#[trigger] is_digit(all[i]);
        assert(!is_digit(s[i]));
    }
}

/// A number with a sign is read as the number without it, or as its negative.
pub proof fn law_signed_is_read(n: nat)
    ensures
        n <= 0x7fff_ffff ==> signed32(encode_utf8(decimal(n))) == Some(n as int),
        n > 0x7fff_ffff ==> signed32(encode_utf8(decimal(n))) is None,
        n <= 0x8000_0000 ==> signed32(seq![0x2du8] + encode_utf8(decimal(n))) == Some(-(n as int)),
        n > 0x8000_0000 ==> signed32(seq![0x2du8] + encode_utf8(decimal(n))) is None,
{
    let bytes = encode_utf8(decimal(n));
    lemma_decimal_bytes(n);
    assert(is_digit(bytes[0]));
    assert((seq![0x2du8] + bytes).skip(1) =~= bytes);
}

/// The texts in a list are joined with the separator between two of them and nowhere else.
pub proof fn law_join(
    parts: Vec<String>,
    sep: &str,
    text: String,
    list: Seq<Seq<char>>,
    more: Seq<char>,
)
    requires
        call_ensures(join, (&parts, sep), text),
    ensures
        parts@.len() == 0 ==> text@.len() == 0,
        parts@.len() == 1 ==> text@ == parts@[0]@,
        parts@.len() == 2 ==> text@ == parts@[0]@ + sep@ + parts@[1]@,
        text@ == joined(parts@.map_values(|s: String| s@), sep@),
        list.len() > 0 ==> joined(list.push(more), sep@) == joined(list, sep@) + sep@ + more,
{
    let all = strings(parts@);
    assert(list.push(more).drop_last() =~= list);
    if parts@.len() == 2 {
        assert(all.drop_last() =~= seq![all[0]]);
        assert(joined(all, sep@) == joined(all.drop_last(), sep@) + sep@ + all.last());
        assert(joined(all.drop_last(), sep@) == all[0]);
    }
}

/// Two byte strings are the same but for case where at every place the bytes are the same or the
/// two cases of one of the 26 letters.
pub proof fn law_ignoring_case(a: &[u8], b: &[u8], same: bool)
    requires
        call_ensures(eq_ignoring_case, (a, b), same),
    ensures
        same <==> a@.len() == b@.len() && forall|i: int|
            0 <= i < a@.len() ==> {
                ||| #[trigger] a@[i] == b@[i]
                ||| 0x41 <= a@[i] <= 0x5a && b@[i] == a@[i] + 0x20
                ||| 0x41 <= b@[i] <= 0x5a && a@[i] == b@[i] + 0x20
            },
{
    let la = a@.map_values(|x: u8| lower_byte(x));
    let lb = b@.map_values(|x: u8| lower_byte(x));
    if same {
        assert(la.len() == lb.len());
        assert forall|i: int| 0 <= i < a@.len() implies {
            ||| #[trigger] a@[i] == b@[i]
            ||| 0x41 <= a@[i] <= 0x5a && b@[i] == a@[i] + 0x20
            ||| 0x41 <= b@[i] <= 0x5a && a@[i] == b@[i] + 0x20
        } by {
            assert(la[i] == lb[i]);
        }
    } else if a@.len() == b@.len() {
        assert(!(la =~= lb));
        let i = choose|i: int| 0 <= i < la.len() && la[i] != lb[i];
        assert(a@[i] != b@[i]);
    }
}

/// What is trimmed away on either side is only what is to be trimmed, and nothing that is to be
/// trimmed is left at either end.
pub proof fn law_trimmed(bytes: &[u8], a: u8, b: u8, rest: &[u8])
    requires
        call_ensures(trim_bytes, (bytes, a, b), rest),
    ensures
        exists|before: Seq<u8>, after: Seq<u8>|
            #![trigger before + rest@ + after]
            {
                &&& before + rest@ + after == bytes@
                &&& forall|i: int|
                    0 <= i < before.len() ==> #[trigger] before[i] == a || before[i] == b
                &&& forall|i: int|
                    0 <= i < after.len() ==> #[trigger] after[i] == a || after[i] == b
            },
        rest@.len() > 0 ==> rest@[0] != a && rest@[0] != b && rest@.last() != a && rest@.last()
            != b,
{
    let f = crate::bytes::either(a, b);
    let before = lemma_cut_start(bytes@, a, b);
    let middle = trim_start(bytes@, f);
    let after = lemma_cut_end(middle, a, b);
    assert(before + rest@ + after =~= before + (rest@ + after));
    if rest@.len() > 0 {
        assert(rest@[0] == middle[0]);
    }
}

proof fn lemma_cut_start(s: Seq<u8>, a: u8, b: u8) -> (before: Seq<u8>)
    ensures
        before + trim_start(s, crate::bytes::either(a, b)) == s,
        forall|i: int| 0 <= i < before.len() ==> #[trigger] before[i] == a || before[i] == b,
        trim_start(s, crate::bytes::either(a, b)).len() > 0 ==> trim_start(
            s,
            crate::bytes::either(a, b),
        )[0] != a && trim_start(s, crate::bytes::either(a, b))[0] != b,
    decreases s.len(),
{
    let f = crate::bytes::either(a, b);
    if s.len() > 0 && f(s[0]) {
        let rest = lemma_cut_start(s.skip(1), a, b);
        let before = seq![s[0]] + rest;
        assert(before + trim_start(s, f) =~= seq![s[0]] + (rest + trim_start(s.skip(1), f)));
        assert(seq![s[0]] + s.skip(1) =~= s);
        assert forall|i: int| 0 <= i < before.len() implies #[trigger] before[i] == a || before[i]
            == b by {
            if i > 0 {
                assert(before[i] == rest[i - 1]);
            }
        }
        before
    } else {
        assert(Seq::<u8>::empty() + trim_start(s, f) =~= s);
        Seq::empty()
    }
}

proof fn lemma_cut_end(s: Seq<u8>, a: u8, b: u8) -> (after: Seq<u8>)
    ensures
        trim_end(s, crate::bytes::either(a, b)) + after == s,
        forall|i: int| 0 <= i < after.len() ==> #[trigger] after[i] == a || after[i] == b,
        trim_end(s, crate::bytes::either(a, b)).len() > 0 ==> trim_end(
            s,
            crate::bytes::either(a, b),
        ).last() != a && trim_end(s, crate::bytes::either(a, b)).last() != b,
    decreases s.len(),
{
    let f = crate::bytes::either(a, b);
    if s.len() > 0 && f(s.last()) {
        let rest = lemma_cut_end(s.drop_last(), a, b);
        let after = rest.push(s.last());
        assert(trim_end(s, f) + after =~= (trim_end(s.drop_last(), f) + rest).push(s.last()));
        assert(s.drop_last().push(s.last()) =~= s);
        after
    } else {
        assert(trim_end(s, f) + Seq::<u8>::empty() =~= s);
        Seq::empty()
    }
}

/// Bytes are decoded where they are text, and a text that may be absent is empty where it is.
pub proof fn law_texts(
    bytes: &[u8],
    text: Option<String>,
    maybe: Option<String>,
    out: String,
    n: u64,
    number: String,
)
    requires
        call_ensures(decoded, (bytes,), text),
        call_ensures(or_empty, (&maybe,), out),
        call_ensures(decimal_text, (n,), number),
    ensures
        text is Some <==> valid_utf8(bytes@),
        text matches Some(t) ==> t@ == decode_utf8(bytes@),
        maybe matches Some(t) ==> out@ == t@,
        maybe is None ==> out@.len() == 0,
        number@ == decimal(n as nat),
{
}

/// Numbers are read from their digits alone, behind a plus sign where that is allowed, and behind
/// a sign where they may be negative; a number that is too large is none.
pub proof fn law_numbers_are_read(
    s: &[u8],
    max: u64,
    plain: Option<u64>,
    plus: Option<u64>,
    signed: Option<i32>,
)
    requires
        call_ensures(parse_number, (s, max), plain),
        call_ensures(parse_unsigned, (s, max), plus),
        call_ensures(parse_i32, (s,), signed),
    ensures
        plain is Some <==> number(s@, max as nat) is Some,
        plain matches Some(n) ==> number(s@, max as nat) == Some(n as nat) && n <= max,
        s@.len() > 0 && s@[0] == 0x2b ==> (plus is Some <==> number(s@.skip(1), max as nat)
            is Some),
        s@.len() == 0 || s@[0] != 0x2b ==> plus == plain,
        signed is Some <==> signed32(s@) is Some,
        signed matches Some(n) ==> signed32(s@) == Some(n as int),
{
}

}
