//! Variable-length integers: two bits of the first byte tell the length, the others and the
//! bytes that follow hold the value.
use crate::bytes::{
    be_bytes, be_span, be_value, lemma_be_bytes_len, lemma_be_round_trip, lemma_be_span_values,
    lemma_be_value_bound, read_be, write_be,
};
use vstd::prelude::*;
use vstd::slice::slice_subrange;

verus! {

/// The largest value that a variable-length integer holds.
pub const MCQUIC_MOQT_MAX_VARINT: u64 = 0x3fff_ffff_ffff_ffff;

/// The length that the first byte announces.
pub open spec fn announced_len(first: u8) -> nat {
    if first < 0x40 {
        1
    } else if first < 0x80 {
        2
    } else if first < 0xc0 {
        4
    } else {
        8
    }
}

/// The integer at the start of `s` and what follows it, where `s` holds a whole one.
pub open spec fn varint(s: Seq<u8>) -> Option<(u64, Seq<u8>)> {
    if s.len() == 0 || s.len() < announced_len(s[0]) {
        None
    } else {
        let n = announced_len(s[0]);
        Some(((be_value(s.take(n as int)) % (be_span(n) / 4)) as u64, s.skip(n as int)))
    }
}

/// The shortest form of `value`.
pub open spec fn varint_bytes(value: u64) -> Seq<u8> {
    if value < 0x40 {
        be_bytes(value as nat, 1)
    } else if value < 0x4000 {
        be_bytes((value + 0x4000) as nat, 2)
    } else if value < 0x4000_0000 {
        be_bytes((value + 0x8000_0000) as nat, 4)
    } else {
        be_bytes((value + 0xc000_0000_0000_0000) as nat, 8)
    }
}

pub proof fn lemma_varint_shorter(s: Seq<u8>)
    ensures
        varint(s) matches Some((v, rest)) ==> rest.len() < s.len() && v <= MCQUIC_MOQT_MAX_VARINT,
{
    if varint(s) is Some {
        let n = announced_len(s[0]);
        lemma_be_value_bound(s.take(n as int));
        lemma_be_span_values();
    }
}

/// Reads the integer at the start of `input`: its value, and how many bytes it takes.
pub fn mcquic_moq_decode_varint(input: &[u8]) -> (decoded: Option<(u64, usize)>)
    ensures
        decoded is Some <==> varint(input@) is Some,
        decoded matches Some((value, len)) ==> len <= input@.len() && varint(input@) == Some(
            (value, input@.skip(len as int)),
        ),
{
    if input.len() == 0 {
        return None;
    }
    let first: u8 = input[0];
    let len: usize = if first < 0x40 {
        1
    } else if first < 0x80 {
        2
    } else if first < 0xc0 {
        4
    } else {
        8
    };
    if input.len() < len {
        return None;
    }
    let digits = slice_subrange(input, 0, len);
    proof {
        assert(digits@ =~= input@.take(len as int));
        lemma_be_span_values();
    }
    let number: u64 = read_be(digits);
    let value: u64 = if len == 1 {
        number % 0x40
    } else if len == 2 {
        number % 0x4000
    } else if len == 4 {
        number % 0x4000_0000
    } else {
        number % 0x4000_0000_0000_0000
    };
    Some((value, len))
}

/// Appends `value`, where a variable-length integer holds it.
pub fn mcquic_moq_encode_varint(value: u64, out: &mut Vec<u8>) -> (done: Option<()>)
    ensures
        done is Some <==> value <= MCQUIC_MOQT_MAX_VARINT,
        done is Some ==> final(out)@ == old(out)@ + varint_bytes(value),
        done is None ==> final(out)@ == old(out)@,
{
    if value > MCQUIC_MOQT_MAX_VARINT {
        return None;
    }
    if value < 0x40 {
        write_be(out, value, 1);
    } else if value < 0x4000 {
        write_be(out, value + 0x4000, 2);
    } else if value < 0x4000_0000 {
        write_be(out, value + 0x8000_0000, 4);
    } else {
        write_be(out, value + 0xc000_0000_0000_0000, 8);
    }
    Some(())
}

pub proof fn lemma_be_first_byte(value: nat, n: nat)
    requires
        0 < n,
        value < be_span(n),
    ensures
        be_bytes(value, n).len() == n,
        be_bytes(value, n)[0] as nat == value / be_span((n - 1) as nat),
    decreases n,
{
    lemma_be_bytes_len(value, n);
    if n > 1 {
        let m = (n - 1) as nat;
        let below = be_span((n - 2) as nat);
        assert(be_span(m) == below * 256);
        assert(value / 256 < be_span(m)) by (nonlinear_arith)
            requires
                value < be_span(m) * 256,
        ;
        lemma_be_first_byte(value / 256, m);
        assert(be_bytes(value, n)[0] == be_bytes(value / 256, m)[0]);
        assert(below > 0) by {
            lemma_be_span_positive((n - 2) as nat);
        }
        vstd::arithmetic::div_mod::lemma_div_denominator(value as int, 256, below as int);
        assert(256 * below == below * 256) by (nonlinear_arith);
    } else {
        assert(be_span(0) == 1);
        assert(be_span(1) == be_span(0) * 256);
        assert(be_bytes(value, 1) =~= be_bytes(value / 256, 0).push((value % 256) as u8));
    }
}

proof fn lemma_be_span_positive(n: nat)
    ensures
        be_span(n) > 0,
    decreases n,
{
    if n > 0 {
        lemma_be_span_positive((n - 1) as nat);
    }
}

/// An integer that was written is read back, and what stands behind it is left.
pub proof fn law_varint_round_trip(value: u64, rest: Seq<u8>)
    requires
        value <= MCQUIC_MOQT_MAX_VARINT,
    ensures
        varint(varint_bytes(value) + rest) == Some((value, rest)),
        varint_bytes(value).len() == 1 || varint_bytes(value).len() == 2 || varint_bytes(
            value,
        ).len() == 4 || varint_bytes(value).len() == 8,
{
    lemma_be_span_values();
    let (number, n): (nat, nat) = if value < 0x40 {
        (value as nat, 1)
    } else if value < 0x4000 {
        ((value + 0x4000) as nat, 2)
    } else if value < 0x4000_0000 {
        ((value + 0x8000_0000) as nat, 4)
    } else {
        ((value + 0xc000_0000_0000_0000) as nat, 8)
    };
    let b = varint_bytes(value);
    assert(b == be_bytes(number, n));
    lemma_be_round_trip(number, n);
    lemma_be_first_byte(number, n);
    let s = b + rest;
    assert(s[0] == b[0]);
    assert(announced_len(s[0]) == n);
    assert(s.take(n as int) =~= b);
    assert(s.skip(n as int) =~= rest);
    assert(be_value(s.take(n as int)) == number);
    assert(number % (be_span(n) / 4) == value as nat) by {
        if n == 1 {
            assert((value as nat) % 0x40 == value as nat);
        } else if n == 2 {
            assert(((value + 0x4000) as nat) % 0x4000 == value as nat);
        } else if n == 4 {
            assert(((value + 0x8000_0000) as nat) % 0x4000_0000 == value as nat);
        } else {
            assert(((value + 0xc000_0000_0000_0000) as nat) % 0x4000_0000_0000_0000 == value as nat);
        }
    }
}

proof fn lemma_be_take(s: Seq<u8>, k: int)
    requires
        0 <= k < s.len(),
    ensures
        be_value(s.take(k + 1)) == be_value(s.take(k)) * 256 + s[k],
        be_value(s.take(0)) == 0,
{
    assert(s.take(k + 1).drop_last() =~= s.take(k));
    assert(s.take(k + 1).last() == s[k]);
    assert(s.take(0) =~= Seq::<u8>::empty());
}

/// How an integer stands in bytes: in one, two, four or eight, as the first two bits of the first
/// byte tell, and the other bits are the number, the most significant first.
pub proof fn law_varint_layout(s: Seq<u8>)
    ensures
        s.len() == 0 ==> varint(s) is None,
        s.len() >= 1 && s[0] < 0x40 ==> varint(s) == Some((s[0] as u64, s.skip(1))),
        s.len() >= 1 && 0x40 <= s[0] < 0x80 ==> varint(s) == (if s.len() < 2 {
            None
        } else {
            Some((((s[0] - 0x40) * 0x100 + s[1]) as u64, s.skip(2)))
        }),
        s.len() >= 1 && 0x80 <= s[0] < 0xc0 ==> varint(s) == (if s.len() < 4 {
            None
        } else {
            Some(
                (
                    ((s[0] - 0x80) * 0x100_0000 + s[1] * 0x1_0000 + s[2] * 0x100 + s[3]) as u64,
                    s.skip(4),
                ),
            )
        }),
        s.len() >= 1 && 0xc0 <= s[0] ==> varint(s) == (if s.len() < 8 {
            None
        } else {
            Some(
                (
                    ((s[0] - 0xc0) * 0x100_0000_0000_0000 + s[1] * 0x1_0000_0000_0000 + s[2]
                        * 0x100_0000_0000 + s[3] * 0x1_0000_0000 + s[4] * 0x100_0000 + s[5]
                        * 0x1_0000 + s[6] * 0x100 + s[7]) as u64,
                    s.skip(8),
                ),
            )
        }),
{
    lemma_be_span_values();
    if s.len() >= 1 {
        lemma_be_take(s, 0);
        assert(be_value(s.take(1)) == s[0]);
    }
    if s.len() >= 2 {
        lemma_be_take(s, 1);
        let v = be_value(s.take(2));
        assert(v == s[0] * 0x100 + s[1]);
        if 0x40 <= s[0] < 0x80 {
            let low = (s[0] - 0x40) * 0x100 + s[1];
            assert(v == 0x4000 + low);
            assert(v % 0x4000 == low);
        }
    }
    if s.len() >= 4 {
        lemma_be_take(s, 2);
        lemma_be_take(s, 3);
        let v = be_value(s.take(4));
        assert(v == s[0] * 0x100_0000 + s[1] * 0x1_0000 + s[2] * 0x100 + s[3]);
        if 0x80 <= s[0] < 0xc0 {
            let low = (s[0] - 0x80) * 0x100_0000 + s[1] * 0x1_0000 + s[2] * 0x100 + s[3];
            assert(v == 0x8000_0000 + low);
            assert(v % 0x4000_0000 == low);
        }
    }
    if s.len() >= 8 {
        lemma_be_take(s, 4);
        lemma_be_take(s, 5);
        lemma_be_take(s, 6);
        lemma_be_take(s, 7);
        let v = be_value(s.take(8));
        if 0xc0 <= s[0] {
            let low = (s[0] - 0xc0) * 0x100_0000_0000_0000 + s[1] * 0x1_0000_0000_0000 + s[2]
                * 0x100_0000_0000 + s[3] * 0x1_0000_0000 + s[4] * 0x100_0000 + s[5] * 0x1_0000
                + s[6] * 0x100 + s[7];
            assert(v == 0xc000_0000_0000_0000 + low);
            assert(v % 0x4000_0000_0000_0000 == low);
        }
    }
}

/// An integer is written in as few bytes as hold it.
pub proof fn law_varint_is_short(value: u64)
    ensures
        value < 0x40 ==> varint_bytes(value).len() == 1,
        0x40 <= value < 0x4000 ==> varint_bytes(value).len() == 2,
        0x4000 <= value < 0x4000_0000 ==> varint_bytes(value).len() == 4,
        0x4000_0000 <= value < 0x4000_0000_0000_0000 ==> varint_bytes(value).len() == 8,
{
    lemma_be_bytes_len(value as nat, 1);
    lemma_be_bytes_len((value + 0x4000) as nat, 2);
    lemma_be_bytes_len((value + 0x8000_0000) as nat, 4);
    lemma_be_bytes_len((value + 0xc000_0000_0000_0000) as nat, 8);
}

/// Reading an integer gives its value and how many bytes it takes, and writing appends it where
/// it is below two to the sixty-second.
pub proof fn law_varint_calls(
    input: &[u8],
    decoded: Option<(u64, usize)>,
    value: u64,
    out: &mut Vec<u8>,
    done: Option<()>,
)
    requires
        call_ensures(mcquic_moq_decode_varint, (input,), decoded),
        call_ensures(mcquic_moq_encode_varint, (value, out), done),
    ensures
        decoded is Some <==> varint(input@) is Some,
        decoded matches Some((v, len)) ==> len <= input@.len() && varint(input@) == Some(
            (v, input@.skip(len as int)),
        ),
        done is Some <==> value < 0x4000_0000_0000_0000,
        done is Some ==> final(out)@ == old(out)@ + varint_bytes(value),
        done is None ==> final(out)@ == old(out)@,
{
}

}
