//! Percent-encoding of raw bytes, together with a decoder and the proof
//! that decoding undoes encoding.
//!
//! The encoder keeps unreserved bytes literally and writes every other
//! byte as `%` followed by two upper-case hex digits. The decoder accepts
//! any byte other than `%` literally, so it also reads what other encoders
//! produce.

use vstd::prelude::*;

verus! {

/// An unreserved byte: ASCII letter, digit, `-`, `.`, `_` or `~`.
/// These are kept literally by the encoder.
pub open spec fn is_unreserved(b: u8) -> bool {
    ||| 0x30 <= b <= 0x39
    ||| 0x41 <= b <= 0x5a
    ||| 0x61 <= b <= 0x7a
    ||| b == 0x2d
    ||| b == 0x2e
    ||| b == 0x5f
    ||| b == 0x7e
}

/// The ASCII byte of the hex digit `n`, upper case.
pub open spec fn hex_digit(n: u8) -> u8
    recommends
        n < 16,
{
    if n < 10 {
        (0x30 + n) as u8
    } else {
        (0x37 + n) as u8
    }
}

/// The value of an ASCII hex digit byte, upper or lower case.
pub open spec fn hex_val(b: u8) -> Option<u8> {
    if 0x30 <= b <= 0x39 {
        Some((b - 0x30) as u8)
    } else if 0x41 <= b <= 0x46 {
        Some((b - 0x37) as u8)
    } else if 0x61 <= b <= 0x66 {
        Some((b - 0x57) as u8)
    } else {
        None
    }
}

/// The percent-encoded form of one byte.
pub open spec fn encode_byte(b: u8) -> Seq<u8> {
    if is_unreserved(b) {
        seq![b]
    } else {
        seq![0x25u8, hex_digit((b / 16) as u8), hex_digit((b % 16) as u8)]
    }
}

/// The percent-encoded form of a byte sequence.
pub open spec fn pct_encode(bs: Seq<u8>) -> Seq<u8>
    decreases bs.len(),
{
    if bs.len() == 0 {
        seq![]
    } else {
        encode_byte(bs[0]) + pct_encode(bs.skip(1))
    }
}

/// Percent-decoding: `%` must be followed by two hex digits; every other
/// byte stands for itself.
pub open spec fn pct_decode(s: Seq<u8>) -> Option<Seq<u8>>
    decreases s.len(),
{
    if s.len() == 0 {
        Some(seq![])
    } else if s[0] == 0x25 {
        if s.len() >= 3 {
            match (hex_val(s[1]), hex_val(s[2])) {
                (Some(h), Some(l)) => match pct_decode(s.skip(3)) {
                    Some(rest) => Some(seq![(h * 16 + l) as u8] + rest),
                    None => None,
                },
                _ => None,
            }
        } else {
            None
        }
    } else {
        match pct_decode(s.skip(1)) {
            Some(rest) => Some(seq![s[0]] + rest),
            None => None,
        }
    }
}

/// Every byte the encoder emits is unreserved or `%`; in particular the
/// separators `&` and `=` never occur in encoded output.
pub proof fn lemma_encode_output_bytes(bs: Seq<u8>)
    ensures
        forall|i: int|
            0 <= i < pct_encode(bs).len() ==> is_unreserved(#[trigger] pct_encode(bs)[i])
                || pct_encode(bs)[i] == 0x25,
    decreases bs.len(),
{
    if bs.len() != 0 {
        lemma_encode_output_bytes(bs.skip(1));
        let e = pct_encode(bs);
        let head = encode_byte(bs[0]);
        let tail = pct_encode(bs.skip(1));
        assert forall|i: int|
            0 <= i < e.len() implies is_unreserved(#[trigger] e[i]) || e[i] == 0x25 by {
            if i < head.len() {
                assert(e[i] == head[i]);
            } else {
                assert(e[i] == tail[i - head.len()]);
            }
        }
    }
}

/// Decoding undoes encoding.
pub proof fn lemma_decode_encode(bs: Seq<u8>)
    ensures
        pct_decode(pct_encode(bs)) == Some(bs),
    decreases bs.len(),
{
    if bs.len() == 0 {
        assert(pct_encode(bs) =~= Seq::<u8>::empty());
        assert(seq![] =~= bs);
    } else {
        lemma_decode_encode(bs.skip(1));
        let b = bs[0];
        let e = pct_encode(bs);
        let rest = pct_encode(bs.skip(1));
        if is_unreserved(b) {
            assert(e[0] == b);
            assert(e.skip(1) =~= rest);
            assert(seq![b] + bs.skip(1) =~= bs);
        } else {
            assert(e[0] == 0x25u8);
            assert(e[1] == hex_digit((b / 16) as u8));
            assert(e[2] == hex_digit((b % 16) as u8));
            assert(e.skip(3) =~= rest);
            assert(hex_val(hex_digit((b / 16) as u8)) == Some((b / 16) as u8));
            assert(hex_val(hex_digit((b % 16) as u8)) == Some((b % 16) as u8));
            vstd::arithmetic::div_mod::lemma_fundamental_div_mod(b as int, 16);
            assert(((b / 16) * 16 + (b % 16)) as u8 == b);
            assert(seq![b] + bs.skip(1) =~= bs);
        }
    }
}

/// Encoding one byte more appends that byte's encoded form.
pub proof fn lemma_encode_snoc(p: Seq<u8>, b: u8)
    ensures
        pct_encode(p.push(b)) == pct_encode(p) + encode_byte(b),
    decreases p.len(),
{
    if p.len() == 0 {
        assert(p =~= Seq::<u8>::empty());
        assert(p.push(b).skip(1) =~= Seq::<u8>::empty());
        assert(pct_encode(Seq::<u8>::empty()) =~= Seq::<u8>::empty());
        assert(p.push(b)[0] == b);
        assert(pct_encode(p.push(b)) == encode_byte(b) + pct_encode(p.push(b).skip(1)));
        assert(pct_encode(p.push(b)) =~= pct_encode(p) + encode_byte(b));
    } else {
        lemma_encode_snoc(p.skip(1), b);
        assert(p.push(b).skip(1) =~= p.skip(1).push(b));
        assert(p.push(b)[0] == p[0]);
        assert(p.push(b).len() != 0);
        assert(pct_encode(p.push(b)) == encode_byte(p[0]) + pct_encode(p.skip(1).push(b)));
        assert(pct_encode(p.skip(1).push(b)) == pct_encode(p.skip(1)) + encode_byte(b));
        assert(encode_byte(p[0]) + (pct_encode(p.skip(1)) + encode_byte(b)) =~= (encode_byte(p[0])
            + pct_encode(p.skip(1))) + encode_byte(b));
        assert(pct_encode(p.push(b)) =~= pct_encode(p) + encode_byte(b));
    }
}

/// The ASCII byte of the hex digit `n`, upper case.
fn hex_digit_byte(n: u8) -> (r: u8)
    requires
        n < 16,
    ensures
        r == hex_digit(n),
{
    if n < 10 {
        0x30 + n
    } else {
        0x37 + n
    }
}

/// Percent-encode a byte sequence.
pub fn pct_encode_bytes(bs: &[u8]) -> (r: Vec<u8>)
    ensures
        r@ == pct_encode(bs@),
{
    let mut r: Vec<u8> = Vec::new();
    let mut i: usize = 0;
    while i < bs.len()
        invariant
            i <= bs.len(),
            r@ == pct_encode(bs@.subrange(0, i as int)),
        decreases bs.len() - i,
    {
        let b = bs[i];
        proof {
            lemma_encode_snoc(bs@.subrange(0, i as int), b);
            assert(bs@.subrange(0, i as int).push(b) =~= bs@.subrange(0, i + 1 as int));
        }
        if (0x30 <= b && b <= 0x39) || (0x41 <= b && b <= 0x5a) || (0x61 <= b && b <= 0x7a)
            || b == 0x2d || b == 0x2e || b == 0x5f || b == 0x7e {
            r.push(b);
            assert(r@ =~= pct_encode(bs@.subrange(0, i + 1 as int)));
        } else {
            r.push(0x25);
            r.push(hex_digit_byte(b / 16));
            r.push(hex_digit_byte(b % 16));
            assert(r@ =~= pct_encode(bs@.subrange(0, i + 1 as int)));
        }
        i = i + 1;
    }
    proof {
        assert(bs@.subrange(0, bs@.len() as int) =~= bs@);
    }
    r
}

} // verus!
