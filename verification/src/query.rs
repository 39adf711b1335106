//! Building the outbound query string from the inbound query pairs, a
//! decoder for such strings, and the proof that the pairs survive the
//! round trip.
//!
//! The gateway hands the relay decoded key/value pairs; the translator
//! re-encodes each pair and joins them with `&`. Re-encoding need not
//! reproduce the original query string byte for byte, but the decoded
//! pairs an upstream sees must equal the pairs the gateway delivered.

use vstd::prelude::*;

verus! {

use vstd::utf8::decode_utf8;
use vstd::utf8::encode_utf8;
use crate::percent::is_unreserved;
use crate::percent::lemma_decode_encode;
use crate::percent::lemma_encode_output_bytes;
use crate::percent::pct_decode;
use crate::percent::pct_encode;
use crate::percent::pct_encode_bytes;

/// The index of the first occurrence of `t` in `s`, or `s.len()` if there
/// is none.
pub open spec fn find_byte(s: Seq<u8>, t: u8) -> int
    decreases s.len(),
{
    if s.len() == 0 {
        0
    } else if s[0] == t {
        0
    } else {
        1 + find_byte(s.skip(1), t)
    }
}

pub proof fn lemma_find_byte(s: Seq<u8>, t: u8)
    ensures
        0 <= find_byte(s, t) <= s.len(),
        find_byte(s, t) < s.len() ==> s[find_byte(s, t)] == t,
        forall|j: int| 0 <= j < find_byte(s, t) ==> s[j] != t,
    decreases s.len(),
{
    if s.len() != 0 && s[0] != t {
        lemma_find_byte(s.skip(1), t);
        assert forall|j: int| 0 <= j < find_byte(s, t) implies s[j] != t by {
            if j > 0 {
                assert(s.skip(1)[j - 1] == s[j]);
            }
        }
    }
}

/// If `t` does not occur in `s`, it is not found.
pub proof fn lemma_find_byte_absent(s: Seq<u8>, t: u8)
    requires
        forall|j: int| 0 <= j < s.len() ==> s[j] != t,
    ensures
        find_byte(s, t) == s.len(),
    decreases s.len(),
{
    if s.len() != 0 {
        lemma_find_byte_absent(s.skip(1), t);
    }
}

/// If `t` does not occur in `a`, the first `t` of `a + seq![t] + b` sits
/// right after `a`.
pub proof fn lemma_find_byte_after(a: Seq<u8>, t: u8, b: Seq<u8>)
    requires
        forall|j: int| 0 <= j < a.len() ==> a[j] != t,
    ensures
        find_byte(a + seq![t] + b, t) == a.len(),
    decreases a.len(),
{
    let s = a + seq![t] + b;
    if a.len() == 0 {
        assert(s[0] == t);
    } else {
        assert(s[0] == a[0]);
        assert(s.skip(1) =~= a.skip(1) + seq![t] + b);
        lemma_find_byte_after(a.skip(1), t, b);
    }
}

/// The encoded form of one key/value pair: `key=value`, both sides
/// percent-encoded.
pub open spec fn encode_pair(kv: (Seq<u8>, Seq<u8>)) -> Seq<u8> {
    pct_encode(kv.0) + seq![0x3du8] + pct_encode(kv.1)
}

/// The encoded query string: the pairs' encoded forms joined with `&`.
pub open spec fn spec_build_query(pairs: Seq<(Seq<u8>, Seq<u8>)>) -> Seq<u8>
    decreases pairs.len(),
{
    if pairs.len() == 0 {
        seq![]
    } else if pairs.len() == 1 {
        encode_pair(pairs[0])
    } else {
        encode_pair(pairs[0]) + seq![0x26u8] + spec_build_query(pairs.skip(1))
    }
}

/// Decode one `key=value` segment: split at the first `=`, then
/// percent-decode both sides.
pub open spec fn parse_pair(seg: Seq<u8>) -> Option<(Seq<u8>, Seq<u8>)> {
    let i = find_byte(seg, 0x3d);
    if i >= seg.len() {
        None
    } else {
        match (pct_decode(seg.subrange(0, i)), pct_decode(seg.skip(i + 1))) {
            (Some(k), Some(v)) => Some((k, v)),
            _ => None,
        }
    }
}

/// Decode a query string: split on `&`, decode each segment.
pub open spec fn parse_query(s: Seq<u8>) -> Option<Seq<(Seq<u8>, Seq<u8>)>>
    decreases s.len(),
    via parse_query_dec
{
    if s.len() == 0 {
        Some(seq![])
    } else {
        let i = find_byte(s, 0x26);
        match parse_pair(s.subrange(0, i)) {
            None => None,
            Some(p) => {
                if i >= s.len() {
                    Some(seq![p])
                } else {
                    match parse_query(s.skip(i + 1)) {
                        None => None,
                        Some(rest) => Some(seq![p] + rest),
                    }
                }
            },
        }
    }
}

#[via_fn]
proof fn parse_query_dec(s: Seq<u8>) {
    if s.len() != 0 {
        lemma_find_byte(s, 0x26);
    }
}

/// Find the first occurrence of `t` in `s`, or `s.len()` if there is none.
pub fn find_byte_bytes(s: &[u8], t: u8) -> (i: usize)
    ensures
        i == find_byte(s@, t),
{
    let mut i: usize = 0;
    while i < s.len()
        invariant
            i <= s.len(),
            forall|j: int| 0 <= j < i ==> s@[j] != t,
        decreases s.len() - i,
    {
        if s[i] == t {
            proof {
                lemma_find_byte(s@, t);
            }
            return i;
        }
        i = i + 1;
    }
    proof {
        lemma_find_byte_absent(s@, t);
    }
    i
}

/// No byte of an encoded pair is `&`.
pub proof fn lemma_encode_pair_no_amp(kv: (Seq<u8>, Seq<u8>))
    ensures
        forall|j: int| 0 <= j < encode_pair(kv).len() ==> encode_pair(kv)[j] != 0x26,
{
    lemma_encode_output_bytes(kv.0);
    lemma_encode_output_bytes(kv.1);
    let e = encode_pair(kv);
    let ek = pct_encode(kv.0);
    let ev = pct_encode(kv.1);
    assert forall|j: int| 0 <= j < e.len() implies e[j] != 0x26 by {
        if j < ek.len() {
            assert(e[j] == ek[j]);
        } else if j == ek.len() {
            assert(e[j] == 0x3du8);
        } else {
            assert(e[j] == ev[j - ek.len() - 1]);
        }
    }
}

/// Decoding one encoded pair gives the pair back.
pub proof fn lemma_parse_pair_round_trip(k: Seq<u8>, v: Seq<u8>)
    ensures
        parse_pair(encode_pair((k, v))) == Some((k, v)),
{
    let ek = pct_encode(k);
    let ev = pct_encode(v);
    let s = encode_pair((k, v));
    lemma_encode_output_bytes(k);
    assert forall|j: int| 0 <= j < ek.len() implies ek[j] != 0x3d by {
        assert(is_unreserved(ek[j]) || ek[j] == 0x25);
    }
    lemma_find_byte_after(ek, 0x3d, ev);
    assert(find_byte(s, 0x3d) == ek.len());
    assert(s.subrange(0, ek.len() as int) =~= ek);
    assert(s.skip(ek.len() as int + 1) =~= ev);
    lemma_decode_encode(k);
    lemma_decode_encode(v);
}

/// Decoding the built query string gives back exactly the pairs it was
/// built from, in order.
pub proof fn lemma_parse_build_query(pairs: Seq<(Seq<u8>, Seq<u8>)>)
    ensures
        parse_query(spec_build_query(pairs)) == Some(pairs),
    decreases pairs.len(),
{
    if pairs.len() == 0 {
        assert(seq![] =~= pairs);
    } else {
        let p0 = pairs[0];
        let e0 = encode_pair(p0);
        lemma_encode_pair_no_amp(p0);
        lemma_parse_pair_round_trip(p0.0, p0.1);
        assert((p0.0, p0.1) == p0);
        if pairs.len() == 1 {
            let s = spec_build_query(pairs);
            assert(s == e0);
            lemma_find_byte_absent(e0, 0x26);
            assert(s.subrange(0, s.len() as int) =~= e0);
            assert(seq![p0] =~= pairs);
        } else {
            let rest = spec_build_query(pairs.skip(1));
            let s = spec_build_query(pairs);
            assert(s == e0 + seq![0x26u8] + rest);
            lemma_find_byte_after(e0, 0x26, rest);
            assert(find_byte(s, 0x26) == e0.len());
            assert(e0.len() < s.len());
            assert(s.subrange(0, e0.len() as int) =~= e0);
            assert(s.skip(e0.len() as int + 1) =~= rest);
            lemma_parse_build_query(pairs.skip(1));
            assert(seq![p0] + pairs.skip(1) =~= pairs);
        }
    }
}

/// The byte-level form of character pairs: each side as its UTF-8 bytes.
pub open spec fn pairs_bytes(pairs: Seq<(Seq<char>, Seq<char>)>) -> Seq<(Seq<u8>, Seq<u8>)> {
    pairs.map_values(|kv: (Seq<char>, Seq<char>)| (encode_utf8(kv.0), encode_utf8(kv.1)))
}

/// The decoded key/value pairs an upstream reads from the built query
/// string equal the pairs the gateway delivered, in the order given
/// (so in particular as a multiset).
pub proof fn lemma_query_round_trip(pairs: Seq<(Seq<char>, Seq<char>)>)
    ensures
        parse_query(spec_build_query(pairs_bytes(pairs))) matches Some(decoded)
            && decoded.len() == pairs.len()
            && forall|i: int| 0 <= i < pairs.len() ==> (
                decode_utf8(#[trigger] decoded[i].0) == pairs[i].0
                && decode_utf8(decoded[i].1) == pairs[i].1
            ),
{
    lemma_parse_build_query(pairs_bytes(pairs));
    let decoded = pairs_bytes(pairs);
    assert forall|i: int| 0 <= i < pairs.len() implies (
        decode_utf8(#[trigger] decoded[i].0) == pairs[i].0
        && decode_utf8(decoded[i].1) == pairs[i].1
    ) by {
        vstd::utf8::encode_utf8_decode_utf8(pairs[i].0);
        vstd::utf8::encode_utf8_decode_utf8(pairs[i].1);
    }
}

/// Appending one pair extends the built query by `&` and the pair's
/// encoded form (no `&` when the query was empty).
pub proof fn lemma_build_query_snoc(ps: Seq<(Seq<u8>, Seq<u8>)>, p: (Seq<u8>, Seq<u8>))
    ensures
        ps.len() == 0 ==> spec_build_query(ps.push(p)) == encode_pair(p),
        ps.len() != 0 ==> spec_build_query(ps.push(p)) == spec_build_query(ps) + seq![0x26u8]
            + encode_pair(p),
    decreases ps.len(),
{
    if ps.len() == 0 {
        assert(ps.push(p)[0] == p);
        assert(spec_build_query(ps.push(p)) == encode_pair(p));
    } else {
        lemma_build_query_snoc(ps.skip(1), p);
        assert(ps.push(p).skip(1) =~= ps.skip(1).push(p));
        assert(ps.push(p)[0] == ps[0]);
        assert(ps.push(p).len() >= 2);
        assert(spec_build_query(ps.push(p)) == encode_pair(ps[0]) + seq![0x26u8]
            + spec_build_query(ps.skip(1).push(p)));
        if ps.len() == 1 {
            assert(spec_build_query(ps.skip(1).push(p)) == encode_pair(p));
            assert(spec_build_query(ps) == encode_pair(ps[0]));
            assert(encode_pair(ps[0]) + seq![0x26u8] + encode_pair(p) =~= spec_build_query(ps)
                + seq![0x26u8] + encode_pair(p));
        } else {
            assert(spec_build_query(ps.skip(1).push(p)) == spec_build_query(ps.skip(1))
                + seq![0x26u8] + encode_pair(p));
            assert(spec_build_query(ps) == encode_pair(ps[0]) + seq![0x26u8] + spec_build_query(
                ps.skip(1),
            ));
            assert(encode_pair(ps[0]) + seq![0x26u8] + (spec_build_query(ps.skip(1)) + seq![0x26u8]
                + encode_pair(p)) =~= spec_build_query(ps) + seq![0x26u8] + encode_pair(p));
        }
    }
}

/// Build the outbound query string from the inbound pairs.
pub fn build_query(pairs: &Vec<(String, String)>) -> (r: Vec<u8>)
    ensures
        r@ == spec_build_query(pairs_bytes(pairs.deep_view())),
{
    let ghost gpairs = pairs_bytes(pairs.deep_view());
    let mut r: Vec<u8> = Vec::new();
    let mut i: usize = 0;
    proof {
        assert(gpairs.subrange(0, 0) =~= Seq::<(Seq<u8>, Seq<u8>)>::empty());
    }
    while i < pairs.len()
        invariant
            i <= pairs.len(),
            gpairs == pairs_bytes(pairs.deep_view()),
            gpairs.len() == pairs.len(),
            r@ == spec_build_query(gpairs.subrange(0, i as int)),
        decreases pairs.len() - i,
    {
        let ghost prefix = gpairs.subrange(0, i as int);
        if i > 0 {
            r.push(0x26);
        }
        let key_bytes = pairs[i].0.as_str().as_bytes();
        let mut enc_key = pct_encode_bytes(key_bytes);
        r.append(&mut enc_key);
        r.push(0x3d);
        let val_bytes = pairs[i].1.as_str().as_bytes();
        let mut enc_val = pct_encode_bytes(val_bytes);
        r.append(&mut enc_val);
        proof {
            let p = gpairs[i as int];
            assert(p == (encode_utf8(pairs.deep_view()[i as int].0), encode_utf8(
                pairs.deep_view()[i as int].1,
            )));
            assert(key_bytes@ == encode_utf8(pairs.deep_view()[i as int].0));
            assert(val_bytes@ == encode_utf8(pairs.deep_view()[i as int].1));
            lemma_build_query_snoc(prefix, p);
            assert(prefix.push(p) =~= gpairs.subrange(0, i + 1 as int));
            if i == 0 {
                assert(r@ =~= encode_pair(p));
            } else {
                assert(r@ =~= spec_build_query(prefix) + seq![0x26u8] + encode_pair(p));
            }
        }
        i = i + 1;
    }
    proof {
        assert(gpairs.subrange(0, gpairs.len() as int) =~= gpairs);
    }
    r
}

} // verus!
