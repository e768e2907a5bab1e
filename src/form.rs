//! `application/x-www-form-urlencoded` serialization of query pairs, as the
//! `url` crate's `form_urlencoded` module writes it, and its decoding.
use vstd::prelude::*;
use vstd::utf8::{decode_utf8, encode_utf8, encode_utf8_decode_utf8, is_ascii_chars_encode_utf8};

verus! {

/// A query pair as text: key and value.
pub type PairText = (Seq<char>, Seq<char>);

/// The text of a list of executable pairs.
pub open spec fn pairs_text(ps: Seq<(String, String)>) -> Seq<PairText> {
    ps.map_values(|p: (String, String)| (p.0@, p.1@))
}

/// Bytes that the serializer writes as they are: `*`, `-`, `.`, `_` and ASCII alphanumerics.
pub open spec fn byte_unchanged(b: u8) -> bool {
    ||| b == 0x2a
    ||| b == 0x2d
    ||| b == 0x2e
    ||| 0x30 <= b <= 0x39
    ||| 0x41 <= b <= 0x5a
    ||| b == 0x5f
    ||| 0x61 <= b <= 0x7a
}

/// Upper-case hexadecimal digit for `n < 16`.
pub open spec fn hex_digit(n: nat) -> char {
    if n < 10 {
        ((n + 48) as u8) as char
    } else {
        ((n + 55) as u8) as char
    }
}

/// The value of a hexadecimal digit of either case.
pub open spec fn hex_value(c: char) -> Option<nat> {
    if '0' <= c <= '9' {
        Some((c as nat - 48) as nat)
    } else if 'A' <= c <= 'F' {
        Some((c as nat - 55) as nat)
    } else if 'a' <= c <= 'f' {
        Some((c as nat - 87) as nat)
    } else {
        None
    }
}

/// One byte serialized: itself, `+` for a space, else `%` and two upper-case hex digits.
pub open spec fn encode_byte(b: u8) -> Seq<char> {
    if byte_unchanged(b) {
        seq![b as char]
    } else if b == 0x20 {
        seq!['+']
    } else {
        seq!['%', hex_digit(b as nat / 16), hex_digit(b as nat % 16)]
    }
}

pub open spec fn encode_bytes(bs: Seq<u8>) -> Seq<char>
    decreases bs.len(),
{
    if bs.len() == 0 {
        seq![]
    } else {
        encode_byte(bs[0]) + encode_bytes(bs.drop_first())
    }
}

/// A string serialized: the encoding of its UTF-8 bytes.
pub open spec fn form_encode(s: Seq<char>) -> Seq<char> {
    encode_bytes(encode_utf8(s))
}

/// `key=value`, both serialized.
pub open spec fn encode_pair(p: PairText) -> Seq<char> {
    form_encode(p.0) + seq!['='] + form_encode(p.1)
}

/// The pairs serialized in order and joined by `&`.
pub open spec fn encode_pairs(ps: Seq<PairText>) -> Seq<char>
    decreases ps.len(),
{
    if ps.len() == 0 {
        seq![]
    } else if ps.len() == 1 {
        encode_pair(ps[0])
    } else {
        encode_pairs(ps.drop_last()) + seq!['&'] + encode_pair(ps.last())
    }
}

/// The bytes that a serialized string stands for: `+` is a space, `%` with two
/// hex digits is that byte, any other character stands for its UTF-8 bytes.
pub open spec fn decode_bytes(t: Seq<char>) -> Seq<u8>
    decreases t.len(),
{
    if t.len() == 0 {
        seq![]
    } else if t[0] == '+' {
        seq![0x20u8] + decode_bytes(t.drop_first())
    } else if t[0] == '%' && t.len() >= 3 && hex_value(t[1]) is Some && hex_value(t[2]) is Some {
        seq![(hex_value(t[1])->0 * 16 + hex_value(t[2])->0) as u8] + decode_bytes(t.skip(3))
    } else {
        encode_utf8(seq![t[0]]) + decode_bytes(t.drop_first())
    }
}

/// A serialized string read back.
pub open spec fn form_decode(t: Seq<char>) -> Seq<char> {
    decode_utf8(decode_bytes(t))
}

/// Position of the first `c` in `s`, or -1.
pub open spec fn first_index_of(s: Seq<char>, c: char) -> int
    decreases s.len(),
{
    if s.len() == 0 {
        -1
    } else if s[0] == c {
        0
    } else {
        let r = first_index_of(s.drop_first(), c);
        if r < 0 {
            -1
        } else {
            r + 1
        }
    }
}

/// Position of the last `c` in `s`, or -1.
pub open spec fn last_index_of(s: Seq<char>, c: char) -> int
    decreases s.len(),
{
    if s.len() == 0 {
        -1
    } else if s.last() == c {
        s.len() - 1
    } else {
        last_index_of(s.drop_last(), c)
    }
}

/// One `name=value` sequence read back; the name is all of it where it has no `=`.
pub open spec fn decode_pair(t: Seq<char>) -> PairText {
    let e = first_index_of(t, '=');
    if e < 0 {
        (form_decode(t), seq![])
    } else {
        (form_decode(t.take(e)), form_decode(t.skip(e + 1)))
    }
}

/// A query string read back: split at `&`, empty sequences skipped.
pub open spec fn decode_pairs(s: Seq<char>) -> Seq<PairText>
    decreases s.len(),
{
    if s.len() == 0 {
        seq![]
    } else {
        let k = last_index_of(s, '&');
        if k < 0 || k >= s.len() {
            seq![decode_pair(s)]
        } else {
            let rest = decode_pairs(s.take(k));
            let seg = s.skip(k + 1);
            if seg.len() == 0 {
                rest
            } else {
                rest.push(decode_pair(seg))
            }
        }
    }
}

proof fn lemma_encode_bytes_push(bs: Seq<u8>, b: u8)
    ensures
        encode_bytes(bs.push(b)) == encode_bytes(bs) + encode_byte(b),
    decreases bs.len(),
{
    if bs.len() == 0 {
        assert(bs.push(b).drop_first() =~= seq![]);
        assert(encode_bytes(seq![]) =~= seq![]);
        assert(encode_bytes(bs.push(b)) =~= encode_byte(b) + encode_bytes(seq![]));
    } else {
        assert(bs.push(b).drop_first() =~= bs.drop_first().push(b));
        lemma_encode_bytes_push(bs.drop_first(), b);
        assert(encode_bytes(bs.push(b)) =~= encode_bytes(bs) + encode_byte(b));
    }
}

/// A character that no serialized string holds: `&` and `=`.
pub open spec fn is_separator(c: char) -> bool {
    c == '&' || c == '='
}

proof fn lemma_encode_bytes_no_separator(bs: Seq<u8>)
    ensures
        forall|i: int| 0 <= i < encode_bytes(bs).len() ==> !is_separator(#[trigger] encode_bytes(bs)[i]),
    decreases bs.len(),
{
    if bs.len() > 0 {
        lemma_encode_bytes_no_separator(bs.drop_first());
        let e = encode_byte(bs[0]);
        let b = bs[0];
        assert(forall|i: int| 0 <= i < e.len() ==> !is_separator(#[trigger] e[i])) by {
            if !byte_unchanged(b) && b != 0x20 {
                assert(hex_digit(b as nat / 16) != '&' && hex_digit(b as nat / 16) != '=');
                assert(hex_digit(b as nat % 16) != '&' && hex_digit(b as nat % 16) != '=');
            }
        }
        let r = encode_bytes(bs.drop_first());
        assert forall|i: int| 0 <= i < encode_bytes(bs).len() implies !is_separator(#[trigger] encode_bytes(bs)[i]) by {
            if i >= e.len() {
                assert(encode_bytes(bs)[i] == r[i - e.len()]);
            }
        }
    }
}

/// No serialized string holds `&` or `=`.
pub proof fn lemma_form_encode_no_separator(s: Seq<char>)
    ensures
        forall|i: int| 0 <= i < form_encode(s).len() ==> !is_separator(#[trigger] form_encode(s)[i]),
{
    lemma_encode_bytes_no_separator(encode_utf8(s));
}

proof fn lemma_decode_encoded_byte(b: u8, rest: Seq<char>)
    ensures
        decode_bytes(encode_byte(b) + rest) == seq![b] + decode_bytes(rest),
{
    let t = encode_byte(b) + rest;
    if byte_unchanged(b) {
        let c = b as char;
        assert(t[0] == c);
        assert(t.drop_first() =~= rest);
        assert(vstd::utf8::is_ascii_chars(seq![c]));
        is_ascii_chars_encode_utf8(seq![c]);
        assert(encode_utf8(seq![c]) =~= seq![b]);
    } else if b == 0x20 {
        assert(t.drop_first() =~= rest);
    } else {
        let hi = b as nat / 16;
        let lo = b as nat % 16;
        assert(hex_value(hex_digit(hi)) == Some(hi));
        assert(hex_value(hex_digit(lo)) == Some(lo));
        assert(t.skip(3) =~= rest);
        assert((hi * 16 + lo) as u8 == b);
    }
}

proof fn lemma_decode_encode_bytes(bs: Seq<u8>)
    ensures
        decode_bytes(encode_bytes(bs)) == bs,
    decreases bs.len(),
{
    if bs.len() == 0 {
    } else {
        lemma_decode_encoded_byte(bs[0], encode_bytes(bs.drop_first()));
        lemma_decode_encode_bytes(bs.drop_first());
        assert(seq![bs[0]] + bs.drop_first() =~= bs);
    }
}

/// Decoding a serialized string gives back the string, spaces and `+` included.
pub proof fn lemma_form_round_trip(s: Seq<char>)
    ensures
        form_decode(form_encode(s)) == s,
{
    lemma_decode_encode_bytes(encode_utf8(s));
    encode_utf8_decode_utf8(s);
}

proof fn lemma_no_char_index(s: Seq<char>, c: char)
    requires
        forall|i: int| 0 <= i < s.len() ==> s[i] != c,
    ensures
        first_index_of(s, c) == -1,
        last_index_of(s, c) == -1,
    decreases s.len(),
{
    if s.len() > 0 {
        lemma_no_char_index(s.drop_first(), c);
        lemma_no_char_index(s.drop_last(), c);
    }
}

proof fn lemma_last_index_split(a: Seq<char>, b: Seq<char>, c: char)
    requires
        forall|i: int| 0 <= i < b.len() ==> b[i] != c,
    ensures
        last_index_of(a + seq![c] + b, c) == a.len(),
    decreases b.len(),
{
    let s = a + seq![c] + b;
    if b.len() == 0 {
        assert(s.last() == c);
    } else {
        assert(s.last() == b.last());
        assert(s.drop_last() =~= a + seq![c] + b.drop_last());
        lemma_last_index_split(a, b.drop_last(), c);
    }
}

proof fn lemma_first_index_split(a: Seq<char>, b: Seq<char>, c: char)
    requires
        forall|i: int| 0 <= i < a.len() ==> a[i] != c,
    ensures
        first_index_of(a + seq![c] + b, c) == a.len(),
    decreases a.len(),
{
    let s = a + seq![c] + b;
    if a.len() > 0 {
        assert(s[0] == a[0]);
        assert(s.drop_first() =~= a.drop_first() + seq![c] + b);
        lemma_first_index_split(a.drop_first(), b, c);
    }
}

proof fn lemma_encode_pair_no_amp(p: PairText)
    ensures
        forall|i: int| 0 <= i < encode_pair(p).len() ==> encode_pair(p)[i] != '&',
        encode_pair(p).len() > 0,
{
    lemma_form_encode_no_separator(p.0);
    lemma_form_encode_no_separator(p.1);
    let k = form_encode(p.0);
    let v = form_encode(p.1);
    assert forall|i: int| 0 <= i < encode_pair(p).len() implies encode_pair(p)[i] != '&' by {
        if i < k.len() {
            assert(encode_pair(p)[i] == k[i]);
        } else if i > k.len() {
            assert(encode_pair(p)[i] == v[i - k.len() - 1]);
        }
    }
}

proof fn lemma_decode_encoded_pair(p: PairText)
    ensures
        decode_pair(encode_pair(p)) == p,
{
    lemma_form_encode_no_separator(p.0);
    let k = form_encode(p.0);
    let v = form_encode(p.1);
    let t = encode_pair(p);
    lemma_first_index_split(k, v, '=');
    assert(t.take(k.len() as int) =~= k);
    assert(t.skip(k.len() as int + 1) =~= v);
    lemma_form_round_trip(p.0);
    lemma_form_round_trip(p.1);
}

/// Reading back a serialized query string gives the pairs, in order, with
/// their keys and values exactly as they were.
pub proof fn lemma_query_round_trip(ps: Seq<PairText>)
    ensures
        decode_pairs(encode_pairs(ps)) == ps,
    decreases ps.len(),
{
    if ps.len() == 0 {
    } else if ps.len() == 1 {
        lemma_encode_pair_no_amp(ps[0]);
        lemma_no_char_index(encode_pair(ps[0]), '&');
        lemma_decode_encoded_pair(ps[0]);
        assert(seq![ps[0]] =~= ps);
    } else {
        let a = encode_pairs(ps.drop_last());
        let b = encode_pair(ps.last());
        let s = a + seq!['&'] + b;
        lemma_encode_pair_no_amp(ps.last());
        lemma_last_index_split(a, b, '&');
        assert(s.take(a.len() as int) =~= a);
        assert(s.skip(a.len() as int + 1) =~= b);
        lemma_query_round_trip(ps.drop_last());
        lemma_decode_encoded_pair(ps.last());
        assert(ps.drop_last().push(ps.last()) =~= ps);
    }
}

/// The serializer's rule for one byte: kept, `+` for a space, else percent-escaped.
fn push_encoded_byte(out: &mut String, b: u8)
    ensures
        final(out)@ == old(out)@ + encode_byte(b),
{
    if b == 0x2a || b == 0x2d || b == 0x2e || (0x30 <= b && b <= 0x39) || (0x41 <= b && b <= 0x5a)
        || b == 0x5f || (0x61 <= b && b <= 0x7a) {
        out.push(b as char);
    } else if b == 0x20 {
        out.push('+');
    } else {
        let hi: u8 = b / 16;
        let lo: u8 = b % 16;
        out.push('%');
        out.push(if hi < 10 { (hi + 48) as char } else { (hi + 55) as char });
        out.push(if lo < 10 { (lo + 48) as char } else { (lo + 55) as char });
    }
    assert(final(out)@ =~= old(out)@ + encode_byte(b));
}

/// Appends `s` form-urlencoded to `out`.
pub fn push_form_encoded(out: &mut String, s: &str)
    ensures
        final(out)@ == old(out)@ + form_encode(s@),
{
    let bytes = s.as_bytes();
    let ghost start = out@;
    let mut i: usize = 0;
    while i < bytes.len()
        invariant
            bytes@ == encode_utf8(s@),
            i <= bytes@.len(),
            out@ == start + encode_bytes(bytes@.take(i as int)),
        decreases bytes@.len() - i,
    {
        let b = bytes[i];
        push_encoded_byte(out, b);
        proof {
            lemma_encode_bytes_push(bytes@.take(i as int), b);
            assert(bytes@.take(i + 1) =~= bytes@.take(i as int).push(b));
        }
        i += 1;
    }
    assert(bytes@.take(i as int) =~= bytes@);
}

/// The query string of `pairs`: each `key=value` form-urlencoded, joined by `&`.
pub fn encode_query(pairs: &Vec<(String, String)>) -> (r: String)
    ensures
        r@ == encode_pairs(pairs_text(pairs@)),
{
    let mut r = String::new();
    let mut i: usize = 0;
    while i < pairs.len()
        invariant
            i <= pairs@.len(),
            r@ == encode_pairs(pairs_text(pairs@.take(i as int))),
        decreases pairs@.len() - i,
    {
        let ghost before = r@;
        if i > 0 {
            r.push('&');
        }
        push_form_encoded(&mut r, pairs[i].0.as_str());
        r.push('=');
        push_form_encoded(&mut r, pairs[i].1.as_str());
        proof {
            let ps = pairs_text(pairs@.take(i + 1));
            assert(ps.drop_last() =~= pairs_text(pairs@.take(i as int)));
            assert(ps.last() == (pairs@[i as int].0@, pairs@[i as int].1@));
            if i == 0 {
                assert(before =~= seq![]);
                assert(r@ =~= encode_pair(ps.last()));
            } else {
                assert(r@ =~= before + seq!['&'] + encode_pair(ps.last()));
            }
        }
        i += 1;
    }
    assert(pairs@.take(i as int) =~= pairs@);
    r
}

} // verus!
