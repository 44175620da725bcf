//! The `application/x-www-form-urlencoded` serialization the url-reference
//! submit strategy uses, together with its decoder and a proof that encoding
//! round-trips: embedded `&`, `=` and non-ASCII bytes all survive.
//!
//! Encoding works on UTF-8 bytes: `0-9 A-Z a-z * - . _` pass unchanged, a
//! space becomes `+`, and every other byte becomes `%XX` with uppercase hex.

use vstd::prelude::*;

verus! {

/// Bytes the encoding passes through unchanged.
pub open spec fn is_unreserved(b: u8) -> bool {
    ('0' as u8) <= b <= ('9' as u8) || ('A' as u8) <= b <= ('Z' as u8) || ('a' as u8) <= b <= (
    'z' as u8) || b == ('*' as u8) || b == ('-' as u8) || b == ('.' as u8) || b == ('_' as u8)
}

/// The uppercase hex digit for a value below sixteen.
pub open spec fn hex_char(n: int) -> u8 {
    if n < 10 {
        (('0' as u8) + n) as u8
    } else {
        (('A' as u8) + (n - 10)) as u8
    }
}

pub open spec fn is_hex_digit(b: u8) -> bool {
    ('0' as u8) <= b <= ('9' as u8) || ('A' as u8) <= b <= ('F' as u8) || ('a' as u8) <= b <= (
    'f' as u8)
}

/// The value of one hex digit, upper or lower case.
pub open spec fn hex_val(b: u8) -> int {
    if ('0' as u8) <= b <= ('9' as u8) {
        b - ('0' as u8)
    } else if ('A' as u8) <= b <= ('F' as u8) {
        b - ('A' as u8) + 10
    } else {
        b - ('a' as u8) + 10
    }
}

/// How one byte is serialized.
pub open spec fn encode_byte(b: u8) -> Seq<u8> {
    if is_unreserved(b) {
        seq![b]
    } else if b == (' ' as u8) {
        seq![('+' as u8)]
    } else {
        seq![('%' as u8), hex_char(b as int / 16), hex_char(b as int % 16)]
    }
}

/// The form-urlencoded serialization of a byte string.
pub open spec fn form_encoded(s: Seq<u8>) -> Seq<u8>
    decreases s.len(),
{
    if s.len() == 0 {
        Seq::empty()
    } else {
        encode_byte(s[0]) + form_encoded(s.skip(1))
    }
}

/// The decoder: `+` back to space, `%XX` back to the byte, unreserved bytes
/// kept; anything else means the input was not a valid encoding.
pub open spec fn form_decoded(s: Seq<u8>) -> Option<Seq<u8>>
    decreases s.len(),
{
    if s.len() == 0 {
        Some(Seq::empty())
    } else if s[0] == ('%' as u8) {
        if s.len() >= 3 && is_hex_digit(s[1]) && is_hex_digit(s[2]) {
            match form_decoded(s.skip(3)) {
                Some(r) => Some(seq![(hex_val(s[1]) * 16 + hex_val(s[2])) as u8] + r),
                None => None,
            }
        } else {
            None
        }
    } else if s[0] == ('+' as u8) {
        match form_decoded(s.skip(1)) {
            Some(r) => Some(seq![(' ' as u8)] + r),
            None => None,
        }
    } else if is_unreserved(s[0]) {
        match form_decoded(s.skip(1)) {
            Some(r) => Some(seq![s[0]] + r),
            None => None,
        }
    } else {
        None
    }
}

proof fn lemma_hex_char_val(n: int)
    requires
        0 <= n < 16,
    ensures
        is_hex_digit(hex_char(n)),
        hex_val(hex_char(n)) == n,
{
}

/// Appending one byte appends its encoding.
proof fn lemma_form_encoded_snoc(s: Seq<u8>, b: u8)
    ensures
        form_encoded(s.push(b)) == form_encoded(s) + encode_byte(b),
    decreases s.len(),
{
    if s.len() == 0 {
        assert(s.push(b)[0] == b);
        assert(s.push(b).skip(1) =~= Seq::<u8>::empty());
        assert(form_encoded(s.push(b)) == encode_byte(b) + form_encoded(Seq::<u8>::empty()));
        assert(encode_byte(b) + Seq::<u8>::empty() =~= encode_byte(b));
        assert(form_encoded(s) + encode_byte(b) =~= encode_byte(b));
    } else {
        assert(s.push(b).skip(1) =~= s.skip(1).push(b));
        lemma_form_encoded_snoc(s.skip(1), b);
        assert(form_encoded(s.push(b)) =~= form_encoded(s) + encode_byte(b));
    }
}

/// Encoding loses nothing: decoding an encoded byte string gives the original
/// back, whatever bytes (separators, non-ASCII) it held.
pub proof fn lemma_form_round_trip(s: Seq<u8>)
    ensures
        form_decoded(form_encoded(s)) == Some(s),
    decreases s.len(),
{
    if s.len() == 0 {
        assert(form_decoded(form_encoded(s)) == Some(s));
    } else {
        let b = s[0];
        let rest = s.skip(1);
        lemma_form_round_trip(rest);
        let e = form_encoded(s);
        if is_unreserved(b) {
            assert(e.skip(1) =~= form_encoded(rest));
            assert(seq![b] + rest =~= s);
        } else if b == (' ' as u8) {
            assert(e.skip(1) =~= form_encoded(rest));
            assert(seq![(' ' as u8)] + rest =~= s);
        } else {
            lemma_hex_char_val(b as int / 16);
            lemma_hex_char_val(b as int % 16);
            assert(e.skip(3) =~= form_encoded(rest));
            assert(hex_val(e[1]) * 16 + hex_val(e[2]) == b as int);
            assert(seq![b] + rest =~= s);
        }
    }
}

fn hex_char_exec(n: u8) -> (r: u8)
    requires
        n < 16,
    ensures
        r == hex_char(n as int),
{
    if n < 10 {
        ('0' as u8) + n
    } else {
        ('A' as u8) + (n - 10)
    }
}

fn is_unreserved_exec(b: u8) -> (r: bool)
    ensures
        r == is_unreserved(b),
{
    (('0' as u8) <= b && b <= ('9' as u8)) || (('A' as u8) <= b && b <= ('Z' as u8)) || (('a'
        as u8) <= b && b <= ('z' as u8)) || b == ('*' as u8) || b == ('-' as u8) || b == ('.' as u8)
        || b == ('_' as u8)
}

/// Serialize a byte string in the form-urlencoded syntax.
pub fn form_encode(input: &[u8]) -> (r: Vec<u8>)
    ensures
        r@ == form_encoded(input@),
{
    let mut out: Vec<u8> = Vec::new();
    let mut i: usize = 0;
    while i < input.len()
        invariant
            i <= input.len(),
            out@ == form_encoded(input@.subrange(0, i as int)),
        decreases input.len() - i,
    {
        let b = input[i];
        if is_unreserved_exec(b) {
            out.push(b);
        } else if b == (' ' as u8) {
            out.push('+' as u8);
        } else {
            out.push('%' as u8);
            out.push(hex_char_exec(b / 16));
            out.push(hex_char_exec(b % 16));
        }
        proof {
            lemma_form_encoded_snoc(input@.subrange(0, i as int), b);
            assert(input@.subrange(0, i + 1 as int) =~= input@.subrange(0, i as int).push(b));
        }
        i = i + 1;
    }
    proof {
        assert(input@.subrange(0, input@.len() as int) =~= input@);
    }
    out
}

fn is_hex_digit_exec(b: u8) -> (r: bool)
    ensures
        r == is_hex_digit(b),
{
    (('0' as u8) <= b && b <= ('9' as u8)) || (('A' as u8) <= b && b <= ('F' as u8)) || (('a'
        as u8) <= b && b <= ('f' as u8))
}

fn hex_val_exec(b: u8) -> (r: u8)
    requires
        is_hex_digit(b),
    ensures
        r == hex_val(b),
{
    if ('0' as u8) <= b && b <= ('9' as u8) {
        b - ('0' as u8)
    } else if ('A' as u8) <= b && b <= ('F' as u8) {
        b - ('A' as u8) + 10
    } else {
        b - ('a' as u8) + 10
    }
}

/// What decoding the remainder contributes behind an already-decoded prefix.
spec fn decode_glue(done: Seq<u8>, rest: Seq<u8>) -> Option<Seq<u8>> {
    match form_decoded(rest) {
        Some(t) => Some(done + t),
        None => None,
    }
}

proof fn lemma_decode_glue_step(done: Seq<u8>, rest: Seq<u8>, c: u8, k: int)
    requires
        0 < k <= rest.len(),
        form_decoded(rest) == (match form_decoded(rest.skip(k)) {
            Some(t) => Some(seq![c] + t),
            None => None::<Seq<u8>>,
        }),
    ensures
        decode_glue(done.push(c), rest.skip(k)) == decode_glue(done, rest),
{
    if form_decoded(rest.skip(k)) is Some {
        let t = form_decoded(rest.skip(k)).unwrap();
        assert(done.push(c) + t =~= done + (seq![c] + t));
    }
}

/// Decode a form-urlencoded byte string; `None` when it is not a valid
/// encoding.
pub fn form_decode(input: &[u8]) -> (r: Option<Vec<u8>>)
    ensures
        match r {
            Some(v) => form_decoded(input@) == Some(v@),
            None => form_decoded(input@) is None,
        },
{
    let mut out: Vec<u8> = Vec::new();
    let mut i: usize = 0;
    proof {
        assert(input@.skip(0) =~= input@);
        if form_decoded(input@) is Some {
            let t = form_decoded(input@).unwrap();
            assert(Seq::<u8>::empty() + t =~= t);
        }
    }
    while i < input.len()
        invariant
            i <= input.len(),
            decode_glue(out@, input@.skip(i as int)) == form_decoded(input@),
        decreases input.len() - i,
    {
        let ghost rest = input@.skip(i as int);
        let ghost done = out@;
        proof {
            assert(rest[0] == input@[i as int]);
        }
        let b = input[i];
        if b == ('%' as u8) {
            if input.len() - i >= 3 && is_hex_digit_exec(input[i + 1]) && is_hex_digit_exec(
                input[i + 2],
            ) {
                let c = hex_val_exec(input[i + 1]) * 16 + hex_val_exec(input[i + 2]);
                out.push(c);
                proof {
                    assert(rest.len() >= 3);
                    assert(rest[1] == input@[i as int + 1]);
                    assert(rest[2] == input@[i as int + 2]);
                    assert(rest.skip(3) =~= input@.skip(i as int + 3));
                    assert(c == (hex_val(rest[1]) * 16 + hex_val(rest[2])) as u8);
                    lemma_decode_glue_step(done, rest, c, 3);
                }
                i = i + 3;
            } else {
                proof {
                    assert(form_decoded(rest) is None);
                }
                return None;
            }
        } else if b == ('+' as u8) {
            out.push(' ' as u8);
            proof {
                assert(rest.skip(1) =~= input@.skip(i as int + 1));
                lemma_decode_glue_step(done, rest, (' ' as u8), 1);
            }
            i = i + 1;
        } else if is_unreserved_exec(b) {
            out.push(b);
            proof {
                assert(rest.skip(1) =~= input@.skip(i as int + 1));
                lemma_decode_glue_step(done, rest, b, 1);
            }
            i = i + 1;
        } else {
            proof {
                assert(form_decoded(rest) is None);
            }
            return None;
        }
    }
    proof {
        assert(input@.skip(input@.len() as int) =~= Seq::<u8>::empty());
        assert(out@ + Seq::<u8>::empty() =~= out@);
    }
    Some(out)
}

/// One `name=value` pair, both sides encoded.
pub open spec fn encoded_pair(k: Seq<u8>, v: Seq<u8>) -> Seq<u8> {
    form_encoded(k) + seq![('=' as u8)] + form_encoded(v)
}

/// A whole form body: the encoded pairs joined by `&`.
pub open spec fn form_body_of(pairs: Seq<(Seq<u8>, Seq<u8>)>) -> Seq<u8>
    decreases pairs.len(),
{
    if pairs.len() == 0 {
        Seq::empty()
    } else if pairs.len() == 1 {
        encoded_pair(pairs[0].0, pairs[0].1)
    } else {
        encoded_pair(pairs[0].0, pairs[0].1) + seq![('&' as u8)] + form_body_of(pairs.skip(1))
    }
}

proof fn lemma_form_body_snoc(pairs: Seq<(Seq<u8>, Seq<u8>)>, p: (Seq<u8>, Seq<u8>))
    ensures
        pairs.len() == 0 ==> form_body_of(pairs.push(p)) == encoded_pair(p.0, p.1),
        pairs.len() > 0 ==> form_body_of(pairs.push(p)) == form_body_of(pairs) + seq![('&' as u8)]
            + encoded_pair(p.0, p.1),
    decreases pairs.len(),
{
    if pairs.len() == 0 {
        assert(pairs.push(p)[0] == p);
    } else {
        assert(pairs.push(p).skip(1) =~= pairs.skip(1).push(p));
        lemma_form_body_snoc(pairs.skip(1), p);
        if pairs.len() == 1 {
            assert(form_body_of(pairs.push(p)) =~= form_body_of(pairs) + seq![('&' as u8)]
                + encoded_pair(p.0, p.1));
        } else {
            assert(form_body_of(pairs.push(p)) =~= form_body_of(pairs) + seq![('&' as u8)]
                + encoded_pair(p.0, p.1));
        }
    }
}

/// The views of an executable pair list.
pub open spec fn pairs_view(pairs: Seq<(Vec<u8>, Vec<u8>)>) -> Seq<(Seq<u8>, Seq<u8>)> {
    pairs.map_values(|p: (Vec<u8>, Vec<u8>)| (p.0@, p.1@))
}

/// Serialize a pair list as one form body.
pub fn encode_pairs(pairs: &Vec<(Vec<u8>, Vec<u8>)>) -> (r: Vec<u8>)
    ensures
        r@ == form_body_of(pairs_view(pairs@)),
{
    let mut out: Vec<u8> = Vec::new();
    let mut i: usize = 0;
    while i < pairs.len()
        invariant
            i <= pairs.len(),
            out@ == form_body_of(pairs_view(pairs@.subrange(0, i as int))),
        decreases pairs.len() - i,
    {
        if i > 0 {
            out.push('&' as u8);
        }
        let mut ek = form_encode(pairs[i].0.as_slice());
        out.append(&mut ek);
        out.push('=' as u8);
        let mut ev = form_encode(pairs[i].1.as_slice());
        out.append(&mut ev);
        proof {
            let pv = pairs_view(pairs@.subrange(0, i as int));
            lemma_form_body_snoc(pv, (pairs@[i as int].0@, pairs@[i as int].1@));
            assert(pairs_view(pairs@.subrange(0, i + 1 as int)) =~= pv.push(
                (pairs@[i as int].0@, pairs@[i as int].1@),
            ));
            assert(out@ =~= form_body_of(pairs_view(pairs@.subrange(0, i + 1 as int))));
        }
        i = i + 1;
    }
    proof {
        assert(pairs@.subrange(0, pairs@.len() as int) =~= pairs@);
    }
    out
}

} // verus!
