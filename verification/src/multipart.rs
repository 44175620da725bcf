//! The multipart upload strategy's `multipart/form-data` body: a verified
//! builder, the grammar a standard parser reads such a body with, and the
//! proof that the two round-trip — the parsed body yields exactly the fixed
//! fields and the payload, byte for byte.
//!
//! The boundary is a random alphanumeric token chosen per request; it is
//! never validated against the payload (an accepted risk, made practically
//! safe by its length), so the round-trip proof assumes the delimiter does
//! not occur inside the field values or the payload.

use vstd::prelude::*;
use vstd::string::is_ascii;
use vstd::string::StrSliceExecFns;

use crate::urlencode::pairs_view;

verus! {

/// The bytes of an ASCII string, one per character.
pub open spec fn ascii_seq(cs: Seq<char>) -> Seq<u8> {
    Seq::new(cs.len(), |i: int| cs[i] as u8)
}

/// An alphanumeric byte: what a boundary token is made of.
pub open spec fn is_alnum(c: u8) -> bool {
    ('0' as u8) <= c <= ('9' as u8) || ('A' as u8) <= c <= ('Z' as u8) || ('a' as u8) <= c <= (
    'z' as u8)
}

/// A usable boundary token: non-empty and alphanumeric throughout.
pub open spec fn boundary_ok(b: Seq<u8>) -> bool {
    b.len() > 0 && forall|i: int| 0 <= i < b.len() ==> is_alnum(#[trigger] b[i])
}

pub open spec fn quote() -> Seq<u8> {
    ascii_seq(("\"")@)
}

pub open spec fn crlf() -> Seq<u8> {
    ascii_seq(("\r\n")@)
}

pub open spec fn crlf2() -> Seq<u8> {
    ascii_seq(("\r\n\r\n")@)
}

/// Every part's header up to the opening quote of its field name.
pub open spec fn disp_prefix() -> Seq<u8> {
    ascii_seq(("Content-Disposition: form-data; name=\"")@)
}

/// What follows the file part's name, up to the opening quote of the
/// filename.
pub open spec fn filename_marker() -> Seq<u8> {
    ascii_seq(("; filename=\"")@)
}

/// What follows the filename's closing quote, up to the file part's content.
pub open spec fn content_type_marker() -> Seq<u8> {
    ascii_seq(("\r\nContent-Type: video/mp4\r\n\r\n")@)
}

/// The opening delimiter line of the whole body.
pub open spec fn open_delim(b: Seq<u8>) -> Seq<u8> {
    ascii_seq(("--")@) + b + crlf()
}

/// What every later delimiter starts with: the boundary behind a line break
/// and two dashes. The parser searches part content for this.
pub open spec fn pre_delim(b: Seq<u8>) -> Seq<u8> {
    ascii_seq(("\r\n--")@) + b
}

/// The closing marker behind the last delimiter.
pub open spec fn close_marker() -> Seq<u8> {
    ascii_seq(("--\r\n")@)
}

/// One fixed field as a part: header, blank line, value.
pub open spec fn field_part(n: Seq<u8>, v: Seq<u8>) -> Seq<u8> {
    disp_prefix() + n + quote() + crlf2() + v
}

/// The binary payload as the final part, under the fixed content type.
pub open spec fn file_part(f: Seq<u8>, p: Seq<u8>) -> Seq<u8> {
    disp_prefix() + ascii_seq(("file")@) + quote() + filename_marker() + f + quote()
        + content_type_marker() + p
}

/// The parts behind the opening delimiter: each field followed by a middle
/// delimiter, then the file part and the closing delimiter.
pub open spec fn parts_of(fields: Seq<(Seq<u8>, Seq<u8>)>, f: Seq<u8>, p: Seq<u8>, b: Seq<u8>) -> Seq<
    u8,
>
    decreases fields.len(),
{
    if fields.len() == 0 {
        file_part(f, p) + pre_delim(b) + close_marker()
    } else {
        field_part(fields[0].0, fields[0].1) + pre_delim(b) + crlf() + parts_of(
            fields.skip(1),
            f,
            p,
            b,
        )
    }
}

/// The whole generated body.
pub open spec fn multipart_body(
    fields: Seq<(Seq<u8>, Seq<u8>)>,
    f: Seq<u8>,
    p: Seq<u8>,
    b: Seq<u8>,
) -> Seq<u8> {
    open_delim(b) + parts_of(fields, f, p, b)
}

/// Remove a literal prefix.
pub open spec fn strip(s: Seq<u8>, p: Seq<u8>) -> Option<Seq<u8>> {
    if p.len() <= s.len() && s.subrange(0, p.len() as int) == p {
        Some(s.skip(p.len() as int))
    } else {
        None
    }
}

/// The position of the first occurrence of `p` in `s`.
pub open spec fn first_match(s: Seq<u8>, p: Seq<u8>) -> Option<nat>
    decreases s.len(),
{
    if p.len() > s.len() {
        None
    } else if s.subrange(0, p.len() as int) == p {
        Some(0)
    } else if s.len() == 0 {
        None
    } else {
        match first_match(s.skip(1), p) {
            Some(i) => Some((i + 1) as nat),
            None => None,
        }
    }
}

/// Whether `p` occurs anywhere in `s`.
pub open spec fn occurs(s: Seq<u8>, p: Seq<u8>) -> bool {
    exists|i: int| 0 <= i <= s.len() - p.len() && #[trigger] s.subrange(i, i + p.len() as int) == p
}

/// Cut `s` at the first occurrence of `p`: the content before it and the
/// remainder behind it.
pub open spec fn split_once(s: Seq<u8>, p: Seq<u8>) -> Option<(Seq<u8>, Seq<u8>)> {
    match first_match(s, p) {
        Some(i) => Some((s.subrange(0, i as int), s.skip(i + p.len() as int))),
        None => None,
    }
}

/// The grammar of the parts: what a standard multipart parser reads. Each
/// field part's value runs to the next delimiter; the file part must come
/// last and carry the closing marker.
pub open spec fn parse_parts(s: Seq<u8>, b: Seq<u8>) -> Option<
    (Seq<(Seq<u8>, Seq<u8>)>, Seq<u8>, Seq<u8>),
>
    decreases s.len(),
{
    match strip(s, disp_prefix()) {
        None => None,
        Some(s1) => match split_once(s1, quote()) {
            None => None,
            Some((name, s2)) => match strip(s2, crlf2()) {
                Some(s3) => match split_once(s3, pre_delim(b)) {
                    None => None,
                    Some((value, s4)) => match strip(s4, crlf()) {
                        None => None,
                        Some(s5) => if s5.len() < s.len() {
                            match parse_parts(s5, b) {
                                Some((flds, fname, payload)) => Some(
                                    (seq![(name, value)] + flds, fname, payload),
                                ),
                                None => None,
                            }
                        } else {
                            None
                        },
                    },
                },
                None => if name == ascii_seq(("file")@) {
                    match strip(s2, filename_marker()) {
                        None => None,
                        Some(s3) => match split_once(s3, quote()) {
                            None => None,
                            Some((fname, s4)) => match strip(s4, content_type_marker()) {
                                None => None,
                                Some(s5) => match split_once(s5, pre_delim(b)) {
                                    None => None,
                                    Some((payload, s6)) => if s6 == close_marker() {
                                        Some((Seq::empty(), fname, payload))
                                    } else {
                                        None
                                    },
                                },
                            },
                        },
                    }
                } else {
                    None
                },
            },
        },
    }
}

/// Parse a whole body against a known boundary.
pub open spec fn parse_multipart(body: Seq<u8>, b: Seq<u8>) -> Option<
    (Seq<(Seq<u8>, Seq<u8>)>, Seq<u8>, Seq<u8>),
> {
    match strip(body, open_delim(b)) {
        Some(s) => parse_parts(s, b),
        None => None,
    }
}

proof fn lemma_strip_concat(p: Seq<u8>, rest: Seq<u8>)
    ensures
        strip(p + rest, p) == Some(rest),
{
    assert((p + rest).subrange(0, p.len() as int) =~= p);
    assert((p + rest).skip(p.len() as int) =~= rest);
}

proof fn lemma_strip_mismatch(s: Seq<u8>, p: Seq<u8>)
    requires
        s.len() > 0,
        p.len() > 0,
        s[0] != p[0],
    ensures
        strip(s, p) == None::<Seq<u8>>,
{
    if p.len() <= s.len() && s.subrange(0, p.len() as int) == p {
        assert(s.subrange(0, p.len() as int)[0] == s[0]);
    }
}

/// A single-byte pattern occurs exactly where that byte stands.
proof fn lemma_occurs_single(s: Seq<u8>, c: u8)
    ensures
        occurs(s, seq![c]) <==> exists|i: int| 0 <= i < s.len() && s[i] == c,
{
    if occurs(s, seq![c]) {
        let i = choose|i: int|
            0 <= i <= s.len() - 1 && #[trigger] s.subrange(i, i + 1) == seq![c];
        assert(s.subrange(i, i + 1)[0] == s[i]);
    }
    if exists|i: int| 0 <= i < s.len() && s[i] == c {
        let i = choose|i: int| 0 <= i < s.len() && #[trigger] s[i] == c;
        assert(s.subrange(i, i + 1) =~= seq![c]);
    }
}

/// Where a pattern whose first byte returns nowhere else in it follows a
/// stretch free of it, its first occurrence is exactly behind that stretch —
/// it can neither occur earlier nor straddle the seam.
proof fn lemma_pattern_first_match(v: Seq<u8>, pat: Seq<u8>, rest: Seq<u8>)
    requires
        pat.len() > 0,
        forall|t: int| 1 <= t < pat.len() ==> #[trigger] pat[t] != pat[0],
        !occurs(v, pat),
    ensures
        first_match(v + pat + rest, pat) == Some(v.len() as nat),
    decreases v.len(),
{
    let s = v + pat + rest;
    if v.len() == 0 {
        assert(s.subrange(0, pat.len() as int) =~= pat);
    } else {
        if pat.len() <= s.len() && s.subrange(0, pat.len() as int) == pat {
            if v.len() >= pat.len() {
                assert(occurs(v, pat)) by {
                    assert(v.subrange(0, 0 + pat.len() as int) =~= s.subrange(
                        0,
                        pat.len() as int,
                    ));
                }
                assert(false);
            } else {
                let t = v.len() as int;
                assert(s.subrange(0, pat.len() as int)[t] == pat[t]);
                assert(s[t] == pat[0]);
                assert(false);
            }
        }
        assert(s.subrange(0, pat.len() as int) != pat);
        assert(s.skip(1) =~= v.skip(1) + pat + rest);
        assert(!occurs(v.skip(1), pat)) by {
            if occurs(v.skip(1), pat) {
                let i = choose|i: int|
                    0 <= i <= v.skip(1).len() - pat.len() && #[trigger] v.skip(1).subrange(
                        i,
                        i + pat.len() as int,
                    ) == pat;
                assert(v.subrange(i + 1, i + 1 + pat.len() as int) =~= v.skip(1).subrange(
                    i,
                    i + pat.len() as int,
                ));
                assert(occurs(v, pat));
            }
        }
        lemma_pattern_first_match(v.skip(1), pat, rest);
    }
}

/// Cutting at such a pattern recovers both sides.
proof fn lemma_split_once_at(v: Seq<u8>, pat: Seq<u8>, rest: Seq<u8>)
    requires
        pat.len() > 0,
        forall|t: int| 1 <= t < pat.len() ==> #[trigger] pat[t] != pat[0],
        !occurs(v, pat),
    ensures
        split_once(v + pat + rest, pat) == Some((v, rest)),
{
    lemma_pattern_first_match(v, pat, rest);
    assert((v + pat + rest).subrange(0, v.len() as int) =~= v);
    assert((v + pat + rest).skip(v.len() as int + pat.len() as int) =~= rest);
}

/// The quote is a one-byte pattern; its first-byte condition is vacuous.
proof fn lemma_quote_pattern()
    ensures
        quote().len() == 1,
        quote()[0] == ('"' as u8),
        forall|t: int| 1 <= t < quote().len() ==> #[trigger] quote()[t] != quote()[0],
{
    reveal_strlit("\"");
}

/// The delimiter pattern starts with the one carriage return it contains:
/// the line break's tail, the dashes and the alphanumeric boundary all differ
/// from it, so the pattern cannot straddle its own start.
proof fn lemma_pre_delim_pattern(b: Seq<u8>)
    requires
        boundary_ok(b),
    ensures
        pre_delim(b).len() > 0,
        forall|t: int| 1 <= t < pre_delim(b).len() ==> #[trigger] pre_delim(b)[t] != pre_delim(b)[0],
{
    reveal_strlit("\r\n--");
    let pre = pre_delim(b);
    assert(pre[0] == ('\r' as u8));
    assert forall|t: int| 1 <= t < pre.len() implies #[trigger] pre[t] != pre[0] by {
        if t < 4 {
            assert(pre[t] == ascii_seq(("\r\n--")@)[t]);
        } else {
            assert(pre[t] == b[t - 4]);
            assert(is_alnum(b[t - 4]));
        }
    }
}

/// Round trip of the part list, by induction over the fields.
proof fn lemma_parse_parts_round_trip(
    fields: Seq<(Seq<u8>, Seq<u8>)>,
    f: Seq<u8>,
    p: Seq<u8>,
    b: Seq<u8>,
)
    requires
        boundary_ok(b),
        !occurs(f, quote()),
        !occurs(p, pre_delim(b)),
        forall|i: int|
            0 <= i < fields.len() ==> !occurs(#[trigger] fields[i].0, quote()) && !occurs(
                fields[i].1,
                pre_delim(b),
            ),
    ensures
        parse_parts(parts_of(fields, f, p, b), b) == Some((fields, f, p)),
    decreases fields.len(),
{
    reveal_strlit("\"");
    reveal_strlit("\r\n");
    reveal_strlit("\r\n\r\n");
    reveal_strlit("\r\n--");
    reveal_strlit("--\r\n");
    reveal_strlit("file");
    reveal_strlit("; filename=\"");
    reveal_strlit("\r\nContent-Type: video/mp4\r\n\r\n");
    reveal_strlit("Content-Disposition: form-data; name=\"");
    lemma_quote_pattern();
    lemma_pre_delim_pattern(b);
    if fields.len() == 0 {
        let s = parts_of(fields, f, p, b);
        let tail1 = ascii_seq(("file")@) + quote() + filename_marker() + f + quote()
            + content_type_marker() + p + pre_delim(b) + close_marker();
        assert(s =~= disp_prefix() + tail1);
        lemma_strip_concat(disp_prefix(), tail1);
        // the first quote closes the fixed name "file"
        assert(!occurs(ascii_seq(("file")@), quote())) by {
            lemma_occurs_single(ascii_seq(("file")@), ('"' as u8));
        }
        let tail2 = filename_marker() + f + quote() + content_type_marker() + p + pre_delim(b)
            + close_marker();
        assert(tail1 =~= ascii_seq(("file")@) + quote() + tail2);
        lemma_split_once_at(ascii_seq(("file")@), quote(), tail2);
        // the field branch is not taken: the marker starts with ';', not '\r'
        assert(tail2[0] == (';' as u8));
        lemma_strip_mismatch(tail2, crlf2());
        // filename
        let tail3 = f + quote() + content_type_marker() + p + pre_delim(b) + close_marker();
        assert(tail2 =~= filename_marker() + tail3);
        lemma_strip_concat(filename_marker(), tail3);
        let tail4 = content_type_marker() + p + pre_delim(b) + close_marker();
        assert(tail3 =~= f + quote() + tail4);
        lemma_split_once_at(f, quote(), tail4);
        let tail5 = p + pre_delim(b) + close_marker();
        assert(tail4 =~= content_type_marker() + tail5);
        lemma_strip_concat(content_type_marker(), tail5);
        lemma_split_once_at(p, pre_delim(b), close_marker());
        assert(parse_parts(s, b) == Some((Seq::<(Seq<u8>, Seq<u8>)>::empty(), f, p)));
        assert(fields =~= Seq::<(Seq<u8>, Seq<u8>)>::empty());
    } else {
        let n = fields[0].0;
        let v = fields[0].1;
        let rest = parts_of(fields.skip(1), f, p, b);
        let s = parts_of(fields, f, p, b);
        assert(s == field_part(n, v) + pre_delim(b) + crlf() + rest);
        let tail1 = n + quote() + crlf2() + v + pre_delim(b) + crlf() + rest;
        assert(s =~= disp_prefix() + tail1);
        lemma_strip_concat(disp_prefix(), tail1);
        let tail2 = crlf2() + v + pre_delim(b) + crlf() + rest;
        assert(tail1 =~= n + quote() + tail2);
        lemma_split_once_at(n, quote(), tail2);
        let tail3 = v + pre_delim(b) + crlf() + rest;
        assert(tail2 =~= crlf2() + tail3);
        lemma_strip_concat(crlf2(), tail3);
        assert(tail3 =~= v + pre_delim(b) + (crlf() + rest));
        lemma_split_once_at(v, pre_delim(b), crlf() + rest);
        lemma_strip_concat(crlf(), rest);
        assert(rest.len() < s.len()) by {
            assert(s.len() == disp_prefix().len() + tail1.len());
            assert(disp_prefix().len() > 0);
        }
        assert(forall|i: int|
            0 <= i < fields.skip(1).len() ==> !occurs(#[trigger] fields.skip(1)[i].0, quote())
                && !occurs(fields.skip(1)[i].1, pre_delim(b)));
        lemma_parse_parts_round_trip(fields.skip(1), f, p, b);
        assert(seq![(n, v)] + fields.skip(1) =~= fields);
    }
}

/// Multipart round trip: a generated body, read back with the grammar above
/// against its boundary, yields exactly the fixed fields, the filename and
/// the payload, byte for byte. Holds whenever the boundary is a non-empty
/// alphanumeric token that occurs in no field value and not in the payload,
/// and no field name or filename contains a quote.
pub proof fn lemma_multipart_round_trip(
    fields: Seq<(Seq<u8>, Seq<u8>)>,
    f: Seq<u8>,
    p: Seq<u8>,
    b: Seq<u8>,
)
    requires
        boundary_ok(b),
        !occurs(f, quote()),
        !occurs(p, pre_delim(b)),
        forall|i: int|
            0 <= i < fields.len() ==> !occurs(#[trigger] fields[i].0, quote()) && !occurs(
                fields[i].1,
                pre_delim(b),
            ),
    ensures
        parse_multipart(multipart_body(fields, f, p, b), b) == Some((fields, f, p)),
{
    lemma_strip_concat(open_delim(b), parts_of(fields, f, p, b));
    lemma_parse_parts_round_trip(fields, f, p, b);
}

/// One field part with the delimiter that follows it.
pub open spec fn field_chunk(n: Seq<u8>, v: Seq<u8>, b: Seq<u8>) -> Seq<u8> {
    field_part(n, v) + pre_delim(b) + crlf()
}

/// All field parts in order, each with its delimiter.
pub open spec fn chunks(fields: Seq<(Seq<u8>, Seq<u8>)>, b: Seq<u8>) -> Seq<u8>
    decreases fields.len(),
{
    if fields.len() == 0 {
        Seq::empty()
    } else {
        field_chunk(fields[0].0, fields[0].1, b) + chunks(fields.skip(1), b)
    }
}

proof fn lemma_chunks_snoc(fields: Seq<(Seq<u8>, Seq<u8>)>, x: (Seq<u8>, Seq<u8>), b: Seq<u8>)
    ensures
        chunks(fields.push(x), b) == chunks(fields, b) + field_chunk(x.0, x.1, b),
    decreases fields.len(),
{
    if fields.len() == 0 {
        assert(fields.push(x)[0] == x);
        assert(fields.push(x).skip(1) =~= fields);
        assert(chunks(fields, b) == Seq::<u8>::empty());
        assert(chunks(fields.push(x), b) =~= chunks(fields, b) + field_chunk(x.0, x.1, b));
    } else {
        assert(fields.push(x).skip(1) =~= fields.skip(1).push(x));
        lemma_chunks_snoc(fields.skip(1), x, b);
        assert(chunks(fields.push(x), b) =~= chunks(fields, b) + field_chunk(x.0, x.1, b));
    }
}

proof fn lemma_parts_decomp(fields: Seq<(Seq<u8>, Seq<u8>)>, f: Seq<u8>, p: Seq<u8>, b: Seq<u8>)
    ensures
        parts_of(fields, f, p, b) == chunks(fields, b) + file_part(f, p) + pre_delim(b)
            + close_marker(),
    decreases fields.len(),
{
    if fields.len() == 0 {
        assert(parts_of(fields, f, p, b) =~= chunks(fields, b) + file_part(f, p) + pre_delim(b)
            + close_marker());
    } else {
        lemma_parts_decomp(fields.skip(1), f, p, b);
        assert(parts_of(fields, f, p, b) =~= chunks(fields, b) + file_part(f, p) + pre_delim(b)
            + close_marker());
    }
}

/// Append a byte slice.
fn push_bytes(out: &mut Vec<u8>, v: &[u8])
    ensures
        final(out)@ == old(out)@ + v@,
{
    let ghost orig = out@;
    assert(orig + v@.subrange(0, 0) =~= orig);
    let mut i: usize = 0;
    while i < v.len()
        invariant
            i <= v.len(),
            out@ == orig + v@.subrange(0, i as int),
        decreases v.len() - i,
    {
        out.push(v[i]);
        proof {
            assert(v@.subrange(0, i as int + 1) =~= v@.subrange(0, i as int).push(v@[i as int]));
            assert(out@ =~= orig + v@.subrange(0, i as int + 1));
        }
        i = i + 1;
    }
    proof {
        assert(v@.subrange(0, v@.len() as int) =~= v@);
    }
}

/// Append an ASCII string's bytes.
fn push_ascii(out: &mut Vec<u8>, s: &str)
    requires
        is_ascii(s),
    ensures
        final(out)@ == old(out)@ + ascii_seq(s@),
{
    let ghost orig = out@;
    assert(orig + ascii_seq(s@).subrange(0, 0) =~= orig);
    let n = s.unicode_len();
    let mut i: usize = 0;
    while i < n
        invariant
            is_ascii(s),
            n == s@.len(),
            i <= n,
            out@ == orig + ascii_seq(s@).subrange(0, i as int),
        decreases n - i,
    {
        let c = s.get_ascii(i);
        out.push(c);
        proof {
            assert(ascii_seq(s@).subrange(0, i as int + 1) =~= ascii_seq(s@).subrange(
                0,
                i as int,
            ).push((s@[i as int]) as u8));
            assert(out@ =~= orig + ascii_seq(s@).subrange(0, i as int + 1));
        }
        i = i + 1;
    }
    proof {
        assert(ascii_seq(s@).subrange(0, s@.len() as int) =~= ascii_seq(s@));
    }
}

/// Build the `multipart/form-data` body for the fixed fields, the payload
/// bytes and the chosen boundary.
pub fn build_multipart_body(
    fields: &Vec<(Vec<u8>, Vec<u8>)>,
    filename: &Vec<u8>,
    payload: &Vec<u8>,
    boundary: &Vec<u8>,
) -> (r: Vec<u8>)
    ensures
        r@ == multipart_body(pairs_view(fields@), filename@, payload@, boundary@),
{
    proof {
        reveal_strlit("--");
        reveal_strlit("\r\n");
        reveal_strlit("\r\n--");
        reveal_strlit("\r\n\r\n");
        reveal_strlit("--\r\n");
        reveal_strlit("file");
        reveal_strlit("\"");
        reveal_strlit("; filename=\"");
        reveal_strlit("\r\nContent-Type: video/mp4\r\n\r\n");
        reveal_strlit("Content-Disposition: form-data; name=\"");
    }
    let ghost fv = pairs_view(fields@);
    let mut out: Vec<u8> = Vec::new();
    push_ascii(&mut out, "--");
    push_bytes(&mut out, boundary.as_slice());
    push_ascii(&mut out, "\r\n");
    proof {
        assert(out@ =~= open_delim(boundary@) + chunks(fv.subrange(0, 0), boundary@));
    }
    let mut i: usize = 0;
    while i < fields.len()
        invariant
            i <= fields.len(),
            fv == pairs_view(fields@),
            out@ == open_delim(boundary@) + chunks(fv.subrange(0, i as int), boundary@),
        decreases fields.len() - i,
    {
        proof {
            reveal_strlit("\r\n");
            reveal_strlit("\r\n--");
            reveal_strlit("\r\n\r\n");
            reveal_strlit("\"");
            reveal_strlit("Content-Disposition: form-data; name=\"");
        }
        push_ascii(&mut out, "Content-Disposition: form-data; name=\"");
        push_bytes(&mut out, fields[i].0.as_slice());
        push_ascii(&mut out, "\"");
        push_ascii(&mut out, "\r\n\r\n");
        push_bytes(&mut out, fields[i].1.as_slice());
        push_ascii(&mut out, "\r\n--");
        push_bytes(&mut out, boundary.as_slice());
        push_ascii(&mut out, "\r\n");
        proof {
            lemma_chunks_snoc(
                fv.subrange(0, i as int),
                (fields@[i as int].0@, fields@[i as int].1@),
                boundary@,
            );
            assert(fv.subrange(0, i as int + 1) =~= fv.subrange(0, i as int).push(
                (fields@[i as int].0@, fields@[i as int].1@),
            ));
            assert(out@ =~= open_delim(boundary@) + chunks(
                fv.subrange(0, i as int + 1),
                boundary@,
            ));
        }
        i = i + 1;
    }
    push_ascii(&mut out, "Content-Disposition: form-data; name=\"");
    push_ascii(&mut out, "file");
    push_ascii(&mut out, "\"");
    push_ascii(&mut out, "; filename=\"");
    push_bytes(&mut out, filename.as_slice());
    push_ascii(&mut out, "\"");
    push_ascii(&mut out, "\r\nContent-Type: video/mp4\r\n\r\n");
    push_bytes(&mut out, payload.as_slice());
    push_ascii(&mut out, "\r\n--");
    push_bytes(&mut out, boundary.as_slice());
    push_ascii(&mut out, "--\r\n");
    proof {
        assert(fv.subrange(0, fv.len() as int) =~= fv);
        lemma_parts_decomp(fv, filename@, payload@, boundary@);
        assert(out@ =~= open_delim(boundary@) + parts_of(fv, filename@, payload@, boundary@));
    }
    out
}

/// The value of the `Content-Type` header a multipart post carries.
pub fn multipart_content_type(boundary: &Vec<u8>) -> (r: Vec<u8>)
    ensures
        r@ == ascii_seq(("multipart/form-data; boundary=")@) + boundary@,
{
    proof {
        reveal_strlit("multipart/form-data; boundary=");
    }
    let mut out: Vec<u8> = Vec::new();
    push_ascii(&mut out, "multipart/form-data; boundary=");
    push_bytes(&mut out, boundary.as_slice());
    proof {
        assert(out@ =~= ascii_seq(("multipart/form-data; boundary=")@) + boundary@);
    }
    out
}

/// The alphanumeric image of one entropy byte.
pub open spec fn alnum_of(e: u8) -> u8 {
    let d = e as int % 62;
    if d < 10 {
        (('0' as u8) + d) as u8
    } else if d < 36 {
        (('A' as u8) + (d - 10)) as u8
    } else {
        (('a' as u8) + (d - 36)) as u8
    }
}

/// Shape caller-supplied entropy into a boundary token: one alphanumeric
/// byte per entropy byte. Callers pass at least 24 random bytes, making a
/// collision with payload content practically impossible (never validated —
/// an accepted risk).
pub fn boundary_from_entropy(entropy: &Vec<u8>) -> (r: Vec<u8>)
    requires
        entropy.len() >= 24,
    ensures
        r@ == entropy@.map_values(|e: u8| alnum_of(e)),
        boundary_ok(r@),
{
    let mut out: Vec<u8> = Vec::new();
    let mut i: usize = 0;
    while i < entropy.len()
        invariant
            i <= entropy.len(),
            out@ == entropy@.subrange(0, i as int).map_values(|e: u8| alnum_of(e)),
        decreases entropy.len() - i,
    {
        let e = entropy[i];
        let d = e % 62;
        let c: u8 = if d < 10 {
            ('0' as u8) + d
        } else if d < 36 {
            ('A' as u8) + (d - 10)
        } else {
            ('a' as u8) + (d - 36)
        };
        out.push(c);
        proof {
            assert(entropy@.subrange(0, i as int + 1).map_values(|e: u8| alnum_of(e))
                =~= entropy@.subrange(0, i as int).map_values(|e: u8| alnum_of(e)).push(
                alnum_of(entropy@[i as int]),
            ));
        }
        i = i + 1;
    }
    proof {
        assert(entropy@.subrange(0, entropy@.len() as int) =~= entropy@);
        assert forall|j: int| 0 <= j < out@.len() implies is_alnum(#[trigger] out@[j]) by {
            assert(out@[j] == alnum_of(entropy@[j]));
        }
    }
    out
}

} // verus!
