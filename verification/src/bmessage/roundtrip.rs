//! What parsing gives back of an encoded bMessage.
use vstd::prelude::*;

use crate::text::{
    all_digits, decimal, digit_char, digit_value, digits_value, is_digit, parse_usize_spec,
    sat_add, utf8_len,
};

use super::encode::{lemma_scan_nl_bounds, strip_cr};
use super::spec::{
    bbody_at, benv_at, body_fields_at, encode_bbody, encode_benv, encode_header, encode_spec, header_at, msg_at,
    msg_block_len, msg_budget, no_body_fields, no_header, parse_spec, status_of, BodyFields,
    HeaderView,
};
use super::spec::{
    crlf, crlf_lines, encode_vcard, encode_vcards, join_line, lines_len_from, msg_lines_at,
    recipients_at, scan_nl, text_lines, eol_at, is_key_stop, is_line_break, kv_at, line_at,
    marker_at, prefix_at, scan_eol, scan_key, vcard_at, vcard_body_at,
};
use super::types::{status_wire, BMessageView, BodyView, EnvelopeView, MessageStatus, VCardView};

verus! {

/// `x` holds no `\r` or `\n`.
pub open spec fn no_breaks(x: Seq<char>) -> bool {
    forall|k: int| 0 <= k < x.len() ==> !is_line_break(#[trigger] x[k])
}

/// `x` holds no `:`, `\r` or `\n`.
pub open spec fn no_key_stops(x: Seq<char>) -> bool {
    forall|k: int| 0 <= k < x.len() ==> !is_key_stop(#[trigger] x[k])
}

/// Splitting a text found at `i` into two consecutive parts.
pub proof fn lemma_prefix_split(s: Seq<char>, i: int, x: Seq<char>, y: Seq<char>)
    requires
        prefix_at(s, i, x + y),
    ensures
        prefix_at(s, i, x),
        prefix_at(s, i + x.len(), y),
{
    let w = s.subrange(i, i + x.len() + y.len());
    assert(w == x + y);
    assert(s.subrange(i, i + x.len()) =~= w.subrange(0, x.len() as int));
    assert(w.subrange(0, x.len() as int) =~= x);
    assert(s.subrange(i + x.len(), i + x.len() + y.len()) =~= w.subrange(
        x.len() as int,
        w.len() as int,
    ));
    assert(w.subrange(x.len() as int, w.len() as int) =~= y);
}

/// Two consecutive texts found at `i` make their concatenation.
pub proof fn lemma_prefix_join(s: Seq<char>, i: int, x: Seq<char>, y: Seq<char>)
    requires
        prefix_at(s, i, x),
        prefix_at(s, i + x.len(), y),
    ensures
        prefix_at(s, i, x + y),
{
    assert(s.subrange(i, i + x.len() + y.len()) =~= s.subrange(i, i + x.len()) + s.subrange(
        i + x.len(),
        i + x.len() + y.len(),
    ));
}

/// A character of a text found at `i`.
pub proof fn lemma_prefix_index(s: Seq<char>, i: int, x: Seq<char>, k: int)
    requires
        prefix_at(s, i, x),
        0 <= k < x.len(),
    ensures
        s[i + k] == x[k],
{
    assert(s.subrange(i, i + x.len())[k] == s[i + k]);
}

/// Two texts that differ at `k` cannot both be found at `i`.
pub proof fn lemma_not_prefix(s: Seq<char>, i: int, x: Seq<char>, y: Seq<char>, k: int)
    requires
        prefix_at(s, i, x),
        0 <= k < x.len(),
        k < y.len(),
        x[k] != y[k],
    ensures
        !prefix_at(s, i, y),
{
    lemma_prefix_index(s, i, x, k);
    if prefix_at(s, i, y) {
        lemma_prefix_index(s, i, y, k);
    }
}

proof fn lemma_scan_eol_over(s: Seq<char>, i: int, x: Seq<char>, j: int)
    requires
        prefix_at(s, i, x),
        no_breaks(x),
        i <= j <= i + x.len(),
    ensures
        scan_eol(s, j) == scan_eol(s, i + x.len()),
    decreases i + x.len() - j,
{
    if j < i + x.len() {
        lemma_prefix_index(s, i, x, j - i);
        lemma_scan_eol_over(s, i, x, j + 1);
    }
}

proof fn lemma_scan_key_over(s: Seq<char>, i: int, x: Seq<char>, j: int)
    requires
        prefix_at(s, i, x),
        no_key_stops(x),
        i <= j <= i + x.len(),
    ensures
        scan_key(s, j) == scan_key(s, i + x.len()),
    decreases i + x.len() - j,
{
    if j < i + x.len() {
        lemma_prefix_index(s, i, x, j - i);
        lemma_scan_key_over(s, i, x, j + 1);
    }
}

/// A CRLF found at `j`.
proof fn lemma_crlf_at(s: Seq<char>, j: int)
    requires
        prefix_at(s, j, "\r\n"@),
    ensures
        s[j] == '\r',
        s[j + 1] == '\n',
        scan_eol(s, j) == j,
        scan_key(s, j) == j,
        eol_at(s, j) == Some(j + 2),
{
    reveal_strlit("\r\n");
    lemma_prefix_index(s, j, "\r\n"@, 0);
    lemma_prefix_index(s, j, "\r\n"@, 1);
}

/// A CRLF-terminated line found at `i`.
pub proof fn lemma_line(s: Seq<char>, i: int, x: Seq<char>)
    requires
        prefix_at(s, i, crlf(x)),
        no_breaks(x),
    ensures
        line_at(s, i) == Some((i + x.len(), i + x.len() + 2)),
        s.subrange(i, i + x.len()) == x,
{
    lemma_prefix_split(s, i, x, "\r\n"@);
    lemma_scan_eol_over(s, i, x, i);
    lemma_crlf_at(s, i + x.len());
}

/// A marker line found at `i`.
pub proof fn lemma_marker(s: Seq<char>, i: int, p: Seq<char>)
    requires
        prefix_at(s, i, crlf(p)),
    ensures
        marker_at(s, i, p) == Some(i + p.len() + 2),
        prefix_at(s, i, p),
{
    lemma_prefix_split(s, i, p, "\r\n"@);
    lemma_crlf_at(s, i + p.len());
}

/// A `KEY:VALUE` line found at `i`, where `p` is the key followed by its colon.
pub proof fn lemma_kv(s: Seq<char>, i: int, p: Seq<char>, v: Seq<char>)
    requires
        prefix_at(s, i, crlf(p + v)),
        p.len() >= 2,
        p.last() == ':',
        no_key_stops(p.drop_last()),
        no_breaks(v),
    ensures
        kv_at(s, i) == Some(
            (i + p.len() - 1, i + p.len() + v.len(), i + p.len() + v.len() + 2),
        ),
        s.subrange(i, i + p.len() - 1) == p.drop_last(),
        s.subrange(i + p.len(), i + p.len() + v.len()) == v,
{
    let k = p.drop_last();
    assert(crlf(p + v) == k + (seq![':'] + crlf(v)));
    lemma_prefix_split(s, i, k, seq![':'] + crlf(v));
    lemma_prefix_split(s, i + k.len(), seq![':'], crlf(v));
    lemma_scan_key_over(s, i, k, i);
    lemma_prefix_index(s, i + k.len(), seq![':'], 0);
    lemma_line(s, i + p.len(), v);
}


/// The vCard fields survive encoding: they hold no line breaks.
pub open spec fn vcard_encodable(v: VCardView) -> bool {
    no_breaks(v.name) && no_breaks(v.tel)
}

/// A `KEY:VALUE` literal line split after its colon at `c`.
proof fn lemma_kv_literal(s: Seq<char>, i: int, lit: Seq<char>, c: int)
    requires
        prefix_at(s, i, crlf(lit)),
        1 <= c < lit.len(),
        lit[c] == ':',
        no_key_stops(lit.subrange(0, c)),
        no_breaks(lit.subrange(c + 1, lit.len() as int)),
    ensures
        kv_at(s, i) == Some((i + c, i + lit.len(), i + lit.len() + 2)),
        s.subrange(i, i + c) == lit.subrange(0, c),
        s.subrange(i + c + 1, i + lit.len()) == lit.subrange(c + 1, lit.len() as int),
{
    let p = lit.subrange(0, c + 1);
    let v = lit.subrange(c + 1, lit.len() as int);
    assert(p + v =~= lit);
    assert(p.drop_last() =~= lit.subrange(0, c));
    lemma_kv(s, i, p, v);
}

/// Parsing an encoded vCard gives it back and stops right after it.
pub proof fn lemma_parse_vcard(s: Seq<char>, i: int, v: VCardView)
    requires
        prefix_at(s, i, encode_vcard(v)),
        vcard_encodable(v),
    ensures
        vcard_at(s, i) == Ok::<_, super::types::BMessageErrorView>((v, i + encode_vcard(v).len())),
{
    reveal_strlit("BEGIN:VCARD");
    reveal_strlit("VERSION:3.0");
    reveal_strlit("N:");
    reveal_strlit("TEL:");
    reveal_strlit("END:VCARD");
    reveal_strlit("N");
    reveal_strlit("TEL");
    reveal_strlit("\r\n");
    let a = crlf("BEGIN:VCARD"@);
    let b = crlf("VERSION:3.0"@);
    let c = crlf("N:"@ + v.name);
    let d = crlf("TEL:"@ + v.tel);
    let e = crlf("END:VCARD"@);
    lemma_prefix_split(s, i, a + b + c + d, e);
    lemma_prefix_split(s, i, a + b + c, d);
    lemma_prefix_split(s, i, a + b, c);
    lemma_prefix_split(s, i, a, b);
    let i1 = i + a.len();
    let i2 = i1 + b.len();
    let i3 = i2 + c.len();
    let i4 = i3 + d.len();
    let i5 = i4 + e.len();
    lemma_marker(s, i, "BEGIN:VCARD"@);
    assert(marker_at(s, i, "BEGIN:VCARD"@) == Some(i1));
    let empty = Seq::<char>::empty();
    // VERSION:3.0
    assert(no_key_stops("VERSION:3.0"@.subrange(0, 7)));
    assert(no_breaks("VERSION:3.0"@.subrange(8, 11)));
    lemma_kv_literal(s, i1, "VERSION:3.0"@, 7);
    lemma_not_prefix(s, i1, b, "END:VCARD"@, 0);
    assert(s.subrange(i1, i1 + 7).len() == 7);
    assert("N"@.len() == 1);
    assert(s.subrange(i1, i1 + 7) != "N"@);
    assert(s.subrange(i1, i1 + 7) != "TEL"@);
    assert(vcard_body_at(s, i1, empty, empty) == vcard_body_at(s, i2, empty, empty));
    // N:name
    assert(no_key_stops(("N:"@ + v.name).subrange(0, 1)));
    assert(no_breaks(("N:"@ + v.name).subrange(2, ("N:"@ + v.name).len() as int)));
    lemma_kv_literal(s, i2, "N:"@ + v.name, 1);
    lemma_not_prefix(s, i2, c, "END:VCARD"@, 0);
    assert(s.subrange(i2, i2 + 1) =~= "N"@);
    assert(s.subrange(i2 + 2, i2 + 2 + v.name.len()) =~= v.name) by {
        lemma_prefix_split(s, i2, "N:"@ + v.name, "\r\n"@);
        lemma_prefix_split(s, i2, "N:"@, v.name);
    }
    assert(vcard_body_at(s, i2, empty, empty) == vcard_body_at(s, i3, v.name, empty));
    // TEL:tel
    assert(no_key_stops(("TEL:"@ + v.tel).subrange(0, 3)));
    assert(no_breaks(("TEL:"@ + v.tel).subrange(4, ("TEL:"@ + v.tel).len() as int)));
    lemma_kv_literal(s, i3, "TEL:"@ + v.tel, 3);
    lemma_not_prefix(s, i3, d, "END:VCARD"@, 0);
    assert(s.subrange(i3, i3 + 3) =~= "TEL"@);
    assert(s.subrange(i3, i3 + 3) != "N"@);
    assert(s.subrange(i3 + 4, i3 + 4 + v.tel.len()) =~= v.tel) by {
        lemma_prefix_split(s, i3, "TEL:"@ + v.tel, "\r\n"@);
        lemma_prefix_split(s, i3, "TEL:"@, v.tel);
    }
    assert(vcard_body_at(s, i3, v.name, empty) == vcard_body_at(s, i4, v.name, v.tel));
    // END:VCARD
    lemma_marker(s, i4, "END:VCARD"@);
    assert(vcard_body_at(s, i4, v.name, v.tel) == Ok::<_, super::types::BMessageErrorView>(
        (VCardView { name: v.name, tel: v.tel }, i5),
    ));
}


// ---------------------------------------------------------------------------------------------
// Recipient lists
// ---------------------------------------------------------------------------------------------

/// Every vCard of the list survives encoding.
pub open spec fn vcards_encodable(vs: Seq<VCardView>) -> bool {
    forall|k: int| 0 <= k < vs.len() ==> vcard_encodable(#[trigger] vs[k])
}

/// The encoding of a list starts with the encoding of its first vCard.
pub proof fn lemma_encode_vcards_front(v: VCardView, vs: Seq<VCardView>)
    ensures
        encode_vcards(seq![v] + vs) == encode_vcard(v) + encode_vcards(vs),
    decreases vs.len(),
{
    if vs.len() == 0 {
        assert((seq![v] + vs).drop_last() =~= Seq::<VCardView>::empty());
        assert((seq![v] + vs).last() == v);
        assert(encode_vcards(Seq::<VCardView>::empty()) == Seq::<char>::empty());
        assert(encode_vcards(seq![v] + vs) =~= encode_vcard(v) + encode_vcards(vs));
    } else {
        lemma_encode_vcards_front(v, vs.drop_last());
        assert((seq![v] + vs).drop_last() =~= seq![v] + vs.drop_last());
        assert((seq![v] + vs).last() == vs.last());
        assert(encode_vcards(seq![v] + vs) =~= encode_vcard(v) + encode_vcards(vs));
    }
}

/// Parsing the encodings of recipient vCards, followed by `BEGIN:BBODY`, gives them back.
pub proof fn lemma_parse_recipients(s: Seq<char>, i: int, vs: Seq<VCardView>, acc: Seq<VCardView>)
    requires
        prefix_at(s, i, encode_vcards(vs) + crlf("BEGIN:BBODY"@)),
        vcards_encodable(vs),
    ensures
        recipients_at(s, i, acc) == Ok::<_, super::types::BMessageErrorView>(
            (acc + vs, i + encode_vcards(vs).len()),
        ),
    decreases vs.len(),
{
    reveal_strlit("BEGIN:BBODY");
    reveal_strlit("BEGIN:VCARD");
    reveal_strlit("\r\n");
    if vs.len() == 0 {
        assert(encode_vcards(vs) =~= Seq::<char>::empty());
        assert(encode_vcards(vs) + crlf("BEGIN:BBODY"@) =~= crlf("BEGIN:BBODY"@));
        lemma_not_prefix(s, i, crlf("BEGIN:BBODY"@), "BEGIN:VCARD"@, 6);
        assert(acc + vs =~= acc);
    } else {
        let v = vs[0];
        let rest = vs.drop_first();
        assert(seq![v] + rest =~= vs);
        lemma_encode_vcards_front(v, rest);
        let tail = encode_vcards(rest) + crlf("BEGIN:BBODY"@);
        assert(encode_vcards(vs) + crlf("BEGIN:BBODY"@) =~= encode_vcard(v) + tail);
        lemma_prefix_split(s, i, encode_vcard(v), tail);
        assert(vcard_encodable(vs[0]));
        lemma_parse_vcard(s, i, v);
        let j = i + encode_vcard(v).len();
        assert(encode_vcard(v).len() > 0);
        assert(j <= s.len());
        assert forall|k: int| 0 <= k < rest.len() implies vcard_encodable(#[trigger] rest[k]) by {
            assert(rest[k] == vs[k + 1]);
        }
        lemma_parse_recipients(s, j, rest, acc.push(v));
        assert(acc.push(v) + rest =~= acc + vs);
    }
}

// ---------------------------------------------------------------------------------------------
// Decimal numbers
// ---------------------------------------------------------------------------------------------

proof fn lemma_digit_char(d: nat)
    requires
        d < 10,
    ensures
        is_digit(digit_char(d)),
        digit_value(digit_char(d)) == d,
{
}

/// A decimal spelling is non-empty, all digits, and worth the number spelled.
pub proof fn lemma_decimal(n: nat)
    ensures
        decimal(n).len() > 0,
        all_digits(decimal(n)),
        digits_value(decimal(n)) == n,
    decreases n,
{
    if n < 10 {
        lemma_digit_char(n);
        assert(decimal(n).drop_last() =~= Seq::<char>::empty());
        assert(decimal(n).last() == digit_char(n));
        assert(digits_value(Seq::<char>::empty()) == 0);
    } else {
        lemma_decimal(n / 10);
        lemma_digit_char(n % 10);
        let x = decimal(n / 10);
        assert(decimal(n).drop_last() =~= x);
        assert(decimal(n).last() == digit_char(n % 10));
        assert((n / 10) * 10 + n % 10 == n) by (nonlinear_arith);
        assert forall|k: int| 0 <= k < decimal(n).len() implies is_digit(#[trigger] decimal(n)[k]) by {
            if k < x.len() {
                assert(decimal(n)[k] == x[k]);
            }
        }
    }
}

/// Reading back a decimal spelling gives the number.
pub proof fn lemma_parse_decimal(n: usize)
    ensures
        parse_usize_spec(decimal(n as nat)) == Some(n),
{
    lemma_decimal(n as nat);
    assert(is_digit(decimal(n as nat)[0]));
}

// ---------------------------------------------------------------------------------------------
// Message text
// ---------------------------------------------------------------------------------------------

/// The joined text of several message lines, in order, onto `acc`.
pub open spec fn join_lines(acc: Seq<char>, ls: Seq<Seq<char>>) -> Seq<char>
    decreases ls.len(),
{
    if ls.len() == 0 {
        acc
    } else {
        join_lines(join_line(acc, ls[0]), ls.drop_first())
    }
}

/// The bytes the LENGTH field counts for lines: each line's UTF-8 length plus two.
pub open spec fn lines_bytes(ls: Seq<Seq<char>>) -> nat
    decreases ls.len(),
{
    if ls.len() == 0 {
        0
    } else {
        lines_bytes(ls.drop_last()) + utf8_len(ls.last()) + 2
    }
}

/// Every line of the list is free of line breaks.
pub open spec fn lines_clean(ls: Seq<Seq<char>>) -> bool {
    forall|k: int| 0 <= k < ls.len() ==> no_breaks(#[trigger] ls[k])
}

/// The LENGTH count does not saturate while the total fits.
pub proof fn lemma_lines_len_exact(ls: Seq<Seq<char>>, n: nat)
    requires
        n + lines_bytes(ls) <= usize::MAX,
    ensures
        lines_len_from(ls, n) == n + lines_bytes(ls),
    decreases ls.len(),
{
    if ls.len() > 0 {
        lemma_lines_len_exact(ls.drop_last(), n);
    }
}

/// CRLF lines and their byte count, split off the front.
pub proof fn lemma_lines_front(l: Seq<char>, ls: Seq<Seq<char>>)
    ensures
        crlf_lines(seq![l] + ls) == crlf(l) + crlf_lines(ls),
        lines_bytes(seq![l] + ls) == utf8_len(l) + 2 + lines_bytes(ls),
    decreases ls.len(),
{
    if ls.len() == 0 {
        assert((seq![l] + ls).drop_last() =~= Seq::<Seq<char>>::empty());
        assert((seq![l] + ls).last() == l);
        assert(crlf_lines(Seq::<Seq<char>>::empty()) == Seq::<char>::empty());
        assert(lines_bytes(Seq::<Seq<char>>::empty()) == 0);
        assert(crlf_lines(seq![l] + ls) =~= crlf(l) + crlf_lines(ls));
    } else {
        lemma_lines_front(l, ls.drop_last());
        assert((seq![l] + ls).drop_last() =~= seq![l] + ls.drop_last());
        assert((seq![l] + ls).last() == ls.last());
        assert(crlf_lines(seq![l] + ls) =~= crlf(l) + crlf_lines(ls));
    }
}

/// Reading the CRLF lines `ls` against a byte budget they exactly fill joins them onto `acc`.
pub proof fn lemma_parse_msg_lines(
    s: Seq<char>,
    i: int,
    ls: Seq<Seq<char>>,
    budget: nat,
    consumed: nat,
    acc: Seq<char>,
)
    requires
        prefix_at(s, i, crlf_lines(ls)),
        lines_clean(ls),
        consumed + lines_bytes(ls) == budget,
        budget <= usize::MAX,
    ensures
        msg_lines_at(s, i, budget, consumed, acc) == Ok::<_, super::types::BMessageErrorView>(
            (join_lines(acc, ls), i + crlf_lines(ls).len()),
        ),
    decreases ls.len(),
{
    reveal_strlit("\r\n");
    if ls.len() == 0 {
        assert(crlf_lines(ls) =~= Seq::<char>::empty());
    } else {
        let l = ls[0];
        let rest = ls.drop_first();
        assert(seq![l] + rest =~= ls);
        lemma_lines_front(l, rest);
        lemma_prefix_split(s, i, crlf(l), crlf_lines(rest));
        assert(no_breaks(ls[0]));
        lemma_line(s, i, l);
        let n = i + l.len() + 2;
        assert(n <= s.len()) by {
            assert(prefix_at(s, i, crlf(l)));
        }
        assert(lines_clean(rest)) by {
            assert forall|k: int| 0 <= k < rest.len() implies no_breaks(#[trigger] rest[k]) by {
                assert(rest[k] == ls[k + 1]);
            }
        }
        assert(sat_add(consumed, sat_add(utf8_len(l), 2)) == consumed + utf8_len(l) + 2);
        lemma_parse_msg_lines(s, n, rest, budget, consumed + utf8_len(l) + 2, join_line(acc, l));
    }
}

/// Lines of a text free of `\r` are free of line breaks.
pub proof fn lemma_text_lines_clean(t: Seq<char>)
    requires
        forall|k: int| 0 <= k < t.len() ==> t[k] != '\r',
    ensures
        lines_clean(text_lines(t)),
    decreases t.len(),
{
    if t.len() > 0 {
        lemma_scan_nl_bounds(t, 0);
        let k = scan_nl(t, 0);
        if k < t.len() {
            let r = t.subrange(k + 1, t.len() as int);
            lemma_text_lines_clean(r);
            let l = t.subrange(0, k);
            assert(strip_cr(l) == l);
            assert(no_breaks(l));
            let ls = text_lines(t);
            assert(ls == seq![l] + text_lines(r));
            assert forall|j: int| 0 <= j < ls.len() implies no_breaks(#[trigger] ls[j]) by {
                if j > 0 {
                    assert(ls[j] == text_lines(r)[j - 1]);
                }
            }
        } else {
            assert(no_breaks(t));
            assert(text_lines(t) == seq![t]);
        }
    }
}

proof fn lemma_join_rest(acc: Seq<char>, r: Seq<char>)
    requires
        acc.len() > 0,
        r.len() > 0,
        r.last() != '\n',
        forall|k: int| 0 <= k < r.len() ==> r[k] != '\r',
    ensures
        join_lines(acc, text_lines(r)) == acc.push('\n') + r,
    decreases r.len(),
{
    lemma_scan_nl_bounds(r, 0);
    let k = scan_nl(r, 0);
    if k < r.len() {
        let l = r.subrange(0, k);
        let r2 = r.subrange(k + 1, r.len() as int);
        assert(strip_cr(l) == l);
        assert(k + 1 < r.len());
        lemma_join_rest(acc.push('\n') + l, r2);
        let ls = text_lines(r);
        assert(ls == seq![l] + text_lines(r2));
        assert(ls[0] == l);
        assert(ls.drop_first() =~= text_lines(r2));
        assert(join_line(acc, l) == acc.push('\n') + l);
        assert(join_lines(acc, ls) == join_lines(acc.push('\n') + l, text_lines(r2)));
        assert(r =~= l.push('\n') + r2);
        assert((acc.push('\n') + l).push('\n') + r2 =~= acc.push('\n') + r);
    } else {
        let ls = text_lines(r);
        assert(ls == seq![r]);
        assert(ls[0] == r);
        assert(ls.drop_first() =~= Seq::<Seq<char>>::empty());
        assert(join_line(acc, r) == acc.push('\n') + r);
        assert(join_lines(acc, ls) == join_lines(acc.push('\n') + r, Seq::empty()));
    }
}

/// Joining the lines of a text gives the text back, when it holds no `\r` and neither starts
/// nor ends with `\n`.
pub proof fn lemma_join_text(t: Seq<char>)
    requires
        forall|k: int| 0 <= k < t.len() ==> t[k] != '\r',
        t.len() > 0 ==> t[0] != '\n' && t.last() != '\n',
    ensures
        join_lines(Seq::empty(), text_lines(t)) == t,
{
    if t.len() > 0 {
        lemma_scan_nl_bounds(t, 0);
        let k = scan_nl(t, 0);
        let ls = text_lines(t);
        if k < t.len() {
            let l = t.subrange(0, k);
            let r = t.subrange(k + 1, t.len() as int);
            assert(strip_cr(l) == l);
            assert(k > 0);
            assert(k + 1 < t.len());
            lemma_join_rest(l, r);
            assert(ls == seq![l] + text_lines(r));
            assert(ls[0] == l);
            assert(ls.drop_first() =~= text_lines(r));
            assert(join_line(Seq::empty(), l) == l);
            assert(join_lines(Seq::empty(), ls) == join_lines(l, text_lines(r)));
            assert(t =~= l.push('\n') + r);
        } else {
            assert(ls == seq![t]);
            assert(ls[0] == t);
            assert(ls.drop_first() =~= Seq::<Seq<char>>::empty());
            assert(join_line(Seq::empty(), t) == t);
            assert(join_lines(Seq::empty(), ls) == join_lines(t, Seq::empty()));
        }
    } else {
        assert(text_lines(t) == Seq::<Seq<char>>::empty());
    }
}


// ---------------------------------------------------------------------------------------------
// Body, header and whole message
// ---------------------------------------------------------------------------------------------

/// A message text survives encoding: no `\r`, no `\n` at either end, and a LENGTH that fits
/// in a `usize`.
pub open spec fn text_encodable(t: Seq<char>) -> bool {
    &&& forall|k: int| 0 <= k < t.len() ==> t[k] != '\r'
    &&& t.len() > 0 ==> t[0] != '\n' && t.last() != '\n'
    &&& 20 + lines_bytes(text_lines(t)) <= usize::MAX
}

/// A BBODY section survives encoding.
pub open spec fn body_encodable(b: BodyView) -> bool {
    &&& no_breaks(b.encoding)
    &&& no_breaks(b.charset)
    &&& no_breaks(b.language)
    &&& text_encodable(b.text)
}

/// The value part of `lit + v` after a literal.
proof fn lemma_value_part(lit: Seq<char>, v: Seq<char>)
    ensures
        (lit + v).subrange(lit.len() as int, (lit + v).len() as int) == v,
        (lit + v).subrange(0, lit.len() as int) == lit,
{
    assert((lit + v).subrange(lit.len() as int, (lit + v).len() as int) =~= v);
    assert((lit + v).subrange(0, lit.len() as int) =~= lit);
}

/// Literal property keys free of key stops.
proof fn lemma_key_part(lit: Seq<char>, v: Seq<char>, c: int)
    requires
        0 <= c <= lit.len(),
        no_key_stops(lit.subrange(0, c)),
    ensures
        no_key_stops((lit + v).subrange(0, c)),
{
    assert((lit + v).subrange(0, c) =~= lit.subrange(0, c));
}

/// Values after a literal are free of line breaks when `v` is.
proof fn lemma_value_clean(lit: Seq<char>, v: Seq<char>)
    requires
        no_breaks(v),
    ensures
        no_breaks((lit + v).subrange(lit.len() as int, (lit + v).len() as int)),
{
    lemma_value_part(lit, v);
}

/// Parsing an encoded BBODY section gives it back and stops right after it.
#[verifier::rlimit(40)]
pub proof fn lemma_parse_bbody(s: Seq<char>, i: int, b: BodyView)
    requires
        prefix_at(s, i, encode_bbody(b)),
        body_encodable(b),
    ensures
        bbody_at(s, i) == Ok::<_, super::types::BMessageErrorView>((b, i + encode_bbody(b).len())),
{
    reveal_strlit("BEGIN:BBODY");
    reveal(encode_bbody);
    reveal_strlit("ENCODING:");
    reveal_strlit("CHARSET:");
    reveal_strlit("LANGUAGE:");
    reveal_strlit("LENGTH:");
    reveal_strlit("BEGIN:MSG");
    reveal_strlit("END:MSG");
    reveal_strlit("END:BBODY");
    reveal_strlit("ENCODING");
    reveal_strlit("CHARSET");
    reveal_strlit("LANGUAGE");
    reveal_strlit("LENGTH");
    reveal_strlit("\r\n");
    let ls = text_lines(b.text);
    lemma_lines_len_exact(ls, 11);
    let n = msg_block_len(b.text);
    assert(n == 20 + lines_bytes(ls));
    lemma_decimal(n);
    let p1 = crlf("BEGIN:BBODY"@);
    let p2 = crlf("ENCODING:"@ + b.encoding);
    let p3 = crlf("CHARSET:"@ + b.charset);
    let p4 = crlf("LANGUAGE:"@ + b.language);
    let p5 = crlf("LENGTH:"@ + decimal(n));
    let p6 = crlf("BEGIN:MSG"@);
    let p7 = crlf_lines(ls);
    let p8 = crlf("END:MSG"@);
    let p9 = crlf("END:BBODY"@);
    assert(encode_bbody(b) == p1 + p2 + p3 + p4 + p5 + p6 + p7 + p8 + p9);
    lemma_prefix_split(s, i, p1 + p2 + p3 + p4 + p5 + p6 + p7 + p8, p9);
    lemma_prefix_split(s, i, p1 + p2 + p3 + p4 + p5 + p6 + p7, p8);
    lemma_prefix_split(s, i, p1 + p2 + p3 + p4 + p5 + p6, p7);
    lemma_prefix_split(s, i, p1 + p2 + p3 + p4 + p5, p6);
    lemma_prefix_split(s, i, p1 + p2 + p3 + p4, p5);
    lemma_prefix_split(s, i, p1 + p2 + p3, p4);
    lemma_prefix_split(s, i, p1 + p2, p3);
    lemma_prefix_split(s, i, p1, p2);
    let i1 = i + p1.len();
    let i2 = i1 + p2.len();
    let i3 = i2 + p3.len();
    let i4 = i3 + p4.len();
    let i5 = i4 + p5.len();
    let i6 = i5 + p6.len();
    let i7 = i6 + p7.len();
    let i8 = i7 + p8.len();
    let i9 = i8 + p9.len();
    lemma_marker(s, i, "BEGIN:BBODY"@);
    let f0 = no_body_fields();
    // ENCODING
    lemma_key_part("ENCODING:"@, b.encoding, 8);
    lemma_value_clean("ENCODING:"@, b.encoding);
    lemma_kv_literal(s, i1, "ENCODING:"@ + b.encoding, 8);
    lemma_value_part("ENCODING:"@, b.encoding);
    lemma_not_prefix(s, i1, p2, "BEGIN:MSG"@, 0);
    assert(s.subrange(i1, i1 + 8) =~= "ENCODING"@);
    let f1 = BodyFields { encoding: b.encoding, ..f0 };
    assert(body_fields_at(s, i1, f0) == body_fields_at(s, i2, f1));
    // CHARSET
    lemma_key_part("CHARSET:"@, b.charset, 7);
    lemma_value_clean("CHARSET:"@, b.charset);
    lemma_kv_literal(s, i2, "CHARSET:"@ + b.charset, 7);
    lemma_value_part("CHARSET:"@, b.charset);
    lemma_not_prefix(s, i2, p3, "BEGIN:MSG"@, 0);
    assert(s.subrange(i2, i2 + 7) =~= "CHARSET"@);
    assert(s.subrange(i2, i2 + 7).len() != "ENCODING"@.len());
    let f2 = BodyFields { charset: b.charset, ..f1 };
    assert(body_fields_at(s, i2, f1) == body_fields_at(s, i3, f2));
    // LANGUAGE
    lemma_key_part("LANGUAGE:"@, b.language, 8);
    lemma_value_clean("LANGUAGE:"@, b.language);
    lemma_kv_literal(s, i3, "LANGUAGE:"@ + b.language, 8);
    lemma_value_part("LANGUAGE:"@, b.language);
    lemma_not_prefix(s, i3, p4, "BEGIN:MSG"@, 0);
    assert(s.subrange(i3, i3 + 8) =~= "LANGUAGE"@);
    assert("LANGUAGE"@[0] != "ENCODING"@[0]);
    assert(s.subrange(i3, i3 + 8) != "ENCODING"@);
    assert(s.subrange(i3, i3 + 8).len() != "CHARSET"@.len());
    let f3 = BodyFields { language: b.language, ..f2 };
    assert(body_fields_at(s, i3, f2) == body_fields_at(s, i4, f3));
    // LENGTH
    assert(no_breaks(decimal(n))) by {
        assert forall|k: int| 0 <= k < decimal(n).len() implies !is_line_break(
            #[trigger] decimal(n)[k],
        ) by {
            assert(is_digit(decimal(n)[k]));
        }
    }
    lemma_key_part("LENGTH:"@, decimal(n), 6);
    lemma_value_clean("LENGTH:"@, decimal(n));
    lemma_kv_literal(s, i4, "LENGTH:"@ + decimal(n), 6);
    lemma_value_part("LENGTH:"@, decimal(n));
    lemma_not_prefix(s, i4, p5, "BEGIN:MSG"@, 0);
    assert(s.subrange(i4, i4 + 6) =~= "LENGTH"@);
    assert(s.subrange(i4, i4 + 6).len() != "ENCODING"@.len());
    assert(s.subrange(i4, i4 + 6).len() != "CHARSET"@.len());
    assert(s.subrange(i4, i4 + 6).len() != "LANGUAGE"@.len());
    lemma_parse_decimal(n as usize);
    let f4 = BodyFields { length: Some(n as usize), ..f3 };
    assert(body_fields_at(s, i4, f3) == body_fields_at(s, i5, f4));
    // BEGIN:MSG
    lemma_marker(s, i5, "BEGIN:MSG"@);
    assert(body_fields_at(s, i5, f4) == Ok::<_, super::types::BMessageErrorView>((f4, i5)));
    // message lines
    lemma_text_lines_clean(b.text);
    lemma_parse_msg_lines(s, i6, ls, lines_bytes(ls), 0, Seq::empty());
    lemma_join_text(b.text);
    assert(msg_budget(n as usize) == lines_bytes(ls));
    lemma_marker(s, i7, "END:MSG"@);
    assert(msg_at(s, i5, n as usize) == Ok::<_, super::types::BMessageErrorView>((b.text, i8)));
    lemma_marker(s, i8, "END:BBODY"@);
}

/// What the header of a message reads as.
pub open spec fn header_of(m: BMessageView) -> HeaderView {
    HeaderView {
        status: Some(m.status),
        has_type: true,
        folder: Some(m.folder),
        originator: m.originator,
    }
}

/// A message survives encoding: none of its one-line fields holds a line break and its text
/// is encodable.
pub open spec fn encodable(m: BMessageView) -> bool {
    &&& no_breaks(m.folder)
    &&& m.originator matches Some(v) ==> vcard_encodable(v)
    &&& vcards_encodable(m.envelope.recipients)
    &&& body_encodable(m.envelope.body)
}

/// Parsing an encoded header gives its fields and stops at `BEGIN:BENV`.
#[verifier::rlimit(40)]
pub proof fn lemma_parse_header(s: Seq<char>, i: int, m: BMessageView)
    requires
        prefix_at(s, i, encode_header(m) + crlf("BEGIN:BENV"@)),
        encodable(m),
    ensures
        header_at(s, i, no_header()) == Ok::<_, super::types::BMessageErrorView>(
            (header_of(m), i + encode_header(m).len()),
        ),
{
    reveal(encode_header);
    reveal_strlit("VERSION:1.0");
    reveal_strlit("STATUS:");
    reveal_strlit("TYPE:");
    reveal_strlit("SMS_GSM");
    reveal_strlit("FOLDER:");
    reveal_strlit("BEGIN:VCARD");
    reveal_strlit("BEGIN:BENV");
    reveal_strlit("END:BMSG");
    reveal_strlit("STATUS");
    reveal_strlit("TYPE");
    reveal_strlit("FOLDER");
    reveal_strlit("READ");
    reveal_strlit("UNREAD");
    reveal_strlit("\r\n");
    let q1 = crlf("VERSION:1.0"@);
    let q2 = crlf("STATUS:"@ + status_wire(m.status));
    let q3 = crlf("TYPE:"@ + "SMS_GSM"@);
    let q4 = crlf("FOLDER:"@ + m.folder);
    let q5 = match m.originator {
        Some(v) => encode_vcard(v),
        None => Seq::<char>::empty(),
    };
    let q6 = crlf("BEGIN:BENV"@);
    assert(encode_header(m) + q6 == q1 + q2 + q3 + q4 + q5 + q6);
    lemma_prefix_split(s, i, q1 + q2 + q3 + q4 + q5, q6);
    lemma_prefix_split(s, i, q1 + q2 + q3 + q4, q5);
    assert(q1 + q2 + q3 + q4 + q5 + q6 == (q1 + q2 + q3 + q4) + (q5 + q6));
    lemma_prefix_split(s, i, q1 + q2 + q3 + q4, q5 + q6);
    lemma_prefix_split(s, i, q1 + q2 + q3, q4);
    lemma_prefix_split(s, i, q1 + q2, q3);
    lemma_prefix_split(s, i, q1, q2);
    let i1 = i + q1.len();
    let i2 = i1 + q2.len();
    let i3 = i2 + q3.len();
    let i4 = i3 + q4.len();
    let i5 = i4 + q5.len();
    let h0 = no_header();
    // VERSION:1.0
    assert(no_key_stops("VERSION:1.0"@.subrange(0, 7)));
    assert(no_breaks("VERSION:1.0"@.subrange(8, 11)));
    lemma_kv_literal(s, i, "VERSION:1.0"@, 7);
    lemma_not_prefix(s, i, q1, "BEGIN:VCARD"@, 0);
    lemma_not_prefix(s, i, q1, "BEGIN:BENV"@, 0);
    lemma_not_prefix(s, i, q1, "END:BMSG"@, 0);
    assert(s.subrange(i, i + 7).len() != "STATUS"@.len());
    assert(s.subrange(i, i + 7).len() != "TYPE"@.len());
    assert(s.subrange(i, i + 7).len() != "FOLDER"@.len());
    assert(header_at(s, i, h0) == header_at(s, i1, h0));
    // STATUS
    let sw = status_wire(m.status);
    assert(no_breaks(sw));
    lemma_key_part("STATUS:"@, sw, 6);
    lemma_value_clean("STATUS:"@, sw);
    lemma_kv_literal(s, i1, "STATUS:"@ + sw, 6);
    lemma_value_part("STATUS:"@, sw);
    lemma_not_prefix(s, i1, q2, "BEGIN:VCARD"@, 0);
    lemma_not_prefix(s, i1, q2, "BEGIN:BENV"@, 0);
    lemma_not_prefix(s, i1, q2, "END:BMSG"@, 0);
    assert(s.subrange(i1, i1 + 6) =~= "STATUS"@);
    assert(status_of(sw) == Some(m.status));
    let h1 = HeaderView { status: Some(m.status), ..h0 };
    assert(header_at(s, i1, h0) == header_at(s, i2, h1));
    // TYPE
    assert(no_breaks("SMS_GSM"@));
    lemma_key_part("TYPE:"@, "SMS_GSM"@, 4);
    lemma_value_clean("TYPE:"@, "SMS_GSM"@);
    lemma_kv_literal(s, i2, "TYPE:"@ + "SMS_GSM"@, 4);
    lemma_value_part("TYPE:"@, "SMS_GSM"@);
    lemma_not_prefix(s, i2, q3, "BEGIN:VCARD"@, 0);
    lemma_not_prefix(s, i2, q3, "BEGIN:BENV"@, 0);
    lemma_not_prefix(s, i2, q3, "END:BMSG"@, 0);
    assert(s.subrange(i2, i2 + 4) =~= "TYPE"@);
    assert(s.subrange(i2, i2 + 4).len() != "STATUS"@.len());
    let h2 = HeaderView { has_type: true, ..h1 };
    assert(header_at(s, i2, h1) == header_at(s, i3, h2));
    // FOLDER
    lemma_key_part("FOLDER:"@, m.folder, 6);
    lemma_value_clean("FOLDER:"@, m.folder);
    lemma_kv_literal(s, i3, "FOLDER:"@ + m.folder, 6);
    lemma_value_part("FOLDER:"@, m.folder);
    lemma_not_prefix(s, i3, q4, "BEGIN:VCARD"@, 0);
    lemma_not_prefix(s, i3, q4, "BEGIN:BENV"@, 0);
    lemma_not_prefix(s, i3, q4, "END:BMSG"@, 0);
    assert(s.subrange(i3, i3 + 6) =~= "FOLDER"@);
    assert(s.subrange(i3, i3 + 6)[0] != "STATUS"@[0]);
    assert(s.subrange(i3, i3 + 6) != "STATUS"@);
    assert(s.subrange(i3, i3 + 6).len() != "TYPE"@.len());
    let h3 = HeaderView { folder: Some(m.folder), ..h2 };
    assert(header_at(s, i3, h2) == header_at(s, i4, h3));
    // originator
    let h4 = HeaderView { originator: m.originator, ..h3 };
    match m.originator {
        Some(v) => {
            assert(q5 == encode_vcard(v));
            let rest = crlf("VERSION:3.0"@) + crlf("N:"@ + v.name) + crlf("TEL:"@ + v.tel) + crlf(
                "END:VCARD"@,
            );
            assert(encode_vcard(v) == crlf("BEGIN:VCARD"@) + rest);
            lemma_prefix_split(s, i4, crlf("BEGIN:VCARD"@), rest);
            lemma_marker(s, i4, "BEGIN:VCARD"@);
            lemma_parse_vcard(s, i4, v);
            assert(header_at(s, i4, h3) == header_at(s, i5, h4));
        },
        None => {
            assert(h4 == h3);
        },
    }
    // BEGIN:BENV
    lemma_marker(s, i5, "BEGIN:BENV"@);
    lemma_not_prefix(s, i5, q6, "BEGIN:VCARD"@, 6);
    assert(header_at(s, i5, h4) == Ok::<_, super::types::BMessageErrorView>((h4, i5)));
    assert(h4 == header_of(m));
}


/// An encoded BBODY section starts with its `BEGIN:BBODY` line.
proof fn lemma_bbody_starts(s: Seq<char>, i: int, b: BodyView)
    requires
        prefix_at(s, i, encode_bbody(b)),
    ensures
        prefix_at(s, i, crlf("BEGIN:BBODY"@)),
{
    reveal(encode_bbody);
    let bb = encode_bbody(b);
    let n = crlf("BEGIN:BBODY"@).len();
    assert(bb.subrange(0, n as int) =~= crlf("BEGIN:BBODY"@));
    assert(bb =~= crlf("BEGIN:BBODY"@) + bb.subrange(n as int, bb.len() as int));
    lemma_prefix_split(s, i, crlf("BEGIN:BBODY"@), bb.subrange(n as int, bb.len() as int));
}

/// Parsing an encoded BENV section gives it back and stops right after it.
pub proof fn lemma_parse_benv(s: Seq<char>, k: int, env: EnvelopeView)
    requires
        prefix_at(s, k, encode_benv(env)),
        vcards_encodable(env.recipients),
        body_encodable(env.body),
    ensures
        benv_at(s, k) == Ok::<_, super::types::BMessageErrorView>(
            (env, k + encode_benv(env).len()),
        ),
{
    reveal(encode_benv);
    reveal_strlit("BEGIN:BENV");
    reveal_strlit("END:BENV");
    reveal_strlit("\r\n");
    let b = crlf("BEGIN:BENV"@);
    let r = encode_vcards(env.recipients);
    let bb = encode_bbody(env.body);
    let c = crlf("END:BENV"@);
    lemma_prefix_split(s, k, b + r + bb, c);
    lemma_prefix_split(s, k, b + r, bb);
    lemma_prefix_split(s, k, b, r);
    lemma_marker(s, k, "BEGIN:BENV"@);
    let j = k + b.len();
    let jb = j + r.len();
    lemma_bbody_starts(s, jb, env.body);
    lemma_prefix_join(s, j, r, crlf("BEGIN:BBODY"@));
    lemma_parse_recipients(s, j, env.recipients, Seq::empty());
    lemma_parse_bbody(s, jb, env.body);
    let jc = jb + bb.len();
    lemma_marker(s, jc, "END:BENV"@);
    assert(Seq::<VCardView>::empty() + env.recipients =~= env.recipients);
}

/// Where each section of an encoded message is read.
proof fn lemma_roundtrip_sections(m: BMessageView)
    requires
        encodable(m),
    ensures
        ({
            let s = encode_spec(m);
            let i1 = crlf("BEGIN:BMSG"@).len() as int;
            let k = i1 + encode_header(m).len();
            let jd = k + encode_benv(m.envelope).len();
            &&& marker_at(s, 0, "BEGIN:BMSG"@) == Some(i1)
            &&& header_at(s, i1, no_header()) == Ok::<_, super::types::BMessageErrorView>(
                (header_of(m), k),
            )
            &&& benv_at(s, k) == Ok::<_, super::types::BMessageErrorView>((m.envelope, jd))
            &&& marker_at(s, jd, "END:BMSG"@) is Some
        }),
{
    reveal_strlit("BEGIN:BMSG");
    reveal_strlit("BEGIN:BENV");
    reveal_strlit("END:BMSG");
    reveal_strlit("\r\n");
    let s = encode_spec(m);
    let a = crlf("BEGIN:BMSG"@);
    let h = encode_header(m);
    let e = encode_benv(m.envelope);
    let d = crlf("END:BMSG"@);
    assert(prefix_at(s, 0, s)) by {
        assert(s.subrange(0, s.len() as int) =~= s);
    }
    lemma_prefix_split(s, 0, a + h + e, d);
    lemma_prefix_split(s, 0, a + h, e);
    lemma_prefix_split(s, 0, a, h);
    lemma_marker(s, 0, "BEGIN:BMSG"@);
    let i1 = a.len() as int;
    let k = i1 + h.len();
    let b = crlf("BEGIN:BENV"@);
    let r = encode_vcards(m.envelope.recipients);
    let bb = encode_bbody(m.envelope.body);
    assert(prefix_at(s, k, b)) by {
        reveal(encode_benv);
        lemma_prefix_split(s, k, b + r + bb, crlf("END:BENV"@));
        lemma_prefix_split(s, k, b + r, bb);
        lemma_prefix_split(s, k, b, r);
    }
    lemma_prefix_join(s, i1, h, crlf("BEGIN:BENV"@));
    lemma_parse_header(s, i1, m);
    lemma_parse_benv(s, k, m.envelope);
    let jd = k + e.len();
    lemma_marker(s, jd, "END:BMSG"@);
}

/// Encoding then parsing a message gives the same message back, whenever its one-line fields
/// hold no line breaks and its text holds no `\r`, neither starts nor ends with `\n`, and has a
/// LENGTH that fits in a `usize`.
pub proof fn lemma_encode_parse_roundtrip(m: BMessageView)
    requires
        encodable(m),
    ensures
        parse_spec(encode_spec(m)) == Ok::<_, super::types::BMessageErrorView>(m),
{
    lemma_roundtrip_sections(m);
}

} // verus!
