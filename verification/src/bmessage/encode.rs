//! bMessage encoder: produces the CRLF-terminated wire format.
use vstd::prelude::*;

use crate::text::{
    lemma_sat_add_capped, push_chars, push_decimal, str_to_chars, utf8_len, utf8_len_of,
};

use super::spec::{
    crlf, crlf_lines, encode_bbody, encode_benv, encode_header, encode_spec, encode_vcard,
    encode_vcards, lines_len_from,
    msg_block_len, scan_nl, text_lines,
};
use super::types::{status_wire, BBody, BEnvelope, BMessage, BVCard, MessageType, VCardView};

verus! {

/// The character sequences held by a vector of lines.
pub open spec fn lines_view(ls: Seq<Vec<char>>) -> Seq<Seq<char>> {
    ls.map_values(|l: Vec<char>| l@)
}

impl BMessage {
    /// Encodes the message with CRLF line endings throughout. LENGTH is the UTF-8 byte count of
    /// the CRLF `BEGIN:MSG…END:MSG` block; iOS rejects LF-only lengths.
    pub fn encode(&self) -> (res: String)
        ensures
            res@ == encode_spec(self@),
    {
        let mut out = String::new();
        line(&mut out, "BEGIN:BMSG");
        self.encode_header_into(&mut out);
        encode_envelope(&mut out, self.envelope());
        line(&mut out, "END:BMSG");
        assert(out@ =~= encode_spec(self@));
        out
    }
}

impl BMessage {
    /// Appends the header lines, from `VERSION` to the originator.
    fn encode_header_into(&self, out: &mut String)
        ensures
            final(out)@ == old(out)@ + encode_header(self@),
    {
        line(out, "VERSION:1.0");
        line_kv(out, "STATUS:", self.status().as_str());
        line_kv(out, "TYPE:", MessageType::as_str());
        line_kv(out, "FOLDER:", self.folder());
        let ghost head = out@;
        let ghost m = self@;
        match self.originator() {
            Some(orig) => encode_one_vcard(out, orig),
            None => {},
        }
        let ghost orig_part = match m.originator {
            Some(v) => encode_vcard(v),
            None => Seq::<char>::empty(),
        };
        assert(out@ =~= head + orig_part);
        reveal(encode_header);
        assert(final(out)@ =~= old(out)@ + encode_header(m));
    }
}

/// Appends the encoding of a BENV section.
fn encode_envelope(out: &mut String, env: &BEnvelope)
    ensures
        final(out)@ == old(out)@ + encode_benv(env@),
{
    line(out, "BEGIN:BENV");
    let ghost before_recips = out@;
    let mut k: usize = 0;
    while k < env.recipients.len()
        invariant
            k <= env.recipients@.len(),
            out@ == before_recips + encode_vcards(
                env.recipients@.take(k as int).map_values(|v: BVCard| v@),
            ),
        decreases env.recipients.len() - k,
    {
        encode_one_vcard(out, &env.recipients[k]);
        k = k + 1;
        assert(env.recipients@.take(k as int).map_values(|v: BVCard| v@).drop_last()
            =~= env.recipients@.take(k - 1).map_values(|v: BVCard| v@));
    }
    assert(env.recipients@.take(k as int) == env.recipients@);
    let ghost after_recips = out@;
    encode_body(out, &env.body);
    line(out, "END:BENV");
    reveal(encode_benv);
    assert(final(out)@ =~= old(out)@ + encode_benv(env@));
}

/// Appends `s` and a CRLF.
fn line(out: &mut String, s: &str)
    ensures
        final(out)@ == old(out)@ + crlf(s@),
{
    out.append(s);
    out.append("\r\n");
    assert(final(out)@ =~= old(out)@ + crlf(s@));
}

/// Appends `key`, `value` and a CRLF.
fn line_kv(out: &mut String, key: &str, value: &str)
    ensures
        final(out)@ == old(out)@ + crlf(key@ + value@),
{
    out.append(key);
    out.append(value);
    out.append("\r\n");
    assert(final(out)@ =~= old(out)@ + crlf(key@ + value@));
}

/// Appends the encoding of one vCard.
fn encode_one_vcard(out: &mut String, vc: &BVCard)
    ensures
        final(out)@ == old(out)@ + encode_vcard(vc@),
{
    line(out, "BEGIN:VCARD");
    line(out, "VERSION:3.0");
    line_kv(out, "N:", vc.name.as_str());
    line_kv(out, "TEL:", vc.tel.as_str());
    line(out, "END:VCARD");
    assert(final(out)@ =~= old(out)@ + encode_vcard(vc@));
}

/// `\r\n`-stripping as `str::lines` does it for one line.
pub open spec fn strip_cr(l: Seq<char>) -> Seq<char> {
    if l.len() > 0 && l.last() == '\r' {
        l.drop_last()
    } else {
        l
    }
}

/// Scanning for `\n` in a suffix is scanning the whole text, shifted.
proof fn lemma_scan_nl_shift(t: Seq<char>, i: int, j: int)
    requires
        0 <= i <= j <= t.len(),
    ensures
        scan_nl(t.subrange(i, t.len() as int), j - i) == scan_nl(t, j) - i,
    decreases t.len() - j,
{
    if j < t.len() {
        lemma_scan_nl_shift(t, i, j + 1);
    }
}

/// `scan_nl` stays within the text and at or after where it starts.
pub proof fn lemma_scan_nl_bounds(t: Seq<char>, j: int)
    requires
        0 <= j <= t.len(),
    ensures
        j <= scan_nl(t, j) <= t.len(),
        scan_nl(t, j) < t.len() ==> t[scan_nl(t, j)] == '\n',
        forall|m: int| j <= m < scan_nl(t, j) ==> t[m] != '\n',
    decreases t.len() - j,
{
    if j < t.len() {
        lemma_scan_nl_bounds(t, j + 1);
    }
}

/// The lines of a suffix of the text, one step at a time.
proof fn lemma_text_lines_step(t: Seq<char>, i: int)
    requires
        0 <= i < t.len(),
    ensures
        ({
            let k = scan_nl(t, i);
            text_lines(t.subrange(i, t.len() as int)) == if k >= t.len() {
                seq![t.subrange(i, t.len() as int)]
            } else {
                seq![strip_cr(t.subrange(i, k))] + text_lines(t.subrange(k + 1, t.len() as int))
            }
        }),
{
    let u = t.subrange(i, t.len() as int);
    lemma_scan_nl_shift(t, i, i);
    lemma_scan_nl_bounds(t, i);
    let k = scan_nl(t, i);
    if k < t.len() {
        assert(u.subrange(0, k - i) == t.subrange(i, k));
        assert(u.subrange(k - i + 1, u.len() as int) == t.subrange(k + 1, t.len() as int));
    }
}

/// The lines of a text, as `str::lines` yields them.
fn text_lines_of(t: &Vec<char>) -> (ls: Vec<Vec<char>>)
    ensures
        lines_view(ls@) == text_lines(t@),
{
    let mut ls: Vec<Vec<char>> = Vec::new();
    let mut i: usize = 0;
    let n = t.len();
    assert(t@.subrange(0, n as int) == t@);
    while i < n
        invariant
            n == t@.len(),
            i <= n,
            text_lines(t@) == lines_view(ls@) + text_lines(t@.subrange(i as int, n as int)),
        decreases n - i,
    {
        let mut j = i;
        while j < n && t[j] != '\n'
            invariant
                n == t@.len(),
                i <= j <= n,
                scan_nl(t@, i as int) == scan_nl(t@, j as int),
            decreases n - j,
        {
            j = j + 1;
        }
        proof {
            lemma_text_lines_step(t@, i as int);
        }
        let mut l: Vec<char> = Vec::new();
        let mut m = i;
        while m < j
            invariant
                i <= m <= j <= n,
                n == t@.len(),
                l@ == t@.subrange(i as int, m as int),
            decreases j - m,
        {
            l.push(t[m]);
            m = m + 1;
            assert(l@ =~= t@.subrange(i as int, m as int));
        }
        let ghost old_ls = ls@;
        if j >= n {
            ls.push(l);
            i = n;
            assert(t@.subrange(n as int, n as int) == Seq::<char>::empty());
        } else {
            let len = l.len();
            if len > 0 && l[len - 1] == '\r' {
                l.pop();
            }
            ls.push(l);
            i = j + 1;
        }
        assert(lines_view(ls@) =~= lines_view(old_ls) + seq![ls@.last()@]);
    }
    assert(t@.subrange(n as int, n as int) == Seq::<char>::empty());
    assert(text_lines(t@.subrange(n as int, n as int)) =~= Seq::<Seq<char>>::empty());
    assert(lines_view(ls@) =~= lines_view(ls@) + Seq::<Seq<char>>::empty());
    ls
}

/// The LENGTH of the message block made of `lines`: 11 bytes for `BEGIN:MSG\r\n`, each line's
/// UTF-8 length plus 2, and 9 for `END:MSG\r\n`, all saturating.
fn msg_block_length(lines: &Vec<Vec<char>>) -> (n: usize)
    ensures
        n == crate::text::sat_add(lines_len_from(lines_view(lines@), 11), 9),
{
    let mut n: usize = 11;
    let mut k: usize = 0;
    while k < lines.len()
        invariant
            k <= lines@.len(),
            n == lines_len_from(lines_view(lines@).take(k as int), 11),
        decreases lines.len() - k,
    {
        let l = &lines[k];
        let w = utf8_len_of(l, 0, l.len());
        proof {
            assert(l@.subrange(0, l@.len() as int) == l@);
            lemma_sat_add_capped(n as nat, utf8_len(l@));
            assert(lines_view(lines@).take(k + 1).drop_last() == lines_view(lines@).take(
                k as int,
            ));
        }
        n = n.saturating_add(w).saturating_add(2);
        k = k + 1;
    }
    assert(lines_view(lines@).take(k as int) == lines_view(lines@));
    n.saturating_add(9)
}

/// Appends each line followed by CRLF.
fn push_lines(out: &mut String, lines: &Vec<Vec<char>>)
    ensures
        final(out)@ == old(out)@ + crlf_lines(lines_view(lines@)),
{
    let mut k: usize = 0;
    while k < lines.len()
        invariant
            k <= lines@.len(),
            out@ == old(out)@ + crlf_lines(lines_view(lines@).take(k as int)),
        decreases lines.len() - k,
    {
        let l = &lines[k];
        push_chars(out, l, 0, l.len());
        out.append("\r\n");
        proof {
            assert(l@.subrange(0, l@.len() as int) == l@);
            assert(lines_view(lines@).take(k + 1).drop_last() == lines_view(lines@).take(
                k as int,
            ));
        }
        k = k + 1;
        assert(out@ =~= old(out)@ + crlf_lines(lines_view(lines@).take(k as int)));
    }
    assert(lines_view(lines@).take(k as int) == lines_view(lines@));
}

/// Appends the encoding of a BBODY section.
fn encode_body(out: &mut String, body: &BBody)
    ensures
        final(out)@ == old(out)@ + encode_bbody(body@),
{
    let text = str_to_chars(body.text.as_str());
    let lines = text_lines_of(&text);
    line(out, "BEGIN:BBODY");
    line_kv(out, "ENCODING:", body.encoding.as_str());
    line_kv(out, "CHARSET:", body.charset.as_str());
    line_kv(out, "LANGUAGE:", body.language.as_str());
    let len = msg_block_length(&lines);
    let ghost before_len = out@;
    out.append("LENGTH:");
    push_decimal(out, len as u64);
    out.append("\r\n");
    assert(out@ =~= before_len + crlf("LENGTH:"@ + crate::text::decimal(
        msg_block_len(body@.text),
    )));
    line(out, "BEGIN:MSG");
    push_lines(out, &lines);
    line(out, "END:MSG");
    line(out, "END:BBODY");
    reveal(encode_bbody);
    assert(final(out)@ =~= old(out)@ + encode_bbody(body@));
}

} // verus!
