//! The bMessage wire grammar as mathematical functions on character sequences.
//!
//! Parsing is described position by position over the whole input: each function takes the
//! input `s` and a position `i` and says what is read there and where reading stops. Encoding
//! is described as the concatenation of CRLF-terminated lines.
use vstd::prelude::*;

use crate::text::{decimal, parse_usize_spec, sat_add, utf8_len};

use super::types::{
    status_wire, BMessageErrorView, BMessageView, BodyView, EnvelopeView, MessageStatus,
    VCardView,
};

verus! {

// ---------------------------------------------------------------------------------------------
// Characters
// ---------------------------------------------------------------------------------------------

/// `\r` or `\n`.
pub open spec fn is_line_break(c: char) -> bool {
    c == '\r' || c == '\n'
}

/// A character that ends a property name: `:`, `\r` or `\n`.
pub open spec fn is_key_stop(c: char) -> bool {
    c == ':' || c == '\r' || c == '\n'
}

// ---------------------------------------------------------------------------------------------
// Lines and properties
// ---------------------------------------------------------------------------------------------

/// The first position at or after `i` that holds a line break, or `s.len()`.
pub open spec fn scan_eol(s: Seq<char>, i: int) -> int
    decreases s.len() - i,
{
    if i >= s.len() {
        s.len() as int
    } else if is_line_break(s[i]) {
        i
    } else {
        scan_eol(s, i + 1)
    }
}

/// The first position at or after `i` that holds `:` or a line break, or `s.len()`.
pub open spec fn scan_key(s: Seq<char>, i: int) -> int
    decreases s.len() - i,
{
    if i >= s.len() {
        s.len() as int
    } else if is_key_stop(s[i]) {
        i
    } else {
        scan_key(s, i + 1)
    }
}

/// A line ending (`\n` or `\r\n`) at `j`: the position after it.
pub open spec fn eol_at(s: Seq<char>, j: int) -> Option<int> {
    if 0 <= j < s.len() && s[j] == '\n' {
        Some(j + 1)
    } else if 0 <= j && j + 1 < s.len() && s[j] == '\r' && s[j + 1] == '\n' {
        Some(j + 2)
    } else {
        None
    }
}

/// A line starting at `i`: its content runs to the first line break, which must begin a line
/// ending. Gives the end of the content and the start of the next line.
pub open spec fn line_at(s: Seq<char>, i: int) -> Option<(int, int)> {
    let e = scan_eol(s, i);
    match eol_at(s, e) {
        Some(n) => Some((e, n)),
        None => None,
    }
}

/// A `KEY:VALUE` line at `i`: a non-empty key free of `:` and line breaks, a colon, then the
/// rest of the line. Gives the end of the key, the end of the value and the next line.
pub open spec fn kv_at(s: Seq<char>, i: int) -> Option<(int, int, int)> {
    let k = scan_key(s, i);
    if k == i || k >= s.len() || s[k] != ':' {
        None
    } else {
        match line_at(s, k + 1) {
            Some((e, n)) => Some((k, e, n)),
            None => None,
        }
    }
}

/// `s` holds `p` at position `i`.
pub open spec fn prefix_at(s: Seq<char>, i: int, p: Seq<char>) -> bool {
    0 <= i && i + p.len() <= s.len() && s.subrange(i, i + p.len()) == p
}

/// The marker line `p` (e.g. `BEGIN:BMSG`) at `i`: the position after its line ending.
pub open spec fn marker_at(s: Seq<char>, i: int, p: Seq<char>) -> Option<int> {
    if prefix_at(s, i, p) {
        eol_at(s, i + p.len())
    } else {
        None
    }
}

/// The STATUS value, if recognised.
pub open spec fn status_of(v: Seq<char>) -> Option<MessageStatus> {
    if v == "READ"@ {
        Some(MessageStatus::Read)
    } else if v == "UNREAD"@ {
        Some(MessageStatus::Unread)
    } else {
        None
    }
}

/// A parse result: the value read and the position after it, or an error.
pub type PResult<T> = Result<(T, int), BMessageErrorView>;

/// An unterminated-section error.
pub open spec fn unterminated(name: &str) -> BMessageErrorView {
    BMessageErrorView::UnterminatedSection(name@)
}

// ---------------------------------------------------------------------------------------------
// vCards
// ---------------------------------------------------------------------------------------------

/// The properties of a vCard from `i` up to its `END:VCARD` line; later N/TEL lines replace
/// earlier ones.
pub open spec fn vcard_body_at(s: Seq<char>, i: int, name: Seq<char>, tel: Seq<char>) -> PResult<
    VCardView,
>
    decreases s.len() - i,
{
    if prefix_at(s, i, "END:VCARD"@) {
        match marker_at(s, i, "END:VCARD"@) {
            Some(j) => Ok((VCardView { name, tel }, j)),
            None => Err(unterminated("VCARD")),
        }
    } else {
        match kv_at(s, i) {
            None => Err(unterminated("VCARD")),
            Some((k, e, n)) => {
                if n <= i {
                    Err(unterminated("VCARD"))
                } else {
                    let key = s.subrange(i, k);
                    let v = s.subrange(k + 1, e);
                    if key == "N"@ {
                        vcard_body_at(s, n, v, tel)
                    } else if key == "TEL"@ {
                        vcard_body_at(s, n, name, v)
                    } else {
                        vcard_body_at(s, n, name, tel)
                    }
                }
            },
        }
    }
}

/// A whole vCard at `i`, from `BEGIN:VCARD` to `END:VCARD`.
pub open spec fn vcard_at(s: Seq<char>, i: int) -> PResult<VCardView> {
    match marker_at(s, i, "BEGIN:VCARD"@) {
        Some(j) => vcard_body_at(s, j, Seq::empty(), Seq::empty()),
        None => Err(unterminated("VCARD")),
    }
}

// ---------------------------------------------------------------------------------------------
// Header
// ---------------------------------------------------------------------------------------------

/// Fields collected from the bMessage header.
pub struct HeaderView {
    pub status: Option<MessageStatus>,
    pub has_type: bool,
    pub folder: Option<Seq<char>>,
    pub originator: Option<VCardView>,
}

/// The header lines from `i` up to `BEGIN:BENV`; later fields replace earlier ones.
pub open spec fn header_at(s: Seq<char>, i: int, h: HeaderView) -> PResult<HeaderView>
    decreases s.len() - i,
{
    if prefix_at(s, i, "BEGIN:VCARD"@) {
        match vcard_at(s, i) {
            Ok((vc, j)) => {
                if j <= i || j > s.len() {
                    Err(unterminated("BMSG"))
                } else {
                    header_at(s, j, HeaderView { originator: Some(vc), ..h })
                }
            },
            Err(e) => Err(e),
        }
    } else if prefix_at(s, i, "BEGIN:BENV"@) {
        Ok((h, i))
    } else if prefix_at(s, i, "END:BMSG"@) {
        Err(BMessageErrorView::MissingField("BENV"@))
    } else {
        match kv_at(s, i) {
            None => Err(unterminated("BMSG")),
            Some((k, e, n)) => {
                if n <= i {
                    Err(unterminated("BMSG"))
                } else {
                    let key = s.subrange(i, k);
                    let v = s.subrange(k + 1, e);
                    if key == "STATUS"@ {
                        match status_of(v) {
                            Some(st) => header_at(s, n, HeaderView { status: Some(st), ..h }),
                            None => Err(BMessageErrorView::UnknownStatus(v)),
                        }
                    } else if key == "TYPE"@ {
                        if v == "SMS_GSM"@ {
                            header_at(s, n, HeaderView { has_type: true, ..h })
                        } else {
                            Err(BMessageErrorView::UnknownType(v))
                        }
                    } else if key == "FOLDER"@ {
                        header_at(s, n, HeaderView { folder: Some(v), ..h })
                    } else {
                        header_at(s, n, h)
                    }
                }
            },
        }
    }
}

// ---------------------------------------------------------------------------------------------
// Body
// ---------------------------------------------------------------------------------------------

/// Transport fields collected from a BBODY section.
pub struct BodyFields {
    pub encoding: Seq<char>,
    pub charset: Seq<char>,
    pub language: Seq<char>,
    pub length: Option<usize>,
}

/// The BBODY property lines from `i` up to `BEGIN:MSG`; later fields replace earlier ones and
/// an unparsable LENGTH counts as absent.
pub open spec fn body_fields_at(s: Seq<char>, i: int, f: BodyFields) -> PResult<BodyFields>
    decreases s.len() - i,
{
    if prefix_at(s, i, "BEGIN:MSG"@) {
        Ok((f, i))
    } else {
        match kv_at(s, i) {
            None => Err(unterminated("BBODY")),
            Some((k, e, n)) => {
                if n <= i {
                    Err(unterminated("BBODY"))
                } else {
                    let key = s.subrange(i, k);
                    let v = s.subrange(k + 1, e);
                    if key == "ENCODING"@ {
                        body_fields_at(s, n, BodyFields { encoding: v, ..f })
                    } else if key == "CHARSET"@ {
                        body_fields_at(s, n, BodyFields { charset: v, ..f })
                    } else if key == "LANGUAGE"@ {
                        body_fields_at(s, n, BodyFields { language: v, ..f })
                    } else if key == "LENGTH"@ {
                        body_fields_at(s, n, BodyFields { length: parse_usize_spec(v), ..f })
                    } else {
                        body_fields_at(s, n, f)
                    }
                }
            },
        }
    }
}

/// Appends one message line to the text read so far, separated by `\n` unless the text is
/// still empty.
pub open spec fn join_line(text: Seq<char>, line: Seq<char>) -> Seq<char> {
    if text.len() == 0 {
        line
    } else {
        text.push('\n') + line
    }
}

/// Message lines from `i` while fewer than `budget` bytes have been counted; each line counts
/// its UTF-8 length plus two for a CRLF ending, whatever ending it actually has.
pub open spec fn msg_lines_at(
    s: Seq<char>,
    i: int,
    budget: nat,
    consumed: nat,
    text: Seq<char>,
) -> PResult<Seq<char>>
    decreases s.len() - i,
{
    if consumed >= budget {
        Ok((text, i))
    } else {
        match line_at(s, i) {
            None => Err(unterminated("MSG")),
            Some((e, n)) => {
                if n <= i {
                    Err(unterminated("MSG"))
                } else {
                    let line = s.subrange(i, e);
                    msg_lines_at(
                        s,
                        n,
                        budget,
                        sat_add(consumed, sat_add(utf8_len(line), 2)),
                        join_line(text, line),
                    )
                }
            },
        }
    }
}

/// The budget of message bytes for a declared LENGTH: the length less the 20 bytes of the
/// `BEGIN:MSG` and `END:MSG` lines.
pub open spec fn msg_budget(length: usize) -> nat {
    if length >= 20 {
        (length - 20) as nat
    } else {
        0
    }
}

/// A `BEGIN:MSG … END:MSG` block at `i` for a declared LENGTH.
pub open spec fn msg_at(s: Seq<char>, i: int, length: usize) -> PResult<Seq<char>> {
    match marker_at(s, i, "BEGIN:MSG"@) {
        None => Err(unterminated("MSG")),
        Some(j) => match msg_lines_at(s, j, msg_budget(length), 0, Seq::empty()) {
            Err(e) => Err(e),
            Ok((text, k)) => match marker_at(s, k, "END:MSG"@) {
                None => Err(unterminated("MSG")),
                Some(m) => Ok((text, m)),
            },
        },
    }
}

/// The initial BBODY fields.
pub open spec fn no_body_fields() -> BodyFields {
    BodyFields { encoding: Seq::empty(), charset: Seq::empty(), language: Seq::empty(), length: None }
}

/// A BBODY section at `i`.
pub open spec fn bbody_at(s: Seq<char>, i: int) -> PResult<BodyView> {
    match marker_at(s, i, "BEGIN:BBODY"@) {
        None => Err(unterminated("BBODY")),
        Some(j) => match body_fields_at(s, j, no_body_fields()) {
            Err(e) => Err(e),
            Ok((f, k)) => match f.length {
                None => Err(BMessageErrorView::MissingField("LENGTH"@)),
                Some(len) => match msg_at(s, k, len) {
                    Err(e) => Err(e),
                    Ok((text, m)) => match marker_at(s, m, "END:BBODY"@) {
                        None => Err(unterminated("BBODY")),
                        Some(p) => Ok(
                            (
                                BodyView {
                                    encoding: f.encoding,
                                    charset: f.charset,
                                    language: f.language,
                                    text,
                                },
                                p,
                            ),
                        ),
                    },
                },
            },
        },
    }
}

/// Recipient vCards from `i` for as long as a line starts with `BEGIN:VCARD`.
pub open spec fn recipients_at(s: Seq<char>, i: int, acc: Seq<VCardView>) -> PResult<
    Seq<VCardView>,
>
    decreases s.len() - i,
{
    if prefix_at(s, i, "BEGIN:VCARD"@) {
        match vcard_at(s, i) {
            Err(e) => Err(e),
            Ok((vc, j)) => {
                if j <= i || j > s.len() {
                    Err(unterminated("VCARD"))
                } else {
                    recipients_at(s, j, acc.push(vc))
                }
            },
        }
    } else {
        Ok((acc, i))
    }
}

/// A BENV section at `i`.
pub open spec fn benv_at(s: Seq<char>, i: int) -> PResult<EnvelopeView> {
    match marker_at(s, i, "BEGIN:BENV"@) {
        None => Err(unterminated("BENV")),
        Some(j) => match recipients_at(s, j, Seq::empty()) {
            Err(e) => Err(e),
            Ok((rs, k)) => match bbody_at(s, k) {
                Err(e) => Err(e),
                Ok((body, m)) => match marker_at(s, m, "END:BENV"@) {
                    None => Err(unterminated("BENV")),
                    Some(p) => Ok((EnvelopeView { recipients: rs, body }, p)),
                },
            },
        },
    }
}

/// The initial header fields.
pub open spec fn no_header() -> HeaderView {
    HeaderView { status: None, has_type: false, folder: None, originator: None }
}

/// What parsing the text `s` as a bMessage gives.
pub open spec fn parse_spec(s: Seq<char>) -> Result<BMessageView, BMessageErrorView> {
    match marker_at(s, 0, "BEGIN:BMSG"@) {
        None => Err(unterminated("BMSG")),
        Some(j) => match header_at(s, j, no_header()) {
            Err(e) => Err(e),
            Ok((h, k)) => {
                if h.status is None {
                    Err(BMessageErrorView::MissingField("STATUS"@))
                } else if !h.has_type {
                    Err(BMessageErrorView::MissingField("TYPE"@))
                } else if h.folder is None {
                    Err(BMessageErrorView::MissingField("FOLDER"@))
                } else {
                    match benv_at(s, k) {
                        Err(e) => Err(e),
                        Ok((env, m)) => match marker_at(s, m, "END:BMSG"@) {
                            None => Err(unterminated("BMSG")),
                            Some(_) => Ok(
                                BMessageView {
                                    status: h.status->0,
                                    folder: h.folder->0,
                                    originator: h.originator,
                                    envelope: env,
                                },
                            ),
                        },
                    }
                }
            },
        },
    }
}

// ---------------------------------------------------------------------------------------------
// Encoding
// ---------------------------------------------------------------------------------------------

/// `x` followed by CRLF.
pub open spec fn crlf(x: Seq<char>) -> Seq<char> {
    x + "\r\n"@
}

/// The position of the first `\n` at or after `i`, or `t.len()`.
pub open spec fn scan_nl(t: Seq<char>, i: int) -> int
    decreases t.len() - i,
{
    if i >= t.len() {
        t.len() as int
    } else if t[i] == '\n' {
        i
    } else {
        scan_nl(t, i + 1)
    }
}

/// The lines of `t` as `str::lines` yields them: split at `\n`, a `\r` right before a `\n`
/// dropped, and no empty line after a final `\n`.
pub open spec fn text_lines(t: Seq<char>) -> Seq<Seq<char>>
    decreases t.len(),
{
    if t.len() == 0 {
        Seq::empty()
    } else {
        let k = scan_nl(t, 0);
        if k >= t.len() || k < 0 {
            seq![t]
        } else {
            let l = t.subrange(0, k);
            let l2 = if l.len() > 0 && l.last() == '\r' {
                l.drop_last()
            } else {
                l
            };
            seq![l2] + text_lines(t.subrange(k + 1, t.len() as int))
        }
    }
}

/// Each line followed by CRLF.
pub open spec fn crlf_lines(ls: Seq<Seq<char>>) -> Seq<char>
    decreases ls.len(),
{
    if ls.len() == 0 {
        Seq::empty()
    } else {
        crlf_lines(ls.drop_last()) + crlf(ls.last())
    }
}

/// The LENGTH count after the lines `ls`, starting from `n`: each line adds its UTF-8 length
/// and two, saturating.
pub open spec fn lines_len_from(ls: Seq<Seq<char>>, n: nat) -> nat
    decreases ls.len(),
{
    if ls.len() == 0 {
        n
    } else {
        sat_add(sat_add(lines_len_from(ls.drop_last(), n), utf8_len(ls.last())), 2)
    }
}

/// The LENGTH of a message text: the UTF-8 byte count of the CRLF block from `BEGIN:MSG` to
/// `END:MSG` inclusive (saturating at `usize::MAX`).
pub open spec fn msg_block_len(text: Seq<char>) -> nat {
    sat_add(lines_len_from(text_lines(text), 11), 9)
}

/// The encoding of a vCard.
pub open spec fn encode_vcard(v: VCardView) -> Seq<char> {
    crlf("BEGIN:VCARD"@) + crlf("VERSION:3.0"@) + crlf("N:"@ + v.name) + crlf("TEL:"@ + v.tel)
        + crlf("END:VCARD"@)
}

/// The encodings of several vCards, in order.
pub open spec fn encode_vcards(vs: Seq<VCardView>) -> Seq<char>
    decreases vs.len(),
{
    if vs.len() == 0 {
        Seq::empty()
    } else {
        encode_vcards(vs.drop_last()) + encode_vcard(vs.last())
    }
}

/// The encoding of a BBODY section.
#[verifier::opaque]
pub open spec fn encode_bbody(b: BodyView) -> Seq<char> {
    crlf("BEGIN:BBODY"@) + crlf("ENCODING:"@ + b.encoding) + crlf("CHARSET:"@ + b.charset) + crlf(
        "LANGUAGE:"@ + b.language,
    ) + crlf("LENGTH:"@ + decimal(msg_block_len(b.text))) + crlf("BEGIN:MSG"@) + crlf_lines(
        text_lines(b.text),
    ) + crlf("END:MSG"@) + crlf("END:BBODY"@)
}

/// The header of an encoded message, from `VERSION` to the originator.
#[verifier::opaque]
pub open spec fn encode_header(m: BMessageView) -> Seq<char> {
    crlf("VERSION:1.0"@) + crlf("STATUS:"@ + status_wire(m.status)) + crlf("TYPE:"@ + "SMS_GSM"@)
        + crlf("FOLDER:"@ + m.folder) + match m.originator {
        Some(v) => encode_vcard(v),
        None => Seq::empty(),
    }
}

/// The encoding of a BENV section.
#[verifier::opaque]
pub open spec fn encode_benv(env: EnvelopeView) -> Seq<char> {
    crlf("BEGIN:BENV"@) + encode_vcards(env.recipients) + encode_bbody(env.body) + crlf(
        "END:BENV"@,
    )
}

/// The encoding of a bMessage: CRLF line endings throughout.
pub open spec fn encode_spec(m: BMessageView) -> Seq<char> {
    crlf("BEGIN:BMSG"@) + encode_header(m) + encode_benv(m.envelope) + crlf("END:BMSG"@)
}

} // verus!
