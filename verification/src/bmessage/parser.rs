//! bMessage parser: reads the wire grammar of [`super::spec`] line by line.
use vstd::prelude::*;

use crate::text::{chars_eq, parse_usize, prefix_eq, str_to_chars, string_of, utf8_len_of};
use crate::text::{lemma_sat_add_capped, sat_add, utf8_len};

use super::spec::{
    bbody_at, benv_at, body_fields_at, eol_at, header_at, join_line, kv_at, line_at,
    marker_at, msg_at, msg_budget, msg_lines_at, no_body_fields, no_header, parse_spec,
    prefix_at, recipients_at, scan_eol, scan_key, status_of, unterminated, vcard_at,
    vcard_body_at, BodyFields, HeaderView, PResult,
};
use super::types::{
    opt_vcard_view, BBody, BEnvelope, BMessage, BMessageError, BVCard, MessageStatus,
    MessageType, VCardView,
};

verus! {

/// The view of a parse step: the value read and the position after it, or the error.
pub open spec fn step_view<T: View>(r: Result<(T, usize), BMessageError>) -> PResult<T::V> {
    match r {
        Ok((v, n)) => Ok((v@, n as int)),
        Err(e) => Err(e@),
    }
}

// ---------------------------------------------------------------------------------------------
// Facts about the scanning functions
// ---------------------------------------------------------------------------------------------

proof fn lemma_scan_eol(s: Seq<char>, i: int)
    requires
        0 <= i <= s.len(),
    ensures
        i <= scan_eol(s, i) <= s.len(),
    decreases s.len() - i,
{
    if i < s.len() {
        lemma_scan_eol(s, i + 1);
    }
}

proof fn lemma_scan_key(s: Seq<char>, i: int)
    requires
        0 <= i <= s.len(),
    ensures
        i <= scan_key(s, i) <= s.len(),
    decreases s.len() - i,
{
    if i < s.len() {
        lemma_scan_key(s, i + 1);
    }
}

/// A line read at `i` ends inside the input and after `i`.
pub proof fn lemma_line_at(s: Seq<char>, i: int)
    requires
        0 <= i <= s.len(),
    ensures
        line_at(s, i) matches Some((e, n)) ==> i <= e < n <= s.len(),
{
    lemma_scan_eol(s, i);
}

/// A property line read at `i` ends inside the input and after `i`.
pub proof fn lemma_kv_at(s: Seq<char>, i: int)
    requires
        0 <= i <= s.len(),
    ensures
        kv_at(s, i) matches Some((k, e, n)) ==> i < k && k + 1 <= e < n <= s.len(),
{
    lemma_scan_key(s, i);
    let k = scan_key(s, i);
    if k < s.len() {
        lemma_line_at(s, k + 1);
    }
}

/// A marker line read at `i` ends inside the input and after `i`.
pub proof fn lemma_marker_at(s: Seq<char>, i: int, p: Seq<char>)
    ensures
        marker_at(s, i, p) matches Some(j) ==> 0 <= i && i + p.len() < j <= s.len(),
{
}

/// A vCard body read at `i` ends inside the input and after `i`.
proof fn lemma_vcard_body_at(s: Seq<char>, i: int, name: Seq<char>, tel: Seq<char>)
    requires
        0 <= i <= s.len(),
    ensures
        vcard_body_at(s, i, name, tel) matches Ok((_, j)) ==> i < j <= s.len(),
    decreases s.len() - i,
{
    if !prefix_at(s, i, "END:VCARD"@) {
        lemma_kv_at(s, i);
        if let Some((k, e, n)) = kv_at(s, i) {
            let key = s.subrange(i, k);
            let v = s.subrange(k + 1, e);
            lemma_vcard_body_at(s, n, v, tel);
            lemma_vcard_body_at(s, n, name, v);
            lemma_vcard_body_at(s, n, name, tel);
        }
    }
}

/// A vCard read at `i` ends inside the input and after `i`.
pub proof fn lemma_vcard_at(s: Seq<char>, i: int)
    requires
        0 <= i <= s.len(),
    ensures
        vcard_at(s, i) matches Ok((_, j)) ==> i < j <= s.len(),
{
    if let Some(j) = marker_at(s, i, "BEGIN:VCARD"@) {
        lemma_vcard_body_at(s, j, Seq::empty(), Seq::empty());
    }
}

// ---------------------------------------------------------------------------------------------
// Scanning
// ---------------------------------------------------------------------------------------------

fn scan_eol_exec(s: &Vec<char>, i: usize) -> (e: usize)
    requires
        i <= s@.len(),
    ensures
        e == scan_eol(s@, i as int),
{
    let mut j = i;
    while j < s.len() && s[j] != '\r' && s[j] != '\n'
        invariant
            i <= j <= s@.len(),
            scan_eol(s@, i as int) == scan_eol(s@, j as int),
        decreases s.len() - j,
    {
        j = j + 1;
    }
    j
}

fn scan_key_exec(s: &Vec<char>, i: usize) -> (e: usize)
    requires
        i <= s@.len(),
    ensures
        e == scan_key(s@, i as int),
{
    let mut j = i;
    while j < s.len() && s[j] != ':' && s[j] != '\r' && s[j] != '\n'
        invariant
            i <= j <= s@.len(),
            scan_key(s@, i as int) == scan_key(s@, j as int),
        decreases s.len() - j,
    {
        j = j + 1;
    }
    j
}

fn eol_at_exec(s: &Vec<char>, j: usize) -> (r: Option<usize>)
    ensures
        match r {
            Some(n) => eol_at(s@, j as int) == Some(n as int),
            None => eol_at(s@, j as int) is None,
        },
{
    if j < s.len() && s[j] == '\n' {
        Some(j + 1)
    } else if j < s.len() && j + 1 < s.len() && s[j] == '\r' && s[j + 1] == '\n' {
        Some(j + 2)
    } else {
        None
    }
}

fn line_at_exec(s: &Vec<char>, i: usize) -> (r: Option<(usize, usize)>)
    requires
        i <= s@.len(),
    ensures
        match r {
            Some((e, n)) => line_at(s@, i as int) == Some((e as int, n as int)),
            None => line_at(s@, i as int) is None,
        },
{
    let e = scan_eol_exec(s, i);
    match eol_at_exec(s, e) {
        Some(n) => Some((e, n)),
        None => None,
    }
}

fn kv_at_exec(s: &Vec<char>, i: usize) -> (r: Option<(usize, usize, usize)>)
    requires
        i <= s@.len(),
    ensures
        match r {
            Some((k, e, n)) => kv_at(s@, i as int) == Some((k as int, e as int, n as int)),
            None => kv_at(s@, i as int) is None,
        },
{
    let k = scan_key_exec(s, i);
    proof {
        lemma_scan_key(s@, i as int);
    }
    if k == i || k >= s.len() || s[k] != ':' {
        return None;
    }
    match line_at_exec(s, k + 1) {
        Some((e, n)) => Some((k, e, n)),
        None => None,
    }
}

fn marker_at_exec(s: &Vec<char>, i: usize, p: &str) -> (r: Option<usize>)
    requires
        i <= s@.len(),
    ensures
        match r {
            Some(j) => marker_at(s@, i as int, p@) == Some(j as int),
            None => marker_at(s@, i as int, p@) is None,
        },
{
    if prefix_eq(s, i, p) {
        let n = p.unicode_len();
        let len = s.len();
        assert(i + n <= len);
        eol_at_exec(s, i + n)
    } else {
        None
    }
}

// ---------------------------------------------------------------------------------------------
// Sections
// ---------------------------------------------------------------------------------------------

fn parse_vcard(s: &Vec<char>, i: usize) -> (r: Result<(BVCard, usize), BMessageError>)
    requires
        i <= s@.len(),
    ensures
        step_view(r) == vcard_at(s@, i as int),
        r matches Ok((_, n)) ==> n <= s@.len(),
{
    let j0 = match marker_at_exec(s, i, "BEGIN:VCARD") {
        Some(j) => j,
        None => return Err(BMessageError::UnterminatedSection("VCARD")),
    };
    proof {
        lemma_marker_at(s@, i as int, "BEGIN:VCARD"@);
    }
    let mut name = String::new();
    let mut tel = String::new();
    let mut j = j0;
    loop
        invariant
            j <= s@.len(),
            vcard_at(s@, i as int) == vcard_body_at(s@, j as int, name@, tel@),
        decreases s@.len() - j,
    {
        if prefix_eq(s, j, "END:VCARD") {
            return match marker_at_exec(s, j, "END:VCARD") {
                Some(m) => {
                    let vc = BVCard { name, tel };
                    Ok((vc, m))
                },
                None => Err(BMessageError::UnterminatedSection("VCARD")),
            };
        }
        let (k, e, n) = match kv_at_exec(s, j) {
            Some(t) => t,
            None => return Err(BMessageError::UnterminatedSection("VCARD")),
        };
        proof {
            lemma_kv_at(s@, j as int);
        }
        if chars_eq(s, j, k, "N") {
            name = string_of(s, k + 1, e);
        } else if chars_eq(s, j, k, "TEL") {
            tel = string_of(s, k + 1, e);
        }
        j = n;
    }
}

/// Header fields read so far.
struct Header {
    status: Option<MessageStatus>,
    type_: Option<MessageType>,
    folder: Option<String>,
    originator: Option<BVCard>,
}

impl View for Header {
    type V = HeaderView;

    closed spec fn view(&self) -> HeaderView {
        HeaderView {
            status: self.status,
            has_type: self.type_ is Some,
            folder: match self.folder {
                Some(f) => Some(f@),
                None => None,
            },
            originator: opt_vcard_view(self.originator),
        }
    }
}

fn parse_header(s: &Vec<char>, i0: usize) -> (r: Result<(Header, usize), BMessageError>)
    requires
        i0 <= s@.len(),
    ensures
        step_view(r) == header_at(s@, i0 as int, no_header()),
        r matches Ok((_, n)) ==> n <= s@.len(),
{
    let mut h = Header { status: None, type_: None, folder: None, originator: None };
    let mut i = i0;
    assert(h@ == no_header());
    loop
        invariant
            i <= s@.len(),
            header_at(s@, i0 as int, no_header()) == header_at(s@, i as int, h@),
        decreases s@.len() - i,
    {
        if prefix_eq(s, i, "BEGIN:VCARD") {
            let (vc, j) = parse_vcard(s, i)?;
            proof {
                lemma_vcard_at(s@, i as int);
            }
            h.originator = Some(vc);
            i = j;
            continue ;
        }
        if prefix_eq(s, i, "BEGIN:BENV") {
            return Ok((h, i));
        }
        if prefix_eq(s, i, "END:BMSG") {
            return Err(BMessageError::MissingField("BENV"));
        }
        let (k, e, n) = match kv_at_exec(s, i) {
            Some(t) => t,
            None => return Err(BMessageError::UnterminatedSection("BMSG")),
        };
        proof {
            lemma_kv_at(s@, i as int);
        }
        if chars_eq(s, i, k, "STATUS") {
            if chars_eq(s, k + 1, e, "READ") {
                h.status = Some(MessageStatus::Read);
            } else if chars_eq(s, k + 1, e, "UNREAD") {
                h.status = Some(MessageStatus::Unread);
            } else {
                return Err(BMessageError::UnknownStatus(string_of(s, k + 1, e)));
            }
        } else if chars_eq(s, i, k, "TYPE") {
            if chars_eq(s, k + 1, e, "SMS_GSM") {
                h.type_ = Some(MessageType::SmsGsm);
            } else {
                return Err(BMessageError::UnknownType(string_of(s, k + 1, e)));
            }
        } else if chars_eq(s, i, k, "FOLDER") {
            h.folder = Some(string_of(s, k + 1, e));
        }
        i = n;
    }
}

/// Transport fields read so far from a BBODY section.
struct Fields {
    encoding: String,
    charset: String,
    language: String,
    length: Option<usize>,
}

impl View for Fields {
    type V = BodyFields;

    closed spec fn view(&self) -> BodyFields {
        BodyFields {
            encoding: self.encoding@,
            charset: self.charset@,
            language: self.language@,
            length: self.length,
        }
    }
}

fn parse_body_fields(s: &Vec<char>, i0: usize) -> (r: Result<(Fields, usize), BMessageError>)
    requires
        i0 <= s@.len(),
    ensures
        step_view(r) == body_fields_at(s@, i0 as int, no_body_fields()),
        r matches Ok((_, n)) ==> n <= s@.len(),
{
    let mut f = Fields {
        encoding: String::new(),
        charset: String::new(),
        language: String::new(),
        length: None,
    };
    let mut i = i0;
    assert(f@ == no_body_fields());
    loop
        invariant
            i <= s@.len(),
            body_fields_at(s@, i0 as int, no_body_fields()) == body_fields_at(s@, i as int, f@),
        decreases s@.len() - i,
    {
        if prefix_eq(s, i, "BEGIN:MSG") {
            return Ok((f, i));
        }
        let (k, e, n) = match kv_at_exec(s, i) {
            Some(t) => t,
            None => return Err(BMessageError::UnterminatedSection("BBODY")),
        };
        proof {
            lemma_kv_at(s@, i as int);
        }
        if chars_eq(s, i, k, "ENCODING") {
            f.encoding = string_of(s, k + 1, e);
        } else if chars_eq(s, i, k, "CHARSET") {
            f.charset = string_of(s, k + 1, e);
        } else if chars_eq(s, i, k, "LANGUAGE") {
            f.language = string_of(s, k + 1, e);
        } else if chars_eq(s, i, k, "LENGTH") {
            f.length = parse_usize(s, k + 1, e);
        }
        i = n;
    }
}

fn parse_msg(s: &Vec<char>, i: usize, length: usize) -> (r: Result<(String, usize), BMessageError>)
    requires
        i <= s@.len(),
    ensures
        step_view(r) == msg_at(s@, i as int, length),
        r matches Ok((_, n)) ==> n <= s@.len(),
{
    let j0 = match marker_at_exec(s, i, "BEGIN:MSG") {
        Some(j) => j,
        None => return Err(BMessageError::UnterminatedSection("MSG")),
    };
    proof {
        lemma_marker_at(s@, i as int, "BEGIN:MSG"@);
    }
    let budget = length.saturating_sub(20);
    let mut body = String::new();
    let mut consumed: usize = 0;
    let mut j = j0;
    while consumed < budget
        invariant
            j <= s@.len(),
            budget == msg_budget(length),
            msg_at(s@, i as int, length) == match msg_lines_at(
                s@,
                j as int,
                budget as nat,
                consumed as nat,
                body@,
            ) {
                Err(e) => Err(e),
                Ok((text, k)) => match marker_at(s@, k, "END:MSG"@) {
                    None => Err(unterminated("MSG")),
                    Some(m) => Ok((text, m)),
                },
            },
        decreases s@.len() - j,
    {
        let (e, n) = match line_at_exec(s, j) {
            Some(t) => t,
            None => return Err(BMessageError::UnterminatedSection("MSG")),
        };
        proof {
            lemma_line_at(s@, j as int);
        }
        let ghost old_body = body@;
        if !body.as_str().is_empty() {
            crate::text::push_char(&mut body, '\n');
        }
        crate::text::push_chars(&mut body, s, j, e);
        let w = utf8_len_of(s, j, e);
        proof {
            lemma_sat_add_capped(0, utf8_len(s@.subrange(j as int, e as int)));
            lemma_sat_add_capped(consumed as nat, sat_add(utf8_len(s@.subrange(j as int, e as int)), 2));
            assert(body@ =~= join_line(old_body, s@.subrange(j as int, e as int)));
        }
        consumed = consumed.saturating_add(w.saturating_add(2));
        j = n;
    }
    match marker_at_exec(s, j, "END:MSG") {
        Some(m) => Ok((body, m)),
        None => Err(BMessageError::UnterminatedSection("MSG")),
    }
}

fn parse_bbody(s: &Vec<char>, i: usize) -> (r: Result<(BBody, usize), BMessageError>)
    requires
        i <= s@.len(),
    ensures
        step_view(r) == bbody_at(s@, i as int),
        r matches Ok((_, n)) ==> n <= s@.len(),
{
    let j = match marker_at_exec(s, i, "BEGIN:BBODY") {
        Some(j) => j,
        None => return Err(BMessageError::UnterminatedSection("BBODY")),
    };
    proof {
        lemma_marker_at(s@, i as int, "BEGIN:BBODY"@);
    }
    let (f, k) = parse_body_fields(s, j)?;
    let len = match f.length {
        Some(len) => len,
        None => return Err(BMessageError::MissingField("LENGTH")),
    };
    let (text, m) = parse_msg(s, k, len)?;
    match marker_at_exec(s, m, "END:BBODY") {
        Some(p) => Ok(
            (
                BBody { encoding: f.encoding, charset: f.charset, language: f.language, text },
                p,
            ),
        ),
        None => Err(BMessageError::UnterminatedSection("BBODY")),
    }
}

fn parse_benv(s: &Vec<char>, i: usize) -> (r: Result<(BEnvelope, usize), BMessageError>)
    requires
        i <= s@.len(),
    ensures
        step_view(r) == benv_at(s@, i as int),
        r matches Ok((_, n)) ==> n <= s@.len(),
{
    let j0 = match marker_at_exec(s, i, "BEGIN:BENV") {
        Some(j) => j,
        None => return Err(BMessageError::UnterminatedSection("BENV")),
    };
    proof {
        lemma_marker_at(s@, i as int, "BEGIN:BENV"@);
    }
    let mut recipients: Vec<BVCard> = Vec::new();
    let mut j = j0;
    assert(recipients@.map_values(|v: BVCard| v@) =~= Seq::<VCardView>::empty());
    while prefix_eq(s, j, "BEGIN:VCARD")
        invariant
            j <= s@.len(),
            marker_at(s@, i as int, "BEGIN:BENV"@) == Some(j0 as int),
            recipients_at(s@, j0 as int, Seq::empty()) == recipients_at(
                s@,
                j as int,
                recipients@.map_values(|v: BVCard| v@),
            ),
        decreases s@.len() - j,
    {
        let (vc, n) = match parse_vcard(s, j) {
            Ok(t) => t,
            Err(e) => {
                assert(prefix_at(s@, j as int, "BEGIN:VCARD"@));
                assert(recipients_at(s@, j as int, recipients@.map_values(|v: BVCard| v@))
                    == Err::<(Seq<VCardView>, int), _>(e@));
                return Err(e);
            },
        };
        proof {
            lemma_vcard_at(s@, j as int);
        }
        let ghost old_r = recipients@;
        recipients.push(vc);
        assert(recipients@.map_values(|v: BVCard| v@) =~= old_r.map_values(|v: BVCard| v@).push(
            vc@,
        ));
        j = n;
    }
    assert(recipients_at(s@, j as int, recipients@.map_values(|v: BVCard| v@)) == Ok::<
        (Seq<VCardView>, int),
        super::types::BMessageErrorView,
    >((recipients@.map_values(|v: BVCard| v@), j as int)));
    let (body, m) = parse_bbody(s, j)?;
    match marker_at_exec(s, m, "END:BENV") {
        Some(p) => Ok((BEnvelope { recipients, body }, p)),
        None => Err(BMessageError::UnterminatedSection("BENV")),
    }
}

/// Parses a bMessage held as characters.
pub fn parse_chars(s: &Vec<char>) -> (r: Result<BMessage, BMessageError>)
    ensures
        match r {
            Ok(m) => parse_spec(s@) == Ok::<_, super::types::BMessageErrorView>(m@),
            Err(e) => parse_spec(s@) == Err::<super::types::BMessageView, _>(e@),
        },
{
    let j = match marker_at_exec(s, 0, "BEGIN:BMSG") {
        Some(j) => j,
        None => return Err(BMessageError::UnterminatedSection("BMSG")),
    };
    proof {
        lemma_marker_at(s@, 0, "BEGIN:BMSG"@);
    }
    let (h, k) = parse_header(s, j)?;
    let status = match h.status {
        Some(st) => st,
        None => return Err(BMessageError::MissingField("STATUS")),
    };
    let type_ = match h.type_ {
        Some(t) => t,
        None => return Err(BMessageError::MissingField("TYPE")),
    };
    let folder = match h.folder {
        Some(f) => f,
        None => return Err(BMessageError::MissingField("FOLDER")),
    };
    let (envelope, m) = parse_benv(s, k)?;
    match marker_at_exec(s, m, "END:BMSG") {
        Some(_) => Ok(BMessage::from_parts(status, type_, folder, h.originator, envelope)),
        None => Err(BMessageError::UnterminatedSection("BMSG")),
    }
}

impl BMessage {
    /// Parses a bMessage from UTF-8 text, accepting CRLF and LF line endings.
    ///
    /// Fails when a required field is absent, a section is unterminated, or STATUS/TYPE hold
    /// unrecognised values.
    pub fn parse(input: &str) -> (r: Result<Self, BMessageError>)
        ensures
            match r {
                Ok(m) => parse_spec(input@) == Ok::<_, super::types::BMessageErrorView>(m@),
                Err(e) => parse_spec(input@) == Err::<super::types::BMessageView, _>(e@),
            },
    {
        let s = str_to_chars(input);
        parse_chars(&s)
    }
}

} // verus!
