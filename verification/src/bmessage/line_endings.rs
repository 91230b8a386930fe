//! A bMessage parses the same with LF line endings as with CRLF ones.
//!
//! Positions in a text with CRLF endings map to positions in its LF form by discounting the
//! carriage returns before them; every reader of the grammar gives corresponding results at
//! corresponding positions.
use vstd::prelude::*;

use super::spec::{
    bbody_at, benv_at, body_fields_at, eol_at, header_at, is_key_stop, is_line_break, kv_at, line_at,
    marker_at, msg_at, msg_lines_at, no_body_fields, no_header, parse_spec, prefix_at,
    recipients_at, scan_eol, scan_key, vcard_at, vcard_body_at, BodyFields, HeaderView, PResult,
};
use super::types::VCardView;

verus! {

/// Every carriage return in `s` begins a CRLF pair.
pub open spec fn crlf_only(s: Seq<char>) -> bool {
    forall|k: int| 0 <= k < s.len() && #[trigger] s[k] == '\r' ==> k + 1 < s.len() && s[k + 1] == '\n'
}

/// `s` with every CRLF pair replaced by LF.
pub open spec fn lf_form(s: Seq<char>) -> Seq<char>
    decreases s.len(),
{
    if s.len() >= 2 && s[s.len() - 2] == '\r' && s[s.len() - 1] == '\n' {
        lf_form(s.subrange(0, s.len() - 2)).push('\n')
    } else if s.len() >= 1 {
        lf_form(s.drop_last()).push(s.last())
    } else {
        s
    }
}

/// The number of carriage returns in `s[..i]`.
spec fn cr_count(s: Seq<char>, i: int) -> int
    decreases i,
{
    if i <= 0 {
        0
    } else {
        cr_count(s, i - 1) + if s[i - 1] == '\r' {
            1int
        } else {
            0
        }
    }
}

/// Where position `i` of `s` lands in its LF form.
spec fn at(s: Seq<char>, i: int) -> int {
    i - cr_count(s, i)
}

/// The character the LF form holds for position `k` of `s`.
spec fn lf_char(s: Seq<char>, k: int) -> char {
    if s[k] == '\r' {
        '\n'
    } else {
        s[k]
    }
}

/// `t` is the LF form of `s`, described position by position.
spec fn maps(s: Seq<char>, t: Seq<char>) -> bool {
    &&& crlf_only(s)
    &&& t.len() == at(s, s.len() as int)
    &&& forall|k: int| 0 <= k < s.len() ==> t[#[trigger] at(s, k)] == lf_char(s, k)
}

/// One step of the position map.
proof fn lemma_at_step(s: Seq<char>, k: int)
    requires
        0 <= k,
    ensures
        at(s, k + 1) == at(s, k) + if s[k] == '\r' {
            0int
        } else {
            1
        },
{
}

/// The position map is monotone.
proof fn lemma_at_mono(s: Seq<char>, a: int, b: int)
    requires
        0 <= a <= b,
    ensures
        at(s, a) <= at(s, b),
        0 <= at(s, a),
    decreases b - a,
{
    if a < b {
        lemma_at_step(s, b - 1);
        lemma_at_mono(s, a, b - 1);
    } else {
        lemma_at_nonneg(s, a);
    }
}

proof fn lemma_at_nonneg(s: Seq<char>, a: int)
    requires
        0 <= a,
    ensures
        0 <= at(s, a),
        at(s, a) <= a,
    decreases a,
{
    if a > 0 {
        lemma_at_nonneg(s, a - 1);
    }
}

/// A stretch without carriage returns maps one to one.
proof fn lemma_at_plain(s: Seq<char>, a: int, b: int)
    requires
        0 <= a <= b <= s.len(),
        forall|k: int| a <= k < b ==> s[k] != '\r',
    ensures
        at(s, b) == at(s, a) + (b - a),
    decreases b - a,
{
    if a < b {
        lemma_at_plain(s, a, b - 1);
        lemma_at_step(s, b - 1);
    }
}

/// The carriage-return count of a prefix.
proof fn lemma_cr_prefix(s: Seq<char>, m: int, i: int)
    requires
        0 <= i <= m <= s.len(),
    ensures
        cr_count(s.subrange(0, m), i) == cr_count(s, i),
    decreases i,
{
    if i > 0 {
        lemma_cr_prefix(s, m, i - 1);
    }
}

/// The LF form is described by the position map.
proof fn lemma_lf_form_maps(s: Seq<char>)
    requires
        crlf_only(s),
    ensures
        maps(s, lf_form(s)),
    decreases s.len(),
{
    let n = s.len() as int;
    if n >= 2 && s[n - 2] == '\r' && s[n - 1] == '\n' {
        let p = s.subrange(0, n - 2);
        assert(crlf_only(p)) by {
            assert forall|k: int| 0 <= k < p.len() && #[trigger] p[k] == '\r' implies k + 1 < p.len()
                && p[k + 1] == '\n' by {
                assert(s[k] == '\r');
                if k + 1 == n - 2 {
                    assert(s[k + 1] == '\r');
                }
            }
        }
        lemma_lf_form_maps(p);
        lemma_cr_prefix(s, n - 2, n - 2);
        lemma_at_step(s, n - 2);
        lemma_at_step(s, n - 1);
        let t = lf_form(s);
        assert(t == lf_form(p).push('\n'));
        assert forall|k: int| 0 <= k < s.len() implies t[#[trigger] at(s, k)] == lf_char(s, k) by {
            if k < n - 2 {
                lemma_cr_prefix(s, n - 2, k);
                lemma_cr_prefix(s, n - 2, n - 2);
                lemma_at_step(s, k);
                if s[k] == '\r' {
                    assert(k + 2 <= n - 2);
                    lemma_at_step(s, k + 1);
                    lemma_at_mono(s, k + 2, n - 2);
                } else {
                    lemma_at_mono(s, k + 1, n - 2);
                }
                lemma_at_nonneg(s, k);
                assert(at(p, k) < lf_form(p).len());
                assert(at(p, k) == at(s, k));
                assert(t[at(s, k)] == lf_form(p)[at(p, k)]);
                assert(lf_char(p, k) == lf_char(s, k));
            }
        }
    } else if n >= 1 {
        let p = s.drop_last();
        assert(s.last() != '\r');
        assert(crlf_only(p)) by {
            assert forall|k: int| 0 <= k < p.len() && #[trigger] p[k] == '\r' implies k + 1 < p.len()
                && p[k + 1] == '\n' by {
                assert(s[k] == '\r');
                assert(k + 1 < n && s[k + 1] == '\n');
                if k + 1 == n - 1 {
                    assert(s[n - 2] == '\r' && s[n - 1] == '\n');
                }
            }
        }
        lemma_lf_form_maps(p);
        lemma_cr_prefix(s, n - 1, n - 1);
        lemma_at_step(s, n - 1);
        let t = lf_form(s);
        assert(t == lf_form(p).push(s.last()));
        assert forall|k: int| 0 <= k < s.len() implies t[#[trigger] at(s, k)] == lf_char(s, k) by {
            if k < n - 1 {
                lemma_cr_prefix(s, n - 1, k);
                lemma_cr_prefix(s, n - 1, n - 1);
                lemma_at_step(s, k);
                if s[k] == '\r' {
                    assert(k + 2 <= n - 1);
                    lemma_at_step(s, k + 1);
                    lemma_at_mono(s, k + 2, n - 1);
                } else {
                    lemma_at_mono(s, k + 1, n - 1);
                }
                lemma_at_nonneg(s, k);
                assert(at(p, k) < lf_form(p).len());
                assert(at(p, k) == at(s, k));
                assert(t[at(s, k)] == lf_form(p)[at(p, k)]);
                assert(lf_char(p, k) == lf_char(s, k));
            }
        }
    }
}

/// The LF form holds the character for each position, in range.
proof fn lemma_index(s: Seq<char>, t: Seq<char>, k: int)
    requires
        maps(s, t),
        0 <= k < s.len(),
    ensures
        0 <= at(s, k) < t.len(),
        t[at(s, k)] == lf_char(s, k),
{
    lemma_at_nonneg(s, k);
    lemma_at_step(s, k);
    if s[k] == '\r' {
        lemma_at_step(s, k + 1);
        lemma_at_mono(s, k + 2, s.len() as int);
    } else {
        lemma_at_mono(s, k + 1, s.len() as int);
    }
}

/// A line ends at `scan_eol`: no line break before it, and a line break (or the end) there.
proof fn lemma_scan_eol_props(x: Seq<char>, i: int)
    requires
        0 <= i <= x.len(),
    ensures
        i <= scan_eol(x, i) <= x.len(),
        forall|k: int| i <= k < scan_eol(x, i) ==> !is_line_break(#[trigger] x[k]),
        scan_eol(x, i) < x.len() ==> is_line_break(x[scan_eol(x, i)]),
    decreases x.len() - i,
{
    if i < x.len() && !is_line_break(x[i]) {
        lemma_scan_eol_props(x, i + 1);
    }
}

/// A property name ends at `scan_key`: no stop before it, and a stop (or the end) there.
proof fn lemma_scan_key_props(x: Seq<char>, i: int)
    requires
        0 <= i <= x.len(),
    ensures
        i <= scan_key(x, i) <= x.len(),
        forall|k: int| i <= k < scan_key(x, i) ==> !is_key_stop(#[trigger] x[k]),
        scan_key(x, i) < x.len() ==> is_key_stop(x[scan_key(x, i)]),
    decreases x.len() - i,
{
    if i < x.len() && !is_key_stop(x[i]) {
        lemma_scan_key_props(x, i + 1);
    }
}

/// A line read at `i` ends after `i`.
proof fn lemma_line_advances(x: Seq<char>, i: int)
    requires
        0 <= i <= x.len(),
    ensures
        line_at(x, i) matches Some((e, n)) ==> i <= e < n <= x.len(),
{
    lemma_scan_eol_props(x, i);
}

/// The end of a line maps to the end of the line.
proof fn lemma_scan_eol_maps(s: Seq<char>, t: Seq<char>, i: int)
    requires
        maps(s, t),
        0 <= i <= s.len(),
    ensures
        scan_eol(t, at(s, i)) == at(s, scan_eol(s, i)),
    decreases s.len() - i,
{
    if i < s.len() {
        lemma_index(s, t, i);
        lemma_at_step(s, i);
        if !is_line_break(s[i]) {
            lemma_scan_eol_maps(s, t, i + 1);
        }
    }
}

/// The end of a property name maps to the end of the name.
proof fn lemma_scan_key_maps(s: Seq<char>, t: Seq<char>, i: int)
    requires
        maps(s, t),
        0 <= i <= s.len(),
    ensures
        scan_key(t, at(s, i)) == at(s, scan_key(s, i)),
    decreases s.len() - i,
{
    if i < s.len() {
        lemma_index(s, t, i);
        lemma_at_step(s, i);
        if !is_key_stop(s[i]) {
            lemma_scan_key_maps(s, t, i + 1);
        }
    }
}

/// A line ending maps to a line ending.
proof fn lemma_eol_at_maps(s: Seq<char>, t: Seq<char>, e: int)
    requires
        maps(s, t),
        0 <= e <= s.len(),
    ensures
        eol_at(t, at(s, e)) == match eol_at(s, e) {
            Some(n) => Some(at(s, n)),
            None => None::<int>,
        },
{
    if e < s.len() {
        lemma_index(s, t, e);
        lemma_at_step(s, e);
        if s[e] == '\r' {
            lemma_at_step(s, e + 1);
        }
        if s[e] != '\r' && s[e] != '\n' && at(s, e) + 1 < t.len() {
            // The LF form holds no carriage return.
            assert(t[at(s, e)] != '\r');
        }
    } else {
        assert(at(s, e) == t.len());
    }
}

/// A stretch of `s` without carriage returns reads the same in the LF form.
proof fn lemma_plain_text(s: Seq<char>, t: Seq<char>, a: int, b: int)
    requires
        maps(s, t),
        0 <= a <= b <= s.len(),
        forall|k: int| a <= k < b ==> s[k] != '\r',
    ensures
        at(s, b) == at(s, a) + (b - a),
        t.subrange(at(s, a), at(s, b)) == s.subrange(a, b),
{
    lemma_at_plain(s, a, b);
    lemma_at_nonneg(s, a);
    lemma_at_mono(s, b, s.len() as int);
    assert forall|j: int| 0 <= j < b - a implies t.subrange(at(s, a), at(s, b))[j] == s.subrange(
        a,
        b,
    )[j] by {
        lemma_at_plain(s, a, a + j);
        lemma_index(s, t, a + j);
    }
    assert(t.subrange(at(s, a), at(s, b)) =~= s.subrange(a, b));
}

/// A line reads the same, at the mapped positions.
proof fn lemma_line_at_maps(s: Seq<char>, t: Seq<char>, i: int)
    requires
        maps(s, t),
        0 <= i <= s.len(),
    ensures
        line_at(t, at(s, i)) == match line_at(s, i) {
            Some((e, n)) => Some((at(s, e), at(s, n))),
            None => None::<(int, int)>,
        },
        line_at(s, i) matches Some((e, n)) ==> t.subrange(at(s, i), at(s, e)) == s.subrange(i, e)
            && i <= e < n <= s.len() && at(s, i) < at(s, n),
{
    lemma_scan_eol_props(s, i);
    lemma_at_mono(s, scan_eol(s, i), s.len() as int);
    if scan_eol(s, i) < s.len() {
        lemma_at_step(s, scan_eol(s, i));
        if s[scan_eol(s, i)] == '\r' {
            lemma_at_step(s, scan_eol(s, i) + 1);
        }
    }
    lemma_scan_eol_maps(s, t, i);
    let e = scan_eol(s, i);
    lemma_eol_at_maps(s, t, e);
    lemma_plain_text(s, t, i, e);
}

/// A `KEY:VALUE` line reads the same, at the mapped positions.
proof fn lemma_kv_at_maps(s: Seq<char>, t: Seq<char>, i: int)
    requires
        maps(s, t),
        0 <= i <= s.len(),
    ensures
        kv_at(t, at(s, i)) == match kv_at(s, i) {
            Some((k, e, n)) => Some((at(s, k), at(s, e), at(s, n))),
            None => None::<(int, int, int)>,
        },
        kv_at(s, i) matches Some((k, e, n)) ==> t.subrange(at(s, i), at(s, k)) == s.subrange(i, k)
            && t.subrange(at(s, k) + 1, at(s, e)) == s.subrange(k + 1, e) && i < k < n <= s.len()
            && at(s, i) < at(s, n),
{
    lemma_scan_key_props(s, i);
    lemma_scan_key_maps(s, t, i);
    let k = scan_key(s, i);
    lemma_plain_text(s, t, i, k);
    if k < s.len() {
        lemma_index(s, t, k);
        if s[k] == ':' {
            lemma_at_step(s, k);
            lemma_line_at_maps(s, t, k + 1);
            lemma_at_mono(s, k + 1, s.len() as int);
        }
    } else {
        assert(at(s, k) == t.len());
    }
}

/// A marker text (no line breaks) is at `i` exactly when it is at the mapped position, and ends
/// where its mapped copy ends.
proof fn lemma_prefix_maps(s: Seq<char>, t: Seq<char>, i: int, p: Seq<char>)
    requires
        maps(s, t),
        0 <= i <= s.len(),
        plain(p),
    ensures
        prefix_at(t, at(s, i), p) == prefix_at(s, i, p),
        prefix_at(s, i, p) ==> at(s, i + p.len()) == at(s, i) + p.len(),
{
    lemma_at_nonneg(s, i);
    if prefix_at(s, i, p) {
        assert forall|k: int| i <= k < i + p.len() implies s[k] != '\r' by {
            assert(s[k] == s.subrange(i, i + p.len())[k - i]);
        }
        lemma_plain_text(s, t, i, i + p.len());
        lemma_at_mono(s, i + p.len(), s.len() as int);
        assert(t.subrange(at(s, i), at(s, i) + p.len()) == p);
        assert(prefix_at(t, at(s, i), p));
    } else if prefix_at(t, at(s, i), p) {
        lemma_prefix_back(s, t, i, p, 0);
        assert(s.subrange(i, i + p.len()) =~= p);
        assert(prefix_at(s, i, p));
    }
}

/// If the mapped copy holds `p`, so does `s`, character by character from `j` on.
proof fn lemma_prefix_back(s: Seq<char>, t: Seq<char>, i: int, p: Seq<char>, j: int)
    requires
        maps(s, t),
        0 <= i <= s.len(),
        0 <= j <= p.len(),
        plain(p),
        prefix_at(t, at(s, i), p),
        i + j <= s.len(),
        at(s, i + j) == at(s, i) + j,
        forall|q: int| 0 <= q < j ==> s[i + q] == #[trigger] p[q],
    ensures
        i + p.len() <= s.len(),
        forall|q: int| 0 <= q < p.len() ==> s[i + q] == #[trigger] p[q],
    decreases p.len() - j,
{
    if j < p.len() {
        assert(t[at(s, i) + j] == p[j]) by {
            assert(t.subrange(at(s, i), at(s, i) + p.len())[j] == t[at(s, i) + j]);
        }
        if i + j == s.len() {
            assert(at(s, i + j) == t.len());
        }
        lemma_index(s, t, i + j);
        lemma_at_step(s, i + j);
        lemma_prefix_back(s, t, i, p, j + 1);
    }
}

/// A text without line breaks.
spec fn plain(p: Seq<char>) -> bool {
    forall|j: int| 0 <= j < p.len() ==> #[trigger] p[j] != '\r' && p[j] != '\n'
}

/// A marker line reads the same, at the mapped positions.
proof fn lemma_marker_at_maps(s: Seq<char>, t: Seq<char>, i: int, p: Seq<char>)
    requires
        maps(s, t),
        0 <= i <= s.len(),
        plain(p),
    ensures
        marker_at(t, at(s, i), p) == match marker_at(s, i, p) {
            Some(n) => Some(at(s, n)),
            None => None::<int>,
        },
        marker_at(s, i, p) matches Some(n) ==> i < n <= s.len(),
{
    lemma_prefix_maps(s, t, i, p);
    if prefix_at(s, i, p) {
        lemma_eol_at_maps(s, t, i + p.len());
    }
    lemma_marker_advances(s, i, p);
}

/// A marker line read at `i` ends after `i`.
proof fn lemma_marker_advances(x: Seq<char>, i: int, p: Seq<char>)
    requires
        0 <= i <= x.len(),
    ensures
        marker_at(x, i, p) matches Some(n) ==> i < n <= x.len(),
{
}

/// A parse result with its position mapped to the LF form.
spec fn moved<T>(s: Seq<char>, r: PResult<T>) -> PResult<T> {
    match r {
        Ok((v, j)) => Ok((v, at(s, j))),
        Err(e) => Err(e),
    }
}

/// The grammar's marker texts hold no line break.
proof fn lemma_markers_plain()
    ensures
        plain("BEGIN:BMSG"@),
        plain("END:BMSG"@),
        plain("BEGIN:VCARD"@),
        plain("END:VCARD"@),
        plain("BEGIN:BENV"@),
        plain("END:BENV"@),
        plain("BEGIN:BBODY"@),
        plain("END:BBODY"@),
        plain("BEGIN:MSG"@),
        plain("END:MSG"@),
{
    reveal_strlit("BEGIN:BMSG");
    reveal_strlit("END:BMSG");
    reveal_strlit("BEGIN:VCARD");
    reveal_strlit("END:VCARD");
    reveal_strlit("BEGIN:BENV");
    reveal_strlit("END:BENV");
    reveal_strlit("BEGIN:BBODY");
    reveal_strlit("END:BBODY");
    reveal_strlit("BEGIN:MSG");
    reveal_strlit("END:MSG");
}

/// A vCard body read at `i` ends after `i`.
proof fn lemma_vcard_body_advances(x: Seq<char>, i: int, name: Seq<char>, tel: Seq<char>)
    requires
        0 <= i <= x.len(),
    ensures
        vcard_body_at(x, i, name, tel) matches Ok((_, j)) ==> i < j <= x.len(),
    decreases x.len() - i,
{
    lemma_marker_advances(x, i, "END:VCARD"@);
    if !prefix_at(x, i, "END:VCARD"@) {
        lemma_scan_key_props(x, i);
        if let Some((k, e, n)) = kv_at(x, i) {
            lemma_line_advances(x, k + 1);
            if n > i {
                let v = x.subrange(k + 1, e);
                lemma_vcard_body_advances(x, n, v, tel);
                lemma_vcard_body_advances(x, n, name, v);
                lemma_vcard_body_advances(x, n, name, tel);
            }
        }
    }
}

/// A vCard read at `i` ends after `i`.
proof fn lemma_vcard_advances(x: Seq<char>, i: int)
    requires
        0 <= i <= x.len(),
    ensures
        vcard_at(x, i) matches Ok((_, j)) ==> i < j <= x.len(),
{
    lemma_marker_advances(x, i, "BEGIN:VCARD"@);
    if let Some(j) = marker_at(x, i, "BEGIN:VCARD"@) {
        lemma_vcard_body_advances(x, j, Seq::empty(), Seq::empty());
    }
}

proof fn lemma_vcard_body_maps(s: Seq<char>, t: Seq<char>, i: int, name: Seq<char>, tel: Seq<char>)
    requires
        maps(s, t),
        0 <= i <= s.len(),
    ensures
        vcard_body_at(t, at(s, i), name, tel) == moved(s, vcard_body_at(s, i, name, tel)),
    decreases s.len() - i,
{
    lemma_markers_plain();
    lemma_prefix_maps(s, t, i, "END:VCARD"@);
    if prefix_at(s, i, "END:VCARD"@) {
        lemma_marker_at_maps(s, t, i, "END:VCARD"@);
    } else {
        lemma_kv_at_maps(s, t, i);
        if let Some((k, e, n)) = kv_at(s, i) {
            let v = s.subrange(k + 1, e);
            lemma_vcard_body_maps(s, t, n, v, tel);
            lemma_vcard_body_maps(s, t, n, name, v);
            lemma_vcard_body_maps(s, t, n, name, tel);
        }
    }
}

proof fn lemma_vcard_maps(s: Seq<char>, t: Seq<char>, i: int)
    requires
        maps(s, t),
        0 <= i <= s.len(),
    ensures
        vcard_at(t, at(s, i)) == moved(s, vcard_at(s, i)),
        vcard_at(s, i) matches Ok((_, j)) ==> i < j <= s.len(),
{
    lemma_markers_plain();
    lemma_marker_at_maps(s, t, i, "BEGIN:VCARD"@);
    lemma_vcard_advances(s, i);
    if let Some(j) = marker_at(s, i, "BEGIN:VCARD"@) {
        lemma_vcard_body_maps(s, t, j, Seq::empty(), Seq::empty());
    }
}

proof fn lemma_header_maps(s: Seq<char>, t: Seq<char>, i: int, h: HeaderView)
    requires
        maps(s, t),
        0 <= i <= s.len(),
    ensures
        header_at(t, at(s, i), h) == moved(s, header_at(s, i, h)),
        header_at(s, i, h) matches Ok((_, k)) ==> i <= k <= s.len(),
    decreases s.len() - i,
{
    lemma_markers_plain();
    lemma_prefix_maps(s, t, i, "BEGIN:VCARD"@);
    lemma_prefix_maps(s, t, i, "BEGIN:BENV"@);
    lemma_prefix_maps(s, t, i, "END:BMSG"@);
    lemma_at_mono(s, i, s.len() as int);
    if prefix_at(s, i, "BEGIN:VCARD"@) {
        lemma_vcard_maps(s, t, i);
        lemma_vcard_advances(t, at(s, i));
        if let Ok((vc, j)) = vcard_at(s, i) {
            lemma_header_maps(s, t, j, HeaderView { originator: Some(vc), ..h });
        }
    } else if prefix_at(s, i, "BEGIN:BENV"@) {
    } else if prefix_at(s, i, "END:BMSG"@) {
    } else {
        lemma_kv_at_maps(s, t, i);
        if let Some((k, e, n)) = kv_at(s, i) {
            let v = s.subrange(k + 1, e);
            if let Some(st) = super::spec::status_of(v) {
                lemma_header_maps(s, t, n, HeaderView { status: Some(st), ..h });
            }
            lemma_header_maps(s, t, n, HeaderView { has_type: true, ..h });
            lemma_header_maps(s, t, n, HeaderView { folder: Some(v), ..h });
            lemma_header_maps(s, t, n, h);
        }
    }
}

proof fn lemma_body_fields_maps(s: Seq<char>, t: Seq<char>, i: int, f: BodyFields)
    requires
        maps(s, t),
        0 <= i <= s.len(),
    ensures
        body_fields_at(t, at(s, i), f) == moved(s, body_fields_at(s, i, f)),
        body_fields_at(s, i, f) matches Ok((_, k)) ==> i <= k <= s.len(),
    decreases s.len() - i,
{
    lemma_markers_plain();
    lemma_prefix_maps(s, t, i, "BEGIN:MSG"@);
    if !prefix_at(s, i, "BEGIN:MSG"@) {
        lemma_kv_at_maps(s, t, i);
        if let Some((k, e, n)) = kv_at(s, i) {
            let v = s.subrange(k + 1, e);
            lemma_body_fields_maps(s, t, n, BodyFields { encoding: v, ..f });
            lemma_body_fields_maps(s, t, n, BodyFields { charset: v, ..f });
            lemma_body_fields_maps(s, t, n, BodyFields { language: v, ..f });
            lemma_body_fields_maps(
                s,
                t,
                n,
                BodyFields { length: crate::text::parse_usize_spec(v), ..f },
            );
            lemma_body_fields_maps(s, t, n, f);
        }
    }
}

proof fn lemma_msg_lines_maps(
    s: Seq<char>,
    t: Seq<char>,
    i: int,
    budget: nat,
    consumed: nat,
    text: Seq<char>,
)
    requires
        maps(s, t),
        0 <= i <= s.len(),
    ensures
        msg_lines_at(t, at(s, i), budget, consumed, text) == moved(
            s,
            msg_lines_at(s, i, budget, consumed, text),
        ),
        msg_lines_at(s, i, budget, consumed, text) matches Ok((_, k)) ==> i <= k <= s.len(),
    decreases s.len() - i,
{
    if consumed < budget {
        lemma_line_at_maps(s, t, i);
        if let Some((e, n)) = line_at(s, i) {
            let line = s.subrange(i, e);
            lemma_msg_lines_maps(
                s,
                t,
                n,
                budget,
                crate::text::sat_add(
                    consumed,
                    crate::text::sat_add(crate::text::utf8_len(line), 2),
                ),
                super::spec::join_line(text, line),
            );
        }
    }
}

proof fn lemma_msg_maps(s: Seq<char>, t: Seq<char>, i: int, length: usize)
    requires
        maps(s, t),
        0 <= i <= s.len(),
    ensures
        msg_at(t, at(s, i), length) == moved(s, msg_at(s, i, length)),
        msg_at(s, i, length) matches Ok((_, k)) ==> i <= k <= s.len(),
{
    lemma_markers_plain();
    lemma_marker_at_maps(s, t, i, "BEGIN:MSG"@);
    if let Some(j) = marker_at(s, i, "BEGIN:MSG"@) {
        lemma_msg_lines_maps(s, t, j, super::spec::msg_budget(length), 0, Seq::empty());
        if let Ok((_, k)) = msg_lines_at(s, j, super::spec::msg_budget(length), 0, Seq::empty()) {
            lemma_marker_at_maps(s, t, k, "END:MSG"@);
        }
    }
}

proof fn lemma_bbody_maps(s: Seq<char>, t: Seq<char>, i: int)
    requires
        maps(s, t),
        0 <= i <= s.len(),
    ensures
        bbody_at(t, at(s, i)) == moved(s, bbody_at(s, i)),
        bbody_at(s, i) matches Ok((_, k)) ==> i <= k <= s.len(),
{
    lemma_markers_plain();
    lemma_marker_at_maps(s, t, i, "BEGIN:BBODY"@);
    if let Some(j) = marker_at(s, i, "BEGIN:BBODY"@) {
        lemma_body_fields_maps(s, t, j, no_body_fields());
        if let Ok((f, k)) = body_fields_at(s, j, no_body_fields()) {
            if let Some(len) = f.length {
                lemma_msg_maps(s, t, k, len);
                if let Ok((_, m)) = msg_at(s, k, len) {
                    lemma_marker_at_maps(s, t, m, "END:BBODY"@);
                }
            }
        }
    }
}

proof fn lemma_recipients_maps(s: Seq<char>, t: Seq<char>, i: int, acc: Seq<VCardView>)
    requires
        maps(s, t),
        0 <= i <= s.len(),
    ensures
        recipients_at(t, at(s, i), acc) == moved(s, recipients_at(s, i, acc)),
        recipients_at(s, i, acc) matches Ok((_, k)) ==> i <= k <= s.len(),
    decreases s.len() - i,
{
    lemma_markers_plain();
    lemma_prefix_maps(s, t, i, "BEGIN:VCARD"@);
    lemma_at_mono(s, i, s.len() as int);
    if prefix_at(s, i, "BEGIN:VCARD"@) {
        lemma_vcard_maps(s, t, i);
        lemma_vcard_advances(t, at(s, i));
        if let Ok((vc, j)) = vcard_at(s, i) {
            lemma_recipients_maps(s, t, j, acc.push(vc));
        }
    }
}

proof fn lemma_benv_maps(s: Seq<char>, t: Seq<char>, i: int)
    requires
        maps(s, t),
        0 <= i <= s.len(),
    ensures
        benv_at(t, at(s, i)) == moved(s, benv_at(s, i)),
        benv_at(s, i) matches Ok((_, k)) ==> i <= k <= s.len(),
{
    lemma_markers_plain();
    lemma_marker_at_maps(s, t, i, "BEGIN:BENV"@);
    if let Some(j) = marker_at(s, i, "BEGIN:BENV"@) {
        lemma_recipients_maps(s, t, j, Seq::empty());
        if let Ok((_, k)) = recipients_at(s, j, Seq::empty()) {
            lemma_bbody_maps(s, t, k);
            if let Ok((_, m)) = bbody_at(s, k) {
                lemma_marker_at_maps(s, t, m, "END:BENV"@);
            }
        }
    }
}

/// A bMessage parses the same with LF line endings as with CRLF ones: replacing every CRLF pair
/// of a text whose carriage returns all begin such a pair by LF leaves the parse result, message
/// or error, unchanged.
pub proof fn lemma_lf_parses_alike(s: Seq<char>)
    requires
        crlf_only(s),
    ensures
        parse_spec(lf_form(s)) == parse_spec(s),
{
    let t = lf_form(s);
    lemma_lf_form_maps(s);
    lemma_markers_plain();
    assert(at(s, 0) == 0);
    lemma_marker_at_maps(s, t, 0, "BEGIN:BMSG"@);
    if let Some(j) = marker_at(s, 0, "BEGIN:BMSG"@) {
        lemma_header_maps(s, t, j, no_header());
        if let Ok((_, k)) = header_at(s, j, no_header()) {
            lemma_benv_maps(s, t, k);
            if let Ok((_, m)) = benv_at(s, k) {
                lemma_marker_at_maps(s, t, m, "END:BMSG"@);
            }
        }
    }
}

} // verus!
