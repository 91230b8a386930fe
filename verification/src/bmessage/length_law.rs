//! What the LENGTH field of an encoded message counts: the UTF-8 bytes of the CRLF block from
//! `BEGIN:MSG` to `END:MSG` inclusive.
use vstd::prelude::*;

use super::roundtrip::{lemma_lines_len_exact, lines_bytes};
use super::spec::{crlf, crlf_lines, msg_block_len, text_lines};
use crate::text::{char_utf8_len, utf8_len};

verus! {

/// The UTF-8 length of a concatenation is the sum of the lengths.
proof fn lemma_utf8_len_concat(a: Seq<char>, b: Seq<char>)
    ensures
        utf8_len(a + b) == utf8_len(a) + utf8_len(b),
    decreases b.len(),
{
    if b.len() == 0 {
        assert(a + b =~= a);
    } else {
        lemma_utf8_len_concat(a, b.drop_last());
        assert((a + b).drop_last() =~= a + b.drop_last());
        assert((a + b).last() == b.last());
    }
}

/// An ASCII text takes one byte per character.
proof fn lemma_ascii_utf8_len(s: Seq<char>)
    requires
        forall|k: int| 0 <= k < s.len() ==> (#[trigger] s[k] as u32) < 0x80,
    ensures
        utf8_len(s) == s.len(),
    decreases s.len(),
{
    if s.len() > 0 {
        lemma_ascii_utf8_len(s.drop_last());
        assert(char_utf8_len(s.last()) == 1);
    }
}

/// CRLF lines take the bytes [`lines_bytes`] counts.
proof fn lemma_crlf_lines_bytes(ls: Seq<Seq<char>>)
    ensures
        utf8_len(crlf_lines(ls)) == lines_bytes(ls),
    decreases ls.len(),
{
    if ls.len() > 0 {
        reveal_strlit("\r\n");
        lemma_crlf_lines_bytes(ls.drop_last());
        lemma_utf8_len_concat(crlf_lines(ls.drop_last()), crlf(ls.last()));
        lemma_utf8_len_concat(ls.last(), "\r\n"@);
        lemma_ascii_utf8_len("\r\n"@);
    }
}

/// The LENGTH an encoded message declares is the number of UTF-8 bytes in its CRLF block from
/// `BEGIN:MSG` to `END:MSG` inclusive: 11 for `BEGIN:MSG`, each text line's bytes and two,
/// and 9 for `END:MSG` (whenever that count fits in a `usize`; past it, the count saturates).
pub proof fn lemma_length_counts_block(text: Seq<char>)
    requires
        20 + lines_bytes(text_lines(text)) <= usize::MAX,
    ensures
        msg_block_len(text) == 20 + lines_bytes(text_lines(text)),
        msg_block_len(text) == utf8_len(
            crlf("BEGIN:MSG"@) + crlf_lines(text_lines(text)) + crlf("END:MSG"@),
        ),
{
    let ls = text_lines(text);
    lemma_lines_len_exact(ls, 11);
    reveal_strlit("BEGIN:MSG");
    reveal_strlit("END:MSG");
    reveal_strlit("\r\n");
    let b = crlf("BEGIN:MSG"@);
    let e = crlf("END:MSG"@);
    lemma_ascii_utf8_len(b);
    lemma_ascii_utf8_len(e);
    lemma_crlf_lines_bytes(ls);
    lemma_utf8_len_concat(b, crlf_lines(ls));
    lemma_utf8_len_concat(b + crlf_lines(ls), e);
}

} // verus!
