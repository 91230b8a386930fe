//! Character-level helpers shared by the wire-format modules: UTF-8 lengths, decimal numbers
//! and building strings from characters.
use vstd::prelude::*;
use vstd::std_specs::iter::IteratorSpec;

verus! {

/// Number of bytes in the UTF-8 encoding of `c`.
pub open spec fn char_utf8_len(c: char) -> nat {
    let u = c as u32;
    if u < 0x80 {
        1
    } else if u < 0x800 {
        2
    } else if u < 0x10000 {
        3
    } else {
        4
    }
}

/// Number of bytes in the UTF-8 encoding of `s`.
pub open spec fn utf8_len(s: Seq<char>) -> nat
    decreases s.len(),
{
    if s.len() == 0 {
        0
    } else {
        utf8_len(s.drop_last()) + char_utf8_len(s.last())
    }
}

/// `a + b`, saturating at `usize::MAX` (as `usize::saturating_add` does).
pub open spec fn sat_add(a: nat, b: nat) -> nat {
    if a + b > usize::MAX {
        usize::MAX as nat
    } else {
        a + b
    }
}

/// `'0'..='9'`.
pub open spec fn is_digit(c: char) -> bool {
    '0' <= c && c <= '9'
}

/// The value of a digit character.
pub open spec fn digit_value(c: char) -> nat {
    if is_digit(c) {
        (c as u32 - '0' as u32) as nat
    } else {
        0
    }
}

/// The digit character for `d < 10`.
pub open spec fn digit_char(d: nat) -> char {
    if d == 0 {
        '0'
    } else if d == 1 {
        '1'
    } else if d == 2 {
        '2'
    } else if d == 3 {
        '3'
    } else if d == 4 {
        '4'
    } else if d == 5 {
        '5'
    } else if d == 6 {
        '6'
    } else if d == 7 {
        '7'
    } else if d == 8 {
        '8'
    } else {
        '9'
    }
}

/// The value of a string of decimal digits (most significant first).
pub open spec fn digits_value(s: Seq<char>) -> nat
    decreases s.len(),
{
    if s.len() == 0 {
        0
    } else {
        digits_value(s.drop_last()) * 10 + digit_value(s.last())
    }
}

/// Every character of `s` is a decimal digit.
pub open spec fn all_digits(s: Seq<char>) -> bool {
    forall|k: int| 0 <= k < s.len() ==> is_digit(#[trigger] s[k])
}

/// What `str::parse::<usize>` accepts: an optional `+`, then one or more decimal digits whose
/// value fits in a `usize`.
pub open spec fn parse_usize_spec(s: Seq<char>) -> Option<usize> {
    let d = if s.len() > 0 && s[0] == '+' {
        s.drop_first()
    } else {
        s
    };
    if d.len() > 0 && all_digits(d) && digits_value(d) <= usize::MAX {
        Some(digits_value(d) as usize)
    } else {
        None
    }
}

/// The shortest decimal spelling of `n`.
pub open spec fn decimal(n: nat) -> Seq<char>
    decreases n,
{
    if n < 10 {
        seq![digit_char(n)]
    } else {
        decimal(n / 10).push(digit_char(n % 10))
    }
}

/// The characters of `s`, in order.
pub fn str_to_chars(s: &str) -> (v: Vec<char>)
    ensures
        v@ == s@,
{
    let mut v: Vec<char> = Vec::new();
    for c in it: s.chars()
        invariant
            v@ == it.seq().take(it.index() as int),
    {
        v.push(c);
    }
    v
}

/// Appends one character to `s` (`String::push`).
///
/// Trusted: as std documents, `push` appends the character to the end of the string.
#[verifier::external_body]
pub(crate) fn push_char(s: &mut String, c: char)
    ensures
        final(s)@ == old(s)@.push(c),
{
    s.push(c);
}

/// Appends `v[from..to]` to `out`.
pub fn push_chars(out: &mut String, v: &Vec<char>, from: usize, to: usize)
    requires
        from <= to <= v@.len(),
    ensures
        final(out)@ == old(out)@ + v@.subrange(from as int, to as int),
{
    let mut k = from;
    while k < to
        invariant
            from <= k <= to <= v@.len(),
            out@ == old(out)@ + v@.subrange(from as int, k as int),
        decreases to - k,
    {
        push_char(out, v[k]);
        k = k + 1;
        assert(v@.subrange(from as int, k as int) == v@.subrange(from as int, k - 1).push(
            v@[k - 1],
        ));
    }
}

/// A string holding `v[from..to]`.
pub fn string_of(v: &Vec<char>, from: usize, to: usize) -> (s: String)
    requires
        from <= to <= v@.len(),
    ensures
        s@ == v@.subrange(from as int, to as int),
{
    let mut s = String::new();
    push_chars(&mut s, v, from, to);
    s
}

/// `v[from..to] == p`.
pub fn chars_eq(v: &Vec<char>, from: usize, to: usize, p: &str) -> (b: bool)
    requires
        from <= to <= v@.len(),
    ensures
        b == (v@.subrange(from as int, to as int) == p@),
{
    let pv = str_to_chars(p);
    if to - from != pv.len() {
        return false;
    }
    let mut k: usize = 0;
    while k < pv.len()
        invariant
            from <= to <= v@.len(),
            to - from == pv@.len(),
            k <= pv@.len(),
            pv@ == p@,
            forall|j: int| 0 <= j < k ==> v@[from + j] == pv@[j],
        decreases pv.len() - k,
    {
        if v[from + k] != pv[k] {
            assert(v@.subrange(from as int, to as int)[k as int] != p@[k as int]);
            return false;
        }
        k = k + 1;
    }
    assert(v@.subrange(from as int, to as int) =~= p@);
    true
}

/// `v` holds `p` at position `i`.
pub fn prefix_eq(v: &Vec<char>, i: usize, p: &str) -> (b: bool)
    requires
        i <= v@.len(),
    ensures
        b == (i + p@.len() <= v@.len() && v@.subrange(i as int, i + p@.len()) == p@),
{
    let n = p.unicode_len();
    if n > v.len() - i {
        return false;
    }
    chars_eq(v, i, i + n, p)
}

/// The UTF-8 length of one character.
pub fn char_len_utf8(c: char) -> (n: usize)
    ensures
        n == char_utf8_len(c),
{
    let u = c as u32;
    if u < 0x80 {
        1
    } else if u < 0x800 {
        2
    } else if u < 0x10000 {
        3
    } else {
        4
    }
}

/// The UTF-8 length of `v[from..to]`, saturating at `usize::MAX`.
pub fn utf8_len_of(v: &Vec<char>, from: usize, to: usize) -> (n: usize)
    requires
        from <= to <= v@.len(),
    ensures
        n == if utf8_len(v@.subrange(from as int, to as int)) > usize::MAX {
            usize::MAX as nat
        } else {
            utf8_len(v@.subrange(from as int, to as int))
        },
{
    let mut n: usize = 0;
    let mut k = from;
    while k < to
        invariant
            from <= k <= to <= v@.len(),
            n == if utf8_len(v@.subrange(from as int, k as int)) > usize::MAX {
                usize::MAX as nat
            } else {
                utf8_len(v@.subrange(from as int, k as int))
            },
        decreases to - k,
    {
        let w = char_len_utf8(v[k]);
        n = n.saturating_add(w);
        k = k + 1;
        assert(v@.subrange(from as int, k as int).drop_last() == v@.subrange(
            from as int,
            k - 1,
        ));
    }
    n
}

/// Adding a saturated count is the same as adding the exact one.
pub proof fn lemma_sat_add_capped(a: nat, b: nat)
    ensures
        sat_add(
            a,
            if b > usize::MAX {
                usize::MAX as nat
            } else {
                b
            },
        ) == sat_add(a, b),
{
}

/// The digit character for `d < 10`.
pub fn digit_to_char(d: u64) -> (c: char)
    requires
        d < 10,
    ensures
        c == digit_char(d as nat),
{
    if d == 0 {
        '0'
    } else if d == 1 {
        '1'
    } else if d == 2 {
        '2'
    } else if d == 3 {
        '3'
    } else if d == 4 {
        '4'
    } else if d == 5 {
        '5'
    } else if d == 6 {
        '6'
    } else if d == 7 {
        '7'
    } else if d == 8 {
        '8'
    } else {
        '9'
    }
}

/// Appends the decimal spelling of `n` to `out`.
pub fn push_decimal(out: &mut String, n: u64)
    ensures
        final(out)@ == old(out)@ + decimal(n as nat),
    decreases n,
{
    if n >= 10 {
        push_decimal(out, n / 10);
    }
    push_char(out, digit_to_char(n % 10));
    assert(final(out)@ == old(out)@ + decimal(n as nat));
}

/// A longer digit string is worth at least as much as its prefix.
pub proof fn lemma_digits_value_prefix(s: Seq<char>, k: int)
    requires
        0 <= k <= s.len(),
    ensures
        digits_value(s.subrange(0, k)) <= digits_value(s),
    decreases s.len() - k,
{
    if k < s.len() {
        lemma_digits_value_prefix(s, k + 1);
        assert(s.subrange(0, k + 1).drop_last() == s.subrange(0, k));
    }
    if k == s.len() {
        assert(s.subrange(0, k) == s);
    }
}

/// `v[from..to]` read as `str::parse::<usize>` reads it.
pub fn parse_usize(v: &Vec<char>, from: usize, to: usize) -> (r: Option<usize>)
    requires
        from <= to <= v@.len(),
    ensures
        r == parse_usize_spec(v@.subrange(from as int, to as int)),
{
    let ghost s = v@.subrange(from as int, to as int);
    let start = if from < to && v[from] == '+' {
        from + 1
    } else {
        from
    };
    let ghost d = v@.subrange(start as int, to as int);
    assert(d == if s.len() > 0 && s[0] == '+' {
        s.drop_first()
    } else {
        s
    });
    if start == to {
        return None;
    }
    let mut acc: usize = 0;
    let mut k = start;
    while k < to
        invariant
            from <= start < to <= v@.len(),
            start <= k <= to,
            d == v@.subrange(start as int, to as int),
            s == v@.subrange(from as int, to as int),
            d == if s.len() > 0 && s[0] == '+' {
                s.drop_first()
            } else {
                s
            },
            all_digits(v@.subrange(start as int, k as int)),
            acc as nat == digits_value(v@.subrange(start as int, k as int)),
        decreases to - k,
    {
        let c = v[k];
        if !('0' <= c && c <= '9') {
            assert(!is_digit(d[k - start]));
            return None;
        }
        let dv = (c as u32 - '0' as u32) as usize;
        assert(v@.subrange(start as int, k + 1).drop_last() == v@.subrange(start as int, k as int));
        if acc > (usize::MAX - dv) / 10 {
            proof {
                assert(digits_value(v@.subrange(start as int, k + 1)) > usize::MAX);
                assert(d.subrange(0, k + 1 - start) == v@.subrange(start as int, k + 1));
                lemma_digits_value_prefix(d, k + 1 - start);
            }
            return None;
        }
        acc = acc * 10 + dv;
        k = k + 1;
    }
    Some(acc)
}

/// Unicode `White_Space`, as `char::is_whitespace` decides it.
pub open spec fn is_whitespace(c: char) -> bool {
    ||| ('\t' <= c && c <= '\r')
    ||| c == ' '
    ||| c == '\u{85}'
    ||| c == '\u{a0}'
    ||| c == '\u{1680}'
    ||| ('\u{2000}' <= c && c <= '\u{200a}')
    ||| c == '\u{2028}'
    ||| c == '\u{2029}'
    ||| c == '\u{202f}'
    ||| c == '\u{205f}'
    ||| c == '\u{3000}'
}

/// `c.is_whitespace()`.
pub fn char_is_whitespace(c: char) -> (b: bool)
    ensures
        b == is_whitespace(c),
{
    ('\t' <= c && c <= '\r') || c == ' ' || c == '\u{85}' || c == '\u{a0}' || c == '\u{1680}'
        || ('\u{2000}' <= c && c <= '\u{200a}') || c == '\u{2028}' || c == '\u{2029}'
        || c == '\u{202f}' || c == '\u{205f}' || c == '\u{3000}'
}

/// `s` with every whitespace character removed: what `s.split_whitespace().collect::<String>()`
/// builds, since the pieces between whitespace runs are joined with nothing between them.
pub open spec fn strip_whitespace(s: Seq<char>) -> Seq<char>
    decreases s.len(),
{
    if s.len() == 0 {
        s
    } else if is_whitespace(s.last()) {
        strip_whitespace(s.drop_last())
    } else {
        strip_whitespace(s.drop_last()).push(s.last())
    }
}

/// Removes every whitespace character from `s`.
pub fn without_whitespace(s: &str) -> (r: String)
    ensures
        r@ == strip_whitespace(s@),
{
    let v = str_to_chars(s);
    let mut out = String::new();
    let mut i: usize = 0;
    while i < v.len()
        invariant
            i <= v.len(),
            v@ == s@,
            out@ == strip_whitespace(s@.subrange(0, i as int)),
        decreases v.len() - i,
    {
        let c = v[i];
        assert(s@.subrange(0, i + 1).drop_last() =~= s@.subrange(0, i as int));
        if !char_is_whitespace(c) {
            push_char(&mut out, c);
        }
        i = i + 1;
    }
    assert(s@.subrange(0, v.len() as int) =~= s@);
    out
}

/// The index of the first non-whitespace character of `s` at or after `i`, or `s.len()`.
pub open spec fn skip_whitespace(s: Seq<char>, i: int) -> int
    decreases s.len() - i,
{
    if i < 0 || i >= s.len() {
        s.len() as int
    } else if is_whitespace(s[i]) {
        skip_whitespace(s, i + 1)
    } else {
        i
    }
}

/// `s.trim_start()`: `s` without its leading whitespace.
pub open spec fn trim_start(s: Seq<char>) -> Seq<char> {
    s.subrange(skip_whitespace(s, 0), s.len() as int)
}

/// `s == t`, comparing characters.
pub fn str_eq(s: &str, t: &str) -> (b: bool)
    ensures
        b == (s@ == t@),
{
    let a = str_to_chars(s);
    let c = str_to_chars(t);
    if a.len() != c.len() {
        return false;
    }
    let mut i: usize = 0;
    while i < a.len()
        invariant
            i <= a.len(),
            a.len() == c.len(),
            a@ == s@,
            c@ == t@,
            forall|k: int| 0 <= k < i ==> a@[k] == c@[k],
        decreases a.len() - i,
    {
        if a[i] != c[i] {
            return false;
        }
        i = i + 1;
    }
    assert(s@ =~= t@);
    true
}

/// `c` with an ASCII capital letter turned into its small letter.
pub open spec fn ascii_lower(c: char) -> char {
    if 'A' <= c && c <= 'Z' {
        ((c as u32) + 32) as char
    } else {
        c
    }
}

/// `s` with every ASCII capital letter turned into its small letter.
pub open spec fn ascii_lowercase(s: Seq<char>) -> Seq<char> {
    s.map_values(|c: char| ascii_lower(c))
}

/// `s` with every ASCII capital letter turned into its small letter.
pub fn to_ascii_lowercase(s: &str) -> (r: String)
    ensures
        r@ == ascii_lowercase(s@),
{
    let v = str_to_chars(s);
    let mut out = String::new();
    let mut i: usize = 0;
    while i < v.len()
        invariant
            i <= v.len(),
            v@ == s@,
            out@ == ascii_lowercase(s@.subrange(0, i as int)),
        decreases v.len() - i,
    {
        let c = v[i];
        let l = if 'A' <= c && c <= 'Z' {
            let b = (c as u32) + 32;
            assert(b <= 0x7f);
            char_of_ascii(b)
        } else {
            c
        };
        assert(l == ascii_lower(c));
        push_char(&mut out, l);
        assert(ascii_lowercase(s@.subrange(0, i + 1)) =~= ascii_lowercase(s@.subrange(0, i as int)).push(l));
        i = i + 1;
    }
    assert(s@.subrange(0, v.len() as int) =~= s@);
    out
}

/// The character with ASCII code `b`.
fn char_of_ascii(b: u32) -> (c: char)
    requires
        b <= 0x7f,
    ensures
        c == b as char,
{
    (b as u8) as char
}

} // verus!
