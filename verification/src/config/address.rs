//! Bluetooth device addresses: the `XX:XX:XX:XX:XX:XX` form, and what `bluer::Address` reads.
use vstd::prelude::*;

verus! {

/// A hexadecimal digit.
pub open spec fn is_hex_digit(c: char) -> bool {
    ('0' <= c && c <= '9') || ('a' <= c && c <= 'f') || ('A' <= c && c <= 'F')
}

/// The value of a hexadecimal digit.
pub open spec fn hex_digit_value(c: char) -> nat {
    if '0' <= c && c <= '9' {
        (c as u32 - '0' as u32) as nat
    } else if 'a' <= c && c <= 'f' {
        (c as u32 - 'a' as u32 + 10) as nat
    } else {
        (c as u32 - 'A' as u32 + 10) as nat
    }
}

/// The value of a string of hexadecimal digits (most significant first).
pub open spec fn hex_value(s: Seq<char>) -> nat
    decreases s.len(),
{
    if s.len() == 0 {
        0
    } else {
        hex_value(s.drop_last()) * 16 + hex_digit_value(s.last())
    }
}

/// What `u8::from_str_radix(field, 16)` accepts: an optional `+`, then one or more hexadecimal
/// digits whose value is at most 255.
pub open spec fn is_hex_byte(f: Seq<char>) -> bool {
    let d = if f.len() > 0 && f[0] == '+' {
        f.drop_first()
    } else {
        f
    };
    &&& d.len() > 0
    &&& forall|k: int| 0 <= k < d.len() ==> is_hex_digit(#[trigger] d[k])
    &&& hex_value(d) <= 255
}

/// The position of the first `:` at or after `i`, or `s.len()`.
pub open spec fn scan_colon(s: Seq<char>, i: int) -> int
    decreases s.len() - i,
{
    if i >= s.len() {
        s.len() as int
    } else if s[i] == ':' {
        i
    } else {
        scan_colon(s, i + 1)
    }
}

/// `s` split at every `:` (as `str::split(':')` does: `n` colons give `n + 1` fields).
pub open spec fn colon_fields(s: Seq<char>) -> Seq<Seq<char>>
    decreases s.len(),
{
    let k = scan_colon(s, 0);
    if k < 0 || k >= s.len() {
        seq![s]
    } else {
        seq![s.subrange(0, k)] + colon_fields(s.subrange(k + 1, s.len() as int))
    }
}

/// A Bluetooth address as `bluer::Address` parses it: six `:`-separated fields, each a
/// hexadecimal byte.
pub open spec fn is_mac_address(s: Seq<char>) -> bool {
    let fields = colon_fields(s);
    &&& fields.len() == 6
    &&& forall|k: int| 0 <= k < 6 ==> is_hex_byte(#[trigger] fields[k])
}

/// The first field that is not a hexadecimal byte, if any.
pub open spec fn first_bad_field(fields: Seq<Seq<char>>) -> Option<Seq<char>>
    decreases fields.len(),
{
    if fields.len() == 0 {
        None
    } else if !is_hex_byte(fields[0]) {
        Some(fields[0])
    } else {
        first_bad_field(fields.drop_first())
    }
}

/// The text `bluer::Address` puts in its error for a rejected `s`: the first field that is not
/// a hexadecimal byte, or else the whole input.
pub open spec fn address_error_text(s: Seq<char>) -> Seq<char> {
    match first_bad_field(colon_fields(s)) {
        Some(f) => f,
        None => s,
    }
}

/// The message of a rejected address.
pub open spec fn address_error_message(s: Seq<char>) -> Seq<char> {
    "invalid Bluetooth address: "@ + address_error_text(s)
}

/// Checks `s` with `bluer::Address::from_str`.
///
/// Trusted: `from_str` splits at `:`, reads each field with `u8::from_str_radix(field, 16)`
/// (stopping at the first failure) and requires exactly six fields; its `InvalidAddress` error
/// displays as `invalid Bluetooth address: ` followed by the failing field, or the whole input
/// when the count is wrong. The parsed address itself is dropped.
#[verifier::external_body]
pub(crate) fn check_bluetooth_address(s: &str) -> (r: Result<(), String>)
    ensures
        r is Ok <==> is_mac_address(s@),
        r matches Err(msg) ==> msg@ == address_error_message(s@),
{
    s.parse::<bluer::Address>().map(|_| ()).map_err(|e| e.to_string())
}

/// The documented address form `XX:XX:XX:XX:XX:XX`: six fields of exactly two hexadecimal
/// digits, separated by `:`.
pub open spec fn is_strict_mac(s: Seq<char>) -> bool {
    &&& s.len() == 17
    &&& forall|k: int| 0 <= k < 17 ==> if k % 3 == 2 {
        #[trigger] s[k] == ':'
    } else {
        is_hex_digit(s[k])
    }
}

/// What is wrong with an address, if anything: first what `bluer::Address` refuses (with its
/// message), then anything it accepts that is not in the `XX:XX:XX:XX:XX:XX` form (such as
/// one-digit or `+`-signed fields), reported for the whole input.
pub open spec fn address_problem(s: Seq<char>) -> Option<Seq<char>> {
    if !is_mac_address(s) {
        Some(address_error_message(s))
    } else if !is_strict_mac(s) {
        Some("invalid Bluetooth address: "@ + s)
    } else {
        None
    }
}

/// `c` is a hexadecimal digit.
fn hex_digit(c: char) -> (b: bool)
    ensures
        b == is_hex_digit(c),
{
    ('0' <= c && c <= '9') || ('a' <= c && c <= 'f') || ('A' <= c && c <= 'F')
}

/// Whether `s` is in the `XX:XX:XX:XX:XX:XX` form.
fn strict_form(s: &str) -> (b: bool)
    ensures
        b == is_strict_mac(s@),
{
    let v = crate::text::str_to_chars(s);
    if v.len() != 17 {
        return false;
    }
    let mut k: usize = 0;
    while k < 17
        invariant
            v@ == s@,
            v.len() == 17,
            k <= 17,
            forall|j: int| 0 <= j < k ==> if j % 3 == 2 {
                #[trigger] s@[j] == ':'
            } else {
                is_hex_digit(s@[j])
            },
        decreases 17 - k,
    {
        let ok = if k % 3 == 2 {
            v[k] == ':'
        } else {
            hex_digit(v[k])
        };
        if !ok {
            return false;
        }
        k = k + 1;
    }
    true
}

/// Checks a device address: `bluer::Address` must read it, and it must be in the documented
/// `XX:XX:XX:XX:XX:XX` form.
pub fn check_address(s: &str) -> (r: Result<(), String>)
    ensures
        match address_problem(s@) {
            None => r is Ok,
            Some(m) => r matches Err(msg) && msg@ == m,
        },
{
    check_bluetooth_address(s)?;
    if !strict_form(s) {
        let mut msg = String::new();
        msg.append("invalid Bluetooth address: ");
        msg.append(s);
        return Err(msg);
    }
    Ok(())
}

/// `t` is `n + 1` pairs of hexadecimal digits separated by `:`.
spec fn hex_pairs(t: Seq<char>, n: nat) -> bool {
    &&& t.len() == 3 * n + 2
    &&& forall|k: int| 0 <= k < t.len() ==> if k % 3 == 2 {
        #[trigger] t[k] == ':'
    } else {
        is_hex_digit(t[k])
    }
}

/// Splitting `n + 1` colon-separated pairs at `:` gives the pairs.
proof fn lemma_pair_fields(t: Seq<char>, n: nat)
    requires
        hex_pairs(t, n),
    ensures
        colon_fields(t).len() == n + 1,
        forall|i: int| 0 <= i <= n ==> #[trigger] colon_fields(t)[i] == t.subrange(3 * i, 3 * i + 2),
    decreases n,
{
    assert(is_hex_digit(t[0]) && is_hex_digit(t[1]));
    assert(scan_colon(t, 2) == 2) by {
        if n == 0 {
        } else {
            assert(t[2] == ':');
        }
    }
    assert(scan_colon(t, 1) == 2);
    assert(scan_colon(t, 0) == 2);
    if n == 0 {
        assert(colon_fields(t) =~= seq![t]);
        assert(t.subrange(0, 2) =~= t);
    } else {
        let rest = t.subrange(3, t.len() as int);
        assert forall|k: int| 0 <= k < rest.len() implies if k % 3 == 2 {
            #[trigger] rest[k] == ':'
        } else {
            is_hex_digit(rest[k])
        } by {
            assert(rest[k] == t[k + 3]);
            assert((k + 3) % 3 == k % 3);
        }
        lemma_pair_fields(rest, (n - 1) as nat);
        let fs = colon_fields(t);
        assert(fs == seq![t.subrange(0, 2)] + colon_fields(rest));
        assert forall|i: int| 0 <= i <= n implies #[trigger] colon_fields(t)[i] == t.subrange(
            3 * i,
            3 * i + 2,
        ) by {
            if i > 0 {
                assert(colon_fields(t)[i] == colon_fields(rest)[i - 1]);
                assert(rest.subrange(3 * (i - 1), 3 * (i - 1) + 2) =~= t.subrange(3 * i, 3 * i + 2));
            }
        }
    }
}

/// Two hexadecimal digits make a byte.
proof fn lemma_two_digits_byte(f: Seq<char>)
    requires
        f.len() == 2,
        is_hex_digit(f[0]),
        is_hex_digit(f[1]),
    ensures
        is_hex_byte(f),
{
    let g = f.drop_last();
    assert(g.len() == 1 && g.last() == f[0]);
    assert(g.drop_last() =~= Seq::<char>::empty());
    assert(hex_value(g.drop_last()) == 0);
    assert(hex_digit_value(f[0]) <= 15);
    assert(hex_digit_value(f[1]) <= 15);
    assert(hex_value(f.drop_last()) == hex_digit_value(f[0]));
    assert(hex_value(f) == hex_digit_value(f[0]) * 16 + hex_digit_value(f[1]));
}

/// Every address in the `XX:XX:XX:XX:XX:XX` form is one `bluer::Address` reads.
pub proof fn lemma_strict_is_mac(s: Seq<char>)
    requires
        is_strict_mac(s),
    ensures
        is_mac_address(s),
{
    assert(hex_pairs(s, 5));
    lemma_pair_fields(s, 5);
    assert forall|k: int| 0 <= k < 6 implies is_hex_byte(#[trigger] colon_fields(s)[k]) by {
        let f = colon_fields(s)[k];
        assert(f == s.subrange(3 * k, 3 * k + 2));
        assert(f[0] == s[3 * k] && f[1] == s[3 * k + 1]);
        assert((3 * k) % 3 == 0 && (3 * k + 1) % 3 == 1);
        assert(f[0] != '+');
        lemma_two_digits_byte(f);
    }
}

} // verus!
