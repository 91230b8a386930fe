//! Phone-number normalisation shared by PBAP contact and MAP message address handling.
//!
//! Backed by `phonenumber`'s regional numbering-plan metadata rather than punctuation
//! stripping: national trunk prefixes (e.g. UK's parenthesised `(0)`) vary by region and
//! sometimes by number type within a region, so there is no single fixed rule to hand-roll.
use phonenumber::country;
use phonenumber::ParseError as E;
use vstd::prelude::*;

use crate::text::{char_is_whitespace, is_whitespace, skip_whitespace, str_to_chars, trim_start};

verus! {

#[verifier::external_type_specification]
#[verifier::external_body]
pub struct ExCountryId(country::Id);

/// How `phonenumber::parse` rejected a string (its `ParseError` variants).
#[derive(Debug, Clone, Copy, PartialEq, Eq, Structural)]
pub enum ParseFailure {
    /// No number could be read from the string.
    NoNumber,
    /// The country calling code is not an assigned one (or none could be determined).
    InvalidCountryCode,
    /// Too few digits after an international dialling prefix.
    TooShortAfterIdd,
    /// Too few digits after the country code.
    TooShortNsn,
    /// More digits than any numbering plan allows.
    TooLong,
    /// A digit run did not fit an integer.
    MalformedInteger,
}

/// What `phonenumber` made of a raw string: either a number (with whether it is a valid,
/// assignable one and its E.164 form) or the reason it could not be parsed.
#[derive(Debug, Clone, PartialEq, Eq)]
pub enum ParsedNumber {
    /// Parsed into a `PhoneNumber`.
    Number {
        /// `PhoneNumber::is_valid()`.
        valid: bool,
        /// The number formatted in E.164 mode.
        e164: String,
    },
    /// `phonenumber::parse` returned this error.
    Failed(ParseFailure),
}

/// [`ParsedNumber`] with its text as a character sequence.
pub ghost enum ParsedNumberView {
    Number { valid: bool, e164: Seq<char> },
    Failed(ParseFailure),
}

impl View for ParsedNumber {
    type V = ParsedNumberView;

    open spec fn view(&self) -> ParsedNumberView {
        match self {
            ParsedNumber::Number { valid, e164 } => ParsedNumberView::Number {
                valid: *valid,
                e164: e164@,
            },
            ParsedNumber::Failed(f) => ParsedNumberView::Failed(*f),
        }
    }
}

/// What `phonenumber` (with its bundled metadata) makes of `raw` with `region` as the fallback
/// region: the parse error, or the parsed number's validity and E.164 form.
pub uninterp spec fn phonenumber_reading(raw: Seq<char>, region: Option<country::Id>) -> ParsedNumberView;

/// Reads `raw` with `phonenumber::parse(region, raw)`; on success, reports the number's
/// `is_valid()` and its `format().mode(Mode::E164)` text.
///
/// Trusted: the result is whatever `phonenumber` and its compiled-in metadata give for these two
/// arguments, named [`phonenumber_reading`]; nothing more is claimed of it. Every `unwrap` in
/// the parser's source is guarded by an earlier check (a digit-count test before a short digit
/// parse, a region identifier generated from the same metadata before a lookup, a match found
/// before its position is read), so no input is excluded.
#[verifier::external_body]
fn read_phone_number(raw: &str, region: Option<country::Id>) -> (r: ParsedNumber)
    ensures
        r@ == phonenumber_reading(raw@, region),
{
    match phonenumber::parse(region, raw) {
        Ok(n) => ParsedNumber::Number {
            valid: n.is_valid(),
            e164: n.format().mode(phonenumber::Mode::E164).to_string(),
        },
        Err(E::NoNumber) => ParsedNumber::Failed(ParseFailure::NoNumber),
        Err(E::InvalidCountryCode) => ParsedNumber::Failed(ParseFailure::InvalidCountryCode),
        Err(E::TooShortAfterIdd) => ParsedNumber::Failed(ParseFailure::TooShortAfterIdd),
        Err(E::TooShortNsn) => ParsedNumber::Failed(ParseFailure::TooShortNsn),
        Err(E::TooLong) => ParsedNumber::Failed(ParseFailure::TooLong),
        Err(E::MalformedInteger(_)) => ParsedNumber::Failed(ParseFailure::MalformedInteger),
    }
}

/// Outcome of normalising a raw phone-number string.
///
/// Never a hard error: every variant besides [`Normalization::E164`] means the caller should
/// keep using the original raw value; normalisation is best-effort, not a gate.
#[derive(Debug, Clone, PartialEq, Eq)]
pub enum Normalization {
    /// Successfully resolved to a valid, canonical E.164 number.
    E164(String),
    /// Structurally parsed under the given/inferred region but not a valid, assignable number.
    InvalidNumber,
    /// No country code present and no `fallback_region` supplied to resolve one.
    MissingRegion,
    /// An explicit `+`/`00` country calling code was present but isn't a real, assigned one.
    InvalidCountryCode,
    /// Fewer digits than any region's numbering plan allows.
    TooShort,
    /// More digits than any region's numbering plan allows.
    TooLong,
    /// Input isn't recognisable as a phone number at all.
    NotANumber,
}

/// [`Normalization`] with its text as a character sequence.
pub ghost enum NormalizationView {
    E164(Seq<char>),
    InvalidNumber,
    MissingRegion,
    InvalidCountryCode,
    TooShort,
    TooLong,
    NotANumber,
}

impl View for Normalization {
    type V = NormalizationView;

    open spec fn view(&self) -> NormalizationView {
        match self {
            Normalization::E164(s) => NormalizationView::E164(s@),
            Normalization::InvalidNumber => NormalizationView::InvalidNumber,
            Normalization::MissingRegion => NormalizationView::MissingRegion,
            Normalization::InvalidCountryCode => NormalizationView::InvalidCountryCode,
            Normalization::TooShort => NormalizationView::TooShort,
            Normalization::TooLong => NormalizationView::TooLong,
            Normalization::NotANumber => NormalizationView::NotANumber,
        }
    }
}

/// After leading whitespace, `raw` starts with `+` or `00`: it carries an explicit country
/// calling code.
pub open spec fn is_international(raw: Seq<char>) -> bool {
    let v = trim_start(raw);
    ||| (v.len() >= 1 && v[0] == '+')
    ||| (v.len() >= 2 && v[0] == '0' && v[1] == '0')
}

/// The normalisation of `raw` given what `phonenumber` made of it.
///
/// A parsed number resolves to its E.164 form only when it is valid. An unknown country code
/// means an unassigned code when `raw` carries one (`+`/`00`), and a missing region otherwise.
pub open spec fn normalization_of(raw: Seq<char>, parsed: ParsedNumberView) -> NormalizationView {
    match parsed {
        ParsedNumberView::Number { valid, e164 } => if valid {
            NormalizationView::E164(e164)
        } else {
            NormalizationView::InvalidNumber
        },
        ParsedNumberView::Failed(f) => match f {
            ParseFailure::InvalidCountryCode => if is_international(raw) {
                NormalizationView::InvalidCountryCode
            } else {
                NormalizationView::MissingRegion
            },
            ParseFailure::TooShortAfterIdd | ParseFailure::TooShortNsn => NormalizationView::TooShort,
            ParseFailure::TooLong => NormalizationView::TooLong,
            ParseFailure::NoNumber | ParseFailure::MalformedInteger => NormalizationView::NotANumber,
        },
    }
}

/// The normalisation of `raw` with `region` as the fallback region.
pub open spec fn normalize_spec(raw: Seq<char>, region: Option<country::Id>) -> NormalizationView {
    normalization_of(raw, phonenumber_reading(raw, region))
}

/// Distinguishes an explicit-but-unassigned country code (e.g. `+999...`) from a national-format
/// number with no country code at all; `phonenumber` reports both as an invalid country code.
fn looks_international(raw: &str) -> (b: bool)
    ensures
        b == is_international(raw@),
{
    let v = str_to_chars(raw);
    let mut i: usize = 0;
    while i < v.len() && char_is_whitespace(v[i])
        invariant
            i <= v.len(),
            v@ == raw@,
            skip_whitespace(raw@, 0) == skip_whitespace(raw@, i as int),
        decreases v.len() - i,
    {
        i = i + 1;
    }
    assert(skip_whitespace(raw@, 0) == i);
    let n = v.len() - i;
    (n >= 1 && v[i] == '+') || (n >= 2 && v[i] == '0' && v[i + 1] == '0')
}

/// Maps what `phonenumber` made of `raw` to its [`Normalization`].
pub fn normalize_parsed(raw: &str, parsed: ParsedNumber) -> (n: Normalization)
    ensures
        n@ == normalization_of(raw@, parsed@),
{
    match parsed {
        ParsedNumber::Number { valid, e164 } => {
            if valid {
                Normalization::E164(e164)
            } else {
                Normalization::InvalidNumber
            }
        },
        ParsedNumber::Failed(f) => match f {
            ParseFailure::InvalidCountryCode => {
                if looks_international(raw) {
                    Normalization::InvalidCountryCode
                } else {
                    Normalization::MissingRegion
                }
            },
            ParseFailure::TooShortAfterIdd | ParseFailure::TooShortNsn => Normalization::TooShort,
            ParseFailure::TooLong => Normalization::TooLong,
            ParseFailure::NoNumber | ParseFailure::MalformedInteger => Normalization::NotANumber,
        },
    }
}

/// Normalises `raw` to E.164 using `phonenumber`'s regional metadata.
///
/// `fallback_region` is only consulted when `raw` carries no country calling code of its own
/// (no leading `+`/`00`); a number that already has one derives its region from that code
/// regardless of `fallback_region`. Pass `None` to only resolve numbers that are already
/// self-describing.
pub fn normalize_number(raw: &str, fallback_region: Option<country::Id>) -> (n: Normalization)
    ensures
        n@ == normalize_spec(raw@, fallback_region),
{
    let parsed = read_phone_number(raw, fallback_region);
    normalize_parsed(raw, parsed)
}

/// A phone number in both its raw device-reported form and its canonical E.164 form.
///
/// `e164` is `Some` only when [`normalize_number`] resolved the number; otherwise the number is
/// kept solely as `raw`. `raw` is always retained so nothing device-reported is lost and so
/// callers that must show the original form (e.g. `contacts --raw`) can.
#[derive(Debug, Clone, PartialEq, Eq)]
pub struct PhoneField {
    raw: String,
    e164: Option<String>,
}

/// The E.164 text a normalisation resolved to, if any.
pub open spec fn resolved(n: NormalizationView) -> Option<Seq<char>> {
    match n {
        NormalizationView::E164(s) => Some(s),
        _ => None,
    }
}

/// `o` with its text as a character sequence.
pub open spec fn opt_view(o: Option<String>) -> Option<Seq<char>> {
    match o {
        Some(s) => Some(s@),
        None => None,
    }
}

/// `o` (a borrowed string) with its text as a character sequence.
pub open spec fn opt_str_view(o: Option<&str>) -> Option<Seq<char>> {
    match o {
        Some(s) => Some(s@),
        None => None,
    }
}

/// A phone field's raw text and its E.164 text, if resolved.
pub ghost struct PhoneFieldView {
    pub raw: Seq<char>,
    pub e164: Option<Seq<char>>,
}

impl View for PhoneField {
    type V = PhoneFieldView;

    closed spec fn view(&self) -> PhoneFieldView {
        PhoneFieldView { raw: self.raw@, e164: opt_view(self.e164) }
    }
}

/// The field [`PhoneField::new`] builds for `raw` with `region` as the fallback region.
pub open spec fn phone_field_spec(raw: Seq<char>, region: Option<country::Id>) -> PhoneFieldView {
    PhoneFieldView { raw, e164: resolved(normalize_spec(raw, region)) }
}

/// The text compared on: the E.164 form when resolved, else the raw form.
pub open spec fn canonical_of(f: PhoneFieldView) -> Seq<char> {
    match f.e164 {
        Some(e) => e,
        None => f.raw,
    }
}

impl PhoneField {
    /// Parses `raw` via [`normalize_number`], retaining the original. `region` is consulted only
    /// when `raw` carries no country code of its own; pass `None` to resolve only self-describing
    /// numbers.
    pub fn new(raw: &str, region: Option<country::Id>) -> (f: Self)
        ensures
            f@ == phone_field_spec(raw@, region),
    {
        let e164 = match normalize_number(raw, region) {
            Normalization::E164(number) => Some(number),
            _ => None,
        };
        PhoneField { raw: raw.to_owned(), e164 }
    }

    /// Reconstructs a field from previously stored columns without re-parsing. Trust the caller:
    /// `e164`, if present, is assumed already canonical; this avoids re-running `phonenumber` on
    /// read and the metadata-drift reclassification that would cause.
    pub fn from_parts(raw: String, e164: Option<String>) -> (f: Self)
        ensures
            f@ == (PhoneFieldView { raw: raw@, e164: opt_view(e164) }),
    {
        PhoneField { raw, e164 }
    }

    /// The original device-reported value, always present.
    pub fn raw(&self) -> (r: &str)
        ensures
            r@ == self@.raw,
    {
        self.raw.as_str()
    }

    /// The canonical E.164 form, or `None` if the number could not be resolved.
    pub fn e164(&self) -> (r: Option<&str>)
        ensures
            opt_str_view(r) == self@.e164,
    {
        match &self.e164 {
            Some(s) => Some(s.as_str()),
            None => None,
        }
    }

    /// The value to compare on: E.164 when resolved, else the raw form. Two fields for the same
    /// real number compare equal here regardless of source formatting.
    pub fn canonical(&self) -> (r: &str)
        ensures
            r@ == canonical_of(self@),
    {
        match &self.e164 {
            Some(s) => s.as_str(),
            None => self.raw.as_str(),
        }
    }

    /// The value to render by default: E.164 when resolved, else the raw form.
    pub fn display(&self) -> (r: &str)
        ensures
            r@ == canonical_of(self@),
    {
        self.canonical()
    }
}

/// Two fields whose raw forms normalise to the same E.164 number compare equal on their
/// canonical form, however differently the raw forms were written.
pub proof fn lemma_same_number_same_canonical(
    a: Seq<char>,
    region_a: Option<country::Id>,
    b: Seq<char>,
    region_b: Option<country::Id>,
)
    requires
        normalize_spec(a, region_a) is E164,
        normalize_spec(a, region_a) == normalize_spec(b, region_b),
    ensures
        canonical_of(phone_field_spec(a, region_a)) == canonical_of(phone_field_spec(b, region_b)),
{
}

/// Normalisation is best-effort, not a gate: a field always keeps its raw form, and a number
/// that does not resolve is compared and shown by that raw form.
pub proof fn lemma_unresolved_keeps_raw(raw: Seq<char>, region: Option<country::Id>)
    ensures
        phone_field_spec(raw, region).raw == raw,
        !(normalize_spec(raw, region) is E164) ==> canonical_of(phone_field_spec(raw, region)) == raw,
        normalize_spec(raw, region) matches NormalizationView::E164(e) ==> canonical_of(
            phone_field_spec(raw, region),
        ) == e,
{
}

} // verus!
