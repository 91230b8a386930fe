//! PBAP contact normalisation using calcard.
//!
//! Use [`Contact::from_vcard_str`] to extract display name and phone numbers from a raw
//! vCard 3.0 string pulled via PBAP.
use calcard::vcard::{VCard, VCardProperty};
use vstd::prelude::*;

use crate::phone::{opt_view, phone_field_spec, PhoneField, PhoneFieldView};
use crate::text::{is_whitespace, strip_whitespace, without_whitespace};

verus! {

/// Contact parsing errors: calcard cannot parse the vCard input.
#[derive(Debug, Clone, Copy, PartialEq, Eq, Structural)]
pub enum ContactError {
    /// The input was not well-formed vCard.
    ParseFailed,
}

impl ContactError {
    /// The error's message.
    pub fn message(&self) -> (s: String)
        ensures
            s@ == "vCard parse failed"@,
    {
        "vCard parse failed".to_owned()
    }
}

/// The vCard properties a contact is built from.
#[derive(Debug, Clone, Copy, PartialEq, Eq, Structural)]
pub enum PropertyKind {
    /// `FN`, the formatted name.
    Fn,
    /// `UID`, the durable identifier.
    Uid,
    /// `TEL`, a telephone number.
    Tel,
    /// Any other property.
    Other,
}

/// One property line of a parsed vCard: which property, and the text of each of its values
/// (`None` for a value with no text form, such as an integer).
#[derive(Debug, Clone, PartialEq, Eq)]
pub struct CardEntry {
    /// The property.
    pub kind: PropertyKind,
    /// Each value's text, in order.
    pub texts: Vec<Option<String>>,
}

/// [`CardEntry`] with its texts as character sequences.
pub ghost struct CardEntryView {
    pub kind: PropertyKind,
    pub texts: Seq<Option<Seq<char>>>,
}

impl View for CardEntry {
    type V = CardEntryView;

    open spec fn view(&self) -> CardEntryView {
        CardEntryView { kind: self.kind, texts: self.texts@.map_values(|o: Option<String>| opt_view(o)) }
    }
}

/// The entries of `v`, each by its view.
pub open spec fn entries_view(v: Seq<CardEntry>) -> Seq<CardEntryView> {
    v.map_values(|e: CardEntry| e@)
}

/// The property lines calcard reads from `input` (name and value texts, in order), or `None`
/// when calcard rejects the input.
pub uninterp spec fn calcard_entries(input: Seq<char>) -> Option<Seq<CardEntryView>>;

/// Parses `input` with `calcard::vcard::VCard::parse` and lists its entries: each entry's
/// property (`FN`, `UID`, `TEL` or another) and the `as_text()` of each of its values.
///
/// Trusted: the listing is whatever calcard gives for `input`, named [`calcard_entries`];
/// `None` exactly when calcard returns an error.
#[verifier::external_body]
fn read_vcard(input: &str) -> (r: Option<Vec<CardEntry>>)
    ensures
        match r {
            Some(v) => calcard_entries(input@) == Some(entries_view(v@)),
            None => calcard_entries(input@) is None,
        },
{
    let card = VCard::parse(input).ok()?;
    Some(card.entries.iter().map(|e| CardEntry {
        kind: match e.name {
            VCardProperty::Fn => PropertyKind::Fn,
            VCardProperty::Uid => PropertyKind::Uid,
            VCardProperty::Tel => PropertyKind::Tel,
            _ => PropertyKind::Other,
        },
        texts: e.values.iter().map(|v| v.as_text().map(str::to_owned)).collect(),
    }).collect())
}

/// The position of the first entry of `kind`, if any.
pub open spec fn first_index(entries: Seq<CardEntryView>, kind: PropertyKind) -> Option<int>
    decreases entries.len(),
{
    if entries.len() == 0 {
        None
    } else {
        match first_index(entries.drop_last(), kind) {
            Some(j) => Some(j),
            None => if entries.last().kind == kind {
                Some(entries.len() - 1)
            } else {
                None
            },
        }
    }
}

/// The text of the first value of an entry, if it has one.
pub open spec fn first_value_text(e: CardEntryView) -> Option<Seq<char>> {
    if e.texts.len() > 0 {
        e.texts[0]
    } else {
        None
    }
}

/// The text of the first value of the first entry of `kind` (what
/// `card.property(kind)?.values.first()?.as_text()` gives).
pub open spec fn property_text(entries: Seq<CardEntryView>, kind: PropertyKind) -> Option<
    Seq<char>,
> {
    match first_index(entries, kind) {
        Some(i) => first_value_text(entries[i]),
        None => None,
    }
}

/// The non-empty, whitespace-free texts among `texts`, in order.
pub open spec fn numbers_of(texts: Seq<Option<Seq<char>>>) -> Seq<Seq<char>>
    decreases texts.len(),
{
    if texts.len() == 0 {
        seq![]
    } else {
        numbers_of(texts.drop_last()) + match texts.last() {
            Some(t) => if strip_whitespace(t).len() > 0 {
                seq![strip_whitespace(t)]
            } else {
                seq![]
            },
            None => seq![],
        }
    }
}

/// The phone numbers of a card: for every `TEL` entry in order, each value's text with its
/// whitespace removed, dropping values with no text and values that are left empty.
pub open spec fn tel_numbers(entries: Seq<CardEntryView>) -> Seq<Seq<char>>
    decreases entries.len(),
{
    if entries.len() == 0 {
        seq![]
    } else {
        tel_numbers(entries.drop_last()) + if entries.last().kind == PropertyKind::Tel {
            numbers_of(entries.last().texts)
        } else {
            seq![]
        }
    }
}

/// A contact's display name, UID and phone fields.
pub ghost struct ContactView {
    pub display_name: Option<Seq<char>>,
    pub uid: Option<Seq<char>>,
    pub phones: Seq<PhoneFieldView>,
}

/// The contact built from a card's entries: the first `FN` and `UID` texts, and a phone field
/// (resolved with no fallback region) for each of its phone numbers.
pub open spec fn contact_spec(entries: Seq<CardEntryView>) -> ContactView {
    ContactView {
        display_name: property_text(entries, PropertyKind::Fn),
        uid: property_text(entries, PropertyKind::Uid),
        phones: tel_numbers(entries).map_values(|s: Seq<char>| phone_field_spec(s, None)),
    }
}

/// The fields of `v`, each by its view.
pub open spec fn phones_view(v: Seq<PhoneField>) -> Seq<PhoneFieldView> {
    v.map_values(|p: PhoneField| p@)
}

/// Normalised contact extracted from a PBAP vCard.
///
/// Phone numbers are normalised to E.164 at parse time (the PBAP ingress chokepoint), retaining
/// the whitespace-stripped raw form; see [`PhoneField`].
#[derive(Debug, Clone, PartialEq, Eq)]
pub struct Contact {
    /// Value of the FN property; `None` if absent.
    pub display_name: Option<String>,
    /// Value of the UID property; `None` if absent. A durable per-contact key, unlike PBAP
    /// handles, which are volatile and re-resolved on every sync.
    pub uid: Option<String>,
    phones: Vec<PhoneField>,
}

impl View for Contact {
    type V = ContactView;

    closed spec fn view(&self) -> ContactView {
        ContactView {
            display_name: opt_view(self.display_name),
            uid: opt_view(self.uid),
            phones: phones_view(self.phones@),
        }
    }
}

/// A copy of `o`.
fn copy_text(o: &Option<String>) -> (r: Option<String>)
    ensures
        opt_view(r) == opt_view(*o),
{
    match o {
        Some(s) => Some(s.as_str().to_owned()),
        None => None,
    }
}

/// The first value text of an entry.
fn entry_first_text(e: &CardEntry) -> (r: Option<String>)
    ensures
        opt_view(r) == first_value_text(e@),
{
    if e.texts.len() > 0 {
        copy_text(&e.texts[0])
    } else {
        None
    }
}

/// The phone fields (resolved with no fallback region) for `numbers`.
pub open spec fn phone_fields_of(numbers: Seq<Seq<char>>) -> Seq<PhoneFieldView> {
    numbers.map_values(|s: Seq<char>| phone_field_spec(s, None))
}

/// Appends a phone field for each non-empty, whitespace-free text of `e`.
fn push_numbers(phones: &mut Vec<PhoneField>, e: &CardEntry)
    ensures
        phones_view(final(phones)@) == phones_view(old(phones)@) + phone_fields_of(
            numbers_of(e@.texts),
        ),
{
    let ghost start = phones_view(phones@);
    let ghost texts = e@.texts;
    let mut j: usize = 0;
    while j < e.texts.len()
        invariant
            j <= e.texts.len(),
            texts == e@.texts,
            phones_view(phones@) == start + phone_fields_of(numbers_of(texts.subrange(0, j as int))),
        decreases e.texts.len() - j,
    {
        assert(texts.subrange(0, j + 1).drop_last() =~= texts.subrange(0, j as int));
        assert(texts.subrange(0, j + 1).last() == opt_view(e.texts@[j as int]));
        let ghost prev = numbers_of(texts.subrange(0, j as int));
        let ghost before = phones@;
        match &e.texts[j] {
            Some(t) => {
                let s = without_whitespace(t.as_str());
                if !s.as_str().is_empty() {
                    phones.push(PhoneField::new(s.as_str(), None));
                    assert(numbers_of(texts.subrange(0, j + 1)) =~= prev.push(s@));
                    assert(phone_fields_of(prev.push(s@)) =~= phone_fields_of(prev).push(
                        phone_field_spec(s@, None),
                    ));
                    assert(phones_view(phones@) =~= phones_view(before).push(
                        phone_field_spec(s@, None),
                    ));
                } else {
                    assert(numbers_of(texts.subrange(0, j + 1)) =~= prev);
                }
            },
            None => {
                assert(numbers_of(texts.subrange(0, j + 1)) =~= prev);
            },
        }
        j = j + 1;
    }
    assert(texts.subrange(0, e.texts.len() as int) =~= texts);
}

/// `property_text` of a longer prefix: unchanged once an entry of `kind` was seen, else the
/// new entry's first text when it is of `kind`.
proof fn lemma_property_text_step(all: Seq<CardEntryView>, i: int, kind: PropertyKind)
    requires
        0 <= i < all.len(),
    ensures
        property_text(all.subrange(0, i + 1), kind) == match first_index(
            all.subrange(0, i),
            kind,
        ) {
            Some(_) => property_text(all.subrange(0, i), kind),
            None => if all[i].kind == kind {
                first_value_text(all[i])
            } else {
                None
            },
        },
        first_index(all.subrange(0, i + 1), kind) is Some <==> (first_index(all.subrange(0, i), kind) is Some || all[i].kind == kind),
{
    let pre = all.subrange(0, i);
    let next = all.subrange(0, i + 1);
    assert(next.drop_last() =~= pre);
    lemma_first_index_in_range(pre, kind);
}

/// The first index, when there is one, is in range and names an entry of `kind`.
proof fn lemma_first_index_in_range(entries: Seq<CardEntryView>, kind: PropertyKind)
    ensures
        first_index(entries, kind) matches Some(j) ==> 0 <= j < entries.len() && entries[j].kind
            == kind,
    decreases entries.len(),
{
    if entries.len() > 0 {
        lemma_first_index_in_range(entries.drop_last(), kind);
    }
}

impl Contact {
    /// Non-empty TEL values in vCard order, each carrying its whitespace-stripped raw form and,
    /// when resolvable, its E.164 canonical form.
    pub fn phones(&self) -> (r: &[PhoneField])
        ensures
            phones_view(r@) == self@.phones,
    {
        self.phones.as_slice()
    }

    /// Builds the contact from a card's entries: the first `FN` and `UID` values, and every
    /// non-empty `TEL` value with its whitespace removed.
    pub fn from_entries(entries: &Vec<CardEntry>) -> (c: Contact)
        ensures
            c@ == contact_spec(entries_view(entries@)),
    {
        let ghost all = entries_view(entries@);
        let mut display_name: Option<String> = None;
        let mut uid: Option<String> = None;
        let mut fn_seen = false;
        let mut uid_seen = false;
        let mut phones: Vec<PhoneField> = Vec::new();
        let mut i: usize = 0;
        while i < entries.len()
            invariant
                i <= entries.len(),
                all == entries_view(entries@),
                fn_seen == first_index(all.subrange(0, i as int), PropertyKind::Fn) is Some,
                uid_seen == first_index(all.subrange(0, i as int), PropertyKind::Uid) is Some,
                opt_view(display_name) == property_text(all.subrange(0, i as int), PropertyKind::Fn),
                opt_view(uid) == property_text(all.subrange(0, i as int), PropertyKind::Uid),
                phones_view(phones@) == phone_fields_of(tel_numbers(all.subrange(0, i as int))),
            decreases entries.len() - i,
        {
            let ghost pre = all.subrange(0, i as int);
            let ghost next = all.subrange(0, i + 1);
            assert(next.drop_last() =~= pre);
            assert(all[i as int] == entries@[i as int]@);
            proof {
                lemma_property_text_step(all, i as int, PropertyKind::Fn);
                lemma_property_text_step(all, i as int, PropertyKind::Uid);
            }
            let e = &entries[i];
            if e.kind == PropertyKind::Fn && !fn_seen {
                display_name = entry_first_text(e);
                fn_seen = true;
            }
            if e.kind == PropertyKind::Uid && !uid_seen {
                uid = entry_first_text(e);
                uid_seen = true;
            }
            if e.kind == PropertyKind::Tel {
                push_numbers(&mut phones, e);
                assert(tel_numbers(next) == tel_numbers(pre) + numbers_of(all[i as int].texts));
            } else {
                assert(tel_numbers(next) =~= tel_numbers(pre));
            }
            i = i + 1;
        }
        assert(all.subrange(0, entries.len() as int) =~= all);
        Contact { display_name, uid, phones }
    }

    /// Extracts FN, TEL, and UID; input must be a single vCard.
    ///
    /// Fails with [`ContactError::ParseFailed`] exactly when calcard cannot parse the input as a
    /// vCard.
    pub fn from_vcard_str(input: &str) -> (r: Result<Contact, ContactError>)
        ensures
            match calcard_entries(input@) {
                None => r == Err::<Contact, ContactError>(ContactError::ParseFailed),
                Some(entries) => r matches Ok(c) && c@ == contact_spec(entries),
            },
    {
        match read_vcard(input) {
            Some(entries) => Ok(Contact::from_entries(&entries)),
            None => Err(ContactError::ParseFailed),
        }
    }
}

/// A text with no whitespace character.
pub open spec fn no_whitespace(s: Seq<char>) -> bool {
    forall|k: int| 0 <= k < s.len() ==> !is_whitespace(#[trigger] s[k])
}

/// Removing whitespace leaves none.
proof fn lemma_strip_leaves_no_whitespace(s: Seq<char>)
    ensures
        no_whitespace(strip_whitespace(s)),
    decreases s.len(),
{
    if s.len() > 0 {
        lemma_strip_leaves_no_whitespace(s.drop_last());
        let r = strip_whitespace(s.drop_last());
        if !is_whitespace(s.last()) {
            assert forall|k: int| 0 <= k < r.push(s.last()).len() implies !is_whitespace(
                #[trigger] r.push(s.last())[k],
            ) by {
                if k < r.len() {
                    assert(r.push(s.last())[k] == r[k]);
                }
            }
        }
    }
}

/// Every number taken from a run of values is non-empty and free of whitespace.
proof fn lemma_numbers_clean(texts: Seq<Option<Seq<char>>>)
    ensures
        forall|i: int| 0 <= i < numbers_of(texts).len() ==> #[trigger] numbers_of(texts)[i].len() > 0
            && no_whitespace(numbers_of(texts)[i]),
    decreases texts.len(),
{
    if texts.len() > 0 {
        lemma_numbers_clean(texts.drop_last());
        if let Some(t) = texts.last() {
            lemma_strip_leaves_no_whitespace(t);
        }
        let prev = numbers_of(texts.drop_last());
        assert forall|i: int| 0 <= i < numbers_of(texts).len() implies #[trigger] numbers_of(
            texts,
        )[i].len() > 0 && no_whitespace(numbers_of(texts)[i]) by {
            if i < prev.len() {
                assert(numbers_of(texts)[i] == prev[i]);
            }
        }
    }
}

/// Every number taken from a card's `TEL` entries is non-empty and free of whitespace.
proof fn lemma_tel_numbers_clean(entries: Seq<CardEntryView>)
    ensures
        forall|i: int| 0 <= i < tel_numbers(entries).len() ==> #[trigger] tel_numbers(entries)[i].len()
            > 0 && no_whitespace(tel_numbers(entries)[i]),
    decreases entries.len(),
{
    if entries.len() > 0 {
        lemma_tel_numbers_clean(entries.drop_last());
        lemma_numbers_clean(entries.last().texts);
        let prev = tel_numbers(entries.drop_last());
        assert forall|i: int| 0 <= i < tel_numbers(entries).len() implies #[trigger] tel_numbers(
            entries,
        )[i].len() > 0 && no_whitespace(tel_numbers(entries)[i]) by {
            if i < prev.len() {
                assert(tel_numbers(entries)[i] == prev[i]);
            } else {
                assert(tel_numbers(entries)[i] == numbers_of(entries.last().texts)[i - prev.len()]);
            }
        }
    }
}

/// Every phone of a contact keeps a raw form that is non-empty and free of whitespace (blank
/// `TEL` values are dropped, and whitespace is stripped at parse time).
pub proof fn lemma_contact_phones_clean(entries: Seq<CardEntryView>)
    ensures
        forall|i: int| 0 <= i < contact_spec(entries).phones.len() ==> (#[trigger] contact_spec(
            entries,
        ).phones[i]).raw.len() > 0 && no_whitespace(contact_spec(entries).phones[i].raw),
{
    lemma_tel_numbers_clean(entries);
    assert forall|i: int| 0 <= i < contact_spec(entries).phones.len() implies (#[trigger] contact_spec(
        entries,
    ).phones[i]).raw.len() > 0 && no_whitespace(contact_spec(entries).phones[i].raw) by {
        assert(contact_spec(entries).phones[i].raw == tel_numbers(entries)[i]);
    }
}

} // verus!
