//! Applying a [`ConfigPatch`] to the text of a TOML configuration file with `toml_edit`, which
//! keeps every other key, comment and layout of the file as it was.
use toml_edit::{DocumentMut, Item, Table, TomlError};
use vstd::prelude::*;

use super::write::{ConfigPatch, ConfigPatchView, ConfigValue, ConfigValueView};
use super::ConfigError;

verus! {

#[verifier::external_type_specification]
#[verifier::external_body]
pub struct ExDocumentMut(DocumentMut);

/// An entry of a TOML table, as far as the configuration writers are concerned.
pub ghost enum EntryView {
    /// A string value.
    Str(Seq<char>),
    /// An integer value.
    Int(int),
    /// Any other item (float, boolean, date, array, table, ...).
    Other,
}

/// A top-level item of a TOML document.
pub ghost enum SectionView {
    /// A table, with its entries by key.
    Table(Map<Seq<char>, EntryView>),
    /// Any item that is not a table.
    NotTable,
}

/// The entry a written value becomes.
pub open spec fn entry_of(v: ConfigValueView) -> EntryView {
    match v {
        ConfigValueView::Str(s) => EntryView::Str(s),
        ConfigValueView::Int(i) => EntryView::Int(i),
    }
}

/// The top-level items of a document, by key.
pub uninterp spec fn document_view(doc: DocumentMut) -> Map<Seq<char>, SectionView>;

/// The text `Display` gives for a document.
pub uninterp spec fn document_text(doc: DocumentMut) -> Seq<char>;

/// The top-level items `toml_edit` reads from a text, or `None` when the text is not TOML.
pub uninterp spec fn parsed_toml(content: Seq<char>) -> Option<Map<Seq<char>, SectionView>>;

/// A new, empty document (`DocumentMut::new`).
///
/// Trusted: the document has no items.
#[verifier::external_body]
fn empty_document() -> (doc: DocumentMut)
    ensures
        document_view(doc).is_empty(),
{
    DocumentMut::new()
}

/// Parses a TOML text (`str::parse::<DocumentMut>`).
///
/// Trusted: fails exactly on texts `toml_edit` rejects; the document holds what it read,
/// named [`parsed_toml`].
#[verifier::external_body]
fn parse_document(content: &str) -> (r: Result<DocumentMut, TomlError>)
    ensures
        match r {
            Ok(d) => parsed_toml(content@) == Some(document_view(d)),
            Err(_) => parsed_toml(content@) is None,
        },
{
    content.parse::<DocumentMut>()
}

/// Whether the document's top-level `section` is a table (`Table::get`, `Item::is_table`).
///
/// Trusted: true exactly when the item is present and a table.
#[verifier::external_body]
fn has_table(doc: &DocumentMut, section: &str) -> (b: bool)
    ensures
        b == (document_view(*doc).contains_key(section@) && document_view(*doc)[section@] is Table),
{
    doc.as_table().get(section).is_some_and(Item::is_table)
}

/// Puts an empty table at the top-level `section`, replacing whatever was there
/// (`Table::insert` of `Item::Table(Table::new())`).
///
/// Trusted: only that item changes.
#[verifier::external_body]
fn put_empty_table(doc: &mut DocumentMut, section: &str)
    ensures
        document_view(*final(doc)) == document_view(*old(doc)).insert(
            section@,
            SectionView::Table(Map::empty()),
        ),
{
    doc.as_table_mut().insert(section, Item::Table(Table::new()));
}

/// Sets `key` in the top-level table `section` to `value` (`Table::get_mut`,
/// `Item::as_table_mut`, `Table::insert` of `toml_edit::value`), or reports that `section` is
/// not a table.
///
/// Trusted: when `section` is a table, only that entry changes; otherwise nothing does.
#[verifier::external_body]
fn put_value(doc: &mut DocumentMut, section: &str, key: &str, value: &ConfigValue) -> (ok: bool)
    ensures
        ok == (document_view(*old(doc)).contains_key(section@) && document_view(
            *old(doc),
        )[section@] is Table),
        ok ==> document_view(*final(doc)) == document_view(*old(doc)).insert(
            section@,
            SectionView::Table(document_view(*old(doc))[section@]->Table_0.insert(key@, entry_of(value@))),
        ),
        !ok ==> document_view(*final(doc)) == document_view(*old(doc)),
{
    let Some(table) = doc.as_table_mut().get_mut(section).and_then(Item::as_table_mut) else {
        return false;
    };
    let item = match value {
        ConfigValue::Str(s) => toml_edit::value(s.as_str()),
        ConfigValue::Int(i) => toml_edit::value(*i),
    };
    table.insert(key, item);
    true
}

/// The document's text (`Display`).
///
/// Trusted: the text is [`document_text`] of the document, and `toml_edit` reads that text back
/// into the same top-level items and table entries: parsed keys and values are written with the
/// text they were read from, and created ones with their default, escaped form. (What the
/// encoder does not keep, the order of dotted keys and a missing final newline, is not part of
/// [`document_view`].)
#[verifier::external_body]
fn render_document(doc: &DocumentMut) -> (s: String)
    ensures
        s@ == document_text(*doc),
        parsed_toml(s@) == Some(document_view(*doc)),
{
    doc.to_string()
}

/// `table` with each of `entries` set, in order (a later key overrides an earlier one).
pub open spec fn with_entries(table: Map<Seq<char>, EntryView>, entries: Seq<(Seq<char>, ConfigValueView)>) -> Map<Seq<char>, EntryView>
    decreases entries.len(),
{
    if entries.len() == 0 {
        table
    } else {
        with_entries(table, entries.drop_last()).insert(
            entries.last().0,
            entry_of(entries.last().1),
        )
    }
}

/// The document after a patch: the patch's section is a table holding the patch's keys with
/// their values and, if it already was a table, every other key it had; every other top-level
/// item is unchanged. (A section that existed but was not a table is replaced.)
pub open spec fn patched(doc: Map<Seq<char>, SectionView>, patch: ConfigPatchView) -> Map<Seq<char>, SectionView> {
    let base = if doc.contains_key(patch.section) && doc[patch.section] is Table {
        doc[patch.section]->Table_0
    } else {
        Map::empty()
    };
    doc.insert(patch.section, SectionView::Table(with_entries(base, patch.entries)))
}

/// Applies a patch to a document in memory: makes sure its section is a table, then sets each
/// key. Every other key and section stays as it was.
pub fn apply_patch(doc: &mut DocumentMut, patch: &ConfigPatch) -> (r: Result<(), ConfigError>)
    ensures
        r is Ok,
        document_view(*final(doc)) == patched(document_view(*old(doc)), patch@),
{
    let ghost start = document_view(*doc);
    let section = patch.section;
    if !has_table(doc, section) {
        put_empty_table(doc, section);
    }
    let ghost base = document_view(*doc)[section@]->Table_0;
    assert(base == if start.contains_key(section@) && start[section@] is Table {
        start[section@]->Table_0
    } else {
        Map::<Seq<char>, EntryView>::empty()
    });
    let mut i: usize = 0;
    while i < patch.entries.len()
        invariant
            i <= patch.entries.len(),
            section@ == patch@.section,
            document_view(*doc) == start.insert(
                section@,
                SectionView::Table(with_entries(base, patch@.entries.subrange(0, i as int))),
            ),
        decreases patch.entries.len() - i,
    {
        let (key, value) = &patch.entries[i];
        let ghost before = document_view(*doc);
        let ok = put_value(doc, section, key, value);
        if !ok {
            let mut msg = String::new();
            msg.append("[");
            msg.append(section);
            msg.append("] section is not a TOML table");
            return Err(ConfigError::Invalid { field: section, msg });
        }
        proof {
            let es = patch@.entries.subrange(0, i + 1);
            assert(es.drop_last() =~= patch@.entries.subrange(0, i as int));
            assert(es.last() == (key@, value@));
            assert(document_view(*doc) =~= start.insert(
                section@,
                SectionView::Table(with_entries(base, es)),
            ));
        }
        i = i + 1;
    }
    assert(patch@.entries.subrange(0, patch.entries.len() as int) =~= patch@.entries);
    Ok(())
}

/// The text of the configuration file after a patch: `existing` is the file's current text, or
/// `None` when there is no file yet (an empty document is used). Reading the text back gives
/// what `toml_edit` read from the file, changed only as [`patched`] says: the patch's keys hold
/// their values and every other key and section keeps its own.
///
/// Fails with [`ConfigError::Parse`] exactly when the existing text is not TOML (the file is then
/// left alone rather than overwritten).
pub fn patch_text(existing: Option<&str>, patch: &ConfigPatch) -> (r: Result<String, ConfigError>)
    ensures
        match existing {
            Some(content) => match parsed_toml(content@) {
                None => r matches Err(ConfigError::Parse(_)),
                Some(before) => r matches Ok(t) && parsed_toml(t@) == Some(patched(before, patch@))
                    && exists|d: DocumentMut| t@ == document_text(d) && document_view(d) == patched(
                    before,
                    patch@,
                ),
            },
            None => r matches Ok(t) && parsed_toml(t@) == Some(patched(Map::empty(), patch@))
                && exists|d: DocumentMut| t@ == document_text(d) && document_view(d) == patched(
                Map::empty(),
                patch@,
            ),
        },
{
    let mut doc = match existing {
        Some(content) => match parse_document(content) {
            Ok(d) => d,
            Err(e) => {
                return Err(ConfigError::Parse(e));
            },
        },
        None => empty_document(),
    };
    apply_patch(&mut doc, patch)?;
    let t = render_document(&doc);
    Ok(t)
}

/// What a write gives back on reading: after a successful patch, reading the written text gives
/// each patched key its value, and every other key of the section (if it was a table) and every
/// other section as they were.
pub proof fn lemma_patch_reads_back(
    before: Map<Seq<char>, SectionView>,
    patch: ConfigPatchView,
    key: Seq<char>,
    other: Seq<char>,
)
    requires
        patch.entries.len() > 0,
        other != patch.section,
    ensures
        patched(before, patch)[patch.section] matches SectionView::Table(t) && t.contains_key(
            patch.entries.last().0,
        ) && t[patch.entries.last().0] == entry_of(patch.entries.last().1),
        before.contains_key(other) ==> patched(before, patch).contains_key(other) && patched(
            before,
            patch,
        )[other] == before[other],
        (before.contains_key(patch.section) && before[patch.section] is Table && (forall|i: int|
            0 <= i < patch.entries.len() ==> #[trigger] patch.entries[i].0 != key)
            && before[patch.section]->Table_0.contains_key(key)) ==> (patched(
            before,
            patch,
        )[patch.section]->Table_0.contains_key(key) && patched(before, patch)[patch.section]->Table_0[key]
            == before[patch.section]->Table_0[key]),
{
    lemma_with_entries_keeps(
        if before.contains_key(patch.section) && before[patch.section] is Table {
            before[patch.section]->Table_0
        } else {
            Map::empty()
        },
        patch.entries,
        key,
    );
}

/// Setting entries leaves a key none of them names as it was.
proof fn lemma_with_entries_keeps(
    table: Map<Seq<char>, EntryView>,
    entries: Seq<(Seq<char>, ConfigValueView)>,
    key: Seq<char>,
)
    ensures
        (forall|i: int| 0 <= i < entries.len() ==> #[trigger] entries[i].0 != key) ==> with_entries(
            table,
            entries,
        ).contains_key(key) == table.contains_key(key) && (table.contains_key(key) ==> with_entries(
            table,
            entries,
        )[key] == table[key]),
    decreases entries.len(),
{
    if entries.len() > 0 {
        lemma_with_entries_keeps(table, entries.drop_last(), key);
        if forall|i: int| 0 <= i < entries.len() ==> #[trigger] entries[i].0 != key {
            assert forall|i: int| 0 <= i < entries.drop_last().len() implies #[trigger] entries.drop_last()[i].0 != key by {
                assert(entries.drop_last()[i] == entries[i]);
            }
            assert(entries[entries.len() - 1].0 != key);
        }
    }
}

} // verus!
