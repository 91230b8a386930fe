//! MAP XML structures: folder listing parser. Use [`FolderListing::parse`].
use std::io::Cursor;
use std::string::FromUtf8Error;

use quick_xml::events::attributes::AttrError;
use quick_xml::events::Event;
use quick_xml::Reader;
use vstd::prelude::*;
use vstd::utf8::{decode_utf8, valid_utf8};

verus! {

#[verifier::external_type_specification]
#[verifier::external_body]
pub struct ExXmlError(quick_xml::Error);

#[verifier::external_type_specification]
#[verifier::external_body]
pub struct ExAttrError(AttrError);

#[verifier::external_type_specification]
#[verifier::external_body]
pub struct ExFromUtf8Error(FromUtf8Error);

#[verifier::external_type_specification]
#[verifier::external_body]
#[verifier::reject_recursive_types(T)]
pub struct ExCursor<T>(Cursor<T>);

#[verifier::external_type_specification]
#[verifier::external_body]
#[verifier::reject_recursive_types(R)]
pub struct ExReader<R>(Reader<R>);

/// MAP XML parsing errors: quick-xml parse, attribute decode, and folder name UTF-8 validation.
#[derive(Debug)]
pub enum XmlError {
    /// Malformed XML or unrecognised structure.
    Parse(quick_xml::Error),
    /// Invalid or malformed attribute encoding.
    Attr(AttrError),
    /// Folder name attribute is not valid UTF-8.
    Utf8(FromUtf8Error),
}

/// Which of the [`XmlError`] variants an error is.
#[derive(Debug, Clone, Copy, PartialEq, Eq, Structural)]
pub enum XmlErrorKind {
    /// [`XmlError::Parse`].
    Parse,
    /// [`XmlError::Attr`].
    Attr,
    /// [`XmlError::Utf8`].
    Utf8,
}

impl XmlError {
    /// The variant of this error.
    pub open spec fn kind(&self) -> XmlErrorKind {
        match self {
            XmlError::Parse(_) => XmlErrorKind::Parse,
            XmlError::Attr(_) => XmlErrorKind::Attr,
            XmlError::Utf8(_) => XmlErrorKind::Utf8,
        }
    }
}

/// One attribute of a tag as quick-xml reads it: a key and raw value, or the error reading it.
#[derive(Debug)]
pub enum AttrItem {
    /// A well-formed attribute.
    Attr {
        /// The attribute's name.
        key: Vec<u8>,
        /// The attribute's raw (unescaped-as-read) value.
        value: Vec<u8>,
    },
    /// The attribute could not be read.
    Bad(AttrError),
}

/// [`AttrItem`] as plain byte sequences.
pub ghost enum AttrView {
    Attr { key: Seq<u8>, value: Seq<u8> },
    Bad,
}

impl View for AttrItem {
    type V = AttrView;

    open spec fn view(&self) -> AttrView {
        match self {
            AttrItem::Attr { key, value } => AttrView::Attr { key: key@, value: value@ },
            AttrItem::Bad(_) => AttrView::Bad,
        }
    }
}

/// One event of quick-xml's reader, as far as a folder listing needs it.
#[derive(Debug)]
pub enum XmlEvent {
    /// A start tag or an empty-element tag, with its name and its attributes in order.
    Tag {
        /// The tag's (qualified) name.
        name: Vec<u8>,
        /// The tag's attributes, in document order.
        attributes: Vec<AttrItem>,
    },
    /// The end of the document.
    Eof,
    /// Any other event (end tag, text, declaration, comment, ...).
    Other,
    /// The reader failed.
    Failed(quick_xml::Error),
}

/// [`XmlEvent`] as plain byte sequences.
pub ghost enum XmlEventView {
    Tag { name: Seq<u8>, attributes: Seq<AttrView> },
    Eof,
    Other,
    Failed,
}

/// The attributes of `v`, each by its view.
pub open spec fn attrs_view(v: Seq<AttrItem>) -> Seq<AttrView> {
    v.map_values(|a: AttrItem| a@)
}

impl View for XmlEvent {
    type V = XmlEventView;

    open spec fn view(&self) -> XmlEventView {
        match self {
            XmlEvent::Tag { name, attributes } => XmlEventView::Tag {
                name: name@,
                attributes: attrs_view(attributes@),
            },
            XmlEvent::Eof => XmlEventView::Eof,
            XmlEvent::Other => XmlEventView::Other,
            XmlEvent::Failed(_) => XmlEventView::Failed,
        }
    }
}

/// The events of `v`, each by its view.
pub open spec fn events_view(v: Seq<XmlEvent>) -> Seq<XmlEventView> {
    v.map_values(|e: XmlEvent| e@)
}

/// The reader stops here: end of document or an error.
pub open spec fn is_terminal(e: XmlEventView) -> bool {
    e is Eof || e is Failed
}

/// A complete run of reader events: it ends with the first end-of-document or error.
pub open spec fn is_event_run(s: Seq<XmlEventView>) -> bool {
    &&& s.len() > 0
    &&& is_terminal(s.last())
    &&& forall|i: int| 0 <= i < s.len() - 1 ==> !is_terminal(#[trigger] s[i])
}

/// The events quick-xml's reader (text trimming on) yields for the document `xml`, up to and
/// including the first end-of-document or error.
pub uninterp spec fn quick_xml_events(xml: Seq<u8>) -> Seq<XmlEventView>;

/// The events a reader has still to yield, up to and including the first end-of-document or
/// error.
pub uninterp spec fn pending_events(reader: Reader<Cursor<Vec<u8>>>) -> Seq<XmlEventView>;

/// Opens a quick-xml reader on a copy of `xml` with text trimming on
/// (`Reader::from_reader`, `config_mut().trim_text(true)`).
///
/// Trusted: the reader will yield [`quick_xml_events`] of `xml`, and that run ends with its first
/// end-of-document or error (the reader consumes input with every event, so a finite document
/// reaches one).
#[verifier::external_body]
fn open_reader(xml: &[u8]) -> (r: Reader<Cursor<Vec<u8>>>)
    ensures
        pending_events(r) == quick_xml_events(xml@),
        is_event_run(pending_events(r)),
{
    let mut reader = Reader::from_reader(Cursor::new(xml.to_vec()));
    reader.config_mut().trim_text(true);
    reader
}

/// Reads the next event with `Reader::read_event_into`, keeping a start or empty tag's name and
/// its attributes (each key and raw value, or the attribute's error).
///
/// Trusted: the event is the next of the reader's pending events; after any event but the end of
/// the document or an error, the reader's pending events are the rest. (After those two nothing
/// is claimed: quick-xml goes on answering end-of-document, and may go on parsing after some
/// errors.)
#[verifier::external_body]
fn next_event(reader: &mut Reader<Cursor<Vec<u8>>>) -> (e: XmlEvent)
    requires
        pending_events(*old(reader)).len() > 0,
    ensures
        e@ == pending_events(*old(reader))[0],
        !is_terminal(e@) ==> pending_events(*final(reader)) == pending_events(*old(reader)).drop_first(),
{
    let mut buf = Vec::new();
    let tag = |t: quick_xml::events::BytesStart| XmlEvent::Tag {
        name: t.name().into_inner().to_vec(),
        attributes: t.attributes().map(|a| match a {
            Ok(a) => AttrItem::Attr { key: a.key.into_inner().to_vec(), value: a.value.into_owned() },
            Err(e) => AttrItem::Bad(e),
        }).collect(),
    };
    match reader.read_event_into(&mut buf) {
        Ok(Event::Start(t)) | Ok(Event::Empty(t)) => tag(t),
        Ok(Event::Eof) => XmlEvent::Eof,
        Ok(_) => XmlEvent::Other,
        Err(e) => XmlEvent::Failed(e),
    }
}

/// Decodes a folder name with `String::from_utf8`.
///
/// Trusted: as std documents, this succeeds exactly on valid UTF-8 and then holds the decoded
/// characters.
#[verifier::external_body]
fn decode_name(bytes: Vec<u8>) -> (r: Result<String, FromUtf8Error>)
    ensures
        r is Ok <==> valid_utf8(bytes@),
        r matches Ok(s) ==> s@ == decode_utf8(bytes@),
{
    String::from_utf8(bytes)
}

/// `folder`, as bytes.
pub open spec fn folder_tag() -> Seq<u8> {
    seq![102u8, 111u8, 108u8, 100u8, 101u8, 114u8]
}

/// `name`, as bytes.
pub open spec fn name_key() -> Seq<u8> {
    seq![110u8, 97u8, 109u8, 101u8]
}

/// The folder names a run of folder-tag attributes contributes, in order, or the error that
/// stops the listing: the first attribute that cannot be read, or a `name` that is not UTF-8,
/// whichever comes first.
pub open spec fn names_of(attrs: Seq<AttrView>) -> Result<Seq<Seq<char>>, XmlErrorKind>
    decreases attrs.len(),
{
    if attrs.len() == 0 {
        Ok(seq![])
    } else {
        match attrs[0] {
            AttrView::Bad => Err(XmlErrorKind::Attr),
            AttrView::Attr { key, value } => if key == name_key() {
                if valid_utf8(value) {
                    match names_of(attrs.drop_first()) {
                        Ok(rest) => Ok(seq![decode_utf8(value)] + rest),
                        Err(k) => Err(k),
                    }
                } else {
                    Err(XmlErrorKind::Utf8)
                }
            } else {
                names_of(attrs.drop_first())
            },
        }
    }
}

/// `acc` followed by the outcome of the rest: an error stays an error.
pub open spec fn after(acc: Seq<Seq<char>>, rest: Result<Seq<Seq<char>>, XmlErrorKind>) -> Result<
    Seq<Seq<char>>,
    XmlErrorKind,
> {
    match rest {
        Ok(r) => Ok(acc + r),
        Err(k) => Err(k),
    }
}

/// Nothing before an outcome leaves it as it is.
proof fn lemma_after_nothing(x: Result<Seq<Seq<char>>, XmlErrorKind>)
    ensures
        after(seq![], x) == x,
{
    if let Ok(r) = x {
        assert(Seq::<Seq<char>>::empty() + r =~= r);
    }
}

/// Two accumulations in a row are one.
proof fn lemma_after_after(a: Seq<Seq<char>>, b: Seq<Seq<char>>, x: Result<Seq<Seq<char>>, XmlErrorKind>)
    ensures
        after(a, after(b, x)) == after(a + b, x),
{
    if let Ok(r) = x {
        assert(a + (b + r) =~= (a + b) + r);
    }
}

/// The folder names of a run of events, in document order: the `name` attributes of every
/// `folder` start or empty tag up to the end of the document, or the first error met.
pub open spec fn listing_of(events: Seq<XmlEventView>) -> Result<Seq<Seq<char>>, XmlErrorKind>
    decreases events.len(),
{
    if events.len() == 0 {
        Ok(seq![])
    } else {
        match events[0] {
            XmlEventView::Eof => Ok(seq![]),
            XmlEventView::Failed => Err(XmlErrorKind::Parse),
            XmlEventView::Other => listing_of(events.drop_first()),
            XmlEventView::Tag { name, attributes } => if name == folder_tag() {
                match names_of(attributes) {
                    Ok(ns) => after(ns, listing_of(events.drop_first())),
                    Err(k) => Err(k),
                }
            } else {
                listing_of(events.drop_first())
            },
        }
    }
}

/// A single MAP folder from a `GetFolderListing` response.
#[derive(Debug, Clone, PartialEq, Eq)]
pub struct FolderEntry {
    name: String,
}

impl View for FolderEntry {
    type V = Seq<char>;

    closed spec fn view(&self) -> Seq<char> {
        self.name@
    }
}

/// The folder names of `v`.
pub open spec fn folders_view(v: Seq<FolderEntry>) -> Seq<Seq<char>> {
    v.map_values(|f: FolderEntry| f@)
}

impl FolderEntry {
    /// A folder named `name`.
    pub(crate) fn new(name: String) -> (f: Self)
        ensures
            f@ == name@,
    {
        FolderEntry { name }
    }

    /// Folder name decoded from the XML `name` attribute, e.g. `inbox`.
    pub fn name(&self) -> (r: &str)
        ensures
            r@ == self@,
    {
        self.name.as_str()
    }
}

/// Parsed body of a MAP `GetFolderListing` OBEX response.
#[derive(Debug, Clone, PartialEq, Eq)]
pub struct FolderListing {
    folders: Vec<FolderEntry>,
}

impl View for FolderListing {
    type V = Seq<Seq<char>>;

    closed spec fn view(&self) -> Seq<Seq<char>> {
        folders_view(self.folders@)
    }
}

/// `v` is exactly the bytes `lit`.
fn bytes_are(v: &Vec<u8>, lit: &[u8]) -> (b: bool)
    ensures
        b == (v@ == lit@),
{
    if v.len() != lit.len() {
        return false;
    }
    let mut i: usize = 0;
    while i < v.len()
        invariant
            i <= v.len(),
            v.len() == lit.len(),
            forall|k: int| 0 <= k < i ==> v@[k] == lit@[k],
        decreases v.len() - i,
    {
        if v[i] != lit[i] {
            return false;
        }
        i = i + 1;
    }
    assert(v@ =~= lit@);
    true
}

/// `folder`, as bytes.
fn folder_bytes() -> (r: Vec<u8>)
    ensures
        r@ == folder_tag(),
{
    let r = vec![102u8, 111u8, 108u8, 100u8, 101u8, 114u8];
    assert(r@ =~= folder_tag());
    r
}

/// `name`, as bytes.
fn name_bytes() -> (r: Vec<u8>)
    ensures
        r@ == name_key(),
{
    let r = vec![110u8, 97u8, 109u8, 101u8];
    assert(r@ =~= name_key());
    r
}

/// Appends the folders named by a folder tag's attributes, stopping at the first error.
fn push_names(folders: &mut Vec<FolderEntry>, attributes: Vec<AttrItem>) -> (r: Result<(), XmlError>)
    ensures
        match names_of(attrs_view(attributes@)) {
            Ok(ns) => r is Ok && folders_view(final(folders)@) == folders_view(old(folders)@) + ns,
            Err(k) => r matches Err(e) && e.kind() == k,
        },
{
    let ghost all = attrs_view(attributes@);
    let ghost start = folders_view(folders@);
    let key = name_bytes();
    let mut rest = attributes;
    let ghost mut done: Seq<Seq<char>> = seq![];
    proof {
        assert(all.subrange(0, all.len() as int) =~= all);
        lemma_after_nothing(names_of(all));
        assert(start + done =~= start);
    }
    while rest.len() > 0
        invariant
            key@ == name_key(),
            all == attrs_view(attributes@),
            start == folders_view(old(folders)@),
            attrs_view(rest@) == all.subrange(all.len() - rest.len(), all.len() as int),
            rest.len() <= all.len(),
            folders_view(folders@) == start + done,
            names_of(all) == after(done, names_of(all.subrange(all.len() - rest.len(), all.len() as int))),
        decreases rest.len(),
    {
        let ghost tail = all.subrange(all.len() - rest.len(), all.len() as int);
        assert(tail[0] == rest@[0]@);
        assert(tail.drop_first() =~= all.subrange(all.len() - (rest.len() - 1), all.len() as int));
        let a = rest.remove(0);
        assert(attrs_view(rest@) =~= tail.drop_first());
        match a {
            AttrItem::Bad(e) => {
                assert(tail[0] == AttrView::Bad);
                assert(names_of(tail) == Err::<Seq<Seq<char>>, XmlErrorKind>(XmlErrorKind::Attr));
                return Err(XmlError::Attr(e));
            },
            AttrItem::Attr { key: k, value } => {
                if bytes_are(&k, key.as_slice()) {
                    match decode_name(value) {
                        Ok(name) => {
                            let ghost before = folders@;
                            folders.push(FolderEntry::new(name));
                            assert(folders_view(folders@) =~= folders_view(before).push(name@));
                            proof {
                                let x = names_of(tail.drop_first());
                                assert(names_of(tail) == after(seq![name@], x));
                                lemma_after_after(done, seq![name@], x);
                                assert(done + seq![name@] =~= done.push(name@));
                                assert(start + done.push(name@) =~= (start + done).push(name@));
                                done = done.push(name@);
                            }
                        },
                        Err(e) => {
                            return Err(XmlError::Utf8(e));
                        },
                    }
                }
            },
        }
    }
    assert(all.subrange(all.len() as int, all.len() as int) =~= Seq::<AttrView>::empty());
    assert(done + seq![] =~= done);
    Ok(())
}

impl FolderListing {
    /// Folders in document order.
    pub fn folders(&self) -> (r: &[FolderEntry])
        ensures
            folders_view(r@) == self@,
    {
        self.folders.as_slice()
    }

    /// Builds the listing from a run of reader events: the `name` attribute of every `folder`
    /// start or empty tag, in document order, up to the end of the document.
    ///
    /// Fails on the first error met: a reader error, an attribute that cannot be read, or a
    /// folder name that is not UTF-8.
    pub fn from_events(events: Vec<XmlEvent>) -> (r: Result<FolderListing, XmlError>)
        ensures
            match listing_of(events_view(events@)) {
                Ok(names) => r matches Ok(l) && l@ == names,
                Err(k) => r matches Err(e) && e.kind() == k,
            },
    {
        let ghost all = events_view(events@);
        let tag = folder_bytes();
        let mut folders: Vec<FolderEntry> = Vec::new();
        let mut rest = events;
        proof {
            assert(all.subrange(0, all.len() as int) =~= all);
            lemma_after_nothing(listing_of(all));
            assert(folders_view(folders@) =~= Seq::<Seq<char>>::empty());
        }
        while rest.len() > 0
            invariant
                tag@ == folder_tag(),
                all == events_view(events@),
                events_view(rest@) == all.subrange(all.len() - rest.len(), all.len() as int),
                rest.len() <= all.len(),
                listing_of(all) == after(folders_view(folders@), listing_of(all.subrange(all.len() - rest.len(), all.len() as int))),
            decreases rest.len(),
        {
            let ghost tail = all.subrange(all.len() - rest.len(), all.len() as int);
            assert(tail[0] == rest@[0]@);
            assert(tail.drop_first() =~= all.subrange(all.len() - (rest.len() - 1), all.len() as int));
            let ev = rest.remove(0);
            assert(events_view(rest@) =~= tail.drop_first());
            match ev {
                XmlEvent::Eof => {
                    assert(tail[0] == XmlEventView::Eof);
                    assert(listing_of(tail) == Ok::<Seq<Seq<char>>, XmlErrorKind>(seq![]));
                    assert(folders_view(folders@) + seq![] =~= folders_view(folders@));
                    return Ok(FolderListing { folders });
                },
                XmlEvent::Failed(e) => {
                    return Err(XmlError::Parse(e));
                },
                XmlEvent::Other => {},
                XmlEvent::Tag { name, attributes } => {
                    if bytes_are(&name, tag.as_slice()) {
                        let ghost before = folders_view(folders@);
                        let ghost names = names_of(attrs_view(attributes@));
                        push_names(&mut folders, attributes)?;
                        proof {
                            lemma_after_after(before, names.get_Ok_0(), listing_of(tail.drop_first()));
                        }
                    }
                },
            }
        }
        assert(all.subrange(all.len() as int, all.len() as int) =~= Seq::<XmlEventView>::empty());
        assert(folders_view(folders@) + seq![] =~= folders_view(folders@));
        Ok(FolderListing { folders })
    }

    /// Parses a `<folder-listing>` XML document from raw bytes.
    ///
    /// Fails on malformed XML, undecodable attributes, or non-UTF-8 folder names.
    pub fn parse(xml: &[u8]) -> (r: Result<FolderListing, XmlError>)
        ensures
            match listing_of(quick_xml_events(xml@)) {
                Ok(names) => r matches Ok(l) && l@ == names,
                Err(k) => r matches Err(e) && e.kind() == k,
            },
    {
        let mut reader = open_reader(xml);
        let ghost all = pending_events(reader);
        let mut events: Vec<XmlEvent> = Vec::new();
        loop
            invariant_except_break
                forall|i: int| 0 <= i < events.len() ==> !is_terminal(#[trigger] events_view(events@)[i]),
                events_view(events@) + pending_events(reader) == all,
            invariant
                is_event_run(all),
                all == quick_xml_events(xml@),
            ensures
                events_view(events@) == all,
            decreases pending_events(reader).len(),
        {
            let ghost n = events.len();
            assert(pending_events(reader).len() > 0) by {
                if pending_events(reader).len() == 0 {
                    assert(events_view(events@) =~= all);
                    assert(!is_terminal(all[all.len() - 1]));
                }
            }
            let ghost pend = pending_events(reader);
            let ev = next_event(&mut reader);
            let stop = match ev {
                XmlEvent::Eof | XmlEvent::Failed(_) => true,
                _ => false,
            };
            let ghost before = events@;
            events.push(ev);
            assert(events_view(events@) =~= events_view(before).push(pend[0]));
            if stop {
                // The first terminal event of the run is its last: nothing follows it.
                assert(all[n as int] == pend[0]);
                assert(events_view(events@).len() == all.len()) by {
                    if n + 1 < all.len() {
                        assert(!is_terminal(all[n as int]));
                    }
                }
                assert(events_view(events@) =~= all);
                break;
            }
            assert(events_view(events@) + pending_events(reader) =~= all) by {
                assert(pend =~= seq![pend[0]] + pend.drop_first());
            }
        }
        FolderListing::from_events(events)
    }
}

} // verus!
