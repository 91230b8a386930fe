//! MAP XML folder listing parsing.

use imsg::xml::{AttrItem, FolderEntry, FolderListing, XmlError, XmlEvent};

#[test]
fn parse_inline_single_folder() -> Result<(), XmlError> {
    let xml = b"<?xml version=\"1.0\"?><folder-listing version=\"1.0\"><folder name=\"inbox\"/></folder-listing>";
    let listing = FolderListing::parse(xml)?;
    assert_eq!(listing.folders().len(), 1);
    assert_eq!(listing.folders().first().map(FolderEntry::name), Some("inbox"));
    Ok(())
}

#[test]
fn parse_empty_folder_listing() -> Result<(), XmlError> {
    let xml = b"<?xml version=\"1.0\"?><folder-listing version=\"1.0\"></folder-listing>";
    let listing = FolderListing::parse(xml)?;
    assert!(listing.folders().is_empty());
    Ok(())
}

#[test]
fn parse_returns_folders_in_document_order() -> Result<(), XmlError> {
    let xml = b"<folder-listing version=\"1.0\"><folder name=\"a\"/><folder name=\"b\"/><folder name=\"c\"/></folder-listing>";
    let listing = FolderListing::parse(xml)?;
    let names: Vec<&str> = listing.folders().iter().map(FolderEntry::name).collect();
    assert_eq!(names, ["a", "b", "c"]);
    Ok(())
}

#[test]
fn ios_style_listing_with_start_tags() -> Result<(), XmlError> {
    let xml = b"<?xml version=\"1.0\" encoding=\"UTF-8\"?>\n<folder-listing version=\"1.0\">\n  <folder name=\"inbox\" />\n  <folder name=\"sent\"></folder>\n  <parent-folder name=\"x\"/>\n  <folder name=\"outbox\"/>\n  <folder name=\"deleted\"/>\n</folder-listing>";
    let listing = FolderListing::parse(xml)?;
    let names: Vec<&str> = listing.folders().iter().map(FolderEntry::name).collect();
    assert_eq!(names, ["inbox", "sent", "outbox", "deleted"]);
    Ok(())
}

#[test]
fn malformed_xml_is_a_parse_error() {
    let xml = b"<folder-listing><folder name=\"a\"/></wrong>";
    assert!(matches!(FolderListing::parse(xml), Err(XmlError::Parse(_))));
}

#[test]
fn duplicate_attribute_is_an_attr_error() {
    let xml = b"<folder-listing><folder name=\"a\" name=\"b\"/></folder-listing>";
    assert!(matches!(FolderListing::parse(xml), Err(XmlError::Attr(_))));
}

#[test]
fn non_utf8_folder_name_is_a_utf8_error() {
    let xml = b"<folder-listing><folder name=\"\xff\xfe\"/></folder-listing>";
    assert!(matches!(FolderListing::parse(xml), Err(XmlError::Utf8(_))));
}

#[test]
fn from_events_collects_names_up_to_eof() -> Result<(), XmlError> {
    let tag = |name: &[u8], attrs: Vec<AttrItem>| XmlEvent::Tag { name: name.to_vec(), attributes: attrs };
    let name = |v: &[u8]| AttrItem::Attr { key: b"name".to_vec(), value: v.to_vec() };
    let events = vec![
        tag(b"folder-listing", vec![]),
        tag(b"folder", vec![AttrItem::Attr { key: b"size".to_vec(), value: b"1".to_vec() }, name(b"one")]),
        XmlEvent::Other,
        tag(b"other", vec![name(b"ignored")]),
        tag(b"folder", vec![name(b"two"), name(b"three")]),
        XmlEvent::Eof,
        tag(b"folder", vec![name(b"after-eof")]),
    ];
    let listing = FolderListing::from_events(events)?;
    let names: Vec<&str> = listing.folders().iter().map(FolderEntry::name).collect();
    assert_eq!(names, ["one", "two", "three"]);
    Ok(())
}

#[test]
fn from_events_stops_at_non_utf8_name() {
    let events = vec![
        XmlEvent::Tag {
            name: b"folder".to_vec(),
            attributes: vec![AttrItem::Attr { key: b"name".to_vec(), value: vec![0xC3] }],
        },
        XmlEvent::Eof,
    ];
    assert!(matches!(FolderListing::from_events(events), Err(XmlError::Utf8(_))));
}
