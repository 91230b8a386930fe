//! Integration tests for bMessage parsing and encoding.

use imsg::bmessage::{BMessage, BMessageError, MessageStatus};

fn expected() -> BMessage {
    BMessage::outbound_sms("+15559876543", "Hello from Linux")
}

#[test]
fn encode_decode_roundtrip() -> Result<(), BMessageError> {
    let msg = expected();
    let encoded = msg.encode();
    let decoded = BMessage::parse(&encoded)?;
    assert_eq!(decoded, msg);
    Ok(())
}

#[test]
fn encode_uses_crlf_line_endings() {
    let encoded = expected().encode();
    assert!(encoded.contains("\r\n"));
}

#[test]
fn encode_type_field_uses_underscore() {
    let encoded = expected().encode();
    assert!(encoded.contains("TYPE:SMS_GSM"));
    assert!(!encoded.contains("SMS-GSM"));
}

#[test]
fn encode_length_matches_crlf_block() -> Result<(), BMessageError> {
    let encoded = expected().encode();
    let length_line = encoded
        .lines()
        .find(|l| l.starts_with("LENGTH:"))
        .ok_or(BMessageError::MissingField("LENGTH"))?;
    let declared: usize = length_line
        .trim_start_matches("LENGTH:")
        .parse()
        .map_err(|_| BMessageError::MissingField("LENGTH"))?;
    // "BEGIN:MSG\r\n" + "Hello from Linux\r\n" + "END:MSG\r\n" = 38
    assert_eq!(declared, 38);
    Ok(())
}

#[test]
fn encode_sender_before_benv() -> Result<(), BMessageError> {
    let encoded = expected().encode();
    let orig_pos = encoded.find("BEGIN:VCARD").ok_or(BMessageError::MissingField("VCARD"))?;
    let benv_pos = encoded.find("BEGIN:BENV").ok_or(BMessageError::MissingField("BENV"))?;
    assert!(orig_pos < benv_pos);
    Ok(())
}

#[test]
fn encode_recipient_inside_benv() -> Result<(), BMessageError> {
    let encoded = expected().encode();
    let benv_pos = encoded.find("BEGIN:BENV").ok_or(BMessageError::MissingField("BENV"))?;
    assert!(encoded.get(benv_pos..).is_some_and(|s| s.contains("+15559876543")));
    Ok(())
}

#[test]
fn parse_status_read() -> Result<(), BMessageError> {
    let src = "BEGIN:BMSG\r\nVERSION:1.0\r\nSTATUS:READ\r\nTYPE:SMS_GSM\r\nFOLDER:telecom/msg/inbox\r\nBEGIN:BENV\r\nBEGIN:BBODY\r\nENCODING:8BIT\r\nCHARSET:UTF-8\r\nLANGUAGE:UNKNOWN\r\nLENGTH:24\r\nBEGIN:MSG\r\nhi\r\nEND:MSG\r\nEND:BBODY\r\nEND:BENV\r\nEND:BMSG\r\n";
    let msg = BMessage::parse(src)?;
    assert_eq!(*msg.status(), MessageStatus::Read);
    Ok(())
}

#[test]
fn parse_missing_status_returns_error() {
    let src = "BEGIN:BMSG\r\nVERSION:1.0\r\nTYPE:SMS_GSM\r\nFOLDER:telecom/msg/inbox\r\nBEGIN:BENV\r\nBEGIN:BBODY\r\nENCODING:8BIT\r\nCHARSET:UTF-8\r\nLANGUAGE:UNKNOWN\r\nLENGTH:9\r\nBEGIN:MSG\r\nEND:MSG\r\nEND:BBODY\r\nEND:BENV\r\nEND:BMSG\r\n";
    assert!(matches!(BMessage::parse(src), Err(BMessageError::MissingField("STATUS"))));
}

#[test]
fn parse_unknown_type_returns_error() {
    let src = "BEGIN:BMSG\r\nVERSION:1.0\r\nSTATUS:UNREAD\r\nTYPE:SMS-GSM\r\nFOLDER:telecom/msg/inbox\r\nBEGIN:BENV\r\nBEGIN:BBODY\r\nENCODING:8BIT\r\nCHARSET:UTF-8\r\nLANGUAGE:UNKNOWN\r\nLENGTH:9\r\nBEGIN:MSG\r\nEND:MSG\r\nEND:BBODY\r\nEND:BENV\r\nEND:BMSG\r\n";
    assert!(matches!(BMessage::parse(src), Err(BMessageError::UnknownType(_))));
}

#[test]
fn parse_unterminated_returns_error() {
    assert!(matches!(
        BMessage::parse("BEGIN:BMSG\r\n"),
        Err(BMessageError::UnterminatedSection("BMSG"))
    ));
}

#[test]
fn parse_accepts_lf_line_endings() -> Result<(), BMessageError> {
    let lf = expected().encode().replace("\r\n", "\n");
    let msg = BMessage::parse(&lf)?;
    assert_eq!(*msg.status(), MessageStatus::Unread);
    Ok(())
}

#[test]
fn parse_body_containing_end_msg_sentinel() -> Result<(), BMessageError> {
    // LENGTH:41 = BEGIN:MSG\r\n(11) + END:MSG\r\n(9) + "actual end"\r\n(12) + END:MSG\r\n(9)
    let src ="BEGIN:BMSG\r\nVERSION:1.0\r\nSTATUS:UNREAD\r\nTYPE:SMS_GSM\r\nFOLDER:telecom/msg/inbox\r\nBEGIN:BENV\r\nBEGIN:BBODY\r\nENCODING:8BIT\r\nCHARSET:UTF-8\r\nLANGUAGE:UNKNOWN\r\nLENGTH:41\r\nBEGIN:MSG\r\nEND:MSG\r\nactual end\r\nEND:MSG\r\nEND:BBODY\r\nEND:BENV\r\nEND:BMSG\r\n";
    let msg = BMessage::parse(src)?;
    assert_eq!(msg.envelope().body.text, "END:MSG\nactual end");
    Ok(())
}

#[test]
fn encode_is_exact_wire_text() {
    let encoded = BMessage::outbound_sms("+15559876543", "Hello from Linux").encode();
    assert_eq!(
        encoded,
        "BEGIN:BMSG\r\nVERSION:1.0\r\nSTATUS:UNREAD\r\nTYPE:SMS_GSM\r\nFOLDER:telecom/msg/outbox\r\n\
         BEGIN:VCARD\r\nVERSION:3.0\r\nN:\r\nTEL:\r\nEND:VCARD\r\nBEGIN:BENV\r\n\
         BEGIN:VCARD\r\nVERSION:3.0\r\nN:\r\nTEL:+15559876543\r\nEND:VCARD\r\n\
         BEGIN:BBODY\r\nENCODING:8BIT\r\nCHARSET:UTF-8\r\nLANGUAGE:UNKNOWN\r\nLENGTH:38\r\n\
         BEGIN:MSG\r\nHello from Linux\r\nEND:MSG\r\nEND:BBODY\r\nEND:BENV\r\nEND:BMSG\r\n"
    );
}

#[test]
fn length_counts_utf8_bytes_and_crlf_per_line() {
    // "héllo" is 6 bytes, "wörld" 6 bytes: 11 + (6 + 2) + (6 + 2) + 9 = 36.
    let encoded = BMessage::outbound_sms("+1", "héllo\nwörld").encode();
    assert!(encoded.contains("LENGTH:36\r\n"));
    assert!(encoded.contains("BEGIN:MSG\r\nhéllo\r\nwörld\r\nEND:MSG\r\n"));
}

#[test]
fn multi_line_text_roundtrips() -> Result<(), BMessageError> {
    let msg = BMessage::outbound_sms("+15550001111", "first\n\nthird: with colon");
    let decoded = BMessage::parse(&msg.encode())?;
    assert_eq!(decoded, msg);
    Ok(())
}

#[test]
fn empty_text_roundtrips() -> Result<(), BMessageError> {
    let msg = BMessage::outbound_sms("+15550001111", "");
    let encoded = msg.encode();
    assert!(encoded.contains("LENGTH:20\r\n"));
    assert_eq!(BMessage::parse(&encoded)?, msg);
    Ok(())
}

#[test]
fn parse_missing_type_and_folder_errors() {
    let no_type = "BEGIN:BMSG\r\nSTATUS:READ\r\nFOLDER:x\r\nBEGIN:BENV\r\n";
    assert_eq!(BMessage::parse(no_type), Err(BMessageError::MissingField("TYPE")));
    let no_folder = "BEGIN:BMSG\r\nSTATUS:READ\r\nTYPE:SMS_GSM\r\nBEGIN:BENV\r\n";
    assert_eq!(BMessage::parse(no_folder), Err(BMessageError::MissingField("FOLDER")));
}

#[test]
fn parse_unknown_status_reports_value() {
    let src = "BEGIN:BMSG\r\nSTATUS:SEEN\r\n";
    assert_eq!(BMessage::parse(src), Err(BMessageError::UnknownStatus("SEEN".to_owned())));
}

#[test]
fn parse_end_before_benv_is_missing_benv() {
    let src = "BEGIN:BMSG\r\nSTATUS:READ\r\nEND:BMSG\r\n";
    assert_eq!(BMessage::parse(src), Err(BMessageError::MissingField("BENV")));
}

#[test]
fn parse_missing_length_errors() {
    let src = "BEGIN:BMSG\r\nSTATUS:READ\r\nTYPE:SMS_GSM\r\nFOLDER:f\r\nBEGIN:BENV\r\nBEGIN:BBODY\r\nBEGIN:MSG\r\nEND:MSG\r\n";
    assert_eq!(BMessage::parse(src), Err(BMessageError::MissingField("LENGTH")));
}

#[test]
fn parse_unterminated_msg_errors() {
    let src = "BEGIN:BMSG\r\nSTATUS:READ\r\nTYPE:SMS_GSM\r\nFOLDER:f\r\nBEGIN:BENV\r\nBEGIN:BBODY\r\nLENGTH:40\r\nBEGIN:MSG\r\nhi\r\n";
    assert_eq!(BMessage::parse(src), Err(BMessageError::UnterminatedSection("MSG")));
}

#[test]
fn parse_lone_carriage_return_is_unterminated() {
    let src = "BEGIN:BMSG\r\nSTATUS:READ\rTYPE:SMS_GSM\r\n";
    assert_eq!(BMessage::parse(src), Err(BMessageError::UnterminatedSection("BMSG")));
}

#[test]
fn parse_reads_originator_and_recipients() -> Result<(), BMessageError> {
    let src = "BEGIN:BMSG\r\nVERSION:1.0\r\nSTATUS:READ\r\nTYPE:SMS_GSM\r\nFOLDER:telecom/msg/inbox\r\nBEGIN:VCARD\r\nVERSION:2.1\r\nN:Alice\r\nTEL:+1555\r\nEND:VCARD\r\nBEGIN:BENV\r\nBEGIN:VCARD\r\nTEL:+1666\r\nEND:VCARD\r\nBEGIN:VCARD\r\nN:Carol\r\nEND:VCARD\r\nBEGIN:BBODY\r\nCHARSET:UTF-8\r\nLENGTH:24\r\nBEGIN:MSG\r\nhi\r\nEND:MSG\r\nEND:BBODY\r\nEND:BENV\r\nEND:BMSG\r\n";
    let msg = BMessage::parse(src)?;
    assert_eq!(msg.folder(), "telecom/msg/inbox");
    let orig = msg.originator().ok_or(BMessageError::MissingField("VCARD"))?;
    assert_eq!(orig.name, "Alice");
    assert_eq!(orig.tel, "+1555");
    let env = msg.envelope();
    assert_eq!(env.recipients.len(), 2);
    assert_eq!(env.recipients[0].tel, "+1666");
    assert_eq!(env.recipients[1].name, "Carol");
    assert_eq!(env.body.charset, "UTF-8");
    assert_eq!(env.body.encoding, "");
    assert_eq!(env.body.text, "hi");
    Ok(())
}

#[test]
fn error_messages_name_the_problem() {
    assert_eq!(
        BMessageError::MissingField("STATUS").to_string(),
        "missing required field: STATUS"
    );
    assert_eq!(
        BMessageError::UnterminatedSection("BMSG").to_string(),
        "unterminated section: BMSG"
    );
}

#[test]
fn header_keeps_last_status_folder_and_vcard() -> Result<(), BMessageError> {
    let src = "BEGIN:BMSG\r\nVERSION:1.0\r\nSTATUS:UNREAD\r\nTYPE:SMS_GSM\r\nFOLDER:a\r\nBEGIN:VCARD\r\nN:First\r\nEND:VCARD\r\nSTATUS:READ\r\nFOLDER:b\r\nBEGIN:VCARD\r\nN:Second\r\nTEL:+1\r\nEND:VCARD\r\nBEGIN:BENV\r\nBEGIN:BBODY\r\nLENGTH:20\r\nBEGIN:MSG\r\nEND:MSG\r\nEND:BBODY\r\nEND:BENV\r\nEND:BMSG\r\n";
    let msg = BMessage::parse(src)?;
    assert_eq!(*msg.status(), MessageStatus::Read);
    assert_eq!(msg.folder(), "b");
    let orig = msg.originator().ok_or(BMessageError::MissingField("VCARD"))?;
    assert_eq!(orig.name, "Second");
    assert_eq!(orig.tel, "+1");
    Ok(())
}

#[test]
fn encoded_message_without_originator_has_no_header_vcard() -> Result<(), BMessageError> {
    let src = "BEGIN:BMSG\r\nVERSION:1.0\r\nSTATUS:READ\r\nTYPE:SMS_GSM\r\nFOLDER:x\r\nBEGIN:BENV\r\nBEGIN:BBODY\r\nLENGTH:20\r\nBEGIN:MSG\r\nEND:MSG\r\nEND:BBODY\r\nEND:BENV\r\nEND:BMSG\r\n";
    let msg = BMessage::parse(src)?;
    assert!(msg.originator().is_none());
    let encoded = msg.encode();
    let benv = encoded.find("BEGIN:BENV").ok_or(BMessageError::MissingField("BENV"))?;
    assert!(!encoded[..benv].contains("BEGIN:VCARD"));
    let with_sender = BMessage::outbound_sms("+1", "hi").encode();
    let benv = with_sender.find("BEGIN:BENV").ok_or(BMessageError::MissingField("BENV"))?;
    assert!(with_sender[..benv].contains("BEGIN:VCARD"));
    Ok(())
}
