//! bMessage data types and their mathematical views.
use vstd::prelude::*;

verus! {

/// bMessage parse errors: missing required fields, unrecognised STATUS/TYPE values, and
/// unterminated sections.
#[derive(Debug, Clone, PartialEq, Eq)]
pub enum BMessageError {
    /// A required top-level field was absent.
    MissingField(&'static str),
    /// The STATUS value was neither `READ` nor `UNREAD`.
    UnknownStatus(String),
    /// The TYPE value was not `SMS_GSM`.
    UnknownType(String),
    /// A `BEGIN:X` was not followed by a matching `END:X` before the end of input.
    UnterminatedSection(&'static str),
}

/// The view of a [`BMessageError`]: each payload as a character sequence.
pub enum BMessageErrorView {
    MissingField(Seq<char>),
    UnknownStatus(Seq<char>),
    UnknownType(Seq<char>),
    UnterminatedSection(Seq<char>),
}

impl View for BMessageError {
    type V = BMessageErrorView;

    open spec fn view(&self) -> BMessageErrorView {
        match self {
            BMessageError::MissingField(f) => BMessageErrorView::MissingField(f@),
            BMessageError::UnknownStatus(s) => BMessageErrorView::UnknownStatus(s@),
            BMessageError::UnknownType(s) => BMessageErrorView::UnknownType(s@),
            BMessageError::UnterminatedSection(f) => BMessageErrorView::UnterminatedSection(f@),
        }
    }
}

impl BMessageError {
    /// Human-readable description of the error.
    pub fn to_string(&self) -> (res: String)
        ensures
            res@ == self.message(),
    {
        let mut out = String::new();
        match self {
            BMessageError::MissingField(f) => {
                out.append("missing required field: ");
                out.append(f);
            },
            BMessageError::UnknownStatus(s) => {
                out.append("unrecognised STATUS: ");
                out.append(s.as_str());
            },
            BMessageError::UnknownType(s) => {
                out.append("unrecognised TYPE: ");
                out.append(s.as_str());
            },
            BMessageError::UnterminatedSection(f) => {
                out.append("unterminated section: ");
                out.append(f);
            },
        }
        out
    }

    /// The text [`BMessageError::to_string`] produces.
    pub open spec fn message(&self) -> Seq<char> {
        match self {
            BMessageError::MissingField(f) => "missing required field: "@ + f@,
            BMessageError::UnknownStatus(s) => "unrecognised STATUS: "@ + s@,
            BMessageError::UnknownType(s) => "unrecognised TYPE: "@ + s@,
            BMessageError::UnterminatedSection(f) => "unterminated section: "@ + f@,
        }
    }
}

/// Read/unread status from the bMessage STATUS field.
#[derive(Debug, Clone, Copy, PartialEq, Eq, Structural)]
pub enum MessageStatus {
    /// Wire value `READ`.
    Read,
    /// Wire value `UNREAD`.
    Unread,
}

/// The wire spelling of a status.
pub open spec fn status_wire(s: MessageStatus) -> Seq<char> {
    match s {
        MessageStatus::Read => "READ"@,
        MessageStatus::Unread => "UNREAD"@,
    }
}

/// The two statuses are written with their own names, `READ` and `UNREAD`, and never alike.
pub proof fn lemma_status_wire_names()
    ensures
        status_wire(MessageStatus::Read) == "READ"@,
        status_wire(MessageStatus::Unread) == "UNREAD"@,
        status_wire(MessageStatus::Read) != status_wire(MessageStatus::Unread),
{
    reveal_strlit("READ");
    reveal_strlit("UNREAD");
    assert("READ"@.len() != "UNREAD"@.len());
}

impl MessageStatus {
    /// The wire spelling: `READ` or `UNREAD`.
    pub fn as_str(&self) -> (s: &'static str)
        ensures
            s@ == status_wire(*self),
    {
        match self {
            MessageStatus::Read => "READ",
            MessageStatus::Unread => "UNREAD",
        }
    }
}

/// Message type from the bMessage TYPE field.
///
/// iOS devices only report `SMS_GSM`. The underscore form is required; iOS rejects `SMS-GSM`.
#[derive(Debug, Clone, Copy, PartialEq, Eq, Structural)]
pub enum MessageType {
    /// GSM SMS. Encoded as `SMS_GSM`: underscore, not hyphen.
    SmsGsm,
}

impl MessageType {
    /// The wire spelling of the only supported type.
    pub fn as_str() -> (s: &'static str)
        ensures
            s@ == "SMS_GSM"@,
    {
        "SMS_GSM"
    }
}

/// Minimal vCard embedded in a bMessage originator or BENV section.
///
/// Only N and TEL are preserved; all other properties are discarded on parse. An empty string
/// means the property was absent or blank.
#[derive(Debug, Clone, PartialEq, Eq, Default)]
pub struct BVCard {
    /// Value of the N property.
    pub name: String,
    /// Value of the TEL property.
    pub tel: String,
}

/// The view of a [`BVCard`].
pub struct VCardView {
    pub name: Seq<char>,
    pub tel: Seq<char>,
}

impl View for BVCard {
    type V = VCardView;

    open spec fn view(&self) -> VCardView {
        VCardView { name: self.name@, tel: self.tel@ }
    }
}

/// BBODY section: transport metadata and decoded message text.
#[derive(Debug, Clone, PartialEq, Eq)]
pub struct BBody {
    /// ENCODING value, e.g. `8BIT`.
    pub encoding: String,
    /// CHARSET value, e.g. `UTF-8`.
    pub charset: String,
    /// LANGUAGE value, e.g. `UNKNOWN`.
    pub language: String,
    /// Text between BEGIN:MSG and END:MSG. CRLF normalised to LF on parse.
    pub text: String,
}

/// The view of a [`BBody`].
pub struct BodyView {
    pub encoding: Seq<char>,
    pub charset: Seq<char>,
    pub language: Seq<char>,
    pub text: Seq<char>,
}

impl View for BBody {
    type V = BodyView;

    open spec fn view(&self) -> BodyView {
        BodyView {
            encoding: self.encoding@,
            charset: self.charset@,
            language: self.language@,
            text: self.text@,
        }
    }
}

/// BENV section: recipients and the message body.
#[derive(Debug, Clone, PartialEq, Eq)]
pub struct BEnvelope {
    /// Recipient vCards from BEGIN:VCARD…END:VCARD blocks inside BENV.
    pub recipients: Vec<BVCard>,
    /// The BBODY section.
    pub body: BBody,
}

/// The view of a [`BEnvelope`].
pub struct EnvelopeView {
    pub recipients: Seq<VCardView>,
    pub body: BodyView,
}

impl View for BEnvelope {
    type V = EnvelopeView;

    open spec fn view(&self) -> EnvelopeView {
        EnvelopeView { recipients: self.recipients@.map_values(|v: BVCard| v@), body: self.body@ }
    }
}

/// A bMessage. Single-level BENV structure; nested BENV is not supported.
#[derive(Debug, Clone, PartialEq, Eq)]
pub struct BMessage {
    status: MessageStatus,
    type_: MessageType,
    folder: String,
    originator: Option<BVCard>,
    envelope: BEnvelope,
}

/// The view of a [`BMessage`]; the TYPE is always `SMS_GSM` and so is not recorded.
pub struct BMessageView {
    pub status: MessageStatus,
    pub folder: Seq<char>,
    pub originator: Option<VCardView>,
    pub envelope: EnvelopeView,
}

/// The view of an optional vCard.
pub open spec fn opt_vcard_view(o: Option<BVCard>) -> Option<VCardView> {
    match o {
        Some(v) => Some(v@),
        None => None,
    }
}

impl View for BMessage {
    type V = BMessageView;

    closed spec fn view(&self) -> BMessageView {
        BMessageView {
            status: self.status,
            folder: self.folder@,
            originator: opt_vcard_view(self.originator),
            envelope: self.envelope@,
        }
    }
}

impl BMessage {
    /// Wire STATUS field: `READ` or `UNREAD`.
    pub fn status(&self) -> (s: &MessageStatus)
        ensures
            *s == self@.status,
    {
        &self.status
    }

    /// FOLDER field value, e.g. `telecom/msg/outbox`.
    pub fn folder(&self) -> (f: &str)
        ensures
            f@ == self@.folder,
    {
        self.folder.as_str()
    }

    /// Sender vCard outside BENV; `None` if absent.
    pub fn originator(&self) -> (o: Option<&BVCard>)
        ensures
            match o {
                Some(v) => self@.originator == Some(v@),
                None => self@.originator is None,
            },
    {
        match &self.originator {
            Some(v) => Some(v),
            None => None,
        }
    }

    /// BENV section: recipient vCards and the message body.
    pub fn envelope(&self) -> (e: &BEnvelope)
        ensures
            e@ == self@.envelope,
    {
        &self.envelope
    }

    /// The iOS-mandated structure for `PushMessage`: STATUS:UNREAD, `TYPE:SMS_GSM`,
    /// FOLDER:telecom/msg/outbox; an empty originator outside BENV and the recipient inside it.
    pub fn outbound_sms(phone: &str, text: &str) -> (m: Self)
        ensures
            m@ == outbound_sms_view(phone@, text@),
    {
        let originator = BVCard { name: String::new(), tel: String::new() };
        let recipient = BVCard { name: String::new(), tel: phone.to_owned() };
        let mut recipients: Vec<BVCard> = Vec::new();
        recipients.push(recipient);
        let m = BMessage {
            status: MessageStatus::Unread,
            type_: MessageType::SmsGsm,
            folder: "telecom/msg/outbox".to_owned(),
            originator: Some(originator),
            envelope: BEnvelope {
                recipients,
                body: BBody {
                    encoding: "8BIT".to_owned(),
                    charset: "UTF-8".to_owned(),
                    language: "UNKNOWN".to_owned(),
                    text: text.to_owned(),
                },
            },
        };
        assert(m@.envelope.recipients =~= outbound_sms_view(phone@, text@).envelope.recipients);
        m
    }

    pub(crate) fn from_parts(
        status: MessageStatus,
        type_: MessageType,
        folder: String,
        originator: Option<BVCard>,
        envelope: BEnvelope,
    ) -> (m: Self)
        ensures
            m@ == (BMessageView {
                status,
                folder: folder@,
                originator: opt_vcard_view(originator),
                envelope: envelope@,
            }),
    {
        BMessage { status, type_, folder, originator, envelope }
    }
}

/// The empty vCard.
pub open spec fn empty_vcard_view() -> VCardView {
    VCardView { name: Seq::empty(), tel: Seq::empty() }
}

/// What [`BMessage::outbound_sms`] builds for a phone number and a text.
pub open spec fn outbound_sms_view(phone: Seq<char>, text: Seq<char>) -> BMessageView {
    BMessageView {
        status: MessageStatus::Unread,
        folder: "telecom/msg/outbox"@,
        originator: Some(empty_vcard_view()),
        envelope: EnvelopeView {
            recipients: seq![VCardView { name: Seq::empty(), tel: phone }],
            body: BodyView {
                encoding: "8BIT"@,
                charset: "UTF-8"@,
                language: "UNKNOWN"@,
                text,
            },
        },
    }
}

} // verus!
