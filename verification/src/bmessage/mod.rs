//! bMessage encoder and parser (MAP specification, appendix B).
//!
//! Parse with [`BMessage::parse`]; encode with [`BMessage::encode`].
mod encode;
pub mod header_law;
pub mod length_law;
pub mod line_endings;
mod parser;
pub mod roundtrip;
pub mod spec;
mod types;

pub use types::{
    outbound_sms_view, status_wire, BBody, BEnvelope, BMessage, BMessageError, BMessageErrorView,
    BMessageView, BVCard, BodyView, EnvelopeView, MessageStatus, MessageType, VCardView,
};
