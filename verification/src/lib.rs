//! Wire formats, configuration rules and session-broker decisions for a Bluetooth MAP/PBAP
//! messaging client.
pub mod bmessage;
pub mod broker;
pub mod config;
pub mod phone;
pub mod text;
pub mod vcard;
pub mod xml;
