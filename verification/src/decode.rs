//! The boundary to the external MIME decoder: raw message bytes in, a
//! [`DecodedMessage`] out, projected into the domain model.
//!
//! Decoding is deterministic in the bytes, so each decoded part is named as
//! a function of the bytes ([`decode_ok_of`] and the `decoded_*` names
//! below, assembled by [`decoded_of`]); each trusted wrapper reads one part
//! of the decoded message. [`parse_eml_bytes`] then states exactly when the
//! conversion succeeds and that every successful result is the projection
//! of the decoded view.

use vstd::prelude::*;
use mail_parser::MimeHeaders;
use crate::eml::{
    email_wf, project, project_spec, user_views, DecodedMessage, DmView, Email, RawAttachment,
    RawAttView, User, UserView,
};
use vstd::pervasive::unreached;

verus! {

/// Whether the external decoder accepts raw message bytes at all; a pure
/// function of the bytes, false exactly when no headers decode.
pub uninterp spec fn decode_ok_of(raw: Seq<u8>) -> bool;

/// The decoded From addresses of accepted bytes.
pub uninterp spec fn decoded_from(raw: Seq<u8>) -> Seq<UserView>;

/// The decoded To addresses of accepted bytes.
pub uninterp spec fn decoded_to(raw: Seq<u8>) -> Seq<UserView>;

/// The decoded CC addresses of accepted bytes.
pub uninterp spec fn decoded_cc(raw: Seq<u8>) -> Seq<UserView>;

/// The decoded subject of accepted bytes, when the header is present.
pub uninterp spec fn decoded_subject(raw: Seq<u8>) -> Option<Seq<char>>;

/// The decoded message date of accepted bytes as Unix seconds, when the
/// header is present.
pub uninterp spec fn decoded_date_unix(raw: Seq<u8>) -> Option<int>;

/// The first decoded plain-text body part of accepted bytes, when one
/// exists.
pub uninterp spec fn decoded_body_text(raw: Seq<u8>) -> Option<Seq<char>>;

/// The first decoded HTML body part of accepted bytes, when one exists.
pub uninterp spec fn decoded_body_html(raw: Seq<u8>) -> Option<Seq<char>>;

/// The decoded attachments of accepted bytes: bytes and optional
/// content-type pair each.
pub uninterp spec fn decoded_attachments(raw: Seq<u8>) -> Seq<RawAttView>;

/// What the external decoder yields for raw message bytes: the decoded
/// message view, or nothing when the bytes hold no decodable headers.
pub open spec fn decoded_of(raw: Seq<u8>) -> Option<DmView> {
    if decode_ok_of(raw) {
        Some(
            DmView {
                from: decoded_from(raw),
                to: decoded_to(raw),
                cc: decoded_cc(raw),
                subject: decoded_subject(raw),
                date_unix: decoded_date_unix(raw),
                body_text: decoded_body_text(raw),
                body_html: decoded_body_html(raw),
                attachments: decoded_attachments(raw),
            },
        )
    } else {
        None
    }
}

/// Relies on mail_parser's `MessageParser::parse` (default parser) and
/// `Message::from` with `Address::iter`, `Addr::name`, `Addr::address`:
/// deterministic in the bytes, `None` exactly when no headers decode,
/// absent names and addresses defaulting to empty strings.
#[verifier::external_body]
fn decode_from(raw: &[u8]) -> (r: Option<Vec<User>>)
    ensures
        (r is Some) == decode_ok_of(raw@),
        match r {
            Some(v) => user_views(v@) == decoded_from(raw@),
            None => true,
        },
{
    let m = mail_parser::MessageParser::default().parse(raw)?;
    Some(m.from().map(|a| {
        a.iter().map(|x| User {
            name: x.name().unwrap_or_default().to_string(),
            email: x.address().unwrap_or_default().to_string(),
        }).collect()
    }).unwrap_or_default())
}

/// Relies on mail_parser's `MessageParser::parse` (default parser) and
/// `Message::to` with `Address::iter`, `Addr::name`, `Addr::address`:
/// deterministic in the bytes, absent parts defaulting to empty strings.
#[verifier::external_body]
fn decode_to(raw: &[u8]) -> (r: Option<Vec<User>>)
    ensures
        (r is Some) == decode_ok_of(raw@),
        match r {
            Some(v) => user_views(v@) == decoded_to(raw@),
            None => true,
        },
{
    let m = mail_parser::MessageParser::default().parse(raw)?;
    Some(m.to().map(|a| {
        a.iter().map(|x| User {
            name: x.name().unwrap_or_default().to_string(),
            email: x.address().unwrap_or_default().to_string(),
        }).collect()
    }).unwrap_or_default())
}

/// Relies on mail_parser's `MessageParser::parse` (default parser) and
/// `Message::cc` with `Address::iter`, `Addr::name`, `Addr::address`:
/// deterministic in the bytes, absent parts defaulting to empty strings.
#[verifier::external_body]
fn decode_cc(raw: &[u8]) -> (r: Option<Vec<User>>)
    ensures
        (r is Some) == decode_ok_of(raw@),
        match r {
            Some(v) => user_views(v@) == decoded_cc(raw@),
            None => true,
        },
{
    let m = mail_parser::MessageParser::default().parse(raw)?;
    Some(m.cc().map(|a| {
        a.iter().map(|x| User {
            name: x.name().unwrap_or_default().to_string(),
            email: x.address().unwrap_or_default().to_string(),
        }).collect()
    }).unwrap_or_default())
}

/// Relies on mail_parser's `MessageParser::parse` (default parser) and
/// `Message::subject`: deterministic in the bytes.
#[verifier::external_body]
fn decode_subject(raw: &[u8]) -> (r: Option<Option<String>>)
    ensures
        (r is Some) == decode_ok_of(raw@),
        match r {
            Some(v) => (match v {
                None => None,
                Some(s) => Some(s@),
            }) == decoded_subject(raw@),
            None => true,
        },
{
    let m = mail_parser::MessageParser::default().parse(raw)?;
    Some(m.subject().map(|s| s.to_string()))
}

/// Relies on mail_parser's `MessageParser::parse` (default parser),
/// `Message::date` and `DateTime::to_timestamp`: deterministic in the
/// bytes; `to_timestamp` is plain arithmetic on the decoded fields.
#[verifier::external_body]
fn decode_date_unix(raw: &[u8]) -> (r: Option<Option<i64>>)
    ensures
        (r is Some) == decode_ok_of(raw@),
        match r {
            Some(v) => (match v {
                None => None,
                Some(s) => Some(s as int),
            }) == decoded_date_unix(raw@),
            None => true,
        },
{
    let m = mail_parser::MessageParser::default().parse(raw)?;
    Some(m.date().map(|d| d.to_timestamp()))
}

/// Relies on mail_parser's `MessageParser::parse` (default parser) and
/// `Message::body_text`: deterministic in the bytes.
#[verifier::external_body]
fn decode_body_text(raw: &[u8]) -> (r: Option<Option<String>>)
    ensures
        (r is Some) == decode_ok_of(raw@),
        match r {
            Some(v) => (match v {
                None => None,
                Some(s) => Some(s@),
            }) == decoded_body_text(raw@),
            None => true,
        },
{
    let m = mail_parser::MessageParser::default().parse(raw)?;
    Some(m.body_text(0).map(|c| c.to_string()))
}

/// Relies on mail_parser's `MessageParser::parse` (default parser) and
/// `Message::body_html`: deterministic in the bytes.
#[verifier::external_body]
fn decode_body_html(raw: &[u8]) -> (r: Option<Option<String>>)
    ensures
        (r is Some) == decode_ok_of(raw@),
        match r {
            Some(v) => (match v {
                None => None,
                Some(s) => Some(s@),
            }) == decoded_body_html(raw@),
            None => true,
        },
{
    let m = mail_parser::MessageParser::default().parse(raw)?;
    Some(m.body_html(0).map(|c| c.to_string()))
}

/// Relies on mail_parser's `MessageParser::parse` (default parser),
/// `Message::attachments`, `MessagePart::contents` and
/// `MimeHeaders::content_type` (`ctype`, `subtype`): deterministic in the
/// bytes; every decoded attachment's bytes and declared content-type pair.
#[verifier::external_body]
fn decode_attachments(raw: &[u8]) -> (r: Option<Vec<RawAttachment>>)
    ensures
        (r is Some) == decode_ok_of(raw@),
        match r {
            Some(v) => v@.map_values(|a: RawAttachment| a@) == decoded_attachments(raw@),
            None => true,
        },
{
    let m = mail_parser::MessageParser::default().parse(raw)?;
    Some(m.attachments().map(|a| RawAttachment {
        raw: a.contents().to_vec(),
        content_type: a.content_type().map(|c| {
            (c.ctype().to_string(), c.subtype().map(|s| s.to_string()))
        }),
    }).collect())
}

/// Why a conversion failed as a whole; individual malformed headers never
/// fail, they degrade to empty or absent fields.
#[derive(Debug, Clone, Copy, PartialEq, Eq, Structural)]
pub enum EmlError {
    /// The external decoder could not parse the raw bytes into a message.
    Decode,
}

/// Parses raw EML bytes into the domain model: the external decoder splits
/// the message, the verified projector builds the email. The conversion
/// succeeds exactly when the decoder accepts the bytes; the result is then
/// the projection of the decoded view, with a renderable date.
pub fn parse_eml_bytes(content: &[u8]) -> (r: Result<Email, EmlError>)
    ensures
        (r is Ok) == (decoded_of(content@) is Some),
        match r {
            Ok(e) => email_wf(e@) && (match decoded_of(content@) {
                Some(d) => e@ == project_spec(d),
                None => false,
            }),
            Err(e) => e == EmlError::Decode,
        },
{
    let from = match decode_from(content) {
        None => {
            return Err(EmlError::Decode);
        },
        Some(v) => v,
    };
    let to = match decode_to(content) {
        None => unreached(),
        Some(v) => v,
    };
    let cc = match decode_cc(content) {
        None => unreached(),
        Some(v) => v,
    };
    let subject = match decode_subject(content) {
        None => unreached(),
        Some(v) => v,
    };
    let date_unix = match decode_date_unix(content) {
        None => unreached(),
        Some(v) => v,
    };
    let body_text = match decode_body_text(content) {
        None => unreached(),
        Some(v) => v,
    };
    let body_html = match decode_body_html(content) {
        None => unreached(),
        Some(v) => v,
    };
    let attachments = match decode_attachments(content) {
        None => unreached(),
        Some(v) => v,
    };
    let dm = DecodedMessage { from, to, cc, subject, date_unix, body_text, body_html, attachments };
    proof {
        assert(dm@ == decoded_of(content@).unwrap());
    }
    Ok(project(dm))
}

} // verus!
