//! Formatter selection and the email-to-Markdown entry point.

pub mod simple;

use vstd::prelude::*;
use crate::eml::{body_views, email_wf, Body, Email, Header};
use crate::strutil::str_eq;
pub use simple::{format_spec, SimpleFormatter, SimpleHtmlFormatter};
use simple::{bodies_spec, body_fmt_spec, header_spec, supported_spec};

verus! {

/// The closed set of formatter variants; both currently render identically.
#[derive(Clone, Copy, PartialEq, Eq, Structural, Debug)]
pub enum Formatter {
    Simple,
    Html,
}

impl Formatter {
    /// Renders a whole email to Markdown; every variant renders the same
    /// text today.
    pub fn format(&self, email: &Email) -> (r: String)
        requires
            email_wf(email@),
        ensures
            r@ == format_spec(email@),
    {
        match self {
            Formatter::Simple => SimpleFormatter.format(email),
            Formatter::Html => SimpleHtmlFormatter.format(email),
        }
    }

    /// Renders the header table of the selected variant.
    pub fn format_header(&self, header: &Header) -> (r: String)
        requires
            match header@.date {
                None => true,
                Some(t) => crate::datetime::ts_wf(t),
            },
        ensures
            r@ == header_spec(header@),
    {
        match self {
            Formatter::Simple => SimpleFormatter.format_header(header),
            Formatter::Html => SimpleHtmlFormatter.format_header(header),
        }
    }

    /// Renders one body with the selected variant.
    pub fn format_body(&self, body: &Body, email: &Email) -> (r: String)
        ensures
            r@ == body_fmt_spec(body@, email@.attachments),
    {
        match self {
            Formatter::Simple => SimpleFormatter.format_body(body, email),
            Formatter::Html => SimpleHtmlFormatter.format_body(body, email),
        }
    }

    /// Renders the supported bodies with the selected variant, joined with
    /// single newlines.
    pub fn format_bodies(&self, bodies: &[Body], email: &Email) -> (r: String)
        ensures
            r@ == bodies_spec(body_views(bodies@), email@.attachments),
    {
        match self {
            Formatter::Simple => SimpleFormatter.format_bodies(bodies, email),
            Formatter::Html => SimpleHtmlFormatter.format_bodies(bodies, email),
        }
    }

    /// Whether a body is rendered; only `text/plain`, in every variant.
    pub fn is_supported_content(&self, body: &Body) -> (r: bool)
        ensures
            r == supported_spec(body@),
    {
        match self {
            Formatter::Simple => SimpleFormatter.is_supported_content(body),
            Formatter::Html => SimpleHtmlFormatter.is_supported_content(body),
        }
    }
}

/// Selects a formatter by name: the Html variant for `html`, the Simple
/// variant for every other name, never an error.
pub fn create_formatter(name: &str) -> (r: Formatter)
    ensures
        r == (if name@ == "html"@ {
            Formatter::Html
        } else {
            Formatter::Simple
        }),
{
    if str_eq(name, "html") {
        Formatter::Html
    } else {
        Formatter::Simple
    }
}

/// Formats an email to Markdown using the formatter of the given name; an
/// unknown name falls back to the Simple variant and renders the same text.
pub fn format_markdown(email: &Email, formatter_name: &str) -> (r: String)
    requires
        email_wf(email@),
    ensures
        r@ == format_spec(email@),
{
    let formatter = create_formatter(formatter_name);
    formatter.format(email)
}

} // verus!
