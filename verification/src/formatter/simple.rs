//! Markdown rendering: a header table, body text with attachment
//! placeholders replaced by embedded images, and line-ending normalization.

use vstd::prelude::*;
use base64::Engine;
use crate::content_type::{mime_spec, CtView};
use crate::datetime::{format_timestamp, ts_str_spec, TsView};
use crate::eml::{
    att_views, body_views, email_wf, AttView, Body, BodyView, Email, EmailView, Header,
    HeaderView, User, UserView,
};
use crate::strutil::{
    chars_to_string, join_spec, join_strings, push_str_chars, replace_all, replace_spec, str_eq,
    str_to_chars,
};

verus! {

/// The standard base64 encoding of a byte sequence; a pure function of the
/// bytes.
pub uninterp spec fn base64_of(bytes: Seq<u8>) -> Seq<char>;

/// Relies on base64's `STANDARD` engine: `encode` yields the RFC 4648
/// standard, padded base64 encoding, which depends on the bytes alone.
#[verifier::external_body]
fn base64_encode(bytes: &Vec<u8>) -> (r: String)
    ensures
        r@ == base64_of(bytes@),
{
    base64::engine::general_purpose::STANDARD.encode(bytes)
}

/// An address rendered as `Name <email>`, or `<email>` when the name is
/// empty.
pub open spec fn addr_spec(u: UserView) -> Seq<char> {
    if u.name.len() == 0 {
        "<"@ + u.email + ">"@
    } else {
        u.name + " <"@ + u.email + ">"@
    }
}

/// Addresses joined with `<br>`.
pub open spec fn users_spec(us: Seq<UserView>) -> Seq<char> {
    join_spec(us.map_values(|u: UserView| addr_spec(u)), "<br>"@)
}

/// A date rendered as `YYYY-MM-DD HH:MM:SS`, or empty when absent.
pub open spec fn date_spec(d: Option<TsView>) -> Seq<char> {
    match d {
        None => Seq::<char>::empty(),
        Some(t) => ts_str_spec(t),
    }
}

/// The fixed five-row header table: an empty heading row, a separator row,
/// then the From, To, CC, Date and Subject rows.
pub open spec fn header_spec(h: HeaderView) -> Seq<char> {
    "|||\n|---|---|\n|From|"@ + addr_spec(h.from) + "|\n|To|"@ + users_spec(h.to) + "|\n|CC|"@
        + users_spec(h.cc) + "|\n|Date|"@ + date_spec(h.date) + "|\n|Subject|"@ + h.subject + "|"@
}

/// The placeholder text that marks where an attachment is inlined.
pub open spec fn placeholder_spec(name: Seq<char>) -> Seq<char> {
    "[image: "@ + name + "]"@
}

/// The embedded-image Markdown directive an attachment placeholder is
/// replaced with.
pub open spec fn data_uri_spec(name: Seq<char>, ct: CtView, raw: Seq<u8>) -> Seq<char> {
    "!["@ + name + "](data:"@ + mime_spec(ct) + ";base64,"@ + base64_of(raw) + ")"@
}

/// One attachment inlined into the text: every occurrence of its placeholder
/// replaced when it is an image carrying a `name` parameter, the text
/// unchanged otherwise.
pub open spec fn att_step(c: Seq<char>, a: AttView) -> Seq<char> {
    match a.content_type {
        None => c,
        Some(ct) => if ct.main_type == "image"@ && ct.parameters.contains_key("name"@) {
            replace_spec(
                c,
                placeholder_spec(ct.parameters["name"@]),
                data_uri_spec(ct.parameters["name"@], ct, a.raw),
            )
        } else {
            c
        },
    }
}

/// All attachments inlined into the text, in attachment order.
pub open spec fn inline_spec(c: Seq<char>, atts: Seq<AttView>) -> Seq<char>
    decreases atts.len(),
{
    if atts.len() == 0 {
        c
    } else {
        att_step(inline_spec(c, atts.drop_last()), atts.last())
    }
}

/// Line endings normalized: a blank-line sequence collapsed to a single
/// newline, then remaining CRLF pairs converted to newlines.
pub open spec fn strip_spec(s: Seq<char>) -> Seq<char> {
    replace_spec(replace_spec(s, "\r\n\r\n"@, "\n"@), "\r\n"@, "\n"@)
}

/// A body rendered: attachments inlined, then line endings normalized.
pub open spec fn body_fmt_spec(b: BodyView, atts: Seq<AttView>) -> Seq<char> {
    strip_spec(inline_spec(b.content, atts))
}

/// Only plain text is rendered by the current formatter variants.
pub open spec fn supported_spec(b: BodyView) -> bool {
    b.content_type == "text/plain"@
}

/// The supported bodies, each rendered.
pub open spec fn fmt_list(bodies: Seq<BodyView>, atts: Seq<AttView>) -> Seq<Seq<char>>
    decreases bodies.len(),
{
    if bodies.len() == 0 {
        Seq::<Seq<char>>::empty()
    } else {
        let pre = fmt_list(bodies.drop_last(), atts);
        if supported_spec(bodies.last()) {
            pre.push(body_fmt_spec(bodies.last(), atts))
        } else {
            pre
        }
    }
}

/// The rendered supported bodies joined with single newlines.
pub open spec fn bodies_spec(bodies: Seq<BodyView>, atts: Seq<AttView>) -> Seq<char> {
    join_spec(fmt_list(bodies, atts), "\n"@)
}

/// A whole email rendered: the header table, a blank line, the bodies.
pub open spec fn format_spec(e: EmailView) -> Seq<char> {
    header_spec(e.header) + "\n\n"@ + bodies_spec(e.body, e.attachments)
}

/// Inlining is idempotent when nothing matches: when no attachment is an
/// image carrying a `name` parameter whose placeholder occurs in the text,
/// inlining leaves the text unchanged.
pub proof fn lemma_inline_identity(c: Seq<char>, atts: Seq<AttView>)
    requires
        forall|k: int|
            0 <= k < atts.len() ==> match (#[trigger] atts[k]).content_type {
                None => true,
                Some(ct) => (ct.main_type == "image"@ && ct.parameters.contains_key("name"@))
                    ==> !crate::strutil::contains_sub(
                    c,
                    placeholder_spec(ct.parameters["name"@]),
                ),
            },
    ensures
        inline_spec(c, atts) == c,
    decreases atts.len(),
{
    if atts.len() > 0 {
        assert forall|k: int| 0 <= k < atts.drop_last().len()
            implies atts.drop_last()[k] == atts[k] by {}
        lemma_inline_identity(c, atts.drop_last());
        let a = atts.last();
        assert(a == atts[atts.len() - 1]);
        match a.content_type {
            None => {},
            Some(ct) => {
                if ct.main_type == "image"@ && ct.parameters.contains_key("name"@) {
                    let name = ct.parameters["name"@];
                    reveal_strlit("[image: ");
                    reveal_strlit("]");
                    assert(placeholder_spec(name).len() > 0);
                    crate::strutil::lemma_replace_identity(
                        c,
                        placeholder_spec(name),
                        data_uri_spec(name, ct, a.raw),
                    );
                }
            },
        }
    }
}

/// In the end-to-end output for an email with one plain-text body and one
/// image attachment carrying a `name` parameter, the body section is the
/// body text with every occurrence of the placeholder replaced, left to
/// right, by the embedded-image directive over the attachment's base64
/// bytes, then line-ending normalized.
pub proof fn lemma_format_inlines_image(e: EmailView, ct: CtView)
    requires
        e.body.len() == 1,
        supported_spec(e.body[0]),
        e.attachments.len() == 1,
        e.attachments[0].content_type == Some(ct),
        ct.main_type == "image"@,
        ct.parameters.contains_key("name"@),
    ensures
        format_spec(e) == header_spec(e.header) + "\n\n"@ + strip_spec(
            replace_spec(
                e.body[0].content,
                placeholder_spec(ct.parameters["name"@]),
                data_uri_spec(ct.parameters["name"@], ct, e.attachments[0].raw),
            ),
        ),
{
    let a = e.attachments[0];
    let c = e.body[0].content;
    assert(e.attachments.drop_last() =~= Seq::<AttView>::empty());
    assert(e.attachments.last() == a);
    assert(inline_spec(c, Seq::<AttView>::empty()) == c);
    assert(inline_spec(c, e.attachments) == att_step(c, a));
    assert(e.body.drop_last() =~= Seq::<BodyView>::empty());
    assert(e.body.last() == e.body[0]);
    assert(fmt_list(Seq::<BodyView>::empty(), e.attachments) =~= Seq::<Seq<char>>::empty());
    assert(fmt_list(e.body, e.attachments)
        =~= seq![body_fmt_spec(e.body[0], e.attachments)]);
}

/// An email without body entries still renders the whole header table,
/// followed by the blank line and an empty body section.
pub proof fn lemma_format_empty_body(e: EmailView)
    requires
        e.body.len() == 0,
    ensures
        format_spec(e) == header_spec(e.header) + "\n\n"@,
{
    assert(header_spec(e.header) + "\n\n"@ + Seq::<char>::empty()
        =~= header_spec(e.header) + "\n\n"@);
}

/// Simple formatter that outputs text/plain content.
pub struct SimpleFormatter;

impl SimpleFormatter {
    /// Renders one address.
    pub fn format_mail_addr(user: &User) -> (r: String)
        ensures
            r@ == addr_spec(user@),
    {
        let mut out: Vec<char> = Vec::new();
        if user.name.as_str().unicode_len() == 0 {
            push_str_chars(&mut out, "<");
            push_str_chars(&mut out, user.email.as_str());
            push_str_chars(&mut out, ">");
        } else {
            push_str_chars(&mut out, user.name.as_str());
            push_str_chars(&mut out, " <");
            push_str_chars(&mut out, user.email.as_str());
            push_str_chars(&mut out, ">");
        }
        proof {
            assert(out@ =~= addr_spec(user@));
        }
        chars_to_string(&out)
    }

    /// Renders an address list joined with `<br>`.
    pub fn format_users(users: &[User]) -> (r: String)
        ensures
            r@ == users_spec(crate::eml::user_views(users@)),
    {
        let ghost uv = crate::eml::user_views(users@).map_values(|u: UserView| addr_spec(u));
        let mut parts: Vec<String> = Vec::new();
        let mut i: usize = 0;
        while i < users.len()
            invariant
                i <= users@.len(),
                parts@.len() == i,
                uv == crate::eml::user_views(users@).map_values(|u: UserView| addr_spec(u)),
                forall|j: int| 0 <= j < i ==> parts@[j]@ == uv[j],
            decreases users@.len() - i,
        {
            let s = Self::format_mail_addr(&users[i]);
            parts.push(s);
            i += 1;
        }
        proof {
            assert(parts@.map_values(|s: String| s@) =~= uv);
        }
        join_strings(&parts, "<br>")
    }

    /// Replaces image-attachment placeholders in the text by embedded-image
    /// directives.
    pub fn replace_attachments(content: &str, email: &Email) -> (r: String)
        ensures
            r@ == inline_spec(content@, email@.attachments),
    {
        let ghost avs = att_views(email.attachments@);
        let mut cur = str_to_chars(content);
        let mut i: usize = 0;
        proof {
            assert(avs.take(0).len() == 0);
        }
        while i < email.attachments.len()
            invariant
                i <= email.attachments@.len(),
                avs == att_views(email.attachments@),
                cur@ == inline_spec(content@, avs.take(i as int)),
            decreases email.attachments@.len() - i,
        {
            let ghost prev = cur@;
            let a = &email.attachments[i];
            match &a.content_type {
                None => {},
                Some(ct) => {
                    if str_eq(ct.main_type.as_str(), "image") {
                        match ct.get_parameter("name") {
                            None => {},
                            Some(name) => {
                                let mut ph: Vec<char> = Vec::new();
                                push_str_chars(&mut ph, "[image: ");
                                push_str_chars(&mut ph, name.as_str());
                                push_str_chars(&mut ph, "]");
                                let mut du: Vec<char> = Vec::new();
                                push_str_chars(&mut du, "![");
                                push_str_chars(&mut du, name.as_str());
                                push_str_chars(&mut du, "](data:");
                                let mime = ct.mime_type();
                                push_str_chars(&mut du, mime.as_str());
                                push_str_chars(&mut du, ";base64,");
                                let b64 = base64_encode(&a.raw);
                                push_str_chars(&mut du, b64.as_str());
                                push_str_chars(&mut du, ")");
                                proof {
                                    assert(ph@ =~= placeholder_spec(name@));
                                    assert(du@ =~= data_uri_spec(name@, ct@, a.raw@));
                                }
                                cur = replace_all(&cur, &ph, &du);
                            },
                        }
                    }
                },
            }
            proof {
                assert(avs.take(i + 1).drop_last() =~= avs.take(i as int));
                assert(avs.take(i + 1).last() == avs[i as int]);
                assert(avs[i as int] == a@);
                assert(cur@ == att_step(prev, a@));
            }
            i += 1;
        }
        proof {
            assert(avs.take(avs.len() as int) =~= avs);
        }
        chars_to_string(&cur)
    }

    /// Normalizes line endings: collapses blank-line sequences to a single
    /// newline, then converts remaining CRLF pairs.
    pub fn strip_content(content: &str) -> (r: String)
        ensures
            r@ == strip_spec(content@),
    {
        let cs = str_to_chars(content);
        let pat1 = str_to_chars("\r\n\r\n");
        let pat2 = str_to_chars("\r\n");
        let sub = str_to_chars("\n");
        let step1 = replace_all(&cs, &pat1, &sub);
        let step2 = replace_all(&step1, &pat2, &sub);
        chars_to_string(&step2)
    }

    /// Renders the header as the fixed five-row Markdown table.
    pub fn format_header(&self, header: &Header) -> (r: String)
        requires
            match header@.date {
                None => true,
                Some(t) => crate::datetime::ts_wf(t),
            },
        ensures
            r@ == header_spec(header@),
    {
        let mut out: Vec<char> = Vec::new();
        push_str_chars(&mut out, "|||\n|---|---|\n|From|");
        let from_s = Self::format_mail_addr(&header.from);
        push_str_chars(&mut out, from_s.as_str());
        push_str_chars(&mut out, "|\n|To|");
        let to_s = Self::format_users(header.to.as_slice());
        push_str_chars(&mut out, to_s.as_str());
        push_str_chars(&mut out, "|\n|CC|");
        let cc_s = Self::format_users(header.cc.as_slice());
        push_str_chars(&mut out, cc_s.as_str());
        push_str_chars(&mut out, "|\n|Date|");
        match &header.date {
            None => {},
            Some(t) => {
                let date_s = format_timestamp(t);
                push_str_chars(&mut out, date_s.as_str());
            },
        }
        push_str_chars(&mut out, "|\n|Subject|");
        push_str_chars(&mut out, header.subject.as_str());
        push_str_chars(&mut out, "|");
        proof {
            assert(out@ =~= header_spec(header@));
        }
        chars_to_string(&out)
    }

    /// Renders one body: attachments inlined, line endings normalized.
    pub fn format_body(&self, body: &Body, email: &Email) -> (r: String)
        ensures
            r@ == body_fmt_spec(body@, email@.attachments),
    {
        let inlined = Self::replace_attachments(body.content.as_str(), email);
        Self::strip_content(inlined.as_str())
    }

    /// Renders the supported bodies, joined with single newlines.
    pub fn format_bodies(&self, bodies: &[Body], email: &Email) -> (r: String)
        ensures
            r@ == bodies_spec(body_views(bodies@), email@.attachments),
    {
        let ghost bvs = body_views(bodies@);
        let mut parts: Vec<String> = Vec::new();
        let mut i: usize = 0;
        proof {
            assert(bvs.take(0).len() == 0);
            assert(parts@.map_values(|s: String| s@) =~= fmt_list(
                bvs.take(0),
                email@.attachments,
            ));
        }
        while i < bodies.len()
            invariant
                i <= bodies@.len(),
                bvs == body_views(bodies@),
                parts@.map_values(|s: String| s@) == fmt_list(
                    bvs.take(i as int),
                    email@.attachments,
                ),
            decreases bodies@.len() - i,
        {
            let ghost old_parts = parts@.map_values(|s: String| s@);
            let b = &bodies[i];
            if self.is_supported_content(b) {
                let s = self.format_body(b, email);
                parts.push(s);
                proof {
                    assert(parts@.map_values(|s: String| s@)
                        =~= old_parts.push(body_fmt_spec(b@, email@.attachments)));
                }
            }
            proof {
                assert(bvs.take(i + 1).drop_last() =~= bvs.take(i as int));
                assert(bvs.take(i + 1).last() == bvs[i as int]);
                assert(bvs[i as int] == b@);
            }
            i += 1;
        }
        proof {
            assert(bvs.take(bvs.len() as int) =~= bvs);
        }
        join_strings(&parts, "\n")
    }

    /// Only `text/plain` bodies are rendered.
    pub fn is_supported_content(&self, body: &Body) -> (r: bool)
        ensures
            r == supported_spec(body@),
    {
        str_eq(body.content_type.as_str(), "text/plain")
    }

    /// Renders a whole email: header table, blank line, bodies.
    pub fn format(&self, email: &Email) -> (r: String)
        requires
            email_wf(email@),
        ensures
            r@ == format_spec(email@),
    {
        let header = self.format_header(&email.header);
        let body = self.format_bodies(email.body.as_slice(), email);
        let mut out = str_to_chars(header.as_str());
        push_str_chars(&mut out, "\n\n");
        push_str_chars(&mut out, body.as_str());
        chars_to_string(&out)
    }
}

/// HTML-aware formatter; currently renders exactly as [`SimpleFormatter`],
/// kept as the seam for future divergence.
pub struct SimpleHtmlFormatter;

impl SimpleHtmlFormatter {
    /// Renders the header as the fixed five-row Markdown table.
    pub fn format_header(&self, header: &Header) -> (r: String)
        requires
            match header@.date {
                None => true,
                Some(t) => crate::datetime::ts_wf(t),
            },
        ensures
            r@ == header_spec(header@),
    {
        SimpleFormatter.format_header(header)
    }

    /// Renders one body: attachments inlined, line endings normalized.
    pub fn format_body(&self, body: &Body, email: &Email) -> (r: String)
        ensures
            r@ == body_fmt_spec(body@, email@.attachments),
    {
        SimpleFormatter.format_body(body, email)
    }

    /// Renders the supported bodies, joined with single newlines.
    pub fn format_bodies(&self, bodies: &[Body], email: &Email) -> (r: String)
        ensures
            r@ == bodies_spec(body_views(bodies@), email@.attachments),
    {
        SimpleFormatter.format_bodies(bodies, email)
    }

    /// Only `text/plain` bodies are rendered, as in the simple variant.
    pub fn is_supported_content(&self, body: &Body) -> (r: bool)
        ensures
            r == supported_spec(body@),
    {
        SimpleFormatter.is_supported_content(body)
    }

    /// Renders a whole email: header table, blank line, bodies.
    pub fn format(&self, email: &Email) -> (r: String)
        requires
            email_wf(email@),
        ensures
            r@ == format_spec(email@),
    {
        SimpleFormatter.format(email)
    }
}

} // verus!
