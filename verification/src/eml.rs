//! The e-mail domain model and the projector that builds it from the output
//! of the external MIME decoder.

use vstd::prelude::*;
use crate::content_type::{parse_ct_spec, ContentType, CtView};
use crate::datetime::{date_of_unix, timestamp_from_unix, Timestamp, TsView};
use crate::strutil::{chars_to_string, push_str_chars, str_to_chars};

verus! {

/// An address with a display name; either part may be empty.
#[derive(Debug, Clone, PartialEq)]
pub struct User {
    pub name: String,
    pub email: String,
}

pub struct UserView {
    pub name: Seq<char>,
    pub email: Seq<char>,
}

impl View for User {
    type V = UserView;

    open spec fn view(&self) -> UserView {
        UserView { name: self.name@, email: self.email@ }
    }
}

impl User {
    pub fn new(name: &str, email: &str) -> (r: User)
        ensures
            r@ == (UserView { name: name@, email: email@ }),
    {
        User { name: String::from_str(name), email: String::from_str(email) }
    }
}

/// Email header information.
#[derive(Debug, Clone)]
pub struct Header {
    pub from: User,
    pub to: Vec<User>,
    pub cc: Vec<User>,
    pub subject: String,
    pub date: Option<Timestamp>,
}

pub struct HeaderView {
    pub from: UserView,
    pub to: Seq<UserView>,
    pub cc: Seq<UserView>,
    pub subject: Seq<char>,
    pub date: Option<TsView>,
}

/// The views of a user sequence.
pub open spec fn user_views(us: Seq<User>) -> Seq<UserView> {
    us.map_values(|u: User| u@)
}

impl View for Header {
    type V = HeaderView;

    open spec fn view(&self) -> HeaderView {
        HeaderView {
            from: self.from@,
            to: user_views(self.to@),
            cc: user_views(self.cc@),
            subject: self.subject@,
            date: match self.date {
                None => None,
                Some(t) => Some(t@),
            },
        }
    }
}

/// Email body content.
#[derive(Debug, Clone)]
pub struct Body {
    pub content: String,
    pub content_type: String,
}

pub struct BodyView {
    pub content: Seq<char>,
    pub content_type: Seq<char>,
}

impl View for Body {
    type V = BodyView;

    open spec fn view(&self) -> BodyView {
        BodyView { content: self.content@, content_type: self.content_type@ }
    }
}

/// Email attachment.
#[derive(Debug, Clone)]
pub struct Attachment {
    pub raw: Vec<u8>,
    pub content_type: Option<ContentType>,
    pub content_id: Option<String>,
}

pub struct AttView {
    pub raw: Seq<u8>,
    pub content_type: Option<CtView>,
    pub content_id: Option<Seq<char>>,
}

impl View for Attachment {
    type V = AttView;

    open spec fn view(&self) -> AttView {
        AttView {
            raw: self.raw@,
            content_type: match self.content_type {
                None => None,
                Some(ct) => Some(ct@),
            },
            content_id: match self.content_id {
                None => None,
                Some(id) => Some(id@),
            },
        }
    }
}

/// The views of an attachment sequence.
pub open spec fn att_views(atts: Seq<Attachment>) -> Seq<AttView> {
    atts.map_values(|a: Attachment| a@)
}

/// The views of a body sequence.
pub open spec fn body_views(bodies: Seq<Body>) -> Seq<BodyView> {
    bodies.map_values(|b: Body| b@)
}

/// Parsed email structure.
#[derive(Debug, Clone)]
pub struct Email {
    pub header: Header,
    pub body: Vec<Body>,
    pub attachments: Vec<Attachment>,
}

pub struct EmailView {
    pub header: HeaderView,
    pub body: Seq<BodyView>,
    pub attachments: Seq<AttView>,
}

impl View for Email {
    type V = EmailView;

    open spec fn view(&self) -> EmailView {
        EmailView {
            header: self.header@,
            body: body_views(self.body@),
            attachments: att_views(self.attachments@),
        }
    }
}

/// One attachment as the external decoder hands it over: the decoded bytes
/// and, when present, the main type and optional subtype of its content
/// type.
#[derive(Debug, Clone)]
pub struct RawAttachment {
    pub raw: Vec<u8>,
    pub content_type: Option<(String, Option<String>)>,
}

pub struct RawAttView {
    pub raw: Seq<u8>,
    pub content_type: Option<(Seq<char>, Option<Seq<char>>)>,
}

impl View for RawAttachment {
    type V = RawAttView;

    open spec fn view(&self) -> RawAttView {
        RawAttView {
            raw: self.raw@,
            content_type: match self.content_type {
                None => None,
                Some(p) => Some(
                    (p.0@, match p.1 {
                        None => None,
                        Some(s) => Some(s@),
                    }),
                ),
            },
        }
    }
}

/// A decoded message as the external MIME decoder hands it over: address
/// lists, subject, the date as Unix seconds, the first plain-text and HTML
/// body parts, and the decoded attachments.
#[derive(Debug, Clone)]
pub struct DecodedMessage {
    pub from: Vec<User>,
    pub to: Vec<User>,
    pub cc: Vec<User>,
    pub subject: Option<String>,
    pub date_unix: Option<i64>,
    pub body_text: Option<String>,
    pub body_html: Option<String>,
    pub attachments: Vec<RawAttachment>,
}

pub struct DmView {
    pub from: Seq<UserView>,
    pub to: Seq<UserView>,
    pub cc: Seq<UserView>,
    pub subject: Option<Seq<char>>,
    pub date_unix: Option<int>,
    pub body_text: Option<Seq<char>>,
    pub body_html: Option<Seq<char>>,
    pub attachments: Seq<RawAttView>,
}

impl View for DecodedMessage {
    type V = DmView;

    open spec fn view(&self) -> DmView {
        DmView {
            from: user_views(self.from@),
            to: user_views(self.to@),
            cc: user_views(self.cc@),
            subject: match self.subject {
                None => None,
                Some(s) => Some(s@),
            },
            date_unix: match self.date_unix {
                None => None,
                Some(s) => Some(s as int),
            },
            body_text: match self.body_text {
                None => None,
                Some(s) => Some(s@),
            },
            body_html: match self.body_html {
                None => None,
                Some(s) => Some(s@),
            },
            attachments: self.attachments@.map_values(|a: RawAttachment| a@),
        }
    }
}

/// The body entries projected from the decoded parts: the plain-text entry,
/// when present, before the HTML entry, when present.
pub open spec fn body_list(text: Option<Seq<char>>, html: Option<Seq<char>>) -> Seq<BodyView> {
    (match text {
        None => Seq::<BodyView>::empty(),
        Some(c) => seq![BodyView { content: c, content_type: "text/plain"@ }],
    }) + (match html {
        None => Seq::<BodyView>::empty(),
        Some(c) => seq![BodyView { content: c, content_type: "text/html"@ }],
    })
}

/// The raw header value a decoded content-type pair stands for: main type,
/// `/`, and the subtype or nothing.
pub open spec fn ct_source(main: Seq<char>, sub: Option<Seq<char>>) -> Seq<char> {
    main.push('/') + (match sub {
        None => Seq::<char>::empty(),
        Some(s) => s,
    })
}

/// A decoded attachment projected into the domain model: bytes copied, the
/// content-type pair parsed, the content id always absent.
pub open spec fn project_att(a: RawAttView) -> AttView {
    AttView {
        raw: a.raw,
        content_type: match a.content_type {
            None => None,
            Some(p) => Some(parse_ct_spec(ct_source(p.0, p.1))),
        },
        content_id: None,
    }
}

/// What projecting a decoded message yields: the first From address or an
/// empty user, the To and CC lists as they are, the subject defaulting to
/// empty, the Unix-seconds date converted to its UTC calendar fields (absent
/// when the conversion fails), the body entries of [`body_list`], and every
/// attachment through [`project_att`].
pub open spec fn project_spec(d: DmView) -> EmailView {
    EmailView {
        header: HeaderView {
            from: if d.from.len() > 0 {
                d.from[0]
            } else {
                UserView { name: Seq::<char>::empty(), email: Seq::<char>::empty() }
            },
            to: d.to,
            cc: d.cc,
            subject: match d.subject {
                None => Seq::<char>::empty(),
                Some(s) => s,
            },
            date: match d.date_unix {
                None => None,
                Some(s) => date_of_unix(s),
            },
        },
        body: body_list(d.body_text, d.body_html),
        attachments: d.attachments.map_values(|a: RawAttView| project_att(a)),
    }
}

/// A date, when present, whose calendar fields render with a four-digit
/// year; what every email built by the projector satisfies.
pub open spec fn email_wf(e: EmailView) -> bool {
    match e.header.date {
        None => true,
        Some(t) => crate::datetime::ts_wf(t),
    }
}

/// Builds the domain model from the decoded message.
pub fn project(d: DecodedMessage) -> (r: Email)
    ensures
        r@ == project_spec(d@),
        email_wf(r@),
{
    let ghost dv = d@;
    let date: Option<Timestamp> = match d.date_unix {
        None => None,
        Some(s) => timestamp_from_unix(s),
    };
    let mut from_list = d.from;
    let from = if from_list.len() > 0 {
        from_list.remove(0)
    } else {
        User::new("", "")
    };
    proof {
        if dv.from.len() > 0 {
            assert(from@ == dv.from[0]);
        } else {
            reveal_strlit("");
            assert("".view() =~= Seq::<char>::empty());
        }
    }
    let subject = match d.subject {
        None => String::new(),
        Some(s) => s,
    };
    let mut body: Vec<Body> = Vec::new();
    if let Some(t) = d.body_text {
        body.push(Body { content: t, content_type: String::from_str("text/plain") });
    }
    if let Some(h) = d.body_html {
        body.push(Body { content: h, content_type: String::from_str("text/html") });
    }
    let mut attachments: Vec<Attachment> = Vec::new();
    let atts = d.attachments;
    let mut i: usize = 0;
    while i < atts.len()
        invariant
            i <= atts@.len(),
            attachments@.len() == i,
            forall|j: int|
                0 <= j < i ==> attachments@[j]@ == project_att(#[trigger] atts@[j]@),
        decreases atts@.len() - i,
    {
        let a = &atts[i];
        let ct: Option<ContentType> = match &a.content_type {
            None => None,
            Some(p) => {
                let mut src = str_to_chars(p.0.as_str());
                src.push('/');
                if let Some(s) = &p.1 {
                    push_str_chars(&mut src, s.as_str());
                }
                proof {
                    assert(p.0@.push('/') =~= p.0@ + seq!['/']);
                    match &p.1 {
                        None => {
                            assert(src@ =~= ct_source(p.0@, None));
                        },
                        Some(s) => {
                            assert(src@ =~= ct_source(p.0@, Some(s@)));
                        },
                    }
                }
                let src_s = chars_to_string(&src);
                Some(ContentType::parse(src_s.as_str()))
            },
        };
        let raw_copy: Vec<u8> = vstd::slice::slice_to_vec(a.raw.as_slice());
        attachments.push(Attachment { raw: raw_copy, content_type: ct, content_id: None });
        i += 1;
    }
    let r = Email {
        header: Header { from, to: d.to, cc: d.cc, subject, date },
        body,
        attachments,
    };
    proof {
        assert(r@.body =~= body_list(dv.body_text, dv.body_html));
        assert forall|j: int| 0 <= j < dv.attachments.len()
            implies r@.attachments[j] == dv.attachments.map_values(
                |a: RawAttView| project_att(a),
            )[j] by {
            assert(attachments@[j]@ == project_att(atts@[j]@));
        }
        assert(r@.attachments =~= dv.attachments.map_values(|a: RawAttView| project_att(a)));
    }
    r
}

/// Projecting a message without a plain-text and without an HTML part
/// yields an email without body entries.
pub proof fn lemma_project_no_body(d: DmView)
    requires
        d.body_text is None,
        d.body_html is None,
    ensures
        project_spec(d).body == Seq::<BodyView>::empty(),
{
    assert(project_spec(d).body =~= Seq::<BodyView>::empty());
}

} // verus!
