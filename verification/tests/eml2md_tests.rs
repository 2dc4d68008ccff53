use eml2md::content_type::ContentType;
use eml2md::datetime::{timestamp_from_unix, Timestamp};
use eml2md::eml::{Attachment, Body, DecodedMessage, Email, Header, User};
use eml2md::formatter::simple::{SimpleFormatter, SimpleHtmlFormatter};
use eml2md::{create_formatter, format_markdown, parse_eml_bytes, EmlError, Formatter};

fn create_test_email() -> Email {
    Email {
        header: Header {
            from: User::new("Sender", "sender@example.com"),
            to: vec![User::new("Recipient", "recipient@example.com")],
            cc: vec![],
            subject: "Test Subject".to_string(),
            date: Some(Timestamp::new(2024, 1, 1, 12, 0, 0)),
        },
        body: vec![Body {
            content: "Hello, World!".to_string(),
            content_type: "text/plain".to_string(),
        }],
        attachments: vec![],
    }
}

#[test]
fn test_parse_simple() {
    let ct = ContentType::parse("text/plain");
    assert_eq!(ct.main_type, "text");
    assert_eq!(ct.sub_type, "plain");
    assert!(ct.parameters.is_empty());
}

#[test]
fn test_parse_with_parameters() {
    let ct = ContentType::parse("image/png; name=\"test.png\"; charset=utf-8");
    assert_eq!(ct.main_type, "image");
    assert_eq!(ct.sub_type, "png");
    assert_eq!(ct.get_parameter("name"), Some("test.png".to_string()));
    assert_eq!(ct.get_parameter("charset"), Some("utf-8".to_string()));
}

#[test]
fn test_parse_simple_email() {
    let eml = b"From: sender@example.com\r\n\
                To: recipient@example.com\r\n\
                Subject: Test Subject\r\n\
                Date: Mon, 1 Jan 2024 12:00:00 +0000\r\n\
                Content-Type: text/plain\r\n\r\n\
                Hello, World!";

    let email = parse_eml_bytes(eml).unwrap();
    assert_eq!(email.header.subject, "Test Subject");
    assert_eq!(email.header.from.email, "sender@example.com");
    assert!(
        !email.body.is_empty(),
        "Email should have at least one body"
    );
    assert!(
        email.body.iter().any(|b| b.content_type == "text/plain"),
        "Email should contain text/plain body"
    );
}

#[test]
fn test_format_header() {
    let email = create_test_email();
    let formatter = SimpleFormatter;
    let header = formatter.format_header(&email.header);

    assert!(header.contains("|From|Sender <sender@example.com>|"));
    assert!(header.contains("|Subject|Test Subject|"));
    assert!(header.contains("|Date|2024-01-01 12:00:00|"));
}

#[test]
fn test_format_body() {
    let email = create_test_email();
    let formatter = SimpleFormatter;
    let body = formatter.format_body(&email.body[0], &email);

    assert_eq!(body, "Hello, World!");
}

#[test]
fn test_format_full_email() {
    let email = create_test_email();
    let formatter = SimpleFormatter;
    let output = formatter.format(&email);

    assert!(output.contains("|||"));
    assert!(output.contains("Hello, World!"));
}

#[test]
fn test_missing_slash_yields_empty_subtype() {
    let ct = ContentType::parse("texty");
    assert_eq!(ct.main_type, "texty");
    assert_eq!(ct.sub_type, "");
    assert_eq!(ct.mime_type(), "texty/");

    let ct2 = ContentType::parse("  spaced  ; k=v");
    assert_eq!(ct2.main_type, "spaced");
    assert_eq!(ct2.sub_type, "");
    assert_eq!(ct2.mime_type(), "spaced/");
}

#[test]
fn test_mime_type_round_trip() {
    let ct = ContentType::parse("image/png");
    assert_eq!(ct.mime_type(), "image/png");
}

#[test]
fn test_duplicate_parameter_last_wins() {
    let ct = ContentType::parse("a/b; k=1; k=2");
    assert_eq!(ct.get_parameter("k"), Some("2".to_string()));
    assert_eq!(ct.parameters.len(), 1);
}

#[test]
fn test_parameter_without_equals_dropped() {
    let ct = ContentType::parse("a/b; lonely; k=v");
    assert_eq!(ct.get_parameter("lonely"), None);
    assert_eq!(ct.get_parameter("k"), Some("v".to_string()));
    assert_eq!(ct.parameters.len(), 1);
}

#[test]
fn test_project_without_bodies_renders_header_table() {
    let decoded = DecodedMessage {
        from: vec![],
        to: vec![],
        cc: vec![],
        subject: None,
        date_unix: None,
        body_text: None,
        body_html: None,
        attachments: vec![],
    };
    let email = eml2md::eml::project(decoded);
    assert!(email.body.is_empty());
    let md = format_markdown(&email, "simple");
    assert_eq!(md, "|||\n|---|---|\n|From|<>|\n|To||\n|CC||\n|Date||\n|Subject||\n\n");
    assert_eq!(md.trim_end().lines().count(), 7);
}

#[test]
fn test_project_converts_unix_date() {
    let decoded = DecodedMessage {
        from: vec![User::new("", "a@b.c")],
        to: vec![],
        cc: vec![],
        subject: Some("S".to_string()),
        date_unix: Some(1704110400),
        body_text: Some("Hi".to_string()),
        body_html: None,
        attachments: vec![],
    };
    let email = eml2md::eml::project(decoded);
    let md = format_markdown(&email, "simple");
    assert!(md.contains("|Date|2024-01-01 12:00:00|"));
    assert!(md.ends_with("\n\nHi"));
}

#[test]
fn test_inline_without_matching_placeholder_is_identity() {
    let email = Email {
        header: Header {
            from: User::new("", ""),
            to: vec![],
            cc: vec![],
            subject: String::new(),
            date: None,
        },
        body: vec![],
        attachments: vec![
            Attachment {
                raw: vec![1, 2, 3],
                content_type: Some(ContentType::parse("image/png; name=\"other.png\"")),
                content_id: None,
            },
            Attachment {
                raw: vec![4, 5],
                content_type: Some(ContentType::parse("application/pdf; name=\"doc.pdf\"")),
                content_id: None,
            },
            Attachment { raw: vec![6], content_type: None, content_id: None },
        ],
    };
    let content = "no placeholders here, not even [image: missing.png]";
    let out = SimpleFormatter::replace_attachments(content, &email);
    assert_eq!(out, content);
}

#[test]
fn test_strip_content_normalizes_line_endings() {
    assert_eq!(SimpleFormatter::strip_content("a\r\n\r\nb\r\nc"), "a\nb\nc");
    assert_eq!(SimpleFormatter::strip_content("plain"), "plain");
}

#[test]
fn test_end_to_end_simple_message() {
    let eml = b"From: sender@example.com\r\n\
                To: recipient@example.com\r\n\
                Subject: Test Subject\r\n\
                Date: Mon, 1 Jan 2024 12:00:00 +0000\r\n\
                Content-Type: text/plain\r\n\r\n\
                Hello, World!";
    let email = parse_eml_bytes(eml).unwrap();
    let md = format_markdown(&email, "simple");
    assert!(md.contains("|From|<sender@example.com>|"));
    assert!(md.contains("|To|<recipient@example.com>|"));
    assert!(md.contains("|Subject|Test Subject|"));
    assert!(md.contains("|Date|2024-01-01 12:00:00|"));
    assert!(md.ends_with("\n\nHello, World!"));
}

#[test]
fn test_image_placeholder_replaced_with_data_uri() {
    let email = Email {
        header: Header {
            from: User::new("", "a@b.c"),
            to: vec![],
            cc: vec![],
            subject: "Pic".to_string(),
            date: None,
        },
        body: vec![Body {
            content: "Look: [image: test.png] done".to_string(),
            content_type: "text/plain".to_string(),
        }],
        attachments: vec![Attachment {
            raw: b"hello".to_vec(),
            content_type: Some(ContentType::parse("image/png; name=\"test.png\"")),
            content_id: None,
        }],
    };
    let body = SimpleFormatter.format_body(&email.body[0], &email);
    assert_eq!(body, "Look: ![test.png](data:image/png;base64,aGVsbG8=) done");
    let md = format_markdown(&email, "simple");
    assert!(md.contains("![test.png](data:image/png;base64,aGVsbG8=)"));
}

#[test]
fn test_unknown_formatter_falls_back_to_simple() {
    assert_eq!(create_formatter("unknown"), Formatter::Simple);
    assert_eq!(create_formatter(""), Formatter::Simple);
    assert_eq!(create_formatter("html"), Formatter::Html);

    let email = create_test_email();
    let simple = format_markdown(&email, "simple");
    let fallback = format_markdown(&email, "no-such-formatter");
    assert_eq!(simple, fallback);
}

#[test]
fn test_html_formatter_matches_simple() {
    let email = create_test_email();
    let s = SimpleFormatter.format(&email);
    let h = SimpleHtmlFormatter.format(&email);
    assert_eq!(s, h);
    assert!(!SimpleHtmlFormatter.is_supported_content(&Body {
        content: "<p>x</p>".to_string(),
        content_type: "text/html".to_string(),
    }));
}

#[test]
fn test_decode_failure_on_headerless_input() {
    let err = parse_eml_bytes(b"").unwrap_err();
    assert_eq!(err, EmlError::Decode);
}

#[test]
fn test_timestamp_from_unix_epoch_values() {
    let t = timestamp_from_unix(1704110400).unwrap();
    assert_eq!(
        (t.year, t.month, t.day, t.hour, t.minute, t.second),
        (2024, 1, 1, 12, 0, 0)
    );
    let epoch = timestamp_from_unix(0).unwrap();
    assert_eq!(
        (epoch.year, epoch.month, epoch.day, epoch.hour, epoch.minute, epoch.second),
        (1970, 1, 1, 0, 0, 0)
    );
    assert!(timestamp_from_unix(-62167219201).is_none());
}

#[test]
fn test_format_users_joined_with_br() {
    let users = vec![User::new("A", "a@x"), User::new("", "b@x")];
    assert_eq!(SimpleFormatter::format_users(&users), "A <a@x><br><b@x>");
}

#[test]
fn test_multipart_email_with_attachment() {
    let eml = b"From: s@example.com\r\n\
                To: r@example.com\r\n\
                Subject: Pic\r\n\
                MIME-Version: 1.0\r\n\
                Content-Type: multipart/mixed; boundary=\"BOUND\"\r\n\r\n\
                --BOUND\r\n\
                Content-Type: text/plain\r\n\r\n\
                See attachment\r\n\
                --BOUND\r\n\
                Content-Type: image/png; name=\"test.png\"\r\n\
                Content-Transfer-Encoding: base64\r\n\
                Content-Disposition: attachment; filename=\"test.png\"\r\n\r\n\
                aGVsbG8=\r\n\
                --BOUND--\r\n";
    let email = parse_eml_bytes(eml).unwrap();
    assert_eq!(email.attachments.len(), 1);
    assert_eq!(email.attachments[0].raw, b"hello".to_vec());
    let ct = email.attachments[0].content_type.as_ref().unwrap();
    assert_eq!(ct.main_type, "image");
    assert_eq!(ct.sub_type, "png");
    assert!(email.attachments[0].content_id.is_none());
    let md = format_markdown(&email, "simple");
    assert!(md.contains("See attachment"));
}
