use serenade::mailer::address::Address;
use serenade::mailer::attachment::Attachment;
use serenade::mailer::body::Body;
use serenade::mailer::email::Email;
use serenade::mailer::error::MailerError;
use serenade::mailer::transport::{
    render_message, validate_for_send, FileTransport, MailerService, NullTransport, Transport,
};

#[test]
fn address_rejects_empty_and_bare_at() {
    assert!(Address::new("").is_err());
    assert!(Address::new("@").is_err());
    assert!(Address::new("no-at").is_err());
    assert!(Address::new("@x").is_err());
    assert!(Address::new("x@").is_err());
    assert!(matches!(
        Address::new("x@"),
        Err(MailerError::InvalidAddress { .. })
    ));
}

#[test]
fn address_with_display_name() {
    let addr = Address::with_name("a@b.test", Some("Ada")).expect("valid");
    assert_eq!(addr.email(), "a@b.test");
    assert_eq!(addr.name(), Some("Ada"));
}

fn full_email() -> Email {
    Email::new()
        .from("from@example.test")
        .expect("from")
        .to("to@example.test")
        .expect("to")
        .cc("cc@example.test")
        .expect("cc")
        .bcc("bcc@example.test")
        .expect("bcc")
        .reply_to("reply@example.test")
        .expect("reply")
        .subject("Hello")
        .text("plain")
        .html("<p>html</p>")
        .attach(Attachment::from_bytes(
            "note.txt",
            "text/plain",
            b"hi".as_slice(),
        ))
}

#[test]
fn email_builder_sets_headers_body_and_attachment() {
    let email = full_email();
    assert_eq!(email.from_addresses()[0].email(), "from@example.test");
    assert_eq!(email.to_addresses()[0].email(), "to@example.test");
    assert_eq!(email.cc_addresses()[0].email(), "cc@example.test");
    assert_eq!(email.bcc_addresses()[0].email(), "bcc@example.test");
    assert_eq!(email.reply_to_addresses()[0].email(), "reply@example.test");
    assert_eq!(email.subject_line(), "Hello");
    assert_eq!(email.message_body().text_part(), Some("plain"));
    assert_eq!(email.message_body().html_part(), Some("<p>html</p>"));
    assert_eq!(email.attachments().len(), 1);
    assert_eq!(email.attachments()[0].filename(), "note.txt");
    assert_eq!(email.attachments()[0].body(), b"hi");
}

#[test]
fn body_helpers() {
    assert!(Body::empty().is_empty());
    assert_eq!(Body::text("a").text_part(), Some("a"));
    assert_eq!(Body::html("<b>").html_part(), Some("<b>"));
    let both = Body::both("t", "h");
    assert_eq!(both.text_part(), Some("t"));
    assert_eq!(both.html_part(), Some("h"));
}

#[test]
fn send_requires_sender_and_recipient() {
    assert_eq!(validate_for_send(&Email::new()), Err(MailerError::MissingSender));
    let only_sender = Email::new().from("a@b.test").expect("from");
    assert_eq!(
        NullTransport::new().send(&only_sender),
        Err(MailerError::MissingRecipient)
    );
    let bcc_only = Email::new()
        .from("a@b.test")
        .expect("from")
        .bcc("c@d.test")
        .expect("bcc");
    assert_eq!(NullTransport::new().send(&bcc_only), Ok(()));
    let service = MailerService(Box::new(NullTransport::new()));
    assert_eq!(service.send(&full_email()), Ok(()));
    assert!(Email::new().to("bad").is_err());
}

#[test]
fn file_transport_dump_and_name() {
    let transport = FileTransport::new("var/mail");
    assert_eq!(transport.directory(), "var/mail");
    let (name, dump) = transport.prepare(&full_email(), 1234).expect("prepare");
    assert_eq!(name, "1234.message");
    assert_eq!(dump, render_message(&full_email()));
    assert_eq!(
        dump,
        "From: from@example.test\nTo: to@example.test\nCc: cc@example.test\nBcc: bcc@example.test\nReply-To: reply@example.test\nSubject: Hello\n\nplain\n<p>html</p>\nAttachment: note.txt (text/plain, 2 bytes)\n"
    );
    assert_eq!(
        transport.prepare(&Email::new(), 1).expect_err("no sender"),
        MailerError::MissingSender
    );
}

#[test]
fn mailer_error_messages() {
    assert_eq!(MailerError::MissingRecipient.message(), "email has no recipient");
    assert_eq!(
        MailerError::InvalidAddress { message: String::from("m") }.message(),
        "invalid address: m"
    );
}

#[test]
fn mailer_version_is_nonempty() {
    assert_ne!(serenade::version(), "");
}
