use serenade::mailer::address::Address;
use serenade::mailer::attachment::Attachment;
use serenade::mailer::email::Email;
use serenade::mailer::error::MailerError;
use serenade::mailer::smtp::{to_lettre_message, to_mailbox, SmtpTransport};

fn message() -> Email {
    Email::new()
        .from("from@example.com")
        .expect("from")
        .to("to@example.com")
        .expect("to")
        .subject("Hello")
        .text("plain")
        .html("<p>html</p>")
}

#[test]
fn relay_settings_default_to_tls_without_port() {
    let b = SmtpTransport::relay("smtp.example.com");
    assert_eq!(b.relay_host(), "smtp.example.com");
    assert_eq!(b.port_number(), None);
    assert_eq!(b.credential_pair(), None);
    assert!(!b.is_unencrypted());
}

#[test]
fn localhost_settings_are_cleartext_on_port_25() {
    let b = SmtpTransport::unencrypted_localhost();
    assert_eq!(b.relay_host(), "localhost");
    assert_eq!(b.port_number(), Some(25));
    assert!(b.is_unencrypted());
}

#[test]
fn port_and_credentials_are_kept() {
    let b = SmtpTransport::relay("smtp.example.com")
        .port(2525)
        .credentials("user", "secret");
    assert_eq!(b.port_number(), Some(2525));
    assert_eq!(b.credential_pair(), Some(("user", "secret")));
    assert_eq!(b.relay_host(), "smtp.example.com");
}

#[test]
fn mailbox_accepts_a_valid_address() {
    let a = Address::with_name("ada@example.com", Some("Ada")).expect("valid");
    assert!(to_mailbox(&a).is_ok());
}

#[test]
fn mailbox_refusal_names_the_address() {
    let a = Address::new("bad user@example.com").expect("plausible");
    match to_mailbox(&a) {
        Err(MailerError::Transport { message }) => {
            assert_eq!(message, "invalid mailbox bad user@example.com: Invalid email user");
        }
        _ => panic!("expected a transport error"),
    }
}

#[test]
fn message_builds_for_text_and_html() {
    assert!(to_lettre_message(&message()).is_ok());
}

#[test]
fn message_builds_with_attachment() {
    let e = message().attach(Attachment::from_bytes("a.txt", "text/plain", b"abc"));
    assert!(to_lettre_message(&e).is_ok());
}

#[test]
fn message_refuses_bad_content_type() {
    let e = message().attach(Attachment::from_bytes("a.bin", "not a type", b"abc"));
    assert!(matches!(
        to_lettre_message(&e),
        Err(MailerError::Transport { .. })
    ));
}

#[test]
fn message_refuses_bad_recipient_before_attachments() {
    let e = message()
        .cc("no body@example.com")
        .expect("plausible")
        .attach(Attachment::from_bytes("a.bin", "not a type", b"abc"));
    match to_lettre_message(&e) {
        Err(MailerError::Transport { message }) => {
            assert!(message.starts_with("invalid mailbox no body@example.com: "));
        }
        _ => panic!("expected a transport error"),
    }
}

#[test]
fn message_without_sender_is_refused_by_the_builder() {
    let e = Email::new().to("to@example.com").expect("to");
    assert!(matches!(
        to_lettre_message(&e),
        Err(MailerError::Transport { .. })
    ));
}

#[test]
fn prepare_validates_before_converting() {
    let client = lettre::SmtpTransport::builder_dangerous("localhost").build();
    let t = SmtpTransport::from_client(client);
    let no_recipient = Email::new().from("from@example.com").expect("from");
    assert!(matches!(t.prepare(&no_recipient), Err(MailerError::MissingRecipient)));
    assert!(matches!(t.prepare(&Email::new()), Err(MailerError::MissingSender)));
    assert!(t.prepare(&message()).is_ok());
}

#[test]
fn message_keeps_headers_subject_and_drops_bcc() {
    let e = message()
        .cc("cc@example.com")
        .expect("cc")
        .bcc("hidden@example.com")
        .expect("bcc")
        .reply_to("reply@example.com")
        .expect("reply");
    let m = to_lettre_message(&e).expect("message");
    let text = String::from_utf8(m.formatted()).expect("utf8");
    assert!(text.contains("From: from@example.com"));
    assert!(text.contains("To: to@example.com"));
    assert!(text.contains("Cc: cc@example.com"));
    assert!(text.contains("Reply-To: reply@example.com"));
    assert!(text.contains("Subject: Hello"));
    assert!(!text.contains("hidden@example.com"));
    assert_eq!(m.envelope().to().len(), 3);
}

#[test]
fn message_with_two_senders_is_refused_by_the_builder() {
    let e = message().from("second@example.com").expect("from");
    assert!(matches!(
        to_lettre_message(&e),
        Err(MailerError::Transport { .. })
    ));
}

#[test]
fn mailbox_with_a_line_break_in_its_name_is_refused() {
    let a = Address::with_name("ada@example.com", Some("Ada\nB")).expect("plausible");
    match to_mailbox(&a) {
        Err(MailerError::Transport { message }) => {
            assert_eq!(
                message,
                "invalid mailbox ada@example.com: display name holds a line break"
            );
        }
        _ => panic!("expected a transport error"),
    }
}

#[test]
fn message_holds_every_part_in_order() {
    let e = Email::new()
        .from("ada@example.com")
        .expect("from")
        .to("to@example.com")
        .expect("to")
        .subject("Parts")
        .text("plain words")
        .html("<b>bold words</b>")
        .attach(Attachment::from_bytes("notes.txt", "text/plain", b"abc"));
    let m = to_lettre_message(&e).expect("message");
    let text = String::from_utf8(m.formatted()).expect("utf8");
    assert!(text.contains("From: ada@example.com"));
    assert!(text.contains("multipart/alternative"));
    let plain = text.find("plain words").expect("text part");
    let html = text.find("<b>bold words</b>").expect("html part");
    assert!(plain < html);
    assert!(text.contains("filename=\"notes.txt\""));
}

#[test]
fn text_and_html_alone_are_alternative() {
    let m = to_lettre_message(&message()).expect("message");
    let text = String::from_utf8(m.formatted()).expect("utf8");
    assert!(text.contains("multipart/alternative"));
    assert!(text.find("plain").expect("text") < text.find("<p>html</p>").expect("html"));
}

#[test]
fn cleartext_settings_build_a_client() {
    let t = SmtpTransport::unencrypted_localhost().port(2525).credentials("u", "p").build();
    assert!(t.is_ok());
    assert!(t.expect("client").prepare(&message()).is_ok());
}

#[test]
fn line_breaks_trimmed_away_are_accepted() {
    for name in ["Bob\n", "\r\nBob", " Bob \n", "\n"] {
        let a = Address::with_name("bob@example.com", Some(name)).expect("plausible");
        assert!(to_mailbox(&a).is_ok(), "{name:?} is written trimmed");
    }
    for name in ["A\nB", " A\r B "] {
        let a = Address::with_name("bob@example.com", Some(name)).expect("plausible");
        assert!(to_mailbox(&a).is_err(), "{name:?} keeps a line break");
    }
}
