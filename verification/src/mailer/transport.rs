//! Send validation, the transport contract, and the null and file transports.

use vstd::prelude::*;

use crate::mailer::address::Address;
use crate::mailer::attachment::Attachment;
use crate::mailer::email::Email;
use crate::mailer::error::MailerError;
use crate::text::{decimal, join_with, lemma_join_with_push, push_chars, push_str, u64_to_decimal};

verus! {

/// Delivers an [`Email`].
pub trait Transport {
    /// Whether `r` is an outcome of sending `email` through this transport
    /// (by default, any outcome).
    open spec fn sent(&self, email: Email, r: Result<(), MailerError>) -> bool {
        true
    }

    fn send(&self, email: &Email) -> (r: Result<(), MailerError>)
        ensures
            self.sent(*email, r),
    ;
}

/// What sending requires of a message: a sender, then some recipient (to, cc
/// or bcc).
pub open spec fn send_check(e: Email) -> Result<(), MailerError> {
    if e.from_view().len() == 0 {
        Err(MailerError::MissingSender)
    } else if e.to_view().len() == 0 && e.cc_view().len() == 0 && e.bcc_view().len() == 0 {
        Err(MailerError::MissingRecipient)
    } else {
        Ok(())
    }
}

/// Checks that `email` has a sender and a recipient.
pub fn validate_for_send(email: &Email) -> (r: Result<(), MailerError>)
    ensures
        r == send_check(*email),
{
    if email.from_addresses().len() == 0 {
        return Err(MailerError::MissingSender);
    }
    if email.to_addresses().len() == 0 && email.cc_addresses().len() == 0
        && email.bcc_addresses().len() == 0 {
        return Err(MailerError::MissingRecipient);
    }
    Ok(())
}

/// Discards every message that passes [`validate_for_send`].
#[derive(Clone, Copy, Debug, Default)]
pub struct NullTransport;

impl NullTransport {
    pub fn new() -> (t: NullTransport) {
        NullTransport
    }
}

impl Transport for NullTransport {
    open spec fn sent(&self, email: Email, r: Result<(), MailerError>) -> bool {
        r == send_check(email)
    }

    fn send(&self, email: &Email) -> (r: Result<(), MailerError>)
        ensures
            r == send_check(*email),
    {
        validate_for_send(email)
    }
}

/// The application's mailer: any transport.
pub struct MailerService(pub Box<dyn Transport>);

impl MailerService {
    /// Sends through the wrapped transport and returns its outcome.
    pub fn send(&self, email: &Email) -> (r: Result<(), MailerError>)
        ensures
            self.0.sent(*email, r),
    {
        self.0.send(email)
    }
}

/// `email` or `Name <email>`.
pub open spec fn mailbox_text(a: Address) -> Seq<char> {
    match a.name_view() {
        Some(n) => n + " <"@ + a.email_view() + ">"@,
        None => a.email_view(),
    }
}

/// Mailboxes separated by `, `.
pub open spec fn mailbox_list(a: Seq<Address>) -> Seq<char> {
    join_comma(a.map_values(|x: Address| mailbox_text(x)))
}

/// Parts separated by `, `.
pub open spec fn join_comma(parts: Seq<Seq<char>>) -> Seq<char>
    decreases parts.len(),
{
    if parts.len() == 0 {
        seq![]
    } else if parts.len() == 1 {
        parts[0]
    } else {
        join_comma(parts.drop_last()) + ", "@ + parts.last()
    }
}

/// One line per attachment: `Attachment: <name> (<type>, <n> bytes)`.
pub open spec fn attachment_lines(a: Seq<Attachment>) -> Seq<char>
    decreases a.len(),
{
    if a.len() == 0 {
        seq![]
    } else {
        attachment_lines(a.drop_last()) + "Attachment: "@ + a.last().filename_view() + " ("@
            + a.last().content_type_view() + ", "@ + decimal(a.last().body_view().len()) + " bytes)\n"@
    }
}

/// Readable dump of a message: header lines, a blank line, the text and
/// HTML parts (each followed by a newline), then one line per attachment.
pub open spec fn message_dump(e: Email) -> Seq<char> {
    "From: "@ + mailbox_list(e.from_view()) + "\n"@ + "To: "@ + mailbox_list(e.to_view()) + "\n"@
        + "Cc: "@ + mailbox_list(e.cc_view()) + "\n"@ + "Bcc: "@ + mailbox_list(e.bcc_view())
        + "\n"@ + "Reply-To: "@ + mailbox_list(e.reply_to_view()) + "\n"@ + "Subject: "@
        + e.subject_view() + "\n"@ + "\n"@ + match e.body_view().text_view() {
        Some(t) => t + "\n"@,
        None => seq![],
    } + match e.body_view().html_view() {
        Some(h) => h + "\n"@,
        None => seq![],
    } + attachment_lines(e.attachments_view())
}

fn push_mailbox(out: &mut String, a: &Address)
    ensures
        final(out)@ == old(out)@ + mailbox_text(*a),
{
    match a.name() {
        Some(n) => {
            push_str(out, n);
            push_str(out, " <");
            push_str(out, a.email());
            push_str(out, ">");
        },
        None => {
            push_str(out, a.email());
        },
    }
}

fn push_mailbox_list(out: &mut String, list: &[Address])
    ensures
        final(out)@ == old(out)@ + mailbox_list(list@),
{
    let ghost parts = list@.map_values(|x: Address| mailbox_text(x));
    let mut i: usize = 0;
    assert(parts.take(0) =~= Seq::<Seq<char>>::empty());
    assert(old(out)@ + Seq::<char>::empty() =~= old(out)@);
    while i < list.len()
        invariant
            i <= list.len(),
            parts == list@.map_values(|x: Address| mailbox_text(x)),
            out@ == old(out)@ + join_comma(parts.take(i as int)),
        decreases list.len() - i,
    {
        if i > 0 {
            push_str(out, ", ");
        }
        push_mailbox(out, &list[i]);
        proof {
            let t = parts.take(i as int + 1);
            assert(t.drop_last() =~= parts.take(i as int));
            assert(t.last() == parts[i as int]);
            if i == 0 {
                assert(t.len() == 1);
                assert(out@ =~= old(out)@ + join_comma(t));
            } else {
                assert(out@ =~= old(out)@ + join_comma(t));
            }
        }
        i = i + 1;
    }
    assert(parts.take(list.len() as int) =~= parts);
}

/// Readable dump of `email` (see [`message_dump`]).
pub fn render_message(email: &Email) -> (out: String)
    ensures
        out@ == message_dump(*email),
{
    let mut out = String::new();
    push_str(&mut out, "From: ");
    push_mailbox_list(&mut out, email.from_addresses());
    push_str(&mut out, "\n");
    push_str(&mut out, "To: ");
    push_mailbox_list(&mut out, email.to_addresses());
    push_str(&mut out, "\n");
    push_str(&mut out, "Cc: ");
    push_mailbox_list(&mut out, email.cc_addresses());
    push_str(&mut out, "\n");
    push_str(&mut out, "Bcc: ");
    push_mailbox_list(&mut out, email.bcc_addresses());
    push_str(&mut out, "\n");
    push_str(&mut out, "Reply-To: ");
    push_mailbox_list(&mut out, email.reply_to_addresses());
    push_str(&mut out, "\n");
    push_str(&mut out, "Subject: ");
    push_str(&mut out, email.subject_line());
    push_str(&mut out, "\n");
    push_str(&mut out, "\n");
    let ghost head = out@;
    match email.message_body().text_part() {
        Some(t) => {
            push_str(&mut out, t);
            push_str(&mut out, "\n");
        },
        None => {},
    }
    let ghost mid = out@;
    match email.message_body().html_part() {
        Some(h) => {
            push_str(&mut out, h);
            push_str(&mut out, "\n");
        },
        None => {},
    }
    let ghost body_end = out@;
    let list = email.attachments();
    let mut i: usize = 0;
    assert(list@.take(0) =~= Seq::<Attachment>::empty());
    assert(body_end + Seq::<char>::empty() =~= body_end);
    while i < list.len()
        invariant
            i <= list.len(),
            list@ == email.attachments_view(),
            out@ == body_end + attachment_lines(list@.take(i as int)),
        decreases list.len() - i,
    {
        let a = &list[i];
        push_str(&mut out, "Attachment: ");
        push_str(&mut out, a.filename());
        push_str(&mut out, " (");
        push_str(&mut out, a.content_type());
        push_str(&mut out, ", ");
        let n = u64_to_decimal(a.body().len() as u64);
        push_chars(&mut out, &n);
        push_str(&mut out, " bytes)\n");
        proof {
            let t = list@.take(i as int + 1);
            assert(t.drop_last() =~= list@.take(i as int));
            assert(t.last() == list@[i as int]);
            assert(out@ =~= body_end + attachment_lines(t));
        }
        i = i + 1;
    }
    assert(list@.take(list.len() as int) =~= list@);
    assert(out@ =~= message_dump(*email));
    out
}

/// File name of a dump written at `nanos` nanoseconds after the epoch.
pub open spec fn dump_file_name(nanos: u64) -> Seq<char> {
    decimal(nanos as nat) + ".message"@
}

/// Writes each message as a readable dump under a directory.
#[derive(Clone, Debug)]
pub struct FileTransport {
    directory: String,
}

impl FileTransport {
    pub closed spec fn directory_view(&self) -> Seq<char> {
        self.directory@
    }

    /// Transport writing under `directory` (created on first send).
    pub fn new(directory: &str) -> (t: FileTransport)
        ensures
            t.directory_view() == directory@,
    {
        FileTransport { directory: directory.to_owned() }
    }

    /// Target directory.
    pub fn directory(&self) -> (r: &str)
        ensures
            r@ == self.directory_view(),
    {
        self.directory.as_str()
    }

    /// File name and contents to write for `email` at `nanos`; fails as
    /// [`validate_for_send`] does.
    pub fn prepare(&self, email: &Email, nanos: u64) -> (r: Result<(String, String), MailerError>)
        ensures
            match send_check(*email) {
                Ok(()) => r matches Ok(p) && p.0@ == dump_file_name(nanos) && p.1@ == message_dump(
                    *email,
                ),
                Err(e) => r == Err::<(String, String), MailerError>(e),
            },
    {
        match validate_for_send(email) {
            Err(e) => Err(e),
            Ok(()) => {
                let mut name = String::new();
                let digits = u64_to_decimal(nanos);
                push_chars(&mut name, &digits);
                push_str(&mut name, ".message");
                Ok((name, render_message(email)))
            },
        }
    }
}

} // verus!
