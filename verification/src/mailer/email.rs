//! Email message builder.

use vstd::prelude::*;

use crate::mailer::address::{plausible_mailbox, Address};
use crate::mailer::attachment::Attachment;
use crate::mailer::body::Body;
use crate::mailer::error::MailerError;

verus! {

/// An email: sender, recipients, reply-to, subject, body and attachments.
#[derive(Clone, Debug)]
pub struct Email {
    from: Vec<Address>,
    to: Vec<Address>,
    cc: Vec<Address>,
    bcc: Vec<Address>,
    reply_to: Vec<Address>,
    subject: String,
    body: Body,
    attachments: Vec<Attachment>,
}

/// Mailbox texts of addresses.
pub open spec fn mailboxes(a: Seq<Address>) -> Seq<Seq<char>> {
    a.map_values(|x: Address| x.email_view())
}

/// Which address list a builder call extends.
pub enum AddressList {
    From,
    To,
    Cc,
    Bcc,
    ReplyTo,
}

impl Email {
    pub closed spec fn from_view(&self) -> Seq<Address> {
        self.from@
    }

    pub closed spec fn to_view(&self) -> Seq<Address> {
        self.to@
    }

    pub closed spec fn cc_view(&self) -> Seq<Address> {
        self.cc@
    }

    pub closed spec fn bcc_view(&self) -> Seq<Address> {
        self.bcc@
    }

    pub closed spec fn reply_to_view(&self) -> Seq<Address> {
        self.reply_to@
    }

    pub closed spec fn subject_view(&self) -> Seq<char> {
        self.subject@
    }

    pub closed spec fn body_view(&self) -> Body {
        self.body
    }

    pub closed spec fn attachments_view(&self) -> Seq<Attachment> {
        self.attachments@
    }

    /// The address list `which`.
    pub open spec fn list_view(&self, which: AddressList) -> Seq<Address> {
        match which {
            AddressList::From => self.from_view(),
            AddressList::To => self.to_view(),
            AddressList::Cc => self.cc_view(),
            AddressList::Bcc => self.bcc_view(),
            AddressList::ReplyTo => self.reply_to_view(),
        }
    }

    /// `e` is this email with `a` appended to the list `which`.
    pub open spec fn appended(&self, e: Email, which: AddressList, a: Address) -> bool {
        &&& e.from_view() == (if which is From { self.from_view().push(a) } else { self.from_view() })
        &&& e.to_view() == (if which is To { self.to_view().push(a) } else { self.to_view() })
        &&& e.cc_view() == (if which is Cc { self.cc_view().push(a) } else { self.cc_view() })
        &&& e.bcc_view() == (if which is Bcc { self.bcc_view().push(a) } else { self.bcc_view() })
        &&& e.reply_to_view() == (if which is ReplyTo {
            self.reply_to_view().push(a)
        } else {
            self.reply_to_view()
        })
        &&& e.subject_view() == self.subject_view()
        &&& e.body_view() == self.body_view()
        &&& e.attachments_view() == self.attachments_view()
    }

    /// Empty message.
    pub fn new() -> (e: Email)
        ensures
            e.from_view().len() == 0,
            e.to_view().len() == 0,
            e.cc_view().len() == 0,
            e.bcc_view().len() == 0,
            e.reply_to_view().len() == 0,
            e.subject_view() == Seq::<char>::empty(),
            e.body_view().text_view() is None,
            e.body_view().html_view() is None,
            e.attachments_view().len() == 0,
    {
        Email {
            from: Vec::new(),
            to: Vec::new(),
            cc: Vec::new(),
            bcc: Vec::new(),
            reply_to: Vec::new(),
            subject: String::new(),
            body: Body::empty(),
            attachments: Vec::new(),
        }
    }

    /// Appends `address` to the list `which`, when it is a plausible mailbox.
    fn add_address(self, which: AddressList, address: &str) -> (r: Result<Email, MailerError>)
        ensures
            match r {
                Ok(e) => plausible_mailbox(address@) && exists|a: Address|
                    a.email_view() == address@ && a.name_view() is None && self.appended(
                        e,
                        which,
                        a,
                    ),
                Err(err) => !plausible_mailbox(address@) && err is InvalidAddress,
            },
    {
        let a = match Address::new(address) {
            Ok(a) => a,
            Err(e) => {
                return Err(e);
            },
        };
        let ghost av = a;
        let mut e = self;
        match which {
            AddressList::From => e.from.push(a),
            AddressList::To => e.to.push(a),
            AddressList::Cc => e.cc.push(a),
            AddressList::Bcc => e.bcc.push(a),
            AddressList::ReplyTo => e.reply_to.push(a),
        }
        assert(self.appended(e, which, av));
        Ok(e)
    }

    /// Adds a sender.
    pub fn from(self, address: &str) -> (r: Result<Email, MailerError>)
        ensures
            match r {
                Ok(e) => plausible_mailbox(address@) && exists|a: Address|
                    a.email_view() == address@ && a.name_view() is None && self.appended(
                        e,
                        AddressList::From,
                        a,
                    ),
                Err(err) => !plausible_mailbox(address@) && err is InvalidAddress,
            },
    {
        self.add_address(AddressList::From, address)
    }

    /// Adds a primary recipient.
    pub fn to(self, address: &str) -> (r: Result<Email, MailerError>)
        ensures
            match r {
                Ok(e) => plausible_mailbox(address@) && exists|a: Address|
                    a.email_view() == address@ && a.name_view() is None && self.appended(
                        e,
                        AddressList::To,
                        a,
                    ),
                Err(err) => !plausible_mailbox(address@) && err is InvalidAddress,
            },
    {
        self.add_address(AddressList::To, address)
    }

    /// Adds a carbon-copy recipient.
    pub fn cc(self, address: &str) -> (r: Result<Email, MailerError>)
        ensures
            match r {
                Ok(e) => plausible_mailbox(address@) && exists|a: Address|
                    a.email_view() == address@ && a.name_view() is None && self.appended(
                        e,
                        AddressList::Cc,
                        a,
                    ),
                Err(err) => !plausible_mailbox(address@) && err is InvalidAddress,
            },
    {
        self.add_address(AddressList::Cc, address)
    }

    /// Adds a blind-carbon-copy recipient.
    pub fn bcc(self, address: &str) -> (r: Result<Email, MailerError>)
        ensures
            match r {
                Ok(e) => plausible_mailbox(address@) && exists|a: Address|
                    a.email_view() == address@ && a.name_view() is None && self.appended(
                        e,
                        AddressList::Bcc,
                        a,
                    ),
                Err(err) => !plausible_mailbox(address@) && err is InvalidAddress,
            },
    {
        self.add_address(AddressList::Bcc, address)
    }

    /// Adds a reply-to address.
    pub fn reply_to(self, address: &str) -> (r: Result<Email, MailerError>)
        ensures
            match r {
                Ok(e) => plausible_mailbox(address@) && exists|a: Address|
                    a.email_view() == address@ && a.name_view() is None && self.appended(
                        e,
                        AddressList::ReplyTo,
                        a,
                    ),
                Err(err) => !plausible_mailbox(address@) && err is InvalidAddress,
            },
    {
        self.add_address(AddressList::ReplyTo, address)
    }

    /// Sets the subject.
    pub fn subject(self, subject: &str) -> (e: Email)
        ensures
            e.subject_view() == subject@,
            e.from_view() == self.from_view(),
            e.to_view() == self.to_view(),
            e.cc_view() == self.cc_view(),
            e.bcc_view() == self.bcc_view(),
            e.reply_to_view() == self.reply_to_view(),
            e.body_view() == self.body_view(),
            e.attachments_view() == self.attachments_view(),
    {
        let mut e = self;
        e.subject = subject.to_owned();
        e
    }

    /// Sets the plain text part.
    pub fn text(self, text: &str) -> (e: Email)
        ensures
            e.body_view().text_view() == Some(text@),
            e.body_view().html_view() == self.body_view().html_view(),
            e.subject_view() == self.subject_view(),
            e.from_view() == self.from_view(),
            e.to_view() == self.to_view(),
            e.cc_view() == self.cc_view(),
            e.bcc_view() == self.bcc_view(),
            e.reply_to_view() == self.reply_to_view(),
            e.attachments_view() == self.attachments_view(),
    {
        let Email { from, to, cc, bcc, reply_to, subject, body, attachments } = self;
        Email { from, to, cc, bcc, reply_to, subject, body: body.with_text(text), attachments }
    }

    /// Sets the HTML part.
    pub fn html(self, html: &str) -> (e: Email)
        ensures
            e.body_view().html_view() == Some(html@),
            e.body_view().text_view() == self.body_view().text_view(),
            e.subject_view() == self.subject_view(),
            e.from_view() == self.from_view(),
            e.to_view() == self.to_view(),
            e.cc_view() == self.cc_view(),
            e.bcc_view() == self.bcc_view(),
            e.reply_to_view() == self.reply_to_view(),
            e.attachments_view() == self.attachments_view(),
    {
        let Email { from, to, cc, bcc, reply_to, subject, body, attachments } = self;
        Email { from, to, cc, bcc, reply_to, subject, body: body.with_html(html), attachments }
    }

    /// Appends an attachment.
    pub fn attach(self, attachment: Attachment) -> (e: Email)
        ensures
            e.attachments_view() == self.attachments_view().push(attachment),
            e.body_view() == self.body_view(),
            e.subject_view() == self.subject_view(),
            e.from_view() == self.from_view(),
            e.to_view() == self.to_view(),
            e.cc_view() == self.cc_view(),
            e.bcc_view() == self.bcc_view(),
            e.reply_to_view() == self.reply_to_view(),
    {
        let mut e = self;
        e.attachments.push(attachment);
        e
    }

    pub fn from_addresses(&self) -> (r: &[Address])
        ensures
            r@ == self.from_view(),
    {
        self.from.as_slice()
    }

    pub fn to_addresses(&self) -> (r: &[Address])
        ensures
            r@ == self.to_view(),
    {
        self.to.as_slice()
    }

    pub fn cc_addresses(&self) -> (r: &[Address])
        ensures
            r@ == self.cc_view(),
    {
        self.cc.as_slice()
    }

    pub fn bcc_addresses(&self) -> (r: &[Address])
        ensures
            r@ == self.bcc_view(),
    {
        self.bcc.as_slice()
    }

    pub fn reply_to_addresses(&self) -> (r: &[Address])
        ensures
            r@ == self.reply_to_view(),
    {
        self.reply_to.as_slice()
    }

    pub fn subject_line(&self) -> (r: &str)
        ensures
            r@ == self.subject_view(),
    {
        self.subject.as_str()
    }

    pub fn message_body(&self) -> (r: &Body)
        ensures
            *r == self.body_view(),
    {
        &self.body
    }

    pub fn attachments(&self) -> (r: &[Attachment])
        ensures
            r@ == self.attachments_view(),
    {
        self.attachments.as_slice()
    }
}

} // verus!
