//! SMTP delivery: relay settings and the conversion of an [`Email`] into a
//! `lettre` message.  Connecting and sending is done by the caller with the
//! `lettre` client held in [`SmtpTransport`].

use vstd::prelude::*;

use lettre::message::header::{ContentDisposition, ContentType};
use lettre::message::{Mailbox, MessageBuilder, MultiPart, SinglePart};
use lettre::transport::smtp::authentication::Credentials;
use lettre::transport::smtp::SmtpTransportBuilder as ClientBuilder;
use lettre::Address as MailAddress;
use lettre::Message;
use lettre::SmtpTransport as SmtpClient;

use crate::mailer::address::Address;
use crate::mailer::attachment::Attachment;
use crate::mailer::body::opt_view;
use crate::mailer::email::{AddressList, Email};
use crate::mailer::error::MailerError;
use crate::mailer::transport::{send_check, validate_for_send};
use crate::text::{chars_of, contains_char, push_str};

verus! {

#[verifier::external_type_specification]
#[verifier::external_body]
pub struct ExLettreAddress(MailAddress);

#[verifier::external_type_specification]
#[verifier::external_body]
pub struct ExMailbox(Mailbox);

#[verifier::external_type_specification]
#[verifier::external_body]
pub struct ExMessageBuilder(MessageBuilder);

#[verifier::external_type_specification]
#[verifier::external_body]
pub struct ExMessage(Message);

#[verifier::external_type_specification]
#[verifier::external_body]
pub struct ExMultiPart(MultiPart);

/// Why `lettre::Address`'s parser (`FromStr`) refuses `text`, as its error's
/// display text; `None` when it accepts `text`.
pub uninterp spec fn address_refusal(text: Seq<char>) -> Option<Seq<char>>;

/// `text.parse::<lettre::Address>()`, its error shown as text.  Parsing is
/// a function of `text` alone.
#[verifier::external_body]
fn parse_address(text: &str) -> (r: Result<MailAddress, String>)
    ensures
        match r {
            Ok(_) => address_refusal(text@) is None,
            Err(why) => address_refusal(text@) == Some(why@),
        },
{
    match text.parse::<MailAddress>() {
        Ok(address) => Ok(address),
        Err(error) => Err(error.to_string()),
    }
}

/// `Mailbox::new(name, email)`.
#[verifier::external_body]
fn new_mailbox(name: Option<String>, email: MailAddress) -> (m: Mailbox) {
    Mailbox::new(name, email)
}

/// Unicode white space (`char::is_whitespace`): what `str::trim` drops.
pub open spec fn white_space(c: char) -> bool {
    let u = c as u32;
    (9 <= u && u <= 13) || u == 32 || u == 0x85 || u == 0xA0 || u == 0x1680 || (0x2000 <= u && u
        <= 0x200A) || u == 0x2028 || u == 0x2029 || u == 0x202F || u == 0x205F || u == 0x3000
}

/// Carriage return or line feed.
pub open spec fn line_break(c: char) -> bool {
    c == '\n' || c == '\r'
}

/// A display name `lettre` can write into a header: once trimmed of white
/// space at both ends (as `lettre` writes it), without a carriage return or
/// line feed (writing one fails, and the builder panics).
pub open spec fn line_break_free(name: Option<Seq<char>>) -> bool {
    match name {
        Some(n) => breaks_only_at_ends(n),
        None => true,
    }
}

/// Every line break of `n` lies in white space at its start or its end.
pub open spec fn breaks_only_at_ends(n: Seq<char>) -> bool {
    forall|i: int|
        0 <= i < n.len() && line_break(n[i]) ==> #[trigger] all_space(n, 0, i) || all_space(
            n,
            i + 1,
            n.len() as int,
        )
}

/// The characters of `n` from `a` up to `b` are all white space.
pub open spec fn all_space(n: Seq<char>, a: int, b: int) -> bool {
    forall|j: int| a <= j < b ==> white_space(#[trigger] n[j])
}

fn is_white_space(c: char) -> (r: bool)
    ensures
        r == white_space(c),
{
    let u = c as u32;
    (9 <= u && u <= 13) || u == 32 || u == 0x85 || u == 0xA0 || u == 0x1680 || (0x2000 <= u && u
        <= 0x200A) || u == 0x2028 || u == 0x2029 || u == 0x202F || u == 0x205F || u == 0x3000
}

/// Whether the trimmed text of `v` holds no line break.
fn trimmed_line_break_free(v: &Vec<char>) -> (r: bool)
    ensures
        r == line_break_free(Some(v@)),
{
    let n = v.len();
    let mut lo: usize = 0;
    while lo < n && is_white_space(v[lo])
        invariant
            lo <= n,
            n == v.len(),
            forall|j: int| 0 <= j < lo ==> white_space(v@[j]),
        decreases n - lo,
    {
        lo = lo + 1;
    }
    let mut hi: usize = n;
    while hi > lo && is_white_space(v[hi - 1])
        invariant
            lo <= hi <= n,
            n == v.len(),
            forall|j: int| hi <= j < n ==> white_space(v@[j]),
            lo < n ==> !white_space(v@[lo as int]),
        decreases hi,
    {
        hi = hi - 1;
    }
    let ghost edges = lo < hi ==> !white_space(v@[lo as int]) && !white_space(v@[hi - 1]);
    assert(edges);
    let mut k: usize = lo;
    while k < hi
        invariant
            lo <= k <= hi,
            hi <= n,
            n == v.len(),
            edges == (lo < hi ==> !white_space(v@[lo as int]) && !white_space(v@[hi - 1])),
            edges,
            forall|j: int| 0 <= j < lo ==> white_space(v@[j]),
            forall|j: int| hi <= j < n ==> white_space(v@[j]),
            forall|j: int| lo <= j < k ==> !line_break(v@[j]),
        decreases hi - k,
    {
        if v[k] == '\n' || v[k] == '\r' {
            proof {
                assert(lo < k) by {
                    if lo == k {
                        assert(!white_space(v@[lo as int]));
                    }
                }
                assert(k < hi - 1) by {
                    if k == hi - 1 {
                        assert(!white_space(v@[hi - 1]));
                    }
                }
                assert(!white_space(v@[lo as int]));
                assert(!white_space(v@[hi - 1]));
                assert(line_break(v@[k as int]));
                let kk = k as int;
                assert(!all_space(v@, 0, kk)) by {
                    assert(0 <= lo < kk);
                }
                assert(!all_space(v@, kk + 1, v@.len() as int)) by {
                    assert(kk < hi - 1 < v@.len());
                }
                assert(!line_break_free(Some(v@))) by {
                    let n = v@;
                    assert(0 <= kk < n.len() && line_break(n[kk]));
                    assert(!(all_space(n, 0, kk) || all_space(n, kk + 1, n.len() as int)));
                }
            }
            return false;
        }
        k = k + 1;
    }
    proof {
        assert forall|i: int|
            0 <= i < v@.len() && line_break(#[trigger] v@[i]) implies all_space(v@, 0, i)
                || all_space(v@, i + 1, v@.len() as int) by {
            if i < lo {
            } else {
                assert(i >= hi);
            }
        }
    }
    true
}

/// Text of the error for a mailbox that `lettre` refuses, with its reason.
pub open spec fn refused_mailbox_text(email: Seq<char>, why: Seq<char>) -> Seq<char> {
    "invalid mailbox "@ + email + ": "@ + why
}

/// The mailbox error for `a`: the address `lettre` refuses, or a display
/// name with a line break inside its trimmed text.
pub open spec fn mailbox_refusal(a: Address) -> Option<Seq<char>> {
    match address_refusal(a.email_view()) {
        Some(why) => Some(refused_mailbox_text(a.email_view(), why)),
        None => if line_break_free(a.name_view()) {
            None
        } else {
            Some(refused_mailbox_text(a.email_view(), "display name holds a line break"@))
        },
    }
}

fn name_line_break_free(a: &Address) -> (r: bool)
    ensures
        r == line_break_free(a.name_view()),
{
    match a.name() {
        Some(n) => {
            let v = chars_of(n);
            trimmed_line_break_free(&v)
        },
        None => true,
    }
}

/// `lettre` mailbox for `address` (display name kept); refused with
/// [`MailerError::Transport`] when `lettre` does not accept the address or
/// the display name holds a line break.
pub fn to_mailbox(address: &Address) -> (r: Result<Mailbox, MailerError>)
    ensures
        match mailbox_refusal(*address) {
            None => r is Ok,
            Some(t) => r matches Err(MailerError::Transport { message }) && message@ == t,
        },
{
    match parse_address(address.email()) {
        Ok(email) => {
            if !name_line_break_free(address) {
                let mut message = String::new();
                push_str(&mut message, "invalid mailbox ");
                push_str(&mut message, address.email());
                push_str(&mut message, ": ");
                push_str(&mut message, "display name holds a line break");
                return Err(MailerError::Transport { message });
            }
            let name = match address.name() {
                Some(n) => Some(n.to_owned()),
                None => None,
            };
            Ok(new_mailbox(name, email))
        },
        Err(why) => {
            let mut message = String::new();
            push_str(&mut message, "invalid mailbox ");
            push_str(&mut message, address.email());
            push_str(&mut message, ": ");
            push_str(&mut message, why.as_str());
            Err(MailerError::Transport { message })
        },
    }
}

/// Header kind of a mailbox: `From`.
pub open spec fn from_kind() -> u8 {
    0
}

/// Header kind of a mailbox: `To`.
pub open spec fn to_kind() -> u8 {
    1
}

/// Header kind of a mailbox: `Cc`.
pub open spec fn cc_kind() -> u8 {
    2
}

/// Header kind of a mailbox: `Bcc`.
pub open spec fn bcc_kind() -> u8 {
    3
}

/// Header kind of a mailbox: `Reply-To`.
pub open spec fn reply_to_kind() -> u8 {
    4
}

/// A mailbox as plain values: display name and address.
pub type MailboxView = (Option<Seq<char>>, Seq<char>);

/// ASCII letter or digit.
pub open spec fn alnum(c: char) -> bool {
    ('a' <= c && c <= 'z') || ('A' <= c && c <= 'Z') || ('0' <= c && c <= '9')
}

/// Words of letters and digits separated by single spaces.
pub open spec fn plain_name(n: Seq<char>) -> bool {
    &&& n.len() > 0
    &&& alnum(n[0])
    &&& alnum(n.last())
    &&& forall|i: int|
        0 < i < n.len() - 1 ==> (alnum(#[trigger] n[i]) || (n[i] == ' ' && alnum(n[i - 1])
            && alnum(n[i + 1])))
}

/// Character of a plain local part.
pub open spec fn local_char(c: char) -> bool {
    alnum(c) || c == '_' || c == '+' || c == '-'
}

/// Character of a plain domain.
pub open spec fn domain_char(c: char) -> bool {
    alnum(c) || c == '-'
}

/// Runs of `ok` characters separated by single dots.
pub open spec fn dotted(s: Seq<char>, ok: spec_fn(char) -> bool) -> bool {
    &&& s.len() > 0
    &&& s[0] != '.'
    &&& s.last() != '.'
    &&& forall|i: int|
        0 <= i < s.len() ==> (ok(#[trigger] s[i]) || (s[i] == '.' && i + 1 < s.len() && s[i + 1]
            != '.'))
}

/// A plain address: a dotted local part of letters, digits, `_`, `+` and
/// `-`, then `@`, then a dotted domain of letters, digits and `-`.
pub open spec fn plain_email(e: Seq<char>) -> bool {
    exists|a: int|
        0 < a < e.len() - 1 && e[a] == '@' && dotted(e.take(a), |c: char| local_char(c)) && dotted(
            #[trigger] e.skip(a + 1),
            |c: char| domain_char(c),
        )
}

/// A mailbox that `lettre` writes as `name <address>` (the name quoted when
/// it holds a `9`, which `lettre` does not count as an atom character) or as
/// the bare address, and reads back as the same name and address.
pub open spec fn plain_mailbox(m: MailboxView) -> bool {
    plain_email(m.1) && match m.0 {
        Some(n) => plain_name(n),
        None => true,
    }
}

/// Every mailbox of `s` is plain.
pub open spec fn list_plain(s: Seq<MailboxView>) -> bool {
    forall|i: int| 0 <= i < s.len() ==> plain_mailbox(#[trigger] s[i])
}

/// The mailboxes under header kind `k`; none when the header is absent.
pub open spec fn list_at(m: Map<u8, Seq<MailboxView>>, k: u8) -> Seq<MailboxView> {
    if m.dom().contains(k) {
        m[k]
    } else {
        Seq::empty()
    }
}

/// The address headers of a `lettre` message builder, as `lettre` reads them
/// back: for each kind ([`from_kind`] .. [`reply_to_kind`]) whose header is
/// present and readable, its mailboxes in order.
pub uninterp spec fn builder_mailboxes(b: MessageBuilder) -> Map<u8, Seq<(Option<Seq<char>>, Seq<char>)>>;

/// The `Subject` header of a `lettre` message builder.
pub uninterp spec fn builder_subject(b: MessageBuilder) -> Option<Seq<char>>;

/// The address headers of a built `lettre` message, read back as for
/// [`builder_mailboxes`].
pub uninterp spec fn message_mailboxes(m: Message) -> Map<u8, Seq<(Option<Seq<char>>, Seq<char>)>>;

/// The `Subject` header of a built `lettre` message.
pub uninterp spec fn message_subject(m: Message) -> Option<Seq<char>>;

/// The body parts of a built `lettre` message, described as for
/// [`multipart_parts`].
pub uninterp spec fn message_parts(m: Message) -> Seq<(u8, Seq<char>, Seq<char>, Seq<u8>)>;

/// Whether the body of a built `lettre` message is `multipart/alternative`
/// (else `multipart/mixed`).
pub uninterp spec fn message_alternative(m: Message) -> bool;

/// A body part as plain values: its kind (0 `text/plain`, 1 `text/html`,
/// 2 attachment), its text (or the attachment's content type), the
/// attachment's file name and bytes.
pub type PartView = (u8, Seq<char>, Seq<char>, Seq<u8>);

/// The parts of a `lettre` multipart, in order.
pub uninterp spec fn multipart_parts(m: MultiPart) -> Seq<(u8, Seq<char>, Seq<char>, Seq<u8>)>;

/// Whether a `lettre` multipart is `multipart/alternative` (else
/// `multipart/mixed`).
pub uninterp spec fn multipart_alternative(m: MultiPart) -> bool;

/// A `text/plain` part.
pub open spec fn text_part(t: Seq<char>) -> PartView {
    (0, t, Seq::empty(), Seq::empty())
}

/// A `text/html` part.
pub open spec fn html_part(h: Seq<char>) -> PartView {
    (1, h, Seq::empty(), Seq::empty())
}

/// An attachment part.
pub open spec fn attachment_part(a: Attachment) -> PartView {
    (2, a.content_type_view(), a.filename_view(), a.body_view())
}

/// No address headers.
pub open spec fn no_headers() -> Map<u8, Seq<MailboxView>> {
    Map::empty()
}

/// `Message::builder()`: no address headers, no subject.
#[verifier::external_body]
fn message_builder() -> (b: MessageBuilder)
    ensures
        builder_mailboxes(b) == no_headers(),
        builder_subject(b) is None,
{
    Message::builder()
}

/// The address header that `lettre` writes for the mailboxes `list`
/// followed by `m`, as it reads it back; `None` when it does not read back.
pub uninterp spec fn mailbox_join(
    list: Seq<(Option<Seq<char>>, Seq<char>)>,
    m: (Option<Seq<char>>, Seq<char>),
) -> Option<Seq<(Option<Seq<char>>, Seq<char>)>>;

/// The mailboxes of a header that reads back as `h` (none when it does not).
pub open spec fn opt_list(h: Option<Seq<MailboxView>>) -> Seq<MailboxView> {
    match h {
        Some(l) => l,
        None => Seq::empty(),
    }
}

/// `m` with header kind `k` set to `h`, or removed when `h` is `None`.
pub open spec fn set_header(m: Map<u8, Seq<MailboxView>>, k: u8, h: Option<Seq<MailboxView>>) -> Map<
    u8,
    Seq<MailboxView>,
> {
    match h {
        Some(l) => m.insert(k, l),
        None => m.remove(k),
    }
}

/// What adding the mailbox `(name, email)` under header kind `k` gives
/// besides the header itself (which the wrappers state through
/// [`mailbox_join`]): the subject unchanged, and when the header held only
/// plain mailboxes and the new one is plain, it reads back with the new
/// mailbox appended.
pub open spec fn added_mailbox(
    b: MessageBuilder,
    r: MessageBuilder,
    k: u8,
    name: Option<String>,
    email: Seq<char>,
) -> bool {
    let m = (opt_view(name), email);
    let h = builder_mailboxes(b);
    &&& builder_subject(r) == builder_subject(b)
    &&& list_plain(list_at(h, k)) && plain_mailbox(m) ==> mailbox_join(list_at(h, k), m) == Some(
        list_at(h, k).push(m),
    )
}

/// `MessageBuilder::from` with `Mailbox::new(name, email)`: adds a mailbox to
/// the `From` header (see [`added_mailbox`]).
#[verifier::external_body]
fn with_from(b: MessageBuilder, name: Option<String>, email: &str) -> (r: MessageBuilder)
    requires
        address_refusal(email@) is None,
        line_break_free(opt_view(name)),
    ensures
        added_mailbox(b, r, from_kind(), name, email@),
        builder_mailboxes(r) == set_header(
            builder_mailboxes(b),
            from_kind(),
            mailbox_join(list_at(builder_mailboxes(b), from_kind()), (opt_view(name), email@)),
        ),
{
    b.from(Mailbox::new(name, email.parse().expect("an address lettre accepts")))
}

/// `MessageBuilder::to` with `Mailbox::new(name, email)` (see
/// [`added_mailbox`]).
#[verifier::external_body]
fn with_to(b: MessageBuilder, name: Option<String>, email: &str) -> (r: MessageBuilder)
    requires
        address_refusal(email@) is None,
        line_break_free(opt_view(name)),
    ensures
        added_mailbox(b, r, to_kind(), name, email@),
        builder_mailboxes(r) == set_header(
            builder_mailboxes(b),
            to_kind(),
            mailbox_join(list_at(builder_mailboxes(b), to_kind()), (opt_view(name), email@)),
        ),
{
    b.to(Mailbox::new(name, email.parse().expect("an address lettre accepts")))
}

/// `MessageBuilder::cc` with `Mailbox::new(name, email)` (see
/// [`added_mailbox`]).
#[verifier::external_body]
fn with_cc(b: MessageBuilder, name: Option<String>, email: &str) -> (r: MessageBuilder)
    requires
        address_refusal(email@) is None,
        line_break_free(opt_view(name)),
    ensures
        added_mailbox(b, r, cc_kind(), name, email@),
        builder_mailboxes(r) == set_header(
            builder_mailboxes(b),
            cc_kind(),
            mailbox_join(list_at(builder_mailboxes(b), cc_kind()), (opt_view(name), email@)),
        ),
{
    b.cc(Mailbox::new(name, email.parse().expect("an address lettre accepts")))
}

/// `MessageBuilder::bcc` with `Mailbox::new(name, email)` (see
/// [`added_mailbox`]).
#[verifier::external_body]
fn with_bcc(b: MessageBuilder, name: Option<String>, email: &str) -> (r: MessageBuilder)
    requires
        address_refusal(email@) is None,
        line_break_free(opt_view(name)),
    ensures
        added_mailbox(b, r, bcc_kind(), name, email@),
        builder_mailboxes(r) == set_header(
            builder_mailboxes(b),
            bcc_kind(),
            mailbox_join(list_at(builder_mailboxes(b), bcc_kind()), (opt_view(name), email@)),
        ),
{
    b.bcc(Mailbox::new(name, email.parse().expect("an address lettre accepts")))
}

/// `MessageBuilder::reply_to` with `Mailbox::new(name, email)` (see
/// [`added_mailbox`]).
#[verifier::external_body]
fn with_reply_to(b: MessageBuilder, name: Option<String>, email: &str) -> (r: MessageBuilder)
    requires
        address_refusal(email@) is None,
        line_break_free(opt_view(name)),
    ensures
        added_mailbox(b, r, reply_to_kind(), name, email@),
        builder_mailboxes(r) == set_header(
            builder_mailboxes(b),
            reply_to_kind(),
            mailbox_join(list_at(builder_mailboxes(b), reply_to_kind()), (opt_view(name), email@)),
        ),
{
    b.reply_to(Mailbox::new(name, email.parse().expect("an address lettre accepts")))
}

/// `MessageBuilder::subject`: sets the `Subject` header.
#[verifier::external_body]
fn with_subject(b: MessageBuilder, subject: &str) -> (r: MessageBuilder)
    ensures
        builder_mailboxes(r) == builder_mailboxes(b),
        builder_subject(r) == Some(subject@),
{
    b.subject(subject)
}

/// `MessageBuilder::multipart`: the finished message, or the builder's
/// error shown as text.  The builder succeeds when its `From` header reads
/// back as exactly one mailbox and some `To`, `Cc` or `Bcc` header reads
/// back with a mailbox; other refusals are not stated.  The message keeps
/// the builder's address headers except `Bcc` (dropped once the envelope is
/// taken), its subject, and the body it was given.
#[verifier::external_body]
fn build_message(b: MessageBuilder, body: MultiPart) -> (r: Result<Message, String>)
    ensures
        ({
            let h = builder_mailboxes(b);
            list_at(h, from_kind()).len() == 1 && list_at(h, to_kind()).len() + list_at(
                h,
                cc_kind(),
            ).len() + list_at(h, bcc_kind()).len() > 0 ==> r is Ok
        }),
        r matches Ok(m) ==> message_subject(m) == builder_subject(b) && message_mailboxes(m)
            == builder_mailboxes(b).remove(bcc_kind()) && message_parts(m) == multipart_parts(body)
            && message_alternative(m) == multipart_alternative(body),
{
    b.multipart(body).map_err(|error| error.to_string())
}

/// `MultiPart::alternative()` with a first `SinglePart::plain(text)` part.
#[verifier::external_body]
fn alternative_with_text(text: String) -> (m: MultiPart)
    ensures
        multipart_parts(m) == seq![text_part(text@)],
        multipart_alternative(m),
{
    MultiPart::alternative().singlepart(SinglePart::plain(text))
}

/// `MultiPart::mixed()` with a first `SinglePart::plain(text)` part.
#[verifier::external_body]
fn mixed_with_text(text: String) -> (m: MultiPart)
    ensures
        multipart_parts(m) == seq![text_part(text@)],
        !multipart_alternative(m),
{
    MultiPart::mixed().singlepart(SinglePart::plain(text))
}

/// `MultiPart::mixed()` with a first `SinglePart::html(html)` part.
#[verifier::external_body]
fn mixed_with_html(html: String) -> (m: MultiPart)
    ensures
        multipart_parts(m) == seq![html_part(html@)],
        !multipart_alternative(m),
{
    MultiPart::mixed().singlepart(SinglePart::html(html))
}

/// `MultiPart::singlepart` with `SinglePart::html(html)`: appends an HTML
/// part.
#[verifier::external_body]
fn add_html(m: MultiPart, html: String) -> (r: MultiPart)
    ensures
        multipart_parts(r) == multipart_parts(m).push(html_part(html@)),
        multipart_alternative(r) == multipart_alternative(m),
{
    m.singlepart(SinglePart::html(html))
}

/// Why `ContentType::parse` refuses `text`, as its error's display text;
/// `None` when it accepts `text`.
pub uninterp spec fn content_type_refusal(text: Seq<char>) -> Option<Seq<char>>;

/// `ContentType::parse(text)`, its error shown as text.  Parsing is a
/// function of `text` alone.
#[verifier::external_body]
fn parse_content_type(text: &str) -> (r: Result<(), String>)
    ensures
        match r {
            Ok(_) => content_type_refusal(text@) is None,
            Err(why) => content_type_refusal(text@) == Some(why@),
        },
{
    ContentType::parse(text).map(|_| ()).map_err(|error| error.to_string())
}

/// `MultiPart::singlepart` with the part `SinglePart::builder()` gives with
/// the content type `ContentType::parse(content_type)`, the disposition
/// `ContentDisposition::attachment(file_name)` and the bytes `body`:
/// appends an attachment part.
#[verifier::external_body]
fn add_attachment(m: MultiPart, content_type: &str, file_name: &str, body: Vec<u8>) -> (r:
    MultiPart)
    requires
        content_type_refusal(content_type@) is None,
    ensures
        multipart_parts(r) == multipart_parts(m).push((2u8, content_type@, file_name@, body@)),
        multipart_alternative(r) == multipart_alternative(m),
{
    m.singlepart(
        SinglePart::builder().header(
            ContentType::parse(content_type).expect("a content type lettre accepts"),
        ).header(ContentDisposition::attachment(file_name)).body(body),
    )
}

/// The first `Some` that `f` gives along `s`.
pub open spec fn first_some<A, B>(s: Seq<A>, f: spec_fn(A) -> Option<B>) -> Option<B>
    decreases s.len(),
{
    if s.len() == 0 {
        None
    } else {
        match f(s[0]) {
            Some(b) => Some(b),
            None => first_some(s.drop_first(), f),
        }
    }
}

proof fn lemma_first_some_concat<A, B>(a: Seq<A>, b: Seq<A>, f: spec_fn(A) -> Option<B>)
    ensures
        first_some(a + b, f) == (match first_some(a, f) {
            Some(x) => Some(x),
            None => first_some(b, f),
        }),
    decreases a.len(),
{
    if a.len() == 0 {
        assert(a + b =~= b);
    } else {
        lemma_first_some_concat(a.drop_first(), b, f);
        assert((a + b).drop_first() =~= a.drop_first() + b);
    }
}

/// The error for the first address of `s` that `lettre` refuses.
pub open spec fn mailbox_refusals(s: Seq<Address>) -> Option<Seq<char>> {
    first_some(s, |a: Address| mailbox_refusal(a))
}

/// The error for the first attachment of `s` whose content type `lettre`
/// refuses.
pub open spec fn content_type_refusals(s: Seq<Attachment>) -> Option<Seq<char>> {
    first_some(s, |a: Attachment| content_type_refusal(a.content_type_view()))
}

/// Every address of `email`, in the order `From`, `To`, `Cc`, `Bcc`,
/// `Reply-To`.
pub open spec fn all_addresses(email: Email) -> Seq<Address> {
    email.from_view() + email.to_view() + email.cc_view() + email.bcc_view()
        + email.reply_to_view()
}

/// The error of the first part of `email` that `lettre` refuses: an address,
/// then an attachment's content type.
pub open spec fn message_refusal(email: Email) -> Option<Seq<char>> {
    match mailbox_refusals(all_addresses(email)) {
        Some(t) => Some(t),
        None => content_type_refusals(email.attachments_view()),
    }
}

/// Header kind that a builder call for the list `which` adds to.
pub open spec fn list_kind(which: AddressList) -> u8 {
    match which {
        AddressList::From => from_kind(),
        AddressList::To => to_kind(),
        AddressList::Cc => cc_kind(),
        AddressList::Bcc => bcc_kind(),
        AddressList::ReplyTo => reply_to_kind(),
    }
}

/// Display names and addresses of `s`.
pub open spec fn mailbox_views(s: Seq<Address>) -> Seq<MailboxView> {
    s.map_values(|a: Address| (a.name_view(), a.email_view()))
}

/// Every address of `s` is a plain mailbox.
pub open spec fn addresses_plain(s: Seq<Address>) -> bool {
    list_plain(mailbox_views(s))
}

/// `m` with header kind `k` set to the mailboxes of `s`, when there are any.
pub open spec fn with_list(m: Map<u8, Seq<MailboxView>>, k: u8, s: Seq<Address>) -> Map<
    u8,
    Seq<MailboxView>,
> {
    if s.len() == 0 {
        m
    } else {
        m.insert(k, mailbox_views(s))
    }
}

/// The address headers of `email`'s message, by kind (only non-empty
/// lists).
pub open spec fn email_headers(e: Email) -> Map<u8, Seq<MailboxView>> {
    with_list(
        with_list(
            with_list(
                with_list(
                    with_list(Map::empty(), from_kind(), e.from_view()),
                    to_kind(),
                    e.to_view(),
                ),
                cc_kind(),
                e.cc_view(),
            ),
            bcc_kind(),
            e.bcc_view(),
        ),
        reply_to_kind(),
        e.reply_to_view(),
    )
}

/// The header that adding the mailboxes `s` one by one to an absent header
/// gives, by [`mailbox_join`]; `None` for no mailboxes or a header that does
/// not read back.
pub open spec fn join_list(s: Seq<MailboxView>) -> Option<Seq<MailboxView>>
    decreases s.len(),
{
    if s.len() == 0 {
        None
    } else {
        mailbox_join(opt_list(join_list(s.drop_last())), s.last())
    }
}

/// `m` with header kind `k` as adding the addresses `s` to it (from absent)
/// leaves it.
pub open spec fn join_addresses(m: Map<u8, Seq<MailboxView>>, k: u8, s: Seq<Address>) -> Map<
    u8,
    Seq<MailboxView>,
> {
    set_header(m, k, join_list(mailbox_views(s)))
}

/// The address headers of `email`'s message as `lettre` reads them back,
/// each list added in turn with [`mailbox_join`].
pub open spec fn email_joined_headers(e: Email) -> Map<u8, Seq<MailboxView>> {
    join_addresses(
        join_addresses(
            join_addresses(
                join_addresses(
                    join_addresses(Map::empty(), from_kind(), e.from_view()),
                    to_kind(),
                    e.to_view(),
                ),
                cc_kind(),
                e.cc_view(),
            ),
            bcc_kind(),
            e.bcc_view(),
        ),
        reply_to_kind(),
        e.reply_to_view(),
    )
}

/// The body parts of `email`'s message: text then HTML (alternative) when
/// both are set, else the one set, else an empty text part; then one part per
/// attachment.
pub open spec fn email_parts(e: Email) -> Seq<PartView> {
    let body = match (e.body_view().text_view(), e.body_view().html_view()) {
        (Some(t), Some(h)) => seq![text_part(t), html_part(h)],
        (Some(t), None) => seq![text_part(t)],
        (None, Some(h)) => seq![html_part(h)],
        (None, None) => seq![text_part(Seq::empty())],
    };
    body + e.attachments_view().map_values(|a: Attachment| attachment_part(a))
}

/// Adds the mailboxes of `list` to the header `which` of `b`, stopping at
/// the first address that `lettre` refuses.
fn add_mailboxes(b: MessageBuilder, list: &[Address], which: &AddressList) -> (r: Result<
    MessageBuilder,
    MailerError,
>)
    ensures
        match mailbox_refusals(list@) {
            None => r is Ok,
            Some(t) => r matches Err(MailerError::Transport { message }) && message@ == t,
        },
        r matches Ok(nb) ==> builder_subject(nb) == builder_subject(b) && builder_mailboxes(
            nb,
        ).remove(list_kind(*which)) == builder_mailboxes(b).remove(list_kind(*which)) && (
        !builder_mailboxes(b).dom().contains(list_kind(*which)) && addresses_plain(list@)
            ==> builder_mailboxes(nb) == with_list(builder_mailboxes(b), list_kind(*which), list@)),
        r matches Ok(nb) ==> (!builder_mailboxes(b).dom().contains(list_kind(*which))
            ==> builder_mailboxes(nb) == join_addresses(builder_mailboxes(b), list_kind(*which), list@)),
{
    let ghost f = |a: Address| mailbox_refusal(a);
    let ghost b0 = b;
    let ghost k = list_kind(*which);
    let mut b = b;
    let mut i: usize = 0;
    assert(list@.take(0) =~= Seq::<Address>::empty());
    assert(mailbox_views(list@.take(0)) =~= Seq::<MailboxView>::empty());
    assert(!builder_mailboxes(b0).dom().contains(k) ==> builder_mailboxes(b0).remove(k) =~= builder_mailboxes(b0));
    while i < list.len()
        invariant
            i <= list.len(),
            f == (|a: Address| mailbox_refusal(a)),
            k == list_kind(*which),
            first_some(list@.take(i as int), f) is None,
            builder_subject(b) == builder_subject(b0),
            builder_mailboxes(b).remove(k) == builder_mailboxes(b0).remove(k),
            !builder_mailboxes(b0).dom().contains(k) && addresses_plain(list@) ==> builder_mailboxes(
                b,
            ) == with_list(builder_mailboxes(b0), k, list@.take(i as int)),
            !builder_mailboxes(b0).dom().contains(k) ==> builder_mailboxes(b) == join_addresses(
                builder_mailboxes(b0),
                k,
                list@.take(i as int),
            ),
        decreases list.len() - i,
    {
        proof {
            lemma_first_some_concat(list@.take(i as int), list@.skip(i as int), f);
            assert(list@.take(i as int) + list@.skip(i as int) =~= list@);
            assert(list@.skip(i as int)[0] == list@[i as int]);
        }
        let a = &list[i];
        match to_mailbox(a) {
            Ok(_) => {},
            Err(e) => {
                return Err(e);
            },
        }
        let name = match a.name() {
            Some(n) => Some(n.to_owned()),
            None => None,
        };
        assert(opt_view(name) == a.name_view());
        let ghost before = b;
        b = match which {
            AddressList::From => with_from(b, name, a.email()),
            AddressList::To => with_to(b, name, a.email()),
            AddressList::Cc => with_cc(b, name, a.email()),
            AddressList::Bcc => with_bcc(b, name, a.email()),
            AddressList::ReplyTo => with_reply_to(b, name, a.email()),
        };
        proof {
            lemma_first_some_concat(list@.take(i as int), seq![list@[i as int]], f);
            assert(list@.take(i as int + 1) =~= list@.take(i as int) + seq![list@[i as int]]);
            assert(seq![list@[i as int]].drop_first() =~= Seq::<Address>::empty());
            assert(first_some(Seq::<Address>::empty(), f) is None);
            assert(first_some(seq![list@[i as int]], f) is None);
            if !builder_mailboxes(b0).dom().contains(k) {
                let m0 = builder_mailboxes(b0);
                let mv = (a.name_view(), a.email_view());
                let t = list@.take(i as int);
                let t1 = list@.take(i as int + 1);
                assert(t1 =~= t.push(list@[i as int]));
                assert(mailbox_views(t1) =~= mailbox_views(t).push(mv));
                assert(mailbox_views(t1).drop_last() =~= mailbox_views(t));
                let jt = join_list(mailbox_views(t));
                assert(list_at(builder_mailboxes(before), k) == opt_list(jt));
                assert(join_list(mailbox_views(t1)) == mailbox_join(opt_list(jt), mv));
                assert(builder_mailboxes(b) =~= join_addresses(m0, k, t1));
            }
            if !builder_mailboxes(b0).dom().contains(k) && addresses_plain(list@) {
                let m0 = builder_mailboxes(b0);
                let mv = (a.name_view(), a.email_view());
                assert(mailbox_views(list@)[i as int] == mv);
                assert(plain_mailbox(mv));
                let t = list@.take(i as int);
                let t1 = list@.take(i as int + 1);
                assert(mailbox_views(t1) =~= mailbox_views(t).push(mv));
                if i == 0 {
                    assert(list_at(builder_mailboxes(before), k) =~= Seq::<MailboxView>::empty());
                    assert(list_plain(list_at(builder_mailboxes(before), k)));
                    assert(mailbox_views(t) =~= Seq::<MailboxView>::empty());
                    assert(builder_mailboxes(b) =~= with_list(m0, k, t1));
                } else {
                    assert(builder_mailboxes(before) == m0.insert(k, mailbox_views(t)));
                    assert(list_at(builder_mailboxes(before), k) == mailbox_views(t));
                    assert forall|j: int| 0 <= j < mailbox_views(t).len() implies plain_mailbox(
                        #[trigger] mailbox_views(t)[j],
                    ) by {
                        assert(mailbox_views(t)[j] == mailbox_views(list@)[j]);
                    }
                    assert(builder_mailboxes(b) =~= with_list(m0, k, t1));
                }
            }
        }
        i = i + 1;
    }
    assert(list@.take(list.len() as int) =~= list@);
    Ok(b)
}

/// Appends one part per attachment (its content type, an `attachment`
/// disposition with its file name, and its bytes), stopping at the first
/// content type that `lettre` refuses.
fn add_attachments(m: MultiPart, list: &[Attachment]) -> (r: Result<MultiPart, MailerError>)
    ensures
        match content_type_refusals(list@) {
            None => r is Ok,
            Some(t) => r matches Err(MailerError::Transport { message }) && message@ == t,
        },
        r matches Ok(nm) ==> multipart_parts(nm) == multipart_parts(m) + list@.map_values(
            |a: Attachment| attachment_part(a),
        ) && multipart_alternative(nm) == multipart_alternative(m),
{
    let ghost f = |a: Attachment| content_type_refusal(a.content_type_view());
    let ghost m0 = m;
    let mut m = m;
    let mut i: usize = 0;
    assert(list@.take(0) =~= Seq::<Attachment>::empty());
    assert(multipart_parts(m0) + Seq::<Attachment>::empty().map_values(
        |a: Attachment| attachment_part(a),
    ) =~= multipart_parts(m0));
    while i < list.len()
        invariant
            i <= list.len(),
            f == (|a: Attachment| content_type_refusal(a.content_type_view())),
            first_some(list@.take(i as int), f) is None,
            multipart_parts(m) == multipart_parts(m0) + list@.take(i as int).map_values(
                |a: Attachment| attachment_part(a),
            ),
            multipart_alternative(m) == multipart_alternative(m0),
        decreases list.len() - i,
    {
        proof {
            lemma_first_some_concat(list@.take(i as int), list@.skip(i as int), f);
            assert(list@.take(i as int) + list@.skip(i as int) =~= list@);
            assert(list@.skip(i as int)[0] == list@[i as int]);
        }
        let a = &list[i];
        match parse_content_type(a.content_type()) {
            Ok(()) => {},
            Err(why) => {
                return Err(MailerError::Transport { message: why });
            },
        }
        m = add_attachment(m, a.content_type(), a.filename(), vstd::slice::slice_to_vec(a.body()));
        proof {
            lemma_first_some_concat(list@.take(i as int), seq![list@[i as int]], f);
            assert(list@.take(i as int + 1) =~= list@.take(i as int) + seq![list@[i as int]]);
            assert(seq![list@[i as int]].drop_first() =~= Seq::<Attachment>::empty());
            assert(first_some(Seq::<Attachment>::empty(), f) is None);
            assert(first_some(seq![list@[i as int]], f) is None);
            assert(list@.take(i as int + 1).map_values(|a: Attachment| attachment_part(a))
                =~= list@.take(i as int).map_values(|a: Attachment| attachment_part(a)).push(
                attachment_part(list@[i as int]),
            ));
            assert(multipart_parts(m) =~= multipart_parts(m0) + list@.take(i as int + 1).map_values(
                |a: Attachment| attachment_part(a),
            ));
        }
        i = i + 1;
    }
    assert(list@.take(list.len() as int) =~= list@);
    Ok(m)
}

/// The `lettre` message for `email`: its mailboxes and subject, a body of
/// the text and HTML parts (`multipart/alternative` when both are set,
/// otherwise `multipart/mixed` with the one part, or an empty text part),
/// then one part per attachment.
///
/// Fails with [`MailerError::Transport`] at the first address (or display
/// name with a line break) or attachment content type that `lettre` refuses
/// ([`message_refusal`]); otherwise the result is `lettre`'s builder's.  For
/// plain mailboxes ([`plain_mailbox`]) the builder succeeds for one sender and
/// some recipient, and the message's headers hold exactly the email's
/// mailboxes (`Bcc` only in the envelope).  The message holds the email's
/// subject and body parts.
pub fn to_lettre_message(email: &Email) -> (r: Result<Message, MailerError>)
    ensures
        match message_refusal(*email) {
            Some(t) => r matches Err(MailerError::Transport { message }) && message@ == t,
            None => r is Ok || r is Err && r->Err_0 is Transport,
        },
        message_refusal(*email) is None && addresses_plain(all_addresses(*email))
            && email.from_view().len() == 1 && email.to_view().len() + email.cc_view().len()
            + email.bcc_view().len() > 0 ==> r is Ok,
        r matches Ok(m) ==> message_subject(m) == Some(email.subject_view()) && message_parts(m)
            == email_parts(*email) && message_alternative(m) == (email.body_view().text_view() is Some
            && email.body_view().html_view() is Some) && (addresses_plain(all_addresses(*email))
            ==> message_mailboxes(m) == email_headers(*email).remove(bcc_kind())),
        r matches Ok(m) ==> message_mailboxes(m) == email_joined_headers(*email).remove(bcc_kind()),
{
    let ghost e = *email;
    proof {
        let f = |a: Address| mailbox_refusal(a);
        lemma_first_some_concat(e.from_view(), e.to_view(), f);
        lemma_first_some_concat(e.from_view() + e.to_view(), e.cc_view(), f);
        lemma_first_some_concat(e.from_view() + e.to_view() + e.cc_view(), e.bcc_view(), f);
        lemma_first_some_concat(
            e.from_view() + e.to_view() + e.cc_view() + e.bcc_view(),
            e.reply_to_view(),
            f,
        );
        lemma_addresses_plain_split(e);
    }
    let mut builder = message_builder();
    builder = match add_mailboxes(builder, email.from_addresses(), &AddressList::From) {
        Ok(b) => b,
        Err(e) => {
            return Err(e);
        },
    };
    builder = match add_mailboxes(builder, email.to_addresses(), &AddressList::To) {
        Ok(b) => b,
        Err(e) => {
            return Err(e);
        },
    };
    builder = match add_mailboxes(builder, email.cc_addresses(), &AddressList::Cc) {
        Ok(b) => b,
        Err(e) => {
            return Err(e);
        },
    };
    builder = match add_mailboxes(builder, email.bcc_addresses(), &AddressList::Bcc) {
        Ok(b) => b,
        Err(e) => {
            return Err(e);
        },
    };
    builder = match add_mailboxes(builder, email.reply_to_addresses(), &AddressList::ReplyTo) {
        Ok(b) => b,
        Err(e) => {
            return Err(e);
        },
    };
    builder = with_subject(builder, email.subject_line());
    let body = email.message_body();
    let parts = match (body.text_part(), body.html_part()) {
        (Some(text), Some(html)) => add_html(alternative_with_text(text.to_owned()), html.to_owned()),
        (Some(text), None) => mixed_with_text(text.to_owned()),
        (None, Some(html)) => mixed_with_html(html.to_owned()),
        (None, None) => mixed_with_text(String::new()),
    };
    let parts = match add_attachments(parts, email.attachments()) {
        Ok(p) => p,
        Err(e) => {
            return Err(e);
        },
    };
    proof {
        if addresses_plain(all_addresses(e)) && message_refusal(e) is None {
            assert(builder_mailboxes(builder) =~= email_headers(e));
        }
        assert(builder_mailboxes(builder) =~= email_joined_headers(e));
    }
    match build_message(builder, parts) {
        Ok(message) => Ok(message),
        Err(why) => Err(MailerError::Transport { message: why }),
    }
}

/// Plain addresses of the whole email are plain list by list.
proof fn lemma_addresses_plain_split(e: Email)
    ensures
        addresses_plain(all_addresses(e)) ==> addresses_plain(e.from_view()) && addresses_plain(
            e.to_view(),
        ) && addresses_plain(e.cc_view()) && addresses_plain(e.bcc_view()) && addresses_plain(
            e.reply_to_view(),
        ),
{
    if addresses_plain(all_addresses(e)) {
        let all = all_addresses(e);
        let n0 = e.from_view().len();
        let n1 = n0 + e.to_view().len();
        let n2 = n1 + e.cc_view().len();
        let n3 = n2 + e.bcc_view().len();
        assert forall|i: int| 0 <= i < e.from_view().len() implies plain_mailbox(
            #[trigger] mailbox_views(e.from_view())[i],
        ) by {
            assert(all[i] == e.from_view()[i]);
            assert(mailbox_views(all)[i] == mailbox_views(e.from_view())[i]);
        }
        assert forall|i: int| 0 <= i < e.to_view().len() implies plain_mailbox(
            #[trigger] mailbox_views(e.to_view())[i],
        ) by {
            assert(all[n0 + i] == e.to_view()[i]);
            assert(mailbox_views(all)[n0 + i] == mailbox_views(e.to_view())[i]);
        }
        assert forall|i: int| 0 <= i < e.cc_view().len() implies plain_mailbox(
            #[trigger] mailbox_views(e.cc_view())[i],
        ) by {
            assert(all[n1 + i] == e.cc_view()[i]);
            assert(mailbox_views(all)[n1 + i] == mailbox_views(e.cc_view())[i]);
        }
        assert forall|i: int| 0 <= i < e.bcc_view().len() implies plain_mailbox(
            #[trigger] mailbox_views(e.bcc_view())[i],
        ) by {
            assert(all[n2 + i] == e.bcc_view()[i]);
            assert(mailbox_views(all)[n2 + i] == mailbox_views(e.bcc_view())[i]);
        }
        assert forall|i: int| 0 <= i < e.reply_to_view().len() implies plain_mailbox(
            #[trigger] mailbox_views(e.reply_to_view())[i],
        ) by {
            assert(all[n3 + i] == e.reply_to_view()[i]);
            assert(mailbox_views(all)[n3 + i] == mailbox_views(e.reply_to_view())[i]);
        }
    }
}

#[verifier::external_type_specification]
#[verifier::external_body]
pub struct ExSmtpClient(SmtpClient);

#[verifier::external_type_specification]
#[verifier::external_body]
pub struct ExClientBuilder(ClientBuilder);

/// Connection settings as plain values: host, port, PLAIN credentials
/// (username, password) and whether TLS wraps the connection from the start.
pub type ClientSettings = (Seq<char>, u16, Option<(Seq<char>, Seq<char>)>, bool);

/// The connection settings held by a `lettre` SMTP client builder.
pub uninterp spec fn builder_settings(b: ClientBuilder) -> (
    Seq<char>,
    u16,
    Option<(Seq<char>, Seq<char>)>,
    bool,
);

/// The connection settings a `lettre` SMTP client was built with.
pub uninterp spec fn client_settings(c: SmtpClient) -> (
    Seq<char>,
    u16,
    Option<(Seq<char>, Seq<char>)>,
    bool,
);

/// `lettre::SmtpTransport::relay(host)`: settings for an SMTPS relay (TLS
/// wrapper on the submissions port 465, no credentials), or the error's
/// display text when `lettre` cannot set up TLS for `host`.  Which hosts fail
/// depends on the TLS back end and is not stated.
#[verifier::external_body]
fn tls_client(host: &str) -> (r: Result<ClientBuilder, String>)
    ensures
        r matches Ok(b) ==> builder_settings(b) == (host@, 465u16, None::<(Seq<char>, Seq<char>)>, true),
{
    SmtpClient::relay(host).map_err(|error| error.to_string())
}

/// `lettre::SmtpTransport::builder_dangerous(host)`: settings for cleartext
/// SMTP to `host` on port 25, without credentials.
#[verifier::external_body]
fn cleartext_client(host: &str) -> (r: ClientBuilder)
    ensures
        builder_settings(r) == (host@, 25u16, None::<(Seq<char>, Seq<char>)>, false),
{
    SmtpClient::builder_dangerous(host)
}

/// `lettre`'s `SmtpTransportBuilder::port`: sets the port.
#[verifier::external_body]
fn client_port(b: ClientBuilder, port: u16) -> (r: ClientBuilder)
    ensures
        builder_settings(r) == (builder_settings(b).0, port, builder_settings(b).2, builder_settings(
            b,
        ).3),
{
    b.port(port)
}

/// `lettre`'s `SmtpTransportBuilder::credentials` with
/// `Credentials::new(username, password)`: sets the credentials.
#[verifier::external_body]
fn client_credentials(b: ClientBuilder, username: String, password: String) -> (r: ClientBuilder)
    ensures
        builder_settings(r) == (
            builder_settings(b).0,
            builder_settings(b).1,
            Some((username@, password@)),
            builder_settings(b).3,
        ),
{
    b.credentials(Credentials::new(username, password))
}

/// `lettre`'s `SmtpTransportBuilder::build`: the client with the builder's
/// settings and a connection pool (whose maintenance thread `lettre` starts
/// here, panicking when the system cannot start a thread).
#[verifier::external_body]
fn build_client(b: ClientBuilder) -> (r: SmtpClient)
    ensures
        client_settings(r) == builder_settings(b),
{
    b.build()
}

/// SMTP relay transport: a connected `lettre` client.  Building the client
/// (TLS set-up, connection pool) and sending through it are the caller's.
pub struct SmtpTransport {
    client: SmtpClient,
}

/// Settings of an SMTP relay: host, port (`lettre`'s default when unset),
/// PLAIN credentials, and whether the connection is cleartext.
#[derive(Clone, Debug)]
pub struct SmtpTransportBuilder {
    relay: String,
    port: Option<u16>,
    credentials: Option<(String, String)>,
    unencrypted: bool,
}

impl SmtpTransport {
    /// Settings for the TLS relay `relay`, on `lettre`'s default port and
    /// without credentials.
    pub fn relay(relay: &str) -> (b: SmtpTransportBuilder)
        ensures
            b.relay_view() == relay@,
            b.port_view() is None,
            b.credentials_view() is None,
            !b.unencrypted_view(),
    {
        SmtpTransportBuilder {
            relay: relay.to_owned(),
            port: None,
            credentials: None,
            unencrypted: false,
        }
    }

    /// Settings for cleartext SMTP to `localhost` on port 25 (local and test
    /// relays).
    pub fn unencrypted_localhost() -> (b: SmtpTransportBuilder)
        ensures
            b.relay_view() == "localhost"@,
            b.port_view() == Some(25u16),
            b.credentials_view() is None,
            b.unencrypted_view(),
    {
        SmtpTransportBuilder {
            relay: "localhost".to_owned(),
            port: Some(25),
            credentials: None,
            unencrypted: true,
        }
    }

    /// The `lettre` client that sends.
    pub closed spec fn client_view(&self) -> SmtpClient {
        self.client
    }

    /// Transport over `client`.
    pub fn from_client(client: SmtpClient) -> (t: SmtpTransport)
        ensures
            t.client_view() == client,
    {
        SmtpTransport { client }
    }

    /// The `lettre` client that sends.
    pub fn client(&self) -> (c: &SmtpClient)
        ensures
            *c == self.client_view(),
    {
        &self.client
    }

    /// The message to send for `email`: refused as [`validate_for_send`]
    /// refuses it, otherwise [`to_lettre_message`]'s result.
    pub fn prepare(&self, email: &Email) -> (r: Result<Message, MailerError>)
        ensures
            match send_check(*email) {
                Err(e) => r == Err::<Message, MailerError>(e),
                Ok(()) => match message_refusal(*email) {
                    Some(t) => r matches Err(MailerError::Transport { message }) && message@ == t,
                    None => (r is Ok || r is Err && r->Err_0 is Transport) && (addresses_plain(
                        all_addresses(*email),
                    ) && email.from_view().len() == 1 ==> r is Ok),
                },
            },
            r matches Ok(m) ==> message_subject(m) == Some(email.subject_view()) && message_parts(m)
                == email_parts(*email) && message_alternative(m) == (
            email.body_view().text_view() is Some && email.body_view().html_view() is Some) && (
            addresses_plain(all_addresses(*email)) ==> message_mailboxes(m) == email_headers(
                *email,
            ).remove(bcc_kind())),
            r matches Ok(m) ==> message_mailboxes(m) == email_joined_headers(*email).remove(
                bcc_kind(),
            ),
    {
        match validate_for_send(email) {
            Err(e) => Err(e),
            Ok(()) => to_lettre_message(email),
        }
    }
}

impl SmtpTransportBuilder {
    pub closed spec fn relay_view(&self) -> Seq<char> {
        self.relay@
    }

    pub closed spec fn port_view(&self) -> Option<u16> {
        self.port
    }

    pub closed spec fn credentials_view(&self) -> Option<(Seq<char>, Seq<char>)> {
        match self.credentials {
            Some(c) => Some((c.0@, c.1@)),
            None => None,
        }
    }

    pub closed spec fn unencrypted_view(&self) -> bool {
        self.unencrypted
    }

    /// The client settings these give: the relay host; the port set, else 25
    /// for cleartext and 465 for TLS; the credentials; TLS unless cleartext.
    pub open spec fn settings_view(&self) -> ClientSettings {
        (
            self.relay_view(),
            match self.port_view() {
                Some(p) => p,
                None => if self.unencrypted_view() {
                    25u16
                } else {
                    465u16
                },
            },
            self.credentials_view(),
            !self.unencrypted_view(),
        )
    }

    /// These settings on port `port`.
    pub fn port(self, port: u16) -> (b: SmtpTransportBuilder)
        ensures
            b.port_view() == Some(port),
            b.relay_view() == self.relay_view(),
            b.credentials_view() == self.credentials_view(),
            b.unencrypted_view() == self.unencrypted_view(),
    {
        let mut b = self;
        b.port = Some(port);
        b
    }

    /// These settings with PLAIN credentials `username` / `password`.
    pub fn credentials(self, username: &str, password: &str) -> (b: SmtpTransportBuilder)
        ensures
            b.credentials_view() == Some((username@, password@)),
            b.relay_view() == self.relay_view(),
            b.port_view() == self.port_view(),
            b.unencrypted_view() == self.unencrypted_view(),
    {
        let mut b = self;
        b.credentials = Some((username.to_owned(), password.to_owned()));
        b
    }

    /// Relay host.
    pub fn relay_host(&self) -> (r: &str)
        ensures
            r@ == self.relay_view(),
    {
        self.relay.as_str()
    }

    /// Port, when set.
    pub fn port_number(&self) -> (r: Option<u16>)
        ensures
            r == self.port_view(),
    {
        self.port
    }

    /// Username and password, when set.
    pub fn credential_pair(&self) -> (r: Option<(&str, &str)>)
        ensures
            match r {
                Some(p) => self.credentials_view() == Some((p.0@, p.1@)),
                None => self.credentials_view() is None,
            },
    {
        match &self.credentials {
            Some(c) => Some((c.0.as_str(), c.1.as_str())),
            None => None,
        }
    }

    /// Whether the connection is cleartext.
    pub fn is_unencrypted(&self) -> (r: bool)
        ensures
            r == self.unencrypted_view(),
    {
        self.unencrypted
    }

    /// The `lettre` client for these settings: cleartext to the host, or an
    /// SMTPS relay (refused with [`MailerError::Transport`] when `lettre`
    /// cannot set up TLS for the host); then the port and PLAIN credentials
    /// when set.  Cleartext settings always give a client.
    pub fn build(self) -> (r: Result<SmtpTransport, MailerError>)
        ensures
            self.unencrypted_view() ==> r is Ok,
            r is Err ==> !self.unencrypted_view() && r->Err_0 is Transport,
            r matches Ok(t) ==> client_settings(t.client_view()) == self.settings_view(),
    {
        let mut builder = if self.unencrypted {
            cleartext_client(self.relay.as_str())
        } else {
            match tls_client(self.relay.as_str()) {
                Ok(b) => b,
                Err(message) => {
                    return Err(MailerError::Transport { message });
                },
            }
        };
        if let Some(port) = self.port {
            builder = client_port(builder, port);
        }
        if let Some((username, password)) = self.credentials {
            builder = client_credentials(builder, username, password);
        }
        Ok(SmtpTransport::from_client(build_client(builder)))
    }
}

} // verus!
