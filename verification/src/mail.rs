//! Mail addresses and messages of the mail library, as far as the assembler
//! speaks of them.

use vstd::prelude::*;
use lettre::address::AddressError;
use lettre::message::Mailbox;
use lettre::Message;

verus! {

#[verifier::external_type_specification]
#[verifier::external_body]
pub struct ExMessage(lettre::Message);

#[verifier::external_type_specification]
#[verifier::external_body]
pub struct ExMailbox(lettre::message::Mailbox);

#[verifier::external_type_specification]
#[verifier::external_body]
pub struct ExAddressError(lettre::address::AddressError);

#[verifier::external_type_specification]
#[verifier::external_body]
pub struct ExMailError(lettre::error::Error);

/// The mailbox that `text` is read as; `None` where `text` is no mailbox.
pub uninterp spec fn parsed_mailbox(text: Seq<char>) -> Option<Mailbox>;

/// The display name that `mailbox` holds, if it holds one.
pub uninterp spec fn mailbox_name(mailbox: Mailbox) -> Option<Seq<char>>;

/// `mailbox` written out as text.
pub uninterp spec fn mailbox_text(mailbox: Mailbox) -> Seq<char>;

/// Whether the mail library builds a message from `from` to `to`.
pub uninterp spec fn mail_accepts(from: Mailbox, to: Mailbox) -> bool;

/// The bytes that the mail library makes of the body `text`: the text with
/// its line endings as `\r\n`, in the transfer encoding chosen for it.
pub uninterp spec fn encoded_body(text: Seq<char>) -> Seq<u8>;

/// The unencoded value of the header field `name` of `message`; `None` where
/// the message has no such field.
pub uninterp spec fn header_text(message: Message, name: Seq<char>) -> Option<Seq<char>>;

/// The bytes that `message` holds as its body.
pub uninterp spec fn message_body(message: Message) -> Seq<u8>;

/// `text` holds neither a line feed nor a carriage return.
pub open spec fn is_single_line(text: Seq<char>) -> bool {
    forall|i: int| 0 <= i < text.len() ==> text[i] != '\n' && text[i] != '\r'
}

/// The mail library can write `mailbox` out: its display name, if it has one,
/// holds no line break.
pub open spec fn is_writable(mailbox: Mailbox) -> bool {
    match mailbox_name(mailbox) {
        Some(name) => is_single_line(name),
        None => true,
    }
}

/// `Mailbox::from_str`. Trusted: the outcome depends on `text` alone, which is
/// what gives it a name.
#[verifier::external_body]
pub(crate) fn parse_mailbox(text: &str) -> (outcome: Result<Mailbox, AddressError>)
    ensures
        match outcome {
            Ok(mailbox) => parsed_mailbox(text@) == Some(mailbox),
            Err(_) => parsed_mailbox(text@).is_none(),
        },
{
    text.parse::<Mailbox>()
}

/// The field `name` of a `Mailbox`, copied. Trusted: it is the named display
/// name.
#[verifier::external_body]
pub(crate) fn display_name(mailbox: &Mailbox) -> (name: Option<String>)
    ensures
        match name {
            Some(text) => mailbox_name(*mailbox) == Some(text@),
            None => mailbox_name(*mailbox).is_none(),
        },
{
    mailbox.name.clone()
}

/// `Mailbox::to_string`. A mailbox whose display name holds a line break is
/// left out: writing it fails, and `to_string` then panics. Trusted: the
/// result is the named text.
#[verifier::external_body]
pub(crate) fn write_mailbox(mailbox: &Mailbox) -> (text: String)
    requires
        is_writable(*mailbox),
    ensures
        text@ == mailbox_text(*mailbox),
{
    mailbox.to_string()
}

/// `Message::builder()` with `from`, `to`, `subject` and `body`, in this
/// order. A mailbox whose display name holds a line break is left out: the
/// builder panics when it writes one out. Trusted:
/// - whether a message is built depends on the two mailboxes alone (the
///   builder reads both back from what it wrote), which is what gives it a
///   name;
/// - a message that is built holds the two mailboxes, written out, as the raw
///   values of `From` and `To`, and `subject` as that of `Subject` (what
///   `Headers::get_raw` returns for these names);
/// - its body is what `Body::new` makes of `body` (what `Message::formatted`
///   writes behind the header block).
/// Nothing is claimed of its other fields: the builder adds a date.
#[verifier::external_body]
pub(crate) fn compose(from: Mailbox, to: Mailbox, subject: &str, body: &str) -> (outcome: Result<
    Message,
    lettre::error::Error,
>)
    requires
        is_writable(from),
        is_writable(to),
    ensures
        outcome.is_ok() == mail_accepts(from, to),
        outcome matches Ok(message) ==> {
            &&& header_text(message, "From"@) == Some(mailbox_text(from))
            &&& header_text(message, "To"@) == Some(mailbox_text(to))
            &&& header_text(message, "Subject"@) == Some(subject@)
            &&& message_body(message) == encoded_body(body@)
        },
{
    Message::builder().from(from).to(to).subject(subject).body(String::from(body))
}

/// `Headers::get_raw` on the headers of `message`, copied. Trusted: it is the
/// named value of the field.
#[verifier::external_body]
pub(crate) fn raw_header(message: &Message, name: &str) -> (value: Option<String>)
    ensures
        match value {
            Some(text) => header_text(*message, name@) == Some(text@),
            None => header_text(*message, name@).is_none(),
        },
{
    message.headers().get_raw(name).map(String::from)
}

} // verus!
