//! Renders personalised e-mail messages from one plain-text template and one
//! JSON document that supplies a shared header and a list of per-recipient
//! substitution records.

use vstd::prelude::*;

pub mod json;
pub mod laws;
pub mod mail;
pub mod pattern;
pub mod text;
pub mod utils;

verus! {

/// The sender, the recipients and the subject that all messages of one run share.
#[derive(Debug, Clone)]
pub struct JsonHeader {
    pub from: String,
    pub recipients: Vec<String>,
    pub subject: String,
}

/// The header fields of the message for one recipient.
#[derive(Debug, Clone)]
pub struct Header {
    pub from: String,
    pub recipient: String,
    pub subject: String,
}

/// What a `Header` holds, as text.
pub struct HeaderText {
    pub from: Seq<char>,
    pub recipient: Seq<char>,
    pub subject: Seq<char>,
}

impl View for Header {
    type V = HeaderText;

    open spec fn view(&self) -> HeaderText {
        HeaderText { from: self.from@, recipient: self.recipient@, subject: self.subject@ }
    }
}

/// A complete message: the header of one recipient and the body rendered for
/// that recipient.
#[derive(Debug, Clone)]
pub struct MessageRecord {
    pub header: Header,
    pub body: String,
}

/// What a `MessageRecord` holds, as text.
pub struct MessageText {
    pub header: HeaderText,
    pub body: Seq<char>,
}

impl View for MessageRecord {
    type V = MessageText;

    open spec fn view(&self) -> MessageText {
        MessageText { header: self.header@, body: self.body@ }
    }
}

/// The data file: the shared header and one substitution record for each body.
#[derive(Debug)]
pub struct JsonData {
    pub header: JsonHeader,
    pub bodies: Vec<serde_json::Value>,
}

/// The two files of one build: the template and the data.
pub struct EmailMessage<'a> {
    email_path: &'a str,
    json_path: &'a str,
}

/// The two paths of an `EmailMessage`, as text.
pub struct PathsText {
    pub email_path: Seq<char>,
    pub json_path: Seq<char>,
}

impl<'a> View for EmailMessage<'a> {
    type V = PathsText;

    closed spec fn view(&self) -> PathsText {
        PathsText { email_path: self.email_path@, json_path: self.json_path@ }
    }
}

impl<'a> EmailMessage<'a> {
    /// Names the template file and the data file of a build.
    pub fn create(email_path: &'a str, json_path: &'a str) -> (message: EmailMessage<'a>)
        ensures
            message@ == (PathsText { email_path: email_path@, json_path: json_path@ }),
    {
        EmailMessage { email_path, json_path }
    }

    /// The path of the template file.
    pub fn email_path(&self) -> (path: &'a str)
        ensures
            path@ == self@.email_path,
    {
        self.email_path
    }

    /// The path of the data file.
    pub fn json_path(&self) -> (path: &'a str)
        ensures
            path@ == self@.json_path,
    {
        self.json_path
    }
}

/// A placeholder names a key under which the record holds no string.
#[derive(Debug, Clone)]
pub struct MissingKey {
    pub key: String,
}

/// The header field that holds an address.
#[derive(Debug, Clone, Copy, PartialEq, Eq, Structural)]
pub enum AddressField {
    From,
    Recipient,
}

/// Why a build ended without messages.
#[derive(Debug, Clone)]
pub enum BuildError {
    /// The template names `key`, under which the record at position `record`
    /// holds no string.
    MissingKey { record: usize, key: String },
    /// There are fewer headers than bodies.
    IndexMismatch { headers: usize, bodies: usize },
    /// The named field of the header at position `index` is no mail address.
    AddressFormat { index: usize, field: AddressField },
    /// The mail library refused to build the message at position `index`.
    Rejected { index: usize },
}

/// A `BuildError`, as text and numbers.
pub enum Failure {
    MissingKey { record: int, key: Seq<char> },
    IndexMismatch { headers: int, bodies: int },
    AddressFormat { index: int, field: AddressField },
    Rejected { index: int },
}

impl View for BuildError {
    type V = Failure;

    open spec fn view(&self) -> Failure {
        match *self {
            BuildError::MissingKey { record, key } => Failure::MissingKey { record: record as int, key: key@ },
            BuildError::IndexMismatch { headers, bodies } => Failure::IndexMismatch {
                headers: headers as int,
                bodies: bodies as int,
            },
            BuildError::AddressFormat { index, field } => Failure::AddressFormat { index: index as int, field },
            BuildError::Rejected { index } => Failure::Rejected { index: index as int },
        }
    }
}

impl Header {
    /// A header with exactly the three given fields.
    pub fn create(from: String, recipient: String, subject: String) -> (header: Header)
        ensures
            header.from == from,
            header.recipient == recipient,
            header.subject == subject,
    {
        Header { from, recipient, subject }
    }
}

} // verus!
