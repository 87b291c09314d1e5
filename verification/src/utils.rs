//! The rendering pipeline: headers, bodies and their pairing.

use vstd::prelude::*;
use vstd::string::*;
use serde_json::Value;
use lettre::address::AddressError;
use lettre::message::Mailbox;
use lettre::Message;
use crate::{
    AddressField, BuildError, Failure, Header, HeaderText, JsonData, JsonHeader, MessageRecord, MessageText,
    MissingKey,
};
use crate::mail::{
    compose, display_name, encoded_body, header_text, is_single_line, is_writable, mail_accepts, mailbox_text,
    message_body, parse_mailbox, parsed_mailbox, raw_header, write_mailbox,
};
use crate::json::{json_string_field, string_field};
use crate::pattern::{
    find_matches, is_placeholder, is_wrapped, placeholders, placeholders_fit, strip_braces, PLACEHOLDER_PATTERN,
};
use crate::text::{lines, occurs, replace, replace_all, split_lines, texts};

verus! {

/// What a rendering ends in, as text: the rendered text, or the key that the
/// record lacks.
pub open spec fn rendered(outcome: Result<String, MissingKey>) -> Result<Seq<char>, Seq<char>> {
    match outcome {
        Ok(text) => Ok(text@),
        Err(missing) => Err(missing.key@),
    }
}

/// `line` after the tokens have been resolved one after the other: each token
/// is looked up in `json` under the name between its braces, and all its
/// occurrences in the line as it then stands are replaced by the string found.
/// The first token whose name is no string field of `json` ends the rendering
/// with that name.
pub open spec fn substitute_spec(line: Seq<char>, tokens: Seq<Seq<char>>, json: Value) -> Result<
    Seq<char>,
    Seq<char>,
>
    decreases tokens.len(),
{
    if tokens.len() == 0 {
        Ok(line)
    } else {
        let key = strip_braces(tokens[0]);
        match json_string_field(json, key) {
            Some(value) => substitute_spec(replace_all(line, tokens[0], value), tokens.skip(1), json),
            None => Err(key),
        }
    }
}

/// `line` with each of its placeholders replaced by the record's string of
/// that name, or the first placeholder name that the record lacks.
pub open spec fn resolve(line: Seq<char>, json: Value) -> Result<Seq<char>, Seq<char>> {
    substitute_spec(line, placeholders(line), json)
}

/// The token without its opening and its closing brace.
pub fn strip_prefix_suffix(str: String) -> (stripped: String)
    requires
        is_wrapped(str@),
    ensures
        stripped@ == strip_braces(str@),
{
    let length: usize = str.as_str().unicode_len();
    str.as_str().substring_char(1, length - 1).to_owned()
}

/// Resolves the given tokens against `json`, one after the other, in `line`.
pub fn substitute(line: &str, tokens: &Vec<String>, json: &Value) -> (outcome: Result<String, MissingKey>)
    requires
        forall|i: int| 0 <= i < tokens.len() ==> is_wrapped(#[trigger] tokens[i]@),
    ensures
        rendered(outcome) == substitute_spec(line@, texts(tokens@), *json),
{
    let mut result: String = line.to_owned();
    let mut i: usize = 0;
    assert(texts(tokens@).skip(0) =~= texts(tokens@));
    while i < tokens.len()
        invariant
            i <= tokens.len(),
            forall|j: int| 0 <= j < tokens.len() ==> is_wrapped(#[trigger] tokens[j]@),
            substitute_spec(line@, texts(tokens@), *json) == substitute_spec(
                result@,
                texts(tokens@).skip(i as int),
                *json,
            ),
        decreases tokens.len() - i,
    {
        let ghost rest = texts(tokens@).skip(i as int);
        assert(rest[0] == tokens[i as int]@);
        assert(rest.skip(1) =~= texts(tokens@).skip(i + 1));
        let key = strip_prefix_suffix(tokens[i].clone());
        match string_field(json, key.as_str()) {
            Some(value) => {
                result = replace(result.as_str(), tokens[i].as_str(), value.as_str());
            },
            None => {
                return Err(MissingKey { key });
            },
        }
        i += 1;
    }
    Ok(result)
}

/// Replaces every placeholder of the line `s` by the string that `json` holds
/// under the placeholder's name. A placeholder whose name is no string field
/// of `json` ends the rendering with that name. What is taken for a
/// placeholder has the form of one and stands in the line.
pub fn get_replaced_str(s: &str, json: &Value) -> (outcome: Result<String, MissingKey>)
    ensures
        rendered(outcome) == resolve(s@, *json),
        placeholders_fit(s@),
{
    match find_matches(PLACEHOLDER_PATTERN, s) {
        Some(tokens) => {
            assert forall|i: int| 0 <= i < placeholders(s@).len() implies is_placeholder(
                #[trigger] placeholders(s@)[i],
            ) && occurs(s@, placeholders(s@)[i]) by {
                assert(placeholders(s@)[i] == tokens[i]@);
            }
            substitute(s, &tokens, json)
        },
        None => unreached(),
    }
}

/// The body that the first `n` of the template's lines render to: each line
/// resolved against `json` and written behind a line feed, so that the body
/// begins with one. The first line that cannot be resolved ends the rendering
/// with the name that the record lacks.
pub open spec fn body_prefix(template: Seq<Seq<char>>, json: Value, n: int) -> Result<Seq<char>, Seq<char>>
    decreases n,
{
    if n <= 0 {
        Ok(Seq::empty())
    } else {
        match body_prefix(template, json, n - 1) {
            Ok(head) => match resolve(template[n - 1], json) {
                Ok(line) => Ok(head + seq!['\n'] + line),
                Err(key) => Err(key),
            },
            Err(key) => Err(key),
        }
    }
}

/// The body that the whole template renders to for the record `json`.
pub open spec fn body_text(template: Seq<Seq<char>>, json: Value) -> Result<Seq<char>, Seq<char>> {
    body_prefix(template, json, template.len() as int)
}

/// What rendering a list of bodies ends in, as text.
pub open spec fn bodies_view(outcome: Result<Vec<String>, BuildError>) -> Result<Seq<Seq<char>>, Failure> {
    match outcome {
        Ok(bodies) => Ok(texts(bodies@)),
        Err(error) => Err(error@),
    }
}

/// `outcome` is what rendering the template once for each record ends in: one
/// body per record, in the records' order, or the position of the first
/// record that lacks a key, with that key.
pub open spec fn is_bodies_outcome(
    template: Seq<Seq<char>>,
    records: Seq<Value>,
    outcome: Result<Seq<Seq<char>>, Failure>,
) -> bool {
    match outcome {
        Ok(bodies) => {
            &&& bodies.len() == records.len()
            &&& forall|i: int|
                0 <= i < records.len() ==> body_text(template, #[trigger] records[i]) == Ok::<
                    Seq<char>,
                    Seq<char>,
                >(bodies[i])
        },
        Err(Failure::MissingKey { record, key }) => {
            &&& 0 <= record < records.len()
            &&& body_text(template, records[record]) == Err::<Seq<char>, Seq<char>>(key)
            &&& forall|i: int| 0 <= i < record ==> (#[trigger] body_text(template, records[i])).is_ok()
        },
        Err(_) => false,
    }
}

/// Renders the template's lines for one record.
pub fn render_body(template: &Vec<String>, json: &Value) -> (outcome: Result<String, MissingKey>)
    ensures
        rendered(outcome) == body_text(texts(template@), *json),
{
    let mut body: String = String::new();
    let mut i: usize = 0;
    while i < template.len()
        invariant
            i <= template.len(),
            body_prefix(texts(template@), *json, i as int) == Ok::<Seq<char>, Seq<char>>(body@),
        decreases template.len() - i,
    {
        proof {
            reveal_strlit("\n");
        }
        match get_replaced_str(template[i].as_str(), json) {
            Ok(line) => {
                body.append("\n");
                body.append(line.as_str());
                assert("\n"@ =~= seq!['\n']);
            },
            Err(missing) => {
                proof {
                    lemma_body_prefix_fails(texts(template@), *json, i as int + 1, template.len() as int);
                }
                return Err(missing);
            },
        }
        i += 1;
    }
    Ok(body)
}

/// Once a prefix of the template fails to render, every longer prefix fails
/// with the same key.
pub proof fn lemma_body_prefix_fails(template: Seq<Seq<char>>, json: Value, n: int, m: int)
    requires
        0 <= n <= m,
        body_prefix(template, json, n).is_err(),
    ensures
        body_prefix(template, json, m) == body_prefix(template, json, n),
    decreases m - n,
{
    if n < m {
        lemma_body_prefix_fails(template, json, n, m - 1);
    }
}

/// Renders the template `contents` once for each record: every line with its
/// placeholders resolved against the record, each line written behind a line
/// feed.
pub fn get_bodies(contents: String, json_bodies: Vec<Value>) -> (outcome: Result<Vec<String>, BuildError>)
    ensures
        is_bodies_outcome(split_lines(contents@), json_bodies@, bodies_view(outcome)),
{
    let template = lines(contents.as_str());
    let mut bodies: Vec<String> = Vec::new();
    let mut i: usize = 0;
    while i < json_bodies.len()
        invariant
            i <= json_bodies.len(),
            bodies.len() == i,
            texts(template@) == split_lines(contents@),
            forall|j: int|
                0 <= j < i ==> body_text(texts(template@), #[trigger] json_bodies[j]) == Ok::<
                    Seq<char>,
                    Seq<char>,
                >(bodies[j]@),
        decreases json_bodies.len() - i,
    {
        match render_body(&template, &json_bodies[i]) {
            Ok(body) => {
                bodies.push(body);
            },
            Err(missing) => {
                return Err(BuildError::MissingKey { record: i, key: missing.key });
            },
        }
        i += 1;
    }
    Ok(bodies)
}

/// The header that the recipient at position `i` gets.
pub open spec fn header_for(recipients: Seq<String>, from: Seq<char>, subject: Seq<char>, i: int) -> HeaderText {
    HeaderText { from, recipient: recipients[i]@, subject }
}

/// One header per recipient, in the recipients' order; sender and subject are
/// copied into each unchanged.
pub fn get_headers(recipients: Vec<String>, from: String, subject: String) -> (headers: Vec<Header>)
    ensures
        headers.len() == recipients.len(),
        forall|i: int| 0 <= i < recipients.len() ==> #[trigger] headers[i]@ == header_for(recipients@, from@, subject@, i),
{
    let mut headers: Vec<Header> = Vec::new();
    let mut i: usize = 0;
    while i < recipients.len()
        invariant
            i <= recipients.len(),
            headers.len() == i,
            forall|j: int| 0 <= j < i ==> #[trigger] headers[j]@ == header_for(recipients@, from@, subject@, j),
        decreases recipients.len() - i,
    {
        let header = Header::create(from.clone(), recipients[i].clone(), subject.clone());
        headers.push(header);
        i += 1;
    }
    headers
}

/// What each header of a sequence holds, as text.
pub open spec fn header_texts(headers: Seq<Header>) -> Seq<HeaderText> {
    Seq::new(headers.len(), |i: int| headers[i]@)
}

/// What each record of a sequence holds, as text.
pub open spec fn record_texts(records: Seq<MessageRecord>) -> Seq<MessageText> {
    Seq::new(records.len(), |i: int| records[i]@)
}

/// What pairing headers with bodies ends in, as text.
pub open spec fn records_view(outcome: Result<Vec<MessageRecord>, BuildError>) -> Result<Seq<MessageText>, Failure> {
    match outcome {
        Ok(records) => Ok(record_texts(records@)),
        Err(error) => Err(error@),
    }
}

/// The records that pair each body with the header at the same position, or
/// the mismatch where a body has no header.
pub open spec fn paired(headers: Seq<HeaderText>, bodies: Seq<Seq<char>>) -> Result<Seq<MessageText>, Failure> {
    if headers.len() < bodies.len() {
        Err(Failure::IndexMismatch { headers: headers.len() as int, bodies: bodies.len() as int })
    } else {
        Ok(Seq::new(bodies.len(), |i: int| MessageText { header: headers[i], body: bodies[i] }))
    }
}

/// Pairs each body with the header at the same position. Headers beyond the
/// last body are left out; a body without a header is an error.
pub fn assemble(headers: Vec<Header>, bodies: Vec<String>) -> (outcome: Result<Vec<MessageRecord>, BuildError>)
    ensures
        records_view(outcome) == paired(header_texts(headers@), texts(bodies@)),
        outcome matches Ok(records) ==> records.len() == bodies.len() && forall|i: int|
            0 <= i < bodies.len() ==> #[trigger] records[i]@ == (MessageText {
                header: headers[i]@,
                body: bodies[i]@,
            }),
{
    if headers.len() < bodies.len() {
        return Err(BuildError::IndexMismatch { headers: headers.len(), bodies: bodies.len() });
    }
    let mut records: Vec<MessageRecord> = Vec::new();
    let mut i: usize = 0;
    while i < bodies.len()
        invariant
            i <= bodies.len() <= headers.len(),
            records.len() == i,
            forall|j: int|
                0 <= j < i ==> #[trigger] records[j]@ == (MessageText { header: headers[j]@, body: bodies[j]@ }),
        decreases bodies.len() - i,
    {
        let header = Header::create(
            headers[i].from.clone(),
            headers[i].recipient.clone(),
            headers[i].subject.clone(),
        );
        records.push(MessageRecord { header, body: bodies[i].clone() });
        i += 1;
    }
    assert(record_texts(records@) =~= Seq::new(
        texts(bodies@).len(),
        |i: int| MessageText { header: header_texts(headers@)[i], body: texts(bodies@)[i] },
    ));
    Ok(records)
}

/// `text` is a mail address: the mail library reads it as a mailbox, and the
/// display name of that mailbox, if it has one, holds no line break.
pub open spec fn is_address(text: Seq<char>) -> bool {
    parsed_mailbox(text) matches Some(mailbox) && is_writable(mailbox)
}

/// `message` carries the record: sender and recipient as the mailboxes that
/// they are read as, written out; the subject as it stands; the body as the
/// mail library encodes it.
pub open spec fn carries(message: Message, record: MessageText) -> bool {
    &&& header_text(message, "From"@) == Some(mailbox_text(parsed_mailbox(record.header.from).unwrap()))
    &&& header_text(message, "To"@) == Some(mailbox_text(parsed_mailbox(record.header.recipient).unwrap()))
    &&& header_text(message, "Subject"@) == Some(record.header.subject)
    &&& message_body(message) == encoded_body(record.body)
}

/// Why the header at position `index` gives no message, if it gives none:
/// the sender is no mail address; else the recipient is none; else the mail
/// library accepts no message from the one to the other.
pub open spec fn message_failure(header: HeaderText, index: int) -> Option<Failure> {
    if !is_address(header.from) {
        Some(Failure::AddressFormat { index, field: AddressField::From })
    } else if !is_address(header.recipient) {
        Some(Failure::AddressFormat { index, field: AddressField::Recipient })
    } else if !mail_accepts(parsed_mailbox(header.from).unwrap(), parsed_mailbox(header.recipient).unwrap()) {
        Some(Failure::Rejected { index })
    } else {
        None
    }
}

/// Whether `text` holds a line feed or a carriage return.
pub fn has_line_break(text: &str) -> (found: bool)
    ensures
        found == !is_single_line(text@),
{
    let length: usize = text.unicode_len();
    let mut i: usize = 0;
    while i < length
        invariant
            i <= length,
            length == text@.len(),
            forall|j: int| 0 <= j < i ==> text@[j] != '\n' && text@[j] != '\r',
        decreases length - i,
    {
        let c = text.get_char(i);
        if c == '\n' || c == '\r' {
            return true;
        }
        i += 1;
    }
    false
}

/// The mailbox that was read, if one was read and the mail library can write
/// it out; else the error that names the field at fault.
pub fn checked_address(parsed: Result<Mailbox, AddressError>, index: usize, field: AddressField) -> (outcome: Result<
    Mailbox,
    BuildError,
>)
    ensures
        match outcome {
            Ok(mailbox) => parsed == Ok::<Mailbox, AddressError>(mailbox) && is_writable(mailbox),
            Err(error) => {
                &&& error@ == (Failure::AddressFormat { index: index as int, field })
                &&& parsed matches Ok(mailbox) ==> !is_writable(mailbox)
            },
        },
{
    match parsed {
        Ok(mailbox) => {
            let plain = match display_name(&mailbox) {
                Some(name) => !has_line_break(name.as_str()),
                None => true,
            };
            if plain {
                Ok(mailbox)
            } else {
                Err(BuildError::AddressFormat { index, field })
            }
        },
        Err(_) => Err(BuildError::AddressFormat { index, field }),
    }
}

/// The address `text` as a message carries it in its header: the mailbox that
/// `text` is read as, written out. `None` where `text` is no mail address.
pub fn written_address(text: &str) -> (written: Option<String>)
    ensures
        match written {
            Some(address) => is_address(text@) && address@ == mailbox_text(parsed_mailbox(text@).unwrap()),
            None => !is_address(text@),
        },
{
    match checked_address(parse_mailbox(text), 0, AddressField::From) {
        Ok(mailbox) => Some(write_mailbox(&mailbox)),
        Err(_) => None,
    }
}

/// The message that was built, or the error that names its position.
pub fn checked_message(built: Result<Message, lettre::error::Error>, index: usize) -> (outcome: Result<
    Message,
    BuildError,
>)
    ensures
        match outcome {
            Ok(message) => built == Ok::<Message, lettre::error::Error>(message),
            Err(error) => built.is_err() && error@ == (Failure::Rejected { index: index as int }),
        },
{
    match built {
        Ok(message) => Ok(message),
        Err(_) => Err(BuildError::Rejected { index }),
    }
}

/// `outcome` is what turning the record at position `index` into a mail
/// message ends in: the failure of its header, if the header gives no
/// message; else a message that carries the record.
pub open spec fn is_message_outcome(record: MessageText, index: int, outcome: Result<Message, Failure>) -> bool {
    match message_failure(record.header, index) {
        Some(failure) => outcome == Err::<Message, Failure>(failure),
        None => outcome matches Ok(message) && carries(message, record),
    }
}

/// What building one message ends in, with the error as text and numbers.
pub open spec fn message_view(outcome: Result<Message, BuildError>) -> Result<Message, Failure> {
    match outcome {
        Ok(message) => Ok(message),
        Err(error) => Err(error@),
    }
}

/// Turns one record, which stands at position `index`, into a mail message.
pub fn compose_message(record: &MessageRecord, index: usize) -> (outcome: Result<Message, BuildError>)
    ensures
        is_message_outcome(record@, index as int, message_view(outcome)),
{
    let from = match checked_address(parse_mailbox(record.header.from.as_str()), index, AddressField::From) {
        Ok(mailbox) => mailbox,
        Err(error) => {
            return Err(error);
        },
    };
    let to = match checked_address(
        parse_mailbox(record.header.recipient.as_str()),
        index,
        AddressField::Recipient,
    ) {
        Ok(mailbox) => mailbox,
        Err(error) => {
            return Err(error);
        },
    };
    checked_message(compose(from, to, record.header.subject.as_str(), record.body.as_str()), index)
}

/// The header fields of a message, as the mail library holds them unencoded;
/// `None` where the message lacks one of the three.
pub fn read_header(message: &Message) -> (found: Option<Header>)
    ensures
        match found {
            Some(header) => {
                &&& header_text(*message, "From"@) == Some(header.from@)
                &&& header_text(*message, "To"@) == Some(header.recipient@)
                &&& header_text(*message, "Subject"@) == Some(header.subject@)
            },
            None => {
                ||| header_text(*message, "From"@).is_none()
                ||| header_text(*message, "To"@).is_none()
                ||| header_text(*message, "Subject"@).is_none()
            },
        },
{
    match (raw_header(message, "From"), raw_header(message, "To"), raw_header(message, "Subject")) {
        (Some(from), Some(recipient), Some(subject)) => Some(Header::create(from, recipient, subject)),
        _ => None,
    }
}

/// The position of the message at which a build failed with `failure`; -1
/// for a failure that belongs to no message.
pub open spec fn failed_at(failure: Failure) -> int {
    match failure {
        Failure::AddressFormat { index, .. } => index,
        Failure::Rejected { index } => index,
        _ => -1,
    }
}

/// What building all messages ends in, with the error as text and numbers.
pub open spec fn emails_view(outcome: Result<Vec<Message>, BuildError>) -> Result<Seq<Message>, Failure> {
    match outcome {
        Ok(messages) => Ok(messages@),
        Err(error) => Err(error@),
    }
}

/// There is a header for each of `n` bodies, and each of these headers gives
/// a message.
pub open spec fn all_accepted(headers: Seq<HeaderText>, n: int) -> bool {
    &&& headers.len() >= n
    &&& forall|i: int| 0 <= i < n ==> (#[trigger] message_failure(headers[i], i)).is_none()
}

/// `outcome` is what turning headers and bodies into mail messages ends in.
/// A body without a header is a mismatch. Else the messages are built in
/// order, and the first header that gives no message ends the build with its
/// failure. Where there is none, there is one message for each body, which
/// carries the body and the header at the body's position.
pub open spec fn is_emails_outcome(headers: Seq<HeaderText>, bodies: Seq<Seq<char>>, outcome: Result<
    Seq<Message>,
    Failure,
>) -> bool {
    match paired(headers, bodies) {
        Err(mismatch) => outcome == Err::<Seq<Message>, Failure>(mismatch),
        Ok(records) => match outcome {
            Ok(messages) => {
                &&& messages.len() == records.len()
                &&& all_accepted(headers, bodies.len() as int)
                &&& forall|i: int| 0 <= i < records.len() ==> carries(#[trigger] messages[i], records[i])
            },
            Err(failure) => {
                let index = failed_at(failure);
                &&& 0 <= index < records.len()
                &&& message_failure(headers[index], index) == Some(failure)
                &&& all_accepted(headers, index)
            },
        },
    }
}

/// Builds one mail message for each body, from the header at the same
/// position.
pub fn generate_emails(headers: Vec<Header>, bodies: Vec<String>) -> (outcome: Result<Vec<Message>, BuildError>)
    ensures
        is_emails_outcome(header_texts(headers@), texts(bodies@), emails_view(outcome)),
        outcome.is_ok() == all_accepted(header_texts(headers@), bodies.len() as int),
        bodies.len() == 0 ==> (outcome matches Ok(messages) && messages.len() == 0),
{
    let ghost wanted = header_texts(headers@);
    let ghost count = bodies.len() as int;
    let records = match assemble(headers, bodies) {
        Ok(records) => records,
        Err(error) => {
            return Err(error);
        },
    };
    let mut emails: Vec<Message> = Vec::new();
    let mut i: usize = 0;
    while i < records.len()
        invariant
            i <= records.len(),
            wanted == header_texts(headers@),
            count == bodies.len(),
            records.len() == count,
            wanted.len() >= count,
            emails.len() == i,
            paired(wanted, texts(bodies@)) == Ok::<Seq<MessageText>, Failure>(record_texts(records@)),
            forall|j: int| 0 <= j < count ==> (#[trigger] records[j]@).header == wanted[j],
            all_accepted(wanted, i as int),
            forall|j: int| 0 <= j < i ==> carries(#[trigger] emails[j], records[j]@),
        decreases records.len() - i,
    {
        match compose_message(&records[i], i) {
            Ok(message) => {
                emails.push(message);
            },
            Err(error) => {
                assert(message_failure(wanted[i as int], i as int) == Some(error@));
                return Err(error);
            },
        }
        assert(message_failure(wanted[i as int], i as int).is_none());
        i += 1;
    }
    assert forall|j: int| 0 <= j < records.len() implies carries(
        #[trigger] emails@[j],
        record_texts(records@)[j],
    ) by {
        assert(carries(emails[j], records[j]@));
    }
    Ok(emails)
}

/// The headers that a shared header expands to: one for each recipient.
pub open spec fn expanded(header: JsonHeader) -> Seq<HeaderText> {
    Seq::new(
        header.recipients.len() as nat,
        |i: int| header_for(header.recipients@, header.from@, header.subject@, i),
    )
}

/// The template renders for every record.
pub open spec fn all_render(template: Seq<Seq<char>>, records: Seq<Value>) -> bool {
    forall|i: int| 0 <= i < records.len() ==> (#[trigger] body_text(template, records[i])).is_ok()
}

/// The body of each record, where the template renders for it.
pub open spec fn rendered_bodies(template: Seq<Seq<char>>, records: Seq<Value>) -> Seq<Seq<char>> {
    Seq::new(
        records.len(),
        |i: int|
            match body_text(template, records[i]) {
                Ok(body) => body,
                Err(_) => Seq::empty(),
            },
    )
}

/// `outcome` is what building the message records ends in: the first record
/// that lacks a key is reported; where there is none, each rendered body is
/// paired with the header at its position.
pub open spec fn is_records_outcome(
    template: Seq<Seq<char>>,
    headers: Seq<HeaderText>,
    records: Seq<Value>,
    outcome: Result<Seq<MessageText>, Failure>,
) -> bool {
    if all_render(template, records) {
        outcome == paired(headers, rendered_bodies(template, records))
    } else {
        outcome matches Err(failure) && is_bodies_outcome(template, records, Err(failure))
    }
}

/// `outcome` is what building the mail messages ends in: the first record
/// that lacks a key is reported; where there is none, the rendered bodies
/// and the headers are turned into messages.
pub open spec fn is_build_outcome(
    template: Seq<Seq<char>>,
    headers: Seq<HeaderText>,
    records: Seq<Value>,
    outcome: Result<Seq<Message>, Failure>,
) -> bool {
    if all_render(template, records) {
        is_emails_outcome(headers, rendered_bodies(template, records), outcome)
    } else {
        outcome matches Err(failure) && is_bodies_outcome(template, records, Err(failure))
    }
}

/// Bodies that are an outcome of rendering are the rendered bodies.
pub proof fn lemma_bodies_outcome(template: Seq<Seq<char>>, records: Seq<Value>, outcome: Result<
    Seq<Seq<char>>,
    Failure,
>)
    requires
        is_bodies_outcome(template, records, outcome),
    ensures
        outcome.is_ok() == all_render(template, records),
        outcome matches Ok(bodies) ==> bodies == rendered_bodies(template, records),
{
    match outcome {
        Ok(bodies) => {
            assert forall|i: int| 0 <= i < records.len() implies (#[trigger] body_text(
                template,
                records[i],
            )).is_ok() by {
                assert(body_text(template, records[i]) == Ok::<Seq<char>, Seq<char>>(bodies[i]));
            }
            assert(bodies =~= rendered_bodies(template, records));
        },
        Err(Failure::MissingKey { record, key }) => {
            assert(body_text(template, records[record]).is_err());
        },
        Err(_) => {},
    }
}

/// Expands the header of the data and renders the template `contents` for
/// each of its records.
fn expand_and_render(contents: String, json_data: JsonData) -> (outcome: Result<(Vec<Header>, Vec<String>), BuildError>)
    ensures
        match outcome {
            Ok((headers, bodies)) => {
                &&& all_render(split_lines(contents@), json_data.bodies@)
                &&& header_texts(headers@) == expanded(json_data.header)
                &&& texts(bodies@) == rendered_bodies(split_lines(contents@), json_data.bodies@)
                &&& bodies.len() == json_data.bodies.len()
            },
            Err(error) => {
                &&& !all_render(split_lines(contents@), json_data.bodies@)
                &&& is_bodies_outcome(split_lines(contents@), json_data.bodies@, Err(error@))
            },
        },
{
    let ghost wanted = expanded(json_data.header);
    let ghost template = split_lines(contents@);
    let ghost records = json_data.bodies@;
    let header = json_data.header;
    let headers = get_headers(header.recipients, header.from, header.subject);
    assert(header_texts(headers@) =~= wanted);
    let rendering = get_bodies(contents, json_data.bodies);
    proof {
        lemma_bodies_outcome(template, records, bodies_view(rendering));
    }
    match rendering {
        Ok(bodies) => Ok((headers, bodies)),
        Err(error) => Err(error),
    }
}

/// Renders the template `contents` for each record of the data and pairs each
/// body with the header of the recipient at the same position.
pub fn build_records(contents: String, json_data: JsonData) -> (outcome: Result<Vec<MessageRecord>, BuildError>)
    ensures
        is_records_outcome(
            split_lines(contents@),
            expanded(json_data.header),
            json_data.bodies@,
            records_view(outcome),
        ),
        json_data.bodies.len() == 0 ==> (outcome matches Ok(records) && records.len() == 0),
{
    match expand_and_render(contents, json_data) {
        Ok((headers, bodies)) => assemble(headers, bodies),
        Err(error) => Err(error),
    }
}

/// Renders the template `contents` for each record of the data and builds one
/// mail message for each body, from the header of the recipient at the same
/// position.
pub fn build_emails(contents: String, json_data: JsonData) -> (outcome: Result<Vec<Message>, BuildError>)
    ensures
        is_build_outcome(
            split_lines(contents@),
            expanded(json_data.header),
            json_data.bodies@,
            emails_view(outcome),
        ),
        outcome.is_ok() == (all_render(split_lines(contents@), json_data.bodies@) && all_accepted(
            expanded(json_data.header),
            json_data.bodies.len() as int,
        )),
        json_data.bodies.len() == 0 ==> (outcome matches Ok(messages) && messages.len() == 0),
{
    match expand_and_render(contents, json_data) {
        Ok((headers, bodies)) => generate_emails(headers, bodies),
        Err(error) => Err(error),
    }
}

} // verus!
