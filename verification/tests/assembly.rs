use email_template::utils::{
    assemble, build_emails, build_records, checked_address, checked_message, compose_message, generate_emails,
    get_bodies, get_headers, has_line_break, read_header, written_address,
};
use lettre::message::{Body, Mailbox};
use email_template::{AddressField, BuildError, EmailMessage, Header, JsonData, JsonHeader, MessageRecord};
use serde_json::Value;

fn record(fields: &[(&str, &str)]) -> Value {
    let mut map = serde_json::Map::new();
    for (key, value) in fields {
        map.insert(String::from(*key), Value::String(String::from(*value)));
    }
    Value::Object(map)
}

fn two_headers() -> Vec<Header> {
    get_headers(
        vec![String::from("someone1 <someone1@gmail.com>"), String::from("someone2 <someone2@gmail.com>")],
        String::from("me <abc@gmail.com>"),
        String::from("hello"),
    )
}

fn data(recipients: &[&str], bodies: Vec<Value>) -> JsonData {
    JsonData {
        header: JsonHeader {
            from: String::from("me <m@x.com>"),
            recipients: recipients.iter().map(|r| String::from(*r)).collect(),
            subject: String::from("hi"),
        },
        bodies,
    }
}

#[test]
fn get_header_formats() {
    let from = "me <abc@gmail.com>";
    let subject = "hello";
    let someone1 = "someone1 <someone1@gmail.com>";
    let someone2 = "someone2 <someone2@gmail.com>";
    let recipients = vec![String::from(someone1), String::from(someone2)];
    let headers = get_headers(recipients.clone(), String::from(from), String::from(subject));
    assert_eq!(headers.len(), 2);
    for (i, header) in headers.iter().enumerate() {
        assert_eq!(header.from, from);
        assert_eq!(header.subject, subject);
        assert_eq!(header.recipient, *recipients.get(i).unwrap());
    }
}

#[test]
fn header_for_each_recipient_in_order() {
    let recipients = vec![String::from("a@x.com"), String::from("b@x.com")];
    let headers = get_headers(recipients, String::from("me <m@x.com>"), String::from("hi"));
    assert_eq!(headers.len(), 2);
    assert_eq!(headers[0].recipient, "a@x.com");
    assert_eq!(headers[1].from, "me <m@x.com>");
    assert_eq!(headers[1].recipient, "b@x.com");
    assert_eq!(headers[1].subject, "hi");
}

#[test]
fn header_fields_are_not_rendered() {
    let headers = get_headers(vec![String::from("{name}")], String::from("{from}"), String::from("{subject}"));
    assert_eq!(headers[0].from, "{from}");
    assert_eq!(headers[0].recipient, "{name}");
    assert_eq!(headers[0].subject, "{subject}");
}

#[test]
fn no_recipients_give_no_headers() {
    assert!(get_headers(Vec::new(), String::from("me <m@x.com>"), String::from("hi")).is_empty());
}

#[test]
fn header_create_keeps_the_fields() {
    let header = Header::create(String::from("f"), String::from("r"), String::from("s"));
    assert_eq!(header.from, "f");
    assert_eq!(header.recipient, "r");
    assert_eq!(header.subject, "s");
}

#[test]
fn email_message_keeps_the_paths() {
    let message = EmailMessage::create("./examples/email.txt", "./examples/data.json");
    assert_eq!(message.email_path(), "./examples/email.txt");
    assert_eq!(message.json_path(), "./examples/data.json");
}

#[test]
fn bodies_are_paired_by_position() {
    let bodies = vec![String::from("\none"), String::from("\ntwo")];
    let records = assemble(two_headers(), bodies).unwrap();
    assert_eq!(records.len(), 2);
    assert_eq!(records[0].header.recipient, "someone1 <someone1@gmail.com>");
    assert_eq!(records[0].body, "\none");
    assert_eq!(records[1].header.from, "me <abc@gmail.com>");
    assert_eq!(records[1].header.recipient, "someone2 <someone2@gmail.com>");
    assert_eq!(records[1].header.subject, "hello");
    assert_eq!(records[1].body, "\ntwo");
}

#[test]
fn headers_beyond_the_last_body_are_left_out() {
    let records = assemble(two_headers(), vec![String::from("only")]).unwrap();
    assert_eq!(records.len(), 1);
    assert_eq!(records[0].header.recipient, "someone1 <someone1@gmail.com>");
    assert_eq!(records[0].body, "only");
}

#[test]
fn body_without_header_is_a_mismatch() {
    let bodies = vec![String::from("a"), String::from("b"), String::from("c")];
    match assemble(two_headers(), bodies.clone()).unwrap_err() {
        BuildError::IndexMismatch { headers, bodies } => {
            assert_eq!(headers, 2);
            assert_eq!(bodies, 3);
        }
        other => panic!("{:?}", other),
    }
    assert!(matches!(
        generate_emails(two_headers(), bodies).unwrap_err(),
        BuildError::IndexMismatch { headers: 2, bodies: 3 }
    ));
}

#[test]
fn nothing_in_nothing_out() {
    assert!(assemble(Vec::new(), Vec::new()).unwrap().is_empty());
    assert!(assemble(two_headers(), Vec::new()).unwrap().is_empty());
    assert!(generate_emails(Vec::new(), Vec::new()).unwrap().is_empty());
    assert!(generate_emails(two_headers(), Vec::new()).unwrap().is_empty());
    assert!(build_records(String::from("Hello, {name}."), data(&[], Vec::new())).unwrap().is_empty());
    assert!(build_emails(String::from("Hello, {name}."), data(&[], Vec::new())).unwrap().is_empty());
}

#[test]
fn get_email_formats() {
    let from = "me <abc@gmail.com>";
    let subject = "hello";
    let someone1 = "someone1 <someone1@gmail.com>";
    let someone2 = "someone2 <someone2@gmail.com>";
    let recipients = vec![String::from(someone1), String::from(someone2)];
    let headers = get_headers(recipients.clone(), String::from(from), String::from(subject));

    let contents = String::from("Hello, {name}.\nI am so {feeling}.");
    let json1 = record(&[("name", "buddy"), ("feeling", "great")]);
    let json2 = record(&[("name", "mate"), ("feeling", "happy")]);
    let json_bodies = vec![json1, json2];
    let bodies = get_bodies(contents, json_bodies).unwrap();

    let emails = generate_emails(headers.clone(), bodies).unwrap();
    assert_eq!(emails.len(), 2);
    for (i, email) in emails.iter().enumerate() {
        let header = headers.get(i).unwrap();
        assert_eq!(email.headers().get_raw("From").unwrap(), header.from);
        assert_eq!(email.headers().get_raw("To").unwrap(), header.recipient);
        assert_eq!(email.headers().get_raw("Subject").unwrap(), header.subject);
    }
}

#[test]
fn message_holds_the_rendered_body() {
    let bodies = vec![String::from("\nHello, buddy.")];
    let emails = generate_emails(two_headers(), bodies).unwrap();
    let wire = String::from_utf8(emails[0].formatted()).unwrap();
    assert!(wire.ends_with("\r\n\r\n\r\nHello, buddy."), "{:?}", wire);
    assert!(wire.contains("To: someone1 <someone1@gmail.com>\r\n"));
}

#[test]
fn address_is_written_as_the_mailbox_it_is_read_as() {
    let record = MessageRecord {
        header: Header::create(
            String::from("  Me   <m@x.com>"),
            String::from("<b@x.com>"),
            String::from("hi"),
        ),
        body: String::from("text"),
    };
    let email = compose_message(&record, 0).unwrap();
    assert_eq!(email.headers().get_raw("From").unwrap(), "Me <m@x.com>");
    assert_eq!(email.headers().get_raw("To").unwrap(), "b@x.com");
    assert_eq!(email.headers().get_raw("Subject").unwrap(), "hi");
}

#[test]
fn sender_that_is_no_address_is_reported() {
    let headers = get_headers(vec![String::from("a@x.com")], String::from("nobody"), String::from("hi"));
    match generate_emails(headers, vec![String::from("text")]).unwrap_err() {
        BuildError::AddressFormat { index, field } => {
            assert_eq!(index, 0);
            assert_eq!(field, AddressField::From);
        }
        other => panic!("{:?}", other),
    }
}

#[test]
fn first_recipient_that_is_no_address_is_reported() {
    let recipients = vec![String::from("a@x.com"), String::from("b <b@x.com"), String::from("c")];
    let headers = get_headers(recipients, String::from("me <m@x.com>"), String::from("hi"));
    let bodies = vec![String::from("1"), String::from("2"), String::from("3")];
    match generate_emails(headers, bodies).unwrap_err() {
        BuildError::AddressFormat { index, field } => {
            assert_eq!(index, 1);
            assert_eq!(field, AddressField::Recipient);
        }
        other => panic!("{:?}", other),
    }
}

#[test]
fn bad_address_beyond_the_last_body_is_not_read() {
    let recipients = vec![String::from("a@x.com"), String::from("nobody")];
    let headers = get_headers(recipients, String::from("me <m@x.com>"), String::from("hi"));
    let emails = generate_emails(headers, vec![String::from("1")]).unwrap();
    assert_eq!(emails.len(), 1);
}

#[test]
fn build_pairs_rendered_bodies_with_recipients() {
    let bodies = vec![
        record(&[("name", "buddy"), ("feeling", "great")]),
        record(&[("name", "mate"), ("feeling", "happy")]),
    ];
    let contents = String::from("Hello, {name}.\nI am so {feeling}.");
    let records = build_records(contents.clone(), data(&["a@x.com", "b@x.com"], bodies.clone())).unwrap();
    assert_eq!(records.len(), 2);
    assert_eq!(records[0].header.recipient, "a@x.com");
    assert_eq!(records[0].body, "\nHello, buddy.\nI am so great.");
    assert_eq!(records[1].header.from, "me <m@x.com>");
    assert_eq!(records[1].header.recipient, "b@x.com");
    assert_eq!(records[1].header.subject, "hi");
    assert_eq!(records[1].body, "\nHello, mate.\nI am so happy.");

    let emails = build_emails(contents, data(&["a@x.com", "b@x.com"], bodies)).unwrap();
    assert_eq!(emails.len(), 2);
    assert_eq!(emails[1].headers().get_raw("To").unwrap(), "b@x.com");
    assert_eq!(emails[1].headers().get_raw("From").unwrap(), "me <m@x.com>");
}

#[test]
fn build_twice_gives_the_same_records() {
    let bodies = vec![record(&[("name", "buddy")]), record(&[("name", "mate")])];
    let contents = String::from("Hello, {name}.\n\nBye, {name}.\n");
    let first = build_records(contents.clone(), data(&["a@x.com", "b@x.com"], bodies.clone())).unwrap();
    let second = build_records(contents, data(&["a@x.com", "b@x.com"], bodies)).unwrap();
    assert_eq!(first.len(), second.len());
    for (one, other) in first.iter().zip(second.iter()) {
        assert_eq!(one.header.from, other.header.from);
        assert_eq!(one.header.recipient, other.header.recipient);
        assert_eq!(one.header.subject, other.header.subject);
        assert_eq!(one.body, other.body);
    }
    assert_eq!(first[1].body, "\nHello, mate.\n\nBye, mate.");
}

#[test]
fn missing_key_comes_before_a_mismatch() {
    let bodies = vec![record(&[("name", "buddy")]), record(&[])];
    let contents = String::from("Hello, {name}.");
    match build_records(contents.clone(), data(&["a@x.com"], bodies.clone())).unwrap_err() {
        BuildError::MissingKey { record, key } => {
            assert_eq!(record, 1);
            assert_eq!(key, "name");
        }
        other => panic!("{:?}", other),
    }
    assert!(matches!(
        build_emails(contents, data(&["nobody"], bodies)).unwrap_err(),
        BuildError::MissingKey { record: 1, .. }
    ));
}

#[test]
fn build_with_too_few_recipients_is_a_mismatch() {
    let bodies = vec![record(&[("name", "buddy")]), record(&[("name", "mate")])];
    let contents = String::from("Hello, {name}.");
    assert!(matches!(
        build_records(contents.clone(), data(&["a@x.com"], bodies.clone())).unwrap_err(),
        BuildError::IndexMismatch { headers: 1, bodies: 2 }
    ));
    assert!(matches!(
        build_emails(contents, data(&["a@x.com"], bodies)).unwrap_err(),
        BuildError::IndexMismatch { headers: 1, bodies: 2 }
    ));
}

#[test]
fn message_that_the_mail_library_refuses() {
    let headers = get_headers(vec![String::from("a@x.com")], String::from("a@b, c <x@y.z>"), String::from("hi"));
    let outcome = generate_emails(headers, vec![String::from("text")]);
    assert!(matches!(outcome, Err(BuildError::Rejected { index: 0 })), "{:?}", outcome);
}

#[test]
fn line_break_in_a_display_name_is_reported() {
    assert!("a\nb <x@y.com>".parse::<Mailbox>().is_ok());
    let headers = get_headers(vec![String::from("a@x.com")], String::from("a\nb <x@y.com>"), String::from("hi"));
    let outcome = generate_emails(headers, vec![String::from("text")]);
    assert!(
        matches!(outcome, Err(BuildError::AddressFormat { index: 0, field: AddressField::From })),
        "{:?}",
        outcome
    );

    let recipients = vec![String::from("a@x.com"), String::from("c\rd <b@x.com>")];
    let headers = get_headers(recipients, String::from("me <m@x.com>"), String::from("hi"));
    let outcome = generate_emails(headers, vec![String::from("1"), String::from("2")]);
    assert!(
        matches!(outcome, Err(BuildError::AddressFormat { index: 1, field: AddressField::Recipient })),
        "{:?}",
        outcome
    );

    let outcome = build_emails(
        String::from("Hello."),
        JsonData {
            header: JsonHeader {
                from: String::from("me <m@x.com>"),
                recipients: vec![String::from("first\nsecond <b@x.com>")],
                subject: String::from("hi"),
            },
            bodies: vec![record(&[])],
        },
    );
    assert!(
        matches!(outcome, Err(BuildError::AddressFormat { index: 0, field: AddressField::Recipient })),
        "{:?}",
        outcome
    );
}

#[test]
fn line_breaks_are_found() {
    assert!(!has_line_break(""));
    assert!(!has_line_break("a name with spaces\tand a tab"));
    assert!(has_line_break("\n"));
    assert!(has_line_break("ab\rcd"));
    assert!(has_line_break("äö\n"));
}

#[test]
fn checked_address_keeps_what_can_be_written() {
    let plain = checked_address("Me <m@x.com>".parse::<Mailbox>(), 3, AddressField::From).unwrap();
    assert_eq!(plain.to_string(), "Me <m@x.com>");
    let bare = checked_address("m@x.com".parse::<Mailbox>(), 3, AddressField::From).unwrap();
    assert_eq!(bare.to_string(), "m@x.com");
    assert!(matches!(
        checked_address("a\nb <m@x.com>".parse::<Mailbox>(), 3, AddressField::Recipient),
        Err(BuildError::AddressFormat { index: 3, field: AddressField::Recipient })
    ));
    assert!(matches!(
        checked_address("nobody".parse::<Mailbox>(), 4, AddressField::From),
        Err(BuildError::AddressFormat { index: 4, field: AddressField::From })
    ));
}

#[test]
fn checked_message_names_the_position() {
    let from = "m@x.com".parse::<Mailbox>().unwrap();
    let to = "b@x.com".parse::<Mailbox>().unwrap();
    let built = lettre::Message::builder().from(from).to(to).body(String::from("text"));
    assert!(checked_message(built, 2).is_ok());
    let refused = lettre::Message::builder().body(String::from("text"));
    assert!(matches!(checked_message(refused, 2), Err(BuildError::Rejected { index: 2 })));
}

#[test]
fn message_body_is_the_encoded_body() {
    let body = "\nHello, buddy.\nI am so great.";
    let emails = generate_emails(two_headers(), vec![String::from(body)]).unwrap();
    let wire = emails[0].formatted();
    let mut expected = b"\r\n\r\n".to_vec();
    expected.extend_from_slice(&Body::new(String::from(body)).into_vec());
    assert!(wire.ends_with(&expected), "{:?}", String::from_utf8_lossy(&wire));
    assert!(wire.ends_with(b"\r\n\r\n\r\nHello, buddy.\r\nI am so great."));
}

#[test]
fn header_is_read_back_from_a_message() {
    let headers = two_headers();
    let emails = generate_emails(headers.clone(), vec![String::from("a"), String::from("b")]).unwrap();
    for (i, email) in emails.iter().enumerate() {
        let found = read_header(email).unwrap();
        assert_eq!(found.from, headers[i].from);
        assert_eq!(found.recipient, headers[i].recipient);
        assert_eq!(found.subject, headers[i].subject);
    }
    let from = "m@x.com".parse::<Mailbox>().unwrap();
    let to = "b@x.com".parse::<Mailbox>().unwrap();
    let bare = lettre::Message::builder().from(from).to(to).body(String::from("text")).unwrap();
    assert!(read_header(&bare).is_none());
}

#[test]
fn written_address_is_what_the_message_carries() {
    assert_eq!(written_address("  Me   <m@x.com>").unwrap(), "Me <m@x.com>");
    assert_eq!(written_address("<b@x.com>").unwrap(), "b@x.com");
    assert_eq!(written_address("b@x.com").unwrap(), "b@x.com");
    assert_eq!(written_address("a, b <x@y.z>").unwrap(), "\"a, b\" <x@y.z>");
    assert!(written_address("nobody").is_none());
    assert!(written_address("a\nb <x@y.com>").is_none());

    let from = "  Me   <m@x.com>";
    let to = "<b@x.com>";
    let headers = get_headers(vec![String::from(to)], String::from(from), String::from("hi"));
    let emails = generate_emails(headers, vec![String::from("text")]).unwrap();
    let found = read_header(&emails[0]).unwrap();
    assert_eq!(found.from, written_address(from).unwrap());
    assert_eq!(found.recipient, written_address(to).unwrap());
    assert_eq!(found.subject, "hi");
}
