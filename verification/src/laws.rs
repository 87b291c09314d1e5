//! What holds of the renderer as a whole, proved from the definitions.

use vstd::prelude::*;
use serde_json::Value;
use lettre::Message;
use crate::{Failure, HeaderText, MessageText};
use crate::mail::{header_text, message_body};
use crate::json::json_string_field;
use crate::pattern::{is_letter, is_placeholder, placeholders, placeholders_fit, strip_braces};
use crate::text::{occurs, occurs_at, replace_all};
use crate::utils::{
    all_accepted, all_render, body_text, failed_at, is_bodies_outcome, is_build_outcome, is_emails_outcome,
    is_records_outcome, message_failure, paired, rendered_bodies, resolve, substitute_spec,
};

verus! {

/// Replacing a token changes nothing in a text in which it does not occur.
pub proof fn lemma_replace_without_occurrence(text: Seq<char>, token: Seq<char>, value: Seq<char>)
    requires
        !occurs(text, token),
    ensures
        replace_all(text, token, value) == text,
    decreases text.len(),
{
    if token.len() == 0 || text.len() < token.len() {
    } else {
        assert(!occurs_at(text, token, 0));
        let rest = text.skip(1);
        assert forall|at: int| !occurs_at(rest, token, at) by {
            if occurs_at(rest, token, at) {
                assert(rest.subrange(at, at + token.len()) =~= text.subrange(at + 1, at + 1 + token.len()));
                assert(occurs_at(text, token, at + 1));
            }
        }
        lemma_replace_without_occurrence(rest, token, value);
        assert(seq![text[0]] + rest =~= text);
    }
}

/// A placeholder that stands in a text is replaced by the value exactly
/// where it stands: what comes before it and what comes after it are
/// rewritten each on its own, as if the other were not there.
pub proof fn lemma_replace_at_token(before: Seq<char>, token: Seq<char>, after: Seq<char>, value: Seq<char>)
    requires
        is_placeholder(token),
    ensures
        replace_all(before + token + after, token, value) == replace_all(before, token, value) + value
            + replace_all(after, token, value),
    decreases before.len(),
{
    let text = before + token + after;
    let n = token.len() as int;
    if before.len() == 0 {
        assert(text.subrange(0, n) =~= token);
        assert(text.skip(n) =~= after);
        assert(replace_all(before, token, value) =~= Seq::<char>::empty());
        assert(Seq::<char>::empty() + value + replace_all(after, token, value) =~= value + replace_all(
            after,
            token,
            value,
        ));
    } else if text.subrange(0, n) == token {
        if before.len() < n {
            let k = before.len() as int;
            assert(text.subrange(0, n)[k] == text[k]);
            assert(text[k] == token[0]);
            assert(token[k] != '{');
        }
        assert(before.subrange(0, n) =~= text.subrange(0, n));
        let rest = before.skip(n);
        assert(text.skip(n) =~= rest + token + after);
        lemma_replace_at_token(rest, token, after, value);
        assert(value + (replace_all(rest, token, value) + value + replace_all(after, token, value)) =~= (value
            + replace_all(rest, token, value)) + value + replace_all(after, token, value));
    } else {
        let rest = before.skip(1);
        assert(text.skip(1) =~= rest + token + after);
        lemma_replace_at_token(rest, token, after, value);
        if before.len() >= n {
            assert(before.subrange(0, n) =~= text.subrange(0, n));
        } else {
            assert(seq![before[0]] + rest =~= before);
        }
        assert(text[0] == before[0]);
        assert(seq![before[0]] + (replace_all(rest, token, value) + value + replace_all(after, token, value))
            =~= (seq![before[0]] + replace_all(rest, token, value)) + value + replace_all(after, token, value));
    }
}

/// A line whose one placeholder names a string of the record renders to the
/// line with that string in the placeholder's place. Where the placeholder
/// occurs nowhere else in the line, the text around it is unchanged.
pub proof fn lemma_placeholder_replaced(
    before: Seq<char>,
    token: Seq<char>,
    after: Seq<char>,
    json: Value,
    value: Seq<char>,
)
    requires
        is_placeholder(token),
        json_string_field(json, strip_braces(token)) == Some(value),
    ensures
        substitute_spec(before + token + after, seq![token], json) == Ok::<Seq<char>, Seq<char>>(
            replace_all(before, token, value) + value + replace_all(after, token, value),
        ),
        !occurs(before, token) && !occurs(after, token) ==> substitute_spec(
            before + token + after,
            seq![token],
            json,
        ) == Ok::<Seq<char>, Seq<char>>(before + value + after),
{
    let line = before + token + after;
    let tokens = seq![token];
    assert(tokens[0] == token);
    assert(tokens.skip(1) =~= Seq::<Seq<char>>::empty());
    let replaced = replace_all(line, token, value);
    assert(substitute_spec(replaced, tokens.skip(1), json) == Ok::<Seq<char>, Seq<char>>(replaced));
    lemma_replace_at_token(before, token, after, value);
    if !occurs(before, token) && !occurs(after, token) {
        lemma_replace_without_occurrence(before, token, value);
        lemma_replace_without_occurrence(after, token, value);
    }
}

/// A line without an opening brace renders to itself, whatever the record
/// holds, since every placeholder of a line stands in it.
pub proof fn lemma_plain_line_unchanged(line: Seq<char>, json: Value)
    requires
        placeholders_fit(line),
        forall|i: int| 0 <= i < line.len() ==> line[i] != '{',
    ensures
        placeholders(line).len() == 0,
        resolve(line, json) == Ok::<Seq<char>, Seq<char>>(line),
{
    if placeholders(line).len() > 0 {
        let token = placeholders(line)[0];
        let at = choose|at: int| occurs_at(line, token, at);
        assert(line.subrange(at, at + token.len())[0] == line[at]);
    }
}

/// A build is a function of the template and the data: two builds from the
/// same template, headers and records end in the same message records, or in
/// the same failure.
pub proof fn lemma_build_repeats(
    template: Seq<Seq<char>>,
    headers: Seq<HeaderText>,
    records: Seq<Value>,
    first: Result<Seq<MessageText>, Failure>,
    second: Result<Seq<MessageText>, Failure>,
)
    requires
        is_records_outcome(template, headers, records, first),
        is_records_outcome(template, headers, records, second),
    ensures
        first == second,
{
    if !all_render(template, records) {
        lemma_first_failure(template, records, first->Err_0, second->Err_0);
    }
}

/// Rendering fails in one way only: at the first record that lacks a key,
/// with that key.
pub proof fn lemma_first_failure(template: Seq<Seq<char>>, records: Seq<Value>, first: Failure, second: Failure)
    requires
        is_bodies_outcome(template, records, Err(first)),
        is_bodies_outcome(template, records, Err(second)),
    ensures
        first == second,
{
    match (first, second) {
        (Failure::MissingKey { record: r1, key: k1 }, Failure::MissingKey { record: r2, key: k2 }) => {
            if r1 < r2 {
                assert(body_text(template, records[r1]).is_ok());
            } else if r2 < r1 {
                assert(body_text(template, records[r2]).is_ok());
            }
        },
        _ => {},
    }
}

/// `text` holds neither an opening nor a closing brace.
pub open spec fn has_no_brace(text: Seq<char>) -> bool {
    forall|i: int| 0 <= i < text.len() ==> text[i] != '{' && text[i] != '}'
}

/// `text` is a placeholder or holds no brace.
pub open spec fn is_item(text: Seq<char>) -> bool {
    is_placeholder(text) || has_no_brace(text)
}

/// The record holds a string without braces under the name of `token`.
pub open spec fn has_plain_value(token: Seq<char>, json: Value) -> bool {
    json_string_field(json, strip_braces(token)) matches Some(value) && has_no_brace(value)
}

/// The string that the record holds under the name of `token`.
pub open spec fn value_of(token: Seq<char>, json: Value) -> Seq<char> {
    match json_string_field(json, strip_braces(token)) {
        Some(value) => value,
        None => Seq::empty(),
    }
}

/// The value of each token.
pub open spec fn values_of(tokens: Seq<Seq<char>>, json: Value) -> Seq<Seq<char>> {
    Seq::new(tokens.len(), |i: int| value_of(tokens[i], json))
}

/// The text that begins with the first piece and goes on with an item and a
/// piece in turn: there is one piece more than there are items.
pub open spec fn interleave(pieces: Seq<Seq<char>>, items: Seq<Seq<char>>) -> Seq<char>
    recommends
        pieces.len() == items.len() + 1,
    decreases items.len(),
{
    if items.len() == 0 {
        pieces[0]
    } else {
        pieces[0] + items[0] + interleave(pieces.skip(1), items.skip(1))
    }
}

/// `items` with `value` in the place of each item that is `token`.
pub open spec fn exchanged(items: Seq<Seq<char>>, token: Seq<char>, value: Seq<char>) -> Seq<Seq<char>> {
    Seq::new(items.len(), |i: int| if items[i] == token { value } else { items[i] })
}

/// `items` after each token of `pending`, in order, has been exchanged for its
/// value.
pub open spec fn resolved(items: Seq<Seq<char>>, pending: Seq<Seq<char>>, json: Value) -> Seq<Seq<char>>
    decreases pending.len(),
{
    if pending.len() == 0 {
        items
    } else {
        resolved(exchanged(items, pending[0], value_of(pending[0], json)), pending.skip(1), json)
    }
}

/// Replacing a placeholder leaves a stretch without opening brace as it is.
pub proof fn lemma_replace_skips(chunk: Seq<char>, rest: Seq<char>, token: Seq<char>, value: Seq<char>)
    requires
        is_placeholder(token),
        forall|i: int| 0 <= i < chunk.len() ==> chunk[i] != '{',
    ensures
        replace_all(chunk + rest, token, value) == chunk + replace_all(rest, token, value),
    decreases chunk.len(),
{
    let text = chunk + rest;
    let n = token.len() as int;
    if chunk.len() == 0 {
        assert(text =~= rest);
        assert(chunk + replace_all(rest, token, value) =~= replace_all(rest, token, value));
    } else if text.len() < n {
        assert(rest.len() < n);
    } else {
        assert(text.subrange(0, n)[0] == text[0]);
        assert(text[0] == chunk[0]);
        assert(text.skip(1) =~= chunk.skip(1) + rest);
        lemma_replace_skips(chunk.skip(1), rest, token, value);
        assert(seq![text[0]] + (chunk.skip(1) + replace_all(rest, token, value)) =~= chunk + replace_all(
            rest,
            token,
            value,
        ));
    }
}

/// Replacing a placeholder leaves another placeholder as it is.
pub proof fn lemma_replace_skips_other(other: Seq<char>, rest: Seq<char>, token: Seq<char>, value: Seq<char>)
    requires
        is_placeholder(token),
        is_placeholder(other),
        other != token,
    ensures
        replace_all(other + rest, token, value) == other + replace_all(rest, token, value),
{
    let text = other + rest;
    let n = token.len() as int;
    let m = other.len() as int;
    if text.len() < n {
        assert(rest.len() < n);
    } else {
        if text.subrange(0, n) == token {
            if n == m {
                assert(text.subrange(0, n) =~= other);
            } else if n < m {
                assert(text.subrange(0, n)[n - 1] == other[n - 1]);
                assert(is_letter(other[n - 1]));
            } else {
                assert(text.subrange(0, n)[m - 1] == other[m - 1]);
                assert(is_letter(token[m - 1]));
            }
        }
        assert(text.skip(1) =~= other.skip(1) + rest);
        assert forall|i: int| 0 <= i < other.skip(1).len() implies other.skip(1)[i] != '{' by {
            if i + 1 < m - 1 {
                assert(is_letter(other[i + 1]));
            }
        }
        lemma_replace_skips(other.skip(1), rest, token, value);
        assert(text[0] == other[0]);
        assert(seq![text[0]] + (other.skip(1) + replace_all(rest, token, value)) =~= other + replace_all(
            rest,
            token,
            value,
        ));
    }
}

/// Replacing a placeholder in a line of pieces and items exchanges the items
/// that are this placeholder, and nothing else.
pub proof fn lemma_replace_interleaved(
    pieces: Seq<Seq<char>>,
    items: Seq<Seq<char>>,
    token: Seq<char>,
    value: Seq<char>,
)
    requires
        pieces.len() == items.len() + 1,
        forall|i: int| 0 <= i < pieces.len() ==> has_no_brace(#[trigger] pieces[i]),
        forall|i: int| 0 <= i < items.len() ==> is_item(#[trigger] items[i]),
        is_placeholder(token),
    ensures
        replace_all(interleave(pieces, items), token, value) == interleave(
            pieces,
            exchanged(items, token, value),
        ),
    decreases items.len(),
{
    let first = pieces[0];
    assert(has_no_brace(first));
    let empty = Seq::<char>::empty();
    if items.len() == 0 {
        lemma_replace_skips(first, empty, token, value);
        assert(first + empty =~= first);
    } else {
        let item = items[0];
        assert(is_item(item));
        let rest = interleave(pieces.skip(1), items.skip(1));
        let after = exchanged(items, token, value);
        assert forall|i: int| 0 <= i < pieces.skip(1).len() implies has_no_brace(#[trigger] pieces.skip(1)[i]) by {
            assert(pieces.skip(1)[i] == pieces[i + 1]);
        }
        assert forall|i: int| 0 <= i < items.skip(1).len() implies is_item(#[trigger] items.skip(1)[i]) by {
            assert(items.skip(1)[i] == items[i + 1]);
        }
        lemma_replace_interleaved(pieces.skip(1), items.skip(1), token, value);
        assert(after.skip(1) =~= exchanged(items.skip(1), token, value));
        let tail = replace_all(rest, token, value);
        assert(first + item + rest =~= first + (item + rest));
        lemma_replace_skips(first, item + rest, token, value);
        if item == token {
            lemma_replace_at_token(empty, token, rest, value);
            assert(empty + token + rest =~= item + rest);
            assert(replace_all(empty, token, value) + value + tail =~= value + tail);
            assert(first + (value + tail) =~= first + after[0] + tail);
        } else if is_placeholder(item) {
            lemma_replace_skips_other(item, rest, token, value);
            assert(first + (item + tail) =~= first + after[0] + tail);
        } else {
            lemma_replace_skips(item, rest, token, value);
            assert(first + (item + tail) =~= first + after[0] + tail);
        }
    }
}

/// Exchanging tokens for values without braces changes no item without
/// braces, and gives each placeholder among the tokens its value.
pub proof fn lemma_resolved_at(items: Seq<Seq<char>>, pending: Seq<Seq<char>>, json: Value, i: int)
    requires
        0 <= i < items.len(),
        forall|j: int| 0 <= j < pending.len() ==> is_placeholder(#[trigger] pending[j]) && has_plain_value(pending[j], json),
    ensures
        resolved(items, pending, json).len() == items.len(),
        has_no_brace(items[i]) ==> resolved(items, pending, json)[i] == items[i],
        (exists|j: int| 0 <= j < pending.len() && #[trigger] pending[j] == items[i]) ==> resolved(items, pending, json)[i]
            == value_of(items[i], json),
    decreases pending.len(),
{
    if pending.len() > 0 {
        let token = pending[0];
        let value = value_of(token, json);
        let next = exchanged(items, token, value);
        assert(is_placeholder(token) && has_plain_value(token, json));
        assert forall|j: int| 0 <= j < pending.skip(1).len() implies is_placeholder(#[trigger] pending.skip(1)[j])
            && has_plain_value(pending.skip(1)[j], json) by {
            assert(pending.skip(1)[j] == pending[j + 1]);
        }
        lemma_resolved_at(next, pending.skip(1), json, i);
        if has_no_brace(items[i]) {
            assert(items[i] != token) by {
                if items[i] == token {
                    assert(items[i][0] == '{');
                }
            }
        }
        if exists|j: int| 0 <= j < pending.len() && #[trigger] pending[j] == items[i] {
            let j = choose|j: int| 0 <= j < pending.len() && #[trigger] pending[j] == items[i];
            if items[i] == token {
                assert(has_no_brace(next[i]));
            } else {
                assert(pending.skip(1)[j - 1] == items[i]);
            }
        }
    }
}

/// Rendering a line of pieces and items against a list of tokens exchanges
/// the tokens for their values, one after the other, and leaves the pieces
/// as they are.
pub proof fn lemma_substitute_interleaved(
    pieces: Seq<Seq<char>>,
    items: Seq<Seq<char>>,
    pending: Seq<Seq<char>>,
    json: Value,
)
    requires
        pieces.len() == items.len() + 1,
        forall|i: int| 0 <= i < pieces.len() ==> has_no_brace(#[trigger] pieces[i]),
        forall|i: int| 0 <= i < items.len() ==> is_item(#[trigger] items[i]),
        forall|j: int| 0 <= j < pending.len() ==> is_placeholder(#[trigger] pending[j]) && has_plain_value(pending[j], json),
    ensures
        substitute_spec(interleave(pieces, items), pending, json) == Ok::<Seq<char>, Seq<char>>(
            interleave(pieces, resolved(items, pending, json)),
        ),
    decreases pending.len(),
{
    if pending.len() > 0 {
        let token = pending[0];
        let value = value_of(token, json);
        let next = exchanged(items, token, value);
        assert(is_placeholder(token) && has_plain_value(token, json));
        lemma_replace_interleaved(pieces, items, token, value);
        assert forall|i: int| 0 <= i < next.len() implies is_item(#[trigger] next[i]) by {
            assert(is_item(items[i]));
        }
        assert forall|j: int| 0 <= j < pending.skip(1).len() implies is_placeholder(#[trigger] pending.skip(1)[j])
            && has_plain_value(pending.skip(1)[j], json) by {
            assert(pending.skip(1)[j] == pending[j + 1]);
        }
        lemma_substitute_interleaved(pieces, next, pending.skip(1), json);
    }
}

/// A line in which every brace belongs to a placeholder, rendered against a
/// record that holds a string without braces for each of them, is the line
/// with each placeholder replaced by its value in its own place: the text
/// between the placeholders is kept, and no placeholder is left.
pub proof fn lemma_line_rendered(pieces: Seq<Seq<char>>, tokens: Seq<Seq<char>>, json: Value)
    requires
        pieces.len() == tokens.len() + 1,
        forall|i: int| 0 <= i < pieces.len() ==> has_no_brace(#[trigger] pieces[i]),
        forall|i: int| 0 <= i < tokens.len() ==> is_placeholder(#[trigger] tokens[i]) && has_plain_value(tokens[i], json),
    ensures
        substitute_spec(interleave(pieces, tokens), tokens, json) == Ok::<Seq<char>, Seq<char>>(
            interleave(pieces, values_of(tokens, json)),
        ),
{
    assert forall|i: int| 0 <= i < tokens.len() implies is_item(#[trigger] tokens[i]) by {
        assert(is_placeholder(tokens[i]));
    }
    lemma_substitute_interleaved(pieces, tokens, tokens, json);
    let end = resolved(tokens, tokens, json);
    assert forall|i: int| 0 <= i < tokens.len() implies end.len() == tokens.len() && end[i] == values_of(
        tokens,
        json,
    )[i] by {
        lemma_resolved_at(tokens, tokens, json, i);
        assert(exists|j: int| 0 <= j < tokens.len() && #[trigger] tokens[j] == tokens[i]);
    }
    assert(end =~= values_of(tokens, json));
}

/// Two messages hold the same sender, recipient, subject and body.
pub open spec fn same_content(one: Message, other: Message) -> bool {
    &&& header_text(one, "From"@) == header_text(other, "From"@)
    &&& header_text(one, "To"@) == header_text(other, "To"@)
    &&& header_text(one, "Subject"@) == header_text(other, "Subject"@)
    &&& message_body(one) == message_body(other)
}

/// Two builds of mail messages from the same template, headers and records
/// both succeed or fail alike: with the same failure, or with as many
/// messages, which hold the same sender, recipient, subject and body at each
/// position. (What else a message holds, such as its date, may differ.)
pub proof fn lemma_emails_repeat(
    template: Seq<Seq<char>>,
    headers: Seq<HeaderText>,
    records: Seq<Value>,
    first: Result<Seq<Message>, Failure>,
    second: Result<Seq<Message>, Failure>,
)
    requires
        is_build_outcome(template, headers, records, first),
        is_build_outcome(template, headers, records, second),
    ensures
        first.is_ok() == second.is_ok(),
        first matches Err(failure) ==> second == Err::<Seq<Message>, Failure>(failure),
        first matches Ok(messages) ==> (second matches Ok(others) && others.len() == messages.len() && forall|
            i: int,
        |
            0 <= i < messages.len() ==> same_content(#[trigger] messages[i], others[i])),
{
    if !all_render(template, records) {
        lemma_first_failure(template, records, first->Err_0, second->Err_0);
    } else {
        let bodies = rendered_bodies(template, records);
        match paired(headers, bodies) {
            Err(_) => {},
            Ok(_) => {
                lemma_emails_agree(headers, bodies, first, second);
                lemma_emails_agree(headers, bodies, second, first);
            },
        }
    }
}

/// Of two outcomes of turning the same headers and bodies into messages, the
/// second succeeds if the first does, with messages of the same content, and
/// fails no later than the first.
pub proof fn lemma_emails_agree(
    headers: Seq<HeaderText>,
    bodies: Seq<Seq<char>>,
    first: Result<Seq<Message>, Failure>,
    second: Result<Seq<Message>, Failure>,
)
    requires
        paired(headers, bodies).is_ok(),
        is_emails_outcome(headers, bodies, first),
        is_emails_outcome(headers, bodies, second),
    ensures
        first.is_ok() ==> second.is_ok(),
        first matches Ok(messages) ==> (second matches Ok(others) && others.len() == messages.len() && forall|
            i: int,
        |
            0 <= i < messages.len() ==> same_content(#[trigger] messages[i], others[i])),
        first.is_err() && second.is_err() ==> failed_at(second->Err_0) <= failed_at(first->Err_0),
        first.is_err() && second.is_err() && failed_at(second->Err_0) == failed_at(first->Err_0) ==> first
            == second,
{
    match (first, second) {
        (Ok(messages), Err(other)) => {
            assert(message_failure(headers[failed_at(other)], failed_at(other)).is_none());
        },
        (Ok(messages), Ok(others)) => {},
        (Err(failure), Err(other)) => {
            if failed_at(failure) < failed_at(other) {
                assert(message_failure(headers[failed_at(failure)], failed_at(failure)).is_none());
            }
        },
        _ => {},
    }
}

} // verus!
