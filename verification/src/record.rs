//! The record that goes over the wire and its compact JSON form.

use crate::json::{lemma_read_quoted, quote, quoted, read_literal, read_quoted};
use crate::level::Level;
use crate::text::{chars_of, match_at};
use vstd::prelude::*;
use vstd::string::StringExecFns;

verus! {

/// One log record as it is sent to the topic: the name of its severity, the
/// subsystem it comes from and its rendered message.
#[derive(Debug, PartialEq, Eq)]
pub struct Record {
    pub level: String,
    pub target: String,
    pub message: String,
}

/// The three texts of a [`Record`].
pub ghost struct RecordView {
    pub level: Seq<char>,
    pub target: Seq<char>,
    pub message: Seq<char>,
}

impl View for Record {
    type V = RecordView;

    open spec fn view(&self) -> RecordView {
        RecordView { level: self.level@, target: self.target@, message: self.message@ }
    }
}

impl Clone for Record {
    fn clone(&self) -> (copy: Record)
        ensures
            copy@ == self@,
    {
        Record {
            level: self.level.clone(),
            target: self.target.clone(),
            message: self.message.clone(),
        }
    }
}

/// What opens the payload and introduces the level.
pub open spec fn level_key() -> Seq<char> {
    "{\"level\":"@
}

/// What separates the level from the target.
pub open spec fn target_key() -> Seq<char> {
    ",\"target\":"@
}

/// What separates the target from the message.
pub open spec fn message_key() -> Seq<char> {
    ",\"message\":"@
}

/// What closes the payload.
pub open spec fn closing() -> Seq<char> {
    "}"@
}

/// The payload of a record: one JSON object without any white space, whose
/// members are `level`, `target` and `message`, in this order, each with a
/// string literal as its value.
pub open spec fn encoded(record: RecordView) -> Seq<char> {
    level_key() + quoted(record.level) + target_key() + quoted(record.target) + message_key()
        + quoted(record.message) + closing()
}

/// Reads `key` and the string literal behind it from the front of `input`:
/// the text of the literal and the input that is left behind it.
pub open spec fn read_member(input: Seq<char>, key: Seq<char>) -> Option<(Seq<char>, Seq<char>)> {
    if key.is_prefix_of(input) {
        match read_quoted(input.skip(key.len() as int)) {
            Some((text, taken)) => Some((text, input.skip(key.len() + taken))),
            None => None,
        }
    } else {
        None
    }
}

/// The record that a payload denotes. A payload denotes a record where it is
/// the three members in wire order, without white space, and nothing else;
/// the string literals may use any escape that [`crate::json::unescaped`]
/// reads.
pub open spec fn decoded(payload: Seq<char>) -> Option<RecordView> {
    match read_member(payload, level_key()) {
        Some((level, after_level)) => match read_member(after_level, target_key()) {
            Some((target, after_target)) => match read_member(after_target, message_key()) {
                Some((message, after_message)) => if after_message == closing() {
                    Some(RecordView { level, target, message })
                } else {
                    None
                },
                None => None,
            },
            None => None,
        },
        None => None,
    }
}

/// A member is read back as it was written: the key and the literal of
/// `text` give `text` and leave `rest`, whatever `rest` is.
pub proof fn lemma_read_member(key: Seq<char>, text: Seq<char>, rest: Seq<char>)
    ensures
        read_member(key + quoted(text) + rest, key) == Some((text, rest)),
{
    let input = key + quoted(text) + rest;
    assert(input.subrange(0, key.len() as int) =~= key);
    assert(input.skip(key.len() as int) =~= quoted(text) + rest);
    lemma_read_quoted(text, rest);
    assert(input.skip((key.len() + quoted(text).len()) as int) =~= rest);
}

/// The payload, member by member from the front.
proof fn lemma_encoded_nested(record: RecordView)
    ensures
        encoded(record) == level_key() + quoted(record.level) + (target_key() + quoted(record.target)
            + (message_key() + quoted(record.message) + closing())),
{
    assert(encoded(record) =~= level_key() + quoted(record.level) + (target_key() + quoted(
        record.target,
    ) + (message_key() + quoted(record.message) + closing())));
}

/// Writing a record and reading the payload back gives the same three texts,
/// whatever characters they hold: empty texts, quotes, backslashes, control
/// characters and characters outside ASCII included.
pub proof fn lemma_round_trip(record: RecordView)
    ensures
        decoded(encoded(record)) == Some(record),
{
    let after_target = message_key() + quoted(record.message) + closing();
    let after_level = target_key() + quoted(record.target) + after_target;
    lemma_encoded_nested(record);
    lemma_read_member(level_key(), record.level, after_level);
    lemma_read_member(target_key(), record.target, after_target);
    lemma_read_member(message_key(), record.message, closing());
}

/// Two records with the same payload are the same record.
pub proof fn lemma_encoded_injective(a: RecordView, b: RecordView)
    requires
        encoded(a) == encoded(b),
    ensures
        a == b,
{
    lemma_round_trip(a);
    lemma_round_trip(b);
}

/// Reads `key` and the string literal behind it from position `at` on.
fn read_member_at(chars: &Vec<char>, at: usize, key: &str) -> (member: Option<(String, usize)>)
    requires
        at <= chars.len(),
    ensures
        match member {
            Some((text, next)) => {
                &&& read_member(chars@.skip(at as int), key@) == Some((text@, chars@.skip(next as int)))
                &&& next <= chars.len()
            },
            None => read_member(chars@.skip(at as int), key@) is None,
        },
{
    match match_at(chars, at, key) {
        Some(start) => {
            assert(chars@.skip(at as int).skip(key@.len() as int) =~= chars@.skip(start as int));
            match read_literal(chars, start) {
                Some((text, next)) => {
                    assert(chars@.skip(at as int).skip(key@.len() + (next - start)) =~= chars@.skip(
                        next as int,
                    ));
                    Some((text, next))
                },
                None => None,
            }
        },
        None => None,
    }
}

impl Record {
    /// The record for a message of severity `level` from `target`.
    pub fn new(level: Level, target: &str, message: &str) -> (record: Record)
        ensures
            record@ == (RecordView { level: level.name(), target: target@, message: message@ }),
            record@.level.len() > 0,
    {
        Record {
            level: level.as_str().to_owned(),
            target: target.to_owned(),
            message: message.to_owned(),
        }
    }

    /// Writes the record as its payload. Reading the payload gives the
    /// record back.
    pub fn to_json(&self) -> (payload: String)
        ensures
            payload@ == encoded(self@),
            decoded(payload@) == Some(self@),
    {
        proof {
            lemma_round_trip(self@);
        }
        let mut payload = "{\"level\":".to_owned();
        payload.append(quote(self.level.as_str()).as_str());
        payload.append(",\"target\":");
        payload.append(quote(self.target.as_str()).as_str());
        payload.append(",\"message\":");
        payload.append(quote(self.message.as_str()).as_str());
        payload.append("}");
        payload
    }

    /// Reads a record back from a payload, and returns `None` for a text that
    /// is no payload.
    pub fn from_json(payload: &str) -> (record: Option<Record>)
        ensures
            match record {
                Some(read) => decoded(payload@) == Some(read@),
                None => decoded(payload@) is None,
            },
    {
        let chars = chars_of(payload);
        assert(chars@.skip(0) =~= payload@);
        match read_member_at(&chars, 0, "{\"level\":") {
            Some((level, after_level)) => match read_member_at(&chars, after_level, ",\"target\":") {
                Some((target, after_target)) => match read_member_at(
                    &chars,
                    after_target,
                    ",\"message\":",
                ) {
                    Some((message, after_message)) => match match_at(&chars, after_message, "}") {
                        Some(end) => if end == chars.len() {
                            assert(chars@.skip(after_message as int) =~= closing());
                            Some(Record { level, target, message })
                        } else {
                            None
                        },
                        None => None,
                    },
                    None => None,
                },
                None => None,
            },
            None => None,
        }
    }
}

} // verus!
