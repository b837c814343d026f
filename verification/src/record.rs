//! Decoded records and the chunk interpreter.
//!
//! One newline-terminated line of the upstream byte stream holds one JSON
//! object. A [`StreamRecord`] is what the relay reads out of such an object:
//! an optional chat-message fragment, an optional plain response text, and
//! the completion flag. The interpreter maps one record to zero or one
//! emitted token.

use vstd::prelude::*;
use vstd::string::*;

verus! {

/// One conversational role plus free-form text content. Immutable once
/// constructed; a sequence of these is the payload of a streaming chat
/// request. The core checks nothing beyond structure.
#[derive(Clone, Debug)]
pub struct ChatMessage {
    pub role: String,
    pub content: String,
}

/// The mathematical value of a [`ChatMessage`].
pub struct ChatMessageView {
    pub role: Seq<char>,
    pub content: Seq<char>,
}

impl View for ChatMessage {
    type V = ChatMessageView;

    open spec fn view(&self) -> ChatMessageView {
        ChatMessageView { role: self.role@, content: self.content@ }
    }
}

/// The typed shape of one streamed chat chunk as the upstream service
/// documents it: an optional model name and timestamp, an optional
/// message fragment, and the completion flag (absent means not done).
/// The decoder itself reads records field-by-field (tolerating chunks
/// that carry a plain response text instead, see [`StreamRecord`]); this
/// type is the documented wire shape kept for callers that build or
/// inspect whole chunks.
#[derive(Debug)]
pub struct ChatStreamChunk {
    pub model: Option<String>,
    pub created_at: Option<String>,
    pub message: Option<ChatMessage>,
    pub done: bool,
}

/// One parsed JSON value taken from one line of the upstream byte stream:
/// an incremental chat-message fragment, a plain response-text fragment, or
/// neither, each optionally carrying the completion flag.
///
/// `message` is present exactly when the JSON object holds a string at
/// `message.content`; `response` exactly when it holds a string at
/// `response`.
#[derive(Debug)]
pub struct StreamRecord {
    pub message: Option<ChatMessage>,
    pub response: Option<String>,
    pub done: bool,
}

/// The mathematical value of a [`StreamRecord`].
pub struct RecordView {
    pub message: Option<ChatMessageView>,
    pub response: Option<Seq<char>>,
    pub done: bool,
}

impl View for StreamRecord {
    type V = RecordView;

    open spec fn view(&self) -> RecordView {
        RecordView {
            message: match self.message {
                Some(m) => Some(m@),
                None => None,
            },
            response: match self.response {
                Some(r) => Some(r@),
                None => None,
            },
            done: self.done,
        }
    }
}

/// The record, if any, that one line of text denotes as a JSON object.
/// `None` where the line is not valid JSON. The result depends on the
/// characters of the line alone.
pub uninterp spec fn json_record_of(line: Seq<char>) -> Option<RecordView>;

/// The view of an optional record.
pub open spec fn opt_record_view(r: Option<StreamRecord>) -> Option<RecordView> {
    match r {
        Some(rec) => Some(rec@),
        None => None,
    }
}

/// Relies on `serde_json::from_str::<Value>` and on `Value`'s `pointer`,
/// `get`, `as_str` and `as_bool` accessors: which fields a line of JSON
/// holds is a function of the line's characters alone, named
/// [`json_record_of`].
#[verifier::external_body]
fn parse_json_record(line: &str) -> (r: Option<StreamRecord>)
    ensures
        opt_record_view(r) == json_record_of(line@),
{
    let v: serde_json::Value = match serde_json::from_str(line) {
        Ok(v) => v,
        Err(_) => return None,
    };
    let content = v.pointer("/message/content").and_then(|c| c.as_str());
    let role = v.pointer("/message/role").and_then(|r| r.as_str()).unwrap_or("");
    let message = content.map(|c| ChatMessage { role: role.to_string(), content: c.to_string() });
    let response = v.get("response").and_then(|r| r.as_str()).map(|s| s.to_string());
    let done = v.get("done").and_then(|d| d.as_bool()).unwrap_or(false);
    Some(StreamRecord { message, response, done })
}

/// A character that counts as blank when deciding whether a line is
/// empty. A line made only of rarer whitespace falls through to the JSON
/// parse instead and is discarded there, to the same effect.
pub open spec fn is_blank_char(c: char) -> bool {
    c == ' ' || c == '\t' || c == '\r'
}

/// A line of only blank characters (or no characters) yields no record.
pub open spec fn is_blank(l: Seq<char>) -> bool {
    forall|i: int| 0 <= i < l.len() ==> is_blank_char(l[i])
}

/// The record, if any, that one decoded line yields: blank lines are
/// discarded without parsing, and lines that are not valid JSON are
/// discarded silently.
pub open spec fn line_record(l: Seq<char>) -> Option<RecordView> {
    if is_blank(l) {
        None
    } else {
        json_record_of(l)
    }
}

/// Decode one complete line into its record, if it has one.
///
/// Returns exactly [`line_record`] of the line: `None` for a blank line and
/// for a line that is not valid JSON; upstream framing noise never aborts a
/// stream.
pub fn decode_line(line: &str) -> (r: Option<StreamRecord>)
    ensures
        opt_record_view(r) == line_record(line@),
{
    let n = line.unicode_len();
    let mut i: usize = 0;
    let mut blank = true;
    while blank && i < n
        invariant
            n == line@.len(),
            i <= n,
            blank ==> forall|j: int| 0 <= j < i ==> is_blank_char(line@[j]),
            !blank ==> exists|j: int| 0 <= j < n && !is_blank_char(line@[j]),
        decreases n - i + (if blank { 1int } else { 0int }),
    {
        let c = line.get_char(i);
        if c == ' ' || c == '\t' || c == '\r' {
            i = i + 1;
        } else {
            blank = false;
        }
    }
    if blank {
        None
    } else {
        parse_json_record(line)
    }
}

/// The view of an optional token.
pub open spec fn opt_str_view(o: Option<String>) -> Option<Seq<char>> {
    match o {
        Some(s) => Some(s@),
        None => None,
    }
}

/// The token a record's plain response-text field yields, if any.
pub open spec fn spec_response_token(r: RecordView) -> Option<Seq<char>> {
    match r.response {
        Some(t) => Some(t),
        None => None,
    }
}

/// The token one record yields: the chat-message fragment's text where that
/// is present and non-empty, else the plain response text where that is
/// present, else nothing.
pub open spec fn spec_token(r: RecordView) -> Option<Seq<char>> {
    match r.message {
        Some(m) => if m.content.len() > 0 {
            Some(m.content)
        } else {
            spec_response_token(r)
        },
        None => spec_response_token(r),
    }
}

/// The chunk interpreter: map one decoded record to zero or one token.
///
/// Returns exactly [`spec_token`] of the record. The record's completion
/// flag is reported independently by its `done` field.
pub fn interpret(rec: &StreamRecord) -> (t: Option<String>)
    ensures
        opt_str_view(t) == spec_token(rec@),
{
    match &rec.message {
        Some(m) => {
            if m.content.as_str().unicode_len() > 0 {
                return Some(m.content.clone());
            }
        },
        None => {},
    }
    match &rec.response {
        Some(t) => Some(t.clone()),
        None => None,
    }
}

} // verus!
