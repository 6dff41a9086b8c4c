//! What the command-line workbench logs for each event of the live feed.

use vstd::prelude::*;
use crate::event::{Event, EventKind};
use crate::ids::hyphenated_uuid;
use crate::text::{decimal, u16_text};

verus! {

/// Log level of a feed line.
#[derive(Debug, Clone, Copy, PartialEq, Eq, Structural)]
pub enum LogLevel {
    Info,
    Warn,
}

/// One feed line: its level, message, (field, value) pairs logged as text,
/// and (field, optional value) pairs logged in their debug form.
#[derive(Debug)]
pub struct LogRecord {
    pub level: LogLevel,
    pub message: String,
    pub fields: Vec<(String, String)>,
    pub debug_fields: Vec<(String, Option<String>)>,
}

/// Level and message of the feed line for an event kind: anomalies and
/// validation candidates are warnings, the rest information.
pub open spec fn log_head(kind: EventKind) -> (LogLevel, Seq<char>) {
    match kind {
        EventKind::ProxyCapture { .. } => (LogLevel::Info, "capture"@),
        EventKind::Anomaly { .. } => (LogLevel::Warn, "anomaly"@),
        EventKind::Annotation { .. } => (LogLevel::Info, "annotation"@),
        EventKind::ValidationCandidate { .. } => (LogLevel::Warn, "validation candidate (awaiting sign-off)"@),
        EventKind::ValidationDecision { .. } => (LogLevel::Info, "validation decision"@),
        EventKind::BinaryAnalysis { .. } => (LogLevel::Info, "binary analysis"@),
    }
}

/// The fields of the feed line for an event, after its id.
pub open spec fn log_fields(kind: EventKind) -> Seq<(Seq<char>, Seq<char>)> {
    match kind {
        EventKind::ProxyCapture { request, response } => seq![
            ("method"@, request.method.spec_name()),
            ("url"@, request.url@),
            ("status"@, decimal(match response { Some(r) => r.status as nat, None => 0nat })),
        ],
        EventKind::Anomaly { request, signal, .. } => seq![("url"@, request.url@), ("signal"@, signal@)],
        EventKind::Annotation { author, text } => seq![("author"@, author@), ("text"@, text@)],
        EventKind::ValidationCandidate { target, rationale, .. } => seq![("target"@, target@), ("rationale"@, rationale@)],
        EventKind::ValidationDecision { finding_id, approved, .. } => {
            seq![("finding_id"@, hyphenated_uuid(finding_id)), ("approved"@, if approved { "true"@ } else { "false"@ })]
        },
        EventKind::BinaryAnalysis { info } => seq![("path"@, info.path@)],
    }
}

/// The fields of the feed line for an event that are logged in their debug
/// form: a validation decision's optional note.
pub open spec fn log_debug_fields(kind: EventKind) -> Seq<(Seq<char>, Option<Seq<char>>)> {
    match kind {
        EventKind::ValidationDecision { note, .. } => seq![("note"@, match note { Some(n) => Some(n@), None => None })],
        _ => Seq::empty(),
    }
}

/// Each logged field carries the event's component of that name: a capture
/// logs its method token, URL and status (0 without a response); an anomaly
/// its request URL and signal; an annotation its author and text; a
/// validation candidate its target and rationale; a validation decision its
/// finding id and "true" or "false"; a binary analysis its path. Anomalies and
/// validation candidates are warnings, the rest information, each with its
/// own message.
pub proof fn law_log_fields(kind: EventKind)
    ensures
        kind matches EventKind::ProxyCapture { request, response } ==> {
            &&& log_head(kind) == (LogLevel::Info, "capture"@)
            &&& log_fields(kind) == seq![
                ("method"@, request.method.spec_name()),
                ("url"@, request.url@),
                ("status"@, decimal(if response is Some { response->0.status as nat } else { 0nat })),
            ]
        },
        kind matches EventKind::Anomaly { request, signal, .. } ==> {
            &&& log_head(kind) == (LogLevel::Warn, "anomaly"@)
            &&& log_fields(kind) == seq![("url"@, request.url@), ("signal"@, signal@)]
        },
        kind matches EventKind::Annotation { author, text } ==> {
            &&& log_head(kind) == (LogLevel::Info, "annotation"@)
            &&& log_fields(kind) == seq![("author"@, author@), ("text"@, text@)]
        },
        kind matches EventKind::ValidationCandidate { target, rationale, .. } ==> {
            &&& log_head(kind) == (LogLevel::Warn, "validation candidate (awaiting sign-off)"@)
            &&& log_fields(kind) == seq![("target"@, target@), ("rationale"@, rationale@)]
        },
        kind matches EventKind::ValidationDecision { finding_id, approved, note } ==> {
            &&& log_head(kind) == (LogLevel::Info, "validation decision"@)
            &&& log_fields(kind) == seq![("finding_id"@, hyphenated_uuid(finding_id)),
                ("approved"@, if approved { "true"@ } else { "false"@ })]
            &&& log_debug_fields(kind) == seq![("note"@, if note is Some { Some(note->0@) } else { None::<Seq<char>> })]
        },
        kind matches EventKind::BinaryAnalysis { info } ==> {
            &&& log_head(kind) == (LogLevel::Info, "binary analysis"@)
            &&& log_fields(kind) == seq![("path"@, info.path@)]
        },
        !(kind is ValidationDecision) ==> log_debug_fields(kind) == Seq::<(Seq<char>, Option<Seq<char>>)>::empty(),
{
}

fn field(name: &str, value: &str) -> (f: (String, String))
    ensures
        f.0@ == name@,
        f.1@ == value@,
{
    (String::from_str(name), String::from_str(value))
}

fn uuid_value_text(v: u128) -> (s: String)
    ensures
        s@ == hyphenated_uuid(v),
{
    crate::ids::EventId(v).to_text()
}

/// The feed line logged for an event: level and message by kind, the
/// event's id, then the kind's own fields.
pub fn log_event(event: &Event) -> (r: LogRecord)
    ensures
        (r.level, r.message@) == log_head(event.kind),
        r.fields@.map_values(|f: (String, String)| (f.0@, f.1@))
            == seq![("id"@, hyphenated_uuid(event.id.0))] + log_fields(event.kind),
        r.debug_fields@.map_values(|f: (String, Option<String>)| (f.0@, match f.1 { Some(n) => Some(n@), None => None }))
            == log_debug_fields(event.kind),
{
    let mut fields: Vec<(String, String)> = Vec::new();
    let mut debug_fields: Vec<(String, Option<String>)> = Vec::new();
    let id = event.id.to_text();
    fields.push(field("id", id.as_str()));
    let (level, message) = match &event.kind {
        EventKind::ProxyCapture { request, response } => {
            let status: u16 = match response { Some(r) => r.status, None => 0 };
            fields.push(field("method", request.method.as_str()));
            fields.push(field("url", request.url.as_str()));
            let st = u16_text(status);
            fields.push(field("status", st.as_str()));
            (LogLevel::Info, "capture")
        },
        EventKind::Anomaly { request, signal, .. } => {
            fields.push(field("url", request.url.as_str()));
            fields.push(field("signal", signal.as_str()));
            (LogLevel::Warn, "anomaly")
        },
        EventKind::Annotation { author, text } => {
            fields.push(field("author", author.as_str()));
            fields.push(field("text", text.as_str()));
            (LogLevel::Info, "annotation")
        },
        EventKind::ValidationCandidate { target, rationale, .. } => {
            fields.push(field("target", target.as_str()));
            fields.push(field("rationale", rationale.as_str()));
            (LogLevel::Warn, "validation candidate (awaiting sign-off)")
        },
        EventKind::ValidationDecision { finding_id, approved, note } => {
            let f = uuid_value_text(*finding_id);
            fields.push(field("finding_id", f.as_str()));
            fields.push(field("approved", if *approved { "true" } else { "false" }));
            let copy: Option<String> = match note {
                Some(n) => Some(n.clone()),
                None => None,
            };
            debug_fields.push((String::from_str("note"), copy));
            (LogLevel::Info, "validation decision")
        },
        EventKind::BinaryAnalysis { info } => {
            fields.push(field("path", info.path.as_str()));
            (LogLevel::Info, "binary analysis")
        },
    };
    proof {
        assert(fields@.map_values(|f: (String, String)| (f.0@, f.1@))
            =~= seq![("id"@, hyphenated_uuid(event.id.0))] + log_fields(event.kind));
        assert(debug_fields@.map_values(|f: (String, Option<String>)| (f.0@, match f.1 { Some(n) => Some(n@), None => None }))
            =~= log_debug_fields(event.kind));
    }
    LogRecord { level, message: String::from_str(message), fields, debug_fields }
}

} // verus!
