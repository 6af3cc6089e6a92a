//! Request records.

use vstd::prelude::*;

use crate::json::{Json, JsonView, Members};
use crate::{codec, text};

verus! {

/// What is kept of a request.
pub struct RequestLog {
    pub scenario_id: Option<String>,
    pub endpoint: String,
    pub model: String,
    pub stream: bool,
    pub input_text: String,
    pub instructions_text: String,
    pub metadata: Members,
}

/// What is kept of a request.
#[verifier::ext_equal]
pub struct LogView {
    pub scenario_id: Option<Seq<char>>,
    pub endpoint: Seq<char>,
    pub model: Seq<char>,
    pub stream: bool,
    pub input_text: Seq<char>,
    pub instructions_text: Seq<char>,
    pub metadata: Map<Seq<char>, JsonView>,
}

impl RequestLog {
    /// The record denoted.
    pub open spec fn view(&self) -> LogView {
        LogView {
            scenario_id: text::opt_text(self.scenario_id),
            endpoint: self.endpoint@,
            model: self.model@,
            stream: self.stream,
            input_text: self.input_text@,
            instructions_text: self.instructions_text@,
            metadata: self.metadata@,
        }
    }

    /// A copy of the record.
    pub fn copy(&self) -> (r: RequestLog)
        ensures
            r@ == self@,
    {
        RequestLog {
            scenario_id: text::copy_opt(&self.scenario_id),
            endpoint: self.endpoint.clone(),
            model: self.model.clone(),
            stream: self.stream,
            input_text: self.input_text.clone(),
            instructions_text: self.instructions_text.clone(),
            metadata: self.metadata.copy(),
        }
    }
}

/// A record as a document. Its scenario is there only where one answered and has
/// an id.
pub open spec fn log_document(log: LogView) -> JsonView {
    let core = map![
        "endpoint"@ => JsonView::Str(log.endpoint),
        "model"@ => JsonView::Str(log.model),
        "stream"@ => JsonView::Bool(log.stream),
        "input_text"@ => JsonView::Str(log.input_text),
        "instructions_text"@ => JsonView::Str(log.instructions_text),
        "metadata"@ => JsonView::Object(log.metadata)
    ];
    JsonView::Object(
        match log.scenario_id {
            Some(id) => core.insert("scenario_id"@, JsonView::Str(id)),
            None => core,
        },
    )
}

/// A record as a document.
pub fn log_json(log: &RequestLog) -> (r: Json)
    ensures
        r@ == log_document(log@),
{
    let mut members = Members::new().with("endpoint", Json::text(log.endpoint.as_str())).with(
        "model",
        Json::text(log.model.as_str()),
    ).with("stream", Json::Bool(log.stream)).with(
        "input_text",
        Json::text(log.input_text.as_str()),
    ).with("instructions_text", Json::text(log.instructions_text.as_str())).with(
        "metadata",
        Json::Object(log.metadata.copy()),
    );
    match &log.scenario_id {
        Some(id) => {
            members.set("scenario_id", Json::text(id.as_str()));
        },
        None => {},
    }
    Json::Object(members)
}

/// The line of a record in a log file.
pub fn log_line(log: &RequestLog) -> (r: String)
    ensures
        r@ == codec::json_text(log_document(log@)).push('\n'),
        codec::legible(log_document(log@)),
{
    let mut line = codec::render(&log_json(log));
    line.push('\n');
    line
}

/// The records that a list holds.
pub open spec fn logs_view(logs: Seq<RequestLog>) -> Seq<LogView> {
    Seq::new(logs.len(), |i: int| logs[i]@)
}

/// A copy of a list of records.
pub(crate) fn copy_logs(logs: &Vec<RequestLog>) -> (r: Vec<RequestLog>)
    ensures
        logs_view(r@) == logs_view(logs@),
{
    let mut out: Vec<RequestLog> = Vec::new();
    for i in 0..logs.len()
        invariant
            logs_view(out@) =~= logs_view(logs@).take(i as int),
    {
        let ghost before = out@;
        let log = logs[i].copy();
        out.push(log);
        assert(logs_view(out@) =~= logs_view(before).push(log@));
    }
    assert(logs_view(out@) =~= logs_view(logs@));
    out
}

} // verus!
