//! What executing a request gives: a response, a failure or a recording.

use vstd::prelude::*;

use crate::headers::Headers;
use crate::json::{Json, JsonView, Members};
use crate::openai::plan::ResponsePlan;
use crate::reply::{Body, BodyView, Reply, ReplyView};
use crate::sse::EventView;
use crate::transport::RawOutcome;
use crate::{codec, headers, text};

verus! {

/// The body of an error response.
pub struct ErrorEnvelope {
    pub error: ErrorBody,
}

/// What went wrong.
pub struct ErrorBody {
    pub message: String,
    pub error_type: String,
    pub param: Json,
    pub code: String,
}

impl ErrorEnvelope {
    /// The body as a document.
    pub open spec fn document(&self) -> JsonView {
        JsonView::Object(
            map![
                "error"@ => JsonView::Object(
                    map![
                        "message"@ => JsonView::Str(self.error.message@),
                        "type"@ => JsonView::Str(self.error.error_type@),
                        "param"@ => self.error.param@,
                        "code"@ => JsonView::Str(self.error.code@)
                    ],
                )
            ],
        )
    }

    /// The body as a document.
    pub fn to_json(&self) -> (r: Json)
        ensures
            r@ == self.document(),
    {
        let error = Members::new().with("message", Json::text(self.error.message.as_str())).with(
            "type",
            Json::text(self.error.error_type.as_str()),
        ).with("param", self.error.param.copy()).with(
            "code",
            Json::text(self.error.code.as_str()),
        );
        Json::Object(Members::new().with("error", Json::Object(error)))
    }
}

/// How a response is sent.
#[derive(Clone, Copy, Debug, PartialEq, Eq, Structural)]
pub struct TransportOptions {
    pub delay_before_headers_ms: u64,
    pub inter_event_delay_ms: u64,
    pub close_after_chunks: Option<usize>,
    pub malformed_sse: bool,
}

impl Default for TransportOptions {
    fn default() -> (r: Self)
        ensures
            r == (TransportOptions {
                delay_before_headers_ms: 0,
                inter_event_delay_ms: 0,
                close_after_chunks: None,
                malformed_sse: false,
            }),
    {
        TransportOptions {
            delay_before_headers_ms: 0,
            inter_event_delay_ms: 0,
            close_after_chunks: None,
            malformed_sse: false,
        }
    }
}

/// A planned response and how it is sent.
pub struct SuccessOutcome {
    pub plan: ResponsePlan,
    pub transport: TransportOptions,
}

/// An error response.
pub struct ErrorOutcome {
    pub status: u16,
    pub body: ErrorEnvelope,
    pub retry_after: Option<String>,
    pub delay_before_headers_ms: u64,
}

/// What executing a request gives.
pub enum ExecutionOutcome {
    Success(SuccessOutcome),
    Error(ErrorOutcome),
    Hang { delay_before_headers_ms: u64 },
    /// A verbatim recorded exchange to send back exactly as captured.
    Transcript(TranscriptOutcome),
    /// An exact sequence of response body chunks or a body failure.
    Raw(RawOutcome),
}

/// A recorded exchange replayed without the canonical engine.
pub struct TranscriptOutcome {
    pub status: u16,
    pub content_type: Option<String>,
    pub body: TranscriptBody,
}

/// The body of a recorded exchange.
pub enum TranscriptBody {
    /// A non-streaming JSON body, verbatim.
    Json(Json),
    /// An SSE body as its ordered recorded events, one chunk per event.
    Events(Vec<TranscriptEvent>),
}

/// One event of a recorded stream.
#[derive(Clone, Debug)]
pub struct TranscriptEvent {
    pub event: Option<String>,
    pub data: String,
}

impl TranscriptEvent {
    /// The event denoted.
    pub open spec fn view(&self) -> EventView {
        EventView { event: text::opt_text(self.event), data: self.data@ }
    }
}

/// The events that a list holds.
pub open spec fn transcript_view(events: Seq<TranscriptEvent>) -> Seq<EventView> {
    Seq::new(events.len(), |i: int| events[i]@)
}

impl ErrorOutcome {
    /// The response that reports an error.
    pub open spec fn reply(&self) -> ReplyView {
        let typed = map!["content-type"@ => "application/json"@];
        ReplyView {
            delay_ms: self.delay_before_headers_ms,
            status: self.status,
            headers: match self.retry_after {
                Some(wait) => typed.insert("retry-after"@, wait@),
                None => typed,
            },
            body: BodyView::Whole(codec::json_text(self.body.document())),
        }
    }

    /// The response that reports an error. A wait that no header can carry is no
    /// scripted outcome.
    pub fn response(&self) -> (r: Reply)
        requires
            self.retry_after matches Some(wait) ==> headers::valid_value(wait@),
        ensures
            r@ == self.reply(),
    {
        let mut headers = Headers::new();
        headers.set("content-type", "application/json");
        match &self.retry_after {
            Some(wait) => {
                headers.set("retry-after", wait.as_str());
            },
            None => {},
        }
        Reply {
            delay_ms: self.delay_before_headers_ms,
            status: self.status,
            headers,
            body: Body::Whole(codec::render(&self.body.to_json())),
        }
    }

    /// An error response about no particular parameter.
    pub fn new(
        status: u16,
        message: String,
        error_type: String,
        code: String,
        retry_after: Option<String>,
        delay_before_headers_ms: u64,
    ) -> (r: Self)
        ensures
            r == (ErrorOutcome {
                status,
                body: ErrorEnvelope {
                    error: ErrorBody { message, error_type, param: Json::Null, code },
                },
                retry_after,
                delay_before_headers_ms,
            }),
    {
        ErrorOutcome {
            status,
            body: ErrorEnvelope {
                error: ErrorBody { message, error_type, param: Json::Null, code },
            },
            retry_after,
            delay_before_headers_ms,
        }
    }
}

} // verus!
