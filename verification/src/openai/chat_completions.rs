//! Answering chat completions.

use vstd::prelude::*;

use crate::headers;
use crate::headers::Headers;
use crate::openai::failures::{ExecutionOutcome, SuccessOutcome};
use crate::openai::sse as stream;
use crate::reply;
use crate::reply::{Body, BodyView, Reply, ReplyView};
use crate::{codec, transport};

verus! {

/// Whether an outcome can be sent: the sum of the token counts fits, and a header
/// can carry the wait.
pub open spec fn answerable(outcome: ExecutionOutcome) -> bool {
    match outcome {
        ExecutionOutcome::Success(success) => success.plan.usage.fits(),
        ExecutionOutcome::Error(e) => e.retry_after matches Some(wait) ==> headers::valid_value(
            wait@,
        ),
        _ => true,
    }
}

/// The response to a planned completion.
pub open spec fn success_reply(
    success: SuccessOutcome,
    streamed: bool,
    include_usage: bool,
) -> ReplyView {
    let sent = if streamed {
        stream::stream_reply(
            stream::chat_texts(success.plan, include_usage, success.transport.malformed_sse),
            success.transport,
        )
    } else {
        ReplyView {
            delay_ms: 0,
            status: 200,
            headers: reply::typed("application/json"@),
            body: BodyView::Whole(codec::json_text(success.plan.chat_document())),
        }
    };
    ReplyView { delay_ms: success.transport.delay_before_headers_ms, ..sent }
}

/// The response to an outcome.
pub open spec fn outcome_reply(
    outcome: ExecutionOutcome,
    streamed: bool,
    include_usage: bool,
) -> ReplyView {
    match outcome {
        ExecutionOutcome::Success(success) => success_reply(success, streamed, include_usage),
        ExecutionOutcome::Error(e) => e.reply(),
        ExecutionOutcome::Transcript(t) => stream::transcript_reply(t),
        ExecutionOutcome::Raw(raw) => transport::raw_reply(raw),
        ExecutionOutcome::Hang { delay_before_headers_ms } => ReplyView {
            delay_ms: delay_before_headers_ms,
            status: 200,
            headers: Map::empty(),
            body: BodyView::Never,
        },
    }
}

/// Answers a chat completion with what executing its request gave.
pub fn create_chat_completion(
    outcome: ExecutionOutcome,
    streamed: bool,
    include_usage: bool,
) -> (r: Reply)
    requires
        answerable(outcome),
    ensures
        r@ == outcome_reply(outcome, streamed, include_usage),
{
    match outcome {
        ExecutionOutcome::Success(success) => {
            let mut sent = if streamed {
                stream::chat_sse_response(&success.plan, include_usage, success.transport)
            } else {
                let mut headers = Headers::new();
                headers.set("content-type", "application/json");
                assert(headers@ =~= reply::typed("application/json"@));
                Reply {
                    delay_ms: 0,
                    status: 200,
                    headers,
                    body: Body::Whole(codec::render(&success.plan.chat_completions_json())),
                }
            };
            sent.delay_ms = success.transport.delay_before_headers_ms;
            sent
        },
        ExecutionOutcome::Error(e) => e.response(),
        ExecutionOutcome::Transcript(t) => stream::transcript_response(t),
        ExecutionOutcome::Raw(raw) => transport::raw_response(raw),
        ExecutionOutcome::Hang { delay_before_headers_ms } => Reply {
            delay_ms: delay_before_headers_ms,
            status: 200,
            headers: Headers::new(),
            body: Body::Never,
        },
    }
}

} // verus!
