//! Scripted response bodies, chunk by chunk.

use vstd::prelude::*;

use crate::headers;
use crate::headers::Headers;
use crate::reply;
use crate::reply::{Body, BodyView, Chunk, ChunkView, Content, ContentView, Reply, ReplyView};
use crate::text;

verus! {

/// One response-body action in a raw scenario.
pub enum RawChunk {
    /// Writes UTF-8 text to the response body.
    Text { text: String, delay_ms: u64 },
    /// Writes the byte values exactly as supplied.
    Bytes { bytes: Vec<u8>, delay_ms: u64 },
    /// Fails the response body and closes the connection.
    Error { message: String, delay_ms: u64 },
}

/// A raw response: exact body actions under a status and headers.
pub struct RawOutcome {
    pub status: u16,
    pub content_type: Option<String>,
    pub headers: Headers,
    pub chunks: Vec<RawChunk>,
    pub delay_before_headers_ms: u64,
}

impl RawChunk {
    /// The chunk that the action sends.
    pub open spec fn view(&self) -> ChunkView {
        match self {
            RawChunk::Text { text, delay_ms } => ChunkView {
                delay_ms: *delay_ms,
                content: ContentView::Text(text@),
            },
            RawChunk::Bytes { bytes, delay_ms } => ChunkView {
                delay_ms: *delay_ms,
                content: ContentView::Bytes(bytes@),
            },
            RawChunk::Error { message, delay_ms } => ChunkView {
                delay_ms: *delay_ms,
                content: ContentView::Failure(message@),
            },
        }
    }
}

/// The chunks of a list of actions.
pub open spec fn raw_view(chunks: Seq<RawChunk>) -> Seq<ChunkView> {
    Seq::new(chunks.len(), |i: int| chunks[i]@)
}

/// How many chunks are sent: all of them, or those up to the first failure.
pub open spec fn sent_count(chunks: Seq<ChunkView>) -> nat
    decreases chunks.len(),
{
    if chunks.len() == 0 {
        0
    } else if chunks[0].content is Failure {
        1
    } else {
        1 + sent_count(chunks.skip(1))
    }
}

/// The headers of a raw response: a valid content type overrides the scripted
/// headers.
pub open spec fn raw_headers(
    headers: Map<Seq<char>, Seq<char>>,
    content_type: Option<Seq<char>>,
) -> Map<Seq<char>, Seq<char>> {
    with_content_type(headers::sent_headers(headers), content_type)
}

/// Headers with a content type, where one is given and valid.
pub open spec fn with_content_type(
    headers: Map<Seq<char>, Seq<char>>,
    content_type: Option<Seq<char>>,
) -> Map<Seq<char>, Seq<char>> {
    match content_type {
        Some(value) if headers::valid_value(value) => headers.insert("content-type"@, value),
        _ => headers,
    }
}

/// The response that a raw scenario gives.
pub open spec fn raw_reply(outcome: RawOutcome) -> ReplyView {
    let chunks = raw_view(outcome.chunks@);
    ReplyView {
        delay_ms: outcome.delay_before_headers_ms,
        status: outcome.status,
        headers: raw_headers(outcome.headers@, text::opt_text(outcome.content_type)),
        body: BodyView::Chunks(chunks.take(sent_count(chunks) as int)),
    }
}

/// Sets the content type, where one is given and valid.
pub(crate) fn set_content_type(headers: &mut Headers, content_type: &Option<String>)
    ensures
        final(headers)@ == with_content_type(old(headers)@, text::opt_text(*content_type)),
{
    match content_type {
        Some(value) => if headers::is_valid_value(value.as_str()) {
            headers.set("content-type", value.as_str());
        },
        None => {},
    }
}

proof fn lemma_sent_count(chunks: Seq<ChunkView>, n: int)
    requires
        0 <= n <= chunks.len(),
        forall|i: int| 0 <= i < n ==> !((#[trigger] chunks[i]).content is Failure),
    ensures
        sent_count(chunks) == n + sent_count(chunks.skip(n)),
        sent_count(chunks.skip(n)) <= chunks.len() - n,
    decreases chunks.len(),
{
    if n == 0 {
        assert(chunks.skip(0) =~= chunks);
        if chunks.len() > 0 {
            assert(chunks.skip(1).skip(0) =~= chunks.skip(1));
            lemma_sent_count(chunks.skip(1), 0);
        }
    } else {
        assert(!(chunks[0].content is Failure));
        assert forall|i: int| 0 <= i < n - 1 implies !((#[trigger] chunks.skip(
            1,
        )[i]).content is Failure) by {
            assert(!(chunks[i + 1].content is Failure));
        }
        lemma_sent_count(chunks.skip(1), n - 1);
        assert(chunks.skip(1).skip(n - 1) =~= chunks.skip(n));
    }
}

/// Builds a response from exact, independently delayed body actions. Nothing is
/// sent after a failure.
pub fn raw_response(outcome: RawOutcome) -> (r: Reply)
    ensures
        r@ == raw_reply(outcome),
{
    let RawOutcome { status, content_type, headers, chunks, delay_before_headers_ms } = outcome;
    let mut sent = Headers::new();
    headers::apply_headers(&mut sent, &headers);
    assert(sent@ =~= headers::sent_headers(headers@));
    set_content_type(&mut sent, &content_type);
    let ghost all = raw_view(chunks@);
    let mut out: Vec<Chunk> = Vec::new();
    let mut failed: bool = false;
    for chunk in it: chunks
        invariant
            all == raw_view(it.seq()),
            out.len() <= it.index(),
            !failed ==> out.len() == it.index(),
            failed ==> out.len() == sent_count(all),
            !failed ==> forall|i: int|
                0 <= i < it.index() ==> !((#[trigger] all[i]).content is Failure),
            reply::chunks_view(out@) =~= all.take(out@.len() as int),
    {
        let ghost before = out@;
        let ghost n = it.index() as int;
        assert(all[n] == chunk@);
        if !failed {
            proof {
                lemma_sent_count(all, n);
                assert(all.skip(n)[0] == all[n]);
            }
            let made = match chunk {
                RawChunk::Text { text, delay_ms } => Chunk { delay_ms, content: Content::Text(text) },
                RawChunk::Bytes { bytes, delay_ms } => Chunk {
                    delay_ms,
                    content: Content::Bytes(bytes),
                },
                RawChunk::Error { message, delay_ms } => {
                    failed = true;
                    Chunk { delay_ms, content: Content::Failure(message) }
                },
            };
            out.push(made);
            assert(reply::chunks_view(out@) =~= reply::chunks_view(before).push(made@));
        }
    }
    proof {
        if !failed {
            lemma_sent_count(all, all.len() as int);
        }
    }
    Reply { delay_ms: delay_before_headers_ms, status, headers: sent, body: Body::Chunks(out) }
}

/// A failure ends a body: the chunks sent before the last hold none, and where
/// some chunks are not sent, the last one sent is a failure.
pub proof fn nothing_follows_a_failure(chunks: Seq<ChunkView>)
    ensures
        sent_count(chunks) <= chunks.len(),
        forall|i: int|
            0 <= i < sent_count(chunks) - 1 ==> !((#[trigger] chunks[i]).content is Failure),
        sent_count(chunks) < chunks.len() ==> sent_count(chunks) > 0 && chunks[sent_count(chunks)
            - 1].content is Failure,
    decreases chunks.len(),
{
    if chunks.len() > 0 && !(chunks[0].content is Failure) {
        let rest = chunks.skip(1);
        nothing_follows_a_failure(rest);
        assert forall|i: int| 0 <= i < sent_count(chunks) - 1 implies !((
        #[trigger] chunks[i]).content is Failure) by {
            if i > 0 {
                assert(!(rest[i - 1].content is Failure));
            }
        }
        if sent_count(chunks) < chunks.len() {
            assert(rest[sent_count(rest) - 1] == chunks[sent_count(chunks) - 1]);
        }
    }
}

/// A copy of a list of actions.
pub(crate) fn copy_chunks(chunks: &Vec<RawChunk>) -> (r: Vec<RawChunk>)
    ensures
        raw_view(r@) == raw_view(chunks@),
{
    let mut out: Vec<RawChunk> = Vec::new();
    for i in 0..chunks.len()
        invariant
            raw_view(out@) =~= raw_view(chunks@).take(i as int),
    {
        let ghost before = out@;
        let chunk = match &chunks[i] {
            RawChunk::Text { text, delay_ms } => RawChunk::Text {
                text: text.clone(),
                delay_ms: *delay_ms,
            },
            RawChunk::Bytes { bytes, delay_ms } => RawChunk::Bytes {
                bytes: bytes.clone(),
                delay_ms: *delay_ms,
            },
            RawChunk::Error { message, delay_ms } => RawChunk::Error {
                message: message.clone(),
                delay_ms: *delay_ms,
            },
        };
        assert(chunk@ =~= chunks@[i as int]@);
        out.push(chunk);
        assert(raw_view(out@) =~= raw_view(before).push(chunk@));
    }
    assert(raw_view(out@) =~= raw_view(chunks@));
    out
}

} // verus!
