//! Responses as plain data: what is sent, and when.

use vstd::prelude::*;

use crate::headers::Headers;
use crate::sse::EventView;
use crate::{sse, text};

verus! {

/// What one chunk of a response body does.
pub enum Content {
    /// Sends text.
    Text(String),
    /// Sends bytes.
    Bytes(Vec<u8>),
    /// Fails the body and closes the connection.
    Failure(String),
}

/// One chunk of a response body and the wait before it.
pub struct Chunk {
    pub delay_ms: u64,
    pub content: Content,
}

/// A response body.
pub enum Body {
    /// Sent at once.
    Whole(String),
    /// Sent chunk by chunk.
    Chunks(Vec<Chunk>),
    /// Never sent: the response hangs.
    Never,
}

/// A response and the wait before its headers.
pub struct Reply {
    pub delay_ms: u64,
    pub status: u16,
    pub headers: Headers,
    pub body: Body,
}

/// What a chunk does.
#[verifier::ext_equal]
pub enum ContentView {
    Text(Seq<char>),
    Bytes(Seq<u8>),
    Failure(Seq<char>),
}

/// A chunk.
#[verifier::ext_equal]
pub struct ChunkView {
    pub delay_ms: u64,
    pub content: ContentView,
}

/// A response body.
#[verifier::ext_equal]
pub enum BodyView {
    Whole(Seq<char>),
    Chunks(Seq<ChunkView>),
    Never,
}

/// A response.
#[verifier::ext_equal]
pub struct ReplyView {
    pub delay_ms: u64,
    pub status: u16,
    pub headers: Map<Seq<char>, Seq<char>>,
    pub body: BodyView,
}

impl Content {
    /// What the chunk does.
    pub open spec fn view(&self) -> ContentView {
        match self {
            Content::Text(s) => ContentView::Text(s@),
            Content::Bytes(b) => ContentView::Bytes(b@),
            Content::Failure(s) => ContentView::Failure(s@),
        }
    }
}

impl Chunk {
    /// The chunk denoted.
    pub open spec fn view(&self) -> ChunkView {
        ChunkView { delay_ms: self.delay_ms, content: self.content@ }
    }
}

/// The chunks that a list holds.
pub open spec fn chunks_view(chunks: Seq<Chunk>) -> Seq<ChunkView> {
    Seq::new(chunks.len(), |i: int| chunks[i]@)
}

impl Body {
    /// The body denoted.
    pub open spec fn view(&self) -> BodyView {
        match self {
            Body::Whole(s) => BodyView::Whole(s@),
            Body::Chunks(chunks) => BodyView::Chunks(chunks_view(chunks@)),
            Body::Never => BodyView::Never,
        }
    }
}

impl Reply {
    /// The response denoted.
    pub open spec fn view(&self) -> ReplyView {
        ReplyView {
            delay_ms: self.delay_ms,
            status: self.status,
            headers: self.headers@,
            body: self.body@,
        }
    }
}

/// A chunk of text.
pub open spec fn text_chunk(delay_ms: u64, s: Seq<char>) -> ChunkView {
    ChunkView { delay_ms, content: ContentView::Text(s) }
}

/// The headers of a response that has a content type only.
pub open spec fn typed(content_type: Seq<char>) -> Map<Seq<char>, Seq<char>> {
    map!["content-type"@ => content_type]
}

/// Events sent one chunk each, without waiting.
pub open spec fn event_chunks(events: Seq<EventView>) -> Seq<ChunkView> {
    Seq::new(events.len(), |i: int| text_chunk(0, sse::rendered(events[i])))
}

/// The text that chunks send, one after another.
pub open spec fn sent_text(chunks: Seq<ChunkView>) -> Seq<char>
    decreases chunks.len(),
{
    if chunks.len() == 0 {
        Seq::empty()
    } else {
        let before = sent_text(chunks.drop_last());
        match chunks.last().content {
            ContentView::Text(s) => before + s,
            _ => before,
        }
    }
}

/// The chunks of events send the text of the events.
pub(crate) proof fn lemma_event_text(events: Seq<EventView>)
    ensures
        sent_text(event_chunks(events)) == sse::rendered_all(events),
    decreases events.len(),
{
    if events.len() > 0 {
        lemma_event_text(events.drop_last());
        assert(event_chunks(events).drop_last() =~= event_chunks(events.drop_last()));
    }
}

} // verus!
