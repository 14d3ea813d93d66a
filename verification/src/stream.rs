//! How an answer is put together from the chunks in which it comes in.
use vstd::prelude::*;

use crate::messages::{ChatMessage, MessageView};
use crate::metrics::{header_views, MetricsView, OllamaMetrics};
use crate::requests::{call_views, CallView};
use crate::results::{format_streaming_thinking, streaming_thinking};
use crate::text::{blank, is_blank};

verus! {

/// A chunk of an answer. The one that says that the answer is done also reports on the work.
#[derive(Debug)]
pub struct StreamChunk {
    pub message: ChatMessage,
    pub done: bool,
    pub total_duration: u64,
    pub load_duration: u64,
    pub prompt_eval_count: u64,
    pub prompt_eval_duration: u64,
    pub eval_count: u64,
    pub eval_duration: u64,
}

/// What reading a line of the stream comes to.
#[derive(Debug)]
pub enum StreamLine {
    /// The line could not be read, for the given reason.
    Unread(String),
    /// The line holds no chunk, for the given reason.
    Invalid(String),
    Chunk(StreamChunk),
}

/// An answer as far as it came in, and what the server reported of it.
#[derive(Debug)]
pub struct StreamChatResult {
    pub message: ChatMessage,
    pub metrics: OllamaMetrics,
}

/// Whether a line of the stream is to be read as a chunk: blank ones are passed over.
pub fn is_chunk_line(line: &str) -> (is_chunk: bool)
    ensures
        is_chunk == !blank(line@),
{
    !is_blank(line)
}

impl StreamChatResult {
    /// An answer of which nothing came in yet but the headers of the reply.
    pub fn start(http_headers: Vec<(String, String)>) -> (result: StreamChatResult)
        ensures
            result.message@ == (MessageView { content: Seq::empty(), tool_calls: Seq::empty() }),
            result.metrics@ == MetricsView::nothing(header_views(http_headers@)),
            result.collects(header_views(http_headers@), Seq::empty()),
    {
        let result = StreamChatResult {
            message: ChatMessage { content: String::new(), tool_calls: Vec::new() },
            metrics: OllamaMetrics::with_headers(http_headers),
        };
        assert(result.message@ =~= MessageView {
            content: Seq::empty(),
            tool_calls: Seq::empty(),
        });
        proof {
            nothing_collected(result);
        }
        result
    }

    /// Whether what the chunk reports can be added.
    pub open spec fn absorbable(self, chunk: StreamChunk) -> bool {
        chunk.done ==> {
            &&& self.metrics.total_duration_ns + chunk.total_duration <= u64::MAX
            &&& self.metrics.load_duration_ns + chunk.load_duration <= u64::MAX
            &&& self.metrics.prompt_eval_count + chunk.prompt_eval_count <= u64::MAX
            &&& self.metrics.prompt_eval_duration_ns + chunk.prompt_eval_duration <= u64::MAX
            &&& self.metrics.eval_count + chunk.eval_count <= u64::MAX
            &&& self.metrics.eval_duration_ns + chunk.eval_duration <= u64::MAX
            &&& self.metrics.request_count + 1 <= u32::MAX
        }
    }

    /// Whether what a line reports can be added.
    pub open spec fn takes(self, line: StreamLine) -> bool {
        match line {
            StreamLine::Chunk(chunk) => self.absorbable(chunk),
            _ => true,
        }
    }

    /// Whether what a line reports can be added.
    pub fn can_take(&self, line: &StreamLine) -> (can: bool)
        ensures
            can == self.takes(*line),
    {
        match line {
            StreamLine::Chunk(chunk) => {
                !chunk.done || (self.metrics.total_duration_ns <= u64::MAX - chunk.total_duration
                    && self.metrics.load_duration_ns <= u64::MAX - chunk.load_duration
                    && self.metrics.prompt_eval_count <= u64::MAX - chunk.prompt_eval_count
                    && self.metrics.prompt_eval_duration_ns <= u64::MAX
                    - chunk.prompt_eval_duration && self.metrics.eval_count <= u64::MAX
                    - chunk.eval_count && self.metrics.eval_duration_ns <= u64::MAX
                    - chunk.eval_duration && self.metrics.request_count < u32::MAX)
            },
            _ => true,
        }
    }

    /// Whether `result` is this answer with a chunk added: its text comes last, its tool calls take
    /// the place of earlier ones, and where it is the last one, what it reports is added up.
    pub open spec fn absorbed(self, chunk: StreamChunk, result: StreamChatResult) -> bool {
        let counts = if chunk.done {
            1int
        } else {
            0int
        };
        &&& result.message@.content == self.message@.content + chunk.message@.content
        &&& result.message@.tool_calls == (if chunk.message@.tool_calls.len() > 0 {
            chunk.message@.tool_calls
        } else {
            self.message@.tool_calls
        })
        &&& result.metrics.total_duration_ns == self.metrics.total_duration_ns + counts
            * chunk.total_duration
        &&& result.metrics.load_duration_ns == self.metrics.load_duration_ns + counts
            * chunk.load_duration
        &&& result.metrics.prompt_eval_count == self.metrics.prompt_eval_count + counts
            * chunk.prompt_eval_count
        &&& result.metrics.prompt_eval_duration_ns == self.metrics.prompt_eval_duration_ns + counts
            * chunk.prompt_eval_duration
        &&& result.metrics.eval_count == self.metrics.eval_count + counts * chunk.eval_count
        &&& result.metrics.eval_duration_ns == self.metrics.eval_duration_ns + counts
            * chunk.eval_duration
        &&& result.metrics.request_count == self.metrics.request_count + counts
        &&& result.metrics.http_headers == self.metrics.http_headers
    }

    /// Adds a chunk. Where it brings text, the thinking that is to be shown is returned.
    pub fn absorb(&mut self, chunk: StreamChunk, thinking_prefix: &str) -> (shown: Option<String>)
        requires
            old(self).absorbable(chunk),
        ensures
            old(self).absorbed(chunk, *final(self)),
            match shown {
                Some(thinking) => {
                    &&& chunk.message@.content.len() > 0
                    &&& thinking@ == streaming_thinking(
                        thinking_prefix@,
                        final(self).message@.content,
                    )
                },
                None => chunk.message@.content.len() == 0,
            },
    {
        let mut shown = None;
        let ghost before = *self;
        if !chunk.message.content.as_str().is_empty() {
            self.message.content.append(chunk.message.content.as_str());
            shown = Some(
                format_streaming_thinking(thinking_prefix, self.message.content.as_str()),
            );
        } else {
            assert(self.message@.content =~= before.message@.content + chunk.message@.content);
        }
        assert(call_views(chunk.message.tool_calls@).len() == chunk.message.tool_calls@.len());
        if chunk.message.tool_calls.len() > 0 {
            self.message.tool_calls = chunk.message.tool_calls;
        }
        if chunk.done {
            self.metrics.total_duration_ns += chunk.total_duration;
            self.metrics.load_duration_ns += chunk.load_duration;
            self.metrics.prompt_eval_count += chunk.prompt_eval_count;
            self.metrics.prompt_eval_duration_ns += chunk.prompt_eval_duration;
            self.metrics.eval_count += chunk.eval_count;
            self.metrics.eval_duration_ns += chunk.eval_duration;
            self.metrics.request_count += 1;
        }
        shown
    }

    /// Takes a line of the stream: a chunk is added, anything else ends the request with an error.
    pub fn take_line(&mut self, line: StreamLine, thinking_prefix: &str) -> (shown: Result<
        Option<String>,
        String,
    >)
        requires
            old(self).takes(line),
        ensures
            match line {
                StreamLine::Unread(reason) => {
                    &&& *final(self) == *old(self)
                    &&& shown is Err
                    &&& shown->Err_0@ == "Could not read Ollama stream: "@ + reason@
                },
                StreamLine::Invalid(reason) => {
                    &&& *final(self) == *old(self)
                    &&& shown is Err
                    &&& shown->Err_0@ == "Invalid Ollama stream chunk: "@ + reason@
                },
                StreamLine::Chunk(chunk) => {
                    &&& old(self).absorbed(chunk, *final(self))
                    &&& shown is Ok
                    &&& shown->Ok_0 is Some <==> chunk.message@.content.len() > 0
                    &&& shown->Ok_0 is Some ==> shown->Ok_0->0@ == streaming_thinking(
                        thinking_prefix@,
                        final(self).message@.content,
                    )
                },
            },
    {
        match line {
            StreamLine::Unread(reason) => {
                let mut message = "Could not read Ollama stream: ".to_owned();
                message.append(reason.as_str());
                Err(message)
            },
            StreamLine::Invalid(reason) => {
                let mut message = "Invalid Ollama stream chunk: ".to_owned();
                message.append(reason.as_str());
                Err(message)
            },
            StreamLine::Chunk(chunk) => Ok(self.absorb(chunk, thinking_prefix)),
        }
    }

    /// Whether this is what chunks come to that followed the given headers.
    pub open spec fn collects(
        self,
        headers: Seq<(Seq<char>, Seq<char>)>,
        chunks: Seq<StreamChunk>,
    ) -> bool {
        &&& self.message@.content == streamed_content(chunks)
        &&& self.message@.tool_calls == streamed_calls(chunks)
        &&& self.metrics.total_duration_ns == reported(chunks, |c: StreamChunk| c.total_duration)
        &&& self.metrics.load_duration_ns == reported(chunks, |c: StreamChunk| c.load_duration)
        &&& self.metrics.prompt_eval_count == reported(
            chunks,
            |c: StreamChunk| c.prompt_eval_count,
        )
        &&& self.metrics.prompt_eval_duration_ns == reported(
            chunks,
            |c: StreamChunk| c.prompt_eval_duration,
        )
        &&& self.metrics.eval_count == reported(chunks, |c: StreamChunk| c.eval_count)
        &&& self.metrics.eval_duration_ns == reported(chunks, |c: StreamChunk| c.eval_duration)
        &&& self.metrics.request_count == reported(chunks, |c: StreamChunk| 1u64)
        &&& header_views(self.metrics.http_headers@) == headers
    }
}

/// The text of all chunks, one after the other.
pub open spec fn streamed_content(chunks: Seq<StreamChunk>) -> Seq<char> {
    chunks.map_values(|chunk: StreamChunk| chunk.message@.content).flatten()
}

/// The tool calls of the last chunk that has any.
pub open spec fn streamed_calls(chunks: Seq<StreamChunk>) -> Seq<CallView>
    decreases chunks.len(),
{
    if chunks.len() == 0 {
        Seq::empty()
    } else if chunks.last().message@.tool_calls.len() > 0 {
        chunks.last().message@.tool_calls
    } else {
        streamed_calls(chunks.drop_last())
    }
}

/// What the chunks that end an answer report of a figure, in all.
pub open spec fn reported(chunks: Seq<StreamChunk>, figure: spec_fn(StreamChunk) -> u64) -> int
    decreases chunks.len(),
{
    if chunks.len() == 0 {
        0
    } else {
        reported(chunks.drop_last(), figure) + if chunks.last().done {
            figure(chunks.last()) as int
        } else {
            0
        }
    }
}

/// An answer of which nothing came in yet is what no chunks come to.
proof fn nothing_collected(result: StreamChatResult)
    requires
        result.message@ == (MessageView { content: Seq::empty(), tool_calls: Seq::empty() }),
        result.metrics@ == MetricsView::nothing(result.metrics@.http_headers),
    ensures
        result.collects(header_views(result.metrics.http_headers@), Seq::empty()),
{
    let none = Seq::<StreamChunk>::empty().map_values(|chunk: StreamChunk| chunk.message@.content);
    assert(none =~= Seq::empty());
    assert(none.flatten() =~= Seq::empty());
}

/// Adding one chunk after the other gives what all of them come to: their texts joined, the tool
/// calls of the last one that has any, and the sums of what was reported.
pub proof fn collects_one_more(
    headers: Seq<(Seq<char>, Seq<char>)>,
    chunks: Seq<StreamChunk>,
    before: StreamChatResult,
    chunk: StreamChunk,
    after: StreamChatResult,
)
    requires
        before.collects(headers, chunks),
        before.absorbed(chunk, after),
    ensures
        after.collects(headers, chunks.push(chunk)),
{
    let all = chunks.push(chunk);
    assert(all.drop_last() =~= chunks);
    let text = |chunk: StreamChunk| chunk.message@.content;
    assert(all.map_values(text) =~= chunks.map_values(text).push(chunk.message@.content));
    chunks.map_values(text).lemma_flatten_push(chunk.message@.content);
}

/// A chunk adds its text to the end of the answer. Its tool calls count where it has any, and what it
/// reports is added where it is the last one, which also counts as a request; else nothing is.
pub proof fn chunks_are_added(
    before: StreamChatResult,
    chunk: StreamChunk,
    after: StreamChatResult,
)
    requires
        before.absorbed(chunk, after),
    ensures
        after.message@.content == before.message@.content + chunk.message@.content,
        chunk.message@.tool_calls.len() > 0 ==> after.message@.tool_calls
            == chunk.message@.tool_calls,
        chunk.message@.tool_calls.len() == 0 ==> after.message@.tool_calls
            == before.message@.tool_calls,
        chunk.done ==> {
            &&& after.metrics.total_duration_ns == before.metrics.total_duration_ns
                + chunk.total_duration
            &&& after.metrics.load_duration_ns == before.metrics.load_duration_ns
                + chunk.load_duration
            &&& after.metrics.prompt_eval_count == before.metrics.prompt_eval_count
                + chunk.prompt_eval_count
            &&& after.metrics.prompt_eval_duration_ns == before.metrics.prompt_eval_duration_ns
                + chunk.prompt_eval_duration
            &&& after.metrics.eval_count == before.metrics.eval_count + chunk.eval_count
            &&& after.metrics.eval_duration_ns == before.metrics.eval_duration_ns
                + chunk.eval_duration
            &&& after.metrics.request_count == before.metrics.request_count + 1
        },
        !chunk.done ==> after.metrics@ == before.metrics@,
        after.metrics.http_headers == before.metrics.http_headers,
{
    assert(0int * chunk.total_duration == 0 && 1int * chunk.total_duration == chunk.total_duration);
    assert(0int * chunk.load_duration == 0 && 1int * chunk.load_duration == chunk.load_duration);
    if !chunk.done {
        assert(after.metrics@ =~= before.metrics@);
    }
}

/// How an answer is cut into chunks does not matter to its text: what two runs of chunks bring is what
/// the one brings and then the other.
pub proof fn texts_of_chunks_are_joined(first: Seq<StreamChunk>, second: Seq<StreamChunk>)
    ensures
        streamed_content(first + second) == streamed_content(first) + streamed_content(second),
    decreases second.len(),
{
    let text = |chunk: StreamChunk| chunk.message@.content;
    let nothing = Seq::<Seq<char>>::empty();
    if second.len() == 0 {
        assert(first + second =~= first);
        assert(second.map_values(text) =~= nothing);
        assert(nothing.flatten() =~= Seq::<char>::empty());
        assert(streamed_content(first) + streamed_content(second) =~= streamed_content(first));
    } else {
        let shorter = second.drop_last();
        let last = second.last();
        texts_of_chunks_are_joined(first, shorter);
        assert((first + second).map_values(text) =~= (first + shorter).map_values(text).push(
            last.message@.content,
        ));
        assert(second.map_values(text) =~= shorter.map_values(text).push(last.message@.content));
        (first + shorter).map_values(text).lemma_flatten_push(last.message@.content);
        shorter.map_values(text).lemma_flatten_push(last.message@.content);
        assert(streamed_content(first + second) =~= streamed_content(first) + streamed_content(
            second,
        ));
    }
}

/// The text of one chunk is its own.
pub proof fn text_of_one_chunk(chunk: StreamChunk)
    ensures
        streamed_content(seq![chunk]) == chunk.message@.content,
{
    let text = |chunk: StreamChunk| chunk.message@.content;
    let nothing = Seq::<Seq<char>>::empty();
    assert(seq![chunk].map_values(text) =~= nothing.push(chunk.message@.content));
    nothing.lemma_flatten_push(chunk.message@.content);
    assert(nothing.flatten() =~= Seq::<char>::empty());
    assert(Seq::<char>::empty() + chunk.message@.content =~= chunk.message@.content);
}

/// What a chunk reports can be added wherever it reports nothing yet, or every sum can be held.
pub proof fn chunks_that_can_be_added(result: StreamChatResult, chunk: StreamChunk)
    ensures
        !chunk.done ==> result.absorbable(chunk),
        chunk.done ==> (result.absorbable(chunk) <==> {
            &&& result.metrics.total_duration_ns + chunk.total_duration <= 0xffff_ffff_ffff_ffff
            &&& result.metrics.load_duration_ns + chunk.load_duration <= 0xffff_ffff_ffff_ffff
            &&& result.metrics.prompt_eval_count + chunk.prompt_eval_count <= 0xffff_ffff_ffff_ffff
            &&& result.metrics.prompt_eval_duration_ns + chunk.prompt_eval_duration
                <= 0xffff_ffff_ffff_ffff
            &&& result.metrics.eval_count + chunk.eval_count <= 0xffff_ffff_ffff_ffff
            &&& result.metrics.eval_duration_ns + chunk.eval_duration <= 0xffff_ffff_ffff_ffff
            &&& result.metrics.request_count + 1 <= 0xffff_ffff
        }),
{
}

/// The tool calls of an answer are those of its last chunk that has any, and none where none has.
pub proof fn last_tool_calls_count(chunks: Seq<StreamChunk>, i: int)
    requires
        0 <= i < chunks.len(),
        chunks[i].message@.tool_calls.len() > 0,
        forall|j: int|
            i < j < chunks.len() ==> (#[trigger] chunks[j]).message@.tool_calls.len() == 0,
    ensures
        streamed_calls(chunks) == chunks[i].message@.tool_calls,
    decreases chunks.len(),
{
    if i < chunks.len() - 1 {
        let before = chunks.drop_last();
        assert(chunks[chunks.len() - 1].message@.tool_calls.len() == 0);
        assert(before[i] == chunks[i]);
        assert forall|j: int| i < j < before.len() implies (
        #[trigger] before[j]).message@.tool_calls.len() == 0 by {
            assert(before[j] == chunks[j]);
        }
        last_tool_calls_count(before, i);
    }
}

/// Only chunks that end an answer report, and what they report is added up.
pub proof fn last_chunks_report(
    chunks: Seq<StreamChunk>,
    chunk: StreamChunk,
    figure: spec_fn(StreamChunk) -> u64,
)
    ensures
        reported(Seq::empty(), figure) == 0,
        chunk.done ==> reported(chunks.push(chunk), figure) == reported(chunks, figure) + figure(
            chunk,
        ),
        !chunk.done ==> reported(chunks.push(chunk), figure) == reported(chunks, figure),
{
    assert(chunks.push(chunk).drop_last() =~= chunks);
}

} // verus!
