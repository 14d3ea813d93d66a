//! The messages that are exchanged with the model's server.
use vstd::prelude::*;

use crate::json::{
    entries_are_found, entry, entry_views, item_views, json_number, nothing_else_is_found,
    object_of, Json, JsonView,
};
use crate::metrics::{header_views, MetricsView, OllamaMetrics};
use crate::platform::Platform;
use crate::requests::{call_views, CallView, ToolCall};
use crate::settings::LlmConfig;
use crate::text::{only_long_texts_are_cut, truncate, truncated};
use crate::tools::{available_schemas, tool_definitions};

verus! {

/// How many messages of a conversation are sent.
pub const MAX_CONTEXT_MESSAGES: usize = 20;

/// How much of a message of a conversation is sent.
pub const MAX_CONTEXT_MESSAGE_CHARS: usize = 3000;

/// How much of a tool's result is sent.
pub const MAX_TOOL_RESULT_CHARS: usize = 4000;

/// How long the server is to keep the model ready.
pub const KEEP_ALIVE: &'static str = "30m";

/// A message of the conversation: who speaks, and what they say.
#[derive(Debug, PartialEq, Eq)]
pub struct ChatTurn {
    pub role: String,
    pub content: String,
}

/// The model of a message of the conversation.
pub struct TurnView {
    pub role: Seq<char>,
    pub content: Seq<char>,
}

/// What the model answers: a text, and tools that it calls.
#[derive(Debug, PartialEq, Eq)]
pub struct ChatMessage {
    pub content: String,
    pub tool_calls: Vec<ToolCall>,
}

/// The model of an answer.
#[verifier::ext_equal]
pub struct MessageView {
    pub content: Seq<char>,
    pub tool_calls: Seq<CallView>,
}

/// Options of the model.
#[derive(Debug)]
pub struct ModelOptions {
    pub num_ctx: u32,
}

/// A request to the server.
#[derive(Debug)]
pub struct ChatRequest {
    pub model: String,
    pub messages: Vec<Json>,
    pub stream: bool,
    pub tools: Vec<Json>,
    pub keep_alive: String,
    pub truncate: bool,
    pub options: ModelOptions,
}

/// One request and what came back.
#[derive(Debug)]
pub struct ChatRoundTrace {
    pub request: Json,
    pub response: Json,
}

/// The requests that led to an answer.
#[derive(Debug)]
pub struct ChatTrace {
    pub rounds: Vec<ChatRoundTrace>,
}

impl View for ChatTurn {
    type V = TurnView;

    open spec fn view(&self) -> TurnView {
        TurnView { role: self.role@, content: self.content@ }
    }
}

impl View for ChatMessage {
    type V = MessageView;

    open spec fn view(&self) -> MessageView {
        MessageView { content: self.content@, tool_calls: call_views(self.tool_calls@) }
    }
}

impl View for ChatTrace {
    type V = Seq<(JsonView, JsonView)>;

    open spec fn view(&self) -> Seq<(JsonView, JsonView)> {
        self.rounds@.map_values(|round: ChatRoundTrace| (round.request@, round.response@))
    }
}

/// The models of messages of a conversation.
pub open spec fn turn_views(turns: Seq<ChatTurn>) -> Seq<TurnView> {
    turns.map_values(|turn: ChatTurn| turn@)
}

impl Clone for ChatTurn {
    fn clone(&self) -> (copy: Self)
        ensures
            copy == *self,
    {
        ChatTurn { role: self.role.clone(), content: self.content.clone() }
    }
}

impl Clone for ChatRoundTrace {
    fn clone(&self) -> (copy: Self)
        ensures
            copy.request@ == self.request@,
            copy.response@ == self.response@,
    {
        ChatRoundTrace { request: self.request.clone(), response: self.response.clone() }
    }
}

impl Default for ChatTrace {
    fn default() -> (trace: Self)
        ensures
            trace@ == Seq::<(JsonView, JsonView)>::empty(),
    {
        let trace = ChatTrace { rounds: Vec::new() };
        assert(trace@ =~= Seq::empty());
        trace
    }
}

impl Clone for ChatTrace {
    fn clone(&self) -> (copy: Self)
        ensures
            copy@ == self@,
    {
        let mut copy = ChatTrace::default();
        let mut i: usize = 0;
        while i < self.rounds.len()
            invariant
                i <= self.rounds@.len(),
                copy@ == self@.take(i as int),
            decreases self.rounds@.len() - i,
        {
            let round = &self.rounds[i];
            copy.add(round.request.clone(), round.response.clone());
            assert(self@.take(i + 1) =~= self@.take(i as int).push(self@[i as int]));
            i += 1;
        }
        assert(self@.take(i as int) =~= self@);
        copy
    }
}

impl ChatTrace {
    /// Adds a request and what came back.
    pub fn add(&mut self, request: Json, response: Json)
        ensures
            final(self)@ == old(self)@.push((request@, response@)),
    {
        let ghost before = self@;
        self.rounds.push(ChatRoundTrace { request, response });
        assert(self@ =~= before.push((request@, response@)));
    }
}

/// The messages of a conversation that are sent: the last ones, each cut to a length.
pub open spec fn sent_context(turns: Seq<TurnView>) -> Seq<TurnView> {
    let last = if turns.len() <= MAX_CONTEXT_MESSAGES {
        turns
    } else {
        turns.skip(turns.len() - MAX_CONTEXT_MESSAGES)
    };
    last.map_values(
        |turn: TurnView|
            TurnView {
                role: turn.role,
                content: truncated(turn.content, MAX_CONTEXT_MESSAGE_CHARS as nat),
            },
    )
}

/// The messages of a conversation that are sent: the last ones, each cut to a length.
pub fn trim_context_messages(messages: &[ChatTurn]) -> (sent: Vec<ChatTurn>)
    ensures
        turn_views(sent@) == sent_context(turn_views(messages@)),
{
    let total: usize = messages.len();
    let start: usize = if total <= MAX_CONTEXT_MESSAGES {
        0
    } else {
        total - MAX_CONTEXT_MESSAGES
    };
    let ghost all = sent_context(turn_views(messages@));
    let mut sent: Vec<ChatTurn> = Vec::new();
    let mut i: usize = start;
    while i < total
        invariant
            start <= i <= total == messages@.len(),
            start == (if total <= MAX_CONTEXT_MESSAGES {
                0
            } else {
                total - MAX_CONTEXT_MESSAGES
            }),
            all == sent_context(turn_views(messages@)),
            turn_views(sent@) == all.take(i - start),
        decreases total - i,
    {
        let turn = ChatTurn {
            role: messages[i].role.clone(),
            content: truncate(messages[i].content.as_str(), MAX_CONTEXT_MESSAGE_CHARS),
        };
        let ghost before = turn_views(sent@);
        assert(all[i - start] == turn@);
        sent.push(turn);
        assert(turn_views(sent@) =~= before.push(turn@));
        assert(all.take(i - start + 1) =~= before.push(all[i - start]));
        i += 1;
    }
    assert(all.take(i - start) =~= all);
    sent
}

/// A message with a role and a text.
pub open spec fn text_message(role: Seq<char>, content: Seq<char>) -> JsonView {
    object_of(seq![("role"@, JsonView::Text(role)), ("content"@, JsonView::Text(content))])
}

/// A message with a role and a text.
pub fn text_message_json(role: &str, content: &str) -> (json: Json)
    ensures
        json@ == text_message(role@, content@),
{
    let entries = vec![
        entry("role", Json::from_text(role)),
        entry("content", Json::from_text(content)),
    ];
    assert(entry_views(entries@) =~= seq![
        ("role"@, JsonView::Text(role@)),
        ("content"@, JsonView::Text(content@)),
    ]);
    Json::from_entries(entries)
}

/// A tool call as it is sent.
pub open spec fn call_json(call: CallView) -> JsonView {
    object_of(
        seq![
            (
                "function"@,
                object_of(
                    seq![("name"@, JsonView::Text(call.name)), ("arguments"@, call.arguments)],
                ),
            ),
        ],
    )
}

/// Tool calls as they are sent.
pub open spec fn calls_json(calls: Seq<CallView>) -> JsonView {
    JsonView::Array(calls.map_values(|call: CallView| call_json(call)))
}

/// Tool calls as they are sent.
pub fn tool_calls_json(calls: &Vec<ToolCall>) -> (json: Json)
    ensures
        json@ == calls_json(call_views(calls@)),
{
    let ghost all = call_views(calls@).map_values(|call: CallView| call_json(call));
    let mut items: Vec<Json> = Vec::new();
    let mut i: usize = 0;
    while i < calls.len()
        invariant
            i <= calls@.len(),
            all == call_views(calls@).map_values(|call: CallView| call_json(call)),
            item_views(items@) == all.take(i as int),
        decreases calls@.len() - i,
    {
        let function = &calls[i].function;
        let fields = vec![
            entry("name", Json::from_text(function.name.as_str())),
            entry("arguments", function.arguments.clone()),
        ];
        assert(entry_views(fields@) =~= seq![
            ("name"@, JsonView::Text(function.name@)),
            ("arguments"@, function.arguments@),
        ]);
        let outer = vec![entry("function", Json::from_entries(fields))];
        assert(entry_views(outer@) =~= seq![("function"@, object_of(entry_views(fields@)))]);
        let ghost before = item_views(items@);
        items.push(Json::from_entries(outer));
        assert(all[i as int] == call_json(calls@[i as int]@));
        assert(item_views(items@) =~= before.push(all[i as int]));
        assert(all.take(i + 1) =~= before.push(all[i as int]));
        i += 1;
    }
    assert(all.take(i as int) =~= all);
    Json::from_items(items)
}

/// An answer of the model as it is sent back to it.
pub open spec fn assistant_message(message: MessageView) -> JsonView {
    if message.tool_calls.len() == 0 {
        text_message("assistant"@, message.content)
    } else {
        object_of(
            seq![
                ("role"@, JsonView::Text("assistant"@)),
                ("content"@, JsonView::Text(message.content)),
                ("tool_calls"@, calls_json(message.tool_calls)),
            ],
        )
    }
}

/// An answer of the model as it is sent back to it: its text, and its tool calls if it made any.
pub fn assistant_message_json(message: &ChatMessage) -> (json: Json)
    ensures
        json@ == assistant_message(message@),
{
    if message.tool_calls.len() == 0 {
        text_message_json("assistant", message.content.as_str())
    } else {
        let entries = vec![
            entry("role", Json::from_text("assistant")),
            entry("content", Json::from_text(message.content.as_str())),
            entry("tool_calls", tool_calls_json(&message.tool_calls)),
        ];
        assert(entry_views(entries@) =~= seq![
            ("role"@, JsonView::Text("assistant"@)),
            ("content"@, JsonView::Text(message.content@)),
            ("tool_calls"@, calls_json(call_views(message.tool_calls@))),
        ]);
        Json::from_entries(entries)
    }
}

/// The result of a tool as it is sent to the model.
pub open spec fn tool_message(tool_name: Seq<char>, result: Seq<char>) -> JsonView {
    object_of(
        seq![
            ("role"@, JsonView::Text("tool"@)),
            ("tool_name"@, JsonView::Text(tool_name)),
            ("content"@, JsonView::Text(truncated(result, MAX_TOOL_RESULT_CHARS as nat))),
        ],
    )
}

/// The result of a tool as it is sent to the model, cut to a length.
pub fn tool_message_json(tool_name: &str, result: &str) -> (json: Json)
    ensures
        json@ == tool_message(tool_name@, result@),
{
    let short = truncate(result, MAX_TOOL_RESULT_CHARS);
    let entries = vec![
        entry("role", Json::from_text("tool")),
        entry("tool_name", Json::from_text(tool_name)),
        entry("content", Json::from_text(short.as_str())),
    ];
    assert(entry_views(entries@) =~= seq![
        ("role"@, JsonView::Text("tool"@)),
        ("tool_name"@, JsonView::Text(tool_name@)),
        ("content"@, JsonView::Text(short@)),
    ]);
    Json::from_entries(entries)
}

/// Copies of JSON values.
pub fn copy_items(items: &Vec<Json>) -> (copies: Vec<Json>)
    ensures
        item_views(copies@) == item_views(items@),
{
    let mut copies: Vec<Json> = Vec::new();
    let mut i: usize = 0;
    while i < items.len()
        invariant
            i <= items@.len(),
            item_views(copies@) == item_views(items@).take(i as int),
        decreases items@.len() - i,
    {
        let ghost before = item_views(copies@);
        copies.push(items[i].clone());
        assert(item_views(copies@) =~= before.push(items@[i as int]@));
        assert(item_views(items@).take(i + 1) =~= before.push(items@[i as int]@));
        i += 1;
    }
    assert(item_views(items@).take(i as int) =~= item_views(items@));
    copies
}

/// A request as it is sent.
pub open spec fn chat_request(
    model: Seq<char>,
    messages: Seq<JsonView>,
    tools: Seq<JsonView>,
    num_ctx: u32,
) -> JsonView {
    object_of(
        seq![
            ("model"@, JsonView::Text(model)),
            ("messages"@, JsonView::Array(messages)),
            ("stream"@, JsonView::Bool(true)),
            ("tools"@, JsonView::Array(tools)),
            ("keep_alive"@, JsonView::Text(KEEP_ALIVE@)),
            ("truncate"@, JsonView::Bool(true)),
            (
                "options"@,
                object_of(seq![("num_ctx"@, JsonView::Number(json_number(num_ctx as u64)))]),
            ),
        ],
    )
}

/// The request for the next answer to `messages`.
pub fn build_chat_request(
    config: &LlmConfig,
    messages: &Vec<Json>,
    platform: Platform,
) -> (request: ChatRequest)
    ensures
        request.model@ == config.model@,
        item_views(request.messages@) == item_views(messages@),
        request.stream,
        item_views(request.tools@) == available_schemas(platform),
        request.keep_alive@ == KEEP_ALIVE@,
        request.truncate,
        request.options.num_ctx == config.num_ctx,
        request.json() == chat_request(
            config.model@,
            item_views(messages@),
            available_schemas(platform),
            config.num_ctx,
        ),
{
    ChatRequest {
        model: config.model.clone(),
        messages: copy_items(messages),
        stream: true,
        tools: tool_definitions(platform),
        keep_alive: KEEP_ALIVE.to_owned(),
        truncate: true,
        options: ModelOptions { num_ctx: config.num_ctx },
    }
}

impl ChatRequest {
    /// The request as it is sent.
    pub open spec fn json(self) -> JsonView {
        object_of(
            seq![
                ("model"@, JsonView::Text(self.model@)),
                ("messages"@, JsonView::Array(item_views(self.messages@))),
                ("stream"@, JsonView::Bool(self.stream)),
                ("tools"@, JsonView::Array(item_views(self.tools@))),
                ("keep_alive"@, JsonView::Text(self.keep_alive@)),
                ("truncate"@, JsonView::Bool(self.truncate)),
                (
                    "options"@,
                    object_of(
                        seq![
                            (
                                "num_ctx"@,
                                JsonView::Number(json_number(self.options.num_ctx as u64)),
                            ),
                        ],
                    ),
                ),
            ],
        )
    }

    /// The request as it is sent.
    pub fn to_json(&self) -> (json: Json)
        ensures
            json@ == self.json(),
    {
        let num_ctx = self.options.num_ctx as u64;
        let options = vec![entry("num_ctx", Json::from_number(num_ctx))];
        assert(entry_views(options@) =~= seq![
            ("num_ctx"@, JsonView::Number(json_number(num_ctx))),
        ]);
        let ghost options_view = object_of(entry_views(options@));
        let entries = vec![
            entry("model", Json::from_text(self.model.as_str())),
            entry("messages", Json::from_items(copy_items(&self.messages))),
            entry("stream", Json::Bool(self.stream)),
            entry("tools", Json::from_items(copy_items(&self.tools))),
            entry("keep_alive", Json::from_text(self.keep_alive.as_str())),
            entry("truncate", Json::Bool(self.truncate)),
            entry("options", Json::from_entries(options)),
        ];
        assert(entry_views(entries@) =~= seq![
            ("model"@, JsonView::Text(self.model@)),
            ("messages"@, JsonView::Array(item_views(self.messages@))),
            ("stream"@, JsonView::Bool(self.stream)),
            ("tools"@, JsonView::Array(item_views(self.tools@))),
            ("keep_alive"@, JsonView::Text(self.keep_alive@)),
            ("truncate"@, JsonView::Bool(self.truncate)),
            ("options"@, options_view),
        ]);
        Json::from_entries(entries)
    }
}

/// A header as it is kept in a trace.
pub open spec fn header_json(header: (Seq<char>, Seq<char>)) -> JsonView {
    JsonView::Array(seq![JsonView::Text(header.0), JsonView::Text(header.1)])
}

/// A number as it is kept in a trace.
pub open spec fn number_json(value: u64) -> JsonView {
    JsonView::Number(json_number(value))
}

/// What a trace keeps of an answer: the message, what the server reported, and the headers.
pub open spec fn traced_response(message: MessageView, metrics: MetricsView) -> JsonView {
    object_of(
        seq![
            (
                "message"@,
                object_of(
                    seq![
                        ("role"@, JsonView::Text("assistant"@)),
                        ("content"@, JsonView::Text(message.content)),
                        ("tool_calls"@, calls_json(message.tool_calls)),
                    ],
                ),
            ),
            (
                "usage"@,
                object_of(
                    seq![
                        ("total_duration_ns"@, number_json(metrics.total_duration_ns)),
                        ("load_duration_ns"@, number_json(metrics.load_duration_ns)),
                        ("prompt_eval_count"@, number_json(metrics.prompt_eval_count)),
                        ("prompt_eval_duration_ns"@, number_json(metrics.prompt_eval_duration_ns)),
                        ("eval_count"@, number_json(metrics.eval_count)),
                        ("eval_duration_ns"@, number_json(metrics.eval_duration_ns)),
                    ],
                ),
            ),
            (
                "http_headers"@,
                JsonView::Array(
                    metrics.http_headers.map_values(
                        |header: (Seq<char>, Seq<char>)| header_json(header),
                    ),
                ),
            ),
        ],
    )
}

/// Headers as they are kept in a trace.
fn headers_json(headers: &Vec<(String, String)>) -> (json: Json)
    ensures
        json@ == JsonView::Array(
            header_views(headers@).map_values(
                |header: (Seq<char>, Seq<char>)| header_json(header),
            ),
        ),
{
    let ghost all = header_views(headers@).map_values(
        |header: (Seq<char>, Seq<char>)| header_json(header),
    );
    let mut items: Vec<Json> = Vec::new();
    let mut i: usize = 0;
    while i < headers.len()
        invariant
            i <= headers@.len(),
            all == header_views(headers@).map_values(
                |header: (Seq<char>, Seq<char>)| header_json(header),
            ),
            item_views(items@) == all.take(i as int),
        decreases headers@.len() - i,
    {
        let pair = vec![
            Json::from_text(headers[i].0.as_str()),
            Json::from_text(headers[i].1.as_str()),
        ];
        assert(item_views(pair@) =~= seq![
            JsonView::Text(headers@[i as int].0@),
            JsonView::Text(headers@[i as int].1@),
        ]);
        let ghost before = item_views(items@);
        items.push(Json::from_items(pair));
        assert(all[i as int] == header_json((headers@[i as int].0@, headers@[i as int].1@)));
        assert(item_views(items@) =~= before.push(all[i as int]));
        assert(all.take(i + 1) =~= before.push(all[i as int]));
        i += 1;
    }
    assert(all.take(i as int) =~= all);
    Json::from_items(items)
}

/// What a trace keeps of an answer.
pub fn trace_response_value(message: &ChatMessage, metrics: &OllamaMetrics) -> (json: Json)
    ensures
        json@ == traced_response(message@, metrics@),
{
    let said = vec![
        entry("role", Json::from_text("assistant")),
        entry("content", Json::from_text(message.content.as_str())),
        entry("tool_calls", tool_calls_json(&message.tool_calls)),
    ];
    assert(entry_views(said@) =~= seq![
        ("role"@, JsonView::Text("assistant"@)),
        ("content"@, JsonView::Text(message.content@)),
        ("tool_calls"@, calls_json(call_views(message.tool_calls@))),
    ]);
    let ghost said_view = object_of(entry_views(said@));
    let usage = vec![
        entry("total_duration_ns", Json::from_number(metrics.total_duration_ns)),
        entry("load_duration_ns", Json::from_number(metrics.load_duration_ns)),
        entry("prompt_eval_count", Json::from_number(metrics.prompt_eval_count)),
        entry("prompt_eval_duration_ns", Json::from_number(metrics.prompt_eval_duration_ns)),
        entry("eval_count", Json::from_number(metrics.eval_count)),
        entry("eval_duration_ns", Json::from_number(metrics.eval_duration_ns)),
    ];
    assert(entry_views(usage@) =~= seq![
        ("total_duration_ns"@, number_json(metrics.total_duration_ns)),
        ("load_duration_ns"@, number_json(metrics.load_duration_ns)),
        ("prompt_eval_count"@, number_json(metrics.prompt_eval_count)),
        ("prompt_eval_duration_ns"@, number_json(metrics.prompt_eval_duration_ns)),
        ("eval_count"@, number_json(metrics.eval_count)),
        ("eval_duration_ns"@, number_json(metrics.eval_duration_ns)),
    ]);
    let ghost usage_view = object_of(entry_views(usage@));
    let headers = headers_json(&metrics.http_headers);
    let ghost headers_view = headers@;
    let entries = vec![
        entry("message", Json::from_entries(said)),
        entry("usage", Json::from_entries(usage)),
        entry("http_headers", headers),
    ];
    assert(entry_views(entries@) =~= seq![
        ("message"@, said_view),
        ("usage"@, usage_view),
        ("http_headers"@, headers_view),
    ]);
    Json::from_entries(entries)
}

/// What is sent of a conversation is bounded: at most so many messages, each of at most so many
/// characters and an ellipsis.
pub proof fn sent_context_is_bounded(turns: Seq<TurnView>)
    ensures
        sent_context(turns).len() <= MAX_CONTEXT_MESSAGES,
        sent_context(turns).len() <= turns.len(),
        forall|i: int|
            0 <= i < sent_context(turns).len() ==> (#[trigger] sent_context(turns)[i]).content.len()
                <= MAX_CONTEXT_MESSAGE_CHARS + 1,
{
    reveal_strlit("…");
}

/// What is sent of a conversation are its last messages, in order, each from the same speaker; one
/// that is not too long is sent as it is.
pub proof fn sent_context_is_the_end(turns: Seq<TurnView>, i: int)
    requires
        0 <= i < sent_context(turns).len(),
    ensures
        ({
            let turn = turns[turns.len() - sent_context(turns).len() + i];
            &&& sent_context(turns)[i].role == turn.role
            &&& turn.content.len() <= MAX_CONTEXT_MESSAGE_CHARS ==> sent_context(turns)[i] == turn
        }),
{
}

/// The whole conversation is sent, or its last twenty messages where it has more: each from its
/// speaker and in its place, whole or, where it has more than three thousand characters, with those.
pub proof fn last_messages_are_sent(turns: Seq<TurnView>)
    ensures
        turns.len() <= 20 ==> sent_context(turns).len() == turns.len(),
        turns.len() > 20 ==> sent_context(turns).len() == 20,
        forall|i: int|
            0 <= i < sent_context(turns).len() ==> {
                let sent = #[trigger] sent_context(turns)[i];
                let turn = turns[turns.len() - sent_context(turns).len() + i];
                &&& sent.role == turn.role
                &&& turn.content.len() <= 3000 ==> sent.content == turn.content
                &&& turn.content.len() > 3000 ==> {
                    &&& sent.content.len() == 3001
                    &&& sent.content.take(3000) == turn.content.take(3000)
                    &&& sent.content.last() == '…'
                }
            },
{
    assert forall|i: int| 0 <= i < sent_context(turns).len() implies {
        let sent = #[trigger] sent_context(turns)[i];
        let turn = turns[turns.len() - sent_context(turns).len() + i];
        &&& sent.role == turn.role
        &&& turn.content.len() <= 3000 ==> sent.content == turn.content
        &&& turn.content.len() > 3000 ==> {
            &&& sent.content.len() == 3001
            &&& sent.content.take(3000) == turn.content.take(3000)
            &&& sent.content.last() == '…'
        }
    } by {
        let turn = turns[turns.len() - sent_context(turns).len() + i];
        only_long_texts_are_cut(turn.content, 3000);
    }
}

/// The keys of messages are told apart.
proof fn message_keys_differ()
    ensures
        "role"@ != "content"@,
        "role"@ != "tool_name"@,
        "role"@ != "tool_calls"@,
        "content"@ != "tool_name"@,
        "content"@ != "tool_calls"@,
        "name"@ != "arguments"@,
{
    reveal_strlit("role");
    reveal_strlit("content");
    reveal_strlit("tool_name");
    reveal_strlit("tool_calls");
    reveal_strlit("name");
    reveal_strlit("arguments");
    assert("role"@.len() == 4 && "content"@.len() == 7 && "tool_name"@.len() == 9
        && "tool_calls"@.len() == 10 && "name"@.len() == 4 && "arguments"@.len() == 9);
}

/// A message that is sent says who speaks, and what they say.
pub proof fn sent_messages_say_who_and_what(role: Seq<char>, content: Seq<char>)
    ensures
        text_message(role, content).text_field("role"@) == Some(role),
        text_message(role, content).text_field("content"@) == Some(content),
{
    message_keys_differ();
    let entries = seq![("role"@, JsonView::Text(role)), ("content"@, JsonView::Text(content))];
    entries_are_found(entries, 0);
    entries_are_found(entries, 1);
}

/// The result of a tool is sent as its tool's, whole or with its first four thousand characters.
pub proof fn sent_results_say_whose_they_are(tool_name: Seq<char>, result: Seq<char>)
    ensures
        tool_message(tool_name, result).text_field("role"@) == Some("tool"@),
        tool_message(tool_name, result).text_field("tool_name"@) == Some(tool_name),
        tool_message(tool_name, result).text_field("content"@) matches Some(content) && {
            &&& result.len() <= 4000 ==> content == result
            &&& result.len() > 4000 ==> {
                &&& content.len() == 4001
                &&& content.take(4000) == result.take(4000)
                &&& content.last() == '…'
            }
        },
{
    message_keys_differ();
    only_long_texts_are_cut(result, 4000);
    let entries = seq![
        ("role"@, JsonView::Text("tool"@)),
        ("tool_name"@, JsonView::Text(tool_name)),
        ("content"@, JsonView::Text(truncated(result, MAX_TOOL_RESULT_CHARS as nat))),
    ];
    entries_are_found(entries, 0);
    entries_are_found(entries, 1);
    entries_are_found(entries, 2);
}

/// A tool call is sent with its name and its arguments.
pub proof fn sent_calls_are_whole(calls: Seq<CallView>, i: int)
    requires
        0 <= i < calls.len(),
    ensures
        calls_json(calls) matches JsonView::Array(items) && {
            &&& items.len() == calls.len()
            &&& items[i].field("function"@) matches Some(function) && {
                &&& function.text_field("name"@) == Some(calls[i].name)
                &&& function.field("arguments"@) == Some(calls[i].arguments)
            }
        },
{
    message_keys_differ();
    let call = calls[i];
    let fields = seq![("name"@, JsonView::Text(call.name)), ("arguments"@, call.arguments)];
    entries_are_found(fields, 0);
    entries_are_found(fields, 1);
    entries_are_found(seq![("function"@, object_of(fields))], 0);
}

/// An answer is sent back as the assistant's, with its text, and with its tool calls exactly where it
/// made any.
pub proof fn sent_answers_are_whole(message: MessageView)
    ensures
        assistant_message(message).text_field("role"@) == Some("assistant"@),
        assistant_message(message).text_field("content"@) == Some(message.content),
        message.tool_calls.len() == 0 ==> assistant_message(message).field("tool_calls"@) is None,
        message.tool_calls.len() > 0 ==> assistant_message(message).field("tool_calls"@) == Some(
            calls_json(message.tool_calls),
        ),
{
    message_keys_differ();
    let short = seq![
        ("role"@, JsonView::Text("assistant"@)),
        ("content"@, JsonView::Text(message.content)),
    ];
    nothing_else_is_found(short, "tool_calls"@);
    sent_messages_say_who_and_what("assistant"@, message.content);
    let long = seq![
        ("role"@, JsonView::Text("assistant"@)),
        ("content"@, JsonView::Text(message.content)),
        ("tool_calls"@, calls_json(message.tool_calls)),
    ];
    entries_are_found(long, 0);
    entries_are_found(long, 1);
    entries_are_found(long, 2);
}

/// A request names the model, holds all messages and tools, and asks for a stream with the context
/// that is set.
#[verifier::rlimit(40)]
pub proof fn requests_are_whole(
    model: Seq<char>,
    messages: Seq<JsonView>,
    tools: Seq<JsonView>,
    num_ctx: u32,
)
    ensures
        ({
            let request = chat_request(model, messages, tools, num_ctx);
            &&& request.text_field("model"@) == Some(model)
            &&& request.field("messages"@) == Some(JsonView::Array(messages))
            &&& request.field("tools"@) == Some(JsonView::Array(tools))
            &&& request.field("stream"@) == Some(JsonView::Bool(true))
            &&& request.text_field("keep_alive"@) == Some("30m"@)
            &&& request.field("truncate"@) == Some(JsonView::Bool(true))
            &&& request.field("options"@) matches Some(options) && options.field("num_ctx"@)
                == Some(JsonView::Number(json_number(num_ctx as u64)))
        }),
{
    reveal_strlit("model");
    reveal_strlit("messages");
    reveal_strlit("stream");
    reveal_strlit("tools");
    reveal_strlit("keep_alive");
    reveal_strlit("truncate");
    reveal_strlit("options");
    assert("model"@[0] == 'm' && "model"@.len() == 5 && "tools"@[0] == 't' && "tools"@.len() == 5);
    assert("messages"@[0] == 'm' && "messages"@.len() == 8 && "truncate"@[0] == 't'
        && "truncate"@.len() == 8);
    assert("stream"@.len() == 6 && "keep_alive"@.len() == 10 && "options"@.len() == 7);
    let number = seq![("num_ctx"@, JsonView::Number(json_number(num_ctx as u64)))];
    entries_are_found(number, 0);
    let entries = seq![
        ("model"@, JsonView::Text(model)),
        ("messages"@, JsonView::Array(messages)),
        ("stream"@, JsonView::Bool(true)),
        ("tools"@, JsonView::Array(tools)),
        ("keep_alive"@, JsonView::Text(KEEP_ALIVE@)),
        ("truncate"@, JsonView::Bool(true)),
        ("options"@, object_of(number)),
    ];
    entries_are_found(entries, 0);
    entries_are_found(entries, 1);
    entries_are_found(entries, 2);
    entries_are_found(entries, 3);
    entries_are_found(entries, 4);
    entries_are_found(entries, 5);
    entries_are_found(entries, 6);
}

/// A trace keeps what was said, the tool calls, what the server reported, and the headers in order.
#[verifier::rlimit(40)]
pub proof fn traces_are_whole(message: MessageView, metrics: MetricsView)
    ensures
        ({
            let trace = traced_response(message, metrics);
            &&& trace.field("message"@) matches Some(said) && {
                &&& said.text_field("role"@) == Some("assistant"@)
                &&& said.text_field("content"@) == Some(message.content)
                &&& said.field("tool_calls"@) == Some(calls_json(message.tool_calls))
            }
            &&& trace.field("usage"@) matches Some(usage) && {
                &&& usage.field("total_duration_ns"@) == Some(
                    JsonView::Number(json_number(metrics.total_duration_ns)),
                )
                &&& usage.field("load_duration_ns"@) == Some(
                    JsonView::Number(json_number(metrics.load_duration_ns)),
                )
                &&& usage.field("prompt_eval_count"@) == Some(
                    JsonView::Number(json_number(metrics.prompt_eval_count)),
                )
                &&& usage.field("prompt_eval_duration_ns"@) == Some(
                    JsonView::Number(json_number(metrics.prompt_eval_duration_ns)),
                )
                &&& usage.field("eval_count"@) == Some(
                    JsonView::Number(json_number(metrics.eval_count)),
                )
                &&& usage.field("eval_duration_ns"@) == Some(
                    JsonView::Number(json_number(metrics.eval_duration_ns)),
                )
            }
            &&& trace.field("http_headers"@) matches Some(JsonView::Array(headers)) && {
                &&& headers.len() == metrics.http_headers.len()
                &&& forall|i: int|
                    0 <= i < headers.len() ==> #[trigger] headers[i] == JsonView::Array(
                        seq![
                            JsonView::Text(metrics.http_headers[i].0),
                            JsonView::Text(metrics.http_headers[i].1),
                        ],
                    )
            }
        }),
{
    message_keys_differ();
    let said = seq![
        ("role"@, JsonView::Text("assistant"@)),
        ("content"@, JsonView::Text(message.content)),
        ("tool_calls"@, calls_json(message.tool_calls)),
    ];
    entries_are_found(said, 0);
    entries_are_found(said, 1);
    entries_are_found(said, 2);
    let usage = seq![
        ("total_duration_ns"@, number_json(metrics.total_duration_ns)),
        ("load_duration_ns"@, number_json(metrics.load_duration_ns)),
        ("prompt_eval_count"@, number_json(metrics.prompt_eval_count)),
        ("prompt_eval_duration_ns"@, number_json(metrics.prompt_eval_duration_ns)),
        ("eval_count"@, number_json(metrics.eval_count)),
        ("eval_duration_ns"@, number_json(metrics.eval_duration_ns)),
    ];
    reveal_strlit("total_duration_ns");
    reveal_strlit("load_duration_ns");
    reveal_strlit("prompt_eval_count");
    reveal_strlit("prompt_eval_duration_ns");
    reveal_strlit("eval_count");
    reveal_strlit("eval_duration_ns");
    assert("total_duration_ns"@.len() == 17 && "total_duration_ns"@[0] == 't');
    assert("prompt_eval_count"@.len() == 17 && "prompt_eval_count"@[0] == 'p');
    assert("load_duration_ns"@.len() == 16 && "load_duration_ns"@[0] == 'l');
    assert("eval_duration_ns"@.len() == 16 && "eval_duration_ns"@[0] == 'e');
    assert("prompt_eval_duration_ns"@.len() == 23 && "eval_count"@.len() == 10);
    entries_are_found(usage, 0);
    entries_are_found(usage, 1);
    entries_are_found(usage, 2);
    entries_are_found(usage, 3);
    entries_are_found(usage, 4);
    entries_are_found(usage, 5);
    let headers = metrics.http_headers.map_values(
        |header: (Seq<char>, Seq<char>)| header_json(header),
    );
    reveal_strlit("message");
    reveal_strlit("usage");
    reveal_strlit("http_headers");
    assert("message"@.len() == 7 && "usage"@.len() == 5 && "http_headers"@.len() == 12);
    let entries = seq![
        ("message"@, object_of(said)),
        ("usage"@, object_of(usage)),
        ("http_headers"@, JsonView::Array(headers)),
    ];
    entries_are_found(entries, 0);
    entries_are_found(entries, 1);
    entries_are_found(entries, 2);
}

} // verus!
