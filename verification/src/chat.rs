//! A chat with the model: it is asked, its answer may call a tool, and what the tool says goes back
//! to it, until it answers in plain language.
//!
//! The chat runs in steps. A step shows the user what happens and ends in an action that the
//! surroundings perform; what comes of the action leads to the next step.
use vstd::prelude::*;

use crate::arguments::{
    append_tool_preview, command_from_arguments, command_of, format_tool_arguments, ls_flags,
    parse_ls_flags, path_from_arguments, path_of, preview, shown_arguments,
};
use crate::commands::{
    cat_plan, ls_plan, plan_cat, plan_ls, plan_sed, sed_plan, CommandPlan, PlanView,
};
use crate::json::{item_views, Json, JsonView};
use crate::messages::{
    assistant_message, assistant_message_json, build_chat_request, chat_request, sent_context,
    text_message, text_message_json, tool_message, tool_message_json, trace_response_value,
    traced_response, trim_context_messages, turn_views, ChatMessage, ChatRequest, ChatTrace,
    ChatTurn, MessageView, TurnView,
};
use crate::metrics::{MetricsView, OllamaMetrics};
use crate::path::{
    normalize_path, normalized, path_text, result_view, ComponentView, FileFacts, FilePath,
    PathKind,
};
use crate::permissions::{
    access_of, beneath_allowed, check_path_permission, file_access_for_tool, is_allowed_beneath,
    is_directory, permission_check, permission_directory, permission_directory_for_target,
    FileAccess, FilePermissionChoice, PathPermissionState, PermissionCheck,
};
use crate::platform::{Environment, Platform};
use crate::requests::{
    invocation_view, normal_arguments, normalize_arguments, parse_tool_request, tool_request,
    CallView, ToolInvocation,
};
use crate::results::{
    noted_result, result_summary, summarize_tool_result, tool_result_summary, ActionUpdateView,
    ToolActionUpdate,
};
use crate::search::{plan_web_search, query_of, search_header, SearchPlan};
use crate::settings::LlmConfig;
use crate::stream::StreamChatResult;
use crate::text::{
    blank, contains_char, is_blank, option_view, same_text, trim, trimmed,
};
use crate::tools::{available_schemas, system_prompt, system_prompt_text};

verus! {

/// How often the model is asked at most.
pub const MAX_TOOL_ROUNDS: usize = 8;

/// What the user is shown, or asked, while a chat goes on.
#[derive(Debug)]
pub enum ChatProgressEvent {
    Thinking(String),
    ToolAction(ToolActionUpdate),
    CommandApprovalNeeded { command: String },
    FilePermissionNeeded {
        tool_name: String,
        arguments: String,
        directory: String,
        access: FileAccess,
    },
}

/// The model of what the user is shown or asked.
pub enum EventView {
    Thinking(Seq<char>),
    ToolAction(ActionUpdateView),
    CommandApprovalNeeded { command: Seq<char> },
    FilePermissionNeeded {
        tool_name: Seq<char>,
        arguments: Seq<char>,
        directory: Seq<char>,
        access: FileAccess,
    },
}

impl View for ChatProgressEvent {
    type V = EventView;

    open spec fn view(&self) -> EventView {
        match self {
            ChatProgressEvent::Thinking(thinking) => EventView::Thinking(thinking@),
            ChatProgressEvent::ToolAction(update) => EventView::ToolAction(update@),
            ChatProgressEvent::CommandApprovalNeeded { command } => {
                EventView::CommandApprovalNeeded { command: command@ }
            },
            ChatProgressEvent::FilePermissionNeeded { tool_name, arguments, directory, access } => {
                EventView::FilePermissionNeeded {
                    tool_name: tool_name@,
                    arguments: arguments@,
                    directory: directory@,
                    access: *access,
                }
            },
        }
    }
}

/// The models of what the user is shown or asked.
pub open spec fn event_views(events: Seq<ChatProgressEvent>) -> Seq<EventView> {
    events.map_values(|event: ChatProgressEvent| event@)
}

/// The answer of a chat.
#[derive(Debug)]
pub struct ChatResult {
    pub content: String,
    pub metrics: OllamaMetrics,
    pub trace: ChatTrace,
}

/// A chat between two steps.
#[derive(Debug)]
pub struct ChatSession {
    /// The messages for the model.
    pub messages: Vec<Json>,
    /// What the user is shown while there is no answer.
    pub thinking: String,
    pub metrics: OllamaMetrics,
    pub trace: ChatTrace,
    /// How often the model was asked.
    pub rounds: usize,
}

/// The model of a chat between two steps.
#[verifier::ext_equal]
pub struct SessionView {
    pub messages: Seq<JsonView>,
    pub thinking: Seq<char>,
    pub metrics: MetricsView,
    pub trace: Seq<(JsonView, JsonView)>,
    pub rounds: nat,
}

impl View for ChatSession {
    type V = SessionView;

    open spec fn view(&self) -> SessionView {
        SessionView {
            messages: item_views(self.messages@),
            thinking: self.thinking@,
            metrics: self.metrics@,
            trace: self.trace@,
            rounds: self.rounds as nat,
        }
    }
}

/// A chat that waits for the model.
#[derive(Debug)]
pub struct PendingAnswer {
    pub session: ChatSession,
    pub request: ChatRequest,
}

/// A chat in which the model has called a tool.
#[derive(Debug)]
pub struct PendingTool {
    pub session: ChatSession,
    pub assistant: ChatMessage,
    pub invocation: ToolInvocation,
}

/// The model of a chat in which the model has called a tool.
#[verifier::ext_equal]
pub struct PendingToolView {
    pub session: SessionView,
    pub assistant: MessageView,
    pub invocation: CallView,
}

impl View for PendingTool {
    type V = PendingToolView;

    open spec fn view(&self) -> PendingToolView {
        PendingToolView {
            session: self.session@,
            assistant: self.assistant@,
            invocation: self.invocation@,
        }
    }
}

/// What is to be done next.
#[derive(Debug)]
pub enum ChatAction {
    /// The model is to be asked again.
    Continue(ChatSession),
    /// The request is to be sent.
    Ask(PendingAnswer),
    /// The user is to approve the command of the call, which then runs.
    Approve(PendingTool),
    /// The rules on the file of the call are to be looked at.
    Check(PendingTool),
    /// The user is to decide on the given directory.
    Choose(PendingTool, String),
    /// The tool is to be run.
    Run(PendingTool),
    /// The chat has its answer.
    Reply(ChatResult),
    /// The chat has failed.
    Fail(String),
}

/// The model of what is to be done next.
#[verifier::ext_equal]
pub enum ActionView {
    Continue(SessionView),
    Ask { session: SessionView, request: JsonView },
    Approve(PendingToolView),
    Check(PendingToolView),
    Choose(PendingToolView, Seq<char>),
    Run(PendingToolView),
    Reply { content: Seq<char>, metrics: MetricsView, trace: Seq<(JsonView, JsonView)> },
    Fail(Seq<char>),
}

impl View for ChatAction {
    type V = ActionView;

    open spec fn view(&self) -> ActionView {
        match self {
            ChatAction::Continue(session) => ActionView::Continue(session@),
            ChatAction::Ask(pending) => ActionView::Ask {
                session: pending.session@,
                request: pending.request.json(),
            },
            ChatAction::Approve(pending) => ActionView::Approve(pending@),
            ChatAction::Check(pending) => ActionView::Check(pending@),
            ChatAction::Choose(pending, directory) => ActionView::Choose(pending@, directory@),
            ChatAction::Run(pending) => ActionView::Run(pending@),
            ChatAction::Reply(result) => ActionView::Reply {
                content: result.content@,
                metrics: result.metrics@,
                trace: result.trace@,
            },
            ChatAction::Fail(message) => ActionView::Fail(message@),
        }
    }
}

/// A step of a chat: what the user is shown, one after the other, and what is to be done next.
#[derive(Debug)]
pub struct ChatStep {
    pub events: Vec<ChatProgressEvent>,
    pub action: ChatAction,
}

/// The model of a step of a chat.
#[verifier::ext_equal]
pub struct StepView {
    pub events: Seq<EventView>,
    pub action: ActionView,
}

impl View for ChatStep {
    type V = StepView;

    open spec fn view(&self) -> StepView {
        StepView { events: event_views(self.events@), action: self.action@ }
    }
}

/// The first messages for the model: the system prompt, and what is sent of the conversation.
pub open spec fn first_messages(prompt: Seq<char>, turns: Seq<TurnView>) -> Seq<JsonView> {
    seq![text_message("system"@, prompt)] + sent_context(turns).map_values(
        |turn: TurnView| text_message(turn.role, turn.content),
    )
}

/// A chat before its first step.
pub open spec fn fresh_session(prompt: Seq<char>, turns: Seq<TurnView>) -> SessionView {
    SessionView {
        messages: first_messages(prompt, turns),
        thinking: "Thinking…"@,
        metrics: MetricsView::nothing(Seq::empty()),
        trace: Seq::empty(),
        rounds: 0,
    }
}

/// The step that asks the model, unless it was asked too often.
pub open spec fn next_round_step(
    session: SessionView,
    config: LlmConfig,
    platform: Platform,
) -> StepView {
    if session.rounds >= MAX_TOOL_ROUNDS {
        StepView {
            events: Seq::empty(),
            action: ActionView::Fail(
                "The model kept requesting tools without producing a final answer."@,
            ),
        }
    } else {
        StepView {
            events: seq![EventView::Thinking(session.thinking)],
            action: ActionView::Ask {
                session: SessionView { rounds: session.rounds + 1, ..session },
                request: chat_request(
                    config.model@,
                    session.messages,
                    available_schemas(platform),
                    config.num_ctx,
                ),
            },
        }
    }
}

impl ChatSession {
    /// A chat about a conversation, at the given time.
    pub fn start(turns: &[ChatTurn], now: &str, environment: &Environment) -> (session: ChatSession)
        ensures
            session@ == fresh_session(
                system_prompt_text(now@, *environment),
                turn_views(turns@),
            ),
    {
        let prompt = system_prompt(now, environment);
        let sent = trim_context_messages(turns);
        let ghost sent_views = sent_context(turn_views(turns@));
        let ghost all = first_messages(prompt@, turn_views(turns@));
        let mut messages: Vec<Json> = Vec::new();
        messages.push(text_message_json("system", prompt.as_str()));
        assert(item_views(messages@) =~= all.take(1));
        let mut i: usize = 0;
        while i < sent.len()
            invariant
                i <= sent@.len(),
                turn_views(sent@) == sent_context(turn_views(turns@)),
                all == first_messages(prompt@, turn_views(turns@)),
                item_views(messages@) == all.take(i + 1),
            decreases sent@.len() - i,
        {
            let ghost before = item_views(messages@);
            assert(turn_views(sent@)[i as int] == sent@[i as int]@);
            messages.push(text_message_json(sent[i].role.as_str(), sent[i].content.as_str()));
            assert(item_views(messages@) =~= before.push(all[i + 1]));
            assert(all.take(i + 2) =~= before.push(all[i + 1]));
            i += 1;
        }
        assert(turn_views(sent@).len() == sent@.len());
        assert(all.take(i + 1) =~= all);
        ChatSession {
            messages,
            thinking: "Thinking…".to_owned(),
            metrics: OllamaMetrics::default(),
            trace: ChatTrace::default(),
            rounds: 0,
        }
    }

    /// Asks the model, unless it was asked too often.
    pub fn next_round(self, config: &LlmConfig, platform: Platform) -> (step: ChatStep)
        ensures
            step@ == next_round_step(self@, *config, platform),
    {
        if self.rounds >= MAX_TOOL_ROUNDS {
            let step = ChatStep {
                events: Vec::new(),
                action: ChatAction::Fail(
                    "The model kept requesting tools without producing a final answer.".to_owned(),
                ),
            };
            assert(step@.events =~= Seq::empty());
            return step;
        }
        let request = build_chat_request(config, &self.messages, platform);
        let events = vec![ChatProgressEvent::Thinking(self.thinking.clone())];
        assert(event_views(events@) =~= seq![EventView::Thinking(self.thinking@)]);
        let mut session = self;
        session.rounds += 1;
        ChatStep { events, action: ChatAction::Ask(PendingAnswer { session, request }) }
    }
}

/// A step with events that come before it.
pub open spec fn preceded(events: Seq<EventView>, step: StepView) -> StepView {
    StepView { events: events + step.events, action: step.action }
}

/// How the start of a tool is shown.
pub open spec fn running_update(call: CallView, home: Option<Seq<char>>) -> ActionUpdateView {
    ActionUpdateView {
        name: call.name,
        arguments: shown_arguments(call, home),
        summary: "Running…"@,
        success: true,
        completed: false,
    }
}

/// How the end of a tool is shown.
pub open spec fn finished_update(
    call: CallView,
    result: Result<Seq<char>, Seq<char>>,
    home: Option<Seq<char>>,
) -> ActionUpdateView {
    ActionUpdateView {
        name: call.name,
        arguments: shown_arguments(call, home),
        summary: match result {
            Ok(output) => result_summary(call.name, output),
            Err(message) => message,
        },
        success: result is Ok,
        completed: true,
    }
}

/// How a tool is shown: without a result while it runs, with one when it is done.
pub fn tool_action(
    invocation: &ToolInvocation,
    result: Option<&Result<String, String>>,
    home: Option<&str>,
) -> (update: ToolActionUpdate)
    ensures
        update@ == match result {
            None => running_update(invocation@, option_view(home)),
            Some(result) => finished_update(
                invocation@,
                result_view(*result),
                option_view(home),
            ),
        },
{
    let arguments = format_tool_arguments(invocation, home);
    match result {
        None => ToolActionUpdate {
            name: invocation.name.clone(),
            arguments,
            summary: "Running…".to_owned(),
            success: true,
            completed: false,
        },
        Some(Ok(output)) => ToolActionUpdate {
            name: invocation.name.clone(),
            arguments,
            summary: tool_result_summary(invocation.name.as_str(), output.as_str()),
            success: true,
            completed: true,
        },
        Some(Err(message)) => ToolActionUpdate {
            name: invocation.name.clone(),
            arguments,
            summary: message.clone(),
            success: false,
            completed: true,
        },
    }
}

/// What a result says, be it an output or an error.
pub open spec fn result_text(result: Result<Seq<char>, Seq<char>>) -> Seq<char> {
    match result {
        Ok(output) => output,
        Err(message) => message,
    }
}

/// A chat after a tool is done: the result is noted, and both the call and the result are messages
/// for the model.
pub open spec fn session_after_tool(
    pending: PendingToolView,
    result: Result<Seq<char>, Seq<char>>,
) -> SessionView {
    let name = pending.invocation.name;
    SessionView {
        thinking: pending.session.thinking + "\n\n← "@ + noted_result(name, result_text(result)),
        messages: pending.session.messages + seq![
            assistant_message(pending.assistant),
            tool_message(name, result_text(result)),
        ],
        ..pending.session
    }
}

/// The step in which a tool is done.
pub open spec fn finish_step(
    pending: PendingToolView,
    result: Result<Seq<char>, Seq<char>>,
    home: Option<Seq<char>>,
) -> StepView {
    let session = session_after_tool(pending, result);
    StepView {
        events: seq![
            EventView::ToolAction(finished_update(pending.invocation, result, home)),
            EventView::Thinking(session.thinking),
        ],
        action: ActionView::Continue(session),
    }
}

/// `pending` with more thinking.
pub open spec fn noted(pending: PendingToolView, note: Seq<char>) -> PendingToolView {
    PendingToolView {
        session: SessionView {
            thinking: pending.session.thinking + note,
            ..pending.session
        },
        ..pending
    }
}

/// The step that asks the user for approval of a command. A call without a command is done at once.
pub open spec fn approval_step(pending: PendingToolView, home: Option<Seq<char>>) -> StepView {
    match command_of(pending.invocation.arguments) {
        Ok(command) => {
            let asking = noted(
                pending,
                "\n\n→ Requesting approval to run command:\n"@ + command
                    + "\n\n⏸ Waiting for your approval…"@,
            );
            StepView {
                events: seq![
                    EventView::Thinking(asking.session.thinking),
                    EventView::CommandApprovalNeeded { command },
                ],
                action: ActionView::Approve(asking),
            }
        },
        Err(message) => finish_step(pending, Err(message), home),
    }
}

/// The step in which a tool is called: commands need the user's approval, file tools need
/// permission, and the others are run.
pub open spec fn call_step(pending: PendingToolView, home: Option<Seq<char>>) -> StepView {
    let call = pending.invocation;
    let calling = noted(pending, "\n\n→ Calling "@ + call.name + preview(call, home) + "…"@);
    preceded(
        seq![
            EventView::Thinking(calling.session.thinking),
            EventView::ToolAction(running_update(call, home)),
        ],
        if call.name == "run_command"@ {
            approval_step(calling, home)
        } else {
            StepView {
                events: Seq::empty(),
                action: if access_of(call.name) is Some {
                    ActionView::Check(calling)
                } else {
                    ActionView::Run(calling)
                },
            }
        },
    )
}

/// A chat that has taken note of an answer.
pub open spec fn session_with_answer(
    session: SessionView,
    request: JsonView,
    message: MessageView,
    metrics: MetricsView,
) -> SessionView {
    SessionView {
        thinking: if blank(message.content) {
            session.thinking
        } else {
            session.thinking + "\n\n"@ + trimmed(message.content)
        },
        metrics: session.metrics.plus(metrics),
        trace: session.trace.push((request, traced_response(message, metrics))),
        ..session
    }
}

/// The step after an answer, given the tool that it requests, if it does: that tool is called, else
/// the answer is the reply, unless it is blank.
pub open spec fn heard_step(
    session: SessionView,
    request: JsonView,
    message: MessageView,
    metrics: MetricsView,
    requested: Option<CallView>,
    home: Option<Seq<char>>,
) -> StepView {
    let heard = session_with_answer(session, request, message, metrics);
    let events = if blank(message.content) {
        Seq::empty()
    } else {
        seq![EventView::Thinking(heard.thinking)]
    };
    preceded(
        events,
        match requested {
            Some(invocation) => call_step(
                PendingToolView { session: heard, assistant: message, invocation },
                home,
            ),
            None => StepView {
                events: Seq::empty(),
                action: if blank(message.content) {
                    ActionView::Fail("The model returned an empty response."@)
                } else {
                    ActionView::Reply {
                        content: message.content,
                        metrics: heard.metrics,
                        trace: heard.trace,
                    }
                },
            },
        },
    )
}

/// The step after an answer.
pub open spec fn answer_step(
    session: SessionView,
    request: JsonView,
    message: MessageView,
    metrics: MetricsView,
    environment: Environment,
) -> StepView {
    heard_step(
        session,
        request,
        message,
        metrics,
        tool_request(message.content, message.tool_calls, environment.platform),
        environment.home_view(),
    )
}

/// Adds an event.
fn show(events: &mut Vec<ChatProgressEvent>, event: ChatProgressEvent)
    ensures
        event_views(final(events)@) == event_views(old(events)@).push(event@),
{
    let ghost before = event_views(events@);
    events.push(event);
    assert(event_views(events@) =~= before.push(event@));
}

impl PendingTool {
    /// Adds to the thinking.
    fn note(&mut self, part: &str)
        ensures
            final(self)@ == noted(old(self)@, part@),
    {
        self.session.thinking.append(part);
    }

    /// The tool is done, after the given events.
    fn finish_after(
        self,
        events: Vec<ChatProgressEvent>,
        result: Result<String, String>,
        home: Option<&str>,
    ) -> (step: ChatStep)
        ensures
            step@ == preceded(
                event_views(events@),
                finish_step(self@, result_view(result), option_view(home)),
            ),
    {
        let mut events = events;
        let ghost earlier = event_views(events@);
        let update = tool_action(&self.invocation, Some(&result), home);
        show(&mut events, ChatProgressEvent::ToolAction(update));
        let text = match result {
            Ok(output) => output,
            Err(message) => message,
        };
        let name = self.invocation.name.as_str();
        let mut session = self.session;
        session.thinking.append("\n\n← ");
        session.thinking.append(summarize_tool_result(name, text.as_str()).as_str());
        show(&mut events, ChatProgressEvent::Thinking(session.thinking.clone()));
        let ghost before = item_views(session.messages@);
        session.messages.push(assistant_message_json(&self.assistant));
        session.messages.push(tool_message_json(name, text.as_str()));
        assert(item_views(session.messages@) =~= before + seq![
            assistant_message(self.assistant@),
            tool_message(name@, text@),
        ]);
        assert(session@ =~= session_after_tool(self@, result_view(result)));
        let step = ChatStep { events, action: ChatAction::Continue(session) };
        assert(step@.events =~= earlier + finish_step(
            self@,
            result_view(result),
            option_view(home),
        ).events);
        step
    }

    /// The tool is done.
    pub fn finish(self, result: Result<String, String>, home: Option<&str>) -> (step: ChatStep)
        ensures
            step@ == finish_step(self@, result_view(result), option_view(home)),
    {
        let step = self.finish_after(Vec::new(), result, home);
        assert(step@ =~= finish_step(self@, result_view(result), option_view(home)));
        step
    }

    /// Asks the user for approval of the command of the call, after the given events.
    fn request_command_approval(
        self,
        events: Vec<ChatProgressEvent>,
        home: Option<&str>,
    ) -> (step: ChatStep)
        ensures
            step@ == preceded(
                event_views(events@),
                approval_step(self@, option_view(home)),
            ),
    {
        let command = match command_from_arguments(&self.invocation.arguments) {
            Ok(command) => command,
            Err(message) => {
                return self.finish_after(events, Err(message), home);
            },
        };
        let mut events = events;
        let ghost earlier = event_views(events@);
        let mut note = "\n\n→ Requesting approval to run command:\n".to_owned();
        note.append(command.as_str());
        note.append("\n\n⏸ Waiting for your approval…");
        let mut pending = self;
        pending.note(note.as_str());
        show(&mut events, ChatProgressEvent::Thinking(pending.session.thinking.clone()));
        show(&mut events, ChatProgressEvent::CommandApprovalNeeded { command });
        let step = ChatStep { events, action: ChatAction::Approve(pending) };
        assert(step@.events =~= earlier + approval_step(self@, option_view(home)).events);
        step
    }

    /// Calls the tool, after the given events.
    fn call(self, events: Vec<ChatProgressEvent>, home: Option<&str>) -> (step: ChatStep)
        ensures
            step@ == preceded(event_views(events@), call_step(self@, option_view(home))),
    {
        let mut events = events;
        let ghost earlier = event_views(events@);
        let mut note = "\n\n→ Calling ".to_owned();
        note.append(self.invocation.name.as_str());
        append_tool_preview(&mut note, &self.invocation, home);
        note.append("…");
        let mut pending = self;
        pending.note(note.as_str());
        show(&mut events, ChatProgressEvent::Thinking(pending.session.thinking.clone()));
        let update = tool_action(&pending.invocation, None, home);
        show(&mut events, ChatProgressEvent::ToolAction(update));
        let ghost shown = seq![
            EventView::Thinking(pending@.session.thinking),
            EventView::ToolAction(running_update(self@.invocation, option_view(home))),
        ];
        assert(event_views(events@) =~= earlier + shown);
        let step = if same_text(pending.invocation.name.as_str(), "run_command") {
            pending.request_command_approval(events, home)
        } else if file_access_for_tool(pending.invocation.name.as_str()).is_some() {
            ChatStep { events, action: ChatAction::Check(pending) }
        } else {
            ChatStep { events, action: ChatAction::Run(pending) }
        };
        assert(step@ =~= preceded(earlier, call_step(self@, option_view(home))));
        step
    }
}

impl PendingAnswer {
    /// The model has answered, and the given tool is what it requests, if it requests one.
    pub fn heard(
        self,
        response: StreamChatResult,
        requested: Option<ToolInvocation>,
        home: Option<&str>,
    ) -> (step: ChatStep)
        requires
            self.session.metrics@.mergeable(response.metrics@),
        ensures
            step@ == heard_step(
                self.session@,
                self.request.json(),
                response.message@,
                response.metrics@,
                invocation_view(requested),
                option_view(home),
            ),
    {
        let assistant = response.message;
        let ghost before = self.session@;
        let ghost request = self.request.json();
        let ghost asked_for = invocation_view(requested);
        let mut events: Vec<ChatProgressEvent> = Vec::new();
        let mut session = self.session;
        session.metrics.merge(&response.metrics);
        session.trace.add(
            self.request.to_json(),
            trace_response_value(&assistant, &response.metrics),
        );
        let silent = is_blank(assistant.content.as_str());
        if !silent {
            session.thinking.append("\n\n");
            session.thinking.append(trim(assistant.content.as_str()).as_str());
            show(&mut events, ChatProgressEvent::Thinking(session.thinking.clone()));
        }
        let ghost heard = session_with_answer(before, request, assistant@, response.metrics@);
        assert(session@ =~= heard);
        assert(event_views(events@) =~= if silent {
            Seq::empty()
        } else {
            seq![EventView::Thinking(heard.thinking)]
        });
        let step = if let Some(invocation) = requested {
            PendingTool { session, assistant, invocation }.call(events, home)
        } else if silent {
            ChatStep {
                events,
                action: ChatAction::Fail("The model returned an empty response.".to_owned()),
            }
        } else {
            ChatStep {
                events,
                action: ChatAction::Reply(
                    ChatResult {
                        content: assistant.content,
                        metrics: session.metrics,
                        trace: session.trace,
                    },
                ),
            }
        };
        assert(step@ =~= heard_step(
            before,
            request,
            assistant@,
            response.metrics@,
            asked_for,
            option_view(home),
        ));
        step
    }

    /// The model has answered, or the request has failed.
    pub fn answered(
        self,
        response: Result<StreamChatResult, String>,
        environment: &Environment,
    ) -> (step: ChatStep)
        requires
            response is Ok ==> self.session.metrics@.mergeable(response->Ok_0.metrics@),
        ensures
            step@ == match response {
                Ok(response) => answer_step(
                    self.session@,
                    self.request.json(),
                    response.message@,
                    response.metrics@,
                    *environment,
                ),
                Err(message) => StepView {
                    events: Seq::empty(),
                    action: ActionView::Fail(message@),
                },
            },
    {
        match response {
            Ok(response) => {
                let requested = parse_tool_request(
                    response.message.content.as_str(),
                    &response.message.tool_calls,
                    environment.platform,
                );
                self.heard(response, requested, environment.home_dir())
            },
            Err(message) => {
                let step = ChatStep { events: Vec::new(), action: ChatAction::Fail(message) };
                assert(step@.events =~= Seq::empty());
                step
            },
        }
    }
}

/// The path of the file that a call is about.
pub open spec fn target_of(
    call: CallView,
    home: Option<Seq<char>>,
    facts: FileFacts,
) -> Result<Seq<ComponentView>, Seq<char>> {
    match path_of(call.arguments, home) {
        Ok(text) => Ok(normalized(text, facts)),
        Err(message) => Err(message),
    }
}

/// The path of the file that a call is about.
pub fn tool_target_path(
    invocation: &ToolInvocation,
    home: Option<&str>,
    facts: &FileFacts,
) -> (target: Result<FilePath, String>)
    ensures
        match target {
            Ok(path) => target_of(invocation@, option_view(home), *facts) == Ok::<
                Seq<ComponentView>,
                Seq<char>,
            >(path@),
            Err(message) => target_of(invocation@, option_view(home), *facts) == Err::<
                Seq<ComponentView>,
                Seq<char>,
            >(message@),
        },
{
    match path_from_arguments(&invocation.arguments, home) {
        Ok(text) => Ok(normalize_path(text.as_str(), facts)),
        Err(message) => Err(message),
    }
}

/// The step that asks the user for access to a directory.
pub open spec fn permission_step(
    pending: PendingToolView,
    directory: Seq<char>,
    access: FileAccess,
    home: Option<Seq<char>>,
) -> StepView {
    let asking = noted(
        pending,
        "\n\n→ Requesting permission to "@ + access.word() + " files in "@ + directory
            + "\n\n⏸ Waiting for your decision…"@,
    );
    StepView {
        events: seq![
            EventView::Thinking(asking.session.thinking),
            EventView::FilePermissionNeeded {
                tool_name: pending.invocation.name,
                arguments: shown_arguments(pending.invocation, home),
                directory,
                access,
            },
        ],
        action: ActionView::Choose(asking, directory),
    }
}

/// Whether a call lists everything beneath its path.
pub open spec fn lists_beneath(call: CallView) -> bool {
    &&& call.name == "ls"@
    &&& ls_flags(normal_arguments(call.arguments).text_field("flags"@)) matches Ok(flags)
        && flags.contains('R')
}

/// Whether a call lists everything beneath its path.
pub fn is_recursive_listing(invocation: &ToolInvocation) -> (is: bool)
    ensures
        is == lists_beneath(invocation@),
{
    if !same_text(invocation.name.as_str(), "ls") {
        return false;
    }
    match parse_ls_flags(normalize_arguments(&invocation.arguments).get_str("flags")) {
        Ok(flags) => contains_char(flags.as_str(), 'R'),
        Err(_) => false,
    }
}

/// Whether a call is more than the rules allow, though they allow its path: it lists everything
/// beneath a directory, and not everything there is allowed.
pub open spec fn goes_too_deep(
    call: CallView,
    target: Seq<ComponentView>,
    permissions: PathPermissionState,
    home: Option<Seq<char>>,
    facts: FileFacts,
) -> bool {
    &&& lists_beneath(call)
    &&& is_directory(target, facts)
    &&& !beneath_allowed(path_text(target), permissions, home, facts)
}

/// The step after a look at the rules: the tool is run where they allow all that it touches and done
/// where they deny it or do not reach as deep as it goes, and the user is asked where they say
/// nothing.
pub open spec fn check_step(
    pending: PendingToolView,
    permissions: PathPermissionState,
    home: Option<Seq<char>>,
    facts: FileFacts,
) -> StepView {
    let name = pending.invocation.name;
    match (target_of(pending.invocation, home, facts), access_of(name)) {
        (Ok(target), Some(access)) => {
            let directory = path_text(
                permission_directory(target, is_directory(target, facts)),
            );
            match permission_check(path_text(target), permissions, home, facts) {
                PermissionCheck::Allowed => if goes_too_deep(
                    pending.invocation,
                    target,
                    permissions,
                    home,
                    facts,
                ) {
                    finish_step(
                        pending,
                        Ok(
                            "Access denied: access to "@ + directory
                                + " does not reach everything beneath it. List it without the R flag."@,
                        ),
                        home,
                    )
                } else {
                    StepView { events: Seq::empty(), action: ActionView::Run(pending) }
                },
                PermissionCheck::Denied => finish_step(
                    pending,
                    Ok("Access denied: file access was rejected for "@ + directory + "."@),
                    home,
                ),
                PermissionCheck::NeedsPrompt => permission_step(pending, directory, access, home),
            }
        },
        (Ok(_), None) => finish_step(pending, Err("Unknown file tool: "@ + name), home),
        (Err(message), _) => finish_step(pending, Err(message), home),
    }
}

impl PendingTool {
    /// Asks the user for access to a directory.
    fn request_file_permission(
        self,
        directory: String,
        access: FileAccess,
        home: Option<&str>,
    ) -> (step: ChatStep)
        ensures
            step@ == permission_step(self@, directory@, access, option_view(home)),
    {
        let arguments = format_tool_arguments(&self.invocation, home);
        let tool_name = self.invocation.name.clone();
        let mut note = "\n\n→ Requesting permission to ".to_owned();
        note.append(access.label());
        note.append(" files in ");
        note.append(directory.as_str());
        note.append("\n\n⏸ Waiting for your decision…");
        let mut pending = self;
        pending.note(note.as_str());
        let mut events: Vec<ChatProgressEvent> = Vec::new();
        show(&mut events, ChatProgressEvent::Thinking(pending.session.thinking.clone()));
        show(
            &mut events,
            ChatProgressEvent::FilePermissionNeeded {
                tool_name,
                arguments,
                directory: directory.clone(),
                access,
            },
        );
        let step = ChatStep { events, action: ChatAction::Choose(pending, directory) };
        assert(step@.events =~= permission_step(
            self@,
            directory@,
            access,
            option_view(home),
        ).events);
        step
    }

    /// Looks at the rules on the file that the call is about.
    pub fn check(
        self,
        permissions: &PathPermissionState,
        home: Option<&str>,
        facts: &FileFacts,
    ) -> (step: ChatStep)
        ensures
            step@ == check_step(self@, *permissions, option_view(home), *facts),
    {
        let target = match tool_target_path(&self.invocation, home, facts) {
            Ok(target) => target,
            Err(message) => {
                return self.finish(Err(message), home);
            },
        };
        let access = match file_access_for_tool(self.invocation.name.as_str()) {
            Some(access) => access,
            None => {
                let mut message = "Unknown file tool: ".to_owned();
                message.append(self.invocation.name.as_str());
                return self.finish(Err(message), home);
            },
        };
        let text = target.to_text();
        let is_dir = match facts.kind_of(text.as_str()) {
            PathKind::Directory => true,
            _ => false,
        };
        let directory = permission_directory_for_target(&target, is_dir).to_text();
        match check_path_permission(text.as_str(), permissions, home, facts) {
            PermissionCheck::Allowed => {
                if is_dir && is_recursive_listing(&self.invocation) && !is_allowed_beneath(
                    text.as_str(),
                    permissions,
                    home,
                    facts,
                ) {
                    let mut message = "Access denied: access to ".to_owned();
                    message.append(directory.as_str());
                    message.append(
                        " does not reach everything beneath it. List it without the R flag.",
                    );
                    return self.finish(Ok(message), home);
                }
                let step = ChatStep { events: Vec::new(), action: ChatAction::Run(self) };
                assert(step@.events =~= Seq::empty());
                step
            },
            PermissionCheck::Denied => {
                let mut message = "Access denied: file access was rejected for ".to_owned();
                message.append(directory.as_str());
                message.append(".");
                self.finish(Ok(message), home)
            },
            PermissionCheck::NeedsPrompt => self.request_file_permission(directory, access, home),
        }
    }

    /// The user has decided on a directory: the choice is a rule of this session, and the rules are
    /// to be looked at again.
    pub fn chosen(
        self,
        directory: &str,
        choice: FilePermissionChoice,
        permissions: &mut PathPermissionState,
    ) -> (step: ChatStep)
        ensures
            final(permissions).persistent@ == old(permissions).persistent@,
            final(permissions).session@.len() == old(permissions).session@.len() + 1,
            final(permissions).session@.drop_last() == old(permissions).session@,
            final(permissions).session@.last().path@ == directory@,
            final(permissions).session@.last().permission == choice.permission(),
            step@ == (StepView { events: Seq::empty(), action: ActionView::Check(self@) }),
    {
        permissions.add_session_rule(choice.to_rule(directory));
        let step = ChatStep { events: Vec::new(), action: ChatAction::Check(self) };
        assert(step@.events =~= Seq::empty());
        step
    }
}

/// What can keep a question from being answered.
#[derive(Debug, Clone, Copy, PartialEq, Eq, Structural)]
pub enum QuestionTrouble {
    /// The user could not be asked to approve a command.
    ApprovalNotAsked,
    /// No answer to an approval can come any more.
    ApprovalClosed,
    /// The user could not be asked for access to files.
    PermissionNotAsked,
    /// No answer to a question for access can come any more.
    PermissionClosed,
    /// The rules cannot be looked at.
    RulesUnreadable,
    /// The rules cannot be added to.
    RulesUnwritable,
}

impl QuestionTrouble {
    /// The trouble in words.
    pub open spec fn words(self) -> Seq<char> {
        match self {
            QuestionTrouble::ApprovalNotAsked => "Could not request command approval."@,
            QuestionTrouble::ApprovalClosed => "Command approval channel closed."@,
            QuestionTrouble::PermissionNotAsked => "Could not request file permission."@,
            QuestionTrouble::PermissionClosed => "File permission channel closed."@,
            QuestionTrouble::RulesUnreadable => "Could not read file permission state."@,
            QuestionTrouble::RulesUnwritable => "Could not update file permission state."@,
        }
    }

    /// The trouble in words.
    pub fn message(self) -> (message: String)
        ensures
            message@ == self.words(),
    {
        match self {
            QuestionTrouble::ApprovalNotAsked => "Could not request command approval.",
            QuestionTrouble::ApprovalClosed => "Command approval channel closed.",
            QuestionTrouble::PermissionNotAsked => "Could not request file permission.",
            QuestionTrouble::PermissionClosed => "File permission channel closed.",
            QuestionTrouble::RulesUnreadable => "Could not read file permission state.",
            QuestionTrouble::RulesUnwritable => "Could not update file permission state.",
        }.to_owned()
    }
}

/// How a tool is run: by a search on the web, or by a program.
#[derive(Debug)]
pub enum ToolPlan {
    Search(SearchPlan),
    Command(CommandPlan),
}

/// The model of how a tool is run.
#[verifier::ext_equal]
pub enum ToolPlanView {
    Search { query: Seq<char>, header: (Seq<char>, Seq<char>), max_results: u8, with_answer: bool },
    Command(PlanView),
}

/// The model of how a tool is run, or of the reason why it cannot be.
pub open spec fn tool_plan_view(plan: Result<ToolPlan, String>) -> Result<ToolPlanView, Seq<char>> {
    match plan {
        Ok(ToolPlan::Search(plan)) => Ok(
            ToolPlanView::Search {
                query: plan.query@,
                header: (plan.header_name@, plan.header_value@),
                max_results: plan.max_results,
                with_answer: plan.include_answer,
            },
        ),
        Ok(ToolPlan::Command(plan)) => Ok(ToolPlanView::Command(plan@)),
        Err(message) => Err(message@),
    }
}

/// A program as the way to run a tool.
pub open spec fn as_tool_plan(plan: Result<PlanView, Seq<char>>) -> Result<
    ToolPlanView,
    Seq<char>,
> {
    match plan {
        Ok(plan) => Ok(ToolPlanView::Command(plan)),
        Err(message) => Err(message),
    }
}

/// How the tool of a call is run.
pub open spec fn tool_plan(
    call: CallView,
    api_key: Seq<char>,
    environment: Environment,
    facts: FileFacts,
) -> Result<ToolPlanView, Seq<char>> {
    if call.name == "web_search"@ {
        match query_of(call.arguments) {
            Ok(query) => Ok(
                ToolPlanView::Search {
                    query,
                    header: search_header(api_key),
                    max_results: 5,
                    with_answer: true,
                },
            ),
            Err(message) => Err(message),
        }
    } else if call.name == "ls"@ {
        as_tool_plan(ls_plan(call.arguments, environment, facts))
    } else if call.name == "cat"@ {
        as_tool_plan(cat_plan(call.arguments, environment, facts))
    } else if call.name == "sed"@ {
        as_tool_plan(sed_plan(call.arguments, environment, facts))
    } else {
        Err("Unknown tool: "@ + call.name)
    }
}

/// How the tool of a call is run.
pub fn execute_tool(
    invocation: &ToolInvocation,
    config: &LlmConfig,
    environment: &Environment,
    facts: &FileFacts,
) -> (plan: Result<ToolPlan, String>)
    ensures
        tool_plan_view(plan) == tool_plan(
            invocation@,
            config.tavily_api_key@,
            *environment,
            *facts,
        ),
{
    let name = invocation.name.as_str();
    let arguments = &invocation.arguments;
    if same_text(name, "web_search") {
        return match plan_web_search(arguments, config.tavily_api_key.as_str()) {
            Ok(plan) => Ok(ToolPlan::Search(plan)),
            Err(message) => Err(message),
        };
    }
    let plan = if same_text(name, "ls") {
        plan_ls(arguments, environment, facts)
    } else if same_text(name, "cat") {
        plan_cat(arguments, environment, facts)
    } else if same_text(name, "sed") {
        plan_sed(arguments, environment, facts)
    } else {
        let mut message = "Unknown tool: ".to_owned();
        message.append(name);
        Err(message)
    };
    match plan {
        Ok(plan) => Ok(ToolPlan::Command(plan)),
        Err(message) => Err(message),
    }
}

} // verus!
