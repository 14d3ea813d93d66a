//! The conversation as the user sees it, and what the user and the chat do to it.
use vstd::prelude::*;

use crate::arguments::string_view;
use crate::json::JsonView;
use crate::messages::{turn_views, ChatTrace, ChatTurn, TurnView};
use crate::metrics::{MetricsView, OllamaMetrics};
use crate::permissions::{FileAccess, FilePermissionChoice, PathPermission, PathPermissionRule};
use crate::results::{
    format_tool_message_content, tool_message_content, ActionUpdateView, ToolActionUpdate,
};
use crate::settings::LlmConfig;
use crate::text::{
    blank, contains_part, is_blank, occurs_at, part_is_contained, same_text, starts_with, trim,
    trimmed, views,
};

verus! {

/// The name of the assistant as an author.
pub const ASSISTANT_NAME: &'static str = "Assistant";

/// The name of the user as an author.
pub const USER_NAME: &'static str = "You";

/// A question for access to files: open, or answered and perhaps saved.
#[derive(Debug)]
pub enum PermissionPrompt {
    Pending { directory: String, tool_name: String, arguments: String, access: FileAccess },
    Resolved { directory: String, choice: FilePermissionChoice, saved_persistent: bool },
}

/// A message of the conversation. The time is in seconds since 1970.
#[derive(Debug)]
pub struct Message {
    pub author: String,
    pub content: String,
    pub created_at: i64,
    pub is_thinking: bool,
    pub is_tool: bool,
    pub tool_success: Option<bool>,
    pub metrics: Option<OllamaMetrics>,
    pub trace: Option<ChatTrace>,
    pub permission: Option<PermissionPrompt>,
}

/// What happens to the conversation from outside.
#[derive(Debug)]
pub enum LlmEvent {
    Models { models: Vec<String> },
    Thinking { content: String },
    ToolAction { update: ToolActionUpdate },
    CommandApprovalNeeded { command: String },
    FilePermissionNeeded {
        tool_name: String,
        arguments: String,
        directory: String,
        access: FileAccess,
    },
    Reply { content: String, metrics: OllamaMetrics, trace: ChatTrace },
    Failed { message: String },
}

/// The conversation, the settings, and what the window shows around them.
#[derive(Debug)]
pub struct ChatApp {
    pub messages: Vec<Message>,
    pub draft: String,
    pub status: Option<String>,
    pub scroll_to_bottom: bool,
    pub llm: LlmConfig,
    pub show_settings: bool,
    pub llm_status: String,
    pub llm_busy: bool,
    pub thinking_message_index: Option<usize>,
    pub pending_tool_message_index: Option<usize>,
    /// The command that waits for approval.
    pub command_prompt: Option<String>,
    /// The place of the message that asks for access to files.
    pub file_permission_prompt: Option<usize>,
    pub new_persistent_rule: String,
    pub new_persistent_permission: PathPermission,
    pub details_trace: Option<ChatTrace>,
}

/// The model of a question for access to files.
pub enum PromptView {
    Pending {
        directory: Seq<char>,
        tool_name: Seq<char>,
        arguments: Seq<char>,
        access: FileAccess,
    },
    Resolved { directory: Seq<char>, choice: FilePermissionChoice, saved_persistent: bool },
}

/// The model of a message of the conversation.
#[verifier::ext_equal]
pub struct ShownMessage {
    pub author: Seq<char>,
    pub content: Seq<char>,
    pub created_at: i64,
    pub is_thinking: bool,
    pub is_tool: bool,
    pub tool_success: Option<bool>,
    pub metrics: Option<MetricsView>,
    pub trace: Option<Seq<(JsonView, JsonView)>>,
    pub permission: Option<PromptView>,
}

/// The model of the conversation and of what is around it.
#[verifier::ext_equal]
pub struct AppView {
    pub messages: Seq<ShownMessage>,
    pub draft: Seq<char>,
    pub status: Option<Seq<char>>,
    pub scroll_to_bottom: bool,
    pub enabled: bool,
    pub base_url: Seq<char>,
    pub model: Seq<char>,
    pub num_ctx: u32,
    pub tavily_api_key: Seq<char>,
    pub rules: Seq<(Seq<char>, PathPermission)>,
    pub show_settings: bool,
    pub llm_status: Seq<char>,
    pub llm_busy: bool,
    pub thinking: Option<int>,
    pub pending_tool: Option<int>,
    pub command_prompt: Option<Seq<char>>,
    pub file_prompt: Option<int>,
    pub new_rule: Seq<char>,
    pub new_permission: PathPermission,
    pub details: Option<Seq<(JsonView, JsonView)>>,
}

impl View for PermissionPrompt {
    type V = PromptView;

    open spec fn view(&self) -> PromptView {
        match self {
            PermissionPrompt::Pending { directory, tool_name, arguments, access } => {
                PromptView::Pending {
                    directory: directory@,
                    tool_name: tool_name@,
                    arguments: arguments@,
                    access: *access,
                }
            },
            PermissionPrompt::Resolved { directory, choice, saved_persistent } => {
                PromptView::Resolved {
                    directory: directory@,
                    choice: *choice,
                    saved_persistent: *saved_persistent,
                }
            },
        }
    }
}

/// The model of what may be metrics.
pub open spec fn metrics_view(metrics: Option<OllamaMetrics>) -> Option<MetricsView> {
    match metrics {
        Some(metrics) => Some(metrics@),
        None => None,
    }
}

/// The model of what may be a trace.
pub open spec fn trace_view(trace: Option<ChatTrace>) -> Option<Seq<(JsonView, JsonView)>> {
    match trace {
        Some(trace) => Some(trace@),
        None => None,
    }
}

/// The model of what may be a question for access to files.
pub open spec fn prompt_view(prompt: Option<PermissionPrompt>) -> Option<PromptView> {
    match prompt {
        Some(prompt) => Some(prompt@),
        None => None,
    }
}

/// The model of what may be a place.
pub open spec fn index_view(index: Option<usize>) -> Option<int> {
    match index {
        Some(index) => Some(index as int),
        None => None,
    }
}

impl View for Message {
    type V = ShownMessage;

    open spec fn view(&self) -> ShownMessage {
        ShownMessage {
            author: self.author@,
            content: self.content@,
            created_at: self.created_at,
            is_thinking: self.is_thinking,
            is_tool: self.is_tool,
            tool_success: self.tool_success,
            metrics: metrics_view(self.metrics),
            trace: trace_view(self.trace),
            permission: prompt_view(self.permission),
        }
    }
}

/// The models of messages.
pub open spec fn shown_messages(messages: Seq<Message>) -> Seq<ShownMessage> {
    messages.map_values(|message: Message| message@)
}

/// The models of rules.
pub open spec fn rule_views(rules: Seq<PathPermissionRule>) -> Seq<(Seq<char>, PathPermission)> {
    rules.map_values(|rule: PathPermissionRule| (rule.path@, rule.permission))
}

impl View for ChatApp {
    type V = AppView;

    open spec fn view(&self) -> AppView {
        AppView {
            messages: shown_messages(self.messages@),
            draft: self.draft@,
            status: string_view(self.status),
            scroll_to_bottom: self.scroll_to_bottom,
            enabled: self.llm.enabled,
            base_url: self.llm.base_url@,
            model: self.llm.model@,
            num_ctx: self.llm.num_ctx,
            tavily_api_key: self.llm.tavily_api_key@,
            rules: rule_views(self.llm.path_permissions@),
            show_settings: self.show_settings,
            llm_status: self.llm_status@,
            llm_busy: self.llm_busy,
            thinking: index_view(self.thinking_message_index),
            pending_tool: index_view(self.pending_tool_message_index),
            command_prompt: string_view(self.command_prompt),
            file_prompt: index_view(self.file_permission_prompt),
            new_rule: self.new_persistent_rule@,
            new_permission: self.new_persistent_permission,
            details: trace_view(self.details_trace),
        }
    }
}

/// The model of an event from outside.
pub enum LlmEventView {
    Models(Seq<Seq<char>>),
    Thinking(Seq<char>),
    ToolAction(ActionUpdateView),
    CommandApprovalNeeded(Seq<char>),
    FilePermissionNeeded {
        tool_name: Seq<char>,
        arguments: Seq<char>,
        directory: Seq<char>,
        access: FileAccess,
    },
    Reply { content: Seq<char>, metrics: MetricsView, trace: Seq<(JsonView, JsonView)> },
    Failed(Seq<char>),
}

impl View for LlmEvent {
    type V = LlmEventView;

    open spec fn view(&self) -> LlmEventView {
        match self {
            LlmEvent::Models { models } => LlmEventView::Models(views(models@)),
            LlmEvent::Thinking { content } => LlmEventView::Thinking(content@),
            LlmEvent::ToolAction { update } => LlmEventView::ToolAction(update@),
            LlmEvent::CommandApprovalNeeded { command } => {
                LlmEventView::CommandApprovalNeeded(command@)
            },
            LlmEvent::FilePermissionNeeded { tool_name, arguments, directory, access } => {
                LlmEventView::FilePermissionNeeded {
                    tool_name: tool_name@,
                    arguments: arguments@,
                    directory: directory@,
                    access: *access,
                }
            },
            LlmEvent::Reply { content, metrics, trace } => LlmEventView::Reply {
                content: content@,
                metrics: metrics@,
                trace: trace@,
            },
            LlmEvent::Failed { message } => LlmEventView::Failed(message@),
        }
    }
}

/// A message with nothing but its author, its text and its time.
pub open spec fn plain_message(author: Seq<char>, content: Seq<char>, now: i64) -> ShownMessage {
    ShownMessage {
        author,
        content,
        created_at: now,
        is_thinking: false,
        is_tool: false,
        tool_success: None,
        metrics: None,
        trace: None,
        permission: None,
    }
}

/// A message with nothing but its author, its text and its time.
fn new_message(author: &str, content: String, now: i64) -> (message: Message)
    ensures
        message@ == plain_message(author@, content@, now),
{
    Message {
        author: author.to_owned(),
        content,
        created_at: now,
        is_thinking: false,
        is_tool: false,
        tool_success: None,
        metrics: None,
        trace: None,
        permission: None,
    }
}

impl AppView {
    /// What always holds: the message that shows the thinking is the last one, the only one of its
    /// kind, and there only while the assistant is busy; a tool that runs has its message, and so
    /// has a question for access to files that is open.
    pub open spec fn well_formed(self) -> bool {
        &&& self.thinking matches Some(at) ==> {
            &&& at == self.messages.len() - 1
            &&& 0 <= at
            &&& self.messages[at].author == ASSISTANT_NAME@
            &&& self.llm_busy
        }
        &&& forall|i: int|
            0 <= i < self.messages.len() ==> ((#[trigger] self.messages[i]).is_thinking
                <==> self.thinking == Some(i))
        &&& self.pending_tool matches Some(at) ==> {
            &&& 0 <= at < self.messages.len()
            &&& self.messages[at].is_tool
            &&& !self.messages[at].is_thinking
        }
        &&& self.file_prompt matches Some(at) ==> {
            &&& 0 <= at < self.messages.len()
            &&& self.messages[at].permission matches Some(prompt) && prompt is Pending
            &&& !self.messages[at].is_thinking
        }
    }

    /// Before the first message.
    pub open spec fn is_fresh(self, config: LlmConfig) -> bool {
        self == AppView {
            messages: Seq::empty(),
            draft: Seq::empty(),
            status: None,
            scroll_to_bottom: false,
            enabled: config.enabled,
            base_url: config.base_url@,
            model: config.model@,
            num_ctx: config.num_ctx,
            tavily_api_key: config.tavily_api_key@,
            rules: rule_views(config.path_permissions@),
            show_settings: false,
            llm_status: "Checking for Ollama…"@,
            llm_busy: false,
            thinking: None,
            pending_tool: None,
            command_prompt: None,
            file_prompt: None,
            new_rule: Seq::empty(),
            new_permission: PathPermission::AllowDirectory,
            details: None,
        }
    }

    /// With the message that shows the thinking.
    pub open spec fn asking(self, now: i64) -> AppView {
        AppView {
            messages: self.messages.push(
                ShownMessage {
                    is_thinking: true,
                    ..plain_message(ASSISTANT_NAME@, "Thinking…"@, now)
                },
            ),
            llm_busy: true,
            llm_status: "Connected · "@ + self.model + " (thinking…)"@,
            thinking: Some(self.messages.len() as int),
            scroll_to_bottom: true,
            ..self
        }
    }

    /// Whether the model is to answer what the user writes.
    pub open spec fn answers(self) -> bool {
        self.enabled && "Connected"@.is_prefix_of(self.llm_status)
    }

    /// After the user has sent the draft.
    pub open spec fn after_send(self, now: i64) -> AppView {
        if blank(self.draft) {
            AppView { status: Some("Enter a message before sending."@), ..self }
        } else if self.llm_busy {
            self
        } else {
            let sent = AppView {
                messages: self.messages.push(plain_message(USER_NAME@, trimmed(self.draft), now)),
                draft: Seq::empty(),
                status: None,
                scroll_to_bottom: true,
                ..self
            };
            if self.answers() {
                sent.asking(now)
            } else {
                sent
            }
        }
    }

    /// With a message before the one that shows the thinking, or at the end where there is none.
    pub open spec fn with_inserted(self, message: ShownMessage) -> AppView {
        let at = self.insertion_point();
        AppView {
            messages: self.messages.insert(at, message),
            thinking: match self.thinking {
                Some(at) => Some(at + 1),
                None => None,
            },
            scroll_to_bottom: true,
            ..self
        }
    }

    /// Where messages come in while the assistant thinks.
    pub open spec fn insertion_point(self) -> int {
        match self.thinking {
            Some(at) => at,
            None => self.messages.len() as int,
        }
    }

    /// After a step of a tool.
    pub open spec fn after_tool_action(self, update: ActionUpdateView, now: i64) -> AppView {
        if update.completed {
            match self.pending_tool {
                Some(at) => AppView {
                    messages: self.messages.update(
                        at,
                        ShownMessage {
                            content: tool_message_content(update),
                            created_at: now,
                            tool_success: Some(update.success),
                            ..self.messages[at]
                        },
                    ),
                    pending_tool: None,
                    ..self
                },
                None => self,
            }
        } else {
            AppView {
                pending_tool: Some(self.insertion_point()),
                ..self.with_inserted(
                    ShownMessage {
                        is_tool: true,
                        ..plain_message("Tool · "@ + update.name, tool_message_content(update), now)
                    },
                )
            }
        }
    }

    /// After a question for access to files has come.
    pub open spec fn after_question(
        self,
        tool_name: Seq<char>,
        arguments: Seq<char>,
        directory: Seq<char>,
        access: FileAccess,
        now: i64,
    ) -> AppView {
        AppView {
            file_prompt: Some(self.insertion_point()),
            ..self.with_inserted(
                ShownMessage {
                    permission: Some(
                        PromptView::Pending { directory, tool_name, arguments, access },
                    ),
                    ..plain_message("File access"@, Seq::empty(), now)
                },
            )
        }
    }

    /// Without the message that shows the thinking.
    pub open spec fn without_thinking(self) -> AppView {
        match self.thinking {
            Some(at) => AppView {
                messages: self.messages.remove(at),
                thinking: None,
                ..self
            },
            None => self,
        }
    }

    /// After the reply: it takes the place of the thinking, or comes last.
    pub open spec fn after_reply(
        self,
        content: Seq<char>,
        metrics: MetricsView,
        trace: Seq<(JsonView, JsonView)>,
        now: i64,
    ) -> AppView {
        AppView {
            messages: match self.thinking {
                Some(at) => self.messages.update(
                    at,
                    ShownMessage {
                        content,
                        is_thinking: false,
                        is_tool: false,
                        tool_success: None,
                        created_at: now,
                        metrics: Some(metrics),
                        trace: Some(trace),
                        ..self.messages[at]
                    },
                ),
                None => self.messages.push(
                    ShownMessage {
                        metrics: Some(metrics),
                        trace: Some(trace),
                        ..plain_message(ASSISTANT_NAME@, content, now)
                    },
                ),
            },
            thinking: None,
            pending_tool: None,
            llm_busy: false,
            llm_status: "Connected · using "@ + self.model,
            scroll_to_bottom: true,
            ..self
        }
    }

    /// After a failure: nothing is waited for any more.
    pub open spec fn after_failure(self, message: Seq<char>) -> AppView {
        let quiet = if self.llm_busy {
            AppView { llm_busy: false, ..self.without_thinking() }
        } else {
            self
        };
        AppView {
            pending_tool: None,
            command_prompt: None,
            file_prompt: None,
            llm_status: message,
            status: Some(message),
            ..quiet
        }
    }

    /// After an event from outside.
    pub open spec fn after_event(self, event: LlmEventView, now: i64) -> AppView {
        match event {
            LlmEventView::Models(models) => AppView {
                llm_status: models_status(models, self.model),
                ..self
            },
            LlmEventView::Thinking(content) => match self.thinking {
                Some(at) => AppView {
                    messages: self.messages.update(
                        at,
                        ShownMessage { content, ..self.messages[at] },
                    ),
                    scroll_to_bottom: true,
                    ..self
                },
                None => self,
            },
            LlmEventView::ToolAction(update) => self.after_tool_action(update, now),
            LlmEventView::CommandApprovalNeeded(command) => AppView {
                command_prompt: Some(command),
                ..self
            },
            LlmEventView::FilePermissionNeeded { tool_name, arguments, directory, access } => {
                self.after_question(tool_name, arguments, directory, access, now)
            },
            LlmEventView::Reply { content, metrics, trace } => self.after_reply(
                content,
                metrics,
                trace,
                now,
            ),
            LlmEventView::Failed(message) => self.after_failure(message),
        }
    }

    /// After the user's answer to the question for access that is open.
    pub open spec fn after_choice(self, choice: FilePermissionChoice, now: i64) -> AppView {
        match self.file_prompt {
            Some(at) => match self.messages[at].permission {
                Some(PromptView::Pending { directory, tool_name, arguments, access }) => AppView {
                    messages: self.messages.update(
                        at,
                        ShownMessage {
                            permission: Some(
                                PromptView::Resolved { directory, choice, saved_persistent: false },
                            ),
                            created_at: now,
                            ..self.messages[at]
                        },
                    ),
                    file_prompt: None,
                    ..self
                },
                _ => AppView { file_prompt: None, ..self },
            },
            None => self,
        }
    }

    /// The rule that the answer to a question at a place makes, where it is not saved yet.
    pub open spec fn unsaved_rule(self, at: int) -> Option<(Seq<char>, PathPermission)> {
        if 0 <= at < self.messages.len() {
            match self.messages[at].permission {
                Some(PromptView::Resolved { directory, choice, saved_persistent }) => {
                    if saved_persistent {
                        None
                    } else {
                        Some((directory, choice.permission()))
                    }
                },
                _ => None,
            }
        } else {
            None
        }
    }

    /// After the answer to a question at a place is saved for all sessions.
    pub open spec fn after_saving_answer(self, at: int) -> AppView {
        match (self.unsaved_rule(at), self.messages[at].permission) {
            (
                Some(rule),
                Some(PromptView::Resolved { directory, choice, saved_persistent }),
            ) => AppView {
                rules: self.rules.push(rule),
                messages: self.messages.update(
                    at,
                    ShownMessage {
                        permission: Some(
                            PromptView::Resolved { directory, choice, saved_persistent: true },
                        ),
                        ..self.messages[at]
                    },
                ),
                ..self
            },
            _ => self,
        }
    }
}

impl AppView {
    /// After the user has decided on the command that waits, if one does.
    pub open spec fn after_decision(self) -> AppView {
        AppView { command_prompt: None, ..self }
    }

    /// After the rule that the user has entered was added, unless no path was entered.
    pub open spec fn after_adding_rule(self) -> AppView {
        if blank(self.new_rule) {
            AppView {
                status: Some("Enter a directory path for the permission rule."@),
                ..self
            }
        } else {
            AppView {
                rules: self.rules.push((trimmed(self.new_rule), self.new_permission)),
                new_rule: Seq::empty(),
                ..self
            }
        }
    }

    /// After the saved rule at a place was removed, if there is one.
    pub open spec fn after_removing_rule(self, index: int) -> AppView {
        if 0 <= index < self.rules.len() {
            AppView { rules: self.rules.remove(index), ..self }
        } else {
            self
        }
    }
}

/// What is said of the server once it has listed its models.
pub open spec fn models_status(models: Seq<Seq<char>>, model: Seq<char>) -> Seq<char> {
    if models.len() == 0 {
        "Connected, but no models found. Run `ollama pull qwen3:4b`."@
    } else if models.contains(model) {
        "Connected · using "@ + model
    } else {
        "Connected · `"@ + model + "` not installed — run `ollama pull "@ + model + "`"@
    }
}

/// Whether a message is part of what the model is told of the conversation.
pub open spec fn is_told(message: ShownMessage) -> bool {
    !message.is_thinking && !message.is_tool
}

/// A message as the model is told it.
pub open spec fn told(message: ShownMessage) -> TurnView {
    TurnView {
        role: if message.author == ASSISTANT_NAME@ {
            "assistant"@
        } else {
            "user"@
        },
        content: message.content,
    }
}

/// The conversation as the model is told it: without the thinking and the tools.
pub open spec fn told_turns(messages: Seq<ShownMessage>) -> Seq<TurnView> {
    messages.filter(|message: ShownMessage| is_told(message)).map_values(
        |message: ShownMessage| told(message),
    )
}

/// The conversation as the model is told it.
pub fn conversation_turns(messages: &Vec<Message>) -> (turns: Vec<ChatTurn>)
    ensures
        turn_views(turns@) == told_turns(shown_messages(messages@)),
{
    let ghost all = shown_messages(messages@);
    let ghost keep = |message: ShownMessage| is_told(message);
    let ghost tell = |message: ShownMessage| told(message);
    let mut turns: Vec<ChatTurn> = Vec::new();
    let mut i: usize = 0;
    proof {
        reveal(Seq::filter);
        assert(all.take(0) =~= Seq::empty());
        assert(turn_views(turns@) =~= told_turns(all.take(0)));
    }
    while i < messages.len()
        invariant
            i <= messages@.len(),
            all == shown_messages(messages@),
            keep == (|message: ShownMessage| is_told(message)),
            tell == (|message: ShownMessage| told(message)),
            turn_views(turns@) == told_turns(all.take(i as int)),
        decreases messages@.len() - i,
    {
        let message = &messages[i];
        proof {
            reveal(Seq::filter);
            assert(all[i as int] == message@);
            assert(all.take(i + 1).drop_last() =~= all.take(i as int));
        }
        if !message.is_thinking && !message.is_tool {
            let turn = ChatTurn {
                role: if same_text(message.author.as_str(), ASSISTANT_NAME) {
                    "assistant".to_owned()
                } else {
                    "user".to_owned()
                },
                content: message.content.clone(),
            };
            let ghost before = turn_views(turns@);
            turns.push(turn);
            assert(turn_views(turns@) =~= before.push(turn@));
            assert(told_turns(all.take(i + 1)) =~= before.push(told(message@)));
        } else {
            assert(told_turns(all.take(i + 1)) =~= told_turns(all.take(i as int)));
        }
        i += 1;
    }
    assert(all.take(i as int) =~= all);
    turns
}

/// What is said of the server once it has listed its models.
pub fn listed_status(models: &Vec<String>, model: &str) -> (status: String)
    ensures
        status@ == models_status(views(models@), model@),
{
    assert(views(models@).len() == models@.len());
    if models.len() == 0 {
        return "Connected, but no models found. Run `ollama pull qwen3:4b`.".to_owned();
    }
    let mut i: usize = 0;
    while i < models.len()
        invariant
            i <= models@.len(),
            0 < models@.len(),
            forall|j: int| 0 <= j < i ==> (#[trigger] views(models@)[j]) != model@,
        decreases models@.len() - i,
    {
        assert(views(models@)[i as int] == models@[i as int]@);
        if same_text(models[i].as_str(), model) {
            assert(views(models@).contains(model@));
            let mut status = "Connected · using ".to_owned();
            status.append(model);
            return status;
        }
        i += 1;
    }
    assert(!views(models@).contains(model@));
    let mut status = "Connected · `".to_owned();
    status.append(model);
    status.append("` not installed — run `ollama pull ");
    status.append(model);
    status.append("`");
    status
}

impl ChatApp {
    /// A conversation without messages, with the given settings.
    pub fn new(llm: LlmConfig) -> (app: ChatApp)
        ensures
            app@.is_fresh(llm),
            app@.well_formed(),
    {
        let app = ChatApp {
            messages: Vec::new(),
            draft: String::new(),
            status: None,
            scroll_to_bottom: false,
            llm,
            show_settings: false,
            llm_status: "Checking for Ollama…".to_owned(),
            llm_busy: false,
            thinking_message_index: None,
            pending_tool_message_index: None,
            command_prompt: None,
            file_permission_prompt: None,
            new_persistent_rule: String::new(),
            new_persistent_permission: PathPermission::AllowDirectory,
            details_trace: None,
        };
        assert(app@.messages =~= Seq::empty());
        app
    }

    /// The server is to be asked for its models, at the returned address.
    pub fn check_llm(&mut self) -> (base_url: String)
        ensures
            base_url@ == old(self)@.base_url,
            final(self)@ == (AppView { llm_status: "Checking for Ollama…"@, ..old(self)@ }),
            old(self)@.well_formed() ==> final(self)@.well_formed(),
    {
        self.llm_status = "Checking for Ollama…".to_owned();
        self.llm.base_url.clone()
    }

    /// The settings were saved, or could not be. Returns whether the server is to be asked for its
    /// models.
    pub fn save_settings(&mut self, saved: Result<(), String>, refresh_ollama: bool) -> (check: bool)
        ensures
            check == (refresh_ollama && !old(self)@.llm_busy),
            final(self)@ == match saved {
                Ok(_) => old(self)@,
                Err(message) => AppView { status: Some(message@), ..old(self)@ },
            },
            old(self)@.well_formed() ==> final(self)@.well_formed(),
    {
        if let Err(message) = saved {
            self.status = Some(message);
        }
        refresh_ollama && !self.llm_busy
    }

    /// Shows that the assistant thinks. Returns what the model is to be told of the conversation.
    fn request_llm_reply(&mut self, now: i64) -> (turns: Vec<ChatTurn>)
        ensures
            final(self)@ == old(self)@.asking(now),
            turn_views(turns@) == told_turns(final(self)@.messages),
    {
        let ghost before = self@;
        self.llm_busy = true;
        let mut llm_status = "Connected · ".to_owned();
        llm_status.append(self.llm.model.as_str());
        llm_status.append(" (thinking…)");
        self.llm_status = llm_status;
        let mut message = new_message(ASSISTANT_NAME, "Thinking…".to_owned(), now);
        message.is_thinking = true;
        let at: usize = self.messages.len();
        self.messages.push(message);
        assert(shown_messages(self.messages@) =~= before.messages.push(message@));
        self.thinking_message_index = Some(at);
        self.scroll_to_bottom = true;
        conversation_turns(&self.messages)
    }

    /// Sends the draft. Where the model is to answer, what it is to be told is returned.
    pub fn send_message(&mut self, now: i64) -> (turns: Option<Vec<ChatTurn>>)
        requires
            old(self)@.well_formed(),
        ensures
            final(self)@ == old(self)@.after_send(now),
            final(self)@.well_formed(),
            match turns {
                Some(turns) => {
                    &&& !blank(old(self)@.draft) && !old(self)@.llm_busy && old(self)@.answers()
                    &&& turn_views(turns@) == told_turns(final(self)@.messages)
                },
                None => blank(old(self)@.draft) || old(self)@.llm_busy || !old(self)@.answers(),
            },
    {
        let ghost before = self@;
        if is_blank(self.draft.as_str()) {
            self.status = Some("Enter a message before sending.".to_owned());
            return None;
        }
        if self.llm_busy {
            return None;
        }
        let content = trim(self.draft.as_str());
        let message = new_message(USER_NAME, content, now);
        self.messages.push(message);
        assert(shown_messages(self.messages@) =~= before.messages.push(message@));
        self.draft = String::new();
        self.status = None;
        self.scroll_to_bottom = true;
        let answers = self.llm.enabled && starts_with(self.llm_status.as_str(), "Connected");
        if answers {
            Some(self.request_llm_reply(now))
        } else {
            None
        }
    }

    /// The user lets the command run that waits for it: it is returned.
    pub fn approve_command(&mut self) -> (command: Option<String>)
        ensures
            string_view(command) == old(self)@.command_prompt,
            final(self)@ == old(self)@.after_decision(),
            final(self)@ == (AppView { command_prompt: None, ..old(self)@ }),
            old(self)@.well_formed() ==> final(self)@.well_formed(),
    {
        self.command_prompt.take()
    }

    /// The user does not let the command run that waits for it. Returns what is answered.
    pub fn reject_command(&mut self) -> (answer: Option<String>)
        ensures
            match answer {
                Some(answer) => {
                    &&& old(self)@.command_prompt is Some
                    &&& answer@ == "User rejected running this command."@
                },
                None => old(self)@.command_prompt is None,
            },
            final(self)@ == old(self)@.after_decision(),
            final(self)@ == (AppView { command_prompt: None, ..old(self)@ }),
            old(self)@.well_formed() ==> final(self)@.well_formed(),
    {
        match self.command_prompt.take() {
            Some(_) => Some("User rejected running this command.".to_owned()),
            None => None,
        }
    }

    /// The user answers the question for access that is open. Returns whether there was one, which
    /// the choice is an answer to.
    pub fn resolve_file_permission(&mut self, choice: FilePermissionChoice, now: i64) -> (asked: bool)
        requires
            old(self)@.well_formed(),
        ensures
            asked == old(self)@.file_prompt is Some,
            final(self)@ == old(self)@.after_choice(choice, now),
            final(self)@.well_formed(),
    {
        let ghost before = self@;
        let at = match self.file_permission_prompt.take() {
            Some(at) => at,
            None => {
                return false;
            },
        };
        let mut message = self.messages.remove(at);
        assert(before.messages[at as int] == message@);
        if let Some(PermissionPrompt::Pending { directory, .. }) = message.permission {
            message.permission = Some(
                PermissionPrompt::Resolved { directory, choice, saved_persistent: false },
            );
            message.created_at = now;
        }
        self.messages.insert(at, message);
        assert(shown_messages(self.messages@) =~= before.messages.update(at as int, message@));
        assert(self@ =~= before.after_choice(choice, now));
        true
    }

    /// Saves the answer to a question for all sessions. Returns the rule that it makes, unless there
    /// is nothing to save.
    pub fn save_permission_for_all_sessions(&mut self, message_index: usize) -> (rule: Option<
        PathPermissionRule,
    >)
        requires
            old(self)@.well_formed(),
        ensures
            final(self)@ == old(self)@.after_saving_answer(message_index as int),
            final(self)@.well_formed(),
            match rule {
                Some(rule) => old(self)@.unsaved_rule(message_index as int) == Some(
                    (rule.path@, rule.permission),
                ),
                None => old(self)@.unsaved_rule(message_index as int) is None,
            },
    {
        let ghost before = self@;
        let ghost index = message_index as int;
        if message_index >= self.messages.len() {
            return None;
        }
        assert(before.messages[index] == self.messages@[index]@);
        let (directory, choice) = match &self.messages[message_index].permission {
            Some(PermissionPrompt::Resolved { directory, choice, saved_persistent }) => {
                if *saved_persistent {
                    return None;
                }
                (directory.clone(), *choice)
            },
            _ => {
                return None;
            },
        };
        let rule = choice.to_rule(directory.as_str());
        self.llm.path_permissions.push(rule.clone());
        assert(rule_views(self.llm.path_permissions@) =~= before.rules.push(
            (rule.path@, rule.permission),
        ));
        let mut message = self.messages.remove(message_index);
        message.permission = Some(
            PermissionPrompt::Resolved { directory, choice, saved_persistent: true },
        );
        self.messages.insert(message_index, message);
        assert(shown_messages(self.messages@) =~= before.messages.update(index, message@));
        assert(self@ =~= before.after_saving_answer(index));
        Some(rule)
    }

    /// Adds the rule that the user has entered. Returns it, unless no path was entered.
    pub fn add_persistent_permission_rule(&mut self) -> (rule: Option<PathPermissionRule>)
        ensures
            final(self)@ == old(self)@.after_adding_rule(),
            match rule {
                Some(rule) => {
                    &&& !blank(old(self)@.new_rule)
                    &&& rule.path@ == trimmed(old(self)@.new_rule)
                    &&& rule.permission == old(self)@.new_permission
                },
                None => blank(old(self)@.new_rule),
            },
            final(self)@ == if blank(old(self)@.new_rule) {
                AppView {
                    status: Some("Enter a directory path for the permission rule."@),
                    ..old(self)@
                }
            } else {
                AppView {
                    rules: old(self)@.rules.push(
                        (trimmed(old(self)@.new_rule), old(self)@.new_permission),
                    ),
                    new_rule: Seq::empty(),
                    ..old(self)@
                }
            },
            old(self)@.well_formed() ==> final(self)@.well_formed(),
    {
        let ghost before = self@;
        if is_blank(self.new_persistent_rule.as_str()) {
            self.status = Some("Enter a directory path for the permission rule.".to_owned());
            return None;
        }
        let rule = PathPermissionRule {
            path: trim(self.new_persistent_rule.as_str()),
            permission: self.new_persistent_permission,
        };
        self.llm.path_permissions.push(rule.clone());
        assert(rule_views(self.llm.path_permissions@) =~= before.rules.push(
            (rule.path@, rule.permission),
        ));
        self.new_persistent_rule = String::new();
        Some(rule)
    }

    /// Removes a saved rule. Returns whether there was one at this place.
    pub fn remove_persistent_permission_rule(&mut self, index: usize) -> (removed: bool)
        ensures
            removed == (index < old(self)@.rules.len()),
            final(self)@ == old(self)@.after_removing_rule(index as int),
            final(self)@ == if removed {
                AppView { rules: old(self)@.rules.remove(index as int), ..old(self)@ }
            } else {
                old(self)@
            },
            old(self)@.well_formed() ==> final(self)@.well_formed(),
    {
        let ghost before = self@;
        assert(before.rules.len() == self.llm.path_permissions@.len());
        if index >= self.llm.path_permissions.len() {
            return false;
        }
        self.llm.path_permissions.remove(index);
        assert(rule_views(self.llm.path_permissions@) =~= before.rules.remove(index as int));
        true
    }

    /// Puts a message in before the one that shows the thinking, or at the end where there is none.
    /// Returns its place.
    fn insert_message(&mut self, message: Message) -> (at: usize)
        requires
            old(self)@.well_formed(),
        ensures
            at == old(self)@.insertion_point(),
            final(self)@ == old(self)@.with_inserted(message@),
    {
        let ghost before = self@;
        let total: usize = self.messages.len();
        assert(before.messages.len() == total);
        let at = match self.thinking_message_index {
            Some(at) => at,
            None => total,
        };
        self.messages.insert(at, message);
        assert(shown_messages(self.messages@) =~= before.messages.insert(at as int, message@));
        if let Some(thinking_index) = self.thinking_message_index {
            self.thinking_message_index = Some(thinking_index + 1);
        }
        self.scroll_to_bottom = true;
        at
    }

    /// Shows a question for access to files.
    pub fn push_file_permission_prompt(
        &mut self,
        tool_name: String,
        arguments: String,
        directory: String,
        access: FileAccess,
        now: i64,
    )
        requires
            old(self)@.well_formed(),
        ensures
            final(self)@ == old(self)@.after_question(
                tool_name@,
                arguments@,
                directory@,
                access,
                now,
            ),
            final(self)@.well_formed(),
    {
        let ghost before = self@;
        let mut message = new_message("File access", String::new(), now);
        message.permission = Some(
            PermissionPrompt::Pending { directory, tool_name, arguments, access },
        );
        assert(message@.content =~= Seq::empty());
        let at = self.insert_message(message);
        self.file_permission_prompt = Some(at);
        proof {
            insertion_keeps_order(before, message@);
        }
    }

    /// Shows a step of a tool.
    pub fn push_tool_action(&mut self, update: &ToolActionUpdate, now: i64)
        requires
            old(self)@.well_formed(),
        ensures
            final(self)@ == old(self)@.after_tool_action(update@, now),
            final(self)@.well_formed(),
    {
        let ghost before = self@;
        if update.completed {
            if let Some(at) = self.pending_tool_message_index.take() {
                let mut message = self.messages.remove(at);
                assert(before.messages[at as int] == message@);
                message.content = format_tool_message_content(update);
                message.created_at = now;
                message.tool_success = Some(update.success);
                self.messages.insert(at, message);
                assert(shown_messages(self.messages@) =~= before.messages.update(
                    at as int,
                    message@,
                ));
            }
            return;
        }
        let mut author = "Tool · ".to_owned();
        author.append(update.name.as_str());
        let mut message = new_message(author.as_str(), format_tool_message_content(update), now);
        message.is_tool = true;
        let at = self.insert_message(message);
        self.pending_tool_message_index = Some(at);
        proof {
            insertion_keeps_order(before, message@);
        }
    }

    /// Takes the message away that shows the thinking.
    pub fn remove_thinking_message(&mut self)
        requires
            old(self)@.well_formed(),
        ensures
            final(self)@ == old(self)@.without_thinking(),
            final(self)@.well_formed(),
    {
        let ghost before = self@;
        if let Some(at) = self.thinking_message_index.take() {
            self.messages.remove(at);
            assert(shown_messages(self.messages@) =~= before.messages.remove(at as int));
        }
    }

    /// Shows the reply in place of the thinking, or as a new message.
    fn show_reply(&mut self, content: String, metrics: OllamaMetrics, trace: ChatTrace, now: i64)
        requires
            old(self)@.well_formed(),
        ensures
            final(self)@ == old(self)@.after_reply(content@, metrics@, trace@, now),
            final(self)@.well_formed(),
    {
        let ghost before = self@;
        if let Some(at) = self.thinking_message_index.take() {
            let mut message = self.messages.remove(at);
            assert(before.messages[at as int] == message@);
            message.content = content;
            message.is_thinking = false;
            message.is_tool = false;
            message.tool_success = None;
            message.created_at = now;
            message.metrics = Some(metrics);
            message.trace = Some(trace);
            self.messages.insert(at, message);
            assert(shown_messages(self.messages@) =~= before.messages.update(at as int, message@));
        } else {
            let mut message = new_message(ASSISTANT_NAME, content, now);
            message.metrics = Some(metrics);
            message.trace = Some(trace);
            self.messages.push(message);
            assert(shown_messages(self.messages@) =~= before.messages.push(message@));
        }
        self.pending_tool_message_index = None;
        self.llm_busy = false;
        let mut llm_status = "Connected · using ".to_owned();
        llm_status.append(self.llm.model.as_str());
        self.llm_status = llm_status;
        self.scroll_to_bottom = true;
        assert(self@ =~= before.after_reply(content@, metrics@, trace@, now));
    }

    /// Takes note of an event from outside.
    pub fn handle_event(&mut self, event: LlmEvent, now: i64)
        requires
            old(self)@.well_formed(),
        ensures
            final(self)@ == old(self)@.after_event(event@, now),
            final(self)@.well_formed(),
    {
        let ghost before = self@;
        match event {
            LlmEvent::Models { models } => {
                self.llm_status = listed_status(&models, self.llm.model.as_str());
            },
            LlmEvent::Thinking { content } => {
                if let Some(at) = self.thinking_message_index {
                    let mut message = self.messages.remove(at);
                    assert(before.messages[at as int] == message@);
                    message.content = content;
                    self.messages.insert(at, message);
                    assert(shown_messages(self.messages@) =~= before.messages.update(
                        at as int,
                        message@,
                    ));
                    self.scroll_to_bottom = true;
                }
            },
            LlmEvent::ToolAction { update } => {
                self.push_tool_action(&update, now);
            },
            LlmEvent::CommandApprovalNeeded { command } => {
                self.command_prompt = Some(command);
            },
            LlmEvent::FilePermissionNeeded { tool_name, arguments, directory, access } => {
                self.push_file_permission_prompt(tool_name, arguments, directory, access, now);
            },
            LlmEvent::Reply { content, metrics, trace } => {
                self.show_reply(content, metrics, trace, now);
            },
            LlmEvent::Failed { message } => {
                if self.llm_busy {
                    self.remove_thinking_message();
                    self.llm_busy = false;
                }
                self.pending_tool_message_index = None;
                self.command_prompt = None;
                self.file_permission_prompt = None;
                self.llm_status = message.clone();
                self.status = Some(message);
            },
        }
    }

    /// Opens the trace of a message, if it has one.
    pub fn open_details(&mut self, message_index: usize)
        ensures
            final(self)@ == if message_index < old(self)@.messages.len()
                && old(self)@.messages[message_index as int].trace is Some {
                AppView {
                    details: old(self)@.messages[message_index as int].trace,
                    ..old(self)@
                }
            } else {
                old(self)@
            },
            old(self)@.well_formed() ==> final(self)@.well_formed(),
    {
        let ghost before = self@;
        if message_index < self.messages.len() {
            assert(before.messages[message_index as int] == self.messages@[message_index as int]@);
            if let Some(trace) = &self.messages[message_index].trace {
                self.details_trace = Some(trace.clone());
            }
        }
    }
}

/// A message that comes in before the thinking leaves all others in order.
proof fn insertion_keeps_order(app: AppView, message: ShownMessage)
    requires
        app.well_formed(),
        !message.is_thinking,
    ensures
        app.with_inserted(message).well_formed(),
        app.with_inserted(message).messages[app.insertion_point()] == message,
{
    let at = app.insertion_point();
    let after = app.with_inserted(message);
    assert forall|i: int| 0 <= i < after.messages.len() implies ((
    #[trigger] after.messages[i]).is_thinking <==> after.thinking == Some(i)) by {
        if i < at {
            assert(after.messages[i] == app.messages[i]);
        } else if i > at {
            assert(after.messages[i] == app.messages[i - 1]);
        }
    }
    if let Some(pending) = app.pending_tool {
        assert(after.messages[pending] == app.messages[pending]);
    }
    if let Some(open) = app.file_prompt {
        assert(after.messages[open] == app.messages[open]);
    }
}

/// The conversation as the model is told it does not depend on a message that is not told.
proof fn untold_message(before: Seq<ShownMessage>, message: ShownMessage, behind: Seq<ShownMessage>)
    requires
        !is_told(message),
    ensures
        told_turns(before + seq![message] + behind) == told_turns(before + behind),
    decreases behind.len(),
{
    let keep = |message: ShownMessage| is_told(message);
    let tell = |message: ShownMessage| told(message);
    let all = before + seq![message] + behind;
    let rest = before + behind;
    reveal(Seq::filter);
    if behind.len() == 0 {
        assert(all.drop_last() =~= before);
        assert(rest =~= before);
    } else {
        let shorter = behind.drop_last();
        untold_message(before, message, shorter);
        assert(all.drop_last() =~= before + seq![message] + shorter);
        assert(rest.drop_last() =~= before + shorter);
        let kept_all = all.drop_last().filter(keep);
        let kept_rest = rest.drop_last().filter(keep);
        assert(kept_all.push(behind.last()).map_values(tell) =~= kept_all.map_values(tell).push(
            tell(behind.last()),
        ));
        assert(kept_rest.push(behind.last()).map_values(tell) =~= kept_rest.map_values(tell).push(
            tell(behind.last()),
        ));
    }
}

/// The conversation as the model is told it goes on with a message that is told.
proof fn told_message(before: Seq<ShownMessage>, message: ShownMessage)
    requires
        is_told(message),
    ensures
        told_turns(before.push(message)) == told_turns(before).push(told(message)),
{
    let keep = |message: ShownMessage| is_told(message);
    let tell = |message: ShownMessage| told(message);
    reveal(Seq::filter);
    assert(before.push(message).drop_last() =~= before);
    assert(before.filter(keep).push(message).map_values(tell) =~= before.filter(keep).map_values(
        tell,
    ).push(tell(message)));
}

/// What the user sends is the last thing that the model is told.
pub proof fn sent_message_is_told(app: AppView, now: i64)
    requires
        !blank(app.draft),
        !app.llm_busy,
    ensures
        told_turns(app.after_send(now).messages) == told_turns(app.messages).push(
            TurnView { role: "user"@, content: trimmed(app.draft) },
        ),
{
    let message = plain_message(USER_NAME@, trimmed(app.draft), now);
    reveal_strlit("You");
    reveal_strlit("Assistant");
    assert(USER_NAME@.len() == 3 && ASSISTANT_NAME@.len() == 9);
    told_message(app.messages, message);
    if app.answers() {
        let sent = AppView {
            messages: app.messages.push(message),
            draft: Seq::empty(),
            status: None,
            scroll_to_bottom: true,
            ..app
        };
        thinking_is_not_told(sent, now);
    }
}

/// The reply is told to the model in later chats, as its own words.
pub proof fn reply_is_told(
    app: AppView,
    content: Seq<char>,
    metrics: MetricsView,
    trace: Seq<(JsonView, JsonView)>,
    now: i64,
)
    requires
        app.well_formed(),
    ensures
        told_turns(app.after_reply(content, metrics, trace, now).messages) == told_turns(
            app.messages,
        ).push(TurnView { role: "assistant"@, content }),
{
    let after = app.after_reply(content, metrics, trace, now);
    let before = after.messages.drop_last();
    let reply = after.messages.last();
    assert(after.messages =~= before.push(reply));
    told_message(before, reply);
    if app.thinking is Some {
        untold_message(before, app.messages.last(), Seq::empty());
        assert(before + seq![app.messages.last()] + Seq::<ShownMessage>::empty() =~= app.messages);
        assert(before + Seq::<ShownMessage>::empty() =~= before);
    } else {
        assert(before =~= app.messages);
    }
}

/// The model is not told that the assistant thinks.
pub proof fn thinking_is_not_told(app: AppView, now: i64)
    ensures
        told_turns(app.asking(now).messages) == told_turns(app.messages),
{
    let message = ShownMessage {
        is_thinking: true,
        ..plain_message(ASSISTANT_NAME@, "Thinking…"@, now)
    };
    untold_message(app.messages, message, Seq::empty());
    assert(app.messages + seq![message] + Seq::<ShownMessage>::empty() =~= app.messages.push(
        message,
    ));
    assert(app.messages + Seq::<ShownMessage>::empty() =~= app.messages);
}

/// What tools do is shown, but does not become part of the conversation that the model is told.
pub proof fn tools_are_not_told(app: AppView, update: ActionUpdateView, now: i64)
    requires
        app.well_formed(),
    ensures
        told_turns(app.after_tool_action(update, now).messages) == told_turns(app.messages),
{
    let after = app.after_tool_action(update, now);
    if !update.completed {
        let at = app.insertion_point();
        let message = after.messages[at];
        let before = app.messages.take(at);
        let behind = app.messages.skip(at);
        untold_message(before, message, behind);
        assert(after.messages =~= before + seq![message] + behind);
        assert(app.messages =~= before + behind);
    } else if let Some(at) = app.pending_tool {
        let before = app.messages.take(at);
        let behind = app.messages.skip(at + 1);
        untold_message(before, app.messages[at], behind);
        untold_message(before, after.messages[at], behind);
        assert(app.messages =~= before + seq![app.messages[at]] + behind);
        assert(after.messages =~= before + seq![after.messages[at]] + behind);
    }
}

/// While the assistant is busy, the user cannot send: nothing changes but the hint on an empty
/// draft.
pub proof fn busy_assistant_takes_no_message(app: AppView, now: i64)
    requires
        app.llm_busy,
    ensures
        app.after_send(now).messages == app.messages,
        app.after_send(now).draft == app.draft,
        !blank(app.draft) ==> app.after_send(now) == app,
{
}

/// The reply is the last message, from the assistant, and no longer thinking; nothing is waited for
/// but answers of the user.
pub proof fn reply_is_last_message(
    app: AppView,
    content: Seq<char>,
    metrics: MetricsView,
    trace: Seq<(JsonView, JsonView)>,
    now: i64,
)
    requires
        app.well_formed(),
    ensures
        ({
            let after = app.after_reply(content, metrics, trace, now);
            &&& after.messages.last().author == ASSISTANT_NAME@
            &&& after.messages.last().content == content
            &&& after.messages.last().metrics == Some(metrics)
            &&& after.messages.last().trace == Some(trace)
            &&& !after.messages.last().is_thinking && !after.messages.last().is_tool
            &&& !after.llm_busy && after.thinking is None && after.pending_tool is None
        }),
{
}

/// A failure leaves nothing open: no thinking, no tool, no question, and no busy assistant.
pub proof fn failure_leaves_nothing_open(app: AppView, message: Seq<char>)
    requires
        app.well_formed(),
    ensures
        ({
            let after = app.after_failure(message);
            &&& !after.llm_busy
            &&& after.thinking is None
            &&& after.pending_tool is None
            &&& after.command_prompt is None
            &&& after.file_prompt is None
            &&& after.status == Some(message)
            &&& forall|i: int|
                0 <= i < after.messages.len() ==> !(#[trigger] after.messages[i]).is_thinking
        }),
{
    let after = app.after_failure(message);
    assert forall|i: int| 0 <= i < after.messages.len() implies !(
    #[trigger] after.messages[i]).is_thinking by {
        assert(after.messages[i] == app.messages[i]);
    }
}

/// The user's answer can be saved for all sessions, once.
pub proof fn answer_is_saved_once(app: AppView, choice: FilePermissionChoice, now: i64, at: int)
    requires
        app.well_formed(),
        app.file_prompt == Some(at),
    ensures
        ({
            let answered = app.after_choice(choice, now);
            let saved = answered.after_saving_answer(at);
            &&& answered.unsaved_rule(at) == Some(
                (app.messages[at].permission->0->Pending_directory, choice.permission()),
            )
            &&& saved.rules == app.rules.push(answered.unsaved_rule(at)->0)
            &&& saved.unsaved_rule(at) is None
            &&& saved.after_saving_answer(at) == saved
        }),
{
}

/// The model is told the conversation message by message, in its order: each message but the thinking
/// and the tools, with its text, as the assistant's where the assistant wrote it and else as the
/// user's.
pub proof fn conversation_is_told_in_order(before: Seq<ShownMessage>, message: ShownMessage)
    ensures
        told_turns(Seq::empty()) == Seq::<TurnView>::empty(),
        message.is_thinking || message.is_tool ==> told_turns(before.push(message)) == told_turns(
            before,
        ),
        !message.is_thinking && !message.is_tool ==> told_turns(before.push(message))
            == told_turns(before).push(
            TurnView {
                role: if message.author == "Assistant"@ {
                    "assistant"@
                } else {
                    "user"@
                },
                content: message.content,
            },
        ),
{
    reveal(Seq::filter);
    assert(told_turns(Seq::empty()) =~= Seq::<TurnView>::empty());
    if is_told(message) {
        told_message(before, message);
    } else {
        untold_message(before, message, Seq::empty());
        assert(before + seq![message] + Seq::<ShownMessage>::empty() =~= before.push(message));
        assert(before + Seq::<ShownMessage>::empty() =~= before);
    }
}

/// What the user sends comes last in the conversation, without white space around it, and the draft is
/// empty again. Where the model is to answer, its thinking is shown below, and the assistant is busy.
/// A blank draft is not sent.
pub proof fn drafts_are_sent(app: AppView, now: i64)
    ensures
        ({
            let after = app.after_send(now);
            let count = app.messages.len() as int;
            &&& blank(app.draft) ==> {
                &&& after.messages == app.messages
                &&& after.draft == app.draft
                &&& after.llm_busy == app.llm_busy
                &&& after.status is Some
            }
            &&& !blank(app.draft) && !app.llm_busy ==> {
                &&& after.messages.len() == count + (if app.answers() {
                    2int
                } else {
                    1int
                })
                &&& after.messages.take(count) == app.messages
                &&& after.messages[count].author == "You"@
                &&& after.messages[count].content == trimmed(app.draft)
                &&& after.messages[count].created_at == now
                &&& !after.messages[count].is_thinking && !after.messages[count].is_tool
                &&& after.draft.len() == 0
                &&& after.status is None
                &&& after.llm_busy == app.answers()
                &&& app.answers() ==> {
                    &&& after.messages[count + 1].is_thinking
                    &&& after.messages[count + 1].author == "Assistant"@
                    &&& after.thinking == Some(count + 1)
                }
            }
        }),
{
    let after = app.after_send(now);
    if !blank(app.draft) && !app.llm_busy {
        assert(after.messages.take(app.messages.len() as int) =~= app.messages);
    }
}

/// The model is to answer exactly where it is enabled and the server is connected.
pub proof fn model_answers_where_connected(app: AppView)
    ensures
        app.answers() <==> app.enabled && "Connected"@.is_prefix_of(app.llm_status),
{
}

/// A new thought takes the place of the one before, where the thinking is shown; nothing else changes.
pub proof fn thoughts_are_shown(app: AppView, content: Seq<char>, now: i64)
    requires
        app.well_formed(),
    ensures
        ({
            let after = app.after_event(LlmEventView::Thinking(content), now);
            &&& after.messages.len() == app.messages.len()
            &&& after.thinking == app.thinking
            &&& after.llm_busy == app.llm_busy
            &&& app.thinking matches Some(at) ==> {
                &&& after.messages[at].content == content
                &&& after.messages[at].is_thinking
            }
            &&& forall|i: int|
                0 <= i < app.messages.len() && app.thinking != Some(i) ==> #[trigger] after.messages[i]
                    == app.messages[i]
        }),
{
}

/// A tool that starts gets a message of its own: before the thinking where that is shown, else at the
/// end, with its name, its arguments and what is said of it. All other messages stay in their order.
pub proof fn starting_tools_are_shown(app: AppView, update: ActionUpdateView, now: i64)
    requires
        app.well_formed(),
        !update.completed,
    ensures
        ({
            let after = app.after_event(LlmEventView::ToolAction(update), now);
            let at = match app.thinking {
                Some(_) => app.messages.len() - 1,
                None => app.messages.len() as int,
            };
            &&& after.pending_tool == Some(at)
            &&& after.messages.len() == app.messages.len() + 1
            &&& after.messages.remove(at) == app.messages
            &&& after.messages[at].is_tool && !after.messages[at].is_thinking
            &&& after.messages[at].author == "Tool · "@ + update.name
            &&& after.messages[at].content == update.arguments + "\n\n"@ + update.summary
            &&& after.messages[at].tool_success is None
            &&& app.thinking is Some ==> after.thinking == Some(at + 1)
        }),
{
    let after = app.after_event(LlmEventView::ToolAction(update), now);
    let at = app.insertion_point();
    assert(after.messages.remove(at) =~= app.messages);
}

/// A tool that is done is shown so in the message that it started with: with what came of it, and
/// whether it went well. All other messages stay.
pub proof fn finished_tools_are_shown(app: AppView, update: ActionUpdateView, now: i64, at: int)
    requires
        app.well_formed(),
        update.completed,
        app.pending_tool == Some(at),
    ensures
        ({
            let after = app.after_event(LlmEventView::ToolAction(update), now);
            &&& after.pending_tool is None
            &&& after.messages.len() == app.messages.len()
            &&& after.messages[at].tool_success == Some(update.success)
            &&& after.messages[at].content == update.arguments + "\n\n"@ + update.summary
            &&& after.messages[at].author == app.messages[at].author
            &&& after.messages[at].is_tool
            &&& forall|i: int|
                0 <= i < app.messages.len() && i != at ==> #[trigger] after.messages[i]
                    == app.messages[i]
        }),
{
}

/// Without a tool that runs, nothing is done; without an open question, nothing is answered.
pub proof fn nothing_happens_unasked(
    app: AppView,
    update: ActionUpdateView,
    choice: FilePermissionChoice,
    now: i64,
)
    ensures
        app.pending_tool is None && update.completed ==> app.after_event(
            LlmEventView::ToolAction(update),
            now,
        ) == app,
        app.file_prompt is None ==> app.after_choice(choice, now) == app,
        app.thinking is None ==> app.without_thinking() == app,
{
}

/// A command that needs approval waits for it; approval is asked for nothing else.
pub proof fn commands_wait_for_approval(app: AppView, event: LlmEventView, now: i64)
    ensures
        event matches LlmEventView::CommandApprovalNeeded(command) ==> app.after_event(
            event,
            now,
        ) == (AppView { command_prompt: Some(command), ..app }),
        !(event is CommandApprovalNeeded) && !(event is Failed) ==> app.after_event(
            event,
            now,
        ).command_prompt == app.command_prompt,
{
}

/// A question for access is shown as one, with the directory, the tool, its arguments and the access,
/// and waits for an answer; all other messages stay in their order.
pub proof fn questions_are_shown(
    app: AppView,
    tool_name: Seq<char>,
    arguments: Seq<char>,
    directory: Seq<char>,
    access: FileAccess,
    now: i64,
)
    requires
        app.well_formed(),
    ensures
        ({
            let after = app.after_event(
                LlmEventView::FilePermissionNeeded { tool_name, arguments, directory, access },
                now,
            );
            &&& after.file_prompt matches Some(at) && {
                &&& 0 <= at < after.messages.len()
                &&& after.messages.remove(at) == app.messages
                &&& after.messages[at].permission == Some(
                    PromptView::Pending { directory, tool_name, arguments, access },
                )
            }
        }),
{
    let after = app.after_event(
        LlmEventView::FilePermissionNeeded { tool_name, arguments, directory, access },
        now,
    );
    assert(after.messages.remove(app.insertion_point()) =~= app.messages);
}

/// The user's answer stands where the question stood, for its directory and not saved yet; no question
/// is open any more, and all other messages stay.
pub proof fn answers_stand_where_questions_stood(
    app: AppView,
    choice: FilePermissionChoice,
    now: i64,
    at: int,
)
    requires
        app.well_formed(),
        app.file_prompt == Some(at),
    ensures
        ({
            let after = app.after_choice(choice, now);
            &&& after.file_prompt is None
            &&& after.messages.len() == app.messages.len()
            &&& after.messages[at].permission == Some(
                PromptView::Resolved {
                    directory: app.messages[at].permission->0->Pending_directory,
                    choice,
                    saved_persistent: false,
                },
            )
            &&& forall|i: int|
                0 <= i < app.messages.len() && i != at ==> #[trigger] after.messages[i]
                    == app.messages[i]
            &&& after.rules == app.rules
        }),
{
}

/// The reply takes the place of the thinking, or comes last; all messages before it stay.
pub proof fn reply_takes_the_place_of_the_thinking(
    app: AppView,
    content: Seq<char>,
    metrics: MetricsView,
    trace: Seq<(JsonView, JsonView)>,
    now: i64,
)
    requires
        app.well_formed(),
    ensures
        ({
            let after = app.after_event(LlmEventView::Reply { content, metrics, trace }, now);
            let before = match app.thinking {
                Some(_) => app.messages.drop_last(),
                None => app.messages,
            };
            &&& after.messages.len() == before.len() + 1
            &&& after.messages.drop_last() == before
            &&& after.messages.last().content == content
            &&& after.messages.last().author == "Assistant"@
            &&& after.messages.last().created_at == now
            &&& after.messages.last().metrics == Some(metrics)
            &&& after.messages.last().trace == Some(trace)
            &&& !after.messages.last().is_thinking && !after.messages.last().is_tool
            &&& !after.llm_busy
            &&& after.llm_status == "Connected · using "@ + app.model
        }),
{
    let after = app.after_event(LlmEventView::Reply { content, metrics, trace }, now);
    let before = match app.thinking {
        Some(_) => app.messages.drop_last(),
        None => app.messages,
    };
    assert(after.messages.drop_last() =~= before);
}

/// A failure takes nothing from the conversation but the thinking, and is told.
pub proof fn failures_keep_the_conversation(app: AppView, message: Seq<char>, now: i64)
    requires
        app.well_formed(),
    ensures
        ({
            let after = app.after_event(LlmEventView::Failed(message), now);
            &&& after.messages == match app.thinking {
                Some(_) => app.messages.drop_last(),
                None => app.messages,
            }
            &&& after.status == Some(message)
            &&& after.llm_status == message
            &&& after.draft == app.draft
            &&& after.rules == app.rules
        }),
{
    if let Some(at) = app.thinking {
        assert(app.messages.remove(at) =~= app.messages.drop_last());
    }
}

/// The list of models changes nothing but what is said of the server: that it is connected, and
/// whether the model that is set can be used.
#[verifier::rlimit(40)]
pub proof fn models_are_reported(app: AppView, models: Seq<Seq<char>>, now: i64)
    ensures
        ({
            let after = app.after_event(LlmEventView::Models(models), now);
            &&& after == (AppView { llm_status: after.llm_status, ..app })
            &&& "Connected"@.is_prefix_of(after.llm_status)
            &&& models.contains(app.model) ==> after.llm_status == "Connected · using "@ + app.model
            &&& models.len() > 0 && !models.contains(app.model) ==> contains_part(
                after.llm_status,
                "not installed — run `ollama pull "@ + app.model + "`"@,
            )
            &&& models.len() == 0 ==> contains_part(after.llm_status, "no models found"@)
        }),
{
    let status = models_status(models, app.model);
    connected_starts(app.model);
    if models.len() > 0 && !models.contains(app.model) {
        let start = "Connected · `"@ + app.model + "` "@;
        let said = "not installed — run `ollama pull "@ + app.model + "`"@;
        assert("` not installed — run `ollama pull "@ == "` "@ + "not installed — run `ollama pull "@)
            by {
            reveal_strlit("` not installed — run `ollama pull ");
            reveal_strlit("` ");
            reveal_strlit("not installed — run `ollama pull ");
            assert("` not installed — run `ollama pull "@ =~= "` "@
                + "not installed — run `ollama pull "@);
        }
        assert(status =~= start + said + Seq::<char>::empty());
        part_is_contained(start, said, Seq::empty());
    }
}

/// What is said of a server that is connected starts with that.
#[verifier::rlimit(40)]
proof fn connected_starts(model: Seq<char>)
    ensures
        "Connected"@.is_prefix_of("Connected · using "@ + model),
        "Connected"@.is_prefix_of(
            "Connected · `"@ + model + "` not installed — run `ollama pull "@ + model + "`"@,
        ),
        "Connected"@.is_prefix_of("Connected, but no models found. Run `ollama pull qwen3:4b`."@),
        contains_part(
            "Connected, but no models found. Run `ollama pull qwen3:4b`."@,
            "no models found"@,
        ),
{
    let other = "Connected · `"@ + model + "` not installed — run `ollama pull "@ + model + "`"@;
    let none = "Connected, but no models found. Run `ollama pull qwen3:4b`."@;
    reveal_strlit("Connected");
    reveal_strlit("Connected · using ");
    reveal_strlit("Connected · `");
    reveal_strlit("Connected, but no models found. Run `ollama pull qwen3:4b`.");
    reveal_strlit("no models found");
    assert("Connected"@ =~= ("Connected · using "@ + model).subrange(0, 9));
    assert("Connected"@ =~= other.subrange(0, 9));
    assert("Connected"@ =~= none.subrange(0, 9));
    assert(none.subrange(15, 30) =~= "no models found"@);
    assert(occurs_at(none, "no models found"@, 15));
}

/// An answer that is saved makes a rule for its directory that says what was chosen, behind all rules
/// that were saved before; all other messages stay.
pub proof fn saved_answers_make_rules(app: AppView, at: int)
    requires
        0 <= at < app.messages.len(),
    ensures
        ({
            let after = app.after_saving_answer(at);
            match app.messages[at].permission {
                Some(PromptView::Resolved { directory, choice, saved_persistent }) => {
                    &&& saved_persistent ==> after == app
                    &&& !saved_persistent ==> {
                        &&& after.rules == app.rules.push(
                            (
                                directory,
                                match choice {
                                    FilePermissionChoice::AllowDirectory => {
                                        PathPermission::AllowDirectory
                                    },
                                    FilePermissionChoice::AllowRecursive => {
                                        PathPermission::AllowRecursive
                                    },
                                    FilePermissionChoice::Reject => PathPermission::Deny,
                                },
                            ),
                        )
                        &&& after.messages[at].permission == Some(
                            PromptView::Resolved { directory, choice, saved_persistent: true },
                        )
                    }
                },
                _ => after == app,
            }
        }),
        app.after_saving_answer(at).messages.len() == app.messages.len(),
        forall|i: int|
            0 <= i < app.messages.len() && i != at
                ==> #[trigger] app.after_saving_answer(at).messages[i] == app.messages[i],
{
}

/// A conversation starts without messages, with the settings that it is given, and waits for nothing.
pub proof fn conversations_start_empty(app: AppView, config: LlmConfig)
    requires
        app.is_fresh(config),
    ensures
        app.messages.len() == 0,
        app.draft.len() == 0,
        !app.llm_busy && app.thinking is None && app.pending_tool is None,
        app.command_prompt is None && app.file_prompt is None && app.status is None,
        app.enabled == config.enabled,
        app.base_url == config.base_url@,
        app.model == config.model@,
        app.num_ctx == config.num_ctx,
        app.tavily_api_key == config.tavily_api_key@,
        app.rules.len() == config.path_permissions@.len(),
        forall|i: int|
            0 <= i < app.rules.len() ==> #[trigger] app.rules[i] == (
                config.path_permissions@[i].path@,
                config.path_permissions@[i].permission,
            ),
{
}

/// What happens from outside, and what the user sends or answers, leaves the settings alone.
pub proof fn settings_are_left_alone(
    app: AppView,
    event: LlmEventView,
    choice: FilePermissionChoice,
    now: i64,
)
    ensures
        same_settings(app, app.after_event(event, now)),
        same_settings(app, app.after_send(now)),
        same_settings(app, app.after_choice(choice, now)),
        app.after_event(event, now).draft == app.draft,
        app.after_choice(choice, now).draft == app.draft,
{
}

/// Whether two conversations have the same settings, and the same rules saved and entered.
pub open spec fn same_settings(app: AppView, other: AppView) -> bool {
    &&& other.enabled == app.enabled
    &&& other.base_url == app.base_url
    &&& other.model == app.model
    &&& other.num_ctx == app.num_ctx
    &&& other.tavily_api_key == app.tavily_api_key
    &&& other.rules == app.rules
    &&& other.new_rule == app.new_rule
    &&& other.new_permission == app.new_permission
    &&& other.show_settings == app.show_settings
    &&& other.details == app.details
}

/// A question for access stays open until it is answered or the chat fails, and a tool runs until it is
/// done or the chat ends.
pub proof fn questions_and_tools_stay_open(app: AppView, event: LlmEventView, now: i64)
    ensures
        !(event is FilePermissionNeeded) && !(event is Failed) ==> app.after_event(
            event,
            now,
        ).file_prompt == app.file_prompt,
        !(event is ToolAction) && !(event is Reply) && !(event is Failed) ==> app.after_event(
            event,
            now,
        ).pending_tool == app.pending_tool,
        !(event is Reply) && !(event is Failed) ==> app.after_event(event, now).llm_busy
            == app.llm_busy,
        app.after_send(now).file_prompt == app.file_prompt,
        app.after_send(now).command_prompt == app.command_prompt,
{
}

/// A decision on a command takes nothing but the question away, and a command waits for one decision
/// only.
pub proof fn decisions_are_made_once(app: AppView, command: Seq<char>, now: i64)
    requires
        app.command_prompt is None,
    ensures
        app.after_event(LlmEventView::CommandApprovalNeeded(command), now).command_prompt == Some(
            command,
        ),
        app.after_event(LlmEventView::CommandApprovalNeeded(command), now).after_decision() == app,
        app.after_decision() == app,
{
}

/// A rule that the user enters comes last, for the path without white space around it and with the
/// permission that is chosen, and the field is empty again; without a path nothing is added. Removing a
/// rule takes just that one away, so that removing what was added leaves the rules as they were.
pub proof fn entered_rules_come_and_go(app: AppView, index: int)
    ensures
        blank(app.new_rule) ==> {
            &&& app.after_adding_rule().rules == app.rules
            &&& app.after_adding_rule().new_rule == app.new_rule
            &&& app.after_adding_rule().status is Some
        },
        !blank(app.new_rule) ==> {
            let added = app.after_adding_rule();
            &&& added.rules.len() == app.rules.len() + 1
            &&& added.rules.last() == (trimmed(app.new_rule), app.new_permission)
            &&& added.rules.drop_last() == app.rules
            &&& added.new_rule.len() == 0
            &&& added.after_removing_rule(app.rules.len() as int).rules == app.rules
        },
        app.after_adding_rule().messages == app.messages,
        app.after_removing_rule(index).messages == app.messages,
        !(0 <= index < app.rules.len()) ==> app.after_removing_rule(index) == app,
        0 <= index < app.rules.len() ==> {
            &&& app.after_removing_rule(index).rules.len() == app.rules.len() - 1
            &&& forall|i: int|
                0 <= i < index ==> #[trigger] app.after_removing_rule(index).rules[i]
                    == app.rules[i]
            &&& forall|i: int|
                index <= i < app.rules.len() - 1 ==> #[trigger] app.after_removing_rule(
                    index,
                ).rules[i] == app.rules[i + 1]
        },
{
    if !blank(app.new_rule) {
        let added = app.after_adding_rule();
        assert(added.rules.drop_last() =~= app.rules);
        assert(added.after_removing_rule(app.rules.len() as int).rules =~= app.rules);
    }
}

} // verus!
