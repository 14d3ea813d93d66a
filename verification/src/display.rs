//! How the conversation and what is around it are shown.
use vstd::prelude::*;

use crate::conversation::{
    AppView, ChatApp, LlmEventView, Message, PermissionPrompt, PromptView, ShownMessage,
    ASSISTANT_NAME, USER_NAME,
};
use crate::json::JsonView;
use crate::metrics::MetricsView;
use crate::permissions::FilePermissionChoice;
use crate::settings::{
    model_options, models_are_told_apart, qwen_model_index, qwen_model_options,
};
use crate::text::{
    blank, decimal, decimal_text, same_text, split_once, split_once_of, starts_with,
};

verus! {

/// Whom or what a part of the window belongs to; each has its colours.
#[derive(Debug, Clone, Copy, PartialEq, Eq, Structural)]
pub enum Tone {
    User,
    Assistant,
    Tool,
    Permission,
    Other,
}

/// How good the news is.
#[derive(Debug, Clone, Copy, PartialEq, Eq, Structural)]
pub enum Mood {
    Good,
    Waiting,
    Bad,
}

/// The tone of a message's author.
pub open spec fn author_tone_of(message: ShownMessage) -> Tone {
    if message.permission is Some {
        Tone::Permission
    } else if message.is_tool {
        Tone::Tool
    } else if message.author == ASSISTANT_NAME@ {
        Tone::Assistant
    } else {
        Tone::User
    }
}

/// The tone of a message's background.
pub open spec fn fill_tone_of(message: ShownMessage) -> Tone {
    if message.author == USER_NAME@ {
        Tone::User
    } else if message.permission is Some {
        Tone::Permission
    } else if message.is_tool {
        Tone::Tool
    } else if message.author == ASSISTANT_NAME@ {
        Tone::Assistant
    } else {
        Tone::Other
    }
}

/// The tone of a message's outline.
pub open spec fn stroke_tone_of(message: ShownMessage) -> Tone {
    if message.permission is Some {
        Tone::Permission
    } else if message.is_tool {
        Tone::Tool
    } else {
        Tone::Other
    }
}

impl Message {
    /// Whether the user wrote the message.
    pub fn is_user(&self) -> (is: bool)
        ensures
            is == (self@.author == USER_NAME@),
    {
        same_text(self.author.as_str(), USER_NAME)
    }

    /// Whether the assistant wrote the message.
    pub fn is_assistant(&self) -> (is: bool)
        ensures
            is == (self@.author == ASSISTANT_NAME@),
    {
        same_text(self.author.as_str(), ASSISTANT_NAME)
    }

    /// The author as it is shown.
    pub fn author_label(&self) -> (label: String)
        ensures
            label@ == if self@.is_thinking {
                "Assistant (thinking)"@
            } else {
                self@.author
            },
    {
        if self.is_thinking {
            "Assistant (thinking)".to_owned()
        } else {
            self.author.clone()
        }
    }

    /// The tone of the author.
    pub fn author_tone(&self) -> (tone: Tone)
        ensures
            tone == author_tone_of(self@),
    {
        if self.permission.is_some() {
            Tone::Permission
        } else if self.is_tool {
            Tone::Tool
        } else if self.is_assistant() {
            Tone::Assistant
        } else {
            Tone::User
        }
    }

    /// The tone of the background.
    pub fn fill_tone(&self) -> (tone: Tone)
        ensures
            tone == fill_tone_of(self@),
    {
        if self.is_user() {
            Tone::User
        } else if self.permission.is_some() {
            Tone::Permission
        } else if self.is_tool {
            Tone::Tool
        } else if self.is_assistant() {
            Tone::Assistant
        } else {
            Tone::Other
        }
    }

    /// The tone of the outline.
    pub fn stroke_tone(&self) -> (tone: Tone)
        ensures
            tone == stroke_tone_of(self@),
    {
        if self.permission.is_some() {
            Tone::Permission
        } else if self.is_tool {
            Tone::Tool
        } else {
            Tone::Other
        }
    }

    /// What a tool's message says in two parts: the arguments, and how it went.
    pub fn tool_parts(&self) -> (parts: Option<(String, String)>)
        ensures
            match parts {
                Some((arguments, summary)) => split_once_of(self@.content, "\n\n"@) == Some(
                    (arguments@, summary@),
                ),
                None => split_once_of(self@.content, "\n\n"@) is None,
            },
    {
        split_once(self.content.as_str(), "\n\n")
    }

    /// How a tool went.
    pub fn tool_mood(&self) -> (mood: Mood)
        ensures
            mood == match self@.tool_success {
                Some(true) => Mood::Good,
                Some(false) => Mood::Bad,
                None => Mood::Waiting,
            },
    {
        match self.tool_success {
            Some(true) => Mood::Good,
            Some(false) => Mood::Bad,
            None => Mood::Waiting,
        }
    }

    /// Whether metrics and details stand below the message.
    pub fn has_footer(&self) -> (has: bool)
        ensures
            has == (self@.author == ASSISTANT_NAME@ && !self@.is_thinking),
    {
        self.is_assistant() && !self.is_thinking
    }
}

impl PermissionPrompt {
    /// The line that a question for access starts with.
    pub fn heading(&self) -> (heading: String)
        ensures
            heading@ == match self@ {
                PromptView::Pending { directory, tool_name, arguments, access } => {
                    "The assistant wants to "@ + access.word() + " files via `"@ + tool_name
                        + "` in:"@
                },
                PromptView::Resolved { directory, choice, saved_persistent } => {
                    "The assistant requested access to `"@ + directory + "`"@
                },
            },
    {
        match self {
            PermissionPrompt::Pending { tool_name, access, .. } => {
                let mut heading = "The assistant wants to ".to_owned();
                heading.append(access.label());
                heading.append(" files via `");
                heading.append(tool_name.as_str());
                heading.append("` in:");
                heading
            },
            PermissionPrompt::Resolved { directory, .. } => {
                let mut heading = "The assistant requested access to `".to_owned();
                heading.append(directory.as_str());
                heading.append("`");
                heading
            },
        }
    }
}

/// A model as it is shown in the list.
pub open spec fn model_label(model: Seq<char>) -> Seq<char> {
    if model == "qwen3:0.6b"@ {
        "Qwen3 0.6B"@
    } else if model == "qwen3:1.7b"@ {
        "Qwen3 1.7B"@
    } else if model == "qwen3:4b"@ {
        "Qwen3 4B"@
    } else {
        "Custom"@
    }
}

/// How good the news of a choice is.
pub fn choice_mood(choice: FilePermissionChoice) -> (mood: Mood)
    ensures
        mood == match choice {
            FilePermissionChoice::Reject => Mood::Bad,
            _ => Mood::Good,
        },
{
    match choice {
        FilePermissionChoice::Reject => Mood::Bad,
        _ => Mood::Good,
    }
}

impl ChatApp {
    /// How the state of the server looks.
    pub fn status_mood(&self) -> (mood: Mood)
        ensures
            mood == if "Connected"@.is_prefix_of(self@.llm_status) {
                Mood::Good
            } else if self@.llm_busy {
                Mood::Waiting
            } else {
                Mood::Bad
            },
    {
        if starts_with(self.llm_status.as_str(), "Connected") {
            Mood::Good
        } else if self.llm_busy {
            Mood::Waiting
        } else {
            Mood::Bad
        }
    }

    /// Whether the user can write.
    pub fn composer_enabled(&self) -> (enabled: bool)
        ensures
            enabled == can_write(self@),
            enabled == (!self@.llm_busy && self@.command_prompt is None && self@.file_prompt
                is None),
    {
        !self.llm_busy && self.command_prompt.is_none() && self.file_permission_prompt.is_none()
    }

    /// Whether the question for access at a place is the one that is open.
    pub fn is_open_question(&self, message_index: usize) -> (is: bool)
        ensures
            is == (self@.file_prompt == Some(message_index as int)),
    {
        match self.file_permission_prompt {
            Some(open) => open == message_index,
            None => false,
        }
    }

    /// The model as it is shown in the list.
    pub fn selected_model_label(&self) -> (label: &'static str)
        ensures
            label@ == model_label(self@.model),
    {
        assert(model_options().len() == 3);
        match qwen_model_index(self.llm.model.as_str()) {
            Some(index) => {
                let options = qwen_model_options();
                assert(index > 0 ==> model_options()[0].tag@ != self@.model);
                assert(index > 1 ==> model_options()[1].tag@ != self@.model);
                options[index].label
            },
            None => {
                assert(model_options()[0].tag@ != self@.model);
                assert(model_options()[1].tag@ != self@.model);
                assert(model_options()[2].tag@ != self@.model);
                "Custom"
            },
        }
    }
}

/// Whether the draft is sent.
pub open spec fn draft_is_sent(clicked: bool, focused: bool, enter: bool, shift: bool) -> bool {
    clicked || (focused && enter && !shift)
}

/// Whether the user can write: while nothing is waited for.
pub open spec fn can_write(app: AppView) -> bool {
    !app.llm_busy && app.command_prompt is None && app.file_prompt is None
}

/// Whether the draft is sent: by the button, or by Enter in the text field. Enter with Shift begins a
/// new line.
pub fn sends_draft(clicked: bool, focused: bool, enter: bool, shift: bool) -> (sends: bool)
    ensures
        sends == draft_is_sent(clicked, focused, enter, shift),
        sends == (clicked || (focused && enter && !shift)),
{
    clicked || (focused && enter && !shift)
}

/// A command as it is shown.
pub fn command_line(command: &str) -> (line: String)
    ensures
        line@ == "$ "@ + command@,
{
    let mut line = "$ ".to_owned();
    line.append(command);
    line
}

/// The heading of a round of a trace, and whether it is open at first: only the last one is.
pub fn round_heading(index: usize, rounds: usize) -> (heading: (String, bool))
    requires
        index < usize::MAX,
    ensures
        heading.0@ == "Round "@ + decimal((index + 1) as nat),
        heading.1 == (index + 1 == rounds),
{
    let number: usize = index + 1;
    let mut title = "Round ".to_owned();
    title.append(decimal_text(number as u64).as_str());
    (title, number == rounds)
}

/// Each model of the list is shown by its own label, and any other one as a custom one.
pub proof fn models_are_shown_by_their_label(model: Seq<char>)
    ensures
        forall|i: int|
            0 <= i < model_options().len() ==> model_label((#[trigger] model_options()[i]).tag@)
                == model_options()[i].label@,
        (forall|i: int|
            0 <= i < model_options().len() ==> (#[trigger] model_options()[i]).tag@ != model)
            ==> model_label(model) == "Custom"@,
{
    assert(model_options().len() == 3);
    models_are_told_apart(0, 1);
    models_are_told_apart(0, 2);
    models_are_told_apart(1, 2);
    if forall|i: int|
        0 <= i < model_options().len() ==> (#[trigger] model_options()[i]).tag@ != model {
        assert(model_options()[0].tag@ != model);
        assert(model_options()[1].tag@ != model);
        assert(model_options()[2].tag@ != model);
    }
}

/// What a message looks like tells what it is: a question, a tool, or who wrote it.
pub proof fn messages_look_like_what_they_are(message: ShownMessage)
    ensures
        message.permission is Some ==> author_tone_of(message) == Tone::Permission
            && stroke_tone_of(message) == Tone::Permission,
        message.permission is None && message.is_tool ==> author_tone_of(message) == Tone::Tool
            && stroke_tone_of(message) == Tone::Tool,
        message.permission is None && !message.is_tool ==> {
            &&& stroke_tone_of(message) == Tone::Other
            &&& message.author == "Assistant"@ ==> author_tone_of(message) == Tone::Assistant
                && fill_tone_of(message) == Tone::Assistant
            &&& message.author != "Assistant"@ ==> author_tone_of(message) == Tone::User
        },
        message.author == "You"@ ==> fill_tone_of(message) == Tone::User,
        message.author != "You"@ && message.permission is Some ==> fill_tone_of(message)
            == Tone::Permission,
        message.author != "You"@ && message.permission is None && message.is_tool ==> fill_tone_of(
            message,
        ) == Tone::Tool,
{
    reveal_strlit("You");
    reveal_strlit("Assistant");
    assert("You"@.len() == 3 && "Assistant"@.len() == 9);
}

/// The button sends the draft, and so does Enter where the text field has the focus; with Shift, or
/// elsewhere, Enter sends nothing.
pub proof fn enter_sends_and_shift_breaks_the_line(focused: bool, enter: bool, shift: bool)
    ensures
        draft_is_sent(true, focused, enter, shift),
        draft_is_sent(false, true, true, false),
        !draft_is_sent(false, focused, enter, true),
        !draft_is_sent(false, false, enter, shift),
        !draft_is_sent(false, focused, false, shift),
{
}

/// The user cannot write while the assistant is busy, a command waits for approval, or a question for
/// access is open; after a reply they can, unless something still waits for them.
pub proof fn user_writes_while_nothing_waits(
    app: AppView,
    command: Seq<char>,
    content: Seq<char>,
    metrics: MetricsView,
    trace: Seq<(JsonView, JsonView)>,
    now: i64,
)
    ensures
        app.llm_busy ==> !can_write(app),
        !can_write(app.after_event(LlmEventView::CommandApprovalNeeded(command), now)),
        app.file_prompt is Some ==> !can_write(app),
        app.command_prompt is None && app.file_prompt is None ==> can_write(
            app.after_event(LlmEventView::Reply { content, metrics, trace }, now),
        ),
        !blank(app.draft) && !app.llm_busy && app.answers() ==> !can_write(app.after_send(now)),
{
}

} // verus!
