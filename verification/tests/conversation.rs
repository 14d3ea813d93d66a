use pairllm::conversation::{
    conversation_turns, listed_status, ChatApp, LlmEvent, Message, PermissionPrompt,
};
use pairllm::display::{choice_mood, command_line, round_heading, sends_draft, Mood, Tone};
use pairllm::json::Json;
use pairllm::messages::{ChatRoundTrace, ChatTrace};
use pairllm::metrics::OllamaMetrics;
use pairllm::permissions::{FileAccess, FilePermissionChoice, PathPermission};
use pairllm::results::ToolActionUpdate;
use pairllm::settings::LlmConfig;

fn connected() -> ChatApp {
    let mut app = ChatApp::new(LlmConfig::default(None));
    app.handle_event(LlmEvent::Models { models: vec!["qwen3:4b".to_string()] }, 1);
    app
}

fn asked() -> ChatApp {
    let mut app = connected();
    app.draft = " hello ".to_string();
    assert!(app.send_message(2).is_some());
    app
}

fn update(completed: bool, success: bool) -> LlmEvent {
    LlmEvent::ToolAction {
        update: ToolActionUpdate {
            name: "ls".to_string(),
            arguments: "command: ls /".to_string(),
            summary: if completed { "done".to_string() } else { "Running…".to_string() },
            success,
            completed,
        },
    }
}

fn question() -> LlmEvent {
    LlmEvent::FilePermissionNeeded {
        tool_name: "cat".to_string(),
        arguments: "command: cat /d/f".to_string(),
        directory: "/d".to_string(),
        access: FileAccess::Read,
    }
}

fn reply(content: &str) -> LlmEvent {
    let mut trace = ChatTrace::default();
    trace.add(Json::Null, Json::Bool(true));
    LlmEvent::Reply { content: content.to_string(), metrics: OllamaMetrics::default(), trace }
}

fn failed(message: &str) -> LlmEvent {
    LlmEvent::Failed { message: message.to_string() }
}

fn shown(app: &ChatApp) -> Vec<(&str, &str)> {
    app.messages
        .iter()
        .map(|message| (message.author.as_str(), message.content.as_str()))
        .collect()
}

#[test]
fn conversations_start_empty() {
    let mut app = ChatApp::new(LlmConfig::default(None));
    assert!(app.messages.is_empty());
    assert_eq!(app.llm_status, "Checking for Ollama…");
    assert_eq!(app.check_llm(), "http://127.0.0.1:11434");
    assert_eq!(app.status_mood(), Mood::Bad);
    assert!(app.composer_enabled());
    assert_eq!(app.selected_model_label(), "Qwen3 4B");
    app.llm.model = "llama".to_string();
    assert_eq!(app.selected_model_label(), "Custom");
}

#[test]
fn models_are_looked_for() {
    assert_eq!(
        listed_status(&vec![], "qwen3:4b"),
        "Connected, but no models found. Run `ollama pull qwen3:4b`.",
    );
    let models = vec!["a".to_string(), "qwen3:4b".to_string()];
    assert_eq!(listed_status(&models, "qwen3:4b"), "Connected · using qwen3:4b");
    assert_eq!(
        listed_status(&models, "b"),
        "Connected · `b` not installed — run `ollama pull b`",
    );
}

#[test]
fn messages_are_sent_to_the_model() {
    let mut app = connected();
    app.draft = " hello ".to_string();
    let turns = app.send_message(7).expect("turns");
    assert_eq!(turns.len(), 1);
    assert_eq!(turns[0].role, "user");
    assert_eq!(turns[0].content, "hello");
    assert_eq!(shown(&app), vec![("You", "hello"), ("Assistant", "Thinking…")]);
    assert_eq!(app.messages[0].created_at, 7);
    assert!(app.llm_busy);
    assert_eq!(app.llm_status, "Connected · qwen3:4b (thinking…)");
    assert_eq!(app.thinking_message_index, Some(1));
    assert_eq!(app.draft, "");
    assert!(!app.composer_enabled());
    assert_eq!(app.messages[1].author_label(), "Assistant (thinking)");
    assert!(!app.messages[1].has_footer());
}

#[test]
fn messages_without_a_model_are_kept() {
    let mut app = ChatApp::new(LlmConfig::default(None));
    app.draft = "hello".to_string();
    assert!(app.send_message(1).is_none());
    assert_eq!(shown(&app), vec![("You", "hello")]);
    let mut app = connected();
    app.llm.enabled = false;
    app.draft = "hello".to_string();
    assert!(app.send_message(1).is_none());
    assert!(!app.llm_busy);
}

#[test]
fn empty_drafts_are_not_sent() {
    let mut app = connected();
    app.draft = " \n".to_string();
    assert!(app.send_message(1).is_none());
    assert_eq!(app.status.as_deref(), Some("Enter a message before sending."));
    assert!(app.messages.is_empty());
}

#[test]
fn busy_assistants_take_no_message() {
    let mut app = asked();
    app.draft = "more".to_string();
    assert!(app.send_message(3).is_none());
    assert_eq!(app.draft, "more");
    assert_eq!(app.messages.len(), 2);
}

#[test]
fn replies_take_the_place_of_the_thinking() {
    let mut app = asked();
    app.handle_event(LlmEvent::Thinking { content: "Hm".to_string() }, 3);
    assert_eq!(shown(&app)[1], ("Assistant", "Hm"));
    app.handle_event(reply("Hi."), 4);
    assert_eq!(shown(&app), vec![("You", "hello"), ("Assistant", "Hi.")]);
    assert_eq!(app.messages[1].created_at, 4);
    assert!(app.messages[1].metrics.is_some());
    assert!(!app.llm_busy);
    assert_eq!(app.llm_status, "Connected · using qwen3:4b");
    assert!(app.messages[1].has_footer());
    app.handle_event(reply("Late."), 5);
    assert_eq!(shown(&app)[2], ("Assistant", "Late."));
    let turns = conversation_turns(&app.messages);
    assert_eq!(turns[1].role, "assistant");
    assert_eq!(turns[1].content, "Hi.");
}

#[test]
fn tools_are_shown_before_the_thinking() {
    let mut app = asked();
    app.handle_event(update(false, true), 3);
    assert_eq!(
        shown(&app),
        vec![
            ("You", "hello"),
            ("Tool · ls", "command: ls /\n\nRunning…"),
            ("Assistant", "Thinking…"),
        ],
    );
    assert_eq!(app.pending_tool_message_index, Some(1));
    assert_eq!(app.thinking_message_index, Some(2));
    assert_eq!(app.messages[1].tool_mood(), Mood::Waiting);
    app.handle_event(update(true, false), 4);
    assert_eq!(shown(&app)[1], ("Tool · ls", "command: ls /\n\ndone"));
    assert_eq!(app.messages[1].tool_success, Some(false));
    assert_eq!(app.messages[1].tool_mood(), Mood::Bad);
    assert_eq!(app.pending_tool_message_index, None);
    assert_eq!(
        app.messages[1].tool_parts(),
        Some(("command: ls /".to_string(), "done".to_string())),
    );
    assert_eq!(conversation_turns(&app.messages).len(), 1);
    app.handle_event(update(true, true), 5);
    assert_eq!(app.messages.len(), 3);
}

#[test]
fn questions_are_answered_and_saved() {
    let mut app = asked();
    app.handle_event(question(), 3);
    assert_eq!(app.file_permission_prompt, Some(1));
    assert!(app.is_open_question(1));
    assert!(!app.is_open_question(0));
    let heading = app.messages[1].permission.as_ref().unwrap().heading();
    assert_eq!(heading, "The assistant wants to read files via `cat` in:");
    assert!(app.save_permission_for_all_sessions(1).is_none());
    assert!(app.resolve_file_permission(FilePermissionChoice::AllowRecursive, 4));
    assert!(!app.resolve_file_permission(FilePermissionChoice::Reject, 5));
    match app.messages[1].permission.as_ref().unwrap() {
        PermissionPrompt::Resolved { directory, choice, saved_persistent } => {
            assert_eq!(directory, "/d");
            assert_eq!(*choice, FilePermissionChoice::AllowRecursive);
            assert!(!saved_persistent);
        }
        other => panic!("{other:?}"),
    }
    let heading = app.messages[1].permission.as_ref().unwrap().heading();
    assert_eq!(heading, "The assistant requested access to `/d`");
    let rule = app.save_permission_for_all_sessions(1).expect("rule");
    assert_eq!(rule.path, "/d");
    assert_eq!(rule.permission, PathPermission::AllowRecursive);
    assert_eq!(app.llm.path_permissions, vec![rule]);
    assert!(app.save_permission_for_all_sessions(1).is_none());
    assert!(app.save_permission_for_all_sessions(99).is_none());
    assert_eq!(app.llm.path_permissions.len(), 1);
}

#[test]
fn commands_are_approved_or_rejected() {
    let mut app = asked();
    assert_eq!(app.approve_command(), None);
    assert_eq!(app.reject_command(), None);
    app.handle_event(LlmEvent::CommandApprovalNeeded { command: "date".to_string() }, 3);
    assert_eq!(app.approve_command(), Some("date".to_string()));
    assert_eq!(app.command_prompt, None);
    app.handle_event(LlmEvent::CommandApprovalNeeded { command: "date".to_string() }, 3);
    assert_eq!(
        app.reject_command(),
        Some("User rejected running this command.".to_string()),
    );
    assert_eq!(app.command_prompt, None);
}

#[test]
fn failures_leave_nothing_open() {
    let mut app = asked();
    app.handle_event(update(false, true), 3);
    app.handle_event(question(), 3);
    app.handle_event(LlmEvent::CommandApprovalNeeded { command: "date".to_string() }, 3);
    app.handle_event(failed("offline"), 4);
    assert!(!app.llm_busy);
    assert_eq!(app.thinking_message_index, None);
    assert_eq!(app.pending_tool_message_index, None);
    assert_eq!(app.command_prompt, None);
    assert_eq!(app.file_permission_prompt, None);
    assert_eq!(app.llm_status, "offline");
    assert_eq!(app.status.as_deref(), Some("offline"));
    assert_eq!(app.messages.len(), 3);
    assert!(app.messages.iter().all(|message| !message.is_thinking));
    app.handle_event(update(false, true), 5);
    assert_eq!(app.messages[3].author, "Tool · ls");
}

#[test]
fn rules_are_added_and_removed() {
    let mut app = connected();
    assert!(app.add_persistent_permission_rule().is_none());
    assert_eq!(
        app.status.as_deref(),
        Some("Enter a directory path for the permission rule."),
    );
    app.new_persistent_rule = " /a ".to_string();
    app.new_persistent_permission = PathPermission::Deny;
    let rule = app.add_persistent_permission_rule().expect("rule");
    assert_eq!((rule.path.as_str(), rule.permission), ("/a", PathPermission::Deny));
    assert_eq!(app.new_persistent_rule, "");
    assert_eq!(app.llm.path_permissions, vec![rule]);
    assert!(!app.remove_persistent_permission_rule(1));
    assert!(app.remove_persistent_permission_rule(0));
    assert!(app.llm.path_permissions.is_empty());
}

#[test]
fn saving_settings_may_ask_for_models() {
    let mut app = connected();
    assert!(app.save_settings(Ok(()), true));
    assert!(!app.save_settings(Ok(()), false));
    assert_eq!(app.status, None);
    assert!(!app.save_settings(Err("full".to_string()), false));
    assert_eq!(app.status.as_deref(), Some("full"));
    assert!(!asked().save_settings(Ok(()), true));
}

#[test]
fn messages_have_tones() {
    let mut app = asked();
    app.handle_event(update(false, true), 3);
    app.handle_event(question(), 3);
    let tones: Vec<(Tone, Tone, Tone)> = app
        .messages
        .iter()
        .map(|message: &Message| (message.author_tone(), message.fill_tone(), message.stroke_tone()))
        .collect();
    assert_eq!(
        tones,
        vec![
            (Tone::User, Tone::User, Tone::Other),
            (Tone::Tool, Tone::Tool, Tone::Tool),
            (Tone::Permission, Tone::Permission, Tone::Permission),
            (Tone::Assistant, Tone::Assistant, Tone::Other),
        ],
    );
    assert_eq!(app.status_mood(), Mood::Good);
    app.llm_status = "Checking for Ollama…".to_string();
    assert_eq!(app.status_mood(), Mood::Waiting);
    assert_eq!(choice_mood(FilePermissionChoice::Reject), Mood::Bad);
    assert_eq!(choice_mood(FilePermissionChoice::AllowDirectory), Mood::Good);
}

#[test]
fn details_are_opened() {
    let mut app = asked();
    app.open_details(1);
    assert!(app.details_trace.is_none());
    app.handle_event(reply("Hi."), 4);
    app.open_details(1);
    let rounds: Vec<ChatRoundTrace> = app.details_trace.expect("trace").rounds;
    assert_eq!(rounds.len(), 1);
    assert_eq!(rounds[0].response, Json::Bool(true));
    assert_eq!(round_heading(0, 2), ("Round 1".to_string(), false));
    assert_eq!(round_heading(1, 2), ("Round 2".to_string(), true));
    assert_eq!(command_line("date"), "$ date");
}

#[test]
fn enter_sends_and_shift_enter_does_not() {
    assert!(sends_draft(true, false, false, false));
    assert!(sends_draft(false, true, true, false));
    assert!(!sends_draft(false, true, true, true));
    assert!(!sends_draft(false, false, true, false));
    assert!(!sends_draft(false, true, false, false));
}
