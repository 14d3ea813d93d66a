use pairllm::chat::{
    execute_tool, ChatAction, ChatProgressEvent, ChatResult, ChatSession, ChatStep, PendingAnswer,
    PendingTool, QuestionTrouble, ToolPlan, MAX_TOOL_ROUNDS,
};
use pairllm::json::{entry, Json};
use pairllm::messages::{
    build_chat_request, trace_response_value, trim_context_messages, ChatMessage, ChatTurn,
    MAX_CONTEXT_MESSAGES, MAX_CONTEXT_MESSAGE_CHARS,
};
use pairllm::metrics::OllamaMetrics;
use pairllm::path::{FileFacts, PathKind};
use pairllm::permissions::{
    FileAccess, FilePermissionChoice, PathPermission, PathPermissionRule, PathPermissionState,
};
use pairllm::platform::{Environment, OperatingSystem, Platform};
use pairllm::requests::{ToolCall, ToolFunction, ToolInvocation};
use pairllm::settings::LlmConfig;
use pairllm::stream::{is_chunk_line, StreamChatResult, StreamChunk, StreamLine};

const HOME: Option<&str> = Some("/home/ada");

fn linux() -> Environment {
    Environment {
        platform: Platform { unix: true, system: OperatingSystem::Linux },
        home: Some("/home/ada".to_string()),
    }
}

fn turn(role: &str, content: &str) -> ChatTurn {
    ChatTurn { role: role.to_string(), content: content.to_string() }
}

fn start() -> ChatSession {
    ChatSession::start(&[turn("user", "hello")], "noon", &linux())
}

fn message(content: &str, tool_calls: Vec<ToolCall>) -> ChatMessage {
    ChatMessage { content: content.to_string(), tool_calls }
}

fn answer(content: &str) -> Result<StreamChatResult, String> {
    Ok(StreamChatResult {
        message: message(content, vec![]),
        metrics: OllamaMetrics { eval_count: 3, request_count: 1, ..OllamaMetrics::default() },
    })
}

fn ask(session: ChatSession) -> (Vec<ChatProgressEvent>, PendingAnswer) {
    let config = LlmConfig::default(None);
    match session.next_round(&config, linux().platform) {
        ChatStep { events, action: ChatAction::Ask(pending) } => (events, pending),
        other => panic!("{other:?}"),
    }
}

fn hear(session: ChatSession, content: &str) -> ChatStep {
    ask(session).1.answered(answer(content), &linux())
}

fn thoughts(events: &[ChatProgressEvent]) -> Vec<&str> {
    events
        .iter()
        .filter_map(|event| match event {
            ChatProgressEvent::Thinking(thinking) => Some(thinking.as_str()),
            _ => None,
        })
        .collect()
}

fn continued(step: ChatStep) -> ChatSession {
    match step.action {
        ChatAction::Continue(session) => session,
        other => panic!("{other:?}"),
    }
}

fn checking(path: &str) -> PendingTool {
    let content = format!("{{\"tool\":\"cat\",\"path\":\"{path}\"}}");
    match hear(start(), &content).action {
        ChatAction::Check(pending) => pending,
        other => panic!("{other:?}"),
    }
}

fn file_at(path: &str) -> FileFacts {
    let mut facts = FileFacts::new();
    facts.add_canonical(path.to_string(), path.to_string());
    facts.add_kind(path.to_string(), PathKind::File);
    facts
}

fn chunk(content: &str) -> StreamChunk {
    StreamChunk {
        message: message(content, vec![]),
        done: false,
        total_duration: 0,
        load_duration: 0,
        prompt_eval_count: 0,
        prompt_eval_duration: 0,
        eval_count: 0,
        eval_duration: 0,
    }
}

fn call(name: &str) -> ToolCall {
    ToolCall {
        function: ToolFunction { name: name.to_string(), arguments: Json::from_entries(vec![]) },
    }
}

#[test]
fn trims_old_context_messages() {
    let messages: Vec<ChatTurn> = (0..30)
        .map(|index| ChatTurn {
            role: if index % 2 == 0 { "user".into() } else { "assistant".into() },
            content: format!("message {index}"),
        })
        .collect();

    let trimmed = trim_context_messages(&messages);
    assert_eq!(trimmed.len(), MAX_CONTEXT_MESSAGES);
    assert_eq!(trimmed[0].content, "message 10");
    assert_eq!(trimmed.last().unwrap().content, "message 29");
}

#[test]
fn long_context_messages_are_cut() {
    let long = "a".repeat(MAX_CONTEXT_MESSAGE_CHARS + 5);
    let trimmed = trim_context_messages(&[turn("user", &long), turn("assistant", "short")]);
    assert_eq!(trimmed.len(), 2);
    assert_eq!(trimmed[0].content.chars().count(), 3001);
    assert_eq!(trimmed[1], turn("assistant", "short"));
    assert_eq!(trimmed[1].clone(), trimmed[1]);
}

#[test]
fn chats_start_with_the_prompt_and_the_conversation() {
    let session = start();
    assert_eq!(session.messages.len(), 2);
    assert_eq!(session.messages[0].get_str("role"), Some("system"));
    assert!(session.messages[0].get_str("content").unwrap().starts_with("Current time: noon\n"));
    assert_eq!(session.messages[1].get_str("role"), Some("user"));
    assert_eq!(session.messages[1].get_str("content"), Some("hello"));
    assert_eq!(session.thinking, "Thinking…");
    assert_eq!(session.rounds, 0);
}

#[test]
fn requests_are_built_from_the_settings() {
    let config = LlmConfig::default(None);
    let platform = linux().platform;
    let messages = vec![Json::from_text("m")];
    let request = build_chat_request(&config, &messages, platform);
    assert_eq!(request.model, "qwen3:4b");
    assert_eq!(request.tools.len(), 5);
    let json = request.to_json();
    assert_eq!(json.get_str("model"), Some("qwen3:4b"));
    assert_eq!(json.get("messages"), Some(&Json::Array(messages)));
    assert_eq!(json.get("stream"), Some(&Json::Bool(true)));
    assert_eq!(json.get_str("keep_alive"), Some("30m"));
    assert_eq!(json.get("truncate"), Some(&Json::Bool(true)));
    assert_eq!(json.get("options").unwrap().get("num_ctx"), Some(&Json::from_number(16384)));
}

#[test]
fn plain_answers_are_replies() {
    let (events, pending) = ask(start());
    assert_eq!(thoughts(&events), vec!["Thinking…"]);
    let step = pending.answered(answer(" Hi there. "), &linux());
    assert_eq!(thoughts(&step.events), vec!["Thinking…\n\nHi there."]);
    match step.action {
        ChatAction::Reply(ChatResult { content, metrics, trace }) => {
            assert_eq!(content, " Hi there. ");
            assert_eq!(metrics.eval_count, 3);
            assert_eq!(metrics.request_count, 1);
            assert_eq!(trace.rounds.len(), 1);
            let said = trace.rounds[0].response.get("message").unwrap();
            assert_eq!(said.get_str("content"), Some(" Hi there. "));
            assert_eq!(trace.rounds[0].request.get_str("model"), Some("qwen3:4b"));
            assert_eq!(trace.clone().rounds.len(), 1);
        }
        other => panic!("{other:?}"),
    }
}

#[test]
fn blank_answers_and_failed_requests_fail() {
    let step = hear(start(), " \n");
    assert!(step.events.is_empty());
    match step.action {
        ChatAction::Fail(message) => assert_eq!(message, "The model returned an empty response."),
        other => panic!("{other:?}"),
    }
    let step = ask(start()).1.answered(Err("offline".to_string()), &linux());
    match step.action {
        ChatAction::Fail(message) => assert_eq!(message, "offline"),
        other => panic!("{other:?}"),
    }
}

#[test]
fn searches_run_at_once() {
    let step = hear(start(), r#"{"tool":"web_search","query":"egui"}"#);
    let calling = "→ Calling web_search (egui)…";
    assert!(thoughts(&step.events).last().unwrap().ends_with(calling));
    match step.events.last().unwrap() {
        ChatProgressEvent::ToolAction(update) => {
            assert_eq!(update.name, "web_search");
            assert_eq!(update.arguments, "query: egui");
            assert_eq!(update.summary, "Running…");
            assert!(update.success && !update.completed);
        }
        other => panic!("{other:?}"),
    }
    let pending = match step.action {
        ChatAction::Run(pending) => pending,
        other => panic!("{other:?}"),
    };
    let before = pending.session.messages.len();
    let step = pending.finish(Ok("1. a\n2. b".to_string()), HOME);
    match &step.events[0] {
        ChatProgressEvent::ToolAction(update) => {
            assert_eq!(update.summary, "2 sources");
            assert!(update.success && update.completed);
        }
        other => panic!("{other:?}"),
    }
    let session = continued(step);
    assert!(session.thinking.ends_with("\n\n← 1. a\n2. b"));
    assert_eq!(session.messages.len(), before + 2);
    let told = session.messages.last().unwrap();
    assert_eq!(told.get_str("role"), Some("tool"));
    assert_eq!(told.get_str("tool_name"), Some("web_search"));
    assert_eq!(told.get_str("content"), Some("1. a\n2. b"));
    assert!(session.messages[before].get("tool_calls").is_none());
}

#[test]
fn native_calls_are_sent_back() {
    let calls = vec![ToolCall {
        function: ToolFunction {
            name: "web_search".to_string(),
            arguments: Json::from_entries(vec![entry("query", Json::from_text("q"))]),
        },
    }];
    let response = StreamChatResult {
        message: message("", calls),
        metrics: OllamaMetrics::default(),
    };
    let step = ask(start()).1.answered(Ok(response), &linux());
    let pending = match step.action {
        ChatAction::Run(pending) => pending,
        other => panic!("{other:?}"),
    };
    let session = continued(pending.finish(Err("offline".to_string()), HOME));
    let sent = &session.messages[session.messages.len() - 2];
    assert_eq!(sent.get_str("role"), Some("assistant"));
    assert!(sent.get("tool_calls").is_some());
    assert_eq!(session.messages.last().unwrap().get_str("content"), Some("offline"));
}

#[test]
fn commands_wait_for_approval() {
    let step = hear(start(), r#"{"tool":"run_command","command":"date"}"#);
    let waiting = "\n\n→ Requesting approval to run command:\ndate\n\n⏸ Waiting for your approval…";
    assert!(thoughts(&step.events).last().unwrap().ends_with(waiting));
    match step.events.last().unwrap() {
        ChatProgressEvent::CommandApprovalNeeded { command } => assert_eq!(command, "date"),
        other => panic!("{other:?}"),
    }
    match step.action {
        ChatAction::Approve(pending) => {
            let answer = Ok("User rejected running this command.".to_string());
            let session = continued(pending.finish(answer, HOME));
            assert!(session.thinking.ends_with("← User rejected running this command."));
        }
        other => panic!("{other:?}"),
    }
    let step = hear(start(), r#"{"tool":"run_command","command":" "}"#);
    let missing = "run_command requires a non-empty \"command\" argument.";
    assert!(continued(step).thinking.ends_with(missing));
}

#[test]
fn file_tools_run_where_rules_allow_it() {
    let facts = file_at("/work/a.txt");
    let rules = vec![PathPermissionRule {
        path: "/work".to_string(),
        permission: PathPermission::AllowDirectory,
    }];
    let state = PathPermissionState { persistent: rules, session: vec![] };
    let step = checking("/work/a.txt").check(&state, HOME, &facts);
    assert!(step.events.is_empty());
    match step.action {
        ChatAction::Run(pending) => {
            let config = LlmConfig::default(None);
            let plan = execute_tool(&pending.invocation, &config, &linux(), &facts).expect("plan");
            match plan {
                ToolPlan::Command(plan) => assert_eq!(plan.arguments, vec!["/work/a.txt"]),
                other => panic!("{other:?}"),
            }
        }
        other => panic!("{other:?}"),
    }
}

#[test]
fn file_tools_do_not_run_where_rules_deny_it() {
    let facts = file_at("/work/a.txt");
    let rules = vec![PathPermissionRule {
        path: "/work".to_string(),
        permission: PathPermission::Deny,
    }];
    let state = PathPermissionState { persistent: rules, session: vec![] };
    let session = continued(checking("/work/a.txt").check(&state, HOME, &facts));
    assert_eq!(
        session.messages.last().unwrap().get_str("content"),
        Some("Access denied: file access was rejected for /work."),
    );
}

fn listing(path: &str, flags: &str) -> PendingTool {
    let content = format!("{{\"tool\":\"ls\",\"path\":\"{path}\",\"flags\":\"{flags}\"}}");
    match hear(start(), &content).action {
        ChatAction::Check(pending) => pending,
        other => panic!("{other:?}"),
    }
}

fn directory_at(path: &str) -> FileFacts {
    let mut facts = FileFacts::new();
    facts.add_canonical(path.to_string(), path.to_string());
    facts.add_kind(path.to_string(), PathKind::Directory);
    facts
}

fn saved(rules: &[(&str, PathPermission)]) -> PathPermissionState {
    let rules = rules
        .iter()
        .map(|(path, permission)| PathPermissionRule {
            path: path.to_string(),
            permission: *permission,
        })
        .collect();
    PathPermissionState { persistent: rules, session: vec![] }
}

const TOO_DEEP: &str = "Access denied: access to /work does not reach everything beneath it. \
    List it without the R flag.";

fn told_too_deep(step: ChatStep) -> bool {
    continued(step).messages.last().unwrap().get_str("content") == Some(TOO_DEEP)
}

#[test]
fn recursive_listings_need_everything_beneath() {
    let facts = directory_at("/work");
    let directory_only = saved(&[("/work", PathPermission::AllowDirectory)]);
    assert!(told_too_deep(listing("/work", "R").check(&directory_only, HOME, &facts)));
    assert!(told_too_deep(listing("/work", "-laR").check(&directory_only, HOME, &facts)));
    let step = listing("/work", "la").check(&directory_only, HOME, &facts);
    assert!(matches!(step.action, ChatAction::Run(_)));
    let recursive = saved(&[("/work", PathPermission::AllowRecursive)]);
    let step = listing("/work", "R").check(&recursive, HOME, &facts);
    assert!(matches!(step.action, ChatAction::Run(_)));
    let above = saved(&[
        ("/work", PathPermission::AllowDirectory),
        ("/", PathPermission::AllowRecursive),
    ]);
    let step = listing("/work", "R").check(&above, HOME, &facts);
    assert!(matches!(step.action, ChatAction::Run(_)));
    let except = saved(&[
        ("/work", PathPermission::AllowRecursive),
        ("/work/x", PathPermission::Deny),
    ]);
    assert!(told_too_deep(listing("/work", "R").check(&except, HOME, &facts)));
    let step = listing("/work", "a").check(&except, HOME, &facts);
    assert!(matches!(step.action, ChatAction::Run(_)));
    let elsewhere = saved(&[
        ("/work", PathPermission::AllowRecursive),
        ("/other", PathPermission::Deny),
    ]);
    let step = listing("/work", "R").check(&elsewhere, HOME, &facts);
    assert!(matches!(step.action, ChatAction::Run(_)));
}

#[test]
fn recursive_listings_are_asked_for_once() {
    let facts = directory_at("/work");
    for choice in [
        FilePermissionChoice::AllowDirectory,
        FilePermissionChoice::AllowRecursive,
        FilePermissionChoice::Reject,
    ] {
        let mut state = PathPermissionState::default();
        let step = listing("/work", "R").check(&state, HOME, &facts);
        let (pending, directory) = match step.action {
            ChatAction::Choose(pending, directory) => (pending, directory),
            other => panic!("{other:?}"),
        };
        assert_eq!(directory, "/work");
        let pending = match pending.chosen(&directory, choice, &mut state).action {
            ChatAction::Check(pending) => pending,
            other => panic!("{other:?}"),
        };
        let step = pending.check(&state, HOME, &facts);
        match choice {
            FilePermissionChoice::AllowDirectory => assert!(told_too_deep(step)),
            FilePermissionChoice::AllowRecursive => {
                assert!(matches!(step.action, ChatAction::Run(_)));
            }
            FilePermissionChoice::Reject => {
                let session = continued(step);
                assert_eq!(
                    session.messages.last().unwrap().get_str("content"),
                    Some("Access denied: file access was rejected for /work."),
                );
            }
        }
    }
}

#[test]
fn questions_are_asked_once() {
    let facts = file_at("/work/a.txt");
    let mut state = PathPermissionState::default();
    let step = checking("/work/a.txt").check(&state, HOME, &facts);
    match step.events.last().unwrap() {
        ChatProgressEvent::FilePermissionNeeded { tool_name, arguments, directory, access } => {
            assert_eq!(tool_name, "cat");
            assert!(arguments.starts_with("command: cat /work/a.txt"));
            assert_eq!(directory, "/work");
            assert_eq!(*access, FileAccess::Read);
        }
        other => panic!("{other:?}"),
    }
    let waiting =
        "→ Requesting permission to read files in /work\n\n⏸ Waiting for your decision…";
    assert!(thoughts(&step.events).last().unwrap().ends_with(waiting));
    let (pending, directory) = match step.action {
        ChatAction::Choose(pending, directory) => (pending, directory),
        other => panic!("{other:?}"),
    };
    let step = pending.chosen(&directory, FilePermissionChoice::AllowDirectory, &mut state);
    assert_eq!(state.session.len(), 1);
    match step.action {
        ChatAction::Check(pending) => {
            assert!(matches!(pending.check(&state, HOME, &facts).action, ChatAction::Run(_)));
        }
        other => panic!("{other:?}"),
    }
}

#[test]
fn file_tools_need_a_path() {
    let session = continued(checking(" ").check(
        &PathPermissionState::default(),
        HOME,
        &FileFacts::new(),
    ));
    assert!(session.thinking.ends_with("A non-empty \"path\" argument is required."));
    let mut pending = checking("/a");
    pending.invocation.name = "touch".to_string();
    let step = pending.check(&PathPermissionState::default(), HOME, &FileFacts::new());
    assert!(continued(step).thinking.ends_with("Unknown file tool: touch"));
}

#[test]
fn unknown_tools_are_not_run() {
    let invocation = ToolInvocation { name: "touch".to_string(), arguments: Json::Null };
    let config = LlmConfig::default(None);
    let plan = execute_tool(&invocation, &config, &linux(), &FileFacts::new());
    assert_eq!(plan.unwrap_err(), "Unknown tool: touch");
}

#[test]
fn rounds_come_to_an_end() {
    let mut session = start();
    for round in 0..MAX_TOOL_ROUNDS {
        assert_eq!(session.rounds, round);
        assert_eq!(session.trace.rounds.len(), round);
        assert_eq!(session.messages.len(), 2 + 2 * round);
        let thinking = session.thinking.clone();
        let step = hear(session, r#"{"tool":"web_search","query":"egui"}"#);
        let pending = match step.action {
            ChatAction::Run(pending) => pending,
            other => panic!("{other:?}"),
        };
        session = continued(pending.finish(Ok("r".to_string()), HOME));
        assert!(session.thinking.starts_with(&thinking));
    }
    assert_eq!(session.metrics.request_count, 8);
    let step = session.next_round(&LlmConfig::default(None), linux().platform);
    match step.action {
        ChatAction::Fail(message) => assert_eq!(
            message,
            "The model kept requesting tools without producing a final answer.",
        ),
        other => panic!("{other:?}"),
    }
}

#[test]
fn long_results_are_cut_for_the_model() {
    let step = hear(start(), r#"{"tool":"web_search","query":"egui"}"#);
    let pending = match step.action {
        ChatAction::Run(pending) => pending,
        other => panic!("{other:?}"),
    };
    let session = continued(pending.finish(Ok("r".repeat(5000)), HOME));
    let told = session.messages.last().unwrap().get_str("content").unwrap();
    assert_eq!(told.chars().count(), 4001);
}

#[test]
fn troubles_have_words() {
    let troubles = [
        (QuestionTrouble::ApprovalNotAsked, "Could not request command approval."),
        (QuestionTrouble::ApprovalClosed, "Command approval channel closed."),
        (QuestionTrouble::PermissionNotAsked, "Could not request file permission."),
        (QuestionTrouble::PermissionClosed, "File permission channel closed."),
        (QuestionTrouble::RulesUnreadable, "Could not read file permission state."),
        (QuestionTrouble::RulesUnwritable, "Could not update file permission state."),
    ];
    for (trouble, words) in troubles {
        assert_eq!(trouble.message(), words);
    }
}

#[test]
fn answers_are_put_together_from_chunks() {
    let headers = vec![("server".to_string(), "x".to_string())];
    let mut result = StreamChatResult::start(headers.clone());
    let shown = result.take_line(StreamLine::Chunk(chunk("Hel")), "Thinking…");
    assert_eq!(shown, Ok(Some("Thinking…\n\nHel".to_string())));
    let mut calling = chunk("");
    calling.message.tool_calls = vec![call("a"), call("b")];
    assert_eq!(result.take_line(StreamLine::Chunk(calling), "Thinking…"), Ok(None));
    let mut later = chunk("lo");
    later.message.tool_calls = vec![call("c")];
    let shown = result.take_line(StreamLine::Chunk(later), "Thinking…");
    assert_eq!(shown, Ok(Some("Thinking…\n\nHello".to_string())));
    let last = StreamChunk {
        done: true,
        total_duration: 9,
        load_duration: 1,
        prompt_eval_count: 2,
        prompt_eval_duration: 3,
        eval_count: 4,
        eval_duration: 5,
        ..chunk("")
    };
    let line = StreamLine::Chunk(last);
    assert!(result.can_take(&line));
    assert_eq!(result.take_line(line, "Thinking…"), Ok(None));
    assert_eq!(result.message.content, "Hello");
    assert_eq!(result.message.tool_calls, vec![call("c")]);
    let reported = OllamaMetrics {
        total_duration_ns: 9,
        load_duration_ns: 1,
        prompt_eval_count: 2,
        prompt_eval_duration_ns: 3,
        eval_count: 4,
        eval_duration_ns: 5,
        request_count: 1,
        http_headers: headers,
    };
    assert_eq!(result.metrics, reported);
    let full = StreamChunk { done: true, eval_count: u64::MAX, ..chunk("") };
    assert!(!result.can_take(&StreamLine::Chunk(full)));
}

#[test]
fn lines_that_are_no_chunks_fail() {
    assert!(!is_chunk_line(" \t"));
    assert!(is_chunk_line("{}"));
    let mut result = StreamChatResult::start(vec![]);
    assert_eq!(
        result.take_line(StreamLine::Unread("reset".to_string()), ""),
        Err("Could not read Ollama stream: reset".to_string()),
    );
    assert_eq!(
        result.take_line(StreamLine::Invalid("eof".to_string()), ""),
        Err("Invalid Ollama stream chunk: eof".to_string()),
    );
    assert_eq!(result.message.content, "");
}

#[test]
fn responses_are_traced() {
    let metrics = OllamaMetrics {
        eval_count: 6,
        ..OllamaMetrics::with_headers(vec![("server".to_string(), "x".to_string())])
    };
    let json = trace_response_value(&message("hi", vec![call("a")]), &metrics);
    assert_eq!(json.get("usage").unwrap().get("eval_count"), Some(&Json::from_number(6)));
    let header = Json::from_items(vec![Json::from_text("server"), Json::from_text("x")]);
    assert_eq!(json.get("http_headers"), Some(&Json::from_items(vec![header])));
    let said = json.get("message").unwrap();
    assert_eq!(said.get_str("role"), Some("assistant"));
    match said.get("tool_calls") {
        Some(Json::Array(calls)) => {
            assert_eq!(calls[0].get("function").unwrap().get_str("name"), Some("a"));
        }
        other => panic!("{other:?}"),
    }
}

#[test]
fn requests_hold_the_conversation() {
    let step = hear(start(), r#"{"tool":"web_search","query":"egui"}"#);
    let pending = match step.action {
        ChatAction::Run(pending) => pending,
        other => panic!("{other:?}"),
    };
    let session = continued(pending.finish(Ok("found".to_string()), HOME));
    let (_, asked) = ask(session);
    let sent = &asked.request.messages;
    assert_eq!(sent.len(), 4);
    assert_eq!(sent[0], start().messages[0]);
    assert_eq!(sent[1], start().messages[1]);
    assert_eq!(sent[3].get_str("content"), Some("found"));
}
