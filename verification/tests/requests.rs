use pairllm::arguments::{
    append_tool_preview, command_from_arguments, format_cat_command, format_ls_command,
    format_sed_command, format_tool_arguments, grep_pattern_from_arguments, parse_cat_flags,
    parse_ls_flags, path_from_arguments, sed_expression_from_arguments, validate_sed_expression,
};
use pairllm::json::{entry, Json};
use pairllm::platform::{OperatingSystem, Platform};
use pairllm::requests::{
    arguments_from, json_candidates, normalize_arguments, parse_tool_request, tool_from_json,
    ToolCall, ToolFunction, ToolInvocation,
};

fn linux() -> Platform {
    Platform { unix: true, system: OperatingSystem::Linux }
}

fn windows() -> Platform {
    Platform { unix: false, system: OperatingSystem::Windows }
}

fn object(pairs: &[(&str, &str)]) -> Json {
    Json::from_entries(
        pairs.iter().map(|(key, value)| entry(key, Json::from_text(value))).collect(),
    )
}

fn invocation(name: &str, pairs: &[(&str, &str)]) -> ToolInvocation {
    ToolInvocation { name: name.to_string(), arguments: object(pairs) }
}

fn call(name: &str, arguments: Json) -> ToolCall {
    ToolCall { function: ToolFunction { name: name.to_string(), arguments } }
}

fn request(content: &str) -> Option<ToolInvocation> {
    parse_tool_request(content, &vec![], linux())
}

#[test]
fn parses_json_ls_request() {
    let invocation = request(r#"{"tool":"ls","path":".","flags":"la"}"#).expect("tool request");
    assert_eq!(invocation.name, "ls");
    assert_eq!(invocation.arguments.get("path").and_then(Json::as_str), Some("."));
    assert_eq!(invocation.arguments.get("flags").and_then(Json::as_str), Some("la"));
}

#[test]
fn parses_json_cat_request() {
    let invocation = request(r#"{"tool":"cat","path":"README.md"}"#).expect("tool request");
    assert_eq!(invocation.name, "cat");
    assert_eq!(invocation.arguments.get("path").and_then(Json::as_str), Some("README.md"));
    assert_eq!(invocation.arguments.get("flags"), Some(&Json::Null));
}

#[test]
fn parses_json_cat_request_with_pattern() {
    let invocation = request(r#"{"tool":"cat","path":"README.md","pattern":"fn main","flags":"n"}"#)
        .expect("tool request");
    assert_eq!(invocation.name, "cat");
    assert_eq!(invocation.arguments.get("path").and_then(Json::as_str), Some("README.md"));
    assert_eq!(invocation.arguments.get("pattern").and_then(Json::as_str), Some("fn main"));
    assert_eq!(invocation.arguments.get("flags").and_then(Json::as_str), Some("n"));
}

#[test]
fn parses_json_sed_request() {
    let invocation = request(r#"{"tool":"sed","path":"src/main.rs","expression":"s/old/new/"}"#)
        .expect("tool request");
    assert_eq!(invocation.name, "sed");
    assert_eq!(invocation.arguments.get("path").and_then(Json::as_str), Some("src/main.rs"));
    assert_eq!(invocation.arguments.get("expression").and_then(Json::as_str), Some("s/old/new/"));
}

#[test]
fn parses_json_web_search_request() {
    let invocation = request(r#"{"tool":"web_search","query":"rust egui"}"#).expect("tool request");
    assert_eq!(invocation.name, "web_search");
    assert_eq!(invocation.arguments.get("query").and_then(Json::as_str), Some("rust egui"));
}

#[test]
fn parses_json_run_command_request() {
    let invocation = request(r#"{"tool":"run_command","command":"ls -la"}"#).expect("tool request");
    assert_eq!(invocation.name, "run_command");
    assert_eq!(invocation.arguments.get("command").and_then(Json::as_str), Some("ls -la"));
}

#[test]
fn parses_native_web_search_call() {
    let calls = vec![call("web_search", object(&[("query", "latest ai news")]))];
    let request = parse_tool_request("", &calls, linux()).expect("tool request");
    assert_eq!(request.name, "web_search");
    assert_eq!(request.arguments.get("query").and_then(Json::as_str), Some("latest ai news"));
}

#[test]
fn native_call_counts_before_the_text() {
    let calls = vec![
        call("teleport", object(&[])),
        call("run_command", object(&[("command", "date")])),
        call("web_search", object(&[("query", "q")])),
    ];
    let content = r#"{"tool":"ls","path":"."}"#;
    let request = parse_tool_request(content, &calls, linux()).expect("tool request");
    assert_eq!(request.name, "run_command");
    let unsupported = vec![call("teleport", object(&[]))];
    let request = parse_tool_request(content, &unsupported, linux()).expect("tool request");
    assert_eq!(request.name, "ls");
}

#[test]
fn unsupported_tools_are_not_requested() {
    let content = r#"{"tool":"ls","path":"."}"#;
    assert!(parse_tool_request(content, &vec![], windows()).is_none());
    assert!(request(r#"{"tool":"rm","path":"."}"#).is_none());
    assert!(request("just words").is_none());
    assert!(request(r#"{"path":"."}"#).is_none());
    assert!(request(r#"{"tool":7,"name":"ls"}"#).is_none());
}

#[test]
fn requests_in_a_fence_and_between_words() {
    let fenced = "```json\n{\"tool\":\"ls\",\"path\":\"/a\"}\n```";
    assert_eq!(request(fenced).expect("fenced").arguments.get_str("path"), Some("/a"));
    let between = "I will look: {\"name\":\"ls\",\"arguments\":{\"path\":\"/b\"}} now";
    assert_eq!(request(between).expect("between").arguments.get_str("path"), Some("/b"));
    assert!(!json_candidates(between).is_empty());
}

#[test]
fn arguments_beside_the_name_come_first() {
    let value = Json::parse(r#"{"tool":"ls","path":"/a","arguments":{"path":"/b","flags":"l"}}"#)
        .expect("json");
    let invocation = tool_from_json(&value, linux()).expect("request");
    assert_eq!(invocation.arguments.get_str("path"), Some("/a"));
    assert_eq!(invocation.arguments.get_str("flags"), Some("l"));
}

#[test]
fn arguments_given_as_text_are_read() {
    let text = Json::from_text(r#"{"path":"/a"}"#);
    assert_eq!(normalize_arguments(&text).get_str("path"), Some("/a"));
    let words = Json::from_text("not json");
    assert_eq!(normalize_arguments(&words), words);
    let given = object(&[("path", "/c")]);
    assert_eq!(normalize_arguments(&given), given);
    assert_eq!(arguments_from(&words, None), words);
    assert_eq!(arguments_from(&words, Some(Json::Null)), Json::Null);
    assert_eq!(arguments_from(&given, Some(Json::Null)), given);
}

#[test]
fn parses_ls_flags() {
    assert_eq!(parse_ls_flags(Some("la")).expect("flags"), "al");
    assert_eq!(parse_ls_flags(Some("-aR")).expect("flags"), "aR");
    assert_eq!(parse_ls_flags(None).expect("flags"), "");
    assert!(parse_ls_flags(Some("x")).is_err());
}

#[test]
fn parses_cat_flags() {
    assert_eq!(parse_cat_flags(Some("n")).expect("flags"), "n");
    assert_eq!(parse_cat_flags(Some("-n")).expect("flags"), "n");
    assert_eq!(parse_cat_flags(None).expect("flags"), "");
    assert!(parse_cat_flags(Some("x")).is_err());
}

#[test]
fn flags_are_read_once() {
    for flags in ["", "la", "Rla", "--all", "aaa"] {
        if let Ok(parsed) = parse_ls_flags(Some(flags)) {
            assert_eq!(parse_ls_flags(Some(parsed.as_str())), Ok(parsed));
        }
    }
}

#[test]
fn formats_tool_arguments_for_cat() {
    let invocation = invocation("cat", &[("path", "~/notes.txt")]);
    let args = format_tool_arguments(&invocation, Some("/home/ada"));
    assert!(args.starts_with("command: cat "));
    assert!(args.contains("notes.txt"));
}

#[test]
fn arguments_of_other_tools_are_shown() {
    let search = invocation("web_search", &[("query", "egui")]);
    assert_eq!(format_tool_arguments(&search, None), "query: egui");
    let lost = invocation("web_search", &[]);
    assert_eq!(format_tool_arguments(&lost, None), "query: (missing)");
    let run = invocation("run_command", &[("command", " date ")]);
    assert_eq!(format_tool_arguments(&run, None), "command: date");
    let empty = invocation("run_command", &[("command", "  ")]);
    assert_eq!(
        format_tool_arguments(&empty, None),
        "run_command requires a non-empty \"command\" argument.",
    );
    let unknown = invocation("other", &[("a", "b")]);
    assert_eq!(format_tool_arguments(&unknown, None), "{\n  \"a\": \"b\"\n}");
}

#[test]
fn paths_expressions_and_patterns_of_calls() {
    let arguments = object(&[("path", " ~/a "), ("expression", " s/a/b/ "), ("pattern", " x ")]);
    assert_eq!(path_from_arguments(&arguments, Some("/h")), Ok("/h/a".to_string()));
    assert!(path_from_arguments(&arguments, None).is_err());
    assert_eq!(sed_expression_from_arguments(&arguments), Ok("s/a/b/".to_string()));
    assert_eq!(grep_pattern_from_arguments(&arguments), Some("x".to_string()));
    let nothing = object(&[]);
    assert_eq!(
        path_from_arguments(&nothing, Some("/h")),
        Err("A non-empty \"path\" argument is required.".to_string()),
    );
    assert_eq!(
        sed_expression_from_arguments(&nothing),
        Err("sed requires \"expression\" (e.g. s/old/new/).".to_string()),
    );
    assert_eq!(grep_pattern_from_arguments(&nothing), None);
    assert_eq!(
        command_from_arguments(&nothing),
        Err("run_command requires a non-empty \"command\" argument.".to_string()),
    );
}

#[test]
fn sed_expressions_are_validated() {
    assert!(validate_sed_expression("s/old/new/").is_ok());
    assert_eq!(
        validate_sed_expression("s/a\nb/c/"),
        Err("sed expression must be a single line.".to_string()),
    );
    assert_eq!(
        validate_sed_expression("-n"),
        Err("sed expression must not start with '-'.".to_string()),
    );
}

#[test]
fn command_lines_of_file_tools() {
    assert_eq!(format_ls_command("/tmp", ""), "ls /tmp");
    assert_eq!(format_ls_command("/tmp", "al"), "ls -al /tmp");
    assert_eq!(format_cat_command("/f", None, ""), "cat /f");
    assert_eq!(format_cat_command("/f", None, "n"), "cat -n /f");
    assert_eq!(format_cat_command("/f", Some("x"), ""), "grep 'x' /f");
    assert_eq!(format_cat_command("/f", Some("x"), "n"), "grep -n 'x' /f");
    assert_eq!(format_sed_command("/f", "s/a/b/"), "sed -i 's/a/b/' /f");
}

#[test]
fn calls_are_previewed() {
    let mut thinking = "→ Calling web_search".to_string();
    append_tool_preview(&mut thinking, &invocation("web_search", &[("query", "egui")]), None);
    assert_eq!(thinking, "→ Calling web_search (egui)");
    let mut thinking = String::new();
    append_tool_preview(&mut thinking, &invocation("run_command", &[("command", "date")]), None);
    assert_eq!(thinking, "\n  `$ date`");
    let mut thinking = String::new();
    append_tool_preview(&mut thinking, &invocation("other", &[("query", "egui")]), None);
    assert_eq!(thinking, "");
}
