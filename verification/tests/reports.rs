use pairllm::json::{entry, Json};
use pairllm::metrics::{tokens_per_second, MetricFigures, OllamaMetrics};
use pairllm::results::{
    format_streaming_thinking, format_tool_message_content, summarize_tool_result,
    tool_result_summary, ToolActionUpdate,
};
use pairllm::search::{
    finish_search, format_search_results, plan_web_search, Score, SearchOutcome, SearchResponse,
    SearchResult,
};
use pairllm::settings::{
    chat_url, connection_error, http_error, normalize_base_url, qwen_model_index,
    qwen_model_options, save_error, settings_path, startup_config, tags_url, LlmConfig,
    SaveTrouble,
};
use pairllm::text::{
    decimal_text, is_blank, lines, signed_decimal_text, split_once, trim, trim_end, truncate,
};

fn rate(terms: Option<(u64, u64)>) -> f64 {
    match terms {
        Some((tokens, ns)) => tokens as f64 / (ns as f64 / 1e9),
        None => 0.0,
    }
}

fn figures(metrics: &OllamaMetrics) -> MetricFigures {
    let ms = |ns: u64| format!("{:.2}", ns as f64 / 1e6);
    MetricFigures {
        total_seconds: format!("{:.2}", metrics.total_duration_ns as f64 / 1e9),
        total_ms: ms(metrics.total_duration_ns),
        load_ms: ms(metrics.load_duration_ns),
        prompt_eval_ms: ms(metrics.prompt_eval_duration_ns),
        eval_ms: ms(metrics.eval_duration_ns),
        prefill_rate: format!("{:.1}", rate(metrics.prefill_terms())),
        generation_rate: format!("{:.1}", rate(metrics.generation_terms())),
    }
}

fn header(name: &str, value: &str) -> (String, String) {
    (name.to_string(), value.to_string())
}

fn object(pairs: &[(&str, &str)]) -> Json {
    Json::from_entries(
        pairs.iter().map(|(key, value)| entry(key, Json::from_text(value))).collect(),
    )
}

#[test]
fn formats_metrics_summary() {
    let metrics = OllamaMetrics {
        total_duration_ns: 2_500_000_000,
        eval_count: 100,
        eval_duration_ns: 2_000_000_000,
        request_count: 2,
        ..OllamaMetrics::default()
    };
    let figures = figures(&metrics);
    assert_eq!(metrics.summary_line(&figures), "2.50s · 50.0 tok/s");
    assert!(metrics.tooltip_text(&figures).contains("prompt_eval_count"));
}

#[test]
fn all_metrics_are_told() {
    let metrics = OllamaMetrics {
        total_duration_ns: 1_500_000,
        prompt_eval_count: 7,
        request_count: 1,
        ..OllamaMetrics::with_headers(vec![header("server", "x"), header("date", "today")])
    };
    let text = metrics.tooltip_text(&figures(&metrics));
    assert_eq!(
        text,
        "Ollama usage (1 API request)\ntotal_duration: 1.50 ms\nload_duration: 0.00 ms\n\
         prompt_eval_count: 7\nprompt_eval_duration: 0.00 ms (0.0 tok/s prefill)\n\
         eval_count: 0\neval_duration: 0.00 ms (0.0 tok/s gen)\n\nResponse headers:\n\
         server: x\ndate: today",
    );
    let more = OllamaMetrics { request_count: 3, ..OllamaMetrics::default() };
    assert!(more.tooltip_text(&figures(&more)).starts_with("Ollama usage (3 API requests)\n"));
}

#[test]
fn metrics_are_added_up() {
    let mut metrics = OllamaMetrics {
        total_duration_ns: 5,
        eval_count: 2,
        request_count: 1,
        ..OllamaMetrics::with_headers(vec![header("a", "1"), header("b", "2")])
    };
    let other = OllamaMetrics {
        total_duration_ns: 7,
        eval_count: 3,
        request_count: 1,
        ..OllamaMetrics::with_headers(vec![header("b", "3"), header("c", "4"), header("c", "5")])
    };
    assert!(metrics.can_merge(&other));
    metrics.merge(&other);
    assert_eq!(metrics.total_duration_ns, 12);
    assert_eq!(metrics.eval_count, 5);
    assert_eq!(metrics.request_count, 2);
    assert_eq!(
        metrics.http_headers,
        vec![header("a", "1"), header("b", "3"), header("c", "5")],
    );
    assert_eq!(metrics.clone(), metrics);
    let full = OllamaMetrics { eval_count: u64::MAX, ..OllamaMetrics::default() };
    assert!(!metrics.can_merge(&full));
}

#[test]
fn rates_need_a_duration() {
    assert_eq!(tokens_per_second(5, 0), None);
    assert_eq!(tokens_per_second(5, 10), Some((5, 10)));
}

#[test]
fn summarizes_ls_result() {
    let output = "ls -la /tmp\n\nfile1\nfile2\n";
    assert_eq!(tool_result_summary("ls", output), "3 lines of output");
}

#[test]
fn summarizes_cat_result() {
    assert_eq!(
        tool_result_summary("cat", "cat /tmp/file\n\none\ntwo\nthree"),
        "3 lines, 13 characters read",
    );
}

#[test]
fn summarizes_other_results() {
    assert_eq!(tool_result_summary("ls", "a\n… truncated"), "2 lines of output (truncated)");
    assert_eq!(tool_result_summary("cat", "cat f\n\na\n… truncated"), "2 lines read (truncated)");
    assert_eq!(tool_result_summary("sed", "Applied it."), "Applied it.");
    assert_eq!(tool_result_summary("web_search", "No results found."), "No results found");
    assert_eq!(tool_result_summary("web_search", "Summary"), "Search completed");
    assert_eq!(tool_result_summary("web_search", "1. a\n2. b\nc"), "2 sources");
    assert_eq!(tool_result_summary("run_command", ""), "Completed");
    assert_eq!(tool_result_summary("run_command", "Exit code: 0\nx"), "Completed (Exit code: 0)");
    assert_eq!(tool_result_summary("other", &"y".repeat(121)), format!("{}…", "y".repeat(120)));
}

#[test]
fn results_are_noted() {
    let long = "z".repeat(700);
    assert_eq!(summarize_tool_result("ls", &long), long);
    assert_eq!(summarize_tool_result("sed", &long), long);
    assert_eq!(summarize_tool_result("cat", &long), format!("{}…", "z".repeat(600)));
    assert_eq!(format_streaming_thinking(" ", "abc"), "abc");
    assert_eq!(format_streaming_thinking("Thinking…", "abc"), "Thinking…\n\nabc");
    let update = ToolActionUpdate {
        name: "ls".to_string(),
        arguments: "command: ls /".to_string(),
        summary: "Running…".to_string(),
        success: true,
        completed: false,
    };
    assert_eq!(format_tool_message_content(&update), "command: ls /\n\nRunning…");
    assert_eq!(update.clone(), update);
}

#[test]
fn searches_are_planned() {
    let keyless = plan_web_search(&object(&[("query", " rust ")]), " ").expect("plan");
    assert_eq!(keyless.query, "rust");
    assert_eq!(keyless.max_results, 5);
    assert!(keyless.include_answer);
    let keyed = plan_web_search(&object(&[("query", "rust")]), "tvly-key").expect("plan");
    assert_eq!(keyed.header_name, "Authorization");
    assert_eq!(keyed.header_value, "Bearer tvly-key");
    assert!(keyless.header_name != keyed.header_name);
    assert_eq!(
        plan_web_search(&object(&[]), "").unwrap_err(),
        "web_search requires a non-empty \"query\" argument.",
    );
}

#[test]
fn searches_are_reported() {
    let plan = plan_web_search(&object(&[("query", "rust")]), "").expect("plan");
    let failed = SearchOutcome::Failed("offline".to_string());
    assert_eq!(
        finish_search(&plan, &failed),
        Err("Tavily request failed: offline".to_string()),
    );
    let refused = SearchOutcome::Refused("429 Too Many Requests".to_string());
    assert_eq!(
        finish_search(&plan, &refused),
        Err("Tavily returned HTTP 429 Too Many Requests".to_string()),
    );
    let unreadable = SearchOutcome::Unreadable("bad".to_string());
    assert!(finish_search(&plan, &unreadable).is_err());
    let nothing = SearchResponse { answer: None, results: vec![] };
    let report = format_search_results("rust", &nothing);
    assert!(report.starts_with("Search results for \"rust\":\n"));
    assert_eq!(tool_result_summary("web_search", &report), "No results found");
    let found = SearchResponse {
        answer: Some(" a language ".to_string()),
        results: vec![SearchResult {
            title: "Rust".to_string(),
            url: "https://example.org".to_string(),
            content: "text".to_string(),
            score: Score::Number { negative: false, whole: 0, hundredths: 50 },
        }],
    };
    let report = finish_search(&plan, &SearchOutcome::Found(found)).expect("found");
    assert!(report.contains("\nSummary:\na language\n"));
    assert!(report.contains("Rust"));
    assert!(report.contains("0.50"));
    assert_eq!(tool_result_summary("web_search", &report), "1 sources");
}

#[test]
fn scores_have_two_decimals() {
    let number = |negative, whole, hundredths| Score::Number { negative, whole, hundredths };
    assert_eq!(number(false, 0, 50).to_text(), format!("{:.2}", 0.5f32));
    assert_eq!(number(false, 12, 5).to_text(), format!("{:.2}", 12.05f32));
    assert_eq!(number(true, 0, 0).to_text(), format!("{:.2}", -0.001f32));
    assert_eq!(
        number(false, 340282346638528859811704183484516925440, 0).to_text(),
        format!("{:.2}", f32::MAX)
    );
    assert_eq!(Score::Infinite { negative: false }.to_text(), format!("{:.2}", f32::INFINITY));
    assert_eq!(Score::Infinite { negative: true }.to_text(), format!("{:.2}", -f32::INFINITY));
    assert_eq!(Score::Undefined.to_text(), format!("{:.2}", f32::NAN));
}

#[test]
fn addresses_of_the_server() {
    assert_eq!(normalize_base_url(" http://x:1// "), "http://x:1");
    assert_eq!(tags_url("http://x/"), "http://x/api/tags");
    assert_eq!(chat_url("http://x"), "http://x/api/chat");
    assert_eq!(http_error("404 Not Found"), "Ollama returned HTTP 404 Not Found");
    assert_eq!(connection_error(false, "slow".to_string()), "slow");
    assert!(connection_error(true, "slow".to_string()).starts_with("Could not connect to Ollama."));
}

#[test]
fn settings_to_start_with() {
    let config = LlmConfig::default(None);
    assert!(config.enabled);
    assert_eq!(config.base_url, "http://127.0.0.1:11434");
    assert_eq!(config.model, "qwen3:4b");
    assert_eq!(config.num_ctx, 16384);
    assert_eq!(config.tavily_api_key, "");
    assert!(config.path_permissions.is_empty());
    assert_eq!(config.clone(), config);
    assert_eq!(LlmConfig::default(Some("k".to_string())).tavily_api_key, "k");
    assert_eq!(qwen_model_index("qwen3:4b"), Some(2));
    assert_eq!(qwen_model_index("llama"), None);
    assert_eq!(qwen_model_options()[0].label, "Qwen3 0.6B");
}

#[test]
fn saved_settings_are_taken_up() {
    let mut saved = LlmConfig::default(None);
    saved.model = "llama".to_string();
    let key = Some("tvly-env".to_string());
    let config = startup_config(Some(saved.clone()), key.clone());
    assert_eq!(config.model, "llama");
    assert_eq!(config.tavily_api_key, "tvly-env");
    saved.tavily_api_key = "tvly-saved".to_string();
    assert_eq!(startup_config(Some(saved.clone()), key.clone()).tavily_api_key, "tvly-saved");
    saved.tavily_api_key = " ".to_string();
    assert_eq!(startup_config(Some(saved.clone()), None).tavily_api_key, " ");
    assert_eq!(startup_config(Some(saved), key.clone()).tavily_api_key, "tvly-env");
    assert_eq!(startup_config(None, key.clone()), LlmConfig::default(key));
    assert_eq!(startup_config(None, None), LlmConfig::default(None));
}

#[test]
fn summaries_of_searches_count_their_sources() {
    for count in 0..12usize {
        let results = (0..count)
            .map(|index| SearchResult {
                title: format!("{index}. title"),
                url: "https://example.org".to_string(),
                content: " 7 things ".to_string(),
                score: Score::Number { negative: false, whole: 0, hundredths: 50 },
            })
            .collect();
        let response = SearchResponse { answer: Some("yes, 3".to_string()), results };
        let report = format_search_results("1 query", &response);
        let expected = if count == 0 {
            "No results found".to_string()
        } else {
            format!("{count} sources")
        };
        assert_eq!(tool_result_summary("web_search", &report), expected);
    }
}

#[test]
fn last_of_equal_keys_counts() {
    let twice = Json::from_entries(vec![
        entry("a", Json::from_number(1)),
        entry("b", Json::Null),
        entry("a", Json::from_number(2)),
    ]);
    assert_eq!(twice.get("a"), Some(&Json::from_number(2)));
    assert_eq!(twice.to_pretty_text(), "{\n  \"a\": 2,\n  \"b\": null\n}");
}

#[test]
fn settings_have_a_place() {
    assert_eq!(
        settings_path(Some("/home/ada"), Some("C:")),
        Some("/home/ada/.config/pairllm/settings.json".to_string()),
    );
    assert_eq!(
        settings_path(None, Some("/profile")),
        Some("/profile/.config/pairllm/settings.json".to_string()),
    );
    assert_eq!(settings_path(None, None), None);
    assert_eq!(save_error(&SaveTrouble::NoPath), "Could not resolve settings path.");
    assert_eq!(
        save_error(&SaveTrouble::NoDirectory("x".to_string())),
        "Could not create settings dir: x",
    );
    assert_eq!(
        save_error(&SaveTrouble::NotEncoded("x".to_string())),
        "Could not encode settings: x",
    );
    assert_eq!(
        save_error(&SaveTrouble::NotWritten("x".to_string())),
        "Could not write settings: x",
    );
}

#[test]
fn texts_are_cut_and_split() {
    assert_eq!(truncate("añb", 2), "añ…");
    assert_eq!(truncate("ab", 2), "ab");
    assert_eq!(truncate("añ…", 2), "añ…");
    assert_eq!(trim(" \t a b\u{3000}\n"), "a b");
    assert_eq!(trim_end(" a \n"), " a");
    assert!(is_blank(" \u{2028}"));
    assert!(!is_blank(" x"));
    assert_eq!(lines("a\r\nb\n\nc"), vec!["a", "b", "", "c"]);
    assert_eq!(lines("a\n"), vec!["a"]);
    assert!(lines("").is_empty());
    assert_eq!(split_once("a::b::c", "::"), Some(("a".to_string(), "b::c".to_string())));
    assert_eq!(split_once("abc", "::"), None);
    assert_eq!(decimal_text(0), "0");
    assert_eq!(decimal_text(u64::MAX), "18446744073709551615");
    assert_eq!(signed_decimal_text(-12), "-12");
    assert_eq!(signed_decimal_text(i32::MIN), "-2147483648");
}

#[test]
fn white_space_is_as_in_std() {
    for code in 0..0x3100u32 {
        if let Some(c) = char::from_u32(code) {
            assert_eq!(pairllm::text::is_white_space(c), c.is_whitespace(), "{code:x}");
        }
    }
}

#[test]
fn json_is_read_and_written() {
    let value = Json::parse(" {\"a\": [1, true, null, \"x\"], \"b\": {}} ").expect("json");
    assert_eq!(value.get("b"), Some(&Json::Object(vec![])));
    assert_eq!(value.get("c"), None);
    assert_eq!(value.get_str("a"), None);
    let items = vec![Json::from_number(1), Json::Bool(true), Json::Null, Json::from_text("x")];
    assert_eq!(value.get("a"), Some(&Json::from_items(items)));
    assert!(Json::parse("{").is_none());
    assert!(Json::parse("").is_none());
    let back = Json::parse(&value.to_pretty_text()).expect("json");
    assert_eq!(back, value);
    assert_eq!(value.clone(), value);
    assert_eq!(Json::from_number(u64::MAX).to_pretty_text(), "18446744073709551615");
    assert_eq!(Json::from_text("a\"b").to_pretty_text(), "\"a\\\"b\"");
    assert_eq!(Json::Null.as_str(), None);
}
