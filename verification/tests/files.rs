use pairllm::commands::{
    execute_shell_command, finish_command, missing_path_error, plan_cat, plan_ls, plan_sed,
    require_directory_exists, require_file_exists, run_shell, shell_command, wrong_path_type_error,
    CommandKind, CommandPlan, ProcessOutput,
};
use pairllm::json::{entry, Json};
use pairllm::path::{
    expand_tilde, is_under_or_equal, join_path, normalize_path, normalize_path_str, path_depth,
    path_lookups, same_path, FileFacts, FilePath, PathKind,
};
use pairllm::platform::{Environment, OperatingSystem, Platform};

fn object(pairs: &[(&str, &str)]) -> Json {
    Json::from_entries(
        pairs.iter().map(|(key, value)| entry(key, Json::from_text(value))).collect(),
    )
}

fn on(unix: bool, system: OperatingSystem) -> Environment {
    Environment { platform: Platform { unix, system }, home: Some("/home/ada".to_string()) }
}

fn linux() -> Environment {
    on(true, OperatingSystem::Linux)
}

fn with_kind(path: &str, kind: PathKind) -> FileFacts {
    let mut facts = FileFacts::new();
    facts.add_kind(path.to_string(), kind);
    facts
}

fn wrote(code: i32, stdout: &str, stderr: &str) -> Result<ProcessOutput, String> {
    Ok(ProcessOutput { code: Some(code), stdout: stdout.to_string(), stderr: stderr.to_string() })
}

fn cat(pairs: &[(&str, &str)]) -> CommandPlan {
    let facts = with_kind("/tmp/sample.txt", PathKind::File);
    plan_cat(&object(pairs), &linux(), &facts).expect("plan")
}

#[test]
fn ls_lists_directory() {
    let facts = with_kind("/tmp/pairllm-ls-test", PathKind::Directory);
    let plan = plan_ls(&object(&[("path", "/tmp/pairllm-ls-test")]), &linux(), &facts).expect("ls");
    assert_eq!(plan.program, "ls");
    assert_eq!(plan.arguments, vec!["/tmp/pairllm-ls-test"]);
    let result = finish_command(&plan, wrote(0, "alpha.txt\n", "")).expect("ls");
    assert!(result.contains("alpha.txt"));
    assert_eq!(result, "ls /tmp/pairllm-ls-test\n\nalpha.txt");
}

#[test]
fn ls_reports_what_goes_wrong() {
    let facts = with_kind("/tmp", PathKind::Directory);
    let plan = plan_ls(&object(&[("path", "/tmp"), ("flags", "la")]), &linux(), &facts).expect("ls");
    assert_eq!(plan.arguments, vec!["-al", "/tmp"]);
    assert_eq!(
        finish_command(&plan, wrote(0, " \n", "")),
        Ok("ls -al /tmp\n\n(empty directory)".to_string()),
    );
    assert_eq!(
        finish_command(&plan, wrote(2, "", "no access\n")),
        Err("ls failed for ls -al /tmp: no access".to_string()),
    );
    assert_eq!(
        finish_command(&plan, wrote(2, "", "")),
        Err("ls failed for ls -al /tmp".to_string()),
    );
    assert_eq!(
        finish_command(&plan, Err("no such program".to_string())),
        Err("Could not run ls: no such program".to_string()),
    );
    assert_eq!(
        plan_ls(&object(&[("path", "/tmp"), ("flags", "z")]), &linux(), &facts).unwrap_err(),
        "Unsupported ls flag: z. Only a, l, and R are supported.",
    );
    let file = with_kind("/tmp", PathKind::File);
    assert_eq!(
        plan_ls(&object(&[("path", "/tmp")]), &linux(), &file).unwrap_err(),
        wrong_path_type_error("directory", "/tmp"),
    );
    assert_eq!(
        plan_ls(&object(&[("path", "/nowhere")]), &linux(), &facts).unwrap_err(),
        missing_path_error("Directory", "/nowhere"),
    );
    let windows = on(false, OperatingSystem::Windows);
    assert_eq!(
        plan_ls(&object(&[("path", "/tmp")]), &windows, &facts).unwrap_err(),
        "The ls tool is only available on Linux and macOS.",
    );
}

#[test]
fn cat_errors_when_file_missing() {
    let arguments = object(&[("path", "/tmp/pairllm-definitely-missing-file")]);
    let result = plan_cat(&arguments, &linux(), &FileFacts::new());
    assert!(result.is_err());
    let err = result.unwrap_err();
    assert!(err.contains("File does not exist"));
    assert!(err.contains("try again"));
}

#[test]
fn cat_reads_file() {
    let plan = cat(&[("path", "/tmp/sample.txt")]);
    assert_eq!(plan.program, "cat");
    assert_eq!(plan.arguments, vec!["/tmp/sample.txt"]);
    let result = finish_command(&plan, wrote(0, "hello world\n", "")).expect("cat");
    assert!(result.starts_with("cat "));
    assert!(result.contains("hello world"));
}

#[test]
fn cat_filters_lines_with_pattern() {
    let plan = cat(&[("path", "/tmp/sample.txt"), ("pattern", "alpha")]);
    assert_eq!(plan.program, "grep");
    assert_eq!(plan.arguments, vec!["alpha", "/tmp/sample.txt"]);
    let result = finish_command(&plan, wrote(0, "alpha\nalpha again\n", "")).expect("cat");
    assert!(result.starts_with("grep 'alpha' "));
    assert!(result.contains("alpha"));
    assert!(result.contains("alpha again"));
    assert!(!result.contains("beta line"));
    assert!(!result.contains("gamma"));

    let missing = cat(&[("path", "/tmp/sample.txt"), ("pattern", "missing")]);
    let no_match = finish_command(&missing, wrote(1, "", "")).expect("cat with pattern");
    assert!(no_match.contains("(no matching lines)"));

    let numbered_plan = cat(&[("path", "/tmp/sample.txt"), ("pattern", "alpha"), ("flags", "n")]);
    assert_eq!(numbered_plan.arguments, vec!["-n", "alpha", "/tmp/sample.txt"]);
    let numbered = finish_command(&numbered_plan, wrote(0, "1:alpha\n3:alpha again\n", ""))
        .expect("cat with pattern and line numbers");
    assert!(numbered.starts_with("grep -n 'alpha' "));
    assert!(numbered.contains("1:alpha"));
    assert!(numbered.contains("3:alpha again"));

    let full_plan = cat(&[("path", "/tmp/sample.txt"), ("flags", "n")]);
    let numbered_full = finish_command(&full_plan, wrote(0, "1\talpha\n2\tbeta line\n", ""))
        .expect("cat -n");
    assert!(numbered_full.starts_with("cat -n "));
    assert!(numbered_full.contains("1\talpha"));
    assert!(numbered_full.contains("2\tbeta line"));
}

#[test]
fn cat_reports_what_goes_wrong() {
    let plan = cat(&[("path", "/tmp/sample.txt")]);
    assert_eq!(
        finish_command(&plan, wrote(0, "", "")),
        Ok("cat /tmp/sample.txt\n\n(empty file)".to_string()),
    );
    assert_eq!(
        finish_command(&plan, wrote(1, "", " denied ")),
        Err("cat /tmp/sample.txt failed: denied".to_string()),
    );
    let grep = cat(&[("path", "/tmp/sample.txt"), ("pattern", "[")]);
    assert_eq!(grep.kind, CommandKind::Grep);
    assert_eq!(
        finish_command(&grep, wrote(2, "", "bad pattern")),
        Err("grep '[' /tmp/sample.txt failed: bad pattern".to_string()),
    );
    assert_eq!(
        finish_command(&grep, wrote(1, "", "bad pattern")),
        Err("grep '[' /tmp/sample.txt failed: bad pattern".to_string()),
    );
    let facts = with_kind("/tmp/sample.txt", PathKind::File);
    let flags = object(&[("path", "/tmp/sample.txt"), ("flags", "q")]);
    assert_eq!(
        plan_cat(&flags, &linux(), &facts).unwrap_err(),
        "Unsupported cat flag: q. Only n is supported.",
    );
}

#[test]
fn long_output_is_cut() {
    let plan = cat(&[("path", "/tmp/sample.txt")]);
    let long = "x".repeat(9000);
    let result = finish_command(&plan, wrote(0, &long, "")).expect("cat");
    assert_eq!(result.chars().count(), 8001);
    assert!(result.ends_with("x…"));
}

#[test]
fn sed_replaces_text_in_file() {
    let facts = with_kind("/tmp/sample.txt", PathKind::File);
    let arguments = object(&[("path", "/tmp/sample.txt"), ("expression", "s/old/new/")]);
    let plan = plan_sed(&arguments, &linux(), &facts).expect("sed");
    assert_eq!(plan.program, "sed");
    assert_eq!(plan.arguments, vec!["-i", "s/old/new/", "/tmp/sample.txt"]);
    let result = finish_command(&plan, wrote(0, "", "")).expect("sed");
    assert!(result.contains("sed -i 's/old/new/'"));
    let mac = on(true, OperatingSystem::MacOs);
    let plan = plan_sed(&arguments, &mac, &facts).expect("sed");
    assert_eq!(plan.arguments, vec!["-i", "", "s/old/new/", "/tmp/sample.txt"]);
}

#[test]
fn sed_errors_when_file_missing() {
    let arguments = object(&[
        ("path", "/tmp/pairllm-definitely-missing-file"),
        ("expression", "s/old/new/"),
    ]);
    let result = plan_sed(&arguments, &linux(), &FileFacts::new());
    assert!(result.is_err());
    let err = result.unwrap_err();
    assert!(err.contains("File does not exist"));
    assert!(err.contains("try again"));
}

#[test]
fn kinds_of_paths_are_checked() {
    assert_eq!(require_file_exists("/f", PathKind::File), Ok(()));
    assert_eq!(
        require_file_exists("/f", PathKind::Directory),
        Err("Path is not a file: /f. Check the path and try again.".to_string()),
    );
    assert_eq!(
        require_file_exists("/f", PathKind::Missing),
        Err(
            "File does not exist: /f. Verify the path and try again — use ls on the parent \
             directory if you need to find the correct name."
                .to_string(),
        ),
    );
    assert_eq!(require_directory_exists("/d", PathKind::Directory), Ok(()));
    assert!(require_directory_exists("/d", PathKind::Other).is_err());
}

#[test]
fn shell_commands_are_reported() {
    assert_eq!(shell_command("  date "), Ok("date".to_string()));
    assert_eq!(shell_command(" \n"), Err("Command is empty.".to_string()));
    let unix = Platform { unix: true, system: OperatingSystem::Linux };
    let other = Platform { unix: false, system: OperatingSystem::Windows };
    assert_eq!(
        run_shell("date", unix),
        ("sh".to_string(), vec!["-c".to_string(), "date".to_string()]),
    );
    assert_eq!(
        run_shell("date", other),
        ("cmd".to_string(), vec!["/C".to_string(), "date".to_string()]),
    );
    assert_eq!(
        execute_shell_command("x", wrote(3, "out\n\n", "err\n")),
        Ok("Exit code: 3\n\nstdout:\nout\n\nstderr:\nerr\n".to_string()),
    );
    assert_eq!(
        execute_shell_command("x", wrote(0, "", "")),
        Ok("Exit code: 0\n\n(no output)\n".to_string()),
    );
    let killed = ProcessOutput { code: None, stdout: String::new(), stderr: String::new() };
    assert_eq!(
        execute_shell_command("x", Ok(killed)),
        Ok("Exit code: -1\n\n(no output)\n".to_string()),
    );
    assert_eq!(
        execute_shell_command("x", Err("no shell".to_string())),
        Err("Failed to run command: no shell".to_string()),
    );
    assert_eq!(
        execute_shell_command(" ", wrote(0, "", "")),
        Err("Command is empty.".to_string()),
    );
}

#[test]
fn expands_tilde_in_path() {
    let home = Some("/home/ada");
    assert_eq!(
        expand_tilde("~/target.txt", home).expect("expand"),
        "/home/ada/target.txt",
    );
    assert_eq!(expand_tilde("~", home).expect("expand"), "/home/ada");
    assert_eq!(expand_tilde("/etc/hosts", home).expect("expand"), "/etc/hosts");
}

#[test]
fn tilde_stays_below_the_home_directory() {
    let home = Some("/home/u");
    assert_eq!(expand_tilde("~//etc/hosts", home), Ok("/home/u/etc/hosts".to_string()));
    assert_eq!(expand_tilde("~///x", Some("/home/u/")), Ok("/home/u/x".to_string()));
    assert_eq!(expand_tilde("~/", home), Ok("/home/u/".to_string()));
}

#[test]
fn tilde_needs_a_home() {
    assert!(expand_tilde("~", None).is_err());
    assert!(expand_tilde("~/a", None).is_err());
    assert_eq!(expand_tilde("~ada", None), Ok("~ada".to_string()));
    assert_eq!(expand_tilde("a", None), Ok("a".to_string()));
    assert_eq!(join_path("/home/ada", "x"), "/home/ada/x");
    assert_eq!(join_path("/home/ada/", "x"), "/home/ada/x");
    assert_eq!(join_path("/home/ada", "/x"), "/x");
}

#[test]
fn paths_are_normalized_by_names() {
    let nothing = FileFacts::new();
    assert_eq!(normalize_path("/a/./b/../c//d/", &nothing).to_text(), "/a/c/d");
    assert_eq!(normalize_path("/..", &nothing).to_text(), "/");
    let once = normalize_path("/a/b/../../x/.", &nothing).to_text();
    assert_eq!(normalize_path(&once, &nothing).to_text(), once);
    for text in ["", ".", "..", "a/../b", "a/..", "./~/f"] {
        let once = normalize_path(text, &nothing);
        assert_eq!(normalize_path(&once.to_text(), &nothing).to_text(), once.to_text());
    }
    assert_eq!(normalize_path("a/../b", &nothing).to_text(), "b");
}

#[test]
fn paths_are_resolved_where_they_exist() {
    let mut facts = FileFacts::new();
    facts.add_canonical("/tmp/link".to_string(), "/data/real".to_string());
    assert_eq!(normalize_path("/tmp/link", &facts).to_text(), "/data/real");
    facts.add_canonical("/tmp/link".to_string(), "/data/other".to_string());
    assert_eq!(normalize_path("/tmp/link", &facts).to_text(), "/data/other");
    assert_eq!(facts.canonical_text("/tmp/none"), None);
    let normal = normalize_path_str("~/../x", Some("/home/ada"), &facts).expect("normal");
    assert_eq!(normal.to_text(), "/home/x");
}

#[test]
fn missing_paths_go_on_from_what_is_found() {
    let mut facts = FileFacts::new();
    facts.add_canonical("/w/link".to_string(), "/data/real".to_string());
    facts.add_canonical("/data/real/inner".to_string(), "/data/deep".to_string());
    assert_eq!(normalize_path("/w/link/new", &facts).to_text(), "/data/real/new");
    assert_eq!(normalize_path("/w/link/../new", &facts).to_text(), "/data/new");
    assert_eq!(normalize_path("/w/link/inner/new", &facts).to_text(), "/data/deep/new");
    assert_eq!(normalize_path("/w/missing/../link/new", &facts).to_text(), "/data/real/new");
    let lookups = path_lookups("/w/link/new", &facts);
    assert!(lookups.iter().any(|text| text == "/w/link"));
    assert!(lookups.iter().any(|text| text == "/data/real/new"));
    assert_eq!(path_lookups("", &facts), vec![""]);
}

#[test]
fn paths_contain_each_other() {
    let base = FilePath::parse("/home/ada");
    let file = FilePath::parse("/home/ada/x");
    let near = FilePath::parse("/home/adam");
    assert!(is_under_or_equal(&file, &base));
    assert!(is_under_or_equal(&base, &base));
    assert!(!is_under_or_equal(&near, &base));
    assert!(!is_under_or_equal(&base, &file));
    assert!(same_path(&file.parent().unwrap(), &base));
    assert_eq!(path_depth(&file), 4);
    assert!(FilePath::parse("/").parent().is_none());
}

#[test]
fn plain_paths_are_read_back_from_their_text() {
    for text in ["/", "/a", "/a/b.txt", "a/b", ""] {
        let path = FilePath::parse(text);
        assert_eq!(path.to_text(), text);
        assert!(same_path(&FilePath::parse(&path.to_text()), &path));
        assert!(same_path(&path.clone(), &path));
    }
}
