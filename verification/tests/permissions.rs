use pairllm::path::{FileFacts, FilePath, PathKind};
use pairllm::permissions::{
    check_path_permission, file_access_for_tool, is_allowed_beneath, is_file_permission_tool,
    permission_directory_for_target, permission_lookups, FileAccess, FilePermissionChoice,
    PathPermission, PathPermissionRule, PathPermissionState, PermissionCheck,
};

fn rule(path: &str, permission: PathPermission) -> PathPermissionRule {
    PathPermissionRule { path: path.to_string(), permission }
}

fn persistent(rules: Vec<PathPermissionRule>) -> PathPermissionState {
    PathPermissionState { persistent: rules, session: vec![] }
}

fn existing(directories: &[&str]) -> FileFacts {
    let mut facts = FileFacts::new();
    for directory in directories {
        facts.add_canonical(directory.to_string(), directory.to_string());
        facts.add_kind(directory.to_string(), PathKind::Directory);
    }
    facts
}

#[test]
fn deny_in_subdirectory_overrides_parent_allow() {
    let home = "/home/ada";
    let state = persistent(vec![
        rule(home, PathPermission::AllowRecursive),
        rule("/home/ada/.ssh", PathPermission::Deny),
    ]);
    let facts = existing(&[home]);
    assert_eq!(
        check_path_permission("/home/ada/.ssh/id_rsa", &state, Some(home), &facts),
        PermissionCheck::Denied,
    );
    let swapped = persistent(vec![
        rule("~/.ssh", PathPermission::Deny),
        rule("~", PathPermission::AllowRecursive),
    ]);
    assert_eq!(
        check_path_permission("/home/ada/.ssh/id_rsa", &swapped, Some(home), &facts),
        PermissionCheck::Denied,
    );
    assert_eq!(
        check_path_permission("/home/ada/notes", &swapped, Some(home), &facts),
        PermissionCheck::Allowed,
    );
}

#[test]
fn allow_directory_does_not_cover_subdirectories() {
    let dir = "/tmp/pairllm-perm";
    let facts = existing(&[dir, "/tmp/pairllm-perm/nested"]);
    let state = persistent(vec![rule(dir, PathPermission::AllowDirectory)]);
    assert_eq!(check_path_permission(dir, &state, None, &facts), PermissionCheck::Allowed);
    assert_eq!(
        check_path_permission("/tmp/pairllm-perm/file.txt", &state, None, &facts),
        PermissionCheck::Allowed,
    );
    assert_eq!(
        check_path_permission("/tmp/pairllm-perm/nested", &state, None, &facts),
        PermissionCheck::NeedsPrompt,
    );
    assert_eq!(
        check_path_permission("/tmp/pairllm-perm/nested/file.txt", &state, None, &facts),
        PermissionCheck::NeedsPrompt,
    );
}

#[test]
fn allow_recursive_covers_descendants() {
    let dir = "/tmp/pairllm-perm-rec";
    let facts = existing(&[dir, "/tmp/pairllm-perm-rec/nested"]);
    let state = persistent(vec![rule(dir, PathPermission::AllowRecursive)]);
    assert_eq!(
        check_path_permission("/tmp/pairllm-perm-rec/nested/file.txt", &state, None, &facts),
        PermissionCheck::Allowed,
    );
}

#[test]
fn session_rule_can_allow_after_prompt() {
    let dir = "/tmp/pairllm-perm-session";
    let facts = existing(&[dir]);
    let mut state = PathPermissionState::default();
    assert_eq!(
        check_path_permission("/tmp/pairllm-perm-session/file.txt", &state, None, &facts),
        PermissionCheck::NeedsPrompt,
    );
    state.add_session_rule(rule(dir, PathPermission::AllowDirectory));
    assert_eq!(
        check_path_permission("/tmp/pairllm-perm-session/file.txt", &state, None, &facts),
        PermissionCheck::Allowed,
    );
}

#[test]
fn permission_directory_uses_parent_for_files() {
    let path = FilePath::parse("/tmp/example/file.txt");
    let directory = permission_directory_for_target(&path, false);
    assert_eq!(directory.to_text(), "/tmp/example");
    assert_eq!(permission_directory_for_target(&path, true).to_text(), "/tmp/example/file.txt");
    let root = FilePath::parse("/");
    assert_eq!(permission_directory_for_target(&root, false).to_text(), "/");
}

#[test]
fn choices_settle_questions() {
    let facts = existing(&["/work"]);
    let choices = [
        (FilePermissionChoice::AllowDirectory, PermissionCheck::Allowed),
        (FilePermissionChoice::AllowRecursive, PermissionCheck::Allowed),
        (FilePermissionChoice::Reject, PermissionCheck::Denied),
    ];
    for (choice, check) in choices {
        let mut state = persistent(vec![rule("/home", PathPermission::Deny)]);
        assert_eq!(
            check_path_permission("/work/a", &state, None, &facts),
            PermissionCheck::NeedsPrompt,
        );
        state.add_session_rule(choice.to_rule("/work"));
        assert_eq!(check_path_permission("/work/a", &state, None, &facts), check);
    }
}

#[test]
fn first_of_equal_rules_counts() {
    let facts = existing(&["/work"]);
    let state = persistent(vec![
        rule("/work", PathPermission::Deny),
        rule("/work/", PathPermission::AllowRecursive),
    ]);
    assert_eq!(check_path_permission("/work/a", &state, None, &facts), PermissionCheck::Denied);
}

#[test]
fn rules_without_a_home_cover_nothing() {
    let state = persistent(vec![rule("~", PathPermission::AllowRecursive)]);
    let facts = FileFacts::new();
    assert_eq!(
        check_path_permission("/home/ada/x", &state, None, &facts),
        PermissionCheck::NeedsPrompt,
    );
    let lookups = permission_lookups("/x", &state, None, &facts);
    assert_eq!(lookups, vec!["/x", ".", "/", "/", "/x", "/x"]);
    let more = permission_lookups("/x", &state, Some("/h"), &facts);
    assert_eq!(more[lookups.len()..], ["/h", ".", "/", "/", "/h", "/h"]);
}

#[test]
fn checks_follow_links() {
    let mut facts = existing(&["/work"]);
    facts.add_canonical("/work/link".to_string(), "/secret/file".to_string());
    let state = persistent(vec![rule("/work", PathPermission::AllowRecursive)]);
    assert_eq!(
        check_path_permission("/work/link", &state, None, &facts),
        PermissionCheck::NeedsPrompt,
    );
}

#[test]
fn rules_are_kept_in_order() {
    let mut state = PathPermissionState::default();
    state.add_session_rule(rule("/s", PathPermission::Deny));
    state.add_persistent_rule(rule("/p", PathPermission::AllowDirectory));
    let paths: Vec<String> = state.all_rules().iter().map(|rule| rule.path.clone()).collect();
    assert_eq!(paths, vec!["/p", "/s"]);
    let copy = state.clone();
    state.sync_persistent(&[rule("/q", PathPermission::AllowRecursive)]);
    assert_eq!(state.persistent, vec![rule("/q", PathPermission::AllowRecursive)]);
    assert_eq!(state.session, vec![rule("/s", PathPermission::Deny)]);
    assert_eq!(copy.persistent, vec![rule("/p", PathPermission::AllowDirectory)]);
}

#[test]
fn tools_and_choices_have_words() {
    assert_eq!(file_access_for_tool("ls"), Some(FileAccess::Read));
    assert_eq!(file_access_for_tool("cat"), Some(FileAccess::Read));
    assert_eq!(file_access_for_tool("sed"), Some(FileAccess::Write));
    assert_eq!(file_access_for_tool("run_command"), None);
    assert!(is_file_permission_tool("sed"));
    assert!(!is_file_permission_tool("web_search"));
    assert_eq!(FileAccess::Read.label(), "read");
    assert_eq!(FileAccess::Write.label(), "write");
    assert_eq!(PathPermission::AllowDirectory.label(), "Allow directory");
    assert_eq!(PathPermission::AllowRecursive.label(), "Allow recursively");
    assert_eq!(PathPermission::Deny.label(), "Deny");
    assert_eq!(
        FilePermissionChoice::AllowDirectory.session_status(),
        "Allowed for this directory (this session only)",
    );
    assert_eq!(
        FilePermissionChoice::AllowRecursive.session_status(),
        "Allowed recursively (this session only)",
    );
    assert_eq!(FilePermissionChoice::Reject.session_status(), "Rejected (this session only)");
    assert_eq!(FilePermissionChoice::Reject.to_rule("/d"), rule("/d", PathPermission::Deny));
}

#[test]
fn permissions_reach_beneath() {
    let facts = existing(&["/d"]);
    let beneath = |rules: Vec<PathPermissionRule>| {
        is_allowed_beneath("/d", &persistent(rules), None, &facts)
    };
    let directory_only = || rule("/d", PathPermission::AllowDirectory);
    let recursive = || rule("/d", PathPermission::AllowRecursive);
    let denial = || rule("/d/x", PathPermission::Deny);
    assert!(!beneath(vec![]));
    assert!(!beneath(vec![directory_only()]));
    assert!(beneath(vec![recursive()]));
    assert!(beneath(vec![directory_only(), recursive()]));
    assert!(beneath(vec![rule("/", PathPermission::AllowRecursive), directory_only()]));
    assert!(!beneath(vec![rule("/", PathPermission::Deny), directory_only()]));
    assert!(beneath(vec![rule("/", PathPermission::Deny), recursive()]));
    assert!(!beneath(vec![recursive(), denial()]));
    assert!(!beneath(vec![denial(), recursive()]));
    assert!(beneath(vec![recursive(), rule("/d/x", PathPermission::AllowRecursive), denial()]));
    assert!(!beneath(vec![recursive(), rule("/d/x", PathPermission::AllowDirectory), denial()]));
    assert!(!beneath(vec![rule("/d", PathPermission::Deny), recursive()]));
    assert!(beneath(vec![recursive(), rule("/d", PathPermission::Deny)]));
}

#[test]
fn added_rules_change_only_what_they_cover() {
    let facts = existing(&["/d", "/e"]);
    let mut state = persistent(vec![rule("/d", PathPermission::AllowRecursive)]);
    let check = |path: &str, state: &PathPermissionState| {
        check_path_permission(path, state, None, &facts)
    };
    state.add_session_rule(rule("/e", PathPermission::Deny));
    assert_eq!(check("/d/a", &state), PermissionCheck::Allowed);
    assert_eq!(check("/e/a", &state), PermissionCheck::Denied);
    assert_eq!(check("/f/a", &state), PermissionCheck::NeedsPrompt);
}

#[test]
fn checks_read_no_more_than_they_look_up() {
    let state = persistent(vec![rule("/work", PathPermission::AllowDirectory)]);
    let facts = existing(&["/work"]);
    let mut more = existing(&["/work", "/elsewhere"]);
    more.add_canonical("/other".to_string(), "/work/a".to_string());
    let lookups = permission_lookups("/work/a", &state, None, &facts);
    assert!(lookups.iter().any(|text| text == "/work"));
    assert!(!lookups.iter().any(|text| text == "/elsewhere" || text == "/other"));
    assert_eq!(
        check_path_permission("/work/a", &state, None, &facts),
        check_path_permission("/work/a", &state, None, &more),
    );
}

#[test]
fn rules_on_links_cover_missing_files() {
    let mut facts = existing(&["/w", "/w/real"]);
    facts.add_canonical("/w/link".to_string(), "/w/real".to_string());
    facts.add_kind("/w/link".to_string(), PathKind::Directory);
    let check = |permission, target| {
        let state = persistent(vec![rule("/w/link", permission)]);
        check_path_permission(target, &state, None, &facts)
    };
    let missing = "/w/link/new.txt";
    let deeper = "/w/link/sub/new.txt";
    assert_eq!(check(PathPermission::AllowRecursive, missing), PermissionCheck::Allowed);
    assert_eq!(check(PathPermission::AllowRecursive, deeper), PermissionCheck::Allowed);
    assert_eq!(check(PathPermission::Deny, missing), PermissionCheck::Denied);
    assert_eq!(check(PathPermission::Deny, "/w/real/new.txt"), PermissionCheck::Denied);
    assert_eq!(check(PathPermission::AllowDirectory, missing), PermissionCheck::Allowed);
    assert_eq!(check(PathPermission::AllowDirectory, deeper), PermissionCheck::NeedsPrompt);
}

#[test]
fn answers_on_links_are_not_asked_for_again() {
    let mut facts = existing(&["/w", "/w/real"]);
    facts.add_canonical("/w/link".to_string(), "/w/real".to_string());
    let mut state = PathPermissionState::default();
    let target = "/w/link/new.txt";
    assert_eq!(
        check_path_permission(target, &state, None, &facts),
        PermissionCheck::NeedsPrompt,
    );
    state.add_session_rule(FilePermissionChoice::Reject.to_rule("/w/link"));
    assert_eq!(check_path_permission(target, &state, None, &facts), PermissionCheck::Denied);
}

#[test]
fn relative_targets_lie_in_the_working_directory() {
    let mut facts = existing(&["/work"]);
    facts.add_canonical(".".to_string(), "/work".to_string());
    facts.add_canonical("..".to_string(), "/".to_string());
    let state = persistent(vec![rule("/work", PathPermission::AllowRecursive)]);
    let check = |target| check_path_permission(target, &state, None, &facts);
    assert_eq!(check("new.txt"), PermissionCheck::Allowed);
    assert_eq!(check("./sub/new.txt"), PermissionCheck::Allowed);
    assert_eq!(check("../new.txt"), PermissionCheck::NeedsPrompt);
    assert_eq!(check("../work/new.txt"), PermissionCheck::Allowed);
}
