//! Which files the assistant's file tools may touch.
//!
//! The user's decisions are kept as rules on directories. Of the rules that cover a file, the one
//! with the most specific path decides; where none does, the user is asked.
use vstd::prelude::*;

use crate::path::{
    expand_tilde, expanded, is_under_or_equal, missing_names_lie_beneath, names_path,
    normalize_path, normalize_path_str, normalized, normalized_is_settled, parent_of, path_depth,
    path_depends_on_lookups, path_lookups, path_text, path_texts, plain_name, plain_path,
    root_starts_text, same_path, settled_above, settled_stands_for_itself, text_of_plain_path,
    walked, ComponentView, FileFacts, FilePath, PathKind,
};
use crate::text::{option_view, same_text, views};

verus! {

/// What a tool does to files.
#[derive(Debug, Clone, Copy, PartialEq, Eq, Structural)]
pub enum FileAccess {
    Read,
    Write,
}

/// What a rule says of the files that it covers.
#[derive(Debug, Clone, Copy, PartialEq, Eq, Structural)]
pub enum PathPermission {
    AllowDirectory,
    AllowRecursive,
    Deny,
}

/// A permission for a directory.
#[derive(Debug, PartialEq, Eq)]
pub struct PathPermissionRule {
    pub path: String,
    pub permission: PathPermission,
}

/// The rules in force: those that are saved, and those of this session.
#[derive(Debug)]
pub struct PathPermissionState {
    pub persistent: Vec<PathPermissionRule>,
    pub session: Vec<PathPermissionRule>,
}

/// What the rules say of a file.
#[derive(Debug, Clone, Copy, PartialEq, Eq, Structural)]
pub enum PermissionCheck {
    Allowed,
    Denied,
    NeedsPrompt,
}

/// The user's answer to a question for access.
#[derive(Debug, Clone, Copy, PartialEq, Eq, Structural)]
pub enum FilePermissionChoice {
    AllowDirectory,
    AllowRecursive,
    Reject,
}

/// A rule in mathematical terms: the path that it is for, if it has one, and what it says.
pub struct ResolvedRule {
    pub path: Option<Seq<ComponentView>>,
    pub permission: PathPermission,
}

impl FileAccess {
    /// The access as a word.
    pub open spec fn word(self) -> Seq<char> {
        match self {
            FileAccess::Read => "read"@,
            FileAccess::Write => "write"@,
        }
    }

    /// The access as a word.
    pub fn label(&self) -> (label: &'static str)
        ensures
            label@ == self.word(),
    {
        match self {
            FileAccess::Read => "read",
            FileAccess::Write => "write",
        }
    }
}

impl PathPermission {
    /// The permission in words.
    pub fn label(&self) -> (label: &'static str)
        ensures
            label@ == match self {
                PathPermission::AllowDirectory => "Allow directory"@,
                PathPermission::AllowRecursive => "Allow recursively"@,
                PathPermission::Deny => "Deny"@,
            },
    {
        match self {
            PathPermission::AllowDirectory => "Allow directory",
            PathPermission::AllowRecursive => "Allow recursively",
            PathPermission::Deny => "Deny",
        }
    }
}

impl Clone for PathPermissionRule {
    fn clone(&self) -> (copy: Self)
        ensures
            copy == *self,
    {
        PathPermissionRule { path: self.path.clone(), permission: self.permission }
    }
}

/// Copies of the rules.
pub fn copy_rules(rules: &[PathPermissionRule]) -> (copies: Vec<PathPermissionRule>)
    ensures
        copies@ == rules@,
{
    let mut copies: Vec<PathPermissionRule> = Vec::new();
    let mut i: usize = 0;
    while i < rules.len()
        invariant
            i <= rules@.len(),
            copies@ == rules@.take(i as int),
        decreases rules@.len() - i,
    {
        copies.push(rules[i].clone());
        i += 1;
    }
    copies
}

impl Default for PathPermissionState {
    fn default() -> (state: Self)
        ensures
            state.persistent@ == Seq::<PathPermissionRule>::empty(),
            state.session@ == Seq::<PathPermissionRule>::empty(),
    {
        PathPermissionState { persistent: Vec::new(), session: Vec::new() }
    }
}

impl Clone for PathPermissionState {
    fn clone(&self) -> (copy: Self)
        ensures
            copy.persistent@ == self.persistent@,
            copy.session@ == self.session@,
    {
        PathPermissionState {
            persistent: copy_rules(self.persistent.as_slice()),
            session: copy_rules(self.session.as_slice()),
        }
    }
}

impl PathPermissionState {
    /// All rules in force, the saved ones first.
    pub open spec fn rules(self) -> Seq<PathPermissionRule> {
        self.persistent@ + self.session@
    }

    /// All rules in force, the saved ones first.
    pub fn all_rules(&self) -> (rules: Vec<&PathPermissionRule>)
        ensures
            rules@.map_values(|rule: &PathPermissionRule| *rule) == self.rules(),
    {
        let mut rules: Vec<&PathPermissionRule> = Vec::new();
        let mut i: usize = 0;
        while i < self.persistent.len()
            invariant
                i <= self.persistent@.len(),
                rules@.map_values(|rule: &PathPermissionRule| *rule) == self.rules().take(i as int),
            decreases self.persistent@.len() - i,
        {
            let ghost before = rules@.map_values(|rule: &PathPermissionRule| *rule);
            rules.push(&self.persistent[i]);
            assert(rules@.map_values(|rule: &PathPermissionRule| *rule) =~= before.push(
                self.persistent@[i as int],
            ));
            assert(self.rules().take(i + 1) =~= before.push(self.persistent@[i as int]));
            i += 1;
        }
        let mut k: usize = 0;
        while k < self.session.len()
            invariant
                k <= self.session@.len(),
                rules@.map_values(|rule: &PathPermissionRule| *rule) == self.rules().take(
                    self.persistent@.len() + k,
                ),
            decreases self.session@.len() - k,
        {
            let ghost before = rules@.map_values(|rule: &PathPermissionRule| *rule);
            rules.push(&self.session[k]);
            assert(rules@.map_values(|rule: &PathPermissionRule| *rule) =~= before.push(
                self.session@[k as int],
            ));
            assert(self.rules().take(self.persistent@.len() + k + 1) =~= before.push(
                self.session@[k as int],
            ));
            k += 1;
        }
        assert(self.rules().take(self.rules().len() as int) =~= self.rules());
        rules
    }

    /// Adds a rule for this session.
    pub fn add_session_rule(&mut self, rule: PathPermissionRule)
        ensures
            final(self).session@ == old(self).session@.push(rule),
            final(self).persistent@ == old(self).persistent@,
    {
        self.session.push(rule);
    }

    /// Adds a saved rule.
    pub fn add_persistent_rule(&mut self, rule: PathPermissionRule)
        ensures
            final(self).persistent@ == old(self).persistent@.push(rule),
            final(self).session@ == old(self).session@,
    {
        self.persistent.push(rule);
    }

    /// Makes the saved rules those of `rules`.
    pub fn sync_persistent(&mut self, rules: &[PathPermissionRule])
        ensures
            final(self).persistent@ == rules@,
            final(self).session@ == old(self).session@,
    {
        self.persistent = copy_rules(rules);
    }
}

impl FilePermissionChoice {
    /// What a choice lets the rules say.
    pub open spec fn permission(self) -> PathPermission {
        match self {
            FilePermissionChoice::AllowDirectory => PathPermission::AllowDirectory,
            FilePermissionChoice::AllowRecursive => PathPermission::AllowRecursive,
            FilePermissionChoice::Reject => PathPermission::Deny,
        }
    }

    /// The rule that the choice makes for a directory.
    pub fn to_rule(self, directory: &str) -> (rule: PathPermissionRule)
        ensures
            rule.path@ == directory@,
            rule.permission == self.permission(),
    {
        PathPermissionRule {
            path: directory.to_owned(),
            permission: match self {
                FilePermissionChoice::AllowDirectory => PathPermission::AllowDirectory,
                FilePermissionChoice::AllowRecursive => PathPermission::AllowRecursive,
                FilePermissionChoice::Reject => PathPermission::Deny,
            },
        }
    }

    /// The choice in words, as it holds for this session.
    pub fn session_status(&self) -> (status: &'static str)
        ensures
            status@ == match self {
                FilePermissionChoice::AllowDirectory =>
                    "Allowed for this directory (this session only)"@,
                FilePermissionChoice::AllowRecursive => "Allowed recursively (this session only)"@,
                FilePermissionChoice::Reject => "Rejected (this session only)"@,
            },
    {
        match self {
            FilePermissionChoice::AllowDirectory => {
                "Allowed for this directory (this session only)"
            },
            FilePermissionChoice::AllowRecursive => { "Allowed recursively (this session only)" },
            FilePermissionChoice::Reject => "Rejected (this session only)",
        }
    }
}

/// What the tool of a name does to files, if it is a file tool.
pub open spec fn access_of(tool_name: Seq<char>) -> Option<FileAccess> {
    if tool_name == "ls"@ || tool_name == "cat"@ {
        Some(FileAccess::Read)
    } else if tool_name == "sed"@ {
        Some(FileAccess::Write)
    } else {
        None
    }
}

/// What the tool of a name does to files, if it is a file tool.
pub fn file_access_for_tool(tool_name: &str) -> (access: Option<FileAccess>)
    ensures
        access == access_of(tool_name@),
{
    if same_text(tool_name, "ls") || same_text(tool_name, "cat") {
        Some(FileAccess::Read)
    } else if same_text(tool_name, "sed") {
        Some(FileAccess::Write)
    } else {
        None
    }
}

/// Whether the tool of a name needs permission for the files that it touches.
pub fn is_file_permission_tool(tool_name: &str) -> (is: bool)
    ensures
        is == access_of(tool_name@) is Some,
{
    file_access_for_tool(tool_name).is_some()
}

/// The directory that permission is asked for.
pub open spec fn permission_directory(
    target: Seq<ComponentView>,
    is_dir: bool,
) -> Seq<ComponentView> {
    if is_dir {
        target
    } else {
        match parent_of(target) {
            Some(parent) => parent,
            None => target,
        }
    }
}

/// The directory that permission is asked for: `target` itself where it is a directory, else the
/// path above it, if there is one.
pub fn permission_directory_for_target(target: &FilePath, is_dir: bool) -> (directory: FilePath)
    ensures
        directory@ == permission_directory(target@, is_dir),
{
    if is_dir {
        target.clone()
    } else {
        match target.parent() {
            Some(parent) => parent,
            None => target.clone(),
        }
    }
}

/// Whether a permission for `rule_path` covers `target`: one for a directory covers the directory
/// and the files in it, the others cover everything beneath.
pub open spec fn covers(
    rule_path: Seq<ComponentView>,
    permission: PathPermission,
    target: Seq<ComponentView>,
    is_dir: bool,
) -> bool {
    match permission {
        PathPermission::AllowDirectory => target == rule_path || (parent_of(target) == Some(
            rule_path,
        ) && !is_dir),
        _ => rule_path.is_prefix_of(target),
    }
}

/// A rule in mathematical terms. A rule whose path starts with `~` has none without a home.
pub open spec fn resolved_rule(
    rule: PathPermissionRule,
    home: Option<Seq<char>>,
    facts: FileFacts,
) -> ResolvedRule {
    ResolvedRule {
        path: match expanded(rule.path@, home) {
            Ok(text) => Some(normalized(text, facts)),
            Err(_) => None,
        },
        permission: rule.permission,
    }
}

/// Rules in mathematical terms.
pub open spec fn resolved_rules(
    rules: Seq<PathPermissionRule>,
    home: Option<Seq<char>>,
    facts: FileFacts,
) -> Seq<ResolvedRule> {
    rules.map_values(|rule: PathPermissionRule| resolved_rule(rule, home, facts))
}

impl ResolvedRule {
    /// Whether the rule covers `target`.
    pub open spec fn covers(self, target: Seq<ComponentView>, is_dir: bool) -> bool {
        match self.path {
            Some(path) => covers(path, self.permission, target, is_dir),
            None => false,
        }
    }

    /// How specific the rule is.
    pub open spec fn depth(self) -> nat {
        match self.path {
            Some(path) => path.len(),
            None => 0,
        }
    }
}

/// Whether the rule at `at` decides on `target`: it covers it, no rule that covers it is more
/// specific, and none before is as specific.
pub open spec fn decides(
    rules: Seq<ResolvedRule>,
    at: int,
    target: Seq<ComponentView>,
    is_dir: bool,
) -> bool {
    &&& 0 <= at < rules.len()
    &&& rules[at].covers(target, is_dir)
    &&& forall|i: int|
        0 <= i < rules.len() && (#[trigger] rules[i]).covers(target, is_dir) ==> {
            &&& rules[i].depth() <= rules[at].depth()
            &&& i < at ==> rules[i].depth() < rules[at].depth()
        }
}

/// What a permission means for a file that it is decisive for.
pub open spec fn check_of(permission: PathPermission) -> PermissionCheck {
    match permission {
        PathPermission::Deny => PermissionCheck::Denied,
        _ => PermissionCheck::Allowed,
    }
}

/// What rules say of `target`.
pub open spec fn rules_check(
    rules: Seq<ResolvedRule>,
    target: Seq<ComponentView>,
    is_dir: bool,
) -> PermissionCheck {
    if exists|at: int| decides(rules, at, target, is_dir) {
        check_of(rules[choose|at: int| decides(rules, at, target, is_dir)].permission)
    } else {
        PermissionCheck::NeedsPrompt
    }
}

/// Whether a path names a directory.
pub open spec fn is_directory(path: Seq<ComponentView>, facts: FileFacts) -> bool {
    facts.kind(path_text(path)) == PathKind::Directory
}

/// What the rules of `state` say of the path text `target`.
pub open spec fn permission_check(
    target: Seq<char>,
    state: PathPermissionState,
    home: Option<Seq<char>>,
    facts: FileFacts,
) -> PermissionCheck {
    let path = normalized(target, facts);
    rules_check(resolved_rules(state.rules(), home, facts), path, is_directory(path, facts))
}

/// Whether a permission for `rule_path` covers `target`.
pub fn rule_matches_target(
    rule_path: &FilePath,
    target: &FilePath,
    permission: PathPermission,
    is_dir: bool,
) -> (matches: bool)
    ensures
        matches == covers(rule_path@, permission, target@, is_dir),
{
    match permission {
        PathPermission::Deny => is_under_or_equal(target, rule_path),
        PathPermission::AllowRecursive => is_under_or_equal(target, rule_path),
        PathPermission::AllowDirectory => {
            same_path(target, rule_path) || (match target.parent() {
                Some(parent) => same_path(&parent, rule_path),
                None => false,
            } && !is_dir)
        },
    }
}

/// The rule that decides is the only one that does.
proof fn one_decides(
    rules: Seq<ResolvedRule>,
    at: int,
    target: Seq<ComponentView>,
    is_dir: bool,
)
    requires
        decides(rules, at, target, is_dir),
    ensures
        rules_check(rules, target, is_dir) == check_of(rules[at].permission),
{
    let chosen = choose|other: int| decides(rules, other, target, is_dir);
    assert(decides(rules, chosen, target, is_dir));
    assert(rules[at].covers(target, is_dir) && rules[chosen].covers(target, is_dir));
    assert(chosen == at);
}

/// A rule with the path that it is for, if it has one.
struct RulePath {
    path: Option<FilePath>,
    permission: PathPermission,
}

impl View for RulePath {
    type V = ResolvedRule;

    closed spec fn view(&self) -> ResolvedRule {
        ResolvedRule {
            path: match self.path {
                Some(path) => Some(path@),
                None => None,
            },
            permission: self.permission,
        }
    }
}

/// The models of rules.
spec fn rule_views(rules: Seq<RulePath>) -> Seq<ResolvedRule> {
    rules.map_values(|rule: RulePath| rule@)
}

/// The rules of `state`, each with the path that it is for.
fn resolve_rules(state: &PathPermissionState, home: Option<&str>, facts: &FileFacts) -> (rules: Vec<
    RulePath,
>)
    ensures
        rule_views(rules@) == resolved_rules(state.rules(), option_view(home), *facts),
{
    let all = state.all_rules();
    let ghost resolved = resolved_rules(state.rules(), option_view(home), *facts);
    let mut rules: Vec<RulePath> = Vec::new();
    let mut i: usize = 0;
    assert(rule_views(rules@) =~= resolved.take(0));
    while i < all.len()
        invariant
            i <= all@.len(),
            all@.map_values(|rule: &PathPermissionRule| *rule) == state.rules(),
            resolved == resolved_rules(state.rules(), option_view(home), *facts),
            rule_views(rules@) == resolved.take(i as int),
        decreases all@.len() - i,
    {
        let rule = all[i];
        let path = match normalize_path_str(rule.path.as_str(), home, facts) {
            Ok(path) => Some(path),
            Err(_) => None,
        };
        let ghost before = rule_views(rules@);
        let rule_path = RulePath { path, permission: rule.permission };
        proof {
            assert(state.rules()[i as int] == *rule);
            assert(rule_path@ == resolved[i as int]);
        }
        rules.push(rule_path);
        assert(rule_views(rules@) =~= before.push(rule_path@));
        assert(resolved.take(i + 1) =~= before.push(rule_path@));
        i += 1;
    }
    assert(resolved.take(i as int) =~= resolved);
    rules
}

/// What rules say of `path`.
fn check_rules(rules: &Vec<RulePath>, path: &FilePath, is_dir: bool) -> (check: PermissionCheck)
    ensures
        check == rules_check(rule_views(rules@), path@, is_dir),
{
    let ghost views = rule_views(rules@);
    let mut best: Option<(usize, PathPermission)> = None;
    let ghost mut best_at: int = 0;
    let mut i: usize = 0;
    while i < rules.len()
        invariant
            i <= rules@.len(),
            views == rule_views(rules@),
            match best {
                None => forall|j: int|
                    0 <= j < i ==> !(#[trigger] views[j]).covers(path@, is_dir),
                Some((depth, permission)) => {
                    &&& decides(views.take(i as int), best_at, path@, is_dir)
                    &&& depth == views[best_at].depth()
                    &&& permission == views[best_at].permission
                },
            },
        decreases rules@.len() - i,
    {
        let rule = &rules[i];
        proof {
            assert(views[i as int] == rule@);
            assert(forall|j: int| 0 <= j < i ==> views.take(i as int)[j] == views[j]);
            assert(forall|j: int| 0 <= j < i + 1 ==> views.take(i + 1)[j] == views[j]);
        }
        if let Some(rule_path) = &rule.path {
            if rule_matches_target(rule_path, path, rule.permission, is_dir) {
                let specificity = path_depth(rule_path);
                let better = match best {
                    Some((depth, _)) => specificity > depth,
                    None => true,
                };
                if better {
                    proof {
                        best_at = i as int;
                    }
                    best = Some((specificity, rule.permission));
                }
            }
        }
        proof {
            if best is Some {
                assert forall|j: int|
                    0 <= j < i + 1 && (#[trigger] views.take(i + 1)[j]).covers(
                        path@,
                        is_dir,
                    ) implies {
                    &&& views.take(i + 1)[j].depth() <= views.take(i + 1)[best_at].depth()
                    &&& j < best_at ==> views.take(i + 1)[j].depth() < views.take(
                        i + 1,
                    )[best_at].depth()
                } by {
                    if j < i {
                        assert(views.take(i as int)[j] == views[j]);
                    }
                }
                assert(decides(views.take(i + 1), best_at, path@, is_dir));
            }
        }
        i += 1;
    }
    assert(views.take(i as int) =~= views);
    match best {
        Some((_, permission)) => {
            proof {
                one_decides(views, best_at, path@, is_dir);
            }
            match permission {
                PathPermission::Deny => PermissionCheck::Denied,
                _ => PermissionCheck::Allowed,
            }
        },
        None => PermissionCheck::NeedsPrompt,
    }
}

/// What the rules of `state` say of `target`.
pub fn check_path_permission(
    target: &str,
    state: &PathPermissionState,
    home: Option<&str>,
    facts: &FileFacts,
) -> (check: PermissionCheck)
    ensures
        check == permission_check(target@, *state, option_view(home), *facts),
{
    let path = normalize_path(target, facts);
    let text = path.to_text();
    let is_dir = match facts.kind_of(text.as_str()) {
        PathKind::Directory => true,
        _ => false,
    };
    check_rules(&resolve_rules(state, home, facts), &path, is_dir)
}

/// Whether rules allow a directory and everything that lies or may come to lie beneath it.
pub open spec fn allowed_beneath(rules: Seq<ResolvedRule>, directory: Seq<ComponentView>) -> bool {
    forall|path: Seq<ComponentView>, is_dir: bool|
        directory.is_prefix_of(path) ==> #[trigger] rules_check(rules, path, is_dir)
            == PermissionCheck::Allowed
}

/// Whether the rules of `state` allow everything from the path text `target` on.
pub open spec fn beneath_allowed(
    target: Seq<char>,
    state: PathPermissionState,
    home: Option<Seq<char>>,
    facts: FileFacts,
) -> bool {
    allowed_beneath(resolved_rules(state.rules(), home, facts), normalized(target, facts))
}

/// What is left of a rule for all that lies beneath a path: nothing of a permission that is for a
/// directory only.
spec fn reach(rule: ResolvedRule) -> ResolvedRule {
    if rule.permission == PathPermission::AllowDirectory {
        ResolvedRule { path: None, permission: rule.permission }
    } else {
        rule
    }
}

/// What is left of rules for all that lies beneath a path.
spec fn reaches(rules: Seq<ResolvedRule>) -> Seq<ResolvedRule> {
    rules.map_values(|rule: ResolvedRule| reach(rule))
}

/// What is left of rules for all that lies beneath a path.
fn reaching_rules(rules: &Vec<RulePath>) -> (reaching: Vec<RulePath>)
    ensures
        rule_views(reaching@) == reaches(rule_views(rules@)),
{
    let ghost views = reaches(rule_views(rules@));
    let mut reaching: Vec<RulePath> = Vec::new();
    let mut i: usize = 0;
    assert(rule_views(reaching@) =~= views.take(0));
    while i < rules.len()
        invariant
            i <= rules@.len(),
            views == reaches(rule_views(rules@)),
            rule_views(reaching@) == views.take(i as int),
        decreases rules@.len() - i,
    {
        let rule = &rules[i];
        let path = match (&rule.path, rule.permission) {
            (_, PathPermission::AllowDirectory) => None,
            (Some(path), _) => Some(path.clone()),
            (None, _) => None,
        };
        let ghost before = rule_views(reaching@);
        let reaching_rule = RulePath { path, permission: rule.permission };
        assert(rule_views(rules@)[i as int] == rule@);
        assert(reaching_rule@ == views[i as int]);
        reaching.push(reaching_rule);
        assert(rule_views(reaching@) =~= before.push(reaching_rule@));
        assert(views.take(i + 1) =~= before.push(reaching_rule@));
        i += 1;
    }
    assert(views.take(i as int) =~= views);
    reaching
}

/// Whether the rules of `state` allow everything from the path text `target` on: what is left of
/// them for all beneath allows the path, and denies the path of no denial beneath it.
pub fn is_allowed_beneath(
    target: &str,
    state: &PathPermissionState,
    home: Option<&str>,
    facts: &FileFacts,
) -> (allowed: bool)
    ensures
        allowed == beneath_allowed(target@, *state, option_view(home), *facts),
{
    let directory = normalize_path(target, facts);
    let rules = resolve_rules(state, home, facts);
    let ghost views = rule_views(rules@);
    let reaching = reaching_rules(&rules);
    match check_rules(&reaching, &directory, true) {
        PermissionCheck::Allowed => {},
        _ => {
            proof {
                assert(directory@.is_prefix_of(directory@)) by {
                    assert(directory@ =~= directory@.subrange(0, directory@.len() as int));
                }
                withheld_beneath(views, directory@, directory@);
            }
            return false;
        },
    }
    let mut i: usize = 0;
    while i < rules.len()
        invariant
            i <= rules@.len(),
            views == rule_views(rules@),
            views == resolved_rules(state.rules(), option_view(home), *facts),
            directory@ == normalized(target@, *facts),
            rule_views(reaching@) == reaches(views),
            forall|j: int| 0 <= j < i ==> !denied_beneath(views, #[trigger] views[j], directory@),
        decreases rules@.len() - i,
    {
        let rule = &rules[i];
        assert(views[i as int] == rule@);
        if let (Some(path), PathPermission::Deny) = (&rule.path, rule.permission) {
            if is_under_or_equal(path, &directory) {
                if let PermissionCheck::Denied = check_rules(&reaching, path, true) {
                    proof {
                        withheld_beneath(views, directory@, path@);
                    }
                    return false;
                }
            }
        }
        i += 1;
    }
    proof {
        nothing_withheld(views, directory@);
    }
    true
}

/// Whether a rule is a denial beneath `directory` that decides on what lies beneath its own path.
spec fn denied_beneath(
    rules: Seq<ResolvedRule>,
    rule: ResolvedRule,
    directory: Seq<ComponentView>,
) -> bool {
    &&& rule.permission == PathPermission::Deny
    &&& rule.path matches Some(path) && directory.is_prefix_of(path) && rules_check(
        reaches(rules),
        path,
        true,
    ) == PermissionCheck::Denied
}

/// The texts that are looked up for the paths of rules.
pub open spec fn rule_texts(
    rules: Seq<PathPermissionRule>,
    home: Option<Seq<char>>,
    facts: FileFacts,
) -> Seq<Seq<char>>
    decreases rules.len(),
{
    if rules.len() == 0 {
        Seq::empty()
    } else {
        let before = rule_texts(rules.drop_last(), home, facts);
        match expanded(rules.last().path@, home) {
            Ok(text) => before + path_texts(text, facts),
            Err(_) => before,
        }
    }
}

/// Appends texts.
fn append_texts(texts: &mut Vec<String>, others: Vec<String>)
    ensures
        views(final(texts)@) == views(old(texts)@) + views(others@),
{
    let ghost start = views(texts@);
    let mut i: usize = 0;
    assert(views(texts@) =~= start + views(others@).take(0));
    while i < others.len()
        invariant
            i <= others@.len(),
            views(texts@) == start + views(others@).take(i as int),
        decreases others@.len() - i,
    {
        let ghost before = views(texts@);
        texts.push(others[i].clone());
        assert(views(others@)[i as int] == others@[i as int]@);
        assert(views(texts@) =~= before.push(views(others@)[i as int]));
        assert(views(texts@) =~= start + views(others@).take(i + 1));
        i += 1;
    }
    assert(views(others@).take(i as int) =~= views(others@));
}

/// The path texts that a check of `target` looks up: those for `target`, and those for the path of
/// each rule. What is found at one of them can lead to further ones.
pub fn permission_lookups(
    target: &str,
    state: &PathPermissionState,
    home: Option<&str>,
    facts: &FileFacts,
) -> (texts: Vec<String>)
    ensures
        views(texts@) == path_texts(target@, *facts) + rule_texts(
            state.rules(),
            option_view(home),
            *facts,
        ),
{
    let mut texts = path_lookups(target, facts);
    let ghost start = path_texts(target@, *facts);
    let all = state.all_rules();
    let mut i: usize = 0;
    assert(state.rules().take(0) =~= Seq::empty());
    assert(views(texts@) =~= start + rule_texts(Seq::empty(), option_view(home), *facts));
    while i < all.len()
        invariant
            i <= all@.len(),
            all@.map_values(|rule: &PathPermissionRule| *rule) == state.rules(),
            views(texts@) == start + rule_texts(
                state.rules().take(i as int),
                option_view(home),
                *facts,
            ),
        decreases all@.len() - i,
    {
        let rule = all[i];
        proof {
            assert(state.rules()[i as int] == *rule);
            assert(state.rules().take(i + 1).drop_last() =~= state.rules().take(i as int));
        }
        if let Ok(text) = expand_tilde(rule.path.as_str(), home) {
            append_texts(&mut texts, path_lookups(text.as_str(), facts));
        }
        assert(views(texts@) =~= start + rule_texts(
            state.rules().take(i + 1),
            option_view(home),
            *facts,
        ));
        i += 1;
    }
    assert(state.rules().take(i as int) =~= state.rules());
    texts
}

/// Where some rule covers a file, some rule decides on it.
proof fn some_rule_decides(
    rules: Seq<ResolvedRule>,
    target: Seq<ComponentView>,
    is_dir: bool,
    covering: int,
) -> (at: int)
    requires
        0 <= covering < rules.len(),
        rules[covering].covers(target, is_dir),
    ensures
        decides(rules, at, target, is_dir),
    decreases rules.len(),
{
    let before = rules.drop_last();
    let last = rules.len() - 1;
    assert(forall|i: int| 0 <= i < last ==> #[trigger] before[i] == rules[i]);
    if exists|i: int| 0 <= i < before.len() && (#[trigger] before[i]).covers(target, is_dir) {
        let earlier = choose|i: int|
            0 <= i < before.len() && (#[trigger] before[i]).covers(target, is_dir);
        let at = some_rule_decides(before, target, is_dir, earlier);
        let found = if rules[last].covers(target, is_dir) && rules[last].depth()
            > rules[at].depth() {
            last
        } else {
            at
        };
        assert forall|i: int|
            0 <= i < rules.len() && (#[trigger] rules[i]).covers(target, is_dir) implies {
            &&& rules[i].depth() <= rules[found].depth()
            &&& i < found ==> rules[i].depth() < rules[found].depth()
        } by {
            if i < last {
                assert(before[i].covers(target, is_dir));
            }
        }
        found
    } else {
        assert forall|i: int|
            0 <= i < rules.len() && (#[trigger] rules[i]).covers(target, is_dir) implies i
            == last by {
            if i < last {
                assert(before[i].covers(target, is_dir));
            }
        }
        last
    }
}

/// The user is asked exactly where no rule covers the file.
pub proof fn asked_where_nothing_covers(
    rules: Seq<ResolvedRule>,
    target: Seq<ComponentView>,
    is_dir: bool,
)
    ensures
        rules_check(rules, target, is_dir) == PermissionCheck::NeedsPrompt <==> forall|i: int|
            0 <= i < rules.len() ==> !(#[trigger] rules[i]).covers(target, is_dir),
{
    if exists|i: int| 0 <= i < rules.len() && (#[trigger] rules[i]).covers(target, is_dir) {
        let covering = choose|i: int|
            0 <= i < rules.len() && (#[trigger] rules[i]).covers(target, is_dir);
        let at = some_rule_decides(rules, target, is_dir, covering);
        one_decides(rules, at, target, is_dir);
    }
}

/// Rules that cover one path as other rules cover another say the same of them.
proof fn same_coverage(
    first: Seq<ResolvedRule>,
    second: Seq<ResolvedRule>,
    path: Seq<ComponentView>,
    other: Seq<ComponentView>,
    is_dir: bool,
)
    requires
        first.len() == second.len(),
        forall|i: int|
            #![trigger first[i]]
            #![trigger second[i]]
            0 <= i < first.len() ==> {
                &&& first[i].covers(path, is_dir) == second[i].covers(other, is_dir)
                &&& first[i].covers(path, is_dir) ==> first[i] == second[i]
            },
    ensures
        rules_check(first, path, is_dir) == rules_check(second, other, is_dir),
{
    asked_where_nothing_covers(first, path, is_dir);
    asked_where_nothing_covers(second, other, is_dir);
    if exists|at: int| decides(first, at, path, is_dir) {
        let at = choose|at: int| decides(first, at, path, is_dir);
        assert(decides(second, at, other, is_dir));
        one_decides(first, at, path, is_dir);
        one_decides(second, at, other, is_dir);
    } else {
        assert forall|i: int| 0 <= i < second.len() implies !(#[trigger] second[i]).covers(
            other,
            is_dir,
        ) by {
            assert(!first[i].covers(path, is_dir));
        }
    }
}

/// The length of the last name of a rule's path.
spec fn last_length(rule: ResolvedRule) -> nat {
    match rule.path {
        Some(path) => if path.len() > 0 {
            match path.last() {
                ComponentView::Normal(name) => name.len(),
                _ => 0,
            }
        } else {
            0
        },
        None => 0,
    }
}

/// Some length is beyond the last names of all rules' paths.
proof fn length_beyond(rules: Seq<ResolvedRule>) -> (length: nat)
    ensures
        forall|i: int| 0 <= i < rules.len() ==> last_length(#[trigger] rules[i]) < length,
    decreases rules.len(),
{
    if rules.len() == 0 {
        0
    } else {
        let before = length_beyond(rules.drop_last());
        let last = last_length(rules[rules.len() - 1]) + 1;
        assert forall|i: int| 0 <= i < rules.len() - 1 implies last_length(#[trigger] rules[i])
            < before by {
            assert(rules.drop_last()[i] == rules[i]);
        }
        if before < last {
            last
        } else {
            before
        }
    }
}

/// Beneath every path there is a directory of which rules say what is left of them there.
proof fn directory_beneath(rules: Seq<ResolvedRule>, path: Seq<ComponentView>) -> (beneath: Seq<
    ComponentView,
>)
    ensures
        path.is_prefix_of(beneath),
        rules_check(rules, beneath, true) == rules_check(reaches(rules), path, true),
{
    let length = length_beyond(rules);
    let name = Seq::new(length, |i: int| 'x');
    let beneath = path.push(ComponentView::Normal(name));
    let left = reaches(rules);
    assert(path =~= beneath.subrange(0, path.len() as int));
    assert(parent_of(beneath) == Some(path)) by {
        assert(beneath.drop_last() =~= path);
    }
    assert forall|i: int|
        #![trigger rules[i]]
        #![trigger left[i]]
        0 <= i < rules.len() implies {
        &&& rules[i].covers(beneath, true) == left[i].covers(path, true)
        &&& rules[i].covers(beneath, true) ==> rules[i] == left[i]
    } by {
        assert(left[i] == reach(rules[i]));
        if let Some(rule_path) = rules[i].path {
            assert(last_length(rules[i]) < length);
            assert(rule_path != beneath) by {
                assert(beneath.last() == ComponentView::Normal(name));
            }
            let rule_length = rule_path.len() as int;
            if rule_path.is_prefix_of(beneath) {
                assert(rule_length <= path.len()) by {
                    if rule_length == beneath.len() {
                        assert(rule_path =~= beneath);
                    }
                }
                assert(rule_path =~= path.subrange(0, rule_length));
            }
            if rule_path.is_prefix_of(path) {
                assert(rule_path =~= beneath.subrange(0, rule_length));
            }
        }
    }
    same_coverage(rules, left, beneath, path, true);
    beneath
}

/// Where what is left of rules does not allow a path, not everything is allowed above it.
proof fn withheld_beneath(
    rules: Seq<ResolvedRule>,
    directory: Seq<ComponentView>,
    path: Seq<ComponentView>,
)
    requires
        directory.is_prefix_of(path),
        rules_check(reaches(rules), path, true) != PermissionCheck::Allowed,
    ensures
        !allowed_beneath(rules, directory),
{
    let beneath = directory_beneath(rules, path);
    assert(directory =~= beneath.subrange(0, directory.len() as int));
    assert(rules_check(rules, beneath, true) != PermissionCheck::Allowed);
}

/// Where what is left of rules allows a directory, and no denial beneath it decides, everything
/// beneath it is allowed.
proof fn nothing_withheld(rules: Seq<ResolvedRule>, directory: Seq<ComponentView>)
    requires
        rules_check(reaches(rules), directory, true) == PermissionCheck::Allowed,
        forall|i: int|
            0 <= i < rules.len() ==> !denied_beneath(rules, #[trigger] rules[i], directory),
    ensures
        allowed_beneath(rules, directory),
{
    let left = reaches(rules);
    let above = choose|at: int| decides(left, at, directory, true);
    one_decides(left, above, directory, true);
    assert(left[above] == reach(rules[above]));
    assert forall|path: Seq<ComponentView>, is_dir: bool|
        directory.is_prefix_of(path) implies #[trigger] rules_check(rules, path, is_dir)
        == PermissionCheck::Allowed by {
        assert(rules[above].path->0 =~= path.subrange(0, rules[above].path->0.len() as int));
        let at = some_rule_decides(rules, path, is_dir, above);
        one_decides(rules, at, path, is_dir);
        no_denial_decides(rules, directory, above, at, path, is_dir);
    }
}

/// Beneath a directory for which a permission decides, and beneath which no denial decides on all
/// beneath its own path, the deciding rule is no denial.
proof fn no_denial_decides(
    rules: Seq<ResolvedRule>,
    directory: Seq<ComponentView>,
    above: int,
    at: int,
    path: Seq<ComponentView>,
    is_dir: bool,
)
    requires
        directory.is_prefix_of(path),
        decides(reaches(rules), above, directory, true),
        rules[above].permission != PathPermission::Deny,
        rules[above].covers(path, is_dir),
        decides(rules, at, path, is_dir),
        !denied_beneath(rules, rules[at], directory),
    ensures
        rules[at].permission != PathPermission::Deny,
{
    let left = reaches(rules);
    let denied = rules[at].path->0;
    let denied_length = denied.len() as int;
    assert(left[at] == reach(rules[at]));
    assert(left[above] == reach(rules[above]));
    if rules[at].permission == PathPermission::Deny {
        if denied_length <= directory.len() {
            assert(denied =~= directory.subrange(0, denied_length));
            assert(left[at].covers(directory, true));
            assert(left[at].depth() <= left[above].depth());
            assert(rules[above].depth() <= rules[at].depth());
        } else {
            assert(directory =~= denied.subrange(0, directory.len() as int));
            assert(denied =~= denied.subrange(0, denied_length));
            assert(left[at].covers(denied, true));
            let other = some_rule_decides(left, denied, true, at);
            one_decides(left, other, denied, true);
            assert(left[other] == reach(rules[other]));
            let allowed = rules[other].path->0;
            assert(allowed =~= path.subrange(0, allowed.len() as int));
            assert(rules[other].covers(path, is_dir));
            assert(left[at].depth() <= left[other].depth());
            assert(rules[other].depth() <= rules[at].depth());
        }
    }
}

/// A permission for a directory only does not reach what lies beneath its subdirectories: where no
/// other rule covers a directory, not everything beneath it is allowed.
pub proof fn directory_permission_does_not_reach_beneath(
    rules: Seq<ResolvedRule>,
    directory: Seq<ComponentView>,
)
    requires
        forall|i: int|
            0 <= i < rules.len() && (#[trigger] rules[i]).covers(directory, true)
                ==> rules[i].permission == PathPermission::AllowDirectory,
    ensures
        !allowed_beneath(rules, directory),
{
    let left = reaches(rules);
    assert forall|i: int| 0 <= i < left.len() implies !(#[trigger] left[i]).covers(
        directory,
        true,
    ) by {
        assert(left[i] == reach(rules[i]));
    }
    asked_where_nothing_covers(left, directory, true);
    assert(directory =~= directory.subrange(0, directory.len() as int));
    withheld_beneath(rules, directory, directory);
}

/// Where one path beneath a directory is not allowed, not everything beneath it is.
pub proof fn one_path_withheld_withholds_all(
    rules: Seq<ResolvedRule>,
    directory: Seq<ComponentView>,
    path: Seq<ComponentView>,
    is_dir: bool,
)
    requires
        directory.is_prefix_of(path),
        rules_check(rules, path, is_dir) != PermissionCheck::Allowed,
    ensures
        !allowed_beneath(rules, directory),
{
}

/// A recursive permission reaches everything beneath: where one covers a directory, and no denial
/// stands above or beneath it, everything beneath the directory is allowed.
pub proof fn recursive_permission_reaches_beneath(
    rules: Seq<ResolvedRule>,
    at: int,
    directory: Seq<ComponentView>,
)
    requires
        0 <= at < rules.len(),
        rules[at].permission == PathPermission::AllowRecursive,
        rules[at].covers(directory, true),
        forall|i: int|
            0 <= i < rules.len() && (#[trigger] rules[i]).permission == PathPermission::Deny
                ==> match rules[i].path {
                Some(path) => !path.is_prefix_of(directory) && !directory.is_prefix_of(path),
                None => true,
            },
    ensures
        allowed_beneath(rules, directory),
{
    let allowed = rules[at].path->0;
    assert forall|path: Seq<ComponentView>, is_dir: bool|
        directory.is_prefix_of(path) implies #[trigger] rules_check(rules, path, is_dir)
        == PermissionCheck::Allowed by {
        assert(allowed =~= path.subrange(0, allowed.len() as int));
        let decisive = some_rule_decides(rules, path, is_dir, at);
        one_decides(rules, decisive, path, is_dir);
        if rules[decisive].permission == PathPermission::Deny {
            let denied = rules[decisive].path->0;
            if denied.len() <= directory.len() {
                assert(denied =~= directory.subrange(0, denied.len() as int));
            } else {
                assert(directory =~= denied.subrange(0, directory.len() as int));
            }
        }
    }
}

/// Where no denial covers a file, and some rule does, the file is allowed.
pub proof fn allowances_allow(
    rules: Seq<ResolvedRule>,
    target: Seq<ComponentView>,
    is_dir: bool,
)
    requires
        exists|i: int| 0 <= i < rules.len() && (#[trigger] rules[i]).covers(target, is_dir),
        forall|i: int|
            0 <= i < rules.len() && (#[trigger] rules[i]).covers(target, is_dir)
                ==> rules[i].permission != PathPermission::Deny,
    ensures
        rules_check(rules, target, is_dir) == PermissionCheck::Allowed,
{
    let covering = choose|i: int|
        0 <= i < rules.len() && (#[trigger] rules[i]).covers(target, is_dir);
    let at = some_rule_decides(rules, target, is_dir, covering);
    one_decides(rules, at, target, is_dir);
}

/// The most specific rule wins: where a rule covers a file and every other rule that covers it has
/// a shorter path, the check is what that rule says.
pub proof fn most_specific_rule_wins(
    rules: Seq<ResolvedRule>,
    at: int,
    target: Seq<ComponentView>,
    is_dir: bool,
)
    requires
        0 <= at < rules.len(),
        rules[at].covers(target, is_dir),
        forall|i: int|
            0 <= i < rules.len() && i != at && (#[trigger] rules[i]).covers(target, is_dir)
                ==> rules[i].depth() < rules[at].depth(),
    ensures
        rules_check(rules, target, is_dir) == check_of(rules[at].permission),
{
    assert(decides(rules, at, target, is_dir));
    one_decides(rules, at, target, is_dir);
}

/// Two rules that cover one file and are equally specific are rules for the same path.
pub proof fn equally_specific_rules_share_a_path(
    first: ResolvedRule,
    second: ResolvedRule,
    target: Seq<ComponentView>,
    is_dir: bool,
)
    requires
        first.covers(target, is_dir),
        second.covers(target, is_dir),
        first.depth() == second.depth(),
    ensures
        first.path == second.path,
{
    let depth = first.depth() as int;
    covering_path_is_prefix(first, target, is_dir);
    covering_path_is_prefix(second, target, is_dir);
    assert(first.path->0 =~= target.subrange(0, depth));
    assert(second.path->0 =~= target.subrange(0, depth));
}

/// The path of a rule that covers a file is the start of the file's path.
proof fn covering_path_is_prefix(rule: ResolvedRule, target: Seq<ComponentView>, is_dir: bool)
    requires
        rule.covers(target, is_dir),
    ensures
        rule.path is Some,
        rule.path->0.is_prefix_of(target),
{
    let path = rule.path->0;
    if target == path {
        assert(path =~= target.subrange(0, path.len() as int));
    }
}

/// A permission for a directory covers no file of a subdirectory and no subdirectory itself.
pub proof fn directory_permission_stays_in_directory(
    directory: Seq<ComponentView>,
    target: Seq<ComponentView>,
    is_dir: bool,
)
    requires
        directory.is_prefix_of(target),
        target.len() > directory.len() + 1 || (target.len() == directory.len() + 1 && is_dir),
    ensures
        !covers(directory, PathPermission::AllowDirectory, target, is_dir),
{
}

/// A permission for a directory covers the directory and every file in it.
pub proof fn directory_permission_covers_files(
    directory: Seq<ComponentView>,
    name: Seq<char>,
    is_dir: bool,
)
    ensures
        covers(directory, PathPermission::AllowDirectory, directory, is_dir),
        covers(
            directory,
            PathPermission::AllowDirectory,
            directory.push(ComponentView::Normal(name)),
            false,
        ),
{
    let target = directory.push(ComponentView::Normal(name));
    assert(target.drop_last() =~= directory);
}

/// A recursive permission and a denial cover the directory and everything beneath it.
pub proof fn recursive_permission_covers_all_beneath(
    directory: Seq<ComponentView>,
    beneath: Seq<ComponentView>,
    permission: PathPermission,
    is_dir: bool,
)
    requires
        permission != PathPermission::AllowDirectory,
    ensures
        covers(directory, permission, directory + beneath, is_dir),
{
    assert(directory =~= (directory + beneath).subrange(0, directory.len() as int));
}

/// A rule that is added changes a check only to what it says, and only on what it covers.
pub proof fn added_rule_decides_or_changes_nothing(
    rules: Seq<ResolvedRule>,
    rule: ResolvedRule,
    target: Seq<ComponentView>,
    is_dir: bool,
)
    ensures
        rules_check(rules.push(rule), target, is_dir) == rules_check(rules, target, is_dir) || (
        rule.covers(target, is_dir) && rules_check(rules.push(rule), target, is_dir) == check_of(
            rule.permission,
        )),
{
    let after = rules.push(rule);
    asked_where_nothing_covers(rules, target, is_dir);
    asked_where_nothing_covers(after, target, is_dir);
    assert(forall|i: int| 0 <= i < rules.len() ==> #[trigger] after[i] == rules[i]);
    if exists|at: int| decides(after, at, target, is_dir) {
        let at = choose|at: int| decides(after, at, target, is_dir);
        one_decides(after, at, target, is_dir);
        if at < rules.len() {
            assert forall|i: int|
                0 <= i < rules.len() && (#[trigger] rules[i]).covers(target, is_dir) implies {
                &&& rules[i].depth() <= rules[at].depth()
                &&& i < at ==> rules[i].depth() < rules[at].depth()
            } by {
                assert(after[i].covers(target, is_dir));
            }
            assert(decides(rules, at, target, is_dir));
            one_decides(rules, at, target, is_dir);
        }
    } else {
        assert forall|i: int| 0 <= i < rules.len() implies !(#[trigger] rules[i]).covers(
            target,
            is_dir,
        ) by {
            assert(!after[i].covers(target, is_dir));
        }
    }
}

/// Beneath a directory that is allowed recursively, a denial for a directory blocks exactly what
/// lies in that directory, in whichever order the two rules stand.
pub proof fn denial_beneath_allowed_directory(
    rules: Seq<ResolvedRule>,
    allowed: Seq<ComponentView>,
    denied: Seq<ComponentView>,
    target: Seq<ComponentView>,
    is_dir: bool,
)
    requires
        allowed.is_prefix_of(denied),
        allowed.len() < denied.len(),
        ({
            let allow = ResolvedRule {
                path: Some(allowed),
                permission: PathPermission::AllowRecursive,
            };
            let deny = ResolvedRule { path: Some(denied), permission: PathPermission::Deny };
            rules == seq![allow, deny] || rules == seq![deny, allow]
        }),
    ensures
        denied.is_prefix_of(target) ==> rules_check(rules, target, is_dir)
            == PermissionCheck::Denied,
        allowed.is_prefix_of(target) && !denied.is_prefix_of(target) ==> rules_check(
            rules,
            target,
            is_dir,
        ) == PermissionCheck::Allowed,
{
    let deny_at = if rules[0].permission == PathPermission::Deny {
        0int
    } else {
        1
    };
    if denied.is_prefix_of(target) {
        most_specific_rule_wins(rules, deny_at, target, is_dir);
    } else if allowed.is_prefix_of(target) {
        most_specific_rule_wins(rules, 1 - deny_at, target, is_dir);
    }
}

/// A check reads no more of the file system than what is found at its lookups, and what the path
/// that the target stands for names.
pub proof fn check_depends_on_lookups(
    target: Seq<char>,
    state: PathPermissionState,
    home: Option<Seq<char>>,
    facts: FileFacts,
    other: FileFacts,
)
    requires
        facts.agrees(other, path_texts(target, facts)),
        facts.agrees(other, rule_texts(state.rules(), home, facts)),
        facts.kind(path_text(normalized(target, facts))) == other.kind(
            path_text(normalized(target, facts)),
        ),
    ensures
        permission_check(target, state, home, facts) == permission_check(
            target,
            state,
            home,
            other,
        ),
        beneath_allowed(target, state, home, facts) == beneath_allowed(target, state, home, other),
{
    let rules = state.rules();
    path_depends_on_lookups(target, facts, other);
    assert forall|i: int| 0 <= i < rules.len() implies resolved_rule(rules[i], home, facts)
        == resolved_rule(rules[i], home, other) by {
        if let Ok(text) = expanded(rules[i].path@, home) {
            rule_texts_hold(rules, home, facts, other, i);
            path_depends_on_lookups(text, facts, other);
        }
    }
    assert(resolved_rules(rules, home, facts) =~= resolved_rules(rules, home, other));
}

/// The texts for the path of a rule are among the texts for all.
proof fn rule_texts_hold(
    rules: Seq<PathPermissionRule>,
    home: Option<Seq<char>>,
    facts: FileFacts,
    other: FileFacts,
    i: int,
)
    requires
        0 <= i < rules.len(),
        expanded(rules[i].path@, home) is Ok,
        facts.agrees(other, rule_texts(rules, home, facts)),
    ensures
        facts.agrees(other, path_texts(expanded(rules[i].path@, home)->Ok_0, facts)),
    decreases rules.len(),
{
    let texts = rule_texts(rules, home, facts);
    let before = rule_texts(rules.drop_last(), home, facts);
    if i == rules.len() - 1 {
        let own = path_texts(expanded(rules[i].path@, home)->Ok_0, facts);
        assert forall|k: int| 0 <= k < own.len() implies facts.resolved(#[trigger] own[k])
            == other.resolved(own[k]) by {
            assert(texts[before.len() + k] == own[k]);
        }
    } else {
        assert forall|k: int| 0 <= k < before.len() implies facts.resolved(#[trigger] before[k])
            == other.resolved(before[k]) by {
            assert(texts[k] == before[k]);
        }
        assert(rules.drop_last()[i] == rules[i]);
        rule_texts_hold(rules.drop_last(), home, facts, other, i);
    }
}

/// The user's choice settles the question that it answers: where a path had to be asked for, the
/// rule of the choice lets the next check be `Denied` after a rejection and `Allowed` otherwise.
pub proof fn choice_settles_question(
    target: Seq<char>,
    before: PathPermissionState,
    after: PathPermissionState,
    choice: FilePermissionChoice,
    rule: PathPermissionRule,
    home: Option<Seq<char>>,
    facts: FileFacts,
)
    requires
        facts.consistent(),
        facts.places(target),
        permission_check(target, before, home, facts) == PermissionCheck::NeedsPrompt,
        ({
            let path = normalized(target, facts);
            rule.path@ == path_text(permission_directory(path, is_directory(path, facts)))
        }),
        rule.permission == choice.permission(),
        after.session@ == before.session@.push(rule),
        after.persistent@ == before.persistent@,
    ensures
        permission_check(target, after, home, facts) == match choice {
            FilePermissionChoice::Reject => PermissionCheck::Denied,
            _ => PermissionCheck::Allowed,
        },
{
    let path = normalized(target, facts);
    let is_dir = is_directory(path, facts);
    let directory = permission_directory(path, is_dir);
    normalized_is_settled(target, facts);
    asked_directory_is_settled(path, is_dir, facts);
    settled_directory_stands_for_itself(rule, directory, home, facts);
    let old_rules = resolved_rules(before.rules(), home, facts);
    let rules = resolved_rules(after.rules(), home, facts);
    let at = before.rules().len() as int;
    assert(after.rules() =~= before.rules().push(rule));
    assert(rules =~= old_rules.push(resolved_rule(rule, home, facts)));
    asked_where_nothing_covers(old_rules, path, is_dir);
    assert forall|i: int|
        0 <= i < rules.len() && i != at && (#[trigger] rules[i]).covers(
            path,
            is_dir,
        ) implies rules[i].depth() < rules[at].depth() by {
        assert(rules[i] == old_rules[i]);
    }
    assert(directory.is_prefix_of(path)) by {
        assert(directory =~= path.subrange(0, directory.len() as int));
    }
    assert(rules[at].covers(path, is_dir));
    most_specific_rule_wins(rules, at, path, is_dir);
}

/// The directory that is asked for is as settled as the path.
proof fn asked_directory_is_settled(path: Seq<ComponentView>, is_dir: bool, facts: FileFacts)
    requires
        facts.settled(path),
    ensures
        facts.settled(permission_directory(path, is_dir)),
{
    if !is_dir {
        if let Some(parent) = parent_of(path) {
            assert(path[path.len() - 1] == path.last());
            settled_above(path, path.len() - 1, facts);
            assert(parent =~= path.take(path.len() - 1));
        }
    }
}

/// A settled directory stands for itself as a rule's path.
pub proof fn settled_directory_stands_for_itself(
    rule: PathPermissionRule,
    directory: Seq<ComponentView>,
    home: Option<Seq<char>>,
    facts: FileFacts,
)
    requires
        facts.settled(directory),
        rule.path@ == path_text(directory),
    ensures
        resolved_rule(rule, home, facts).path == Some(directory),
{
    settled_stands_for_itself(directory, facts);
    let text = path_text(directory);
    assert(text != seq!['~']);
    assert(!seq!['~', '/'].is_prefix_of(text)) by {
        if seq!['~', '/'].is_prefix_of(text) {
            assert(seq!['~', '/'][0] == text.subrange(0, 2)[0]);
        }
    }
}

/// A rule on a directory covers what is missing beneath it, whatever the directory's text resolves
/// to: a recursive permission and a denial cover all of it, a permission for the directory the files
/// in it.
pub proof fn rules_cover_missing_files(
    rule: PathPermissionRule,
    directory: Seq<ComponentView>,
    beneath: Seq<Seq<char>>,
    home: Option<Seq<char>>,
    facts: FileFacts,
)
    requires
        plain_path(directory),
        directory.len() > 0,
        directory[0] is RootDir,
        rule.path@ == path_text(directory),
        beneath.len() > 0,
        forall|i: int| 0 <= i < beneath.len() ==> plain_name(#[trigger] beneath[i]),
        forall|k: int|
            0 < k <= beneath.len() ==> {
                let names = #[trigger] names_path(beneath.take(k));
                &&& facts.resolved(path_text(directory + names)) is None
                &&& facts.resolved(path_text(walked(directory, facts) + names)) is None
            },
    ensures
        ({
            let target = path_text(directory + names_path(beneath));
            let rule = resolved_rule(rule, home, facts);
            &&& rule.permission != PathPermission::AllowDirectory ==> forall|is_dir: bool|
                rule.covers(normalized(target, facts), is_dir)
            &&& rule.permission == PathPermission::AllowDirectory && beneath.len() == 1
                ==> rule.covers(normalized(target, facts), false)
        }),
{
    let path = directory + names_path(beneath);
    let found = walked(directory, facts);
    text_of_plain_path(directory);
    root_starts_text(path_text(directory));
    assert(path_text(directory) != seq!['~']);
    assert(!seq!['~', '/'].is_prefix_of(path_text(directory))) by {
        if seq!['~', '/'].is_prefix_of(path_text(directory)) {
            assert(seq!['~', '/'][0] == path_text(directory).subrange(0, 2)[0]);
        }
    }
    assert forall|i: int| 0 <= i < path.len() implies match #[trigger] path[i] {
        ComponentView::RootDir => i == 0,
        ComponentView::Normal(name) => plain_name(name),
        _ => false,
    } by {
        if i < directory.len() {
            assert(path[i] == directory[i]);
        } else {
            assert(path[i] == ComponentView::Normal(beneath[i - directory.len()]));
        }
    }
    text_of_plain_path(path);
    missing_names_lie_beneath(directory, beneath, facts);
    assert(beneath.take(beneath.len() as int) =~= beneath);
    assert(names_path(beneath.take(beneath.len() as int)) == names_path(beneath));
    let target = normalized(path_text(path), facts);
    assert(target == found + names_path(beneath));
    assert(resolved_rule(rule, home, facts).path == Some(found));
    assert(found =~= target.subrange(0, found.len() as int));
    if beneath.len() == 1 {
        assert(target.last() is Normal);
        assert(target.drop_last() =~= found);
    }
}

/// `ls` and `cat` read files, `sed` writes them, and no other tool touches any.
pub proof fn file_tools_and_their_access(name: Seq<char>)
    ensures
        access_of("ls"@) == Some(FileAccess::Read),
        access_of("cat"@) == Some(FileAccess::Read),
        access_of("sed"@) == Some(FileAccess::Write),
        name != "ls"@ && name != "cat"@ && name != "sed"@ ==> access_of(name) is None,
        FileAccess::Read.word() == "read"@,
        FileAccess::Write.word() == "write"@,
{
    reveal_strlit("ls");
    reveal_strlit("cat");
    reveal_strlit("sed");
    assert("ls"@.len() == 2 && "cat"@[0] == 'c' && "sed"@[0] == 's');
}

/// Permission is asked for the directory that a file lies in: for a directory that is itself, and for
/// anything else the path above it, of which only the last name is missing.
pub proof fn asked_directory_holds_the_file(target: Seq<ComponentView>, is_dir: bool)
    ensures
        is_dir ==> permission_directory(target, is_dir) == target,
        !is_dir && target.len() > 0 && !(target.last() is RootDir) ==> permission_directory(
            target,
            is_dir,
        ).push(target.last()) == target,
{
    if target.len() > 0 {
        assert(target.drop_last().push(target.last()) =~= target);
    }
}

/// What the user chooses for a directory holds as it is said: a permission for the directory covers
/// the files in it but nothing in its subdirectories, a recursive one covers those too, and both
/// allow what they cover. A rejection covers everything beneath and denies it.
pub proof fn choices_mean_what_they_say(
    directory: Seq<ComponentView>,
    file: Seq<char>,
    subdirectory: Seq<char>,
)
    ensures
        ({
            let inside = directory.push(ComponentView::Normal(file));
            let deeper = directory.push(ComponentView::Normal(subdirectory)).push(
                ComponentView::Normal(file),
            );
            let this = FilePermissionChoice::AllowDirectory.permission();
            let all = FilePermissionChoice::AllowRecursive.permission();
            let none = FilePermissionChoice::Reject.permission();
            &&& covers(directory, this, inside, false) && !covers(directory, this, deeper, false)
            &&& covers(directory, all, inside, false) && covers(directory, all, deeper, false)
            &&& covers(directory, none, inside, false) && covers(directory, none, deeper, false)
            &&& check_of(this) == PermissionCheck::Allowed
            &&& check_of(all) == PermissionCheck::Allowed
            &&& check_of(none) == PermissionCheck::Denied
        }),
{
    let inside = directory.push(ComponentView::Normal(file));
    let above = directory.push(ComponentView::Normal(subdirectory));
    let deeper = above.push(ComponentView::Normal(file));
    assert(inside.drop_last() =~= directory);
    assert(deeper.drop_last() =~= above);
    assert(above.len() == directory.len() + 1);
    assert(directory =~= inside.subrange(0, directory.len() as int));
    assert(directory =~= deeper.subrange(0, directory.len() as int));
}

/// No permission and no denial covers what lies outside its directory.
pub proof fn rules_stay_in_their_directory(
    directory: Seq<ComponentView>,
    permission: PathPermission,
    target: Seq<ComponentView>,
    is_dir: bool,
)
    requires
        !directory.is_prefix_of(target),
    ensures
        !covers(directory, permission, target, is_dir),
{
    if target == directory {
        assert(directory =~= target.subrange(0, directory.len() as int));
    }
    if parent_of(target) == Some(directory) {
        assert(directory =~= target.subrange(0, directory.len() as int));
    }
}

/// Without rules, every file is asked for.
pub proof fn nothing_is_allowed_without_rules(target: Seq<ComponentView>, is_dir: bool)
    ensures
        rules_check(Seq::empty(), target, is_dir) == PermissionCheck::NeedsPrompt,
{
    asked_where_nothing_covers(Seq::empty(), target, is_dir);
}

/// The saved rules and those of the session are in force, all of them and no others, the saved ones
/// before the others.
pub proof fn all_rules_are_in_force(state: PathPermissionState, rule: PathPermissionRule)
    ensures
        state.rules().contains(rule) <==> state.persistent@.contains(rule)
            || state.session@.contains(rule),
        state.rules().len() == state.persistent@.len() + state.session@.len(),
        forall|i: int|
            0 <= i < state.persistent@.len() ==> #[trigger] state.rules()[i]
                == state.persistent@[i],
{
    let all = state.rules();
    if state.persistent@.contains(rule) {
        let i = choose|i: int| 0 <= i < state.persistent@.len() && state.persistent@[i] == rule;
        assert(all[i] == rule);
    }
    if state.session@.contains(rule) {
        let i = choose|i: int| 0 <= i < state.session@.len() && state.session@[i] == rule;
        assert(all[state.persistent@.len() + i] == rule);
    }
    if all.contains(rule) {
        let i = choose|i: int| 0 <= i < all.len() && all[i] == rule;
        if i < state.persistent@.len() {
            assert(state.persistent@[i] == rule);
        } else {
            assert(state.session@[i - state.persistent@.len()] == rule);
        }
    }
}

/// A rule counts for the path that its text stands for, with `~` as the home directory, and says what
/// it says; a rule for `~` without a home counts for nothing.
pub proof fn rules_count_for_their_path(
    rule: PathPermissionRule,
    home: Option<Seq<char>>,
    facts: FileFacts,
)
    ensures
        ({
            let resolved = resolved_rule(rule, home, facts);
            &&& resolved.permission == rule.permission
            &&& rule.path@.len() > 0 && rule.path@[0] != '~' ==> resolved.path == Some(
                normalized(rule.path@, facts),
            )
            &&& rule.path@ == seq!['~'] ==> resolved.path == match home {
                Some(home) => Some(normalized(home, facts)),
                None => None,
            }
        }),
{
    if rule.path@.len() > 0 && rule.path@[0] != '~' {
        if seq!['~', '/'].is_prefix_of(rule.path@) {
            assert(seq!['~', '/'][0] == rule.path@.subrange(0, 2)[0]);
        }
    }
}

/// A check goes by the saved rules and those of the session, each with the path that it stands for: the
/// user is asked exactly where none of them covers the file.
pub proof fn files_are_asked_for_where_no_rule_covers(
    target: Seq<char>,
    state: PathPermissionState,
    home: Option<Seq<char>>,
    facts: FileFacts,
)
    ensures
        ({
            let path = normalized(target, facts);
            let is_dir = facts.kind(path_text(path)) == PathKind::Directory;
            permission_check(target, state, home, facts) == PermissionCheck::NeedsPrompt <==> {
                &&& forall|i: int|
                    0 <= i < state.persistent@.len() ==> !resolved_rule(
                        #[trigger] state.persistent@[i],
                        home,
                        facts,
                    ).covers(path, is_dir)
                &&& forall|i: int|
                    0 <= i < state.session@.len() ==> !resolved_rule(
                        #[trigger] state.session@[i],
                        home,
                        facts,
                    ).covers(path, is_dir)
            }
        }),
{
    let path = normalized(target, facts);
    let is_dir = facts.kind(path_text(path)) == PathKind::Directory;
    let rules = resolved_rules(state.rules(), home, facts);
    let saved = state.persistent@.len() as int;
    asked_where_nothing_covers(rules, path, is_dir);
    assert forall|i: int| 0 <= i < saved implies rules[i] == resolved_rule(
        #[trigger] state.persistent@[i],
        home,
        facts,
    ) by {
        assert(state.rules()[i] == state.persistent@[i]);
    }
    assert forall|i: int| 0 <= i < state.session@.len() implies rules[saved + i] == resolved_rule(
        #[trigger] state.session@[i],
        home,
        facts,
    ) by {
        assert(state.rules()[saved + i] == state.session@[i]);
    }
    if forall|i: int| 0 <= i < rules.len() ==> !(#[trigger] rules[i]).covers(path, is_dir) {
        assert forall|i: int| 0 <= i < saved implies !resolved_rule(
            #[trigger] state.persistent@[i],
            home,
            facts,
        ).covers(path, is_dir) by {
            assert(!rules[i].covers(path, is_dir));
        }
        assert forall|i: int| 0 <= i < state.session@.len() implies !resolved_rule(
            #[trigger] state.session@[i],
            home,
            facts,
        ).covers(path, is_dir) by {
            assert(!rules[saved + i].covers(path, is_dir));
        }
    }
    if (forall|i: int|
        0 <= i < state.persistent@.len() ==> !resolved_rule(
            #[trigger] state.persistent@[i],
            home,
            facts,
        ).covers(path, is_dir)) && (forall|i: int|
        0 <= i < state.session@.len() ==> !resolved_rule(
            #[trigger] state.session@[i],
            home,
            facts,
        ).covers(path, is_dir)) {
        assert forall|i: int| 0 <= i < rules.len() implies !(#[trigger] rules[i]).covers(
            path,
            is_dir,
        ) by {
            if i < saved {
                assert(rules[i] == resolved_rule(state.persistent@[i], home, facts));
            } else {
                assert(rules[saved + (i - saved)] == resolved_rule(
                    state.session@[i - saved],
                    home,
                    facts,
                ));
            }
        }
    }
}

/// A rule that covers a file and has a longer path than every other rule in force that covers it
/// decides: a denial denies the file, and the others allow it.
pub proof fn most_specific_rule_in_force_decides(
    target: Seq<char>,
    state: PathPermissionState,
    home: Option<Seq<char>>,
    facts: FileFacts,
    at: int,
)
    requires
        0 <= at < state.rules().len(),
        ({
            let path = normalized(target, facts);
            let is_dir = facts.kind(path_text(path)) == PathKind::Directory;
            let rule = resolved_rule(state.rules()[at], home, facts);
            &&& rule.covers(path, is_dir)
            &&& forall|i: int|
                0 <= i < state.rules().len() && i != at && resolved_rule(
                    #[trigger] state.rules()[i],
                    home,
                    facts,
                ).covers(path, is_dir) ==> resolved_rule(
                    state.rules()[i],
                    home,
                    facts,
                ).path->0.len() < rule.path->0.len()
        }),
    ensures
        permission_check(target, state, home, facts) == match state.rules()[at].permission {
            PathPermission::Deny => PermissionCheck::Denied,
            _ => PermissionCheck::Allowed,
        },
{
    let path = normalized(target, facts);
    let is_dir = facts.kind(path_text(path)) == PathKind::Directory;
    let rules = resolved_rules(state.rules(), home, facts);
    assert forall|i: int|
        0 <= i < rules.len() && i != at && (#[trigger] rules[i]).covers(
            path,
            is_dir,
        ) implies rules[i].depth() < rules[at].depth() by {
        assert(rules[i] == resolved_rule(state.rules()[i], home, facts));
    }
    assert(rules[at] == resolved_rule(state.rules()[at], home, facts));
    most_specific_rule_wins(rules, at, path, is_dir);
}

/// A directory is what the file system says is one.
pub proof fn directories_are_what_they_are(path: Seq<ComponentView>, facts: FileFacts)
    ensures
        is_directory(path, facts) <==> facts.kind(path_text(path)) == PathKind::Directory,
{
}

/// Of rules that are equally specific, the first one counts.
pub proof fn first_of_equally_specific_rules_counts(
    rules: Seq<ResolvedRule>,
    at: int,
    target: Seq<ComponentView>,
    is_dir: bool,
)
    requires
        0 <= at < rules.len(),
        rules[at].covers(target, is_dir),
        forall|i: int|
            0 <= i < rules.len() && (#[trigger] rules[i]).covers(target, is_dir) ==> {
                &&& rules[i].path->0.len() <= rules[at].path->0.len()
                &&& i < at ==> rules[i].path->0.len() < rules[at].path->0.len()
            },
    ensures
        rules_check(rules, target, is_dir) == check_of(rules[at].permission),
{
    assert(decides(rules, at, target, is_dir));
    one_decides(rules, at, target, is_dir);
}

} // verus!
