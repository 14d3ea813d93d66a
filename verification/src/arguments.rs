//! What the arguments of a tool call say, and how they are shown.
use vstd::prelude::*;

use crate::json::{pretty_text, Json, JsonView};
use crate::path::{expand_tilde, expanded, result_view};
use crate::requests::{normal_arguments, normalize_arguments, CallView, ToolInvocation};
use crate::text::{
    blank, contains_char, contains_part, is_white, join, joined, joined_texts_are_contained,
    occurs_at, option_view, part_is_contained, prefixes_are_taken_off, same_text, starts_with,
    to_chars, trim, trim_start_matches, trimmed, trimmed_is_empty, trimming, trimming_nothing,
    views, without_prefixes,
};

verus! {

/// The text under `key`, without white space around it, unless nothing is left of it.
pub open spec fn given_text(arguments: JsonView, key: Seq<char>) -> Option<Seq<char>> {
    match arguments.text_field(key) {
        Some(text) => if trimmed(text).len() > 0 {
            Some(trimmed(text))
        } else {
            None
        },
        None => None,
    }
}

/// The text of what may be a string.
pub open spec fn string_view(text: Option<String>) -> Option<Seq<char>> {
    match text {
        Some(text) => Some(text@),
        None => None,
    }
}

/// What stands, or else an error with the given message.
pub open spec fn or_message(text: Option<Seq<char>>, message: Seq<char>) -> Result<
    Seq<char>,
    Seq<char>,
> {
    match text {
        Some(text) => Ok(text),
        None => Err(message),
    }
}

/// The text under `key`, without white space around it, unless nothing is left of it.
pub fn text_argument(arguments: &Json, key: &str) -> (text: Option<String>)
    ensures
        string_view(text) == given_text(arguments@, key@),
{
    match arguments.get_str(key) {
        Some(text) => {
            let rest = trim(text);
            if rest.as_str().is_empty() {
                None
            } else {
                Some(rest)
            }
        },
        None => None,
    }
}

/// The command of a call to run one.
pub open spec fn command_of(arguments: JsonView) -> Result<Seq<char>, Seq<char>> {
    or_message(
        given_text(normal_arguments(arguments), "command"@),
        "run_command requires a non-empty \"command\" argument."@,
    )
}

/// The command of a call to run one.
pub fn command_from_arguments(arguments: &Json) -> (command: Result<String, String>)
    ensures
        result_view(command) == command_of(arguments@),
{
    match text_argument(&normalize_arguments(arguments), "command") {
        Some(command) => Ok(command),
        None => Err("run_command requires a non-empty \"command\" argument.".to_owned()),
    }
}

/// The path of a call of a file tool.
pub open spec fn path_of(arguments: JsonView, home: Option<Seq<char>>) -> Result<
    Seq<char>,
    Seq<char>,
> {
    match given_text(normal_arguments(arguments), "path"@) {
        Some(text) => expanded(text, home),
        None => Err("A non-empty \"path\" argument is required."@),
    }
}

/// The path of a call of a file tool.
pub fn path_from_arguments(arguments: &Json, home: Option<&str>) -> (path: Result<String, String>)
    ensures
        result_view(path) == path_of(arguments@, option_view(home)),
{
    match text_argument(&normalize_arguments(arguments), "path") {
        Some(text) => expand_tilde(text.as_str(), home),
        None => Err("A non-empty \"path\" argument is required.".to_owned()),
    }
}

/// The expression of a call of `sed`.
pub open spec fn expression_of(arguments: JsonView) -> Result<Seq<char>, Seq<char>> {
    or_message(
        given_text(normal_arguments(arguments), "expression"@),
        "sed requires \"expression\" (e.g. s/old/new/)."@,
    )
}

/// The expression of a call of `sed`.
pub fn sed_expression_from_arguments(arguments: &Json) -> (expression: Result<String, String>)
    ensures
        result_view(expression) == expression_of(arguments@),
{
    match text_argument(&normalize_arguments(arguments), "expression") {
        Some(expression) => Ok(expression),
        None => Err("sed requires \"expression\" (e.g. s/old/new/).".to_owned()),
    }
}

/// The pattern of a call of `cat`, if it has one.
pub open spec fn pattern_of(arguments: JsonView) -> Option<Seq<char>> {
    given_text(normal_arguments(arguments), "pattern"@)
}

/// The pattern of a call of `cat`, if it has one.
pub fn grep_pattern_from_arguments(arguments: &Json) -> (pattern: Option<String>)
    ensures
        string_view(pattern) == pattern_of(arguments@),
{
    text_argument(&normalize_arguments(arguments), "pattern")
}

/// Why an expression for `sed` is refused, if it is.
pub open spec fn expression_fault(expression: Seq<char>) -> Option<Seq<char>> {
    if expression.contains('\n') {
        Some("sed expression must be a single line."@)
    } else if expression.len() > 0 && expression[0] == '-' {
        Some("sed expression must not start with '-'."@)
    } else {
        None
    }
}

/// Whether an expression for `sed` is accepted, and if not, why.
pub fn validate_sed_expression(expression: &str) -> (verdict: Result<(), String>)
    ensures
        match verdict {
            Ok(_) => expression_fault(expression@) is None,
            Err(message) => expression_fault(expression@) == Some(message@),
        },
{
    if contains_char(expression, '\n') {
        return Err("sed expression must be a single line.".to_owned());
    }
    proof {
        reveal_strlit("-");
        assert("-"@ =~= seq!['-']);
        if expression@.len() > 0 && expression@[0] == '-' {
            assert("-"@ =~= expression@.subrange(0, 1));
        }
        if "-"@.is_prefix_of(expression@) {
            assert(expression@.subrange(0, 1)[0] == '-');
        }
    }
    if starts_with(expression, "-") {
        return Err("sed expression must not start with '-'.".to_owned());
    }
    Ok(())
}

/// The first character of `text` that is none of `allowed`.
pub open spec fn first_other(text: Seq<char>, allowed: Seq<char>) -> Option<char>
    decreases text.len(),
{
    if text.len() == 0 {
        None
    } else if allowed.contains(text[0]) {
        first_other(text.drop_first(), allowed)
    } else {
        Some(text[0])
    }
}

/// The characters of `allowed` that stand in `text`, in the order of `allowed`.
pub open spec fn present(text: Seq<char>, allowed: Seq<char>) -> Seq<char>
    decreases allowed.len(),
{
    if allowed.len() == 0 {
        Seq::empty()
    } else {
        let before = present(text, allowed.drop_last());
        if text.contains(allowed.last()) {
            before.push(allowed.last())
        } else {
            before
        }
    }
}

/// The flags of a call, each of `allowed` at most once, or the first one that is not allowed. White
/// space around them and dashes before them do not count.
pub open spec fn flags_of(flags: Option<Seq<char>>, allowed: Seq<char>) -> Result<Seq<char>, char> {
    let raw = match flags {
        Some(flags) => without_prefixes(trimmed(flags), seq!['-']),
        None => Seq::empty(),
    };
    match first_other(raw, allowed) {
        Some(other) => Err(other),
        None => Ok(present(raw, allowed)),
    }
}

/// The flags that `ls` is called with.
pub open spec fn ls_flags(flags: Option<Seq<char>>) -> Result<Seq<char>, Seq<char>> {
    match flags_of(flags, seq!['a', 'l', 'R']) {
        Ok(flags) => Ok(flags),
        Err(other) => Err(
            "Unsupported ls flag: "@.push(other) + ". Only a, l, and R are supported."@,
        ),
    }
}

/// The flags that `cat` is called with.
pub open spec fn cat_flags(flags: Option<Seq<char>>) -> Result<Seq<char>, Seq<char>> {
    match flags_of(flags, seq!['n']) {
        Ok(flags) => Ok(flags),
        Err(other) => Err("Unsupported cat flag: "@.push(other) + ". Only n is supported."@),
    }
}

/// What is left of a call's flags without white space around them and dashes before them.
fn raw_flags(flags: Option<&str>) -> (raw: String)
    ensures
        raw@ == match flags {
            Some(flags) => without_prefixes(trimmed(flags@), seq!['-']),
            None => Seq::empty(),
        },
{
    proof {
        reveal_strlit("-");
        assert("-"@ =~= seq!['-']);
    }
    match flags {
        Some(flags) => trim_start_matches(trim(flags).as_str(), "-"),
        None => String::new(),
    }
}

/// The first character of `text` that is none of `allowed`.
fn find_other(text: &str, allowed: &Vec<char>) -> (other: Option<char>)
    ensures
        other == first_other(text@, allowed@),
{
    let chars = to_chars(text);
    let mut i: usize = 0;
    assert(chars@.skip(0) =~= chars@);
    while i < chars.len()
        invariant
            i <= chars@.len(),
            chars@ == text@,
            first_other(chars@, allowed@) == first_other(chars@.skip(i as int), allowed@),
        decreases chars@.len() - i,
    {
        assert(chars@.skip(i as int)[0] == chars@[i as int]);
        assert(chars@.skip(i as int).drop_first() =~= chars@.skip(i + 1));
        let mut found = false;
        let mut k: usize = 0;
        while k < allowed.len()
            invariant
                i < chars@.len(),
                k <= allowed@.len(),
                found == allowed@.take(k as int).contains(chars@[i as int]),
            decreases allowed@.len() - k,
        {
            proof {
                let so_far = allowed@.take(k + 1);
                if found {
                    let at = choose|at: int|
                        0 <= at < k && allowed@.take(k as int)[at] == chars@[i as int];
                    assert(so_far[at] == chars@[i as int]);
                }
                if allowed@[k as int] == chars@[i as int] {
                    assert(so_far[k as int] == chars@[i as int]);
                }
                if so_far.contains(chars@[i as int]) && allowed@[k as int] != chars@[i as int] {
                    let at = choose|at: int| 0 <= at < k + 1 && so_far[at] == chars@[i as int];
                    assert(allowed@.take(k as int)[at] == chars@[i as int]);
                }
            }
            if allowed[k] == chars[i] {
                found = true;
            }
            k += 1;
        }
        assert(allowed@.take(k as int) =~= allowed@);
        if !found {
            return Some(chars[i]);
        }
        i += 1;
    }
    None
}

/// The flags that `ls` is called with.
pub fn parse_ls_flags(flags: Option<&str>) -> (parsed: Result<String, String>)
    ensures
        result_view(parsed) == ls_flags(option_view(flags)),
{
    let raw = raw_flags(flags);
    let allowed = vec!['a', 'l', 'R'];
    assert(allowed@ =~= seq!['a', 'l', 'R']);
    if let Some(other) = find_other(raw.as_str(), &allowed) {
        let mut message = "Unsupported ls flag: ".to_owned();
        message.push(other);
        message.append(". Only a, l, and R are supported.");
        return Err(message);
    }
    let mut chosen = String::new();
    if contains_char(raw.as_str(), 'a') {
        chosen.push('a');
    }
    if contains_char(raw.as_str(), 'l') {
        chosen.push('l');
    }
    if contains_char(raw.as_str(), 'R') {
        chosen.push('R');
    }
    proof {
        reveal_with_fuel(present, 4);
        assert(seq!['a', 'l', 'R'].drop_last() =~= seq!['a', 'l']);
        assert(seq!['a', 'l'].drop_last() =~= seq!['a']);
        assert(seq!['a'].drop_last() =~= Seq::<char>::empty());
    }
    Ok(chosen)
}

/// The flags that `cat` is called with.
pub fn parse_cat_flags(flags: Option<&str>) -> (parsed: Result<String, String>)
    ensures
        result_view(parsed) == cat_flags(option_view(flags)),
{
    let raw = raw_flags(flags);
    let allowed = vec!['n'];
    assert(allowed@ =~= seq!['n']);
    if let Some(other) = find_other(raw.as_str(), &allowed) {
        let mut message = "Unsupported cat flag: ".to_owned();
        message.push(other);
        message.append(". Only n is supported.");
        return Err(message);
    }
    let mut chosen = String::new();
    if contains_char(raw.as_str(), 'n') {
        chosen.push('n');
    }
    proof {
        reveal_with_fuel(present, 2);
        assert(seq!['n'].drop_last() =~= Seq::<char>::empty());
    }
    Ok(chosen)
}

/// A call of `ls` as a command line.
pub open spec fn ls_command(path: Seq<char>, flags: Seq<char>) -> Seq<char> {
    if flags.len() == 0 {
        "ls "@ + path
    } else {
        "ls -"@ + flags + " "@ + path
    }
}

/// A call of `ls` as a command line.
pub fn format_ls_command(path: &str, flags: &str) -> (command: String)
    ensures
        command@ == ls_command(path@, flags@),
{
    if flags.is_empty() {
        let mut command = "ls ".to_owned();
        command.append(path);
        command
    } else {
        let mut command = "ls -".to_owned();
        command.append(flags);
        command.append(" ");
        command.append(path);
        command
    }
}

/// A call of `cat` as a command line.
pub open spec fn cat_command(
    path: Seq<char>,
    pattern: Option<Seq<char>>,
    flags: Seq<char>,
) -> Seq<char> {
    match pattern {
        Some(pattern) => if flags.contains('n') {
            "grep -n '"@ + pattern + "' "@ + path
        } else {
            "grep '"@ + pattern + "' "@ + path
        },
        None => if flags.contains('n') {
            "cat -n "@ + path
        } else {
            "cat "@ + path
        },
    }
}

/// A call of `cat` as a command line.
pub fn format_cat_command(path: &str, pattern: Option<&str>, flags: &str) -> (command: String)
    ensures
        command@ == cat_command(path@, option_view(pattern), flags@),
{
    let line_numbers = contains_char(flags, 'n');
    let mut command = match pattern {
        Some(pattern) => {
            let mut command = if line_numbers {
                "grep -n '".to_owned()
            } else {
                "grep '".to_owned()
            };
            command.append(pattern);
            command.append("' ");
            command
        },
        None => if line_numbers {
            "cat -n ".to_owned()
        } else {
            "cat ".to_owned()
        },
    };
    command.append(path);
    command
}

/// A call of `sed` as a command line.
pub open spec fn sed_command(path: Seq<char>, expression: Seq<char>) -> Seq<char> {
    "sed -i '"@ + expression + "' "@ + path
}

/// A call of `sed` as a command line.
pub fn format_sed_command(path: &str, expression: &str) -> (command: String)
    ensures
        command@ == sed_command(path@, expression@),
{
    let mut command = "sed -i '".to_owned();
    command.append(expression);
    command.append("' ");
    command.append(path);
    command
}

/// The text of what may be a string, by reference.
pub fn as_deref(text: &Option<String>) -> (reference: Option<&str>)
    ensures
        option_view(reference) == string_view(*text),
{
    match text {
        Some(text) => Some(text.as_str()),
        None => None,
    }
}

/// The flags of a call in words.
pub open spec fn flags_line(flags: Seq<char>) -> Seq<char> {
    if flags.len() == 0 {
        "flags: (none)"@
    } else {
        "flags: "@ + flags
    }
}

fn format_flags(flags: &str) -> (line: String)
    ensures
        line@ == flags_line(flags@),
{
    if flags.is_empty() {
        "flags: (none)".to_owned()
    } else {
        labelled("flags: ", flags)
    }
}

/// A label and a text.
fn labelled(label: &str, text: &str) -> (line: String)
    ensures
        line@ == label@ + text@,
{
    let mut line = label.to_owned();
    line.append(text);
    line
}

/// How the arguments of a call of `ls` are shown: what it does, or what is wrong with them.
pub open spec fn shown_ls(arguments: JsonView, home: Option<Seq<char>>) -> Seq<char> {
    let parsed = normal_arguments(arguments);
    match (path_of(parsed, home), ls_flags(parsed.text_field("flags"@))) {
        (Ok(path), Ok(flags)) => joined(
            seq!["command: "@ + ls_command(path, flags), "path: "@ + path, flags_line(flags)],
            "\n"@,
        ),
        (Err(message), _) => message,
        (_, Err(message)) => message,
    }
}

/// How the arguments of a call of `ls` are shown.
pub fn format_ls_arguments(arguments: &Json, home: Option<&str>) -> (shown: String)
    ensures
        shown@ == shown_ls(arguments@, option_view(home)),
{
    let parsed = normalize_arguments(arguments);
    match (path_from_arguments(&parsed, home), parse_ls_flags(parsed.get_str("flags"))) {
        (Ok(path), Ok(flags)) => {
            let command = format_ls_command(path.as_str(), flags.as_str());
            let lines = vec![
                labelled("command: ", command.as_str()),
                labelled("path: ", path.as_str()),
                format_flags(flags.as_str()),
            ];
            assert(views(lines@) =~= seq![
                "command: "@ + ls_command(path@, flags@),
                "path: "@ + path@,
                flags_line(flags@),
            ]);
            join(&lines, "\n")
        },
        (Err(message), _) => message,
        (_, Err(message)) => message,
    }
}

/// The lines that show a call of `cat`.
pub open spec fn cat_lines(
    path: Seq<char>,
    pattern: Option<Seq<char>>,
    flags: Seq<char>,
) -> Seq<Seq<char>> {
    let command = "command: "@ + cat_command(path, pattern, flags);
    match pattern {
        Some(pattern) => seq![
            command,
            "path: "@ + path,
            "pattern: "@ + pattern,
            flags_line(flags),
        ],
        None => seq![command, "path: "@ + path, flags_line(flags)],
    }
}

/// How the arguments of a call of `cat` are shown: what it does, or what is wrong with them.
pub open spec fn shown_cat(arguments: JsonView, home: Option<Seq<char>>) -> Seq<char> {
    let parsed = normal_arguments(arguments);
    match (path_of(parsed, home), cat_flags(parsed.text_field("flags"@))) {
        (Ok(path), Ok(flags)) => joined(cat_lines(path, pattern_of(parsed), flags), "\n"@),
        (Err(message), _) => message,
        (_, Err(message)) => message,
    }
}

/// How the arguments of a call of `cat` are shown.
pub fn format_cat_arguments(arguments: &Json, home: Option<&str>) -> (shown: String)
    ensures
        shown@ == shown_cat(arguments@, option_view(home)),
{
    let parsed = normalize_arguments(arguments);
    match (path_from_arguments(&parsed, home), parse_cat_flags(parsed.get_str("flags"))) {
        (Ok(path), Ok(flags)) => {
            let pattern = grep_pattern_from_arguments(&parsed);
            let command = format_cat_command(path.as_str(), as_deref(&pattern), flags.as_str());
            let mut lines: Vec<String> = Vec::new();
            lines.push(labelled("command: ", command.as_str()));
            lines.push(labelled("path: ", path.as_str()));
            if let Some(pattern) = &pattern {
                lines.push(labelled("pattern: ", pattern.as_str()));
            }
            lines.push(format_flags(flags.as_str()));
            assert(views(lines@) =~= cat_lines(path@, string_view(pattern), flags@));
            join(&lines, "\n")
        },
        (Err(message), _) => message,
        (_, Err(message)) => message,
    }
}

/// How the arguments of a call of `sed` are shown: what it does, or what is wrong with them.
pub open spec fn shown_sed(arguments: JsonView, home: Option<Seq<char>>) -> Seq<char> {
    match (path_of(arguments, home), expression_of(arguments)) {
        (Ok(path), Ok(expression)) => "command: "@ + sed_command(path, expression)
            + "\nexpression: "@ + expression + "\npath: "@ + path,
        (Err(message), _) => message,
        (_, Err(message)) => message,
    }
}

/// How the arguments of a call of `sed` are shown.
pub fn format_sed_arguments(arguments: &Json, home: Option<&str>) -> (shown: String)
    ensures
        shown@ == shown_sed(arguments@, option_view(home)),
{
    match (path_from_arguments(arguments, home), sed_expression_from_arguments(arguments)) {
        (Ok(path), Ok(expression)) => {
            let mut shown = "command: ".to_owned();
            shown.append(format_sed_command(path.as_str(), expression.as_str()).as_str());
            shown.append("\nexpression: ");
            shown.append(expression.as_str());
            shown.append("\npath: ");
            shown.append(path.as_str());
            shown
        },
        (Err(message), _) => message,
        (_, Err(message)) => message,
    }
}

/// How the arguments of a call are shown.
pub open spec fn shown_arguments(call: CallView, home: Option<Seq<char>>) -> Seq<char> {
    let parsed = normal_arguments(call.arguments);
    if call.name == "web_search"@ {
        match parsed.text_field("query"@) {
            Some(query) => "query: "@ + query,
            None => "query: (missing)"@,
        }
    } else if call.name == "ls"@ {
        shown_ls(parsed, home)
    } else if call.name == "cat"@ {
        shown_cat(parsed, home)
    } else if call.name == "sed"@ {
        shown_sed(parsed, home)
    } else if call.name == "run_command"@ {
        match command_of(parsed) {
            Ok(command) => "command: "@ + command,
            Err(message) => message,
        }
    } else {
        pretty_text(parsed)
    }
}

/// How the arguments of a call are shown.
pub fn format_tool_arguments(invocation: &ToolInvocation, home: Option<&str>) -> (shown: String)
    ensures
        shown@ == shown_arguments(invocation@, option_view(home)),
{
    let parsed = normalize_arguments(&invocation.arguments);
    let name = invocation.name.as_str();
    if same_text(name, "web_search") {
        match parsed.get_str("query") {
            Some(query) => labelled("query: ", query),
            None => "query: (missing)".to_owned(),
        }
    } else if same_text(name, "ls") {
        format_ls_arguments(&parsed, home)
    } else if same_text(name, "cat") {
        format_cat_arguments(&parsed, home)
    } else if same_text(name, "sed") {
        format_sed_arguments(&parsed, home)
    } else if same_text(name, "run_command") {
        match command_from_arguments(&parsed) {
            Ok(command) => labelled("command: ", command.as_str()),
            Err(message) => message,
        }
    } else {
        parsed.to_pretty_text()
    }
}

/// The text under `key`, or nothing.
pub open spec fn text_or_nothing(arguments: JsonView, key: Seq<char>) -> Seq<char> {
    match arguments.text_field(key) {
        Some(text) => text,
        None => Seq::empty(),
    }
}

/// What is noted of a call while it is made.
pub open spec fn preview(call: CallView, home: Option<Seq<char>>) -> Seq<char> {
    let flags = text_or_nothing(call.arguments, "flags"@);
    if call.name == "web_search"@ {
        match call.arguments.text_field("query"@) {
            Some(query) => " ("@ + query + ")"@,
            None => Seq::empty(),
        }
    } else if call.name == "ls"@ {
        match path_of(call.arguments, home) {
            Ok(path) => " (ls "@ + flags + " "@ + path + ")"@,
            Err(_) => Seq::empty(),
        }
    } else if call.name == "cat"@ {
        match path_of(call.arguments, home) {
            Ok(path) => " ("@ + cat_command(path, pattern_of(call.arguments), flags) + ")"@,
            Err(_) => Seq::empty(),
        }
    } else if call.name == "sed"@ {
        match (path_of(call.arguments, home), expression_of(call.arguments)) {
            (Ok(path), Ok(expression)) => " ("@ + sed_command(path, expression) + ")"@,
            _ => Seq::empty(),
        }
    } else if call.name == "run_command"@ {
        match command_of(call.arguments) {
            Ok(command) => "\n  `$ "@ + command + "`"@,
            Err(_) => Seq::empty(),
        }
    } else {
        Seq::empty()
    }
}

/// `inner` with a text before it and one behind it.
fn enclosed(before: &str, inner: &str, behind: &str) -> (text: String)
    ensures
        text@ == before@ + inner@ + behind@,
{
    let mut text = before.to_owned();
    text.append(inner);
    text.append(behind);
    text
}

/// What is noted of a call while it is made.
pub fn tool_preview(invocation: &ToolInvocation, home: Option<&str>) -> (noted: String)
    ensures
        noted@ == preview(invocation@, option_view(home)),
{
    let arguments = &invocation.arguments;
    let name = invocation.name.as_str();
    let flags = match arguments.get_str("flags") {
        Some(flags) => flags.to_owned(),
        None => String::new(),
    };
    if same_text(name, "web_search") {
        if let Some(query) = arguments.get_str("query") {
            return enclosed(" (", query, ")");
        }
    } else if same_text(name, "ls") {
        if let Ok(path) = path_from_arguments(arguments, home) {
            let mut noted = " (ls ".to_owned();
            noted.append(flags.as_str());
            noted.append(" ");
            noted.append(path.as_str());
            noted.append(")");
            return noted;
        }
    } else if same_text(name, "cat") {
        if let Ok(path) = path_from_arguments(arguments, home) {
            let pattern = grep_pattern_from_arguments(arguments);
            let command = format_cat_command(path.as_str(), as_deref(&pattern), flags.as_str());
            return enclosed(" (", command.as_str(), ")");
        }
    } else if same_text(name, "sed") {
        if let (Ok(path), Ok(expression)) = (
            path_from_arguments(arguments, home),
            sed_expression_from_arguments(arguments),
        ) {
            let command = format_sed_command(path.as_str(), expression.as_str());
            return enclosed(" (", command.as_str(), ")");
        }
    } else if same_text(name, "run_command") {
        if let Ok(command) = command_from_arguments(arguments) {
            return enclosed("\n  `$ ", command.as_str(), "`");
        }
    }
    String::new()
}

/// Appends to the thinking what is noted of a call while it is made.
pub fn append_tool_preview(thinking: &mut String, invocation: &ToolInvocation, home: Option<&str>)
    ensures
        final(thinking)@ == old(thinking)@ + preview(invocation@, option_view(home)),
{
    thinking.append(tool_preview(invocation, home).as_str());
}

/// What is present of `allowed` in a text is what both hold.
proof fn present_holds(text: Seq<char>, allowed: Seq<char>, c: char)
    ensures
        present(text, allowed).contains(c) <==> text.contains(c) && allowed.contains(c),
    decreases allowed.len(),
{
    if allowed.len() > 0 {
        let before = present(text, allowed.drop_last());
        present_holds(text, allowed.drop_last(), c);
        let last = allowed.last();
        if before.contains(c) {
            let at = choose|at: int| 0 <= at < before.len() && before[at] == c;
            assert(before.push(last)[at] == c);
        }
        if before.push(last).contains(c) && c != last {
            let at = choose|at: int| 0 <= at < before.push(last).len() && before.push(last)[at] == c;
            assert(before[at] == c);
        }
        if allowed.drop_last().contains(c) {
            let at = choose|at: int|
                0 <= at < allowed.drop_last().len() && allowed.drop_last()[at] == c;
            assert(allowed[at] == c);
        }
        if allowed.contains(c) && c != last {
            let at = choose|at: int| 0 <= at < allowed.len() && allowed[at] == c;
            assert(allowed.drop_last()[at] == c);
        }
        if text.contains(last) {
            assert(before.push(last)[before.len() as int] == last);
        }
        assert(allowed[allowed.len() - 1] == last);
    }
}

/// What is present of `allowed` depends on nothing but which of it a text holds.
proof fn present_depends(text: Seq<char>, other: Seq<char>, allowed: Seq<char>)
    requires
        forall|c: char| #[trigger] allowed.contains(c) ==> text.contains(c) == other.contains(c),
    ensures
        present(text, allowed) == present(other, allowed),
    decreases allowed.len(),
{
    if allowed.len() > 0 {
        let before = allowed.drop_last();
        assert forall|c: char| #[trigger] before.contains(c) implies text.contains(c)
            == other.contains(c) by {
            let at = choose|at: int| 0 <= at < before.len() && before[at] == c;
            assert(allowed[at] == c);
            assert(allowed.contains(c));
        }
        present_depends(text, other, before);
        assert(allowed[allowed.len() - 1] == allowed.last());
        assert(allowed.contains(allowed.last()));
    }
}

/// A text of allowed characters holds no other.
proof fn no_other(text: Seq<char>, allowed: Seq<char>)
    requires
        forall|i: int| 0 <= i < text.len() ==> allowed.contains(#[trigger] text[i]),
    ensures
        first_other(text, allowed) is None,
    decreases text.len(),
{
    if text.len() > 0 {
        assert(allowed.contains(text[0]));
        assert forall|i: int| 0 <= i < text.drop_first().len() implies allowed.contains(
            #[trigger] text.drop_first()[i],
        ) by {
            assert(text.drop_first()[i] == text[i + 1]);
        }
        no_other(text.drop_first(), allowed);
    }
}

/// Flags that were read are read again as they are.
proof fn flags_read_again(flags: Option<Seq<char>>, allowed: Seq<char>)
    requires
        forall|i: int|
            0 <= i < allowed.len() ==> !is_white(#[trigger] allowed[i]) && allowed[i] != '-',
        flags_of(flags, allowed) is Ok,
    ensures
        flags_of(Some(flags_of(flags, allowed)->Ok_0), allowed) == flags_of(flags, allowed),
{
    let raw = match flags {
        Some(flags) => without_prefixes(trimmed(flags), seq!['-']),
        None => Seq::empty(),
    };
    let read = present(raw, allowed);
    assert forall|i: int| 0 <= i < read.len() implies allowed.contains(#[trigger] read[i])
        && !is_white(read[i]) && read[i] != '-' by {
        assert(read.contains(read[i]));
        present_holds(raw, allowed, read[i]);
        let at = choose|at: int| 0 <= at < allowed.len() && allowed[at] == read[i];
        assert(!is_white(allowed[at]));
    }
    assert(trimmed(read) == read);
    assert(!seq!['-'].is_prefix_of(read)) by {
        if seq!['-'].is_prefix_of(read) {
            assert(read.subrange(0, 1)[0] == '-');
            assert(read[0] == '-');
        }
    }
    assert(without_prefixes(trimmed(read), seq!['-']) == read);
    no_other(read, allowed);
    assert forall|c: char| #[trigger] allowed.contains(c) implies read.contains(c)
        == raw.contains(c) by {
        present_holds(raw, allowed, c);
    }
    present_depends(read, raw, allowed);
}

/// Flags that were read are read again as they are: each stands once, in a fixed order.
pub proof fn flags_are_read_once(flags: Option<Seq<char>>)
    ensures
        ls_flags(flags) matches Ok(read) ==> ls_flags(Some(read)) == Ok::<Seq<char>, Seq<char>>(
            read,
        ),
        cat_flags(flags) matches Ok(read) ==> cat_flags(Some(read)) == Ok::<Seq<char>, Seq<char>>(
            read,
        ),
{
    if ls_flags(flags) is Ok {
        flags_read_again(flags, seq!['a', 'l', 'R']);
    }
    if cat_flags(flags) is Ok {
        flags_read_again(flags, seq!['n']);
    }
}

/// An argument is read from its key: where a text stands there that is not blank, that text without
/// white space around it, and else nothing.
pub proof fn arguments_are_read_by_key(arguments: JsonView, key: Seq<char>)
    ensures
        match arguments.field(key) {
            Some(JsonView::Text(text)) => given_text(arguments, key) == if blank(text) {
                None
            } else {
                Some(trimmed(text))
            },
            _ => given_text(arguments, key) is None,
        },
{
    if let Some(text) = arguments.text_field(key) {
        trimmed_is_empty(text);
    }
}

/// The command, the expression and the pattern of a call are what stands under their keys; a call
/// without its command or its expression is refused, and one without a pattern has none.
pub proof fn call_arguments_stand_under_their_keys(entries: Map<Seq<char>, JsonView>)
    ensures
        ({
            let arguments = JsonView::Object(entries);
            &&& command_of(arguments) matches Ok(command) ==> {
                &&& entries.contains_key("command"@)
                &&& entries["command"@] matches JsonView::Text(text) && !blank(text) && command
                    == trimmed(text)
            }
            &&& expression_of(arguments) matches Ok(expression) ==> {
                &&& entries.contains_key("expression"@)
                &&& entries["expression"@] matches JsonView::Text(text) && !blank(text)
                    && expression == trimmed(text)
            }
            &&& pattern_of(arguments) matches Some(pattern) ==> {
                &&& entries.contains_key("pattern"@)
                &&& entries["pattern"@] matches JsonView::Text(text) && !blank(text) && pattern
                    == trimmed(text)
            }
        }),
        ({
            let arguments = JsonView::Object(entries);
            &&& entries.contains_key("command"@) && (entries["command"@] matches JsonView::Text(
                text,
            ) && !blank(text)) ==> command_of(arguments) is Ok
            &&& entries.contains_key("expression"@) && (
            entries["expression"@] matches JsonView::Text(text) && !blank(text)) ==> expression_of(
                arguments,
            ) is Ok
            &&& entries.contains_key("pattern"@) && (entries["pattern"@] matches JsonView::Text(
                text,
            ) && !blank(text)) ==> pattern_of(arguments) is Some
        }),
{
    let arguments = JsonView::Object(entries);
    arguments_are_read_by_key(arguments, "command"@);
    arguments_are_read_by_key(arguments, "expression"@);
    arguments_are_read_by_key(arguments, "pattern"@);
}

/// The path of a call is what stands under `path`, as it is where it does not start with `~`; a call
/// without a path is refused.
pub proof fn call_path_stands_under_its_key(
    entries: Map<Seq<char>, JsonView>,
    home: Option<Seq<char>>,
)
    ensures
        ({
            let path = path_of(JsonView::Object(entries), home);
            match JsonView::Object(entries).field("path"@) {
                Some(JsonView::Text(text)) => {
                    &&& blank(text) ==> path is Err
                    &&& !blank(text) && trimmed(text)[0] != '~' ==> path == Ok::<
                        Seq<char>,
                        Seq<char>,
                    >(trimmed(text))
                    &&& !blank(text) && home is Some ==> path is Ok
                },
                _ => path is Err,
            }
        }),
{
    let arguments = JsonView::Object(entries);
    arguments_are_read_by_key(arguments, "path"@);
    if let Some(text) = given_text(arguments, "path"@) {
        if text.len() > 0 && text[0] != '~' {
            assert(text != seq!['~']);
            if seq!['~', '/'].is_prefix_of(text) {
                assert(seq!['~', '/'][0] == text.subrange(0, 2)[0]);
            }
        }
    }
}

/// An expression for `sed` is refused exactly where it holds a line feed or starts with a dash.
pub proof fn expressions_are_single_lines(expression: Seq<char>)
    ensures
        expression_fault(expression) is None <==> !expression.contains('\n') && !(expression.len()
            > 0 && expression[0] == '-'),
{
}

/// No other character is found exactly where all are allowed.
proof fn others_are_found(text: Seq<char>, allowed: Seq<char>)
    ensures
        first_other(text, allowed) is None <==> forall|i: int|
            0 <= i < text.len() ==> allowed.contains(#[trigger] text[i]),
        first_other(text, allowed) matches Some(c) ==> text.contains(c) && !allowed.contains(c),
    decreases text.len(),
{
    if text.len() > 0 {
        let rest = text.drop_first();
        others_are_found(rest, allowed);
        if allowed.contains(text[0]) {
            if first_other(text, allowed) is None {
                assert forall|i: int| 0 <= i < text.len() implies allowed.contains(
                    #[trigger] text[i],
                ) by {
                    if i > 0 {
                        assert(allowed.contains(rest[i - 1]));
                    }
                }
            } else {
                let c = first_other(text, allowed)->0;
                let i = choose|i: int| 0 <= i < rest.len() && rest[i] == c;
                assert(text[i + 1] == c);
            }
            if forall|i: int| 0 <= i < text.len() ==> allowed.contains(#[trigger] text[i]) {
                assert forall|i: int| 0 <= i < rest.len() implies allowed.contains(
                    #[trigger] rest[i],
                ) by {
                    assert(allowed.contains(text[i + 1]));
                }
            }
        } else {
            assert(text[0] == first_other(text, allowed)->0);
        }
    }
}

/// What is no dash stays when dashes are taken off.
proof fn dashes_are_taken_off(text: Seq<char>, c: char)
    requires
        c != '-',
        text.contains(c),
    ensures
        without_prefixes(text, seq!['-']).contains(c),
    decreases text.len(),
{
    if seq!['-'].is_prefix_of(text) {
        let i = choose|i: int| 0 <= i < text.len() && text[i] == c;
        assert(text.subrange(0, 1)[0] == '-');
        assert(text.skip(1)[i - 1] == c);
        dashes_are_taken_off(text.skip(1), c);
    }
}

/// What is no white space stays when a text is trimmed.
proof fn trimmed_keeps(text: Seq<char>, c: char)
    requires
        !is_white(c),
        text.contains(c),
    ensures
        trimmed(text).contains(c),
{
    let from = trimming(text);
    let i = choose|i: int| 0 <= i < text.len() && text[i] == c;
    let to = from + trimmed(text).len();
    if i < from {
        assert(text.take(from)[i] == c);
    } else if i >= to {
        assert(text.skip(to)[i - to] == c);
    } else {
        assert(trimmed(text)[i - from] == c);
    }
}

/// Flags that are all allowed are read as they are given, with or without a dash before them.
proof fn allowed_flags_are_read(text: Seq<char>, allowed: Seq<char>)
    requires
        forall|i: int|
            0 <= i < allowed.len() ==> !is_white(#[trigger] allowed[i]) && allowed[i] != '-',
        forall|i: int| 0 <= i < text.len() ==> allowed.contains(#[trigger] text[i]),
    ensures
        flags_of(Some(text), allowed) matches Ok(flags) && forall|c: char|
            #[trigger] flags.contains(c) <==> text.contains(c),
        flags_of(Some(seq!['-'] + text), allowed) == flags_of(Some(text), allowed),
{
    assert forall|i: int| 0 <= i < text.len() implies !is_white(#[trigger] text[i]) && text[i]
        != '-' by {
        assert(allowed.contains(text[i]));
        let k = choose|k: int| 0 <= k < allowed.len() && allowed[k] == text[i];
        assert(!is_white(allowed[k]));
    }
    let dashed = seq!['-'] + text;
    trimming_nothing(text);
    trimming_nothing(dashed);
    prefixes_are_taken_off(text, seq!['-']);
    if seq!['-'].is_prefix_of(text) {
        assert(text.subrange(0, 1)[0] == '-');
        assert(text[0] == '-');
    }
    others_are_found(text, allowed);
    assert forall|c: char| #[trigger] present(text, allowed).contains(c) <==> text.contains(c) by {
        present_holds(text, allowed, c);
        if text.contains(c) {
            let i = choose|i: int| 0 <= i < text.len() && text[i] == c;
            assert(allowed.contains(text[i]));
        }
    }
}

/// A character that is not allowed, and is no dash and no white space, is refused.
proof fn other_flags_are_refused(text: Seq<char>, allowed: Seq<char>, c: char)
    requires
        text.contains(c),
        !allowed.contains(c),
        c != '-',
        !is_white(c),
    ensures
        flags_of(Some(text), allowed) is Err,
{
    trimmed_keeps(text, c);
    dashes_are_taken_off(trimmed(text), c);
    let raw = without_prefixes(trimmed(text), seq!['-']);
    others_are_found(raw, allowed);
    let i = choose|i: int| 0 <= i < raw.len() && raw[i] == c;
    assert(raw[i] == c);
}

/// The flags of `ls` are those that are given, of a, l and R; any other is refused. Without any it
/// has none.
#[verifier::rlimit(40)]
pub proof fn ls_takes_its_flags(text: Seq<char>)
    ensures
        ls_flags(None) == Ok::<Seq<char>, Seq<char>>(Seq::empty()),
        (forall|i: int|
            0 <= i < text.len() ==> (#[trigger] text[i] == 'a' || text[i] == 'l' || text[i] == 'R'))
            ==> {
            &&& ls_flags(Some(text)) matches Ok(flags) && forall|c: char|
                #[trigger] flags.contains(c) <==> text.contains(c)
            &&& ls_flags(Some(seq!['-'] + text)) == ls_flags(Some(text))
        },
        (exists|i: int|
            0 <= i < text.len() && #[trigger] text[i] != 'a' && text[i] != 'l' && text[i] != 'R'
                && text[i] != '-' && !is_white(text[i])) ==> ls_flags(Some(text)) is Err,
{
    let allowed = seq!['a', 'l', 'R'];
    reveal_with_fuel(present, 4);
    assert(allowed.drop_last() =~= seq!['a', 'l']);
    assert(seq!['a', 'l'].drop_last() =~= seq!['a']);
    assert(seq!['a'].drop_last() =~= Seq::<char>::empty());
    assert(allowed[0] == 'a' && allowed[1] == 'l' && allowed[2] == 'R');
    if forall|i: int|
        0 <= i < text.len() ==> (#[trigger] text[i] == 'a' || text[i] == 'l' || text[i] == 'R') {
        assert forall|i: int| 0 <= i < text.len() implies allowed.contains(#[trigger] text[i]) by {
        }
        allowed_flags_are_read(text, allowed);
    }
    if exists|i: int|
        0 <= i < text.len() && #[trigger] text[i] != 'a' && text[i] != 'l' && text[i] != 'R'
            && text[i] != '-' && !is_white(text[i]) {
        let i = choose|i: int|
            0 <= i < text.len() && #[trigger] text[i] != 'a' && text[i] != 'l' && text[i] != 'R'
                && text[i] != '-' && !is_white(text[i]);
        other_flags_are_refused(text, allowed, text[i]);
    }
}

/// The one flag of `cat` is n; any other is refused. Without any it has none.
pub proof fn cat_takes_its_flag(text: Seq<char>)
    ensures
        cat_flags(None) == Ok::<Seq<char>, Seq<char>>(Seq::empty()),
        (forall|i: int| 0 <= i < text.len() ==> #[trigger] text[i] == 'n') ==> {
            &&& cat_flags(Some(text)) matches Ok(flags) && forall|c: char|
                #[trigger] flags.contains(c) <==> text.contains(c)
            &&& cat_flags(Some(seq!['-'] + text)) == cat_flags(Some(text))
        },
        (exists|i: int|
            0 <= i < text.len() && #[trigger] text[i] != 'n' && text[i] != '-' && !is_white(
                text[i],
            )) ==> cat_flags(Some(text)) is Err,
{
    let allowed = seq!['n'];
    reveal_with_fuel(present, 2);
    assert(allowed.drop_last() =~= Seq::<char>::empty());
    assert(allowed[0] == 'n');
    if forall|i: int| 0 <= i < text.len() ==> #[trigger] text[i] == 'n' {
        assert forall|i: int| 0 <= i < text.len() implies allowed.contains(#[trigger] text[i]) by {
        }
        allowed_flags_are_read(text, allowed);
    }
    if exists|i: int|
        0 <= i < text.len() && #[trigger] text[i] != 'n' && text[i] != '-' && !is_white(text[i]) {
        let i = choose|i: int|
            0 <= i < text.len() && #[trigger] text[i] != 'n' && text[i] != '-' && !is_white(
                text[i],
            );
        other_flags_are_refused(text, allowed, text[i]);
    }
}

/// The command line of `ls` is its name, its flags behind a dash where it has any, and the path.
pub proof fn ls_command_line(path: Seq<char>, flags: Seq<char>)
    ensures
        flags.len() == 0 ==> ls_command(path, flags) == joined(seq!["ls"@, path], " "@),
        flags.len() > 0 ==> ls_command(path, flags) == joined(
            seq!["ls"@, "-"@ + flags, path],
            " "@,
        ),
{
    reveal_strlit("ls");
    reveal_strlit("ls ");
    reveal_strlit("ls -");
    reveal_strlit("-");
    reveal_strlit(" ");
    reveal_with_fuel(joined, 4);
    assert(seq!["ls"@, path].drop_last() =~= seq!["ls"@]);
    assert(seq!["ls"@, "-"@ + flags, path].drop_last() =~= seq!["ls"@, "-"@ + flags]);
    assert(seq!["ls"@, "-"@ + flags].drop_last() =~= seq!["ls"@]);
    assert(flags.len() == 0 ==> ls_command(path, flags) =~= joined(seq!["ls"@, path], " "@));
    assert(flags.len() > 0 ==> ls_command(path, flags) =~= joined(
        seq!["ls"@, "-"@ + flags, path],
        " "@,
    ));
}

/// The command line of `cat` is the program, `-n` where the flags hold it, the pattern in quotes where
/// there is one, and the path; with a pattern the program is `grep`.
#[verifier::rlimit(40)]
pub proof fn cat_command_line(path: Seq<char>, pattern: Seq<char>, flags: Seq<char>)
    ensures
        !flags.contains('n') ==> {
            &&& cat_command(path, None, flags) == joined(seq!["cat"@, path], " "@)
            &&& cat_command(path, Some(pattern), flags) == joined(
                seq!["grep"@, "'"@ + pattern + "'"@, path],
                " "@,
            )
        },
        flags.contains('n') ==> {
            &&& cat_command(path, None, flags) == joined(seq!["cat"@, "-n"@, path], " "@)
            &&& cat_command(path, Some(pattern), flags) == joined(
                seq!["grep"@, "-n"@, "'"@ + pattern + "'"@, path],
                " "@,
            )
        },
{
    reveal_strlit("cat");
    reveal_strlit("cat ");
    reveal_strlit("cat -n ");
    reveal_strlit("grep");
    reveal_strlit("grep '");
    reveal_strlit("grep -n '");
    reveal_strlit("' ");
    reveal_strlit("'");
    reveal_strlit("-n");
    reveal_strlit(" ");
    reveal_with_fuel(joined, 5);
    let quoted = "'"@ + pattern + "'"@;
    assert(seq!["cat"@, path].drop_last() =~= seq!["cat"@]);
    assert(seq!["cat"@, "-n"@, path].drop_last() =~= seq!["cat"@, "-n"@]);
    assert(seq!["cat"@, "-n"@].drop_last() =~= seq!["cat"@]);
    assert(seq!["grep"@, quoted, path].drop_last() =~= seq!["grep"@, quoted]);
    assert(seq!["grep"@, quoted].drop_last() =~= seq!["grep"@]);
    assert(seq!["grep"@, "-n"@, quoted, path].drop_last() =~= seq!["grep"@, "-n"@, quoted]);
    assert(seq!["grep"@, "-n"@, quoted].drop_last() =~= seq!["grep"@, "-n"@]);
    assert(seq!["grep"@, "-n"@].drop_last() =~= seq!["grep"@]);
    if flags.contains('n') {
        assert(cat_command(path, None, flags) =~= joined(seq!["cat"@, "-n"@, path], " "@));
        assert(cat_command(path, Some(pattern), flags) =~= joined(
            seq!["grep"@, "-n"@, quoted, path],
            " "@,
        ));
    } else {
        assert(cat_command(path, None, flags) =~= joined(seq!["cat"@, path], " "@));
        assert(cat_command(path, Some(pattern), flags) =~= joined(
            seq!["grep"@, quoted, path],
            " "@,
        ));
    }
}

/// The command line of `sed` is its name, `-i`, the expression in quotes, and the path.
pub proof fn sed_command_line(path: Seq<char>, expression: Seq<char>)
    ensures
        sed_command(path, expression) == joined(
            seq!["sed"@, "-i"@, "'"@ + expression + "'"@, path],
            " "@,
        ),
{
    reveal_strlit("sed");
    reveal_strlit("sed -i '");
    reveal_strlit("-i");
    reveal_strlit("' ");
    reveal_strlit("'");
    reveal_strlit(" ");
    reveal_with_fuel(joined, 5);
    let quoted = "'"@ + expression + "'"@;
    assert(seq!["sed"@, "-i"@, quoted, path].drop_last() =~= seq!["sed"@, "-i"@, quoted]);
    assert(seq!["sed"@, "-i"@, quoted].drop_last() =~= seq!["sed"@, "-i"@]);
    assert(seq!["sed"@, "-i"@].drop_last() =~= seq!["sed"@]);
    assert(sed_command(path, expression) =~= joined(seq!["sed"@, "-i"@, quoted, path], " "@));
}

/// What is contained in a part is contained in the whole.
proof fn contained_in_part(text: Seq<char>, part: Seq<char>, inner: Seq<char>)
    requires
        contains_part(text, part),
        contains_part(part, inner),
    ensures
        contains_part(text, inner),
{
    let at = choose|at: int| occurs_at(text, part, at);
    let within = choose|at: int| occurs_at(part, inner, at);
    assert(text.subrange(at + within, at + within + inner.len()) =~= inner) by {
        assert(part.subrange(within, within + inner.len()) =~= inner);
        assert forall|i: int| 0 <= i < inner.len() implies text[at + within + i] == inner[i] by {
            assert(part.subrange(within, within + inner.len())[i] == part[within + i]);
            assert(text.subrange(at, at + part.len())[within + i] == text[at + within + i]);
        }
    }
    assert(occurs_at(text, inner, at + within));
}

/// A labelled text holds the text.
proof fn labelled_text_is_contained(label: Seq<char>, text: Seq<char>)
    ensures
        contains_part(label + text, text),
{
    part_is_contained(label, text, Seq::empty());
    assert(label + text + Seq::<char>::empty() =~= label + text);
}

/// A call of `ls` is shown with its command line and its path, or with what is wrong with it.
pub proof fn ls_is_shown(arguments: JsonView, home: Option<Seq<char>>)
    ensures
        ({
            let parsed = normal_arguments(arguments);
            match (path_of(parsed, home), ls_flags(parsed.text_field("flags"@))) {
                (Ok(path), Ok(flags)) => {
                    &&& contains_part(shown_ls(arguments, home), ls_command(path, flags))
                    &&& contains_part(shown_ls(arguments, home), "path: "@ + path)
                    &&& contains_part(shown_ls(arguments, home), flags)
                },
                (Err(message), _) => shown_ls(arguments, home) == message,
                (_, Err(message)) => shown_ls(arguments, home) == message,
            }
        }),
{
    let parsed = normal_arguments(arguments);
    if let (Ok(path), Ok(flags)) = (
        path_of(parsed, home),
        ls_flags(parsed.text_field("flags"@)),
    ) {
        let lines = seq![
            "command: "@ + ls_command(path, flags),
            "path: "@ + path,
            flags_line(flags),
        ];
        let shown = joined(lines, "\n"@);
        joined_texts_are_contained(lines, "\n"@, 0);
        joined_texts_are_contained(lines, "\n"@, 1);
        joined_texts_are_contained(lines, "\n"@, 2);
        labelled_text_is_contained("command: "@, ls_command(path, flags));
        contained_in_part(shown, lines[0], ls_command(path, flags));
        if flags.len() > 0 {
            labelled_text_is_contained("flags: "@, flags);
        } else {
            assert(flags =~= Seq::empty());
            labelled_text_is_contained(flags_line(flags), Seq::empty());
            assert(flags_line(flags) + Seq::<char>::empty() =~= flags_line(flags));
        }
        contained_in_part(shown, lines[2], flags);
    }
}

/// A call of `cat` is shown with its command line, its path and its pattern, or with what is wrong
/// with it.
pub proof fn cat_is_shown(arguments: JsonView, home: Option<Seq<char>>)
    ensures
        ({
            let parsed = normal_arguments(arguments);
            let pattern = pattern_of(parsed);
            match (path_of(parsed, home), cat_flags(parsed.text_field("flags"@))) {
                (Ok(path), Ok(flags)) => {
                    &&& contains_part(shown_cat(arguments, home), cat_command(path, pattern, flags))
                    &&& contains_part(shown_cat(arguments, home), "path: "@ + path)
                    &&& pattern matches Some(pattern) ==> contains_part(
                        shown_cat(arguments, home),
                        "pattern: "@ + pattern,
                    )
                },
                (Err(message), _) => shown_cat(arguments, home) == message,
                (_, Err(message)) => shown_cat(arguments, home) == message,
            }
        }),
{
    let parsed = normal_arguments(arguments);
    let pattern = pattern_of(parsed);
    if let (Ok(path), Ok(flags)) = (
        path_of(parsed, home),
        cat_flags(parsed.text_field("flags"@)),
    ) {
        let lines = cat_lines(path, pattern, flags);
        joined_texts_are_contained(lines, "\n"@, 0);
        joined_texts_are_contained(lines, "\n"@, 1);
        joined_texts_are_contained(lines, "\n"@, 2);
        labelled_text_is_contained("command: "@, cat_command(path, pattern, flags));
        contained_in_part(joined(lines, "\n"@), lines[0], cat_command(path, pattern, flags));
    }
}

/// A call of `sed` is shown with its command line, its expression and its path, or with what is wrong
/// with it.
pub proof fn sed_is_shown(arguments: JsonView, home: Option<Seq<char>>)
    ensures
        match (path_of(arguments, home), expression_of(arguments)) {
            (Ok(path), Ok(expression)) => {
                &&& contains_part(shown_sed(arguments, home), sed_command(path, expression))
                &&& contains_part(shown_sed(arguments, home), expression)
                &&& contains_part(shown_sed(arguments, home), path)
            },
            (Err(message), _) => shown_sed(arguments, home) == message,
            (_, Err(message)) => shown_sed(arguments, home) == message,
        },
{
    if let (Ok(path), Ok(expression)) = (path_of(arguments, home), expression_of(arguments)) {
        let shown = shown_sed(arguments, home);
        let command = sed_command(path, expression);
        let behind = "\nexpression: "@ + expression + "\npath: "@ + path;
        assert(shown =~= "command: "@ + command + behind);
        part_is_contained("command: "@, command, behind);
        let before = "command: "@ + command + "\nexpression: "@;
        assert(shown =~= before + expression + ("\npath: "@ + path));
        part_is_contained(before, expression, "\npath: "@ + path);
        labelled_text_is_contained(before + expression + "\npath: "@, path);
    }
}

/// The names of the tools are told apart.
proof fn names_differ()
    ensures
        "web_search"@ != "ls"@,
        "web_search"@ != "cat"@,
        "web_search"@ != "sed"@,
        "run_command"@ != "ls"@,
        "run_command"@ != "cat"@,
        "run_command"@ != "sed"@,
        "web_search"@ != "run_command"@,
        "ls"@ != "cat"@,
        "ls"@ != "sed"@,
        "cat"@ != "sed"@,
{
    reveal_strlit("web_search");
    reveal_strlit("run_command");
    reveal_strlit("ls");
    reveal_strlit("cat");
    reveal_strlit("sed");
    assert("web_search"@.len() == 10 && "run_command"@.len() == 11 && "ls"@.len() == 2);
    assert("cat"@[0] == 'c' && "sed"@[0] == 's');
}

/// A call is shown by what it is for: a search by its query, a file tool as such, a command by
/// itself.
pub proof fn calls_are_shown_by_their_tool(call: CallView, home: Option<Seq<char>>)
    ensures
        ({
            let parsed = normal_arguments(call.arguments);
            let shown = shown_arguments(call, home);
            &&& call.name == "web_search"@ ==> match parsed.text_field("query"@) {
                Some(query) => shown == "query: "@ + query,
                None => shown == "query: (missing)"@,
            }
            &&& call.name == "ls"@ ==> shown == shown_ls(parsed, home)
            &&& call.name == "cat"@ ==> shown == shown_cat(parsed, home)
            &&& call.name == "sed"@ ==> shown == shown_sed(parsed, home)
            &&& call.name == "run_command"@ ==> match command_of(parsed) {
                Ok(command) => shown == "command: "@ + command,
                Err(message) => shown == message,
            }
            &&& call.name != "web_search"@ && call.name != "ls"@ && call.name != "cat"@ && call.name
                != "sed"@ && call.name != "run_command"@ ==> shown == pretty_text(parsed)
        }),
{
    names_differ();
}

/// What is noted of a call names what it is about: the query, the path, the expression or the
/// command.
pub proof fn notes_name_what_a_call_is_about(call: CallView, home: Option<Seq<char>>)
    ensures
        ({
            let noted = preview(call, home);
            &&& call.name == "web_search"@ ==> (call.arguments.text_field("query"@) matches Some(
                query,
            ) ==> contains_part(noted, query))
            &&& call.name == "ls"@ ==> (path_of(call.arguments, home) matches Ok(path)
                ==> contains_part(
                noted,
                "ls "@ + text_or_nothing(call.arguments, "flags"@) + " "@ + path,
            ))
            &&& call.name == "cat"@ ==> (path_of(call.arguments, home) matches Ok(path)
                ==> contains_part(
                noted,
                cat_command(
                    path,
                    pattern_of(call.arguments),
                    text_or_nothing(call.arguments, "flags"@),
                ),
            ))
            &&& call.name == "sed"@ ==> ((path_of(call.arguments, home) is Ok && expression_of(
                call.arguments,
            ) is Ok) ==> contains_part(
                noted,
                sed_command(
                    path_of(call.arguments, home)->Ok_0,
                    expression_of(call.arguments)->Ok_0,
                ),
            ))
            &&& call.name == "run_command"@ ==> (command_of(call.arguments) matches Ok(command)
                ==> contains_part(noted, command))
        }),
{
    names_differ();
    let noted = preview(call, home);
    let flags = text_or_nothing(call.arguments, "flags"@);
    if call.name == "web_search"@ {
        if let Some(query) = call.arguments.text_field("query"@) {
            part_is_contained(" ("@, query, ")"@);
        }
    } else if call.name == "ls"@ {
        if let Ok(path) = path_of(call.arguments, home) {
            let command = "ls "@ + flags + " "@ + path;
            reveal_strlit(" (ls ");
            reveal_strlit(" (");
            reveal_strlit("ls ");
            assert(noted =~= " ("@ + command + ")"@);
            part_is_contained(" ("@, command, ")"@);
        }
    } else if call.name == "cat"@ {
        if let Ok(path) = path_of(call.arguments, home) {
            let pattern = pattern_of(call.arguments);
            let command = cat_command(path, pattern, flags);
            part_is_contained(" ("@, command, ")"@);
        }
    } else if call.name == "sed"@ {
        if let (Ok(path), Ok(expression)) = (
            path_of(call.arguments, home),
            expression_of(call.arguments),
        ) {
            part_is_contained(" ("@, sed_command(path, expression), ")"@);
        }
    } else if call.name == "run_command"@ {
        if let Ok(command) = command_of(call.arguments) {
            part_is_contained("\n  `$ "@, command, "`"@);
        }
    }
}

/// Flags that start with no dash, and have no white space around them, are read exactly where each of
/// them is known, and each counts once.
#[verifier::rlimit(40)]
pub proof fn known_flags_are_read(text: Seq<char>)
    requires
        text.len() > 0,
        text[0] != '-',
        !is_white(text[0]),
        !is_white(text.last()),
    ensures
        ls_flags(Some(text)) is Ok <==> forall|i: int|
            0 <= i < text.len() ==> (#[trigger] text[i] == 'a' || text[i] == 'l' || text[i] == 'R'),
        cat_flags(Some(text)) is Ok <==> forall|i: int|
            0 <= i < text.len() ==> #[trigger] text[i] == 'n',
        ls_flags(Some(text)) matches Ok(flags) ==> flags.no_duplicates(),
        cat_flags(Some(text)) matches Ok(flags) ==> flags.no_duplicates(),
{
    let listing = seq!['a', 'l', 'R'];
    let reading = seq!['n'];
    trimming_nothing(text);
    prefixes_are_taken_off(text, seq!['-']);
    if seq!['-'].is_prefix_of(text) {
        assert(text.subrange(0, 1)[0] == '-');
    }
    others_are_found(text, listing);
    others_are_found(text, reading);
    assert(listing[0] == 'a' && listing[1] == 'l' && listing[2] == 'R' && reading[0] == 'n');
    reveal_with_fuel(present, 4);
    assert(listing.drop_last() =~= seq!['a', 'l']);
    assert(seq!['a', 'l'].drop_last() =~= seq!['a']);
    assert(seq!['a'].drop_last() =~= Seq::<char>::empty());
    assert(reading.drop_last() =~= Seq::<char>::empty());
    if ls_flags(Some(text)) is Ok {
        assert forall|i: int| 0 <= i < text.len() implies (#[trigger] text[i] == 'a' || text[i]
            == 'l' || text[i] == 'R') by {
            assert(listing.contains(text[i]));
        }
    }
    if cat_flags(Some(text)) is Ok {
        assert forall|i: int| 0 <= i < text.len() implies #[trigger] text[i] == 'n' by {
            assert(reading.contains(text[i]));
        }
    }
}

} // verus!
