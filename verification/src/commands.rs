//! The programs behind the file tools and the shell: what is run, and what is made of its output.
use vstd::prelude::*;

use crate::arguments::{
    as_deref, cat_command, cat_command_line, cat_flags, expression_fault, expression_of,
    format_cat_command, format_ls_command, format_sed_command, grep_pattern_from_arguments,
    ls_command, ls_command_line, ls_flags, parse_cat_flags, parse_ls_flags, path_from_arguments,
    path_of, pattern_of, sed_command, sed_command_line, sed_expression_from_arguments, string_view,
    validate_sed_expression,
};
use crate::json::{Json, JsonView};
use crate::path::{result_view, FileFacts, PathKind};
use crate::platform::{Environment, OperatingSystem, Platform};
use crate::requests::{normal_arguments, normalize_arguments};
use crate::text::{
    blank, contains_char, contains_part, is_blank, joined, only_long_texts_are_cut,
    part_is_contained, signed_decimal, signed_decimal_text, trim, trim_end, trimmed, trimmed_end,
    trimmed_is_empty, truncate, truncated, views,
};

verus! {

/// The length to which the output of a command is cut.
pub const MAX_COMMAND_OUTPUT: usize = 8000;

/// The tool that a program is run for.
#[derive(Debug, Clone, Copy, PartialEq, Eq, Structural)]
pub enum CommandKind {
    Ls,
    Cat,
    Grep,
    Sed,
}

/// A program to run: its name, its arguments, and the command line as which it is shown.
#[derive(Debug, PartialEq, Eq)]
pub struct CommandPlan {
    pub kind: CommandKind,
    pub program: String,
    pub arguments: Vec<String>,
    pub label: String,
}

/// The model of a program to run.
#[verifier::ext_equal]
pub struct PlanView {
    pub kind: CommandKind,
    pub program: Seq<char>,
    pub arguments: Seq<Seq<char>>,
    pub label: Seq<char>,
}

/// What a program left behind: its exit code, where it ended by itself, and what it wrote.
#[derive(Debug)]
pub struct ProcessOutput {
    pub code: Option<i32>,
    pub stdout: String,
    pub stderr: String,
}

impl View for CommandPlan {
    type V = PlanView;

    open spec fn view(&self) -> PlanView {
        PlanView {
            kind: self.kind,
            program: self.program@,
            arguments: views(self.arguments@),
            label: self.label@,
        }
    }
}

/// The model of a plan or of what stands in its way.
pub open spec fn plan_view(plan: Result<CommandPlan, String>) -> Result<PlanView, Seq<char>> {
    match plan {
        Ok(plan) => Ok(plan@),
        Err(message) => Err(message@),
    }
}

/// The message for a path that names nothing.
pub open spec fn missing_message(what: Seq<char>, path: Seq<char>) -> Seq<char> {
    what + " does not exist: "@ + path
        + ". Verify the path and try again — use ls on the parent directory if you need to find the correct name."@
}

/// The message for a path that names something else than expected.
pub open spec fn wrong_type_message(expected: Seq<char>, path: Seq<char>) -> Seq<char> {
    "Path is not a "@ + expected + ": "@ + path + ". Check the path and try again."@
}

/// The message for a path that names nothing.
pub fn missing_path_error(kind: &str, path: &str) -> (message: String)
    ensures
        message@ == missing_message(kind@, path@),
{
    let mut message = kind.to_owned();
    message.append(" does not exist: ");
    message.append(path);
    message.append(
        ". Verify the path and try again — use ls on the parent directory if you need to find the correct name.",
    );
    message
}

/// The message for a path that names something else than expected.
pub fn wrong_path_type_error(expected: &str, path: &str) -> (message: String)
    ensures
        message@ == wrong_type_message(expected@, path@),
{
    let mut message = "Path is not a ".to_owned();
    message.append(expected);
    message.append(": ");
    message.append(path);
    message.append(". Check the path and try again.");
    message
}

/// What keeps a path from being used as a file, if anything does.
pub open spec fn file_fault(path: Seq<char>, kind: PathKind) -> Option<Seq<char>> {
    match kind {
        PathKind::Missing => Some(missing_message("File"@, path)),
        PathKind::File => None,
        _ => Some(wrong_type_message("file"@, path)),
    }
}

/// What keeps a path from being used as a directory, if anything does.
pub open spec fn directory_fault(path: Seq<char>, kind: PathKind) -> Option<Seq<char>> {
    match kind {
        PathKind::Missing => Some(missing_message("Directory"@, path)),
        PathKind::Directory => None,
        _ => Some(wrong_type_message("directory"@, path)),
    }
}

/// Whether a path can be used as a file, and if not, why.
pub fn require_file_exists(path: &str, kind: PathKind) -> (verdict: Result<(), String>)
    ensures
        match verdict {
            Ok(_) => file_fault(path@, kind) is None,
            Err(message) => file_fault(path@, kind) == Some(message@),
        },
{
    match kind {
        PathKind::Missing => Err(missing_path_error("File", path)),
        PathKind::File => Ok(()),
        _ => Err(wrong_path_type_error("file", path)),
    }
}

/// Whether a path can be used as a directory, and if not, why.
pub fn require_directory_exists(path: &str, kind: PathKind) -> (verdict: Result<(), String>)
    ensures
        match verdict {
            Ok(_) => directory_fault(path@, kind) is None,
            Err(message) => directory_fault(path@, kind) == Some(message@),
        },
{
    match kind {
        PathKind::Missing => Err(missing_path_error("Directory", path)),
        PathKind::Directory => Ok(()),
        _ => Err(wrong_path_type_error("directory", path)),
    }
}

/// The program for a call of `ls`, or the first thing that stands in its way: the system, the path,
/// the flags, or what the path names.
pub open spec fn ls_plan(
    arguments: JsonView,
    environment: Environment,
    facts: FileFacts,
) -> Result<PlanView, Seq<char>> {
    if !environment.platform.unix {
        Err("The ls tool is only available on Linux and macOS."@)
    } else {
        let parsed = normal_arguments(arguments);
        match path_of(parsed, environment.home_view()) {
            Err(message) => Err(message),
            Ok(path) => match ls_flags(parsed.text_field("flags"@)) {
                Err(message) => Err(message),
                Ok(flags) => match directory_fault(path, facts.kind(path)) {
                    Some(message) => Err(message),
                    None => Ok(
                        PlanView {
                            kind: CommandKind::Ls,
                            program: "ls"@,
                            arguments: if flags.len() == 0 {
                                seq![path]
                            } else {
                                seq!["-"@ + flags, path]
                            },
                            label: ls_command(path, flags),
                        },
                    ),
                },
            },
        }
    }
}

/// The program for a call of `ls`.
pub fn plan_ls(arguments: &Json, environment: &Environment, facts: &FileFacts) -> (plan: Result<
    CommandPlan,
    String,
>)
    ensures
        plan_view(plan) == ls_plan(arguments@, *environment, *facts),
{
    if !environment.platform.unix {
        return Err("The ls tool is only available on Linux and macOS.".to_owned());
    }
    let parsed = normalize_arguments(arguments);
    let path = match path_from_arguments(&parsed, environment.home_dir()) {
        Ok(path) => path,
        Err(message) => {
            return Err(message);
        },
    };
    let flags = match parse_ls_flags(parsed.get_str("flags")) {
        Ok(flags) => flags,
        Err(message) => {
            return Err(message);
        },
    };
    if let Err(message) = require_directory_exists(path.as_str(), facts.kind_of(path.as_str())) {
        return Err(message);
    }
    let label = format_ls_command(path.as_str(), flags.as_str());
    let ghost path_view = path@;
    let mut program_arguments: Vec<String> = Vec::new();
    if !flags.as_str().is_empty() {
        let mut dashed = "-".to_owned();
        dashed.append(flags.as_str());
        program_arguments.push(dashed);
    }
    program_arguments.push(path);
    assert(views(program_arguments@) =~= if flags@.len() == 0 {
        seq![path_view]
    } else {
        seq!["-"@ + flags@, path_view]
    });
    Ok(
        CommandPlan {
            kind: CommandKind::Ls,
            program: "ls".to_owned(),
            arguments: program_arguments,
            label,
        },
    )
}

/// The arguments of the program behind `cat`: `-n` for line numbers, the pattern if there is one,
/// and the path.
pub open spec fn cat_program_arguments(
    path: Seq<char>,
    pattern: Option<Seq<char>>,
    line_numbers: bool,
) -> Seq<Seq<char>> {
    let numbers = if line_numbers {
        seq!["-n"@]
    } else {
        Seq::empty()
    };
    match pattern {
        Some(pattern) => numbers + seq![pattern, path],
        None => numbers + seq![path],
    }
}

/// The program for a call of `cat`, or the first thing that stands in its way: the system, the
/// path, what it names, or the flags.
pub open spec fn cat_plan(
    arguments: JsonView,
    environment: Environment,
    facts: FileFacts,
) -> Result<PlanView, Seq<char>> {
    if !environment.platform.unix {
        Err("The cat tool is only available on Linux and macOS."@)
    } else {
        let parsed = normal_arguments(arguments);
        match path_of(parsed, environment.home_view()) {
            Err(message) => Err(message),
            Ok(path) => match file_fault(path, facts.kind(path)) {
                Some(message) => Err(message),
                None => match cat_flags(parsed.text_field("flags"@)) {
                    Err(message) => Err(message),
                    Ok(flags) => {
                        let pattern = pattern_of(parsed);
                        Ok(
                            PlanView {
                                kind: if pattern is Some {
                                    CommandKind::Grep
                                } else {
                                    CommandKind::Cat
                                },
                                program: if pattern is Some {
                                    "grep"@
                                } else {
                                    "cat"@
                                },
                                arguments: cat_program_arguments(
                                    path,
                                    pattern,
                                    flags.contains('n'),
                                ),
                                label: cat_command(path, pattern, flags),
                            },
                        )
                    },
                },
            },
        }
    }
}

/// The program for a call of `cat`.
pub fn plan_cat(arguments: &Json, environment: &Environment, facts: &FileFacts) -> (plan: Result<
    CommandPlan,
    String,
>)
    ensures
        plan_view(plan) == cat_plan(arguments@, *environment, *facts),
{
    if !environment.platform.unix {
        return Err("The cat tool is only available on Linux and macOS.".to_owned());
    }
    let parsed = normalize_arguments(arguments);
    let path = match path_from_arguments(&parsed, environment.home_dir()) {
        Ok(path) => path,
        Err(message) => {
            return Err(message);
        },
    };
    if let Err(message) = require_file_exists(path.as_str(), facts.kind_of(path.as_str())) {
        return Err(message);
    }
    let pattern = grep_pattern_from_arguments(&parsed);
    let flags = match parse_cat_flags(parsed.get_str("flags")) {
        Ok(flags) => flags,
        Err(message) => {
            return Err(message);
        },
    };
    let label = format_cat_command(path.as_str(), as_deref(&pattern), flags.as_str());
    let line_numbers = contains_char(flags.as_str(), 'n');
    let ghost path_view = path@;
    let ghost pattern_view = string_view(pattern);
    let mut program_arguments: Vec<String> = Vec::new();
    if line_numbers {
        program_arguments.push("-n".to_owned());
    }
    let (kind, program) = match pattern {
        Some(pattern) => {
            program_arguments.push(pattern);
            (CommandKind::Grep, "grep")
        },
        None => (CommandKind::Cat, "cat"),
    };
    program_arguments.push(path);
    assert(views(program_arguments@) =~= cat_program_arguments(
        path_view,
        pattern_view,
        line_numbers,
    ));
    Ok(CommandPlan { kind, program: program.to_owned(), arguments: program_arguments, label })
}

/// The program for a call of `sed`, or the first thing that stands in its way: the system, the
/// path, the expression, or what the path names.
pub open spec fn sed_plan(
    arguments: JsonView,
    environment: Environment,
    facts: FileFacts,
) -> Result<PlanView, Seq<char>> {
    if !environment.platform.unix {
        Err("The sed tool is only available on Linux and macOS."@)
    } else {
        let parsed = normal_arguments(arguments);
        match path_of(parsed, environment.home_view()) {
            Err(message) => Err(message),
            Ok(path) => match expression_of(parsed) {
                Err(message) => Err(message),
                Ok(expression) => match expression_fault(expression) {
                    Some(message) => Err(message),
                    None => match file_fault(path, facts.kind(path)) {
                        Some(message) => Err(message),
                        None => Ok(
                            PlanView {
                                kind: CommandKind::Sed,
                                program: "sed"@,
                                arguments: if environment.platform.system
                                    == OperatingSystem::MacOs {
                                    seq!["-i"@, Seq::empty(), expression, path]
                                } else {
                                    seq!["-i"@, expression, path]
                                },
                                label: sed_command(path, expression),
                            },
                        ),
                    },
                },
            },
        }
    }
}

/// The program for a call of `sed`.
pub fn plan_sed(arguments: &Json, environment: &Environment, facts: &FileFacts) -> (plan: Result<
    CommandPlan,
    String,
>)
    ensures
        plan_view(plan) == sed_plan(arguments@, *environment, *facts),
{
    if !environment.platform.unix {
        return Err("The sed tool is only available on Linux and macOS.".to_owned());
    }
    let parsed = normalize_arguments(arguments);
    let path = match path_from_arguments(&parsed, environment.home_dir()) {
        Ok(path) => path,
        Err(message) => {
            return Err(message);
        },
    };
    let expression = match sed_expression_from_arguments(&parsed) {
        Ok(expression) => expression,
        Err(message) => {
            return Err(message);
        },
    };
    if let Err(message) = validate_sed_expression(expression.as_str()) {
        return Err(message);
    }
    if let Err(message) = require_file_exists(path.as_str(), facts.kind_of(path.as_str())) {
        return Err(message);
    }
    let label = format_sed_command(path.as_str(), expression.as_str());
    let ghost path_view = path@;
    let ghost expression_view = expression@;
    let mut program_arguments: Vec<String> = Vec::new();
    program_arguments.push("-i".to_owned());
    if environment.platform.system == OperatingSystem::MacOs {
        program_arguments.push(String::new());
    }
    program_arguments.push(expression);
    program_arguments.push(path);
    assert(views(program_arguments@) =~= if environment.platform.system == OperatingSystem::MacOs {
        seq!["-i"@, Seq::empty(), expression_view, path_view]
    } else {
        seq!["-i"@, expression_view, path_view]
    });
    Ok(
        CommandPlan {
            kind: CommandKind::Sed,
            program: "sed".to_owned(),
            arguments: program_arguments,
            label,
        },
    )
}

/// The message for a program that failed: its start, and what the program wrote, if anything.
pub open spec fn failure_message(start: Seq<char>, stderr: Seq<char>) -> Seq<char> {
    if trimmed(stderr).len() == 0 {
        start
    } else {
        start + ": "@ + trimmed(stderr)
    }
}

fn failure(start: String, stderr: &str) -> (message: String)
    ensures
        message@ == failure_message(start@, stderr@),
{
    let reason = trim(stderr);
    if reason.as_str().is_empty() {
        start
    } else {
        let mut message = start;
        message.append(": ");
        message.append(reason.as_str());
        message
    }
}

/// The message of a tool that found nothing, below the command line.
pub open spec fn below_label(label: Seq<char>, text: Seq<char>) -> Seq<char> {
    label + "\n\n"@ + text
}

fn put_below(label: &str, text: &str) -> (report: String)
    ensures
        report@ == below_label(label@, text@),
{
    let mut report = label.to_owned();
    report.append("\n\n");
    report.append(text);
    report
}

/// What a tool answers, given what its program left behind, or why it could not be run.
pub open spec fn command_result(plan: PlanView, output: Result<ProcessOutput, String>) -> Result<
    Seq<char>,
    Seq<char>,
> {
    match output {
        Err(reason) => Err("Could not run "@ + plan.program + ": "@ + reason@),
        Ok(output) => {
            let listing = truncated(
                below_label(plan.label, trimmed_end(output.stdout@)),
                MAX_COMMAND_OUTPUT as nat,
            );
            let success = output.code == Some(0i32);
            match plan.kind {
                CommandKind::Ls => if !success {
                    Err(failure_message("ls failed for "@ + plan.label, output.stderr@))
                } else if blank(output.stdout@) {
                    Ok(below_label(plan.label, "(empty directory)"@))
                } else {
                    Ok(listing)
                },
                CommandKind::Cat => if !success {
                    Err(failure_message(plan.label + " failed"@, output.stderr@))
                } else if output.stdout@.len() == 0 {
                    Ok(below_label(plan.label, "(empty file)"@))
                } else {
                    Ok(listing)
                },
                CommandKind::Grep => if !success {
                    if output.code == Some(1i32) && blank(output.stderr@) {
                        Ok(below_label(plan.label, "(no matching lines)"@))
                    } else {
                        Err(failure_message(plan.label + " failed"@, output.stderr@))
                    }
                } else if output.stdout@.len() == 0 {
                    Ok(below_label(plan.label, "(no matching lines)"@))
                } else {
                    Ok(listing)
                },
                CommandKind::Sed => if !success {
                    Err(failure_message("sed failed for "@ + plan.label, output.stderr@))
                } else {
                    Ok("Applied "@ + plan.label + " successfully."@)
                },
            }
        },
    }
}

fn has_code(output: &ProcessOutput, code: i32) -> (has: bool)
    ensures
        has == (output.code == Some(code)),
{
    match output.code {
        Some(found) => found == code,
        None => false,
    }
}

/// What a tool answers, given what its program left behind, or why it could not be run.
pub fn finish_command(plan: &CommandPlan, output: Result<ProcessOutput, String>) -> (answer: Result<
    String,
    String,
>)
    ensures
        result_view(answer) == command_result(plan@, output),
{
    let output = match output {
        Ok(output) => output,
        Err(reason) => {
            let mut message = "Could not run ".to_owned();
            message.append(plan.program.as_str());
            message.append(": ");
            message.append(reason.as_str());
            return Err(message);
        },
    };
    let label = plan.label.as_str();
    let success = has_code(&output, 0);
    match plan.kind {
        CommandKind::Ls => {
            if !success {
                let mut start = "ls failed for ".to_owned();
                start.append(label);
                return Err(failure(start, output.stderr.as_str()));
            }
            if is_blank(output.stdout.as_str()) {
                return Ok(put_below(label, "(empty directory)"));
            }
        },
        CommandKind::Cat => {
            if !success {
                let mut start = label.to_owned();
                start.append(" failed");
                return Err(failure(start, output.stderr.as_str()));
            }
            if output.stdout.as_str().is_empty() {
                return Ok(put_below(label, "(empty file)"));
            }
        },
        CommandKind::Grep => {
            if !success {
                if has_code(&output, 1) && is_blank(output.stderr.as_str()) {
                    return Ok(put_below(label, "(no matching lines)"));
                }
                let mut start = label.to_owned();
                start.append(" failed");
                return Err(failure(start, output.stderr.as_str()));
            }
            if output.stdout.as_str().is_empty() {
                return Ok(put_below(label, "(no matching lines)"));
            }
        },
        CommandKind::Sed => {
            if !success {
                let mut start = "sed failed for ".to_owned();
                start.append(label);
                return Err(failure(start, output.stderr.as_str()));
            }
            let mut message = "Applied ".to_owned();
            message.append(label);
            message.append(" successfully.");
            return Ok(message);
        },
    }
    let listing = put_below(label, trim_end(output.stdout.as_str()).as_str());
    Ok(truncate(listing.as_str(), MAX_COMMAND_OUTPUT))
}

/// The command that a shell is to run, without white space around it.
pub open spec fn shell_command_of(command: Seq<char>) -> Result<Seq<char>, Seq<char>> {
    if trimmed(command).len() == 0 {
        Err("Command is empty."@)
    } else {
        Ok(trimmed(command))
    }
}

/// The command that a shell is to run, without white space around it.
pub fn shell_command(command: &str) -> (trimmed_command: Result<String, String>)
    ensures
        result_view(trimmed_command) == shell_command_of(command@),
{
    let rest = trim(command);
    if rest.as_str().is_empty() {
        Err("Command is empty.".to_owned())
    } else {
        Ok(rest)
    }
}

/// The shell of a system, with the arguments that let it run a command.
pub open spec fn shell_of(command: Seq<char>, platform: Platform) -> (Seq<char>, Seq<Seq<char>>) {
    if platform.unix {
        ("sh"@, seq!["-c"@, command])
    } else {
        ("cmd"@, seq!["/C"@, command])
    }
}

/// The shell of a system, with the arguments that let it run a command.
pub fn run_shell(command: &str, platform: Platform) -> (run: (String, Vec<String>))
    ensures
        (run.0@, views(run.1@)) == shell_of(command@, platform),
        run.0@ == (if platform.unix {
            "sh"@
        } else {
            "cmd"@
        }),
        views(run.1@) == (if platform.unix {
            seq!["-c"@, command@]
        } else {
            seq!["/C"@, command@]
        }),
{
    let (shell, flag) = if platform.unix {
        ("sh", "-c")
    } else {
        ("cmd", "/C")
    };
    let arguments = vec![flag.to_owned(), command.to_owned()];
    assert(views(arguments@) =~= seq![flag@, command@]);
    (shell.to_owned(), arguments)
}

/// A part of a shell's output under a heading, unless it is blank.
pub open spec fn output_section(heading: Seq<char>, output: Seq<char>) -> Seq<char> {
    if blank(output) {
        Seq::empty()
    } else {
        heading + trimmed_end(output) + "\n"@
    }
}

/// What is reported of a shell command.
pub open spec fn shell_report(output: ProcessOutput) -> Seq<char> {
    let code = match output.code {
        Some(code) => code as int,
        None => -1,
    };
    "Exit code: "@ + signed_decimal(code) + "\n"@ + output_section(
        "\nstdout:\n"@,
        output.stdout@,
    ) + output_section("\nstderr:\n"@, output.stderr@) + if blank(output.stdout@) && blank(
        output.stderr@,
    ) {
        "\n(no output)\n"@
    } else {
        Seq::empty()
    }
}

/// What is answered to a shell command, given what the shell left behind, or why it could not be
/// run.
pub open spec fn shell_result(command: Seq<char>, output: Result<ProcessOutput, String>) -> Result<
    Seq<char>,
    Seq<char>,
> {
    match shell_command_of(command) {
        Err(message) => Err(message),
        Ok(_) => match output {
            Err(reason) => Err("Failed to run command: "@ + reason@),
            Ok(output) => Ok(truncated(shell_report(output), MAX_COMMAND_OUTPUT as nat)),
        },
    }
}

fn append_section(report: &mut String, heading: &str, output: &str)
    ensures
        final(report)@ == old(report)@ + output_section(heading@, output@),
{
    if !is_blank(output) {
        report.append(heading);
        report.append(trim_end(output).as_str());
        report.append("\n");
        assert(report@ =~= old(report)@ + output_section(heading@, output@));
    } else {
        assert(report@ =~= old(report)@ + output_section(heading@, output@));
    }
}

/// What is answered to a shell command, given what the shell left behind, or why it could not be
/// run.
pub fn execute_shell_command(command: &str, output: Result<ProcessOutput, String>) -> (answer: Result<
    String,
    String,
>)
    ensures
        result_view(answer) == shell_result(command@, output),
{
    if let Err(message) = shell_command(command) {
        return Err(message);
    }
    let output = match output {
        Ok(output) => output,
        Err(reason) => {
            let mut message = "Failed to run command: ".to_owned();
            message.append(reason.as_str());
            return Err(message);
        },
    };
    let code: i32 = match output.code {
        Some(code) => code,
        None => -1,
    };
    let mut report = "Exit code: ".to_owned();
    report.append(signed_decimal_text(code).as_str());
    report.append("\n");
    append_section(&mut report, "\nstdout:\n", output.stdout.as_str());
    append_section(&mut report, "\nstderr:\n", output.stderr.as_str());
    if is_blank(output.stdout.as_str()) && is_blank(output.stderr.as_str()) {
        report.append("\n(no output)\n");
    }
    assert(report@ =~= shell_report(output));
    Ok(truncate(report.as_str(), MAX_COMMAND_OUTPUT))
}

/// A path can be used as a file exactly where it names one, and as a directory exactly where it
/// names one; what is said otherwise names the path.
pub proof fn paths_are_used_as_what_they_are(path: Seq<char>, kind: PathKind)
    ensures
        file_fault(path, kind) is None <==> kind == PathKind::File,
        directory_fault(path, kind) is None <==> kind == PathKind::Directory,
        file_fault(path, kind) matches Some(message) ==> contains_part(message, path),
        directory_fault(path, kind) matches Some(message) ==> contains_part(message, path),
        kind == PathKind::Missing ==> {
            &&& contains_part(file_fault(path, kind)->0, " does not exist: "@)
            &&& contains_part(directory_fault(path, kind)->0, " does not exist: "@)
        },
{
    let advice = ". Verify the path and try again — use ls on the parent directory if you need to find the correct name."@;
    part_is_contained("File"@ + " does not exist: "@, path, advice);
    part_is_contained("Directory"@ + " does not exist: "@, path, advice);
    part_is_contained("File"@, " does not exist: "@, path + advice);
    part_is_contained("Directory"@, " does not exist: "@, path + advice);
    assert(missing_message("File"@, path) =~= "File"@ + " does not exist: "@ + (path + advice));
    assert(missing_message("Directory"@, path) =~= "Directory"@ + " does not exist: "@ + (path
        + advice));
    part_is_contained("Path is not a "@ + "file"@ + ": "@, path, ". Check the path and try again."@);
    part_is_contained(
        "Path is not a "@ + "directory"@ + ": "@,
        path,
        ". Check the path and try again."@,
    );
}

/// `ls` runs on Unix systems, for a call with a path and flags that can be read, where the path names
/// a directory. Its last argument is the path, before which the flags stand behind a dash where there
/// are any; the command line is the program followed by its arguments.
pub proof fn ls_lists_its_directory(
    arguments: JsonView,
    environment: Environment,
    facts: FileFacts,
)
    ensures
        ({
            let parsed = normal_arguments(arguments);
            let path = path_of(parsed, environment.home_view());
            let flags = ls_flags(parsed.text_field("flags"@));
            let plan = ls_plan(arguments, environment, facts);
            &&& plan is Ok <==> {
                &&& environment.platform.unix
                &&& path is Ok
                &&& flags is Ok
                &&& facts.kind(path->Ok_0) == PathKind::Directory
            }
            &&& plan matches Ok(plan) ==> {
                &&& plan.kind == CommandKind::Ls
                &&& plan.program == "ls"@
                &&& plan.arguments.len() == (if flags->Ok_0.len() > 0 {
                    2nat
                } else {
                    1nat
                })
                &&& plan.arguments.last() == path->Ok_0
                &&& flags->Ok_0.len() > 0 ==> plan.arguments[0] == "-"@ + flags->Ok_0
                &&& plan.label == joined(seq![plan.program] + plan.arguments, " "@)
            }
        }),
{
    let parsed = normal_arguments(arguments);
    if let (Ok(path), Ok(flags)) = (
        path_of(parsed, environment.home_view()),
        ls_flags(parsed.text_field("flags"@)),
    ) {
        ls_command_line(path, flags);
        assert(seq!["ls"@] + seq![path] =~= seq!["ls"@, path]);
        assert(seq!["ls"@] + seq!["-"@ + flags, path] =~= seq!["ls"@, "-"@ + flags, path]);
    }
}

/// `cat` runs on Unix systems, for a call with a path and flags that can be read, where the path names
/// a file. With a pattern the program is `grep`. Its first argument is `-n` exactly where the flags
/// hold it, then the pattern comes where there is one, and last the path; the command line is the
/// program followed by its arguments, with the pattern in quotes.
#[verifier::rlimit(40)]
pub proof fn cat_prints_its_file(
    arguments: JsonView,
    environment: Environment,
    facts: FileFacts,
)
    ensures
        ({
            let parsed = normal_arguments(arguments);
            let path = path_of(parsed, environment.home_view());
            let flags = cat_flags(parsed.text_field("flags"@));
            let plan = cat_plan(arguments, environment, facts);
            &&& plan is Ok <==> {
                &&& environment.platform.unix
                &&& path is Ok
                &&& flags is Ok
                &&& facts.kind(path->Ok_0) == PathKind::File
            }
            &&& plan matches Ok(plan) ==> {
                let count = plan.arguments.len();
                let numbers: nat = if flags->Ok_0.contains('n') {
                    1
                } else {
                    0
                };
                &&& flags->Ok_0.contains('n') ==> plan.arguments[0] == "-n"@
                &&& plan.arguments.last() == path->Ok_0
                &&& match pattern_of(parsed) {
                    Some(pattern) => {
                        &&& count == numbers + 2
                        &&& plan.kind == CommandKind::Grep
                        &&& plan.program == "grep"@
                        &&& plan.arguments[count - 2] == pattern
                        &&& plan.label == joined(
                            seq![plan.program] + plan.arguments.update(
                                count - 2,
                                "'"@ + pattern + "'"@,
                            ),
                            " "@,
                        )
                    },
                    None => {
                        &&& count == numbers + 1
                        &&& plan.kind == CommandKind::Cat
                        &&& plan.program == "cat"@
                        &&& plan.label == joined(seq![plan.program] + plan.arguments, " "@)
                    },
                }
            }
        }),
{
    let parsed = normal_arguments(arguments);
    if let (Ok(path), Ok(flags)) = (
        path_of(parsed, environment.home_view()),
        cat_flags(parsed.text_field("flags"@)),
    ) {
        let numbers = flags.contains('n');
        match pattern_of(parsed) {
            Some(pattern) => {
                cat_command_line(path, pattern, flags);
                let quoted = "'"@ + pattern + "'"@;
                let given = cat_program_arguments(path, Some(pattern), numbers);
                let shown = seq!["grep"@] + given.update(given.len() - 2, quoted);
                if numbers {
                    assert(given =~= seq!["-n"@, pattern, path]);
                    assert(shown =~= seq!["grep"@, "-n"@, quoted, path]);
                } else {
                    assert(given =~= seq![pattern, path]);
                    assert(shown =~= seq!["grep"@, quoted, path]);
                }
            },
            None => {
                cat_command_line(path, Seq::empty(), flags);
                let given = cat_program_arguments(path, None, numbers);
                if numbers {
                    assert(given =~= seq!["-n"@, path]);
                    assert(seq!["cat"@] + given =~= seq!["cat"@, "-n"@, path]);
                } else {
                    assert(given =~= seq![path]);
                    assert(seq!["cat"@] + given =~= seq!["cat"@, path]);
                }
            },
        }
    }
}

/// `sed` runs on Unix systems, for a call with a path and an expression that is accepted, where the
/// path names a file. It changes the file in place: `-i` comes first, with an empty suffix behind it
/// on macOS, then the expression, and last the path.
pub proof fn sed_changes_its_file(
    arguments: JsonView,
    environment: Environment,
    facts: FileFacts,
)
    ensures
        ({
            let parsed = normal_arguments(arguments);
            let path = path_of(parsed, environment.home_view());
            let expression = expression_of(parsed);
            let plan = sed_plan(arguments, environment, facts);
            &&& plan is Ok <==> {
                &&& environment.platform.unix
                &&& path is Ok
                &&& expression is Ok
                &&& expression_fault(expression->Ok_0) is None
                &&& facts.kind(path->Ok_0) == PathKind::File
            }
            &&& plan matches Ok(plan) ==> {
                let count = plan.arguments.len();
                &&& plan.kind == CommandKind::Sed
                &&& plan.program == "sed"@
                &&& plan.arguments[0] == "-i"@
                &&& plan.arguments[count - 2] == expression->Ok_0
                &&& plan.arguments.last() == path->Ok_0
                &&& environment.platform.system != OperatingSystem::MacOs ==> count == 3
                &&& environment.platform.system == OperatingSystem::MacOs ==> count == 4
                    && plan.arguments[1].len() == 0
                &&& plan.label == joined(
                    seq!["sed"@, "-i"@, "'"@ + expression->Ok_0 + "'"@, path->Ok_0],
                    " "@,
                )
            }
        }),
{
    let parsed = normal_arguments(arguments);
    if let (Ok(path), Ok(expression)) = (
        path_of(parsed, environment.home_view()),
        expression_of(parsed),
    ) {
        sed_command_line(path, expression);
    }
}

/// A tool that cannot be had on a system says so there.
#[verifier::rlimit(40)]
pub proof fn file_tools_refuse_other_systems(
    arguments: JsonView,
    environment: Environment,
    facts: FileFacts,
)
    requires
        !environment.platform.unix,
    ensures
        ls_plan(arguments, environment, facts) matches Err(message) && contains_part(
            message,
            " tool is only available on Linux and macOS."@,
        ),
        cat_plan(arguments, environment, facts) matches Err(message) && contains_part(
            message,
            " tool is only available on Linux and macOS."@,
        ),
        sed_plan(arguments, environment, facts) matches Err(message) && contains_part(
            message,
            " tool is only available on Linux and macOS."@,
        ),
{
    let rest = " tool is only available on Linux and macOS."@;
    let nothing = Seq::<char>::empty();
    reveal_strlit(" tool is only available on Linux and macOS.");
    reveal_strlit("The ls tool is only available on Linux and macOS.");
    reveal_strlit("The cat tool is only available on Linux and macOS.");
    reveal_strlit("The sed tool is only available on Linux and macOS.");
    reveal_strlit("The ls");
    reveal_strlit("The cat");
    reveal_strlit("The sed");
    assert("The ls tool is only available on Linux and macOS."@ =~= "The ls"@ + rest + nothing);
    assert("The cat tool is only available on Linux and macOS."@ =~= "The cat"@ + rest + nothing);
    assert("The sed tool is only available on Linux and macOS."@ =~= "The sed"@ + rest + nothing);
    part_is_contained("The ls"@, rest, nothing);
    part_is_contained("The cat"@, rest, nothing);
    part_is_contained("The sed"@, rest, nothing);
}

/// What `ls`, `cat` and `grep` print is the answer, below the command line and without white space at
/// its end: whole, or with its first eight thousand characters.
pub proof fn printed_output_is_the_answer(plan: PlanView, output: ProcessOutput)
    requires
        plan.kind != CommandKind::Sed,
        output.code == Some(0i32),
        output.stdout@.len() > 0,
        plan.kind == CommandKind::Ls ==> !blank(output.stdout@),
    ensures
        command_result(plan, Ok(output)) matches Ok(answer) && {
            let whole = plan.label + seq!['\n', '\n'] + trimmed_end(output.stdout@);
            &&& whole.len() <= 8000 ==> answer == whole
            &&& whole.len() > 8000 ==> {
                &&& answer.len() == 8001
                &&& answer.take(8000) == whole.take(8000)
                &&& answer.last() == '…'
            }
        },
{
    reveal_strlit("\n\n");
    assert("\n\n"@ =~= seq!['\n', '\n']);
    only_long_texts_are_cut(below_label(plan.label, trimmed_end(output.stdout@)), 8000);
}

/// Where nothing is printed, the answer says so: of a directory that it is empty, of a file that it
/// is, and of a search that no line matches. A search without a match is no failure.
pub proof fn empty_output_is_told(plan: PlanView, output: ProcessOutput)
    requires
        output.stdout@.len() == 0 || (plan.kind == CommandKind::Ls && blank(output.stdout@)),
    ensures
        ({
            let answer = command_result(plan, Ok(output));
            &&& plan.kind == CommandKind::Ls && output.code == Some(0i32) ==> answer == Ok::<
                Seq<char>,
                Seq<char>,
            >(plan.label + seq!['\n', '\n'] + "(empty directory)"@)
            &&& plan.kind == CommandKind::Cat && output.code == Some(0i32) ==> answer == Ok::<
                Seq<char>,
                Seq<char>,
            >(plan.label + seq!['\n', '\n'] + "(empty file)"@)
            &&& plan.kind == CommandKind::Grep && (output.code == Some(0i32) || (output.code
                == Some(1i32) && blank(output.stderr@))) ==> answer == Ok::<Seq<char>, Seq<char>>(
                plan.label + seq!['\n', '\n'] + "(no matching lines)"@,
            )
        }),
{
    reveal_strlit("\n\n");
    assert("\n\n"@ =~= seq!['\n', '\n']);
}

/// A change that `sed` has made is told with its command line.
pub proof fn changes_are_told(plan: PlanView, output: ProcessOutput)
    requires
        plan.kind == CommandKind::Sed,
        output.code == Some(0i32),
    ensures
        command_result(plan, Ok(output)) matches Ok(answer) && contains_part(answer, plan.label)
            && contains_part(answer, " successfully."@),
{
    part_is_contained("Applied "@, plan.label, " successfully."@);
    part_is_contained("Applied "@ + plan.label, " successfully."@, Seq::empty());
    assert("Applied "@ + plan.label + " successfully."@ + Seq::<char>::empty() =~= "Applied "@
        + plan.label + " successfully."@);
}

/// A program that fails is an error that names the command line and what the program complained of.
/// The only exception is a search that ends without a match and without a complaint.
pub proof fn failures_are_errors(plan: PlanView, output: ProcessOutput)
    requires
        output.code != Some(0i32),
        !(plan.kind == CommandKind::Grep && output.code == Some(1i32) && blank(output.stderr@)),
    ensures
        command_result(plan, Ok(output)) matches Err(message) && contains_part(message, plan.label)
            && contains_part(message, trimmed(output.stderr@)),
{
    let reason = trimmed(output.stderr@);
    let start = match plan.kind {
        CommandKind::Ls => "ls failed for "@ + plan.label,
        CommandKind::Sed => "sed failed for "@ + plan.label,
        _ => plan.label + " failed"@,
    };
    let nothing = Seq::<char>::empty();
    let message = failure_message(start, output.stderr@);
    let rest = if reason.len() == 0 {
        nothing
    } else {
        ": "@ + reason
    };
    assert(message =~= start + rest);
    match plan.kind {
        CommandKind::Ls => {
            part_is_contained("ls failed for "@, plan.label, rest);
        },
        CommandKind::Sed => {
            part_is_contained("sed failed for "@, plan.label, rest);
        },
        _ => {
            part_is_contained(nothing, plan.label, " failed"@ + rest);
            assert(message =~= nothing + plan.label + (" failed"@ + rest));
        },
    }
    if reason.len() == 0 {
        assert(reason =~= nothing);
        part_is_contained(message, nothing, nothing);
        assert(message + nothing + nothing =~= message);
    } else {
        part_is_contained(start + ": "@, reason, nothing);
        assert(message =~= start + ": "@ + reason + nothing);
    }
}

/// A program that cannot be run is an error that names it and the reason.
pub proof fn programs_that_do_not_run_are_errors(plan: PlanView, reason: String)
    ensures
        command_result(plan, Err(reason)) matches Err(message) && contains_part(
            message,
            plan.program,
        ) && contains_part(message, reason@),
{
    part_is_contained("Could not run "@, plan.program, ": "@ + reason@);
    assert("Could not run "@ + plan.program + ": "@ + reason@ =~= "Could not run "@ + plan.program
        + (": "@ + reason@));
    part_is_contained("Could not run "@ + plan.program + ": "@, reason@, Seq::empty());
    assert("Could not run "@ + plan.program + ": "@ + reason@ + Seq::<char>::empty()
        =~= "Could not run "@ + plan.program + ": "@ + reason@);
}

/// A shell runs the command that it is given, without white space around it; a blank one is refused.
pub proof fn blank_commands_are_refused(command: Seq<char>)
    ensures
        blank(command) ==> shell_command_of(command) is Err,
        !blank(command) ==> shell_command_of(command) == Ok::<Seq<char>, Seq<char>>(
            trimmed(command),
        ),
{
    trimmed_is_empty(command);
}

/// The report of a shell command starts with its exit code, minus one where it has none.
pub proof fn exit_code_is_reported(output: ProcessOutput)
    ensures
        ({
            let code = match output.code {
                Some(code) => code as int,
                None => -1,
            };
            ("Exit code: "@ + signed_decimal(code) + seq!['\n']).is_prefix_of(shell_report(output))
        }),
{
    reveal_strlit("\n");
    assert("\n"@ =~= seq!['\n']);
    let code = match output.code {
        Some(code) => code as int,
        None => -1,
    };
    let start = "Exit code: "@ + signed_decimal(code) + seq!['\n'];
    assert(start =~= shell_report(output).subrange(0, start.len() as int));
}

/// What a shell command writes to its standard output is reported, whatever it writes to its standard
/// error, and the other way round: each under its heading, without white space at its end. Blank
/// output is as none.
#[verifier::rlimit(40)]
pub proof fn shell_output_is_reported(output: ProcessOutput, other: ProcessOutput)
    ensures
        !blank(output.stdout@) ==> contains_part(
            shell_report(output),
            "\nstdout:\n"@ + trimmed_end(output.stdout@) + seq!['\n'],
        ),
        !blank(output.stderr@) ==> contains_part(
            shell_report(output),
            "\nstderr:\n"@ + trimmed_end(output.stderr@) + seq!['\n'],
        ),
        output.code == other.code && (output.stdout@ == other.stdout@ || (blank(output.stdout@)
            && blank(other.stdout@))) && (output.stderr@ == other.stderr@ || (blank(output.stderr@)
            && blank(other.stderr@))) ==> shell_report(output) == shell_report(other),
{
    reveal_strlit("\n");
    assert("\n"@ =~= seq!['\n']);
    let code = match output.code {
        Some(code) => code as int,
        None => -1,
    };
    let start = "Exit code: "@ + signed_decimal(code) + "\n"@;
    let out = output_section("\nstdout:\n"@, output.stdout@);
    let err = output_section("\nstderr:\n"@, output.stderr@);
    let report = shell_report(output);
    if !blank(output.stdout@) {
        part_is_contained(start, out, err);
        assert(report =~= start + out + err);
    }
    if !blank(output.stderr@) {
        part_is_contained(start + out, err, Seq::empty());
        assert(report =~= start + out + err + Seq::<char>::empty());
    }
}

/// A report holds nothing but the exit code and what was written: its length is theirs, with the
/// headings. That there is no output is said exactly where both are blank.
#[verifier::rlimit(40)]
pub proof fn missing_output_is_told(output: ProcessOutput)
    ensures
        ({
            let code = match output.code {
                Some(code) => code as int,
                None => -1,
            };
            let start = "Exit code: "@ + signed_decimal(code) + seq!['\n'];
            let out: nat = if blank(output.stdout@) {
                0
            } else {
                10 + trimmed_end(output.stdout@).len()
            };
            let err: nat = if blank(output.stderr@) {
                0
            } else {
                10 + trimmed_end(output.stderr@).len()
            };
            &&& blank(output.stdout@) && blank(output.stderr@) <==> shell_report(output) == start
                + "\n(no output)\n"@
            &&& !(blank(output.stdout@) && blank(output.stderr@)) ==> shell_report(output).len()
                == start.len() + out + err
        }),
{
    reveal_strlit("\n");
    reveal_strlit("\nstdout:\n");
    reveal_strlit("\nstderr:\n");
    reveal_strlit("\n(no output)\n");
    assert("\n"@ =~= seq!['\n']);
    let code = match output.code {
        Some(code) => code as int,
        None => -1,
    };
    let start = "Exit code: "@ + signed_decimal(code) + seq!['\n'];
    let report = shell_report(output);
    if blank(output.stdout@) && blank(output.stderr@) {
        assert(report =~= start + "\n(no output)\n"@);
    } else {
        let silent = start + "\n(no output)\n"@;
        assert(silent[start.len() as int + 1] == '(');
        assert(report[start.len() as int + 1] == 's');
    }
}

/// The answer to a shell command is its report, whole or with its first eight thousand characters; a
/// command that is blank or cannot be run is an error.
pub proof fn shell_commands_are_answered(
    command: Seq<char>,
    output: ProcessOutput,
    reason: String,
)
    ensures
        blank(command) ==> {
            &&& shell_result(command, Ok(output)) is Err
            &&& shell_result(command, Err(reason)) is Err
        },
        !blank(command) ==> {
            &&& shell_result(command, Ok(output)) matches Ok(answer) && {
                let report = shell_report(output);
                &&& report.len() <= 8000 ==> answer == report
                &&& report.len() > 8000 ==> {
                    &&& answer.len() == 8001
                    &&& answer.take(8000) == report.take(8000)
                    &&& answer.last() == '…'
                }
            }
            &&& shell_result(command, Err(reason)) matches Err(message) && contains_part(
                message,
                reason@,
            )
        },
{
    trimmed_is_empty(command);
    only_long_texts_are_cut(shell_report(output), 8000);
    part_is_contained("Failed to run command: "@, reason@, Seq::empty());
    assert("Failed to run command: "@ + reason@ + Seq::<char>::empty() =~= "Failed to run command: "@
        + reason@);
}

/// What stands in the way of a call is told, the first thing first: that it has no path, then, for
/// `ls`, its flags and what the path names, for `cat` what the path names and the flags, and for `sed`
/// the expression and what the path names.
pub proof fn first_fault_is_told(
    arguments: JsonView,
    environment: Environment,
    facts: FileFacts,
)
    requires
        environment.platform.unix,
    ensures
        ({
            let parsed = normal_arguments(arguments);
            let ls = ls_plan(arguments, environment, facts);
            let cat = cat_plan(arguments, environment, facts);
            let sed = sed_plan(arguments, environment, facts);
            match path_of(parsed, environment.home_view()) {
                Err(message) => {
                    &&& ls == Err::<PlanView, Seq<char>>(message)
                    &&& cat == Err::<PlanView, Seq<char>>(message)
                    &&& sed == Err::<PlanView, Seq<char>>(message)
                },
                Ok(path) => {
                    &&& ls_flags(parsed.text_field("flags"@)) matches Err(message) ==> ls == Err::<
                        PlanView,
                        Seq<char>,
                    >(message)
                    &&& ls_flags(parsed.text_field("flags"@)) is Ok ==> (directory_fault(
                        path,
                        facts.kind(path),
                    ) matches Some(message) ==> ls == Err::<PlanView, Seq<char>>(message))
                    &&& file_fault(path, facts.kind(path)) matches Some(message) ==> cat == Err::<
                        PlanView,
                        Seq<char>,
                    >(message)
                    &&& file_fault(path, facts.kind(path)) is None ==> (cat_flags(
                        parsed.text_field("flags"@),
                    ) matches Err(message) ==> cat == Err::<PlanView, Seq<char>>(message))
                    &&& expression_of(parsed) matches Err(message) ==> sed == Err::<
                        PlanView,
                        Seq<char>,
                    >(message)
                    &&& expression_of(parsed) matches Ok(expression) ==> match expression_fault(
                        expression,
                    ) {
                        Some(message) => sed == Err::<PlanView, Seq<char>>(message),
                        None => file_fault(path, facts.kind(path)) matches Some(message) ==> sed
                            == Err::<PlanView, Seq<char>>(message),
                    }
                },
            }
        }),
{
}

/// The standard output comes right behind the exit code, and the standard error behind it.
pub proof fn standard_output_comes_first(output: ProcessOutput)
    ensures
        ({
            let code = match output.code {
                Some(code) => code as int,
                None => -1,
            };
            let start = "Exit code: "@ + signed_decimal(code) + seq!['\n'];
            let out = "\nstdout:\n"@ + trimmed_end(output.stdout@) + seq!['\n'];
            let err = "\nstderr:\n"@ + trimmed_end(output.stderr@) + seq!['\n'];
            &&& !blank(output.stdout@) ==> (start + out).is_prefix_of(shell_report(output))
            &&& !blank(output.stderr@) ==> err.is_suffix_of(shell_report(output))
        }),
{
    reveal_strlit("\n");
    assert("\n"@ =~= seq!['\n']);
    let code = match output.code {
        Some(code) => code as int,
        None => -1,
    };
    let start = "Exit code: "@ + signed_decimal(code) + seq!['\n'];
    let out = "\nstdout:\n"@ + trimmed_end(output.stdout@) + seq!['\n'];
    let err = "\nstderr:\n"@ + trimmed_end(output.stderr@) + seq!['\n'];
    let report = shell_report(output);
    if !blank(output.stdout@) {
        assert(start + out =~= report.subrange(0, (start + out).len() as int));
    }
    if !blank(output.stderr@) {
        assert(err =~= report.subrange(report.len() - err.len(), report.len() as int));
    }
}

/// A command is run by the system's shell, as it is: on Unix systems by `sh -c`, elsewhere by `cmd /C`.
pub proof fn commands_are_run_by_the_shell(command: Seq<char>, platform: Platform)
    ensures
        ({
            let (program, arguments) = shell_of(command, platform);
            &&& arguments.len() == 2
            &&& arguments.last() == command
            &&& platform.unix ==> program == "sh"@ && arguments[0] == "-c"@
            &&& !platform.unix ==> program == "cmd"@ && arguments[0] == "/C"@
        }),
{
}

} // verus!
