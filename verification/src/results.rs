//! How the results of tools are summed up and shown.
use vstd::prelude::*;

use crate::search::{
    search_report, sign, told_answer, told_result, told_results, Score, SearchResponse,
    SearchResult,
};
use crate::text::{
    blank, contains, contains_part, decimal, decimal_text, is_blank, is_white, lines, lines_of,
    occurs_at, only_long_texts_are_cut, part_is_contained, pieces, same_text, split_once,
    split_once_of,
    splitting_undoes_joining, text_is_read_by_lines, to_chars, trimmed, trimmed_end, trimmed_start,
    truncate, truncated, views, without_return,
};

verus! {

/// The step of a tool that the user is shown.
#[derive(Debug, PartialEq, Eq)]
pub struct ToolActionUpdate {
    pub name: String,
    pub arguments: String,
    pub summary: String,
    pub success: bool,
    pub completed: bool,
}

/// The model of a step of a tool.
pub struct ActionUpdateView {
    pub name: Seq<char>,
    pub arguments: Seq<char>,
    pub summary: Seq<char>,
    pub success: bool,
    pub completed: bool,
}

impl View for ToolActionUpdate {
    type V = ActionUpdateView;

    open spec fn view(&self) -> ActionUpdateView {
        ActionUpdateView {
            name: self.name@,
            arguments: self.arguments@,
            summary: self.summary@,
            success: self.success,
            completed: self.completed,
        }
    }
}

impl Clone for ToolActionUpdate {
    fn clone(&self) -> (copy: Self)
        ensures
            copy == *self,
    {
        ToolActionUpdate {
            name: self.name.clone(),
            arguments: self.arguments.clone(),
            summary: self.summary.clone(),
            success: self.success,
            completed: self.completed,
        }
    }
}

/// The number of lines that are not blank.
pub open spec fn filled_line_count(lines: Seq<Seq<char>>) -> nat {
    lines.filter(|line: Seq<char>| !blank(line)).len()
}

/// Whether a line starts with a digit.
pub open spec fn numbered(line: Seq<char>) -> bool {
    line.len() > 0 && '0' <= line[0] <= '9'
}

/// The number of lines that start with a digit.
pub open spec fn numbered_line_count(lines: Seq<Seq<char>>) -> nat {
    lines.filter(|line: Seq<char>| numbered(line)).len()
}

/// What a result says below the command line that it starts with.
pub open spec fn body_of(result: Seq<char>) -> Seq<char> {
    match split_once_of(result, "\n\n"@) {
        Some((_, body)) => body,
        None => result,
    }
}

/// The result of a tool in a few words.
pub open spec fn result_summary(tool_name: Seq<char>, result: Seq<char>) -> Seq<char> {
    let cut = contains_part(result, "… truncated"@);
    if tool_name == "ls"@ {
        let count = decimal(filled_line_count(lines_of(result)));
        if cut {
            count + " lines of output (truncated)"@
        } else {
            count + " lines of output"@
        }
    } else if tool_name == "cat"@ {
        let count = decimal(lines_of(body_of(result)).len());
        if cut {
            count + " lines read (truncated)"@
        } else {
            count + " lines, "@ + decimal(body_of(result).len()) + " characters read"@
        }
    } else if tool_name == "sed"@ {
        result
    } else if tool_name == "web_search"@ {
        let count = numbered_line_count(lines_of(result));
        if contains_part(result, "No results found."@) {
            "No results found"@
        } else if count == 0 {
            "Search completed"@
        } else {
            decimal(count) + " sources"@
        }
    } else if tool_name == "run_command"@ {
        if lines_of(result).len() == 0 {
            "Completed"@
        } else {
            "Completed ("@ + lines_of(result)[0] + ")"@
        }
    } else {
        truncated(result, 120)
    }
}

/// One line more: what a filter keeps of the first `i + 1` lines.
proof fn filter_step(
    lines: Seq<Seq<char>>,
    i: int,
    keep: spec_fn(Seq<char>) -> bool,
)
    requires
        0 <= i < lines.len(),
    ensures
        lines.take(i + 1).filter(keep).len() == lines.take(i).filter(keep).len() + (if keep(
            lines[i],
        ) {
            1nat
        } else {
            0nat
        }),
{
    reveal(Seq::filter);
    assert(lines.take(i + 1).drop_last() =~= lines.take(i));
}

proof fn filter_nothing(keep: spec_fn(Seq<char>) -> bool)
    ensures
        Seq::<Seq<char>>::empty().filter(keep).len() == 0,
{
    reveal(Seq::filter);
}

/// The number of lines that are not blank.
fn count_filled(all: &Vec<String>) -> (count: usize)
    ensures
        count == filled_line_count(views(all@)),
{
    let ghost shown = views(all@);
    let ghost keep = |line: Seq<char>| !blank(line);
    let mut count: usize = 0;
    let mut i: usize = 0;
    proof {
        filter_nothing(keep);
        assert(shown.take(0) =~= Seq::empty());
    }
    while i < all.len()
        invariant
            count <= i <= all@.len(),
            shown == views(all@),
            keep == (|line: Seq<char>| !blank(line)),
            count == shown.take(i as int).filter(keep).len(),
        decreases all@.len() - i,
    {
        proof {
            filter_step(shown, i as int, keep);
            assert(shown[i as int] == all@[i as int]@);
        }
        if !is_blank(all[i].as_str()) {
            count += 1;
        }
        i += 1;
    }
    assert(shown.take(i as int) =~= shown);
    count
}

/// The number of lines that start with a digit.
fn count_numbered(all: &Vec<String>) -> (count: usize)
    ensures
        count == numbered_line_count(views(all@)),
{
    let ghost shown = views(all@);
    let ghost keep = |line: Seq<char>| numbered(line);
    let mut count: usize = 0;
    let mut i: usize = 0;
    proof {
        filter_nothing(keep);
        assert(shown.take(0) =~= Seq::empty());
    }
    while i < all.len()
        invariant
            count <= i <= all@.len(),
            shown == views(all@),
            keep == (|line: Seq<char>| numbered(line)),
            count == shown.take(i as int).filter(keep).len(),
        decreases all@.len() - i,
    {
        proof {
            filter_step(shown, i as int, keep);
            assert(shown[i as int] == all@[i as int]@);
        }
        let chars = to_chars(all[i].as_str());
        if chars.len() > 0 && '0' <= chars[0] && chars[0] <= '9' {
            count += 1;
        }
        i += 1;
    }
    assert(shown.take(i as int) =~= shown);
    count
}

/// The result of a tool in a few words.
pub fn tool_result_summary(tool_name: &str, result: &str) -> (summary: String)
    ensures
        summary@ == result_summary(tool_name@, result@),
{
    if same_text(tool_name, "ls") {
        let found = lines(result);
        let mut summary = decimal_text(count_filled(&found) as u64);
        if contains(result, "… truncated") {
            summary.append(" lines of output (truncated)");
        } else {
            summary.append(" lines of output");
        }
        summary
    } else if same_text(tool_name, "cat") {
        let body = match split_once(result, "\n\n") {
            Some((_, body)) => body,
            None => result.to_owned(),
        };
        let found = lines(body.as_str());
        assert(views(found@).len() == found@.len());
        let mut summary = decimal_text(found.len() as u64);
        if contains(result, "… truncated") {
            summary.append(" lines read (truncated)");
        } else {
            summary.append(" lines, ");
            summary.append(decimal_text(to_chars(body.as_str()).len() as u64).as_str());
            summary.append(" characters read");
        }
        summary
    } else if same_text(tool_name, "sed") {
        result.to_owned()
    } else if same_text(tool_name, "web_search") {
        if contains(result, "No results found.") {
            return "No results found".to_owned();
        }
        let count = count_numbered(&lines(result));
        if count == 0 {
            "Search completed".to_owned()
        } else {
            let mut summary = decimal_text(count as u64);
            summary.append(" sources");
            summary
        }
    } else if same_text(tool_name, "run_command") {
        let found = lines(result);
        assert(views(found@).len() == found@.len());
        if found.len() == 0 {
            "Completed".to_owned()
        } else {
            assert(views(found@)[0] == found@[0]@);
            let mut summary = "Completed (".to_owned();
            summary.append(found[0].as_str());
            summary.append(")");
            summary
        }
    } else {
        truncate(result, 120)
    }
}

/// What is noted of a tool's result in the thinking.
pub open spec fn noted_result(tool_name: Seq<char>, result: Seq<char>) -> Seq<char> {
    if tool_name == "ls"@ || tool_name == "sed"@ {
        result
    } else {
        truncated(result, 600)
    }
}

/// What is noted of a tool's result in the thinking: all that `ls` and `sed` say, and the start of
/// what others say.
pub fn summarize_tool_result(tool_name: &str, result: &str) -> (noted: String)
    ensures
        noted@ == noted_result(tool_name@, result@),
{
    if same_text(tool_name, "ls") || same_text(tool_name, "sed") {
        result.to_owned()
    } else {
        truncate(result, 600)
    }
}

/// The thinking while an answer comes in.
pub open spec fn streaming_thinking(prefix: Seq<char>, streamed: Seq<char>) -> Seq<char> {
    if blank(prefix) {
        streamed
    } else {
        prefix + "\n\n"@ + streamed
    }
}

/// The thinking while an answer comes in: what was there before, and what came in.
pub fn format_streaming_thinking(prefix: &str, streamed: &str) -> (thinking: String)
    ensures
        thinking@ == streaming_thinking(prefix@, streamed@),
{
    if is_blank(prefix) {
        streamed.to_owned()
    } else {
        let mut thinking = prefix.to_owned();
        thinking.append("\n\n");
        thinking.append(streamed);
        thinking
    }
}

/// What a tool's message shows.
pub open spec fn tool_message_content(update: ActionUpdateView) -> Seq<char> {
    update.arguments + "\n\n"@ + update.summary
}

/// What a tool's message shows: its arguments, and below them how it went.
pub fn format_tool_message_content(update: &ToolActionUpdate) -> (content: String)
    ensures
        content@ == tool_message_content(update@),
{
    let mut content = update.arguments.clone();
    content.append("\n\n");
    content.append(update.summary.as_str());
    content
}

/// Whether `text` has no line break and does not say that nothing was found.
pub open spec fn tidy(text: Seq<char>) -> bool {
    &&& !text.contains('\n')
    &&& !contains_part(text, "No results found."@)
}

/// Whether the texts of a finding are tidy.
pub open spec fn tidy_result(result: SearchResult) -> bool {
    tidy(result.title@) && tidy(result.url@) && tidy(result.content@)
}

/// The summary of a search counts its sources: for some findings, in tidy texts and with an answer
/// that does not start with a digit, it gives their number; for none it says so.
pub proof fn summary_counts_sources(query: Seq<char>, response: SearchResponse)
    ensures
        ({
            let summary = result_summary("web_search"@, search_report(query, response));
            &&& response.results@.len() == 0 ==> summary == "No results found"@
            &&& response.results@.len() > 0 && tidy(query) && (response.answer matches Some(answer)
                ==> tidy(answer@) && !numbered(trimmed(answer@))) && (forall|i: int|
                0 <= i < response.results@.len() ==> tidy_result(#[trigger] response.results@[i]))
                ==> summary == decimal(response.results@.len()) + " sources"@
        }),
{
    reveal_strlit("web_search");
    reveal_strlit("ls");
    reveal_strlit("cat");
    reveal_strlit("sed");
    assert("web_search"@.len() == 10 && "ls"@.len() == 2 && "cat"@.len() == 3 && "sed"@.len() == 3);
    let report = search_report(query, response);
    if response.results@.len() == 0 {
        nothing_found_is_said(query, response);
    } else if tidy(query) && (response.answer matches Some(answer) ==> tidy(answer@) && !numbered(
        trimmed(answer@),
    )) && (forall|i: int|
        0 <= i < response.results@.len() ==> tidy_result(#[trigger] response.results@[i])) {
        let head = report_head(query, response);
        head_is_unnumbered(query, response);
        results_are_numbered(head, response.results@);
        assert(report =~= head + told_results(response.results@));
    }
}

/// What stands in a report before its findings.
spec fn report_head(query: Seq<char>, response: SearchResponse) -> Seq<char> {
    "Search results for \""@ + query + "\":\n"@ + told_answer(response.answer) + "\nSources:\n"@
}

/// Whether `text` consists of whole lines and does not say that nothing was found.
spec fn clean(text: Seq<char>) -> bool {
    &&& text.len() == 0 || text.last() == '\n'
    &&& !contains_part(text, "No results found."@)
}

proof fn nothing_found_is_said(query: Seq<char>, response: SearchResponse)
    requires
        response.results@.len() == 0,
    ensures
        contains_part(search_report(query, response), "No results found."@),
{
    reveal_strlit("\nNo results found.");
    reveal_strlit("No results found.");
    let part = "No results found."@;
    let report = search_report(query, response);
    let at = report.len() - part.len();
    assert("\nNo results found."@ =~= seq!['\n'] + part);
    assert(report.subrange(at, at + part.len()) =~= part);
    assert(occurs_at(report, part, at));
}

/// The words for no findings hold no line break and none of these marks.
proof fn words_for_nothing()
    ensures
        "No results found."@.len() == 17,
        "No results found."@[0] == 'N',
        "No results found."@.last() == '.',
        !"No results found."@.contains('\n'),
        !"No results found."@.contains('('),
{
    reveal_strlit("No results found.");
    let part = "No results found."@;
    assert forall|i: int| 0 <= i < 17 implies part[i] != '\n' && part[i] != '(' by {
        assert(part =~= seq![
            'N', 'o', ' ', 'r', 'e', 's', 'u', 'l', 't', 's', ' ', 'f', 'o', 'u', 'n', 'd', '.',
        ]);
    }
}

/// What stands across a character that it does not hold stands on one side of it.
proof fn part_on_one_side(left: Seq<char>, c: char, right: Seq<char>, part: Seq<char>)
    requires
        part.len() > 0,
        !part.contains(c),
        contains_part(left + seq![c] + right, part),
    ensures
        contains_part(left, part) || contains_part(right, part),
{
    let text = left + seq![c] + right;
    let at = choose|at: int| occurs_at(text, part, at);
    let cut = left.len() as int;
    if at + part.len() <= cut {
        assert(left.subrange(at, at + part.len()) =~= text.subrange(at, at + part.len()));
        assert(occurs_at(left, part, at));
    } else if at > cut {
        let from = at - cut - 1;
        assert(right.subrange(from, from + part.len()) =~= text.subrange(at, at + part.len()));
        assert(occurs_at(right, part, from));
    } else {
        assert(text.subrange(at, at + part.len())[cut - at] == c);
        assert(part[cut - at] == c);
    }
}

/// What does not start in the first text stands in the second.
proof fn part_behind(first: Seq<char>, second: Seq<char>, part: Seq<char>)
    requires
        part.len() > 0,
        !first.contains(part[0]),
        contains_part(first + second, part),
    ensures
        contains_part(second, part),
{
    let text = first + second;
    let at = choose|at: int| occurs_at(text, part, at);
    assert(text.subrange(at, at + part.len())[0] == text[at]);
    if at < first.len() {
        assert(first[at] == part[0]);
    }
    let from = at - first.len();
    assert(second.subrange(from, from + part.len()) =~= text.subrange(at, at + part.len()));
    assert(occurs_at(second, part, from));
}

/// What does not end in the second text stands in the first.
proof fn part_before(first: Seq<char>, second: Seq<char>, part: Seq<char>)
    requires
        part.len() > 0,
        !second.contains(part.last()),
        contains_part(first + second, part),
    ensures
        contains_part(first, part),
{
    let text = first + second;
    let at = choose|at: int| occurs_at(text, part, at);
    let end = at + part.len() - 1;
    assert(text.subrange(at, at + part.len())[part.len() - 1] == text[end]);
    if end >= first.len() {
        assert(second[end - first.len()] == part.last());
    }
    assert(first.subrange(at, at + part.len()) =~= text.subrange(at, at + part.len()));
    assert(occurs_at(first, part, at));
}

/// What stands in a part of a text stands in the text.
proof fn part_of_part(text: Seq<char>, from: int, to: int, part: Seq<char>)
    requires
        0 <= from <= to <= text.len(),
        contains_part(text.subrange(from, to), part),
    ensures
        contains_part(text, part),
{
    let inner = text.subrange(from, to);
    let at = choose|at: int| occurs_at(inner, part, at);
    assert(text.subrange(from + at, from + at + part.len()) =~= inner.subrange(
        at,
        at + part.len(),
    ));
    assert(occurs_at(text, part, from + at));
}

/// A text is as tidy without white space around it.
proof fn trimmed_is_tidy(text: Seq<char>)
    requires
        tidy(text),
    ensures
        tidy(trimmed(text)),
{
    start_is_tidy(text);
    end_is_tidy(trimmed_start(text));
}

proof fn start_is_tidy(text: Seq<char>)
    requires
        tidy(text),
    ensures
        tidy(trimmed_start(text)),
    decreases text.len(),
{
    if text.len() > 0 && is_white(text[0]) {
        inner_is_tidy(text, 1, text.len() as int);
        assert(text.drop_first() =~= text.subrange(1, text.len() as int));
        start_is_tidy(text.drop_first());
    }
}

proof fn end_is_tidy(text: Seq<char>)
    requires
        tidy(text),
    ensures
        tidy(trimmed_end(text)),
    decreases text.len(),
{
    if text.len() > 0 && is_white(text.last()) {
        inner_is_tidy(text, 0, text.len() - 1);
        assert(text.drop_last() =~= text.subrange(0, text.len() - 1));
        end_is_tidy(text.drop_last());
    }
}

proof fn inner_is_tidy(text: Seq<char>, from: int, to: int)
    requires
        tidy(text),
        0 <= from <= to <= text.len(),
    ensures
        tidy(text.subrange(from, to)),
{
    let inner = text.subrange(from, to);
    if inner.contains('\n') {
        let i = choose|i: int| 0 <= i < inner.len() && inner[i] == '\n';
        assert(text[from + i] == '\n');
    }
    if contains_part(inner, "No results found."@) {
        part_of_part(text, from, to, "No results found."@);
    }
}

/// The last piece of a text goes on with what holds no separator.
proof fn pieces_grow(text: Seq<char>, line: Seq<char>)
    requires
        !line.contains('\n'),
    ensures
        pieces(text, '\n').len() > 0,
        pieces(text + line, '\n') == pieces(text, '\n').drop_last().push(
            pieces(text, '\n').last() + line,
        ),
    decreases text.len() + line.len(),
{
    if line.len() == 0 {
        assert(text + line =~= text);
        assert(pieces(text, '\n').len() > 0) by {
            if text.len() > 0 {
                pieces_grow(text.drop_last(), Seq::empty());
            }
        }
        assert(pieces(text, '\n').last() + line =~= pieces(text, '\n').last());
        assert(pieces(text, '\n').drop_last().push(pieces(text, '\n').last()) =~= pieces(
            text,
            '\n',
        ));
    } else {
        let shorter = line.drop_last();
        assert(!shorter.contains('\n')) by {
            if shorter.contains('\n') {
                let i = choose|i: int| 0 <= i < shorter.len() && shorter[i] == '\n';
                assert(line[i] == '\n');
            }
        }
        pieces_grow(text, shorter);
        assert((text + line).drop_last() =~= text + shorter);
        assert(line[line.len() - 1] != '\n');
        let last = pieces(text, '\n').last();
        assert((last + shorter).push(line.last()) =~= last + line);
        assert(pieces(text, '\n').drop_last().push(last + shorter).drop_last() =~= pieces(
            text,
            '\n',
        ).drop_last());
    }
}

/// A line that is added to clean text leaves it clean, and counts if it starts with a digit.
proof fn line_added(text: Seq<char>, line: Seq<char>)
    requires
        clean(text),
        tidy(line),
    ensures
        clean(text + line.push('\n')),
        numbered_line_count(lines_of(text + line.push('\n'))) == numbered_line_count(lines_of(text))
            + (if numbered(line) {
            1nat
        } else {
            0nat
        }),
{
    let part = "No results found."@;
    let after = text + line.push('\n');
    words_for_nothing();
    if contains_part(after, part) {
        assert(after =~= (text + line) + seq!['\n'] + Seq::empty());
        part_on_one_side(text + line, '\n', Seq::empty(), part);
        assert(!contains_part(Seq::<char>::empty(), part));
        if text.len() == 0 {
            assert(text + line =~= line);
        } else {
            assert(text + line =~= text.drop_last() + seq!['\n'] + line);
            part_on_one_side(text.drop_last(), '\n', line, part);
            assert(text.drop_last() =~= text.subrange(0, text.len() - 1));
            part_of_part(text, 0, text.len() - 1, part);
        }
    }
    pieces_grow(text, line);
    assert(after.drop_last() =~= text + line);
    let parts = pieces(text, '\n');
    assert(parts.last().len() == 0) by {
        if text.len() > 0 {
            pieces_grow(text.drop_last(), Seq::empty());
        }
    }
    assert(parts.last() + line =~= line);
    let ended = parts.drop_last().push(line);
    assert(pieces(after, '\n') =~= ended.push(Seq::empty()));
    assert(pieces(after, '\n').drop_last() =~= ended);
    let short = |line: Seq<char>| without_return(line);
    assert(ended.map_values(short) =~= parts.drop_last().map_values(short).push(short(line)));
    assert(lines_of(after) =~= lines_of(text).push(without_return(line)));
    reveal(Seq::filter);
    assert(lines_of(text).push(without_return(line)).drop_last() =~= lines_of(text));
    assert(numbered(without_return(line)) == numbered(line));
}

/// What stands before the findings is clean, and none of its lines starts with a digit.
proof fn head_is_unnumbered(query: Seq<char>, response: SearchResponse)
    requires
        tidy(query),
        response.answer matches Some(answer) ==> tidy(answer@) && !numbered(trimmed(answer@)),
    ensures
        clean(report_head(query, response)),
        numbered_line_count(lines_of(report_head(query, response))) == 0,
{
    reveal_strlit("Search results for \"");
    reveal_strlit("\":\n");
    reveal_strlit("\nSummary:\n");
    reveal_strlit("\nSources:\n");
    reveal_strlit("\n");
    words_for_nothing();
    let part = "No results found."@;
    let before = "Search results for \""@;
    let behind = seq!['"', ':'];
    let first = before + query + behind;
    let summary = seq!['S', 'u', 'm', 'm', 'a', 'r', 'y', ':'];
    let sources = seq!['S', 'o', 'u', 'r', 'c', 'e', 's', ':'];
    let nothing = Seq::<char>::empty();
    assert(tidy(first)) by {
        assert(!before.contains('N') && !before.contains('\n'));
        assert(!behind.contains('.') && !behind.contains('\n'));
        if contains_part(first, part) {
            part_before(before + query, behind, part);
            part_behind(before, query, part);
        }
        if first.contains('\n') {
            let i = choose|i: int| 0 <= i < first.len() && first[i] == '\n';
            if i < before.len() {
                assert(before[i] == '\n');
            } else if i < before.len() + query.len() {
                assert(query[i - before.len()] == '\n');
            } else {
                assert(behind[i - before.len() - query.len()] == '\n');
            }
        }
    }
    assert(clean(nothing));
    assert(numbered_line_count(lines_of(nothing)) == 0) by {
        assert(pieces(nothing, '\n') =~= seq![nothing]);
        let short = |line: Seq<char>| without_return(line);
        assert(seq![nothing].drop_last().map_values(short) =~= Seq::<Seq<char>>::empty());
        assert(lines_of(nothing) =~= Seq::<Seq<char>>::empty());
        reveal(Seq::filter);
    }
    line_added(nothing, first);
    let one = nothing + first.push('\n');
    assert(first[0] == 'S');
    short_line_is_tidy(nothing);
    short_line_is_tidy(summary);
    short_line_is_tidy(sources);
    let told = match response.answer {
        Some(answer) => if blank(answer@) {
            one
        } else {
            let said = trimmed(answer@);
            trimmed_is_tidy(answer@);
            line_added(one, nothing);
            let two = one + nothing.push('\n');
            line_added(two, summary);
            let three = two + summary.push('\n');
            line_added(three, said);
            assert(three + said.push('\n') =~= one + told_answer(response.answer));
            three + said.push('\n')
        },
        None => one,
    };
    line_added(told, nothing);
    let last = told + nothing.push('\n');
    line_added(last, sources);
    assert(one =~= "Search results for \""@ + query + "\":\n"@);
    assert(told =~= one + told_answer(response.answer));
    assert(last + sources.push('\n') =~= report_head(query, response));
}

/// A line that is shorter than the words for no findings, and holds no line break, is tidy.
proof fn short_line_is_tidy(line: Seq<char>)
    requires
        line.len() < 17,
        !line.contains('\n'),
    ensures
        tidy(line),
{
    words_for_nothing();
}

/// A number in decimal is made of digits.
proof fn decimal_is_digits(value: nat)
    ensures
        decimal(value).len() > 0,
        forall|i: int| 0 <= i < decimal(value).len() ==> '0' <= #[trigger] decimal(value)[i] <= '9',
    decreases value,
{
    if value >= 10 {
        decimal_is_digits(value / 10);
    }
}

/// A score in characters is tidy.
proof fn score_is_tidy(score: Score)
    ensures
        tidy(score.text()),
{
    words_for_nothing();
    let text = score.text();
    match score {
        Score::Number { negative, whole, .. } => {
            decimal_is_digits(whole as nat);
            let digits = decimal(whole as nat);
            let start = sign(negative).len() as int;
            assert forall|i: int| 0 <= i < text.len() implies text[i] != 'N' && text[i]
                != '\n' by {
                if start <= i < start + digits.len() {
                    assert(text[i] == digits[i - start]);
                }
            }
        },
        _ => {
            short_line_is_tidy(text);
        },
    }
}

/// The findings of a report are clean, and one line of each starts with a digit.
proof fn results_are_numbered(head: Seq<char>, results: Seq<SearchResult>)
    requires
        clean(head),
        forall|i: int| 0 <= i < results.len() ==> tidy_result(#[trigger] results[i]),
    ensures
        clean(head + told_results(results)),
        numbered_line_count(lines_of(head + told_results(results))) == numbered_line_count(
            lines_of(head),
        ) + results.len(),
    decreases results.len(),
{
    if results.len() == 0 {
        assert(head + told_results(results) =~= head);
    } else {
        let before = results.drop_last();
        assert forall|i: int| 0 <= i < before.len() implies tidy_result(#[trigger] before[i]) by {
            assert(before[i] == results[i]);
        }
        results_are_numbered(head, before);
        let text = head + told_results(before);
        let result = results[results.len() - 1];
        result_is_numbered(text, results.len(), result);
        assert(head + told_results(results) =~= text + told_result(results.len(), result));
    }
}

/// A finding is told in three lines.
proof fn result_in_lines(number: nat, result: SearchResult)
    ensures
        ({
            let indent = seq![' ', ' ', ' '];
            let first = title_line(number, result.title@, result.score.text());
            told_result(number, result) == first.push('\n') + (indent + result.url@).push('\n') + (
            indent + trimmed(result.content@)).push('\n')
        }),
{
    reveal_strlit(". ");
    reveal_strlit(" (");
    reveal_strlit(")\n   ");
    reveal_strlit("\n   ");
    reveal_strlit("\n");
    let indent = seq![' ', ' ', ' '];
    let first = title_line(number, result.title@, result.score.text());
    assert(told_result(number, result) =~= first.push('\n') + (indent + result.url@).push('\n') + (
    indent + trimmed(result.content@)).push('\n'));
}

/// A finding adds three lines, of which the first one starts with a digit.
#[verifier::rlimit(40)]
proof fn result_is_numbered(text: Seq<char>, number: nat, result: SearchResult)
    requires
        clean(text),
        tidy_result(result),
    ensures
        clean(text + told_result(number, result)),
        numbered_line_count(lines_of(text + told_result(number, result))) == numbered_line_count(
            lines_of(text),
        ) + 1,
{
    let indent = seq![' ', ' ', ' '];
    let first = title_line(number, result.title@, result.score.text());
    let second = indent + result.url@;
    let third = indent + trimmed(result.content@);
    result_in_lines(number, result);
    score_is_tidy(result.score);
    title_line_is_tidy(number, result.title@, result.score.text());
    indented_is_tidy(result.url@);
    trimmed_is_tidy(result.content@);
    indented_is_tidy(trimmed(result.content@));
    line_added(text, first);
    let one = text + first.push('\n');
    line_added(one, second);
    let two = one + second.push('\n');
    line_added(two, third);
    assert(second[0] == ' ' && third[0] == ' ');
    assert(two + third.push('\n') =~= text + told_result(number, result));
}

/// The first line of a finding.
spec fn title_line(number: nat, title: Seq<char>, score: Seq<char>) -> Seq<char> {
    decimal(number) + seq!['.', ' '] + title + seq![' '] + seq!['('] + (score + seq![')'])
}

proof fn title_line_is_tidy(number: nat, title: Seq<char>, score: Seq<char>)
    requires
        tidy(title),
        tidy(score),
    ensures
        tidy(title_line(number, title, score)),
        numbered(title_line(number, title, score)),
{
    words_for_nothing();
    decimal_is_digits(number);
    let part = "No results found."@;
    let line = title_line(number, title, score);
    let prefix = decimal(number) + seq!['.', ' '];
    let left = prefix + title + seq![' '];
    let right = score + seq![')'];
    assert(line[0] == decimal(number)[0]);
    assert forall|i: int| 0 <= i < prefix.len() implies prefix[i] != 'N' && prefix[i] != '\n' by {
        if i < decimal(number).len() {
            assert(prefix[i] == decimal(number)[i]);
        }
    }
    if contains_part(line, part) {
        part_on_one_side(left, '(', right, part);
        if contains_part(left, part) {
            assert(!seq![' '].contains('.'));
            part_before(prefix + title, seq![' '], part);
            part_behind(prefix, title, part);
        } else {
            assert(!seq![')'].contains('.'));
            part_before(score, seq![')'], part);
        }
    }
    if line.contains('\n') {
        let i = choose|i: int| 0 <= i < line.len() && line[i] == '\n';
        if i < prefix.len() {
            assert(prefix[i] == '\n');
        } else if i < prefix.len() + title.len() {
            assert(title[i - prefix.len()] == '\n');
        } else if i >= left.len() + 1 && i < left.len() + 1 + score.len() {
            assert(score[i - left.len() - 1] == '\n');
        }
    }
}

proof fn indented_is_tidy(text: Seq<char>)
    requires
        tidy(text),
    ensures
        tidy(seq![' ', ' ', ' '] + text),
{
    words_for_nothing();
    let indent = seq![' ', ' ', ' '];
    let line = indent + text;
    assert(!indent.contains('N'));
    if contains_part(line, "No results found."@) {
        part_behind(indent, text, "No results found."@);
    }
    if line.contains('\n') {
        let i = choose|i: int| 0 <= i < line.len() && line[i] == '\n';
        if i >= 3 {
            assert(text[i - 3] == '\n');
        }
    }
}

/// The names of the tools are told apart.
proof fn tool_names_differ()
    ensures
        "web_search"@ != "ls"@,
        "web_search"@ != "cat"@,
        "web_search"@ != "sed"@,
        "run_command"@ != "ls"@,
        "run_command"@ != "cat"@,
        "run_command"@ != "sed"@,
        "web_search"@ != "run_command"@,
        "ls"@ != "cat"@,
        "ls"@ != "sed"@,
        "cat"@ != "sed"@,
{
    reveal_strlit("web_search");
    reveal_strlit("run_command");
    reveal_strlit("ls");
    reveal_strlit("cat");
    reveal_strlit("sed");
    assert("web_search"@.len() == 10 && "run_command"@.len() == 11 && "ls"@.len() == 2);
    assert("cat"@[0] == 'c' && "sed"@[0] == 's');
}

/// The summary of a listing counts its lines: none at first, one more for each line that is not
/// blank, and no more for one that is.
#[verifier::rlimit(40)]
pub proof fn listed_lines_are_counted(text: Seq<char>, line: Seq<char>) -> (count: nat)
    requires
        text.len() > 0 ==> text.last() == '\n',
        !line.contains('\n'),
        line.len() > 0 ==> line.last() != '\r',
        !contains_part(text, "… truncated"@),
        !contains_part(text + line + seq!['\n'], "… truncated"@),
    ensures
        text.len() == 0 ==> count == 0,
        result_summary("ls"@, text) == decimal(count) + " lines of output"@,
        result_summary("ls"@, text + line + seq!['\n']) == decimal(
            if blank(line) {
                count
            } else {
                count + 1
            },
        ) + " lines of output"@,
{
    let keep = |line: Seq<char>| !blank(line);
    text_is_read_by_lines(text, line);
    let before = lines_of(text);
    let after = lines_of(text + line + seq!['\n']);
    filter_step(after, before.len() as int, keep);
    assert(after.take(before.len() as int) =~= before);
    assert(after.take(before.len() as int + 1) =~= after);
    if text.len() == 0 {
        assert(text =~= Seq::empty());
        filter_nothing(keep);
    }
    filled_line_count(before)
}

/// The summary of a file counts the lines and the characters below the command line.
pub proof fn read_lines_are_counted(label: Seq<char>, body: Seq<char>)
    requires
        !label.contains('\n'),
        !contains_part(label + seq!['\n', '\n'] + body, "… truncated"@),
    ensures
        result_summary("cat"@, label + seq!['\n', '\n'] + body) == decimal(lines_of(body).len())
            + " lines, "@ + decimal(body.len()) + " characters read"@,
{
    tool_names_differ();
    reveal_strlit("\n\n");
    assert("\n\n"@ =~= seq!['\n', '\n']);
    let text = label + "\n\n"@ + body;
    assert forall|at: int| 0 <= at < label.len() implies !occurs_at(text, "\n\n"@, at) by {
        if occurs_at(text, "\n\n"@, at) {
            assert(text.subrange(at, at + 2)[0] == '\n');
            assert(label[at] == '\n');
            assert(label.contains('\n'));
        }
    }
    splitting_undoes_joining(label, "\n\n"@, body);
}

/// The summary of a file that comes without a command line counts all of it.
pub proof fn bare_lines_are_counted(result: Seq<char>)
    requires
        !contains_part(result, "\n\n"@),
        !contains_part(result, "… truncated"@),
    ensures
        result_summary("cat"@, result) == decimal(lines_of(result).len()) + " lines, "@ + decimal(
            result.len(),
        ) + " characters read"@,
{
    tool_names_differ();
}

/// The summary of a change is what `sed` answers, that of a command gives its first line, and that of
/// any other tool is its answer, whole or with its first hundred and twenty characters.
pub proof fn other_summaries(tool_name: Seq<char>, result: Seq<char>)
    ensures
        result_summary("sed"@, result) == result,
        result.len() == 0 ==> result_summary("run_command"@, result) == "Completed"@,
        tool_name != "ls"@ && tool_name != "cat"@ && tool_name != "sed"@ && tool_name
            != "web_search"@ && tool_name != "run_command"@ ==> {
            &&& result.len() <= 120 ==> result_summary(tool_name, result) == result
            &&& result.len() > 120 ==> {
                &&& result_summary(tool_name, result).len() == 121
                &&& result_summary(tool_name, result).take(120) == result.take(120)
                &&& result_summary(tool_name, result).last() == '…'
            }
        },
{
    tool_names_differ();
    only_long_texts_are_cut(result, 120);
    if result.len() == 0 {
        assert(result =~= Seq::empty());
        text_is_read_by_lines(Seq::empty(), Seq::empty());
    }
}

/// The summary of a command gives the first line of its report.
pub proof fn first_line_sums_up_a_command(line: Seq<char>, rest: Seq<char>)
    requires
        !line.contains('\n'),
        line.len() > 0 ==> line.last() != '\r',
    ensures
        result_summary("run_command"@, line + seq!['\n'] + rest) == "Completed ("@ + line + ")"@,
    decreases rest.len(),
{
    tool_names_differ();
    first_line_stays(line, rest);
}

/// The first line of a text stays its first line, whatever comes behind it.
proof fn first_line_stays(line: Seq<char>, rest: Seq<char>)
    requires
        !line.contains('\n'),
        line.len() > 0 ==> line.last() != '\r',
    ensures
        lines_of(line + seq!['\n'] + rest).len() > 0,
        lines_of(line + seq!['\n'] + rest)[0] == line,
{
    first_piece_stays(line, rest);
    let parts = pieces(line + seq!['\n'] + rest, '\n');
    let ended = parts.drop_last().map_values(|line: Seq<char>| without_return(line));
    assert(ended[0] == without_return(parts[0]));
}

proof fn first_piece_stays(line: Seq<char>, rest: Seq<char>)
    requires
        !line.contains('\n'),
    ensures
        pieces(line + seq!['\n'] + rest, '\n').len() > 1,
        pieces(line + seq!['\n'] + rest, '\n')[0] == line,
    decreases rest.len(),
{
    let text = line + seq!['\n'] + rest;
    let nothing = Seq::<char>::empty();
    if rest.len() == 0 {
        assert(text.drop_last() =~= line);
        whole_piece(line);
    } else {
        first_piece_stays(line, rest.drop_last());
        assert(text.drop_last() =~= line + seq!['\n'] + rest.drop_last());
    }
}

proof fn whole_piece(line: Seq<char>)
    requires
        !line.contains('\n'),
    ensures
        pieces(line, '\n') == seq![line],
    decreases line.len(),
{
    if line.len() > 0 {
        let before = line.drop_last();
        assert forall|i: int| 0 <= i < before.len() implies before[i] != '\n' by {
            assert(line[i] == before[i]);
            assert(line.contains(line[i]));
        }
        assert(line.contains(line[line.len() - 1]));
        whole_piece(before);
        assert(before.push(line.last()) =~= line);
        assert(pieces(line, '\n') =~= seq![line]);
    } else {
        assert(line =~= Seq::empty());
    }
}

/// The thinking notes all that `ls` and `sed` answer; of any other answer it notes all, or the first
/// six hundred characters.
pub proof fn results_are_noted(tool_name: Seq<char>, result: Seq<char>)
    ensures
        noted_result("ls"@, result) == result,
        noted_result("sed"@, result) == result,
        result.len() <= 600 ==> noted_result(tool_name, result) == result,
        tool_name != "ls"@ && tool_name != "sed"@ && result.len() > 600 ==> {
            &&& noted_result(tool_name, result).len() == 601
            &&& noted_result(tool_name, result).take(600) == result.take(600)
            &&& noted_result(tool_name, result).last() == '…'
        },
{
    only_long_texts_are_cut(result, 600);
}

/// While an answer comes in, the thinking ends with what came in, behind what was there before unless
/// that is blank.
pub proof fn streamed_text_comes_last(prefix: Seq<char>, streamed: Seq<char>)
    ensures
        blank(prefix) ==> streaming_thinking(prefix, streamed) == streamed,
        !blank(prefix) ==> streaming_thinking(prefix, streamed) == prefix + seq!['\n', '\n']
            + streamed,
{
    reveal_strlit("\n\n");
    assert("\n\n"@ =~= seq!['\n', '\n']);
}

/// A tool's message comes apart again at its first empty line: into the arguments and how it went.
pub proof fn tool_messages_come_apart(update: ActionUpdateView)
    requires
        forall|at: int|
            0 <= at < update.arguments.len() ==> !occurs_at(
                update.arguments + seq!['\n'],
                seq!['\n', '\n'],
                at,
            ),
    ensures
        split_once_of(tool_message_content(update), "\n\n"@) == Some(
            (update.arguments, update.summary),
        ),
{
    reveal_strlit("\n\n");
    assert("\n\n"@ =~= seq!['\n', '\n']);
    let arguments = update.arguments;
    let text = arguments + "\n\n"@ + update.summary;
    let open = arguments + seq!['\n'];
    assert forall|at: int| 0 <= at < arguments.len() implies !occurs_at(text, "\n\n"@, at) by {
        if occurs_at(text, "\n\n"@, at) {
            assert(open.subrange(at, at + 2) =~= text.subrange(at, at + 2));
            assert(occurs_at(open, seq!['\n', '\n'], at));
        }
    }
    splitting_undoes_joining(arguments, "\n\n"@, update.summary);
}

/// A listing or a file that was cut is summed up as such.
#[verifier::rlimit(40)]
pub proof fn cut_results_are_summed_up_as_such(result: Seq<char>)
    requires
        contains_part(result, "… truncated"@),
    ensures
        contains_part(result_summary("ls"@, result), "(truncated)"@),
        contains_part(result_summary("cat"@, result), "(truncated)"@),
{
    tool_names_differ();
    words_for_cut();
    let nothing = Seq::<char>::empty();
    let listed = decimal(filled_line_count(lines_of(result)));
    let read = decimal(lines_of(body_of(result)).len());
    part_is_contained(listed + " lines of output "@, "(truncated)"@, nothing);
    part_is_contained(read + " lines read "@, "(truncated)"@, nothing);
    let listing = listed + " lines of output (truncated)"@;
    let reading = read + " lines read (truncated)"@;
    assert(listing =~= listed + " lines of output "@ + "(truncated)"@ + nothing);
    assert(reading =~= read + " lines read "@ + "(truncated)"@ + nothing);
    assert(result_summary("ls"@, result) == listing);
    assert(result_summary("cat"@, result) == reading);
}

proof fn words_for_cut()
    ensures
        " lines of output (truncated)"@ == " lines of output "@ + "(truncated)"@,
        " lines read (truncated)"@ == " lines read "@ + "(truncated)"@,
{
    reveal_strlit("(truncated)");
    reveal_strlit(" lines of output (truncated)");
    reveal_strlit(" lines read (truncated)");
    reveal_strlit(" lines of output ");
    reveal_strlit(" lines read ");
    assert(" lines of output (truncated)"@ =~= " lines of output "@ + "(truncated)"@);
    assert(" lines read (truncated)"@ =~= " lines read "@ + "(truncated)"@);
}

/// The summary of a search that found nothing says so, and one without a numbered line says that it
/// is done.
pub proof fn searches_without_sources_are_summed_up(result: Seq<char>)
    ensures
        contains_part(result, "No results found."@) ==> result_summary("web_search"@, result)
            == "No results found"@,
        !contains_part(result, "No results found."@) && (forall|i: int|
            0 <= i < lines_of(result).len() ==> (#[trigger] lines_of(result)[i]).len() == 0 || !(
            '0' <= lines_of(result)[i][0] <= '9')) ==> result_summary("web_search"@, result)
            == "Search completed"@,
{
    tool_names_differ();
    if forall|i: int|
        0 <= i < lines_of(result).len() ==> (#[trigger] lines_of(result)[i]).len() == 0 || !('0'
            <= lines_of(result)[i][0] <= '9') {
        filter_keeps_nothing(lines_of(result), |line: Seq<char>| numbered(line));
    }
}

proof fn filter_keeps_nothing(lines: Seq<Seq<char>>, keep: spec_fn(Seq<char>) -> bool)
    requires
        forall|i: int| 0 <= i < lines.len() ==> !keep(#[trigger] lines[i]),
    ensures
        lines.filter(keep).len() == 0,
    decreases lines.len(),
{
    reveal(Seq::filter);
    if lines.len() > 0 {
        let before = lines.drop_last();
        assert forall|i: int| 0 <= i < before.len() implies !keep(#[trigger] before[i]) by {
            assert(before[i] == lines[i]);
        }
        assert(!keep(lines[lines.len() - 1]));
        filter_keeps_nothing(before, keep);
    }
}

} // verus!
