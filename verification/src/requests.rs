//! How a tool request is found in what the model says.
//!
//! A model calls a tool natively, or it writes a JSON object as its answer.
use vstd::prelude::*;

use crate::json::{entry_views, object_of, parsed_json, Json, JsonView};
use crate::platform::Platform;
use crate::text::{
    blank, from_chars, prefixes_are_taken_off, same_text, starts_with, suffixes_are_taken_off,
    to_chars, trim, trim_end_matches, trim_start_matches, trimmed, trimmed_is_empty, views,
    without_prefixes, without_suffixes,
};
use crate::tools::{is_supported_tool, supported_tool};

verus! {

/// A tool that is to be run, with its arguments.
#[derive(Debug, PartialEq, Eq)]
pub struct ToolInvocation {
    pub name: String,
    pub arguments: Json,
}

/// The function that a native call names, with its arguments as the model gave them.
#[derive(Debug, PartialEq, Eq)]
pub struct ToolFunction {
    pub name: String,
    pub arguments: Json,
}

/// A native tool call.
#[derive(Debug, PartialEq, Eq)]
pub struct ToolCall {
    pub function: ToolFunction,
}

/// The model of a tool call and of an invocation.
pub struct CallView {
    pub name: Seq<char>,
    pub arguments: JsonView,
}

impl View for ToolInvocation {
    type V = CallView;

    open spec fn view(&self) -> CallView {
        CallView { name: self.name@, arguments: self.arguments@ }
    }
}

impl View for ToolCall {
    type V = CallView;

    open spec fn view(&self) -> CallView {
        CallView { name: self.function.name@, arguments: self.function.arguments@ }
    }
}

impl Clone for ToolInvocation {
    fn clone(&self) -> (copy: Self)
        ensures
            copy@ == self@,
    {
        ToolInvocation { name: self.name.clone(), arguments: self.arguments.clone() }
    }
}

impl Clone for ToolCall {
    fn clone(&self) -> (copy: Self)
        ensures
            copy@ == self@,
    {
        ToolCall {
            function: ToolFunction {
                name: self.function.name.clone(),
                arguments: self.function.arguments.clone(),
            },
        }
    }
}

/// The models of tool calls.
pub open spec fn call_views(calls: Seq<ToolCall>) -> Seq<CallView> {
    calls.map_values(|call: ToolCall| call@)
}

/// The model of what may be an invocation.
pub open spec fn invocation_view(invocation: Option<ToolInvocation>) -> Option<CallView> {
    match invocation {
        Some(invocation) => Some(invocation@),
        None => None,
    }
}

/// The model of what may be a JSON value.
pub open spec fn json_view(json: Option<Json>) -> Option<JsonView> {
    match json {
        Some(json) => Some(json@),
        None => None,
    }
}

/// The models of what may be JSON values.
pub open spec fn json_views(values: Seq<Option<Json>>) -> Seq<Option<JsonView>> {
    values.map_values(|value: Option<Json>| json_view(value))
}

/// The arguments of a call, given what their text holds as JSON where they are a text: that, or the
/// text itself where it is no JSON.
pub open spec fn arguments_given(
    arguments: JsonView,
    from_text: Option<JsonView>,
) -> JsonView {
    match (arguments, from_text) {
        (JsonView::Text(_), Some(value)) => value,
        _ => arguments,
    }
}

/// The arguments of a call: where they are a text that is JSON, what it holds.
pub open spec fn normal_arguments(arguments: JsonView) -> JsonView {
    arguments_given(
        arguments,
        match arguments {
            JsonView::Text(text) => parsed_json(text),
            _ => None,
        },
    )
}

/// The arguments of a call, given what their text holds as JSON.
pub fn arguments_from(arguments: &Json, from_text: Option<Json>) -> (normal: Json)
    ensures
        normal@ == arguments_given(arguments@, json_view(from_text)),
{
    match (arguments, from_text) {
        (Json::Text(_), Some(value)) => value,
        _ => arguments.clone(),
    }
}

/// The arguments of a call: where they are a text that is JSON, what it holds.
pub fn normalize_arguments(arguments: &Json) -> (normal: Json)
    ensures
        normal@ == normal_arguments(arguments@),
{
    match arguments {
        Json::Text(text) => arguments_from(arguments, Json::parse(text.as_str())),
        _ => arguments_from(arguments, None),
    }
}

/// The names of the arguments that a tool takes.
pub open spec fn argument_names(tool_name: Seq<char>) -> Seq<Seq<char>> {
    if tool_name == "web_search"@ {
        seq!["query"@]
    } else if tool_name == "run_command"@ {
        seq!["command"@]
    } else if tool_name == "cat"@ {
        seq!["path"@, "pattern"@, "flags"@]
    } else if tool_name == "ls"@ {
        seq!["path"@, "flags"@]
    } else if tool_name == "sed"@ {
        seq!["path"@, "expression"@]
    } else {
        Seq::empty()
    }
}

/// The argument of a name in a request: beside the tool's name, else under `arguments`, else null.
pub open spec fn request_argument(request: JsonView, name: Seq<char>) -> JsonView {
    match request.field(name) {
        Some(value) => value,
        None => match request.field("arguments"@) {
            Some(arguments) => match arguments.field(name) {
                Some(value) => value,
                None => JsonView::Null,
            },
            None => JsonView::Null,
        },
    }
}

/// The tool's name in a request: under `tool`, or under `name` where there is no `tool`.
pub open spec fn request_name(request: JsonView) -> Option<Seq<char>> {
    match request.field("tool"@) {
        Some(value) => value.text(),
        None => request.text_field("name"@),
    }
}

/// The arguments of a request for a tool.
pub open spec fn request_arguments(request: JsonView, tool_name: Seq<char>) -> JsonView {
    object_of(
        argument_names(tool_name).map_values(
            |name: Seq<char>| (name, request_argument(request, name)),
        ),
    )
}

/// The invocation that a JSON value requests, if it requests a tool that can be had.
pub open spec fn requested_tool(request: JsonView, platform: Platform) -> Option<CallView> {
    match request_name(request) {
        Some(name) => if supported_tool(name, platform) {
            Some(CallView { name, arguments: request_arguments(request, name) })
        } else {
            None
        },
        None => None,
    }
}

/// The names of the arguments that a tool takes.
fn tool_argument_names(tool_name: &str) -> (names: Vec<&'static str>)
    ensures
        names@.map_values(|name: &str| name@) == argument_names(tool_name@),
{
    let names = if same_text(tool_name, "web_search") {
        vec!["query"]
    } else if same_text(tool_name, "run_command") {
        vec!["command"]
    } else if same_text(tool_name, "cat") {
        vec!["path", "pattern", "flags"]
    } else if same_text(tool_name, "ls") {
        vec!["path", "flags"]
    } else if same_text(tool_name, "sed") {
        vec!["path", "expression"]
    } else {
        Vec::new()
    };
    assert(names@.map_values(|name: &str| name@) =~= argument_names(tool_name@));
    names
}

/// The argument of a name in a request.
fn argument_of(request: &Json, name: &str) -> (argument: Json)
    ensures
        argument@ == request_argument(request@, name@),
{
    if let Some(value) = request.get(name) {
        return value.clone();
    }
    if let Some(arguments) = request.get("arguments") {
        if let Some(value) = arguments.get(name) {
            return value.clone();
        }
    }
    Json::Null
}

/// The invocation that a JSON value requests, if it requests a tool that can be had.
pub fn tool_from_json(value: &Json, platform: Platform) -> (invocation: Option<ToolInvocation>)
    ensures
        invocation_view(invocation) == requested_tool(value@, platform),
{
    let named = match value.get("tool") {
        Some(tool) => tool.as_str(),
        None => value.get_str("name"),
    };
    let name = match named {
        Some(name) => name,
        None => {
            return None;
        },
    };
    if !is_supported_tool(name, platform) {
        return None;
    }
    let names = tool_argument_names(name);
    let ghost all = argument_names(name@).map_values(
        |argument: Seq<char>| (argument, request_argument(value@, argument)),
    );
    let mut arguments: Vec<(String, Json)> = Vec::new();
    let mut i: usize = 0;
    while i < names.len()
        invariant
            i <= names@.len(),
            names@.map_values(|name: &str| name@) == argument_names(name@),
            all == argument_names(name@).map_values(
                |argument: Seq<char>| (argument, request_argument(value@, argument)),
            ),
            entry_views(arguments@) == all.take(i as int),
        decreases names@.len() - i,
    {
        assert(names@.map_values(|name: &str| name@)[i as int] == names@[i as int]@);
        let ghost before = entry_views(arguments@);
        arguments.push((names[i].to_owned(), argument_of(value, names[i])));
        assert(entry_views(arguments@) =~= before.push(all[i as int]));
        assert(all.take(i + 1) =~= before.push(all[i as int]));
        i += 1;
    }
    assert(names@.map_values(|name: &str| name@).len() == names@.len());
    assert(all.take(i as int) =~= all);
    Some(ToolInvocation { name: name.to_owned(), arguments: Json::from_entries(arguments) })
}

/// From the first opening to the last closing brace of `text`, where they stand in this order.
pub open spec fn braced(text: Seq<char>) -> Option<Seq<char>> {
    match (text.index_of_first('{'), text.index_of_last('}')) {
        (Some(start), Some(end)) => if start < end {
            Some(text.subrange(start, end + 1))
        } else {
            None
        },
        _ => None,
    }
}

/// What stands in a fenced block that `text` starts with.
pub open spec fn fenced(text: Seq<char>) -> Option<Seq<char>> {
    if "```"@.is_prefix_of(text) {
        Some(
            trimmed(
                without_suffixes(
                    without_prefixes(without_prefixes(text, "```json"@), "```"@),
                    "```"@,
                ),
            ),
        )
    } else {
        None
    }
}

/// One text or none.
pub open spec fn at_most_one(text: Option<Seq<char>>) -> Seq<Seq<char>> {
    match text {
        Some(text) => seq![text],
        None => Seq::empty(),
    }
}

/// The parts of an answer that may be a request in JSON, in the order in which they are tried.
pub open spec fn candidates_of(text: Seq<char>) -> Seq<Seq<char>> {
    seq![text] + at_most_one(braced(text)) + at_most_one(fenced(text))
}

/// The first position of `c`, and the last one of `d`.
fn first_and_last(chars: &Vec<char>, c: char, d: char) -> (positions: (
    Option<usize>,
    Option<usize>,
))
    ensures
        match positions.0 {
            Some(at) => chars@.index_of_first(c) == Some(at as int),
            None => chars@.index_of_first(c) is None,
        },
        match positions.1 {
            Some(at) => chars@.index_of_last(d) == Some(at as int),
            None => chars@.index_of_last(d) is None,
        },
{
    let mut first: Option<usize> = None;
    let mut last: Option<usize> = None;
    let mut i: usize = 0;
    while i < chars.len()
        invariant
            i <= chars@.len(),
            match first {
                Some(at) => at < i && chars@[at as int] == c && forall|j: int|
                    0 <= j < at ==> chars@[j] != c,
                None => forall|j: int| 0 <= j < i ==> chars@[j] != c,
            },
            match last {
                Some(at) => at < i && chars@[at as int] == d && forall|j: int|
                    at < j < i ==> chars@[j] != d,
                None => forall|j: int| 0 <= j < i ==> chars@[j] != d,
            },
        decreases chars@.len() - i,
    {
        if first.is_none() && chars[i] == c {
            first = Some(i);
        }
        if chars[i] == d {
            last = Some(i);
        }
        i += 1;
    }
    proof {
        chars@.index_of_first_ensures(c);
        chars@.index_of_last_ensures(d);
    }
    (first, last)
}

/// The parts of an answer that may be a request in JSON, in the order in which they are tried.
pub fn json_candidates(text: &str) -> (candidates: Vec<String>)
    ensures
        views(candidates@) == candidates_of(text@),
{
    let mut candidates: Vec<String> = Vec::new();
    candidates.push(text.to_owned());
    assert(views(candidates@) =~= seq![text@]);

    let chars = to_chars(text);
    let total: usize = chars.len();
    let (start, end) = first_and_last(&chars, '{', '}');
    proof {
        chars@.index_of_last_ensures('}');
    }
    if let (Some(start), Some(end)) = (start, end) {
        if start < end {
            assert(end < total);
            let ghost before = views(candidates@);
            let part = from_chars(&chars, start, end + 1);
            candidates.push(part);
            assert(views(candidates@) =~= before.push(part@));
        }
    }
    assert(views(candidates@) =~= seq![text@] + at_most_one(braced(text@)));

    if starts_with(text, "```") {
        let without_language = trim_start_matches(text, "```json");
        let without_start = trim_start_matches(without_language.as_str(), "```");
        let without_end = trim_end_matches(without_start.as_str(), "```");
        let stripped = trim(without_end.as_str());
        let ghost before = views(candidates@);
        candidates.push(stripped);
        assert(views(candidates@) =~= before.push(stripped@));
    }
    assert(views(candidates@) =~= candidates_of(text@));
    candidates
}

/// The first request among what may be JSON values.
pub open spec fn first_request(
    values: Seq<Option<JsonView>>,
    platform: Platform,
) -> Option<CallView>
    decreases values.len(),
{
    if values.len() == 0 {
        None
    } else {
        let first = match values[0] {
            Some(value) => requested_tool(value, platform),
            None => None,
        };
        match first {
            Some(request) => Some(request),
            None => first_request(values.drop_first(), platform),
        }
    }
}

/// The first request among what may be JSON values.
pub fn first_tool_request(values: &Vec<Option<Json>>, platform: Platform) -> (invocation: Option<
    ToolInvocation,
>)
    ensures
        invocation_view(invocation) == first_request(json_views(values@), platform),
{
    let ghost all = json_views(values@);
    let mut i: usize = 0;
    assert(all.skip(0) =~= all);
    while i < values.len()
        invariant
            i <= values@.len(),
            all == json_views(values@),
            first_request(all, platform) == first_request(all.skip(i as int), platform),
        decreases values@.len() - i,
    {
        assert(all.skip(i as int)[0] == json_view(values@[i as int]));
        assert(all.skip(i as int).drop_first() =~= all.skip(i + 1));
        if let Some(value) = &values[i] {
            if let Some(invocation) = tool_from_json(value, platform) {
                return Some(invocation);
            }
        }
        i += 1;
    }
    None
}

/// The first native call of a tool that can be had.
pub open spec fn first_supported_call(calls: Seq<CallView>, platform: Platform) -> Option<CallView>
    decreases calls.len(),
{
    if calls.len() == 0 {
        None
    } else if supported_tool(calls[0].name, platform) {
        Some(calls[0])
    } else {
        first_supported_call(calls.drop_first(), platform)
    }
}

/// What the texts hold as JSON.
pub open spec fn parsed_texts(texts: Seq<Seq<char>>) -> Seq<Option<JsonView>> {
    texts.map_values(|text: Seq<char>| parsed_json(text))
}

/// The invocation that an answer asks for: by its first native call of a tool that can be had, or
/// else by the first part of its text that is a request.
pub open spec fn tool_request(
    content: Seq<char>,
    calls: Seq<CallView>,
    platform: Platform,
) -> Option<CallView> {
    match first_supported_call(calls, platform) {
        Some(call) => Some(
            CallView { name: call.name, arguments: normal_arguments(call.arguments) },
        ),
        None => if trimmed(content).len() == 0 {
            None
        } else {
            first_request(parsed_texts(candidates_of(trimmed(content))), platform)
        },
    }
}

/// The invocation that an answer asks for.
pub fn parse_tool_request(
    content: &str,
    tool_calls: &Vec<ToolCall>,
    platform: Platform,
) -> (invocation: Option<ToolInvocation>)
    ensures
        invocation_view(invocation) == tool_request(content@, call_views(tool_calls@), platform),
{
    let ghost calls = call_views(tool_calls@);
    let mut i: usize = 0;
    assert(calls.skip(0) =~= calls);
    while i < tool_calls.len()
        invariant
            i <= tool_calls@.len(),
            calls == call_views(tool_calls@),
            first_supported_call(calls, platform) == first_supported_call(
                calls.skip(i as int),
                platform,
            ),
        decreases tool_calls@.len() - i,
    {
        assert(calls.skip(i as int)[0] == tool_calls@[i as int]@);
        assert(calls.skip(i as int).drop_first() =~= calls.skip(i + 1));
        let function = &tool_calls[i].function;
        if is_supported_tool(function.name.as_str(), platform) {
            return Some(
                ToolInvocation {
                    name: function.name.clone(),
                    arguments: normalize_arguments(&function.arguments),
                },
            );
        }
        i += 1;
    }

    let text = trim(content);
    if text.as_str().is_empty() {
        return None;
    }
    let candidates = json_candidates(text.as_str());
    let ghost parts = candidates_of(text@);
    let mut values: Vec<Option<Json>> = Vec::new();
    let mut k: usize = 0;
    while k < candidates.len()
        invariant
            k <= candidates@.len(),
            views(candidates@) == parts,
            json_views(values@) == parsed_texts(parts).take(k as int),
        decreases candidates@.len() - k,
    {
        let value = Json::parse(candidates[k].as_str());
        let ghost before = json_views(values@);
        assert(parts[k as int] == candidates@[k as int]@);
        assert(parsed_texts(parts)[k as int] == json_view(value));
        values.push(value);
        assert(json_views(values@) =~= before.push(json_view(value)));
        assert(parsed_texts(parts).take(k + 1) =~= before.push(parsed_texts(parts)[k as int]));
        k += 1;
    }
    assert(views(candidates@).len() == candidates@.len());
    assert(parsed_texts(parts).take(k as int) =~= parsed_texts(parts));
    first_tool_request(&values, platform)
}

/// Every invocation that an answer asks for is one of a tool that can be had.
pub proof fn only_supported_tools_are_requested(
    content: Seq<char>,
    calls: Seq<CallView>,
    platform: Platform,
)
    ensures
        tool_request(content, calls, platform) matches Some(request) ==> supported_tool(
            request.name,
            platform,
        ),
{
    supported_call_is_supported(calls, platform);
    first_request_is_supported(parsed_texts(candidates_of(trimmed(content))), platform);
}

proof fn supported_call_is_supported(calls: Seq<CallView>, platform: Platform)
    ensures
        first_supported_call(calls, platform) matches Some(call) ==> supported_tool(
            call.name,
            platform,
        ),
    decreases calls.len(),
{
    if calls.len() > 0 && !supported_tool(calls[0].name, platform) {
        supported_call_is_supported(calls.drop_first(), platform);
    }
}

proof fn first_request_is_supported(values: Seq<Option<JsonView>>, platform: Platform)
    ensures
        first_request(values, platform) matches Some(request) ==> supported_tool(
            request.name,
            platform,
        ),
    decreases values.len(),
{
    if values.len() > 0 {
        first_request_is_supported(values.drop_first(), platform);
    }
}

/// Without a native call of a tool that can be had, an answer that is JSON as a whole and requests
/// a tool is that request, whatever white space stands around it.
pub proof fn answer_in_json_is_the_request(
    content: Seq<char>,
    calls: Seq<CallView>,
    value: JsonView,
    platform: Platform,
)
    requires
        first_supported_call(calls, platform) is None,
        trimmed(content).len() > 0,
        parsed_json(trimmed(content)) == Some(value),
        requested_tool(value, platform) is Some,
    ensures
        tool_request(content, calls, platform) == requested_tool(value, platform),
{
    let values = parsed_texts(candidates_of(trimmed(content)));
    assert(candidates_of(trimmed(content))[0] == trimmed(content));
    assert(values[0] == Some(value));
}

/// A request takes each argument of its tool as the JSON object gives it beside the tool's name.
pub proof fn request_takes_arguments(
    value: JsonView,
    tool_name: Seq<char>,
    argument: Seq<char>,
)
    requires
        argument_names(tool_name).contains(argument),
    ensures
        request_arguments(value, tool_name).field(argument) == Some(
            request_argument(value, argument),
        ),
        value.field(argument) is Some ==> request_arguments(value, tool_name).field(argument)
            == value.field(argument),
{
    named_entry(argument_names(tool_name), value, argument);
}

proof fn named_entry(names: Seq<Seq<char>>, value: JsonView, argument: Seq<char>)
    requires
        names.contains(argument),
    ensures
        object_of(
            names.map_values(|name: Seq<char>| (name, request_argument(value, name))),
        ).field(argument) == Some(request_argument(value, argument)),
    decreases names.len(),
{
    let entries = names.map_values(|name: Seq<char>| (name, request_argument(value, name)));
    let before = names.drop_last();
    let entries_before = before.map_values(
        |name: Seq<char>| (name, request_argument(value, name)),
    );
    assert(entries.drop_last() =~= entries_before);
    if names.last() != argument {
        let at = choose|i: int| 0 <= i < names.len() && names[i] == argument;
        assert(before[at] == argument);
        named_entry(before, value, argument);
    }
}

/// A native call of a tool that can be had is what counts, whatever the text of the answer says.
pub proof fn native_call_counts_first(
    content: Seq<char>,
    other_content: Seq<char>,
    calls: Seq<CallView>,
    platform: Platform,
)
    requires
        first_supported_call(calls, platform) is Some,
    ensures
        tool_request(content, calls, platform) is Some,
        tool_request(content, calls, platform) == tool_request(other_content, calls, platform),
{
}

/// Arguments that are a text in JSON count as what the text holds; all others count as they are.
pub proof fn arguments_in_text_are_read(arguments: JsonView)
    ensures
        match arguments {
            JsonView::Text(text) => match parsed_json(text) {
                Some(value) => normal_arguments(arguments) == value,
                None => normal_arguments(arguments) == arguments,
            },
            _ => normal_arguments(arguments) == arguments,
        },
{
}

/// Of the native calls, the first one of a tool that can be had is the request, with its own
/// arguments.
pub proof fn first_native_call_is_the_request(
    content: Seq<char>,
    calls: Seq<CallView>,
    platform: Platform,
    i: int,
)
    requires
        0 <= i < calls.len(),
        supported_tool(calls[i].name, platform),
        forall|j: int| 0 <= j < i ==> !supported_tool((#[trigger] calls[j]).name, platform),
    ensures
        tool_request(content, calls, platform) matches Some(request) && {
            &&& request.name == calls[i].name
            &&& request.arguments == normal_arguments(calls[i].arguments)
        },
{
    first_call_counts(calls, platform, i);
}

proof fn first_call_counts(calls: Seq<CallView>, platform: Platform, i: int)
    requires
        0 <= i < calls.len(),
        supported_tool(calls[i].name, platform),
        forall|j: int| 0 <= j < i ==> !supported_tool((#[trigger] calls[j]).name, platform),
    ensures
        first_supported_call(calls, platform) == Some(calls[i]),
    decreases calls.len(),
{
    if i > 0 {
        let rest = calls.drop_first();
        assert(!supported_tool(calls[0].name, platform));
        assert(rest[i - 1] == calls[i]);
        assert forall|j: int| 0 <= j < i - 1 implies !supported_tool(
            (#[trigger] rest[j]).name,
            platform,
        ) by {
            assert(rest[j] == calls[j + 1]);
        }
        first_call_counts(rest, platform, i - 1);
    }
}

proof fn no_call_counts(calls: Seq<CallView>, platform: Platform)
    requires
        forall|j: int|
            0 <= j < calls.len() ==> !supported_tool((#[trigger] calls[j]).name, platform),
    ensures
        first_supported_call(calls, platform) is None,
    decreases calls.len(),
{
    if calls.len() > 0 {
        let rest = calls.drop_first();
        assert(!supported_tool(calls[0].name, platform));
        assert forall|j: int| 0 <= j < rest.len() implies !supported_tool(
            (#[trigger] rest[j]).name,
            platform,
        ) by {
            assert(rest[j] == calls[j + 1]);
        }
        no_call_counts(rest, platform);
    }
}

/// An answer in plain language requests nothing: one that is blank, or that holds no brace, starts with
/// no fence and is no JSON, where no native call is one of a tool that can be had.
pub proof fn plain_answers_request_nothing(
    content: Seq<char>,
    calls: Seq<CallView>,
    platform: Platform,
)
    requires
        forall|j: int|
            0 <= j < calls.len() ==> !supported_tool((#[trigger] calls[j]).name, platform),
        blank(content) || (!trimmed(content).contains('{') && !"```"@.is_prefix_of(
            trimmed(content),
        ) && parsed_json(trimmed(content)) is None),
    ensures
        tool_request(content, calls, platform) is None,
{
    no_call_counts(calls, platform);
    trimmed_is_empty(content);
    let text = trimmed(content);
    if !blank(content) {
        text.index_of_first_ensures('{');
        let values = parsed_texts(candidates_of(text));
        assert(candidates_of(text) =~= seq![text]);
        assert(values =~= seq![None::<JsonView>]);
        assert(values.drop_first() =~= Seq::empty());
        assert(first_request(values.drop_first(), platform) is None);
    }
}

/// The first of the values that is a request is the request.
pub proof fn first_request_counts(values: Seq<Option<JsonView>>, platform: Platform, i: int)
    requires
        0 <= i < values.len(),
        values[i] is Some,
        requested_tool(values[i]->0, platform) is Some,
        forall|j: int|
            0 <= j < i ==> ((#[trigger] values[j]) is None || requested_tool(
                values[j]->0,
                platform,
            ) is None),
    ensures
        first_request(values, platform) == requested_tool(values[i]->0, platform),
    decreases values.len(),
{
    if i > 0 {
        let rest = values.drop_first();
        assert(values[0] is None || requested_tool(values[0]->0, platform) is None);
        assert(rest[i - 1] == values[i]);
        assert forall|j: int| 0 <= j < i - 1 implies ((#[trigger] rest[j]) is None
            || requested_tool(rest[j]->0, platform) is None) by {
            assert(rest[j] == values[j + 1]);
        }
        first_request_counts(rest, platform, i - 1);
    }
}

/// An object in braces is found among other words: an answer that is not a request as a whole requests
/// what its part from the first opening to the last closing brace does.
pub proof fn request_among_words_is_found(
    content: Seq<char>,
    calls: Seq<CallView>,
    before: Seq<char>,
    inside: Seq<char>,
    behind: Seq<char>,
    value: JsonView,
    platform: Platform,
)
    requires
        forall|j: int|
            0 <= j < calls.len() ==> !supported_tool((#[trigger] calls[j]).name, platform),
        trimmed(content) == before + seq!['{'] + inside + seq!['}'] + behind,
        !before.contains('{'),
        !behind.contains('}'),
        parsed_json(trimmed(content)) matches Some(whole) ==> requested_tool(whole, platform)
            is None,
        parsed_json(seq!['{'] + inside + seq!['}']) == Some(value),
        requested_tool(value, platform) is Some,
    ensures
        tool_request(content, calls, platform) == requested_tool(value, platform),
{
    no_call_counts(calls, platform);
    let text = trimmed(content);
    let part = seq!['{'] + inside + seq!['}'];
    let start = before.len() as int;
    let end = start + 1 + inside.len();
    text.index_of_first_ensures('{');
    text.index_of_last_ensures('}');
    assert(text[start] == '{');
    assert(text[end] == '}');
    assert(text.contains('{') && text.contains('}'));
    assert forall|j: int| 0 <= j < start implies text[j] != '{' by {
        assert(text[j] == before[j]);
        assert(before.contains(before[j]));
    }
    assert forall|j: int| end < j < text.len() implies text[j] != '}' by {
        assert(text[j] == behind[j - end - 1]);
        assert(behind.contains(behind[j - end - 1]));
    }
    assert(text.index_of_first('{') == Some(start));
    assert(text.index_of_last('}') == Some(end));
    assert(text.subrange(start, end + 1) =~= part);
    let parts = candidates_of(text);
    let values = parsed_texts(parts);
    assert(parts[0] == text && parts[1] == part);
    first_request_counts(values, platform, 1);
}

/// What stands in a fenced block is tried, with or without the name of the language.
pub proof fn fenced_block_is_tried(inside: Seq<char>)
    requires
        !"```json"@.is_prefix_of(inside + "```"@),
        !"```json"@.is_prefix_of("```"@ + inside + "```"@),
        !"```"@.is_prefix_of(inside + "```"@),
        !"```"@.is_suffix_of(inside),
    ensures
        candidates_of("```json"@ + inside + "```"@).contains(trimmed(inside)),
        candidates_of("```"@ + inside + "```"@).contains(trimmed(inside)),
{
    reveal_strlit("```");
    reveal_strlit("```json");
    let rest = inside + "```"@;
    let named = "```json"@ + inside + "```"@;
    let plain = "```"@ + inside + "```"@;
    assert(named =~= "```json"@ + rest);
    assert(plain =~= "```"@ + rest);
    prefixes_are_taken_off(rest, "```json"@);
    prefixes_are_taken_off(plain, "```json"@);
    prefixes_are_taken_off(rest, "```"@);
    suffixes_are_taken_off(inside, "```"@);
    assert("```"@ =~= named.subrange(0, 3));
    assert("```"@ =~= plain.subrange(0, 3));
    assert(fenced(named) == Some(trimmed(inside)));
    assert(fenced(plain) == Some(trimmed(inside)));
    let named_parts = candidates_of(named);
    let plain_parts = candidates_of(plain);
    assert(named_parts[named_parts.len() - 1] == trimmed(inside));
    assert(plain_parts[plain_parts.len() - 1] == trimmed(inside));
}

/// A request names its tool under `tool`, or under `name` where it has no `tool`; it is one only for a
/// tool that can be had.
pub proof fn requests_name_their_tool(request: JsonView, platform: Platform)
    ensures
        match (request.field("tool"@), request.field("name"@)) {
            (Some(JsonView::Text(name)), _) => requested_tool(request, platform) is Some
                == supported_tool(name, platform) && (requested_tool(
                request,
                platform,
            ) matches Some(call) ==> call.name == name),
            (None, Some(JsonView::Text(name))) => requested_tool(request, platform) is Some
                == supported_tool(name, platform) && (requested_tool(
                request,
                platform,
            ) matches Some(call) ==> call.name == name),
            _ => requested_tool(request, platform) is None,
        },
{
}

/// An argument of a request stands beside the tool's name, or else under `arguments`; one that stands
/// nowhere is null.
pub proof fn request_arguments_are_found(request: JsonView, name: Seq<char>)
    ensures
        request.field(name) matches Some(value) ==> request_argument(request, name) == value,
        request.field(name) is None ==> match request.field("arguments"@) {
            Some(arguments) => request_argument(request, name) == match arguments.field(name) {
                Some(value) => value,
                None => JsonView::Null,
            },
            None => request_argument(request, name) == JsonView::Null,
        },
{
}

/// Each tool takes its arguments: a search its query, a command itself, `ls` a path and
/// flags, `cat` a pattern too, and `sed` a path and an expression.
pub proof fn tools_take_their_arguments(request: JsonView, platform: Platform)
    ensures
        requested_tool(request, platform) matches Some(call) ==> {
            &&& call.name == "web_search"@ ==> call.arguments.field("query"@) == Some(
                request_argument(request, "query"@),
            )
            &&& call.name == "run_command"@ ==> call.arguments.field("command"@) == Some(
                request_argument(request, "command"@),
            )
            &&& call.name == "ls"@ || call.name == "cat"@ ==> {
                &&& call.arguments.field("path"@) == Some(request_argument(request, "path"@))
                &&& call.arguments.field("flags"@) == Some(request_argument(request, "flags"@))
            }
            &&& call.name == "cat"@ ==> call.arguments.field("pattern"@) == Some(
                request_argument(request, "pattern"@),
            )
            &&& call.name == "sed"@ ==> {
                &&& call.arguments.field("path"@) == Some(request_argument(request, "path"@))
                &&& call.arguments.field("expression"@) == Some(
                    request_argument(request, "expression"@),
                )
            }
        },
{
    reveal_strlit("web_search");
    reveal_strlit("run_command");
    reveal_strlit("ls");
    reveal_strlit("cat");
    reveal_strlit("sed");
    assert("web_search"@.len() == 10 && "run_command"@.len() == 11 && "ls"@.len() == 2);
    assert("cat"@[0] == 'c' && "sed"@[0] == 's' && "cat"@.len() == 3 && "sed"@.len() == 3);
    if let Some(call) = requested_tool(request, platform) {
        let name = call.name;
        let names = argument_names(name);
        if name == "web_search"@ {
            assert(names[0] == "query"@);
            request_takes_arguments(request, name, "query"@);
        } else if name == "run_command"@ {
            assert(names[0] == "command"@);
            request_takes_arguments(request, name, "command"@);
        } else if name == "cat"@ {
            assert(names[0] == "path"@ && names[1] == "pattern"@ && names[2] == "flags"@);
            request_takes_arguments(request, name, "path"@);
            request_takes_arguments(request, name, "pattern"@);
            request_takes_arguments(request, name, "flags"@);
        } else if name == "ls"@ {
            assert(names[0] == "path"@ && names[1] == "flags"@);
            request_takes_arguments(request, name, "path"@);
            request_takes_arguments(request, name, "flags"@);
        } else if name == "sed"@ {
            assert(names[0] == "path"@ && names[1] == "expression"@);
            request_takes_arguments(request, name, "path"@);
            request_takes_arguments(request, name, "expression"@);
        }
    }
}

} // verus!
