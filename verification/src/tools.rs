//! The tools that the model may call, and how it is told of them.
use vstd::prelude::*;

use crate::json::{
    entries_are_found, entry, entry_views, item_views, object_of, Json, JsonView,
};
use crate::permissions::access_of;
use crate::platform::{context_lines, environment_context, Environment, Platform};
use crate::text::{
    contains_part, decimal, decimal_text, join, joined, joined_texts_are_contained, occurs_at,
    part_is_contained, same_text, views,
};

verus! {

/// The systems on which a tool can be had.
#[derive(Debug, Clone, Copy, PartialEq, Eq, Structural)]
pub enum ToolPlatform {
    All,
    Unix,
}

/// A tool: its name, where it can be had, what the model is told of it, and an example of a call.
#[derive(Debug, Clone, Copy)]
pub struct ToolSpec {
    pub name: &'static str,
    pub platform: ToolPlatform,
    pub prompt_line: &'static str,
    pub json_example: &'static str,
}

pub const WEB_SEARCH_PROMPT: &'static str =
    "- web_search: searches the web for up-to-date information.";

pub const WEB_SEARCH_EXAMPLE: &'static str =
    r#"{"tool":"web_search","query":"your search query"}"#;

pub const LS_PROMPT: &'static str =
    "- ls: lists files in a directory, like `ls /path/to/dir`. You choose the \
directory path and optional flags (a, l, R).";

pub const LS_EXAMPLE: &'static str = r#"{"tool":"ls","path":"/path/to/dir","flags":"la"}"#;

pub const CAT_PROMPT: &'static str =
    "- cat: prints a file's contents, like `cat /path/to/file`. Optional flags: n (line numbers). \
When looking for something specific in a file, pass a grep-style pattern and use flags \"n\" \
so you know which lines matched.";

pub const CAT_EXAMPLE: &'static str =
    r#"{"tool":"cat","path":"/path/to/file","pattern":"fn main","flags":"n"}"#;

pub const SED_PROMPT: &'static str =
    "- sed: search-and-replace in a file, like `sed -i 's/pattern/replacement/' file.txt`. \
You choose the file path and the full sed substitution expression. In the replacement, escape \
special characters: \\ for backslash, \\& for &, \\/ for / (or use another delimiter), and \\1 etc. \
for backreferences.";

pub const SED_EXAMPLE: &'static str =
    r#"{"tool":"sed","path":"/path/to/file.txt","expression":"s/old/new/"}"#;

pub const RUN_COMMAND_PROMPT: &'static str =
    "- run_command: runs a shell command on the user's machine. The user must approve \
before it runs.";

pub const RUN_COMMAND_EXAMPLE: &'static str =
    r#"{"tool":"run_command","command":"the shell command"}"#;

/// All tools.
pub open spec fn all_specs() -> Seq<ToolSpec> {
    seq![
        ToolSpec {
            name: "web_search",
            platform: ToolPlatform::All,
            prompt_line: WEB_SEARCH_PROMPT,
            json_example: WEB_SEARCH_EXAMPLE,
        },
        ToolSpec {
            name: "ls",
            platform: ToolPlatform::Unix,
            prompt_line: LS_PROMPT,
            json_example: LS_EXAMPLE,
        },
        ToolSpec {
            name: "cat",
            platform: ToolPlatform::Unix,
            prompt_line: CAT_PROMPT,
            json_example: CAT_EXAMPLE,
        },
        ToolSpec {
            name: "sed",
            platform: ToolPlatform::Unix,
            prompt_line: SED_PROMPT,
            json_example: SED_EXAMPLE,
        },
        ToolSpec {
            name: "run_command",
            platform: ToolPlatform::All,
            prompt_line: RUN_COMMAND_PROMPT,
            json_example: RUN_COMMAND_EXAMPLE,
        },
    ]
}

impl ToolPlatform {
    /// Whether a tool for these systems can be had on `platform`.
    pub open spec fn supports(self, platform: Platform) -> bool {
        match self {
            ToolPlatform::All => true,
            ToolPlatform::Unix => platform.unix,
        }
    }

    /// Whether a tool for these systems can be had on `platform`.
    pub fn is_supported(self, platform: Platform) -> (supported: bool)
        ensures
            supported == self.supports(platform),
    {
        match self {
            ToolPlatform::All => true,
            ToolPlatform::Unix => platform.unix,
        }
    }
}

/// All tools.
pub fn tool_specs() -> (specs: Vec<ToolSpec>)
    ensures
        specs@ == all_specs(),
{
    let specs = vec![
        ToolSpec {
            name: "web_search",
            platform: ToolPlatform::All,
            prompt_line: WEB_SEARCH_PROMPT,
            json_example: WEB_SEARCH_EXAMPLE,
        },
        ToolSpec {
            name: "ls",
            platform: ToolPlatform::Unix,
            prompt_line: LS_PROMPT,
            json_example: LS_EXAMPLE,
        },
        ToolSpec {
            name: "cat",
            platform: ToolPlatform::Unix,
            prompt_line: CAT_PROMPT,
            json_example: CAT_EXAMPLE,
        },
        ToolSpec {
            name: "sed",
            platform: ToolPlatform::Unix,
            prompt_line: SED_PROMPT,
            json_example: SED_EXAMPLE,
        },
        ToolSpec {
            name: "run_command",
            platform: ToolPlatform::All,
            prompt_line: RUN_COMMAND_PROMPT,
            json_example: RUN_COMMAND_EXAMPLE,
        },
    ];
    assert(specs@ =~= all_specs());
    specs
}

/// The tools that can be had on `platform`.
pub open spec fn available_specs(platform: Platform) -> Seq<ToolSpec> {
    all_specs().filter(|spec: ToolSpec| spec.platform.supports(platform))
}

/// The tools that can be had on `platform`.
pub fn available_tool_specs(platform: Platform) -> (specs: Vec<ToolSpec>)
    ensures
        specs@ == available_specs(platform),
{
    let all = tool_specs();
    let mut specs: Vec<ToolSpec> = Vec::new();
    let ghost supports = |spec: ToolSpec| spec.platform.supports(platform);
    let mut i: usize = 0;
    assert(all@.take(0) =~= Seq::empty());
    assert(specs@ == Seq::<ToolSpec>::empty().filter(supports)) by {
        reveal(Seq::filter);
    }
    while i < all.len()
        invariant
            i <= all@.len(),
            supports == (|spec: ToolSpec| spec.platform.supports(platform)),
            specs@ == all@.take(i as int).filter(supports),
        decreases all@.len() - i,
    {
        proof {
            assert(all@.take(i + 1).drop_last() =~= all@.take(i as int));
            reveal(Seq::filter);
        }
        if all[i].platform.is_supported(platform) {
            specs.push(all[i]);
        }
        i += 1;
    }
    assert(all@.take(i as int) =~= all@);
    specs
}

/// Whether the tool of a name can be had on `platform`.
pub open spec fn supported_tool(name: Seq<char>, platform: Platform) -> bool {
    exists|i: int|
        0 <= i < all_specs().len() && (#[trigger] all_specs()[i]).name@ == name
            && all_specs()[i].platform.supports(platform)
}

/// Whether the tool of a name can be had on `platform`.
pub fn is_supported_tool(name: &str, platform: Platform) -> (supported: bool)
    ensures
        supported == supported_tool(name@, platform),
{
    let all = tool_specs();
    let mut i: usize = 0;
    while i < all.len()
        invariant
            i <= all@.len(),
            all@ == all_specs(),
            forall|j: int|
                0 <= j < i ==> !((#[trigger] all_specs()[j]).name@ == name@
                    && all_specs()[j].platform.supports(platform)),
        decreases all@.len() - i,
    {
        if same_text(all[i].name, name) && all[i].platform.is_supported(platform) {
            assert(all_specs()[i as int].name@ == name@);
            return true;
        }
        i += 1;
    }
    false
}

/// What the model is told of its tools, line by line.
pub open spec fn prompt_lines(specs: Seq<ToolSpec>) -> Seq<Seq<char>> {
    let word = if specs.len() == 1 {
        "tool"@
    } else {
        "tools"@
    };
    let nothing: Seq<char> = Seq::empty();
    seq![
        "You are a helpful assistant in a chat app."@,
        nothing,
        "You have "@ + decimal(specs.len()) + " "@ + word + ":"@,
    ] + specs.map_values(|spec: ToolSpec| spec.prompt_line@) + seq![
        nothing,
        "If you need a tool, respond with ONLY a JSON object and nothing else:"@,
    ] + specs.map_values(|spec: ToolSpec| spec.json_example@) + seq![
        nothing,
        "After you receive a tool result, answer the user in plain language."@,
    ]
}

/// What the model is told of its tools.
pub fn tool_system_prompt_body(platform: Platform) -> (prompt: String)
    ensures
        prompt@ == joined(prompt_lines(available_specs(platform)), "\n"@),
{
    let specs = available_tool_specs(platform);
    let word = if specs.len() == 1 {
        "tool"
    } else {
        "tools"
    };
    let mut heading = "You have ".to_owned();
    heading.append(decimal_text(specs.len() as u64).as_str());
    heading.append(" ");
    heading.append(word);
    heading.append(":");

    let mut lines: Vec<String> = Vec::new();
    lines.push("You are a helpful assistant in a chat app.".to_owned());
    lines.push(String::new());
    lines.push(heading);
    let ghost prompts = specs@.map_values(|spec: ToolSpec| spec.prompt_line@);
    let ghost examples = specs@.map_values(|spec: ToolSpec| spec.json_example@);
    let ghost start = views(lines@);
    assert(start =~= seq![
        "You are a helpful assistant in a chat app."@,
        Seq::<char>::empty(),
        heading@,
    ]);
    let mut i: usize = 0;
    assert(views(lines@) =~= start + prompts.take(0));
    while i < specs.len()
        invariant
            i <= specs@.len(),
            prompts == specs@.map_values(|spec: ToolSpec| spec.prompt_line@),
            views(lines@) == start + prompts.take(i as int),
        decreases specs@.len() - i,
    {
        let ghost before = views(lines@);
        lines.push(specs[i].prompt_line.to_owned());
        assert(views(lines@) =~= before.push(prompts[i as int]));
        assert(views(lines@) =~= start + prompts.take(i + 1));
        i += 1;
    }
    assert(prompts.take(i as int) =~= prompts);
    lines.push(String::new());
    lines.push(
        "If you need a tool, respond with ONLY a JSON object and nothing else:".to_owned(),
    );
    let ghost middle = views(lines@);
    let mut k: usize = 0;
    assert(views(lines@) =~= middle + examples.take(0));
    while k < specs.len()
        invariant
            k <= specs@.len(),
            examples == specs@.map_values(|spec: ToolSpec| spec.json_example@),
            views(lines@) == middle + examples.take(k as int),
        decreases specs@.len() - k,
    {
        let ghost before = views(lines@);
        lines.push(specs[k].json_example.to_owned());
        assert(views(lines@) =~= before.push(examples[k as int]));
        assert(views(lines@) =~= middle + examples.take(k + 1));
        k += 1;
    }
    assert(examples.take(k as int) =~= examples);
    assert(middle =~= start + prompts + seq![
        Seq::<char>::empty(),
        "If you need a tool, respond with ONLY a JSON object and nothing else:"@,
    ]);
    lines.push(String::new());
    lines.push("After you receive a tool result, answer the user in plain language.".to_owned());
    assert(views(lines@) =~= prompt_lines(specs@));
    join(&lines, "\n")
}

/// The system prompt: the time, the surroundings, and the tools.
pub open spec fn system_prompt_text(now: Seq<char>, environment: Environment) -> Seq<char> {
    "Current time: "@ + now + "\n"@ + joined(context_lines(environment), "\n"@) + "\n\n"@ + joined(
        prompt_lines(available_specs(environment.platform)),
        "\n"@,
    )
}

/// The system prompt, for the current time in words.
pub fn system_prompt(now: &str, environment: &Environment) -> (prompt: String)
    ensures
        prompt@ == system_prompt_text(now@, *environment),
{
    let mut prompt = "Current time: ".to_owned();
    prompt.append(now);
    prompt.append("\n");
    prompt.append(environment_context(environment).as_str());
    prompt.append("\n\n");
    prompt.append(tool_system_prompt_body(environment.platform).as_str());
    prompt
}

/// The schema of a parameter that is a text.
pub open spec fn text_parameter(description: Seq<char>) -> JsonView {
    object_of(
        seq![
            ("type"@, JsonView::Text("string"@)),
            ("description"@, JsonView::Text(description)),
        ],
    )
}

/// The schema of a function whose parameters, given by name and description, are texts.
pub open spec fn function_schema(
    name: Seq<char>,
    description: Seq<char>,
    parameters: Seq<(Seq<char>, Seq<char>)>,
    required: Seq<Seq<char>>,
) -> JsonView {
    let properties = object_of(
        parameters.map_values(|p: (Seq<char>, Seq<char>)| (p.0, text_parameter(p.1))),
    );
    object_of(
        seq![
            ("type"@, JsonView::Text("function"@)),
            (
                "function"@,
                object_of(
                    seq![
                        ("name"@, JsonView::Text(name)),
                        ("description"@, JsonView::Text(description)),
                        (
                            "parameters"@,
                            object_of(
                                seq![
                                    ("type"@, JsonView::Text("object"@)),
                                    ("properties"@, properties),
                                    (
                                        "required"@,
                                        JsonView::Array(
                                            required.map_values(
                                                |p: Seq<char>| JsonView::Text(p),
                                            ),
                                        ),
                                    ),
                                ],
                            ),
                        ),
                    ],
                ),
            ),
        ],
    )
}

pub const WEB_SEARCH_DESCRIPTION: &'static str =
    "Search the web for current information using Tavily";

pub const LS_DESCRIPTION: &'static str =
    "List files in a directory using ls. Optional flags: a (all), l (long), R (recursive).";

pub const LS_FLAGS_DESCRIPTION: &'static str =
    "Optional ls flags as a string using a, l, and/or R (e.g. \"la\" or \"-laR\")";

pub const CAT_DESCRIPTION: &'static str =
    "Print a file's contents using cat, like cat /path/to/file. Optional flag n adds line numbers (cat -n). When looking for something specific in a file, pass a grep-style pattern and use flags \"n\" so you know which lines matched.";

pub const CAT_PATTERN_DESCRIPTION: &'static str =
    "Optional grep-style regex; when set, only matching lines are returned";

pub const CAT_FLAGS_DESCRIPTION: &'static str =
    "Optional cat flags as a string (e.g. \"n\" or \"-n\" for line numbers). Use with pattern when searching for something specific.";

pub const SED_DESCRIPTION: &'static str =
    "Search-and-replace in a file using sed. In the replacement portion of the expression, escape special characters: backslash, &, the delimiter, and backreferences (e.g. \\\\&, \\/, \\\\1).";

pub const SED_EXPRESSION_DESCRIPTION: &'static str =
    "Full sed substitution expression (e.g. s/old/new/ or s/old/new/g). Escape \\, &, /, and backreferences in the replacement.";

pub const RUN_COMMAND_DESCRIPTION: &'static str =
    "Run a shell command on the user's machine. Requires user approval before execution.";

/// The schema of the tool of a name; an empty object for any other name.
pub open spec fn tool_schema(name: Seq<char>) -> JsonView {
    if name == "web_search"@ {
        function_schema(
            "web_search"@,
            WEB_SEARCH_DESCRIPTION@,
            seq![("query"@, "The search query"@)],
            seq!["query"@],
        )
    } else if name == "ls"@ {
        function_schema(
            "ls"@,
            LS_DESCRIPTION@,
            seq![("path"@, "Directory path to list"@), ("flags"@, LS_FLAGS_DESCRIPTION@)],
            seq!["path"@],
        )
    } else if name == "cat"@ {
        function_schema(
            "cat"@,
            CAT_DESCRIPTION@,
            seq![
                ("path"@, "File path to print"@),
                ("pattern"@, CAT_PATTERN_DESCRIPTION@),
                ("flags"@, CAT_FLAGS_DESCRIPTION@),
            ],
            seq!["path"@],
        )
    } else if name == "sed"@ {
        function_schema(
            "sed"@,
            SED_DESCRIPTION@,
            seq![
                ("path"@, "File path to modify"@),
                ("expression"@, SED_EXPRESSION_DESCRIPTION@),
            ],
            seq!["path"@, "expression"@],
        )
    } else if name == "run_command"@ {
        function_schema(
            "run_command"@,
            RUN_COMMAND_DESCRIPTION@,
            seq![("command"@, "The shell command to run"@)],
            seq!["command"@],
        )
    } else {
        object_of(Seq::empty())
    }
}

/// Pairs of texts.
pub open spec fn pair_views(pairs: Seq<(&str, &str)>) -> Seq<(Seq<char>, Seq<char>)> {
    pairs.map_values(|pair: (&str, &str)| (pair.0@, pair.1@))
}

/// Texts.
pub open spec fn str_views(texts: Seq<&str>) -> Seq<Seq<char>> {
    texts.map_values(|text: &str| text@)
}

/// The schema of a function whose parameters, given by name and description, are texts.
fn function_definition(
    name: &str,
    description: &str,
    parameters: &Vec<(&str, &str)>,
    required: &Vec<&str>,
) -> (schema: Json)
    ensures
        schema@ == function_schema(
            name@,
            description@,
            pair_views(parameters@),
            str_views(required@),
        ),
{
    let ghost shown = pair_views(parameters@).map_values(
        |p: (Seq<char>, Seq<char>)| (p.0, text_parameter(p.1)),
    );
    let mut properties: Vec<(String, Json)> = Vec::new();
    let mut i: usize = 0;
    while i < parameters.len()
        invariant
            i <= parameters@.len(),
            shown == pair_views(parameters@).map_values(
                |p: (Seq<char>, Seq<char>)| (p.0, text_parameter(p.1)),
            ),
            entry_views(properties@) == shown.take(i as int),
        decreases parameters@.len() - i,
    {
        let (parameter, meaning) = parameters[i];
        let fields = vec![
            entry("type", Json::from_text("string")),
            entry("description", Json::from_text(meaning)),
        ];
        assert(entry_views(fields@) =~= seq![
            ("type"@, JsonView::Text("string"@)),
            ("description"@, JsonView::Text(meaning@)),
        ]);
        let ghost before = entry_views(properties@);
        properties.push(entry(parameter, Json::from_entries(fields)));
        assert(shown[i as int] == (parameter@, text_parameter(meaning@)));
        assert(entry_views(properties@) =~= before.push(shown[i as int]));
        assert(shown.take(i + 1) =~= before.push(shown[i as int]));
        i += 1;
    }
    assert(shown.take(i as int) =~= shown);

    let ghost names = str_views(required@).map_values(|p: Seq<char>| JsonView::Text(p));
    let mut needed: Vec<Json> = Vec::new();
    let mut k: usize = 0;
    while k < required.len()
        invariant
            k <= required@.len(),
            names == str_views(required@).map_values(|p: Seq<char>| JsonView::Text(p)),
            item_views(needed@) == names.take(k as int),
        decreases required@.len() - k,
    {
        let ghost before = item_views(needed@);
        needed.push(Json::from_text(required[k]));
        assert(item_views(needed@) =~= before.push(names[k as int]));
        assert(names.take(k + 1) =~= before.push(names[k as int]));
        k += 1;
    }
    assert(names.take(k as int) =~= names);

    let schema = vec![
        entry("type", Json::from_text("object")),
        entry("properties", Json::from_entries(properties)),
        entry("required", Json::from_items(needed)),
    ];
    assert(entry_views(schema@) =~= seq![
        ("type"@, JsonView::Text("object"@)),
        ("properties"@, object_of(shown)),
        ("required"@, JsonView::Array(names)),
    ]);
    let ghost schema_view = object_of(entry_views(schema@));
    let function = vec![
        entry("name", Json::from_text(name)),
        entry("description", Json::from_text(description)),
        entry("parameters", Json::from_entries(schema)),
    ];
    assert(entry_views(function@) =~= seq![
        ("name"@, JsonView::Text(name@)),
        ("description"@, JsonView::Text(description@)),
        ("parameters"@, schema_view),
    ]);
    let ghost function_view = object_of(entry_views(function@));
    let definition = vec![
        entry("type", Json::from_text("function")),
        entry("function", Json::from_entries(function)),
    ];
    assert(entry_views(definition@) =~= seq![
        ("type"@, JsonView::Text("function"@)),
        ("function"@, function_view),
    ]);
    Json::from_entries(definition)
}

/// The schema of a tool.
pub fn tool_definition(spec: &ToolSpec) -> (schema: Json)
    ensures
        schema@ == tool_schema(spec.name@),
{
    if same_text(spec.name, "web_search") {
        let parameters = vec![("query", "The search query")];
        let required = vec!["query"];
        assert(pair_views(parameters@) =~= seq![("query"@, "The search query"@)]);
        assert(str_views(required@) =~= seq!["query"@]);
        function_definition("web_search", WEB_SEARCH_DESCRIPTION, &parameters, &required)
    } else if same_text(spec.name, "ls") {
        let parameters = vec![("path", "Directory path to list"), ("flags", LS_FLAGS_DESCRIPTION)];
        let required = vec!["path"];
        assert(pair_views(parameters@) =~= seq![
            ("path"@, "Directory path to list"@),
            ("flags"@, LS_FLAGS_DESCRIPTION@),
        ]);
        assert(str_views(required@) =~= seq!["path"@]);
        function_definition("ls", LS_DESCRIPTION, &parameters, &required)
    } else if same_text(spec.name, "cat") {
        let parameters = vec![
            ("path", "File path to print"),
            ("pattern", CAT_PATTERN_DESCRIPTION),
            ("flags", CAT_FLAGS_DESCRIPTION),
        ];
        let required = vec!["path"];
        assert(pair_views(parameters@) =~= seq![
            ("path"@, "File path to print"@),
            ("pattern"@, CAT_PATTERN_DESCRIPTION@),
            ("flags"@, CAT_FLAGS_DESCRIPTION@),
        ]);
        assert(str_views(required@) =~= seq!["path"@]);
        function_definition("cat", CAT_DESCRIPTION, &parameters, &required)
    } else if same_text(spec.name, "sed") {
        let parameters = vec![
            ("path", "File path to modify"),
            ("expression", SED_EXPRESSION_DESCRIPTION),
        ];
        let required = vec!["path", "expression"];
        assert(pair_views(parameters@) =~= seq![
            ("path"@, "File path to modify"@),
            ("expression"@, SED_EXPRESSION_DESCRIPTION@),
        ]);
        assert(str_views(required@) =~= seq!["path"@, "expression"@]);
        function_definition("sed", SED_DESCRIPTION, &parameters, &required)
    } else if same_text(spec.name, "run_command") {
        let parameters = vec![("command", "The shell command to run")];
        let required = vec!["command"];
        assert(pair_views(parameters@) =~= seq![("command"@, "The shell command to run"@)]);
        assert(str_views(required@) =~= seq!["command"@]);
        function_definition("run_command", RUN_COMMAND_DESCRIPTION, &parameters, &required)
    } else {
        let entries: Vec<(String, Json)> = Vec::new();
        assert(entry_views(entries@) =~= Seq::empty());
        Json::from_entries(entries)
    }
}

/// The schemas of the tools that can be had on `platform`.
pub open spec fn available_schemas(platform: Platform) -> Seq<JsonView> {
    available_specs(platform).map_values(|spec: ToolSpec| tool_schema(spec.name@))
}

/// The schemas of the tools that can be had on `platform`.
pub fn tool_definitions(platform: Platform) -> (schemas: Vec<Json>)
    ensures
        item_views(schemas@) == available_schemas(platform),
{
    let specs = available_tool_specs(platform);
    let ghost all = available_schemas(platform);
    let mut schemas: Vec<Json> = Vec::new();
    let mut i: usize = 0;
    while i < specs.len()
        invariant
            i <= specs@.len(),
            specs@ == available_specs(platform),
            all == available_schemas(platform),
            item_views(schemas@) == all.take(i as int),
        decreases specs@.len() - i,
    {
        let ghost before = item_views(schemas@);
        schemas.push(tool_definition(&specs[i]));
        assert(item_views(schemas@) =~= before.push(all[i as int]));
        assert(all.take(i + 1) =~= before.push(all[i as int]));
        i += 1;
    }
    assert(all.take(i as int) =~= all);
    schemas
}

/// The tools are told apart by their names.
proof fn tool_names_differ()
    ensures
        "web_search"@ != "ls"@,
        "web_search"@ != "cat"@,
        "web_search"@ != "sed"@,
        "run_command"@ != "ls"@,
        "run_command"@ != "cat"@,
        "run_command"@ != "sed"@,
        "web_search"@ != "run_command"@,
        "ls"@ != "cat"@,
        "ls"@ != "sed"@,
        "cat"@ != "sed"@,
{
    reveal_strlit("web_search");
    reveal_strlit("run_command");
    reveal_strlit("ls");
    reveal_strlit("cat");
    reveal_strlit("sed");
    assert("web_search"@[0] == 'w');
    assert("run_command"@[0] == 'r');
    assert("ls"@.len() == 2);
    assert("cat"@[0] == 'c');
    assert("sed"@[0] == 's');
}

/// What a filter leaves was there before.
proof fn filter_adds_nothing(
    specs: Seq<ToolSpec>,
    keep: spec_fn(ToolSpec) -> bool,
    spec: ToolSpec,
)
    requires
        specs.filter(keep).contains(spec),
    ensures
        specs.contains(spec),
    decreases specs.len(),
{
    reveal(Seq::filter);
    if specs.len() > 0 {
        let before = specs.drop_last();
        let at = choose|i: int| 0 <= i < specs.filter(keep).len() && specs.filter(keep)[i] == spec;
        if at < before.filter(keep).len() {
            assert(before.filter(keep)[at] == spec);
            filter_adds_nothing(before, keep, spec);
            let i = choose|i: int| 0 <= i < before.len() && before[i] == spec;
            assert(specs[i] == spec);
        } else {
            assert(specs[specs.len() - 1] == spec);
        }
    }
}

/// A tool can be had exactly when it is among the tools that the model is told of.
pub proof fn told_of_supported_tools(name: Seq<char>, platform: Platform)
    ensures
        supported_tool(name, platform) <==> exists|i: int|
            0 <= i < available_specs(platform).len() && (#[trigger] available_specs(
                platform,
            )[i]).name@ == name,
{
    let supports = |spec: ToolSpec| spec.platform.supports(platform);
    broadcast use vstd::seq_lib::group_filter_ensures;

    if supported_tool(name, platform) {
        let i = choose|i: int|
            0 <= i < all_specs().len() && (#[trigger] all_specs()[i]).name@ == name
                && all_specs()[i].platform.supports(platform);
        assert(supports(all_specs()[i]));
        assert(all_specs().contains(all_specs()[i]));
        assert(available_specs(platform).contains(all_specs()[i]));
    }
    if exists|i: int|
        0 <= i < available_specs(platform).len() && (#[trigger] available_specs(platform)[i]).name@
            == name {
        let k = choose|i: int|
            0 <= i < available_specs(platform).len() && (#[trigger] available_specs(
                platform,
            )[i]).name@ == name;
        let spec = available_specs(platform)[k];
        assert(available_specs(platform).contains(spec));
        assert(supports(spec));
        filter_adds_nothing(all_specs(), supports, spec);
        let i = choose|i: int| 0 <= i < all_specs().len() && all_specs()[i] == spec;
        assert(all_specs()[i].name@ == name);
    }
}

/// The file tools can be had on Unix systems and nowhere else; the other tools everywhere.
pub proof fn file_tools_need_unix(platform: Platform)
    ensures
        forall|name: Seq<char>|
            #![trigger supported_tool(name, platform)]
            access_of(name) is Some ==> supported_tool(name, platform) == platform.unix,
        supported_tool("web_search"@, platform),
        supported_tool("run_command"@, platform),
        forall|name: Seq<char>|
            #![trigger supported_tool(name, platform)]
            access_of(name) is None ==> supported_tool(name, platform) == (name == "web_search"@
                || name == "run_command"@),
{
    tool_names_differ();
    let all = all_specs();
    assert(all[0].name@ == "web_search"@ && all[1].name@ == "ls"@ && all[2].name@ == "cat"@
        && all[3].name@ == "sed"@ && all[4].name@ == "run_command"@);
}

/// On a Unix system there are five tools, elsewhere two.
pub proof fn number_of_tools(platform: Platform)
    ensures
        platform.unix ==> available_specs(platform).len() == 5,
        !platform.unix ==> available_specs(platform).len() == 2,
        available_schemas(platform).len() == available_specs(platform).len(),
{
    reveal_with_fuel(Seq::filter, 6);
    let all = all_specs();
    let one = all.drop_last();
    let two = one.drop_last();
    let three = two.drop_last();
    let four = three.drop_last();
    let supports = |spec: ToolSpec| spec.platform.supports(platform);
    assert(four.drop_last() =~= Seq::<ToolSpec>::empty());
    assert(Seq::<ToolSpec>::empty().filter(supports) =~= Seq::<ToolSpec>::empty());
    assert(four.last() == all[0] && three.last() == all[1] && two.last() == all[2] && one.last()
        == all[3] && all.last() == all[4]);
    assert(four.filter(supports).len() == 1);
}

/// The system prompt tells the time, the surroundings, how many tools there are, and of each what it
/// does and how it is called.
#[verifier::rlimit(40)]
pub proof fn prompt_tells_of_every_tool(now: Seq<char>, environment: Environment, i: int)
    requires
        0 <= i < available_specs(environment.platform).len(),
    ensures
        ({
            let prompt = system_prompt_text(now, environment);
            let specs = available_specs(environment.platform);
            &&& ("Current time: "@ + now + "\n"@).is_prefix_of(prompt)
            &&& contains_part(prompt, joined(context_lines(environment), "\n"@))
            &&& contains_part(prompt, "You have "@ + decimal(specs.len()) + " "@)
            &&& contains_part(prompt, specs[i].prompt_line@)
            &&& contains_part(prompt, specs[i].json_example@)
            &&& contains_part(
                prompt,
                "If you need a tool, respond with ONLY a JSON object and nothing else:"@,
            )
            &&& contains_part(
                prompt,
                "After you receive a tool result, answer the user in plain language."@,
            )
        }),
{
    let specs = available_specs(environment.platform);
    let lines = prompt_lines(specs);
    let tools = joined(lines, "\n"@);
    let context = joined(context_lines(environment), "\n"@);
    let prompt = system_prompt_text(now, environment);
    let start = "Current time: "@ + now + "\n"@;
    let count = specs.len() as int;
    assert(start =~= prompt.subrange(0, start.len() as int));
    part_is_contained(start, context, "\n\n"@ + tools);
    assert(prompt =~= start + context + ("\n\n"@ + tools));
    let before = start + context + "\n\n"@;
    assert(lines.len() == 3 + count + 2 + count + 2);
    assert(lines[3 + i] == specs[i].prompt_line@);
    assert(lines[3 + count + 2 + i] == specs[i].json_example@);
    joined_texts_are_contained(lines, "\n"@, 2);
    joined_texts_are_contained(lines, "\n"@, 3 + i);
    joined_texts_are_contained(lines, "\n"@, 3 + count + 1);
    joined_texts_are_contained(lines, "\n"@, 3 + count + 2 + i);
    joined_texts_are_contained(lines, "\n"@, 3 + count + 2 + count + 1);
    behind_is_contained(before, tools, specs[i].prompt_line@);
    behind_is_contained(before, tools, specs[i].json_example@);
    behind_is_contained(before, tools, lines[3 + count + 1]);
    behind_is_contained(before, tools, lines[3 + count + 2 + count + 1]);
    let heading = "You have "@ + decimal(specs.len()) + " "@;
    assert(lines[2].take(heading.len() as int) =~= heading);
    let at = choose|at: int| occurs_at(tools, lines[2], at);
    assert(tools.subrange(at, at + heading.len()) =~= heading) by {
        assert forall|k: int| 0 <= k < heading.len() implies tools[at + k] == heading[k] by {
            assert(tools.subrange(at, at + lines[2].len())[k] == lines[2][k]);
            assert(lines[2].take(heading.len() as int)[k] == lines[2][k]);
        }
    }
    assert(occurs_at(tools, heading, at));
    behind_is_contained(before, tools, heading);
}

/// What stands in the end of a text stands in the text.
proof fn behind_is_contained(before: Seq<char>, text: Seq<char>, part: Seq<char>)
    requires
        contains_part(text, part),
    ensures
        contains_part(before + text, part),
{
    let at = choose|at: int| occurs_at(text, part, at);
    let whole = before + text;
    assert(whole.subrange(before.len() + at, before.len() + at + part.len()) =~= part) by {
        assert forall|k: int| 0 <= k < part.len() implies whole[before.len() + at + k]
            == part[k] by {
            assert(text.subrange(at, at + part.len())[k] == text[at + k]);
        }
    }
    assert(occurs_at(whole, part, before.len() + at));
}

/// The schema of a function says its name, what it does, each parameter as a text with its meaning, and
/// which ones are needed.
#[verifier::rlimit(40)]
pub proof fn schemas_describe_functions(
    name: Seq<char>,
    description: Seq<char>,
    parameters: Seq<(Seq<char>, Seq<char>)>,
    required: Seq<Seq<char>>,
    i: int,
)
    requires
        0 <= i < parameters.len(),
        forall|j: int| i < j < parameters.len() ==> (#[trigger] parameters[j]).0 != parameters[i].0,
    ensures
        ({
            let schema = function_schema(name, description, parameters, required);
            &&& schema.text_field("type"@) == Some("function"@)
            &&& schema.field("function"@) matches Some(function) && {
                &&& function.text_field("name"@) == Some(name)
                &&& function.text_field("description"@) == Some(description)
                &&& function.field("parameters"@) matches Some(taken) && {
                    &&& taken.text_field("type"@) == Some("object"@)
                    &&& taken.field("required"@) == Some(
                        JsonView::Array(required.map_values(|p: Seq<char>| JsonView::Text(p))),
                    )
                    &&& taken.field("properties"@) matches Some(properties) && properties.field(
                        parameters[i].0,
                    ) matches Some(parameter) && {
                        &&& parameter.text_field("type"@) == Some("string"@)
                        &&& parameter.text_field("description"@) == Some(parameters[i].1)
                    }
                }
            }
        }),
{
    reveal_strlit("type");
    reveal_strlit("function");
    reveal_strlit("name");
    reveal_strlit("description");
    reveal_strlit("parameters");
    reveal_strlit("properties");
    reveal_strlit("required");
    assert("type"@.len() == 4 && "function"@.len() == 8 && "name"@.len() == 4);
    assert("description"@.len() == 11 && "parameters"@.len() == 10 && "properties"@.len() == 10);
    assert("required"@.len() == 8);
    let entries = parameters.map_values(|p: (Seq<char>, Seq<char>)| (p.0, text_parameter(p.1)));
    assert forall|j: int| i < j < entries.len() implies (#[trigger] entries[j]).0
        != entries[i].0 by {
        assert(parameters[j].0 != parameters[i].0);
    }
    entries_are_found(entries, i);
    let parameter = seq![
        ("type"@, JsonView::Text("string"@)),
        ("description"@, JsonView::Text(parameters[i].1)),
    ];
    entries_are_found(parameter, 0);
    entries_are_found(parameter, 1);
    let taken = seq![
        ("type"@, JsonView::Text("object"@)),
        ("properties"@, object_of(entries)),
        ("required"@, JsonView::Array(required.map_values(|p: Seq<char>| JsonView::Text(p)))),
    ];
    entries_are_found(taken, 0);
    entries_are_found(taken, 1);
    entries_are_found(taken, 2);
    let function = seq![
        ("name"@, JsonView::Text(name)),
        ("description"@, JsonView::Text(description)),
        ("parameters"@, object_of(taken)),
    ];
    entries_are_found(function, 0);
    entries_are_found(function, 1);
    entries_are_found(function, 2);
    let whole = seq![
        ("type"@, JsonView::Text("function"@)),
        ("function"@, object_of(function)),
    ];
    entries_are_found(whole, 0);
    entries_are_found(whole, 1);
}

/// Each tool is described under its own name, with the arguments that it takes; those that it needs are
/// a path for each file tool, the expression for `sed`, and the query or the command for the others.
#[verifier::rlimit(40)]
pub proof fn tools_are_described(name: Seq<char>)
    requires
        name == "web_search"@ || name == "ls"@ || name == "cat"@ || name == "sed"@ || name
            == "run_command"@,
    ensures
        tool_schema(name).field("function"@) matches Some(function) && {
            &&& function.text_field("name"@) == Some(name)
            &&& function.field("parameters"@) matches Some(taken) && {
                &&& taken.field("properties"@) matches Some(properties) && {
                    &&& name == "web_search"@ ==> properties.field("query"@) is Some
                    &&& name == "run_command"@ ==> properties.field("command"@) is Some
                    &&& name == "ls"@ ==> properties.field("path"@) is Some && properties.field(
                        "flags"@,
                    ) is Some
                    &&& name == "cat"@ ==> properties.field("path"@) is Some && properties.field(
                        "pattern"@,
                    ) is Some && properties.field("flags"@) is Some
                    &&& name == "sed"@ ==> properties.field("path"@) is Some && properties.field(
                        "expression"@,
                    ) is Some
                }
                &&& taken.field("required"@) matches Some(JsonView::Array(needed)) && {
                    &&& name == "web_search"@ ==> needed == seq![JsonView::Text("query"@)]
                    &&& name == "run_command"@ ==> needed == seq![JsonView::Text("command"@)]
                    &&& name == "ls"@ || name == "cat"@ ==> needed == seq![JsonView::Text("path"@)]
                    &&& name == "sed"@ ==> needed == seq![
                        JsonView::Text("path"@),
                        JsonView::Text("expression"@),
                    ]
                }
            }
        },
{
    tool_names_differ();
    reveal_strlit("path");
    reveal_strlit("flags");
    reveal_strlit("pattern");
    reveal_strlit("expression");
    assert("path"@.len() == 4 && "flags"@.len() == 5 && "pattern"@.len() == 7
        && "expression"@.len() == 10);
    if name == "web_search"@ {
        let parameters = seq![("query"@, "The search query"@)];
        schemas_describe_functions(name, WEB_SEARCH_DESCRIPTION@, parameters, seq!["query"@], 0);
        assert(seq!["query"@].map_values(|p: Seq<char>| JsonView::Text(p)) =~= seq![
            JsonView::Text("query"@),
        ]);
    } else if name == "ls"@ {
        let parameters = seq![
            ("path"@, "Directory path to list"@),
            ("flags"@, LS_FLAGS_DESCRIPTION@),
        ];
        schemas_describe_functions(name, LS_DESCRIPTION@, parameters, seq!["path"@], 0);
        schemas_describe_functions(name, LS_DESCRIPTION@, parameters, seq!["path"@], 1);
        assert(seq!["path"@].map_values(|p: Seq<char>| JsonView::Text(p)) =~= seq![
            JsonView::Text("path"@),
        ]);
    } else if name == "cat"@ {
        let parameters = seq![
            ("path"@, "File path to print"@),
            ("pattern"@, CAT_PATTERN_DESCRIPTION@),
            ("flags"@, CAT_FLAGS_DESCRIPTION@),
        ];
        schemas_describe_functions(name, CAT_DESCRIPTION@, parameters, seq!["path"@], 0);
        schemas_describe_functions(name, CAT_DESCRIPTION@, parameters, seq!["path"@], 1);
        schemas_describe_functions(name, CAT_DESCRIPTION@, parameters, seq!["path"@], 2);
        assert(seq!["path"@].map_values(|p: Seq<char>| JsonView::Text(p)) =~= seq![
            JsonView::Text("path"@),
        ]);
    } else if name == "sed"@ {
        let parameters = seq![
            ("path"@, "File path to modify"@),
            ("expression"@, SED_EXPRESSION_DESCRIPTION@),
        ];
        let required = seq!["path"@, "expression"@];
        schemas_describe_functions(name, SED_DESCRIPTION@, parameters, required, 0);
        schemas_describe_functions(name, SED_DESCRIPTION@, parameters, required, 1);
        assert(required.map_values(|p: Seq<char>| JsonView::Text(p)) =~= seq![
            JsonView::Text("path"@),
            JsonView::Text("expression"@),
        ]);
    } else {
        let parameters = seq![("command"@, "The shell command to run"@)];
        schemas_describe_functions(name, RUN_COMMAND_DESCRIPTION@, parameters, seq!["command"@], 0);
        assert(seq!["command"@].map_values(|p: Seq<char>| JsonView::Text(p)) =~= seq![
            JsonView::Text("command"@),
        ]);
    }
}

/// The schemas that the model is given are those of the tools that it is told of, in their order.
pub proof fn schemas_are_those_of_the_tools(platform: Platform, i: int)
    requires
        0 <= i < available_specs(platform).len(),
    ensures
        available_schemas(platform)[i] == tool_schema(available_specs(platform)[i].name@),
{
}

/// Each tool is told of in its own words and with an example of its own.
pub proof fn tools_have_their_own_words(i: int)
    requires
        0 <= i < all_specs().len(),
    ensures
        ({
            let spec = all_specs()[i];
            &&& spec.name@ == "web_search"@ ==> spec.prompt_line@ == WEB_SEARCH_PROMPT@
                && spec.json_example@ == WEB_SEARCH_EXAMPLE@
            &&& spec.name@ == "ls"@ ==> spec.prompt_line@ == LS_PROMPT@ && spec.json_example@
                == LS_EXAMPLE@
            &&& spec.name@ == "cat"@ ==> spec.prompt_line@ == CAT_PROMPT@ && spec.json_example@
                == CAT_EXAMPLE@
            &&& spec.name@ == "sed"@ ==> spec.prompt_line@ == SED_PROMPT@ && spec.json_example@
                == SED_EXAMPLE@
            &&& spec.name@ == "run_command"@ ==> spec.prompt_line@ == RUN_COMMAND_PROMPT@
                && spec.json_example@ == RUN_COMMAND_EXAMPLE@
        }),
{
    tool_names_differ();
}

/// The prompt tells nothing else: it has two lines for each tool, and seven others.
pub proof fn prompt_tells_nothing_else(specs: Seq<ToolSpec>)
    ensures
        prompt_lines(specs).len() == 2 * specs.len() + 7,
        prompt_lines(specs)[0] == "You are a helpful assistant in a chat app."@,
        prompt_lines(specs)[2] == "You have "@ + decimal(specs.len()) + " "@ + (if specs.len()
            == 1 {
            "tool"@
        } else {
            "tools"@
        }) + ":"@,
        prompt_lines(specs)[1].len() == 0,
        prompt_lines(specs)[specs.len() as int + 3].len() == 0,
        prompt_lines(specs)[2 * specs.len() as int + 5].len() == 0,
{
}

} // verus!
