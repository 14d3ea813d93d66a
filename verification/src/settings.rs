//! The client's settings, and the addresses that follow from them.
use vstd::prelude::*;

use crate::path::{join_path, joined_path};
use crate::permissions::{copy_rules, PathPermissionRule};
use crate::text::{
    blank, is_blank, is_white, option_view, same_text, suffixes_are_taken_off, trim,
    trim_end_matches, trimmed, trimmed_end, trimmed_start, trimming_nothing, without_suffixes,
};

verus! {

pub const DEFAULT_BASE_URL: &'static str = "http://127.0.0.1:11434";

pub const DEFAULT_MODEL: &'static str = "qwen3:4b";

pub const DEFAULT_NUM_CTX: u32 = 16384;

/// A model that can be picked from a list.
#[derive(Debug, Clone, Copy)]
pub struct QwenModelOption {
    pub label: &'static str,
    pub tag: &'static str,
}

/// The settings.
#[derive(Debug, PartialEq, Eq)]
pub struct LlmConfig {
    pub enabled: bool,
    pub base_url: String,
    pub model: String,
    pub num_ctx: u32,
    pub tavily_api_key: String,
    pub path_permissions: Vec<PathPermissionRule>,
}

/// The models that can be picked from a list.
pub open spec fn model_options() -> Seq<QwenModelOption> {
    seq![
        QwenModelOption { label: "Qwen3 0.6B", tag: "qwen3:0.6b" },
        QwenModelOption { label: "Qwen3 1.7B", tag: "qwen3:1.7b" },
        QwenModelOption { label: "Qwen3 4B", tag: "qwen3:4b" },
    ]
}

/// The models that can be picked from a list.
pub fn qwen_model_options() -> (options: Vec<QwenModelOption>)
    ensures
        options@ == model_options(),
{
    let options = vec![
        QwenModelOption { label: "Qwen3 0.6B", tag: "qwen3:0.6b" },
        QwenModelOption { label: "Qwen3 1.7B", tag: "qwen3:1.7b" },
        QwenModelOption { label: "Qwen3 4B", tag: "qwen3:4b" },
    ];
    assert(options@ =~= model_options());
    options
}

/// The place of a model in the list, if it is there.
pub fn qwen_model_index(model: &str) -> (index: Option<usize>)
    ensures
        match index {
            Some(index) => {
                &&& index < model_options().len()
                &&& model_options()[index as int].tag@ == model@
                &&& forall|i: int| 0 <= i < index ==> (#[trigger] model_options()[i]).tag@ != model@
            },
            None => forall|i: int|
                0 <= i < model_options().len() ==> (#[trigger] model_options()[i]).tag@ != model@,
        },
{
    let options = qwen_model_options();
    let mut i: usize = 0;
    while i < options.len()
        invariant
            i <= options@.len(),
            options@ == model_options(),
            forall|j: int| 0 <= j < i ==> (#[trigger] model_options()[j]).tag@ != model@,
        decreases options@.len() - i,
    {
        if same_text(options[i].tag, model) {
            return Some(i);
        }
        i += 1;
    }
    None
}

impl LlmConfig {
    /// The settings to start with, given the search service's key that the environment holds, if
    /// it holds one.
    pub fn default(tavily_api_key: Option<String>) -> (config: LlmConfig)
        ensures
            config.enabled,
            config.base_url@ == DEFAULT_BASE_URL@,
            config.model@ == DEFAULT_MODEL@,
            config.num_ctx == DEFAULT_NUM_CTX,
            config.tavily_api_key@ == match tavily_api_key {
                Some(key) => key@,
                None => Seq::empty(),
            },
            config.path_permissions@ == Seq::<PathPermissionRule>::empty(),
    {
        LlmConfig {
            enabled: true,
            base_url: DEFAULT_BASE_URL.to_owned(),
            model: DEFAULT_MODEL.to_owned(),
            num_ctx: DEFAULT_NUM_CTX,
            tavily_api_key: match tavily_api_key {
                Some(key) => key,
                None => String::new(),
            },
            path_permissions: Vec::new(),
        }
    }
}

/// The key of the search service to begin with, given the one that was saved with the settings, if
/// there were any, and the one that the environment holds.
pub open spec fn startup_key(saved: Option<Seq<char>>, key: Option<Seq<char>>) -> Seq<char> {
    match (saved, key) {
        (Some(saved), Some(key)) => if blank(saved) {
            key
        } else {
            saved
        },
        (Some(saved), None) => saved,
        (None, Some(key)) => key,
        (None, None) => Seq::empty(),
    }
}

/// The settings to begin with: those that were saved, or else the ones to start with. Where they
/// hold no key of the search service, the one counts that the environment holds.
pub fn startup_config(loaded: Option<LlmConfig>, key: Option<String>) -> (config: LlmConfig)
    ensures
        config.tavily_api_key@ == startup_key(
            match loaded {
                Some(saved) => Some(saved.tavily_api_key@),
                None => None,
            },
            match key {
                Some(key) => Some(key@),
                None => None,
            },
        ),
        match loaded {
            Some(saved) => {
                &&& config.enabled == saved.enabled
                &&& config.base_url == saved.base_url
                &&& config.model == saved.model
                &&& config.num_ctx == saved.num_ctx
                &&& config.path_permissions == saved.path_permissions
                &&& config.tavily_api_key@ == match key {
                    Some(key) => if blank(saved.tavily_api_key@) {
                        key@
                    } else {
                        saved.tavily_api_key@
                    },
                    None => saved.tavily_api_key@,
                }
            },
            None => {
                &&& config.enabled
                &&& config.base_url@ == DEFAULT_BASE_URL@
                &&& config.model@ == DEFAULT_MODEL@
                &&& config.num_ctx == DEFAULT_NUM_CTX
                &&& config.path_permissions@ == Seq::<PathPermissionRule>::empty()
                &&& config.tavily_api_key@ == match key {
                    Some(key) => key@,
                    None => Seq::empty(),
                }
            },
        },
{
    match loaded {
        Some(saved) => {
            let mut config = saved;
            if is_blank(config.tavily_api_key.as_str()) {
                if let Some(key) = key {
                    config.tavily_api_key = key;
                }
            }
            config
        },
        None => LlmConfig::default(key),
    }
}

impl Clone for LlmConfig {
    fn clone(&self) -> (copy: Self)
        ensures
            copy.enabled == self.enabled,
            copy.base_url == self.base_url,
            copy.model == self.model,
            copy.num_ctx == self.num_ctx,
            copy.tavily_api_key == self.tavily_api_key,
            copy.path_permissions@ == self.path_permissions@,
    {
        LlmConfig {
            enabled: self.enabled,
            base_url: self.base_url.clone(),
            model: self.model.clone(),
            num_ctx: self.num_ctx,
            tavily_api_key: self.tavily_api_key.clone(),
            path_permissions: copy_rules(self.path_permissions.as_slice()),
        }
    }
}

/// The server's address without white space around it and slashes at its end.
pub open spec fn normal_base_url(base_url: Seq<char>) -> Seq<char> {
    without_suffixes(trimmed(base_url), seq!['/'])
}

/// The server's address without white space around it and slashes at its end.
pub fn normalize_base_url(base_url: &str) -> (url: String)
    ensures
        url@ == normal_base_url(base_url@),
{
    proof {
        reveal_strlit("/");
        assert("/"@ =~= seq!['/']);
    }
    trim_end_matches(trim(base_url).as_str(), "/")
}

/// Where the server does something, at the given place.
pub open spec fn server_address(base_url: Seq<char>, place: Seq<char>) -> Seq<char> {
    normal_base_url(base_url) + place
}

/// Where the server lists its models.
pub fn tags_url(base_url: &str) -> (url: String)
    ensures
        url@ == server_address(base_url@, "/api/tags"@),
        url@ == normal_base_url(base_url@) + "/api/tags"@,
{
    let mut url = normalize_base_url(base_url);
    url.append("/api/tags");
    url
}

/// Where the server takes chats.
pub fn chat_url(base_url: &str) -> (url: String)
    ensures
        url@ == server_address(base_url@, "/api/chat"@),
        url@ == normal_base_url(base_url@) + "/api/chat"@,
{
    let mut url = normalize_base_url(base_url);
    url.append("/api/chat");
    url
}

/// The message for a request that did not come through.
pub fn connection_error(is_connect: bool, reason: String) -> (message: String)
    ensures
        message@ == (if is_connect {
            "Could not connect to Ollama. Install it from https://ollama.com and run `ollama serve`."@
        } else {
            reason@
        }),
{
    if is_connect {
        "Could not connect to Ollama. Install it from https://ollama.com and run `ollama serve`.".to_owned()
    } else {
        reason
    }
}

/// The message for a request that the server refused with a status.
pub fn http_error(status: &str) -> (message: String)
    ensures
        message@ == "Ollama returned HTTP "@ + status@,
{
    let mut message = "Ollama returned HTTP ".to_owned();
    message.append(status);
    message
}

/// Where the settings are kept: under what `HOME` says, else under what `USERPROFILE` says.
pub fn settings_path(home: Option<&str>, user_profile: Option<&str>) -> (path: Option<String>)
    ensures
        match path {
            Some(path) => {
                let directory = if home is Some {
                    option_view(home)
                } else {
                    option_view(user_profile)
                };
                &&& directory is Some
                &&& path@ == joined_path(directory->0, ".config/pairllm/settings.json"@)
            },
            None => home is None && user_profile is None,
        },
{
    match home {
        Some(home) => Some(join_path(home, ".config/pairllm/settings.json")),
        None => match user_profile {
            Some(profile) => Some(join_path(profile, ".config/pairllm/settings.json")),
            None => None,
        },
    }
}

/// What can keep the settings from being saved, with the reason where there is one.
#[derive(Debug)]
pub enum SaveTrouble {
    NoPath,
    NoDirectory(String),
    NotEncoded(String),
    NotWritten(String),
}

/// The message for settings that could not be saved.
pub fn save_error(trouble: &SaveTrouble) -> (message: String)
    ensures
        message@ == match trouble {
            SaveTrouble::NoPath => "Could not resolve settings path."@,
            SaveTrouble::NoDirectory(reason) => "Could not create settings dir: "@ + reason@,
            SaveTrouble::NotEncoded(reason) => "Could not encode settings: "@ + reason@,
            SaveTrouble::NotWritten(reason) => "Could not write settings: "@ + reason@,
        },
{
    let (start, reason) = match trouble {
        SaveTrouble::NoPath => {
            return "Could not resolve settings path.".to_owned();
        },
        SaveTrouble::NoDirectory(reason) => ("Could not create settings dir: ", reason),
        SaveTrouble::NotEncoded(reason) => ("Could not encode settings: ", reason),
        SaveTrouble::NotWritten(reason) => ("Could not write settings: ", reason),
    };
    let mut message = start.to_owned();
    message.append(reason.as_str());
    message
}

/// The server's address never ends with a slash once it is normalized.
pub proof fn normal_base_url_has_no_slash_at_end(base_url: Seq<char>)
    ensures
        normal_base_url(base_url).len() > 0 ==> normal_base_url(base_url).last() != '/',
{
    no_suffix_left(trimmed(base_url));
}

proof fn no_suffix_left(text: Seq<char>)
    ensures
        without_suffixes(text, seq!['/']).len() > 0 ==> without_suffixes(text, seq!['/']).last()
            != '/',
    decreases text.len(),
{
    if seq!['/'].is_suffix_of(text) {
        no_suffix_left(text.take(text.len() - 1));
    } else if text.len() > 0 && text.last() == '/' {
        assert(seq!['/'] =~= text.subrange(text.len() - 1, text.len() as int));
    }
}

/// The server's address is what is set, without white space around it and slashes at its end: a slash
/// more or less changes nothing, and an address without any stays as it is.
pub proof fn slashes_at_the_end_do_not_matter(base_url: Seq<char>)
    requires
        base_url.len() > 0,
        !is_white(base_url[0]),
        !is_white(base_url.last()),
    ensures
        normal_base_url(base_url + seq!['/']) == normal_base_url(base_url),
        normal_base_url(seq![' '] + base_url + seq![' ']) == normal_base_url(base_url),
        base_url.last() != '/' ==> normal_base_url(base_url) == base_url,
{
    let slashed = base_url + seq!['/'];
    let spaced = seq![' '] + base_url + seq![' '];
    trimming_nothing(base_url);
    trimming_nothing(slashed);
    suffixes_are_taken_off(base_url, seq!['/']);
    if seq!['/'].is_suffix_of(base_url) {
        assert(base_url.subrange(base_url.len() - 1, base_url.len() as int)[0] == '/');
    }
    assert(trimmed(spaced) == base_url) by {
        assert(spaced.drop_first() =~= base_url + seq![' ']);
        assert((base_url + seq![' ']).drop_last() =~= base_url);
        assert((base_url + seq![' '])[0] == base_url[0]);
        assert(trimmed_start(spaced) == trimmed_start(base_url + seq![' ']));
        assert(trimmed_start(base_url + seq![' ']) == base_url + seq![' ']);
        assert(trimmed_end(base_url + seq![' ']) == trimmed_end(base_url));
    }
}

/// The models that can be picked are told apart by what they are called and by how they are shown.
pub proof fn models_are_told_apart(i: int, j: int)
    requires
        0 <= i < j < model_options().len(),
    ensures
        model_options()[i].tag@ != model_options()[j].tag@,
        model_options()[i].label@ != model_options()[j].label@,
{
    reveal_strlit("qwen3:0.6b");
    reveal_strlit("qwen3:1.7b");
    reveal_strlit("qwen3:4b");
    reveal_strlit("Qwen3 0.6B");
    reveal_strlit("Qwen3 1.7B");
    reveal_strlit("Qwen3 4B");
    assert("qwen3:0.6b"@[6] == '0' && "qwen3:1.7b"@[6] == '1' && "qwen3:4b"@[6] == '4');
    assert("Qwen3 0.6B"@[6] == '0' && "Qwen3 1.7B"@[6] == '1' && "Qwen3 4B"@[6] == '4');
}

/// The model to start with can be picked.
pub proof fn first_model_can_be_picked()
    ensures
        exists|i: int|
            0 <= i < model_options().len() && (#[trigger] model_options()[i]).tag@
                == DEFAULT_MODEL@,
{
    assert(model_options()[2].tag@ == DEFAULT_MODEL@);
}

/// A key that was saved counts unless it is blank; where none counts, the environment's does, and
/// without that there is none.
pub proof fn saved_key_counts_first(saved: Seq<char>, key: Seq<char>)
    ensures
        !blank(saved) ==> startup_key(Some(saved), Some(key)) == saved,
        blank(saved) ==> startup_key(Some(saved), Some(key)) == key,
        startup_key(Some(saved), None) == saved,
        startup_key(None, Some(key)) == key,
        startup_key(None, None).len() == 0,
{
}

/// The server is asked at its address, with one slash before the place: slashes at the end of what is
/// set do not matter.
pub proof fn server_is_asked_at_its_address(base_url: Seq<char>, place: Seq<char>)
    requires
        base_url.len() > 0,
        !is_white(base_url[0]),
        !is_white(base_url.last()),
        base_url.last() != '/',
    ensures
        server_address(base_url, place) == base_url + place,
        server_address(base_url + seq!['/'], place) == base_url + place,
{
    slashes_at_the_end_do_not_matter(base_url);
}

} // verus!
