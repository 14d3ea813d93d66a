use pairllm::json::{entry, Json};
use pairllm::platform::{
    environment_context, home_dir, operating_system_name, Environment, OperatingSystem, Platform,
};
use pairllm::tools::{
    available_tool_specs, is_supported_tool, system_prompt, tool_definition, tool_definitions,
    tool_specs, tool_system_prompt_body, ToolPlatform,
};

fn linux() -> Platform {
    Platform { unix: true, system: OperatingSystem::Linux }
}

fn windows() -> Platform {
    Platform { unix: false, system: OperatingSystem::Windows }
}

fn at_home(platform: Platform) -> Environment {
    Environment { platform, home: Some("/home/ada".to_string()) }
}

#[test]
fn ls_availability_matches_platform() {
    assert_eq!(is_supported_tool("ls", linux()), true);
    assert_eq!(is_supported_tool("ls", windows()), false);
}

#[test]
fn cat_availability_matches_platform() {
    assert_eq!(is_supported_tool("cat", linux()), true);
    assert_eq!(is_supported_tool("cat", windows()), false);
}

#[test]
fn sed_availability_matches_platform() {
    assert_eq!(is_supported_tool("sed", linux()), true);
    assert_eq!(is_supported_tool("sed", windows()), false);
}

#[test]
fn other_tools_are_available_everywhere() {
    for platform in [linux(), windows()] {
        assert!(is_supported_tool("web_search", platform));
        assert!(is_supported_tool("run_command", platform));
        assert!(!is_supported_tool("rm", platform));
        assert!(!is_supported_tool("", platform));
    }
    assert!(ToolPlatform::All.is_supported(windows()));
    assert!(!ToolPlatform::Unix.is_supported(windows()));
}

#[test]
fn system_prompt_includes_environment_context() {
    let environment = at_home(linux());
    let prompt = system_prompt("Monday, 01 January 2024", &environment);
    assert!(prompt.contains("Operating system:"));
    assert!(prompt.contains(operating_system_name(OperatingSystem::Linux)));
    if let Some(home) = environment.home_dir() {
        assert!(prompt.contains(home));
    }
    assert!(prompt.contains("Home directory:"));
}

#[test]
fn system_prompt_starts_with_the_time() {
    let environment = at_home(windows());
    let prompt = system_prompt("noon", &environment);
    let start = "Current time: noon\nOperating system: Windows\nHome directory: /home/ada\n";
    assert!(prompt.starts_with(start));
    assert!(prompt.contains("\n\nYou are a helpful assistant in a chat app.\n\nYou have 2 tools:\n"));
    assert!(prompt.ends_with("After you receive a tool result, answer the user in plain language."));
}

#[test]
fn environment_without_home() {
    let environment = Environment { platform: linux(), home: None };
    assert!(environment_context(&environment).starts_with("Operating system: Linux\n"));
    assert!(environment.home_dir().is_none());
}

#[test]
fn home_comes_before_user_profile() {
    let home = Some("/home/ada".to_string());
    let profile = Some("C:\\Users\\ada".to_string());
    assert_eq!(home_dir(home.clone(), profile.clone()), home);
    assert_eq!(home_dir(None, profile.clone()), profile);
    assert_eq!(home_dir(None, None), None);
}

#[test]
fn operating_systems_have_names() {
    assert_eq!(operating_system_name(OperatingSystem::MacOs), "macOS");
    assert_eq!(operating_system_name(OperatingSystem::Linux), "Linux");
    assert_eq!(operating_system_name(OperatingSystem::Windows), "Windows");
    assert_eq!(operating_system_name(OperatingSystem::FreeBsd), "FreeBSD");
    assert_eq!(operating_system_name(OperatingSystem::Unknown), "Unknown");
}

#[test]
fn system_prompt_lists_only_available_tools() {
    let prompt = tool_system_prompt_body(linux());
    assert!(prompt.contains("\"tool\":\"ls\""));
    assert!(prompt.contains("\"tool\":\"cat\""));
    assert!(prompt.contains("sed"));

    let prompt = tool_system_prompt_body(windows());
    assert!(!prompt.contains("\"tool\":\"ls\""));
    assert!(!prompt.contains("\"tool\":\"cat\""));
    assert!(!prompt.contains("\"tool\":\"sed\""));
}

#[test]
fn model_is_told_of_the_supported_tools() {
    for platform in [linux(), windows()] {
        let prompt = tool_system_prompt_body(platform);
        let told = tool_definitions(platform);
        let specs = available_tool_specs(platform);
        assert_eq!(told.len(), specs.len());
        for (definition, spec) in told.iter().zip(specs.iter()) {
            assert!(is_supported_tool(spec.name, platform));
            assert!(prompt.contains(spec.prompt_line));
            assert!(prompt.contains(spec.json_example));
            let function = definition.get("function").unwrap();
            assert_eq!(function.get_str("name"), Some(spec.name));
        }
    }
    assert_eq!(available_tool_specs(linux()).len(), 5);
    assert_eq!(available_tool_specs(windows()).len(), 2);
}

#[test]
fn definition_of_run_command() {
    let specs = tool_specs();
    let spec = specs.iter().find(|spec| spec.name == "run_command").unwrap();
    let definition = tool_definition(spec);
    assert_eq!(definition.get_str("type"), Some("function"));
    let function = definition.get("function").unwrap();
    let parameters = function.get("parameters").unwrap();
    assert_eq!(parameters.get_str("type"), Some("object"));
    assert_eq!(
        parameters.get("required"),
        Some(&Json::Array(vec![Json::Text("command".to_string())])),
    );
    let properties = parameters.get("properties").unwrap();
    assert_eq!(properties.get("command").unwrap().get_str("type"), Some("string"));
    assert!(properties.get("path").is_none());
    let same = entry("type", Json::from_text("function"));
    assert_eq!(same.1, *definition.get("type").unwrap());
}
