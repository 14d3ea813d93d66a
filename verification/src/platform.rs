//! The machine that the client runs on.
use vstd::prelude::*;

use crate::text::{
    contains_part, join, joined, joined_texts_are_contained, option_view, views,
};

verus! {

/// The operating systems that have a name here.
#[derive(Debug, Clone, Copy, PartialEq, Eq, Structural)]
pub enum OperatingSystem {
    MacOs,
    Linux,
    Windows,
    FreeBsd,
    Unknown,
}

/// What kind of machine the client runs on.
#[derive(Debug, Clone, Copy, PartialEq, Eq, Structural)]
pub struct Platform {
    /// Whether the system is a Unix.
    pub unix: bool,
    pub system: OperatingSystem,
}

/// What the client knows of its surroundings.
#[derive(Debug)]
pub struct Environment {
    pub platform: Platform,
    /// The home directory, where it is known.
    pub home: Option<String>,
}

impl Environment {
    /// The home directory, where it is known.
    pub open spec fn home_view(self) -> Option<Seq<char>> {
        match self.home {
            Some(home) => Some(home@),
            None => None,
        }
    }

    /// The home directory, where it is known.
    pub fn home_dir(&self) -> (home: Option<&str>)
        ensures
            option_view(home) == self.home_view(),
    {
        match &self.home {
            Some(home) => Some(home.as_str()),
            None => None,
        }
    }
}

/// The home directory: what `HOME` says, else what `USERPROFILE` says.
pub fn home_dir(home: Option<String>, user_profile: Option<String>) -> (directory: Option<String>)
    ensures
        directory == (if home is Some {
            home
        } else {
            user_profile
        }),
{
    match home {
        Some(home) => Some(home),
        None => user_profile,
    }
}

/// The name of an operating system.
pub open spec fn system_name(system: OperatingSystem) -> Seq<char> {
    match system {
        OperatingSystem::MacOs => "macOS"@,
        OperatingSystem::Linux => "Linux"@,
        OperatingSystem::Windows => "Windows"@,
        OperatingSystem::FreeBsd => "FreeBSD"@,
        OperatingSystem::Unknown => "Unknown"@,
    }
}

/// The name of an operating system.
pub fn operating_system_name(system: OperatingSystem) -> (name: &'static str)
    ensures
        name@ == system_name(system),
{
    match system {
        OperatingSystem::MacOs => "macOS",
        OperatingSystem::Linux => "Linux",
        OperatingSystem::Windows => "Windows",
        OperatingSystem::FreeBsd => "FreeBSD",
        OperatingSystem::Unknown => "Unknown",
    }
}

/// What the model is told of the surroundings, line by line.
pub open spec fn context_lines(environment: Environment) -> Seq<Seq<char>> {
    let system = "Operating system: "@ + system_name(environment.platform.system);
    match environment.home_view() {
        Some(home) => seq![
            system,
            "Home directory: "@ + home,
            "In file tool paths, `~` expands to this home directory."@,
        ],
        None => seq![system, "Home directory: (unknown)"@],
    }
}

/// What the model is told of the surroundings.
pub fn environment_context(environment: &Environment) -> (context: String)
    ensures
        context@ == joined(context_lines(*environment), "\n"@),
{
    let mut lines: Vec<String> = Vec::new();
    let mut system = "Operating system: ".to_owned();
    system.append(operating_system_name(environment.platform.system));
    lines.push(system);
    match environment.home_dir() {
        Some(home) => {
            let mut line = "Home directory: ".to_owned();
            line.append(home);
            lines.push(line);
            lines.push("In file tool paths, `~` expands to this home directory.".to_owned());
        },
        None => {
            lines.push("Home directory: (unknown)".to_owned());
        },
    }
    assert(views(lines@) =~= context_lines(*environment));
    join(&lines, "\n")
}

/// The systems are told apart by their names.
pub proof fn systems_are_told_apart(first: OperatingSystem, second: OperatingSystem)
    ensures
        system_name(first) == system_name(second) ==> first == second,
        system_name(OperatingSystem::MacOs) == "macOS"@,
        system_name(OperatingSystem::Linux) == "Linux"@,
        system_name(OperatingSystem::Windows) == "Windows"@,
{
    reveal_strlit("macOS");
    reveal_strlit("Linux");
    reveal_strlit("Windows");
    reveal_strlit("FreeBSD");
    reveal_strlit("Unknown");
    assert("macOS"@[0] == 'm' && "Linux"@[0] == 'L' && "Windows"@[0] == 'W' && "FreeBSD"@[0] == 'F'
        && "Unknown"@[0] == 'U');
}

/// The model is told the system and the home directory, and that `~` stands for it; without one it is
/// told that it is not known.
pub proof fn surroundings_are_told(environment: Environment)
    ensures
        ({
            let told = joined(context_lines(environment), "\n"@);
            &&& contains_part(
                told,
                "Operating system: "@ + system_name(environment.platform.system),
            )
            &&& match environment.home_view() {
                Some(home) => {
                    &&& contains_part(told, "Home directory: "@ + home)
                    &&& contains_part(
                        told,
                        "In file tool paths, `~` expands to this home directory."@,
                    )
                },
                None => contains_part(told, "Home directory: (unknown)"@),
            }
        }),
{
    let lines = context_lines(environment);
    joined_texts_are_contained(lines, "\n"@, 0);
    joined_texts_are_contained(lines, "\n"@, 1);
    if environment.home_view() is Some {
        joined_texts_are_contained(lines, "\n"@, 2);
    }
}

} // verus!
