//! The shells that commands are generated for.

use vstd::prelude::*;
use crate::text::chars_of;

verus! {

/// A kind of shell.
#[derive(Debug, Clone, Copy, PartialEq, Eq, Structural)]
pub enum ShellType {
    Bash,
    Zsh,
    Fish,
    PowerShell,
    Cmd,
    Sh,
    Unknown,
}

/// The name of each shell as it is shown.
pub open spec fn shell_name(shell: ShellType) -> Seq<char> {
    match shell {
        ShellType::Bash => "Bash"@,
        ShellType::Zsh => "Zsh"@,
        ShellType::Fish => "Fish"@,
        ShellType::PowerShell => "PowerShell"@,
        ShellType::Cmd => "CMD"@,
        ShellType::Sh => "sh"@,
        ShellType::Unknown => "shell"@,
    }
}

impl ShellType {
    /// A name for the shell that people read.
    pub fn name(&self) -> (s: &'static str)
        ensures
            s@ == shell_name(*self),
    {
        match self {
            ShellType::Bash => "Bash",
            ShellType::Zsh => "Zsh",
            ShellType::Fish => "Fish",
            ShellType::PowerShell => "PowerShell",
            ShellType::Cmd => "CMD",
            ShellType::Sh => "sh",
            ShellType::Unknown => "shell",
        }
    }
}

/// The system that the program runs on.
#[derive(Debug, Clone, Copy, PartialEq, Eq, Structural)]
pub enum TargetOs {
    MacOs,
    Linux,
    Windows,
    Other,
}

/// The name of each system as it is shown.
pub open spec fn os_label(os: TargetOs) -> Seq<char> {
    match os {
        TargetOs::MacOs => "macOS"@,
        TargetOs::Linux => "Linux"@,
        TargetOs::Windows => "Windows"@,
        TargetOs::Other => "Unix"@,
    }
}

/// A name for the system that people read.
pub fn os_name(os: TargetOs) -> (s: &'static str)
    ensures
        s@ == os_label(os),
{
    match os {
        TargetOs::MacOs => "macOS",
        TargetOs::Linux => "Linux",
        TargetOs::Windows => "Windows",
        TargetOs::Other => "Unix",
    }
}

/// The text in lower case, as `str::to_lowercase` gives it.
pub uninterp spec fn lowercase(text: Seq<char>) -> Seq<char>;

/// `str::to_lowercase` of std: each character's lowercase mapping by
/// Unicode's tables, a pure function of the text, which is named here.
#[verifier::external_body]
fn to_lower(text: &str) -> (out: String)
    ensures
        out@ == lowercase(text@),
{
    text.to_lowercase()
}

/// Whether `needle` occurs in `hay` at index `i`.
pub open spec fn occurs_at(hay: Seq<char>, needle: Seq<char>, i: int) -> bool {
    0 <= i && i + needle.len() <= hay.len() && hay.subrange(i, i + needle.len()) == needle
}

/// Whether `needle` occurs in `hay`.
pub open spec fn contains(hay: Seq<char>, needle: Seq<char>) -> bool {
    exists|i: int| occurs_at(hay, needle, i)
}

/// Whether `hay` ends with `needle`.
pub open spec fn ends_with(hay: Seq<char>, needle: Seq<char>) -> bool {
    occurs_at(hay, needle, hay.len() - needle.len())
}

/// Whether `needle` occurs in `hay` at index `i`.
pub fn occurs_at_of(hay: &Vec<char>, needle: &Vec<char>, i: usize) -> (b: bool)
    ensures
        b == occurs_at(hay@, needle@, i as int),
{
    if i > hay.len() || hay.len() - i < needle.len() {
        return false;
    }
    let mut k: usize = 0;
    while k < needle.len()
        invariant
            k <= needle.len(),
            i + needle.len() <= hay.len(),
            forall|j: int| 0 <= j < k ==> hay@[i + j] == needle@[j],
        decreases needle.len() - k,
    {
        if hay[i + k] != needle[k] {
            assert(hay@.subrange(i as int, i + needle.len())[k as int] != needle@[k as int]);
            return false;
        }
        k += 1;
    }
    assert(hay@.subrange(i as int, i + needle.len()) =~= needle@);
    true
}

/// Whether `needle` occurs in `hay`.
pub fn contains_of(hay: &Vec<char>, needle: &Vec<char>) -> (b: bool)
    ensures
        b == contains(hay@, needle@),
{
    let mut i: usize = 0;
    while i < hay.len()
        invariant
            i <= hay.len(),
            forall|j: int| 0 <= j < i ==> !occurs_at(hay@, needle@, j),
        decreases hay.len() - i,
    {
        if occurs_at_of(hay, needle, i) {
            return true;
        }
        i += 1;
    }
    occurs_at_of(hay, needle, i)
}

/// What the environment says about the shell.
pub struct ShellEnv {
    /// The value of `SHELL`, if set.
    pub shell: Option<String>,
    /// The name of the parent process, if known.
    pub parent: Option<String>,
    /// Whether `PSModulePath` is set.
    pub powershell: bool,
    /// The value of `COMSPEC`, if set.
    pub comspec: Option<String>,
}

/// The family of the system, which decides where to look for the shell.
#[derive(Debug, Clone, Copy, PartialEq, Eq, Structural)]
pub enum Platform {
    Unix,
    Windows,
    Other,
}

/// The shell that a name mentions: zsh before bash before fish.
pub open spec fn shell_in(name: Seq<char>) -> ShellType {
    if contains(name, "zsh"@) {
        ShellType::Zsh
    } else if contains(name, "bash"@) {
        ShellType::Bash
    } else if contains(name, "fish"@) {
        ShellType::Fish
    } else {
        ShellType::Unknown
    }
}

/// The shell on a Unix system: what `SHELL` mentions, in lower case, or
/// `sh` if it ends in `/sh`; failing that, what the parent process's name
/// mentions.
pub open spec fn unix_shell(shell: Option<Seq<char>>, parent: Option<Seq<char>>) -> ShellType {
    let by_var = match shell {
        Some(s) => if shell_in(lowercase(s)) != ShellType::Unknown {
            shell_in(lowercase(s))
        } else if ends_with(lowercase(s), "/sh"@) {
            ShellType::Sh
        } else {
            ShellType::Unknown
        },
        None => ShellType::Unknown,
    };
    if by_var != ShellType::Unknown {
        by_var
    } else {
        match parent {
            Some(p) => shell_in(lowercase(p)),
            None => ShellType::Unknown,
        }
    }
}

/// The shell on Windows: PowerShell where its module path is set; else
/// CMD where `COMSPEC` names it; else bash or zsh where `SHELL` mentions
/// one; else CMD.
pub open spec fn windows_shell(
    powershell: bool,
    comspec: Option<Seq<char>>,
    shell: Option<Seq<char>>,
) -> ShellType {
    if powershell {
        ShellType::PowerShell
    } else if comspec is Some && contains(lowercase(comspec.unwrap()), "cmd.exe"@) {
        ShellType::Cmd
    } else if shell is Some && contains(lowercase(shell.unwrap()), "bash"@) {
        ShellType::Bash
    } else if shell is Some && contains(lowercase(shell.unwrap()), "zsh"@) {
        ShellType::Zsh
    } else {
        ShellType::Cmd
    }
}

/// The view of an optional string.
pub open spec fn opt_view(s: Option<String>) -> Option<Seq<char>> {
    match s {
        Some(t) => Some(t@),
        None => None,
    }
}

/// The shell that a lower-case name mentions.
pub fn shell_in_of(name: &Vec<char>) -> (shell: ShellType)
    ensures
        shell == shell_in(name@),
{
    if contains_of(name, &chars_of("zsh")) {
        ShellType::Zsh
    } else if contains_of(name, &chars_of("bash")) {
        ShellType::Bash
    } else if contains_of(name, &chars_of("fish")) {
        ShellType::Fish
    } else {
        ShellType::Unknown
    }
}

/// The shell on a Unix system.
pub fn detect_unix_shell(shell: &Option<String>, parent: &Option<String>) -> (found: ShellType)
    ensures
        found == unix_shell(opt_view(*shell), opt_view(*parent)),
{
    match shell {
        Some(s) => {
            let lower = chars_of(to_lower(s.as_str()).as_str());
            let named = shell_in_of(&lower);
            match named {
                ShellType::Unknown => {
                    let suffix = chars_of("/sh");
                    proof {
                        reveal_strlit("/sh");
                    }
                    if lower.len() >= 3 && occurs_at_of(&lower, &suffix, lower.len() - 3) {
                        return ShellType::Sh;
                    }
                },
                _ => {
                    return named;
                },
            }
        },
        None => {},
    }
    match parent {
        Some(p) => {
            let lower = chars_of(to_lower(p.as_str()).as_str());
            shell_in_of(&lower)
        },
        None => ShellType::Unknown,
    }
}

/// The shell on Windows.
pub fn detect_windows_shell(powershell: bool, comspec: &Option<String>, shell: &Option<String>) -> (found:
    ShellType)
    ensures
        found == windows_shell(powershell, opt_view(*comspec), opt_view(*shell)),
{
    if powershell {
        return ShellType::PowerShell;
    }
    match comspec {
        Some(c) => {
            let lower = chars_of(to_lower(c.as_str()).as_str());
            if contains_of(&lower, &chars_of("cmd.exe")) {
                return ShellType::Cmd;
            }
        },
        None => {},
    }
    match shell {
        Some(s) => {
            let lower = chars_of(to_lower(s.as_str()).as_str());
            if contains_of(&lower, &chars_of("bash")) {
                return ShellType::Bash;
            } else if contains_of(&lower, &chars_of("zsh")) {
                return ShellType::Zsh;
            }
        },
        None => {},
    }
    ShellType::Cmd
}

/// The shell in use, from what the environment says on the given platform.
pub fn detect_shell(platform: Platform, env: &ShellEnv) -> (found: ShellType)
    ensures
        found == match platform {
            Platform::Unix => unix_shell(opt_view(env.shell), opt_view(env.parent)),
            Platform::Windows => windows_shell(
                env.powershell,
                opt_view(env.comspec),
                opt_view(env.shell),
            ),
            Platform::Other => ShellType::Unknown,
        },
{
    match platform {
        Platform::Unix => detect_unix_shell(&env.shell, &env.parent),
        Platform::Windows => detect_windows_shell(env.powershell, &env.comspec, &env.shell),
        Platform::Other => ShellType::Unknown,
    }
}

} // verus!
