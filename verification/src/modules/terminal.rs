use vstd::prelude::*;
use crate::color::CrabFetchColor;
use crate::config::Configuration;
use crate::module::{entry_styled, module_styled, style_entry, style_module, ModuleError};
use crate::text::{append_str, copy_str, replace_str, seq_contains, seq_replace, str_contains};
use crate::util::{bit_if, flag_set, is_flag_set_u32, lemma_flags2, lemma_flags3};
use crate::process_info::ProcessFacts;
use crate::text::{seq_trim, str_eq, trim};
use crate::versions::version_or_unknown;

verus! {

/// The terminal emulator: its name, path and version.
pub struct TerminalInfo {
    pub name: String,
    pub path: String,
    pub version: String,
}

/// The options of the terminal entry.
pub struct TerminalConfiguration {
    pub title: String,
    pub format: String,
    pub title_color: Option<CrabFetchColor>,
    pub title_bold: Option<bool>,
    pub title_italic: Option<bool>,
    pub separator: Option<String>,
    pub chase_ssh_pts: bool,
}

/// Set when the name is needed.
pub const TERM_INFOFLAG_NAME: u32 = 1;
/// Set when the path is needed.
pub const TERM_INFOFLAG_PATH: u32 = 2;
/// Set when the version is needed.
pub const TERM_INFOFLAG_VERSION: u32 = 4;

impl TerminalInfo {
    /// Text with its placeholders filled in.
    pub open spec fn filled(&self, text: Seq<char>) -> Seq<char> {
        seq_replace(seq_replace(seq_replace(text, "{name}"@, self.name@), "{path}"@, self.path@), "{version}"@, self.version@)
    }

    /// Everything unknown.
    pub fn new() -> (r: TerminalInfo)
        ensures
            r.name@ == "Unknown"@,
            r.path@ == "Unknown"@,
            r.version@ == "Unknown"@,
    {
        TerminalInfo { name: copy_str("Unknown"), path: copy_str("Unknown"), version: copy_str("Unknown") }
    }

    /// Fills the placeholders of `text`.
    pub fn replace_placeholders(&self, text: &str, _config: &Configuration) -> (r: String)
        ensures
            r@ == self.filled(text@),
    {
        proof {
            reveal_strlit("{name}");
            reveal_strlit("{path}");
            reveal_strlit("{version}");
        }
        let t0 = replace_str(text, "{name}", self.name.as_str());
        let t1 = replace_str(t0.as_str(), "{path}", self.path.as_str());
        let t2 = replace_str(t1.as_str(), "{version}", self.version.as_str());
        t2
    }

    /// The details that `format` asks for.
    pub fn gen_info_flags(format: &str) -> (r: u32)
        ensures
            r == bit_if(seq_contains(format@, "{name}"@) || seq_contains(format@, "{version}"@), TERM_INFOFLAG_NAME) + bit_if(seq_contains(format@, "{name}"@) || seq_contains(format@, "{path}"@) || seq_contains(format@, "{version}"@), TERM_INFOFLAG_PATH) + bit_if(seq_contains(format@, "{version}"@), TERM_INFOFLAG_VERSION),
            flag_set(r, TERM_INFOFLAG_NAME) == (seq_contains(format@, "{name}"@) || seq_contains(format@, "{version}"@)),
            flag_set(r, TERM_INFOFLAG_PATH) == (seq_contains(format@, "{name}"@) || seq_contains(format@, "{path}"@) || seq_contains(format@, "{version}"@)),
            flag_set(r, TERM_INFOFLAG_VERSION) == (seq_contains(format@, "{version}"@)),
    {
        let has_name = str_contains(format, "{name}");
        let has_path = str_contains(format, "{path}");
        let has_version = str_contains(format, "{version}");
        let mut info_flags: u32 = 0;
        if has_name || has_version {
            info_flags = info_flags + TERM_INFOFLAG_NAME;
        }
        if has_name || has_path || has_version {
            info_flags = info_flags + TERM_INFOFLAG_PATH;
        }
        if has_version {
            info_flags = info_flags + TERM_INFOFLAG_VERSION;
        }
        proof {
            lemma_flags3(info_flags, seq_contains(format@, "{name}"@) || seq_contains(format@, "{version}"@), seq_contains(format@, "{name}"@) || seq_contains(format@, "{path}"@) || seq_contains(format@, "{version}"@), seq_contains(format@, "{version}"@));
        }
        info_flags
    }

    /// The entry: title and format with the placeholders filled in.
    pub fn style(&self, config: &Configuration) -> (r: (String, String))
        ensures
            module_styled(
                r,
                *config,
                config.terminal.title_color,
                config.terminal.title_bold,
                config.terminal.title_italic,
                config.terminal.separator,
                self.filled(config.terminal.title@),
                self.filled(config.terminal.format@),
            ),
    {
        let title = self.replace_placeholders(config.terminal.title.as_str(), config);
        let value = self.replace_placeholders(config.terminal.format.as_str(), config);
        style_module(
            config,
            &config.terminal.title_color,
            config.terminal.title_bold,
            config.terminal.title_italic,
            &config.terminal.separator,
            title.as_str(),
            value.as_str(),
        )
    }

    /// The entry when nothing could be found: `Unknown` in the title's placeholders and as the value.
    pub fn unknown_output(config: &Configuration) -> (r: (String, String))
        ensures
            entry_styled(
                r,
                *config,
                config.terminal.title_color,
                config.terminal.title_bold,
                config.terminal.title_italic,
                config.terminal.separator,
                seq_replace(seq_replace(seq_replace(config.terminal.title@, "{name}"@, "Unknown"@), "{path}"@, "Unknown"@), "{version}"@, "Unknown"@),
                "Unknown"@,
            ),
    {
        proof {
            reveal_strlit("{name}");
            reveal_strlit("{path}");
            reveal_strlit("{version}");
        }
        let u0 = replace_str(config.terminal.title.as_str(), "{name}", "Unknown");
        let u1 = replace_str(u0.as_str(), "{path}", "Unknown");
        let u2 = replace_str(u1.as_str(), "{version}", "Unknown");
        style_entry(
            config,
            &config.terminal.title_color,
            config.terminal.title_bold,
            config.terminal.title_italic,
            &config.terminal.separator,
            u2.as_str(),
            "Unknown",
        )
    }
}


/// One of the known terminal emulators; the search for the terminal goes up the parent
/// processes until it meets one.
pub open spec fn known_term(name: Seq<char>) -> bool {
    name == "alacritty"@ || name == "fbpad"@ || name == "fbterm"@ || name == "foot"@ || name == "guake"@ || name == "kitty"@ || name == "konsole"@ || name == "rxvt"@ || name == "st"@ || name == "terminator"@ || name == "termite"@ || name == "tmuxp"@ || name == "xterm"@ || name == "yakuake"@ || name == "tilix"@ || name == "hyper"@ || name == "wezterm"@ || name == "gnome-terminal-server"@ || name == "qterminal"@ || name == "tmux"@
}

/// Whether `name` is one of the known terminal emulators.
pub fn is_known_term(name: &str) -> (r: bool)
    ensures
        r == known_term(name@),
{
    str_eq(name, "alacritty") || str_eq(name, "fbpad") || str_eq(name, "fbterm") || str_eq(name, "foot") || str_eq(name, "guake") || str_eq(name, "kitty") || str_eq(name, "konsole") || str_eq(name, "rxvt") || str_eq(name, "st") || str_eq(name, "terminator") || str_eq(name, "termite") || str_eq(name, "tmuxp") || str_eq(name, "xterm") || str_eq(name, "yakuake") || str_eq(name, "tilix") || str_eq(name, "hyper") || str_eq(name, "wezterm") || str_eq(name, "gnome-terminal-server") || str_eq(name, "qterminal") || str_eq(name, "tmux")
}

/// The message when the search for the terminal goes on too long.
pub open spec fn terminal_limit_message() -> Seq<char> {
    "Terminal PID loop ran for more than 10 iterations! Either I'm in a infinite loop, or you're >10 shells deep, in which case you're a moron."@
}

/// Where the search for the terminal ends, from level `i` of the parent chain: the level of the
/// first known terminal, or the error met on the way.
pub open spec fn terminal_walk(facts: Seq<ProcessFacts>, i: int) -> Result<int, Seq<char>>
    decreases 11 - i,
{
    if i > 10 || i < 0 {
        Err(terminal_limit_message())
    } else if i >= facts.len() {
        Err(Seq::<char>::empty())
    } else {
        match facts[i].name {
            Err(e) => Err("Can't get process name: "@ + e@),
            Ok(n) => if known_term(n@) {
                Ok(i)
            } else {
                match facts[i].parent {
                    Err(e) => Err("Can't get parent process: "@ + e@),
                    Ok(_) => terminal_walk(facts, i + 1),
                }
            },
        }
    }
}

/// The chain of parents was followed as far as the search needs it.
pub open spec fn terminal_walk_covered(facts: Seq<ProcessFacts>, i: int) -> bool
    decreases 11 - i,
{
    if i > 10 || i < 0 {
        true
    } else if i >= facts.len() {
        false
    } else {
        match facts[i].name {
            Err(_) => true,
            Ok(n) => known_term(n@) || match facts[i].parent {
                Err(_) => true,
                Ok(_) => terminal_walk_covered(facts, i + 1),
            },
        }
    }
}

/// The name shown for the terminal process `name`: GNOME's and elementary's servers get their
/// product names, and an SSH session is shown as such, or as the terminal device of standard
/// input (`stdin_tty`) when `chase_ssh_pts` asks for it.
pub open spec fn terminal_shown_name(name: Seq<char>, chase_ssh_pts: bool, stdin_tty: Result<String, String>) -> Result<Seq<char>, Seq<char>> {
    if seq_trim(name) == "gnome-terminal-server"@ {
        Ok("GNOME Terminal"@)
    } else if seq_trim(name) == "io.elementary.terminal"@ {
        Ok("Elementary Terminal"@)
    } else if seq_replace(seq_trim(name), seq!['\0'], Seq::<char>::empty()) == "sshd:"@ {
        if !chase_ssh_pts {
            Ok("SSH Terminal"@)
        } else {
            match stdin_tty {
                Ok(t) => Ok(t@),
                Err(e) => Err("Failed to canonicalize /proc/self/fd/0 symlink: "@ + e@),
            }
        }
    } else {
        Ok(name)
    }
}

/// The name shown for the terminal process `name`.
pub fn terminal_name(name: String, chase_ssh_pts: bool, stdin_tty: Result<String, String>) -> (r: Result<String, String>)
    ensures
        match terminal_shown_name(name@, chase_ssh_pts, stdin_tty) {
            Ok(n) => r matches Ok(x) && x@ == n,
            Err(m) => r matches Err(x) && x@ == m,
        },
{
    let trimmed = trim(name.as_str());
    let t: &str = trimmed.as_str();
    if str_eq(t, "gnome-terminal-server") {
        return Ok(copy_str("GNOME Terminal"));
    }
    if str_eq(t, "io.elementary.terminal") {
        return Ok(copy_str("Elementary Terminal"));
    }
    let nul: String = copy_str("\0");
    proof {
        reveal_strlit("\0");
    }
    assert(nul@ == seq!['\0']);
    let empty = String::new();
    let stripped = replace_str(t, nul.as_str(), empty.as_str());
    assert(stripped@ == seq_replace(seq_trim(name@), seq!['\0'], Seq::<char>::empty()));
    if str_eq(stripped.as_str(), "sshd:") {
        if !chase_ssh_pts {
            return Ok(copy_str("SSH Terminal"));
        }
        return match stdin_tty {
            Ok(tty) => Ok(tty),
            Err(e) => {
                let mut m = copy_str("Failed to canonicalize /proc/self/fd/0 symlink: ");
                append_str(&mut m, e.as_str());
                Err(m)
            },
        };
    }
    Ok(name)
}

/// The terminal from the chain of parent processes (`ancestors`, from this program's parent
/// up): the first that is a known terminal emulator. Under WSL it is Windows Terminal.
/// `stdin_tty` is what resolving `/proc/self/fd/0` gave, used for SSH sessions.
pub fn get_terminal(
    config: &Configuration,
    in_wsl: bool,
    ancestors: &Vec<ProcessFacts>,
    stdin_tty: Result<String, String>,
) -> (r: Result<TerminalInfo, ModuleError>)
    requires
        !in_wsl ==> terminal_walk_covered(ancestors@, 0),
    ensures
        in_wsl ==> (r matches Ok(t) && t.name@ == "Windows Terminal"@ && t.path@ == "N/A"@ && t.version@ == "N/A"@),
        !in_wsl ==> match terminal_walk(ancestors@, 0) {
            Err(m) => r matches Err(e) && e.module_name@ == "Terminal"@ && e.message@ == m,
            Ok(i) => {
                let fmt = config.terminal.format@;
                let wants_name = seq_contains(fmt, "{name}"@) || seq_contains(fmt, "{version}"@);
                let wants_path = seq_contains(fmt, "{name}"@) || seq_contains(fmt, "{path}"@) || seq_contains(fmt, "{version}"@);
                let raw = ancestors@[i].name->Ok_0@;
                let shown = terminal_shown_name(raw, config.terminal.chase_ssh_pts, stdin_tty);
                if !ancestors@[i].valid {
                    r matches Err(e) && e.module_name@ == "Terminal"@ && e.message@ == "Unable to find terminal process"@
                } else if wants_name && shown is Err {
                    r matches Err(e) && e.module_name@ == "Terminal"@ && e.message@ == shown->Err_0
                } else if wants_path && ancestors@[i].exe is Err {
                    r matches Err(e) && e.module_name@ == "Terminal"@ && e.message@ == "Can't get process exe: "@
                        + ancestors@[i].exe->Err_0@
                } else {
                    r matches Ok(t) && t.name@ == (if wants_name {
                        shown->Ok_0
                    } else {
                        raw
                    }) && t.path@ == (if wants_path {
                        ancestors@[i].exe->Ok_0@
                    } else {
                        "Unknown"@
                    }) && t.version@ == "Unknown"@
                }
            },
        },
{
    let mut terminal = TerminalInfo::new();
    let info_flags = TerminalInfo::gen_info_flags(config.terminal.format.as_str());
    if in_wsl {
        terminal.name = copy_str("Windows Terminal");
        terminal.path = copy_str("N/A");
        terminal.version = copy_str("N/A");
        return Ok(terminal);
    }
    let mut i: usize = 0;
    loop
        invariant
            0 <= i <= 11,
            !in_wsl,
            terminal_walk(ancestors@, 0) == terminal_walk(ancestors@, i as int),
            terminal_walk_covered(ancestors@, i as int),
            flag_set(info_flags, TERM_INFOFLAG_NAME) == (seq_contains(config.terminal.format@, "{name}"@)
                || seq_contains(config.terminal.format@, "{version}"@)),
            flag_set(info_flags, TERM_INFOFLAG_PATH) == (seq_contains(config.terminal.format@, "{name}"@)
                || seq_contains(config.terminal.format@, "{path}"@) || seq_contains(config.terminal.format@, "{version}"@)),
            terminal.path@ == "Unknown"@,
            terminal.version@ == "Unknown"@,
        decreases 11 - i,
    {
        if i > 10 {
            return Err(ModuleError::new("Terminal", copy_str("Terminal PID loop ran for more than 10 iterations! Either I'm in a infinite loop, or you're >10 shells deep, in which case you're a moron.")));
        }
        let facts = &ancestors[i];
        assert(*facts == ancestors@[i as int]);
        let name: String = match &facts.name {
            Ok(n) => copy_str(n.as_str()),
            Err(e) => {
                let mut m = copy_str("Can't get process name: ");
                append_str(&mut m, e.as_str());
                return Err(ModuleError::new("Terminal", m));
            },
        };
        if !is_known_term(name.as_str()) {
            match &facts.parent {
                Ok(_) => {},
                Err(e) => {
                    let mut m = copy_str("Can't get parent process: ");
                    append_str(&mut m, e.as_str());
                    return Err(ModuleError::new("Terminal", m));
                },
            }
            i += 1;
            continue;
        }
        if !facts.valid {
            return Err(ModuleError::new("Terminal", copy_str("Unable to find terminal process")));
        }
        terminal.name = name;
        if is_flag_set_u32(info_flags, TERM_INFOFLAG_NAME) {
            let n = copy_str(terminal.name.as_str());
            terminal.name = match terminal_name(n, config.terminal.chase_ssh_pts, stdin_tty) {
                Ok(x) => x,
                Err(m) => {
                    return Err(ModuleError::new("Terminal", m));
                },
            };
        }
        if is_flag_set_u32(info_flags, TERM_INFOFLAG_PATH) {
            terminal.path = match &facts.exe {
                Ok(p) => copy_str(p.as_str()),
                Err(e) => {
                    let mut m = copy_str("Can't get process exe: ");
                    append_str(&mut m, e.as_str());
                    return Err(ModuleError::new("Terminal", m));
                },
            };
        }
        return Ok(terminal);
    }
}

/// Finishes the terminal with its version when the format shows it (`version`, or `Unknown`
/// when none was found).
pub fn complete_terminal(terminal: TerminalInfo, config: &Configuration, version: Option<String>) -> (r: TerminalInfo)
    ensures
        r.name == terminal.name,
        r.path == terminal.path,
        r.version@ == (if seq_contains(config.terminal.format@, "{version}"@) {
            match version {
                Some(v) => v@,
                None => "Unknown"@,
            }
        } else {
            terminal.version@
        }),
{
    let mut terminal = terminal;
    let info_flags = TerminalInfo::gen_info_flags(config.terminal.format.as_str());
    if is_flag_set_u32(info_flags, TERM_INFOFLAG_VERSION) {
        terminal.version = version_or_unknown(version);
    }
    terminal
}

} // verus!
