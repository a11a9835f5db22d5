use vstd::prelude::*;
use crate::color::CrabFetchColor;
use crate::config::Configuration;
use crate::module::{entry_styled, module_styled, style_entry, style_module, ModuleError};
use crate::text::{append_str, copy_str, replace_str, seq_contains, seq_replace, str_contains};
use crate::util::{bit_if, flag_set, is_flag_set_u32, lemma_flags2, lemma_flags3};
use crate::color::{lowercase, to_lowercase};
use crate::process_info::ProcessFacts;
use crate::text::{last_piece, seq_split, str_eq};
use crate::util::{path_file_name, plain_file_name, which_answer, which_path};
use crate::versions::version_or_unknown;

verus! {

/// The shell: its name, path and version.
pub struct ShellInfo {
    pub name: String,
    pub path: String,
    pub version: String,
}

/// The options of the shell entry.
pub struct ShellConfiguration {
    pub title: String,
    pub title_color: Option<CrabFetchColor>,
    pub title_bold: Option<bool>,
    pub title_italic: Option<bool>,
    pub separator: Option<String>,
    pub format: String,
    pub show_default_shell: bool,
}

/// Set when the name is needed.
pub const SHELL_INFOFLAG_NAME: u32 = 1;
/// Set when the path is needed.
pub const SHELL_INFOFLAG_PATH: u32 = 2;
/// Set when the version is needed.
pub const SHELL_INFOFLAG_VERSION: u32 = 4;

impl ShellInfo {
    /// Text with its placeholders filled in.
    pub open spec fn filled(&self, text: Seq<char>) -> Seq<char> {
        seq_replace(seq_replace(seq_replace(text, "{name}"@, self.name@), "{path}"@, self.path@), "{version}"@, self.version@)
    }

    /// Everything unknown.
    pub fn new() -> (r: ShellInfo)
        ensures
            r.name@ == "Unknown"@,
            r.path@ == "Unknown"@,
            r.version@ == "Unknown"@,
    {
        ShellInfo { name: copy_str("Unknown"), path: copy_str("Unknown"), version: copy_str("Unknown") }
    }

    /// Fills the placeholders of `text`.
    pub fn replace_placeholders(&self, text: &str, _config: &Configuration) -> (r: String)
        ensures
            r@ == self.filled(text@),
    {
        proof {
            reveal_strlit("{name}");
            reveal_strlit("{path}");
            reveal_strlit("{version}");
        }
        let t0 = replace_str(text, "{name}", self.name.as_str());
        let t1 = replace_str(t0.as_str(), "{path}", self.path.as_str());
        let t2 = replace_str(t1.as_str(), "{version}", self.version.as_str());
        t2
    }

    /// The details that `format` asks for.
    pub fn gen_info_flags(format: &str) -> (r: u32)
        ensures
            r == bit_if(seq_contains(format@, "{name}"@) || seq_contains(format@, "{version}"@), SHELL_INFOFLAG_NAME) + bit_if(seq_contains(format@, "{name}"@) || seq_contains(format@, "{path}"@) || seq_contains(format@, "{version}"@), SHELL_INFOFLAG_PATH) + bit_if(seq_contains(format@, "{version}"@), SHELL_INFOFLAG_VERSION),
            flag_set(r, SHELL_INFOFLAG_NAME) == (seq_contains(format@, "{name}"@) || seq_contains(format@, "{version}"@)),
            flag_set(r, SHELL_INFOFLAG_PATH) == (seq_contains(format@, "{name}"@) || seq_contains(format@, "{path}"@) || seq_contains(format@, "{version}"@)),
            flag_set(r, SHELL_INFOFLAG_VERSION) == (seq_contains(format@, "{version}"@)),
    {
        let has_name = str_contains(format, "{name}");
        let has_path = str_contains(format, "{path}");
        let has_version = str_contains(format, "{version}");
        let mut info_flags: u32 = 0;
        if has_name || has_version {
            info_flags = info_flags + SHELL_INFOFLAG_NAME;
        }
        if has_name || has_path || has_version {
            info_flags = info_flags + SHELL_INFOFLAG_PATH;
        }
        if has_version {
            info_flags = info_flags + SHELL_INFOFLAG_VERSION;
        }
        proof {
            lemma_flags3(info_flags, seq_contains(format@, "{name}"@) || seq_contains(format@, "{version}"@), seq_contains(format@, "{name}"@) || seq_contains(format@, "{path}"@) || seq_contains(format@, "{version}"@), seq_contains(format@, "{version}"@));
        }
        info_flags
    }

    /// The entry: title and format with the placeholders filled in.
    pub fn style(&self, config: &Configuration) -> (r: (String, String))
        ensures
            module_styled(
                r,
                *config,
                config.shell.title_color,
                config.shell.title_bold,
                config.shell.title_italic,
                config.shell.separator,
                self.filled(config.shell.title@),
                self.filled(config.shell.format@),
            ),
    {
        let title = self.replace_placeholders(config.shell.title.as_str(), config);
        let value = self.replace_placeholders(config.shell.format.as_str(), config);
        style_module(
            config,
            &config.shell.title_color,
            config.shell.title_bold,
            config.shell.title_italic,
            &config.shell.separator,
            title.as_str(),
            value.as_str(),
        )
    }

    /// The entry when nothing could be found: `Unknown` in the title's placeholders and as the value.
    pub fn unknown_output(config: &Configuration) -> (r: (String, String))
        ensures
            entry_styled(
                r,
                *config,
                config.shell.title_color,
                config.shell.title_bold,
                config.shell.title_italic,
                config.shell.separator,
                seq_replace(seq_replace(seq_replace(seq_replace(config.shell.title@, "{name}"@, "Unknown"@), "{path}"@, "Unknown"@), "{version}"@, "Unknown"@), "{percentage}"@, "Unknown"@),
                "Unknown"@,
            ),
    {
        proof {
            reveal_strlit("{name}");
            reveal_strlit("{path}");
            reveal_strlit("{version}");
            reveal_strlit("{percentage}");
        }
        let u0 = replace_str(config.shell.title.as_str(), "{name}", "Unknown");
        let u1 = replace_str(u0.as_str(), "{path}", "Unknown");
        let u2 = replace_str(u1.as_str(), "{version}", "Unknown");
        let u3 = replace_str(u2.as_str(), "{percentage}", "Unknown");
        style_entry(
            config,
            &config.shell.title_color,
            config.shell.title_bold,
            config.shell.title_italic,
            &config.shell.separator,
            u3.as_str(),
            "Unknown",
        )
    }
}


/// One of the known shells, by lowercase name; the search for the shell goes up the parent processes until it meets one.
pub open spec fn known_shell(name: Seq<char>) -> bool {
    name == "bash"@ || name == "dash"@ || name == "ksh"@ || name == "nsh"@ || name == "oil"@ || name == "yash"@ || name == "zsh"@ || name == "tcsh"@ || name == "closh"@ || name == "elvish"@ || name == "fish"@ || name == "nu"@ || name == "ion"@ || name == "murex"@ || name == "nushell"@ || name == "oh"@ || name == "powershell"@ || name == "9base"@ || name == "xonsh"@
}

/// Whether `name` is one of the known shells.
pub fn is_known_shell_name(name: &str) -> (r: bool)
    ensures
        r == known_shell(name@),
{
    str_eq(name, "bash") || str_eq(name, "dash") || str_eq(name, "ksh") || str_eq(name, "nsh") || str_eq(name, "oil") || str_eq(name, "yash") || str_eq(name, "zsh") || str_eq(name, "tcsh") || str_eq(name, "closh") || str_eq(name, "elvish") || str_eq(name, "fish") || str_eq(name, "nu") || str_eq(name, "ion") || str_eq(name, "murex") || str_eq(name, "nushell") || str_eq(name, "oh") || str_eq(name, "powershell") || str_eq(name, "9base") || str_eq(name, "xonsh")
}

/// Whether a process name belongs to a known shell, ignoring case.
pub fn is_known_shell(name: &str) -> (r: bool)
    ensures
        r == known_shell(lowercase(name@)),
{
    let lower = to_lowercase(name);
    is_known_shell_name(lower.as_str())
}

/// The message when the search for the shell goes on too long.
pub open spec fn shell_limit_message() -> Seq<char> {
    "Shell parent process loop ran for more than 10 iterations! Either I'm in a infinite loop, or you're >10 subprocesses deep, in which case you're a moron."@
}

/// Where the search for the shell ends, from level `i` of the parent chain: the level of the
/// first known shell, or the error met on the way.
pub open spec fn shell_walk(facts: Seq<ProcessFacts>, i: int) -> Result<int, Seq<char>>
    decreases 10 - i,
{
    if i >= 10 || i < 0 {
        Err(shell_limit_message())
    } else if i >= facts.len() {
        Err(Seq::<char>::empty())
    } else {
        match facts[i].name {
            Err(e) => Err("Failed to find process name: "@ + e@),
            Ok(n) => if known_shell(lowercase(n@)) {
                Ok(i)
            } else {
                match facts[i].parent {
                    Err(e) => Err("Unable to get parent process: "@ + e@),
                    Ok(_) => shell_walk(facts, i + 1),
                }
            },
        }
    }
}

/// The chain of parents was followed as far as the search needs it.
pub open spec fn shell_walk_covered(facts: Seq<ProcessFacts>, i: int) -> bool
    decreases 10 - i,
{
    if i >= 10 || i < 0 {
        true
    } else if i >= facts.len() {
        false
    } else {
        match facts[i].name {
            Err(_) => true,
            Ok(n) => known_shell(lowercase(n@)) || match facts[i].parent {
                Err(_) => true,
                Ok(_) => shell_walk_covered(facts, i + 1),
            },
        }
    }
}

/// The shell from the chain of parent processes (`ancestors`, from this program's parent up):
/// the first whose name, ignoring case, is a known shell. With `show_default_shell`, the shell
/// comes from `$SHELL` instead (see `get_default_shell`).
pub fn get_shell(config: &Configuration, ancestors: &Vec<ProcessFacts>, shell_env: Result<String, String>) -> (r: Result<ShellInfo, ModuleError>)
    requires
        !config.shell.show_default_shell ==> shell_walk_covered(ancestors@, 0),
    ensures
        !config.shell.show_default_shell ==> match shell_walk(ancestors@, 0) {
            Err(m) => r matches Err(e) && e.module_name@ == "Shell"@ && e.message@ == m,
            Ok(i) => {
                let wants_path = seq_contains(config.shell.format@, "{name}"@) || seq_contains(config.shell.format@, "{path}"@)
                    || seq_contains(config.shell.format@, "{version}"@);
                if wants_path && ancestors@[i].exe is Err {
                    r matches Err(e) && e.module_name@ == "Shell"@ && e.message@ == "Failed to find exe path: "@
                        + ancestors@[i].exe->Err_0@
                } else {
                    r matches Ok(s) && s.name@ == ancestors@[i].name->Ok_0@ && s.path@ == (if wants_path {
                        ancestors@[i].exe->Ok_0@
                    } else {
                        "Unknown"@
                    }) && s.version@ == "Unknown"@
                }
            },
        },
        config.shell.show_default_shell && shell_env is Err && (seq_contains(config.shell.format@, "{name}"@)
            || seq_contains(config.shell.format@, "{path}"@) || seq_contains(config.shell.format@, "{version}"@))
            ==> (r matches Err(e) && e.module_name@ == "Shell"@ && e.message@ == "Could not parse $SHELL env variable: "@
            + shell_env->Err_0@),
{
    let info_flags = ShellInfo::gen_info_flags(config.shell.format.as_str());
    if config.shell.show_default_shell {
        return get_default_shell(config, shell_env);
    }
    let mut shell = ShellInfo::new();
    let mut i: usize = 0;
    loop
        invariant
            0 <= i <= 10,
            shell_walk(ancestors@, 0) == shell_walk(ancestors@, i as int),
            shell_walk_covered(ancestors@, i as int),
            !config.shell.show_default_shell,
            flag_set(info_flags, SHELL_INFOFLAG_PATH) == (seq_contains(config.shell.format@, "{name}"@)
                || seq_contains(config.shell.format@, "{path}"@) || seq_contains(config.shell.format@, "{version}"@)),
            shell.name@ == "Unknown"@,
            shell.path@ == "Unknown"@,
            shell.version@ == "Unknown"@,
        decreases 10 - i,
    {
        if i >= 10 {
            return Err(ModuleError::new("Shell", copy_str("Shell parent process loop ran for more than 10 iterations! Either I'm in a infinite loop, or you're >10 subprocesses deep, in which case you're a moron.")));
        }
        let facts = &ancestors[i];
        assert(*facts == ancestors@[i as int]);
        let name: String = match &facts.name {
            Ok(n) => copy_str(n.as_str()),
            Err(e) => {
                let mut m = copy_str("Failed to find process name: ");
                append_str(&mut m, e.as_str());
                return Err(ModuleError::new("Shell", m));
            },
        };
        if !is_known_shell(name.as_str()) {
            match &facts.parent {
                Ok(_) => {},
                Err(e) => {
                    let mut m = copy_str("Unable to get parent process: ");
                    append_str(&mut m, e.as_str());
                    return Err(ModuleError::new("Shell", m));
                },
            }
            i += 1;
            continue;
        }
        shell.name = name;
        if is_flag_set_u32(info_flags, SHELL_INFOFLAG_PATH) {
            shell.path = match &facts.exe {
                Ok(p) => copy_str(p.as_str()),
                Err(e) => {
                    let mut m = copy_str("Failed to find exe path: ");
                    append_str(&mut m, e.as_str());
                    return Err(ModuleError::new("Shell", m));
                },
            };
        }
        return Ok(shell);
    }
}

/// The shell named by `$SHELL` (`shell_env`), looked up in `$PATH`; see
/// `default_shell_from_lookup`, which gets what the lookup gave. The value of `$SHELL` is what is
/// handed to the lookup, so the name shown is its file name. Where the lookup finds the shell
/// depends on the environment and is not stated.
pub fn get_default_shell(config: &Configuration, shell_env: Result<String, String>) -> (r: Result<ShellInfo, ModuleError>)
    ensures
        exists|which: Result<String, String>|
            {
                &&& default_shell_outcome(*config, shell_env, which, r)
                &&& shell_env matches Ok(v) ==> which_answer(v@, which)
            },
        shell_env matches Ok(v) ==> (r matches Ok(sh) ==> ((seq_contains(config.shell.format@, "{name}"@)
            || seq_contains(config.shell.format@, "{version}"@)) && plain_file_name(path_file_name(v@))
            ==> sh.name@ == path_file_name(v@))),
{
    let which: Result<String, String> = match &shell_env {
        Ok(v) => which_path(v.as_str()),
        Err(_) => Err(String::new()),
    };
    let r = default_shell_from_lookup(config, shell_env, which);
    assert(default_shell_outcome(*config, shell_env, which, r));
    r
}

/// What the default-shell entry gives for the format's wants, the `$SHELL` value and the
/// result of looking it up on the `PATH` (`which`).
pub open spec fn default_shell_outcome(
    config: Configuration,
    shell_env: Result<String, String>,
    which: Result<String, String>,
    r: Result<ShellInfo, ModuleError>,
) -> bool {
    let fmt = config.shell.format@;
    let wants_path = seq_contains(fmt, "{name}"@) || seq_contains(fmt, "{path}"@) || seq_contains(fmt, "{version}"@);
    let wants_name = seq_contains(fmt, "{name}"@) || seq_contains(fmt, "{version}"@);
    if wants_path && shell_env is Err {
        r matches Err(e) && e.module_name@ == "Shell"@ && e.message@ == "Could not parse $SHELL env variable: "@
            + shell_env->Err_0@
    } else if wants_path && which is Err {
        r matches Err(e) && e.module_name@ == "Shell"@ && e.message@ == "Could not find 'which' for "@
            + shell_env->Ok_0@ + ": "@ + which->Err_0@
    } else {
        r matches Ok(s) && s.path@ == (if wants_path {
            which->Ok_0@
        } else {
            "Unknown"@
        }) && s.name@ == (if wants_name {
            seq_split(s.path@, '/').last()
        } else {
            "Unknown"@
        }) && s.version@ == "Unknown"@
    }
}

/// The shell named by `$SHELL` (`shell_env`) and what looking it up in `$PATH` gave (`which`),
/// as the format asks for it.
pub fn default_shell_from_lookup(
    config: &Configuration,
    shell_env: Result<String, String>,
    which: Result<String, String>,
) -> (r: Result<ShellInfo, ModuleError>)
    ensures
        default_shell_outcome(*config, shell_env, which, r),
{
    let mut shell = ShellInfo::new();
    let info_flags = ShellInfo::gen_info_flags(config.shell.format.as_str());
    if is_flag_set_u32(info_flags, SHELL_INFOFLAG_PATH) {
        let env_value = match shell_env {
            Ok(v) => v,
            Err(e) => {
                let mut m = copy_str("Could not parse $SHELL env variable: ");
                append_str(&mut m, e.as_str());
                return Err(ModuleError::new("Shell", m));
            },
        };
        shell.path = match which {
            Ok(p) => p,
            Err(e) => {
                let mut m = copy_str("Could not find 'which' for ");
                append_str(&mut m, env_value.as_str());
                append_str(&mut m, ": ");
                append_str(&mut m, e.as_str());
                return Err(ModuleError::new("Shell", m));
            },
        };
    }
    if is_flag_set_u32(info_flags, SHELL_INFOFLAG_NAME) {
        shell.name = last_piece(shell.path.as_str(), '/');
    }
    Ok(shell)
}

/// Finishes the shell with its version when the format shows it (`version`, or `Unknown` when
/// none was found).
pub fn complete_shell(shell: ShellInfo, config: &Configuration, version: Option<String>) -> (r: ShellInfo)
    ensures
        r.name == shell.name,
        r.path == shell.path,
        r.version@ == (if seq_contains(config.shell.format@, "{version}"@) {
            match version {
                Some(v) => v@,
                None => "Unknown"@,
            }
        } else {
            shell.version@
        }),
{
    let mut shell = shell;
    let info_flags = ShellInfo::gen_info_flags(config.shell.format.as_str());
    if is_flag_set_u32(info_flags, SHELL_INFOFLAG_VERSION) {
        shell.version = version_or_unknown(version);
    }
    shell
}

} // verus!
