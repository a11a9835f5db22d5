use vstd::prelude::*;
use crate::color::CrabFetchColor;
use crate::config::Configuration;
use crate::module::{entry_styled, module_styled, style_entry, style_module, ModuleError};
use crate::text::{append_str, copy_str, replace_str, seq_contains, seq_replace, str_contains};
use crate::util::{bit_if, flag_set, is_flag_set_u32, lemma_flags2, lemma_flags3};
use crate::text::{last_piece, seq_split, str_eq};
use crate::util::{path_file_name, plain_file_name, which_answer, which_path};
use crate::versions::version_or_unknown;

verus! {

/// The text editor: its name, path and version.
pub struct EditorInfo {
    pub name: String,
    pub path: String,
    pub version: String,
}

/// The options of the editor entry.
pub struct EditorConfiguration {
    pub title: String,
    pub title_color: Option<CrabFetchColor>,
    pub title_bold: Option<bool>,
    pub title_italic: Option<bool>,
    pub separator: Option<String>,
    pub format: String,
    pub fancy: bool,
}

/// Set when the name is needed.
pub const EDITOR_INFOFLAG_NAME: u32 = 1;
/// Set when the path is needed.
pub const EDITOR_INFOFLAG_PATH: u32 = 2;
/// Set when the version is needed.
pub const EDITOR_INFOFLAG_VERSION: u32 = 4;

impl EditorInfo {
    /// Text with its placeholders filled in.
    pub open spec fn filled(&self, text: Seq<char>) -> Seq<char> {
        seq_replace(seq_replace(seq_replace(text, "{name}"@, self.name@), "{path}"@, self.path@), "{version}"@, self.version@)
    }

    /// Everything unknown.
    pub fn new() -> (r: EditorInfo)
        ensures
            r.name@ == "Unknown"@,
            r.path@ == "Unknown"@,
            r.version@ == "Unknown"@,
    {
        EditorInfo { name: copy_str("Unknown"), path: copy_str("Unknown"), version: copy_str("Unknown") }
    }

    /// Fills the placeholders of `text`.
    pub fn replace_placeholders(&self, text: &str, _config: &Configuration) -> (r: String)
        ensures
            r@ == self.filled(text@),
    {
        proof {
            reveal_strlit("{name}");
            reveal_strlit("{path}");
            reveal_strlit("{version}");
        }
        let t0 = replace_str(text, "{name}", self.name.as_str());
        let t1 = replace_str(t0.as_str(), "{path}", self.path.as_str());
        let t2 = replace_str(t1.as_str(), "{version}", self.version.as_str());
        t2
    }

    /// The details that `format` asks for.
    pub fn gen_info_flags(format: &str) -> (r: u32)
        ensures
            r == bit_if(seq_contains(format@, "{name}"@), EDITOR_INFOFLAG_NAME) + bit_if(seq_contains(format@, "{name}"@) || seq_contains(format@, "{path}"@), EDITOR_INFOFLAG_PATH) + bit_if(seq_contains(format@, "{version}"@), EDITOR_INFOFLAG_VERSION),
            flag_set(r, EDITOR_INFOFLAG_NAME) == (seq_contains(format@, "{name}"@)),
            flag_set(r, EDITOR_INFOFLAG_PATH) == (seq_contains(format@, "{name}"@) || seq_contains(format@, "{path}"@)),
            flag_set(r, EDITOR_INFOFLAG_VERSION) == (seq_contains(format@, "{version}"@)),
    {
        let has_name = str_contains(format, "{name}");
        let has_path = str_contains(format, "{path}");
        let has_version = str_contains(format, "{version}");
        let mut info_flags: u32 = 0;
        if has_name {
            info_flags = info_flags + EDITOR_INFOFLAG_NAME;
        }
        if has_name || has_path {
            info_flags = info_flags + EDITOR_INFOFLAG_PATH;
        }
        if has_version {
            info_flags = info_flags + EDITOR_INFOFLAG_VERSION;
        }
        proof {
            lemma_flags3(info_flags, seq_contains(format@, "{name}"@), seq_contains(format@, "{name}"@) || seq_contains(format@, "{path}"@), seq_contains(format@, "{version}"@));
        }
        info_flags
    }

    /// The entry: title and format with the placeholders filled in.
    pub fn style(&self, config: &Configuration) -> (r: (String, String))
        ensures
            module_styled(
                r,
                *config,
                config.editor.title_color,
                config.editor.title_bold,
                config.editor.title_italic,
                config.editor.separator,
                self.filled(config.editor.title@),
                self.filled(config.editor.format@),
            ),
    {
        let title = self.replace_placeholders(config.editor.title.as_str(), config);
        let value = self.replace_placeholders(config.editor.format.as_str(), config);
        style_module(
            config,
            &config.editor.title_color,
            config.editor.title_bold,
            config.editor.title_italic,
            &config.editor.separator,
            title.as_str(),
            value.as_str(),
        )
    }

    /// The entry when nothing could be found: `Unknown` in the title's placeholders and as the value.
    pub fn unknown_output(config: &Configuration) -> (r: (String, String))
        ensures
            entry_styled(
                r,
                *config,
                config.editor.title_color,
                config.editor.title_bold,
                config.editor.title_italic,
                config.editor.separator,
                seq_replace(seq_replace(seq_replace(config.editor.title@, "{name}"@, "Unknown"@), "{path}"@, "Unknown"@), "{version}"@, "Unknown"@),
                "Unknown"@,
            ),
    {
        proof {
            reveal_strlit("{name}");
            reveal_strlit("{path}");
            reveal_strlit("{version}");
        }
        let u0 = replace_str(config.editor.title.as_str(), "{name}", "Unknown");
        let u1 = replace_str(u0.as_str(), "{path}", "Unknown");
        let u2 = replace_str(u1.as_str(), "{version}", "Unknown");
        style_entry(
            config,
            &config.editor.title_color,
            config.editor.title_bold,
            config.editor.title_italic,
            &config.editor.separator,
            u2.as_str(),
            "Unknown",
        )
    }
}


/// The editor's name as shown when names are made fancy.
pub open spec fn fancy_editor_name(name: Seq<char>) -> Seq<char> {
    if name == "vi"@ {
        "VI"@
    } else if name == "vim"@ {
        "Vim"@
    } else if name == "nvim"@ {
        "NeoVim"@
    } else if name == "nano"@ {
        "GNU Nano"@
    } else if name == "emacs"@ {
        "Emacs"@
    } else if name == "gedit"@ {
        "GEdit"@
    } else {
        name
    }
}

/// The editor's name as shown when names are made fancy.
pub fn fancy_name(name: &str) -> (r: String)
    ensures
        r@ == fancy_editor_name(name@),
{
    if str_eq(name, "vi") {
        copy_str("VI")
    } else if str_eq(name, "vim") {
        copy_str("Vim")
    } else if str_eq(name, "nvim") {
        copy_str("NeoVim")
    } else if str_eq(name, "nano") {
        copy_str("GNU Nano")
    } else if str_eq(name, "emacs") {
        copy_str("Emacs")
    } else if str_eq(name, "gedit") {
        copy_str("GEdit")
    } else {
        copy_str(name)
    }
}

/// What the editor entry gives for the format's wants, the `$EDITOR` and `$VISUAL` values and
/// the result of looking the editor up on the `PATH` (`which`).
pub open spec fn editor_outcome(
    config: Configuration,
    editor_env: Option<String>,
    visual_env: Result<String, String>,
    which: Result<String, String>,
    r: Result<EditorInfo, ModuleError>,
) -> bool {
    let fmt = config.editor.format@;
    let wants_path = seq_contains(fmt, "{name}"@) || seq_contains(fmt, "{path}"@);
    let wants_name = seq_contains(fmt, "{name}"@);
    let program = match editor_env {
        Some(v) => v@,
        None => visual_env->Ok_0@,
    };
    if editor_env is None && visual_env is Err {
        r matches Err(e) && e.module_name@ == "Editor"@ && e.message@
            == "Could not parse $EDITOR or $VISUAL variable: "@ + visual_env->Err_0@
    } else if wants_path && which is Err {
        r matches Err(e) && e.module_name@ == "Editor"@ && e.message@ == "Could not find 'which' for "@
            + program + ": "@ + which->Err_0@
    } else {
        r matches Ok(ed) && ed.path@ == (if wants_path {
            which->Ok_0@
        } else {
            "Unknown"@
        }) && ed.name@ == (if wants_name {
            seq_split(which->Ok_0@, '/').last()
        } else {
            "Unknown"@
        }) && ed.version@ == "Unknown"@
    }
}

/// The editor from the program named by `$EDITOR` (`editor_env`) or else `$VISUAL`
/// (`visual_env`), and what looking that program up in `$PATH` gave (`which`).
pub fn editor_from_lookup(
    config: &Configuration,
    editor_env: Option<String>,
    visual_env: Result<String, String>,
    which: Result<String, String>,
) -> (r: Result<EditorInfo, ModuleError>)
    ensures
        editor_outcome(*config, editor_env, visual_env, which, r),
{
    let mut editor = EditorInfo::new();
    let info_flags = EditorInfo::gen_info_flags(config.editor.format.as_str());
    let env_value: String = match editor_env {
        Some(v) => v,
        None => match visual_env {
            Ok(v) => v,
            Err(e) => {
                let mut m = copy_str("Could not parse $EDITOR or $VISUAL variable: ");
                append_str(&mut m, e.as_str());
                return Err(ModuleError::new("Editor", m));
            },
        },
    };
    if is_flag_set_u32(info_flags, EDITOR_INFOFLAG_PATH) {
        editor.path = match which {
            Ok(p) => p,
            Err(e) => {
                let mut m = copy_str("Could not find 'which' for ");
                append_str(&mut m, env_value.as_str());
                append_str(&mut m, ": ");
                append_str(&mut m, e.as_str());
                return Err(ModuleError::new("Editor", m));
            },
        };
    }
    if is_flag_set_u32(info_flags, EDITOR_INFOFLAG_NAME) {
        editor.name = last_piece(editor.path.as_str(), '/');
    }
    Ok(editor)
}

/// The program that the editor entry looks up: `$EDITOR`, or else `$VISUAL`; none when neither
/// could be read.
pub open spec fn editor_program(editor_env: Option<String>, visual_env: Result<String, String>) -> Option<Seq<char>> {
    match editor_env {
        Some(v) => Some(v@),
        None => match visual_env {
            Ok(v) => Some(v@),
            Err(_) => None,
        },
    }
}

/// The editor from `$EDITOR` (`editor_env`) or else `$VISUAL` (`visual_env`), looked up in
/// `$PATH`; see `editor_from_lookup`, which gets what the lookup gave. The program handed to the
/// lookup is that value, so the name shown is the value's file name. Where the lookup finds the
/// program depends on the environment and is not stated.
pub fn get_editor(config: &Configuration, editor_env: Option<String>, visual_env: Result<String, String>) -> (r: Result<EditorInfo, ModuleError>)
    ensures
        exists|which: Result<String, String>|
            {
                &&& editor_outcome(*config, editor_env, visual_env, which, r)
                &&& editor_program(editor_env, visual_env) matches Some(prog) ==> which_answer(prog, which)
            },
        editor_program(editor_env, visual_env) matches Some(prog) ==> (r matches Ok(ed) ==> (seq_contains(
            config.editor.format@,
            "{name}"@,
        ) && plain_file_name(path_file_name(prog)) ==> ed.name@ == path_file_name(prog))),
{
    let which: Result<String, String> = match &editor_env {
        Some(v) => which_path(v.as_str()),
        None => match &visual_env {
            Ok(v) => which_path(v.as_str()),
            Err(_) => Err(String::new()),
        },
    };
    let r = editor_from_lookup(config, editor_env, visual_env, which);
    assert(editor_outcome(*config, editor_env, visual_env, which, r));
    r
}

/// Finishes the editor: its version when the format shows it (`version`, or `Unknown` when none
/// was found), then its fancy name when asked for.
pub fn complete_editor(editor: EditorInfo, config: &Configuration, version: Option<String>) -> (r: EditorInfo)
    ensures
        r.path == editor.path,
        r.version@ == (if seq_contains(config.editor.format@, "{version}"@) {
            match version {
                Some(v) => v@,
                None => "Unknown"@,
            }
        } else {
            editor.version@
        }),
        r.name@ == (if config.editor.fancy {
            fancy_editor_name(editor.name@)
        } else {
            editor.name@
        }),
{
    let mut editor = editor;
    let info_flags = EditorInfo::gen_info_flags(config.editor.format.as_str());
    if is_flag_set_u32(info_flags, EDITOR_INFOFLAG_VERSION) {
        editor.version = version_or_unknown(version);
    }
    if config.editor.fancy {
        editor.name = fancy_name(editor.name.as_str());
    }
    editor
}

} // verus!
