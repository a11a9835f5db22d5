use vstd::prelude::*;
use crate::color::CrabFetchColor;
use crate::config::Configuration;
use crate::module::{entry_styled, module_styled, style_entry, style_module, ModuleError};
use crate::text::{append_str, copy_str, replace_str, seq_contains, seq_replace, str_contains};
use crate::util::{bit_if, flag_set, is_flag_set_u32, lemma_flags2, lemma_flags3};
use crate::process_info::ProcessInfo;
use crate::text::{last_piece, seq_split};
use crate::versions::version_or_unknown;

verus! {

/// The init system: its name, path and version.
pub struct InitSystemInfo {
    pub name: String,
    pub path: String,
    pub version: String,
}

/// The options of the init system entry.
pub struct InitSystemConfiguration {
    pub title: String,
    pub format: String,
    pub title_color: Option<CrabFetchColor>,
    pub title_bold: Option<bool>,
    pub title_italic: Option<bool>,
    pub separator: Option<String>,
}

/// Set when the name is needed.
pub const INITSYS_INFOFLAG_NAME: u32 = 1;
/// Set when the path is needed.
pub const INITSYS_INFOFLAG_PATH: u32 = 2;
/// Set when the version is needed.
pub const INITSYS_INFOFLAG_VERSION: u32 = 4;

impl InitSystemInfo {
    /// Text with its placeholders filled in.
    pub open spec fn filled(&self, text: Seq<char>) -> Seq<char> {
        seq_replace(seq_replace(seq_replace(text, "{name}"@, self.name@), "{path}"@, self.path@), "{version}"@, self.version@)
    }

    /// Everything unknown.
    pub fn new() -> (r: InitSystemInfo)
        ensures
            r.name@ == "Unknown"@,
            r.path@ == "Unknown"@,
            r.version@ == "Unknown"@,
    {
        InitSystemInfo { name: copy_str("Unknown"), path: copy_str("Unknown"), version: copy_str("Unknown") }
    }

    /// Fills the placeholders of `text`.
    pub fn replace_placeholders(&self, text: &str, _config: &Configuration) -> (r: String)
        ensures
            r@ == self.filled(text@),
    {
        proof {
            reveal_strlit("{name}");
            reveal_strlit("{path}");
            reveal_strlit("{version}");
        }
        let t0 = replace_str(text, "{name}", self.name.as_str());
        let t1 = replace_str(t0.as_str(), "{path}", self.path.as_str());
        let t2 = replace_str(t1.as_str(), "{version}", self.version.as_str());
        t2
    }

    /// The details that `format` asks for.
    pub fn gen_info_flags(format: &str) -> (r: u32)
        ensures
            r == bit_if(seq_contains(format@, "{name}"@) || seq_contains(format@, "{version}"@), INITSYS_INFOFLAG_NAME) + bit_if(seq_contains(format@, "{name}"@) || seq_contains(format@, "{path}"@) || seq_contains(format@, "{version}"@), INITSYS_INFOFLAG_PATH) + bit_if(seq_contains(format@, "{version}"@), INITSYS_INFOFLAG_VERSION),
            flag_set(r, INITSYS_INFOFLAG_NAME) == (seq_contains(format@, "{name}"@) || seq_contains(format@, "{version}"@)),
            flag_set(r, INITSYS_INFOFLAG_PATH) == (seq_contains(format@, "{name}"@) || seq_contains(format@, "{path}"@) || seq_contains(format@, "{version}"@)),
            flag_set(r, INITSYS_INFOFLAG_VERSION) == (seq_contains(format@, "{version}"@)),
    {
        let has_name = str_contains(format, "{name}");
        let has_path = str_contains(format, "{path}");
        let has_version = str_contains(format, "{version}");
        let mut info_flags: u32 = 0;
        if has_name || has_version {
            info_flags = info_flags + INITSYS_INFOFLAG_NAME;
        }
        if has_name || has_path || has_version {
            info_flags = info_flags + INITSYS_INFOFLAG_PATH;
        }
        if has_version {
            info_flags = info_flags + INITSYS_INFOFLAG_VERSION;
        }
        proof {
            lemma_flags3(info_flags, seq_contains(format@, "{name}"@) || seq_contains(format@, "{version}"@), seq_contains(format@, "{name}"@) || seq_contains(format@, "{path}"@) || seq_contains(format@, "{version}"@), seq_contains(format@, "{version}"@));
        }
        info_flags
    }

    /// The entry: title and format with the placeholders filled in.
    pub fn style(&self, config: &Configuration) -> (r: (String, String))
        ensures
            module_styled(
                r,
                *config,
                config.initsys.title_color,
                config.initsys.title_bold,
                config.initsys.title_italic,
                config.initsys.separator,
                self.filled(config.initsys.title@),
                self.filled(config.initsys.format@),
            ),
    {
        let title = self.replace_placeholders(config.initsys.title.as_str(), config);
        let value = self.replace_placeholders(config.initsys.format.as_str(), config);
        style_module(
            config,
            &config.initsys.title_color,
            config.initsys.title_bold,
            config.initsys.title_italic,
            &config.initsys.separator,
            title.as_str(),
            value.as_str(),
        )
    }

    /// The entry when nothing could be found: `Unknown` in the title's placeholders and as the value.
    pub fn unknown_output(config: &Configuration) -> (r: (String, String))
        ensures
            entry_styled(
                r,
                *config,
                config.initsys.title_color,
                config.initsys.title_bold,
                config.initsys.title_italic,
                config.initsys.separator,
                seq_replace(seq_replace(seq_replace(config.initsys.title@, "{name}"@, "Unknown"@), "{path}"@, "Unknown"@), "{version}"@, "Unknown"@),
                "Unknown"@,
            ),
    {
        proof {
            reveal_strlit("{name}");
            reveal_strlit("{path}");
            reveal_strlit("{version}");
        }
        let u0 = replace_str(config.initsys.title.as_str(), "{name}", "Unknown");
        let u1 = replace_str(u0.as_str(), "{path}", "Unknown");
        let u2 = replace_str(u1.as_str(), "{version}", "Unknown");
        style_entry(
            config,
            &config.initsys.title_color,
            config.initsys.title_bold,
            config.initsys.title_italic,
            &config.initsys.separator,
            u2.as_str(),
            "Unknown",
        )
    }
}


/// The init system from what reading process 1's command line gave (`cmdline_contents`) and
/// what resolving its first argument as a path gave (`canonical`), as the format asks for it.
pub fn get_init_system(
    config: &Configuration,
    cmdline_contents: Result<String, String>,
    canonical: Result<String, String>,
) -> (r: Result<InitSystemInfo, ModuleError>)
    ensures
        ({
            let fmt = config.initsys.format@;
            let wants_path = seq_contains(fmt, "{name}"@) || seq_contains(fmt, "{path}"@) || seq_contains(fmt, "{version}"@);
            let wants_name = seq_contains(fmt, "{name}"@) || seq_contains(fmt, "{version}"@);
            if wants_path && cmdline_contents is Err {
                r matches Err(e) && e.module_name@ == "InitSys"@ && e.message@
                    == "Failed to read from root process cmdline: "@ + "Unable to open /cmdline, is this process still valid? ("@
                    + cmdline_contents->Err_0@ + ")"@
            } else if wants_path && canonical is Err {
                r matches Err(e) && e.module_name@ == "InitSys"@ && e.message@ == "Failed to canonicalize "@
                    + seq_split(cmdline_contents->Ok_0@, '\0')[0] + " symlink: "@ + canonical->Err_0@
            } else {
                r matches Ok(i) && i.path@ == (if wants_path {
                    canonical->Ok_0@
                } else {
                    "Unknown"@
                }) && i.name@ == (if wants_name {
                    seq_split(i.path@, '/').last()
                } else {
                    "Unknown"@
                }) && i.version@ == "Unknown"@
            }
        }),
{
    let mut initsys = InitSystemInfo::new();
    let info_flags = InitSystemInfo::gen_info_flags(config.initsys.format.as_str());
    let mut process = ProcessInfo::new(1);
    if is_flag_set_u32(info_flags, INITSYS_INFOFLAG_PATH) {
        let path: String = match process.get_cmdline(cmdline_contents) {
            Ok(r) => {
                proof {
                    crate::text::lemma_split_nonempty(cmdline_contents->Ok_0@, '\0');
                }
                assert(r@[0]@ == r.deep_view()[0]);
                copy_str(r[0].as_str())
            },
            Err(e) => {
                let mut m = copy_str("Failed to read from root process cmdline: ");
                append_str(&mut m, e.as_str());
                return Err(ModuleError::new("InitSys", m));
            },
        };
        initsys.path = match canonical {
            Ok(p) => p,
            Err(e) => {
                let mut m = copy_str("Failed to canonicalize ");
                append_str(&mut m, path.as_str());
                append_str(&mut m, " symlink: ");
                append_str(&mut m, e.as_str());
                return Err(ModuleError::new("InitSys", m));
            },
        };
    }
    if is_flag_set_u32(info_flags, INITSYS_INFOFLAG_NAME) {
        initsys.name = last_piece(initsys.path.as_str(), '/');
    }
    Ok(initsys)
}

/// Finishes the init system with its version when the format shows it (`version`, or
/// `Unknown` when none was found).
pub fn complete_init_system(initsys: InitSystemInfo, config: &Configuration, version: Option<String>) -> (r: InitSystemInfo)
    ensures
        r.name == initsys.name,
        r.path == initsys.path,
        r.version@ == (if seq_contains(config.initsys.format@, "{version}"@) {
            match version {
                Some(v) => v@,
                None => "Unknown"@,
            }
        } else {
            initsys.version@
        }),
{
    let mut initsys = initsys;
    let info_flags = InitSystemInfo::gen_info_flags(config.initsys.format.as_str());
    if is_flag_set_u32(info_flags, INITSYS_INFOFLAG_VERSION) {
        initsys.version = version_or_unknown(version);
    }
    initsys
}

} // verus!
