use vstd::prelude::*;
use crate::ascii::AsciiConfiguration;
use crate::color::CrabFetchColor;
use crate::modules::hostname::HostnameConfiguration;
use crate::modules::cpu::CPUConfiguration;
use crate::modules::gpu::GPUConfiguration;
use crate::modules::memory::MemoryConfiguration;
use crate::modules::swap::SwapConfiguration;
use crate::modules::mounts::MountConfiguration;
use crate::modules::host::HostConfiguration;
use crate::modules::displays::DisplayConfiguration;
use crate::modules::os::OSConfiguration;
use crate::modules::packages::PackagesConfiguration;
use crate::modules::desktop::DesktopConfiguration;
use crate::modules::terminal::TerminalConfiguration;
use crate::modules::shell::ShellConfiguration;
use crate::modules::uptime::UptimeConfiguration;
use crate::modules::battery::BatteryConfiguration;
use crate::modules::locale::LocaleConfiguration;
use crate::modules::player::PlayerConfiguration;
use crate::modules::editor::EditorConfiguration;
use crate::modules::initsys::InitSystemConfiguration;
use crate::modules::processes::ProcessesConfiguration;
use crate::modules::datetime::DateTimeConfiguration;
use crate::modules::localip::LocalIPConfiguration;
use crate::modules::theme::ThemeConfiguration;
use crate::modules::icon_theme::IconThemeConfiguration;
use crate::text::{append_str, copy_str, seq_split, seq_starts_with, split_char, str_eq};

verus! {

/// Everything that can be configured: the list of entries to show, how titles and values are
/// laid out, and the options of each entry.
pub struct Configuration {
    pub modules: Vec<String>,
    pub unknown_as_text: bool,
    pub allow_commands: bool,
    pub separator: String,
    pub title_color: CrabFetchColor,
    pub title_bold: bool,
    pub title_italic: bool,
    pub decimal_places: u32,
    pub inline_values: bool,
    pub underline_character: char,
    pub color_character: String,
    pub color_margin: u8,
    pub color_use_background: bool,
    pub use_os_color: bool,
    pub segment_top: String,
    pub segment_bottom: String,
    pub progress_left_border: String,
    pub progress_right_border: String,
    pub progress_progress: String,
    pub progress_empty: String,
    pub progress_target_length: u8,
    pub percentage_color_thresholds: Vec<String>,
    pub use_ibis: bool,
    pub suppress_errors: bool,
    pub ascii: AsciiConfiguration,
    pub hostname: HostnameConfiguration,
    pub cpu: CPUConfiguration,
    pub gpu: GPUConfiguration,
    pub memory: MemoryConfiguration,
    pub swap: SwapConfiguration,
    pub mounts: MountConfiguration,
    pub host: HostConfiguration,
    pub displays: DisplayConfiguration,
    pub os: OSConfiguration,
    pub packages: PackagesConfiguration,
    pub desktop: DesktopConfiguration,
    pub terminal: TerminalConfiguration,
    pub shell: ShellConfiguration,
    pub uptime: UptimeConfiguration,
    pub battery: BatteryConfiguration,
    pub locale: LocaleConfiguration,
    pub player: PlayerConfiguration,
    pub editor: EditorConfiguration,
    pub initsys: InitSystemConfiguration,
    pub processes: ProcessesConfiguration,
    pub datetime: DateTimeConfiguration,
    pub localip: LocalIPConfiguration,
    pub theme: ThemeConfiguration,
    pub icontheme: IconThemeConfiguration,
}

/// A configuration that could not be read, with the file it came from.
pub struct ConfigurationError {
    pub config_file: String,
    pub message: String,
}

impl ConfigurationError {
    /// An error about the file `file_path` (`Unknown` when there is none).
    pub fn new(file_path: Option<String>, message: String) -> (r: ConfigurationError)
        ensures
            r.config_file@ == (match file_path {
                Some(p) => p@,
                None => "Unknown"@,
            }),
            r.message@ == message@,
    {
        let config_file = match file_path {
            Some(p) => p,
            None => copy_str("Unknown"),
        };
        ConfigurationError { config_file, message }
    }

    /// The error as it is shown: `Failed to parse from file 'FILE': MESSAGE`.
    pub fn to_display_string(&self) -> (r: String)
        ensures
            r@ == "Failed to parse from file '"@ + self.config_file@ + "': "@ + self.message@,
    {
        let mut r = String::new();
        append_str(&mut r, "Failed to parse from file '");
        append_str(&mut r, self.config_file.as_str());
        append_str(&mut r, "': ");
        append_str(&mut r, self.message.as_str());
        r
    }

    /// The error in its debugging form: `FILE failed to parse: MESSAGE`.
    pub fn to_debug_string(&self) -> (r: String)
        ensures
            r@ == self.config_file@ + " failed to parse: "@ + self.message@,
    {
        let mut r = copy_str(self.config_file.as_str());
        append_str(&mut r, " failed to parse: ");
        append_str(&mut r, self.message.as_str());
        r
    }
}

/// What expanding a leading `~` can give for `input`: the input itself, or, when it is `~` or
/// begins with `~/`, some home directory followed by the rest of the input.
pub open spec fn tilde_expansion(input: Seq<char>, r: Seq<char>) -> bool {
    ||| r == input
    ||| (input.len() > 0 && input[0] == '~' && (input.len() == 1 || input[1] == '/')
        && exists|home: Seq<char>| r == home + input.skip(1))
}

/// Trusted: shellexpand's `tilde`. As its source shows, text that does not start with `~`
/// followed by `/` or the end comes back unchanged; otherwise the `~` is replaced by the home
/// directory when one is known. Which home directory that is depends on the environment, so it
/// is not stated.
#[verifier::external_body]
fn expand_tilde(input: &str) -> (r: String)
    ensures
        tilde_expansion(input@, r@),
{
    shellexpand::tilde(input).to_string()
}

/// The configuration file that an override on the command line names, its `~` expanded; `None`
/// without an override or with the override `none`, which asks for no file at all.
pub fn override_path(location_override: &Option<String>) -> (r: Option<String>)
    ensures
        match location_override {
            None => r is None,
            Some(l) => if l@ == "none"@ {
                r is None
            } else {
                r matches Some(p) && tilde_expansion(l@, p@)
            },
        },
{
    match location_override {
        None => None,
        Some(l) => if str_eq(l.as_str(), "none") {
            None
        } else {
            Some(expand_tilde(l.as_str()))
        },
    }
}

/// The file that the configuration is read from. With an override, the expanded override
/// (`expanded`, as `override_path` gave it), which must exist (`expanded_exists`), else the
/// reading fails with `Unable to find config file.`; with the override `none`, no file; without
/// an override, the file found in the configuration directories (`found`), if any.
pub fn config_path(
    location_override: &Option<String>,
    expanded: Option<String>,
    expanded_exists: bool,
    found: Option<String>,
) -> (r: Result<Option<String>, ConfigurationError>)
    requires
        location_override matches Some(l) && l@ != "none"@ ==> expanded is Some,
    ensures
        match location_override {
            None => r == Ok::<Option<String>, ConfigurationError>(found),
            Some(l) => if l@ == "none"@ {
                r matches Ok(p) && p is None
            } else if expanded_exists {
                r == Ok::<Option<String>, ConfigurationError>(expanded)
            } else {
                r matches Err(e) && e.config_file@ == expanded->0@
                    && e.message@ == "Unable to find config file."@
            },
        },
{
    match location_override {
        None => Ok(found),
        Some(l) => if str_eq(l.as_str(), "none") {
            Ok(None)
        } else if expanded_exists {
            Ok(expanded)
        } else {
            Err(ConfigurationError::new(expanded, copy_str("Unable to find config file.")))
        },
    }
}

/// Where a file of the configuration directory may be, in the order they are tried:
/// `$XDG_CONFIG_HOME/CrabFetch/FILE`, then `$HOME/.config/CrabFetch/FILE`, each where its
/// variable is set.
pub fn config_dir_candidates(xdg_config_home: Option<String>, home: Option<String>, file: &str) -> (r: Vec<String>)
    ensures
        r.deep_view() == (match xdg_config_home {
            Some(x) => seq![x@ + "/CrabFetch/"@ + file@],
            None => Seq::<Seq<char>>::empty(),
        }) + (match home {
            Some(h) => seq![h@ + "/.config/CrabFetch/"@ + file@],
            None => Seq::<Seq<char>>::empty(),
        }),
{
    let mut paths: Vec<String> = Vec::new();
    match xdg_config_home {
        Some(x) => {
            let mut p = x;
            append_str(&mut p, "/CrabFetch/");
            append_str(&mut p, file);
            paths.push(p);
        },
        None => {},
    }
    let ghost first = paths.deep_view();
    match home {
        Some(h) => {
            let mut p = h;
            append_str(&mut p, "/.config/CrabFetch/");
            append_str(&mut p, file);
            paths.push(p);
            assert(paths.deep_view() =~= first.push(p@));
        },
        None => {},
    }
    proof {
        assert(paths.deep_view() =~= (match xdg_config_home {
            Some(x) => seq![x@ + "/CrabFetch/"@ + file@],
            None => Seq::<Seq<char>>::empty(),
        }) + (match home {
            Some(h) => seq![h@ + "/.config/CrabFetch/"@ + file@],
            None => Seq::<Seq<char>>::empty(),
        }));
    }
    paths
}

/// The entries that `--module-override` asks for: its comma-separated names, in order.
pub fn module_override_list(module_override: &str) -> (r: Vec<String>)
    ensures
        r.deep_view() == seq_split(module_override@, ','),
{
    split_char(module_override, ',')
}

/// The entries shown when the configuration names none, in order.
pub open spec fn default_modules_spec() -> Seq<Seq<char>> {
    seq![
        "hostname"@, "underline:16"@, "cpu"@, "gpu"@, "memory"@, "swap"@, "mounts"@, "host"@,
        "displays"@, "os"@, "packages"@, "desktop"@, "terminal"@, "shell"@, "editor"@,
        "uptime"@, "locale"@, "player"@, "initsys"@, "processes"@, "battery"@, "localip"@,
        "space"@, "colors"@, "bright_colors"@,
    ]
}

/// The entries shown when the configuration names none.
pub fn default_modules() -> (r: Vec<String>)
    ensures
        r.deep_view() == default_modules_spec(),
{
    let names: [&str; 25] = [
        "hostname", "underline:16", "cpu", "gpu", "memory", "swap", "mounts", "host",
        "displays", "os", "packages", "desktop", "terminal", "shell", "editor", "uptime",
        "locale", "player", "initsys", "processes", "battery", "localip", "space", "colors",
        "bright_colors",
    ];
    let ghost want = default_modules_spec();
    assert(names@.map_values(|n: &str| n@) =~= want);
    let mut r: Vec<String> = Vec::new();
    let mut i: usize = 0;
    while i < 25
        invariant
            0 <= i <= 25,
            names@.map_values(|n: &str| n@) == want,
            r.deep_view() == want.take(i as int),
        decreases 25 - i,
    {
        let ghost before = r.deep_view();
        let item = copy_str(names[i]);
        r.push(item);
        assert(r.deep_view() =~= before.push(item@));
        assert(want[i as int] == names@[i as int]@);
        assert(r.deep_view() =~= want.take(i + 1));
        i += 1;
    }
    assert(want.take(25) =~= want);
    r
}

/// The ASCII art override kept in the configuration directory: its text, when a file was
/// found there (`found`), still exists (`exists`) and could be read (`contents`).
pub fn check_for_ascii_override(found: bool, exists: bool, contents: Result<String, String>) -> (r: Option<String>)
    ensures
        r == (if found && exists {
            match contents {
                Ok(t) => Some(t),
                Err(_) => None::<String>,
            }
        } else {
            None::<String>
        }),
{
    if !found || !exists {
        return None;
    }
    match contents {
        Ok(t) => Some(t),
        Err(_) => None,
    }
}

/// Where a generated configuration file goes when no location is given:
/// `$XDG_CONFIG_HOME/CrabFetch/config.toml`, else `$HOME/.config/CrabFetch/config.toml`. One
/// of the two variables must be set.
pub fn default_config_path(xdg_config_home: Option<String>, home: Option<String>) -> (r: String)
    requires
        xdg_config_home is Some || home is Some,
    ensures
        r@ == (match xdg_config_home {
            Some(x) => x@ + "/CrabFetch/config.toml"@,
            None => home->0@ + "/.config/CrabFetch/config.toml"@,
        }),
{
    match xdg_config_home {
        Some(x) => {
            let mut r = x;
            append_str(&mut r, "/CrabFetch/config.toml");
            r
        },
        None => {
            let mut r = match home {
                Some(h) => h,
                None => String::new(),
            };
            append_str(&mut r, "/.config/CrabFetch/config.toml");
            r
        },
    }
}

} // verus!
