use vstd::prelude::*;
use crate::color::CrabFetchColor;
use crate::config::Configuration;
use crate::module::{entry_styled, module_styled, style_entry, style_module, ModuleError};
use crate::text::{append_str, copy_str, replace_str, seq_contains, seq_replace, str_contains};
use crate::util::{bit_if, flag_set, is_flag_set_u32, lemma_flags2, lemma_flags3};


verus! {

/// The desktop environment and the display server type.
pub struct DesktopInfo {
    pub desktop: String,
    pub display_type: String,
}

/// The options of the desktop entry.
pub struct DesktopConfiguration {
    pub title: String,
    pub title_color: Option<CrabFetchColor>,
    pub title_bold: Option<bool>,
    pub title_italic: Option<bool>,
    pub separator: Option<String>,
    pub format: String,
}

/// Set when the format shows the desktop.
pub const DESKTOP_INFOFLAG_DESKTOP: u32 = 1;
/// Set when the format shows the display type.
pub const DESKTOP_INFOFLAG_DISPLAY_TYPE: u32 = 2;

impl DesktopInfo {
    /// Text with its placeholders filled in.
    pub open spec fn filled(&self, text: Seq<char>) -> Seq<char> {
        seq_replace(seq_replace(text, "{desktop}"@, self.desktop@), "{display_type}"@, self.display_type@)
    }

    /// Everything unknown.
    pub fn new() -> (r: DesktopInfo)
        ensures
            r.desktop@ == "Unknown"@,
            r.display_type@ == "Unknown"@,
    {
        DesktopInfo { desktop: copy_str("Unknown"), display_type: copy_str("Unknown") }
    }

    /// Fills the placeholders of `text`.
    pub fn replace_placeholders(&self, text: &str, _config: &Configuration) -> (r: String)
        ensures
            r@ == self.filled(text@),
    {
        proof {
            reveal_strlit("{desktop}");
            reveal_strlit("{display_type}");
        }
        let t0 = replace_str(text, "{desktop}", self.desktop.as_str());
        let t1 = replace_str(t0.as_str(), "{display_type}", self.display_type.as_str());
        t1
    }

    /// The details that `format` asks for.
    pub fn gen_info_flags(format: &str) -> (r: u32)
        ensures
            r == bit_if(seq_contains(format@, "{desktop}"@), DESKTOP_INFOFLAG_DESKTOP) + bit_if(seq_contains(format@, "{display_type}"@), DESKTOP_INFOFLAG_DISPLAY_TYPE),
            flag_set(r, DESKTOP_INFOFLAG_DESKTOP) == (seq_contains(format@, "{desktop}"@)),
            flag_set(r, DESKTOP_INFOFLAG_DISPLAY_TYPE) == (seq_contains(format@, "{display_type}"@)),
    {
        let has_desktop = str_contains(format, "{desktop}");
        let has_display_type = str_contains(format, "{display_type}");
        let mut info_flags: u32 = 0;
        if has_desktop {
            info_flags = info_flags + DESKTOP_INFOFLAG_DESKTOP;
        }
        if has_display_type {
            info_flags = info_flags + DESKTOP_INFOFLAG_DISPLAY_TYPE;
        }
        proof {
            lemma_flags2(info_flags, seq_contains(format@, "{desktop}"@), seq_contains(format@, "{display_type}"@));
        }
        info_flags
    }

    /// The entry: title and format with the placeholders filled in.
    pub fn style(&self, config: &Configuration) -> (r: (String, String))
        ensures
            module_styled(
                r,
                *config,
                config.desktop.title_color,
                config.desktop.title_bold,
                config.desktop.title_italic,
                config.desktop.separator,
                self.filled(config.desktop.title@),
                self.filled(config.desktop.format@),
            ),
    {
        let title = self.replace_placeholders(config.desktop.title.as_str(), config);
        let value = self.replace_placeholders(config.desktop.format.as_str(), config);
        style_module(
            config,
            &config.desktop.title_color,
            config.desktop.title_bold,
            config.desktop.title_italic,
            &config.desktop.separator,
            title.as_str(),
            value.as_str(),
        )
    }

    /// The entry when nothing could be found: `Unknown` in the title's placeholders and as the value.
    pub fn unknown_output(config: &Configuration) -> (r: (String, String))
        ensures
            entry_styled(
                r,
                *config,
                config.desktop.title_color,
                config.desktop.title_bold,
                config.desktop.title_italic,
                config.desktop.separator,
                seq_replace(seq_replace(config.desktop.title@, "{desktop}"@, "Unknown"@), "{display_type}"@, "Unknown"@),
                "Unknown"@,
            ),
    {
        proof {
            reveal_strlit("{desktop}");
            reveal_strlit("{display_type}");
        }
        let u0 = replace_str(config.desktop.title.as_str(), "{desktop}", "Unknown");
        let u1 = replace_str(u0.as_str(), "{display_type}", "Unknown");
        style_entry(
            config,
            &config.desktop.title_color,
            config.desktop.title_bold,
            config.desktop.title_italic,
            &config.desktop.separator,
            u1.as_str(),
            "Unknown",
        )
    }
}


/// The desktop as the format asks for it: under WSL it is WSLG on Wayland; the desktop comes
/// from `$XDG_CURRENT_DESKTOP`, else `$DESKTOP_SESSION`; the display type is `wayland` when
/// `$WAYLAND_DISPLAY` is set, `x11` when `$DISPLAY` is, else `$XDG_SESSION_TYPE`.
pub fn get_desktop(
    config: &Configuration,
    in_wsl: bool,
    xdg_current_desktop: Option<String>,
    desktop_session: Result<String, String>,
    wayland_display: bool,
    display: bool,
    xdg_session_type: Option<String>,
) -> (r: Result<DesktopInfo, ModuleError>)
    ensures
        ({
            let wants_desktop = seq_contains(config.desktop.format@, "{desktop}"@);
            let wants_type = seq_contains(config.desktop.format@, "{display_type}"@);
            let desktop_err = !in_wsl && wants_desktop && xdg_current_desktop is None && desktop_session is Err;
            let type_err = !in_wsl && !desktop_err && wants_type && !wayland_display && !display && xdg_session_type is None;
            match r {
                Err(e) => {
                    &&& e.module_name@ == "Desktop"@
                    &&& desktop_err || type_err
                    &&& desktop_err ==> e.message@ == "Could not parse $XDG_CURRENT_DESKTOP or $DESKTOP_SESSION env variable: "@
                        + desktop_session->Err_0@
                    &&& type_err ==> e.message@ == "Could not identify desktop session type."@
                },
                Ok(d) => {
                    &&& !desktop_err && !type_err
                    &&& in_wsl ==> d.desktop@ == "WSLG"@ && d.display_type@ == "Wayland"@
                    &&& !in_wsl ==> d.desktop@ == (if !wants_desktop {
                        "Unknown"@
                    } else if xdg_current_desktop is Some {
                        xdg_current_desktop->Some_0@
                    } else {
                        desktop_session->Ok_0@
                    })
                    &&& !in_wsl ==> d.display_type@ == (if !wants_type {
                        "Unknown"@
                    } else if wayland_display {
                        "wayland"@
                    } else if display {
                        "x11"@
                    } else {
                        xdg_session_type->Some_0@
                    })
                },
            }
        }),
{
    let mut desktop = DesktopInfo::new();
    let info_flags = DesktopInfo::gen_info_flags(config.desktop.format.as_str());
    if in_wsl {
        desktop.desktop = copy_str("WSLG");
        desktop.display_type = copy_str("Wayland");
        return Ok(desktop);
    }
    if is_flag_set_u32(info_flags, DESKTOP_INFOFLAG_DESKTOP) {
        desktop.desktop = match xdg_current_desktop {
            Some(d) => d,
            None => match desktop_session {
                Ok(s) => s,
                Err(e) => {
                    let mut m = copy_str("Could not parse $XDG_CURRENT_DESKTOP or $DESKTOP_SESSION env variable: ");
                    append_str(&mut m, e.as_str());
                    return Err(ModuleError::new("Desktop", m));
                },
            },
        };
    }
    if is_flag_set_u32(info_flags, DESKTOP_INFOFLAG_DISPLAY_TYPE) {
        desktop.display_type = if wayland_display {
            copy_str("wayland")
        } else if display {
            copy_str("x11")
        } else {
            match xdg_session_type {
                Some(t) => t,
                None => {
                    return Err(ModuleError::new("Desktop", copy_str("Could not identify desktop session type.")));
                },
            }
        };
    }
    Ok(desktop)
}

} // verus!
