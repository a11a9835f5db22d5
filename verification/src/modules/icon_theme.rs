use vstd::prelude::*;
use crate::color::CrabFetchColor;
use crate::config::Configuration;
use crate::gtk::{gtk_files_ok, gtk_value, GTKSettingsCache};
use crate::module::{entry_styled, module_styled, style_entry, style_module, ModuleError};
use crate::text::{copy_str, replace_str, seq_replace};

verus! {

/// The GTK 2, 3 and 4 icon theme names.
pub struct IconThemeInfo {
    pub gtk2: String,
    pub gtk3: String,
    pub gtk4: String,
}

/// The options of the icon theme names entry.
pub struct IconThemeConfiguration {
    pub title: String,
    pub title_color: Option<CrabFetchColor>,
    pub title_bold: Option<bool>,
    pub title_italic: Option<bool>,
    pub separator: Option<String>,
    pub format: Option<String>,
}

/// The format of the entry: the configured one, or `{time}`.
pub open spec fn icon_theme_format(config: Configuration) -> Seq<char> {
    match config.icontheme.format {
        Some(f) => f@,
        None => "{time}"@,
    }
}

impl IconThemeInfo {
    /// Text with `{gtk2}`, `{gtk3}` and `{gtk4}` filled in.
    pub open spec fn filled(&self, text: Seq<char>) -> Seq<char> {
        seq_replace(
            seq_replace(seq_replace(text, "{gtk2}"@, self.gtk2@), "{gtk3}"@, self.gtk3@),
            "{gtk4}"@,
            self.gtk4@,
        )
    }

    /// Adwaita everywhere, GTK's default.
    pub fn new() -> (r: IconThemeInfo)
        ensures
            r.gtk2@ == "Adwaita"@,
            r.gtk3@ == "Adwaita"@,
            r.gtk4@ == "Adwaita"@,
    {
        IconThemeInfo { gtk2: copy_str("Adwaita"), gtk3: copy_str("Adwaita"), gtk4: copy_str("Adwaita") }
    }

    /// Fills the `{gtk2}`, `{gtk3}` and `{gtk4}` placeholders of `text`.
    pub fn replace_placeholders(&self, text: &str, _config: &Configuration) -> (r: String)
        ensures
            r@ == self.filled(text@),
    {
        proof {
            reveal_strlit("{gtk2}");
            reveal_strlit("{gtk3}");
            reveal_strlit("{gtk4}");
        }
        let a = replace_str(text, "{gtk2}", self.gtk2.as_str());
        let b = replace_str(a.as_str(), "{gtk3}", self.gtk3.as_str());
        replace_str(b.as_str(), "{gtk4}", self.gtk4.as_str())
    }

    /// The entry: title and format with the placeholders filled in.
    pub fn style(&self, config: &Configuration) -> (r: (String, String))
        ensures
            module_styled(
                r,
                *config,
                config.icontheme.title_color,
                config.icontheme.title_bold,
                config.icontheme.title_italic,
                config.icontheme.separator,
                self.filled(config.icontheme.title@),
                self.filled(icon_theme_format(*config)),
            ),
    {
        let format: String = match &config.icontheme.format {
            Some(f) => copy_str(f.as_str()),
            None => copy_str("{time}"),
        };
        let title = self.replace_placeholders(config.icontheme.title.as_str(), config);
        let value = self.replace_placeholders(format.as_str(), config);
        style_module(
            config,
            &config.icontheme.title_color,
            config.icontheme.title_bold,
            config.icontheme.title_italic,
            &config.icontheme.separator,
            title.as_str(),
            value.as_str(),
        )
    }

    /// The entry when nothing could be found: the title as it is, and `Unknown`.
    pub fn unknown_output(config: &Configuration) -> (r: (String, String))
        ensures
            entry_styled(
                r,
                *config,
                config.icontheme.title_color,
                config.icontheme.title_bold,
                config.icontheme.title_italic,
                config.icontheme.separator,
                config.icontheme.title@,
                "Unknown"@,
            ),
    {
        style_entry(
            config,
            &config.icontheme.title_color,
            config.icontheme.title_bold,
            config.icontheme.title_italic,
            &config.icontheme.separator,
            config.icontheme.title.as_str(),
            "Unknown",
        )
    }
}

/// The icon theme names from the GTK settings (see `GTKSettingsCache::get_icons`); failing to read them
/// fails the entry.
pub fn get_icon_theme(
    gtk_settings: &mut GTKSettingsCache,
    config_dir: Result<String, String>,
    files: (Option<Vec<String>>, Option<Vec<String>>, Option<Vec<String>>),
) -> (r: Result<IconThemeInfo, ModuleError>)
    requires
        gtk_files_ok(files, "gtk-icon-theme-name"@),
    ensures
        old(gtk_settings).icons is None ==> match config_dir {
            Err(_) => r matches Err(e) && e.module_name@ == "Icon Themes"@ && e.message@ == "Failed to read GTK settings."@,
            Ok(_) => r matches Ok(t) && t.gtk2@ == gtk_value(files.0, "gtk-icon-theme-name"@) && t.gtk3@ == gtk_value(files.1, "gtk-icon-theme-name"@)
                && t.gtk4@ == gtk_value(files.2, "gtk-icon-theme-name"@),
        },
        old(gtk_settings).icons matches Some(c) ==> r matches Ok(t) && t.gtk2@ == c.gtk2@ && t.gtk3@ == c.gtk3@
            && t.gtk4@ == c.gtk4@,
{
    let mut info = IconThemeInfo::new();
    match gtk_settings.get_icons(config_dir, files) {
        Ok(found) => {
            info.gtk2 = found.gtk2;
            info.gtk3 = found.gtk3;
            info.gtk4 = found.gtk4;
        },
        Err(_) => {
            return Err(ModuleError::new("Icon Themes", copy_str("Failed to read GTK settings.")));
        },
    }
    Ok(info)
}

} // verus!
