use vstd::prelude::*;
use crate::module::ModuleError;
use crate::text::{
    lemma_byte_len_bound,
    append_str, byte_len, byte_len_of, byte_slice, byte_slice_of, chars_of, copy_str,
    seq_starts_with, starts_with,
};

verus! {

/// The GTK 2, 3 and 4 theme names.
pub struct GTKThemeCache {
    pub gtk2: String,
    pub gtk3: String,
    pub gtk4: String,
}

/// The GTK 2, 3 and 4 icon theme names.
pub struct GTKIconCache {
    pub gtk2: String,
    pub gtk3: String,
    pub gtk4: String,
}

/// The GTK settings read so far: themes and icon themes, each read once.
pub struct GTKSettingsCache {
    pub themes: Option<GTKThemeCache>,
    pub icons: Option<GTKIconCache>,
}

/// The index of the first line that starts with `property`.
pub open spec fn first_line_with(lines: Seq<Seq<char>>, property: Seq<char>) -> Option<int>
    decreases lines.len(),
{
    if lines.len() == 0 {
        None
    } else {
        match first_line_with(lines.drop_last(), property) {
            Some(i) => Some(i),
            None => if seq_starts_with(lines.last(), property) {
                Some(lines.len() - 1)
            } else {
                None
            },
        }
    }
}

/// What a settings file gives for `property`: the text after `property` and one more
/// character (the `=`) on the first line that starts with it.
pub open spec fn gtk_property(lines: Seq<Seq<char>>, property: Seq<char>) -> Option<Seq<char>> {
    match first_line_with(lines, property) {
        Some(i) => byte_slice(lines[i], byte_len(property) + 1, 0),
        None => None,
    }
}

/// A settings file that can be read for `property` without a panic: the first line that starts
/// with it goes on past it by a character that ends on a character boundary.
pub open spec fn gtk_file_ok(lines: Seq<Seq<char>>, property: Seq<char>) -> bool {
    first_line_with(lines, property) matches Some(i) ==> byte_slice(lines[i], byte_len(property) + 1, 0) is Some
}

proof fn lemma_first_line_with(lines: Seq<Seq<char>>, property: Seq<char>, k: int)
    requires
        0 <= k < lines.len(),
        first_line_with(lines.take(k), property) is None,
    ensures
        first_line_with(lines.take(k + 1), property) == (if seq_starts_with(lines[k], property) {
            Some(k)
        } else {
            None::<int>
        }),
{
    assert(lines.take(k + 1).drop_last() =~= lines.take(k));
    assert(lines.take(k + 1).last() == lines[k]);
}

proof fn lemma_first_line_stable(lines: Seq<Seq<char>>, property: Seq<char>, k: int)
    requires
        0 <= k <= lines.len(),
        first_line_with(lines.take(k), property) is Some,
    ensures
        first_line_with(lines, property) == first_line_with(lines.take(k), property),
    decreases lines.len() - k,
{
    if k < lines.len() {
        assert(lines.take(k + 1).drop_last() =~= lines.take(k));
        lemma_first_line_stable(lines, property, k + 1);
    } else {
        assert(lines.take(k) =~= lines);
    }
}

/// Reads `property` from the lines of a GTK settings file (`None` when the file does not exist
/// or could not be read).
pub fn read_gtk_property(property: &str, lines: &Option<Vec<String>>) -> (r: Option<String>)
    requires
        byte_len(property@) + 1 <= usize::MAX,
        lines matches Some(ls) ==> gtk_file_ok(ls.deep_view(), property@),
    ensures
        r.deep_view() == (match lines {
            Some(ls) => gtk_property(ls.deep_view(), property@),
            None => None,
        }),
{
    match lines {
        None => None,
        Some(ls) => {
            let ghost lv = ls.deep_view();
            let plen = byte_len_of(property);
            let mut i: usize = 0;
            assert(lv.take(0) =~= Seq::<Seq<char>>::empty());
            while i < ls.len()
                invariant
                    lv == ls.deep_view(),
                    *lines == Some(*ls),
                    0 <= i <= lv.len(),
                    first_line_with(lv.take(i as int), property@) is None,
                    plen == byte_len(property@),
                    plen + 1 <= usize::MAX,
                decreases lv.len() - i,
            {
                proof {
                    lemma_first_line_with(lv, property@, i as int);
                }
                assert(ls@[i as int]@ == lv[i as int]);
                if starts_with(ls[i].as_str(), property) {
                    proof {
                        lemma_first_line_stable(lv, property@, i + 1);
                    }
                    let v = chars_of(ls[i].as_str());
                    assert(v@ == lv[i as int]);
                    assert(first_line_with(lv, property@) == Some(i as int));
                    let r = byte_slice_of(&v, plen + 1, 0);
                    assert(r.deep_view() == byte_slice(lv[i as int], byte_len(property@) + 1, 0));
                    assert(r.deep_view() == gtk_property(lv, property@));
                    assert(lines->Some_0.deep_view() == lv);
                    return r;
                }
                i += 1;
            }
            assert(lv.take(lv.len() as int) =~= lv);
            None
        },
    }
}

/// The settings files of GTK 2, 3 and 4 as they were read, for `property`.
pub open spec fn gtk_files_ok(files: (Option<Vec<String>>, Option<Vec<String>>, Option<Vec<String>>), property: Seq<char>) -> bool {
    &&& files.0 matches Some(ls) ==> gtk_file_ok(ls.deep_view(), property)
    &&& files.1 matches Some(ls) ==> gtk_file_ok(ls.deep_view(), property)
    &&& files.2 matches Some(ls) ==> gtk_file_ok(ls.deep_view(), property)
}

/// The value that a settings file gives, or `Adwaita`.
pub open spec fn gtk_value(file: Option<Vec<String>>, property: Seq<char>) -> Seq<char> {
    match file {
        Some(ls) => match gtk_property(ls.deep_view(), property) {
            Some(v) => v,
            None => "Adwaita"@,
        },
        None => "Adwaita"@,
    }
}

/// The value of `property` in a settings file, or `Adwaita`.
fn gtk_value_of(file: &Option<Vec<String>>, property: &str) -> (r: String)
    requires
        byte_len(property@) + 1 <= usize::MAX,
        file matches Some(ls) ==> gtk_file_ok(ls.deep_view(), property@),
    ensures
        r@ == gtk_value(*file, property@),
{
    match read_gtk_property(property, file) {
        Some(v) => v,
        None => copy_str("Adwaita"),
    }
}

/// The error met when no configuration folder is known.
pub open spec fn config_folder_error(e: Seq<char>) -> Seq<char> {
    "Unable to find suitable config folder; "@ + e
}

impl GTKThemeCache {
    /// The theme names as plain values.
    pub open spec fn names(&self) -> (Seq<char>, Seq<char>, Seq<char>) {
        (self.gtk2@, self.gtk3@, self.gtk4@)
    }

    /// Adwaita everywhere, GTK's default.
    pub fn default() -> (r: GTKThemeCache)
        ensures
            r.names() == ("Adwaita"@, "Adwaita"@, "Adwaita"@),
    {
        GTKThemeCache { gtk2: copy_str("Adwaita"), gtk3: copy_str("Adwaita"), gtk4: copy_str("Adwaita") }
    }
}

impl GTKIconCache {
    /// The icon theme names as plain values.
    pub open spec fn names(&self) -> (Seq<char>, Seq<char>, Seq<char>) {
        (self.gtk2@, self.gtk3@, self.gtk4@)
    }

    /// Adwaita everywhere, GTK's default.
    pub fn default() -> (r: GTKIconCache)
        ensures
            r.names() == ("Adwaita"@, "Adwaita"@, "Adwaita"@),
    {
        GTKIconCache { gtk2: copy_str("Adwaita"), gtk3: copy_str("Adwaita"), gtk4: copy_str("Adwaita") }
    }
}

impl GTKSettingsCache {
    /// Nothing read yet.
    pub fn default() -> (r: GTKSettingsCache)
        ensures
            r.themes is None,
            r.icons is None,
    {
        GTKSettingsCache { themes: None, icons: None }
    }

    /// The GTK theme names; read the first time from the settings files of GTK 2, 3 and 4
    /// (`files`, as read from the configuration folder `config_dir`), each `Adwaita` unless
    /// its file names one.
    pub fn get_themes(
        &mut self,
        config_dir: Result<String, String>,
        files: (Option<Vec<String>>, Option<Vec<String>>, Option<Vec<String>>),
    ) -> (r: Result<GTKThemeCache, ModuleError>)
        requires
            gtk_files_ok(files, "gtk-theme-name"@),
        ensures
            old(self).themes matches Some(t) ==> r matches Ok(x) && x.names() == t.names()
                && final(self).themes == old(self).themes,
            old(self).themes is None ==> match config_dir {
                Err(e) => r matches Err(x) && x.module_name@ == "Theme"@ && x.message@
                    == config_folder_error(e@) && final(self).themes is None,
                Ok(_) => r matches Ok(x) && x.names() == (
                    gtk_value(files.0, "gtk-theme-name"@),
                    gtk_value(files.1, "gtk-theme-name"@),
                    gtk_value(files.2, "gtk-theme-name"@),
                ) && final(self).themes is Some && final(self).themes->Some_0.names() == x.names(),
            },
            final(self).icons == old(self).icons,
    {
        match &self.themes {
            Some(t) => {
                return Ok(GTKThemeCache { gtk2: copy_str(t.gtk2.as_str()), gtk3: copy_str(t.gtk3.as_str()), gtk4: copy_str(t.gtk4.as_str()) });
            },
            None => {},
        }
        match config_dir {
            Err(e) => {
                let mut m = copy_str("Unable to find suitable config folder; ");
                append_str(&mut m, e.as_str());
                Err(ModuleError::new("Theme", m))
            },
            Ok(_) => {
                proof {
                    reveal_strlit("gtk-theme-name");
                    lemma_byte_len_bound("gtk-theme-name"@);
                }
                let themes = GTKThemeCache {
                    gtk2: gtk_value_of(&files.0, "gtk-theme-name"),
                    gtk3: gtk_value_of(&files.1, "gtk-theme-name"),
                    gtk4: gtk_value_of(&files.2, "gtk-theme-name"),
                };
                self.themes = Some(GTKThemeCache { gtk2: copy_str(themes.gtk2.as_str()), gtk3: copy_str(themes.gtk3.as_str()), gtk4: copy_str(themes.gtk4.as_str()) });
                Ok(themes)
            },
        }
    }

    /// The GTK icon theme names; read the first time, like `get_themes`.
    pub fn get_icons(
        &mut self,
        config_dir: Result<String, String>,
        files: (Option<Vec<String>>, Option<Vec<String>>, Option<Vec<String>>),
    ) -> (r: Result<GTKIconCache, ModuleError>)
        requires
            gtk_files_ok(files, "gtk-icon-theme-name"@),
        ensures
            old(self).icons matches Some(t) ==> r matches Ok(x) && x.names() == t.names()
                && final(self).icons == old(self).icons,
            old(self).icons is None ==> match config_dir {
                Err(e) => r matches Err(x) && x.module_name@ == "Theme"@ && x.message@
                    == config_folder_error(e@) && final(self).icons is None,
                Ok(_) => r matches Ok(x) && x.names() == (
                    gtk_value(files.0, "gtk-icon-theme-name"@),
                    gtk_value(files.1, "gtk-icon-theme-name"@),
                    gtk_value(files.2, "gtk-icon-theme-name"@),
                ) && final(self).icons is Some && final(self).icons->Some_0.names() == x.names(),
            },
            final(self).themes == old(self).themes,
    {
        match &self.icons {
            Some(t) => {
                return Ok(GTKIconCache { gtk2: copy_str(t.gtk2.as_str()), gtk3: copy_str(t.gtk3.as_str()), gtk4: copy_str(t.gtk4.as_str()) });
            },
            None => {},
        }
        match config_dir {
            Err(e) => {
                let mut m = copy_str("Unable to find suitable config folder; ");
                append_str(&mut m, e.as_str());
                Err(ModuleError::new("Theme", m))
            },
            Ok(_) => {
                proof {
                    reveal_strlit("gtk-icon-theme-name");
                    lemma_byte_len_bound("gtk-icon-theme-name"@);
                }
                let icons = GTKIconCache {
                    gtk2: gtk_value_of(&files.0, "gtk-icon-theme-name"),
                    gtk3: gtk_value_of(&files.1, "gtk-icon-theme-name"),
                    gtk4: gtk_value_of(&files.2, "gtk-icon-theme-name"),
                };
                self.icons = Some(GTKIconCache { gtk2: copy_str(icons.gtk2.as_str()), gtk3: copy_str(icons.gtk3.as_str()), gtk4: copy_str(icons.gtk4.as_str()) });
                Ok(icons)
            },
        }
    }
}

} // verus!
