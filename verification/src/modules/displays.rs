use vstd::prelude::*;
use crate::color::CrabFetchColor;
use crate::config::Configuration;
use crate::module::{entry_styled, module_styled, style_entry, style_module, ModuleError};
use crate::text::{
    append_str, copy_str, nat_to_dec, nat_to_hex, push_char, replace_str, seq_contains,
    seq_ends_with, seq_replace, seq_trim, str_contains, trim, u64_to_hex_string, u64_to_string,
    ends_with, byte_range, byte_range_of, byte_len, chars_of,
};
use crate::util::{bit_if, flag_set, is_flag_set_u32, lemma_flags6};
use crate::color::{lowercase, to_lowercase};
use crate::package_managers::{lex_le, seq_lex_le, lemma_lex_total, lemma_lex_trans};

verus! {

/// A display: its connector name, make and model, resolution, scale, refresh rate and rotation
/// in degrees.
pub struct DisplayInfo {
    pub name: String,
    pub make: String,
    pub model: String,
    pub width: u16,
    pub height: u16,
    pub scale: i32,
    pub refresh_rate: u16,
    pub rotation: u16,
}

/// The options of the display entries.
pub struct DisplayConfiguration {
    pub title: String,
    pub title_color: Option<CrabFetchColor>,
    pub title_bold: Option<bool>,
    pub title_italic: Option<bool>,
    pub separator: Option<String>,
    pub format: String,
    pub scale_size: bool,
}

/// Set when the connector name is needed (also for the make and model).
pub const DISPLAYS_INFOFLAG_DRM_NAME: u32 = 1;
/// Set when the make is needed.
pub const DISPLAYS_INFOFLAG_MAKE: u32 = 2;
/// Set when the model is needed.
pub const DISPLAYS_INFOFLAG_MODEL: u32 = 4;
/// Set when the width is needed.
pub const DISPLAYS_INFOFLAG_WIDTH: u32 = 8;
/// Set when the height is needed.
pub const DISPLAYS_INFOFLAG_HEIGHT: u32 = 16;
/// Set when the refresh rate is needed.
pub const DISPLAYS_INFOFLAG_REFRESH_RATE: u32 = 32;

/// `after` is `before` with its rotation applied: width and height swapped when the display
/// is turned by 90 or 270 degrees, everything else kept.
pub open spec fn rotation_applied(before: DisplayInfo, after: DisplayInfo) -> bool {
    &&& before.rotation % 180 != 0 ==> after.width == before.height && after.height == before.width
    &&& before.rotation % 180 == 0 ==> after.width == before.width && after.height == before.height
    &&& after.rotation == before.rotation
    &&& after.name == before.name
    &&& after.make == before.make
    &&& after.model == before.model
    &&& after.scale == before.scale
    &&& after.refresh_rate == before.refresh_rate
}

/// Applying the rotation twice gives the display back as it was: the second swap undoes the
/// first.
pub proof fn lemma_rotation_twice(d0: DisplayInfo, d1: DisplayInfo, d2: DisplayInfo)
    requires
        rotation_applied(d0, d1),
        rotation_applied(d1, d2),
    ensures
        d2.width == d0.width,
        d2.height == d0.height,
        d2.rotation == d0.rotation,
{
}

impl DisplayInfo {
    /// Text with the display's placeholders filled in.
    pub open spec fn filled(&self, text: Seq<char>) -> Seq<char> {
        seq_replace(
            seq_replace(
                seq_replace(
                    seq_replace(
                        seq_replace(seq_replace(text, "{name}"@, self.name@), "{make}"@, self.make@),
                        "{model}"@,
                        self.model@,
                    ),
                    "{width}"@,
                    nat_to_dec(self.width as nat),
                ),
                "{height}"@,
                nat_to_dec(self.height as nat),
            ),
            "{refresh_rate}"@,
            nat_to_dec(self.refresh_rate as nat),
        )
    }

    /// Everything unknown or zero.
    pub fn new() -> (r: DisplayInfo)
        ensures
            r.name@ == "Unknown"@,
            r.make@ == "Unknown"@,
            r.model@ == "Unknown"@,
            r.width == 0 && r.height == 0 && r.scale == 0 && r.refresh_rate == 0 && r.rotation == 0,
    {
        DisplayInfo {
            name: copy_str("Unknown"),
            make: copy_str("Unknown"),
            model: copy_str("Unknown"),
            width: 0,
            height: 0,
            scale: 0,
            refresh_rate: 0,
            rotation: 0,
        }
    }

    /// Swaps width and height when the display is turned by 90 or 270 degrees.
    pub fn calc_rotation(&mut self)
        ensures
            rotation_applied(*old(self), *final(self)),
    {
        if self.rotation % 180 != 0 {
            let w = self.width;
            self.width = self.height;
            self.height = w;
        }
    }

    /// Divides the resolution by the scale.
    pub fn scale_resolution(&mut self)
        requires
            0 < old(self).scale <= u16::MAX,
        ensures
            final(self).width == old(self).width / (old(self).scale as u16),
            final(self).height == old(self).height / (old(self).scale as u16),
            final(self).rotation == old(self).rotation,
            final(self).name == old(self).name,
            final(self).make == old(self).make,
            final(self).model == old(self).model,
            final(self).scale == old(self).scale,
            final(self).refresh_rate == old(self).refresh_rate,
    {
        let s = self.scale as u16;
        self.width = self.width / s;
        self.height = self.height / s;
    }

    /// Fills the display's placeholders of `text`.
    pub fn replace_placeholders(&self, text: &str, _config: &Configuration) -> (r: String)
        ensures
            r@ == self.filled(text@),
    {
        proof {
            reveal_strlit("{name}");
            reveal_strlit("{make}");
            reveal_strlit("{model}");
            reveal_strlit("{width}");
            reveal_strlit("{height}");
            reveal_strlit("{refresh_rate}");
        }
        let t0 = replace_str(text, "{name}", self.name.as_str());
        let t1 = replace_str(t0.as_str(), "{make}", self.make.as_str());
        let t2 = replace_str(t1.as_str(), "{model}", self.model.as_str());
        let w = u64_to_string(self.width as u64);
        let t3 = replace_str(t2.as_str(), "{width}", w.as_str());
        let h = u64_to_string(self.height as u64);
        let t4 = replace_str(t3.as_str(), "{height}", h.as_str());
        let f = u64_to_string(self.refresh_rate as u64);
        replace_str(t4.as_str(), "{refresh_rate}", f.as_str())
    }

    /// The details that `format` asks for; the make and model need the connector name.
    pub fn gen_info_flags(format: &str) -> (r: u32)
        ensures
            ({
                let name = seq_contains(format@, "{name}"@);
                let make = seq_contains(format@, "{make}"@);
                let model = seq_contains(format@, "{model}"@);
                &&& flag_set(r, DISPLAYS_INFOFLAG_DRM_NAME) == (name || make || model)
                &&& flag_set(r, DISPLAYS_INFOFLAG_MAKE) == make
                &&& flag_set(r, DISPLAYS_INFOFLAG_MODEL) == model
                &&& flag_set(r, DISPLAYS_INFOFLAG_WIDTH) == seq_contains(format@, "{width}"@)
                &&& flag_set(r, DISPLAYS_INFOFLAG_HEIGHT) == seq_contains(format@, "{height}"@)
                &&& flag_set(r, DISPLAYS_INFOFLAG_REFRESH_RATE) == seq_contains(format@, "{refresh_rate}"@)
            }),
    {
        let name = str_contains(format, "{name}");
        let make = str_contains(format, "{make}");
        let model = str_contains(format, "{model}");
        let width = str_contains(format, "{width}");
        let height = str_contains(format, "{height}");
        let refresh = str_contains(format, "{refresh_rate}");
        let mut info_flags: u32 = 0;
        if name || make || model {
            info_flags = info_flags + DISPLAYS_INFOFLAG_DRM_NAME;
        }
        if make {
            info_flags = info_flags + DISPLAYS_INFOFLAG_MAKE;
        }
        if model {
            info_flags = info_flags + DISPLAYS_INFOFLAG_MODEL;
        }
        if width {
            info_flags = info_flags + DISPLAYS_INFOFLAG_WIDTH;
        }
        if height {
            info_flags = info_flags + DISPLAYS_INFOFLAG_HEIGHT;
        }
        if refresh {
            info_flags = info_flags + DISPLAYS_INFOFLAG_REFRESH_RATE;
        }
        proof {
            lemma_flags6(info_flags, name || make || model, make, model, width, height, refresh);
        }
        info_flags
    }

    /// The entry: title and format with the placeholders filled in.
    pub fn style(&self, config: &Configuration) -> (r: (String, String))
        ensures
            module_styled(
                r,
                *config,
                config.displays.title_color,
                config.displays.title_bold,
                config.displays.title_italic,
                config.displays.separator,
                self.filled(config.displays.title@),
                self.filled(config.displays.format@),
            ),
    {
        let title = self.replace_placeholders(config.displays.title.as_str(), config);
        let value = self.replace_placeholders(config.displays.format.as_str(), config);
        style_module(
            config,
            &config.displays.title_color,
            config.displays.title_bold,
            config.displays.title_italic,
            &config.displays.separator,
            title.as_str(),
            value.as_str(),
        )
    }

    /// The entry when nothing could be found: `Unknown` in the title's placeholders and as the
    /// value.
    pub fn unknown_output(config: &Configuration) -> (r: (String, String))
        ensures
            entry_styled(
                r,
                *config,
                config.displays.title_color,
                config.displays.title_bold,
                config.displays.title_italic,
                config.displays.separator,
                seq_replace(
                    seq_replace(
                        seq_replace(
                            seq_replace(
                                seq_replace(
                                    seq_replace(config.displays.title@, "{name}"@, "Unknown"@),
                                    "{make}"@,
                                    "Unknown"@,
                                ),
                                "{model}"@,
                                "Unknown"@,
                            ),
                            "{width}"@,
                            "Unknown"@,
                        ),
                        "{height}"@,
                        "Unknown"@,
                    ),
                    "{refresh_rate}"@,
                    "Unknown"@,
                ),
                "Unknown"@,
            ),
    {
        proof {
            reveal_strlit("{name}");
            reveal_strlit("{make}");
            reveal_strlit("{model}");
            reveal_strlit("{width}");
            reveal_strlit("{height}");
            reveal_strlit("{refresh_rate}");
        }
        let t0 = replace_str(config.displays.title.as_str(), "{name}", "Unknown");
        let t1 = replace_str(t0.as_str(), "{make}", "Unknown");
        let t2 = replace_str(t1.as_str(), "{model}", "Unknown");
        let t3 = replace_str(t2.as_str(), "{width}", "Unknown");
        let t4 = replace_str(t3.as_str(), "{height}", "Unknown");
        let title = replace_str(t4.as_str(), "{refresh_rate}", "Unknown");
        style_entry(
            config,
            &config.displays.title_color,
            config.displays.title_bold,
            config.displays.title_italic,
            &config.displays.separator,
            title.as_str(),
            "Unknown",
        )
    }
}

/// The rotation in degrees of an X11 CRTC rotation mask, read from its three lowest bits: 90
/// for the 90-degree bit alone and 180 for the 180-degree bit alone, else 0. (The 270-degree bit
/// lies above those three, so such a mask reads as 0.)
pub open spec fn xorg_rotation(mask: u16) -> u16 {
    if mask % 8 == 2 {
        90
    } else if mask % 8 == 4 {
        180
    } else {
        0
    }
}

/// The refresh rate of an X11 mode: the dot clock over the total pixels of a frame, or 0 when
/// that does not fit in 16 bits.
pub open spec fn xorg_refresh(dot_clock: u32, htotal: u16, vtotal: u16) -> u16 {
    let r = dot_clock as int / (htotal as int * vtotal as int);
    if r <= u16::MAX {
        r as u16
    } else {
        0
    }
}

/// A display of an X11 monitor, from its connector name, make and model, and its CRTC's mode
/// and rotation; turned displays get width and height swapped.
pub fn xorg_display(
    name: String,
    make: String,
    model: String,
    mode_width: u16,
    mode_height: u16,
    dot_clock: u32,
    htotal: u16,
    vtotal: u16,
    rotation_mask: u16,
) -> (r: DisplayInfo)
    requires
        htotal as int * vtotal as int != 0,
    ensures
        r.name == name && r.make == make && r.model == model,
        r.scale == 1,
        r.refresh_rate == xorg_refresh(dot_clock, htotal, vtotal),
        r.rotation == xorg_rotation(rotation_mask),
        r.rotation % 180 != 0 ==> r.width == mode_height && r.height == mode_width,
        r.rotation % 180 == 0 ==> r.width == mode_width && r.height == mode_height,
{
    assert((htotal as u32) * (vtotal as u32) <= 0xffff * 0xffff) by (nonlinear_arith)
        requires
            htotal <= 0xffff,
            vtotal <= 0xffff,
    ;
    let frame: u32 = (htotal as u32) * (vtotal as u32);
    let rate: u32 = dot_clock / frame;
    let refresh: u16 = if rate <= 0xffff {
        rate as u16
    } else {
        0
    };
    let rotation: u16 = if rotation_mask % 8 == 2 {
        90
    } else if rotation_mask % 8 == 4 {
        180
    } else {
        0
    };
    let mut display = DisplayInfo {
        name,
        make,
        model,
        width: mode_width,
        height: mode_height,
        scale: 1,
        refresh_rate: refresh,
        rotation,
    };
    display.calc_rotation();
    display
}

/// The three letters of the EDID manufacturer id, from bytes 8 and 9.
pub open spec fn edid_make(e: Seq<u8>) -> Seq<char> {
    let b8 = e[8] as int;
    let b9 = e[9] as int;
    seq![
        (((b8 / 4) % 32 + 64) as u32) as char,
        (((b8 % 4) * 8 + b9 / 32 + 64) as u32) as char,
        ((b9 % 32 + 64) as u32) as char,
    ]
}

/// Where the display name descriptor starts, among the three descriptors from byte 54 on: the
/// first that is not a timing (its first two bytes are zero) and has the name tag 252.
pub open spec fn edid_name_descriptor(e: Seq<u8>, k: int) -> Option<int>
    decreases 3 - k,
{
    if k >= 3 || k < 0 {
        None
    } else {
        let sb = 54 + 18 * k;
        if e[sb] as int * 256 + e[sb + 1] as int != 0 {
            edid_name_descriptor(e, k + 1)
        } else if e[sb + 3] != 252 {
            edid_name_descriptor(e, k + 1)
        } else {
            Some(sb)
        }
    }
}

/// The EDID holds every byte that reading it looks at.
pub open spec fn edid_reads_ok(e: Seq<u8>, k: int) -> bool
    decreases 3 - k,
{
    if k >= 3 || k < 0 {
        true
    } else {
        let sb = 54 + 18 * k;
        sb + 1 < e.len() && if e[sb] as int * 256 + e[sb + 1] as int != 0 {
            edid_reads_ok(e, k + 1)
        } else {
            sb + 3 < e.len() && (e[sb + 3] != 252 ==> edid_reads_ok(e, k + 1))
        }
    }
}

/// Bytes read as characters of the same code.
pub open spec fn latin1(bytes: Seq<u8>) -> Seq<char> {
    bytes.map_values(|b: u8| b as char)
}

/// The smaller of two integers.
pub open spec fn min_int(a: int, b: int) -> int {
    if a < b {
        a
    } else {
        b
    }
}

/// The model that an EDID names: the 13 text bytes of the name descriptor (bytes 5 to 17,
/// trimmed), or, without one (or when it reads `Unknown`), the make followed by the product
/// code in hexadecimal.
pub open spec fn edid_model(e: Seq<u8>) -> Seq<char> {
    let fallback = edid_make(e) + nat_to_hex((e[10] as int + e[11] as int * 256) as nat);
    match edid_name_descriptor(e, 0) {
        Some(sb) => {
            let m = seq_trim(latin1(e.subrange(min_int(sb + 5, e.len() as int), min_int(sb + 18, e.len() as int))));
            if m == "Unknown"@ {
                fallback
            } else {
                m
            }
        },
        None => fallback,
    }
}

/// An EDID that can be read: it reaches the product code and every descriptor byte looked at.
pub open spec fn edid_ok(e: Seq<u8>) -> bool {
    e.len() > 11 && edid_reads_ok(e, 0)
}

/// The make and model of a display from its EDID.
pub fn edid_make_model(edid: &Vec<u8>) -> (r: (String, String))
    requires
        edid_ok(edid@),
    ensures
        r.0@ == edid_make(edid@),
        r.1@ == edid_model(edid@),
{
    let b8 = edid[8];
    let b9 = edid[9];
    let mut make = String::new();
    push_char(&mut make, ((((b8 / 4) % 32) + 64) as u8) as char);
    push_char(&mut make, ((((b8 % 4) * 8 + b9 / 32) + 64) as u8) as char);
    push_char(&mut make, (((b9 % 32) + 64) as u8) as char);
    assert(make@ =~= edid_make(edid@));
    let mut found: Option<usize> = None;
    let mut k: usize = 0;
    let mut sb: usize = 54;
    while k < 3
        invariant
            0 <= k <= 3,
            found is None ==> sb == 54 + 18 * k,
            found matches Some(x) ==> x <= 90,
            edid_reads_ok(edid@, k as int),
            edid_name_descriptor(edid@, 0) == (match found {
                Some(s) => Some(s as int),
                None => edid_name_descriptor(edid@, k as int),
            }),
            found is Some ==> k == 3,
        decreases 3 - k,
    {
        let is_display: u32 = (edid[sb] as u32) * 256 + (edid[sb + 1] as u32);
        if is_display != 0 {
            sb = sb + 18;
            k = k + 1;
            continue;
        }
        if edid[sb + 3] != 252 {
            sb = sb + 18;
            k = k + 1;
            continue;
        }
        found = Some(sb);
        k = 3;
    }
    let code: u64 = (edid[10] as u64) + (edid[11] as u64) * 256;
    let mut fallback = copy_str(make.as_str());
    let hex = u64_to_hex_string(code);
    append_str(&mut fallback, hex.as_str());
    let model = match found {
        Some(s) => {
            let len = edid.len();
            let lo = if s + 5 < len {
                s + 5
            } else {
                len
            };
            let hi = if s + 18 < len {
                s + 18
            } else {
                len
            };
            let mut raw = String::new();
            let mut i = lo;
            while i < hi
                invariant
                    lo <= i <= hi <= edid@.len(),
                    raw@ == latin1(edid@.subrange(lo as int, i as int)),
                decreases hi - i,
            {
                push_char(&mut raw, edid[i] as char);
                assert(latin1(edid@.subrange(lo as int, i + 1)) =~= latin1(edid@.subrange(lo as int, i as int)).push(edid@[i as int] as char));
                i += 1;
            }
            let m = trim(raw.as_str());
            proof {
                reveal_strlit("Unknown");
            }
            if crate::text::str_eq(m.as_str(), "Unknown") {
                fallback
            } else {
                m
            }
        },
        None => fallback,
    };
    (make, model)
}

/// Whether a directory under `/sys/class/drm` belongs to the connector `drm_name`: its name
/// ends with it, or does once its last two bytes (a `-N` suffix) are cut.
pub open spec fn drm_dir_matches(dir: Seq<char>, drm_name: Seq<char>) -> bool {
    seq_ends_with(dir, drm_name) || seq_ends_with(byte_range(dir, 0, byte_len(dir) - 2)->Some_0, drm_name)
}

/// A directory name that can be tested: when it does not end with the connector name, cutting
/// its last two bytes must fall on a character boundary.
pub open spec fn drm_dir_ok(dir: Seq<char>, drm_name: Seq<char>) -> bool {
    seq_ends_with(dir, drm_name) || byte_range(dir, 0, byte_len(dir) - 2) is Some
}

/// Whether a directory under `/sys/class/drm` belongs to the connector `drm_name`.
pub fn drm_dir_is_for(dir: &str, drm_name: &str) -> (r: bool)
    requires
        drm_dir_ok(dir@, drm_name@),
        byte_len(dir@) <= usize::MAX,
    ensures
        r == drm_dir_matches(dir@, drm_name@),
{
    if ends_with(dir, drm_name) {
        return true;
    }
    let n = crate::text::byte_len_of(dir);
    if n < 2 {
        return false;
    }
    let v = chars_of(dir);
    match byte_range_of(&v, 0, n - 2) {
        Some(cut) => ends_with(cut.as_str(), drm_name),
        None => false,
    }
}

/// The make and model of the connector `drm_name` from the directories of `/sys/class/drm`
/// (`dirs`: each name with what reading its `edid` file gave): the first directory of the
/// connector with a non-empty EDID gives them; without one they are unknown.
pub open spec fn edid_search(dirs: Seq<(Seq<char>, Result<Seq<u8>, Seq<char>>)>, drm_name: Seq<char>) -> Result<(Seq<char>, Seq<char>), Seq<char>>
    decreases dirs.len(),
{
    if dirs.len() == 0 {
        Ok(("Unknown"@, "Unknown"@))
    } else if !drm_dir_matches(dirs[0].0, drm_name) {
        edid_search(dirs.skip(1), drm_name)
    } else {
        match dirs[0].1 {
            Err(e) => Err("Unable to open /sys/class/drm/"@ + dirs[0].0 + "/edid: "@ + e),
            Ok(bytes) => if bytes.len() == 0 {
                edid_search(dirs.skip(1), drm_name)
            } else {
                Ok((edid_make(bytes), edid_model(bytes)))
            },
        }
    }
}


/// Directory names and EDIDs that the search can read without a panic, up to where it stops.
pub open spec fn edid_search_ok(dirs: Seq<(Seq<char>, Result<Seq<u8>, Seq<char>>)>, drm_name: Seq<char>) -> bool
    decreases dirs.len(),
{
    if dirs.len() == 0 {
        true
    } else {
        &&& drm_dir_ok(dirs[0].0, drm_name)
        &&& byte_len(dirs[0].0) <= usize::MAX
        &&& if !drm_dir_matches(dirs[0].0, drm_name) {
            edid_search_ok(dirs.skip(1), drm_name)
        } else {
            match dirs[0].1 {
                Err(_) => true,
                Ok(bytes) => if bytes.len() == 0 {
                    edid_search_ok(dirs.skip(1), drm_name)
                } else {
                    edid_ok(bytes)
                },
            }
        }
    }
}

/// The directories of `/sys/class/drm` as plain values.
pub open spec fn drm_dirs_view(dirs: Seq<(String, Result<Vec<u8>, String>)>) -> Seq<(Seq<char>, Result<Seq<u8>, Seq<char>>)> {
    dirs.map_values(|d: (String, Result<Vec<u8>, String>)| (d.0@, match d.1 {
        Ok(b) => Ok(b@),
        Err(e) => Err(e@),
    }))
}

/// The make and model of the connector `drm_name` from the directories of `/sys/class/drm`
/// (`dirs`, or the error met listing them).
pub fn get_edid_makemodel(drm_name: &str, dirs: Result<Vec<(String, Result<Vec<u8>, String>)>, String>) -> (r: Result<(String, String), String>)
    requires
        dirs matches Ok(ds) ==> edid_search_ok(drm_dirs_view(ds@), drm_name@),
    ensures
        match dirs {
            Err(e) => r matches Err(m) && m@ == "Unable to open /sys/class/drm: "@ + e@,
            Ok(ds) => match edid_search(drm_dirs_view(ds@), drm_name@) {
                Ok((make, model)) => r matches Ok(x) && x.0@ == make && x.1@ == model,
                Err(m) => r matches Err(x) && x@ == m,
            },
        },
{
    match dirs {
        Err(e) => {
            let mut m = copy_str("Unable to open /sys/class/drm: ");
            append_str(&mut m, e.as_str());
            Err(m)
        },
        Ok(ds) => {
            let ghost dv = drm_dirs_view(ds@);
            let mut i: usize = 0;
            assert(dv.skip(0) =~= dv);
            while i < ds.len()
                invariant
                    dirs matches Ok(d0) && d0@ == ds@,
                    dv == drm_dirs_view(ds@),
                    0 <= i <= ds@.len(),
                    edid_search(dv, drm_name@) == edid_search(dv.skip(i as int), drm_name@),
                    edid_search_ok(dv.skip(i as int), drm_name@),
                decreases ds@.len() - i,
            {
                let entry = &ds[i];
                let ghost t = dv.skip(i as int);
                assert(t[0] == dv[i as int]);
                assert(t.skip(1) =~= dv.skip(i + 1));
                assert(dv[i as int].0 == entry.0@);
                if !drm_dir_is_for(entry.0.as_str(), drm_name) {
                    i += 1;
                    continue;
                }
                match &entry.1 {
                    Err(e) => {
                        let mut m = copy_str("Unable to open /sys/class/drm/");
                        append_str(&mut m, entry.0.as_str());
                        append_str(&mut m, "/edid: ");
                        append_str(&mut m, e.as_str());
                        return Err(m);
                    },
                    Ok(bytes) => {
                        if bytes.len() == 0 {
                            i += 1;
                            continue;
                        }
                        let (make, model) = edid_make_model(bytes);
                        return Ok((make, model));
                    },
                }
            }
            assert(dv.skip(i as int).len() == 0);
            Ok((copy_str("Unknown"), copy_str("Unknown")))
        },
    }
}

/// What a Wayland output tells of itself: its name, scale, rotation, or mode (width, height, and
/// refresh rate rounded to whole hertz).
pub enum OutputEvent {
    Name(String),
    Scale(i32),
    Geometry(u16),
    Mode(i32, i32, u16),
    Other,
}

/// A size of a Wayland mode as the display keeps it: the number when it fits in 16 bits, else 0.
pub open spec fn mode_size(n: i32) -> u16 {
    if 0 <= n <= u16::MAX {
        n as u16
    } else {
        0
    }
}

impl DisplayInfo {
    /// Whether everything has been heard of the output: its name, size and refresh rate.
    pub open spec fn heard_all(&self) -> bool {
        self.name@.len() > 0 && self.width != 0 && self.height != 0 && self.refresh_rate != 0
    }

    /// Takes in one event of a Wayland output; tells whether the output is now fully known.
    pub fn apply_output_event(&mut self, event: OutputEvent) -> (r: bool)
        ensures
            match event {
                OutputEvent::Name(n) => final(self).name == n,
                _ => final(self).name == old(self).name,
            },
            match event {
                OutputEvent::Scale(f) => final(self).scale == f,
                _ => final(self).scale == old(self).scale,
            },
            match event {
                OutputEvent::Geometry(rot) => final(self).rotation == rot,
                _ => final(self).rotation == old(self).rotation,
            },
            match event {
                OutputEvent::Mode(w, h, rate) => final(self).width == mode_size(w) && final(self).height
                    == mode_size(h) && final(self).refresh_rate == rate,
                _ => final(self).width == old(self).width && final(self).height == old(self).height
                    && final(self).refresh_rate == old(self).refresh_rate,
            },
            final(self).make == old(self).make,
            final(self).model == old(self).model,
            r == final(self).heard_all(),
    {
        match event {
            OutputEvent::Name(n) => {
                self.name = n;
            },
            OutputEvent::Scale(f) => {
                self.scale = f;
            },
            OutputEvent::Geometry(rot) => {
                self.rotation = rot;
            },
            OutputEvent::Mode(w, h, rate) => {
                self.width = if 0 <= w && w <= 0xffff {
                    w as u16
                } else {
                    0
                };
                self.height = if 0 <= h && h <= 0xffff {
                    h as u16
                } else {
                    0
                };
                self.refresh_rate = rate;
            },
            OutputEvent::Other => {},
        }
        !self.name.as_str().is_empty() && self.width != 0 && self.height != 0 && self.refresh_rate != 0
    }
}

/// The display of a Wayland output once all of it has been heard: turned displays get width and
/// height swapped, the resolution is divided by the scale when `scale_size` asks for it, the
/// make and model come from the EDID (`edid`) or are `N/A` under WSL, and under WSL there is no
/// connector name either.
pub fn finish_wayland_display(
    display: DisplayInfo,
    scale_size: bool,
    info_flags: u32,
    in_wsl: bool,
    edid: Result<(String, String), String>,
) -> (r: Result<DisplayInfo, ModuleError>)
    requires
        scale_size ==> 0 < display.scale <= u16::MAX,
    ensures
        ({
            let turned = display.rotation % 180 != 0;
            let w = if turned { display.height } else { display.width };
            let h = if turned { display.width } else { display.height };
            let wants_edid = flag_set(info_flags, DISPLAYS_INFOFLAG_MAKE) || flag_set(info_flags, DISPLAYS_INFOFLAG_MODEL);
            if wants_edid && !in_wsl && edid is Err {
                r matches Err(e) && e.module_name@ == "Display"@ && e.message@ == "Cannot parse EDID: "@ + edid->Err_0@
            } else {
                r matches Ok(d) && d.width == (if scale_size { (w / (display.scale as u16)) as u16 } else { w })
                    && d.height == (if scale_size { (h / (display.scale as u16)) as u16 } else { h })
                    && d.rotation == display.rotation && d.refresh_rate == display.refresh_rate
                    && d.scale == display.scale
                    && d.make@ == (if !wants_edid { display.make@ } else if in_wsl { "N/A"@ } else { edid->Ok_0.0@ })
                    && d.model@ == (if !wants_edid { display.model@ } else if in_wsl { "N/A"@ } else { edid->Ok_0.1@ })
                    && d.name@ == (if flag_set(info_flags, DISPLAYS_INFOFLAG_DRM_NAME) && in_wsl { "N/A"@ } else { display.name@ })
            }
        }),
{
    let mut x = display;
    x.calc_rotation();
    if scale_size {
        x.scale_resolution();
    }
    if is_flag_set_u32(info_flags, DISPLAYS_INFOFLAG_MAKE) || is_flag_set_u32(info_flags, DISPLAYS_INFOFLAG_MODEL) {
        if in_wsl {
            x.make = copy_str("N/A");
            x.model = copy_str("N/A");
        } else {
            match edid {
                Ok((make, model)) => {
                    x.make = make;
                    x.model = model;
                },
                Err(e) => {
                    let mut m = copy_str("Cannot parse EDID: ");
                    append_str(&mut m, e.as_str());
                    return Err(ModuleError::new("Display", m));
                },
            }
        }
    }
    if is_flag_set_u32(info_flags, DISPLAYS_INFOFLAG_DRM_NAME) && in_wsl {
        x.name = copy_str("N/A");
    }
    Ok(x)
}

/// A display as plain values.
pub open spec fn display_view(d: DisplayInfo) -> (Seq<char>, Seq<char>, Seq<char>, u16, u16, i32, u16, u16) {
    (d.name@, d.make@, d.model@, d.width, d.height, d.scale, d.refresh_rate, d.rotation)
}

/// The key displays are ordered by: the name in lowercase.
pub open spec fn display_key(d: DisplayInfo) -> Seq<char> {
    lowercase(d.name@)
}

/// Whether a display, as plain values, has the ordering key `k`.
pub open spec fn has_key(k: Seq<char>) -> spec_fn((Seq<char>, Seq<char>, Seq<char>, u16, u16, i32, u16, u16)) -> bool {
    |v: (Seq<char>, Seq<char>, Seq<char>, u16, u16, i32, u16, u16)| lowercase(v.0) == k
}

/// The displays, as plain values, in order.
pub open spec fn displays_view(ds: Seq<DisplayInfo>) -> Seq<(Seq<char>, Seq<char>, Seq<char>, u16, u16, i32, u16, u16)> {
    ds.map_values(|d: DisplayInfo| display_view(d))
}

/// Nothing of `s` has the key `k`, so keeping what has it keeps nothing.
proof fn lemma_filter_none(s: Seq<(Seq<char>, Seq<char>, Seq<char>, u16, u16, i32, u16, u16)>, k: Seq<char>)
    requires
        forall|j: int| 0 <= j < s.len() ==> lowercase(#[trigger] s[j].0) != k,
    ensures
        s.filter(has_key(k)) == Seq::<(Seq<char>, Seq<char>, Seq<char>, u16, u16, i32, u16, u16)>::empty(),
    decreases s.len(),
{
    reveal(Seq::filter);
    if s.len() > 0 {
        let a = s.drop_last();
        assert forall|j: int| 0 <= j < a.len() implies lowercase(#[trigger] a[j].0) != k by {
            assert(a[j] == s[j]);
        }
        lemma_filter_none(a, k);
        assert(lowercase(s[s.len() - 1].0) != k);
    }
}

/// The displays ordered by name, ignoring case; displays whose names differ only in case keep
/// their order.
pub fn sort_displays(displays: Vec<DisplayInfo>) -> (r: Vec<DisplayInfo>)
    ensures
        r@.map_values(|d: DisplayInfo| display_view(d)).to_multiset() == displays@.map_values(
            |d: DisplayInfo| display_view(d),
        ).to_multiset(),
        forall|i: int, j: int|
            0 <= i < j < r@.len() ==> seq_lex_le(display_key(r@[i]), display_key(r@[j])),
        forall|k: Seq<char>|
            #[trigger] displays_view(r@).filter(has_key(k)) == displays_view(displays@).filter(has_key(k)),
{
    let ghost orig = displays@;
    let mut rest = displays;
    let mut out: Vec<DisplayInfo> = Vec::new();
    let mut keys: Vec<Vec<char>> = Vec::new();
    let ghost mut taken: Seq<DisplayInfo> = Seq::empty();
    assert(orig =~= taken + rest@);
    while rest.len() > 0
        invariant
            orig == taken + rest@,
            out@.map_values(|d: DisplayInfo| display_view(d)).to_multiset() == taken.map_values(
                |d: DisplayInfo| display_view(d),
            ).to_multiset(),
            keys@.len() == out@.len(),
            forall|k: int| 0 <= k < keys@.len() ==> keys@[k]@ == display_key(#[trigger] out@[k]),
            forall|i: int, j: int|
                0 <= i < j < out@.len() ==> seq_lex_le(display_key(out@[i]), display_key(out@[j])),
            forall|k: Seq<char>|
                #[trigger] displays_view(out@).filter(has_key(k)) == displays_view(taken).filter(has_key(k)),
        decreases rest@.len(),
    {
        let x = rest.remove(0);
        let lower = to_lowercase(x.name.as_str());
        let key = crate::text::chars_of(lower.as_str());
        let mut p: usize = 0;
        while p < out.len() && lex_le(&keys[p], &key)
            invariant
                0 <= p <= out@.len(),
                keys@.len() == out@.len(),
                forall|k: int| 0 <= k < keys@.len() ==> keys@[k]@ == display_key(#[trigger] out@[k]),
                forall|k: int| 0 <= k < p ==> seq_lex_le(display_key(#[trigger] out@[k]), key@),
                key@ == display_key(x),
                forall|i: int, j: int|
                    0 <= i < j < out@.len() ==> seq_lex_le(display_key(out@[i]), display_key(out@[j])),
            decreases out@.len() - p,
        {
            p += 1;
        }
        proof {
            if p < out@.len() {
                assert(!seq_lex_le(keys@[p as int]@, key@));
                lemma_lex_total(keys@[p as int]@, key@);
            }
        }
        let ghost before_out = out@;
        let ghost before_taken = taken;
        proof {
            assert forall|i: int, j: int| 0 <= i < j < before_out.len() + 1 implies seq_lex_le(
                display_key(before_out.insert(p as int, x)[i]),
                display_key(before_out.insert(p as int, x)[j]),
            ) by {
                let s = before_out.insert(p as int, x);
                if j == p {
                    assert(s[i] == before_out[i]);
                } else if i == p {
                    assert(s[j] == before_out[j - 1]);
                    if j - 1 > p {
                        lemma_lex_trans(display_key(x), display_key(before_out[p as int]), display_key(before_out[j - 1]));
                    }
                } else {
                    let a = if i < p { i } else { i - 1 };
                    let b = if j < p { j } else { j - 1 };
                    assert(s[i] == before_out[a]);
                    assert(s[j] == before_out[b]);
                    if i < p && j > p {
                        if b > p {
                            lemma_lex_trans(display_key(x), display_key(before_out[p as int]), display_key(before_out[b]));
                        }
                        lemma_lex_trans(display_key(before_out[a]), display_key(x), display_key(before_out[b]));
                    }
                }
            }
            taken = taken.push(x);
            assert(orig =~= taken + rest@);
        }
        keys.insert(p, key);
        out.insert(p, x);
        proof {
            let f = |d: DisplayInfo| display_view(d);
            assert(out@ == before_out.insert(p as int, x));
            assert(out@.map_values(f) =~= before_out.map_values(f).insert(p as int, f(x)));
            assert(taken.map_values(f) =~= before_taken.map_values(f).push(f(x)));
            vstd::seq_lib::to_multiset_insert(before_out.map_values(f), p as int, f(x));
            vstd::seq_lib::to_multiset_build(before_taken.map_values(f), f(x));
            let vo = displays_view(before_out);
            let vx = display_view(x);
            assert(displays_view(out@) =~= vo.take(p as int) + seq![vx] + vo.skip(p as int));
            assert(vo =~= vo.take(p as int) + vo.skip(p as int));
            assert forall|k: Seq<char>| #[trigger] displays_view(out@).filter(has_key(k)) == displays_view(taken).filter(
                has_key(k),
            ) by {
                let g = has_key(k);
                let a = vo.take(p as int);
                let b = vo.skip(p as int);
                Seq::filter_distributes_over_add(a + seq![vx], b, g);
                Seq::filter_distributes_over_add(a, seq![vx], g);
                Seq::filter_distributes_over_add(a, b, g);
                reveal_with_fuel(Seq::filter, 2);
                assert(seq![vx].drop_last() =~= Seq::<(Seq<char>, Seq<char>, Seq<char>, u16, u16, i32, u16, u16)>::empty());
                let vt = displays_view(taken);
                assert(vt.drop_last() =~= displays_view(before_taken));
                assert(vt.last() == vx);
                if lowercase(vx.0) == k {
                    assert forall|j: int| 0 <= j < b.len() implies lowercase(#[trigger] b[j].0) != k by {
                        assert(b[j] == display_view(before_out[p + j]));
                        assert(seq_lex_le(display_key(before_out[p as int]), display_key(before_out[p + j]))
                            || j == 0);
                    }
                    lemma_filter_none(b, k);
                }
            }
        }
    }
    assert(taken =~= orig);
    out
}

/// Where the displays are read from.
#[derive(Debug, Clone, Copy, PartialEq, Eq, Structural)]
pub enum DisplayServer {
    Wayland,
    Xorg,
}

/// The display server to ask: Wayland when `$WAYLAND_DISPLAY` is set, X11 when `$DISPLAY` is;
/// with neither the displays cannot be found.
pub fn get_displays(wayland_display: bool, x_display: bool) -> (r: Result<DisplayServer, ModuleError>)
    ensures
        wayland_display ==> r == Ok::<DisplayServer, ModuleError>(DisplayServer::Wayland),
        !wayland_display && x_display ==> r == Ok::<DisplayServer, ModuleError>(DisplayServer::Xorg),
        !wayland_display && !x_display ==> (r matches Err(e) && e.module_name@ == "Display"@ && e.message@
            == "Could not identify desktop session type."@),
{
    if wayland_display {
        Ok(DisplayServer::Wayland)
    } else if x_display {
        Ok(DisplayServer::Xorg)
    } else {
        Err(ModuleError::new("Display", copy_str("Could not identify desktop session type.")))
    }
}

/// The details that the display entries need: those of the format and of the title together.
pub fn displays_info_flags(config: &Configuration) -> (r: u32)
    ensures
        ({
            let text = config.displays.format@ + config.displays.title@;
            &&& flag_set(r, DISPLAYS_INFOFLAG_DRM_NAME) == (seq_contains(text, "{name}"@) || seq_contains(text, "{make}"@)
                || seq_contains(text, "{model}"@))
            &&& flag_set(r, DISPLAYS_INFOFLAG_MAKE) == seq_contains(text, "{make}"@)
            &&& flag_set(r, DISPLAYS_INFOFLAG_MODEL) == seq_contains(text, "{model}"@)
            &&& flag_set(r, DISPLAYS_INFOFLAG_WIDTH) == seq_contains(text, "{width}"@)
            &&& flag_set(r, DISPLAYS_INFOFLAG_HEIGHT) == seq_contains(text, "{height}"@)
            &&& flag_set(r, DISPLAYS_INFOFLAG_REFRESH_RATE) == seq_contains(text, "{refresh_rate}"@)
        }),
{
    let mut text = copy_str(config.displays.format.as_str());
    append_str(&mut text, config.displays.title.as_str());
    DisplayInfo::gen_info_flags(text.as_str())
}

/// How far the reading of Wayland outputs has come: whether it is done, and how many outputs
/// are still to be heard of.
pub struct WaylandState {
    pub complete: bool,
    pub num_outputs: u8,
}

impl WaylandState {
    /// Nothing heard yet.
    pub fn new() -> (r: WaylandState)
        ensures
            !r.complete && r.num_outputs == 0,
    {
        WaylandState { complete: false, num_outputs: 0 }
    }

    /// A global of the registry was announced; outputs (`wl_output`) are bound and counted.
    /// Tells whether to bind it.
    pub fn on_global(&mut self, interface: &str) -> (r: bool)
        requires
            interface@ == "wl_output"@ ==> old(self).num_outputs < u8::MAX,
        ensures
            r == (interface@ == "wl_output"@),
            final(self).num_outputs == old(self).num_outputs + (if r { 1int } else { 0int }),
            final(self).complete == old(self).complete,
    {
        if crate::text::str_eq(interface, "wl_output") {
            self.num_outputs = self.num_outputs + 1;
            true
        } else {
            false
        }
    }

    /// An output has been heard of completely: once the count is exhausted reading is done.
    pub fn on_output_done(&mut self)
        ensures
            old(self).num_outputs == 0 ==> final(self).complete && final(self).num_outputs == 0,
            old(self).num_outputs > 0 ==> final(self).complete == old(self).complete && final(self).num_outputs
                == old(self).num_outputs - 1,
    {
        if self.num_outputs == 0 {
            self.complete = true;
            return;
        }
        self.num_outputs = self.num_outputs - 1;
    }
}
/// Whether a Wayland output's EDID is read: when the format shows the make or the model, and
/// not under WSL, which has no EDID to read.
pub fn wayland_reads_edid(info_flags: u32, in_wsl: bool) -> (r: bool)
    ensures
        r == ((flag_set(info_flags, DISPLAYS_INFOFLAG_MAKE) || flag_set(info_flags, DISPLAYS_INFOFLAG_MODEL)) && !in_wsl),
{
    (is_flag_set_u32(info_flags, DISPLAYS_INFOFLAG_MAKE) || is_flag_set_u32(info_flags, DISPLAYS_INFOFLAG_MODEL)) && !in_wsl
}

/// The count of Wayland roundtrips after one more: the compositor is given up on once it has
/// taken more than 1000.
pub fn count_roundtrip(loops: u16) -> (r: Result<u16, ModuleError>)
    requires
        loops <= 1000,
    ensures
        loops < 1000 ==> r == Ok::<u16, ModuleError>((loops + 1) as u16),
        loops == 1000 ==> (r matches Err(e) && e.module_name@ == "Display"@
            && e.message@ == "Wayland compositor took too long to respond; over 1000 event loops have passed."@),
{
    let next: u16 = loops + 1;
    if next > 1000 {
        return Err(ModuleError::new("Display", copy_str("Wayland compositor took too long to respond; over 1000 event loops have passed.")));
    }
    Ok(next)
}

} // verus!
