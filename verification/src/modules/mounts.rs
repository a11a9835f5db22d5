use vstd::prelude::*;
use vstd::string::StrSliceExecFns;
use crate::color::CrabFetchColor;
use crate::config::Configuration;
use crate::module::{
    entry_styled, module_styled, percent_rendered, process_percentage_placeholder, style_entry,
    style_module, Percentage,
};
use crate::text::{
    byte_range, byte_range_of, chars_of, copy_str, is_whitespace, is_ws, replace_str,
    contains_str, seq_contains, seq_replace, seq_starts_with, seq_trim, starts_with, str_contains, str_eq,
    string_of_range, trim, lemma_absent_by_char, lemma_replace_absent, lemma_replace_whole,
};
use crate::util::{bit_if, flag_set, is_flag_set_u32, lemma_flags6};

verus! {

/// The options of the mounts entry.
pub struct MountConfiguration {
    pub title: String,
    pub title_color: Option<CrabFetchColor>,
    pub title_bold: Option<bool>,
    pub title_italic: Option<bool>,
    pub separator: Option<String>,
    pub format: String,
    pub progress_left_border: Option<String>,
    pub progress_right_border: Option<String>,
    pub progress_progress: Option<String>,
    pub progress_empty: Option<String>,
    pub progress_target_length: Option<u8>,
    pub decimal_places: Option<u32>,
    pub use_ibis: Option<bool>,
    pub ignore: Vec<String>,
}

/// A mounted file system: the device, where it is mounted, its file system type, and its
/// free and total space in kilobytes.
pub struct MountInfo {
    pub device: String,
    pub mount: String,
    pub filesystem: String,
    pub space_avail_kb: u64,
    pub space_total_kb: u64,
}

/// The device is wanted.
pub const MOUNTS_INFOFLAG_DEVICE: u32 = 1;
/// The used space is wanted.
pub const MOUNTS_INFOFLAG_SPACE_USED: u32 = 4;
/// The total space is wanted.
pub const MOUNTS_INFOFLAG_SPACE_TOTAL: u32 = 8;
/// The free space is wanted.
pub const MOUNTS_INFOFLAG_SPACE_AVAIL: u32 = 16;

/// A mount is left out when its mount point or file system type begins with one of the
/// non-empty ignore prefixes.
pub open spec fn ignored_by(mount: Seq<char>, filesystem: Seq<char>, ignore: Seq<Seq<char>>) -> bool {
    exists|j: int|
        0 <= j < ignore.len() && ignore[j].len() > 0 && (seq_starts_with(mount, #[trigger] ignore[j])
            || seq_starts_with(filesystem, ignore[j]))
}

/// The title of a mount with its placeholders filled in.
pub open spec fn mount_title(title: Seq<char>, device: Seq<char>, mount: Seq<char>, filesystem: Seq<char>) -> Seq<char> {
    seq_replace(
        seq_replace(seq_replace(title, "{device}"@, device), "{mount}"@, mount),
        "{filesystem}"@,
        filesystem,
    )
}

impl MountInfo {
    /// A mount that nothing is known of.
    pub fn new() -> (r: MountInfo)
        ensures
            r.device@ == "Unknown"@,
            r.mount@ == "Unknown"@,
            r.filesystem@ == "Unknown"@,
            r.space_avail_kb == 0,
            r.space_total_kb == 0,
    {
        MountInfo {
            device: copy_str("Unknown"),
            mount: copy_str("Unknown"),
            filesystem: copy_str("Unknown"),
            space_avail_kb: 0,
            space_total_kb: 0,
        }
    }

    /// Whether the configuration leaves this mount out.
    pub fn is_ignored(&self, config: &Configuration) -> (r: bool)
        ensures
            r == ignored_by(self.mount@, self.filesystem@, config.mounts.ignore.deep_view()),
    {
        ignored(self.mount.as_str(), self.filesystem.as_str(), &config.mounts.ignore)
    }

    /// The width, in characters, of this mount's title.
    pub fn get_title_size(&self, config: &Configuration) -> (r: u64)
        ensures
            r == mount_title(config.mounts.title@, self.device@, self.mount@, self.filesystem@).len(),
    {
        proof {
            reveal_strlit("{device}");
            reveal_strlit("{mount}");
            reveal_strlit("{filesystem}");
        }
        let t1 = replace_str(config.mounts.title.as_str(), "{device}", self.device.as_str());
        let t2 = replace_str(t1.as_str(), "{mount}", self.mount.as_str());
        let t3 = replace_str(t2.as_str(), "{filesystem}", self.filesystem.as_str());
        t3.as_str().unicode_len() as u64
    }
}

/// Whether `mount` or `filesystem` begins with one of the non-empty prefixes of `ignore`.
fn ignored(mount: &str, filesystem: &str, ignore: &Vec<String>) -> (r: bool)
    ensures
        r == ignored_by(mount@, filesystem@, ignore.deep_view()),
{
    let ghost ig = ignore.deep_view();
    let mut i: usize = 0;
    while i < ignore.len()
        invariant
            0 <= i <= ignore.len(),
            ig == ignore.deep_view(),
            forall|j: int|
                0 <= j < i ==> !(ig[j].len() > 0 && (seq_starts_with(mount@, #[trigger] ig[j])
                    || seq_starts_with(filesystem@, ig[j]))),
        decreases ignore.len() - i,
    {
        let x = ignore[i].as_str();
        assert(x@ == ig[i as int]);
        if x.unicode_len() != 0 && (starts_with(mount, x) || starts_with(filesystem, x)) {
            return true;
        }
        i += 1;
    }
    false
}

/// The details that the entry's format and title ask for; a progress bar needs the used and
/// total space.
pub fn gen_info_flags(format: &str) -> (r: u32)
    ensures
        flag_set(r, MOUNTS_INFOFLAG_DEVICE) == seq_contains(format@, "{device}"@),
        flag_set(r, MOUNTS_INFOFLAG_SPACE_USED) == (seq_contains(format@, "{space_used}"@)
            || seq_contains(format@, "bar"@)),
        flag_set(r, MOUNTS_INFOFLAG_SPACE_AVAIL) == seq_contains(format@, "{space_avail}"@),
        flag_set(r, MOUNTS_INFOFLAG_SPACE_TOTAL) == (seq_contains(format@, "{space_total}"@)
            || seq_contains(format@, "bar"@)),
        !flag_set(r, 2),
{
    let device = str_contains(format, "{device}");
    let bar = str_contains(format, "bar");
    let used = str_contains(format, "{space_used}") || bar;
    let avail = str_contains(format, "{space_avail}");
    let total = str_contains(format, "{space_total}") || bar;
    let mut info_flags: u32 = 0;
    if device {
        info_flags = info_flags + MOUNTS_INFOFLAG_DEVICE;
    }
    if used {
        info_flags = info_flags + MOUNTS_INFOFLAG_SPACE_USED;
    }
    if total {
        info_flags = info_flags + MOUNTS_INFOFLAG_SPACE_TOTAL;
    }
    if avail {
        info_flags = info_flags + MOUNTS_INFOFLAG_SPACE_AVAIL;
    }
    proof {
        assert(info_flags == bit_if(device, 1) + bit_if(false, 2) + bit_if(used, 4) + bit_if(total, 8)
            + bit_if(avail, 16) + bit_if(false, 32));
        lemma_flags6(info_flags, device, false, used, total, avail, false);
    }
    info_flags
}

/// Whether any of the space figures is wanted, which needs asking the file system.
pub fn wants_space(info_flags: u32) -> (r: bool)
    ensures
        r == flag_set(info_flags, MOUNTS_INFOFLAG_SPACE_AVAIL | MOUNTS_INFOFLAG_SPACE_USED | MOUNTS_INFOFLAG_SPACE_TOTAL),
{
    is_flag_set_u32(info_flags, MOUNTS_INFOFLAG_SPACE_AVAIL | MOUNTS_INFOFLAG_SPACE_USED | MOUNTS_INFOFLAG_SPACE_TOTAL)
}

/// The pieces of `s` between spaces and tabs.
pub open spec fn split_blanks(s: Seq<char>) -> Seq<Seq<char>>
    decreases s.len(),
{
    if s.len() == 0 {
        seq![Seq::<char>::empty()]
    } else {
        let rest = split_blanks(s.drop_last());
        if s.last() == ' ' || s.last() == '\t' {
            rest.push(Seq::<char>::empty())
        } else {
            rest.update(rest.len() - 1, rest.last().push(s.last()))
        }
    }
}

/// The pieces that hold more than whitespace, trimmed.
pub open spec fn kept_fields(ps: Seq<Seq<char>>) -> Seq<Seq<char>>
    decreases ps.len(),
{
    if ps.len() == 0 {
        Seq::<Seq<char>>::empty()
    } else {
        let rest = kept_fields(ps.drop_last());
        if seq_trim(ps.last()).len() == 0 {
            rest
        } else {
            rest.push(seq_trim(ps.last()))
        }
    }
}

/// The fields of an `/etc/mtab` line: its pieces between spaces and tabs that hold more than
/// whitespace, trimmed.
pub open spec fn mtab_fields_spec(line: Seq<char>) -> Seq<Seq<char>> {
    kept_fields(split_blanks(line))
}

/// `split_blanks` never gives an empty list.
proof fn lemma_split_blanks_nonempty(s: Seq<char>)
    ensures
        split_blanks(s).len() > 0,
    decreases s.len(),
{
    if s.len() > 0 {
        lemma_split_blanks_nonempty(s.drop_last());
    }
}

/// The fields of an `/etc/mtab` line.
pub fn mtab_fields(line: &str) -> (r: Vec<String>)
    ensures
        r.deep_view() == mtab_fields_spec(line@),
{
    let v = chars_of(line);
    let mut fields: Vec<String> = Vec::new();
    let mut start: usize = 0;
    let mut i: usize = 0;
    assert(v@.take(0) =~= Seq::<char>::empty());
    while i < v.len()
        invariant
            0 <= start <= i <= v.len(),
            v@ == line@,
            split_blanks(v@.take(i as int)).len() > 0,
            split_blanks(v@.take(i as int)).last() == v@.subrange(start as int, i as int),
            fields.deep_view() == kept_fields(split_blanks(v@.take(i as int)).drop_last()),
        decreases v.len() - i,
    {
        let ghost t = v@.take(i as int);
        let ghost t1 = v@.take(i + 1);
        assert(t1.drop_last() =~= t);
        assert(t1.last() == v@[i as int]);
        proof {
            lemma_split_blanks_nonempty(t);
        }
        if v[i] == ' ' || v[i] == '\t' {
            let piece = string_of_range(&v, start, i);
            let tp = trim(piece.as_str());
            let ghost before = fields.deep_view();
            assert(split_blanks(t1) == split_blanks(t).push(Seq::<char>::empty()));
            assert(split_blanks(t1).drop_last() =~= split_blanks(t));
            assert(split_blanks(t) =~= split_blanks(t).drop_last().push(split_blanks(t).last()));
            if tp.as_str().unicode_len() != 0 {
                fields.push(tp);
                assert(fields.deep_view() =~= before.push(tp@));
            }
            start = i + 1;
            i += 1;
            assert(v@.subrange(start as int, i as int) =~= Seq::<char>::empty());
        } else {
            let ghost r0 = split_blanks(t);
            assert(split_blanks(t1) == r0.update(r0.len() - 1, r0.last().push(v@[i as int])));
            assert(split_blanks(t1).drop_last() =~= r0.drop_last());
            i += 1;
            assert(v@.subrange(start as int, i as int) =~= v@.subrange(start as int, i - 1).push(v@[i - 1]));
        }
    }
    let piece = string_of_range(&v, start, i);
    let tp = trim(piece.as_str());
    let ghost before = fields.deep_view();
    assert(v@.take(i as int) =~= v@);
    let ghost all = split_blanks(v@);
    assert(all =~= all.drop_last().push(all.last()));
    if tp.as_str().unicode_len() != 0 {
        fields.push(tp);
        assert(fields.deep_view() =~= before.push(tp@));
    }
    fields
}

/// Where a device named by `UUID=`, `LABEL=` or `PARTLABEL=` is linked from: the matching
/// directory of `/dev/disk` joined with the rest of the name (a rest that is an absolute path
/// stands alone, as path joining does). `None` for a device named directly.
pub open spec fn device_link_spec(name: Seq<char>) -> Option<Seq<char>> {
    if seq_starts_with(name, "UUID="@) {
        Some(joined("/dev/disk/by-uuid/"@, name.skip(5)))
    } else if seq_starts_with(name, "LABEL="@) {
        Some(joined("/dev/disk/by-label/"@, name.skip(6)))
    } else if seq_starts_with(name, "PARTLABEL="@) {
        Some(joined("/dev/disk/by-partlabel/"@, name.skip(10)))
    } else {
        None
    }
}

/// A directory (ending in `/`) joined with a relative path, or the path itself when it is
/// absolute.
pub open spec fn joined(dir: Seq<char>, rest: Seq<char>) -> Seq<char> {
    if rest.len() > 0 && rest[0] == '/' { rest } else { dir + rest }
}

/// The link to resolve for a device named by UUID, label or partition label; `None` when the
/// name is the device itself.
pub fn device_link(name: &str) -> (r: Option<String>)
    ensures
        r.deep_view() == device_link_spec(name@),
{
    proof {
        reveal_strlit("UUID=");
        reveal_strlit("LABEL=");
        reveal_strlit("PARTLABEL=");
    }
    let v = chars_of(name);
    if starts_with(name, "UUID=") {
        Some(join_link("/dev/disk/by-uuid/", &v, 5))
    } else if starts_with(name, "LABEL=") {
        Some(join_link("/dev/disk/by-label/", &v, 6))
    } else if starts_with(name, "PARTLABEL=") {
        Some(join_link("/dev/disk/by-partlabel/", &v, 10))
    } else {
        None
    }
}

/// `dir` joined with the characters of `v` from `from` on.
fn join_link(dir: &str, v: &Vec<char>, from: usize) -> (r: String)
    requires
        from <= v.len(),
    ensures
        r@ == joined(dir@, v@.skip(from as int)),
{
    let rest = string_of_range(v, from, v.len());
    assert(v@.subrange(from as int, v@.len() as int) == v@.skip(from as int));
    if from < v.len() && v[from] == '/' {
        rest
    } else {
        let mut r = copy_str(dir);
        crate::text::append_str(&mut r, rest.as_str());
        r
    }
}

/// Reading whether a device is wanted can go wrong inside WSL, where the second and third
/// bytes of its name are looked at: they must exist and lie between characters.
pub open spec fn device_check_ok(device: Seq<char>, in_wsl: bool) -> bool {
    in_wsl ==> byte_range(device, 1, 3) is Some
}

/// A device is shown when it is a path under `/`, or, inside WSL, a Windows drive (`C:\`).
pub open spec fn device_wanted(device: Seq<char>, in_wsl: bool) -> bool {
    (in_wsl && byte_range(device, 1, 3) == Some(seq![':', '\\'])) || seq_starts_with(device, "/"@)
}

/// Whether a device is shown.
pub fn is_device_wanted(device: &str, in_wsl: bool) -> (r: bool)
    requires
        device_check_ok(device@, in_wsl),
    ensures
        r == device_wanted(device@, in_wsl),
{
    proof {
        reveal_strlit(":\\");
        reveal_strlit("/");
    }
    if in_wsl {
        let v = chars_of(device);
        match byte_range_of(&v, 1, 3) {
            Some(s) => {
                let drive = str_eq(s.as_str(), ":\\");
                assert(byte_range(device@, 1, 3) == Some(s@));
                assert(":\\"@ =~= seq![':', '\\']);
                if drive {
                    return true;
                }
            },
            None => {},
        }
    }
    starts_with(device, "/")
}

/// What one line of `/etc/mtab` does to the scan.
pub enum MountLine {
    /// The line is passed over; the devices seen are now these.
    Skip(Seq<Seq<char>>),
    /// The line gives a mount (device, mount point, file system type).
    Keep(Seq<Seq<char>>, Seq<char>, Seq<char>, Seq<char>),
    /// The reading the scan follows cannot take the line.
    Stuck,
}

/// One line of `/etc/mtab`, with `seen` the device names met so far. Comments and blank lines
/// are passed over. The first field names the device: directly, or through a link whose
/// target is `resolved` (`None` when it could not be resolved, which passes the line over). A
/// device already met is passed over; otherwise its name as written is remembered, and it
/// must be wanted. The second field is the mount point (`\040` standing for a space), which
/// must not be `none` or `swap`; the third is the file system type; a mount the configuration
/// ignores is passed over.
pub open spec fn mount_line(
    seen: Seq<Seq<char>>,
    line: Seq<char>,
    resolved: Option<Seq<char>>,
    in_wsl: bool,
    ignore: Seq<Seq<char>>,
) -> MountLine {
    if seq_starts_with(line, "#"@) || seq_trim(line).len() == 0 {
        MountLine::Skip(seen)
    } else {
        let e = mtab_fields_spec(line);
        if e.len() == 0 {
            MountLine::Stuck
        } else {
            let dev = if device_link_spec(e[0]) is Some { resolved } else { Some(e[0]) };
            match dev {
                None => MountLine::Skip(seen),
                Some(d) => if seen.contains(d) {
                    MountLine::Skip(seen)
                } else {
                    let seen2 = seen.push(e[0]);
                    if !device_check_ok(d, in_wsl) {
                        MountLine::Stuck
                    } else if !device_wanted(d, in_wsl) {
                        MountLine::Skip(seen2)
                    } else if e.len() < 2 {
                        MountLine::Stuck
                    } else {
                        let mp = seq_replace(e[1], "\\040"@, " "@);
                        if mp == "none"@ || mp == "swap"@ {
                            MountLine::Skip(seen2)
                        } else if e.len() < 3 {
                            MountLine::Stuck
                        } else if ignored_by(mp, e[2], ignore) {
                            MountLine::Skip(seen2)
                        } else {
                            MountLine::Keep(seen2, d, mp, e[2])
                        }
                    }
                },
            }
        }
    }
}

/// The mounts that lines `i..` of `/etc/mtab` give, as (device, mount point, file system)
/// triples, with `seen` the devices met before; `None` when the scan gets stuck.
pub open spec fn mount_scan(
    lines: Seq<Seq<char>>,
    resolved: Seq<Option<Seq<char>>>,
    in_wsl: bool,
    ignore: Seq<Seq<char>>,
    i: int,
    seen: Seq<Seq<char>>,
) -> Option<Seq<(Seq<char>, Seq<char>, Seq<char>)>>
    decreases lines.len() - i,
{
    if i < 0 || i >= lines.len() {
        Some(Seq::empty())
    } else {
        match mount_line(seen, lines[i], resolved[i], in_wsl, ignore) {
            MountLine::Stuck => None,
            MountLine::Skip(s2) => mount_scan(lines, resolved, in_wsl, ignore, i + 1, s2),
            MountLine::Keep(s2, d, m, f) => match mount_scan(lines, resolved, in_wsl, ignore, i + 1, s2) {
                Some(rest) => Some(seq![(d, m, f)] + rest),
                None => None,
            },
        }
    }
}

/// A mount that may be shown: its device is wanted, its mount point is neither `none` nor
/// `swap`, and the configuration does not ignore it.
pub open spec fn mount_shown(
    m: (Seq<char>, Seq<char>, Seq<char>),
    in_wsl: bool,
    ignore: Seq<Seq<char>>,
) -> bool {
    &&& device_wanted(m.0, in_wsl)
    &&& m.1 != "none"@
    &&& m.1 != "swap"@
    &&& !ignored_by(m.1, m.2, ignore)
}

/// Every mount that the scan of `/etc/mtab` gives may be shown: ignored mounts, unwanted
/// devices and `none`/`swap` mount points never come out.
pub proof fn lemma_scan_only_shown(
    lines: Seq<Seq<char>>,
    resolved: Seq<Option<Seq<char>>>,
    in_wsl: bool,
    ignore: Seq<Seq<char>>,
    i: int,
    seen: Seq<Seq<char>>,
)
    ensures
        mount_scan(lines, resolved, in_wsl, ignore, i, seen) matches Some(ms) ==> forall|k: int|
            0 <= k < ms.len() ==> mount_shown(#[trigger] ms[k], in_wsl, ignore),
    decreases lines.len() - i,
{
    if 0 <= i < lines.len() {
        match mount_line(seen, lines[i], resolved[i], in_wsl, ignore) {
            MountLine::Stuck => {},
            MountLine::Skip(s2) => {
                lemma_scan_only_shown(lines, resolved, in_wsl, ignore, i + 1, s2);
            },
            MountLine::Keep(s2, d, m, f) => {
                lemma_scan_only_shown(lines, resolved, in_wsl, ignore, i + 1, s2);
                match mount_scan(lines, resolved, in_wsl, ignore, i + 1, s2) {
                    Some(rest) => {
                        let all = seq![(d, m, f)] + rest;
                        assert forall|k: int| 0 <= k < all.len() implies mount_shown(#[trigger] all[k], in_wsl, ignore) by {
                            if k > 0 {
                                assert(all[k] == rest[k - 1]);
                            }
                        }
                    },
                    None => {},
                }
            },
        }
    }
}

/// The (device, mount point, file system) of each mount.
pub open spec fn mounts_view(ms: Seq<MountInfo>) -> Seq<(Seq<char>, Seq<char>, Seq<char>)> {
    ms.map_values(|m: MountInfo| (m.device@, m.mount@, m.filesystem@))
}


/// The mounts that `/etc/mtab`, given as its lines, shows, in order, their space not yet
/// asked for. `resolved[i]` is the device that the link named on line `i` leads to, where
/// that line names one (see `device_link`); `in_wsl` says whether this runs inside WSL.
pub fn select_mounts(
    lines: &Vec<String>,
    resolved: &Vec<Option<String>>,
    in_wsl: bool,
    config: &Configuration,
) -> (r: Vec<MountInfo>)
    requires
        resolved.len() == lines.len(),
        mount_scan(lines.deep_view(), resolved.deep_view(), in_wsl, config.mounts.ignore.deep_view(), 0, Seq::empty()) is Some,
    ensures
        mount_scan(lines.deep_view(), resolved.deep_view(), in_wsl, config.mounts.ignore.deep_view(), 0, Seq::empty())
            == Some(mounts_view(r@)),
        forall|j: int| 0 <= j < r@.len() ==> (#[trigger] r@[j]).space_avail_kb == 0 && r@[j].space_total_kb == 0,
{
    let ghost ls = lines.deep_view();
    let ghost rs = resolved.deep_view();
    let ghost ig = config.mounts.ignore.deep_view();
    let mut seen: Vec<String> = Vec::new();
    let mut out: Vec<MountInfo> = Vec::new();
    let mut i: usize = 0;
    assert(seen.deep_view() =~= Seq::<Seq<char>>::empty());
    assert(mounts_view(out@) =~= Seq::<(Seq<char>, Seq<char>, Seq<char>)>::empty());
    while i < lines.len()
        invariant
            0 <= i <= lines.len(),
            resolved.len() == lines.len(),
            ls == lines.deep_view(),
            rs == resolved.deep_view(),
            ig == config.mounts.ignore.deep_view(),
            mount_scan(ls, rs, in_wsl, ig, i as int, seen.deep_view()) is Some,
            mount_scan(ls, rs, in_wsl, ig, 0, Seq::empty())
                == Some(mounts_view(out@) + mount_scan(ls, rs, in_wsl, ig, i as int, seen.deep_view())->0),
            forall|j: int| 0 <= j < out@.len() ==> (#[trigger] out@[j]).space_avail_kb == 0 && out@[j].space_total_kb == 0,
        decreases lines.len() - i,
    {
        let ghost sv = seen.deep_view();
        let ghost rest_here = mount_scan(ls, rs, in_wsl, ig, i as int, sv)->0;
        let line = lines[i].as_str();
        assert(line@ == ls[i as int]);
        assert(resolved@[i as int].deep_view() == rs[i as int]);
        proof {
            reveal_strlit("#");
            reveal_strlit("none");
            reveal_strlit("swap");
            reveal_strlit("\\040");
            reveal_strlit(" ");
        }
        let t = trim(line);
        if starts_with(line, "#") || t.as_str().unicode_len() == 0 {
            i += 1;
            continue;
        }
        let e = mtab_fields(line);
        assert(e.deep_view() == mtab_fields_spec(ls[i as int]));
        assert(e@[0]@ == e.deep_view()[0]);
        let link = device_link(e[0].as_str());
        let dev: Option<String> = match link {
            Some(_) => match &resolved[i] {
                Some(d) => Some(copy_str(d.as_str())),
                None => None,
            },
            None => Some(copy_str(e[0].as_str())),
        };
        let d = match dev {
            None => {
                i += 1;
                continue;
            },
            Some(d) => d,
        };
        if contains_str(&seen, d.as_str()) {
            i += 1;
            continue;
        }
        let raw = copy_str(e[0].as_str());
        seen.push(raw);
        assert(seen.deep_view() =~= sv.push(e.deep_view()[0]));
        if !is_device_wanted(d.as_str(), in_wsl) {
            i += 1;
            continue;
        }
        assert(e@[1]@ == e.deep_view()[1]);
        let mp = replace_str(e[1].as_str(), "\\040", " ");
        if str_eq(mp.as_str(), "none") || str_eq(mp.as_str(), "swap") {
            i += 1;
            continue;
        }
        assert(e@[2]@ == e.deep_view()[2]);
        if ignored(mp.as_str(), e[2].as_str(), &config.mounts.ignore) {
            i += 1;
            continue;
        }
        let m = MountInfo {
            device: d,
            mount: mp,
            filesystem: copy_str(e[2].as_str()),
            space_avail_kb: 0,
            space_total_kb: 0,
        };
        let ghost before = out@;
        out.push(m);
        assert(mounts_view(out@) =~= mounts_view(before).push((m.device@, m.mount@, m.filesystem@)));
        assert(mounts_view(out@) + mount_scan(ls, rs, in_wsl, ig, i + 1, seen.deep_view())->0
            =~= mounts_view(before) + rest_here);
        i += 1;
    }
    assert(mounts_view(out@) + Seq::<(Seq<char>, Seq<char>, Seq<char>)>::empty() =~= mounts_view(out@));
    out
}

/// Fills in a mount's space from what the file system reports: `blocks` blocks of `bsize`
/// bytes, `bfree` of them free, in kilobytes (thousands of bytes, rounded down).
pub fn apply_statfs(mount: MountInfo, blocks: u64, bfree: u64, bsize: u64) -> (r: MountInfo)
    requires
        blocks * bsize <= u64::MAX,
        bfree * bsize <= u64::MAX,
    ensures
        r.device == mount.device && r.mount == mount.mount && r.filesystem == mount.filesystem,
        r.space_total_kb == (blocks * bsize) / 1000,
        r.space_avail_kb == (bfree * bsize) / 1000,
{
    let mut mount = mount;
    mount.space_total_kb = (blocks * bsize) / 1000;
    mount.space_avail_kb = (bfree * bsize) / 1000;
    mount
}

/// The space of a mount, as the entry writes it: the used, free and total sizes (already
/// written with their units) and the share used.
pub struct MountSpace {
    pub used: String,
    pub avail: String,
    pub total: String,
    pub percentage: Percentage,
}

impl MountInfo {
    /// `text` with `{percent}` replaced by `percent`, then the mount's other placeholders filled
    /// in (the bar is left empty).
    pub open spec fn filled(&self, space: MountSpace, text: Seq<char>, percent: Seq<char>) -> Seq<char> {
        let t = seq_replace(text, "{percent}"@, percent);
        let t = seq_replace(t, "{device}"@, self.device@);
        let t = seq_replace(t, "{mount}"@, self.mount@);
        let t = seq_replace(t, "{filesystem}"@, self.filesystem@);
        let t = seq_replace(t, "{space_used}"@, space.used@);
        let t = seq_replace(t, "{space_avail}"@, space.avail@);
        let t = seq_replace(t, "{space_total}"@, space.total@);
        seq_replace(t, "{bar}"@, Seq::<char>::empty())
    }

    /// Fills in the placeholders of `text`.
    pub fn replace_placeholders(&self, text: &str, config: &Configuration, space: &MountSpace) -> (r: String)
        ensures
            exists|p: Seq<char>|
                percent_rendered(*config, space.percentage.text@, space.percentage.whole, p) && r@ == self.filled(
                    *space,
                    text@,
                    p,
                ),
    {
        proof {
            reveal_strlit("{device}");
            reveal_strlit("{mount}");
            reveal_strlit("{filesystem}");
            reveal_strlit("{space_used}");
            reveal_strlit("{space_avail}");
            reveal_strlit("{space_total}");
            reveal_strlit("{bar}");
            reveal_strlit("");
        }
        let t0 = process_percentage_placeholder(text, &space.percentage, config);
        let ghost p = choose|p: Seq<char>|
            percent_rendered(*config, space.percentage.text@, space.percentage.whole, p) && t0@ == seq_replace(
                text@,
                "{percent}"@,
                p,
            );
        let t = replace_str(t0.as_str(), "{device}", self.device.as_str());
        let t = replace_str(t.as_str(), "{mount}", self.mount.as_str());
        let t = replace_str(t.as_str(), "{filesystem}", self.filesystem.as_str());
        let t = replace_str(t.as_str(), "{space_used}", space.used.as_str());
        let t = replace_str(t.as_str(), "{space_avail}", space.avail.as_str());
        let t = replace_str(t.as_str(), "{space_total}", space.total.as_str());
        let r = replace_str(t.as_str(), "{bar}", "");
        assert(""@ =~= Seq::<char>::empty());
        assert(r@ == self.filled(*space, text@, p));
        r
    }

    /// The entry of this mount: the title and the format with their placeholders filled in.
    pub fn style(&self, config: &Configuration, space: &MountSpace) -> (r: (String, String))
        ensures
            exists|pt: Seq<char>, pv: Seq<char>|
                percent_rendered(*config, space.percentage.text@, space.percentage.whole, pt) && percent_rendered(
                    *config,
                    space.percentage.text@,
                    space.percentage.whole,
                    pv,
                ) && module_styled(
                    r,
                    *config,
                    config.mounts.title_color,
                    config.mounts.title_bold,
                    config.mounts.title_italic,
                    config.mounts.separator,
                    self.filled(*space, config.mounts.title@, pt),
                    self.filled(*space, config.mounts.format@, pv),
                ),
    {
        let title = self.replace_placeholders(config.mounts.title.as_str(), config, space);
        let value = self.replace_placeholders(config.mounts.format.as_str(), config, space);
        let c = &config.mounts;
        style_module(config, &c.title_color, c.title_bold, c.title_italic, &c.separator, title.as_str(), value.as_str())
    }

    /// A title with each of the mount's placeholders reading `Unknown`, and the bar a space.
    pub open spec fn unknown_title(title: Seq<char>) -> Seq<char> {
        let t = seq_replace(title, "{device}"@, "Unknown"@);
        let t = seq_replace(t, "{mount}"@, "Unknown"@);
        let t = seq_replace(t, "{filesystem}"@, "Unknown"@);
        let t = seq_replace(t, "{space_used}"@, "Unknown"@);
        let t = seq_replace(t, "{space_avail}"@, "Unknown"@);
        let t = seq_replace(t, "{space_total}"@, "Unknown"@);
        seq_replace(t, "{bar}"@, " "@)
    }

    /// The entry when the mounts could not be read.
    pub fn unknown_output(config: &Configuration) -> (r: (String, String))
        ensures
            entry_styled(
                r,
                *config,
                config.mounts.title_color,
                config.mounts.title_bold,
                config.mounts.title_italic,
                config.mounts.separator,
                MountInfo::unknown_title(config.mounts.title@),
                "Unknown"@,
            ),
    {
        proof {
            reveal_strlit("{device}");
            reveal_strlit("{mount}");
            reveal_strlit("{filesystem}");
            reveal_strlit("{space_used}");
            reveal_strlit("{space_avail}");
            reveal_strlit("{space_total}");
            reveal_strlit("{bar}");
        }
        let c = &config.mounts;
        let t = replace_str(c.title.as_str(), "{device}", "Unknown");
        let t = replace_str(t.as_str(), "{mount}", "Unknown");
        let t = replace_str(t.as_str(), "{filesystem}", "Unknown");
        let t = replace_str(t.as_str(), "{space_used}", "Unknown");
        let t = replace_str(t.as_str(), "{space_avail}", "Unknown");
        let t = replace_str(t.as_str(), "{space_total}", "Unknown");
        let title = replace_str(t.as_str(), "{bar}", " ");
        style_entry(config, &c.title_color, c.title_bold, c.title_italic, &c.separator, title.as_str(), "Unknown")
    }
}

/// Each space placeholder standing alone in a format is filled with its own size text: a
/// format of `{space_used}` gives the used space, `{space_avail}` the free space and
/// `{space_total}` the total, for every mount and space (whose texts hold none of the
/// placeholders filled after them).
pub proof fn lemma_mount_space_placeholders(m: MountInfo, space: MountSpace, p: Seq<char>)
    requires
        !seq_contains(space.used@, "{space_avail}"@),
        !seq_contains(space.used@, "{space_total}"@),
        !seq_contains(space.used@, "{bar}"@),
        !seq_contains(space.avail@, "{space_total}"@),
        !seq_contains(space.avail@, "{bar}"@),
        !seq_contains(space.total@, "{bar}"@),
    ensures
        m.filled(space, "{space_used}"@, p) == space.used@,
        m.filled(space, "{space_avail}"@, p) == space.avail@,
        m.filled(space, "{space_total}"@, p) == space.total@,
{
    reveal_strlit("{percent}");
    reveal_strlit("{device}");
    reveal_strlit("{mount}");
    reveal_strlit("{filesystem}");
    reveal_strlit("{space_used}");
    reveal_strlit("{space_avail}");
    reveal_strlit("{space_total}");
    let pc = "{percent}"@;
    let dv = "{device}"@;
    let mt = "{mount}"@;
    let fs = "{filesystem}"@;
    let us = "{space_used}"@;
    let av = "{space_avail}"@;
    let tt = "{space_total}"@;
    let bar = "{bar}"@;
    // {space_used}: none of the earlier placeholders occur in it.
    assert(pc[3] == 'r' && !us.contains('r'));
    lemma_absent_by_char(us, pc, 3);
    lemma_replace_absent(us, pc, p);
    assert(dv[3] == 'v' && !us.contains('v'));
    lemma_absent_by_char(us, dv, 3);
    lemma_replace_absent(us, dv, m.device@);
    assert(mt[1] == 'm' && !us.contains('m'));
    lemma_absent_by_char(us, mt, 1);
    lemma_replace_absent(us, mt, m.mount@);
    assert(fs[1] == 'f' && !us.contains('f'));
    lemma_absent_by_char(us, fs, 1);
    lemma_replace_absent(us, fs, m.filesystem@);
    lemma_replace_whole(us, space.used@);
    lemma_replace_absent(space.used@, av, space.avail@);
    lemma_replace_absent(space.used@, tt, space.total@);
    lemma_replace_absent(space.used@, bar, Seq::<char>::empty());
    // {space_avail}
    assert(!av.contains('r'));
    lemma_absent_by_char(av, pc, 3);
    lemma_replace_absent(av, pc, p);
    assert(dv[1] == 'd' && !av.contains('d'));
    lemma_absent_by_char(av, dv, 1);
    lemma_replace_absent(av, dv, m.device@);
    assert(!av.contains('m'));
    lemma_absent_by_char(av, mt, 1);
    lemma_replace_absent(av, mt, m.mount@);
    assert(!av.contains('f'));
    lemma_absent_by_char(av, fs, 1);
    lemma_replace_absent(av, fs, m.filesystem@);
    assert(us[7] == 'u' && !av.contains('u'));
    lemma_absent_by_char(av, us, 7);
    lemma_replace_absent(av, us, space.used@);
    lemma_replace_whole(av, space.avail@);
    lemma_replace_absent(space.avail@, tt, space.total@);
    lemma_replace_absent(space.avail@, bar, Seq::<char>::empty());
    // {space_total}
    assert(!tt.contains('r'));
    lemma_absent_by_char(tt, pc, 3);
    lemma_replace_absent(tt, pc, p);
    assert(!tt.contains('d'));
    lemma_absent_by_char(tt, dv, 1);
    lemma_replace_absent(tt, dv, m.device@);
    assert(!tt.contains('m'));
    lemma_absent_by_char(tt, mt, 1);
    lemma_replace_absent(tt, mt, m.mount@);
    assert(!tt.contains('f'));
    lemma_absent_by_char(tt, fs, 1);
    lemma_replace_absent(tt, fs, m.filesystem@);
    assert(!tt.contains('u'));
    lemma_absent_by_char(tt, us, 7);
    lemma_replace_absent(tt, us, space.used@);
    assert(av[8] == 'v' && !tt.contains('v'));
    lemma_absent_by_char(tt, av, 8);
    lemma_replace_absent(tt, av, space.avail@);
    lemma_replace_whole(tt, space.total@);
    lemma_replace_absent(space.total@, bar, Seq::<char>::empty());
}

} // verus!
