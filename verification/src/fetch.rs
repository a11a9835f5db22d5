use vstd::prelude::*;
use vstd::string::StrSliceExecFns;
use crate::color::{
    bg_code, color_placeholders_rendered, colored_rendering, fg_code, replace_color_placeholders,
    CrabFetchColor,
};
use crate::ascii::get_ascii_line;
use crate::config::Configuration;
use crate::text::{
    append_str, chars_of, copy_str, lemma_split_nonempty, find_from, seq_split, seq_trim, split_char, trim, join_str, parse_u64, parse_unsigned, push_char, replace_str, seq_contains,
    seq_find, seq_join_str, seq_replace, str_contains, str_eq,
};

verus! {

/// The command line: an optional configuration file (`none` for none), whether to ignore the
/// configuration file or write a default one, a distribution whose ASCII art to show, whether to
/// silence errors, entries that replace the configured ones (comma-separated), the benchmark
/// mode and its warning threshold in microseconds, and whether to print the version.
pub struct Args {
    pub config: Option<String>,
    pub ignore_config_file: bool,
    pub generate_config_file: bool,
    pub distro_override: Option<String>,
    pub suppress_errors: bool,
    pub module_override: Option<String>,
    pub benchmark: bool,
    pub benchmark_warn: Option<u128>,
    pub version: bool,
}

/// The largest of the title widths `s`, or 0 when there is none.
pub open spec fn seq_max(s: Seq<u64>) -> int
    decreases s.len(),
{
    if s.len() == 0 {
        0
    } else {
        let m = seq_max(s.drop_last());
        if s.last() > m { s.last() as int } else { m }
    }
}

/// The larger of two integers.
pub open spec fn max_int(a: int, b: int) -> int {
    if a >= b { a } else { b }
}

/// The widest title after the entry `m`: what the entry's title asks for, next to `res`.
/// Mounts and displays reserve the widest title among their entries (`None` when they
/// could not be read, which reserves nothing); a GPU title holding `{index}` leaves two
/// characters for the index in place of its seven; entries without a title of their own
/// reserve nothing.
pub open spec fn title_step(
    config: Configuration,
    m: Seq<char>,
    res: int,
    mounts: Option<Seq<u64>>,
    displays: Option<Seq<u64>>,
) -> int {
    if m == "hostname"@ {
        max_int(res, config.hostname.title@.len() as int)
    } else if m == "cpu"@ {
        max_int(res, config.cpu.title@.len() as int)
    } else if m == "gpu"@ {
        if seq_contains(config.gpu.title@, "{index}"@) {
            max_int(res, config.gpu.title@.len() - 5)
        } else {
            max_int(res, config.gpu.title@.len() as int)
        }
    } else if m == "memory"@ {
        max_int(res, config.memory.title@.len() as int)
    } else if m == "swap"@ {
        max_int(res, config.swap.title@.len() as int)
    } else if m == "mounts"@ {
        match mounts {
            Some(s) => max_int(res, seq_max(s)),
            None => res,
        }
    } else if m == "host"@ {
        max_int(res, config.host.title@.len() as int)
    } else if m == "displays"@ {
        match displays {
            Some(s) => max_int(res, seq_max(s)),
            None => res,
        }
    } else if m == "os"@ {
        max_int(res, config.os.title@.len() as int)
    } else if m == "packages"@ {
        max_int(res, config.packages.title@.len() as int)
    } else if m == "desktop"@ {
        max_int(res, config.desktop.title@.len() as int)
    } else if m == "terminal"@ {
        max_int(res, config.terminal.title@.len() as int)
    } else if m == "shell"@ {
        max_int(res, config.shell.title@.len() as int)
    } else if m == "battery"@ {
        max_int(res, config.battery.title@.len() as int)
    } else if m == "uptime"@ {
        max_int(res, config.uptime.title@.len() as int)
    } else if m == "locale"@ {
        max_int(res, config.locale.title@.len() as int)
    } else if m == "player"@ {
        max_int(res, config.player.title@.len() as int)
    } else if m == "editor"@ {
        max_int(res, config.editor.title@.len() as int)
    } else if m == "initsys"@ {
        max_int(res, config.initsys.title@.len() as int)
    } else {
        res
    }
}

/// Whether the count of the widest title ends at the entry `m`: at a GPU entry whose title
/// holds `{index}`, the entries after it are not looked at.
pub open spec fn title_count_stops(config: Configuration, m: Seq<char>) -> bool {
    m == "gpu"@ && seq_contains(config.gpu.title@, "{index}"@)
}

/// The widest title over the entries `mods`, starting from `res`, up to and including the first
/// entry at which the count stops.
pub open spec fn max_title_from(
    config: Configuration,
    mods: Seq<Seq<char>>,
    res: int,
    mounts: Option<Seq<u64>>,
    displays: Option<Seq<u64>>,
) -> int
    decreases mods.len(),
{
    if mods.len() == 0 {
        res
    } else if title_count_stops(config, mods[0]) {
        title_step(config, mods[0], res, mounts, displays)
    } else {
        max_title_from(config, mods.skip(1), title_step(config, mods[0], res, mounts, displays), mounts, displays)
    }
}

/// An entry never narrows the widest title: `title_step` gives at least `res`, and at least
/// what the entry asks for on its own.
pub proof fn lemma_title_step_bounds(
    config: Configuration,
    m: Seq<char>,
    res: int,
    mounts: Option<Seq<u64>>,
    displays: Option<Seq<u64>>,
)
    requires
        res >= 0,
    ensures
        title_step(config, m, res, mounts, displays) >= res,
        title_step(config, m, res, mounts, displays) >= title_step(config, m, 0, mounts, displays),
{
}

/// The count of the widest title never goes below where it starts.
pub proof fn lemma_max_title_monotone(
    config: Configuration,
    mods: Seq<Seq<char>>,
    res: int,
    mounts: Option<Seq<u64>>,
    displays: Option<Seq<u64>>,
)
    requires
        res >= 0,
    ensures
        max_title_from(config, mods, res, mounts, displays) >= res,
    decreases mods.len(),
{
    if mods.len() > 0 {
        lemma_title_step_bounds(config, mods[0], res, mounts, displays);
        if !title_count_stops(config, mods[0]) {
            lemma_max_title_monotone(config, mods.skip(1), title_step(config, mods[0], res, mounts, displays), mounts, displays);
        }
    }
}

/// The widest title is at least where the count starts, and at least what every listed entry
/// up to the one where the count stops asks for: each of their titles fits.
pub proof fn lemma_max_title_covers(
    config: Configuration,
    mods: Seq<Seq<char>>,
    res: int,
    mounts: Option<Seq<u64>>,
    displays: Option<Seq<u64>>,
    j: int,
)
    requires
        res >= 0,
        0 <= j < mods.len(),
        forall|k: int| 0 <= k < j ==> !title_count_stops(config, #[trigger] mods[k]),
    ensures
        max_title_from(config, mods, res, mounts, displays) >= res,
        max_title_from(config, mods, res, mounts, displays) >= title_step(config, mods[j], 0, mounts, displays),
    decreases mods.len(),
{
    lemma_title_step_bounds(config, mods[0], res, mounts, displays);
    let next = title_step(config, mods[0], res, mounts, displays);
    if j == 0 {
        if !title_count_stops(config, mods[0]) {
            lemma_max_title_monotone(config, mods.skip(1), next, mounts, displays);
        }
    } else {
        assert(!title_count_stops(config, mods[0]));
        assert forall|k: int| 0 <= k < j - 1 implies !title_count_stops(config, #[trigger] mods.skip(1)[k]) by {
            assert(mods.skip(1)[k] == mods[k + 1]);
        }
        lemma_max_title_covers(config, mods.skip(1), next, mounts, displays, j - 1);
        assert(mods.skip(1)[j - 1] == mods[j]);
    }
}

/// The widths held in `o`, when there are any.
pub open spec fn sizes_view(o: Option<Vec<u64>>) -> Option<Seq<u64>> {
    match o {
        Some(v) => Some(v@),
        None => None,
    }
}

/// The widest entry title of the configured entries, which inline values are aligned to; the
/// count ends at a GPU entry whose title holds `{index}`. `mount_sizes` and `display_sizes` are the title widths of the mounts shown and of the
/// displays, or `None` where they could not be read.
pub fn calc_max_title_length(
    config: &Configuration,
    mount_sizes: &Option<Vec<u64>>,
    display_sizes: &Option<Vec<u64>>,
) -> (r: u64)
    ensures
        r == max_title_from(*config, config.modules.deep_view(), 0, sizes_view(*mount_sizes), sizes_view(*display_sizes)),
{
    let ghost mounts = sizes_view(*mount_sizes);
    let ghost displays = sizes_view(*display_sizes);
    let ghost all = config.modules.deep_view();
    assert(all.skip(0) == all);
    let mount_max: u64 = match mount_sizes {
        Some(v) => vec_max(v),
        None => 0,
    };
    let display_max: u64 = match display_sizes {
        Some(v) => vec_max(v),
        None => 0,
    };
    let mut res: u64 = 0;
    let mut i: usize = 0;
    while i < config.modules.len()
        invariant
            0 <= i <= config.modules.len(),
            all == config.modules.deep_view(),
            mounts == sizes_view(*mount_sizes),
            displays == sizes_view(*display_sizes),
            mounts matches Some(s) ==> mount_max == seq_max(s),
            displays matches Some(s) ==> display_max == seq_max(s),
            mounts is None ==> mount_max == 0,
            displays is None ==> display_max == 0,
            max_title_from(*config, all, 0, mounts, displays)
                == max_title_from(*config, all.skip(i as int), res as int, mounts, displays),
        decreases config.modules.len() - i,
    {
        let ghost rest = all.skip(i as int);
        assert(rest[0] == all[i as int]);
        assert(rest.skip(1) == all.skip(i + 1));
        let m = config.modules[i].as_str();
        assert(m@ == all[i as int]);
        let gpu_title = config.gpu.title.as_str();
        let ghost old_res = res;
        let w: u64 = if str_eq(m, "hostname") {
            config.hostname.title.as_str().unicode_len() as u64
        } else if str_eq(m, "cpu") {
            config.cpu.title.as_str().unicode_len() as u64
        } else if str_eq(m, "gpu") {
            if str_contains(gpu_title, "{index}") {
                proof {
                    reveal_strlit("{index}");
                    lemma_contains_len(gpu_title@, "{index}"@);
                }
                gpu_title.unicode_len() as u64 - 5
            } else {
                gpu_title.unicode_len() as u64
            }
        } else if str_eq(m, "memory") {
            config.memory.title.as_str().unicode_len() as u64
        } else if str_eq(m, "swap") {
            config.swap.title.as_str().unicode_len() as u64
        } else if str_eq(m, "mounts") {
            mount_max
        } else if str_eq(m, "host") {
            config.host.title.as_str().unicode_len() as u64
        } else if str_eq(m, "displays") {
            display_max
        } else if str_eq(m, "os") {
            config.os.title.as_str().unicode_len() as u64
        } else if str_eq(m, "packages") {
            config.packages.title.as_str().unicode_len() as u64
        } else if str_eq(m, "desktop") {
            config.desktop.title.as_str().unicode_len() as u64
        } else if str_eq(m, "terminal") {
            config.terminal.title.as_str().unicode_len() as u64
        } else if str_eq(m, "shell") {
            config.shell.title.as_str().unicode_len() as u64
        } else if str_eq(m, "battery") {
            config.battery.title.as_str().unicode_len() as u64
        } else if str_eq(m, "uptime") {
            config.uptime.title.as_str().unicode_len() as u64
        } else if str_eq(m, "locale") {
            config.locale.title.as_str().unicode_len() as u64
        } else if str_eq(m, "player") {
            config.player.title.as_str().unicode_len() as u64
        } else if str_eq(m, "editor") {
            config.editor.title.as_str().unicode_len() as u64
        } else if str_eq(m, "initsys") {
            config.initsys.title.as_str().unicode_len() as u64
        } else {
            0
        };
        if w > res {
            res = w;
        }
        assert(res == title_step(*config, all[i as int], old_res as int, mounts, displays));
        if str_eq(m, "gpu") && str_contains(gpu_title, "{index}") {
            assert(title_count_stops(*config, rest[0]));
            return res;
        }
        i += 1;
    }
    proof {
        assert(all.skip(i as int).len() == 0);
    }
    res
}

/// A sequence containing `p` is at least as long as `p`.
pub proof fn lemma_contains_len(s: Seq<char>, p: Seq<char>)
    requires
        seq_contains(s, p),
    ensures
        s.len() >= p.len(),
{
    let i = choose|i: int| crate::text::matches_at(s, p, i);
}

/// The widest of the title widths in `v` (0 when there is none).
pub fn vec_max(v: &Vec<u64>) -> (r: u64)
    ensures
        r == seq_max(v@),
{
    let mut m: u64 = 0;
    let mut i: usize = 0;
    while i < v.len()
        invariant
            0 <= i <= v.len(),
            m == seq_max(v@.take(i as int)),
        decreases v.len() - i,
    {
        assert(v@.take(i + 1).drop_last() == v@.take(i as int));
        if v[i] > m {
            m = v[i];
        }
        i += 1;
    }
    assert(v@.take(v.len() as int) == v@);
    m
}

/// Whether errors are written out in place of an entry: the configuration can silence
/// them, and when it does not, the command line can.
pub fn log_errors(config_suppress: bool, args_suppress: bool) -> (r: bool)
    ensures
        r == (!config_suppress && !args_suppress),
{
    if !config_suppress {
        !args_suppress
    } else {
        !config_suppress
    }
}

/// `n` copies of `c`.
pub open spec fn repeated(c: char, n: nat) -> Seq<char> {
    Seq::new(n, |i: int| c)
}

/// A string of `n` copies of `c`.
pub fn repeat_char(c: char, n: usize) -> (r: String)
    ensures
        r@ == repeated(c, n as nat),
{
    let mut r = String::new();
    let mut i: usize = 0;
    while i < n
        invariant
            0 <= i <= n,
            r@ == repeated(c, i as nat),
        decreases n - i,
    {
        push_char(&mut r, c);
        i += 1;
        assert(r@ =~= repeated(c, i as nat));
    }
    r
}

/// What one configured module asks for.
pub enum ModuleAction {
    /// An empty line.
    Space,
    /// An underline as long as the number written in the text.
    Underline(String),
    /// The start of a segment with the given name.
    SegmentStart(String),
    /// The end of the current segment.
    SegmentEnd,
    /// The entry with the given name.
    Entry(String),
}

/// Text that writes a number that fits in `usize`.
pub open spec fn length_fits(s: Seq<char>) -> bool {
    parse_unsigned(s) matches Some(n) && n <= usize::MAX
}

/// What a module written `NAME` or `NAME:ARGUMENT` asks for: `space`, `underline:N` (`N` a
/// number that fits in `usize`), `segment:NAME`, `end_segment`, or else the entry `NAME`. `None`
/// where an underline or a segment lacks its argument, or the underline's length is not such a
/// number.
pub fn module_action(module: &str) -> (r: Option<ModuleAction>)
    ensures
        ({
            let pieces = seq_split(module@, ':');
            let name = pieces[0];
            let has_arg = pieces.len() >= 2;
            if name == "space"@ {
                r matches Some(ModuleAction::Space)
            } else if name == "underline"@ {
                if has_arg && length_fits(pieces[1]) {
                    r matches Some(ModuleAction::Underline(a)) && a@ == pieces[1]
                } else {
                    r is None
                }
            } else if name == "segment"@ {
                if has_arg {
                    r matches Some(ModuleAction::SegmentStart(a)) && a@ == pieces[1]
                } else {
                    r is None
                }
            } else if name == "end_segment"@ {
                r matches Some(ModuleAction::SegmentEnd)
            } else {
                r matches Some(ModuleAction::Entry(a)) && a@ == name
            }
        }),
{
    let pieces = split_char(module, ':');
    proof {
        lemma_split_nonempty(module@, ':');
    }
    let ghost pv = pieces.deep_view();
    assert(pieces@[0]@ == pv[0]);
    let name: &str = pieces[0].as_str();
    if str_eq(name, "space") {
        Some(ModuleAction::Space)
    } else if str_eq(name, "underline") {
        if pieces.len() >= 2 {
            assert(pieces@[1]@ == pv[1]);
            match parse_u64(pieces[1].as_str()) {
                Some(n) => {
                    if n as u128 <= usize::MAX as u128 {
                        Some(ModuleAction::Underline(copy_str(pieces[1].as_str())))
                    } else {
                        None
                    }
                },
                None => None,
            }
        } else {
            None
        }
    } else if str_eq(name, "segment") {
        if pieces.len() >= 2 {
            assert(pieces@[1]@ == pv[1]);
            Some(ModuleAction::SegmentStart(copy_str(pieces[1].as_str())))
        } else {
            None
        }
    } else if str_eq(name, "end_segment") {
        Some(ModuleAction::SegmentEnd)
    } else {
        Some(ModuleAction::Entry(copy_str(name)))
    }
}

/// The line of an `underline:N` entry: `N` underline characters, `N` read from the text after
/// the colon (a number that fits in `usize`).
pub fn underline_line(underline_character: char, count: &str) -> (r: String)
    requires
        length_fits(count@),
    ensures
        r@ == repeated(underline_character, parse_unsigned(count@)->0),
{
    let n = parse_u64(count);
    match n {
        Some(n) => repeat_char(underline_character, n as usize),
        None => String::new(),
    }
}

/// The line that opens a segment: the configured top with `{name}` replaced by the segment's
/// name, its color placeholders applied.
pub fn segment_top_line(segment_top: &str, name: &str) -> (r: String)
    ensures
        color_placeholders_rendered(seq_replace(segment_top@, "{name}"@, name@), r@),
{
    proof {
        reveal_strlit("{name}");
    }
    let s = replace_str(segment_top, "{name}", name);
    replace_color_placeholders(s.as_str())
}

/// The gap placeholder of a segment's closing line, `{name_sized_gap:C}`, for the fill
/// character `C`.
pub open spec fn gap_placeholder(c: char) -> Seq<char> {
    "{name_sized_gap:"@ + seq![c, '}']
}

/// The fill character that a closing line asks for: the character right after the first
/// `{name_sized_gap:`, when there is one.
pub open spec fn gap_fill(bottom: Seq<char>) -> Option<char> {
    match seq_find(bottom, "{name_sized_gap:"@) {
        Some(k) => if k + 16 < bottom.len() { Some(bottom[k + 16]) } else { None },
        None => None,
    }
}

/// The fill character that a closing line asks for, or `None` where it names none (the
/// closing line cannot then be drawn).
pub fn gap_fill_of(segment_bottom: &str) -> (r: Option<char>)
    ensures
        r == gap_fill(segment_bottom@),
{
    proof {
        reveal_strlit("{name_sized_gap:");
    }
    let v = chars_of(segment_bottom);
    let pat = chars_of("{name_sized_gap:");
    assert(pat@.len() == 16);
    match crate::text::vec_find_from(&v, &pat, 0) {
        Some(k) => {
            if k < v.len() && 16 < v.len() - k {
                Some(v[k + 16])
            } else {
                None
            }
        },
        None => None,
    }
}

/// The line that closes a segment whose name took `name_len` bytes: the configured bottom with
/// each `{name_sized_gap:C}` replaced by `name_len + 2` copies of `C`, its color placeholders
/// applied. The bottom must name a fill character.
pub fn segment_bottom_line(segment_bottom: &str, name_len: usize) -> (r: String)
    requires
        gap_fill(segment_bottom@) is Some,
        name_len + 2 <= usize::MAX,
    ensures
        color_placeholders_rendered(
            seq_replace(
                segment_bottom@,
                gap_placeholder(gap_fill(segment_bottom@)->0),
                repeated(gap_fill(segment_bottom@)->0, (name_len + 2) as nat),
            ),
            r@,
        ),
{
    proof {
        reveal_strlit("{name_sized_gap:");
    }
    let v = chars_of(segment_bottom);
    let pat = chars_of("{name_sized_gap:");
    assert(pat@.len() == 16);
    let k = vec_find_from_start(&v, &pat);
    assert(k + 16 < v.len());
    let c = v[k + 16];
    let mut target = String::new();
    let mut j: usize = 0;
    while j < pat.len()
        invariant
            0 <= j <= pat.len(),
            pat@ == "{name_sized_gap:"@,
            target@ == pat@.take(j as int),
        decreases pat.len() - j,
    {
        push_char(&mut target, pat[j]);
        j += 1;
        assert(target@ =~= pat@.take(j as int));
    }
    push_char(&mut target, c);
    push_char(&mut target, '}');
    assert(target@ =~= gap_placeholder(c));
    let fill = repeat_char(c, name_len + 2);
    let s = replace_str(segment_bottom, target.as_str(), fill.as_str());
    replace_color_placeholders(s.as_str())
}

/// Where `p` first occurs in `v`, when the caller knows that it does and that a character
/// follows it.
fn vec_find_from_start(v: &Vec<char>, p: &Vec<char>) -> (k: usize)
    requires
        seq_find(v@, p@) matches Some(k) && k + p@.len() < v@.len(),
    ensures
        seq_find(v@, p@) == Some(k as int),
        k + p@.len() < v@.len(),
{
    match crate::text::vec_find_from(v, p, 0) {
        Some(k) => k,
        None => 0,
    }
}

/// The colors of a color row, in order: the eight basic colors, or their bright forms.
pub open spec fn row_color(i: int, bright: bool) -> CrabFetchColor {
    if bright {
        if i == 0 { CrabFetchColor::BrightBlack }
        else if i == 1 { CrabFetchColor::BrightRed }
        else if i == 2 { CrabFetchColor::BrightGreen }
        else if i == 3 { CrabFetchColor::BrightYellow }
        else if i == 4 { CrabFetchColor::BrightBlue }
        else if i == 5 { CrabFetchColor::BrightMagenta }
        else if i == 6 { CrabFetchColor::BrightCyan }
        else { CrabFetchColor::BrightWhite }
    } else {
        if i == 0 { CrabFetchColor::Black }
        else if i == 1 { CrabFetchColor::Red }
        else if i == 2 { CrabFetchColor::Green }
        else if i == 3 { CrabFetchColor::Yellow }
        else if i == 4 { CrabFetchColor::Blue }
        else if i == 5 { CrabFetchColor::Magenta }
        else if i == 6 { CrabFetchColor::Cyan }
        else { CrabFetchColor::White }
    }
}

/// The color at place `i` of a row.
fn row_color_of(i: usize, bright: bool) -> (c: CrabFetchColor)
    ensures
        c == row_color(i as int, bright),
        c != CrabFetchColor::Clear,
{
    if bright {
        if i == 0 { CrabFetchColor::BrightBlack }
        else if i == 1 { CrabFetchColor::BrightRed }
        else if i == 2 { CrabFetchColor::BrightGreen }
        else if i == 3 { CrabFetchColor::BrightYellow }
        else if i == 4 { CrabFetchColor::BrightBlue }
        else if i == 5 { CrabFetchColor::BrightMagenta }
        else if i == 6 { CrabFetchColor::BrightCyan }
        else { CrabFetchColor::BrightWhite }
    } else {
        if i == 0 { CrabFetchColor::Black }
        else if i == 1 { CrabFetchColor::Red }
        else if i == 2 { CrabFetchColor::Green }
        else if i == 3 { CrabFetchColor::Yellow }
        else if i == 4 { CrabFetchColor::Blue }
        else if i == 5 { CrabFetchColor::Magenta }
        else if i == 6 { CrabFetchColor::Cyan }
        else { CrabFetchColor::White }
    }
}

/// The escape code of a row swatch in color `c`.
pub open spec fn swatch_code(c: CrabFetchColor, background: bool) -> Seq<char> {
    if background { bg_code(c) } else { fg_code(c) }
}

/// The line of the `colors` (or, `bright`, `bright_colors`) entry: the color character in
/// each of the eight colors, as background or foreground, with `margin` spaces between them.
pub fn color_row(character: &str, margin: u8, background: bool, bright: bool) -> (r: String)
    ensures
        exists|outs: Seq<Seq<char>>|
            {
                &&& outs.len() == 8
                &&& forall|i: int|
                    0 <= i < 8 ==> colored_rendering(
                        #[trigger] outs[i],
                        character@,
                        swatch_code(row_color(i, bright), background),
                        false,
                        false,
                    )
                &&& r@ == seq_join_str(outs, repeated(' ', margin as nat))
            },
{
    let gap = repeat_char(' ', margin as usize);
    let mut pieces: Vec<String> = Vec::new();
    let mut i: usize = 0;
    while i < 8
        invariant
            0 <= i <= 8,
            pieces.len() == i,
            forall|j: int|
                0 <= j < i ==> colored_rendering(
                    #[trigger] pieces.deep_view()[j],
                    character@,
                    swatch_code(row_color(j, bright), background),
                    false,
                    false,
                ),
        decreases 8 - i,
    {
        let c = row_color_of(i, bright);
        let piece = c.swatch(character, background);
        let ghost before = pieces.deep_view();
        pieces.push(piece);
        assert(pieces.deep_view() =~= before.push(piece@));
        i += 1;
    }
    let r = join_str(&pieces, gap.as_str());
    assert(exists|outs: Seq<Seq<char>>|
        {
            &&& outs.len() == 8
            &&& forall|i: int|
                0 <= i < 8 ==> colored_rendering(
                    #[trigger] outs[i],
                    character@,
                    swatch_code(row_color(i, bright), background),
                    false,
                    false,
                )
            &&& r@ == seq_join_str(outs, repeated(' ', margin as nat))
        }) by {
        let outs = pieces.deep_view();
        assert(outs.len() == 8);
    }
    r
}

/// What stripping the ANSI escape sequences from a text leaves (strip-ansi-escapes'
/// `strip_str`).
pub uninterp spec fn ansi_stripped(s: Seq<char>) -> Seq<char>;

/// Trusted: strip-ansi-escapes' `strip_str`. It runs the text through a terminal-sequence
/// parser and keeps what would be printed; its result depends on the text alone and is named
/// `ansi_stripped`.
#[verifier::external_body]
fn strip_ansi(s: &str) -> (r: String)
    ensures
        r@ == ansi_stripped(s@),
{
    strip_ansi_escapes::strip_str(s)
}

/// Whether a line of ASCII art holds more than whitespace.
pub open spec fn art_line_kept() -> spec_fn(Seq<char>) -> bool {
    |l: Seq<char>| seq_trim(l).len() != 0
}

/// The lines of an ASCII art that hold more than whitespace, as written.
pub open spec fn art_lines(art: Seq<char>) -> Seq<Seq<char>> {
    seq_split(art, '\n').filter(art_line_kept())
}

/// The lines of an ASCII art that hold more than whitespace.
pub fn ascii_lines(art: &str) -> (r: Vec<String>)
    ensures
        r.deep_view() == art_lines(art@),
{
    let pieces = split_char(art, '\n');
    let ghost ps = pieces.deep_view();
    let mut r: Vec<String> = Vec::new();
    let mut i: usize = 0;
    assert(ps.take(0).filter(art_line_kept()) =~= Seq::<Seq<char>>::empty());
    while i < pieces.len()
        invariant
            0 <= i <= pieces.len(),
            ps == pieces.deep_view(),
            ps == seq_split(art@, '\n'),
            r.deep_view() == ps.take(i as int).filter(art_line_kept()),
        decreases pieces.len() - i,
    {
        let ghost before = r.deep_view();
        let ghost s = ps.take(i + 1);
        assert(s.drop_last() =~= ps.take(i as int));
        assert(s.last() == ps[i as int]);
        assert(pieces@[i as int]@ == ps[i as int]);
        let t = trim(pieces[i].as_str());
        if t.as_str().unicode_len() != 0 {
            let p = copy_line(pieces[i].as_str());
            r.push(p);
            assert(r.deep_view() =~= before.push(ps[i as int]));
        }
        assert((art_line_kept())(ps[i as int]) == (seq_trim(ps[i as int]).len() != 0));
        proof {
            ps.take(i as int).lemma_filter_push(ps[i as int], art_line_kept());
            assert(ps.take(i as int).push(ps[i as int]) =~= s);
        }
        i += 1;
    }
    assert(ps.take(pieces.len() as int) =~= ps);
    r
}

/// A copy of one line.
fn copy_line(s: &str) -> (r: String)
    ensures
        r@ == s@,
{
    crate::text::copy_str(s)
}

/// `n` newlines.
pub open spec fn newlines(n: nat) -> Seq<char> {
    repeated('\n', n)
}

/// The width that the ASCII art reserves: its own width and the margin, when it is shown.
pub fn ascii_target_length(display: bool, art_width: u16, margin: u16) -> (r: u16)
    requires
        display ==> art_width + margin <= u16::MAX,
    ensures
        r == (if display { (art_width + margin) as u16 } else { 0 }),
{
    if display {
        art_width + margin
    } else {
        0
    }
}

/// The widest of the entries' printed widths (their characters once escape sequences are
/// stripped), or 0 when there are none.
pub open spec fn widest(outs: Seq<Seq<char>>) -> int
    decreases outs.len(),
{
    if outs.len() == 0 {
        0
    } else {
        max_int(widest(outs.drop_last()), ansi_stripped(outs.last()).len() as int)
    }
}

/// The entries, each on its own line; with the art on the right, each is padded to the widest
/// entry (`maxw`) plus the margin.
pub open spec fn body_text(outs: Seq<Seq<char>>, right: bool, maxw: int, margin: nat) -> Seq<char>
    decreases outs.len(),
{
    if outs.len() == 0 {
        Seq::empty()
    } else {
        let o = outs.last();
        let pad = if right {
            repeated(' ', (maxw - ansi_stripped(o).len() + margin) as nat)
        } else {
            Seq::empty()
        };
        body_text(outs.drop_last(), right, maxw, margin) + o + pad + seq!['\n']
    }
}

/// The output as printed, the art lines themselves being empty: with the art on top, a line
/// for each art line and `margin` blank lines before the entries; the entries, one per line,
/// padded as `body_text` says when the art is on the right; with the art at the bottom,
/// `margin` blank lines and a line per art line after them; and, with the art on the left or
/// right and taller than the entries, a line for each art line left over (after the padding of
/// the widest entry and the margin, on the right).
pub open spec fn rendered(
    display: bool,
    side: Seq<char>,
    margin: nat,
    art_len: nat,
    outs: Seq<Seq<char>>,
) -> Seq<char> {
    let top = display && side == "top"@;
    let left = display && side == "left"@;
    let right_side = side == "right"@;
    let right = display && right_side;
    let bottom = display && side == "bottom"@;
    let maxw = if right_side { widest(outs) } else { 0 };
    let head = if top { newlines(art_len) + newlines(margin) } else { Seq::empty() };
    let foot = if bottom { newlines(margin) + newlines(art_len) } else { Seq::empty() };
    let shown = if top { art_len + outs.len() } else { outs.len() as nat };
    let leftover_line = if right {
        repeated(' ', (maxw + margin) as nat).push('\n')
    } else {
        seq!['\n']
    };
    let rest = if shown < art_len && (left || right) {
        repeat_seq(leftover_line, (art_len - shown) as nat)
    } else {
        Seq::empty()
    };
    head + body_text(outs, right, maxw, margin) + foot + rest
}

/// `n` copies of `piece`, one after the other.
pub open spec fn repeat_seq(piece: Seq<char>, n: nat) -> Seq<char>
    decreases n,
{
    if n == 0 {
        Seq::empty()
    } else {
        repeat_seq(piece, (n - 1) as nat) + piece
    }
}

/// The printed width of an entry: its characters once escape sequences are stripped.
fn printed_width(out: &str) -> (r: usize)
    ensures
        r == ansi_stripped(out@).len(),
{
    let stripped = strip_ansi(out);
    stripped.as_str().unicode_len()
}

/// The widest printed width of the entries.
fn widest_of(output: &Vec<String>) -> (r: usize)
    ensures
        r == widest(output.deep_view()),
{
    let ghost outs = output.deep_view();
    let mut m: usize = 0;
    let mut i: usize = 0;
    while i < output.len()
        invariant
            0 <= i <= output.len(),
            outs == output.deep_view(),
            m == widest(outs.take(i as int)),
        decreases output.len() - i,
    {
        assert(outs.take(i + 1).drop_last() =~= outs.take(i as int));
        assert(output@[i as int]@ == outs[i as int]);
        let w = printed_width(output[i].as_str());
        if w > m {
            m = w;
        }
        i += 1;
    }
    assert(outs.take(output.len() as int) =~= outs);
    m
}

/// Appends an art line: the art lines are empty, so this only keeps the structure of the
/// layout.
fn push_art_line(text: &mut String, line: usize, ascii_split: &Vec<String>, target: u16, config: &Configuration)
    ensures
        final(text)@ == old(text)@,
{
    let l = get_ascii_line(line, ascii_split, &target, config);
    append_str(text, l.as_str());
    assert(final(text)@ =~= old(text)@);
}

/// The whole output as printed: the entries in `output`, one per line, laid out around the
/// ASCII art (`ascii_split`, its kept lines, reserving `ascii_target_length` columns) on the
/// configured side, as `rendered` says.
pub fn render_output(
    config: &Configuration,
    ascii_split: &Vec<String>,
    ascii_target_length: u16,
    output: &Vec<String>,
) -> (r: String)
    requires
        config.ascii.display && config.ascii.side@ == "right"@ ==> ascii_target_length >= config.ascii.margin,
        config.ascii.side@ == "right"@ ==> widest(output.deep_view()) + config.ascii.margin <= usize::MAX,
    ensures
        r@ == rendered(config.ascii.display, config.ascii.side@, config.ascii.margin as nat, ascii_split.len() as nat, output.deep_view()),
{
    let ghost outs = output.deep_view();
    let display = config.ascii.display;
    let side = config.ascii.side.as_str();
    let margin = config.ascii.margin;
    let top = display && str_eq(side, "top");
    let left = display && str_eq(side, "left");
    let right_side = str_eq(side, "right");
    let right = display && right_side;
    let bottom = display && str_eq(side, "bottom");
    let art_len = ascii_split.len();
    let mut text = String::new();
    let mut current_line: usize = 0;
    if top {
        while current_line < art_len
            invariant
                0 <= current_line <= art_len,
                art_len == ascii_split.len(),
                text@ == newlines(current_line as nat),
            decreases art_len - current_line,
        {
            push_art_line(&mut text, current_line, ascii_split, ascii_target_length, config);
            push_char(&mut text, '\n');
            current_line += 1;
            assert(text@ =~= newlines(current_line as nat));
        }
        let gap = repeat_char('\n', margin as usize);
        append_str(&mut text, gap.as_str());
    }
    let ghost head = text@;
    assert(head == (if top { newlines(art_len as nat) + newlines(margin as nat) } else { Seq::<char>::empty() }));
    let max_length: usize = if right_side { widest_of(output) } else { 0 };
    let mut j: usize = 0;
    let ghost maxw: int = max_length as int;
    assert(body_text(outs.take(0), right, maxw, margin as nat) =~= Seq::<char>::empty());
    assert(text@ =~= head + Seq::<char>::empty());
    while j < output.len()
        invariant
            0 <= j <= output.len(),
            outs == output.deep_view(),
            maxw == max_length,
            right ==> right_side,
            right ==> ascii_target_length >= margin,
            right_side ==> max_length == widest(outs),
            right_side ==> widest(outs) + margin <= usize::MAX,
            text@ == head + body_text(outs.take(j as int), right, maxw, margin as nat),
        decreases output.len() - j,
    {
        let ghost t = outs.take(j + 1);
        assert(t.drop_last() =~= outs.take(j as int));
        assert(output@[j as int]@ == outs[j as int]);
        assert(t.last() == outs[j as int]);
        if left {
            push_art_line(&mut text, current_line, ascii_split, ascii_target_length, config);
        }
        append_str(&mut text, output[j].as_str());
        if right {
            let w = printed_width(output[j].as_str());
            proof {
                lemma_widest_covers(outs, j as int);
            }
            let pad = repeat_char(' ', (max_length - w) + margin as usize);
            append_str(&mut text, pad.as_str());
            push_art_line(&mut text, current_line, ascii_split, ascii_target_length - margin, config);
        }
        push_char(&mut text, '\n');
        if current_line < usize::MAX {
            current_line += 1;
        }
        j += 1;
        assert(text@ =~= head + body_text(outs.take(j as int), right, maxw, margin as nat));
    }
    assert(outs.take(output.len() as int) =~= outs);
    let ghost body = text@;
    if bottom {
        let gap = repeat_char('\n', margin as usize);
        append_str(&mut text, gap.as_str());
        let mut x: usize = 0;
        while x < art_len
            invariant
                0 <= x <= art_len,
                art_len == ascii_split.len(),
                text@ == body + newlines(margin as nat) + newlines(x as nat),
            decreases art_len - x,
        {
            push_art_line(&mut text, x, ascii_split, ascii_target_length, config);
            push_char(&mut text, '\n');
            x += 1;
            assert(text@ =~= body + newlines(margin as nat) + newlines(x as nat));
        }
    }
    let ghost foot_end = text@;
    assert(foot_end =~= body + (if bottom { newlines(margin as nat) + newlines(art_len as nat) } else { Seq::<char>::empty() }));
    let shown: usize = if top { art_len } else { output.len() };
    let ghost leftover_line = if right {
        repeated(' ', (maxw + margin) as nat).push('\n')
    } else {
        seq!['\n']
    };
    if !top && shown < art_len && (left || right) {
        let mut l: usize = shown;
        assert(repeat_seq(leftover_line, 0) =~= Seq::<char>::empty());
        assert(text@ =~= foot_end + repeat_seq(leftover_line, 0));
        while l < art_len
            invariant
                shown <= l <= art_len,
                art_len == ascii_split.len(),
                right ==> right_side,
                right_side ==> widest(outs) + margin <= usize::MAX,
                right_side ==> max_length == widest(outs),
                maxw == max_length,
                leftover_line == (if right { repeated(' ', (maxw + margin) as nat).push('\n') } else { seq!['\n'] }),
                text@ == foot_end + repeat_seq(leftover_line, (l - shown) as nat),
            decreases art_len - l,
        {
            let ghost before = text@;
            if right {
                let pad = repeat_char(' ', max_length + margin as usize);
                append_str(&mut text, pad.as_str());
            }
            push_art_line(&mut text, l, ascii_split, ascii_target_length, config);
            push_char(&mut text, '\n');
            l += 1;
            assert(text@ =~= before + leftover_line);
            assert(repeat_seq(leftover_line, (l - shown) as nat) == repeat_seq(leftover_line, (l - 1 - shown) as nat) + leftover_line);
        }
    }
    text
}

/// Each entry's printed width is within the widest.
proof fn lemma_widest_covers(outs: Seq<Seq<char>>, j: int)
    requires
        0 <= j < outs.len(),
    ensures
        ansi_stripped(outs[j]).len() <= widest(outs),
        widest(outs) >= 0,
    decreases outs.len(),
{
    lemma_widest_nonneg(outs);
    if j < outs.len() - 1 {
        lemma_widest_covers(outs.drop_last(), j);
        assert(outs.drop_last()[j] == outs[j]);
    }
}

/// The widest printed width is never negative.
proof fn lemma_widest_nonneg(outs: Seq<Seq<char>>)
    ensures
        widest(outs) >= 0,
    decreases outs.len(),
{
    if outs.len() > 0 {
        lemma_widest_nonneg(outs.drop_last());
    }
}

} // verus!
