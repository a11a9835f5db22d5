use vstd::prelude::*;
use vstd::string::StrSliceExecFns;
use crate::color::CrabFetchColor;
use crate::config::Configuration;
use crate::module::{entry_styled, module_styled, style_entry, style_module, ModuleError};
use crate::text::{
    nat_to_dec, u64_to_string,
    append_str, byte_slice, byte_slice_of, char_at_byte, chars_of, copy_str, last_piece,
    parse_unsigned, replace_str, seq_contains, seq_find, seq_replace, seq_split, seq_split_str,
    seq_starts_with, seq_trim, split_char, split_str, starts_with, str_contains, str_eq, trim,
    utf8_len, vec_find_from,
};
use crate::util::{bit_if, flag_set, is_flag_set_u32, lemma_flags6};

verus! {

/// The options of the cpu entry.
pub struct CPUConfiguration {
    pub title: String,
    pub title_color: Option<CrabFetchColor>,
    pub title_bold: Option<bool>,
    pub title_italic: Option<bool>,
    pub separator: Option<String>,
    pub format: String,
    pub decimal_places: Option<u32>,
    pub remove_trailing_processor: bool,
}

/// The processor's model name is wanted.
pub const CPU_INFOFLAG_MODEL_NAME: u32 = 1;
/// The core count is wanted.
pub const CPU_INFOFLAG_CORES: u32 = 2;
/// The thread count is wanted.
pub const CPU_INFOFLAG_THREADS: u32 = 4;
/// The current clock is wanted.
pub const CPU_INFOFLAG_CURRENT_CLOCK: u32 = 8;
/// The maximum clock is wanted.
pub const CPU_INFOFLAG_MAX_CLOCK: u32 = 16;
/// The architecture is wanted.
pub const CPU_INFOFLAG_ARCH: u32 = 32;

/// The details that `format` asks for.
pub fn gen_info_flags(format: &str) -> (r: u32)
    ensures
        flag_set(r, CPU_INFOFLAG_MODEL_NAME) == seq_contains(format@, "{name}"@),
        flag_set(r, CPU_INFOFLAG_CORES) == seq_contains(format@, "{core_count}"@),
        flag_set(r, CPU_INFOFLAG_THREADS) == seq_contains(format@, "{thread_count}"@),
        flag_set(r, CPU_INFOFLAG_CURRENT_CLOCK) == (seq_contains(format@, "{current_clock_mhz}"@)
            || seq_contains(format@, "{current_clock_ghz}"@)),
        flag_set(r, CPU_INFOFLAG_MAX_CLOCK) == (seq_contains(format@, "{max_clock_mhz}"@)
            || seq_contains(format@, "{max_clock_ghz}"@)),
        flag_set(r, CPU_INFOFLAG_ARCH) == seq_contains(format@, "{arch}"@),
{
    let name = str_contains(format, "{name}");
    let cores = str_contains(format, "{core_count}");
    let threads = str_contains(format, "{thread_count}");
    let current = str_contains(format, "{current_clock_mhz}") || str_contains(format, "{current_clock_ghz}");
    let max = str_contains(format, "{max_clock_mhz}") || str_contains(format, "{max_clock_ghz}");
    let arch = str_contains(format, "{arch}");
    let mut info_flags: u32 = 0;
    if name {
        info_flags = info_flags + CPU_INFOFLAG_MODEL_NAME;
    }
    if cores {
        info_flags = info_flags + CPU_INFOFLAG_CORES;
    }
    if threads {
        info_flags = info_flags + CPU_INFOFLAG_THREADS;
    }
    if current {
        info_flags = info_flags + CPU_INFOFLAG_CURRENT_CLOCK;
    }
    if max {
        info_flags = info_flags + CPU_INFOFLAG_MAX_CLOCK;
    }
    if arch {
        info_flags = info_flags + CPU_INFOFLAG_ARCH;
    }
    proof {
        lemma_flags6(info_flags, name, cores, threads, current, max, arch);
    }
    info_flags
}

/// What `/proc/cpuinfo` says of the processor, clock speeds aside.
pub struct CpuInfoLines {
    pub name: String,
    pub cores: u16,
    pub threads: u16,
    pub arch: String,
    /// The number of empty lines, one after each processor's block.
    pub blank_lines: u16,
}

/// The state of a scan of `/proc/cpuinfo`: what it has read so far, and whether it is still in
/// the first processor's block.
pub struct CpuScan {
    pub name: Seq<char>,
    pub cores: u16,
    pub threads: u16,
    pub arch: Seq<char>,
    pub blanks: nat,
    pub first: bool,
}

/// The value that could not be read.
#[derive(PartialEq, Eq, Structural)]
pub enum CpuScanFail {
    Cores,
    Threads,
    Clock,
}

/// How a scan ends: with what it read, with a value it could not read (and the line), or at a
/// line that this reading cannot take (a missing `: `, or too many blocks to count).
pub enum CpuOutcome {
    Done(CpuScan),
    Failed(CpuScanFail, int),
    Stuck,
}

/// Where a scan starts: nothing read yet, in the first block.
pub open spec fn cpu_scan_start() -> CpuScan {
    CpuScan { name: "Unknown"@, cores: 0, threads: 0, arch: "Unknown"@, blanks: 0, first: true }
}

/// The value of a `key: value` line: the text between its first `: ` and the next.
pub open spec fn line_field(line: Seq<char>) -> Seq<char> {
    seq_split_str(line, ": "@)[1]
}

/// What `u16::from_str` gives.
pub open spec fn parse_u16_spec(s: Seq<char>) -> Option<u16> {
    match parse_unsigned(s) {
        Some(n) => if n <= u16::MAX { Some(n as u16) } else { None },
        None => None,
    }
}

/// The architecture that one of the kernel's CPU flags reveals.
pub open spec fn flag_arch(f: Seq<char>) -> Option<Seq<char>> {
    if f == "ia86"@ {
        Some("IA86"@)
    } else if f == "arch_capabilities"@ {
        Some("IA32"@)
    } else if f == "lm"@ {
        Some("x86_64"@)
    } else {
        None
    }
}

/// The architecture that the first revealing flag of `fs` gives.
pub open spec fn arch_from_flags(fs: Seq<Seq<char>>) -> Option<Seq<char>>
    decreases fs.len(),
{
    if fs.len() == 0 {
        None
    } else {
        match flag_arch(fs[0]) {
            Some(a) => Some(a),
            None => arch_from_flags(fs.skip(1)),
        }
    }
}

/// The line is read for its value: a wanted key of the first block, or a clock line.
pub open spec fn line_read(st: CpuScan, line: Seq<char>, flags: u32) -> bool {
    let first = st.first && line.len() != 0;
    ||| first && seq_starts_with(line, "model name"@) && flag_set(flags, CPU_INFOFLAG_MODEL_NAME)
    ||| first && seq_starts_with(line, "cpu cores"@) && flag_set(flags, CPU_INFOFLAG_CORES)
    ||| first && seq_starts_with(line, "siblings"@) && flag_set(flags, CPU_INFOFLAG_THREADS)
    ||| first && seq_starts_with(line, "flags"@) && flag_set(flags, CPU_INFOFLAG_ARCH)
    ||| seq_starts_with(line, "cpu MHz"@)
}

/// The reading can take the line: a line read for its value has a `: `, and the blank lines
/// fit the 16-bit count.
pub open spec fn cpu_line_ok(st: CpuScan, line: Seq<char>, flags: u32) -> bool {
    &&& line.len() == 0 ==> st.blanks < 65535
    &&& line_read(st, line, flags) ==> seq_split_str(line, ": "@).len() >= 2
}

/// One line of `/proc/cpuinfo`. An empty line closes a block; in the first block the model
/// name, core count, sibling (thread) count and architecture flags are taken when wanted; a
/// clock line fails when its value (`clock_err`) could not be read.
pub open spec fn cpu_line(
    st: CpuScan,
    line: Seq<char>,
    flags: u32,
    clock_err: bool,
) -> Result<CpuScan, CpuScanFail> {
    let first = st.first && line.len() != 0;
    let blanks = if line.len() == 0 { st.blanks + 1 } else { st.blanks };
    let st1 = CpuScan { blanks, first, ..st };
    let f = line_field(line);
    if first && seq_starts_with(line, "model name"@) && flag_set(flags, CPU_INFOFLAG_MODEL_NAME) {
        Ok(CpuScan { name: f, ..st1 })
    } else if first && seq_starts_with(line, "cpu cores"@) && flag_set(flags, CPU_INFOFLAG_CORES) {
        match parse_u16_spec(f) {
            Some(n) => Ok(CpuScan { cores: n, ..st1 }),
            None => Err(CpuScanFail::Cores),
        }
    } else if first && seq_starts_with(line, "siblings"@) && flag_set(flags, CPU_INFOFLAG_THREADS) {
        match parse_u16_spec(f) {
            Some(n) => Ok(CpuScan { threads: n, ..st1 }),
            None => Err(CpuScanFail::Threads),
        }
    } else if first && seq_starts_with(line, "flags"@) && flag_set(flags, CPU_INFOFLAG_ARCH) {
        match arch_from_flags(seq_split(f, ' ')) {
            Some(a) => Ok(CpuScan { arch: a, ..st1 }),
            None => Ok(st1),
        }
    } else if seq_starts_with(line, "cpu MHz"@) && clock_err {
        Err(CpuScanFail::Clock)
    } else {
        Ok(st1)
    }
}

/// The scan of `lines` from line `i` on, in state `st`. `clock_errs[j]` holds the error of
/// reading the clock value of line `j`, when there was one.
pub open spec fn cpu_scan(
    lines: Seq<Seq<char>>,
    flags: u32,
    clock_errs: Seq<Option<Seq<char>>>,
    i: int,
    st: CpuScan,
) -> CpuOutcome
    decreases lines.len() - i,
{
    if i < 0 || i >= lines.len() {
        CpuOutcome::Done(st)
    } else if !cpu_line_ok(st, lines[i], flags) {
        CpuOutcome::Stuck
    } else {
        match cpu_line(st, lines[i], flags, clock_errs[i] is Some) {
            Ok(s2) => cpu_scan(lines, flags, clock_errs, i + 1, s2),
            Err(f) => CpuOutcome::Failed(f, i),
        }
    }
}

/// The scan state that the exec fields stand for.
pub open spec fn scan_of(c: CpuInfoLines, first: bool) -> CpuScan {
    CpuScan {
        name: c.name@,
        cores: c.cores,
        threads: c.threads,
        arch: c.arch@,
        blanks: c.blank_lines as nat,
        first,
    }
}

/// Trusted: std's `u16::from_str`. As its documentation says, it accepts an optional `+` and
/// then decimal digits whose value fits in 16 bits; the text of its error (from `to_string`) is
/// not stated.
#[verifier::external_body]
fn std_parse_u16(s: &str) -> (r: Result<u16, String>)
    ensures
        match parse_u16_spec(s@) {
            Some(n) => r == Ok::<u16, String>(n),
            None => r is Err,
        },
{
    match s.parse::<u16>() {
        Ok(n) => Ok(n),
        Err(e) => Err(e.to_string()),
    }
}

/// The architecture named by the first revealing flag among `flags_text`'s space-separated
/// flags.
pub fn arch_of_flags(flags_text: &str) -> (r: Option<String>)
    ensures
        r.deep_view() == arch_from_flags(seq_split(flags_text@, ' ')),
{
    let pieces = split_char(flags_text, ' ');
    let ghost fs = pieces.deep_view();
    let mut i: usize = 0;
    assert(fs.skip(0) == fs);
    while i < pieces.len()
        invariant
            0 <= i <= pieces.len(),
            fs == pieces.deep_view(),
            fs == seq_split(flags_text@, ' '),
            arch_from_flags(fs) == arch_from_flags(fs.skip(i as int)),
        decreases pieces.len() - i,
    {
        let f = pieces[i].as_str();
        assert(f@ == fs[i as int]);
        assert(fs.skip(i as int)[0] == fs[i as int]);
        assert(fs.skip(i as int).skip(1) == fs.skip(i + 1));
        if str_eq(f, "ia86") {
            return Some(copy_str("IA86"));
        } else if str_eq(f, "arch_capabilities") {
            return Some(copy_str("IA32"));
        } else if str_eq(f, "lm") {
            return Some(copy_str("x86_64"));
        }
        i += 1;
    }
    assert(fs.skip(i as int).len() == 0);
    None
}

/// The error message of a value of `/proc/cpuinfo` that could not be read.
pub open spec fn scan_fail_prefix(f: CpuScanFail) -> Seq<char> {
    match f {
        CpuScanFail::Cores => "WARNING: Could not parse cpu cores: "@,
        CpuScanFail::Threads => "WARNING: Could not parse cpu threads: "@,
        CpuScanFail::Clock => "WARNING: Could not parse current cpu frequency: "@,
    }
}

/// Reads one line into `info`, as `cpu_line` says.
fn read_cpu_line(
    info: &mut CpuInfoLines,
    first: &mut bool,
    line: &str,
    flags: u32,
    clock_err: &Option<String>,
) -> (r: Result<(), ModuleError>)
    requires
        cpu_line_ok(scan_of(*old(info), *old(first)), line@, flags),
    ensures
        match cpu_line(scan_of(*old(info), *old(first)), line@, flags, clock_err is Some) {
            Ok(s2) => r is Ok && scan_of(*final(info), *final(first)) == s2,
            Err(f) => r matches Err(e) && e.module_name@ == "CPU"@ && seq_starts_with(
                e.message@,
                scan_fail_prefix(f),
            ) && (f == CpuScanFail::Clock ==> e.message@ == scan_fail_prefix(f) + clock_err->0@),
        },
{
    let ghost st = scan_of(*info, *first);
    let empty = line.unicode_len() == 0;
    if empty {
        *first = false;
        info.blank_lines = info.blank_lines + 1;
    }
    assert(scan_of(*info, *first) == CpuScan {
        blanks: if line@.len() == 0 { st.blanks + 1 } else { st.blanks },
        first: st.first && line@.len() != 0,
        ..st
    });
    let in_first = *first;
    if in_first && starts_with(line, "model name") && is_flag_set_u32(flags, CPU_INFOFLAG_MODEL_NAME) {
        let parts = split_str(line, ": ");
        info.name = copy_str(parts[1].as_str());
        return Ok(());
    } else if in_first && starts_with(line, "cpu cores") && is_flag_set_u32(flags, CPU_INFOFLAG_CORES) {
        let parts = split_str(line, ": ");
        match std_parse_u16(parts[1].as_str()) {
            Ok(n) => {
                info.cores = n;
                return Ok(());
            },
            Err(e) => {
                let mut m = copy_str("WARNING: Could not parse cpu cores: ");
                append_str(&mut m, e.as_str());
                proof {
                    reveal_strlit("WARNING: Could not parse cpu cores: ");
                    assert(m@.subrange(0, "WARNING: Could not parse cpu cores: "@.len() as int)
                        =~= "WARNING: Could not parse cpu cores: "@);
                }
                return Err(ModuleError::new("CPU", m));
            },
        }
    } else if in_first && starts_with(line, "siblings") && is_flag_set_u32(flags, CPU_INFOFLAG_THREADS) {
        let parts = split_str(line, ": ");
        match std_parse_u16(parts[1].as_str()) {
            Ok(n) => {
                info.threads = n;
                return Ok(());
            },
            Err(e) => {
                let mut m = copy_str("WARNING: Could not parse cpu threads: ");
                append_str(&mut m, e.as_str());
                proof {
                    reveal_strlit("WARNING: Could not parse cpu threads: ");
                    assert(m@.subrange(0, "WARNING: Could not parse cpu threads: "@.len() as int)
                        =~= "WARNING: Could not parse cpu threads: "@);
                }
                return Err(ModuleError::new("CPU", m));
            },
        }
    } else if in_first && starts_with(line, "flags") && is_flag_set_u32(flags, CPU_INFOFLAG_ARCH) {
        let parts = split_str(line, ": ");
        match arch_of_flags(parts[1].as_str()) {
            Some(a) => {
                info.arch = a;
            },
            None => {},
        }
        return Ok(());
    } else if starts_with(line, "cpu MHz") {
        match clock_err {
            Some(e) => {
                let mut m = copy_str("WARNING: Could not parse current cpu frequency: ");
                append_str(&mut m, e.as_str());
                proof {
                    reveal_strlit("WARNING: Could not parse current cpu frequency: ");
                    assert(m@.subrange(0, "WARNING: Could not parse current cpu frequency: "@.len() as int)
                        =~= "WARNING: Could not parse current cpu frequency: "@);
                }
                return Err(ModuleError::new("CPU", m));
            },
            None => {},
        }
    }
    Ok(())
}

/// Reads `/proc/cpuinfo`, given as its lines, for the details `info_flags` asks for: the
/// model name, core and sibling (thread) counts and architecture from the first processor's
/// block, and the number of blocks. `clock_errors[i]` is the error of reading the clock value
/// of line `i` (a `cpu MHz` line), when it could not be read; the first value that cannot be
/// read ends the reading with an error of the `CPU` module.
pub fn parse_cpuinfo(
    lines: &Vec<String>,
    info_flags: u32,
    clock_errors: &Vec<Option<String>>,
) -> (r: Result<CpuInfoLines, ModuleError>)
    requires
        clock_errors.len() == lines.len(),
        !(cpu_scan(lines.deep_view(), info_flags, clock_errors.deep_view(), 0, cpu_scan_start()) is Stuck),
    ensures
        match cpu_scan(lines.deep_view(), info_flags, clock_errors.deep_view(), 0, cpu_scan_start()) {
            CpuOutcome::Done(st) => r matches Ok(c) && scan_of(c, st.first) == st,
            CpuOutcome::Failed(f, i) => r matches Err(e) && e.module_name@ == "CPU"@
                && seq_starts_with(e.message@, scan_fail_prefix(f))
                && (f == CpuScanFail::Clock ==> e.message@ == scan_fail_prefix(f)
                    + clock_errors.deep_view()[i]->0),
            CpuOutcome::Stuck => true,
        },
{
    let ghost ls = lines.deep_view();
    let ghost errs = clock_errors.deep_view();
    let mut info = CpuInfoLines {
        name: copy_str("Unknown"),
        cores: 0,
        threads: 0,
        arch: copy_str("Unknown"),
        blank_lines: 0,
    };
    let mut first = true;
    let mut i: usize = 0;
    while i < lines.len()
        invariant
            0 <= i <= lines.len(),
            ls == lines.deep_view(),
            errs == clock_errors.deep_view(),
            clock_errors.len() == lines.len(),
            cpu_scan(ls, info_flags, errs, 0, cpu_scan_start()) == cpu_scan(ls, info_flags, errs, i as int, scan_of(info, first)),
            !(cpu_scan(ls, info_flags, errs, i as int, scan_of(info, first)) is Stuck),
        decreases lines.len() - i,
    {
        assert(lines@[i as int]@ == ls[i as int]);
        assert(clock_errors@[i as int].deep_view() == errs[i as int]);
        let r = read_cpu_line(&mut info, &mut first, lines[i].as_str(), info_flags, &clock_errors[i]);
        match r {
            Ok(()) => {},
            Err(e) => {
                return Err(e);
            },
        }
        i += 1;
    }
    Ok(info)
}

/// Falling back on the block count for the cores and on `/sys/devices/system/cpu/present` for
/// the threads is needed: the cores are wanted and `/proc/cpuinfo` gave none.
pub fn needs_thread_fallback(info: &CpuInfoLines, info_flags: u32) -> (r: bool)
    ensures
        r == (info.cores == 0 && flag_set(info_flags, CPU_INFOFLAG_CORES)),
{
    info.cores == 0 && is_flag_set_u32(info_flags, CPU_INFOFLAG_CORES)
}

/// The thread count that `/sys/devices/system/cpu/present` (a range such as `0-7`) gives:
/// one more than the number after its last `-`.
pub open spec fn present_threads(contents: Seq<char>) -> Option<u16> {
    match parse_u16_spec(seq_split(seq_trim(contents), '-').last()) {
        Some(n) => if n < u16::MAX { Some((n + 1) as u16) } else { None },
        None => None,
    }
}

/// Takes the cores from the block count and the threads from `/sys/devices/system/cpu/present`,
/// given as what reading it gave (its text, or the error of reading it). Fails when the file
/// could not be read or holds no thread count; the highest CPU number must leave room for one
/// more.
pub fn apply_thread_fallback(info: CpuInfoLines, present: &Result<String, String>) -> (r: Result<CpuInfoLines, ModuleError>)
    requires
        present matches Ok(t) ==> (parse_u16_spec(seq_split(seq_trim(t@), '-').last()) matches Some(n) ==> n < u16::MAX),
    ensures
        match present {
            Err(e) => r matches Err(m) && m.module_name@ == "CPU"@
                && m.message@ == "Can't read from /sys/devices/system/cpu/present - "@ + e@,
            Ok(t) => match present_threads(t@) {
                Some(n) => r matches Ok(c) && c.cores == info.blank_lines && c.threads == n
                    && c.name == info.name && c.arch == info.arch && c.blank_lines == info.blank_lines,
                None => r matches Err(m) && m.module_name@ == "CPU"@ && seq_starts_with(
                    m.message@,
                    "Failed to parse thread count from /sys/devices/system/cpu/present - "@,
                ),
            },
        },
{
    proof {
        reveal_strlit("Can't read from /sys/devices/system/cpu/present - ");
        reveal_strlit("Failed to parse thread count from /sys/devices/system/cpu/present - ");
    }
    match present {
        Err(e) => {
            let mut m = copy_str("Can't read from /sys/devices/system/cpu/present - ");
            append_str(&mut m, e.as_str());
            assert(m@ == "Can't read from /sys/devices/system/cpu/present - "@ + e@);
            let r = Err(ModuleError::new("CPU", m));
            assert(r matches Err(mm) && mm.module_name@ == "CPU"@);
            r
        },
        Ok(t) => {
            let trimmed = trim(t.as_str());
            let last = last_piece(trimmed.as_str(), '-');
            match std_parse_u16(last.as_str()) {
                Ok(n) => {
                    let mut info = info;
                    info.cores = info.blank_lines;
                    info.threads = n + 1;
                    Ok(info)
                },
                Err(e) => {
                    let mut m = copy_str("Failed to parse thread count from /sys/devices/system/cpu/present - ");
                    append_str(&mut m, e.as_str());
                    assert(m@.subrange(0, "Failed to parse thread count from /sys/devices/system/cpu/present - "@.len() as int)
                        =~= "Failed to parse thread count from /sys/devices/system/cpu/present - "@);
                    Err(ModuleError::new("CPU", m))
                },
            }
        },
    }
}

/// Trusted: raw-cpuid's `CpuId::new().get_processor_brand_string()`, as text. What it returns
/// depends on the processor it runs on, so nothing is stated of it.
#[verifier::external_body]
fn cpuid_brand() -> (r: Option<String>) {
    match raw_cpuid::CpuId::new().get_processor_brand_string() {
        Some(b) => Some(b.as_str().to_string()),
        None => None,
    }
}

/// A brand string as plain text, where there is one.
pub open spec fn brand_view(brand: Option<String>) -> Option<Seq<char>> {
    match brand {
        Some(b) => Some(b@),
        None => None,
    }
}

/// The processor's name once CPUID's brand string `brand` is taken into account: the brand
/// replaces a name that `/proc/cpuinfo` left `Unknown` when the name is wanted; otherwise the
/// name stays.
pub open spec fn name_with_brand(name: Seq<char>, info_flags: u32, brand: Option<Seq<char>>) -> Seq<char> {
    if name == "Unknown"@ && flag_set(info_flags, CPU_INFOFLAG_MODEL_NAME) {
        match brand {
            Some(b) => b,
            None => name,
        }
    } else {
        name
    }
}

/// Takes the brand string that CPUID gave (`None` where the processor has none) into the
/// details read from `/proc/cpuinfo`.
pub fn apply_cpuid_brand(info: CpuInfoLines, info_flags: u32, brand: Option<String>) -> (r: CpuInfoLines)
    ensures
        r.cores == info.cores && r.threads == info.threads && r.arch == info.arch
            && r.blank_lines == info.blank_lines,
        r.name@ == name_with_brand(info.name@, info_flags, brand_view(brand)),
{
    if str_eq(info.name.as_str(), "Unknown") && is_flag_set_u32(info_flags, CPU_INFOFLAG_MODEL_NAME) {
        match brand {
            Some(b) => {
                let mut info = info;
                info.name = b;
                info
            },
            None => info,
        }
    } else {
        info
    }
}

/// When the name is wanted and `/proc/cpuinfo` gave none, asks the processor itself (CPUID)
/// for its brand string; the name stays `Unknown` if the processor has none. Which brand the
/// processor gives depends on the machine, so the name is stated for whatever CPUID answered.
pub fn fill_name_from_cpuid(info: CpuInfoLines, info_flags: u32) -> (r: CpuInfoLines)
    ensures
        r.cores == info.cores && r.threads == info.threads && r.arch == info.arch
            && r.blank_lines == info.blank_lines,
        !(info.name@ == "Unknown"@ && flag_set(info_flags, CPU_INFOFLAG_MODEL_NAME)) ==> r.name
            == info.name,
        exists|brand: Option<Seq<char>>| r.name@ == name_with_brand(info.name@, info_flags, brand),
{
    if str_eq(info.name.as_str(), "Unknown") && is_flag_set_u32(info_flags, CPU_INFOFLAG_MODEL_NAME) {
        let brand = cpuid_brand();
        let r = apply_cpuid_brand(info, info_flags, brand);
        assert(r.name@ == name_with_brand(info.name@, info_flags, brand_view(brand)));
        r
    } else {
        assert(info.name@ == name_with_brand(info.name@, info_flags, None));
        info
    }
}

/// Whether a directory of `/sys/devices/system/cpu` is a CPU of its own: its name begins with
/// `cpu` and is neither `cpuidle` nor one beginning with `cpufreq`.
pub fn cpu_dir_wanted(file_name: &str) -> (r: bool)
    ensures
        r == (seq_starts_with(file_name@, "cpu"@) && file_name@ != "cpuidle"@
            && !seq_starts_with(file_name@, "cpufreq"@)),
{
    starts_with(file_name, "cpu") && !str_eq(file_name, "cpuidle") && !starts_with(file_name, "cpufreq")
}

/// The character index of the last space of `s`, or 0 when there is none (or only at the
/// start).
pub open spec fn last_space(s: Seq<char>) -> int
    decreases s.len(),
{
    if s.len() == 0 {
        0
    } else if s.last() == ' ' {
        s.len() - 1
    } else {
        last_space(s.drop_last())
    }
}

/// What removing the trailing `… N-Core Processor` of a processor name takes out: the text
/// from the last space before `-Core Processor` to the end. That position counts characters
/// but slices bytes, as the reading it follows does.
pub open spec fn trailing_processor_part(name: Seq<char>) -> Option<Seq<char>> {
    match seq_find(name, "-Core Processor"@) {
        Some(k) => byte_slice(name, last_space(name.take(k)), 0),
        None => None,
    }
}

/// A character index is never past the byte offset it starts at.
pub proof fn lemma_char_at_byte_le(s: Seq<char>, n: int)
    ensures
        char_at_byte(s, n) matches Some(k) ==> k <= n,
    decreases s.len(),
{
    if n != 0 && n >= 0 && s.len() > 0 {
        lemma_char_at_byte_le(s.skip(1), n - utf8_len(s[0]));
    }
}

/// `last_space` stays below the length of a non-empty text and is never negative.
pub proof fn lemma_last_space_bound(s: Seq<char>)
    ensures
        0 <= last_space(s),
        s.len() > 0 ==> last_space(s) < s.len(),
    decreases s.len(),
{
    if s.len() > 0 && s.last() != ' ' {
        lemma_last_space_bound(s.drop_last());
    }
}

/// Drops the `N-Core Processor` tail (and the word before it) from a processor name, as in
/// `AMD Ryzen 5 3600 6-Core Processor`, which becomes `AMD Ryzen 5 3600`: every occurrence of
/// the text from the last space before `-Core Processor` to the end is removed. A name
/// without `-Core Processor` is kept.
pub fn remove_trailing_processor(name: &str) -> (r: String)
    requires
        seq_find(name@, "-Core Processor"@) is Some ==> trailing_processor_part(name@) is Some,
    ensures
        r@ == (match trailing_processor_part(name@) {
            Some(part) => seq_replace(name@, part, Seq::<char>::empty()),
            None => name@,
        }),
{
    let v = chars_of(name);
    let pat = chars_of("-Core Processor");
    match vec_find_from(&v, &pat, 0) {
        None => {
            return copy_str(name);
        },
        Some(loc) => {
            proof {
                crate::text::lemma_find_from_contains(v@, pat@, 0);
            }
            let mut space_index: usize = 0;
            let mut i: usize = 0;
            assert(v@.take(0).len() == 0);
            while i < loc
                invariant
                    0 <= i <= loc,
                    loc <= v.len(),
                    space_index as int == last_space(v@.take(i as int)),
                decreases loc - i,
            {
                assert(v@.take(i + 1).drop_last() == v@.take(i as int));
                assert(v@.take(i + 1).last() == v@[i as int]);
                if v[i] == ' ' && space_index < i {
                    space_index = i;
                } else if v[i] == ' ' {
                    proof {
                        lemma_last_space_bound(v@.take(i as int));
                    }
                    assert(i == 0);
                }
                i += 1;
            }
            let part = byte_slice_of(&v, space_index, 0);
            match part {
                Some(p) => {
                    proof {
                        reveal_strlit("-Core Processor");
                        lemma_char_at_byte_le(v@, space_index as int);
                        lemma_last_space_bound(v@.take(loc as int));
                        crate::text::lemma_char_at_byte_bound(v@, space_index as int);
                        assert(crate::text::matches_at(v@, pat@, loc as int));
                        assert(pat@.len() == 15);
                        assert(space_index < v@.len());
                        let a = char_at_byte(v@, space_index as int)->0;
                        assert(p@ == v@.subrange(a, v@.len() as int));
                    }
                    let e = String::new();
                    assert(e@ == Seq::<char>::empty());
                    replace_str(name, p.as_str(), e.as_str())
                },
                None => copy_str(name),
            }
        },
    }
}

/// A processor, as the entry writes it: its name, core and thread counts, the current and
/// greatest clock speeds in MHz and GHz (already rounded and written out), and its
/// architecture.
pub struct CPUInfo {
    pub name: String,
    pub cores: u16,
    pub threads: u16,
    pub current_clock_mhz: String,
    pub current_clock_ghz: String,
    pub max_clock_mhz: String,
    pub max_clock_ghz: String,
    pub arch: String,
}

impl CPUInfo {
    /// `text` with each of the processor's placeholders filled in.
    pub open spec fn filled(&self, text: Seq<char>) -> Seq<char> {
        let t = seq_replace(text, "{name}"@, self.name@);
        let t = seq_replace(t, "{core_count}"@, nat_to_dec(self.cores as nat));
        let t = seq_replace(t, "{thread_count}"@, nat_to_dec(self.threads as nat));
        let t = seq_replace(t, "{current_clock_mhz}"@, self.current_clock_mhz@);
        let t = seq_replace(t, "{current_clock_ghz}"@, self.current_clock_ghz@);
        let t = seq_replace(t, "{max_clock_mhz}"@, self.max_clock_mhz@);
        let t = seq_replace(t, "{max_clock_ghz}"@, self.max_clock_ghz@);
        seq_replace(t, "{arch}"@, self.arch@)
    }

    /// Fills in the placeholders of `text`.
    pub fn replace_placeholders(&self, text: &str) -> (r: String)
        ensures
            r@ == self.filled(text@),
    {
        proof {
            reveal_strlit("{name}");
            reveal_strlit("{core_count}");
            reveal_strlit("{thread_count}");
            reveal_strlit("{current_clock_mhz}");
            reveal_strlit("{current_clock_ghz}");
            reveal_strlit("{max_clock_mhz}");
            reveal_strlit("{max_clock_ghz}");
            reveal_strlit("{arch}");
        }
        let cores = u64_to_string(self.cores as u64);
        let threads = u64_to_string(self.threads as u64);
        let t = replace_str(text, "{name}", self.name.as_str());
        let t = replace_str(t.as_str(), "{core_count}", cores.as_str());
        let t = replace_str(t.as_str(), "{thread_count}", threads.as_str());
        let t = replace_str(t.as_str(), "{current_clock_mhz}", self.current_clock_mhz.as_str());
        let t = replace_str(t.as_str(), "{current_clock_ghz}", self.current_clock_ghz.as_str());
        let t = replace_str(t.as_str(), "{max_clock_mhz}", self.max_clock_mhz.as_str());
        let t = replace_str(t.as_str(), "{max_clock_ghz}", self.max_clock_ghz.as_str());
        replace_str(t.as_str(), "{arch}", self.arch.as_str())
    }

    /// The entry: the title and the format with their placeholders filled in.
    pub fn style(&self, config: &Configuration) -> (r: (String, String))
        ensures
            module_styled(
                r,
                *config,
                config.cpu.title_color,
                config.cpu.title_bold,
                config.cpu.title_italic,
                config.cpu.separator,
                self.filled(config.cpu.title@),
                self.filled(config.cpu.format@),
            ),
    {
        let title = self.replace_placeholders(config.cpu.title.as_str());
        let value = self.replace_placeholders(config.cpu.format.as_str());
        let c = &config.cpu;
        style_module(config, &c.title_color, c.title_bold, c.title_italic, &c.separator, title.as_str(), value.as_str())
    }

    /// The entry when the processor could not be read: `Unknown` for each detail.
    pub fn unknown_output(config: &Configuration) -> (r: (String, String))
        ensures
            entry_styled(
                r,
                *config,
                config.cpu.title_color,
                config.cpu.title_bold,
                config.cpu.title_italic,
                config.cpu.separator,
                CPUInfo::unknown_title(config.cpu.title@),
                "Unknown"@,
            ),
    {
        proof {
            reveal_strlit("{name}");
            reveal_strlit("{core_count}");
            reveal_strlit("{thread_count}");
            reveal_strlit("{current_clock_mhz}");
            reveal_strlit("{current_clock_ghz}");
            reveal_strlit("{max_clock_mhz}");
            reveal_strlit("{max_clock_ghz}");
            reveal_strlit("{arch}");
        }
        let c = &config.cpu;
        let t = replace_str(c.title.as_str(), "{name}", "Unknown");
        let t = replace_str(t.as_str(), "{core_count}", "Unknown");
        let t = replace_str(t.as_str(), "{thread_count}", "Unknown");
        let t = replace_str(t.as_str(), "{current_clock_mhz}", "Unknown");
        let t = replace_str(t.as_str(), "{current_clock_ghz}", "Unknown");
        let t = replace_str(t.as_str(), "{max_clock_mhz}", "Unknown");
        let t = replace_str(t.as_str(), "{max_clock_ghz}", "Unknown");
        let title = replace_str(t.as_str(), "{arch}", "Unknown");
        style_entry(config, &c.title_color, c.title_bold, c.title_italic, &c.separator, title.as_str(), "Unknown")
    }

    /// A title with each of the processor's placeholders reading `Unknown`.
    pub open spec fn unknown_title(title: Seq<char>) -> Seq<char> {
        let t = seq_replace(title, "{name}"@, "Unknown"@);
        let t = seq_replace(t, "{core_count}"@, "Unknown"@);
        let t = seq_replace(t, "{thread_count}"@, "Unknown"@);
        let t = seq_replace(t, "{current_clock_mhz}"@, "Unknown"@);
        let t = seq_replace(t, "{current_clock_ghz}"@, "Unknown"@);
        let t = seq_replace(t, "{max_clock_mhz}"@, "Unknown"@);
        let t = seq_replace(t, "{max_clock_ghz}"@, "Unknown"@);
        seq_replace(t, "{arch}"@, "Unknown"@)
    }
}

} // verus!
