use vstd::prelude::*;
use crate::color::{lowercase, to_lowercase, CrabFetchColor};
use crate::config::Configuration;
use crate::module::{entry_styled, module_styled, style_entry, style_module, ModuleError};
use crate::process_info::{parse_u32, parse_u32_spec};
use crate::text::{
    append_str, find_from, lemma_nat_to_dec, lemma_parse_dec, lemma_split_front, lemma_split_str_front,
    lemma_split_whole, matches_at, byte_range, byte_range_of, byte_len, byte_len_of, chars_of, copy_str, is_ws,
    is_whitespace, lemma_split_nonempty, lemma_split_str_nonempty, nat_to_dec, parse_u64,
    parse_u64_spec, push_char, replace_str, seq_find, seq_replace, seq_split, seq_split_str,
    seq_starts_with, seq_trim, split_char, split_str, starts_with, std_parse_u32, str_eq,
    string_of_range, trim, u64_to_string, vec_find_from, lemma_byte_len_bound,
};

verus! {

/// Where GPU details are read from.
#[derive(Debug, Clone, Copy, PartialEq, Eq, Structural)]
pub enum GPUMethod {
    GLXInfo,
    PCISysFile,
}

/// The options of the GPU entries.
pub struct GPUConfiguration {
    pub method: GPUMethod,
    pub cache: bool,
    pub title: String,
    pub title_color: Option<CrabFetchColor>,
    pub title_bold: Option<bool>,
    pub title_italic: Option<bool>,
    pub seperator: Option<String>,
    pub use_ibis: Option<bool>,
    pub format: String,
}

/// A GPU: its vendor, model and video memory in megabytes.
pub struct GPUInfo {
    pub vendor: String,
    pub model: String,
    pub vram_mb: u32,
}

/// The name of a method, as written in the GPU cache.
pub open spec fn method_name(m: GPUMethod) -> Seq<char> {
    match m {
        GPUMethod::GLXInfo => "glxinfo"@,
        GPUMethod::PCISysFile => "pcisysfile"@,
    }
}

impl GPUMethod {
    /// The method's name, as written in the GPU cache.
    pub fn to_string(&self) -> (r: String)
        ensures
            r@ == method_name(*self),
    {
        match self {
            GPUMethod::GLXInfo => copy_str("glxinfo"),
            GPUMethod::PCISysFile => copy_str("pcisysfile"),
        }
    }
}

impl GPUInfo {
    /// The GPU as plain values.
    pub open spec fn view(&self) -> (Seq<char>, Seq<char>, u32) {
        (self.vendor@, self.model@, self.vram_mb)
    }

    /// Nothing known.
    pub fn new() -> (r: GPUInfo)
        ensures
            r.view() == (Seq::<char>::empty(), Seq::<char>::empty(), 0u32),
    {
        GPUInfo { vendor: String::new(), model: String::new(), vram_mb: 0 }
    }

    /// The format with `{vendor}`, `{model}` and `{vram}` filled in, the video memory as
    /// `vram` writes it.
    pub open spec fn filled(&self, format: Seq<char>, vram: Seq<char>) -> Seq<char> {
        seq_replace(seq_replace(seq_replace(format, "{vendor}"@, self.vendor@), "{model}"@, self.model@), "{vram}"@, vram)
    }

    /// Fills in the placeholders of the configured format; `vram` is the video memory as the
    /// entry writes it.
    pub fn replace_placeholders(&self, config: &Configuration, vram: &str) -> (r: String)
        ensures
            r@ == self.filled(config.gpu.format@, vram@),
    {
        proof {
            reveal_strlit("{vendor}");
            reveal_strlit("{model}");
            reveal_strlit("{vram}");
        }
        let t = replace_str(config.gpu.format.as_str(), "{vendor}", self.vendor.as_str());
        let t = replace_str(t.as_str(), "{model}", self.model.as_str());
        replace_str(t.as_str(), "{vram}", vram)
    }

    /// The entry of the `index`-th GPU: the title with `{index}` filled in, and the format with
    /// the GPU's details.
    pub fn style(&self, config: &Configuration, index: u8, vram: &str) -> (r: (String, String))
        ensures
            module_styled(
                r,
                *config,
                config.gpu.title_color,
                config.gpu.title_bold,
                config.gpu.title_italic,
                config.gpu.seperator,
                seq_replace(config.gpu.title@, "{index}"@, nat_to_dec(index as nat)),
                self.filled(config.gpu.format@, vram@),
            ),
    {
        proof {
            reveal_strlit("{index}");
        }
        let n = u64_to_string(index as u64);
        let title = replace_str(config.gpu.title.as_str(), "{index}", n.as_str());
        let value = self.replace_placeholders(config, vram);
        let c = &config.gpu;
        style_module(config, &c.title_color, c.title_bold, c.title_italic, &c.seperator, title.as_str(), value.as_str())
    }

    /// The entry when the GPUs could not be read.
    pub fn unknown_output(config: &Configuration) -> (r: (String, String))
        ensures
            entry_styled(
                r,
                *config,
                config.gpu.title_color,
                config.gpu.title_bold,
                config.gpu.title_italic,
                config.gpu.seperator,
                config.gpu.title@,
                "Unknown"@,
            ),
    {
        let c = &config.gpu;
        style_entry(config, &c.title_color, c.title_bold, c.title_italic, &c.seperator, c.title.as_str(), "Unknown")
    }
}


/// A GPU as plain values.
pub type GpuView = (Seq<char>, Seq<char>, u32);

/// Whether an entry of the GPU cache was written by `method`: its first line names it.
pub open spec fn cache_entry_kept(entry: Seq<char>, method: GPUMethod) -> bool {
    entry.len() > 0 && seq_split(entry, '\n')[0] == method_name(method)
}

/// What one entry of the GPU cache gives when read for `method`: for an entry that `method`
/// wrote, the vendor, model and video memory on its second to fourth lines; for one that another
/// method wrote, a blank GPU.
pub open spec fn cache_entry_gpu(entry: Seq<char>, method: GPUMethod) -> GpuView {
    let lines = seq_split(entry, '\n');
    if cache_entry_kept(entry, method) {
        (lines[1], lines[2], parse_u32_spec(lines[3])->Some_0)
    } else {
        (Seq::empty(), Seq::empty(), 0u32)
    }
}

/// An entry of the GPU cache that can be read without a panic.
pub open spec fn cache_entry_ok(entry: Seq<char>, method: GPUMethod) -> bool {
    let lines = seq_split(entry, '\n');
    entry.len() > 0 && lines[0] == method_name(method) ==> lines.len() >= 4 && parse_u32_spec(lines[3]) is Some
}

/// The GPUs of the cache's entries (separated by blank lines), one for each entry that is not
/// empty.
pub open spec fn cache_gpus(entries: Seq<Seq<char>>, method: GPUMethod) -> Seq<GpuView>
    decreases entries.len(),
{
    if entries.len() == 0 {
        Seq::empty()
    } else if entries.last().len() == 0 {
        cache_gpus(entries.drop_last(), method)
    } else {
        cache_gpus(entries.drop_last(), method).push(cache_entry_gpu(entries.last(), method))
    }
}

/// Reads the GPU cache (`/tmp/crabfetch-gpu`) written for `method`.
pub fn parse_gpu_cache(contents: &str, method: GPUMethod) -> (r: Vec<GPUInfo>)
    requires
        forall|i: int|
            0 <= i < seq_split_str(contents@, "\n\n"@).len() ==> cache_entry_ok(
                #[trigger] seq_split_str(contents@, "\n\n"@)[i],
                method,
            ),
    ensures
        r@.map_values(|g: GPUInfo| g.view()) == cache_gpus(seq_split_str(contents@, "\n\n"@), method),
{
    proof {
        reveal_strlit("\n\n");
    }
    let entries = split_str(contents, "\n\n");
    let ghost ev = entries.deep_view();
    let name = method.to_string();
    let mut gpus: Vec<GPUInfo> = Vec::new();
    let mut i: usize = 0;
    assert(ev.take(0) =~= Seq::<Seq<char>>::empty());
    assert(gpus@.map_values(|g: GPUInfo| g.view()) =~= Seq::<GpuView>::empty());
    while i < entries.len()
        invariant
            ev == entries.deep_view(),
            ev == seq_split_str(contents@, "\n\n"@),
            name@ == method_name(method),
            0 <= i <= ev.len(),
            forall|k: int| 0 <= k < ev.len() ==> cache_entry_ok(#[trigger] ev[k], method),
            gpus@.map_values(|g: GPUInfo| g.view()) == cache_gpus(ev.take(i as int), method),
        decreases ev.len() - i,
    {
        let entry: &str = entries[i].as_str();
        assert(entry@ == ev[i as int]);
        assert(ev.take(i + 1).drop_last() =~= ev.take(i as int));
        assert(ev.take(i + 1).last() == ev[i as int]);
        assert(cache_entry_ok(ev[i as int], method));
        if entry.is_empty() {
            i += 1;
            continue;
        }
        let mut gpu = GPUInfo::new();
        let lines = split_char(entry, '\n');
        proof {
            lemma_split_nonempty(entry@, '\n');
        }
        assert(lines@[0]@ == lines.deep_view()[0]);
        if str_eq(lines[0].as_str(), name.as_str()) {
            assert(lines@[1]@ == lines.deep_view()[1]);
            assert(lines@[2]@ == lines.deep_view()[2]);
            assert(lines@[3]@ == lines.deep_view()[3]);
            gpu.vendor = copy_str(lines[1].as_str());
            gpu.model = copy_str(lines[2].as_str());
            gpu.vram_mb = parse_u32(lines[3].as_str()).unwrap();
        }
        let ghost before = gpus@;
        gpus.push(gpu);
        assert(gpus@.map_values(|g: GPUInfo| g.view()) =~= before.map_values(|g: GPUInfo| g.view()).push(cache_entry_gpu(ev[i as int], method)));
        i += 1;
    }
    assert(ev.take(ev.len() as int) =~= ev);
    gpus
}

/// The entry of the GPU cache for one GPU found by `method`: the method, vendor, model and video
/// memory on lines of their own.
pub open spec fn cache_entry_text(method: GPUMethod, g: GpuView) -> Seq<char> {
    method_name(method) + seq!['\n'] + g.0 + seq!['\n'] + g.1 + seq!['\n'] + nat_to_dec(g.2 as nat)
}

/// The text of the GPU cache for `gpus` found by `method`: the entry of each GPU, each followed
/// by a blank line.
pub open spec fn cache_text(method: GPUMethod, gpus: Seq<GpuView>) -> Seq<char>
    decreases gpus.len(),
{
    if gpus.len() == 0 {
        Seq::empty()
    } else {
        cache_text(method, gpus.drop_last()) + cache_entry_text(method, gpus.last()) + seq!['\n', '\n']
    }
}

/// The text of the GPU cache for `gpus` found by `method`.
pub fn gpu_cache_text(method: GPUMethod, gpus: &Vec<GPUInfo>) -> (r: String)
    ensures
        r@ == cache_text(method, gpus@.map_values(|g: GPUInfo| g.view())),
{
    let ghost gv = gpus@.map_values(|g: GPUInfo| g.view());
    let name = method.to_string();
    let mut out = String::new();
    let mut i: usize = 0;
    assert(gv.take(0) =~= Seq::<GpuView>::empty());
    while i < gpus.len()
        invariant
            gv == gpus@.map_values(|g: GPUInfo| g.view()),
            name@ == method_name(method),
            0 <= i <= gv.len(),
            out@ == cache_text(method, gv.take(i as int)),
        decreases gv.len() - i,
    {
        let g = &gpus[i];
        assert(gv[i as int] == g.view());
        assert(gv.take(i + 1).drop_last() =~= gv.take(i as int));
        assert(gv.take(i + 1).last() == gv[i as int]);
        append_str(&mut out, name.as_str());
        push_char(&mut out, '\n');
        append_str(&mut out, g.vendor.as_str());
        push_char(&mut out, '\n');
        append_str(&mut out, g.model.as_str());
        push_char(&mut out, '\n');
        let v = u64_to_string(g.vram_mb as u64);
        append_str(&mut out, v.as_str());
        push_char(&mut out, '\n');
        push_char(&mut out, '\n');
        assert(out@ =~= cache_text(method, gv.take(i + 1)));
        i += 1;
    }
    assert(gv.take(gv.len() as int) =~= gv);
    out
}

/// A vendor or model that the GPU cache can hold: one non-empty line.
pub open spec fn cache_field_ok(s: Seq<char>) -> bool {
    s.len() > 0 && !s.contains('\n')
}

/// A GPU that the cache can hold: its vendor and model are each one non-empty line.
pub open spec fn gpu_fields_ok(g: GpuView) -> bool {
    cache_field_ok(g.0) && cache_field_ok(g.1)
}

/// Non-empty, neither starting nor ending with a newline, and without two newlines in a row.
spec fn newline_spaced(y: Seq<char>) -> bool {
    &&& y.len() > 0
    &&& y[0] != '\n'
    &&& y.last() != '\n'
    &&& forall|j: int| 0 <= j < y.len() - 1 ==> !(#[trigger] y[j] == '\n' && y[j + 1] == '\n')
}

/// One line before newline-spaced text keeps it newline-spaced.
proof fn lemma_spaced_join(x: Seq<char>, y: Seq<char>)
    requires
        cache_field_ok(x),
        newline_spaced(y),
    ensures
        newline_spaced(x + seq!['\n'] + y),
{
    let z = x + seq!['\n'] + y;
    assert forall|j: int| 0 <= j < z.len() - 1 implies !(#[trigger] z[j] == '\n' && z[j + 1] == '\n') by {
        if j < x.len() {
            assert(z[j] == x[j]);
            if z[j] == '\n' {
                assert(x.contains('\n'));
            }
        } else if j == x.len() {
            assert(z[j + 1] == y[0]);
        } else {
            assert(z[j] == y[j - x.len() - 1]);
            assert(z[j + 1] == y[j - x.len()]);
        }
    }
    assert(z[0] == x[0]);
    if x[0] == '\n' {
        assert(x.contains('\n'));
    }
    assert(z.last() == y.last());
}

/// A single line is newline-spaced.
proof fn lemma_line_spaced(x: Seq<char>)
    requires
        cache_field_ok(x),
    ensures
        newline_spaced(x),
{
    if x[0] == '\n' {
        assert(x.contains('\n'));
    }
    if x.last() == '\n' {
        assert(x.contains('\n'));
    }
    assert forall|j: int| 0 <= j < x.len() - 1 implies !(#[trigger] x[j] == '\n' && x[j + 1] == '\n') by {
        if x[j] == '\n' {
            assert(x.contains('\n'));
        }
    }
}

/// A method's name is one non-empty line.
proof fn lemma_method_name_line(method: GPUMethod)
    ensures
        cache_field_ok(method_name(method)),
{
    reveal_strlit("glxinfo");
    reveal_strlit("pcisysfile");
    let m = method_name(method);
    if m.contains('\n') {
        let i = choose|i: int| 0 <= i < m.len() && m[i] == '\n';
        assert(false);
    }
}

/// A decimal writing is one non-empty line that parses back as the number.
proof fn lemma_dec_line(n: u32)
    ensures
        cache_field_ok(nat_to_dec(n as nat)),
        parse_u32_spec(nat_to_dec(n as nat)) == Some(n),
{
    let d = nat_to_dec(n as nat);
    lemma_nat_to_dec(n as nat);
    lemma_parse_dec(n as u64);
    if d.contains('\n') {
        let i = choose|i: int| 0 <= i < d.len() && d[i] == '\n';
        assert('0' <= d[i]);
    }
}

/// The entry of a GPU whose vendor and model are lines: it is newline-spaced, its lines are the
/// method, vendor, model and video memory, and it reads back as the GPU.
proof fn lemma_entry_reads_back(method: GPUMethod, g: GpuView)
    requires
        cache_field_ok(g.0),
        cache_field_ok(g.1),
    ensures
        newline_spaced(cache_entry_text(method, g)),
        cache_entry_ok(cache_entry_text(method, g), method),
        cache_entry_kept(cache_entry_text(method, g), method),
        cache_entry_gpu(cache_entry_text(method, g), method) == g,
{
    let m = method_name(method);
    let d = nat_to_dec(g.2 as nat);
    lemma_method_name_line(method);
    lemma_dec_line(g.2);
    let e = cache_entry_text(method, g);
    let tail2 = g.1 + seq!['\n'] + d;
    let tail1 = g.0 + seq!['\n'] + tail2;
    assert(e =~= m + seq!['\n'] + tail1);
    lemma_line_spaced(d);
    lemma_spaced_join(g.1, d);
    lemma_spaced_join(g.0, tail2);
    lemma_spaced_join(m, tail1);
    lemma_split_front(m, tail1, '\n');
    lemma_split_front(g.0, tail2, '\n');
    lemma_split_front(g.1, d, '\n');
    lemma_split_whole(d, '\n');
    assert(seq_split(e, '\n') =~= seq![m, g.0, g.1, d]);
}

/// An entry followed by a blank line is cut off whole when the cache is split at blank lines.
proof fn lemma_entry_split(e: Seq<char>, t: Seq<char>)
    requires
        newline_spaced(e),
    ensures
        seq_split_str(e + seq!['\n', '\n'] + t, "\n\n"@) == seq![e] + seq_split_str(t, "\n\n"@),
{
    reveal_strlit("\n\n");
    let p = seq!['\n', '\n'];
    assert(p =~= "\n\n"@);
    let s = e + p + t;
    assert forall|j: int| 0 <= j < e.len() implies !matches_at(s, p, j) by {
        if matches_at(s, p, j) {
            assert(s.subrange(j, j + 2)[0] == s[j]);
            assert(s.subrange(j, j + 2)[1] == s[j + 1]);
            if j + 1 < e.len() {
                assert(s[j] == e[j] && s[j + 1] == e[j + 1]);
            } else {
                assert(s[j] == e.last());
            }
        }
    }
    lemma_split_str_front(e, p, t);
}

/// The cache text starts with the first GPU's entry and its blank line.
proof fn lemma_cache_text_front(method: GPUMethod, gpus: Seq<GpuView>)
    requires
        gpus.len() > 0,
    ensures
        cache_text(method, gpus) == cache_entry_text(method, gpus[0]) + seq!['\n', '\n'] + cache_text(
            method,
            gpus.skip(1),
        ),
    decreases gpus.len(),
{
    if gpus.len() == 1 {
        assert(gpus.drop_last() =~= Seq::<GpuView>::empty());
        assert(gpus.skip(1) =~= Seq::<GpuView>::empty());
        assert(cache_text(method, gpus.drop_last()) == Seq::<char>::empty());
        assert(cache_text(method, gpus.skip(1)) == Seq::<char>::empty());
        assert(gpus.last() == gpus[0]);
        assert(cache_text(method, gpus) =~= cache_entry_text(method, gpus[0]) + seq!['\n', '\n']);
    } else {
        let a = gpus.drop_last();
        lemma_cache_text_front(method, a);
        assert(a.skip(1) =~= gpus.skip(1).drop_last());
        assert(gpus.skip(1).last() == gpus.last());
        assert(a[0] == gpus[0]);
        assert(cache_text(method, gpus) =~= cache_entry_text(method, gpus[0]) + seq!['\n', '\n'] + cache_text(
            method,
            gpus.skip(1),
        ));
    }
}

/// The entries of the GPUs' cache text, each one line per field.
pub open spec fn cache_entries(method: GPUMethod, gpus: Seq<GpuView>) -> Seq<Seq<char>> {
    gpus.map_values(|g: GpuView| cache_entry_text(method, g))
}

/// Splitting the cache text at blank lines gives each GPU's entry, then an empty piece.
proof fn lemma_cache_split(method: GPUMethod, gpus: Seq<GpuView>)
    requires
        forall|i: int| 0 <= i < gpus.len() ==> gpu_fields_ok(#[trigger] gpus[i]),
    ensures
        seq_split_str(cache_text(method, gpus), "\n\n"@) == cache_entries(method, gpus).push(Seq::<char>::empty()),
    decreases gpus.len(),
{
    reveal_strlit("\n\n");
    if gpus.len() == 0 {
        assert(find_from(Seq::<char>::empty(), "\n\n"@, 0) is None);
        assert(cache_entries(method, gpus) =~= Seq::<Seq<char>>::empty());
        assert(seq_split_str(Seq::<char>::empty(), "\n\n"@) =~= seq![Seq::<char>::empty()]);
    } else {
        let rest = gpus.skip(1);
        assert forall|i: int| 0 <= i < rest.len() implies gpu_fields_ok(#[trigger] rest[i]) by {
            assert(rest[i] == gpus[i + 1]);
        }
        lemma_cache_split(method, rest);
        lemma_cache_text_front(method, gpus);
        assert(gpu_fields_ok(gpus[0]));
        lemma_entry_reads_back(method, gpus[0]);
        lemma_entry_split(cache_entry_text(method, gpus[0]), cache_text(method, rest));
        assert(cache_entries(method, gpus).push(Seq::<char>::empty()) =~= seq![cache_entry_text(method, gpus[0])]
            + cache_entries(method, rest).push(Seq::<char>::empty()));
    }
}

/// Reading the entries of the GPUs gives the GPUs.
proof fn lemma_cache_entries_read(method: GPUMethod, gpus: Seq<GpuView>)
    requires
        forall|i: int| 0 <= i < gpus.len() ==> gpu_fields_ok(#[trigger] gpus[i]),
    ensures
        cache_gpus(cache_entries(method, gpus), method) == gpus,
    decreases gpus.len(),
{
    if gpus.len() > 0 {
        let a = gpus.drop_last();
        assert forall|i: int| 0 <= i < a.len() implies gpu_fields_ok(#[trigger] a[i]) by {
            assert(a[i] == gpus[i]);
        }
        lemma_cache_entries_read(method, a);
        let g = gpus.last();
        assert(gpu_fields_ok(gpus[gpus.len() - 1]));
        lemma_entry_reads_back(method, g);
        let es = cache_entries(method, gpus);
        assert(es.drop_last() =~= cache_entries(method, a));
        assert(es.last() == cache_entry_text(method, g));
        assert(es.last().len() > 0);
        assert(cache_gpus(es, method) =~= gpus);
    } else {
        assert(cache_entries(method, gpus) =~= Seq::<Seq<char>>::empty());
    }
}

/// What the GPU cache reads back is what was written to it: the text written for GPUs whose
/// vendor and model are each one non-empty line can be read without a panic, and reading it
/// gives those GPUs.
pub proof fn lemma_gpu_cache_round_trip(method: GPUMethod, gpus: Seq<GpuView>)
    requires
        forall|i: int| 0 <= i < gpus.len() ==> gpu_fields_ok(#[trigger] gpus[i]),
    ensures
        forall|i: int|
            0 <= i < seq_split_str(cache_text(method, gpus), "\n\n"@).len() ==> cache_entry_ok(
                #[trigger] seq_split_str(cache_text(method, gpus), "\n\n"@)[i],
                method,
            ),
        cache_gpus(seq_split_str(cache_text(method, gpus), "\n\n"@), method) == gpus,
{
    lemma_cache_split(method, gpus);
    let es = cache_entries(method, gpus);
    let pieces = es.push(Seq::<char>::empty());
    assert forall|i: int| 0 <= i < pieces.len() implies cache_entry_ok(#[trigger] pieces[i], method) by {
        if i < es.len() {
            assert(gpu_fields_ok(gpus[i]));
            lemma_entry_reads_back(method, gpus[i]);
        }
    }
    lemma_cache_entries_read(method, gpus);
    assert(pieces.drop_last() =~= es);
}

/// The state of a pci.ids search: the vendor name found, the device name found, whether the
/// lines read are within the vendor's block, and whether the search has stopped.
pub type PciState = (Seq<char>, Seq<char>, bool, bool);

/// What one line of pci.ids does to the search for `vendor`'s `device`: comments are skipped;
/// a line that does not start with whitespace ends the vendor's block (and the search); the
/// first line starting with the vendor id names the vendor; a line of the block starting with a
/// tab and the device id names the device and ends the search.
pub open spec fn pci_step(st: PciState, line: Seq<char>, vendor: Seq<char>, device: Seq<char>) -> PciState {
    let (vr, dr, in_vendor, stopped) = st;
    if stopped || seq_starts_with(seq_trim(line), "#"@) {
        st
    } else if in_vendor && line.len() > 0 && !is_ws(line[0]) {
        (vr, dr, false, true)
    } else if seq_starts_with(line, vendor) && vr.len() == 0 {
        (seq_trim(line.skip(vendor.len() as int)), dr, true, false)
    } else if seq_starts_with(line, seq!['\t'] + device) && in_vendor {
        (vr, seq_trim(line.skip(device.len() as int + 1)), in_vendor, true)
    } else {
        st
    }
}

/// The search state after `lines`.
pub open spec fn pci_scan(lines: Seq<Seq<char>>, vendor: Seq<char>, device: Seq<char>) -> PciState
    decreases lines.len(),
{
    if lines.len() == 0 {
        (Seq::empty(), Seq::empty(), false, false)
    } else {
        pci_step(pci_scan(lines.drop_last(), vendor, device), lines.last(), vendor, device)
    }
}

/// The vendor and device names that pci.ids gives; the device id itself when it names none.
pub open spec fn pci_names(lines: Seq<Seq<char>>, vendor: Seq<char>, device: Seq<char>) -> (Seq<char>, Seq<char>) {
    let st = pci_scan(lines, vendor, device);
    (st.0, if st.1.len() == 0 { device } else { st.1 })
}

/// Whether a line of an ids file is a comment.
fn is_comment(line: &str) -> (r: bool)
    ensures
        r == seq_starts_with(seq_trim(line@), "#"@),
{
    let t = trim(line);
    starts_with(t.as_str(), "#")
}

/// Looks `vendor`'s `device` up in pci.ids (`ids`: the file found, with its lines or the error
/// met reading it; `None` when no copy was found).
pub fn search_pci_ids(
    vendor: &str,
    device: &str,
    ids: &Option<(String, Result<Vec<String>, String>)>,
) -> (r: Result<(String, String), ModuleError>)
    ensures
        match ids {
            None => r matches Err(e) && e.module_name@ == "GPU"@ && e.message@
                == "Could not find an appropriate path for getting PCI ID info."@,
            Some((path, Err(m))) => r matches Err(e) && e.module_name@ == "GPU"@ && e.message@
                == "Can't read from "@ + path@ + " - "@ + m@,
            Some((_, Ok(lines))) => r matches Ok(x) && (x.0@, x.1@) == pci_names(lines.deep_view(), vendor@, device@),
        },
{
    let lines = match ids {
        None => {
            return Err(ModuleError::new("GPU", copy_str("Could not find an appropriate path for getting PCI ID info.")));
        },
        Some((path, Err(m))) => {
            let mut msg = copy_str("Can't read from ");
            append_str(&mut msg, path.as_str());
            append_str(&mut msg, " - ");
            append_str(&mut msg, m.as_str());
            return Err(ModuleError::new("GPU", msg));
        },
        Some((_, Ok(lines))) => lines,
    };
    let ghost lv = lines.deep_view();
    let mut dev_term = String::new();
    push_char(&mut dev_term, '\t');
    append_str(&mut dev_term, device);
    let vchars = chars_of(vendor);
    let dchars = chars_of(dev_term.as_str());
    let mut vendor_result = String::new();
    let mut device_result = String::new();
    let mut in_vendor: bool = false;
    let mut i: usize = 0;
    assert(lv.take(0) =~= Seq::<Seq<char>>::empty());
    assert(lv.take(lv.len() as int) =~= lv);
    while i < lines.len()
        invariant_except_break
            (vendor_result@, device_result@, in_vendor, false) == pci_scan(lv.take(i as int), vendor@, device@),
        invariant
            lv == lines.deep_view(),
            lv.take(lv.len() as int) == lv,
            0 <= i <= lv.len(),
            dev_term@ == seq!['\t'] + device@,
            vchars@ == vendor@,
            dchars@ == dev_term@,
            ids matches Some(pair) && pair.1 matches Ok(ls2) && ls2.deep_view() == lv,
        ensures
            vendor_result@ == pci_scan(lv, vendor@, device@).0,
            device_result@ == pci_scan(lv, vendor@, device@).1,
        decreases lv.len() - i,
    {
        let line: &str = lines[i].as_str();
        assert(line@ == lv[i as int]);
        assert(lv.take(i + 1).drop_last() =~= lv.take(i as int));
        assert(lv.take(i + 1).last() == lv[i as int]);
        proof {
            reveal_strlit("#");
        }
        if is_comment(line) {
            i += 1;
            continue;
        }
        let lc = chars_of(line);
        if in_vendor && lc.len() > 0 {
            if !is_whitespace(lc[0]) {
                proof {
                    lemma_pci_stopped(lv, vendor@, device@, i + 1);
                }
                break;
            }
        }
        if starts_with(line, vendor) && vendor_result.as_str().is_empty() {
            let rest = string_of_range(&lc, vchars.len(), lc.len());
            assert(rest@ == line@.skip(vendor@.len() as int));
            vendor_result = trim(rest.as_str());
            in_vendor = true;
        } else if starts_with(line, dev_term.as_str()) && in_vendor {
            let rest = string_of_range(&lc, dchars.len(), lc.len());
            assert(rest@ == line@.skip(device@.len() as int + 1));
            device_result = trim(rest.as_str());
            proof {
                lemma_pci_stopped(lv, vendor@, device@, i + 1);
            }
            break;
        }
        i += 1;
    }
    if device_result.as_str().is_empty() {
        device_result = copy_str(device);
    }
    Ok((vendor_result, device_result))
}

/// Once the search has stopped, further lines change nothing.
pub proof fn lemma_pci_stopped(lines: Seq<Seq<char>>, vendor: Seq<char>, device: Seq<char>, i: int)
    requires
        0 <= i <= lines.len(),
        pci_scan(lines.take(i), vendor, device).3,
    ensures
        pci_scan(lines, vendor, device) == pci_scan(lines.take(i), vendor, device),
    decreases lines.len() - i,
{
    if i == lines.len() {
        assert(lines.take(i) =~= lines);
    } else {
        assert(lines.take(i + 1).drop_last() =~= lines.take(i));
        lemma_pci_stopped(lines, vendor, device, i + 1);
    }
}

/// The first line of an ids file that is not a comment and starts, ignoring case, with `term`.
pub open spec fn amd_first(lines: Seq<Seq<char>>, term: Seq<char>) -> Option<int>
    decreases lines.len(),
{
    if lines.len() == 0 {
        None
    } else {
        match amd_first(lines.drop_last(), term) {
            Some(i) => Some(i),
            None => if !seq_starts_with(seq_trim(lines.last()), "#"@) && seq_starts_with(lowercase(lines.last()), term) {
                Some(lines.len() - 1)
            } else {
                None
            },
        }
    }
}

/// The model that amdgpu.ids gives for `device`: the third tab-separated field of its line,
/// trimmed; the device id itself when there is none or it is empty.
pub open spec fn amd_model(lines: Seq<Seq<char>>, device: Seq<char>) -> Seq<char> {
    match amd_first(lines, lowercase(device)) {
        Some(i) => {
            let v = seq_trim(seq_split(lines[i], '\t')[2]);
            if v.len() == 0 { device } else { v }
        },
        None => device,
    }
}

/// An amdgpu.ids file whose line for `device` has a third field.
pub open spec fn amd_lines_ok(lines: Seq<Seq<char>>, device: Seq<char>) -> bool {
    amd_first(lines, lowercase(device)) matches Some(i) ==> seq_split(lines[i], '\t').len() > 2
}

/// Once the first match is found, further lines do not change it.
pub proof fn lemma_amd_first_stable(lines: Seq<Seq<char>>, term: Seq<char>, i: int)
    requires
        0 <= i <= lines.len(),
        amd_first(lines.take(i), term) is Some,
    ensures
        amd_first(lines, term) == amd_first(lines.take(i), term),
    decreases lines.len() - i,
{
    if i == lines.len() {
        assert(lines.take(i) =~= lines);
    } else {
        assert(lines.take(i + 1).drop_last() =~= lines.take(i));
        lemma_amd_first_stable(lines, term, i + 1);
    }
}

/// Looks an AMD `device` up in amdgpu.ids (`ids`: the file found, with its lines or the error
/// met reading it; `None` when it was not found).
pub fn search_amd_model(device: &str, ids: &Option<(String, Result<Vec<String>, String>)>) -> (r: Result<String, ModuleError>)
    requires
        (ids is Some && ids->Some_0.1 is Ok) ==> amd_lines_ok(ids->Some_0.1->Ok_0.deep_view(), device@),
    ensures
        match ids {
            None => r matches Err(e) && e.module_name@ == "GPU"@ && e.message@
                == "Could not find an appropriate path for getting AMD PCI ID info."@,
            Some((path, Err(m))) => r matches Err(e) && e.module_name@ == "GPU"@ && e.message@
                == "Can't read from "@ + path@ + " - "@ + m@,
            Some((_, Ok(lines))) => r matches Ok(x) && x@ == amd_model(lines.deep_view(), device@),
        },
{
    let lines = match ids {
        None => {
            return Err(ModuleError::new("GPU", copy_str("Could not find an appropriate path for getting AMD PCI ID info.")));
        },
        Some((path, Err(m))) => {
            let mut msg = copy_str("Can't read from ");
            append_str(&mut msg, path.as_str());
            append_str(&mut msg, " - ");
            append_str(&mut msg, m.as_str());
            return Err(ModuleError::new("GPU", msg));
        },
        Some((_, Ok(lines))) => lines,
    };
    let ghost lv = lines.deep_view();
    let term = to_lowercase(device);
    let mut i: usize = 0;
    assert(lv.take(0) =~= Seq::<Seq<char>>::empty());
    while i < lines.len()
        invariant
            lv == lines.deep_view(),
            0 <= i <= lv.len(),
            term@ == lowercase(device@),
            amd_first(lv.take(i as int), term@) is None,
            amd_lines_ok(lv, device@),
            ids matches Some(pair) && pair.1 matches Ok(ls2) && ls2.deep_view() == lv,
        decreases lv.len() - i,
    {
        let line: &str = lines[i].as_str();
        assert(line@ == lv[i as int]);
        assert(lv.take(i + 1).drop_last() =~= lv.take(i as int));
        assert(lv.take(i + 1).last() == lv[i as int]);
        proof {
            reveal_strlit("#");
        }
        if !is_comment(line) {
            let lower = to_lowercase(line);
            if starts_with(lower.as_str(), term.as_str()) {
                proof {
                    lemma_amd_first_stable(lv, term@, i + 1);
                }
                let fields = split_char(line, '\t');
                assert(fields@[2]@ == fields.deep_view()[2]);
                let v = trim(fields[2].as_str());
                if v.as_str().is_empty() {
                    return Ok(copy_str(device));
                }
                return Ok(v);
            }
        }
        i += 1;
    }
    assert(lv.take(lv.len() as int) =~= lv);
    Ok(copy_str(device))
}

/// The state of reading glxinfo's output: the vendor, model and video memory read so far, or a
/// failure to read the video memory.
pub type GlxState = Result<GpuView, ()>;

/// The index of the first `(` of `s`.
pub open spec fn open_paren(s: Seq<char>) -> Option<int> {
    seq_find(s, seq!['('])
}

/// A line of glxinfo's output that can be cut where its field is read.
pub open spec fn glx_line_ok(line: Seq<char>) -> bool {
    let t = seq_trim(line);
    &&& seq_starts_with(t, "OpenGL vendor string:"@) ==> byte_range(t, 22, byte_len(t)) is Some
    &&& seq_starts_with(t, "OpenGL renderer string:"@) ==> open_paren(t) is Some && byte_range(
        t,
        24,
        byte_len(t.take(open_paren(t)->Some_0)),
    ) is Some
    &&& seq_starts_with(t, "Dedicated video memory:"@) ==> byte_range(t, 24, byte_len(t) - 3) is Some
}

/// What one line of glxinfo's output does: `OpenGL vendor string:` gives the vendor,
/// `OpenGL renderer string:` the model (up to the first `(`, without the vendor's name, trimmed),
/// and `Dedicated video memory:` the video memory in megabytes.
pub open spec fn glx_step(st: GlxState, line: Seq<char>) -> GlxState {
    match st {
        Err(()) => st,
        Ok((vendor, model, vram)) => {
            let t = seq_trim(line);
            if seq_starts_with(t, "OpenGL vendor string:"@) {
                Ok((byte_range(t, 22, byte_len(t))->Some_0, model, vram))
            } else if seq_starts_with(t, "OpenGL renderer string:"@) {
                let cut = byte_range(t, 24, byte_len(t.take(open_paren(t)->Some_0)))->Some_0;
                Ok((vendor, seq_trim(seq_replace(cut, vendor, Seq::<char>::empty())), vram))
            } else if seq_starts_with(t, "Dedicated video memory:"@) {
                match parse_u32_spec(byte_range(t, 24, byte_len(t) - 3)->Some_0) {
                    Some(n) => Ok((vendor, model, n)),
                    None => Err(()),
                }
            } else {
                st
            }
        },
    }
}

/// The reading state after `lines`.
pub open spec fn glx_scan(lines: Seq<Seq<char>>) -> GlxState
    decreases lines.len(),
{
    if lines.len() == 0 {
        Ok((Seq::<char>::empty(), Seq::<char>::empty(), 0u32))
    } else {
        glx_step(glx_scan(lines.drop_last()), lines.last())
    }
}

/// The GPU that glxinfo's output describes.
pub fn glxinfo_gpu(contents: &str) -> (r: Result<GPUInfo, ModuleError>)
    requires
        forall|i: int| 0 <= i < seq_split(contents@, '\n').len() ==> glx_line_ok(#[trigger] seq_split(contents@, '\n')[i]),
        forall|i: int| 0 <= i < seq_split(contents@, '\n').len() ==> byte_len(#[trigger] seq_split(contents@, '\n')[i]) <= usize::MAX,
    ensures
        match glx_scan(seq_split(contents@, '\n')) {
            Ok(g) => r matches Ok(x) && x.view() == g,
            Err(()) => r matches Err(e) && e.module_name@ == "GPU"@,
        },
{
    let lines = split_char(contents, '\n');
    let ghost lv = lines.deep_view();
    let mut gpu = GPUInfo::new();
    let mut i: usize = 0;
    assert(lv.take(0) =~= Seq::<Seq<char>>::empty());
    while i < lines.len()
        invariant
            lv == lines.deep_view(),
            lv == seq_split(contents@, '\n'),
            0 <= i <= lv.len(),
            forall|k: int| 0 <= k < lv.len() ==> glx_line_ok(#[trigger] lv[k]),
            forall|k: int| 0 <= k < lv.len() ==> byte_len(#[trigger] lv[k]) <= usize::MAX,
            glx_scan(lv.take(i as int)) == Ok::<GpuView, ()>(gpu.view()),
        decreases lv.len() - i,
    {
        let raw: &str = lines[i].as_str();
        assert(raw@ == lv[i as int]);
        assert(lv.take(i + 1).drop_last() =~= lv.take(i as int));
        assert(lv.take(i + 1).last() == lv[i as int]);
        assert(glx_line_ok(lv[i as int]));
        let t = trim(raw);
        let line: &str = t.as_str();
        proof {
            crate::text::lemma_trim_bytes(raw@);
        }
        let v = chars_of(line);
        if starts_with(line, "OpenGL vendor string:") {
            let n = byte_len_of(line);
            gpu.vendor = byte_range_of(&v, 22, n).unwrap();
            assert(glx_scan(lv.take(i + 1)) == Ok::<GpuView, ()>(gpu.view()));
        } else if starts_with(line, "OpenGL renderer string:") {
            let open: Vec<char> = vec!['('];
            assert(open@ =~= seq!['(']);
            let k = vec_find_from(&v, &open, 0).unwrap();
            proof {
                crate::text::lemma_find_from_contains(v@, seq!['('], 0);
                crate::text::lemma_byte_len_prefix(v@, k as int);
            }
            let prefix = string_of_range(&v, 0, k);
            assert(prefix@ == v@.take(k as int));
            let end = byte_len_of(prefix.as_str());
            let cut = byte_range_of(&v, 24, end).unwrap();
            assert(open_paren(t@) == Some(k as int));
            assert(cut@ == byte_range(t@, 24, byte_len(t@.take(open_paren(t@)->Some_0)))->Some_0);
            let empty = String::new();
            let replaced = if gpu.vendor.as_str().is_empty() {
                cut
            } else {
                replace_str(cut.as_str(), gpu.vendor.as_str(), empty.as_str())
            };
            assert(replaced@ == seq_replace(cut@, gpu.vendor@, Seq::<char>::empty()));
            gpu.model = trim(replaced.as_str());
            assert(glx_scan(lv.take(i + 1)) == Ok::<GpuView, ()>(gpu.view()));
        } else if starts_with(line, "Dedicated video memory:") {
            let n = byte_len_of(line);
            let field = byte_range_of(&v, 24, n - 3).unwrap();
            match std_parse_u32(field.as_str()) {
                Ok(x) => {
                    assert(parse_u64_spec(field@) == Some(x as u64));
                    assert(parse_u32_spec(field@) == Some(x));
                    gpu.vram_mb = x;
                },
                Err(e) => {
                    proof {
                        lemma_glx_failed(lv, i + 1);
                    }
                    let mut m = copy_str("Unable to parse GPU memory: ");
                    append_str(&mut m, e.as_str());
                    return Err(ModuleError::new("GPU", m));
                },
            }
        }
        i += 1;
    }
    assert(lv.take(lv.len() as int) =~= lv);
    Ok(gpu)
}

/// Once reading has failed, further lines change nothing.
pub proof fn lemma_glx_failed(lines: Seq<Seq<char>>, i: int)
    requires
        0 <= i <= lines.len(),
        glx_scan(lines.take(i)) is Err,
    ensures
        glx_scan(lines) is Err,
    decreases lines.len() - i,
{
    if i == lines.len() {
        assert(lines.take(i) =~= lines);
    } else {
        assert(lines.take(i + 1).drop_last() =~= lines.take(i));
        lemma_glx_failed(lines, i + 1);
    }
}

/// What the pci.ids lookup gives: the names, or the error's message.
pub open spec fn pci_ids_result(vendor: Seq<char>, device: Seq<char>, ids: Option<(String, Result<Vec<String>, String>)>) -> Result<(Seq<char>, Seq<char>), Seq<char>> {
    match ids {
        None => Err("Could not find an appropriate path for getting PCI ID info."@),
        Some((path, Err(m))) => Err("Can't read from "@ + path@ + " - "@ + m@),
        Some((_, Ok(lines))) => Ok(pci_names(lines.deep_view(), vendor, device)),
    }
}

/// What the amdgpu.ids lookup gives: the model, or the error's message.
pub open spec fn amd_result(device: Seq<char>, ids: Option<(String, Result<Vec<String>, String>)>) -> Result<Seq<char>, Seq<char>> {
    match ids {
        None => Err("Could not find an appropriate path for getting AMD PCI ID info."@),
        Some((path, Err(m))) => Err("Can't read from "@ + path@ + " - "@ + m@),
        Some((_, Ok(lines))) => Ok(amd_model(lines.deep_view(), device)),
    }
}

/// What was read of one PCI device under `/sys/bus/pci/devices`: its class, vendor and device
/// ids, and its video memory size when that file exists; a failure holds the message to show.
pub struct PciDevice {
    pub class: Result<String, String>,
    pub vendor: Result<String, String>,
    pub device: Result<String, String>,
    pub vram: Option<Result<String, String>>,
}

/// An id file's contents without the `0x` before the id, trimmed.
pub open spec fn pci_id(s: Seq<char>) -> Seq<char> {
    seq_trim(byte_range(s, 2, byte_len(s))->Some_0)
}

/// Video memory in megabytes from the size in bytes, kept to 32 bits.
pub open spec fn vram_mb_of(bytes: u64) -> u32 {
    (bytes / 1024 / 1024) as u32
}

/// A device that can be read without a panic: its ids can be cut after `0x`, an AMD device's
/// line in amdgpu.ids has a model field, and its video memory size is a number.
pub open spec fn pci_device_ok(d: PciDevice, amd_ids: Option<(String, Result<Vec<String>, String>)>) -> bool {
    (d.class is Ok && seq_starts_with(d.class->Ok_0@, "0x03"@)) ==> {
        &&& d.vendor is Ok ==> byte_range(d.vendor->Ok_0@, 2, byte_len(d.vendor->Ok_0@)) is Some
            && byte_len(d.vendor->Ok_0@) <= usize::MAX
        &&& d.device is Ok ==> byte_range(d.device->Ok_0@, 2, byte_len(d.device->Ok_0@)) is Some
            && byte_len(d.device->Ok_0@) <= usize::MAX
        &&& (d.vendor is Ok && d.device is Ok && pci_id(d.vendor->Ok_0@) == "1002"@ && amd_ids is Some
            && amd_ids->Some_0.1 is Ok) ==> amd_lines_ok(amd_ids->Some_0.1->Ok_0.deep_view(), pci_id(d.device->Ok_0@))
        &&& (d.vram is Some && d.vram->Some_0 is Ok) ==> parse_u64_spec(seq_trim(d.vram->Some_0->Ok_0@)) is Some
    }
}

/// The GPU that one PCI device is, if it is a display controller (class `0x03...`), or the
/// message of the error met.
pub open spec fn pci_device_gpu_spec(
    d: PciDevice,
    pci_ids: Option<(String, Result<Vec<String>, String>)>,
    amd_ids: Option<(String, Result<Vec<String>, String>)>,
) -> Result<Option<GpuView>, Seq<char>> {
    match d.class {
        Err(m) => Err(m@),
        Ok(c) => if !seq_starts_with(c@, "0x03"@) {
            Ok(None)
        } else {
            match (d.vendor, d.device) {
                (Err(m), _) => Err(m@),
                (Ok(_), Err(m)) => Err(m@),
                (Ok(v), Ok(dv)) => {
                    let vendor = pci_id(v@);
                    let device = pci_id(dv@);
                    match pci_ids_result(vendor, device, pci_ids) {
                        Err(m) => Err(m),
                        Ok((vname, dname)) => {
                            let model: Result<Seq<char>, Seq<char>> = if vendor == "1002"@ {
                                amd_result(device, amd_ids)
                            } else {
                                Ok(dname)
                            };
                            match model {
                                Err(m) => Err(m),
                                Ok(mname) => match d.vram {
                                    None => Ok(Some((vname, mname, 0u32))),
                                    Some(Err(m)) => Err(m@),
                                    Some(Ok(t)) => Ok(Some((vname, mname, vram_mb_of(parse_u64_spec(seq_trim(t@))->Some_0)))),
                                },
                            }
                        },
                    }
                },
            }
        },
    }
}

/// The id in an id file's contents.
fn pci_id_of(s: &str) -> (r: String)
    requires
        byte_range(s@, 2, byte_len(s@)) is Some,
        byte_len(s@) <= usize::MAX,
    ensures
        r@ == pci_id(s@),
{
    let v = chars_of(s);
    let n = byte_len_of(s);
    let cut = byte_range_of(&v, 2, n).unwrap();
    trim(cut.as_str())
}

/// The GPU that one PCI device is, if it is a display controller.
pub fn pci_device_gpu(
    d: &PciDevice,
    pci_ids: &Option<(String, Result<Vec<String>, String>)>,
    amd_ids: &Option<(String, Result<Vec<String>, String>)>,
) -> (r: Result<Option<GPUInfo>, ModuleError>)
    requires
        pci_device_ok(*d, *amd_ids),
    ensures
        match pci_device_gpu_spec(*d, *pci_ids, *amd_ids) {
            Err(m) => r matches Err(e) && e.module_name@ == "GPU"@ && e.message@ == m,
            Ok(None) => r matches Ok(None),
            Ok(Some(g)) => r matches Ok(Some(x)) && x.view() == g,
        },
{
    proof {
        reveal_strlit("0x03");
        reveal_strlit("1002");
    }
    let class: &str = match &d.class {
        Err(m) => {
            return Err(ModuleError::new("GPU", copy_str(m.as_str())));
        },
        Ok(c) => c.as_str(),
    };
    if !starts_with(class, "0x03") {
        return Ok(None);
    }
    let vendor = match &d.vendor {
        Err(m) => {
            return Err(ModuleError::new("GPU", copy_str(m.as_str())));
        },
        Ok(v) => pci_id_of(v.as_str()),
    };
    let device = match &d.device {
        Err(m) => {
            return Err(ModuleError::new("GPU", copy_str(m.as_str())));
        },
        Ok(v) => pci_id_of(v.as_str()),
    };
    assert(d.vendor is Ok && vendor@ == pci_id(d.vendor->Ok_0@));
    assert(d.device is Ok && device@ == pci_id(d.device->Ok_0@));
    let dev_data = search_pci_ids(vendor.as_str(), device.as_str(), pci_ids)?;
    let mut gpu = GPUInfo::new();
    gpu.vendor = dev_data.0;
    assert(d.class is Ok && seq_starts_with(d.class->Ok_0@, "0x03"@));
    if str_eq(vendor.as_str(), "1002") {
        assert(pci_id(d.vendor->Ok_0@) == "1002"@);
        assert((amd_ids is Some && amd_ids->Some_0.1 is Ok) ==> amd_lines_ok(amd_ids->Some_0.1->Ok_0.deep_view(), device@));
        gpu.model = search_amd_model(device.as_str(), amd_ids)?;
    } else {
        gpu.model = dev_data.1;
    }
    match &d.vram {
        None => {},
        Some(Err(m)) => {
            return Err(ModuleError::new("GPU", copy_str(m.as_str())));
        },
        Some(Ok(t)) => {
            let trimmed = trim(t.as_str());
            let bytes = parse_u64(trimmed.as_str()).unwrap();
            let mb: u32 = #[verifier::truncate] ((bytes / 1024 / 1024) as u32);
            gpu.vram_mb = mb;
        },
    }
    Ok(Some(gpu))
}

/// The GPUs among the PCI devices, in order.
pub open spec fn pci_gpus_spec(
    devs: Seq<Result<PciDevice, String>>,
    pci_ids: Option<(String, Result<Vec<String>, String>)>,
    amd_ids: Option<(String, Result<Vec<String>, String>)>,
) -> Result<Seq<GpuView>, Seq<char>>
    decreases devs.len(),
{
    if devs.len() == 0 {
        Ok(Seq::empty())
    } else {
        match pci_gpus_spec(devs.drop_last(), pci_ids, amd_ids) {
            Err(m) => Err(m),
            Ok(gs) => match devs.last() {
                Err(m) => Err(m@),
                Ok(d) => match pci_device_gpu_spec(d, pci_ids, amd_ids) {
                    Err(m) => Err(m),
                    Ok(None) => Ok(gs),
                    Ok(Some(g)) => Ok(gs.push(g)),
                },
            },
        }
    }
}

/// The GPUs among the PCI devices (`devices`: what listing `/sys/bus/pci/devices` gave, each
/// entry read or failed), found through pci.ids and amdgpu.ids; the first failure fails all.
pub fn fill_from_pcisysfile(
    devices: Result<Vec<Result<PciDevice, String>>, String>,
    pci_ids: &Option<(String, Result<Vec<String>, String>)>,
    amd_ids: &Option<(String, Result<Vec<String>, String>)>,
) -> (r: Result<Vec<GPUInfo>, ModuleError>)
    requires
        devices matches Ok(ds) ==> forall|i: int| 0 <= i < ds@.len() ==> (#[trigger] ds@[i] matches Ok(d) ==> pci_device_ok(d, *amd_ids)),
    ensures
        match devices {
            Err(m) => r matches Err(e) && e.module_name@ == "GPU"@ && e.message@ == m@,
            Ok(ds) => match pci_gpus_spec(ds@, *pci_ids, *amd_ids) {
                Err(m) => r matches Err(e) && e.module_name@ == "GPU"@ && e.message@ == m,
                Ok(gs) => r matches Ok(v) && v@.map_values(|g: GPUInfo| g.view()) == gs,
            },
        },
{
    let ds = match devices {
        Err(m) => {
            return Err(ModuleError::new("GPU", m));
        },
        Ok(ds) => ds,
    };
    let mut gpus: Vec<GPUInfo> = Vec::new();
    let mut i: usize = 0;
    assert(ds@.take(0) =~= Seq::<Result<PciDevice, String>>::empty());
    assert(gpus@.map_values(|g: GPUInfo| g.view()) =~= Seq::<GpuView>::empty());
    while i < ds.len()
        invariant
            devices matches Ok(d0) && d0@ == ds@,
            0 <= i <= ds@.len(),
            forall|k: int| 0 <= k < ds@.len() ==> (#[trigger] ds@[k] matches Ok(d) ==> pci_device_ok(d, *amd_ids)),
            pci_gpus_spec(ds@.take(i as int), *pci_ids, *amd_ids) == Ok::<Seq<GpuView>, Seq<char>>(gpus@.map_values(|g: GPUInfo| g.view())),
        decreases ds@.len() - i,
    {
        assert(ds@.take(i + 1).drop_last() =~= ds@.take(i as int));
        assert(ds@.take(i + 1).last() == ds@[i as int]);
        match &ds[i] {
            Err(m) => {
                proof {
                    lemma_pci_gpus_failed(ds@, *pci_ids, *amd_ids, i + 1);
                }
                return Err(ModuleError::new("GPU", copy_str(m.as_str())));
            },
            Ok(d) => {
                match pci_device_gpu(d, pci_ids, amd_ids) {
                    Err(e) => {
                        proof {
                            lemma_pci_gpus_failed(ds@, *pci_ids, *amd_ids, i + 1);
                        }
                        return Err(e);
                    },
                    Ok(None) => {},
                    Ok(Some(g)) => {
                        let ghost before = gpus@;
                        gpus.push(g);
                        assert(gpus@.map_values(|x: GPUInfo| x.view()) =~= before.map_values(|x: GPUInfo| x.view()).push(g.view()));
                    },
                }
            },
        }
        i += 1;
    }
    assert(ds@.take(ds@.len() as int) =~= ds@);
    Ok(gpus)
}

/// Once a device has failed, the whole search has.
pub proof fn lemma_pci_gpus_failed(
    devs: Seq<Result<PciDevice, String>>,
    pci_ids: Option<(String, Result<Vec<String>, String>)>,
    amd_ids: Option<(String, Result<Vec<String>, String>)>,
    i: int,
)
    requires
        0 <= i <= devs.len(),
        pci_gpus_spec(devs.take(i), pci_ids, amd_ids) is Err,
    ensures
        pci_gpus_spec(devs, pci_ids, amd_ids) == pci_gpus_spec(devs.take(i), pci_ids, amd_ids),
    decreases devs.len() - i,
{
    if i == devs.len() {
        assert(devs.take(i) =~= devs);
    } else {
        assert(devs.take(i + 1).drop_last() =~= devs.take(i));
        lemma_pci_gpus_failed(devs, pci_ids, amd_ids, i + 1);
    }
}

/// What was found of the GPU cache file (`/tmp/crabfetch-gpu`).
pub enum CacheFile {
    /// There is no cache file.
    Absent,
    /// The file is there but could not be opened; it is taken as corrupt and removed.
    CannotOpen,
    /// The file was opened, but reading it failed with this message.
    ReadError(String),
    /// The file's contents.
    Contents(String),
}

/// What the GPU cache gives before any detection: with caching on and a cache file that could
/// be read, its GPUs; with one that was opened but not read, the read error; `None` when the
/// GPUs must be detected (caching off, no cache, or a cache that could not be opened, which the
/// caller removes).
pub fn cached_gpus(method: GPUMethod, use_cache: bool, cache: CacheFile) -> (r: Option<Result<Vec<GPUInfo>, ModuleError>>)
    requires
        use_cache ==> (cache matches CacheFile::Contents(c) ==> forall|i: int|
            0 <= i < seq_split_str(c@, "\n\n"@).len() ==> cache_entry_ok(#[trigger] seq_split_str(c@, "\n\n"@)[i], method)),
    ensures
        !use_cache ==> r is None,
        use_cache ==> (cache is Absent || cache is CannotOpen ==> r is None),
        use_cache ==> (cache matches CacheFile::ReadError(m) ==> (r matches Some(Err(e)) && e.module_name@ == "GPU"@
            && e.message@ == "GPU Cache exists, but cannot read from it - "@ + m@)),
        use_cache ==> (cache matches CacheFile::Contents(c) ==> (r matches Some(Ok(v)) && v@.map_values(
            |g: GPUInfo| g.view(),
        ) == cache_gpus(seq_split_str(c@, "\n\n"@), method))),
{
    if !use_cache {
        return None;
    }
    match cache {
        CacheFile::Absent => None,
        CacheFile::CannotOpen => None,
        CacheFile::ReadError(m) => {
            let mut msg = copy_str("GPU Cache exists, but cannot read from it - ");
            append_str(&mut msg, m.as_str());
            Some(Err(ModuleError::new("GPU", msg)))
        },
        CacheFile::Contents(c) => Some(Ok(parse_gpu_cache(c.as_str(), method))),
    }
}
/// Video memory is counted in whole megabytes of 1024 * 1024 bytes, rounded down: `vram_mb_of`
/// gives the largest number of megabytes that fits in the size, whenever that number fits in
/// 32 bits.
pub proof fn lemma_vram_megabytes(bytes: u64)
    requires
        bytes < 1048576 * 4294967296,
    ensures
        vram_mb_of(bytes) as int * 1048576 <= bytes,
        bytes < (vram_mb_of(bytes) as int + 1) * 1048576,
{
    let x = bytes as int;
    vstd::arithmetic::div_mod::lemma_div_denominator(x, 1024, 1024);
    vstd::arithmetic::div_mod::lemma_fundamental_div_mod(x, 1048576);
    vstd::arithmetic::div_mod::lemma_mod_pos_bound(x, 1048576);
    let q = x / 1048576;
    assert(q < 4294967296) by (nonlinear_arith)
        requires
            x < 1048576 * 4294967296,
            x == 1048576 * q + x % 1048576,
            0 <= x % 1048576,
    ;
    assert((bytes / 1024 / 1024) as int == q);
    assert(vram_mb_of(bytes) as int == q);
}

/// A GPU read from a PCI device gets its video memory from the device's size file: the size in
/// bytes in whole megabytes of 1024 * 1024 bytes (when that fits in 32 bits), or 0 when the
/// device has no such file.
pub proof fn lemma_pci_gpu_vram(
    d: PciDevice,
    pci_ids: Option<(String, Result<Vec<String>, String>)>,
    amd_ids: Option<(String, Result<Vec<String>, String>)>,
)
    ensures
        pci_device_gpu_spec(d, pci_ids, amd_ids) matches Ok(Some(g)) ==> {
            &&& d.vram is None ==> g.2 == 0
            &&& d.vram is Some ==> d.vram->Some_0 is Ok
            &&& d.vram matches Some(Ok(t)) ==> (parse_u64_spec(seq_trim(t@)) matches Some(bytes) ==> (
                bytes < 1048576 * 4294967296 ==> g.2 as int * 1048576 <= bytes < (g.2 as int + 1) * 1048576))
        },
{
    if let Some(Ok(t)) = d.vram {
        if let Some(bytes) = parse_u64_spec(seq_trim(t@)) {
            if bytes < 1048576 * 4294967296 {
                lemma_vram_megabytes(bytes);
            }
        }
    }
}

} // verus!
