use vstd::prelude::*;
use crate::color::CrabFetchColor;
use crate::config::Configuration;
use crate::module::{entry_styled, module_styled, style_entry, style_module, ModuleError};
use crate::text::{
    append_str, copy_str, replace_str, seq_contains, seq_replace, seq_split, seq_starts_with,
    seq_trim, split_char, starts_with, str_contains, string_of_range, trim, chars_of,
};
use crate::util::{bit_if, flag_set, is_flag_set_u32, lemma_flags2};

verus! {

/// The operating system: the distribution's name and id, and the kernel release.
pub struct OSInfo {
    pub distro: String,
    pub distro_id: String,
    pub kernel: String,
}

/// The options of the operating system entry.
pub struct OSConfiguration {
    pub title: String,
    pub title_color: Option<CrabFetchColor>,
    pub title_bold: Option<bool>,
    pub title_italic: Option<bool>,
    pub separator: Option<String>,
    pub format: String,
    pub newline_kernel: bool,
    pub kernel_title: String,
    pub kernel_format: String,
}

/// Set when the format shows the distribution.
pub const OS_INFOFLAG_DISTRO: u32 = 1;
/// Set when the format shows the kernel.
pub const OS_INFOFLAG_KERNEL: u32 = 2;

impl OSInfo {
    /// Text with `{distro}` and `{kernel}` filled in.
    pub open spec fn filled(&self, text: Seq<char>) -> Seq<char> {
        seq_replace(seq_replace(text, "{distro}"@, self.distro@), "{kernel}"@, self.kernel@)
    }

    /// Everything unknown.
    pub fn new() -> (r: OSInfo)
        ensures
            r.distro@ == "Unknown"@,
            r.distro_id@ == "Unknown"@,
            r.kernel@ == "Unknown"@,
    {
        OSInfo {
            distro: copy_str("Unknown"),
            distro_id: copy_str("Unknown"),
            kernel: copy_str("Unknown"),
        }
    }

    /// Fills the `{distro}` and `{kernel}` placeholders of `text`.
    pub fn replace_placeholders(&self, text: &str, _config: &Configuration) -> (r: String)
        ensures
            r@ == self.filled(text@),
    {
        proof {
            reveal_strlit("{distro}");
            reveal_strlit("{kernel}");
        }
        let t = replace_str(text, "{distro}", self.distro.as_str());
        replace_str(t.as_str(), "{kernel}", self.kernel.as_str())
    }

    /// The details that `format` asks for.
    pub fn gen_info_flags(format: &str) -> (r: u32)
        ensures
            r == bit_if(seq_contains(format@, "{distro}"@), OS_INFOFLAG_DISTRO) + bit_if(
                seq_contains(format@, "{kernel}"@),
                OS_INFOFLAG_KERNEL,
            ),
            flag_set(r, OS_INFOFLAG_DISTRO) == seq_contains(format@, "{distro}"@),
            flag_set(r, OS_INFOFLAG_KERNEL) == seq_contains(format@, "{kernel}"@),
    {
        let mut info_flags: u32 = 0;
        if str_contains(format, "{distro}") {
            info_flags = info_flags + OS_INFOFLAG_DISTRO;
        }
        if str_contains(format, "{kernel}") {
            info_flags = info_flags + OS_INFOFLAG_KERNEL;
        }
        proof {
            lemma_flags2(
                info_flags,
                seq_contains(format@, "{distro}"@),
                seq_contains(format@, "{kernel}"@),
            );
        }
        info_flags
    }

    /// The entry: title and format with the placeholders filled in.
    pub fn style(&self, config: &Configuration) -> (r: (String, String))
        ensures
            module_styled(
                r,
                *config,
                config.os.title_color,
                config.os.title_bold,
                config.os.title_italic,
                config.os.separator,
                self.filled(config.os.title@),
                self.filled(config.os.format@),
            ),
    {
        let title = self.replace_placeholders(config.os.title.as_str(), config);
        let value = self.replace_placeholders(config.os.format.as_str(), config);
        style_module(
            config,
            &config.os.title_color,
            config.os.title_bold,
            config.os.title_italic,
            &config.os.separator,
            title.as_str(),
            value.as_str(),
        )
    }

    /// The entry when nothing could be found: `Unknown` everywhere.
    pub fn unknown_output(config: &Configuration) -> (r: (String, String))
        ensures
            entry_styled(
                r,
                *config,
                config.os.title_color,
                config.os.title_bold,
                config.os.title_italic,
                config.os.separator,
                seq_replace(
                    seq_replace(config.os.title@, "{distro}"@, "Unknown"@),
                    "{kernel}"@,
                    "Unknown"@,
                ),
                "Unknown"@,
            ),
    {
        proof {
            reveal_strlit("{distro}");
            reveal_strlit("{kernel}");
        }
        let t = replace_str(config.os.title.as_str(), "{distro}", "Unknown");
        let title = replace_str(t.as_str(), "{kernel}", "Unknown");
        style_entry(
            config,
            &config.os.title_color,
            config.os.title_bold,
            config.os.title_italic,
            &config.os.separator,
            title.as_str(),
            "Unknown",
        )
    }

    /// The kernel entry shown on its own line: the kernel title, and the kernel format with
    /// `{kernel}` filled in.
    pub fn style_kernel(&self, config: &Configuration) -> (r: (String, String))
        ensures
            module_styled(
                r,
                *config,
                config.os.title_color,
                config.os.title_bold,
                config.os.title_italic,
                config.os.separator,
                config.os.kernel_title@,
                seq_replace(config.os.kernel_format@, "{kernel}"@, self.kernel@),
            ),
    {
        proof {
            reveal_strlit("{kernel}");
        }
        let value = replace_str(config.os.kernel_format.as_str(), "{kernel}", self.kernel.as_str());
        style_module(
            config,
            &config.os.title_color,
            config.os.title_bold,
            config.os.title_italic,
            &config.os.separator,
            config.os.kernel_title.as_str(),
            value.as_str(),
        )
    }
}

/// A `PRETTY_NAME=` line that can be cut: its name sits between the quote after `=` and the
/// last character, and both ends fall on character boundaries.
pub open spec fn pretty_line_ok(line: Seq<char>) -> bool {
    seq_starts_with(line, "PRETTY_NAME="@) ==> line.len() >= 14 && (line[12] as u32) < 128 && (
    line.last() as u32) < 128
}

/// The lines of `/etc/os-release` as they are read: the trimmed contents split at newlines.
pub open spec fn os_release_lines(contents: Seq<char>) -> Seq<Seq<char>> {
    seq_split(seq_trim(contents), '\n')
}

/// What one line changes of the distribution name and id found so far.
pub open spec fn os_release_step(found: (Seq<char>, Seq<char>), line: Seq<char>) -> (
    Seq<char>,
    Seq<char>,
) {
    if seq_starts_with(line, "PRETTY_NAME="@) {
        (line.subrange(13, line.len() - 1), found.1)
    } else if seq_starts_with(line, "ID="@) {
        (found.0, seq_trim(line.skip(3)))
    } else {
        found
    }
}

/// The distribution name and id after reading `lines` from `found`.
pub open spec fn os_release_scan(lines: Seq<Seq<char>>, found: (Seq<char>, Seq<char>)) -> (
    Seq<char>,
    Seq<char>,
)
    decreases lines.len(),
{
    if lines.len() == 0 {
        found
    } else {
        os_release_step(os_release_scan(lines.drop_last(), found), lines.last())
    }
}

/// Reads the distribution name (`PRETTY_NAME`, without its quotes) and id (`ID`) from the
/// contents of `/etc/os-release`; the last line of each kind wins, and what is absent stays.
pub fn parse_os_release(os: &mut OSInfo, contents: &str)
    requires
        forall|i: int|
            0 <= i < os_release_lines(contents@).len() ==> pretty_line_ok(
                #[trigger] os_release_lines(contents@)[i],
            ),
    ensures
        (final(os).distro@, final(os).distro_id@) == os_release_scan(
            os_release_lines(contents@),
            (old(os).distro@, old(os).distro_id@),
        ),
        final(os).kernel == old(os).kernel,
{
    let trimmed = trim(contents);
    let lines = split_char(trimmed.as_str(), '\n');
    let ghost ls = lines.deep_view();
    let ghost start = (os.distro@, os.distro_id@);
    let mut i: usize = 0;
    assert(ls == os_release_lines(contents@));
    assert forall|j: int| 0 <= j < ls.len() implies pretty_line_ok(#[trigger] ls[j]) by {
        assert(ls[j] == os_release_lines(contents@)[j]);
    }
    assert(ls.take(0) == Seq::<Seq<char>>::empty());
    while i < lines.len()
        invariant
            ls == lines.deep_view(),
            ls == os_release_lines(contents@),
            forall|j: int| 0 <= j < ls.len() ==> pretty_line_ok(#[trigger] ls[j]),
            0 <= i <= ls.len(),
            (os.distro@, os.distro_id@) == os_release_scan(ls.take(i as int), start),
            os.kernel == old(os).kernel,
            start == (old(os).distro@, old(os).distro_id@),
        decreases ls.len() - i,
    {
        let line: &str = lines[i].as_str();
        assert(line@ == ls[i as int]);
        assert(ls.take(i + 1).drop_last() == ls.take(i as int));
        assert(ls.take(i + 1).last() == ls[i as int]);
        proof {
            reveal_strlit("PRETTY_NAME=");
            reveal_strlit("ID=");
        }
        if starts_with(line, "PRETTY_NAME=") {
            assert(pretty_line_ok(ls[i as int]));
            let v = chars_of(line);
            os.distro = string_of_range(&v, 13, v.len() - 1);
        } else if starts_with(line, "ID=") {
            let v = chars_of(line);
            let rest = string_of_range(&v, 3, v.len());
            assert(rest@ == line@.skip(3));
            os.distro_id = trim(rest.as_str());
        }
        i += 1;
    }
    assert(ls.take(ls.len() as int) == ls);
}

/// The operating system as the format asks for it, from the contents of `/etc/os-release`
/// (or the error met reading it) and the kernel release. The distribution is read when the
/// format shows it or when the ASCII art is shown; a read error then fails the entry.
pub fn get_os(config: &Configuration, os_release: Result<String, String>, kernel_release: String) -> (r: Result<OSInfo, ModuleError>)
    requires
        os_release matches Ok(c) ==> forall|i: int|
            0 <= i < os_release_lines(c@).len() ==> pretty_line_ok(
                #[trigger] os_release_lines(c@)[i],
            ),
    ensures
        ({
            let format = if config.os.newline_kernel {
                config.os.format@ + config.os.kernel_format@
            } else {
                config.os.format@
            };
            let wants_distro = seq_contains(format, "{distro}"@) || config.ascii.display;
            let wants_kernel = seq_contains(format, "{kernel}"@);
            match r {
                Err(e) => {
                    &&& wants_distro
                    &&& os_release is Err
                    &&& e.module_name@ == "OS"@
                    &&& e.message@ == "Can't read from /etc/os-release - "@ + os_release->Err_0@
                },
                Ok(os) => {
                    &&& !(wants_distro && os_release is Err)
                    &&& (os.distro@, os.distro_id@) == (if wants_distro {
                        os_release_scan(
                            os_release_lines(os_release->Ok_0@),
                            ("Unknown"@, "Unknown"@),
                        )
                    } else {
                        ("Unknown"@, "Unknown"@)
                    })
                    &&& os.kernel@ == (if wants_kernel {
                        kernel_release@
                    } else {
                        "Unknown"@
                    })
                },
            }
        }),
{
    let mut os = OSInfo::new();
    let mut format = copy_str(config.os.format.as_str());
    if config.os.newline_kernel {
        append_str(&mut format, config.os.kernel_format.as_str());
    }
    let info_flags = OSInfo::gen_info_flags(format.as_str());
    if is_flag_set_u32(info_flags, OS_INFOFLAG_DISTRO) || config.ascii.display {
        match os_release {
            Ok(contents) => {
                parse_os_release(&mut os, contents.as_str());
            },
            Err(e) => {
                let mut message = copy_str("Can't read from /etc/os-release - ");
                append_str(&mut message, e.as_str());
                return Err(ModuleError::new("OS", message));
            },
        }
    }
    if is_flag_set_u32(info_flags, OS_INFOFLAG_KERNEL) {
        os.kernel = kernel_release;
    }
    Ok(os)
}

} // verus!
