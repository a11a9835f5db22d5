use vstd::prelude::*;
use crate::package_managers::{find_name, ManagerInfo, PackageEntry};
use crate::text::{
    append_str, byte_range, byte_range_of, chars_of, copy_str, last_piece, seq_split,
    seq_starts_with, seq_trim, split_char, split_str, starts_with, str_eq, trim, trim_chars,
    trim_two, lemma_split_nonempty, seq_split_str, is_ws, lemma_split_front, lemma_split_first_piece,
    lemma_trim_plain,
};

verus! {

/// The program name used for version lookups: the given name, or the last part of the path.
pub open spec fn program_name(exe_path: Seq<char>, name: Option<Seq<char>>) -> Seq<char> {
    match name {
        Some(n) => n,
        None => seq_split(exe_path, '/').last(),
    }
}

/// The program name used for version lookups.
pub fn program_name_of(exe_path: &str, name: Option<&str>) -> (r: String)
    ensures
        r@ == program_name(exe_path@, match name {
            Some(n) => Some(n@),
            None => None,
        }),
{
    match name {
        Some(n) => copy_str(n),
        None => last_piece(exe_path, '/'),
    }
}

/// The package that provides an executable, where its name differs (`nvim` is in `neovim`).
pub open spec fn package_name_for(name: Seq<char>) -> Seq<char> {
    if name == "nvim"@ {
        "neovim"@
    } else {
        name
    }
}

/// The package that provides an executable.
pub fn substitite_package_name(name: &str) -> (r: String)
    ensures
        r@ == package_name_for(name@),
{
    if str_eq(name, "nvim") {
        copy_str("neovim")
    } else {
        copy_str(name)
    }
}

/// The version that the package cache gives for a package name; `weston-terminal` falls back
/// to the `weston` package.
pub open spec fn cached_version(entries: Seq<PackageEntry>, name: Seq<char>) -> Option<Seq<char>> {
    match find_name(entries, name) {
        Some(i) => Some(entries[i].1),
        None => if name == "weston-terminal"@ {
            match find_name(entries, "weston"@) {
                Some(i) => Some(entries[i].1),
                None => None,
            }
        } else {
            None
        },
    }
}

/// The version of the package `name` in the cache.
pub fn use_package_manager(name: &str, package_managers: &ManagerInfo) -> (r: Option<String>)
    ensures
        r.deep_view() == cached_version(package_managers.entries(), name@),
{
    match package_managers.version_of(name) {
        Some(v) => Some(v),
        None => {
            if str_eq(name, "weston-terminal") {
                package_managers.version_of("weston")
            } else {
                None
            }
        },
    }
}

impl ManagerInfo {
    /// The version of the cached package called `name`.
    pub fn version_of(&self, name: &str) -> (r: Option<String>)
        ensures
            r.deep_view() == (match find_name(self.entries(), name@) {
                Some(i) => Some(self.entries()[i].1),
                None => None,
            }),
    {
        proof {
            crate::package_managers::lemma_find_name(self.entries(), name@);
        }
        let mut i: usize = 0;
        while i < self.packages.len()
            invariant
                0 <= i <= self.packages@.len(),
                self.entries().len() == self.packages@.len(),
                forall|j: int| 0 <= j < i ==> self.entries()[j].0 != name@,
                find_name(self.entries(), name@) matches Some(k) ==> 0 <= k < self.entries().len()
                    && self.entries()[k].0 == name@ && forall|j: int|
                    0 <= j < k ==> self.entries()[j].0 != name@,
                find_name(self.entries(), name@) is None ==> forall|j: int|
                    0 <= j < self.entries().len() ==> self.entries()[j].0 != name@,
            decreases self.packages@.len() - i,
        {
            if str_eq(self.packages[i].name.as_str(), name) {
                assert(self.entries()[i as int].0 == name@);
                return Some(copy_str(self.packages[i].version.as_str()));
            }
            i += 1;
        }
        None
    }
}

/// The environment variable that holds a program's version, for the programs that export one.
pub open spec fn version_env_var(name: Seq<char>) -> Option<Seq<char>> {
    if name == "konsole"@ {
        Some("KONSOLE_VERSION"@)
    } else if name == "xterm"@ {
        Some("XTERM_VERSION"@)
    } else if name == "bash"@ {
        Some("BASH_VERSION"@)
    } else if name == "fish"@ {
        Some("FISH_VERSION"@)
    } else if name == "zsh"@ {
        Some("ZSH_VERSION"@)
    } else if name == "nu"@ {
        Some("NU_VERSION"@)
    } else {
        None
    }
}

/// The environment variable that holds a program's version.
pub fn version_env_var_of(name: &str) -> (r: Option<&'static str>)
    ensures
        match r {
            Some(v) => version_env_var(name@) == Some(v@),
            None => version_env_var(name@) is None,
        },
{
    if str_eq(name, "konsole") {
        Some("KONSOLE_VERSION")
    } else if str_eq(name, "xterm") {
        Some("XTERM_VERSION")
    } else if str_eq(name, "bash") {
        Some("BASH_VERSION")
    } else if str_eq(name, "fish") {
        Some("FISH_VERSION")
    } else if str_eq(name, "zsh") {
        Some("ZSH_VERSION")
    } else if str_eq(name, "nu") {
        Some("NU_VERSION")
    } else {
        None
    }
}

/// A value of a version variable that can be read without a panic: Konsole's must have its
/// first six bytes split at character boundaries, XTerm's must hold a `(`.
pub open spec fn env_version_ok(name: Seq<char>, value: Seq<char>) -> bool {
    if name == "konsole"@ {
        byte_range(value, 0, 2) is Some && byte_range(value, 2, 4) is Some && byte_range(value, 4, 6) is Some
    } else if name == "xterm"@ {
        seq_split(value, '(').len() > 1
    } else {
        true
    }
}

/// The version that a program's version variable gives: Konsole's `YYMMPP` becomes
/// `YY.MM.PP`, XTerm's is what stands in parentheses, Bash's is what comes before `(`, and the
/// others are taken as they are.
pub open spec fn env_version(name: Seq<char>, value: Seq<char>) -> Seq<char> {
    if name == "konsole"@ {
        byte_range(value, 0, 2)->Some_0 + "."@ + byte_range(value, 2, 4)->Some_0 + "."@ + byte_range(value, 4, 6)->Some_0
    } else if name == "xterm"@ {
        seq_split(seq_split(value, '(')[1], ')')[0]
    } else if name == "bash"@ {
        seq_split(value, '(')[0]
    } else {
        value
    }
}

/// The version that a program's version variable gives.
pub fn env_version_of(name: &str, value: &str) -> (r: String)
    requires
        env_version_ok(name@, value@),
    ensures
        r@ == env_version(name@, value@),
{
    if str_eq(name, "konsole") {
        let v = chars_of(value);
        let a = byte_range_of(&v, 0, 2).unwrap();
        let b = byte_range_of(&v, 2, 4).unwrap();
        let c = byte_range_of(&v, 4, 6).unwrap();
        let mut r = a;
        append_str(&mut r, ".");
        append_str(&mut r, b.as_str());
        append_str(&mut r, ".");
        append_str(&mut r, c.as_str());
        r
    } else if str_eq(name, "xterm") {
        let parts = split_char(value, '(');
        assert(parts@[1]@ == parts.deep_view()[1]);
        let inner = split_char(parts[1].as_str(), ')');
        proof {
            lemma_split_nonempty(parts@[1]@, ')');
        }
        assert(inner@[0]@ == inner.deep_view()[0]);
        copy_str(inner[0].as_str())
    } else if str_eq(name, "bash") {
        let parts = split_char(value, '(');
        proof {
            lemma_split_nonempty(value@, '(');
        }
        assert(parts@[0]@ == parts.deep_view()[0]);
        copy_str(parts[0].as_str())
    } else {
        copy_str(value)
    }
}

/// Whether the program's version is looked up in the package cache: it sits under `/usr/bin`,
/// `/usr/lib` or Termux's `bin`.
pub open spec fn packaged_path(exe_path: Seq<char>) -> bool {
    seq_starts_with(exe_path, "/usr/bin"@) || seq_starts_with(exe_path, "/usr/lib"@) || seq_starts_with(
        exe_path,
        "/data/data/com.termux/files/usr/bin"@,
    )
}

/// The version found without running the program: from its version variable (`env_value`, the
/// value of `version_env_var` when the program has one and it is set), else from the package
/// cache for programs installed by a package manager; `None` means the program itself must be
/// asked (see `parse_command`).
pub fn find_version(
    exe_path: &str,
    name: Option<&str>,
    package_managers: &ManagerInfo,
    env_value: Option<String>,
) -> (r: Option<String>)
    requires
        env_value matches Some(v) ==> env_version_ok(
            program_name(exe_path@, match name {
                Some(n) => Some(n@),
                None => None,
            }),
            v@,
        ),
    ensures
        ({
            let prog = program_name(exe_path@, match name {
                Some(n) => Some(n@),
                None => None,
            });
            r.deep_view() == (if version_env_var(prog) is Some && env_value is Some {
                Some(env_version(prog, env_value->Some_0@))
            } else if packaged_path(exe_path@) {
                cached_version(package_managers.entries(), package_name_for(prog))
            } else {
                None
            })
        }),
{
    let prog = program_name_of(exe_path, name);
    if version_env_var_of(prog.as_str()).is_some() {
        match env_value {
            Some(v) => {
                return Some(env_version_of(prog.as_str(), v.as_str()));
            },
            None => {},
        }
    }
    if starts_with(exe_path, "/usr/bin") || starts_with(exe_path, "/usr/lib") || starts_with(
        exe_path,
        "/data/data/com.termux/files/usr/bin",
    ) {
        let package = substitite_package_name(prog.as_str());
        return use_package_manager(package.as_str(), package_managers);
    }
    None
}

/// The option that makes a program print its version.
pub open spec fn version_arg(name: Seq<char>) -> Seq<char> {
    if name == "xterm"@ || name == "elvish"@ {
        "-version"@
    } else {
        "--version"@
    }
}

/// The option that makes a program print its version.
pub fn version_arg_of(name: &str) -> (r: &'static str)
    ensures
        r@ == version_arg(name@),
{
    if str_eq(name, "xterm") || str_eq(name, "elvish") {
        "-version"
    } else {
        "--version"
    }
}

/// Output of `--version` that the parser handles without a panic.
pub open spec fn command_output_ok(name: Seq<char>, raw: Seq<char>) -> bool {
    let words = seq_split(raw, ' ');
    if name == "bash"@ {
        words.len() > 3
    } else if name == "foot"@ || name == "fish"@ || name == "systemd"@ {
        words.len() > 2
    } else if name == "nvim"@ {
        words.len() > 1 && seq_split(words[1], '\n')[0].len() > 0 && (seq_split(words[1], '\n')[0][0] as u32) < 128
    } else if name == "vim"@ {
        words.len() > 4
    } else if name == "xterm"@ {
        seq_split(raw, '(').len() > 1
    } else {
        true
    }
}

/// The version in a program's trimmed `--version` output, by program.
pub open spec fn command_version(name: Seq<char>, raw: Seq<char>) -> Option<Seq<char>> {
    let words = seq_split(raw, ' ');
    if name == "bash"@ {
        Some(seq_trim(seq_split(words[3], '(')[0]))
    } else if name == "elvish"@ {
        Some(seq_trim(seq_split(raw, '+')[0]))
    } else if name == "foot"@ || name == "fish"@ {
        Some(seq_trim(words[2]))
    } else if name == "nvim"@ {
        Some(seq_split(words[1], '\n')[0].skip(1))
    } else if name == "systemd"@ {
        Some(trim_chars(seq_split(words[2], '\n')[0], seq!['(', ')']))
    } else if name == "vim"@ {
        Some(words[4])
    } else if name == "xterm"@ {
        Some(seq_split(seq_split(raw, '(')[1], ')')[0])
    } else if words.len() > 1 {
        Some(words[1])
    } else {
        None
    }
}

/// The version in a program's `--version` output (given untrimmed).
pub fn parse_command(name: &str, output: &str) -> (r: Option<String>)
    requires
        command_output_ok(name@, seq_trim(output@)),
    ensures
        r.deep_view() == command_version(name@, seq_trim(output@)),
{
    proof {
        reveal_strlit("bash");
        reveal_strlit("elvish");
        reveal_strlit("foot");
        reveal_strlit("fish");
        reveal_strlit("nvim");
        reveal_strlit("systemd");
        reveal_strlit("vim");
        reveal_strlit("xterm");
        assert("bash"@[0] == 'b' && "bash"@[1] == 'a');
        assert("elvish"@[0] == 'e' && "elvish"@[1] == 'l');
        assert("foot"@[0] == 'f' && "foot"@[1] == 'o');
        assert("fish"@[0] == 'f' && "fish"@[1] == 'i');
        assert("nvim"@[0] == 'n' && "nvim"@[1] == 'v');
        assert("systemd"@[0] == 's' && "systemd"@[1] == 'y');
        assert("vim"@[0] == 'v' && "vim"@[1] == 'i');
        assert("xterm"@[0] == 'x' && "xterm"@[1] == 't');
    }
    let raw = trim(output);
    let rs: &str = raw.as_str();
    let words = split_char(rs, ' ');
    let ghost wv = words.deep_view();
    if str_eq(name, "bash") {
        assert(words@[3]@ == wv[3]);
        let p = split_char(words[3].as_str(), '(');
        proof { lemma_split_nonempty(wv[3], '('); }
        assert(p@[0]@ == p.deep_view()[0]);
        Some(trim(p[0].as_str()))
    } else if str_eq(name, "elvish") {
        let p = split_char(rs, '+');
        proof { lemma_split_nonempty(rs@, '+'); }
        assert(p@[0]@ == p.deep_view()[0]);
        Some(trim(p[0].as_str()))
    } else if str_eq(name, "foot") || str_eq(name, "fish") {
        assert(words@[2]@ == wv[2]);
        Some(trim(words[2].as_str()))
    } else if str_eq(name, "nvim") {
        assert(words@[1]@ == wv[1]);
        let lines = split_char(words[1].as_str(), '\n');
        proof { lemma_split_nonempty(wv[1], '\n'); }
        assert(lines@[0]@ == lines.deep_view()[0]);
        let first = chars_of(lines[0].as_str());
        assert(raw@ == seq_trim(output@));
        assert(wv == seq_split(raw@, ' '));
        assert(command_output_ok(name@, raw@));
        assert(wv.len() > 1);
        assert(first@ == seq_split(wv[1], '\n')[0]);
        Some(string_of_range_from(&first, 1))
    } else if str_eq(name, "systemd") {
        assert(words@[2]@ == wv[2]);
        let lines = split_char(words[2].as_str(), '\n');
        proof { lemma_split_nonempty(wv[2], '\n'); }
        assert(lines@[0]@ == lines.deep_view()[0]);
        Some(trim_two(lines[0].as_str(), '(', ')'))
    } else if str_eq(name, "vim") {
        assert(words@[4]@ == wv[4]);
        Some(copy_str(words[4].as_str()))
    } else if str_eq(name, "xterm") {
        let parts = split_char(rs, '(');
        assert(parts@[1]@ == parts.deep_view()[1]);
        let inner = split_char(parts[1].as_str(), ')');
        proof { lemma_split_nonempty(parts@[1]@, ')'); }
        assert(inner@[0]@ == inner.deep_view()[0]);
        Some(copy_str(inner[0].as_str()))
    } else if words.len() > 1 {
        assert(words@[1]@ == wv[1]);
        Some(copy_str(words[1].as_str()))
    } else {
        None
    }
}

/// The characters of `v` from index `from` on.
fn string_of_range_from(v: &Vec<char>, from: usize) -> (r: String)
    requires
        from <= v@.len(),
    ensures
        r@ == v@.skip(from as int),
{
    crate::text::string_of_range(v, from, v.len())
}

/// The version shown: the version found, or `Unknown`.
pub fn version_or_unknown(version: Option<String>) -> (r: String)
    ensures
        r@ == (match version {
            Some(v) => v@,
            None => "Unknown"@,
        }),
{
    match version {
        Some(v) => v,
        None => copy_str("Unknown"),
    }
}

/// Bash's version is the word after `GNU bash, version`, up to its `(`: for every version text
/// `x` (free of whitespace and of `(`) and whatever follows its `(`, the output
/// `GNU bash, version x(...` gives `x`.
pub proof fn lemma_bash_version(x: Seq<char>, rest: Seq<char>)
    requires
        x.len() > 0,
        forall|j: int| 0 <= j < x.len() ==> !is_ws(#[trigger] x[j]) && x[j] != '(',
    ensures
        command_version("bash"@, "GNU bash, version "@ + x + seq!['('] + rest) == Some(x),
{
    reveal_strlit("bash");
    reveal_strlit("GNU bash, version ");
    reveal_strlit("GNU");
    reveal_strlit("bash,");
    reveal_strlit("version");
    let tail = x + seq!['('] + rest;
    let raw = "GNU bash, version "@ + tail;
    assert(raw =~= "GNU"@ + seq![' '] + ("bash,"@ + seq![' '] + ("version"@ + seq![' '] + tail)));
    assert(!"GNU"@.contains(' '));
    assert(!"bash,"@.contains(' '));
    assert(!"version"@.contains(' '));
    lemma_split_front("GNU"@, "bash,"@ + seq![' '] + ("version"@ + seq![' '] + tail), ' ');
    lemma_split_front("bash,"@, "version"@ + seq![' '] + tail, ' ');
    lemma_split_front("version"@, tail, ' ');
    let words = seq_split(raw, ' ');
    assert(words[3] == seq_split(tail, ' ')[0]);
    let xp = x + seq!['('];
    assert(!xp.contains(' ')) by {
        if xp.contains(' ') {
            let j = choose|j: int| 0 <= j < xp.len() && xp[j] == ' ';
            if j < x.len() {
                assert(xp[j] == x[j]);
            }
        }
    }
    assert(tail =~= xp + rest);
    lemma_split_first_piece(xp, rest, ' ');
    let r0 = seq_split(rest, ' ')[0];
    assert(words[3] == x + seq!['('] + r0);
    assert(!x.contains('(')) by {
        if x.contains('(') {
            let j = choose|j: int| 0 <= j < x.len() && x[j] == '(';
        }
    }
    lemma_split_front(x, r0, '(');
    assert(seq_split(words[3], '(')[0] == x);
    lemma_trim_plain(x);
    assert(seq_trim(seq_split(words[3], '(')[0]) == x);
    assert("GNU bash, version "@ + x + seq!['('] + rest =~= raw);
}

} // verus!
