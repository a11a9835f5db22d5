use vstd::prelude::*;
use crate::text::{
    append_str, chars_of, copy_str, last_piece, parse_u64, parse_u64_spec, seq_contains,
    seq_find, seq_split, split_char, str_contains, string_of_range, u64_to_string, nat_to_dec,
    vec_find_from, lemma_split_nonempty, lemma_find_from_contains,
};

verus! {

/// What `/proc/PID/stat` tells of a process: its id, its command name in parentheses, and its
/// parent's id.
pub struct ProcessStatus {
    pub pid: u32,
    pub comm: String,
    pub ppid: u32,
}

/// What parsing `s` as a `u32` gives.
pub open spec fn parse_u32_spec(s: Seq<char>) -> Option<u32> {
    match parse_u64_spec(s) {
        Some(n) => if n <= u32::MAX {
            Some(n as u32)
        } else {
            None
        },
        None => None,
    }
}

/// The index of the first `c` in `s`.
pub open spec fn find_char(s: Seq<char>, c: char) -> Option<int> {
    seq_find(s, seq![c])
}

/// A stat line that the parser handles: a `(`, then a `)`, the id before the first space and
/// the third space-separated field after the `)` both unsigned 32-bit numbers.
pub open spec fn stat_ok(s: Seq<char>) -> bool {
    match (find_char(s, '('), find_char(s, ')')) {
        (Some(lo), Some(hi)) => {
            &&& lo <= hi + 1
            &&& seq_split(s.skip(hi + 1), ' ').len() > 2
            &&& parse_u32_spec(seq_split(s.skip(hi + 1), ' ')[2]) is Some
            &&& parse_u32_spec(seq_split(s, ' ')[0]) is Some
        },
        _ => false,
    }
}

/// The status that a stat line gives.
pub open spec fn stat_status(s: Seq<char>) -> (u32, Seq<char>, u32) {
    let lo = find_char(s, '(')->Some_0;
    let hi = find_char(s, ')')->Some_0 + 1;
    (
        parse_u32_spec(seq_split(s, ' ')[0])->Some_0,
        s.subrange(lo, hi),
        parse_u32_spec(seq_split(s.skip(hi), ' ')[2])->Some_0,
    )
}

/// Parses a `u32` the way `u32::from_str` does.
pub fn parse_u32(s: &str) -> (r: Option<u32>)
    ensures
        r == parse_u32_spec(s@),
{
    match parse_u64(s) {
        Some(n) => if n <= 0xffff_ffff {
            Some(n as u32)
        } else {
            None
        },
        None => None,
    }
}

impl ProcessStatus {
    /// The status as plain values.
    pub open spec fn status(&self) -> (u32, Seq<char>, u32) {
        (self.pid, self.comm@, self.ppid)
    }

    /// Reads the contents of a `/proc/PID/stat` file.
    pub fn from_stat_file(contents: String) -> (r: ProcessStatus)
        requires
            stat_ok(contents@),
        ensures
            r.status() == stat_status(contents@),
    {
        let c: &str = contents.as_str();
        let v = chars_of(c);
        let open: Vec<char> = vec!['('];
        let close: Vec<char> = vec![')'];
        assert(open@ =~= seq!['(']);
        assert(close@ =~= seq![')']);
        assert(v@ == contents@);
        let lower = vec_find_from(&v, &open, 0).unwrap();
        let found = vec_find_from(&v, &close, 0).unwrap();
        proof {
            lemma_find_from_contains(v@, seq![')'], 0);
        }
        let upper = found + 1;
        let split_space = split_char(c, ' ');
        proof {
            lemma_split_nonempty(c@, ' ');
        }
        let rest = string_of_range(&v, upper, v.len());
        assert(rest@ == c@.skip(upper as int));
        let rest_split = split_char(rest.as_str(), ' ');
        assert(rest_split@[2]@ == rest_split.deep_view()[2]);
        let ppid = parse_u32(rest_split[2].as_str()).unwrap();
        assert(split_space@[0]@ == split_space.deep_view()[0]);
        let pid = parse_u32(split_space[0].as_str()).unwrap();
        ProcessStatus { pid, comm: string_of_range(&v, lower, upper), ppid }
    }
}

/// A process, with what has been read of it so far: its name, executable, command line and
/// status, each read once.
pub struct ProcessInfo {
    pub pid: u32,
    pub process_name: Option<String>,
    pub exe: Option<String>,
    pub cmdline: Option<Vec<String>>,
    pub stat: Option<ProcessStatus>,
    pub path: String,
}

/// The directory of a process under `/proc`.
pub open spec fn proc_path(pid: u32) -> Seq<char> {
    "/proc/"@ + nat_to_dec(pid as nat)
}

impl ProcessInfo {
    /// The process `pid`, with nothing read yet.
    pub fn new(pid: u32) -> (r: ProcessInfo)
        ensures
            r.pid == pid,
            r.process_name is None,
            r.exe is None,
            r.cmdline is None,
            r.stat is None,
            r.path@ == proc_path(pid),
    {
        let mut path = copy_str("/proc/");
        let n = u64_to_string(pid as u64);
        append_str(&mut path, n.as_str());
        ProcessInfo { pid, process_name: None, exe: None, cmdline: None, stat: None, path }
    }

    /// The command line, split at NUL characters; read from `contents` (what reading
    /// `/proc/PID/cmdline` gave) the first time.
    pub fn get_cmdline(&mut self, contents: Result<String, String>) -> (r: Result<Vec<String>, String>)
        ensures
            old(self).cmdline matches Some(c) ==> r matches Ok(v) && v.deep_view() == c.deep_view()
                && final(self).cmdline == old(self).cmdline,
            old(self).cmdline is None ==> match contents {
                Ok(c) => r matches Ok(v) && v.deep_view() == seq_split(c@, '\0')
                    && final(self).cmdline is Some && final(self).cmdline->Some_0.deep_view() == seq_split(c@, '\0'),
                Err(e) => r matches Err(m) && m@ == "Unable to open /cmdline, is this process still valid? ("@
                    + e@ + ")"@ && final(self).cmdline is None,
            },
            final(self).pid == old(self).pid,
            final(self).path == old(self).path,
            final(self).exe == old(self).exe,
            final(self).stat == old(self).stat,
            final(self).process_name == old(self).process_name,
    {
        match &self.cmdline {
            Some(c) => Ok(copy_lines(c)),
            None => match contents {
                Ok(c) => {
                    let parts = split_char(c.as_str(), '\0');
                    let kept = copy_lines(&parts);
                    self.cmdline = Some(kept);
                    Ok(parts)
                },
                Err(e) => {
                    let mut m = copy_str("Unable to open /cmdline, is this process still valid? (");
                    append_str(&mut m, e.as_str());
                    append_str(&mut m, ")");
                    Err(m)
                },
            },
        }
    }

    /// The status; read from `contents` (what reading `/proc/PID/stat` gave) the first time.
    pub fn get_stat(&mut self, contents: Result<String, String>) -> (r: Result<ProcessStatus, String>)
        requires
            old(self).stat is None ==> (contents matches Ok(c) ==> stat_ok(c@)),
        ensures
            old(self).stat matches Some(s) ==> r matches Ok(t) && t.status() == s.status()
                && final(self).stat == old(self).stat,
            old(self).stat is None ==> match contents {
                Ok(c) => r matches Ok(t) && t.status() == stat_status(c@) && final(self).stat is Some
                    && final(self).stat->Some_0.status() == stat_status(c@),
                Err(e) => r matches Err(m) && m@ == "Unable to open /stat, is this process still valid? ("@
                    + e@ + ")"@ && final(self).stat is None,
            },
            final(self).pid == old(self).pid,
            final(self).path == old(self).path,
            final(self).exe == old(self).exe,
            final(self).cmdline == old(self).cmdline,
            final(self).process_name == old(self).process_name,
    {
        match &self.stat {
            Some(s) => Ok(copy_status(s)),
            None => match contents {
                Ok(c) => {
                    let s = ProcessStatus::from_stat_file(c);
                    let kept = copy_status(&s);
                    self.stat = Some(kept);
                    Ok(s)
                },
                Err(e) => {
                    let mut m = copy_str("Unable to open /stat, is this process still valid? (");
                    append_str(&mut m, e.as_str());
                    append_str(&mut m, ")");
                    Err(m)
                },
            },
        }
    }

    /// The parent's id, from the status.
    pub fn get_parent_pid(&mut self, contents: Result<String, String>) -> (r: Result<u32, String>)
        requires
            old(self).stat is None ==> (contents matches Ok(c) ==> stat_ok(c@)),
        ensures
            old(self).stat matches Some(s) ==> r == Ok::<u32, String>(s.ppid),
            old(self).stat is None ==> match contents {
                Ok(c) => r == Ok::<u32, String>(stat_status(c@).2),
                Err(e) => r matches Err(m) && m@ == "Unable to open /stat, is this process still valid? ("@
                    + e@ + ")"@,
            },
            final(self).pid == old(self).pid,
            final(self).path == old(self).path,
    {
        let stat = self.get_stat(contents)?;
        Ok(stat.ppid)
    }

    /// The parent process, when its `/proc` directory exists (`parent_exists`).
    pub fn get_parent_process(&mut self, contents: Result<String, String>, parent_exists: bool) -> (r: Result<ProcessInfo, String>)
        requires
            old(self).stat is None ==> (contents matches Ok(c) ==> stat_ok(c@)),
        ensures
            ({
                let ppid: Result<u32, ()> = match old(self).stat {
                    Some(s) => Ok(s.ppid),
                    None => match contents {
                        Ok(c) => Ok(stat_status(c@).2),
                        Err(_) => Err(()),
                    },
                };
                match ppid {
                    Ok(p) => if parent_exists {
                        r matches Ok(q) && q.pid == p && q.path@ == proc_path(p) && q.stat is None
                            && q.exe is None && q.cmdline is None && q.process_name is None
                    } else {
                        r matches Err(m) && m@ == "Parent process was not valid."@
                    },
                    Err(_) => r matches Err(m) && m@ == "Unable to open /stat, is this process still valid? ("@
                        + contents->Err_0@ + ")"@,
                }
            }),
    {
        let pid: u32 = match self.get_parent_pid(contents) {
            Ok(r) => r,
            Err(e) => return Err(e),
        };
        let process = ProcessInfo::new(pid);
        if !parent_exists {
            return Err(copy_str("Parent process was not valid."));
        }
        Ok(process)
    }

    /// What `get_exe` gives on this process: the cached path, or else the path that `canonical`
    /// resolved, a Python interpreter replaced by the script it runs when `work_around_python`
    /// (the second argument of the command line, cached or read from `cmdline_contents`); or the
    /// error met on the way.
    pub open spec fn exe_outcome(
        self,
        work_around_python: bool,
        canonical: Result<String, String>,
        cmdline_contents: Result<String, String>,
    ) -> Result<Seq<char>, Seq<char>> {
        match self.exe {
            Some(e) => Ok(e@),
            None => match canonical {
                Err(e) => Err("Unable to canonicalize /exe, is this process still valid? ("@ + e@ + ")"@),
                Ok(path) => if work_around_python && seq_contains(path@, "python"@) {
                    match self.cmdline {
                        Some(c) => if c.deep_view().len() > 1 {
                            Ok(c.deep_view()[1])
                        } else {
                            Err("Unable to work around python. :("@)
                        },
                        None => match cmdline_contents {
                            Ok(cc) => if seq_split(cc@, '\0').len() > 1 {
                                Ok(seq_split(cc@, '\0')[1])
                            } else {
                                Err("Unable to work around python. :("@)
                            },
                            Err(e) => Err("Unable to open /cmdline, is this process still valid? ("@ + e@ + ")"@),
                        },
                    }
                } else {
                    Ok(path@)
                },
            },
        }
    }

    /// The executable's path; found the first time from `canonical` (what resolving
    /// `/proc/PID/exe` gave). With `work_around_python`, a Python interpreter is replaced by the
    /// script it runs: the second argument of the command line (read from `cmdline_contents`).
    pub fn get_exe(
        &mut self,
        work_around_python: bool,
        canonical: Result<String, String>,
        cmdline_contents: Result<String, String>,
    ) -> (r: Result<String, String>)
        ensures
            old(self).exe matches Some(e) ==> r matches Ok(x) && x@ == e@ && final(self).exe == old(self).exe,
            old(self).exe is None ==> match canonical {
                Err(e) => r matches Err(m) && m@ == "Unable to canonicalize /exe, is this process still valid? ("@ + e@ + ")"@,
                Ok(path) => if work_around_python && seq_contains(path@, "python"@) {
                    match old(self).cmdline {
                        Some(c) => if c.deep_view().len() > 1 {
                            r matches Ok(x) && x@ == c.deep_view()[1]
                        } else {
                            r matches Err(m) && m@ == "Unable to work around python. :("@
                        },
                        None => match cmdline_contents {
                            Ok(cc) => if seq_split(cc@, '\0').len() > 1 {
                                r matches Ok(x) && x@ == seq_split(cc@, '\0')[1]
                            } else {
                                r matches Err(m) && m@ == "Unable to work around python. :("@
                            },
                            Err(e) => r matches Err(m) && m@ == "Unable to open /cmdline, is this process still valid? ("@
                                + e@ + ")"@,
                        },
                    }
                } else {
                    r matches Ok(x) && x@ == path@
                },
            },
            r matches Ok(x) ==> final(self).exe matches Some(e) && e@ == x@,
            match old(self).exe_outcome(work_around_python, canonical, cmdline_contents) {
                Ok(p) => r matches Ok(x) && x@ == p,
                Err(e) => r matches Err(m) && m@ == e,
            },
            final(self).pid == old(self).pid,
            final(self).path == old(self).path,
            final(self).stat == old(self).stat,
            final(self).process_name == old(self).process_name,
    {
        match &self.exe {
            Some(e) => {
                return Ok(copy_str(e.as_str()));
            },
            None => {},
        }
        match canonical {
            Err(e) => {
                let mut m = copy_str("Unable to canonicalize /exe, is this process still valid? (");
                append_str(&mut m, e.as_str());
                append_str(&mut m, ")");
                Err(m)
            },
            Ok(path) => {
                self.exe = Some(copy_str(path.as_str()));
                if work_around_python && str_contains(path.as_str(), "python") {
                    let cmdline = self.get_cmdline(cmdline_contents)?;
                    if cmdline.len() > 1 {
                        assert(cmdline@[1]@ == cmdline.deep_view()[1]);
                        self.exe = Some(copy_str(cmdline[1].as_str()));
                    } else {
                        return Err(copy_str("Unable to work around python. :("));
                    }
                }
                match &self.exe {
                    Some(e) => Ok(copy_str(e.as_str())),
                    None => Ok(path),
                }
            },
        }
    }

    /// The process name: the last part of the executable's path; found the first time from
    /// what `get_exe` gives (with the Python work-around), and kept for later calls.
    pub fn get_process_name(
        &mut self,
        canonical: Result<String, String>,
        cmdline_contents: Result<String, String>,
    ) -> (r: Result<String, String>)
        ensures
            old(self).process_name matches Some(n) ==> r matches Ok(x) && x@ == n@,
            r matches Ok(x) ==> final(self).process_name matches Some(n) && n@ == x@,
            old(self).process_name is None ==> match old(self).exe_outcome(true, canonical, cmdline_contents) {
                Ok(p) => r matches Ok(x) && x@ == seq_split(p, '/').last(),
                Err(e) => r matches Err(m) && m@ == "Unable to get exe path: "@ + e,
            },
            old(self).process_name is None && old(self).exe is Some ==> (r matches Ok(x) && x@
                == seq_split(old(self).exe->Some_0@, '/').last()),
            final(self).pid == old(self).pid,
            final(self).path == old(self).path,
    {
        match &self.process_name {
            Some(n) => {
                return Ok(copy_str(n.as_str()));
            },
            None => {},
        }
        match self.get_exe(true, canonical, cmdline_contents) {
            Ok(exe) => {
                let name = last_piece(exe.as_str(), '/');
                self.process_name = Some(copy_str(name.as_str()));
                Ok(name)
            },
            Err(e) => {
                proof {
                    reveal_strlit("Unable to get exe path: ");
                }
                let mut m = copy_str("Unable to get exe path: ");
                append_str(&mut m, e.as_str());
                Err(m)
            },
        }
    }
}

/// A copy of a status.
pub fn copy_status(s: &ProcessStatus) -> (r: ProcessStatus)
    ensures
        r.status() == s.status(),
{
    ProcessStatus { pid: s.pid, comm: copy_str(s.comm.as_str()), ppid: s.ppid }
}

/// A copy of a list of strings.
pub fn copy_lines(v: &Vec<String>) -> (r: Vec<String>)
    ensures
        r.deep_view() == v.deep_view(),
{
    let mut r: Vec<String> = Vec::new();
    let mut i: usize = 0;
    while i < v.len()
        invariant
            0 <= i <= v@.len(),
            r.deep_view() == v.deep_view().take(i as int),
        decreases v@.len() - i,
    {
        let ghost before = r.deep_view();
        r.push(copy_str(v[i].as_str()));
        assert(r.deep_view() =~= before.push(v@[i as int]@));
        assert(v.deep_view().take(i + 1) =~= v.deep_view().take(i as int).push(v@[i as int]@));
        i += 1;
    }
    assert(v.deep_view().take(v@.len() as int) =~= v.deep_view());
    r
}

/// What was found of one process of a chain of parents: its name, its executable (with the
/// Python work-around), whether its parent could be reached, and whether its `/proc` directory
/// still exists.
pub struct ProcessFacts {
    pub name: Result<String, String>,
    pub exe: Result<String, String>,
    pub parent: Result<(), String>,
    pub valid: bool,
}

} // verus!
