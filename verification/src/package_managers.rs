use vstd::prelude::*;
use crate::text::{
    append_str, copy_str, lemma_split_nonempty, seq_ends_with, seq_split, seq_starts_with,
    split_char, starts_with, str_eq, strip_prefix, strip_suffix, string_of_range, chars_of,
    seq_trim, trim, byte_slice, byte_slice_of, last_piece,
};

verus! {

/// A package known to one or more package managers: its name, its version, and the managers
/// (one bit each) that have it.
pub struct PackageInfo {
    pub name: String,
    pub version: String,
    pub manager: u8,
}

/// A cached package as plain values: name, version and managers.
pub type PackageEntry = (Seq<char>, Seq<char>, u8);

impl PackageInfo {
    /// The package as plain values.
    pub open spec fn entry(&self) -> PackageEntry {
        (self.name@, self.version@, self.manager)
    }

    /// A package of the given managers.
    pub fn new(name: &str, version: &str, manager: u8) -> (r: PackageInfo)
        ensures
            r.entry() == (name@, version@, manager),
    {
        PackageInfo { name: copy_str(name), version: copy_str(version), manager }
    }
}

/// The package managers found on the system and the packages they hold. Each package name
/// occurs once; a package that several managers hold has all their bits.
pub struct ManagerInfo {
    pub available_managers: u8,
    pub packages: Vec<PackageInfo>,
}

/// The bit of pacman.
pub const MANAGER_PACMAN: u8 = 1;
/// The bit of dpkg.
pub const MANAGER_DPKG: u8 = 2;
/// The bit of xbps.
pub const MANAGER_XBPS: u8 = 4;
/// The bit of Homebrew.
pub const MANAGER_HOMEBREW: u8 = 32;

/// The first index of the package called `name`.
pub open spec fn find_name(entries: Seq<PackageEntry>, name: Seq<char>) -> Option<int>
    decreases entries.len(),
{
    if entries.len() == 0 {
        None
    } else {
        match find_name(entries.drop_last(), name) {
            Some(i) => Some(i),
            None => if entries.last().0 == name {
                Some(entries.len() - 1)
            } else {
                None
            },
        }
    }
}

/// No name occurs twice.
pub open spec fn names_distinct(entries: Seq<PackageEntry>) -> bool {
    forall|i: int, j: int|
        0 <= i < j < entries.len() ==> #[trigger] entries[i].0 != #[trigger] entries[j].0
}

/// The cache after adding a package: a package of that name gets the new managers and keeps
/// its version; otherwise the package is appended.
pub open spec fn add_entry(entries: Seq<PackageEntry>, p: PackageEntry) -> Seq<PackageEntry> {
    match find_name(entries, p.0) {
        Some(i) => entries.update(i, (entries[i].0, entries[i].1, entries[i].2 | p.2)),
        None => entries.push(p),
    }
}

/// The packages that any of the managers in `manager` hold, in cache order.
pub open spec fn entries_from(entries: Seq<PackageEntry>, manager: u8) -> Seq<PackageEntry> {
    entries.filter(|e: PackageEntry| e.2 & manager > 0)
}

/// `find_name` gives the index of a package with that name, and only fails when there is none.
pub proof fn lemma_find_name(entries: Seq<PackageEntry>, name: Seq<char>)
    ensures
        find_name(entries, name) matches Some(i) ==> 0 <= i < entries.len() && entries[i].0
            == name && forall|j: int| 0 <= j < i ==> entries[j].0 != name,
        find_name(entries, name) is None ==> forall|j: int|
            0 <= j < entries.len() ==> entries[j].0 != name,
    decreases entries.len(),
{
    if entries.len() > 0 {
        let d = entries.drop_last();
        lemma_find_name(d, name);
        assert forall|j: int| 0 <= j < d.len() implies d[j] == entries[j] by {}
        match find_name(d, name) {
            Some(i) => {
                assert(find_name(entries, name) == Some(i));
            },
            None => {
                if entries.last().0 == name {
                    assert(find_name(entries, name) == Some(entries.len() - 1));
                } else {
                    assert(find_name(entries, name) is None);
                    assert forall|j: int| 0 <= j < entries.len() implies entries[j].0 != name by {
                        if j < d.len() {
                            assert(d[j] == entries[j]);
                        }
                    }
                }
            },
        }
    }
}

impl ManagerInfo {
    /// The cache as plain values, in order.
    pub open spec fn entries(&self) -> Seq<PackageEntry> {
        self.packages@.map_values(|p: PackageInfo| p.entry())
    }

    /// Each package name occurs once.
    pub open spec fn wf(&self) -> bool {
        names_distinct(self.entries())
    }

    /// No manager found yet, and no package.
    pub fn new() -> (r: ManagerInfo)
        ensures
            r.wf(),
            r.available_managers == 0,
            r.entries() == Seq::<PackageEntry>::empty(),
    {
        let r = ManagerInfo { available_managers: 0, packages: Vec::new() };
        assert(r.entries() =~= Seq::<PackageEntry>::empty());
        r
    }

    /// The index of the package called `name`, if there is one.
    fn position_of(&self, name: &str) -> (r: Option<usize>)
        ensures
            r matches Some(i) ==> find_name(self.entries(), name@) == Some(i as int),
            r is None ==> find_name(self.entries(), name@) is None,
    {
        proof {
            lemma_find_name(self.entries(), name@);
        }
        let mut i: usize = 0;
        while i < self.packages.len()
            invariant
                0 <= i <= self.packages@.len(),
                self.entries().len() == self.packages@.len(),
                forall|j: int| 0 <= j < i ==> self.entries()[j].0 != name@,
                find_name(self.entries(), name@) matches Some(k) ==> 0 <= k < self.entries().len()
                    && self.entries()[k].0 == name@ && forall|j: int|
                    0 <= j < k ==> self.entries()[j].0 != name@,
                find_name(self.entries(), name@) is None ==> forall|j: int|
                    0 <= j < self.entries().len() ==> self.entries()[j].0 != name@,
            decreases self.packages@.len() - i,
        {
            if str_eq(self.packages[i].name.as_str(), name) {
                assert(self.entries()[i as int].0 == name@);
                return Some(i);
            }
            i += 1;
        }
        None
    }

    /// Adds a package to the cache; when a package of that name is there already, only the
    /// new managers are added to it and its version is left as it is.
    pub fn add_package_to_cache(&mut self, package_info: PackageInfo)
        requires
            old(self).wf(),
        ensures
            final(self).wf(),
            final(self).entries() == add_entry(old(self).entries(), package_info.entry()),
            final(self).available_managers == old(self).available_managers,
    {
        let ghost before = self.entries();
        proof {
            lemma_find_name(before, package_info.name@);
        }
        match self.position_of(package_info.name.as_str()) {
            Some(i) => {
                let old_manager = self.packages[i].manager;
                let merged = old_manager | package_info.manager;
                let name = copy_str(self.packages[i].name.as_str());
                let version = copy_str(self.packages[i].version.as_str());
                self.packages.set(i, PackageInfo { name, version, manager: merged });
                assert(self.entries() =~= add_entry(before, package_info.entry()));
            },
            None => {
                self.packages.push(package_info);
                assert(self.entries() =~= add_entry(before, package_info.entry()));
            },
        }
    }

    /// The packages that any of the managers in `manager` hold, in cache order.
    pub fn find_all_packages_from(&self, manager: u8) -> (r: Vec<PackageInfo>)
        ensures
            r@.map_values(|p: PackageInfo| p.entry()) == entries_from(self.entries(), manager),
    {
        let ghost es = self.entries();
        let mut r: Vec<PackageInfo> = Vec::new();
        let mut i: usize = 0;
        proof {
            reveal(Seq::filter);
            assert(es.take(0) =~= Seq::<PackageEntry>::empty());
        }
        assert(r@.map_values(|p: PackageInfo| p.entry()) =~= entries_from(es.take(0), manager));
        while i < self.packages.len()
            invariant
                es == self.entries(),
                es.len() == self.packages@.len(),
                0 <= i <= es.len(),
                r@.map_values(|p: PackageInfo| p.entry()) == entries_from(es.take(i as int), manager),
            decreases es.len() - i,
        {
            let p = &self.packages[i];
            proof {
                reveal(Seq::filter);
                assert(es.take(i + 1).drop_last() =~= es.take(i as int));
                assert(es.take(i + 1).last() == es[i as int]);
            }
            if p.manager & manager > 0 {
                let ghost before = r@;
                r.push(PackageInfo { name: copy_str(p.name.as_str()), version: copy_str(p.version.as_str()), manager: p.manager });
                assert(r@.map_values(|q: PackageInfo| q.entry()) =~= before.map_values(|q: PackageInfo| q.entry()).push(es[i as int]));
            }
            i += 1;
        }
        assert(es.take(es.len() as int) =~= es);
        r
    }
}


/// The pieces joined again with `sep` between them.
pub open spec fn seq_join(pieces: Seq<Seq<char>>, sep: char) -> Seq<char>
    decreases pieces.len(),
{
    if pieces.len() == 0 {
        Seq::<char>::empty()
    } else if pieces.len() == 1 {
        pieces[0]
    } else {
        seq_join(pieces.drop_last(), sep).push(sep) + pieces.last()
    }
}

/// The cache after adding each of `ps` in turn.
pub open spec fn add_all(entries: Seq<PackageEntry>, ps: Seq<PackageEntry>) -> Seq<PackageEntry>
    decreases ps.len(),
{
    if ps.len() == 0 {
        entries
    } else {
        add_entry(add_all(entries, ps.drop_last()), ps.last())
    }
}

/// A pacman database directory name has the form `NAME-VERSION-REVISION`, where the name may
/// hold dashes.
pub open spec fn pacman_dir_ok(dir: Seq<char>) -> bool {
    seq_split(dir, '-').len() >= 2
}

/// The package that a pacman database directory stands for: the name is every dash-separated
/// piece but the last two (without a `-git` suffix), the version is the piece before the last.
pub open spec fn pacman_entry(dir: Seq<char>) -> PackageEntry {
    let parts = seq_split(dir, '-');
    let joined = seq_join(parts.take(parts.len() - 2), '-');
    let name = if seq_ends_with(joined, "-git"@) {
        joined.take(joined.len() - 4)
    } else {
        joined
    };
    (name, parts[parts.len() - 2], MANAGER_PACMAN)
}

/// The version written in a dpkg `Version:` field: without the epoch (before a `:`) and
/// without the Debian revision (after the first `-`).
pub open spec fn dpkg_version(v: Seq<char>) -> Seq<char> {
    let parts = seq_split(v, ':');
    let ver = if parts.len() > 1 {
        parts[1]
    } else {
        parts[0]
    };
    seq_split(ver, '-')[0]
}

/// The state of a dpkg status file read: the current package name (empty between packages),
/// the name and version of the package being read, and the cache.
pub type DpkgState = (Seq<char>, Seq<char>, Seq<char>, Seq<PackageEntry>);

/// What one line of the dpkg status file does: an empty line adds the package read so far and
/// starts anew; `Package:` names the package (once); `Version:` sets its version.
pub open spec fn dpkg_step(st: DpkgState, line: Seq<char>) -> DpkgState {
    if line.len() == 0 {
        (Seq::<char>::empty(), Seq::<char>::empty(), Seq::<char>::empty(), add_entry(st.3, (st.1, st.2, MANAGER_DPKG)))
    } else if seq_starts_with(line, "Package: "@) {
        if st.0.len() == 0 {
            (line.skip(9), line.skip(9), st.2, st.3)
        } else {
            st
        }
    } else if st.0.len() > 0 && seq_starts_with(line, "Version: "@) {
        (st.0, st.1, dpkg_version(line.skip(9)), st.3)
    } else {
        st
    }
}

/// The state after reading `lines` from `st`.
pub open spec fn dpkg_scan(lines: Seq<Seq<char>>, st: DpkgState) -> DpkgState
    decreases lines.len(),
{
    if lines.len() == 0 {
        st
    } else {
        dpkg_step(dpkg_scan(lines.drop_last(), st), lines.last())
    }
}

/// Lexicographic order of character sequences, which is the order of `String`s.
pub open spec fn seq_lex_le(a: Seq<char>, b: Seq<char>) -> bool
    decreases a.len(),
{
    if a.len() == 0 {
        true
    } else if b.len() == 0 {
        false
    } else if a[0] != b[0] {
        a[0] < b[0]
    } else {
        seq_lex_le(a.skip(1), b.skip(1))
    }
}

/// `m` is one of `vs` and no other is greater.
pub open spec fn is_greatest(vs: Seq<Seq<char>>, m: Seq<char>) -> bool {
    vs.contains(m) && forall|i: int| 0 <= i < vs.len() ==> seq_lex_le(#[trigger] vs[i], m)
}

/// `seq_lex_le` is total.
pub proof fn lemma_lex_total(a: Seq<char>, b: Seq<char>)
    ensures
        seq_lex_le(a, b) || seq_lex_le(b, a),
    decreases a.len(),
{
    if a.len() > 0 && b.len() > 0 && a[0] == b[0] {
        lemma_lex_total(a.skip(1), b.skip(1));
    }
}

/// `seq_lex_le` is transitive.
pub proof fn lemma_lex_trans(a: Seq<char>, b: Seq<char>, c: Seq<char>)
    requires
        seq_lex_le(a, b),
        seq_lex_le(b, c),
    ensures
        seq_lex_le(a, c),
    decreases a.len(),
{
    if a.len() > 0 && b.len() > 0 && c.len() > 0 && a[0] == b[0] && b[0] == c[0] {
        lemma_lex_trans(a.skip(1), b.skip(1), c.skip(1));
    }
}

/// Whether `a` comes no later than `b` in lexicographic order.
pub fn lex_le(a: &Vec<char>, b: &Vec<char>) -> (r: bool)
    ensures
        r == seq_lex_le(a@, b@),
{
    let mut i: usize = 0;
    assert(a@.skip(0) == a@);
    assert(b@.skip(0) == b@);
    while i < a.len() && i < b.len() && a[i] == b[i]
        invariant
            0 <= i <= a@.len(),
            i <= b@.len(),
            seq_lex_le(a@, b@) == seq_lex_le(a@.skip(i as int), b@.skip(i as int)),
        decreases a@.len() - i,
    {
        assert(a@.skip(i as int).skip(1) == a@.skip(i + 1));
        assert(b@.skip(i as int).skip(1) == b@.skip(i + 1));
        i += 1;
    }
    if i == a.len() {
        true
    } else if i == b.len() {
        false
    } else {
        a[i] < b[i]
    }
}

/// The greatest of the non-empty `vs`, which is what sorting them and taking the last gives.
pub fn greatest(vs: &Vec<String>) -> (r: String)
    requires
        vs@.len() > 0,
    ensures
        is_greatest(vs.deep_view(), r@),
{
    let ghost dv = vs.deep_view();
    let mut best: usize = 0;
    let mut best_chars = chars_of(vs[0].as_str());
    assert(dv[0] == vs@[0]@);
    proof {
        lemma_lex_total(dv[0], dv[0]);
    }
    let mut i: usize = 1;
    while i < vs.len()
        invariant
            dv == vs.deep_view(),
            0 <= best < i <= dv.len(),
            best_chars@ == dv[best as int],
            forall|j: int| 0 <= j < i ==> seq_lex_le(#[trigger] dv[j], dv[best as int]),
        decreases dv.len() - i,
    {
        let c = chars_of(vs[i].as_str());
        assert(c@ == dv[i as int]);
        if !lex_le(&c, &best_chars) {
            proof {
                lemma_lex_total(c@, best_chars@);
                assert forall|j: int| 0 <= j < i + 1 implies seq_lex_le(#[trigger] dv[j], dv[i as int]) by {
                    if j < i {
                        lemma_lex_trans(dv[j], dv[best as int], dv[i as int]);
                    } else {
                        lemma_lex_total(dv[j], dv[j]);
                    }
                }
            }
            best = i;
            best_chars = c;
        }
        i += 1;
    }
    let r = copy_str(vs[best].as_str());
    assert(dv.contains(dv[best as int]));
    r
}

impl ManagerInfo {
    /// Adds the packages of the pacman database, given the names of the directories under
    /// `/var/lib/pacman/local` (`None` when it could not be read, which leaves everything as
    /// it is), and marks pacman as found.
    pub fn process_pacman_packages(&mut self, dir_names: Option<Vec<String>>)
        requires
            old(self).wf(),
            dir_names matches Some(ds) ==> old(self).available_managers + MANAGER_PACMAN <= u8::MAX
                && forall|i: int| 0 <= i < ds@.len() ==> pacman_dir_ok(#[trigger] ds@[i]@),
        ensures
            final(self).wf(),
            dir_names is None ==> final(self).entries() == old(self).entries()
                && final(self).available_managers == old(self).available_managers,
            dir_names matches Some(ds) ==> final(self).entries() == add_all(
                old(self).entries(),
                ds.deep_view().map_values(|d: Seq<char>| pacman_entry(d)),
            ) && final(self).available_managers == old(self).available_managers + MANAGER_PACMAN,
    {
        match dir_names {
            None => {},
            Some(ds) => {
                let ghost dv = ds.deep_view();
                let ghost mapped = dv.map_values(|d: Seq<char>| pacman_entry(d));
                let ghost start = self.entries();
                let mut i: usize = 0;
                assert(mapped.take(0) =~= Seq::<PackageEntry>::empty());
                while i < ds.len()
                    invariant
                        dv == ds.deep_view(),
                        mapped == dv.map_values(|d: Seq<char>| pacman_entry(d)),
                        forall|j: int| 0 <= j < ds@.len() ==> pacman_dir_ok(#[trigger] ds@[j]@),
                        0 <= i <= dv.len(),
                        self.wf(),
                        self.entries() == add_all(start, mapped.take(i as int)),
                        self.available_managers == old(self).available_managers,
                        start == old(self).entries(),
                    decreases dv.len() - i,
                {
                    assert(ds@[i as int]@ == dv[i as int]);
                    let p = pacman_package(ds[i].as_str());
                    assert(mapped.take(i + 1).drop_last() =~= mapped.take(i as int));
                    self.add_package_to_cache(p);
                    i += 1;
                }
                assert(mapped.take(dv.len() as int) =~= mapped);
                self.available_managers = self.available_managers + MANAGER_PACMAN;
            },
        }
    }

    /// Adds the packages of the dpkg status file, given its lines (`None` when it could not be
    /// opened, which leaves everything as it is), and marks dpkg as found.
    pub fn process_dpkg_packages(&mut self, lines: Option<Vec<String>>)
        requires
            old(self).wf(),
            lines is Some ==> old(self).available_managers + MANAGER_DPKG <= u8::MAX,
        ensures
            final(self).wf(),
            lines is None ==> final(self).entries() == old(self).entries()
                && final(self).available_managers == old(self).available_managers,
            lines matches Some(ls) ==> final(self).entries() == dpkg_scan(
                ls.deep_view(),
                (Seq::<char>::empty(), Seq::<char>::empty(), Seq::<char>::empty(), old(self).entries()),
            ).3 && final(self).available_managers == old(self).available_managers + MANAGER_DPKG,
    {
        match lines {
            None => {},
            Some(ls) => {
                let ghost lv = ls.deep_view();
                let ghost start: DpkgState = (Seq::<char>::empty(), Seq::<char>::empty(), Seq::<char>::empty(), self.entries());
                let mut cur_package = String::new();
                let mut cur_info = PackageInfo::new("", "", MANAGER_DPKG);
                proof {
                    reveal_strlit("");
                    reveal_strlit("Package: ");
                    reveal_strlit("Version: ");
                }
                let mut i: usize = 0;
                assert(lv.take(0) =~= Seq::<Seq<char>>::empty());
                while i < ls.len()
                    invariant
                        lv == ls.deep_view(),
                        0 <= i <= lv.len(),
                        self.wf(),
                        cur_info.manager == MANAGER_DPKG,
                        (cur_package@, cur_info.name@, cur_info.version@, self.entries()) == dpkg_scan(lv.take(i as int), start),
                        self.available_managers == old(self).available_managers,
                        start == (Seq::<char>::empty(), Seq::<char>::empty(), Seq::<char>::empty(), old(self).entries()),
                    decreases lv.len() - i,
                {
                    let line: &str = ls[i].as_str();
                    proof {
                        reveal_strlit("");
                        reveal_strlit("Package: ");
                        reveal_strlit("Version: ");
                    }
                    assert(line@ == lv[i as int]);
                    assert(lv.take(i + 1).drop_last() =~= lv.take(i as int));
                    assert(lv.take(i + 1).last() == lv[i as int]);
                    if line.is_empty() {
                        let done = cur_info;
                        self.add_package_to_cache(done);
                        cur_package = String::new();
                        cur_info = PackageInfo::new("", "", MANAGER_DPKG);
                    } else {
                        match strip_prefix(line, "Package: ") {
                            Some(package_name) => {
                                if cur_package.as_str().is_empty() {
                                    cur_package = copy_str(package_name.as_str());
                                    cur_info.name = package_name;
                                }
                            },
                            None => {
                                if !cur_package.as_str().is_empty() {
                                    match strip_prefix(line, "Version: ") {
                                        Some(version) => {
                                            cur_info.version = dpkg_version_of(version.as_str());
                                        },
                                        None => {},
                                    }
                                }
                            },
                        }
                    }
                    i += 1;
                }
                assert(lv.take(lv.len() as int) =~= lv);
                self.available_managers = self.available_managers + MANAGER_DPKG;
            },
        }
    }

    /// Adds the Homebrew packages, given for each Homebrew directory that exists the package
    /// directories it holds, each with the names of its version directories; each package gets
    /// its greatest version. With no Homebrew directory nothing changes; otherwise Homebrew is
    /// marked as found.
    pub fn process_homebrew_packages(&mut self, dirs: Vec<Vec<(String, Vec<String>)>>)
        requires
            old(self).wf(),
            dirs@.len() > 0 ==> old(self).available_managers + MANAGER_HOMEBREW <= u8::MAX,
            forall|n: int|
                0 <= n < homebrew_flat(dirs.deep_view()).len() ==> (#[trigger] homebrew_flat(
                    dirs.deep_view(),
                )[n]).1.len() > 0,
        ensures
            final(self).wf(),
            dirs@.len() == 0 ==> final(self).entries() == old(self).entries()
                && final(self).available_managers == old(self).available_managers,
            dirs@.len() > 0 ==> final(self).available_managers == old(self).available_managers
                + MANAGER_HOMEBREW,
            exists|added: Seq<PackageEntry>|
                #![trigger add_all(old(self).entries(), added)]
                {
                    &&& final(self).entries() == add_all(old(self).entries(), added)
                    &&& homebrew_added(homebrew_flat(dirs.deep_view()), added)
                },
    {
        let ghost dv = dirs.deep_view();
        if dirs.len() == 0 {
            proof {
                assert(add_all(self.entries(), Seq::<PackageEntry>::empty()) == self.entries());
                assert(homebrew_flat(dv) =~= Seq::<(Seq<char>, Seq<Seq<char>>)>::empty());
            }
            return;
        }
        let ghost start = self.entries();
        let ghost mut added: Seq<PackageEntry> = Seq::empty();
        let mut d: usize = 0;
        assert(dv.take(0) =~= Seq::<Seq<(Seq<char>, Seq<Seq<char>>)>>::empty());
        while d < dirs.len()
            invariant
                dv == dirs.deep_view(),
                0 <= d <= dirs@.len(),
                dirs@.len() > 0,
                forall|n: int|
                    0 <= n < homebrew_flat(dv).len() ==> (#[trigger] homebrew_flat(dv)[n]).1.len() > 0,
                self.wf(),
                self.entries() == add_all(start, added),
                homebrew_added(homebrew_flat(dv.take(d as int)), added),
                self.available_managers == old(self).available_managers,
                start == old(self).entries(),
            decreases dirs@.len() - d,
        {
            let packages = &dirs[d];
            let ghost done = homebrew_flat(dv.take(d as int));
            proof {
                lemma_flat_prefix(dv, d as int);
            }
            let mut k: usize = 0;
            while k < packages.len()
                invariant
                    dv == dirs.deep_view(),
                    0 <= k <= packages@.len(),
                    d < dirs@.len(),
                    packages == dirs@[d as int],
                    dv[d as int] == packages.deep_view(),
                    done == homebrew_flat(dv.take(d as int)),
                    homebrew_flat(dv.take(d + 1)) == done + dv[d as int],
                    forall|m: int| 0 <= m < done.len() ==> done[m] == homebrew_flat(dv)[m],
                    forall|m: int|
                        0 <= m < done.len() + dv[d as int].len() ==> homebrew_flat(dv.take(d + 1))[m]
                            == homebrew_flat(dv)[m],
                    done.len() + dv[d as int].len() <= homebrew_flat(dv).len(),
                    forall|n: int|
                        0 <= n < homebrew_flat(dv).len() ==> (#[trigger] homebrew_flat(dv)[n]).1.len() > 0,
                    self.wf(),
                    self.entries() == add_all(start, added),
                    homebrew_added(done + dv[d as int].take(k as int), added),
                    self.available_managers == old(self).available_managers,
                decreases packages@.len() - k,
            {
                let entry = &packages[k];
                assert(dv[d as int][k as int] == (entry.0@, entry.1.deep_view()));
                assert(homebrew_flat(dv.take(d + 1))[done.len() + k] == dv[d as int][k as int]);
                assert(homebrew_flat(dv)[done.len() + k] == dv[d as int][k as int]);
                let version = greatest(&entry.1);
                let p = PackageInfo::new(entry.0.as_str(), version.as_str(), MANAGER_HOMEBREW);
                proof {
                    let na = added.push(p.entry());
                    assert(na.drop_last() =~= added);
                    assert(done + dv[d as int].take(k + 1) =~= (done + dv[d as int].take(k as int)).push(dv[d as int][k as int]));
                    added = na;
                }
                self.add_package_to_cache(p);
                k += 1;
            }
            assert(dv[d as int].take(packages@.len() as int) =~= dv[d as int]);
            d += 1;
        }
        proof {
            assert(dv.take(dirs@.len() as int) =~= dv);
        }
        self.available_managers = self.available_managers + MANAGER_HOMEBREW;
    }
}

/// The package directories of all Homebrew directories, in order, each with its version names.
pub open spec fn homebrew_flat(dirs: Seq<Seq<(Seq<char>, Seq<Seq<char>>)>>) -> Seq<(Seq<char>, Seq<Seq<char>>)>
    decreases dirs.len(),
{
    if dirs.len() == 0 {
        Seq::empty()
    } else {
        homebrew_flat(dirs.drop_last()) + dirs.last()
    }
}

/// `added` holds one package per package directory of `flat`, in order: its name, its greatest
/// version, and Homebrew.
pub open spec fn homebrew_added(flat: Seq<(Seq<char>, Seq<Seq<char>>)>, added: Seq<PackageEntry>) -> bool {
    &&& added.len() == flat.len()
    &&& forall|n: int|
        0 <= n < added.len() ==> (#[trigger] added[n]).0 == flat[n].0 && is_greatest(flat[n].1, added[n].1)
            && added[n].2 == MANAGER_HOMEBREW
}

/// The flattening of a prefix is a prefix of the flattening.
pub proof fn lemma_flat_prefix(dirs: Seq<Seq<(Seq<char>, Seq<Seq<char>>)>>, d: int)
    requires
        0 <= d < dirs.len(),
    ensures
        homebrew_flat(dirs.take(d + 1)) == homebrew_flat(dirs.take(d)) + dirs[d],
        forall|m: int|
            0 <= m < homebrew_flat(dirs.take(d)).len() + dirs[d].len() ==> homebrew_flat(dirs.take(d + 1))[m]
                == homebrew_flat(dirs)[m],
        homebrew_flat(dirs.take(d)).len() + dirs[d].len() <= homebrew_flat(dirs).len(),
        forall|m: int|
            0 <= m < homebrew_flat(dirs.take(d)).len() ==> homebrew_flat(dirs.take(d))[m]
                == homebrew_flat(dirs)[m],
    decreases dirs.len(),
{
    assert(dirs.take(d + 1).drop_last() =~= dirs.take(d));
    if d + 1 == dirs.len() {
        assert(dirs.take(d + 1) =~= dirs);
    } else {
        let s = dirs.drop_last();
        assert(s.take(d + 1) =~= dirs.take(d + 1));
        assert(s.take(d) =~= dirs.take(d));
        lemma_flat_prefix(s, d);
    }
}

/// The version in a dpkg `Version:` field.
pub fn dpkg_version_of(v: &str) -> (r: String)
    ensures
        r@ == dpkg_version(v@),
{
    let parts = split_char(v, ':');
    proof {
        lemma_split_nonempty(v@, ':');
    }
    let ver: &str = if parts.len() > 1 {
        parts[1].as_str()
    } else {
        parts[0].as_str()
    };
    assert(parts.len() > 1 ==> ver@ == parts.deep_view()[1]);
    assert(parts.len() <= 1 ==> ver@ == parts.deep_view()[0]);
    let pieces = split_char(ver, '-');
    proof {
        lemma_split_nonempty(ver@, '-');
    }
    let r = copy_str(pieces[0].as_str());
    assert(r@ == pieces.deep_view()[0]);
    r
}

/// The package that a pacman database directory name stands for.
pub fn pacman_package(dir: &str) -> (r: PackageInfo)
    requires
        pacman_dir_ok(dir@),
    ensures
        r.entry() == pacman_entry(dir@),
{
    let parts = split_char(dir, '-');
    let ghost pv = parts.deep_view();
    let n = parts.len();
    let mut joined = String::new();
    let mut k: usize = 0;
    assert(pv.take(0) =~= Seq::<Seq<char>>::empty());
    while k < n - 2
        invariant
            pv == parts.deep_view(),
            n == pv.len(),
            n >= 2,
            0 <= k <= n - 2,
            joined@ == seq_join(pv.take(k as int), '-'),
        decreases n - 2 - k,
    {
        assert(pv.take(k + 1).drop_last() =~= pv.take(k as int));
        assert(pv.take(k + 1).last() == pv[k as int]);
        assert(parts@[k as int]@ == pv[k as int]);
        if k > 0 {
            crate::text::push_char(&mut joined, '-');
        }
        append_str(&mut joined, parts[k].as_str());
        proof {
            if k == 0 {
                assert(pv.take(1) =~= seq![pv[0]]);
                assert(joined@ =~= pv[0]);
            }
        }
        k += 1;
    }
    proof {
        reveal_strlit("-git");
    }
    let name = match strip_suffix(joined.as_str(), "-git") {
        Some(r) => r,
        None => joined,
    };
    assert(parts@[n - 2]@ == pv[n - 2]);
    PackageInfo::new(name.as_str(), parts[n - 2].as_str(), MANAGER_PACMAN)
}


/// The state of a read of the xbps package database: the current package key, the version read
/// for it, the cache, the depth of `<dict>` nesting, whether the next line is a package key,
/// whether the next line is a version string, whether reading has stopped, and whether it met a
/// line that it cannot handle (the reader would panic there).
pub type XbpsState = (Seq<char>, Seq<char>, Seq<PackageEntry>, int, bool, bool, bool, bool);

/// The version in an xbps `pkgver` string `NAME-VERSION_REVISION`: the last dash-separated
/// piece before the first `_`.
pub open spec fn xbps_version(s: Seq<char>) -> Seq<char> {
    seq_split(seq_split(s, '_')[0], '-').last()
}

/// What one line of the xbps package database does to the reading state.
pub open spec fn xbps_step(st: XbpsState, line: Seq<char>) -> XbpsState {
    let (cur, version, entries, level, next_key, next_ver, stopped, failed) = st;
    let t = seq_trim(line);
    if stopped || failed || line.len() == 0 {
        st
    } else if next_key {
        if seq_starts_with(t, "<key>"@) {
            let p = t.skip(5);
            let key = if seq_ends_with(p, "</key>"@) {
                p.take(p.len() - 6)
            } else {
                p
            };
            (key, version, entries, level, false, next_ver, stopped, failed)
        } else {
            (cur, version, entries, level, false, next_ver, stopped, failed)
        }
    } else if t == "<dict>"@ && level >= 255 {
        (cur, version, entries, level, next_key, next_ver, stopped, true)
    } else if t == "<dict>"@ && level == 0 {
        (cur, version, entries, 1, true, next_ver, stopped, failed)
    } else if t == "</dict>"@ {
        if level == 0 {
            (cur, version, entries, level, next_key, next_ver, stopped, true)
        } else if level - 1 == 1 {
            (
                Seq::<char>::empty(),
                Seq::<char>::empty(),
                add_entry(entries, (cur, version, MANAGER_XBPS)),
                1,
                true,
                next_ver,
                stopped,
                failed,
            )
        } else {
            (cur, version, entries, level - 1, next_key, next_ver, level - 1 == 0, failed)
        }
    } else {
        let level2 = if t == "<dict>"@ {
            level + 1
        } else {
            level
        };
        if cur.len() == 0 {
            (cur, version, entries, level2, next_key, next_ver, stopped, failed)
        } else if t == "<key>pkgver</key>"@ {
            (cur, version, entries, level2, next_key, true, stopped, failed)
        } else if next_ver {
            match byte_slice(t, 8, 9) {
                Some(v) => (cur, xbps_version(v), entries, level2, next_key, false, stopped, failed),
                None => (cur, version, entries, level2, next_key, next_ver, stopped, true),
            }
        } else {
            (cur, version, entries, level2, next_key, next_ver, stopped, failed)
        }
    }
}

/// The reading state after `lines`.
pub open spec fn xbps_scan(lines: Seq<Seq<char>>, st: XbpsState) -> XbpsState
    decreases lines.len(),
{
    if lines.len() == 0 {
        st
    } else {
        xbps_step(xbps_scan(lines.drop_last(), st), lines.last())
    }
}

/// The reading state at the start: nothing read, no nesting.
pub open spec fn xbps_start(entries: Seq<PackageEntry>) -> XbpsState {
    (Seq::<char>::empty(), Seq::<char>::empty(), entries, 0, false, false, false, false)
}

/// Once reading has stopped or failed, further lines change nothing.
pub proof fn lemma_xbps_settled(lines: Seq<Seq<char>>, st: XbpsState, i: int)
    requires
        0 <= i <= lines.len(),
        xbps_scan(lines.take(i), st).6 || xbps_scan(lines.take(i), st).7,
    ensures
        xbps_scan(lines, st) == xbps_scan(lines.take(i), st),
    decreases lines.len() - i,
{
    if i == lines.len() {
        assert(lines.take(i) == lines);
    } else {
        assert(lines.take(i + 1).drop_last() == lines.take(i));
        lemma_xbps_settled(lines, st, i + 1);
    }
}

impl ManagerInfo {
    /// Adds the packages of the xbps package database, given its lines (`None` when it could
    /// not be opened, which leaves everything as it is), and marks xbps as found. Each package
    /// is cached under the name of its `<key>` with the version of its `pkgver` string. Reading
    /// stops at the end of the outer dictionary.
    pub fn process_xbps_packages(&mut self, lines: Option<Vec<String>>)
        requires
            old(self).wf(),
            lines is Some ==> old(self).available_managers + MANAGER_XBPS <= u8::MAX,
            lines matches Some(ls) ==> !xbps_scan(ls.deep_view(), xbps_start(old(self).entries())).7,
        ensures
            final(self).wf(),
            lines is None ==> final(self).entries() == old(self).entries()
                && final(self).available_managers == old(self).available_managers,
            lines matches Some(ls) ==> final(self).entries() == xbps_scan(
                ls.deep_view(),
                xbps_start(old(self).entries()),
            ).2 && final(self).available_managers == old(self).available_managers + MANAGER_XBPS,
    {
        match lines {
            None => {},
            Some(ls) => {
                let ghost lv = ls.deep_view();
                let ghost start = xbps_start(self.entries());
                let mut cur_package = String::new();
                let mut cur_info = PackageInfo::new("", "", MANAGER_XBPS);
                let mut next_line_is_key: bool = false;
                let mut next_line_is_version_str: bool = false;
                let mut dict_level: u8 = 0;
                proof {
                    reveal_strlit("");
                }
                let mut i: usize = 0;
                assert(lv.take(0) =~= Seq::<Seq<char>>::empty());
                assert(lv.take(lv.len() as int) =~= lv);
                while i < ls.len()
                    invariant_except_break
                        !xbps_scan(lv.take(i as int), start).6,
                        ({
                            let st = xbps_scan(lv.take(i as int), start);
                            &&& cur_package@ == st.0
                            &&& cur_info.version@ == st.1
                            &&& self.entries() == st.2
                            &&& dict_level as int == st.3
                            &&& next_line_is_key == st.4
                            &&& next_line_is_version_str == st.5
                            &&& !st.7
                        }),
                    invariant
                        lv == ls.deep_view(),
                        lv.take(lv.len() as int) == lv,
                        0 <= i <= lv.len(),
                        self.wf(),
                        cur_info.manager == MANAGER_XBPS,
                        cur_info.name@ == Seq::<char>::empty(),
                        !xbps_scan(lv, start).7,
                        self.available_managers == old(self).available_managers,
                        start == xbps_start(old(self).entries()),
                    ensures
                        xbps_scan(lv, start).2 == self.entries(),
                        self.wf(),
                        self.available_managers == old(self).available_managers,
                    decreases lv.len() - i,
                {
                    let line: &str = ls[i].as_str();
                    proof {
                        reveal_strlit("");
                        reveal_strlit("<key>");
                        reveal_strlit("</key>");
                        reveal_strlit("<dict>");
                        reveal_strlit("</dict>");
                        reveal_strlit("<key>pkgver</key>");
                        assert(line@ == lv[i as int]);
                        assert(lv.take(i + 1).drop_last() =~= lv.take(i as int));
                        assert(lv.take(i + 1).last() == lv[i as int]);
                    }
                    let ghost before = xbps_scan(lv.take(i as int), start);
                    if line.is_empty() {
                        i += 1;
                        continue;
                    }
                    let t = trim(line);
                    let tl: &str = t.as_str();
                    if next_line_is_key {
                        next_line_is_key = false;
                        match strip_prefix(tl, "<key>") {
                            Some(p) => {
                                cur_package = match strip_suffix(p.as_str(), "</key>") {
                                    Some(k) => k,
                                    None => p,
                                };
                            },
                            None => {},
                        }
                        i += 1;
                        continue;
                    }
                    let is_open = str_eq(tl, "<dict>");
                    if is_open {
                        if dict_level == 255 {
                            proof {
                                lemma_xbps_settled(lv, start, i + 1);
                            }
                            assert(false);
                        }
                        dict_level = dict_level + 1;
                        if dict_level == 1 {
                            next_line_is_key = true;
                            i += 1;
                            continue;
                        }
                    }
                    if str_eq(tl, "</dict>") {
                        if dict_level == 0 {
                            proof {
                                lemma_xbps_settled(lv, start, i + 1);
                            }
                            assert(false);
                        }
                        dict_level = dict_level - 1;
                        if dict_level == 1 {
                            let done = PackageInfo::new(cur_package.as_str(), cur_info.version.as_str(), MANAGER_XBPS);
                            self.add_package_to_cache(done);
                            cur_package = String::new();
                            cur_info = PackageInfo::new("", "", MANAGER_XBPS);
                            next_line_is_key = true;
                            i += 1;
                            continue;
                        }
                        if dict_level == 0 {
                            proof {
                                lemma_xbps_settled(lv, start, i + 1);
                            }
                            break;
                        }
                        i += 1;
                        continue;
                    }
                    if !cur_package.as_str().is_empty() {
                        if str_eq(tl, "<key>pkgver</key>") {
                            next_line_is_version_str = true;
                            i += 1;
                            continue;
                        }
                        if next_line_is_version_str {
                            let tv = chars_of(tl);
                            match byte_slice_of(&tv, 8, 9) {
                                Some(string) => {
                                    cur_info.version = xbps_version_of(string.as_str());
                                    next_line_is_version_str = false;
                                },
                                None => {
                                    proof {
                                        lemma_xbps_settled(lv, start, i + 1);
                                    }
                                    assert(false);
                                },
                            }
                        }
                    }
                    i += 1;
                }
                self.available_managers = self.available_managers + MANAGER_XBPS;
            },
        }
    }
}

/// The version in an xbps `pkgver` string.
pub fn xbps_version_of(s: &str) -> (r: String)
    ensures
        r@ == xbps_version(s@),
{
    let parts = split_char(s, '_');
    proof {
        lemma_split_nonempty(s@, '_');
    }
    let no_rev: &str = parts[0].as_str();
    assert(no_rev@ == parts.deep_view()[0]);
    last_piece(no_rev, '-')
}

/// Whether the xbps package database in `lines` can be read: `false` exactly where the reader
/// would meet a line that it cannot handle (a version string too short to hold its tags, or
/// `<dict>` nesting that goes below zero or past 255).
pub fn xbps_lines_readable(lines: &Vec<String>) -> (r: bool)
    ensures
        r == !xbps_scan(lines.deep_view(), xbps_start(Seq::empty())).7,
{
    let ghost lv = lines.deep_view();
    let ghost start = xbps_start(Seq::empty());
    let mut cur_package = String::new();
    let mut next_line_is_key: bool = false;
    let mut next_line_is_version_str: bool = false;
    let mut dict_level: u8 = 0;
    proof {
        reveal_strlit("");
    }
    let mut i: usize = 0;
    assert(lv.take(0) =~= Seq::<Seq<char>>::empty());
    assert(lv.take(lv.len() as int) =~= lv);
    while i < lines.len()
        invariant_except_break
            !xbps_scan(lv.take(i as int), start).6,
            ({
                let st = xbps_scan(lv.take(i as int), start);
                &&& cur_package@ == st.0
                &&& dict_level as int == st.3
                &&& next_line_is_key == st.4
                &&& next_line_is_version_str == st.5
                &&& !st.7
            }),
        invariant
            lv == lines.deep_view(),
            lv.take(lv.len() as int) == lv,
            0 <= i <= lv.len(),
            start == xbps_start(Seq::empty()),
        ensures
            !xbps_scan(lv, start).7,
        decreases lv.len() - i,
    {
        let line: &str = lines[i].as_str();
        proof {
            reveal_strlit("");
            reveal_strlit("<key>");
            reveal_strlit("</key>");
            reveal_strlit("<dict>");
            reveal_strlit("</dict>");
            reveal_strlit("<key>pkgver</key>");
            assert(line@ == lv[i as int]);
            assert(lv.take(i + 1).drop_last() =~= lv.take(i as int));
            assert(lv.take(i + 1).last() == lv[i as int]);
        }
        if line.is_empty() {
            i += 1;
            continue;
        }
        let t = trim(line);
        let tl: &str = t.as_str();
        if next_line_is_key {
            next_line_is_key = false;
            match strip_prefix(tl, "<key>") {
                Some(p) => {
                    cur_package = match strip_suffix(p.as_str(), "</key>") {
                        Some(k) => k,
                        None => p,
                    };
                },
                None => {},
            }
            i += 1;
            continue;
        }
        if str_eq(tl, "<dict>") {
            if dict_level == 255 {
                proof {
                    lemma_xbps_settled(lv, start, i + 1);
                }
                return false;
            }
            dict_level = dict_level + 1;
            if dict_level == 1 {
                next_line_is_key = true;
                i += 1;
                continue;
            }
        }
        if str_eq(tl, "</dict>") {
            if dict_level == 0 {
                proof {
                    lemma_xbps_settled(lv, start, i + 1);
                }
                return false;
            }
            dict_level = dict_level - 1;
            if dict_level == 1 {
                cur_package = String::new();
                next_line_is_key = true;
                i += 1;
                continue;
            }
            if dict_level == 0 {
                proof {
                    lemma_xbps_settled(lv, start, i + 1);
                }
                break;
            }
            i += 1;
            continue;
        }
        if !cur_package.as_str().is_empty() {
            if str_eq(tl, "<key>pkgver</key>") {
                next_line_is_version_str = true;
                i += 1;
                continue;
            }
            if next_line_is_version_str {
                let tv = chars_of(tl);
                match byte_slice_of(&tv, 8, 9) {
                    Some(_) => {
                        next_line_is_version_str = false;
                    },
                    None => {
                        proof {
                            lemma_xbps_settled(lv, start, i + 1);
                        }
                        return false;
                    },
                }
            }
        }
        i += 1;
    }
    true
}

/// Whether reading the xbps database fails does not depend on the cache it starts with, nor
/// does anything of the state but the cache.
pub proof fn lemma_xbps_entries_free(lines: Seq<Seq<char>>, e1: Seq<PackageEntry>, e2: Seq<PackageEntry>)
    ensures
        ({
            let a = xbps_scan(lines, xbps_start(e1));
            let b = xbps_scan(lines, xbps_start(e2));
            a.0 == b.0 && a.1 == b.1 && a.3 == b.3 && a.4 == b.4 && a.5 == b.5 && a.6 == b.6 && a.7 == b.7
        }),
    decreases lines.len(),
{
    if lines.len() > 0 {
        lemma_xbps_entries_free(lines.drop_last(), e1, e2);
    }
}

/// The cache after the pacman packages (when the database could be read).
pub open spec fn after_pacman(entries: Seq<PackageEntry>, dirs: Option<Seq<Seq<char>>>) -> Seq<PackageEntry> {
    match dirs {
        None => entries,
        Some(ds) => add_all(entries, ds.map_values(|d: Seq<char>| pacman_entry(d))),
    }
}

/// The cache after the dpkg packages (when the status file could be read).
pub open spec fn after_dpkg(entries: Seq<PackageEntry>, lines: Option<Seq<Seq<char>>>) -> Seq<PackageEntry> {
    match lines {
        None => entries,
        Some(ls) => dpkg_scan(ls, (Seq::<char>::empty(), Seq::<char>::empty(), Seq::<char>::empty(), entries)).3,
    }
}

/// The cache after the xbps packages (when the database could be read).
pub open spec fn after_xbps(entries: Seq<PackageEntry>, lines: Option<Seq<Seq<char>>>) -> Seq<PackageEntry> {
    match lines {
        None => entries,
        Some(ls) => xbps_scan(ls, xbps_start(entries)).2,
    }
}

/// Lines or names that could be read, as plain values.
pub open spec fn opt_view(o: Option<Vec<String>>) -> Option<Seq<Seq<char>>> {
    match o {
        Some(v) => Some(v.deep_view()),
        None => None,
    }
}

/// The bit of a manager that was found.
pub open spec fn found_bit(found: bool, bit: u8) -> int {
    if found {
        bit as int
    } else {
        0
    }
}

impl ManagerInfo {
    /// Reads every supported package manager in turn (pacman, dpkg, xbps, Homebrew) into the
    /// cache, from what was read of each (see the `process_*` methods). Starting from an empty
    /// cache, each package is credited only to managers whose database was read.
    pub fn probe_and_cache(
        &mut self,
        pacman_dirs: Option<Vec<String>>,
        dpkg_lines: Option<Vec<String>>,
        xbps_lines: Option<Vec<String>>,
        homebrew_dirs: Vec<Vec<(String, Vec<String>)>>,
    )
        requires
            old(self).wf(),
            old(self).available_managers + found_bit(pacman_dirs is Some, MANAGER_PACMAN) + found_bit(
                dpkg_lines is Some,
                MANAGER_DPKG,
            ) + found_bit(xbps_lines is Some, MANAGER_XBPS) + found_bit(
                homebrew_dirs@.len() > 0,
                MANAGER_HOMEBREW,
            ) <= u8::MAX,
            pacman_dirs matches Some(ds) ==> forall|i: int|
                0 <= i < ds@.len() ==> pacman_dir_ok(#[trigger] ds@[i]@),
            xbps_lines matches Some(ls) ==> !xbps_scan(ls.deep_view(), xbps_start(Seq::empty())).7,
            forall|n: int|
                0 <= n < homebrew_flat(homebrew_dirs.deep_view()).len() ==> (#[trigger] homebrew_flat(
                    homebrew_dirs.deep_view(),
                )[n]).1.len() > 0,
        ensures
            final(self).wf(),
            final(self).available_managers == old(self).available_managers + found_bit(
                pacman_dirs is Some,
                MANAGER_PACMAN,
            ) + found_bit(dpkg_lines is Some, MANAGER_DPKG) + found_bit(xbps_lines is Some, MANAGER_XBPS)
                + found_bit(homebrew_dirs@.len() > 0, MANAGER_HOMEBREW),
            old(self).entries().len() == 0 && old(self).available_managers == 0 ==> credited_within(
                final(self).entries(),
                final(self).available_managers,
            ) && final(self).available_managers | ALL_MANAGERS == ALL_MANAGERS,
            exists|added: Seq<PackageEntry>|
                #![trigger homebrew_added(homebrew_flat(homebrew_dirs.deep_view()), added)]
                {
                    &&& final(self).entries() == add_all(
                        after_xbps(
                            after_dpkg(
                                after_pacman(
                                    old(self).entries(),
                                    opt_view(pacman_dirs),
                                ),
                                opt_view(dpkg_lines),
                            ),
                            opt_view(xbps_lines),
                        ),
                        added,
                    )
                    &&& homebrew_added(homebrew_flat(homebrew_dirs.deep_view()), added)
                },
    {
        let ghost pd = opt_view(pacman_dirs);
        let ghost dl = opt_view(dpkg_lines);
        let ghost xl = opt_view(xbps_lines);
        let ghost e0 = self.entries();
        self.process_pacman_packages(pacman_dirs);
        assert(self.entries() == after_pacman(e0, pd));
        let ghost e1 = self.entries();
        self.process_dpkg_packages(dpkg_lines);
        assert(self.entries() == after_dpkg(e1, dl));
        let ghost e2 = self.entries();
        proof {
            match xl {
                Some(ls) => {
                    lemma_xbps_entries_free(ls, Seq::empty(), e2);
                },
                None => {},
            }
        }
        self.process_xbps_packages(xbps_lines);
        assert(self.entries() == after_xbps(e2, xl));
        let ghost e3 = self.entries();
        self.process_homebrew_packages(homebrew_dirs);
        proof {
            if e0.len() == 0 && old(self).available_managers == 0 {
                let m = self.available_managers;
                let a = found_bit(pd is Some, MANAGER_PACMAN) as u8;
                let b = found_bit(dl is Some, MANAGER_DPKG) as u8;
                let c = found_bit(xl is Some, MANAGER_XBPS) as u8;
                let d = found_bit(homebrew_dirs@.len() > 0, MANAGER_HOMEBREW) as u8;
                assert(m == a + b + c + d);
                assert((a == 1 ==> 1u8 | m == m) && (b == 2 ==> 2u8 | m == m) && (c == 4 ==> 4u8 | m == m)
                    && (d == 32 ==> 32u8 | m == m) && m | 39u8 == 39u8) by (bit_vector)
                    requires
                        m == a + b + c + d,
                        a == 0 || a == 1,
                        b == 0 || b == 2,
                        c == 0 || c == 4,
                        d == 0 || d == 32,
                ;
                assert(credited_within(e0, m));
                match pd {
                    Some(ds) => lemma_pacman_within(e0, ds, m),
                    None => {},
                }
                match dl {
                    Some(ls) => lemma_dpkg_within(ls, (Seq::<char>::empty(), Seq::<char>::empty(), Seq::<char>::empty(), e1), m),
                    None => {},
                }
                match xl {
                    Some(ls) => lemma_xbps_within(ls, xbps_start(e2), m),
                    None => {},
                }
                let added = choose|added: Seq<PackageEntry>|
                    #![trigger homebrew_added(homebrew_flat(homebrew_dirs.deep_view()), added)]
                    {
                        &&& self.entries() == add_all(e3, added)
                        &&& homebrew_added(homebrew_flat(homebrew_dirs.deep_view()), added)
                    };
                if homebrew_dirs@.len() > 0 {
                    assert forall|i: int| 0 <= i < added.len() implies (#[trigger] added[i]).2 != 0 && added[i].2 | m == m by {
                        assert(added[i].2 == MANAGER_HOMEBREW);
                    }
                    lemma_add_all_within(e3, added, m);
                } else {
                    assert(homebrew_flat(homebrew_dirs.deep_view()).len() == 0) by {
                        assert(homebrew_dirs.deep_view() =~= Seq::<Seq<(Seq<char>, Seq<Seq<char>>)>>::empty());
                    }
                    assert(added.len() == 0);
                    assert(add_all(e3, added) == e3);
                }
            }
        }
    }
}

/// The bits of pacman, dpkg, xbps and Homebrew together: every manager that the cache knows.
pub const ALL_MANAGERS: u8 = 39;

/// Each cached package is held by some manager, and only by managers among `m`.
pub open spec fn credited_within(entries: Seq<PackageEntry>, m: u8) -> bool {
    forall|i: int| 0 <= i < entries.len() ==> (#[trigger] entries[i]).2 != 0 && entries[i].2 | m == m
}

/// Adding a package held by managers among `m` keeps every package credited within `m`.
proof fn lemma_add_within(entries: Seq<PackageEntry>, p: PackageEntry, m: u8)
    requires
        credited_within(entries, m),
        p.2 != 0,
        p.2 | m == m,
    ensures
        credited_within(add_entry(entries, p), m),
{
    lemma_find_name(entries, p.0);
    match find_name(entries, p.0) {
        Some(j) => {
            let a = entries[j].2;
            let b = p.2;
            assert((a | b) != 0 && (a | b) | m == m) by (bit_vector)
                requires
                    a != 0,
                    a | m == m,
                    b | m == m,
            ;
            let r = add_entry(entries, p);
            assert forall|i: int| 0 <= i < r.len() implies (#[trigger] r[i]).2 != 0 && r[i].2 | m == m by {
                if i != j {
                    assert(r[i] == entries[i]);
                }
            }
        },
        None => {
            let r = add_entry(entries, p);
            assert forall|i: int| 0 <= i < r.len() implies (#[trigger] r[i]).2 != 0 && r[i].2 | m == m by {
                if i < entries.len() {
                    assert(r[i] == entries[i]);
                }
            }
        },
    }
}

/// Adding packages held by managers among `m` keeps every package credited within `m`.
proof fn lemma_add_all_within(entries: Seq<PackageEntry>, ps: Seq<PackageEntry>, m: u8)
    requires
        credited_within(entries, m),
        forall|i: int| 0 <= i < ps.len() ==> (#[trigger] ps[i]).2 != 0 && ps[i].2 | m == m,
    ensures
        credited_within(add_all(entries, ps), m),
    decreases ps.len(),
{
    if ps.len() > 0 {
        let d = ps.drop_last();
        assert forall|i: int| 0 <= i < d.len() implies (#[trigger] d[i]).2 != 0 && d[i].2 | m == m by {
            assert(d[i] == ps[i]);
        }
        lemma_add_all_within(entries, d, m);
        assert(ps.last() == ps[ps.len() - 1]);
        lemma_add_within(add_all(entries, d), ps.last(), m);
    }
}

/// The pacman packages are credited to pacman.
proof fn lemma_pacman_within(entries: Seq<PackageEntry>, dirs: Seq<Seq<char>>, m: u8)
    requires
        credited_within(entries, m),
        MANAGER_PACMAN | m == m,
    ensures
        credited_within(add_all(entries, dirs.map_values(|d: Seq<char>| pacman_entry(d))), m),
{
    let ps = dirs.map_values(|d: Seq<char>| pacman_entry(d));
    assert forall|i: int| 0 <= i < ps.len() implies (#[trigger] ps[i]).2 != 0 && ps[i].2 | m == m by {
        assert(ps[i] == pacman_entry(dirs[i]));
    }
    lemma_add_all_within(entries, ps, m);
}

/// The dpkg packages are credited to dpkg.
proof fn lemma_dpkg_within(lines: Seq<Seq<char>>, st: DpkgState, m: u8)
    requires
        credited_within(st.3, m),
        MANAGER_DPKG | m == m,
    ensures
        credited_within(dpkg_scan(lines, st).3, m),
    decreases lines.len(),
{
    if lines.len() > 0 {
        lemma_dpkg_within(lines.drop_last(), st, m);
        let prev = dpkg_scan(lines.drop_last(), st);
        lemma_add_within(prev.3, (prev.1, prev.2, MANAGER_DPKG), m);
    }
}

/// The xbps packages are credited to xbps.
proof fn lemma_xbps_within(lines: Seq<Seq<char>>, st: XbpsState, m: u8)
    requires
        credited_within(st.2, m),
        MANAGER_XBPS | m == m,
    ensures
        credited_within(xbps_scan(lines, st).2, m),
    decreases lines.len(),
{
    if lines.len() > 0 {
        lemma_xbps_within(lines.drop_last(), st, m);
        let prev = xbps_scan(lines.drop_last(), st);
        lemma_add_within(prev.2, (prev.0, prev.1, MANAGER_XBPS), m);
    }
}

/// Adding a package to the cache keeps names distinct; afterwards the package's name is there,
/// with at least the managers added, and with its old version when it was there before; every
/// other package is unchanged and no other name appears.
pub proof fn lemma_add_merges(entries: Seq<PackageEntry>, p: PackageEntry)
    requires
        names_distinct(entries),
    ensures
        names_distinct(add_entry(entries, p)),
        find_name(add_entry(entries, p), p.0) matches Some(i) && {
            let e = add_entry(entries, p)[i];
            &&& e.2 & p.2 == p.2
            &&& e.1 == (match find_name(entries, p.0) {
                Some(j) => entries[j].1,
                None => p.1,
            })
            &&& e.2 == (match find_name(entries, p.0) {
                Some(j) => entries[j].2 | p.2,
                None => p.2,
            })
        },
        forall|n: Seq<char>|
            n != p.0 ==> find_name(add_entry(entries, p), n) == find_name(entries, n) && (
            find_name(entries, n) matches Some(j) ==> add_entry(entries, p)[j] == entries[j]),
{
    let r = add_entry(entries, p);
    lemma_find_name(entries, p.0);
    lemma_find_name(r, p.0);
    match find_name(entries, p.0) {
        Some(j) => {
            let m = entries[j].2;
            let b = p.2;
            assert((m | b) & b == b) by (bit_vector);
            assert forall|a: int, c: int| 0 <= a < c < r.len() implies #[trigger] r[a].0 != #[trigger] r[c].0 by {
                assert(r[a].0 == entries[a].0);
                assert(r[c].0 == entries[c].0);
            }
            assert(r[j].0 == p.0);
        },
        None => {
            let b = p.2;
            assert(b & b == b) by (bit_vector);
            assert(r[entries.len() as int].0 == p.0);
        },
    }
    assert forall|n: Seq<char>| n != p.0 implies find_name(r, n) == find_name(entries, n) && (
    find_name(entries, n) matches Some(j) ==> r[j] == entries[j]) by {
        lemma_find_name(entries, n);
        lemma_find_name(r, n);
        match find_name(entries, n) {
            Some(j) => {
                assert(r[j].0 == n);
                match find_name(r, n) {
                    Some(k) => {
                        if k < j {
                            assert(r[k].0 == entries[k].0);
                        }
                    },
                    None => {},
                }
            },
            None => {
                match find_name(r, n) {
                    Some(k) => {
                        if k < entries.len() {
                            assert(r[k].0 == entries[k].0);
                        }
                    },
                    None => {},
                }
            },
        }
    }
}

/// Adding the same package twice leaves the cache as adding it once.
pub proof fn lemma_add_twice(entries: Seq<PackageEntry>, p: PackageEntry)
    requires
        names_distinct(entries),
    ensures
        add_entry(add_entry(entries, p), p) == add_entry(entries, p),
{
    let r = add_entry(entries, p);
    lemma_add_merges(entries, p);
    lemma_find_name(r, p.0);
    lemma_find_name(entries, p.0);
    match find_name(r, p.0) {
        Some(i) => {
            let e = r[i];
            let b = p.2;
            let m = e.2;
            assert(m & b == b ==> (m | b) == m) by (bit_vector);
            assert(add_entry(r, p) =~= r.update(i, (e.0, e.1, e.2 | p.2)));
            assert(r.update(i, (e.0, e.1, e.2)) =~= r);
        },
        None => {},
    }
}

} // verus!
