use vstd::prelude::*;
use crate::color::{
    color_placeholders_rendered, colored_rendering, fg_code, lowercase, replace_color_placeholders,
    to_lowercase, CrabFetchColor,
};
use crate::config::Configuration;
use crate::module::{entry_color, entry_separator, or_else};
use crate::package_managers::{
    entries_from, MANAGER_DPKG, MANAGER_HOMEBREW, MANAGER_PACMAN, MANAGER_XBPS,
};
use crate::package_managers;
use crate::text::{
    append_str, contains_str, copy_str, nat_to_dec, replace_str, seq_contains, seq_replace, seq_trim, str_contains,
    str_eq, trim, u64_to_string,
};

verus! {

/// The package counts of each package manager, in the order they are shown.
pub struct PackagesInfo {
    pub packages: Vec<ManagerInfo>,
}

/// The options of the packages entry.
pub struct PackagesConfiguration {
    pub title: String,
    pub title_color: Option<CrabFetchColor>,
    pub title_bold: Option<bool>,
    pub title_italic: Option<bool>,
    pub separator: Option<String>,
    pub ignore: Vec<String>,
    pub format: String,
}

/// One package manager and how many packages it holds.
pub struct ManagerInfo {
    pub manager_name: String,
    pub package_count: u64,
}

impl ManagerInfo {
    /// A manager with its count.
    pub fn fill(manager_name: &str, package_count: u64) -> (r: ManagerInfo)
        ensures
            r.manager_name@ == manager_name@,
            r.package_count == package_count,
    {
        ManagerInfo { manager_name: copy_str(manager_name), package_count }
    }
}

/// One manager's part of the value: the format with `{manager}` and `{count}` filled in.
pub open spec fn manager_part(format: Seq<char>, name: Seq<char>, count: u64) -> Seq<char> {
    seq_replace(seq_replace(format, "{manager}"@, name), "{count}"@, nat_to_dec(count as nat))
}

/// The value of the packages entry: the parts of the managers that are not ignored and hold
/// packages, separated by `, `.
pub open spec fn packages_value(
    managers: Seq<(Seq<char>, u64)>,
    ignore: Seq<Seq<char>>,
    format: Seq<char>,
) -> Seq<char>
    decreases managers.len(),
{
    if managers.len() == 0 {
        Seq::<char>::empty()
    } else {
        let acc = packages_value(managers.drop_last(), ignore, format);
        let m = managers.last();
        if ignore.contains(m.0) || m.1 == 0 {
            acc
        } else if acc.len() > 0 {
            acc + ", "@ + manager_part(format, m.0, m.1)
        } else {
            manager_part(format, m.0, m.1)
        }
    }
}


impl PackagesInfo {
    /// The managers as plain values.
    pub open spec fn managers(&self) -> Seq<(Seq<char>, u64)> {
        self.packages@.map_values(|m: ManagerInfo| (m.manager_name@, m.package_count))
    }

    /// No manager yet.
    pub fn new() -> (r: PackagesInfo)
        ensures
            r.managers() == Seq::<(Seq<char>, u64)>::empty(),
    {
        let r = PackagesInfo { packages: Vec::new() };
        assert(r.managers() =~= Seq::<(Seq<char>, u64)>::empty());
        r
    }

    /// The entry: the title in its color and styles (dropped when blank), and the separator
    /// followed by the managers' parts, with their color placeholders applied.
    pub fn style(&self, config: &Configuration) -> (r: (String, String))
        ensures
            ({
                let title = config.packages.title@;
                &&& seq_trim(title).len() == 0 ==> r.0@ == Seq::<char>::empty()
                &&& seq_trim(title).len() != 0 ==> colored_rendering(
                    r.0@,
                    title,
                    fg_code(entry_color(*config, config.packages.title_color)),
                    or_else(config.packages.title_bold, config.title_bold),
                    or_else(config.packages.title_italic, config.title_italic),
                )
                &&& exists|v: Seq<char>|
                    #![trigger color_placeholders_rendered(packages_value(self.managers(), config.packages.ignore.deep_view(), config.packages.format@), v)]
                    color_placeholders_rendered(
                        packages_value(self.managers(), config.packages.ignore.deep_view(), config.packages.format@),
                        v,
                    ) && r.1@ == entry_separator(*config, config.packages.separator) + v
            }),
    {
        let title_color: CrabFetchColor = match config.packages.title_color {
            Some(c) => c,
            None => config.title_color,
        };
        let title_bold: bool = match config.packages.title_bold {
            Some(b) => b,
            None => config.title_bold,
        };
        let title_italic: bool = match config.packages.title_italic {
            Some(b) => b,
            None => config.title_italic,
        };
        let separator: &str = match &config.packages.separator {
            Some(s) => s.as_str(),
            None => config.separator.as_str(),
        };
        let mut title_final = String::new();
        let trimmed = trim(config.packages.title.as_str());
        if !trimmed.as_str().is_empty() {
            title_final = title_color.color_string(config.packages.title.as_str(), title_bold, title_italic);
        }
        proof {
            reveal_strlit("{manager}");
            reveal_strlit("{count}");
        }
        let ghost ms = self.managers();
        let ghost ig = config.packages.ignore.deep_view();
        let ghost fmt = config.packages.format@;
        let mut value = String::new();
        let mut i: usize = 0;
        assert(ms.take(0) =~= Seq::<(Seq<char>, u64)>::empty());
        while i < self.packages.len()
            invariant
                ms == self.managers(),
                ms.len() == self.packages@.len(),
                ig == config.packages.ignore.deep_view(),
                fmt == config.packages.format@,
                0 <= i <= ms.len(),
                value@ == packages_value(ms.take(i as int), ig, fmt),
            decreases ms.len() - i,
        {
            let manager = &self.packages[i];
            proof {
                reveal_strlit("{manager}");
                reveal_strlit("{count}");
            }
            assert(ms[i as int] == (manager.manager_name@, manager.package_count));
            assert(ms.take(i + 1).drop_last() =~= ms.take(i as int));
            assert(ms.take(i + 1).last() == ms[i as int]);
            let ignored = contains_str(&config.packages.ignore, manager.manager_name.as_str());
            if !ignored && manager.package_count != 0 {
                if !value.as_str().is_empty() {
                    append_str(&mut value, ", ");
                }
                let t = replace_str(config.packages.format.as_str(), "{manager}", manager.manager_name.as_str());
                let count = u64_to_string(manager.package_count);
                let part = replace_str(t.as_str(), "{count}", count.as_str());
                append_str(&mut value, part.as_str());
            }
            i += 1;
        }
        assert(ms.take(ms.len() as int) =~= ms);
        let mut format_final = copy_str(separator);
        let colored = replace_color_placeholders(value.as_str());
        append_str(&mut format_final, colored.as_str());
        (title_final, format_final)
    }
}

/// The number of cached packages that `manager` holds.
fn count_from(package_managers: &package_managers::ManagerInfo, manager: u8) -> (r: u64)
    ensures
        r == entries_from(package_managers.entries(), manager).len(),
{
    let found = package_managers.find_all_packages_from(manager);
    assert(found@.map_values(|p: package_managers::PackageInfo| p.entry()).len() == found@.len());
    found.len() as u64
}

/// The managers shown by the packages entry, from the package cache, the Flatpak counts of the
/// system and user installations, and the RPM count, where they could be read.
pub open spec fn packages_managers(
    entries: Seq<package_managers::PackageEntry>,
    flatpak: (Option<u64>, Option<u64>),
    rpm: Option<u64>,
) -> Seq<(Seq<char>, u64)> {
    let base = seq![
        ("pacman"@, entries_from(entries, MANAGER_PACMAN).len() as u64),
        ("dpkg"@, entries_from(entries, MANAGER_DPKG).len() as u64),
        ("xbps"@, entries_from(entries, MANAGER_XBPS).len() as u64),
        ("brew"@, entries_from(entries, MANAGER_HOMEBREW).len() as u64),
    ];
    let with_flatpak = match flatpak {
        (Some(s), Some(u)) => base + seq![("flatpak-system"@, s), ("flatpak-user"@, u)],
        _ => base,
    };
    match rpm {
        Some(r) => with_flatpak.push(("rpm"@, r)),
        None => with_flatpak,
    }
}

/// The package counts: pacman, dpkg, xbps and Homebrew from the cache, then the Flatpak system
/// and user counts when both could be read, then the RPM count when it could be read.
pub fn get_packages(
    package_managers: &package_managers::ManagerInfo,
    flatpak: (Option<u64>, Option<u64>),
    rpm: Option<u64>,
) -> (r: PackagesInfo)
    ensures
        r.managers() == packages_managers(package_managers.entries(), flatpak, rpm),
{
    let ghost es = package_managers.entries();
    let mut list: Vec<ManagerInfo> = Vec::new();
    list.push(ManagerInfo::fill("pacman", count_from(package_managers, MANAGER_PACMAN)));
    list.push(ManagerInfo::fill("dpkg", count_from(package_managers, MANAGER_DPKG)));
    list.push(ManagerInfo::fill("xbps", count_from(package_managers, MANAGER_XBPS)));
    list.push(ManagerInfo::fill("brew", count_from(package_managers, MANAGER_HOMEBREW)));
    let ghost base = seq![
        ("pacman"@, entries_from(es, MANAGER_PACMAN).len() as u64),
        ("dpkg"@, entries_from(es, MANAGER_DPKG).len() as u64),
        ("xbps"@, entries_from(es, MANAGER_XBPS).len() as u64),
        ("brew"@, entries_from(es, MANAGER_HOMEBREW).len() as u64),
    ];
    assert(list@.map_values(|m: ManagerInfo| (m.manager_name@, m.package_count)) =~= base);
    let ghost mut expected = base;
    match flatpak {
        (Some(s), Some(u)) => {
            list.push(ManagerInfo::fill("flatpak-system", s));
            list.push(ManagerInfo::fill("flatpak-user", u));
            proof {
                expected = base + seq![("flatpak-system"@, s), ("flatpak-user"@, u)];
            }
        },
        _ => {},
    }
    assert(list@.map_values(|m: ManagerInfo| (m.manager_name@, m.package_count)) =~= expected);
    match rpm {
        Some(r) => {
            list.push(ManagerInfo::fill("rpm", r));
            proof {
                expected = expected.push(("rpm"@, r));
            }
        },
        None => {},
    }
    assert(list@.map_values(|m: ManagerInfo| (m.manager_name@, m.package_count)) =~= expected);
    PackagesInfo { packages: list }
}

/// One entry of a Flatpak package directory: its path, and how many entries the directory it
/// names holds (`None` when it could not be read).
pub type FlatpakArch = (String, Option<usize>);

/// A package directory of a Flatpak installation: its path, and its entries (`None` when the
/// directory could not be read).
pub struct FlatpakPackage {
    pub path: String,
    pub arches: Option<Vec<FlatpakArch>>,
}

/// The entries of a package directory as plain values.
pub open spec fn arches_view(a: Seq<FlatpakArch>) -> Seq<(Seq<char>, Option<usize>)> {
    a.map_values(|e: FlatpakArch| (e.0@, e.1))
}

/// The number of installed versions that a package directory's entries hold: the entries of
/// each architecture directory, the `current` link left out; `None` when one of them could
/// not be read.
pub open spec fn kept_versions(a: Seq<(Seq<char>, Option<usize>)>) -> Option<int>
    decreases a.len(),
{
    if a.len() == 0 {
        Some(0)
    } else {
        match kept_versions(a.drop_last()) {
            None => None,
            Some(t) => if seq_contains(lowercase(a.last().0), "current"@) {
                Some(t)
            } else {
                match a.last().1 {
                    None => None,
                    Some(n) => Some(t + n),
                }
            },
        }
    }
}

/// All the counts of a package directory's entries together, whether kept or not.
pub open spec fn all_versions(a: Seq<(Seq<char>, Option<usize>)>) -> int
    decreases a.len(),
{
    if a.len() == 0 {
        0
    } else {
        all_versions(a.drop_last()) + match a.last().1 {
            Some(n) => n as int,
            None => 0,
        }
    }
}

/// What is kept never exceeds what there is.
proof fn lemma_kept_within(a: Seq<(Seq<char>, Option<usize>)>)
    ensures
        kept_versions(a) matches Some(t) ==> 0 <= t <= all_versions(a),
        all_versions(a) >= 0,
    decreases a.len(),
{
    if a.len() > 0 {
        lemma_kept_within(a.drop_last());
    }
}

/// How many versions a Flatpak package directory holds, as `kept_versions` says; the package
/// directory or one of its architecture directories that cannot be read is an error.
pub fn flatpak_count_package_versions(arches: &Option<Vec<FlatpakArch>>) -> (r: Result<usize, String>)
    requires
        arches matches Some(a) ==> all_versions(arches_view(a@)) <= usize::MAX,
    ensures
        match arches {
            None => r matches Err(m) && m@ == "Unable to read flatpak package directory."@,
            Some(a) => match kept_versions(arches_view(a@)) {
                None => r matches Err(m) && m@ == "Unable to read flatpak arch directory."@,
                Some(t) => r == Ok::<usize, String>(t as usize),
            },
        },
{
    let a = match arches {
        None => return Err(copy_str("Unable to read flatpak package directory.")),
        Some(a) => a,
    };
    let ghost av = arches_view(a@);
    let mut count: usize = 0;
    let mut i: usize = 0;
    assert(av.take(0) =~= Seq::<(Seq<char>, Option<usize>)>::empty());
    while i < a.len()
        invariant
            0 <= i <= a.len(),
            av == arches_view(a@),
            *arches == Some(*a),
            all_versions(av) <= usize::MAX,
            kept_versions(av.take(i as int)) == Some(count as int),
        decreases a.len() - i,
    {
        let ghost t1 = av.take(i + 1);
        assert(t1.drop_last() =~= av.take(i as int));
        assert(t1.last() == (a@[i as int].0@, a@[i as int].1));
        proof {
            lemma_kept_within(t1);
            lemma_all_prefix(av, i + 1);
        }
        let lower = to_lowercase(a[i].0.as_str());
        if str_contains(lower.as_str(), "current") {
            i += 1;
            continue;
        }
        match a[i].1 {
            None => {
                proof {
                    assert(av[i as int] == (a@[i as int].0@, a@[i as int].1));
                    assert(!seq_contains(lowercase(t1.last().0), "current"@));
                    assert(t1.last().1 is None);
                    assert(kept_versions(t1) is None);
                    lemma_kept_fails(av, i + 1);
                }
                let m = copy_str("Unable to read flatpak arch directory.");
                assert(m@ == "Unable to read flatpak arch directory."@);
                return Err(m);
            },
            Some(n) => {
                count = count + n;
            },
        }
        i += 1;
    }
    assert(av.take(a.len() as int) =~= av);
    Ok(count)
}

/// A prefix never counts more than the whole.
proof fn lemma_all_prefix(a: Seq<(Seq<char>, Option<usize>)>, k: int)
    requires
        0 <= k <= a.len(),
    ensures
        all_versions(a.take(k)) <= all_versions(a),
    decreases a.len() - k,
{
    if k < a.len() {
        lemma_all_prefix(a, k + 1);
        assert(a.take(k + 1).drop_last() =~= a.take(k));
        lemma_all_nonneg(a.take(k + 1).last());
    } else {
        assert(a.take(k) =~= a);
    }
}

/// Once a prefix of a package directory fails, the whole directory fails.
proof fn lemma_kept_fails(a: Seq<(Seq<char>, Option<usize>)>, k: int)
    requires
        0 <= k <= a.len(),
        kept_versions(a.take(k)) is None,
    ensures
        kept_versions(a) is None,
    decreases a.len() - k,
{
    if k < a.len() {
        assert(a.take(k + 1).drop_last() =~= a.take(k));
        lemma_kept_fails(a, k + 1);
    } else {
        assert(a.take(k) =~= a);
    }
}

/// Once a prefix of the package directories fails, all of them fail.
proof fn lemma_packages_fail(ps: Seq<FlatpakPackage>, k: int)
    requires
        0 <= k <= ps.len(),
        packages_versions(ps.take(k)) is None,
    ensures
        packages_versions(ps) is None,
    decreases ps.len() - k,
{
    if k < ps.len() {
        assert(ps.take(k + 1).drop_last() =~= ps.take(k));
        lemma_packages_fail(ps, k + 1);
    } else {
        assert(ps.take(k) =~= ps);
    }
}

/// A count is never negative.
proof fn lemma_all_nonneg(e: (Seq<char>, Option<usize>))
    ensures
        (match e.1 { Some(n) => n as int, None => 0int }) >= 0,
{
}

/// The versions that the package directories of one part (apps or runtimes) of a Flatpak
/// installation hold, the `locale` packages left out; `None` when one of them fails.
pub open spec fn packages_versions(ps: Seq<FlatpakPackage>) -> Option<int>
    decreases ps.len(),
{
    if ps.len() == 0 {
        Some(0)
    } else {
        match packages_versions(ps.drop_last()) {
            None => None,
            Some(t) => if seq_contains(lowercase(ps.last().path@), "locale"@) {
                Some(t)
            } else {
                match ps.last().arches {
                    None => None,
                    Some(a) => match kept_versions(arches_view(a@)) {
                        None => None,
                        Some(n) => Some(t + n),
                    },
                }
            },
        }
    }
}

/// Everything that the package directories count, kept or not.
pub open spec fn packages_all(ps: Seq<FlatpakPackage>) -> int
    decreases ps.len(),
{
    if ps.len() == 0 {
        0
    } else {
        packages_all(ps.drop_last()) + match ps.last().arches {
            Some(a) => all_versions(arches_view(a@)),
            None => 0,
        }
    }
}

/// Counts the versions in one part of a Flatpak installation; `what` names the part in the
/// error.
fn count_part(ps: &Vec<FlatpakPackage>, err: &str) -> (r: Result<usize, String>)
    requires
        packages_all(ps@) <= usize::MAX,
    ensures
        match packages_versions(ps@) {
            None => r matches Err(m) && m@ == err@,
            Some(t) => r == Ok::<usize, String>(t as usize),
        },
{
    let mut result: usize = 0;
    let mut i: usize = 0;
    assert(ps@.take(0) =~= Seq::<FlatpakPackage>::empty());
    while i < ps.len()
        invariant
            0 <= i <= ps.len(),
            packages_all(ps@) <= usize::MAX,
            packages_versions(ps@.take(i as int)) == Some(result as int),
            result <= packages_all(ps@.take(i as int)),
        decreases ps.len() - i,
    {
        let ghost t1 = ps@.take(i + 1);
        assert(t1.drop_last() =~= ps@.take(i as int));
        assert(t1.last() == ps@[i as int]);
        proof {
            lemma_packages_prefix(ps@, i + 1);
            match ps@[i as int].arches {
                Some(a) => { lemma_kept_within(arches_view(a@)); },
                None => {},
            }
        }
        let lower = to_lowercase(ps[i].path.as_str());
        if str_contains(lower.as_str(), "locale") {
            proof { lemma_packages_nonneg_step(ps@, i as int); }
            i += 1;
            continue;
        }
        match flatpak_count_package_versions(&ps[i].arches) {
            Err(_) => {
                proof { lemma_packages_fail(ps@, i + 1); }
                return Err(copy_str(err));
            },
            Ok(n) => {
                result = result + n;
            },
        }
        i += 1;
    }
    assert(ps@.take(ps.len() as int) =~= ps@);
    Ok(result)
}

/// A prefix of the package directories never counts more than all of them.
proof fn lemma_packages_prefix(ps: Seq<FlatpakPackage>, k: int)
    requires
        0 <= k <= ps.len(),
    ensures
        packages_all(ps.take(k)) <= packages_all(ps),
    decreases ps.len() - k,
{
    if k < ps.len() {
        lemma_packages_prefix(ps, k + 1);
        assert(ps.take(k + 1).drop_last() =~= ps.take(k));
        match ps.take(k + 1).last().arches {
            Some(a) => { lemma_kept_within(arches_view(a@)); },
            None => {},
        }
    } else {
        assert(ps.take(k) =~= ps);
    }
}

/// One more package directory never lowers the count of everything.
proof fn lemma_packages_nonneg_step(ps: Seq<FlatpakPackage>, i: int)
    requires
        0 <= i < ps.len(),
    ensures
        packages_all(ps.take(i)) <= packages_all(ps.take(i + 1)),
{
    assert(ps.take(i + 1).drop_last() =~= ps.take(i));
    match ps.take(i + 1).last().arches {
        Some(a) => { lemma_kept_within(arches_view(a@)); },
        None => {},
    }
}

/// How many packages a Flatpak installation holds: the versions of its apps, then of its
/// runtimes (each given as its package directories, `None` when the folder could not be read),
/// `locale` packages and `current` links left out.
pub fn search_flatpak_base(apps: &Option<Vec<FlatpakPackage>>, runtimes: &Option<Vec<FlatpakPackage>>) -> (r: Result<usize, String>)
    requires
        apps matches Some(a) ==> packages_all(a@) <= usize::MAX,
        runtimes matches Some(rt) ==> packages_all(rt@) <= usize::MAX,
        apps matches Some(a) && runtimes matches Some(rt) ==> packages_all(a@) + packages_all(rt@) <= usize::MAX,
    ensures
        match apps {
            None => r matches Err(m) && m@ == "Unable to read from flatpak app folder"@,
            Some(a) => match packages_versions(a@) {
                None => r matches Err(m) && m@ == "Unable to count flatpak app packages"@,
                Some(x) => match runtimes {
                    None => r matches Err(m) && m@ == "Unable to read from flatpak runtime folder"@,
                    Some(rt) => match packages_versions(rt@) {
                        None => r matches Err(m) && m@ == "Unable to count flatpak runtime packages"@,
                        Some(y) => r == Ok::<usize, String>((x + y) as usize),
                    },
                },
            },
        },
{
    let a = match apps {
        None => return Err(copy_str("Unable to read from flatpak app folder")),
        Some(a) => a,
    };
    let x = match count_part(a, "Unable to count flatpak app packages") {
        Err(e) => return Err(e),
        Ok(x) => x,
    };
    let rt = match runtimes {
        None => return Err(copy_str("Unable to read from flatpak runtime folder")),
        Some(rt) => rt,
    };
    let y = match count_part(rt, "Unable to count flatpak runtime packages") {
        Err(e) => return Err(e),
        Ok(y) => y,
    };
    proof {
        lemma_packages_bound(a@);
        lemma_packages_bound(rt@);
    }
    Ok(x + y)
}

/// What the package directories keep never exceeds everything they count.
proof fn lemma_packages_bound(ps: Seq<FlatpakPackage>)
    ensures
        packages_versions(ps) matches Some(t) ==> 0 <= t <= packages_all(ps),
    decreases ps.len(),
{
    if ps.len() > 0 {
        lemma_packages_bound(ps.drop_last());
        match ps.last().arches {
            Some(a) => { lemma_kept_within(arches_view(a@)); },
            None => {},
        }
    }
}

/// The Flatpak counts go to the installation they were read from: the manager named
/// `flatpak-system` shows the system installation's count (the first of the pair) and the one
/// named `flatpak-user` the user installation's (the second); both are shown exactly when both
/// counts could be read. The cached managers show how many cached packages each holds.
pub proof fn lemma_packages_counts(
    entries: Seq<package_managers::PackageEntry>,
    flatpak: (Option<u64>, Option<u64>),
    rpm: Option<u64>,
)
    ensures
        ({
            let m = packages_managers(entries, flatpak, rpm);
            &&& forall|i: int| 0 <= i < m.len() && m[i].0 == "flatpak-system"@ ==> flatpak.0 == Some(m[i].1)
            &&& forall|i: int| 0 <= i < m.len() && m[i].0 == "flatpak-user"@ ==> flatpak.1 == Some(m[i].1)
            &&& (flatpak.0 is Some && flatpak.1 is Some) <==> (exists|i: int| 0 <= i < m.len() && m[i].0 == "flatpak-system"@)
            &&& (flatpak.0 is Some && flatpak.1 is Some) <==> (exists|i: int| 0 <= i < m.len() && m[i].0 == "flatpak-user"@)
            &&& forall|i: int| 0 <= i < m.len() && m[i].0 == "dpkg"@ ==> m[i].1 == entries_from(entries, MANAGER_DPKG).len() as u64
            &&& forall|i: int| 0 <= i < m.len() && m[i].0 == "pacman"@ ==> m[i].1 == entries_from(entries, MANAGER_PACMAN).len() as u64
            &&& forall|i: int| 0 <= i < m.len() && m[i].0 == "xbps"@ ==> m[i].1 == entries_from(entries, MANAGER_XBPS).len() as u64
            &&& forall|i: int| 0 <= i < m.len() && m[i].0 == "brew"@ ==> m[i].1 == entries_from(entries, MANAGER_HOMEBREW).len() as u64
            &&& forall|i: int| 0 <= i < m.len() && m[i].0 == "rpm"@ ==> rpm == Some(m[i].1)
        }),
{
    reveal_strlit("pacman");
    reveal_strlit("dpkg");
    reveal_strlit("xbps");
    reveal_strlit("brew");
    reveal_strlit("flatpak-system");
    reveal_strlit("flatpak-user");
    reveal_strlit("rpm");
    let m = packages_managers(entries, flatpak, rpm);
    assert("pacman"@[0] == 'p' && "dpkg"@[0] == 'd' && "xbps"@[0] == 'x' && "brew"@[0] == 'b');
    assert("rpm"@[0] == 'r' && "flatpak-system"@[0] == 'f' && "flatpak-user"@[0] == 'f');
    assert("flatpak-system"@[8] == 's' && "flatpak-user"@[8] == 'u');
    if flatpak.0 is Some && flatpak.1 is Some {
        assert(m[4].0 == "flatpak-system"@);
        assert(m[5].0 == "flatpak-user"@);
    }
}

} // verus!
