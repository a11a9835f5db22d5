use crabfetch::modules::packages::{flatpak_count_package_versions, search_flatpak_base, FlatpakPackage};

fn pkg(path: &str, arches: Option<Vec<(&str, Option<usize>)>>) -> FlatpakPackage {
    FlatpakPackage {
        path: path.to_string(),
        arches: arches.map(|a| a.into_iter().map(|(p, n)| (p.to_string(), n)).collect()),
    }
}

#[test]
fn versions_leave_out_current() {
    let a = Some(vec![("/x/app/org.a/x86_64".to_string(), Some(2)), ("/x/app/org.a/Current".to_string(), Some(5))]);
    assert_eq!(flatpak_count_package_versions(&a).ok(), Some(2));
    assert_eq!(flatpak_count_package_versions(&None).err().unwrap(), "Unable to read flatpak package directory.");
    let b = Some(vec![("/x/app/org.a/x86_64".to_string(), None)]);
    assert_eq!(flatpak_count_package_versions(&b).err().unwrap(), "Unable to read flatpak arch directory.");
}

#[test]
fn installation_counts_apps_and_runtimes() {
    let apps = Some(vec![
        pkg("/var/lib/flatpak/app/org.gimp", Some(vec![("/g/x86_64", Some(1))])),
        pkg("/var/lib/flatpak/app/org.gimp.Locale", None),
    ]);
    let runtimes = Some(vec![pkg("/var/lib/flatpak/runtime/org.gnome", Some(vec![("/r/x86_64", Some(3)), ("/r/current", None)]))]);
    assert_eq!(search_flatpak_base(&apps, &runtimes).ok(), Some(4));
}

#[test]
fn installation_errors() {
    let ok_apps = Some(vec![pkg("/a/app/one", Some(vec![("/a/x86_64", Some(1))]))]);
    assert_eq!(search_flatpak_base(&None, &Some(Vec::new())).err().unwrap(), "Unable to read from flatpak app folder");
    let bad_apps = Some(vec![pkg("/a/app/one", None)]);
    assert_eq!(search_flatpak_base(&bad_apps, &Some(Vec::new())).err().unwrap(), "Unable to count flatpak app packages");
    assert_eq!(search_flatpak_base(&ok_apps, &None).err().unwrap(), "Unable to read from flatpak runtime folder");
    let bad_rt = Some(vec![pkg("/a/runtime/one", Some(vec![("/a/x86_64", None)]))]);
    assert_eq!(search_flatpak_base(&ok_apps, &bad_rt).err().unwrap(), "Unable to count flatpak runtime packages");
}
