use crabfetch::fetch::{gap_fill_of, module_action, ModuleAction};
use crabfetch::modules::gpu::{gpu_cache_text, parse_gpu_cache, GPUInfo, GPUMethod};
use crabfetch::modules::player::player_shown;
use crabfetch::package_managers::{xbps_lines_readable, ManagerInfo, MANAGER_DPKG, MANAGER_PACMAN, MANAGER_XBPS};
use crabfetch::text::contains_str;

fn lines(v: &[&str]) -> Vec<String> {
    v.iter().map(|s| s.to_string()).collect()
}

#[test]
fn gap_fill_found() {
    assert_eq!(gap_fill_of("[==={name_sized_gap:-}===]"), Some('-'));
    assert_eq!(gap_fill_of("{name_sized_gap:=}{name_sized_gap:-}"), Some('='));
}

#[test]
fn gap_fill_missing() {
    assert_eq!(gap_fill_of("[======]"), None);
    assert_eq!(gap_fill_of("ends with {name_sized_gap:"), None);
}

#[test]
fn xbps_database_readable() {
    let db = lines(&[
        "<?xml version=\"1.0\"?>",
        "<plist version=\"1.0\">",
        "<dict>",
        "\t<key>bash</key>",
        "\t<dict>",
        "\t\t<key>pkgver</key>",
        "\t\t<string>bash-5.2.21_1</string>",
        "\t</dict>",
        "</dict>",
        "</plist>",
    ]);
    assert!(xbps_lines_readable(&db));
    let mut m = ManagerInfo::new();
    m.process_xbps_packages(Some(db));
    assert_eq!(m.available_managers, MANAGER_XBPS);
}

#[test]
fn xbps_database_short_version_unreadable() {
    let db = lines(&[
        "<dict>",
        "\t<key>bash</key>",
        "\t<dict>",
        "\t\t<key>pkgver</key>",
        "\t\t<s>x</s>",
        "\t</dict>",
        "</dict>",
    ]);
    assert!(!xbps_lines_readable(&db));
}

#[test]
fn xbps_database_closing_too_often_unreadable() {
    assert!(!xbps_lines_readable(&lines(&["</dict>"])));
    assert!(xbps_lines_readable(&lines(&[])));
}

#[test]
fn players_ignored_by_short_name() {
    let ignore = lines(&["firefox"]);
    assert!(!player_shown(&ignore, "org.mpris.MediaPlayer2.firefox"));
    assert!(player_shown(&ignore, "org.mpris.MediaPlayer2.spotify"));
    assert!(player_shown(&Vec::new(), "org.mpris.MediaPlayer2.firefox"));
}

#[test]
fn strings_contained() {
    let v = lines(&["a", "bc"]);
    assert!(contains_str(&v, "bc"));
    assert!(!contains_str(&v, "b"));
    assert!(!contains_str(&Vec::new(), ""));
}

#[test]
fn gpu_cache_reads_back_what_was_written() {
    let gpus = vec![
        GPUInfo { vendor: "AMD".to_string(), model: "Radeon RX 7800 XT".to_string(), vram_mb: 16384 },
        GPUInfo { vendor: "Intel".to_string(), model: "UHD 630".to_string(), vram_mb: 0 },
    ];
    let text = gpu_cache_text(GPUMethod::PCISysFile, &gpus);
    assert_eq!(text, "pcisysfile\nAMD\nRadeon RX 7800 XT\n16384\n\npcisysfile\nIntel\nUHD 630\n0\n\n");
    let back = parse_gpu_cache(&text, GPUMethod::PCISysFile);
    assert_eq!(back.len(), 2);
    for (a, b) in back.iter().zip(gpus.iter()) {
        assert_eq!(a.vendor, b.vendor);
        assert_eq!(a.model, b.model);
        assert_eq!(a.vram_mb, b.vram_mb);
    }
}

#[test]
fn module_entries_read() {
    assert!(matches!(module_action("space"), Some(ModuleAction::Space)));
    assert!(matches!(module_action("underline:16"), Some(ModuleAction::Underline(n)) if n == "16"));
    assert!(matches!(module_action("underline:+3:x"), Some(ModuleAction::Underline(n)) if n == "+3"));
    assert!(module_action("underline").is_none());
    assert!(module_action("underline:abc").is_none());
    assert!(module_action("underline:-1").is_none());
    assert!(matches!(module_action("segment:System"), Some(ModuleAction::SegmentStart(n)) if n == "System"));
    assert!(module_action("segment").is_none());
    assert!(matches!(module_action("end_segment"), Some(ModuleAction::SegmentEnd)));
    assert!(matches!(module_action("cpu"), Some(ModuleAction::Entry(n)) if n == "cpu"));
    assert!(matches!(module_action("cpu:extra"), Some(ModuleAction::Entry(n)) if n == "cpu"));
    assert!(matches!(module_action(""), Some(ModuleAction::Entry(n)) if n.is_empty()));
}

#[test]
fn process_name_read_on_the_first_call_and_kept() {
    use_process_name();
}

fn use_process_name() {
    let mut p = crabfetch::process_info::ProcessInfo::new(42);
    let r = p.get_process_name(Ok("/usr/bin/zsh".to_string()), Err("unread".to_string()));
    assert_eq!(r, Ok("zsh".to_string()));
    let again = p.get_process_name(Err("gone".to_string()), Err("gone".to_string()));
    assert_eq!(again, Ok("zsh".to_string()));

    let mut py = crabfetch::process_info::ProcessInfo::new(7);
    let r = py.get_process_name(Ok("/usr/bin/python3".to_string()), Ok("python3\0/home/u/bin/tool\0".to_string()));
    assert_eq!(r, Ok("tool".to_string()));

    let mut bad = crabfetch::process_info::ProcessInfo::new(9);
    let r = bad.get_process_name(Err("No such file".to_string()), Err("x".to_string()));
    assert_eq!(r, Err("Unable to get exe path: Unable to canonicalize /exe, is this process still valid? (No such file)".to_string()));
}

#[test]
fn configuration_error_forms() {
    let e = crabfetch::config::ConfigurationError::new(Some("a.toml".to_string()), "bad".to_string());
    assert_eq!(e.to_debug_string(), "a.toml failed to parse: bad");
    let u = crabfetch::config::ConfigurationError::new(None, "bad".to_string());
    assert_eq!(u.to_display_string(), "Failed to parse from file 'Unknown': bad");
}

#[test]
fn probed_packages_credited_only_to_managers_read() {
    let mut m = ManagerInfo::new();
    let dpkg = lines(&["Package: bash", "Version: 5.2-1", ""]);
    m.probe_and_cache(Some(lines(&["bash-5.2.21-1"])), Some(dpkg), None, Vec::new());
    assert_eq!(m.available_managers, MANAGER_PACMAN | MANAGER_DPKG);
    assert_eq!(m.packages.len(), 1);
    assert_eq!(m.packages[0].name, "bash");
    assert_eq!(m.packages[0].manager, MANAGER_PACMAN | MANAGER_DPKG);
    for p in &m.packages {
        assert!(p.manager != 0 && p.manager & !m.available_managers == 0);
    }
}
