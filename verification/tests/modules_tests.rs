use crabfetch::modules::desktop::get_desktop;
use crabfetch::modules::editor::{editor_from_lookup, fancy_name, get_editor};
use crabfetch::modules::gpu::search_pci_ids;
use crabfetch::modules::host::{chassis_type_name, get_host};
use crabfetch::modules::hostname::get_hostname;
use crabfetch::modules::initsys::get_init_system;
use crabfetch::modules::locale::get_locale;
use crabfetch::modules::os::{get_os, OSInfo};
use crabfetch::modules::player::player_short_name;
use crabfetch::modules::processes::get_process_count;
use crabfetch::modules::shell::{default_shell_from_lookup, get_default_shell};
use crabfetch::gtk::read_gtk_property;
use crabfetch::package_managers::{dpkg_version_of, pacman_package, xbps_version_of, ManagerInfo, MANAGER_DPKG, MANAGER_PACMAN, MANAGER_XBPS};
use crabfetch::process_info::ProcessStatus;
use crabfetch::versions::{env_version_of, find_version, parse_command, substitite_package_name};
use crabfetch::modules::battery::BatteryConfiguration;
use crabfetch::modules::cpu::CPUConfiguration;
use crabfetch::modules::datetime::DateTimeConfiguration;
use crabfetch::modules::desktop::DesktopConfiguration;
use crabfetch::modules::displays::DisplayConfiguration;
use crabfetch::modules::editor::EditorConfiguration;
use crabfetch::modules::gpu::GPUConfiguration;
use crabfetch::modules::host::HostConfiguration;
use crabfetch::modules::hostname::HostnameConfiguration;
use crabfetch::modules::icon_theme::IconThemeConfiguration;
use crabfetch::modules::initsys::InitSystemConfiguration;
use crabfetch::modules::locale::LocaleConfiguration;
use crabfetch::modules::localip::LocalIPConfiguration;
use crabfetch::modules::memory::MemoryConfiguration;
use crabfetch::modules::mounts::MountConfiguration;
use crabfetch::modules::os::OSConfiguration;
use crabfetch::modules::packages::PackagesConfiguration;
use crabfetch::modules::player::PlayerConfiguration;
use crabfetch::modules::processes::ProcessesConfiguration;
use crabfetch::modules::shell::ShellConfiguration;
use crabfetch::modules::swap::SwapConfiguration;
use crabfetch::modules::terminal::TerminalConfiguration;
use crabfetch::modules::theme::ThemeConfiguration;
use crabfetch::modules::uptime::UptimeConfiguration;
use crabfetch::modules::gpu::GPUMethod;
use crabfetch::ascii::AsciiConfiguration;
use crabfetch::color::CrabFetchColor;
use crabfetch::config::Configuration;

fn sample_config(modules: &[&str]) -> Configuration {
    Configuration {
        modules: modules.iter().map(|m| m.to_string()).collect(),
        unknown_as_text: false,
        allow_commands: false,
        separator: " > ".to_string(),
        title_color: CrabFetchColor::BrightMagenta,
        title_bold: true,
        title_italic: false,
        decimal_places: 2,
        inline_values: false,
        underline_character: '―',
        color_character: "   ".to_string(),
        color_margin: 0,
        color_use_background: true,
        use_os_color: true,
        segment_top: "{color-white}[======------{color-brightmagenta} {name} {color-white}------======]".to_string(),
        segment_bottom: "{color-white}[======------{color-brightmagenta} {name_sized_gap:-} {color-white}------======]".to_string(),
        progress_left_border: "[".to_string(),
        progress_right_border: "]".to_string(),
        progress_progress: "=".to_string(),
        progress_empty: " ".to_string(),
        progress_target_length: 20,
        percentage_color_thresholds: vec!["75:brightgreen".to_string(), "85:brightyellow".to_string(), "90:brightred".to_string()],
        use_ibis: false,
        suppress_errors: true,
        ascii: AsciiConfiguration { display: true, side: "left".to_string(), colors: Vec::new(), margin: 4 },
        hostname: HostnameConfiguration { title: "".to_string(), title_color: None, title_bold: None, title_italic: None, separator: None, format: "{color-title}{username}{color-white}@{color-title}{hostname}".to_string() },
        cpu: CPUConfiguration { title: "CPU".to_string(), title_color: None, title_bold: None, title_italic: None, separator: None, format: "{name} ({core_count}c {thread_count}t) @ {max_clock_ghz} GHz".to_string(), decimal_places: None, remove_trailing_processor: true },
        gpu: GPUConfiguration { method: GPUMethod::PCISysFile, cache: false, title: "GPU".to_string(), title_color: None, title_bold: None, title_italic: None, seperator: None, use_ibis: None, format: "{vendor} {model} ({vram})".to_string() },
        memory: MemoryConfiguration { title: "Memory".to_string(), title_color: None, title_bold: None, title_italic: None, separator: None, format: "{used} / {max} ({percent})".to_string(), progress_left_border: None, progress_right_border: None, progress_progress: None, progress_empty: None, progress_target_length: None, use_ibis: None, decimal_places: None },
        swap: SwapConfiguration { title: "Swap".to_string(), title_color: None, title_bold: None, title_italic: None, separator: None, progress_left_border: None, progress_right_border: None, progress_progress: None, progress_empty: None, progress_target_length: None, decimal_places: None, use_ibis: None, format: "{used} / {total} ({percent})".to_string() },
        mounts: MountConfiguration { title: "Disk ({mount})".to_string(), title_color: None, title_bold: None, title_italic: None, separator: None, format: "{space_used} used of {space_total} ({percent}) [{filesystem}]".to_string(), progress_left_border: None, progress_right_border: None, progress_progress: None, progress_empty: None, progress_target_length: None, decimal_places: None, use_ibis: None, ignore: Vec::new() },
        host: HostConfiguration { title: "Host".to_string(), format: "{host} ({chassis})".to_string(), title_color: None, title_bold: None, title_italic: None, separator: None, newline_chassis: false, chassis_title: "Chassis".to_string(), chassis_format: "{chassis}".to_string() },
        displays: DisplayConfiguration { title: "Display ({make} {model})".to_string(), title_color: None, title_bold: None, title_italic: None, separator: None, format: "{width}x{height} @ {refresh_rate}Hz ({name})".to_string(), scale_size: false },
        os: OSConfiguration { title: "Operating System".to_string(), title_color: None, title_bold: None, title_italic: None, separator: None, format: "{distro} ({kernel})".to_string(), newline_kernel: false, kernel_title: "Kernel".to_string(), kernel_format: "Linux {kernel}".to_string() },
        packages: PackagesConfiguration { title: "Packages".to_string(), title_color: None, title_bold: None, title_italic: None, separator: None, ignore: Vec::new(), format: "{count} ({manager})".to_string() },
        desktop: DesktopConfiguration { title: "Desktop".to_string(), title_color: None, title_bold: None, title_italic: None, separator: None, format: "{desktop} ({display_type})".to_string() },
        terminal: TerminalConfiguration { title: "Terminal".to_string(), format: "{name} {version}".to_string(), title_color: None, title_bold: None, title_italic: None, separator: None, chase_ssh_pts: false },
        shell: ShellConfiguration { title: "Shell".to_string(), title_color: None, title_bold: None, title_italic: None, separator: None, format: "{name} {version}".to_string(), show_default_shell: false },
        uptime: UptimeConfiguration { title: "Uptime".to_string(), title_color: None, title_bold: None, title_italic: None, separator: None, format: None },
        battery: BatteryConfiguration { title: "Battery {index}".to_string(), title_color: None, title_bold: None, title_italic: None, separator: None, format: "{percentage}%".to_string(), progress_left_border: None, progress_right_border: None, progress_progress: None, progress_empty: None, progress_target_length: None, decimal_places: None },
        locale: LocaleConfiguration { title: "Locale".to_string(), title_color: None, title_bold: None, title_italic: None, separator: None, format: "{language} ({encoding})".to_string() },
        player: PlayerConfiguration { title: "Player ({player})".to_string(), title_color: None, title_bold: None, title_italic: None, separator: None, ignore: Vec::new(), format: "{track} by {track_artists} ({album}) [{status}]".to_string() },
        editor: EditorConfiguration { title: "Editor".to_string(), title_color: None, title_bold: None, title_italic: None, separator: None, format: "{name} {version}".to_string(), fancy: true },
        initsys: InitSystemConfiguration { title: "Init System".to_string(), format: "{name} {version}".to_string(), title_color: None, title_bold: None, title_italic: None, separator: None },
        processes: ProcessesConfiguration { title: "Total Processes".to_string(), title_color: None, title_bold: None, title_italic: None, separator: None, format: None },
        datetime: DateTimeConfiguration { title: "Date/Time".to_string(), title_color: None, title_bold: None, title_italic: None, separator: None, format: "%H:%M:%S on %e %B %G".to_string() },
        localip: LocalIPConfiguration { title: "Local IP ({interface})".to_string(), title_color: None, title_bold: None, title_italic: None, separator: None, format: "{addr}".to_string() },
        theme: ThemeConfiguration { title: "Theme".to_string(), title_color: None, title_bold: None, title_italic: None, separator: None, format: None },
        icontheme: IconThemeConfiguration { title: "Icons".to_string(), title_color: None, title_bold: None, title_italic: None, separator: None, format: None },
    }
}

const OS_RELEASE: &str = "NAME=\"Arch Linux\"\nPRETTY_NAME=\"Arch Linux\"\nID=arch\nBUILD_ID=rolling\n";

#[test]
fn os_from_os_release_and_kernel() {
    let config = sample_config(&["os"]);
    let os = get_os(&config, Ok(OS_RELEASE.to_string()), "6.9.1-arch1-1".to_string()).ok().unwrap();
    assert_eq!(os.distro, "Arch Linux");
    assert_eq!(os.distro_id, "arch");
    assert_eq!(os.kernel, "6.9.1-arch1-1");
    assert_eq!(os.replace_placeholders("{distro} ({kernel})", &config), "Arch Linux (6.9.1-arch1-1)");
}

#[test]
fn os_release_unreadable_is_an_error() {
    let config = sample_config(&["os"]);
    let e = get_os(&config, Err("No such file or directory (os error 2)".to_string()), String::new()).err().unwrap();
    assert_eq!(e.to_display_string(), "Module OS failed: Can't read from /etc/os-release - No such file or directory (os error 2)");
}

#[test]
fn os_kernel_only_needs_no_os_release() {
    let mut config = sample_config(&["os"]);
    config.os.format = "{kernel}".to_string();
    config.ascii.display = false;
    let os = get_os(&config, Err("gone".to_string()), "6.1".to_string()).ok().unwrap();
    assert_eq!(os.distro, "Unknown");
    assert_eq!(os.kernel, "6.1");
    let unknown = OSInfo::new();
    assert_eq!(unknown.kernel, "Unknown");
}

#[test]
fn host_name_and_chassis() {
    let config = sample_config(&["host"]);
    let host = get_host(&config, false,
        Some(("/sys/devices/virtual/dmi/id/product_name".to_string(), Ok("ThinkPad X1\n".to_string()))),
        Some(Ok("10\n".to_string()))).ok().unwrap();
    assert_eq!(host.host, "ThinkPad X1");
    assert_eq!(host.chassis, "Notebook");
    let wsl = get_host(&config, true, None, None).ok().unwrap();
    assert_eq!(wsl.host, "Windows Subsystem for Linux");
    assert_eq!(wsl.chassis, "N/A");
}

#[test]
fn host_errors() {
    let config = sample_config(&["host"]);
    let e = get_host(&config, false, None, None).err().unwrap();
    assert_eq!(e.message, "Can't find an appropriate path for host.");
    let e = get_host(&config, false, Some(("/p".to_string(), Err("denied".to_string()))), None).err().unwrap();
    assert_eq!(e.message, "Can't read from /p - denied");
    let e = get_host(&config, false, Some(("/p".to_string(), Ok("Box".to_string()))), Some(Err("gone".to_string()))).err().unwrap();
    assert_eq!(e.message, "Can't read from /sys/devices/virtual/dmi/id/chassis_type - gone");
}

#[test]
fn chassis_codes() {
    assert_eq!(chassis_type_name("3"), "Desktop");
    assert_eq!(chassis_type_name("10"), "Notebook");
    assert_eq!(chassis_type_name("99"), "Unknown");
}

#[test]
fn hostname_prefers_the_user_variable() {
    let config = sample_config(&["hostname"]);
    let h = get_hostname(&config, Some("alice".to_string()), "root".to_string(), "box".to_string()).ok().unwrap();
    assert_eq!((h.username.as_str(), h.hostname.as_str()), ("alice", "box"));
    let h = get_hostname(&config, None, "root".to_string(), "box".to_string()).ok().unwrap();
    assert_eq!(h.username, "root");
}

#[test]
fn desktop_from_environment() {
    let config = sample_config(&["desktop"]);
    let d = get_desktop(&config, false, Some("KDE".to_string()), Err("unset".to_string()), true, false, None).ok().unwrap();
    assert_eq!((d.desktop.as_str(), d.display_type.as_str()), ("KDE", "wayland"));
    let d = get_desktop(&config, false, None, Ok("xfce".to_string()), false, true, None).ok().unwrap();
    assert_eq!((d.desktop.as_str(), d.display_type.as_str()), ("xfce", "x11"));
    let d = get_desktop(&config, true, None, Err("unset".to_string()), false, false, None).ok().unwrap();
    assert_eq!((d.desktop.as_str(), d.display_type.as_str()), ("WSLG", "Wayland"));
    let e = get_desktop(&config, false, None, Err("unset".to_string()), false, false, None).err().unwrap();
    assert_eq!(e.message, "Could not parse $XDG_CURRENT_DESKTOP or $DESKTOP_SESSION env variable: unset");
    let e = get_desktop(&config, false, Some("sway".to_string()), Err("unset".to_string()), false, false, None).err().unwrap();
    assert_eq!(e.message, "Could not identify desktop session type.");
}

#[test]
fn locale_language_and_encoding() {
    let l = get_locale(Ok("en_GB.UTF-8".to_string())).ok().unwrap();
    assert_eq!((l.language.as_str(), l.encoding.as_str()), ("en_GB", "UTF-8"));
    let l = get_locale(Ok("C".to_string())).ok().unwrap();
    assert_eq!((l.language.as_str(), l.encoding.as_str()), ("C", "Unknown"));
    let e = get_locale(Err("environment variable not found".to_string())).err().unwrap();
    assert_eq!(e.message, "Could not parse $LANG env variable: environment variable not found");
}

#[test]
fn editor_lookup() {
    let config = sample_config(&["editor"]);
    let ed = editor_from_lookup(&config, Some("nvim".to_string()), Err("unset".to_string()), Ok("/usr/bin/nvim".to_string())).ok().unwrap();
    assert_eq!((ed.name.as_str(), ed.path.as_str()), ("nvim", "/usr/bin/nvim"));
    let e = editor_from_lookup(&config, None, Err("unset".to_string()), Ok(String::new())).err().unwrap();
    assert_eq!(e.message, "Could not parse $EDITOR or $VISUAL variable: unset");
    let e = editor_from_lookup(&config, None, Ok("ed".to_string()), Err("not found".to_string())).err().unwrap();
    assert_eq!(e.message, "Could not find 'which' for ed: not found");
    assert_eq!(fancy_name("nvim"), "NeoVim");
    assert_eq!(fancy_name("nano"), "GNU Nano");
    assert_eq!(fancy_name("kak"), "kak");
}

#[test]
fn default_shell_lookup() {
    let config = sample_config(&["shell"]);
    let s = default_shell_from_lookup(&config, Ok("/bin/zsh".to_string()), Ok("/usr/bin/zsh".to_string())).ok().unwrap();
    assert_eq!((s.name.as_str(), s.path.as_str()), ("zsh", "/usr/bin/zsh"));
    let e = default_shell_from_lookup(&config, Err("unset".to_string()), Err(String::new())).err().unwrap();
    assert_eq!(e.message, "Could not parse $SHELL env variable: unset");
}

#[test]
fn init_system_from_process_one() {
    let config = sample_config(&["initsys"]);
    let i = get_init_system(&config, Ok("/sbin/init\0splash\0".to_string()), Ok("/usr/lib/systemd/systemd".to_string())).ok().unwrap();
    assert_eq!((i.name.as_str(), i.path.as_str()), ("systemd", "/usr/lib/systemd/systemd"));
    let e = get_init_system(&config, Ok("/sbin/init\0".to_string()), Err("gone".to_string())).err().unwrap();
    assert_eq!(e.message, "Failed to canonicalize /sbin/init symlink: gone");
}

#[test]
fn process_count_counts_numeric_entries() {
    let names: Vec<String> = vec!["1", "42", "self", "acpi", "1337"].into_iter().map(|s| s.to_string()).collect();
    assert_eq!(get_process_count(Ok(names)).ok().unwrap().count, 3);
    let e = get_process_count(Err("denied".to_string())).err().unwrap();
    assert_eq!(e.message, "Failed to read /proc: denied");
}

#[test]
fn player_names() {
    assert_eq!(player_short_name("org.mpris.MediaPlayer2.spotify"), "spotify");
}

#[test]
fn pci_ids_lookup() {
    let lines: Vec<String> = vec![
        "# comment",
        "10de  NVIDIA Corporation",
        "\t2484  GA104 [GeForce RTX 3070]",
        "\t2486  GA104 [GeForce RTX 3060 Ti]",
        "1002  Advanced Micro Devices, Inc. [AMD/ATI]",
    ].into_iter().map(|s| s.to_string()).collect();
    let ids = Some(("/usr/share/hwdata/pci.ids".to_string(), Ok(lines)));
    let (v, d) = search_pci_ids("10de", "2486", &ids).ok().unwrap();
    assert_eq!(v, "NVIDIA Corporation");
    assert_eq!(d, "GA104 [GeForce RTX 3060 Ti]");
    let (_, d) = search_pci_ids("10de", "9999", &ids).ok().unwrap();
    assert_eq!(d, "9999");
    let e = search_pci_ids("10de", "2486", &None).err().unwrap();
    assert_eq!(e.message, "Could not find an appropriate path for getting PCI ID info.");
}

#[test]
fn gtk_setting_values() {
    let lines = Some(vec!["[Settings]".to_string(), "gtk-theme-name=Adwaita-dark".to_string()]);
    assert_eq!(read_gtk_property("gtk-theme-name", &lines), Some("Adwaita-dark".to_string()));
    assert_eq!(read_gtk_property("gtk-icon-theme-name", &lines), None);
    assert_eq!(read_gtk_property("gtk-theme-name", &None), None);
}

#[test]
fn stat_file_fields() {
    let s = ProcessStatus::from_stat_file("1234 (my shell) S 1000 1234 1234 0".to_string());
    assert_eq!(s.pid, 1234);
    assert_eq!(s.comm, "(my shell)");
    assert_eq!(s.ppid, 1000);
}

#[test]
fn package_versions() {
    assert_eq!(dpkg_version_of("1:2.3.4-1ubuntu1"), "2.3.4");
    assert_eq!(xbps_version_of("bash-5.2.21_1"), "5.2.21");
    let p = pacman_package("linux-firmware-git-20240101-1");
    assert_eq!((p.name.as_str(), p.version.as_str(), p.manager), ("linux-firmware", "20240101", MANAGER_PACMAN));
}

#[test]
fn dpkg_status_database() {
    let mut m = ManagerInfo::new();
    let lines: Vec<String> = vec![
        "Package: bash", "Status: install ok installed", "Version: 5.2.15-2", "",
        "Package: zsh", "Version: 5.9-4", "",
    ].into_iter().map(|s| s.to_string()).collect();
    m.process_dpkg_packages(Some(lines));
    assert_eq!(m.available_managers, MANAGER_DPKG);
    assert_eq!(m.packages.len(), 2);
    assert_eq!((m.packages[0].name.as_str(), m.packages[0].version.as_str()), ("bash", "5.2.15"));
    let mut none = ManagerInfo::new();
    none.process_dpkg_packages(None);
    assert_eq!(none.available_managers, 0);
}

#[test]
fn xbps_package_database() {
    let mut m = ManagerInfo::new();
    let lines: Vec<String> = vec![
        "<plist version=\"1.0\">", "<dict>", "\t<key>bash</key>", "\t<dict>", "\t\t<key>pkgver</key>",
        "\t\t<string>bash-5.2.21_1</string>", "\t</dict>", "</dict>", "</plist>",
    ].into_iter().map(|s| s.to_string()).collect();
    m.process_xbps_packages(Some(lines));
    assert_eq!(m.available_managers, MANAGER_XBPS);
    assert_eq!(m.packages.len(), 1);
    assert_eq!(m.packages[0].name, "bash");
    assert_eq!(m.packages[0].version, "5.2.21");
    assert_eq!(m.packages[0].manager, MANAGER_XBPS);
}

#[test]
fn xbps_packages_under_their_names() {
    let mut m = ManagerInfo::new();
    let lines: Vec<String> = vec![
        "<dict>", "\t<key>bash</key>", "\t<dict>", "\t\t<key>pkgver</key>",
        "\t\t<string>bash-5.2.21_1</string>", "\t</dict>", "\t<key>xz-utils</key>", "\t<dict>",
        "\t\t<key>pkgver</key>", "\t\t<string>xz-utils-5.4.6_2</string>", "\t</dict>", "</dict>",
    ].into_iter().map(|s| s.to_string()).collect();
    m.process_xbps_packages(Some(lines));
    let got: Vec<(String, String, u8)> = m.packages.iter().map(|p| (p.name.clone(), p.version.clone(), p.manager)).collect();
    assert_eq!(got, vec![
        ("bash".to_string(), "5.2.21".to_string(), MANAGER_XBPS),
        ("xz-utils".to_string(), "5.4.6".to_string(), MANAGER_XBPS),
    ]);
}

#[test]
fn versions_from_environment_and_commands() {
    assert_eq!(env_version_of("konsole", "230804"), "23.08.04");
    assert_eq!(env_version_of("bash", "5.2.21(1)-release"), "5.2.21");
    assert_eq!(env_version_of("xterm", "XTerm(390)"), "390");
    assert_eq!(parse_command("vim", "VIM - Vi IMproved 9.1 (2024 Jan 02)"), Some("9.1".to_string()));
    assert_eq!(parse_command("fish", "fish, version 3.7.0"), Some("3.7.0".to_string()));
    assert_eq!(parse_command("kitty", "kitty 0.35.1 created by Kovid Goyal"), Some("0.35.1".to_string()));
    assert_eq!(parse_command("kitty", "kitty"), None);
    assert_eq!(substitite_package_name("nvim"), "neovim");
}

#[test]
fn version_lookup_order() {
    let mut m = ManagerInfo::new();
    m.add_package_to_cache(crabfetch::package_managers::PackageInfo::new("neovim", "0.10.0", MANAGER_PACMAN));
    assert_eq!(find_version("/usr/bin/nvim", None, &m, None), Some("0.10.0".to_string()));
    assert_eq!(find_version("/opt/nvim/bin/nvim", None, &m, None), None);
    assert_eq!(find_version("/usr/bin/zsh", None, &m, Some("5.9".to_string())), Some("5.9".to_string()));
}

#[test]
fn editor_and_shell_found_on_the_path() {
    let config = sample_config(&["editor", "shell"]);
    let ed = get_editor(&config, Some("sh".to_string()), Err("unset".to_string())).ok().unwrap();
    assert_eq!(ed.name, "sh");
    assert!(ed.path.starts_with('/') && ed.path.ends_with("/sh"));
    let ed = get_editor(&config, None, Ok("/bin/sh".to_string())).ok().unwrap();
    assert_eq!(ed.name, "sh");
    let s = get_default_shell(&config, Ok("sh".to_string())).ok().unwrap();
    assert_eq!(s.name, "sh");
    assert!(s.path.starts_with('/') && s.path.ends_with("/sh"));
    let e = get_default_shell(&config, Err("unset".to_string())).err().unwrap();
    assert_eq!(e.message, "Could not parse $SHELL env variable: unset");
}
