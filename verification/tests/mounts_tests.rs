use crabfetch::modules::mounts::{
    apply_statfs, device_link, gen_info_flags, is_device_wanted, mtab_fields, select_mounts,
    wants_space, MountInfo,
};
use crabfetch::modules::battery::BatteryConfiguration;
use crabfetch::modules::cpu::CPUConfiguration;
use crabfetch::modules::datetime::DateTimeConfiguration;
use crabfetch::modules::desktop::DesktopConfiguration;
use crabfetch::modules::displays::DisplayConfiguration;
use crabfetch::modules::editor::EditorConfiguration;
use crabfetch::modules::gpu::GPUConfiguration;
use crabfetch::modules::host::HostConfiguration;
use crabfetch::modules::hostname::HostnameConfiguration;
use crabfetch::modules::icon_theme::IconThemeConfiguration;
use crabfetch::modules::initsys::InitSystemConfiguration;
use crabfetch::modules::locale::LocaleConfiguration;
use crabfetch::modules::localip::LocalIPConfiguration;
use crabfetch::modules::memory::MemoryConfiguration;
use crabfetch::modules::mounts::MountConfiguration;
use crabfetch::modules::os::OSConfiguration;
use crabfetch::modules::packages::PackagesConfiguration;
use crabfetch::modules::player::PlayerConfiguration;
use crabfetch::modules::processes::ProcessesConfiguration;
use crabfetch::modules::shell::ShellConfiguration;
use crabfetch::modules::swap::SwapConfiguration;
use crabfetch::modules::terminal::TerminalConfiguration;
use crabfetch::modules::theme::ThemeConfiguration;
use crabfetch::modules::uptime::UptimeConfiguration;
use crabfetch::modules::gpu::GPUMethod;
use crabfetch::ascii::AsciiConfiguration;
use crabfetch::color::CrabFetchColor;
use crabfetch::config::Configuration;

fn sample_config(modules: &[&str]) -> Configuration {
    Configuration {
        modules: modules.iter().map(|m| m.to_string()).collect(),
        unknown_as_text: false,
        allow_commands: false,
        separator: " > ".to_string(),
        title_color: CrabFetchColor::BrightMagenta,
        title_bold: true,
        title_italic: false,
        decimal_places: 2,
        inline_values: false,
        underline_character: '―',
        color_character: "   ".to_string(),
        color_margin: 0,
        color_use_background: true,
        use_os_color: true,
        segment_top: "{color-white}[======------{color-brightmagenta} {name} {color-white}------======]".to_string(),
        segment_bottom: "{color-white}[======------{color-brightmagenta} {name_sized_gap:-} {color-white}------======]".to_string(),
        progress_left_border: "[".to_string(),
        progress_right_border: "]".to_string(),
        progress_progress: "=".to_string(),
        progress_empty: " ".to_string(),
        progress_target_length: 20,
        percentage_color_thresholds: vec!["75:brightgreen".to_string(), "85:brightyellow".to_string(), "90:brightred".to_string()],
        use_ibis: false,
        suppress_errors: true,
        ascii: AsciiConfiguration { display: true, side: "left".to_string(), colors: Vec::new(), margin: 4 },
        hostname: HostnameConfiguration { title: "".to_string(), title_color: None, title_bold: None, title_italic: None, separator: None, format: "{color-title}{username}{color-white}@{color-title}{hostname}".to_string() },
        cpu: CPUConfiguration { title: "CPU".to_string(), title_color: None, title_bold: None, title_italic: None, separator: None, format: "{name} ({core_count}c {thread_count}t) @ {max_clock_ghz} GHz".to_string(), decimal_places: None, remove_trailing_processor: true },
        gpu: GPUConfiguration { method: GPUMethod::PCISysFile, cache: false, title: "GPU".to_string(), title_color: None, title_bold: None, title_italic: None, seperator: None, use_ibis: None, format: "{vendor} {model} ({vram})".to_string() },
        memory: MemoryConfiguration { title: "Memory".to_string(), title_color: None, title_bold: None, title_italic: None, separator: None, format: "{used} / {max} ({percent})".to_string(), progress_left_border: None, progress_right_border: None, progress_progress: None, progress_empty: None, progress_target_length: None, use_ibis: None, decimal_places: None },
        swap: SwapConfiguration { title: "Swap".to_string(), title_color: None, title_bold: None, title_italic: None, separator: None, progress_left_border: None, progress_right_border: None, progress_progress: None, progress_empty: None, progress_target_length: None, decimal_places: None, use_ibis: None, format: "{used} / {total} ({percent})".to_string() },
        mounts: MountConfiguration { title: "Disk ({mount})".to_string(), title_color: None, title_bold: None, title_italic: None, separator: None, format: "{space_used} used of {space_total} ({percent}) [{filesystem}]".to_string(), progress_left_border: None, progress_right_border: None, progress_progress: None, progress_empty: None, progress_target_length: None, decimal_places: None, use_ibis: None, ignore: Vec::new() },
        host: HostConfiguration { title: "Host".to_string(), format: "{host} ({chassis})".to_string(), title_color: None, title_bold: None, title_italic: None, separator: None, newline_chassis: false, chassis_title: "Chassis".to_string(), chassis_format: "{chassis}".to_string() },
        displays: DisplayConfiguration { title: "Display ({make} {model})".to_string(), title_color: None, title_bold: None, title_italic: None, separator: None, format: "{width}x{height} @ {refresh_rate}Hz ({name})".to_string(), scale_size: false },
        os: OSConfiguration { title: "Operating System".to_string(), title_color: None, title_bold: None, title_italic: None, separator: None, format: "{distro} ({kernel})".to_string(), newline_kernel: false, kernel_title: "Kernel".to_string(), kernel_format: "Linux {kernel}".to_string() },
        packages: PackagesConfiguration { title: "Packages".to_string(), title_color: None, title_bold: None, title_italic: None, separator: None, ignore: Vec::new(), format: "{count} ({manager})".to_string() },
        desktop: DesktopConfiguration { title: "Desktop".to_string(), title_color: None, title_bold: None, title_italic: None, separator: None, format: "{desktop} ({display_type})".to_string() },
        terminal: TerminalConfiguration { title: "Terminal".to_string(), format: "{name} {version}".to_string(), title_color: None, title_bold: None, title_italic: None, separator: None, chase_ssh_pts: false },
        shell: ShellConfiguration { title: "Shell".to_string(), title_color: None, title_bold: None, title_italic: None, separator: None, format: "{name} {version}".to_string(), show_default_shell: false },
        uptime: UptimeConfiguration { title: "Uptime".to_string(), title_color: None, title_bold: None, title_italic: None, separator: None, format: None },
        battery: BatteryConfiguration { title: "Battery {index}".to_string(), title_color: None, title_bold: None, title_italic: None, separator: None, format: "{percentage}%".to_string(), progress_left_border: None, progress_right_border: None, progress_progress: None, progress_empty: None, progress_target_length: None, decimal_places: None },
        locale: LocaleConfiguration { title: "Locale".to_string(), title_color: None, title_bold: None, title_italic: None, separator: None, format: "{language} ({encoding})".to_string() },
        player: PlayerConfiguration { title: "Player ({player})".to_string(), title_color: None, title_bold: None, title_italic: None, separator: None, ignore: Vec::new(), format: "{track} by {track_artists} ({album}) [{status}]".to_string() },
        editor: EditorConfiguration { title: "Editor".to_string(), title_color: None, title_bold: None, title_italic: None, separator: None, format: "{name} {version}".to_string(), fancy: true },
        initsys: InitSystemConfiguration { title: "Init System".to_string(), format: "{name} {version}".to_string(), title_color: None, title_bold: None, title_italic: None, separator: None },
        processes: ProcessesConfiguration { title: "Total Processes".to_string(), title_color: None, title_bold: None, title_italic: None, separator: None, format: None },
        datetime: DateTimeConfiguration { title: "Date/Time".to_string(), title_color: None, title_bold: None, title_italic: None, separator: None, format: "%H:%M:%S on %e %B %G".to_string() },
        localip: LocalIPConfiguration { title: "Local IP ({interface})".to_string(), title_color: None, title_bold: None, title_italic: None, separator: None, format: "{addr}".to_string() },
        theme: ThemeConfiguration { title: "Theme".to_string(), title_color: None, title_bold: None, title_italic: None, separator: None, format: None },
        icontheme: IconThemeConfiguration { title: "Icons".to_string(), title_color: None, title_bold: None, title_italic: None, separator: None, format: None },
    }
}

#[test]
fn mtab_line_fields() {
    assert_eq!(mtab_fields("/dev/sda1 / ext4 rw,relatime 0 0"), vec!["/dev/sda1", "/", "ext4", "rw,relatime", "0", "0"]);
    assert_eq!(mtab_fields("  /dev/sdb\t\t/hdd  btrfs "), vec!["/dev/sdb", "/hdd", "btrfs"]);
    assert!(mtab_fields("   ").is_empty());
}

#[test]
fn device_links() {
    assert_eq!(device_link("UUID=1234-abcd"), Some("/dev/disk/by-uuid/1234-abcd".to_string()));
    assert_eq!(device_link("LABEL=data"), Some("/dev/disk/by-label/data".to_string()));
    assert_eq!(device_link("PARTLABEL=efi"), Some("/dev/disk/by-partlabel/efi".to_string()));
    assert_eq!(device_link("/dev/sda1"), None);
}

#[test]
fn wanted_devices() {
    assert!(is_device_wanted("/dev/sda1", false));
    assert!(!is_device_wanted("tmpfs", false));
    assert!(is_device_wanted("C:\\", true));
    assert!(!is_device_wanted("tmpfs", true));
}

#[test]
fn mounts_are_selected() {
    let mut config = sample_config(&["mounts"]);
    config.mounts.ignore = vec!["".to_string(), "/boot".to_string(), "vfat".to_string()];
    let lines: Vec<String> = vec![
        "# comment",
        "/dev/sda1 / ext4 rw 0 0",
        "",
        "tmpfs /tmp tmpfs rw 0 0",
        "/dev/sda1 /again ext4 rw 0 0",
        "/dev/sda2 /boot ext4 rw 0 0",
        "/dev/sda3 /efi vfat rw 0 0",
        "/dev/sdb1 none swap sw 0 0",
        "UUID=abc /my\\040disk btrfs rw 0 0",
        "LABEL=gone /gone ext4 rw 0 0",
    ].into_iter().map(|l| l.to_string()).collect();
    let mut resolved: Vec<Option<String>> = vec![None; lines.len()];
    resolved[8] = Some("/dev/sdc1".to_string());
    let mounts = select_mounts(&lines, &resolved, false, &config);
    let got: Vec<(String, String, String)> = mounts.iter().map(|m| (m.device.clone(), m.mount.clone(), m.filesystem.clone())).collect();
    assert_eq!(got, vec![
        ("/dev/sda1".to_string(), "/".to_string(), "ext4".to_string()),
        ("/dev/sdc1".to_string(), "/my disk".to_string(), "btrfs".to_string()),
    ]);
    assert!(mounts.iter().all(|m| m.space_total_kb == 0 && m.space_avail_kb == 0));
}

#[test]
fn statfs_sizes_in_kilobytes() {
    let m = apply_statfs(MountInfo::new(), 1000, 250, 4096);
    assert_eq!(m.space_total_kb, 4096);
    assert_eq!(m.space_avail_kb, 1024);
    assert_eq!(m.device, "Unknown");
}

#[test]
fn mount_ignore_and_title() {
    let mut config = sample_config(&["mounts"]);
    config.mounts.ignore = vec!["/snap".to_string()];
    let mut m = MountInfo::new();
    m.mount = "/snap/core".to_string();
    m.filesystem = "squashfs".to_string();
    m.device = "/dev/loop0".to_string();
    assert!(m.is_ignored(&config));
    config.mounts.ignore = vec!["".to_string()];
    assert!(!m.is_ignored(&config));
    assert_eq!(m.get_title_size(&config), "Disk (/snap/core)".chars().count() as u64);
}

#[test]
fn space_flags() {
    let f = gen_info_flags("{space_used} used of {space_total} [{filesystem}]{device}");
    assert_eq!(f, 1 | 4 | 8);
    assert!(wants_space(f));
    assert_eq!(gen_info_flags("{bar}"), 4 | 8);
    assert_eq!(gen_info_flags("{space_avail}"), 16);
    assert!(!wants_space(gen_info_flags("{device}")));
}
