use crabfetch::modules::displays::{sort_displays, DisplayInfo};
use crabfetch::modules::swap::swap_kb;
use crabfetch::modules::uptime::UptimeInfo;
use crabfetch::package_managers::{ManagerInfo, PackageInfo, MANAGER_DPKG, MANAGER_PACMAN};
use crabfetch::modules::battery::BatteryConfiguration;
use crabfetch::modules::cpu::CPUConfiguration;
use crabfetch::modules::datetime::DateTimeConfiguration;
use crabfetch::modules::desktop::DesktopConfiguration;
use crabfetch::modules::displays::DisplayConfiguration;
use crabfetch::modules::editor::EditorConfiguration;
use crabfetch::modules::gpu::GPUConfiguration;
use crabfetch::modules::host::HostConfiguration;
use crabfetch::modules::hostname::HostnameConfiguration;
use crabfetch::modules::icon_theme::IconThemeConfiguration;
use crabfetch::modules::initsys::InitSystemConfiguration;
use crabfetch::modules::locale::LocaleConfiguration;
use crabfetch::modules::localip::LocalIPConfiguration;
use crabfetch::modules::memory::MemoryConfiguration;
use crabfetch::modules::mounts::MountConfiguration;
use crabfetch::modules::os::OSConfiguration;
use crabfetch::modules::packages::PackagesConfiguration;
use crabfetch::modules::player::PlayerConfiguration;
use crabfetch::modules::processes::ProcessesConfiguration;
use crabfetch::modules::shell::ShellConfiguration;
use crabfetch::modules::swap::SwapConfiguration;
use crabfetch::modules::terminal::TerminalConfiguration;
use crabfetch::modules::theme::ThemeConfiguration;
use crabfetch::modules::uptime::UptimeConfiguration;
use crabfetch::modules::gpu::GPUMethod;
use crabfetch::ascii::AsciiConfiguration;
use crabfetch::color::CrabFetchColor;
use crabfetch::config::Configuration;

fn sample_config(modules: &[&str]) -> Configuration {
    Configuration {
        modules: modules.iter().map(|m| m.to_string()).collect(),
        unknown_as_text: false,
        allow_commands: false,
        separator: " > ".to_string(),
        title_color: CrabFetchColor::BrightMagenta,
        title_bold: true,
        title_italic: false,
        decimal_places: 2,
        inline_values: false,
        underline_character: '―',
        color_character: "   ".to_string(),
        color_margin: 0,
        color_use_background: true,
        use_os_color: true,
        segment_top: "{color-white}[======------{color-brightmagenta} {name} {color-white}------======]".to_string(),
        segment_bottom: "{color-white}[======------{color-brightmagenta} {name_sized_gap:-} {color-white}------======]".to_string(),
        progress_left_border: "[".to_string(),
        progress_right_border: "]".to_string(),
        progress_progress: "=".to_string(),
        progress_empty: " ".to_string(),
        progress_target_length: 20,
        percentage_color_thresholds: vec!["75:brightgreen".to_string(), "85:brightyellow".to_string(), "90:brightred".to_string()],
        use_ibis: false,
        suppress_errors: true,
        ascii: AsciiConfiguration { display: true, side: "left".to_string(), colors: Vec::new(), margin: 4 },
        hostname: HostnameConfiguration { title: "".to_string(), title_color: None, title_bold: None, title_italic: None, separator: None, format: "{color-title}{username}{color-white}@{color-title}{hostname}".to_string() },
        cpu: CPUConfiguration { title: "CPU".to_string(), title_color: None, title_bold: None, title_italic: None, separator: None, format: "{name} ({core_count}c {thread_count}t) @ {max_clock_ghz} GHz".to_string(), decimal_places: None, remove_trailing_processor: true },
        gpu: GPUConfiguration { method: GPUMethod::PCISysFile, cache: false, title: "GPU".to_string(), title_color: None, title_bold: None, title_italic: None, seperator: None, use_ibis: None, format: "{vendor} {model} ({vram})".to_string() },
        memory: MemoryConfiguration { title: "Memory".to_string(), title_color: None, title_bold: None, title_italic: None, separator: None, format: "{used} / {max} ({percent})".to_string(), progress_left_border: None, progress_right_border: None, progress_progress: None, progress_empty: None, progress_target_length: None, use_ibis: None, decimal_places: None },
        swap: SwapConfiguration { title: "Swap".to_string(), title_color: None, title_bold: None, title_italic: None, separator: None, progress_left_border: None, progress_right_border: None, progress_progress: None, progress_empty: None, progress_target_length: None, decimal_places: None, use_ibis: None, format: "{used} / {total} ({percent})".to_string() },
        mounts: MountConfiguration { title: "Disk ({mount})".to_string(), title_color: None, title_bold: None, title_italic: None, separator: None, format: "{space_used} used of {space_total} ({percent}) [{filesystem}]".to_string(), progress_left_border: None, progress_right_border: None, progress_progress: None, progress_empty: None, progress_target_length: None, decimal_places: None, use_ibis: None, ignore: Vec::new() },
        host: HostConfiguration { title: "Host".to_string(), format: "{host} ({chassis})".to_string(), title_color: None, title_bold: None, title_italic: None, separator: None, newline_chassis: false, chassis_title: "Chassis".to_string(), chassis_format: "{chassis}".to_string() },
        displays: DisplayConfiguration { title: "Display ({make} {model})".to_string(), title_color: None, title_bold: None, title_italic: None, separator: None, format: "{width}x{height} @ {refresh_rate}Hz ({name})".to_string(), scale_size: false },
        os: OSConfiguration { title: "Operating System".to_string(), title_color: None, title_bold: None, title_italic: None, separator: None, format: "{distro} ({kernel})".to_string(), newline_kernel: false, kernel_title: "Kernel".to_string(), kernel_format: "Linux {kernel}".to_string() },
        packages: PackagesConfiguration { title: "Packages".to_string(), title_color: None, title_bold: None, title_italic: None, separator: None, ignore: Vec::new(), format: "{count} ({manager})".to_string() },
        desktop: DesktopConfiguration { title: "Desktop".to_string(), title_color: None, title_bold: None, title_italic: None, separator: None, format: "{desktop} ({display_type})".to_string() },
        terminal: TerminalConfiguration { title: "Terminal".to_string(), format: "{name} {version}".to_string(), title_color: None, title_bold: None, title_italic: None, separator: None, chase_ssh_pts: false },
        shell: ShellConfiguration { title: "Shell".to_string(), title_color: None, title_bold: None, title_italic: None, separator: None, format: "{name} {version}".to_string(), show_default_shell: false },
        uptime: UptimeConfiguration { title: "Uptime".to_string(), title_color: None, title_bold: None, title_italic: None, separator: None, format: None },
        battery: BatteryConfiguration { title: "Battery {index}".to_string(), title_color: None, title_bold: None, title_italic: None, separator: None, format: "{percentage}%".to_string(), progress_left_border: None, progress_right_border: None, progress_progress: None, progress_empty: None, progress_target_length: None, decimal_places: None },
        locale: LocaleConfiguration { title: "Locale".to_string(), title_color: None, title_bold: None, title_italic: None, separator: None, format: "{language} ({encoding})".to_string() },
        player: PlayerConfiguration { title: "Player ({player})".to_string(), title_color: None, title_bold: None, title_italic: None, separator: None, ignore: Vec::new(), format: "{track} by {track_artists} ({album}) [{status}]".to_string() },
        editor: EditorConfiguration { title: "Editor".to_string(), title_color: None, title_bold: None, title_italic: None, separator: None, format: "{name} {version}".to_string(), fancy: true },
        initsys: InitSystemConfiguration { title: "Init System".to_string(), format: "{name} {version}".to_string(), title_color: None, title_bold: None, title_italic: None, separator: None },
        processes: ProcessesConfiguration { title: "Total Processes".to_string(), title_color: None, title_bold: None, title_italic: None, separator: None, format: None },
        datetime: DateTimeConfiguration { title: "Date/Time".to_string(), title_color: None, title_bold: None, title_italic: None, separator: None, format: "%H:%M:%S on %e %B %G".to_string() },
        localip: LocalIPConfiguration { title: "Local IP ({interface})".to_string(), title_color: None, title_bold: None, title_italic: None, separator: None, format: "{addr}".to_string() },
        theme: ThemeConfiguration { title: "Theme".to_string(), title_color: None, title_bold: None, title_italic: None, separator: None, format: None },
        icontheme: IconThemeConfiguration { title: "Icons".to_string(), title_color: None, title_bold: None, title_italic: None, separator: None, format: None },
    }
}

fn display(name: &str, w: u16, h: u16, rotation: u16) -> DisplayInfo {
    let mut d = DisplayInfo::new();
    d.name = name.to_string();
    d.width = w;
    d.height = h;
    d.rotation = rotation;
    d
}

#[test]
fn rotating_twice_restores_the_resolution() {
    let mut d = display("DP-1", 1920, 1080, 90);
    d.calc_rotation();
    assert_eq!((d.width, d.height), (1080, 1920));
    d.calc_rotation();
    assert_eq!((d.width, d.height), (1920, 1080));
    let mut e = display("DP-2", 800, 600, 180);
    e.calc_rotation();
    assert_eq!((e.width, e.height), (800, 600));
}

#[test]
fn displays_sort_by_name_ignoring_case() {
    let sorted = sort_displays(vec![display("HDMI-A-1", 1, 1, 0), display("dp-2", 2, 2, 0), display("DP-1", 3, 3, 0)]);
    let names: Vec<String> = sorted.iter().map(|d| d.name.clone()).collect();
    assert_eq!(names, vec!["DP-1", "dp-2", "HDMI-A-1"]);
}

#[test]
fn displays_equal_ignoring_case_keep_their_order() {
    let sorted = sort_displays(vec![
        display("hdmi", 1, 1, 0),
        display("DP-1", 2, 2, 0),
        display("dp-1", 3, 3, 0),
        display("Dp-1", 4, 4, 0),
    ]);
    let order: Vec<(String, u16)> = sorted.iter().map(|d| (d.name.clone(), d.width)).collect();
    assert_eq!(
        order,
        vec![("DP-1".to_string(), 2), ("dp-1".to_string(), 3), ("Dp-1".to_string(), 4), ("hdmi".to_string(), 1)]
    );
}

#[test]
fn color_names_ignore_ascii_case() {
    for (a, b) in [("BRIGHTRED", "brightred"), ("Blue", "bLUE"), ("CLEAR", "clear")] {
        assert_eq!(CrabFetchColor::from_str(a), CrabFetchColor::from_str(b));
    }
    assert_eq!(CrabFetchColor::from_str("RED"), Ok(CrabFetchColor::Red));
    assert_eq!(CrabFetchColor::from_str("purple"), Err(()));
}

#[test]
fn adding_a_package_merges_its_managers() {
    let mut m = ManagerInfo::new();
    m.add_package_to_cache(PackageInfo::new("bash", "5.2", MANAGER_PACMAN));
    m.add_package_to_cache(PackageInfo::new("bash", "5.1", MANAGER_DPKG));
    assert_eq!(m.packages.len(), 1);
    assert_eq!(m.packages[0].version, "5.2");
    assert_eq!(m.packages[0].manager, MANAGER_PACMAN | MANAGER_DPKG);
    m.add_package_to_cache(PackageInfo::new("bash", "5.1", MANAGER_DPKG));
    assert_eq!(m.packages.len(), 1);
    assert_eq!(m.packages[0].manager, MANAGER_PACMAN | MANAGER_DPKG);
    assert_eq!(m.find_all_packages_from(MANAGER_DPKG).len(), 1);
}

#[test]
fn swap_sizes() {
    assert_eq!(swap_kb(2_000_000, 500_000, 4096), (6_144_000, 8_192_000));
    assert_eq!(swap_kb(0, 0, 4096), (0, 0));
}

#[test]
fn uptime_is_written_in_words() {
    let config = sample_config(&["uptime"]);
    let u = UptimeInfo { uptime: 3725 };
    assert_eq!(u.replace_placeholders("up {time}", &config), "up 1h 2m 5s");
}
