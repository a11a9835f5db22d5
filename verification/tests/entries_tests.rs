use crabfetch::modules::battery::BatteryConfiguration;
use crabfetch::modules::cpu::CPUConfiguration;
use crabfetch::modules::datetime::DateTimeConfiguration;
use crabfetch::modules::desktop::DesktopConfiguration;
use crabfetch::modules::displays::DisplayConfiguration;
use crabfetch::modules::editor::EditorConfiguration;
use crabfetch::modules::gpu::GPUConfiguration;
use crabfetch::modules::host::HostConfiguration;
use crabfetch::modules::hostname::HostnameConfiguration;
use crabfetch::modules::icon_theme::IconThemeConfiguration;
use crabfetch::modules::initsys::InitSystemConfiguration;
use crabfetch::modules::locale::LocaleConfiguration;
use crabfetch::modules::localip::LocalIPConfiguration;
use crabfetch::modules::memory::MemoryConfiguration;
use crabfetch::modules::mounts::MountConfiguration;
use crabfetch::modules::os::OSConfiguration;
use crabfetch::modules::packages::PackagesConfiguration;
use crabfetch::modules::player::PlayerConfiguration;
use crabfetch::modules::processes::ProcessesConfiguration;
use crabfetch::modules::shell::ShellConfiguration;
use crabfetch::modules::swap::SwapConfiguration;
use crabfetch::modules::terminal::TerminalConfiguration;
use crabfetch::modules::theme::ThemeConfiguration;
use crabfetch::modules::uptime::UptimeConfiguration;
use crabfetch::modules::gpu::GPUMethod;
use crabfetch::ascii::AsciiConfiguration;
use crabfetch::color::CrabFetchColor;
use crabfetch::config::Configuration;
use crabfetch::module::{process_percentage_placeholder, Percentage};
use crabfetch::modules::battery::BatteryInfo;
use crabfetch::modules::cpu::CPUInfo;
use crabfetch::modules::datetime::DateTimeInfo;
use crabfetch::modules::gpu::GPUInfo;
use crabfetch::modules::memory::MemoryInfo;
use crabfetch::modules::mounts::{MountInfo, MountSpace};
use crabfetch::modules::swap::SwapInfo;

fn sample_config(modules: &[&str]) -> Configuration {
    Configuration {
        modules: modules.iter().map(|m| m.to_string()).collect(),
        unknown_as_text: false,
        allow_commands: false,
        separator: " > ".to_string(),
        title_color: CrabFetchColor::BrightMagenta,
        title_bold: true,
        title_italic: false,
        decimal_places: 2,
        inline_values: false,
        underline_character: '―',
        color_character: "   ".to_string(),
        color_margin: 0,
        color_use_background: true,
        use_os_color: true,
        segment_top: "{color-white}[======------{color-brightmagenta} {name} {color-white}------======]".to_string(),
        segment_bottom: "{color-white}[======------{color-brightmagenta} {name_sized_gap:-} {color-white}------======]".to_string(),
        progress_left_border: "[".to_string(),
        progress_right_border: "]".to_string(),
        progress_progress: "=".to_string(),
        progress_empty: " ".to_string(),
        progress_target_length: 20,
        percentage_color_thresholds: vec!["75:brightgreen".to_string(), "85:brightyellow".to_string(), "90:brightred".to_string()],
        use_ibis: false,
        suppress_errors: true,
        ascii: AsciiConfiguration { display: true, side: "left".to_string(), colors: Vec::new(), margin: 4 },
        hostname: HostnameConfiguration { title: "".to_string(), title_color: None, title_bold: None, title_italic: None, separator: None, format: "{color-title}{username}{color-white}@{color-title}{hostname}".to_string() },
        cpu: CPUConfiguration { title: "CPU".to_string(), title_color: None, title_bold: None, title_italic: None, separator: None, format: "{name} ({core_count}c {thread_count}t) @ {max_clock_ghz} GHz".to_string(), decimal_places: None, remove_trailing_processor: true },
        gpu: GPUConfiguration { method: GPUMethod::PCISysFile, cache: false, title: "GPU".to_string(), title_color: None, title_bold: None, title_italic: None, seperator: None, use_ibis: None, format: "{vendor} {model} ({vram})".to_string() },
        memory: MemoryConfiguration { title: "Memory".to_string(), title_color: None, title_bold: None, title_italic: None, separator: None, format: "{used} / {max} ({percent})".to_string(), progress_left_border: None, progress_right_border: None, progress_progress: None, progress_empty: None, progress_target_length: None, use_ibis: None, decimal_places: None },
        swap: SwapConfiguration { title: "Swap".to_string(), title_color: None, title_bold: None, title_italic: None, separator: None, progress_left_border: None, progress_right_border: None, progress_progress: None, progress_empty: None, progress_target_length: None, decimal_places: None, use_ibis: None, format: "{used} / {total} ({percent})".to_string() },
        mounts: MountConfiguration { title: "Disk ({mount})".to_string(), title_color: None, title_bold: None, title_italic: None, separator: None, format: "{space_used} used of {space_total} ({percent}) [{filesystem}]".to_string(), progress_left_border: None, progress_right_border: None, progress_progress: None, progress_empty: None, progress_target_length: None, decimal_places: None, use_ibis: None, ignore: Vec::new() },
        host: HostConfiguration { title: "Host".to_string(), format: "{host} ({chassis})".to_string(), title_color: None, title_bold: None, title_italic: None, separator: None, newline_chassis: false, chassis_title: "Chassis".to_string(), chassis_format: "{chassis}".to_string() },
        displays: DisplayConfiguration { title: "Display ({make} {model})".to_string(), title_color: None, title_bold: None, title_italic: None, separator: None, format: "{width}x{height} @ {refresh_rate}Hz ({name})".to_string(), scale_size: false },
        os: OSConfiguration { title: "Operating System".to_string(), title_color: None, title_bold: None, title_italic: None, separator: None, format: "{distro} ({kernel})".to_string(), newline_kernel: false, kernel_title: "Kernel".to_string(), kernel_format: "Linux {kernel}".to_string() },
        packages: PackagesConfiguration { title: "Packages".to_string(), title_color: None, title_bold: None, title_italic: None, separator: None, ignore: Vec::new(), format: "{count} ({manager})".to_string() },
        desktop: DesktopConfiguration { title: "Desktop".to_string(), title_color: None, title_bold: None, title_italic: None, separator: None, format: "{desktop} ({display_type})".to_string() },
        terminal: TerminalConfiguration { title: "Terminal".to_string(), format: "{name} {version}".to_string(), title_color: None, title_bold: None, title_italic: None, separator: None, chase_ssh_pts: false },
        shell: ShellConfiguration { title: "Shell".to_string(), title_color: None, title_bold: None, title_italic: None, separator: None, format: "{name} {version}".to_string(), show_default_shell: false },
        uptime: UptimeConfiguration { title: "Uptime".to_string(), title_color: None, title_bold: None, title_italic: None, separator: None, format: None },
        battery: BatteryConfiguration { title: "Battery {index}".to_string(), title_color: None, title_bold: None, title_italic: None, separator: None, format: "{percentage}%".to_string(), progress_left_border: None, progress_right_border: None, progress_progress: None, progress_empty: None, progress_target_length: None, decimal_places: None },
        locale: LocaleConfiguration { title: "Locale".to_string(), title_color: None, title_bold: None, title_italic: None, separator: None, format: "{language} ({encoding})".to_string() },
        player: PlayerConfiguration { title: "Player ({player})".to_string(), title_color: None, title_bold: None, title_italic: None, separator: None, ignore: Vec::new(), format: "{track} by {track_artists} ({album}) [{status}]".to_string() },
        editor: EditorConfiguration { title: "Editor".to_string(), title_color: None, title_bold: None, title_italic: None, separator: None, format: "{name} {version}".to_string(), fancy: true },
        initsys: InitSystemConfiguration { title: "Init System".to_string(), format: "{name} {version}".to_string(), title_color: None, title_bold: None, title_italic: None, separator: None },
        processes: ProcessesConfiguration { title: "Total Processes".to_string(), title_color: None, title_bold: None, title_italic: None, separator: None, format: None },
        datetime: DateTimeConfiguration { title: "Date/Time".to_string(), title_color: None, title_bold: None, title_italic: None, separator: None, format: "%H:%M:%S on %e %B %G".to_string() },
        localip: LocalIPConfiguration { title: "Local IP ({interface})".to_string(), title_color: None, title_bold: None, title_italic: None, separator: None, format: "{addr}".to_string() },
        theme: ThemeConfiguration { title: "Theme".to_string(), title_color: None, title_bold: None, title_italic: None, separator: None, format: None },
        icontheme: IconThemeConfiguration { title: "Icons".to_string(), title_color: None, title_bold: None, title_italic: None, separator: None, format: None },
    }
}

#[test]
fn percentage_colored_by_the_greatest_threshold_below() {
    colored::control::set_override(true);
    let config = sample_config(&[]);
    let p = Percentage { text: "87.5".to_string(), whole: 87 };
    assert_eq!(process_percentage_placeholder("used {percent}", &p, &config), "used \u{1b}[93m87.5%\u{1b}[0m");
    let p = Percentage { text: "95".to_string(), whole: 95 };
    assert_eq!(process_percentage_placeholder("{percent}", &p, &config), "\u{1b}[91m95%\u{1b}[0m");
}

#[test]
fn percentage_below_every_threshold_takes_the_least() {
    colored::control::set_override(true);
    let config = sample_config(&[]);
    let p = Percentage { text: "10".to_string(), whole: 10 };
    assert_eq!(process_percentage_placeholder("{percent}", &p, &config), "\u{1b}[92m10%\u{1b}[0m");
    let p = Percentage { text: "75".to_string(), whole: 75 };
    assert_eq!(process_percentage_placeholder("{percent}", &p, &config), "\u{1b}[92m75%\u{1b}[0m");
}

#[test]
fn percentage_without_thresholds_is_plain() {
    colored::control::set_override(true);
    let mut config = sample_config(&[]);
    config.percentage_color_thresholds = vec!["x:red".to_string(), "300:red".to_string(), "nocolon".to_string()];
    let p = Percentage { text: "42.13".to_string(), whole: 42 };
    assert_eq!(process_percentage_placeholder("({percent})", &p, &config), "(42.13%)");
}

#[test]
fn percentage_with_an_unknown_color_is_plain() {
    colored::control::set_override(true);
    let mut config = sample_config(&[]);
    config.percentage_color_thresholds = vec!["+20:purple".to_string()];
    let p = Percentage { text: "50".to_string(), whole: 50 };
    assert_eq!(process_percentage_placeholder("{percent}", &p, &config), "50%");
}

#[test]
fn memory_entry() {
    colored::control::set_override(true);
    let mut config = sample_config(&[]);
    config.percentage_color_thresholds = Vec::new();
    config.title_bold = false;
    config.title_color = CrabFetchColor::Clear;
    let m = MemoryInfo { used: "3.2 GB".to_string(), max: "16 GB".to_string(), percentage: Percentage { text: "20".to_string(), whole: 20 } };
    assert_eq!(m.style(&config), ("Memory".to_string(), " > 3.2 GB / 16 GB (20%)".to_string()));
    assert_eq!(MemoryInfo::unknown_output(&config), ("Memory".to_string(), " > Unknown".to_string()));
    config.memory.title = "Mem {used}{bar}".to_string();
    assert_eq!(MemoryInfo::unknown_output(&config).0, "Mem Unknown");
}

#[test]
fn swap_unknown_takes_the_uptime_title() {
    colored::control::set_override(true);
    let mut config = sample_config(&[]);
    config.title_bold = false;
    config.title_color = CrabFetchColor::Clear;
    config.uptime.title = "Up {used}/{total} {bar}".to_string();
    assert_eq!(SwapInfo::unknown_output(&config), ("Up Unknown/Unknown Unknown".to_string(), " > Unknown".to_string()));
}

#[test]
fn cpu_entry() {
    colored::control::set_override(true);
    let mut config = sample_config(&[]);
    config.title_bold = false;
    config.title_color = CrabFetchColor::Clear;
    let c = CPUInfo {
        name: "Ryzen 5".to_string(),
        cores: 6,
        threads: 12,
        current_clock_mhz: "3600".to_string(),
        current_clock_ghz: "3.6".to_string(),
        max_clock_mhz: "4400".to_string(),
        max_clock_ghz: "4.4".to_string(),
        arch: "x86_64".to_string(),
    };
    assert_eq!(c.style(&config), ("CPU".to_string(), " > Ryzen 5 (6c 12t) @ 4.4 GHz".to_string()));
    config.cpu.title = "{arch} {core_count}".to_string();
    assert_eq!(CPUInfo::unknown_output(&config).0, "Unknown Unknown");
}

#[test]
fn gpu_entry_numbers_its_title() {
    colored::control::set_override(true);
    let mut config = sample_config(&[]);
    config.title_bold = false;
    config.title_color = CrabFetchColor::Clear;
    config.gpu.title = "GPU {index}".to_string();
    let g = GPUInfo { vendor: "AMD".to_string(), model: "RX 580".to_string(), vram_mb: 8192 };
    assert_eq!(g.style(&config, 2, "8.19 GB"), ("GPU 2".to_string(), " > AMD RX 580 (8.19 GB)".to_string()));
    assert_eq!(GPUInfo::unknown_output(&config), ("GPU {index}".to_string(), " > Unknown".to_string()));
}

#[test]
fn mount_entry() {
    colored::control::set_override(true);
    let mut config = sample_config(&[]);
    config.percentage_color_thresholds = Vec::new();
    config.title_bold = false;
    config.title_color = CrabFetchColor::Clear;
    let mut m = MountInfo::new();
    m.mount = "/".to_string();
    m.filesystem = "ext4".to_string();
    let space = MountSpace {
        used: "10 GB".to_string(),
        avail: "90 GB".to_string(),
        total: "100 GB".to_string(),
        percentage: Percentage { text: "10".to_string(), whole: 10 },
    };
    assert_eq!(m.style(&config, &space), ("Disk (/)".to_string(), " > 10 GB used of 100 GB (10%) [ext4]".to_string()));
    config.mounts.title = "{mount}{bar}".to_string();
    assert_eq!(MountInfo::unknown_output(&config).0, "Unknown ");
}

#[test]
fn battery_entry() {
    colored::control::set_override(true);
    let mut config = sample_config(&[]);
    config.percentage_color_thresholds = Vec::new();
    config.title_bold = false;
    config.title_color = CrabFetchColor::Clear;
    config.battery.title = "Battery ({model_name})".to_string();
    config.battery.format = "{percentage}% [{percent}]".to_string();
    let b = BatteryInfo { model_name: "BAT0".to_string(), capacity: "87".to_string(), percentage: Percentage { text: "87".to_string(), whole: 87 } };
    assert_eq!(b.style(&config), ("Battery (BAT0)".to_string(), " > 87% [87%]".to_string()));
    assert_eq!(BatteryInfo::unknown_output(&config).0, "Battery (Unknown)");
}

#[test]
fn datetime_entry() {
    colored::control::set_override(true);
    let mut config = sample_config(&[]);
    config.title_bold = false;
    config.title_color = CrabFetchColor::Clear;
    // 2024-03-01 10:30:00 UTC, seen one hour east of UTC.
    let d = DateTimeInfo { secs: 1_709_289_000, nanos: 0, offset_secs: 3600 };
    config.datetime.format = "%H:%M {color-red}%A %e %B %Y".to_string();
    assert_eq!(d.style(&config), ("Date/Time".to_string(), " > 11:30 \u{1b}[31mFriday  1 March 2024\u{1b}[0m".to_string()));
    config.datetime.format = "%Y-%m-%d %H:%M:%S %:z".to_string();
    let epoch = DateTimeInfo { secs: 0, nanos: 0, offset_secs: 0 };
    assert_eq!(epoch.style(&config).1, " > 1970-01-01 00:00:00 +00:00");
    // A format that chrono cannot write, and an offset of a whole day, give the unknown entry.
    config.datetime.format = "%H %".to_string();
    assert_eq!(d.style(&config), ("Date/Time".to_string(), " > Unknown".to_string()));
    config.datetime.format = "%H".to_string();
    let far = DateTimeInfo { secs: 0, nanos: 0, offset_secs: 86_400 };
    assert_eq!(far.style(&config), ("Date/Time".to_string(), " > Unknown".to_string()));
    assert_eq!(DateTimeInfo::unknown_output(&config), ("Date/Time".to_string(), " > Unknown".to_string()));
}
