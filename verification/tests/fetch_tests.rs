use crabfetch::modules::battery::BatteryConfiguration;
use crabfetch::modules::cpu::CPUConfiguration;
use crabfetch::modules::datetime::DateTimeConfiguration;
use crabfetch::modules::desktop::DesktopConfiguration;
use crabfetch::modules::displays::DisplayConfiguration;
use crabfetch::modules::editor::EditorConfiguration;
use crabfetch::modules::gpu::GPUConfiguration;
use crabfetch::modules::host::HostConfiguration;
use crabfetch::modules::hostname::HostnameConfiguration;
use crabfetch::modules::icon_theme::IconThemeConfiguration;
use crabfetch::modules::initsys::InitSystemConfiguration;
use crabfetch::modules::locale::LocaleConfiguration;
use crabfetch::modules::localip::LocalIPConfiguration;
use crabfetch::modules::memory::MemoryConfiguration;
use crabfetch::modules::mounts::MountConfiguration;
use crabfetch::modules::os::OSConfiguration;
use crabfetch::modules::packages::PackagesConfiguration;
use crabfetch::modules::player::PlayerConfiguration;
use crabfetch::modules::processes::ProcessesConfiguration;
use crabfetch::modules::shell::ShellConfiguration;
use crabfetch::modules::swap::SwapConfiguration;
use crabfetch::modules::terminal::TerminalConfiguration;
use crabfetch::modules::theme::ThemeConfiguration;
use crabfetch::modules::uptime::UptimeConfiguration;
use crabfetch::modules::gpu::GPUMethod;
use crabfetch::ascii::AsciiConfiguration;
use crabfetch::color::CrabFetchColor;
use crabfetch::config::Configuration;
use crabfetch::config::{
    check_for_ascii_override, config_dir_candidates, config_path, default_config_path,
    default_modules, module_override_list, override_path,
};
use crabfetch::fetch::{
    ascii_lines, ascii_target_length, calc_max_title_length, log_errors, render_output,
    repeat_char, segment_bottom_line, segment_top_line, underline_line, vec_max,
};
use crabfetch::segment::Segment;


fn sample_config(modules: &[&str]) -> Configuration {
    Configuration {
        modules: modules.iter().map(|m| m.to_string()).collect(),
        unknown_as_text: false,
        allow_commands: false,
        separator: " > ".to_string(),
        title_color: CrabFetchColor::BrightMagenta,
        title_bold: true,
        title_italic: false,
        decimal_places: 2,
        inline_values: false,
        underline_character: '―',
        color_character: "   ".to_string(),
        color_margin: 0,
        color_use_background: true,
        use_os_color: true,
        segment_top: "{color-white}[======------{color-brightmagenta} {name} {color-white}------======]".to_string(),
        segment_bottom: "{color-white}[======------{color-brightmagenta} {name_sized_gap:-} {color-white}------======]".to_string(),
        progress_left_border: "[".to_string(),
        progress_right_border: "]".to_string(),
        progress_progress: "=".to_string(),
        progress_empty: " ".to_string(),
        progress_target_length: 20,
        percentage_color_thresholds: vec!["75:brightgreen".to_string(), "85:brightyellow".to_string(), "90:brightred".to_string()],
        use_ibis: false,
        suppress_errors: true,
        ascii: AsciiConfiguration { display: true, side: "left".to_string(), colors: Vec::new(), margin: 4 },
        hostname: HostnameConfiguration { title: "".to_string(), title_color: None, title_bold: None, title_italic: None, separator: None, format: "{color-title}{username}{color-white}@{color-title}{hostname}".to_string() },
        cpu: CPUConfiguration { title: "CPU".to_string(), title_color: None, title_bold: None, title_italic: None, separator: None, format: "{name} ({core_count}c {thread_count}t) @ {max_clock_ghz} GHz".to_string(), decimal_places: None, remove_trailing_processor: true },
        gpu: GPUConfiguration { method: GPUMethod::PCISysFile, cache: false, title: "GPU".to_string(), title_color: None, title_bold: None, title_italic: None, seperator: None, use_ibis: None, format: "{vendor} {model} ({vram})".to_string() },
        memory: MemoryConfiguration { title: "Memory".to_string(), title_color: None, title_bold: None, title_italic: None, separator: None, format: "{used} / {max} ({percent})".to_string(), progress_left_border: None, progress_right_border: None, progress_progress: None, progress_empty: None, progress_target_length: None, use_ibis: None, decimal_places: None },
        swap: SwapConfiguration { title: "Swap".to_string(), title_color: None, title_bold: None, title_italic: None, separator: None, progress_left_border: None, progress_right_border: None, progress_progress: None, progress_empty: None, progress_target_length: None, decimal_places: None, use_ibis: None, format: "{used} / {total} ({percent})".to_string() },
        mounts: MountConfiguration { title: "Disk ({mount})".to_string(), title_color: None, title_bold: None, title_italic: None, separator: None, format: "{space_used} used of {space_total} ({percent}) [{filesystem}]".to_string(), progress_left_border: None, progress_right_border: None, progress_progress: None, progress_empty: None, progress_target_length: None, decimal_places: None, use_ibis: None, ignore: Vec::new() },
        host: HostConfiguration { title: "Host".to_string(), format: "{host} ({chassis})".to_string(), title_color: None, title_bold: None, title_italic: None, separator: None, newline_chassis: false, chassis_title: "Chassis".to_string(), chassis_format: "{chassis}".to_string() },
        displays: DisplayConfiguration { title: "Display ({make} {model})".to_string(), title_color: None, title_bold: None, title_italic: None, separator: None, format: "{width}x{height} @ {refresh_rate}Hz ({name})".to_string(), scale_size: false },
        os: OSConfiguration { title: "Operating System".to_string(), title_color: None, title_bold: None, title_italic: None, separator: None, format: "{distro} ({kernel})".to_string(), newline_kernel: false, kernel_title: "Kernel".to_string(), kernel_format: "Linux {kernel}".to_string() },
        packages: PackagesConfiguration { title: "Packages".to_string(), title_color: None, title_bold: None, title_italic: None, separator: None, ignore: Vec::new(), format: "{count} ({manager})".to_string() },
        desktop: DesktopConfiguration { title: "Desktop".to_string(), title_color: None, title_bold: None, title_italic: None, separator: None, format: "{desktop} ({display_type})".to_string() },
        terminal: TerminalConfiguration { title: "Terminal".to_string(), format: "{name} {version}".to_string(), title_color: None, title_bold: None, title_italic: None, separator: None, chase_ssh_pts: false },
        shell: ShellConfiguration { title: "Shell".to_string(), title_color: None, title_bold: None, title_italic: None, separator: None, format: "{name} {version}".to_string(), show_default_shell: false },
        uptime: UptimeConfiguration { title: "Uptime".to_string(), title_color: None, title_bold: None, title_italic: None, separator: None, format: None },
        battery: BatteryConfiguration { title: "Battery {index}".to_string(), title_color: None, title_bold: None, title_italic: None, separator: None, format: "{percentage}%".to_string(), progress_left_border: None, progress_right_border: None, progress_progress: None, progress_empty: None, progress_target_length: None, decimal_places: None },
        locale: LocaleConfiguration { title: "Locale".to_string(), title_color: None, title_bold: None, title_italic: None, separator: None, format: "{language} ({encoding})".to_string() },
        player: PlayerConfiguration { title: "Player ({player})".to_string(), title_color: None, title_bold: None, title_italic: None, separator: None, ignore: Vec::new(), format: "{track} by {track_artists} ({album}) [{status}]".to_string() },
        editor: EditorConfiguration { title: "Editor".to_string(), title_color: None, title_bold: None, title_italic: None, separator: None, format: "{name} {version}".to_string(), fancy: true },
        initsys: InitSystemConfiguration { title: "Init System".to_string(), format: "{name} {version}".to_string(), title_color: None, title_bold: None, title_italic: None, separator: None },
        processes: ProcessesConfiguration { title: "Total Processes".to_string(), title_color: None, title_bold: None, title_italic: None, separator: None, format: None },
        datetime: DateTimeConfiguration { title: "Date/Time".to_string(), title_color: None, title_bold: None, title_italic: None, separator: None, format: "%H:%M:%S on %e %B %G".to_string() },
        localip: LocalIPConfiguration { title: "Local IP ({interface})".to_string(), title_color: None, title_bold: None, title_italic: None, separator: None, format: "{addr}".to_string() },
        theme: ThemeConfiguration { title: "Theme".to_string(), title_color: None, title_bold: None, title_italic: None, separator: None, format: None },
        icontheme: IconThemeConfiguration { title: "Icons".to_string(), title_color: None, title_bold: None, title_italic: None, separator: None, format: None },
    }
}

#[test]
fn max_title_length_takes_the_widest_title() {
    let config = sample_config(&["cpu", "gpu", "os", "unknown_entry"]);
    assert_eq!(calc_max_title_length(&config, &None, &None), 16);
}

#[test]
fn max_title_length_counts_characters() {
    let mut config = sample_config(&["cpu"]);
    config.cpu.title = "Prozessör".to_string();
    assert_eq!(calc_max_title_length(&config, &None, &None), 9);
}

#[test]
fn max_title_length_uses_mount_and_display_widths() {
    let config = sample_config(&["cpu", "mounts", "displays"]);
    assert_eq!(calc_max_title_length(&config, &Some(vec![5, 12]), &Some(vec![7])), 12);
    assert_eq!(calc_max_title_length(&config, &None, &Some(vec![30, 2])), 30);
    assert_eq!(calc_max_title_length(&config, &None, &None), 3);
}

#[test]
fn gpu_index_title_leaves_room_for_the_index() {
    let mut config = sample_config(&["gpu", "os"]);
    config.gpu.title = "GPU {index}".to_string();
    // "GPU {index}" is 11 characters; two are left for the index, and the count ends there.
    assert_eq!(calc_max_title_length(&config, &None, &None), 6);
    config.modules = vec!["gpu".to_string(), "cpu".to_string()];
    assert_eq!(calc_max_title_length(&config, &None, &None), 6);
    config.gpu.title = "G{index}".to_string();
    config.cpu.title = "Central Process".to_string();
    assert_eq!(calc_max_title_length(&config, &None, &None), 3);
    config.modules = vec!["cpu".to_string(), "gpu".to_string()];
    assert_eq!(calc_max_title_length(&config, &None, &None), 15);
    config.gpu.title = "GPU".to_string();
    config.modules = vec!["gpu".to_string(), "cpu".to_string()];
    assert_eq!(calc_max_title_length(&config, &None, &None), 15);
}

#[test]
fn empty_module_list_has_no_title_width() {
    let config = sample_config(&[]);
    assert_eq!(calc_max_title_length(&config, &None, &None), 0);
}

#[test]
fn widest_of_widths() {
    assert_eq!(vec_max(&vec![3, 9, 4]), 9);
    assert_eq!(vec_max(&vec![]), 0);
}

#[test]
fn errors_shown_only_when_nothing_silences_them() {
    assert!(log_errors(false, false));
    assert!(!log_errors(false, true));
    assert!(!log_errors(true, false));
    assert!(!log_errors(true, true));
}

#[test]
fn underline_repeats_its_character() {
    assert_eq!(underline_line('-', "5"), "-----");
    assert_eq!(underline_line('―', "+2"), "――");
    assert_eq!(underline_line('=', "0"), "");
    assert_eq!(repeat_char('x', 3), "xxx");
}

#[test]
fn segment_top_names_the_segment() {
    assert_eq!(segment_top_line("[ {name} ]", "Info"), "[ Info ]");
    assert_eq!(segment_top_line("{name}-{name}", "a"), "a-a");
}

#[test]
fn segment_bottom_fills_the_gap() {
    assert_eq!(segment_bottom_line("[{name_sized_gap:=}]", 3), "[=====]");
    assert_eq!(segment_bottom_line("<{name_sized_gap:-}>{name_sized_gap:-}", 0), "<-->--");
}

#[test]
fn ascii_art_keeps_lines_with_text() {
    assert_eq!(ascii_lines("a\n  \nb\n"), vec!["a".to_string(), "b".to_string()]);
    assert_eq!(ascii_lines(""), Vec::<String>::new());
    assert_eq!(ascii_target_length(true, 10, 4), 14);
    assert_eq!(ascii_target_length(false, 10, 4), 0);
}

#[test]
fn output_on_the_left_is_one_entry_per_line() {
    let config = sample_config(&[]);
    let out = vec!["one".to_string(), "two".to_string()];
    assert_eq!(render_output(&config, &Vec::new(), 4, &out), "one\ntwo\n");
}

#[test]
fn output_with_art_on_the_right_is_padded() {
    let mut config = sample_config(&[]);
    config.ascii.side = "right".to_string();
    config.ascii.margin = 2;
    let out = vec!["\u{1b}[31mab\u{1b}[0m".to_string(), "abcd".to_string()];
    assert_eq!(
        render_output(&config, &Vec::new(), 2, &out),
        "\u{1b}[31mab\u{1b}[0m    \nabcd  \n"
    );
}

#[test]
fn output_with_art_on_top_or_bottom_adds_the_margin() {
    let mut config = sample_config(&[]);
    config.ascii.side = "top".to_string();
    config.ascii.margin = 2;
    let out = vec!["x".to_string()];
    assert_eq!(render_output(&config, &Vec::new(), 2, &out), "\n\nx\n");
    config.ascii.side = "bottom".to_string();
    assert_eq!(render_output(&config, &Vec::new(), 2, &out), "x\n\n\n");
    config.ascii.display = false;
    assert_eq!(render_output(&config, &Vec::new(), 0, &out), "x\n");
}

#[test]
fn default_entries() {
    let m = default_modules();
    assert_eq!(m.len(), 25);
    assert_eq!(m[0], "hostname");
    assert_eq!(m[1], "underline:16");
    assert_eq!(m[24], "bright_colors");
}

#[test]
fn module_override_is_comma_separated() {
    assert_eq!(module_override_list("cpu,gpu,underline:16"), vec!["cpu", "gpu", "underline:16"]);
    assert_eq!(module_override_list("cpu"), vec!["cpu"]);
    assert_eq!(module_override_list(""), vec![""]);
}

#[test]
fn config_directories_in_order() {
    assert_eq!(
        config_dir_candidates(Some("/x".to_string()), Some("/home/u".to_string()), "config.toml"),
        vec!["/x/CrabFetch/config.toml", "/home/u/.config/CrabFetch/config.toml"]
    );
    assert_eq!(
        config_dir_candidates(None, Some("/home/u".to_string()), "ascii"),
        vec!["/home/u/.config/CrabFetch/ascii"]
    );
    assert!(config_dir_candidates(None, None, "ascii").is_empty());
}

#[test]
fn override_none_means_no_file() {
    assert_eq!(override_path(&Some("none".to_string())), None);
    assert_eq!(override_path(&None), None);
    assert_eq!(override_path(&Some("/etc/crab.toml".to_string())), Some("/etc/crab.toml".to_string()));
}

#[test]
fn override_expands_the_home_directory() {
    let p = override_path(&Some("~/crab.toml".to_string())).unwrap();
    assert!(p.ends_with("/crab.toml"));
    assert!(!p.starts_with('~'));
    assert_eq!(override_path(&Some("~user/crab.toml".to_string())), Some("~user/crab.toml".to_string()));
}

#[test]
fn config_path_choices() {
    let over = Some("~/c.toml".to_string());
    assert_eq!(
        config_path(&over, Some("/h/c.toml".to_string()), true, None).ok(),
        Some(Some("/h/c.toml".to_string()))
    );
    let e = config_path(&over, Some("/h/c.toml".to_string()), false, None).err().unwrap();
    assert_eq!(e.config_file, "/h/c.toml");
    assert_eq!(e.message, "Unable to find config file.");
    assert_eq!(e.to_display_string(), "Failed to parse from file '/h/c.toml': Unable to find config file.");
    assert_eq!(config_path(&Some("none".to_string()), None, false, Some("/f".to_string())).ok(), Some(None));
    assert_eq!(config_path(&None, None, false, Some("/f".to_string())).ok(), Some(Some("/f".to_string())));
}

#[test]
fn ascii_override_needs_a_readable_file() {
    assert_eq!(check_for_ascii_override(true, true, Ok("art".to_string())), Some("art".to_string()));
    assert_eq!(check_for_ascii_override(true, true, Err("denied".to_string())), None);
    assert_eq!(check_for_ascii_override(false, true, Ok("art".to_string())), None);
    assert_eq!(check_for_ascii_override(true, false, Ok("art".to_string())), None);
}

#[test]
fn generated_config_location() {
    assert_eq!(default_config_path(Some("/x".to_string()), None), "/x/CrabFetch/config.toml");
    assert_eq!(
        default_config_path(None, Some("/home/u".to_string())),
        "/home/u/.config/CrabFetch/config.toml"
    );
}

#[test]
fn segment_display() {
    let mut s = Segment::new();
    assert_eq!(s.to_display_string(), "------");
    s.title = "Hardware".to_string();
    assert_eq!(s.to_display_string(), "------Hardware");
}
