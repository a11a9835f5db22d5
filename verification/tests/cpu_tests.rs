use crabfetch::modules::cpu::{
    apply_cpuid_brand, apply_thread_fallback, arch_of_flags, cpu_dir_wanted, fill_name_from_cpuid, gen_info_flags,
    needs_thread_fallback, parse_cpuinfo, remove_trailing_processor, CpuInfoLines,
    CPU_INFOFLAG_ARCH, CPU_INFOFLAG_CORES, CPU_INFOFLAG_CURRENT_CLOCK, CPU_INFOFLAG_MAX_CLOCK,
    CPU_INFOFLAG_MODEL_NAME, CPU_INFOFLAG_THREADS,
};

fn lines(text: &str) -> Vec<String> {
    text.lines().map(|l| l.to_string()).collect()
}

fn no_errors(n: usize) -> Vec<Option<String>> {
    vec![None; n]
}

const ALL: u32 = 63;

const CPUINFO: &str = "processor\t: 0\nmodel name\t: AMD Ryzen 5 3600 6-Core Processor\ncpu MHz\t\t: 2200.000\nsiblings\t: 12\ncpu cores\t: 6\nflags\t\t: fpu vme lm sse\n\nprocessor\t: 1\nmodel name\t: Other Name\ncpu cores\t: 99\ncpu MHz\t\t: 3600.000\n";

#[test]
fn format_flags() {
    assert_eq!(gen_info_flags("{name} ({core_count}c {thread_count}t) @ {max_clock_ghz} GHz"),
        CPU_INFOFLAG_MODEL_NAME | CPU_INFOFLAG_CORES | CPU_INFOFLAG_THREADS | CPU_INFOFLAG_MAX_CLOCK);
    assert_eq!(gen_info_flags("{current_clock_mhz} {arch}"), CPU_INFOFLAG_CURRENT_CLOCK | CPU_INFOFLAG_ARCH);
    assert_eq!(gen_info_flags("nothing"), 0);
}

#[test]
fn cpuinfo_first_block_is_read() {
    let ls = lines(CPUINFO);
    let info = parse_cpuinfo(&ls, ALL, &no_errors(ls.len())).ok().unwrap();
    assert_eq!(info.name, "AMD Ryzen 5 3600 6-Core Processor");
    assert_eq!(info.cores, 6);
    assert_eq!(info.threads, 12);
    assert_eq!(info.arch, "x86_64");
    assert_eq!(info.blank_lines, 1);
}

#[test]
fn cpuinfo_unwanted_details_stay_unknown() {
    let ls = lines(CPUINFO);
    let info = parse_cpuinfo(&ls, CPU_INFOFLAG_CORES, &no_errors(ls.len())).ok().unwrap();
    assert_eq!(info.name, "Unknown");
    assert_eq!(info.cores, 6);
    assert_eq!(info.threads, 0);
    assert_eq!(info.arch, "Unknown");
}

#[test]
fn cpuinfo_bad_core_count_is_an_error() {
    let ls = lines("cpu cores\t: six\n");
    let e = parse_cpuinfo(&ls, ALL, &no_errors(ls.len())).err().unwrap();
    assert_eq!(e.module_name, "CPU");
    assert!(e.message.starts_with("WARNING: Could not parse cpu cores: "));
    assert!(e.message.len() > "WARNING: Could not parse cpu cores: ".len());
}

#[test]
fn cpuinfo_bad_thread_count_is_an_error() {
    let ls = lines("siblings\t: 70000\n");
    let e = parse_cpuinfo(&ls, ALL, &no_errors(ls.len())).err().unwrap();
    assert!(e.message.starts_with("WARNING: Could not parse cpu threads: "));
}

#[test]
fn cpuinfo_bad_clock_is_an_error() {
    let ls = lines("cpu MHz\t\t: fast\n");
    let mut errs = no_errors(ls.len());
    errs[0] = Some("invalid float literal".to_string());
    let e = parse_cpuinfo(&ls, 0, &errs).err().unwrap();
    assert_eq!(e.message, "WARNING: Could not parse current cpu frequency: invalid float literal");
}

#[test]
fn thread_fallback_reads_the_present_range() {
    let ls = lines("processor\t: 0\n\nprocessor\t: 1\n\n");
    let info = parse_cpuinfo(&ls, ALL, &no_errors(ls.len())).ok().unwrap();
    assert!(needs_thread_fallback(&info, ALL));
    assert!(!needs_thread_fallback(&info, CPU_INFOFLAG_THREADS));
    let info = apply_thread_fallback(info, &Ok("0-7\n".to_string())).ok().unwrap();
    assert_eq!(info.cores, 2);
    assert_eq!(info.threads, 8);
}

#[test]
fn thread_fallback_errors() {
    let blank = CpuInfoLines { name: "Unknown".to_string(), cores: 0, threads: 0, arch: "Unknown".to_string(), blank_lines: 1 };
    let e = apply_thread_fallback(blank, &Err("No such file".to_string())).err().unwrap();
    assert_eq!(e.message, "Can't read from /sys/devices/system/cpu/present - No such file");
    let blank = CpuInfoLines { name: "Unknown".to_string(), cores: 0, threads: 0, arch: "Unknown".to_string(), blank_lines: 1 };
    let e = apply_thread_fallback(blank, &Ok("0-x".to_string())).err().unwrap();
    assert!(e.message.starts_with("Failed to parse thread count from /sys/devices/system/cpu/present - "));
}

#[test]
fn single_cpu_present_file() {
    let blank = CpuInfoLines { name: "Unknown".to_string(), cores: 0, threads: 0, arch: "Unknown".to_string(), blank_lines: 1 };
    let info = apply_thread_fallback(blank, &Ok("0".to_string())).ok().unwrap();
    assert_eq!(info.threads, 1);
}

#[test]
fn architecture_from_flags() {
    assert_eq!(arch_of_flags("fpu vme lm sse"), Some("x86_64".to_string()));
    assert_eq!(arch_of_flags("arch_capabilities lm"), Some("IA32".to_string()));
    assert_eq!(arch_of_flags("ia86"), Some("IA86".to_string()));
    assert_eq!(arch_of_flags("fpu vme"), None);
}

#[test]
fn trailing_processor_is_removed() {
    assert_eq!(remove_trailing_processor("AMD Ryzen 5 3600 6-Core Processor"), "AMD Ryzen 5 3600");
    assert_eq!(remove_trailing_processor("Intel(R) Core(TM) i7-8700K CPU @ 3.70GHz"), "Intel(R) Core(TM) i7-8700K CPU @ 3.70GHz");
    assert_eq!(remove_trailing_processor("8-Core Processor"), "");
}

#[test]
fn known_name_is_kept() {
    let info = CpuInfoLines { name: "Named".to_string(), cores: 1, threads: 2, arch: "x86_64".to_string(), blank_lines: 1 };
    let info = fill_name_from_cpuid(info, ALL);
    assert_eq!(info.name, "Named");
    assert_eq!(info.threads, 2);
}

#[test]
fn cpu_directories() {
    assert!(cpu_dir_wanted("cpu0"));
    assert!(cpu_dir_wanted("cpu12"));
    assert!(!cpu_dir_wanted("cpuidle"));
    assert!(!cpu_dir_wanted("cpufreq"));
    assert!(!cpu_dir_wanted("online"));
}

fn unknown_cpu() -> CpuInfoLines {
    CpuInfoLines { name: "Unknown".to_string(), cores: 4, threads: 8, arch: "x86_64".to_string(), blank_lines: 1 }
}

#[test]
fn cpuid_brand_fills_an_unknown_name() {
    let r = apply_cpuid_brand(unknown_cpu(), CPU_INFOFLAG_MODEL_NAME, Some("AMD Ryzen 7".to_string()));
    assert_eq!(r.name, "AMD Ryzen 7");
    assert_eq!((r.cores, r.threads, r.arch.as_str(), r.blank_lines), (4, 8, "x86_64", 1));
    let r = apply_cpuid_brand(unknown_cpu(), CPU_INFOFLAG_MODEL_NAME, None);
    assert_eq!(r.name, "Unknown");
}

#[test]
fn cpuid_brand_ignored_when_not_wanted_or_known() {
    let r = apply_cpuid_brand(unknown_cpu(), CPU_INFOFLAG_CORES, Some("AMD Ryzen 7".to_string()));
    assert_eq!(r.name, "Unknown");
    let mut known = unknown_cpu();
    known.name = "Intel i5".to_string();
    let r = apply_cpuid_brand(known, CPU_INFOFLAG_MODEL_NAME, Some("AMD Ryzen 7".to_string()));
    assert_eq!(r.name, "Intel i5");
}
