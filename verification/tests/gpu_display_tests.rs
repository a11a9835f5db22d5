use crabfetch::modules::displays::{count_roundtrip, edid_make_model, wayland_reads_edid, xorg_display, DISPLAYS_INFOFLAG_MAKE, DISPLAYS_INFOFLAG_MODEL};
use crabfetch::modules::gpu::{cached_gpus, gpu_cache_text, CacheFile, GPUInfo, GPUMethod};

fn gpu(vendor: &str, model: &str, vram_mb: u32) -> GPUInfo {
    GPUInfo { vendor: vendor.to_string(), model: model.to_string(), vram_mb }
}

#[test]
fn gpu_cache_states() {
    assert!(cached_gpus(GPUMethod::PCISysFile, false, CacheFile::Contents("pcisysfile\nAMD\nRX\n8\n\n".to_string())).is_none());
    assert!(cached_gpus(GPUMethod::PCISysFile, true, CacheFile::Absent).is_none());
    assert!(cached_gpus(GPUMethod::PCISysFile, true, CacheFile::CannotOpen).is_none());
    let e = cached_gpus(GPUMethod::GLXInfo, true, CacheFile::ReadError("stream did not contain valid UTF-8".to_string()))
        .unwrap().err().unwrap();
    assert_eq!(e.module_name, "GPU");
    assert_eq!(e.message, "GPU Cache exists, but cannot read from it - stream did not contain valid UTF-8");
}

#[test]
fn gpu_cache_entries_of_the_other_method_read_as_blank() {
    let text = "glxinfo\nIntel\nUHD 620\n0\n\npcisysfile\nAMD\nRadeon RX 7800 XT\n16384\n\n".to_string();
    let gpus = cached_gpus(GPUMethod::PCISysFile, true, CacheFile::Contents(text.clone())).unwrap().ok().unwrap();
    assert_eq!(gpus.len(), 2);
    assert_eq!((gpus[0].vendor.as_str(), gpus[0].model.as_str(), gpus[0].vram_mb), ("", "", 0));
    assert_eq!((gpus[1].vendor.as_str(), gpus[1].model.as_str(), gpus[1].vram_mb), ("AMD", "Radeon RX 7800 XT", 16384));
    let gpus = cached_gpus(GPUMethod::GLXInfo, true, CacheFile::Contents(text)).unwrap().ok().unwrap();
    assert_eq!(gpus.len(), 2);
    assert_eq!((gpus[0].vendor.as_str(), gpus[0].model.as_str(), gpus[0].vram_mb), ("Intel", "UHD 620", 0));
    assert_eq!((gpus[1].vendor.as_str(), gpus[1].model.as_str(), gpus[1].vram_mb), ("", "", 0));
    let written = gpu_cache_text(GPUMethod::GLXInfo, &vec![gpu("NVIDIA", "GeForce", 8192)]);
    let back = cached_gpus(GPUMethod::GLXInfo, true, CacheFile::Contents(written)).unwrap().ok().unwrap();
    assert_eq!((back[0].vendor.as_str(), back[0].model.as_str(), back[0].vram_mb), ("NVIDIA", "GeForce", 8192));
}

#[test]
fn xorg_rotations() {
    // The 270-degree bit lies above the three bits that are read.
    let d = xorg_display("HDMI-1".to_string(), "DEL".to_string(), "U2720Q".to_string(), 1920, 1080, 148_500_000, 2200, 1125, 8);
    assert_eq!((d.rotation, d.width, d.height, d.refresh_rate), (0, 1920, 1080, 60));
    let d = xorg_display("HDMI-1".to_string(), String::new(), String::new(), 1920, 1080, 148_500_000, 2200, 1125, 2 | 16);
    assert_eq!((d.rotation, d.width, d.height), (90, 1080, 1920));
    let d = xorg_display("HDMI-1".to_string(), String::new(), String::new(), 1920, 1080, 148_500_000, 2200, 1125, 2);
    assert_eq!((d.rotation, d.width, d.height), (90, 1080, 1920));
    let d = xorg_display("HDMI-1".to_string(), String::new(), String::new(), 1920, 1080, 148_500_000, 2200, 1125, 4);
    assert_eq!((d.rotation, d.width, d.height), (180, 1920, 1080));
    let d = xorg_display("HDMI-1".to_string(), String::new(), String::new(), 1920, 1080, 148_500_000, 2200, 1125, 1);
    assert_eq!((d.rotation, d.width, d.height), (0, 1920, 1080));
}

#[test]
fn edid_name_of_thirteen_characters() {
    let mut edid = vec![0u8; 128];
    edid[8] = 0x10;
    edid[9] = 0xAC;
    edid[10] = 0x34;
    edid[11] = 0x12;
    // The first descriptor is a timing; the second names the display.
    edid[54] = 0x01;
    edid[55] = 0x1D;
    edid[75] = 0xFC;
    for (i, b) in "ABCDEFGHIJKLM".bytes().enumerate() {
        edid[77 + i] = b;
    }
    let (make, model) = edid_make_model(&edid);
    assert_eq!(make, "DEL");
    assert_eq!(model, "ABCDEFGHIJKLM");
    let mut short = edid.clone();
    short[77 + 7] = b'\n';
    for i in 8..13 {
        short[77 + i] = b' ';
    }
    assert_eq!(edid_make_model(&short).1, "ABCDEFG");
    let mut none = edid.clone();
    none[75] = 0;
    assert_eq!(edid_make_model(&none).1, "DEL1234");
}

#[test]
fn wayland_roundtrips_and_edid_choice() {
    assert_eq!(count_roundtrip(0).ok(), Some(1));
    assert_eq!(count_roundtrip(999).ok(), Some(1000));
    let e = count_roundtrip(1000).err().unwrap();
    assert_eq!(e.module_name, "Display");
    assert_eq!(e.message, "Wayland compositor took too long to respond; over 1000 event loops have passed.");
    assert!(wayland_reads_edid(DISPLAYS_INFOFLAG_MAKE, false));
    assert!(wayland_reads_edid(DISPLAYS_INFOFLAG_MODEL, false));
    assert!(!wayland_reads_edid(DISPLAYS_INFOFLAG_MAKE | DISPLAYS_INFOFLAG_MODEL, true));
    assert!(!wayland_reads_edid(0, false));
}
