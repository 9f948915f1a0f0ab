use comfy_launcher::paths::same_path;
use comfy_launcher::gpu::{
    mac_vram_gb, note_name, scan_lspci, scan_mac, scan_windows, unified_memory_gb, GpuInfo, MacDisplay,
};

fn devices(gpus: &[GpuInfo]) -> Vec<(String, i32, String, u64)> {
    gpus.iter().map(|g| (g.backend.clone(), g.id, g.name.clone(), g.vram_gb)).collect()
}

fn d(backend: &str, id: i32, name: &str, vram: u64) -> (String, i32, String, u64) {
    (backend.to_string(), id, name.to_string(), vram)
}

#[test]
fn note_name_is_case_insensitive() {
    let mut seen: Vec<Vec<char>> = Vec::new();
    assert!(note_name(&mut seen, "Radeon RX 7900"));
    assert!(!note_name(&mut seen, "RADEON rx 7900"));
    assert!(note_name(&mut seen, "Arc A770"));
    assert_eq!(seen.len(), 2);
}

#[test]
fn lspci_lists_amd_and_other_display_controllers() {
    let text = "00:02.0 Display controller: Matrox Electronics Systems Ltd. G200eR2 (rev 01)\n\
                01:00.0 VGA compatible controller: NVIDIA Corporation AD102 [GeForce RTX 4090] (rev a1)\n\
                03:00.0 Display controller: Advanced Micro Devices, Inc. [AMD/ATI] Navi 31 [Radeon RX 7900 XTX] (rev c8)\n\
                04:00.0 Ethernet controller: Intel Corporation I211 Gigabit Network Connection (rev 03)\n";
    let mut gpus = Vec::new();
    let mut seen = Vec::new();
    scan_lspci(text, &mut gpus, &mut seen);
    assert_eq!(
        devices(&gpus),
        vec![
            d("other", 0, "Matrox Electronics Systems Ltd. G200eR2", 0),
            d("rocm", 0, "Navi 31 [Radeon RX 7900 XTX]", 0),
        ]
    );
}

#[test]
fn windows_lists_nvidia_twice_and_others_once() {
    let adapters = vec![
        ("  NVIDIA GeForce RTX 3060 ".to_string(), 12 * 1024 * 1024 * 1024u64),
        ("Intel(R) UHD Graphics".to_string(), 1024 * 1024 * 1024u64 + 5),
        ("nvidia geforce rtx 3060".to_string(), 0),
        ("".to_string(), 0),
        ("AMD Radeon RX 6600".to_string(), 512 * 1024 * 1024u64),
    ];
    let mut gpus = Vec::new();
    let mut seen = Vec::new();
    scan_windows(&adapters, &mut gpus, &mut seen);
    assert_eq!(
        devices(&gpus),
        vec![
            d("cuda", 0, "NVIDIA GeForce RTX 3060", 12),
            d("dml", 0, "NVIDIA GeForce RTX 3060", 12),
            d("dml", 1, "Intel(R) UHD Graphics", 1),
            d("dml", 2, "AMD Radeon RX 6600", 0),
        ]
    );
    assert_eq!(seen.len(), 3);
}

#[test]
fn windows_skips_names_listed_by_earlier_tools() {
    let mut seen = Vec::new();
    assert!(note_name(&mut seen, "NVIDIA GeForce RTX 3060"));
    let mut gpus = Vec::new();
    scan_windows(&vec![("NVIDIA GeForce RTX 3060".to_string(), 0)], &mut gpus, &mut seen);
    assert!(gpus.is_empty());
}

#[test]
fn mac_vram_texts() {
    assert_eq!(mac_vram_gb("8 GB"), Some(8));
    assert_eq!(mac_vram_gb("1536 MB"), Some(1));
    assert_eq!(mac_vram_gb("  16 GB"), Some(16));
    assert_eq!(mac_vram_gb("about 8 GB"), None);
    assert_eq!(mac_vram_gb(""), None);
    assert_eq!(mac_vram_gb("18446744073709551616 GB"), None);
    assert_eq!(mac_vram_gb("18446744073709551615 GB"), Some(u64::MAX));
}

#[test]
fn unified_memory_from_sysctl() {
    assert_eq!(unified_memory_gb("17179869184\n"), 16);
    assert_eq!(unified_memory_gb("1073741823"), 0);
    assert_eq!(unified_memory_gb("n/a"), 0);
}

#[test]
fn mac_displays_use_position_and_unified_memory() {
    let md = |m: Option<&str>, v: Option<&str>| MacDisplay { model: m.map(String::from), vram: v.map(String::from) };
    let displays = vec![
        md(Some("Apple M2 Pro"), None),
        md(None, Some("4 GB")),
        md(Some("AMD Radeon Pro 5500M"), Some("8192 MB")),
        md(Some("apple m2 pro"), Some("8 GB")),
        md(Some("Intel UHD Graphics 630"), Some("Dynamic")),
    ];
    let mut gpus = Vec::new();
    let mut seen = Vec::new();
    scan_mac(&displays, 32, &mut gpus, &mut seen);
    assert_eq!(
        devices(&gpus),
        vec![
            d("mps", 0, "Apple M2 Pro", 32),
            d("mps", 2, "AMD Radeon Pro 5500M", 8),
            d("mps", 4, "Intel UHD Graphics 630", 32),
        ]
    );
}

#[test]
fn paths_compare_by_components() {
    assert!(same_path("/home/u/ComfyUI", "/home/u//ComfyUI/"));
    assert!(same_path("/home/u/./ComfyUI", "/home/u/ComfyUI"));
    assert!(!same_path("/home/u/ComfyUI", "home/u/ComfyUI"));
    assert!(!same_path("./ComfyUI", "ComfyUI"));
    assert!(!same_path("/home/u/../ComfyUI", "/home/ComfyUI"));
    assert!(!same_path("/a/b", "/a/c"));
}

#[test]
fn pad_keeps_exact_width_when_truncating_wide_text() {
    use_pad();
}

fn use_pad() {
    assert_eq!(comfy_launcher::text::pad_to_width("日日日", 4), "日… ");
    assert_eq!(comfy_launcher::text::width(&comfy_launcher::text::pad_to_width("日日日", 4)), 4);
}

#[test]
fn wrap_never_exceeds_the_limit_after_a_leading_space() {
    let lines = comfy_launcher::text::wrap_to_width(" ab日", 3);
    assert_eq!(lines, vec![" ab".to_string(), "日".to_string()]);
    for l in &lines {
        assert!(comfy_launcher::text::width(l) <= 3);
    }
}
