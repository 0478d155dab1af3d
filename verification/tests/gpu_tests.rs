use enteract::gpu::{
    extract_memory_from_string, parse_lspci_line, parse_lspci_output, parse_nvidia_smi_line,
    parse_u64_chars, vendor_from_name, GpuVendor,
};
use enteract::gpu::{add_gpu_unless_listed, gpus_or_generic, detect_generic_gpus, parse_macos_gpu_data, parse_windows_gpu_data, MacDisplayEntry, WindowsVideoController};

#[test]
fn nvidia_smi_line() {
    let g = parse_nvidia_smi_line("NVIDIA GeForce RTX 3080, 535.54.03, 10240, 1024, 45, 12, 00000000:01:00.0")
        .expect("seven fields");
    assert_eq!(g.name, "NVIDIA GeForce RTX 3080");
    assert_eq!(g.driver_version.as_deref(), Some("535.54.03"));
    assert_eq!(g.memory_total, Some(10240));
    assert_eq!(g.memory_used, Some(1024));
    assert_eq!(g.temperature_text.as_deref(), Some("45"));
    assert_eq!(g.utilization_text.as_deref(), Some("12"));
    assert_eq!(g.vendor, GpuVendor::Nvidia);
    assert_eq!(g.pci_id.as_deref(), Some("00000000:01:00.0"));
}

#[test]
fn nvidia_smi_short_line_is_ignored() {
    assert!(parse_nvidia_smi_line("a, b, c").is_none());
    let g = parse_nvidia_smi_line("X, d, [N/A], -5, t, u, p").unwrap();
    assert_eq!(g.memory_total, None);
    assert_eq!(g.memory_used, None);
}

#[test]
fn u64_parsing_matches_std() {
    for s in ["0", "42", "+7", "18446744073709551615", "18446744073709551616", "", "+", "-1", "1 ", "0x10"] {
        let v: Vec<char> = s.chars().collect();
        assert_eq!(parse_u64_chars(&v), s.parse::<u64>().ok(), "input {:?}", s);
    }
}

#[test]
fn memory_sizes() {
    assert_eq!(extract_memory_from_string("8 GB"), Some(8192));
    assert_eq!(extract_memory_from_string("512 MB"), Some(512));
    assert_eq!(extract_memory_from_string("2048 kb"), Some(2));
    assert_eq!(extract_memory_from_string("7 TB"), Some(7));
    assert_eq!(extract_memory_from_string("0 MB"), Some(0));
    assert_eq!(extract_memory_from_string("lots of"), None);
    assert_eq!(extract_memory_from_string("8GB"), None);
}

#[test]
fn vendors_from_names() {
    assert_eq!(vendor_from_name("NVIDIA GeForce"), GpuVendor::Nvidia);
    assert_eq!(vendor_from_name("AMD Radeon Pro"), GpuVendor::Amd);
    assert_eq!(vendor_from_name("ATI RADEON"), GpuVendor::Amd);
    assert_eq!(vendor_from_name("Intel UHD 620"), GpuVendor::Intel);
    assert_eq!(vendor_from_name("Matrox"), GpuVendor::Unknown);
}

#[test]
fn lspci_lines() {
    let g = parse_lspci_line("00:02.0 VGA compatible controller: Intel Corporation UHD Graphics 620 (rev 07)").unwrap();
    assert_eq!(g.name, "Intel Corporation UHD Graphics 620 (rev 07)");
    assert_eq!(g.vendor, GpuVendor::Intel);
    assert_eq!(g.pci_id.as_deref(), Some("00:02.0"));
    assert!(parse_lspci_line("no separator here").is_none());
    assert!(parse_lspci_line(": starts with separator").is_none());
}

#[test]
fn lspci_output_keeps_display_devices() {
    let out = "00:00.0 Host bridge: Intel Corporation Xeon\n\
               00:02.0 VGA compatible controller: Intel Corporation UHD 620\n\
               01:00.0 3D controller: NVIDIA Corporation GP108M\r\n\
               02:00.0 Display controller: Advanced Micro Devices Radeon\n";
    let gpus = parse_lspci_output(out);
    assert_eq!(gpus.len(), 3);
    assert_eq!(gpus[0].vendor, GpuVendor::Intel);
    assert_eq!(gpus[1].name, "NVIDIA Corporation GP108M");
    assert_eq!(gpus[1].vendor, GpuVendor::Nvidia);
    assert_eq!(gpus[2].pci_id.as_deref(), Some("02:00.0"));
    assert_eq!(gpus[2].vendor, GpuVendor::Amd);
}

#[test]
fn windows_video_controller_entry() {
    let e = WindowsVideoController {
        name: Some("AMD Radeon RX 6800".to_string()),
        driver_version: Some("31.0.1".to_string()),
        adapter_ram: Some(4_293_918_720),
        pnp_device_id: Some("PCI\\VEN_1002".to_string()),
    };
    let g = parse_windows_gpu_data(&e).unwrap();
    assert_eq!(g.name, "AMD Radeon RX 6800");
    assert_eq!(g.vendor, GpuVendor::Amd);
    assert_eq!(g.memory_total, Some(4095));
    assert_eq!(g.driver_version.as_deref(), Some("31.0.1"));
    assert_eq!(g.pci_id.as_deref(), Some("PCI\\VEN_1002"));
    assert_eq!(g.memory_used, None);
    let none = WindowsVideoController { name: None, driver_version: None, adapter_ram: Some(1), pnp_device_id: None };
    assert!(parse_windows_gpu_data(&none).is_none());
    let bare = WindowsVideoController { name: Some("Basic Display".to_string()), driver_version: None, adapter_ram: None, pnp_device_id: None };
    let b = parse_windows_gpu_data(&bare).unwrap();
    assert_eq!(b.vendor, GpuVendor::Unknown);
    assert_eq!(b.memory_total, None);
}

#[test]
fn macos_display_entry() {
    let e = MacDisplayEntry { model: Some("Intel Iris Plus".to_string()), vram: Some("1536 MB".to_string()) };
    let g = parse_macos_gpu_data(&e).unwrap();
    assert_eq!(g.vendor, GpuVendor::Intel);
    assert_eq!(g.memory_total, Some(1536));
    let no_vram = MacDisplayEntry { model: Some("Apple M1".to_string()), vram: None };
    assert_eq!(parse_macos_gpu_data(&no_vram).unwrap().memory_total, Some(0));
    let gb = MacDisplayEntry { model: Some("NVIDIA GT 750M".to_string()), vram: Some("2 GB".to_string()) };
    let g2 = parse_macos_gpu_data(&gb).unwrap();
    assert_eq!(g2.memory_total, Some(2048));
    assert_eq!(g2.vendor, GpuVendor::Nvidia);
    assert!(parse_macos_gpu_data(&MacDisplayEntry { model: None, vram: None }).is_none());
}

#[test]
fn generic_gpu_placeholder() {
    let v = detect_generic_gpus();
    assert_eq!(v.len(), 1);
    assert_eq!(v[0].name, "Generic Graphics Device");
    assert_eq!(v[0].vendor, GpuVendor::Unknown);
}

#[test]
fn cards_listed_once_by_name() {
    let mut gpus = Vec::new();
    let card = |n: &str| parse_macos_gpu_data(&MacDisplayEntry { model: Some(n.to_string()), vram: None }).unwrap();
    assert!(add_gpu_unless_listed(&mut gpus, card("NVIDIA RTX 4090")));
    assert!(add_gpu_unless_listed(&mut gpus, card("Intel UHD 770")));
    assert!(!add_gpu_unless_listed(&mut gpus, card("NVIDIA RTX 4090")));
    assert_eq!(gpus.len(), 2);
    assert_eq!(gpus_or_generic(gpus).len(), 2);
    let fallback = gpus_or_generic(Vec::new());
    assert_eq!(fallback.len(), 1);
    assert_eq!(fallback[0].name, "Generic Graphics Device");
}
