use enteract::audio::{
    auto_select_best_device, find_device_by_id, AudioDeviceSettings, AudioLoopbackDevice, DeviceType,
    EmbeddingConfig, LoopbackMethod,
};
use enteract::audio::{is_potential_loopback_capture_device, is_stereo_mix_device};
use enteract::audio::{after_failed_init, after_read, auto_select_default_first, capture_buffer_size, sort_loopback_devices};

fn dev(id: &str, default: bool, t: DeviceType, m: LoopbackMethod) -> AudioLoopbackDevice {
    AudioLoopbackDevice {
        id: id.to_string(),
        name: format!("Device {}", id),
        is_default: default,
        sample_rate: 48000,
        channels: 2,
        format: "PCM 16bit".to_string(),
        device_type: t,
        loopback_method: m,
    }
}

#[test]
fn defaults() {
    let s = AudioDeviceSettings::default();
    assert!(s.selected_loopback_device.is_none());
    assert!(!s.loopback_enabled);
    assert_eq!(s.buffer_size, 4096);
    assert_eq!(s.sample_rate, 16000);
    let e = EmbeddingConfig::default();
    assert_eq!(e.model_name, "BAAI/bge-small-en-v1.5");
    assert_eq!(e.max_length, 512);
}

#[test]
fn device_priorities() {
    assert!(auto_select_best_device(&vec![]).is_none());
    let all = vec![
        dev("cap", false, DeviceType::Capture, LoopbackMethod::CaptureDevice),
        dev("mix", false, DeviceType::Capture, LoopbackMethod::StereoMix),
        dev("r", false, DeviceType::Render, LoopbackMethod::RenderLoopback),
        dev("rd", true, DeviceType::Render, LoopbackMethod::RenderLoopback),
    ];
    assert_eq!(auto_select_best_device(&all).unwrap().id, "rd");
    assert_eq!(auto_select_best_device(&all[..3].to_vec()).unwrap().id, "r");
    assert_eq!(auto_select_best_device(&all[..2].to_vec()).unwrap().id, "mix");
    assert_eq!(auto_select_best_device(&all[..1].to_vec()).unwrap().id, "cap");
    let odd = vec![dev("x", false, DeviceType::Render, LoopbackMethod::CaptureDevice), dev("y", true, DeviceType::Render, LoopbackMethod::CaptureDevice)];
    assert_eq!(auto_select_best_device(&odd).unwrap().id, "x");
    assert_eq!(find_device_by_id(&all, "mix"), Some(1));
    assert_eq!(find_device_by_id(&all, "999999"), None);
}

#[test]
fn loopback_capture_names() {
    assert!(is_potential_loopback_capture_device("Stereo Mix (Realtek Audio)"));
    assert!(is_potential_loopback_capture_device("What U Hear"));
    assert!(is_potential_loopback_capture_device("Speakers Capture"));
    assert!(is_potential_loopback_capture_device("Wave Out"));
    assert!(!is_potential_loopback_capture_device("Speakers"));
    assert!(!is_potential_loopback_capture_device("USB Microphone"));
}

#[test]
fn stereo_mix_names() {
    assert!(is_stereo_mix_device("Stereo Mix (Realtek Audio)"));
    assert!(is_stereo_mix_device("STEREOMIX"));
    assert!(is_stereo_mix_device("What You Hear"));
    assert!(!is_stereo_mix_device("Mixer"));
    assert!(!is_stereo_mix_device("Microphone"));
}

fn named(id: &str, name: &str, default: bool) -> AudioLoopbackDevice {
    AudioLoopbackDevice {
        id: id.to_string(),
        name: name.to_string(),
        is_default: default,
        sample_rate: 48000,
        channels: 2,
        format: "32-bit Float".to_string(),
        device_type: DeviceType::Render,
        loopback_method: LoopbackMethod::CaptureDevice,
    }
}

fn listed() -> Vec<AudioLoopbackDevice> {
    sort_loopback_devices(vec![
        named("73", "Zoom Audio", false),
        named("41", "MacBook Pro Speakers", true),
        named("88", "BlackHole 2ch", false),
        named("52", "External Headphones", false),
        named("60", "AirPods", true),
    ])
}

#[test]
fn test_auto_select_best_device() {
    let devices = listed();
    let best = auto_select_default_first(&devices);
    assert_eq!(best, Some(0));
    assert!(auto_select_default_first(&vec![]).is_none());
    let none_default = vec![named("1", "B", false), named("2", "A", false)];
    assert_eq!(auto_select_default_first(&none_default), Some(0));
}

#[test]
fn test_device_find_by_id() {
    let devices = listed();
    let first = &devices[0];
    let found = find_device_by_id(&devices, &first.id).expect("Should have found device by ID");
    assert_eq!(devices[found].id, first.id, "Device ID mismatch");
    assert_eq!(devices[found].name, first.name, "Device name mismatch");
    assert!(find_device_by_id(&devices, "999999").is_none(), "Should not find non-existent device");
}

#[test]
fn test_device_sorting_and_prioritization() {
    let devices = listed();
    let names: Vec<&str> = devices.iter().map(|d| d.name.as_str()).collect();
    assert_eq!(names, vec!["AirPods", "MacBook Pro Speakers", "BlackHole 2ch", "External Headphones", "Zoom Audio"]);
    let mut previous: Option<&AudioLoopbackDevice> = None;
    for device in &devices {
        if let Some(prev) = previous {
            if prev.is_default == device.is_default {
                assert!(prev.name <= device.name);
            } else {
                assert!(prev.is_default && !device.is_default);
            }
        }
        previous = Some(device);
    }
    let best = auto_select_default_first(&devices).unwrap();
    assert!(devices[best].is_default, "Auto-selected device should be default when default devices exist");
}

#[test]
fn devices_listed_in_the_same_place_keep_their_order() {
    let v = sort_loopback_devices(vec![
        named("2", "USB Audio", false),
        named("9", "Built-in", true),
        named("1", "USB Audio", false),
        named("5", "Aux", false),
    ]);
    let ids: Vec<&str> = v.iter().map(|d| d.id.as_str()).collect();
    assert_eq!(ids, vec!["9", "5", "2", "1"]);
}

#[test]
fn capture_loop_decisions() {
    assert_eq!(after_failed_init(1), None);
    assert_eq!(after_failed_init(2), None);
    assert_eq!(
        after_failed_init(3),
        Some("Failed to initialize audio client after 3 attempts. Device may be busy.".to_string())
    );
    assert_eq!(capture_buffer_size(0, 8), None);
    assert_eq!(capture_buffer_size(10, 0), None);
    assert_eq!(capture_buffer_size(100, 8), Some(4096));
    assert_eq!(capture_buffer_size(1000, 8), Some(8000));
    assert_eq!(capture_buffer_size(200_000, 8), None);
    assert_eq!(after_read(0, true), (0, false));
    assert_eq!(after_read(3, true), (2, false));
    assert_eq!(after_read(9, false), (10, false));
    assert_eq!(after_read(10, false), (11, true));
}
