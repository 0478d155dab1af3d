use enteract::eye::{classify_tracker_line, EyeTracker, TrackerLine};
use enteract::screen::{capture_region_origin, MonitorGeometry};

#[test]
fn tracker_lifecycle() {
    let mut t: EyeTracker<(i32, i32), (i32, i32, i32, i32)> = EyeTracker::new();
    assert!(t.check_can_start().is_ok());
    assert_eq!(t.start_calibration().unwrap_err(), "Cannot start calibration: tracking not active");
    t.mark_started();
    assert_eq!(t.check_can_start().unwrap_err(), "ML eye tracking is already running");
    assert_eq!(t.add_calibration_point((0, 0, 0, 0)).unwrap_err(), "Calibration not active");
    t.start_calibration().unwrap();
    assert_eq!(t.calibration_sample().unwrap_err(), "No gaze data available for calibration");
    assert_eq!(t.add_calibration_point((1, 1, 0, 0)).unwrap_err(), "No gaze data available for calibration");
    t.update_gaze_data((5, 6), 1000);
    assert_eq!(*t.calibration_sample().unwrap(), (5, 6));
    t.add_calibration_point((100, 100, 5, 6)).unwrap();
    t.add_calibration_point((200, 100, 5, 6)).unwrap();
    assert_eq!(t.finish_calibration().unwrap(), "Calibration completed with 2 points");
    assert_eq!(t.finish_calibration().unwrap_err(), "Calibration not active");
    assert_eq!(t.frame_stats(), (1, 1000));
    assert!(!t.detect_window_drag());
    t.mark_stopped();
    assert!(!t.is_tracking());
    assert!(t.latest_gaze().is_none());
}

#[test]
fn tracker_lines() {
    assert_eq!(classify_tracker_line("   "), TrackerLine::Blank);
    assert_eq!(classify_tracker_line(" GAZE:{\"x\":1} \n"), TrackerLine::Gaze("{\"x\":1}".to_string()));
    assert_eq!(classify_tracker_line("CALIBRATION:{}"), TrackerLine::Calibration("{}".to_string()));
    assert_eq!(classify_tracker_line("  loading model "), TrackerLine::Other("loading model".to_string()));
}

fn mon(x: i32, y: i32, w: u32, h: u32) -> MonitorGeometry {
    MonitorGeometry { x: Some(x), y: Some(y), width: Some(w), height: Some(h) }
}

#[test]
fn monitor_for_region() {
    let ms = vec![mon(0, 0, 1920, 1080), mon(1920, 0, 1280, 1024)];
    assert_eq!(capture_region_origin(&ms, 100, 50), Ok((0, 100, 50)));
    assert_eq!(capture_region_origin(&ms, 2000, 10), Ok((1, 80, 10)));
    assert_eq!(capture_region_origin(&ms, 5000, 10), Ok((0, 5000, 10)));
    assert_eq!(capture_region_origin(&ms, -5, -5), Ok((0, 0, 0)));
    let unknown = vec![MonitorGeometry { x: None, y: Some(0), width: Some(10), height: Some(10) }];
    assert_eq!(capture_region_origin(&unknown, 3, 4), Ok((0, 3, 4)));
    assert_eq!(
        capture_region_origin(&vec![], 0, 0),
        Err("No suitable monitor found for the specified coordinates".to_string())
    );
}
