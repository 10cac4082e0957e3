use handy_meeting::meeting::MeetingRecordingState;
use handy_meeting::zoom_detection::{
    is_zoom_meeting_active, title_indicates_zoom_meeting, ForegroundWindow, ZoomAutoDetector,
    ZoomPollAction,
};

#[test]
fn detects_zoom_meeting_titles() {
    assert!(title_indicates_zoom_meeting("Zoom Meeting - Project Sync"));
    assert!(title_indicates_zoom_meeting("Meeting Controls"));
    assert!(title_indicates_zoom_meeting("Zoom Workplace - Quarterly Review"));
    assert!(title_indicates_zoom_meeting("Quarterly Review - Zoom Workplace"));
    assert!(title_indicates_zoom_meeting("Waiting for host - Zoom"));
}

#[test]
fn ignores_non_meeting_titles() {
    assert!(!title_indicates_zoom_meeting("Zoom Workplace"));
    assert!(!title_indicates_zoom_meeting("Chat - Zoom Workplace"));
    assert!(!title_indicates_zoom_meeting("Calendar - Zoom Workplace"));
    assert!(!title_indicates_zoom_meeting("Spotify"));
}

#[test]
fn title_check_ignores_ascii_case() {
    for t in [
        "ZOOM MEETING",
        "zoom meeting",
        "Joining Meeting...",
        "chat - zoom workplace",
        "CHAT - ZOOM WORKPLACE",
        "Webinar Chat - Zoom Workplace",
        "",
    ] {
        assert_eq!(
            title_indicates_zoom_meeting(t),
            title_indicates_zoom_meeting(&t.to_ascii_lowercase())
        );
    }
}

#[test]
fn workplace_titles_with_markers() {
    // a webinar title that also names another part of Workplace still counts
    assert!(title_indicates_zoom_meeting("Webinar Chat - Zoom Workplace"));
    assert!(!title_indicates_zoom_meeting("Settings - Zoom Workplace"));
    assert!(!title_indicates_zoom_meeting("Home - Zoom Workplace"));
    assert!(title_indicates_zoom_meeting("Design Review - Zoom Workplace"));
    assert!(title_indicates_zoom_meeting("zoom something meeting"));
    assert!(!title_indicates_zoom_meeting("Zoom"));
    assert!(!title_indicates_zoom_meeting("Team meeting notes"));
}

fn window(pid: u32, image: Option<&str>, title: Option<&str>) -> Option<ForegroundWindow> {
    Some(ForegroundWindow {
        process_id: pid,
        process_image_name: image.map(|s| s.to_string()),
        title: title.map(|s| s.to_string()),
    })
}

#[test]
fn zoom_foreground_window_decides() {
    let zoom = "C:\\Program Files\\Zoom\\bin\\Zoom.exe";
    assert!(is_zoom_meeting_active(window(42, Some(zoom), Some("Zoom Meeting"))));
    assert!(is_zoom_meeting_active(window(42, Some("/opt/zoom/ZOOM.EXE"), Some("Meeting Controls"))));
    assert!(!is_zoom_meeting_active(None));
    assert!(!is_zoom_meeting_active(window(0, Some(zoom), Some("Zoom Meeting"))));
    assert!(!is_zoom_meeting_active(window(42, None, Some("Zoom Meeting"))));
    assert!(!is_zoom_meeting_active(window(42, Some("C:\\Apps\\notzoom.exe"), Some("Zoom Meeting"))));
    assert!(!is_zoom_meeting_active(window(42, Some("C:\\Apps\\chrome.exe"), Some("Zoom Meeting"))));
    assert!(!is_zoom_meeting_active(window(42, Some(zoom), None)));
    assert!(!is_zoom_meeting_active(window(42, Some(zoom), Some("Spotify"))));
}

#[test]
fn detector_starts_after_two_sightings_and_stops_after_four_misses() {
    let mut d = ZoomAutoDetector::new();
    let idle = MeetingRecordingState::Idle;
    let rec = MeetingRecordingState::Recording;
    assert_eq!(d.poll(true, true, idle, false), ZoomPollAction::Continue);
    assert_eq!(d.poll(true, true, idle, false), ZoomPollAction::StartRecording);
    assert_eq!(d.active_streak, 2);
    assert_eq!(d.poll(true, true, rec, true), ZoomPollAction::Continue);
    assert_eq!(d.poll(true, false, rec, true), ZoomPollAction::Continue);
    assert_eq!(d.active_streak, 0);
    assert_eq!(d.poll(true, false, rec, true), ZoomPollAction::Continue);
    assert_eq!(d.poll(true, false, rec, true), ZoomPollAction::Continue);
    assert_eq!(d.poll(true, false, rec, true), ZoomPollAction::StopRecording);
    assert_eq!(d.inactive_streak, 4);
    // a recording the detection did not start is never stopped by it
    assert_eq!(d.poll(true, false, rec, false), ZoomPollAction::Continue);
}

#[test]
fn detector_is_reset_while_disabled_and_saturates() {
    let mut d = ZoomAutoDetector { active_streak: 255, inactive_streak: 0 };
    assert_eq!(d.poll(true, true, MeetingRecordingState::Recording, false), ZoomPollAction::Continue);
    assert_eq!(d.active_streak, 255);
    assert_eq!(d.poll(false, true, MeetingRecordingState::Idle, false), ZoomPollAction::Continue);
    assert_eq!(d, ZoomAutoDetector { active_streak: 0, inactive_streak: 0 });
    // not idle: no automatic start however long the meeting is seen
    let mut d = ZoomAutoDetector::new();
    for _ in 0..5 {
        assert_eq!(d.poll(true, true, MeetingRecordingState::Paused, false), ZoomPollAction::Continue);
    }
}
