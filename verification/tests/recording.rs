use handy_meeting::commands::{get_meeting_permission_status, MeetingPermissionAccess};
use handy_meeting::finalize::{
    action_after_save, chunk_range, meeting_wav_file_name, plan_finalize, segment_bounds,
    segment_count, FinalizeAction, SampleSelection, TRANSCRIPT_SEGMENT_SAMPLES,
};
use handy_meeting::meeting::{
    overlay_for_status, ActiveCapture, MeetingAudioSource, MeetingRecordingManager,
    MeetingRecordingState, MeetingRecordingStatus, MeetingTranscriptMergePolicy, OverlayAction,
    PauseToggleAction, SystemCaptureProbe, ToggleAction,
};
use MeetingAudioSource::{MicrophoneAndSystem, MicrophoneOnly, SystemOnly};
use handy_meeting::screen_capture::{is_supported, start_capture, stop_capture, SystemAudioCaptureResponse};

fn mic_only() -> ActiveCapture {
    ActiveCapture { audio_source: MeetingAudioSource::MicrophoneOnly, system_capture_active: false }
}

#[test]
fn full_recording_cycle() {
    let mut m = MeetingRecordingManager::new();
    assert_eq!(m.status(), MeetingRecordingStatus { state: MeetingRecordingState::Idle, started_at_unix_ms: None });
    assert!(m.check_start().is_ok());
    assert_eq!(m.toggle(), Ok(ToggleAction::Start));
    let st = m
        .start(
            m.check_start().unwrap(),
            MicrophoneAndSystem,
            MeetingTranscriptMergePolicy::Balanced,
            Some(SystemCaptureProbe::Started),
            Ok(()),
            1_700_000_000_123,
        )
        .unwrap();
    assert_eq!(st.state, MeetingRecordingState::Recording);
    assert_eq!(st.started_at_unix_ms, Some(1_700_000_000_123));
    assert_eq!(m.check_start().unwrap_err(), "Meeting recording is already active");
    assert_eq!(m.toggle_pause(), Ok(PauseToggleAction::Pause));

    let p = m.pause().unwrap();
    assert_eq!(p.status.state, MeetingRecordingState::Paused);
    assert!(p.system_capture_active);
    assert_eq!(p.audio_source, MeetingAudioSource::MicrophoneAndSystem);
    assert!(!m.runtime().system_capture_active);
    assert_eq!(m.check_start().unwrap_err(), "Meeting recording is paused. Resume or stop it first");
    assert_eq!(m.pause().unwrap_err(), "No active meeting recording to pause");
    assert_eq!(m.toggle_pause(), Ok(PauseToggleAction::Resume));

    let ticket = m.check_resume().unwrap();
    assert_eq!(ticket.audio_source(), MeetingAudioSource::MicrophoneAndSystem);
    assert_eq!(ticket.merge_policy(), MeetingTranscriptMergePolicy::Balanced);
    let st = m.resume(ticket, Some(SystemCaptureProbe::PermissionDenied), Ok(())).unwrap();
    assert_eq!(st.state, MeetingRecordingState::Recording);
    assert_eq!(st.started_at_unix_ms, Some(1_700_000_000_123));
    assert_eq!(m.runtime().meeting_audio_source, MeetingAudioSource::MicrophoneOnly);

    assert_eq!(m.toggle(), Ok(ToggleAction::Stop));
    let t = m.stop().unwrap();
    assert!(t.collect_active_segment);
    assert_eq!(t.status.state, MeetingRecordingState::Processing);
    assert_eq!(t.status.started_at_unix_ms, Some(1_700_000_000_123));
    assert_eq!(m.toggle().unwrap_err(), "Meeting recording is currently processing");
    assert_eq!(m.toggle_pause().unwrap_err(), "Meeting recording is currently processing");
    assert_eq!(m.check_start().unwrap_err(), "Meeting recording is currently processing");
    assert_eq!(m.stop().unwrap_err(), "No active meeting recording to stop");

    let st = m.set_idle();
    assert_eq!(st, MeetingRecordingStatus { state: MeetingRecordingState::Idle, started_at_unix_ms: None });
    assert_eq!(m.runtime().meeting_transcript_merge_policy, MeetingTranscriptMergePolicy::SystemPriority);
    assert_eq!(m.toggle_pause().unwrap_err(), "No active meeting recording to pause or resume");
    assert_eq!(m.check_resume().unwrap_err(), "No paused meeting recording to resume");
}

#[test]
fn stopping_a_paused_recording_collects_nothing_more() {
    let mut m = MeetingRecordingManager::new();
    m.start(m.check_start().unwrap(), MicrophoneOnly, MeetingTranscriptMergePolicy::KeepBoth, None, Ok(()), 5).unwrap();
    m.set_zoom_auto_started(true);
    assert!(m.is_zoom_auto_started_active());
    m.pause().unwrap();
    assert!(m.is_zoom_auto_started_active());
    let t = m.stop().unwrap();
    assert!(!t.collect_active_segment);
    assert!(!m.runtime().zoom_auto_started);
    assert!(!m.is_zoom_auto_started_active());
}

#[test]
fn microphone_failures_refuse_start_and_resume() {
    let mut m = MeetingRecordingManager::new();
    let f = m
        .start(
            m.check_start().unwrap(),
            MicrophoneAndSystem,
            MeetingTranscriptMergePolicy::KeepBoth,
            Some(SystemCaptureProbe::Started),
            Err("device busy".to_string()),
            1,
        )
        .unwrap_err();
    assert_eq!(f.message, "Failed to start meeting recording: device busy");
    assert!(f.stop_system_capture);
    assert_eq!(m.status().state, MeetingRecordingState::Idle);

    m.start(m.check_start().unwrap(), MicrophoneOnly, MeetingTranscriptMergePolicy::KeepBoth, None, Ok(()), 1).unwrap();
    m.pause().unwrap();
    let ticket = m.check_resume().unwrap();
    let f = m.resume(ticket, None, Err("gone".to_string())).unwrap_err();
    assert_eq!(f.message, "Failed to resume meeting recording: gone");
    assert!(!f.stop_system_capture);
    assert_eq!(m.status().state, MeetingRecordingState::Paused);

    // the recorder stopped being paused between the two steps of the resume
    let ticket = m.check_resume().unwrap();
    m.stop().unwrap();
    let f = m.resume(ticket, None, Ok(())).unwrap_err();
    assert_eq!(f.message, "Meeting recording state changed before resume");
    assert!(!f.stop_system_capture);
    assert_eq!(m.status().state, MeetingRecordingState::Processing);
}

#[test]
fn start_refused_unless_idle() {
    let mut m = MeetingRecordingManager::new();
    let ticket = m.check_start().unwrap();
    m.start(ticket, MicrophoneOnly, MeetingTranscriptMergePolicy::KeepBoth, None, Ok(()), 9).unwrap();
    let before = m.runtime();
    assert_eq!(m.check_start().unwrap_err(), "Meeting recording is already active");
    assert_eq!(m.runtime(), before);
    m.pause().unwrap();
    assert_eq!(m.check_start().unwrap_err(), "Meeting recording is paused. Resume or stop it first");
    m.stop().unwrap();
    assert_eq!(m.check_start().unwrap_err(), "Meeting recording is currently processing");
    assert_eq!(m.status().started_at_unix_ms, Some(9));
}

#[test]
fn granted_start_commits_over_a_later_state() {
    // a start granted while idle commits even if another start got in first
    let mut m = MeetingRecordingManager::new();
    let first = m.check_start().unwrap();
    let second = m.check_start().unwrap();
    m.start(first, MicrophoneOnly, MeetingTranscriptMergePolicy::KeepBoth, None, Ok(()), 1).unwrap();
    let st = m
        .start(second, SystemOnly, MeetingTranscriptMergePolicy::Balanced, Some(SystemCaptureProbe::Started), Ok(()), 2)
        .unwrap();
    assert_eq!(st, MeetingRecordingStatus { state: MeetingRecordingState::Recording, started_at_unix_ms: Some(2) });
    assert_eq!(m.runtime().meeting_audio_source, SystemOnly);
    assert!(m.runtime().system_capture_active);
}

#[test]
fn system_only_refusals() {
    let mut m = MeetingRecordingManager::new();
    let f = m
        .start(m.check_start().unwrap(), SystemOnly, MeetingTranscriptMergePolicy::KeepBoth, Some(SystemCaptureProbe::PermissionDenied), Ok(()), 1)
        .unwrap_err();
    assert_eq!(f.message, "Screen capture permission denied");
    assert!(!f.stop_system_capture);
    assert_eq!(m.status().state, MeetingRecordingState::Idle);
    let st = m
        .start(m.check_start().unwrap(), SystemOnly, MeetingTranscriptMergePolicy::KeepBoth, Some(SystemCaptureProbe::Started), Ok(()), 1)
        .unwrap();
    assert_eq!(st.state, MeetingRecordingState::Recording);
    m.pause().unwrap();
    let ticket = m.check_resume().unwrap();
    let f = m
        .resume(ticket, Some(SystemCaptureProbe::StartFailed("busy".into())), Ok(()))
        .unwrap_err();
    assert_eq!(f.message, "Failed to start system audio capture for meeting recording: busy");
    assert_eq!(m.status().state, MeetingRecordingState::Paused);
}

#[test]
fn system_capture_resolution() {
    let resolve = |r, p| MeetingRecordingManager::resolve_capture(r, Some(p));
    assert_eq!(
        resolve(MicrophoneAndSystem, SystemCaptureProbe::Started),
        Ok(ActiveCapture { audio_source: MicrophoneAndSystem, system_capture_active: true })
    );
    assert_eq!(resolve(MicrophoneAndSystem, SystemCaptureProbe::NotSupported), Ok(mic_only()));
    assert_eq!(resolve(MicrophoneAndSystem, SystemCaptureProbe::PermissionDenied), Ok(mic_only()));
    assert_eq!(resolve(MicrophoneAndSystem, SystemCaptureProbe::StartFailed("x".into())), Ok(mic_only()));
    assert_eq!(
        resolve(SystemOnly, SystemCaptureProbe::Started),
        Ok(ActiveCapture { audio_source: SystemOnly, system_capture_active: true })
    );
    assert_eq!(
        resolve(SystemOnly, SystemCaptureProbe::NotSupported).unwrap_err(),
        "System audio capture is not supported on this build"
    );
    assert_eq!(resolve(SystemOnly, SystemCaptureProbe::PermissionDenied).unwrap_err(), "Screen capture permission denied");
    assert_eq!(
        resolve(SystemOnly, SystemCaptureProbe::StartFailed("no device".into())).unwrap_err(),
        "Failed to start system audio capture for meeting recording: no device"
    );
    assert_eq!(MeetingRecordingManager::resolve_capture(MicrophoneOnly, None), Ok(mic_only()));
    assert!(MeetingRecordingManager::source_uses_microphone(MicrophoneOnly));
    assert!(!MeetingRecordingManager::source_uses_microphone(SystemOnly));
    assert!(MeetingRecordingManager::source_uses_system_audio(MicrophoneAndSystem));
    assert!(!MeetingRecordingManager::source_uses_system_audio(MicrophoneOnly));
}

#[test]
fn overlay_follows_state() {
    let s = |state| MeetingRecordingStatus { state, started_at_unix_ms: Some(1) };
    assert_eq!(overlay_for_status(&s(MeetingRecordingState::Recording)), OverlayAction::Show { paused: false });
    assert_eq!(overlay_for_status(&s(MeetingRecordingState::Paused)), OverlayAction::Show { paused: true });
    assert_eq!(overlay_for_status(&s(MeetingRecordingState::Processing)), OverlayAction::Hide);
    assert_eq!(overlay_for_status(&s(MeetingRecordingState::Idle)), OverlayAction::Hide);
}

#[test]
fn permission_status_cases() {
    let s = get_meeting_permission_status(false, true);
    assert!(!s.supported);
    assert_eq!(s.screen_capture, MeetingPermissionAccess::Unknown);
    assert_eq!(s.overall_access, MeetingPermissionAccess::Unknown);
    let s = get_meeting_permission_status(true, true);
    assert_eq!(s.screen_capture, MeetingPermissionAccess::Allowed);
    assert_eq!(s.overall_access, MeetingPermissionAccess::Unknown);
    assert_eq!(s.microphone, MeetingPermissionAccess::Unknown);
    let s = get_meeting_permission_status(true, false);
    assert_eq!(s.screen_capture, MeetingPermissionAccess::Denied);
    assert_eq!(s.overall_access, MeetingPermissionAccess::Denied);
}

#[test]
fn capture_support_and_outcomes() {
    assert!(is_supported("macos", "aarch64"));
    assert!(!is_supported("macos", "x86_64"));
    assert!(!is_supported("linux", "aarch64"));
    assert_eq!(start_capture(false, true).unwrap_err(), "System audio capture is not supported on this platform");
    assert_eq!(start_capture(true, true), Ok(()));
    assert_eq!(start_capture(true, false).unwrap_err(), "Failed to start system audio capture");
    assert_eq!(stop_capture(false, None).unwrap_err(), "System audio capture is not supported on this platform");
    assert_eq!(stop_capture(true, None).unwrap_err(), "System audio capture returned a null response");
    let resp = |success, count, has, err: Option<&str>| SystemAudioCaptureResponse {
        success,
        sample_count: count,
        has_samples: has,
        error_message: err.map(|e| e.to_string()),
    };
    assert_eq!(stop_capture(true, Some(resp(1, 480, true, None))), Ok(480));
    assert_eq!(stop_capture(true, Some(resp(1, 480, false, None))), Ok(0));
    assert_eq!(stop_capture(true, Some(resp(1, 0, true, None))), Ok(0));
    assert_eq!(stop_capture(true, Some(resp(0, 5, true, Some("denied")))).unwrap_err(), "denied");
    assert_eq!(stop_capture(true, Some(resp(0, 5, true, None))).unwrap_err(), "System audio capture failed");
}

#[test]
fn finalize_plans() {
    let p = plan_finalize(MicrophoneAndSystem, 0, 0, true);
    assert_eq!(p.action, FinalizeAction::Discard);
    assert_eq!(p.samples, SampleSelection::Mixed);
    let p = plan_finalize(MicrophoneAndSystem, 100_000, 130_000, true);
    assert_eq!(p.action, FinalizeAction::TranscribeSegments { segment_count: 3 });
    let p = plan_finalize(MicrophoneAndSystem, 0, 130_000, true);
    assert_eq!(p.action, FinalizeAction::TranscribeWhole);
    let p = plan_finalize(MicrophoneAndSystem, 10, 10, false);
    assert_eq!(p.action, FinalizeAction::SaveWithoutTranscript);
    let p = plan_finalize(MicrophoneOnly, 0, 500, true);
    assert_eq!(p.action, FinalizeAction::Discard);
    assert!(p.keep_microphone && !p.keep_system);
    assert_eq!(p.samples, SampleSelection::Microphone);
    let p = plan_finalize(SystemOnly, 500, 7, true);
    assert_eq!(p.action, FinalizeAction::TranscribeWhole);
    assert!(!p.keep_microphone && p.keep_system);
    assert_eq!(p.samples, SampleSelection::System);
}

#[test]
fn segments_tile_the_recording() {
    assert_eq!(TRANSCRIPT_SEGMENT_SAMPLES, 64_000);
    assert_eq!(segment_count(0), 0);
    assert_eq!(segment_count(1), 1);
    assert_eq!(segment_count(64_000), 1);
    assert_eq!(segment_count(64_001), 2);
    let max_len = 130_000;
    let n = segment_count(max_len);
    assert_eq!(n, 3);
    let mut next = 0;
    for i in 0..n {
        let (s, e) = segment_bounds(i, max_len);
        assert_eq!(s, next);
        assert!(e > s);
        next = e;
    }
    assert_eq!(next, max_len);
    assert_eq!(segment_bounds(2, max_len), (128_000, 130_000));
    assert_eq!(chunk_range(64_000, 128_000, 100_000), Some((64_000, 100_000)));
    assert_eq!(chunk_range(64_000, 128_000, 200_000), Some((64_000, 128_000)));
    assert_eq!(chunk_range(128_000, 130_000, 100_000), None);
}

#[test]
fn wav_file_names() {
    assert_eq!(meeting_wav_file_name(1_700_000_000), "handy-meeting-1700000000.wav");
    assert_eq!(meeting_wav_file_name(0), "handy-meeting-0.wav");
    assert_eq!(meeting_wav_file_name(-12), "handy-meeting--12.wav");
    assert_eq!(meeting_wav_file_name(i64::MIN), format!("handy-meeting-{}.wav", i64::MIN));
    assert_eq!(meeting_wav_file_name(i64::MAX), format!("handy-meeting-{}.wav", i64::MAX));
}

#[test]
fn failed_save_ends_the_recording() {
    let a = FinalizeAction::TranscribeSegments { segment_count: 2 };
    assert_eq!(action_after_save(a, true), a);
    assert_eq!(action_after_save(a, false), FinalizeAction::Discard);
    assert_eq!(action_after_save(FinalizeAction::TranscribeWhole, false), FinalizeAction::Discard);
}
