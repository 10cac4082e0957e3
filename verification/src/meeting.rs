//! The meeting recording state machine: which request is accepted in which state,
//! what each transition does to the recorder's state, and how system audio capture
//! falls back to the microphone.
use vstd::prelude::*;
use vstd::string::*;

verus! {

/// Where a meeting recording is.
#[derive(Debug, Clone, Copy, PartialEq, Eq, Structural)]
pub enum MeetingRecordingState {
    Idle,
    Recording,
    Paused,
    Processing,
}

/// Which audio a meeting recording captures.
#[derive(Debug, Clone, Copy, PartialEq, Eq, Structural)]
pub enum MeetingAudioSource {
    MicrophoneOnly,
    SystemOnly,
    MicrophoneAndSystem,
}

/// How the system and microphone transcripts of one segment are combined.
#[derive(Debug, Clone, Copy, PartialEq, Eq, Structural)]
pub enum MeetingTranscriptMergePolicy {
    SystemPriority,
    Balanced,
    KeepBoth,
}

/// What callers see of a meeting recording.
#[derive(Debug, Clone, Copy, PartialEq, Eq, Structural)]
pub struct MeetingRecordingStatus {
    pub state: MeetingRecordingState,
    pub started_at_unix_ms: Option<i64>,
}

/// The recorder's state, as a plain value.
#[derive(Debug, Clone, Copy, PartialEq, Eq, Structural)]
pub struct MeetingRuntime {
    pub state: MeetingRecordingState,
    pub started_at_unix_ms: Option<i64>,
    pub meeting_audio_source: MeetingAudioSource,
    pub meeting_transcript_merge_policy: MeetingTranscriptMergePolicy,
    pub system_capture_active: bool,
    pub zoom_auto_started: bool,
}

impl MeetingRuntime {
    /// The state of a recorder that records nothing: idle, no start time, default settings.
    pub open spec fn idle() -> MeetingRuntime {
        MeetingRuntime {
            state: MeetingRecordingState::Idle,
            started_at_unix_ms: None,
            meeting_audio_source: MeetingAudioSource::MicrophoneAndSystem,
            meeting_transcript_merge_policy: MeetingTranscriptMergePolicy::SystemPriority,
            system_capture_active: false,
            zoom_auto_started: false,
        }
    }

    /// A recorder has a start time exactly when it is not idle, and captures system
    /// audio only while it records.
    pub open spec fn wf(self) -> bool {
        &&& (self.state == MeetingRecordingState::Idle <==> self.started_at_unix_ms is None)
        &&& (self.system_capture_active ==> self.state == MeetingRecordingState::Recording)
    }

    /// The status that callers see of this state.
    pub open spec fn status(self) -> MeetingRecordingStatus {
        MeetingRecordingStatus { state: self.state, started_at_unix_ms: self.started_at_unix_ms }
    }

    /// The state after a start at `now_ms` with the given capture and merge policy.
    pub open spec fn started(
        self,
        capture: ActiveCapture,
        merge_policy: MeetingTranscriptMergePolicy,
        now_ms: i64,
    ) -> MeetingRuntime {
        MeetingRuntime {
            state: MeetingRecordingState::Recording,
            started_at_unix_ms: Some(now_ms),
            meeting_audio_source: capture.audio_source,
            meeting_transcript_merge_policy: merge_policy,
            system_capture_active: capture.system_capture_active,
            zoom_auto_started: self.zoom_auto_started,
        }
    }

    /// The state after a stop: processing, no system capture, not started automatically.
    pub open spec fn stopped(self) -> MeetingRuntime {
        MeetingRuntime {
            state: MeetingRecordingState::Processing,
            system_capture_active: false,
            zoom_auto_started: false,
            ..self
        }
    }

    /// The state after a pause: paused, no system capture.
    pub open spec fn paused(self) -> MeetingRuntime {
        MeetingRuntime { state: MeetingRecordingState::Paused, system_capture_active: false, ..self }
    }

    /// The state after a resume with the given capture and merge policy.
    pub open spec fn resumed(
        self,
        capture: ActiveCapture,
        merge_policy: MeetingTranscriptMergePolicy,
    ) -> MeetingRuntime {
        MeetingRuntime {
            state: MeetingRecordingState::Recording,
            meeting_audio_source: capture.audio_source,
            meeting_transcript_merge_policy: merge_policy,
            system_capture_active: capture.system_capture_active,
            ..self
        }
    }
}

/// The audio a recording segment actually captures once system capture was tried.
#[derive(Debug, Clone, Copy, PartialEq, Eq, Structural)]
pub struct ActiveCapture {
    pub audio_source: MeetingAudioSource,
    pub system_capture_active: bool,
}

/// What came of trying to capture system audio, in the order the attempts are made:
/// support on this build, then screen capture permission, then starting the capture.
#[derive(Debug, Clone, PartialEq, Eq)]
pub enum SystemCaptureProbe {
    NotSupported,
    PermissionDenied,
    StartFailed(String),
    Started,
}

/// Why a start or resume was refused, and whether the system audio capture that was
/// started for it must be stopped again.
#[derive(Debug, Clone, PartialEq, Eq)]
pub struct StartFailure {
    pub message: String,
    pub stop_system_capture: bool,
}

/// The leave to start a recording; only `check_start` hands one out, and only to an idle
/// recorder.
#[derive(Debug, Clone, Copy, PartialEq, Eq)]
pub struct StartTicket {
    granted: (),
}

/// The source and merge policy of a paused recording, taken when a resume begins; only
/// `check_resume` hands one out, and only for a paused recorder.
#[derive(Debug, Clone, Copy, PartialEq, Eq)]
pub struct ResumeTicket {
    audio_source: MeetingAudioSource,
    merge_policy: MeetingTranscriptMergePolicy,
}

impl View for ResumeTicket {
    type V = (MeetingAudioSource, MeetingTranscriptMergePolicy);

    closed spec fn view(&self) -> (MeetingAudioSource, MeetingTranscriptMergePolicy) {
        (self.audio_source, self.merge_policy)
    }
}

impl ResumeTicket {
    /// The source the paused recording used.
    pub fn audio_source(&self) -> (r: MeetingAudioSource)
        ensures
            r == self@.0,
    {
        self.audio_source
    }

    /// The merge policy the paused recording used.
    pub fn merge_policy(&self) -> (r: MeetingTranscriptMergePolicy)
        ensures
            r == self@.1,
    {
        self.merge_policy
    }
}

/// What a stop hands over: the audio that was captured, whether the live segment
/// must still be collected (it was recording, not paused), and the new status.
#[derive(Debug, Clone, Copy, PartialEq, Eq, Structural)]
pub struct StopTicket {
    pub audio_source: MeetingAudioSource,
    pub system_capture_active: bool,
    pub collect_active_segment: bool,
    pub status: MeetingRecordingStatus,
}

/// What a pause hands over: the audio of the segment to collect and the new status.
#[derive(Debug, Clone, Copy, PartialEq, Eq, Structural)]
pub struct PauseTicket {
    pub audio_source: MeetingAudioSource,
    pub system_capture_active: bool,
    pub status: MeetingRecordingStatus,
}

/// What a toggle of the recording does.
#[derive(Debug, Clone, Copy, PartialEq, Eq, Structural)]
pub enum ToggleAction {
    Start,
    Stop,
}

/// What a toggle of the pause does.
#[derive(Debug, Clone, Copy, PartialEq, Eq, Structural)]
pub enum PauseToggleAction {
    Pause,
    Resume,
}

/// What the recording overlay shows for a status.
#[derive(Debug, Clone, Copy, PartialEq, Eq, Structural)]
pub enum OverlayAction {
    Show { paused: bool },
    Hide,
}

pub open spec fn uses_microphone(source: MeetingAudioSource) -> bool {
    source == MeetingAudioSource::MicrophoneOnly || source
        == MeetingAudioSource::MicrophoneAndSystem
}

pub open spec fn uses_system_audio(source: MeetingAudioSource) -> bool {
    source == MeetingAudioSource::SystemOnly || source == MeetingAudioSource::MicrophoneAndSystem
}

/// The overlay for a state: shown while recording or paused, hidden otherwise.
pub open spec fn overlay_for(state: MeetingRecordingState) -> OverlayAction {
    match state {
        MeetingRecordingState::Recording => OverlayAction::Show { paused: false },
        MeetingRecordingState::Paused => OverlayAction::Show { paused: true },
        _ => OverlayAction::Hide,
    }
}

/// The overlay to show after a status change.
pub fn overlay_for_status(status: &MeetingRecordingStatus) -> (r: OverlayAction)
    ensures
        r == overlay_for(status.state),
{
    match status.state {
        MeetingRecordingState::Recording | MeetingRecordingState::Paused => {
            OverlayAction::Show { paused: status.state == MeetingRecordingState::Paused }
        },
        MeetingRecordingState::Idle | MeetingRecordingState::Processing => OverlayAction::Hide,
    }
}

/// The messages of refused requests.
pub open spec fn msg_already_active() -> Seq<char> {
    "Meeting recording is already active"@
}

pub open spec fn msg_paused() -> Seq<char> {
    "Meeting recording is paused. Resume or stop it first"@
}

pub open spec fn msg_processing() -> Seq<char> {
    "Meeting recording is currently processing"@
}

pub open spec fn msg_nothing_to_stop() -> Seq<char> {
    "No active meeting recording to stop"@
}

pub open spec fn msg_nothing_to_pause() -> Seq<char> {
    "No active meeting recording to pause"@
}

pub open spec fn msg_nothing_to_resume() -> Seq<char> {
    "No paused meeting recording to resume"@
}

pub open spec fn msg_nothing_to_toggle_pause() -> Seq<char> {
    "No active meeting recording to pause or resume"@
}

pub open spec fn msg_state_changed_before_resume() -> Seq<char> {
    "Meeting recording state changed before resume"@
}

pub open spec fn msg_system_unsupported() -> Seq<char> {
    "System audio capture is not supported on this build"@
}

pub open spec fn msg_permission_denied() -> Seq<char> {
    "Screen capture permission denied"@
}

pub open spec fn msg_system_start_failed_prefix() -> Seq<char> {
    "Failed to start system audio capture for meeting recording: "@
}

pub open spec fn msg_start_failed_prefix() -> Seq<char> {
    "Failed to start meeting recording: "@
}

pub open spec fn msg_resume_failed_prefix() -> Seq<char> {
    "Failed to resume meeting recording: "@
}

fn owned(s: &str) -> (r: String)
    ensures
        r@ == s@,
{
    broadcast use vstd::string::group_string_axioms;

    s.to_string()
}

/// The capture that results from the requested source and the outcome of trying system
/// audio: a source that needs only system audio fails when system audio cannot be had,
/// one that mixes both falls back to the microphone alone.
pub open spec fn resolved_capture(
    requested: MeetingAudioSource,
    probe: SystemCaptureProbe,
) -> Result<ActiveCapture, Seq<char>> {
    let fallback = ActiveCapture {
        audio_source: MeetingAudioSource::MicrophoneOnly,
        system_capture_active: false,
    };
    match probe {
        SystemCaptureProbe::Started => Ok(
            ActiveCapture { audio_source: requested, system_capture_active: true },
        ),
        SystemCaptureProbe::NotSupported => if requested == MeetingAudioSource::SystemOnly {
            Err(msg_system_unsupported())
        } else {
            Ok(fallback)
        },
        SystemCaptureProbe::PermissionDenied => if requested == MeetingAudioSource::SystemOnly {
            Err(msg_permission_denied())
        } else {
            Ok(fallback)
        },
        SystemCaptureProbe::StartFailed(e) => if requested == MeetingAudioSource::SystemOnly {
            Err(msg_system_start_failed_prefix() + e@)
        } else {
            Ok(fallback)
        },
    }
}

/// A probe of system audio is made exactly for a source that uses system audio.
pub open spec fn probe_fits(requested: MeetingAudioSource, probe: Option<SystemCaptureProbe>) -> bool {
    probe is Some <==> uses_system_audio(requested)
}

/// The capture of a request: a source without system audio needs no probe and captures
/// as requested; otherwise the probe decides (see `resolved_capture`).
pub open spec fn capture_for(
    requested: MeetingAudioSource,
    probe: Option<SystemCaptureProbe>,
) -> Result<ActiveCapture, Seq<char>> {
    match probe {
        Some(p) => resolved_capture(requested, p),
        None => Ok(ActiveCapture { audio_source: requested, system_capture_active: false }),
    }
}

/// A computed result and a specified one agree: the same value, or an error with the
/// specified text.
pub open spec fn capture_result_matches(
    r: Result<ActiveCapture, String>,
    expected: Result<ActiveCapture, Seq<char>>,
) -> bool {
    match expected {
        Ok(c) => r == Ok::<ActiveCapture, String>(c),
        Err(m) => r matches Err(e) && e@ == m,
    }
}

/// A refusal: its message, and whether the system capture that was started for the
/// request must be stopped.
pub type Refusal = (Seq<char>, bool);

/// A computed start or resume result agrees with a specified one.
pub open spec fn start_result_matches(
    r: Result<MeetingRecordingStatus, StartFailure>,
    expected: Result<MeetingRecordingStatus, Refusal>,
) -> bool {
    match expected {
        Ok(s) => r == Ok::<MeetingRecordingStatus, StartFailure>(s),
        Err(refusal) => r matches Err(f) && f.message@ == refusal.0 && f.stop_system_capture
            == refusal.1,
    }
}

/// The commit of a start granted by `check_start`, requested with `requested` and
/// `merge_policy`, given the probe of system audio (when the source uses it), the outcome
/// of starting the microphone (`Ok` when not needed) and the time: a capture that cannot
/// be had refuses; a failed microphone refuses (and stops the system capture); otherwise
/// the recorder records, whatever it did since the start was granted.  The state after
/// it, and its result.
pub open spec fn start_outcome(
    r: MeetingRuntime,
    requested: MeetingAudioSource,
    merge_policy: MeetingTranscriptMergePolicy,
    probe: Option<SystemCaptureProbe>,
    microphone: Result<(), String>,
    now_ms: i64,
) -> (MeetingRuntime, Result<MeetingRecordingStatus, Refusal>) {
    match capture_for(requested, probe) {
        Err(m) => (r, Err((m, false))),
        Ok(c) => match microphone {
            Err(e) => (r, Err((msg_start_failed_prefix() + e@, c.system_capture_active))),
            Ok(_) => (
                r.started(c, merge_policy, now_ms),
                Ok(r.started(c, merge_policy, now_ms).status()),
            ),
        },
    }
}

/// The commit of a resume begun with `ticket`, given the probe of system audio and the
/// outcome of starting the microphone: a capture that cannot be had refuses; a failed
/// microphone refuses (and stops the system capture); a recorder that stopped being paused
/// meanwhile refuses; otherwise the recorder records again.
pub open spec fn resume_outcome(
    r: MeetingRuntime,
    ticket: (MeetingAudioSource, MeetingTranscriptMergePolicy),
    probe: Option<SystemCaptureProbe>,
    microphone: Result<(), String>,
) -> (MeetingRuntime, Result<MeetingRecordingStatus, Refusal>) {
    match capture_for(ticket.0, probe) {
        Err(m) => (r, Err((m, false))),
        Ok(c) => match microphone {
            Err(e) => (r, Err((msg_resume_failed_prefix() + e@, c.system_capture_active))),
            Ok(_) => if r.state != MeetingRecordingState::Paused {
                (r, Err((msg_state_changed_before_resume(), false)))
            } else {
                (r.resumed(c, ticket.1), Ok(r.resumed(c, ticket.1).status()))
            },
        },
    }
}

pub struct MeetingRecordingManager {
    runtime: MeetingRuntime,
}

impl View for MeetingRecordingManager {
    type V = MeetingRuntime;

    closed spec fn view(&self) -> MeetingRuntime {
        self.runtime
    }
}

impl MeetingRecordingManager {
    #[verifier::type_invariant]
    closed spec fn inv(self) -> bool {
        self.runtime.wf()
    }

    /// A recorder that records nothing.
    pub fn new() -> (m: Self)
        ensures
            m@ == MeetingRuntime::idle(),
            m@.wf(),
    {
        MeetingRecordingManager {
            runtime: MeetingRuntime {
                state: MeetingRecordingState::Idle,
                started_at_unix_ms: None,
                meeting_audio_source: MeetingAudioSource::MicrophoneAndSystem,
                meeting_transcript_merge_policy: MeetingTranscriptMergePolicy::SystemPriority,
                system_capture_active: false,
                zoom_auto_started: false,
            },
        }
    }

    /// The recorder's state; it always satisfies `wf`.
    pub fn runtime(&self) -> (r: MeetingRuntime)
        ensures
            r == self@,
            r.wf(),
    {
        proof {
            use_type_invariant(self);
        }
        self.runtime
    }

    pub fn source_uses_microphone(source: MeetingAudioSource) -> (r: bool)
        ensures
            r == uses_microphone(source),
    {
        match source {
            MeetingAudioSource::MicrophoneOnly | MeetingAudioSource::MicrophoneAndSystem => true,
            MeetingAudioSource::SystemOnly => false,
        }
    }

    pub fn source_uses_system_audio(source: MeetingAudioSource) -> (r: bool)
        ensures
            r == uses_system_audio(source),
    {
        match source {
            MeetingAudioSource::SystemOnly | MeetingAudioSource::MicrophoneAndSystem => true,
            MeetingAudioSource::MicrophoneOnly => false,
        }
    }

    /// The status callers see.
    pub fn status(&self) -> (s: MeetingRecordingStatus)
        ensures
            s == self@.status(),
    {
        MeetingRecordingStatus {
            state: self.runtime.state,
            started_at_unix_ms: self.runtime.started_at_unix_ms,
        }
    }

    /// Whether a new recording may start: only an idle recorder accepts one, and gets the
    /// leave to commit the start once its audio is set up.
    pub fn check_start(&self) -> (r: Result<StartTicket, String>)
        ensures
            r is Ok <==> self@.state == MeetingRecordingState::Idle,
            self@.state == MeetingRecordingState::Recording ==> (r matches Err(e) && e@
                == msg_already_active()),
            self@.state == MeetingRecordingState::Paused ==> (r matches Err(e) && e@
                == msg_paused()),
            self@.state == MeetingRecordingState::Processing ==> (r matches Err(e) && e@
                == msg_processing()),
    {
        match self.runtime.state {
            MeetingRecordingState::Recording => Err(owned("Meeting recording is already active")),
            MeetingRecordingState::Paused => Err(
                owned("Meeting recording is paused. Resume or stop it first"),
            ),
            MeetingRecordingState::Processing => Err(
                owned("Meeting recording is currently processing"),
            ),
            MeetingRecordingState::Idle => Ok(StartTicket { granted: () }),
        }
    }

    /// The capture a start or resume uses, given the probe of system audio when the
    /// source uses it.
    pub fn resolve_capture(
        requested: MeetingAudioSource,
        probe: Option<SystemCaptureProbe>,
    ) -> (r: Result<ActiveCapture, String>)
        requires
            probe_fits(requested, probe),
        ensures
            capture_result_matches(r, capture_for(requested, probe)),
    {
        let system_only = match requested {
            MeetingAudioSource::SystemOnly => true,
            _ => false,
        };
        let fallback = ActiveCapture {
            audio_source: MeetingAudioSource::MicrophoneOnly,
            system_capture_active: false,
        };
        let probe = match probe {
            None => {
                return Ok(ActiveCapture { audio_source: requested, system_capture_active: false });
            },
            Some(p) => p,
        };
        match probe {
            SystemCaptureProbe::Started => Ok(
                ActiveCapture { audio_source: requested, system_capture_active: true },
            ),
            SystemCaptureProbe::NotSupported => {
                if system_only {
                    Err(owned("System audio capture is not supported on this build"))
                } else {
                    Ok(fallback)
                }
            },
            SystemCaptureProbe::PermissionDenied => {
                if system_only {
                    Err(owned("Screen capture permission denied"))
                } else {
                    Ok(fallback)
                }
            },
            SystemCaptureProbe::StartFailed(e) => {
                if system_only {
                    let m = owned("Failed to start system audio capture for meeting recording: ");
                    Err(m.concat(e.as_str()))
                } else {
                    Ok(fallback)
                }
            },
        }
    }

    /// Commits a start granted by `check_start`, requested with `requested` and
    /// `merge_policy`, at `now_ms` (see `start_outcome`).  The recorder changes only when
    /// the start succeeds; a start that succeeds replaces whatever state the recorder
    /// reached since the start was granted.
    pub fn start(
        &mut self,
        ticket: StartTicket,
        requested: MeetingAudioSource,
        merge_policy: MeetingTranscriptMergePolicy,
        probe: Option<SystemCaptureProbe>,
        microphone: Result<(), String>,
        now_ms: i64,
    ) -> (r: Result<MeetingRecordingStatus, StartFailure>)
        requires
            probe_fits(requested, probe),
        ensures
            final(self)@.wf(),
            final(self)@ == start_outcome(
                old(self)@,
                requested,
                merge_policy,
                probe,
                microphone,
                now_ms,
            ).0,
            start_result_matches(
                r,
                start_outcome(old(self)@, requested, merge_policy, probe, microphone, now_ms).1,
            ),
    {
        proof {
            use_type_invariant(&*self);
        }
        let capture = match Self::resolve_capture(requested, probe) {
            Err(m) => {
                return Err(StartFailure { message: m, stop_system_capture: false });
            },
            Ok(c) => c,
        };
        match microphone {
            Err(e) => {
                let m = owned("Failed to start meeting recording: ");
                Err(
                    StartFailure {
                        message: m.concat(e.as_str()),
                        stop_system_capture: capture.system_capture_active,
                    },
                )
            },
            Ok(()) => {
                self.runtime = MeetingRuntime {
                    state: MeetingRecordingState::Recording,
                    started_at_unix_ms: Some(now_ms),
                    meeting_audio_source: capture.audio_source,
                    meeting_transcript_merge_policy: merge_policy,
                    system_capture_active: capture.system_capture_active,
                    zoom_auto_started: self.runtime.zoom_auto_started,
                };
                Ok(self.status())
            },
        }
    }

    /// Ends a recording that is recording or paused: the recorder moves to processing,
    /// stops capturing system audio and forgets that it was started automatically.
    pub fn stop(&mut self) -> (r: Result<StopTicket, String>)
        ensures
            final(self)@.wf(),
            r is Ok <==> (old(self)@.state == MeetingRecordingState::Recording || old(self)@.state
                == MeetingRecordingState::Paused),
            r is Err ==> final(self)@ == old(self)@ && (r matches Err(e) && e@
                == msg_nothing_to_stop()),
            r matches Ok(t) ==> {
                &&& final(self)@ == old(self)@.stopped()
                &&& t.audio_source == old(self)@.meeting_audio_source
                &&& t.system_capture_active == old(self)@.system_capture_active
                &&& t.collect_active_segment == (old(self)@.state
                    == MeetingRecordingState::Recording)
                &&& t.status == final(self)@.status()
            },
    {
        proof {
            use_type_invariant(&*self);
        }
        let collect = match self.runtime.state {
            MeetingRecordingState::Recording => true,
            MeetingRecordingState::Paused => false,
            _ => {
                return Err(owned("No active meeting recording to stop"));
            },
        };
        let source = self.runtime.meeting_audio_source;
        let system_capture_active = self.runtime.system_capture_active;
        self.runtime = MeetingRuntime {
            state: MeetingRecordingState::Processing,
            system_capture_active: false,
            zoom_auto_started: false,
            ..self.runtime
        };
        Ok(
            StopTicket {
                audio_source: source,
                system_capture_active,
                collect_active_segment: collect,
                status: self.status(),
            },
        )
    }

    /// Pauses a recording that records: the recorder moves to paused and stops
    /// capturing system audio.
    pub fn pause(&mut self) -> (r: Result<PauseTicket, String>)
        ensures
            final(self)@.wf(),
            r is Ok <==> old(self)@.state == MeetingRecordingState::Recording,
            r is Err ==> final(self)@ == old(self)@ && (r matches Err(e) && e@
                == msg_nothing_to_pause()),
            r matches Ok(t) ==> {
                &&& final(self)@ == old(self)@.paused()
                &&& t.audio_source == old(self)@.meeting_audio_source
                &&& t.system_capture_active == old(self)@.system_capture_active
                &&& t.status == final(self)@.status()
            },
    {
        proof {
            use_type_invariant(&*self);
        }
        match self.runtime.state {
            MeetingRecordingState::Recording => {},
            _ => {
                return Err(owned("No active meeting recording to pause"));
            },
        }
        let source = self.runtime.meeting_audio_source;
        let system_capture_active = self.runtime.system_capture_active;
        self.runtime = MeetingRuntime {
            state: MeetingRecordingState::Paused,
            system_capture_active: false,
            ..self.runtime
        };
        Ok(PauseTicket { audio_source: source, system_capture_active, status: self.status() })
    }

    /// Begins a resume: only a paused recorder accepts one, and hands out its source and
    /// merge policy.
    pub fn check_resume(&self) -> (r: Result<ResumeTicket, String>)
        ensures
            r is Ok <==> self@.state == MeetingRecordingState::Paused,
            r matches Ok(t) ==> t@ == (self@.meeting_audio_source,
            self@.meeting_transcript_merge_policy),
            r matches Err(e) ==> e@ == msg_nothing_to_resume(),
    {
        match self.runtime.state {
            MeetingRecordingState::Paused => Ok(
                ResumeTicket {
                    audio_source: self.runtime.meeting_audio_source,
                    merge_policy: self.runtime.meeting_transcript_merge_policy,
                },
            ),
            _ => Err(owned("No paused meeting recording to resume")),
        }
    }

    /// Commits a resume begun by `check_resume` (see `resume_outcome`).  The recorder
    /// changes only when the resume succeeds; the start time is kept.
    pub fn resume(
        &mut self,
        ticket: ResumeTicket,
        probe: Option<SystemCaptureProbe>,
        microphone: Result<(), String>,
    ) -> (r: Result<MeetingRecordingStatus, StartFailure>)
        requires
            probe_fits(ticket@.0, probe),
        ensures
            final(self)@.wf(),
            final(self)@ == resume_outcome(old(self)@, ticket@, probe, microphone).0,
            start_result_matches(r, resume_outcome(old(self)@, ticket@, probe, microphone).1),
    {
        proof {
            use_type_invariant(&*self);
        }
        let capture = match Self::resolve_capture(ticket.audio_source, probe) {
            Err(m) => {
                return Err(
                    StartFailure { message: m, stop_system_capture: false },
                );
            },
            Ok(c) => c,
        };
        if let Err(e) = microphone {
            let m = owned("Failed to resume meeting recording: ");
            return Err(
                StartFailure {
                    message: m.concat(e.as_str()),
                    stop_system_capture: capture.system_capture_active,
                },
            );
        }
        match self.runtime.state {
            MeetingRecordingState::Paused => {},
            _ => {
                return Err(
                    StartFailure {
                        message: owned("Meeting recording state changed before resume"),
                        stop_system_capture: false,
                    },
                );
            },
        }
        self.runtime = MeetingRuntime {
            state: MeetingRecordingState::Recording,
            meeting_audio_source: capture.audio_source,
            meeting_transcript_merge_policy: ticket.merge_policy,
            system_capture_active: capture.system_capture_active,
            ..self.runtime
        };
        Ok(self.status())
    }

    /// Returns the recorder to idle with default settings.
    pub fn set_idle(&mut self) -> (s: MeetingRecordingStatus)
        ensures
            final(self)@ == MeetingRuntime::idle(),
            final(self)@.wf(),
            s == final(self)@.status(),
    {
        self.runtime = MeetingRuntime {
            state: MeetingRecordingState::Idle,
            started_at_unix_ms: None,
            meeting_audio_source: MeetingAudioSource::MicrophoneAndSystem,
            meeting_transcript_merge_policy: MeetingTranscriptMergePolicy::SystemPriority,
            system_capture_active: false,
            zoom_auto_started: false,
        };
        self.status()
    }

    /// Records whether the running recording was started by the zoom detection.
    pub fn set_zoom_auto_started(&mut self, value: bool)
        ensures
            final(self)@ == (MeetingRuntime { zoom_auto_started: value, ..old(self)@ }),
            final(self)@.wf(),
    {
        proof {
            use_type_invariant(&*self);
        }
        self.runtime = MeetingRuntime { zoom_auto_started: value, ..self.runtime };
    }

    /// Whether a recording that the zoom detection started is still running or paused.
    pub fn is_zoom_auto_started_active(&self) -> (r: bool)
        ensures
            r == (self@.zoom_auto_started && (self@.state == MeetingRecordingState::Recording
                || self@.state == MeetingRecordingState::Paused)),
    {
        self.runtime.zoom_auto_started && match self.runtime.state {
            MeetingRecordingState::Recording | MeetingRecordingState::Paused => true,
            _ => false,
        }
    }

    /// What a toggle does: stop a running or paused recording, start from idle,
    /// refuse while processing.
    pub fn toggle(&self) -> (r: Result<ToggleAction, String>)
        ensures
            self@.state == MeetingRecordingState::Idle ==> r == Ok::<ToggleAction, String>(
                ToggleAction::Start,
            ),
            self@.state == MeetingRecordingState::Recording || self@.state
                == MeetingRecordingState::Paused ==> r == Ok::<ToggleAction, String>(
                ToggleAction::Stop,
            ),
            self@.state == MeetingRecordingState::Processing ==> (r matches Err(e) && e@
                == msg_processing()),
    {
        match self.status().state {
            MeetingRecordingState::Recording => Ok(ToggleAction::Stop),
            MeetingRecordingState::Paused => Ok(ToggleAction::Stop),
            MeetingRecordingState::Idle => Ok(ToggleAction::Start),
            MeetingRecordingState::Processing => Err(
                owned("Meeting recording is currently processing"),
            ),
        }
    }

    /// What a pause toggle does: pause a running recording, resume a paused one.
    pub fn toggle_pause(&self) -> (r: Result<PauseToggleAction, String>)
        ensures
            self@.state == MeetingRecordingState::Recording ==> r == Ok::<
                PauseToggleAction,
                String,
            >(PauseToggleAction::Pause),
            self@.state == MeetingRecordingState::Paused ==> r == Ok::<PauseToggleAction, String>(
                PauseToggleAction::Resume,
            ),
            self@.state == MeetingRecordingState::Idle ==> (r matches Err(e) && e@
                == msg_nothing_to_toggle_pause()),
            self@.state == MeetingRecordingState::Processing ==> (r matches Err(e) && e@
                == msg_processing()),
    {
        match self.status().state {
            MeetingRecordingState::Recording => Ok(PauseToggleAction::Pause),
            MeetingRecordingState::Paused => Ok(PauseToggleAction::Resume),
            MeetingRecordingState::Idle => Err(
                owned("No active meeting recording to pause or resume"),
            ),
            MeetingRecordingState::Processing => Err(
                owned("Meeting recording is currently processing"),
            ),
        }
    }
}

/// Pausing a recording and resuming it keeps its start time and makes it record again.
pub proof fn lemma_pause_resume_keeps_start_time(
    r: MeetingRuntime,
    capture: ActiveCapture,
    merge_policy: MeetingTranscriptMergePolicy,
)
    requires
        r.wf(),
        r.state == MeetingRecordingState::Recording,
    ensures
        r.paused().wf(),
        r.paused().resumed(capture, merge_policy).state == MeetingRecordingState::Recording,
        r.paused().resumed(capture, merge_policy).started_at_unix_ms == r.started_at_unix_ms,
{
}

/// A recording started from idle and stopped is processing, with the start time it was
/// started at; returning to idle forgets it.
pub proof fn lemma_start_stop_cycle(
    capture: ActiveCapture,
    merge_policy: MeetingTranscriptMergePolicy,
    now_ms: i64,
)
    ensures
        MeetingRuntime::idle().started(capture, merge_policy, now_ms).stopped().state
            == MeetingRecordingState::Processing,
        MeetingRuntime::idle().started(capture, merge_policy, now_ms).stopped().started_at_unix_ms
            == Some(now_ms),
        MeetingRuntime::idle().started(capture, merge_policy, now_ms).stopped().wf(),
        !MeetingRuntime::idle().started(capture, merge_policy, now_ms).stopped().system_capture_active,
{
}

/// Every transition keeps the recorder well formed: a start time exactly when not idle,
/// system capture only while recording.
pub proof fn lemma_transitions_keep_wf(
    r: MeetingRuntime,
    capture: ActiveCapture,
    merge_policy: MeetingTranscriptMergePolicy,
    now_ms: i64,
)
    requires
        r.wf(),
    ensures
        r.started(capture, merge_policy, now_ms).wf(),
        r.state == MeetingRecordingState::Recording || r.state == MeetingRecordingState::Paused
            ==> r.stopped().wf(),
        r.state == MeetingRecordingState::Recording ==> r.paused().wf(),
        r.state == MeetingRecordingState::Paused ==> r.resumed(capture, merge_policy).wf(),
        MeetingRuntime::idle().wf(),
{
}

/// A recording that needs only system audio never falls back to the microphone: when it
/// proceeds, it captures system audio.  One that mixes both sources always proceeds, with
/// system audio when its capture started and with the microphone alone otherwise.
pub proof fn lemma_capture_fallback(requested: MeetingAudioSource, probe: SystemCaptureProbe)
    requires
        uses_system_audio(requested),
    ensures
        requested == MeetingAudioSource::SystemOnly ==> (resolved_capture(requested, probe) is Ok
            ==> resolved_capture(requested, probe) == Ok::<ActiveCapture, Seq<char>>(
            ActiveCapture {
                audio_source: MeetingAudioSource::SystemOnly,
                system_capture_active: true,
            },
        )),
        requested == MeetingAudioSource::MicrophoneAndSystem ==> resolved_capture(
            requested,
            probe,
        ) is Ok,
        requested == MeetingAudioSource::MicrophoneAndSystem ==> (resolved_capture(
            requested,
            probe,
        ) == Ok::<ActiveCapture, Seq<char>>(
            ActiveCapture {
                audio_source: MeetingAudioSource::MicrophoneAndSystem,
                system_capture_active: true,
            },
        ) <==> probe == SystemCaptureProbe::Started),
{
}

/// A start asked for system audio alone, when that audio cannot be had, is refused, leaves
/// the recorder as it was, and has nothing to stop again.
pub proof fn lemma_system_only_start_refused_without_capture(
    r: MeetingRuntime,
    merge_policy: MeetingTranscriptMergePolicy,
    probe: SystemCaptureProbe,
    microphone: Result<(), String>,
    now_ms: i64,
)
    requires
        probe != SystemCaptureProbe::Started,
    ensures
        start_outcome(
            r,
            MeetingAudioSource::SystemOnly,
            merge_policy,
            Some(probe),
            microphone,
            now_ms,
        ).0 == r,
        start_outcome(
            r,
            MeetingAudioSource::SystemOnly,
            merge_policy,
            Some(probe),
            microphone,
            now_ms,
        ).1 matches Err(x) && !x.1,
{
}

} // verus!
