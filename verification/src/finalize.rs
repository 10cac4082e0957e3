//! What happens to a stopped recording: which audio is kept, whether it is saved and
//! transcribed, and how it is cut into segments for transcription.
use vstd::prelude::*;

use crate::meeting::{uses_microphone, uses_system_audio, MeetingAudioSource, MeetingRecordingManager};
use crate::text::{append_chars, decimal, i64_to_decimal, str_to_chars, string_from_chars};

verus! {

/// Seconds of audio in one transcription segment.
pub const TRANSCRIPT_CHUNK_SECONDS: usize = 4;

/// Samples per second of recorded audio.
pub const TRANSCRIPT_SAMPLE_RATE_HZ: usize = 16000;

/// Samples in one transcription segment.
pub const TRANSCRIPT_SEGMENT_SAMPLES: usize = TRANSCRIPT_SAMPLE_RATE_HZ * TRANSCRIPT_CHUNK_SECONDS;

/// Which samples make the saved recording.
#[derive(Debug, Clone, Copy, PartialEq, Eq, Structural)]
pub enum SampleSelection {
    Microphone,
    System,
    Mixed,
}

/// What is done with a stopped recording.
#[derive(Debug, Clone, Copy, PartialEq, Eq, Structural)]
pub enum FinalizeAction {
    /// Nothing was recorded: the recorder goes back to idle.
    Discard,
    /// The recording is saved with an empty transcript.
    SaveWithoutTranscript,
    /// The recording is saved and transcribed as a whole.
    TranscribeWhole,
    /// The recording is saved and both sources are transcribed segment by segment.
    TranscribeSegments { segment_count: usize },
}

/// The decisions about a stopped recording.
#[derive(Debug, Clone, Copy, PartialEq, Eq, Structural)]
pub struct FinalizePlan {
    /// Whether the microphone samples are kept (else they are dropped).
    pub keep_microphone: bool,
    /// Whether the system samples are kept (else they are dropped).
    pub keep_system: bool,
    pub samples: SampleSelection,
    pub action: FinalizeAction,
}

/// The length of two streams mixed sample by sample: an empty stream leaves the other
/// as it is, otherwise the longer one sets the length.
pub open spec fn mixed_len(microphone_len: nat, system_len: nat) -> nat {
    if microphone_len == 0 {
        system_len
    } else if system_len == 0 {
        microphone_len
    } else if microphone_len >= system_len {
        microphone_len
    } else {
        system_len
    }
}

/// The number of segments that cover `max_len` samples.
pub open spec fn segment_count_for(max_len: nat) -> nat {
    ((max_len + TRANSCRIPT_SEGMENT_SAMPLES - 1) / (TRANSCRIPT_SEGMENT_SAMPLES as int)) as nat
}

/// The plan for a recording of `source` with the given numbers of samples.
pub open spec fn finalize_plan(
    source: MeetingAudioSource,
    microphone_len: nat,
    system_len: nat,
    transcribe_on_stop: bool,
) -> FinalizePlan {
    let mic = if uses_microphone(source) {
        microphone_len
    } else {
        0
    };
    let sys = if uses_system_audio(source) {
        system_len
    } else {
        0
    };
    let (samples, len) = match source {
        MeetingAudioSource::MicrophoneOnly => (SampleSelection::Microphone, mic),
        MeetingAudioSource::SystemOnly => (SampleSelection::System, sys),
        MeetingAudioSource::MicrophoneAndSystem => (SampleSelection::Mixed, mixed_len(mic, sys)),
    };
    let action = if len == 0 {
        FinalizeAction::Discard
    } else if !transcribe_on_stop {
        FinalizeAction::SaveWithoutTranscript
    } else if source == MeetingAudioSource::MicrophoneAndSystem && sys > 0 && mic > 0 {
        FinalizeAction::TranscribeSegments {
            segment_count: segment_count_for(if mic >= sys {
                mic
            } else {
                sys
            }) as usize,
        }
    } else {
        FinalizeAction::TranscribeWhole
    };
    FinalizePlan {
        keep_microphone: uses_microphone(source),
        keep_system: uses_system_audio(source),
        samples,
        action,
    }
}

/// The number of segments that cover `max_len` samples.
pub fn segment_count(max_len: usize) -> (n: usize)
    ensures
        n == segment_count_for(max_len as nat),
        n * TRANSCRIPT_SEGMENT_SAMPLES >= max_len,
        max_len > 0 ==> (n - 1) * TRANSCRIPT_SEGMENT_SAMPLES < max_len,
        max_len == 0 ==> n == 0,
{
    let q = max_len / TRANSCRIPT_SEGMENT_SAMPLES;
    let r = max_len % TRANSCRIPT_SEGMENT_SAMPLES;
    if r == 0 {
        q
    } else {
        q + 1
    }
}

/// The plan for a stopped recording.
pub fn plan_finalize(
    source: MeetingAudioSource,
    microphone_len: usize,
    system_len: usize,
    transcribe_on_stop: bool,
) -> (p: FinalizePlan)
    ensures
        p == finalize_plan(source, microphone_len as nat, system_len as nat, transcribe_on_stop),
{
    let keep_microphone = MeetingRecordingManager::source_uses_microphone(source);
    let keep_system = MeetingRecordingManager::source_uses_system_audio(source);
    let mic: usize = if keep_microphone {
        microphone_len
    } else {
        0
    };
    let sys: usize = if keep_system {
        system_len
    } else {
        0
    };
    let (samples, len) = match source {
        MeetingAudioSource::MicrophoneOnly => (SampleSelection::Microphone, mic),
        MeetingAudioSource::SystemOnly => (SampleSelection::System, sys),
        MeetingAudioSource::MicrophoneAndSystem => {
            let l = if mic == 0 {
                sys
            } else if sys == 0 {
                mic
            } else if mic >= sys {
                mic
            } else {
                sys
            };
            (SampleSelection::Mixed, l)
        },
    };
    let both = match source {
        MeetingAudioSource::MicrophoneAndSystem => true,
        _ => false,
    };
    let action = if len == 0 {
        FinalizeAction::Discard
    } else if !transcribe_on_stop {
        FinalizeAction::SaveWithoutTranscript
    } else if both && sys > 0 && mic > 0 {
        let max_len = if mic >= sys {
            mic
        } else {
            sys
        };
        FinalizeAction::TranscribeSegments { segment_count: segment_count(max_len) }
    } else {
        FinalizeAction::TranscribeWhole
    };
    FinalizePlan { keep_microphone, keep_system, samples, action }
}

/// The first sample of segment `i`.
pub open spec fn segment_start(i: nat) -> nat {
    (i * TRANSCRIPT_SEGMENT_SAMPLES) as nat
}

/// The end (exclusive) of segment `i` of a recording of `max_len` samples.
pub open spec fn segment_end(i: nat, max_len: nat) -> nat {
    let e = (i + 1) * TRANSCRIPT_SEGMENT_SAMPLES;
    if e <= max_len {
        e as nat
    } else {
        max_len
    }
}

/// The samples of segment `segment_index` of a recording of `max_len` samples.
pub fn segment_bounds(segment_index: usize, max_len: usize) -> (r: (usize, usize))
    requires
        segment_index < segment_count_for(max_len as nat),
    ensures
        r.0 == segment_start(segment_index as nat),
        r.1 == segment_end(segment_index as nat, max_len as nat),
        r.0 < r.1,
{
    let n = segment_count(max_len);
    assert(segment_index * TRANSCRIPT_SEGMENT_SAMPLES < max_len) by (nonlinear_arith)
        requires
            segment_index < n,
            n > 0,
            (n - 1) * TRANSCRIPT_SEGMENT_SAMPLES < max_len,
    ;
    let start = segment_index * TRANSCRIPT_SEGMENT_SAMPLES;
    let end = if max_len - start >= TRANSCRIPT_SEGMENT_SAMPLES {
        start + TRANSCRIPT_SEGMENT_SAMPLES
    } else {
        max_len
    };
    (start, end)
}

/// The part of a stream of `len` samples that falls in `[start, end)`: nothing when the
/// stream ends before `start`, else from `start` to `end` or to the stream's end.
pub fn chunk_range(start: usize, end: usize, len: usize) -> (r: Option<(usize, usize)>)
    ensures
        start >= len ==> r is None,
        start < len ==> r == Some(
            (start, if end <= len {
                end
            } else {
                len
            }),
        ),
{
    if start < len {
        Some(
            (start, if end <= len {
                end
            } else {
                len
            }),
        )
    } else {
        None
    }
}

/// A segmented transcription covers both streams whole: its segments together hold at
/// least as many samples as each stream, and without the last segment they would fall
/// short of the longer stream.
pub proof fn lemma_segments_cover_both_streams(
    source: MeetingAudioSource,
    microphone_len: usize,
    system_len: usize,
    transcribe_on_stop: bool,
)
    ensures
        finalize_plan(
            source,
            microphone_len as nat,
            system_len as nat,
            transcribe_on_stop,
        ).action matches FinalizeAction::TranscribeSegments { segment_count } ==> {
            &&& segment_count * TRANSCRIPT_SEGMENT_SAMPLES >= microphone_len
            &&& segment_count * TRANSCRIPT_SEGMENT_SAMPLES >= system_len
            &&& (segment_count - 1) * TRANSCRIPT_SEGMENT_SAMPLES < microphone_len
                || (segment_count - 1) * TRANSCRIPT_SEGMENT_SAMPLES < system_len
        },
{
    let mic = microphone_len as int;
    let sys = system_len as int;
    let longest: int = if mic >= sys {
        mic
    } else {
        sys
    };
    let n = segment_count_for(longest as nat) as int;
    let s = TRANSCRIPT_SEGMENT_SAMPLES as int;
    assert(n * s >= longest && (longest > 0 ==> (n - 1) * s < longest) && n <= longest)
        by (nonlinear_arith)
        requires
            n == (longest + s - 1) / s,
            s == 64000,
            longest >= 0,
    ;
}

/// What is done with a stopped recording: it is discarded exactly when the selected source
/// gave no samples; it is saved without a transcript when transcription on stop is off;
/// it is cut into segments exactly when both sources were recorded, both gave samples and
/// transcription is on; a source's samples are kept exactly when the source was recorded.
pub proof fn lemma_finalize_actions(
    source: MeetingAudioSource,
    microphone_len: nat,
    system_len: nat,
    transcribe_on_stop: bool,
)
    ensures
        ({
            let p = finalize_plan(source, microphone_len, system_len, transcribe_on_stop);
            let nothing = match source {
                MeetingAudioSource::MicrophoneOnly => microphone_len == 0,
                MeetingAudioSource::SystemOnly => system_len == 0,
                MeetingAudioSource::MicrophoneAndSystem => microphone_len == 0 && system_len == 0,
            };
            &&& (p.action == FinalizeAction::Discard) == nothing
            &&& !nothing && !transcribe_on_stop ==> p.action == FinalizeAction::SaveWithoutTranscript
            &&& (p.action is TranscribeSegments) == (source == MeetingAudioSource::MicrophoneAndSystem
                && microphone_len > 0 && system_len > 0 && transcribe_on_stop)
            &&& p.keep_microphone == (source != MeetingAudioSource::SystemOnly)
            &&& p.keep_system == (source != MeetingAudioSource::MicrophoneOnly)
        }),
{
}

/// The segments tile the recording: the first starts at 0, each ends where the next
/// starts, the last ends at the recording's end, and none is empty.
pub proof fn lemma_segments_tile(max_len: nat)
    requires
        max_len > 0,
    ensures
        segment_start(0) == 0,
        forall|i: nat|
            i + 1 < segment_count_for(max_len) ==> #[trigger] segment_end(i, max_len)
                == segment_start(i + 1),
        segment_end((segment_count_for(max_len) - 1) as nat, max_len) == max_len,
        forall|i: nat|
            i < segment_count_for(max_len) ==> segment_start(i) < #[trigger] segment_end(
                i,
                max_len,
            ),
{
    let n = segment_count_for(max_len);
    let s = TRANSCRIPT_SEGMENT_SAMPLES as int;
    assert(n * s >= max_len && (n - 1) * s < max_len) by (nonlinear_arith)
        requires
            n == (max_len + s - 1) / s,
            s == 64000,
            max_len > 0,
    ;
    assert forall|i: nat| i + 1 < n implies #[trigger] segment_end(i, max_len) == segment_start(
        i + 1,
    ) by {
        assert((i + 2) * s <= n * s) by (nonlinear_arith)
            requires
                i + 2 <= n,
                s > 0,
        ;
        assert((i + 1) * s <= (n - 1) * s) by (nonlinear_arith)
            requires
                i + 2 <= n,
                s > 0,
        ;
    }
    assert forall|i: nat| i < n implies segment_start(i) < #[trigger] segment_end(i, max_len) by {
        assert(i * s <= (n - 1) * s) by (nonlinear_arith)
            requires
                i + 1 <= n,
                s > 0,
        ;
    }
}

/// The name of the file a meeting recording is saved in, for a time in Unix seconds.
pub open spec fn wav_file_name(unix_seconds: int) -> Seq<char> {
    "handy-meeting-"@ + decimal(unix_seconds) + ".wav"@
}

/// The file name of a recording saved at `unix_seconds`.
pub fn meeting_wav_file_name(unix_seconds: i64) -> (r: String)
    ensures
        r@ == wav_file_name(unix_seconds as int),
{
    let mut name = str_to_chars("handy-meeting-");
    let digits = i64_to_decimal(unix_seconds);
    append_chars(&mut name, &digits);
    let ext = str_to_chars(".wav");
    append_chars(&mut name, &ext);
    string_from_chars(&name)
}

/// What is done with a stopped recording once saving its audio was tried: when the save
/// failed, nothing more (the recorder goes back to idle).
pub open spec fn action_after_save_spec(action: FinalizeAction, saved: bool) -> FinalizeAction {
    if saved {
        action
    } else {
        FinalizeAction::Discard
    }
}

/// What is done with a stopped recording once saving its audio was tried.
pub fn action_after_save(action: FinalizeAction, saved: bool) -> (r: FinalizeAction)
    ensures
        r == action_after_save_spec(action, saved),
{
    if saved {
        action
    } else {
        FinalizeAction::Discard
    }
}

} // verus!
