//! Recognising a Zoom meeting from the foreground window, and the streak counting
//! that turns detections into automatic starts and stops of a recording.
use vstd::prelude::*;

use crate::meeting::MeetingRecordingState;
use crate::text::{
    ascii_lower_seq, lemma_ascii_lower_idempotent, chars_to_ascii_lowercase, contains_str, has_substring,
    occurs_at, str_to_chars,
};

verus! {

/// Polls in a row that must see a meeting before a recording starts by itself.
pub const ZOOM_DETECTION_ACTIVE_POLLS_REQUIRED: u8 = 2;

/// Polls in a row that must see no meeting before a recording that started by itself stops.
pub const ZOOM_DETECTION_INACTIVE_POLLS_REQUIRED: u8 = 4;

/// Title fragments that name a part of Zoom Workplace other than a meeting.
pub open spec fn has_non_meeting_marker(t: Seq<char>) -> bool {
    ||| has_substring(t, "chat"@)
    ||| has_substring(t, "contacts"@)
    ||| has_substring(t, "mail"@)
    ||| has_substring(t, "calendar"@)
    ||| has_substring(t, "whiteboard"@)
    ||| has_substring(t, "phone"@)
    ||| has_substring(t, "settings"@)
    ||| has_substring(t, "home"@)
}

/// Whether an already lower-cased window title names a Zoom meeting: a title with a
/// meeting phrase (or both "zoom" and "meeting") does; otherwise only a Zoom Workplace
/// title does, unless it names another part of Workplace and neither a meeting nor a webinar.
pub open spec fn lowered_title_is_meeting(t: Seq<char>) -> bool {
    if has_substring(t, "zoom meeting"@) || has_substring(t, "meeting controls"@)
        || has_substring(t, "joining meeting"@) || has_substring(t, "waiting for host"@) || (
    has_substring(t, "zoom"@) && has_substring(t, "meeting"@)) {
        true
    } else if !(has_substring(t, "zoom workplace -"@) || has_substring(t, " - zoom workplace"@)) {
        false
    } else {
        !(has_non_meeting_marker(t) && !(has_substring(t, "meeting"@) || has_substring(
            t,
            "webinar"@,
        )))
    }
}

/// Whether a window title names a Zoom meeting, regardless of ASCII case.
pub open spec fn title_is_zoom_meeting(title: Seq<char>) -> bool {
    lowered_title_is_meeting(ascii_lower_seq(title))
}

/// Whether a window title names a Zoom meeting.
pub fn title_indicates_zoom_meeting(title: &str) -> (r: bool)
    ensures
        r == title_is_zoom_meeting(title@),
{
    let chars = str_to_chars(title);
    let n = chars_to_ascii_lowercase(&chars);
    if contains_str(&n, "zoom meeting") || contains_str(&n, "meeting controls") || contains_str(
        &n,
        "joining meeting",
    ) || contains_str(&n, "waiting for host") || (contains_str(&n, "zoom") && contains_str(
        &n,
        "meeting",
    )) {
        return true;
    }
    let has_zoom_workplace_context = contains_str(&n, "zoom workplace -") || contains_str(
        &n,
        " - zoom workplace",
    );
    if !has_zoom_workplace_context {
        return false;
    }
    let has_non_meeting_marker = contains_str(&n, "chat") || contains_str(&n, "contacts")
        || contains_str(&n, "mail") || contains_str(&n, "calendar") || contains_str(
        &n,
        "whiteboard",
    ) || contains_str(&n, "phone") || contains_str(&n, "settings") || contains_str(&n, "home");
    let has_meeting_marker = contains_str(&n, "meeting") || contains_str(&n, "webinar");
    !(has_non_meeting_marker && !has_meeting_marker)
}

/// Whether a title names a meeting does not depend on its ASCII case: the title and
/// its lower-cased form are judged alike.
pub proof fn lemma_title_case_insensitive(title: Seq<char>)
    ensures
        title_is_zoom_meeting(title) == title_is_zoom_meeting(ascii_lower_seq(title)),
{
    assert forall|i: int| 0 <= i < title.len() implies #[trigger] ascii_lower_seq(
        ascii_lower_seq(title),
    )[i] == ascii_lower_seq(title)[i] by {
        lemma_ascii_lower_idempotent(title[i]);
    }
    assert(ascii_lower_seq(ascii_lower_seq(title)) =~= ascii_lower_seq(title));
}

/// A title that holds "zoom meeting" in any ASCII case names a meeting.
pub proof fn lemma_zoom_meeting_phrase_suffices(title: Seq<char>)
    requires
        has_substring(ascii_lower_seq(title), "zoom meeting"@),
    ensures
        title_is_zoom_meeting(title),
{
}

/// A phrase that holds `q` at position `j` occurs in a text only where `q` does too.
pub proof fn lemma_substring_of_substring(t: Seq<char>, p: Seq<char>, q: Seq<char>, j: int)
    requires
        has_substring(t, p),
        occurs_at(p, q, j),
    ensures
        has_substring(t, q),
{
    let i = choose|i: int| occurs_at(t, p, i);
    assert(t.subrange(i + j, i + j + q.len()) =~= p.subrange(j, j + q.len()));
    assert(occurs_at(t, q, i + j));
}

/// A lower-cased title that names another part of Zoom Workplace (chat, contacts, mail,
/// calendar, whiteboard, phone, settings or home) and holds neither "meeting", "webinar"
/// nor "waiting for host" does not name a meeting, with or without Workplace in it.
pub proof fn lemma_workplace_page_not_meeting(t: Seq<char>)
    requires
        has_substring(t, "chat"@) || has_substring(t, "contacts"@) || has_substring(t, "mail"@)
            || has_substring(t, "calendar"@) || has_substring(t, "whiteboard"@) || has_substring(
            t,
            "phone"@,
        ) || has_substring(t, "settings"@) || has_substring(t, "home"@),
        !has_substring(t, "meeting"@),
        !has_substring(t, "webinar"@),
        !has_substring(t, "waiting for host"@),
    ensures
        !lowered_title_is_meeting(t),
{
    reveal_strlit("meeting");
    reveal_strlit("zoom meeting");
    reveal_strlit("meeting controls");
    reveal_strlit("joining meeting");
    if has_substring(t, "zoom meeting"@) {
        assert("zoom meeting"@.subrange(5, 12) =~= "meeting"@);
        lemma_substring_of_substring(t, "zoom meeting"@, "meeting"@, 5);
    }
    if has_substring(t, "meeting controls"@) {
        assert("meeting controls"@.subrange(0, 7) =~= "meeting"@);
        lemma_substring_of_substring(t, "meeting controls"@, "meeting"@, 0);
    }
    if has_substring(t, "joining meeting"@) {
        assert("joining meeting"@.subrange(8, 15) =~= "meeting"@);
        lemma_substring_of_substring(t, "joining meeting"@, "meeting"@, 8);
    }
}

/// A window title that, in any ASCII case, names another part of Zoom Workplace and holds
/// neither "meeting", "webinar" nor "waiting for host" is not taken for a meeting.
pub proof fn lemma_workplace_title_not_meeting(title: Seq<char>)
    requires
        has_substring(ascii_lower_seq(title), "chat"@) || has_substring(
            ascii_lower_seq(title),
            "contacts"@,
        ) || has_substring(ascii_lower_seq(title), "mail"@) || has_substring(
            ascii_lower_seq(title),
            "calendar"@,
        ) || has_substring(ascii_lower_seq(title), "whiteboard"@) || has_substring(
            ascii_lower_seq(title),
            "phone"@,
        ) || has_substring(ascii_lower_seq(title), "settings"@) || has_substring(
            ascii_lower_seq(title),
            "home"@,
        ),
        !has_substring(ascii_lower_seq(title), "meeting"@),
        !has_substring(ascii_lower_seq(title), "webinar"@),
        !has_substring(ascii_lower_seq(title), "waiting for host"@),
    ensures
        !title_is_zoom_meeting(title),
{
    lemma_workplace_page_not_meeting(ascii_lower_seq(title));
}

/// Which lower-cased titles name a meeting: any with a meeting phrase, or with both
/// "zoom" and "meeting"; a Zoom Workplace title with "meeting" or "webinar", or naming no
/// other part of Workplace; and none without "zoom" unless it holds "meeting controls",
/// "joining meeting" or "waiting for host".
pub proof fn lemma_meeting_title_cases(t: Seq<char>)
    ensures
        has_substring(t, "zoom meeting"@) || has_substring(t, "meeting controls"@) || has_substring(
            t,
            "joining meeting"@,
        ) || has_substring(t, "waiting for host"@) || (has_substring(t, "zoom"@) && has_substring(
            t,
            "meeting"@,
        )) ==> lowered_title_is_meeting(t),
        (has_substring(t, "zoom workplace -"@) || has_substring(t, " - zoom workplace"@)) && (
        has_substring(t, "meeting"@) || has_substring(t, "webinar"@)) ==> lowered_title_is_meeting(
            t,
        ),
        (has_substring(t, "zoom workplace -"@) || has_substring(t, " - zoom workplace"@)) && !(
        has_substring(t, "chat"@) || has_substring(t, "contacts"@) || has_substring(t, "mail"@)
            || has_substring(t, "calendar"@) || has_substring(t, "whiteboard"@) || has_substring(
            t,
            "phone"@,
        ) || has_substring(t, "settings"@) || has_substring(t, "home"@)) ==> lowered_title_is_meeting(
            t,
        ),
        !has_substring(t, "zoom"@) && !has_substring(t, "meeting controls"@) && !has_substring(
            t,
            "joining meeting"@,
        ) && !has_substring(t, "waiting for host"@) ==> !lowered_title_is_meeting(t),
{
    reveal_strlit("zoom");
    reveal_strlit("zoom meeting");
    reveal_strlit("zoom workplace -");
    reveal_strlit(" - zoom workplace");
    if has_substring(t, "zoom meeting"@) {
        assert("zoom meeting"@.subrange(0, 4) =~= "zoom"@);
        lemma_substring_of_substring(t, "zoom meeting"@, "zoom"@, 0);
    }
    if has_substring(t, "zoom workplace -"@) {
        assert("zoom workplace -"@.subrange(0, 4) =~= "zoom"@);
        lemma_substring_of_substring(t, "zoom workplace -"@, "zoom"@, 0);
    }
    if has_substring(t, " - zoom workplace"@) {
        assert(" - zoom workplace"@.subrange(3, 7) =~= "zoom"@);
        lemma_substring_of_substring(t, " - zoom workplace"@, "zoom"@, 3);
    }
}

/// What the foreground window shows of itself: its process's id (0 when none could be
/// read), the path of the process's executable image (`None` when it could not be
/// read) and the window's title (`None` when the window has none or it could not be read).
#[derive(Debug, Clone, PartialEq, Eq)]
pub struct ForegroundWindow {
    pub process_id: u32,
    pub process_image_name: Option<String>,
    pub title: Option<String>,
}

/// `s` ends with `p`.
pub open spec fn ends_with(s: Seq<char>, p: Seq<char>) -> bool {
    p.len() <= s.len() && s.skip(s.len() - p.len()) == p
}

/// Whether an executable image path names Zoom's client, in any ASCII case.
pub open spec fn is_zoom_image(name: Seq<char>) -> bool {
    ends_with(ascii_lower_seq(name), "\\zoom.exe"@) || ends_with(
        ascii_lower_seq(name),
        "/zoom.exe"@,
    )
}

/// Whether the foreground window is a Zoom meeting: there is one, its process is known,
/// runs Zoom's client, and the window's title names a meeting.
pub open spec fn window_is_zoom_meeting(w: Option<ForegroundWindow>) -> bool {
    match w {
        None => false,
        Some(w) => {
            &&& w.process_id != 0
            &&& w.process_image_name matches Some(name) && is_zoom_image(name@)
            &&& w.title matches Some(title) && title_is_zoom_meeting(title@)
        },
    }
}

fn chars_end_with(s: &Vec<char>, p: &str) -> (r: bool)
    ensures
        r == ends_with(s@, p@),
{
    let pc = str_to_chars(p);
    if pc.len() > s.len() {
        return false;
    }
    let off = s.len() - pc.len();
    for j in 0..pc.len()
        invariant
            off + pc.len() == s.len(),
            pc@ == p@,
            forall|k: int| 0 <= k < j ==> s@[off + k] == pc@[k],
    {
        if s[off + j] != pc[j] {
            assert(s@.skip(off as int)[j as int] != pc@[j as int]);
            return false;
        }
    }
    assert(s@.skip(off as int) =~= pc@);
    true
}

/// Whether a Zoom meeting holds the foreground; `None` when no window is in front.
pub fn is_zoom_meeting_active(window: Option<ForegroundWindow>) -> (r: bool)
    ensures
        r == window_is_zoom_meeting(window),
{
    let w = match window {
        None => {
            return false;
        },
        Some(w) => w,
    };
    if w.process_id == 0 {
        return false;
    }
    let name = match &w.process_image_name {
        None => {
            return false;
        },
        Some(name) => name,
    };
    let name_chars = str_to_chars(name.as_str());
    let lowered = chars_to_ascii_lowercase(&name_chars);
    if !chars_end_with(&lowered, "\\zoom.exe") && !chars_end_with(&lowered, "/zoom.exe") {
        return false;
    }
    match &w.title {
        None => false,
        Some(title) => title_indicates_zoom_meeting(title.as_str()),
    }
}

/// What a poll of the zoom detection asks of the recorder.
#[derive(Debug, Clone, Copy, PartialEq, Eq, Structural)]
pub enum ZoomPollAction {
    Continue,
    StartRecording,
    StopRecording,
}

/// Consecutive polls that saw a Zoom meeting, and that saw none.
#[derive(Debug, Clone, Copy, PartialEq, Eq, Structural)]
pub struct ZoomAutoDetector {
    pub active_streak: u8,
    pub inactive_streak: u8,
}

/// One more poll, counted without passing the largest `u8`.
pub open spec fn saturating_inc(n: u8) -> u8 {
    if n == u8::MAX {
        n
    } else {
        (n + 1) as u8
    }
}

/// The streaks after a poll: cleared while the detection is disabled; otherwise the
/// streak of what the poll saw grows and the other one is cleared.
pub open spec fn next_streaks(
    d: ZoomAutoDetector,
    experimental_enabled: bool,
    zoom_active: bool,
) -> ZoomAutoDetector {
    if !experimental_enabled {
        ZoomAutoDetector { active_streak: 0, inactive_streak: 0 }
    } else if zoom_active {
        ZoomAutoDetector { active_streak: saturating_inc(d.active_streak), inactive_streak: 0 }
    } else {
        ZoomAutoDetector { active_streak: 0, inactive_streak: saturating_inc(d.inactive_streak) }
    }
}

/// What a poll asks, given the streaks after it: start an idle recorder after enough
/// polls saw a meeting; stop a recording the detection started after enough polls saw none.
pub open spec fn poll_action(
    d: ZoomAutoDetector,
    experimental_enabled: bool,
    state: MeetingRecordingState,
    zoom_auto_started_active: bool,
) -> ZoomPollAction {
    if !experimental_enabled {
        ZoomPollAction::Continue
    } else if d.active_streak >= ZOOM_DETECTION_ACTIVE_POLLS_REQUIRED && state
        == MeetingRecordingState::Idle {
        ZoomPollAction::StartRecording
    } else if d.inactive_streak >= ZOOM_DETECTION_INACTIVE_POLLS_REQUIRED
        && zoom_auto_started_active {
        ZoomPollAction::StopRecording
    } else {
        ZoomPollAction::Continue
    }
}

impl ZoomAutoDetector {
    /// A detector that has seen no poll.
    pub fn new() -> (d: Self)
        ensures
            d.active_streak == 0 && d.inactive_streak == 0,
    {
        ZoomAutoDetector { active_streak: 0, inactive_streak: 0 }
    }

    /// Counts one poll and says what the recorder should do.  `state` and
    /// `zoom_auto_started_active` describe the recorder when the poll is made.
    pub fn poll(
        &mut self,
        experimental_enabled: bool,
        zoom_active: bool,
        state: MeetingRecordingState,
        zoom_auto_started_active: bool,
    ) -> (a: ZoomPollAction)
        ensures
            *final(self) == next_streaks(*old(self), experimental_enabled, zoom_active),
            a == poll_action(*final(self), experimental_enabled, state, zoom_auto_started_active),
    {
        if !experimental_enabled {
            self.active_streak = 0;
            self.inactive_streak = 0;
            return ZoomPollAction::Continue;
        }
        if zoom_active {
            self.active_streak = self.active_streak.saturating_add(1);
            self.inactive_streak = 0;
        } else {
            self.inactive_streak = self.inactive_streak.saturating_add(1);
            self.active_streak = 0;
        }
        let idle = match state {
            MeetingRecordingState::Idle => true,
            _ => false,
        };
        if self.active_streak >= ZOOM_DETECTION_ACTIVE_POLLS_REQUIRED && idle {
            ZoomPollAction::StartRecording
        } else if self.inactive_streak >= ZOOM_DETECTION_INACTIVE_POLLS_REQUIRED
            && zoom_auto_started_active {
            ZoomPollAction::StopRecording
        } else {
            ZoomPollAction::Continue
        }
    }
}

/// After any poll at most one of the streaks is non-zero, so a poll never finds both a
/// start and a stop due.
pub proof fn lemma_streaks_exclusive(
    d: ZoomAutoDetector,
    experimental_enabled: bool,
    zoom_active: bool,
)
    ensures
        next_streaks(d, experimental_enabled, zoom_active).active_streak == 0 || next_streaks(
            d,
            experimental_enabled,
            zoom_active,
        ).inactive_streak == 0,
{
}

/// A poll asks for a start only when it and the poll before it both saw a meeting and
/// the recorder is idle; it asks for a stop only when it and the three polls before it
/// saw none and the running recording was started by the detection.
pub proof fn lemma_poll_requires_consecutive_sightings(
    d: ZoomAutoDetector,
    experimental_enabled: bool,
    zoom_active: bool,
    state: MeetingRecordingState,
    zoom_auto_started_active: bool,
)
    ensures
        poll_action(
            next_streaks(d, experimental_enabled, zoom_active),
            experimental_enabled,
            state,
            zoom_auto_started_active,
        ) == ZoomPollAction::StartRecording ==> experimental_enabled && zoom_active
            && d.active_streak >= 1 && state == MeetingRecordingState::Idle,
        poll_action(
            next_streaks(d, experimental_enabled, zoom_active),
            experimental_enabled,
            state,
            zoom_auto_started_active,
        ) == ZoomPollAction::StopRecording ==> experimental_enabled && !zoom_active
            && d.inactive_streak >= 3 && zoom_auto_started_active,
{
}

} // verus!
