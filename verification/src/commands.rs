//! What the application reports about the permissions a meeting recording needs.
use vstd::prelude::*;

verus! {

/// Whether an access the recording needs is granted.
#[derive(Debug, Clone, Copy, PartialEq, Eq, Structural)]
pub enum MeetingPermissionAccess {
    Allowed,
    Denied,
    Unknown,
}

/// The permissions a meeting recording needs, as far as they can be known.
#[derive(Debug, Clone, Copy, PartialEq, Eq, Structural)]
pub struct MeetingPermissionStatus {
    pub supported: bool,
    pub microphone: MeetingPermissionAccess,
    pub screen_capture: MeetingPermissionAccess,
    pub overall_access: MeetingPermissionAccess,
}

/// The permission status on a build where system audio capture is `supported`, when the
/// screen capture access check answered `screen_capture_allowed` (which only counts where
/// capture is supported).  Microphone access is never known; screen capture access is
/// known only where capture is supported; overall access is denied exactly when screen
/// capture access is denied, and unknown otherwise.
pub fn get_meeting_permission_status(supported: bool, screen_capture_allowed: bool) -> (r:
    MeetingPermissionStatus)
    ensures
        r.supported == supported,
        r.microphone == MeetingPermissionAccess::Unknown,
        !supported ==> r.screen_capture == MeetingPermissionAccess::Unknown,
        supported && screen_capture_allowed ==> r.screen_capture
            == MeetingPermissionAccess::Allowed,
        supported && !screen_capture_allowed ==> r.screen_capture
            == MeetingPermissionAccess::Denied,
        r.overall_access == (if r.screen_capture == MeetingPermissionAccess::Denied {
            MeetingPermissionAccess::Denied
        } else {
            MeetingPermissionAccess::Unknown
        }),
{
    if !supported {
        return MeetingPermissionStatus {
            supported: false,
            microphone: MeetingPermissionAccess::Unknown,
            screen_capture: MeetingPermissionAccess::Unknown,
            overall_access: MeetingPermissionAccess::Unknown,
        };
    }
    let screen_capture = if screen_capture_allowed {
        MeetingPermissionAccess::Allowed
    } else {
        MeetingPermissionAccess::Denied
    };
    let overall_access = if screen_capture == MeetingPermissionAccess::Denied {
        MeetingPermissionAccess::Denied
    } else {
        MeetingPermissionAccess::Unknown
    };
    MeetingPermissionStatus {
        supported: true,
        microphone: MeetingPermissionAccess::Unknown,
        screen_capture,
        overall_access,
    }
}

} // verus!
