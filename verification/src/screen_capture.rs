//! Whether system audio capture exists on a build, and what a start or stop of the
//! native capture amounts to.
use vstd::prelude::*;

use crate::text::{chars_eq, str_to_chars};

verus! {

/// System audio capture exists only in builds for Apple silicon Macs.
pub open spec fn capture_supported_on(target_os: Seq<char>, target_arch: Seq<char>) -> bool {
    target_os == "macos"@ && target_arch == "aarch64"@
}

/// Whether system audio capture exists on a build for `target_os` and `target_arch`
/// (the names Rust gives them, such as `std::env::consts::OS`).
pub fn is_supported(target_os: &str, target_arch: &str) -> (r: bool)
    ensures
        r == capture_supported_on(target_os@, target_arch@),
{
    let os = str_to_chars(target_os);
    let arch = str_to_chars(target_arch);
    let macos = str_to_chars("macos");
    let aarch64 = str_to_chars("aarch64");
    chars_eq(&os, &macos) && chars_eq(&arch, &aarch64)
}

pub open spec fn msg_capture_unsupported() -> Seq<char> {
    "System audio capture is not supported on this platform"@
}

pub open spec fn msg_capture_start_failed() -> Seq<char> {
    "Failed to start system audio capture"@
}

pub open spec fn msg_null_response() -> Seq<char> {
    "System audio capture returned a null response"@
}

pub open spec fn msg_capture_failed() -> Seq<char> {
    "System audio capture failed"@
}

fn owned(s: &str) -> (r: String)
    ensures
        r@ == s@,
{
    broadcast use vstd::string::group_string_axioms;

    s.to_string()
}

/// The result of starting the native capture: refused where capture is not supported,
/// else as the native start reported (`started`).
pub fn start_capture(supported: bool, started: bool) -> (r: Result<(), String>)
    ensures
        !supported ==> (r matches Err(e) && e@ == msg_capture_unsupported()),
        supported && started ==> r is Ok,
        supported && !started ==> (r matches Err(e) && e@ == msg_capture_start_failed()),
{
    if !supported {
        return Err(owned("System audio capture is not supported on this platform"));
    }
    if started {
        Ok(())
    } else {
        Err(owned("Failed to start system audio capture"))
    }
}

/// What the native capture answered when stopped: whether it succeeded (`success == 1`),
/// how many samples it holds, whether the sample buffer is there, and its error message
/// if it gave one.
#[derive(Debug, Clone, PartialEq, Eq)]
pub struct SystemAudioCaptureResponse {
    pub success: i32,
    pub sample_count: u64,
    pub has_samples: bool,
    pub error_message: Option<String>,
}

/// The result of stopping the native capture, as the number of samples to take from its
/// buffer: refused where capture is not supported or when no answer came (`None`); when the
/// capture succeeded, all its samples, or none when the buffer is missing or empty; when it
/// failed, its own error message if it gave one.
pub fn stop_capture(supported: bool, response: Option<SystemAudioCaptureResponse>) -> (r: Result<
    u64,
    String,
>)
    ensures
        !supported ==> (r matches Err(e) && e@ == msg_capture_unsupported()),
        supported && response is None ==> (r matches Err(e) && e@ == msg_null_response()),
        supported && response is Some ==> {
            let resp = response->0;
            &&& resp.success == 1 ==> r == Ok::<u64, String>(
                if resp.has_samples {
                    resp.sample_count
                } else {
                    0
                },
            )
            &&& resp.success != 1 && resp.error_message is Some ==> (r matches Err(e) && e@
                == resp.error_message->0@)
            &&& resp.success != 1 && resp.error_message is None ==> (r matches Err(e) && e@
                == msg_capture_failed())
        },
{
    if !supported {
        return Err(owned("System audio capture is not supported on this platform"));
    }
    let resp = match response {
        None => {
            return Err(owned("System audio capture returned a null response"));
        },
        Some(resp) => resp,
    };
    if resp.success == 1 {
        if !resp.has_samples || resp.sample_count == 0 {
            Ok(0)
        } else {
            Ok(resp.sample_count)
        }
    } else {
        match resp.error_message {
            Some(e) => Err(e),
            None => Err(owned("System audio capture failed")),
        }
    }
}

} // verus!
