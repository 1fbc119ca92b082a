//! Platform integration decisions: power events, media pause and resume with
//! their fallbacks, mixer switch values and audio property codes. The system
//! calls themselves are made by the caller.
use vstd::prelude::*;

use vstd::string::StringExecFns;
use crate::text::{decimal, decimal_string};

verus! {

/// Errors of the platform integrations.
#[derive(Debug)]
pub enum AppError {
    /// A platform API failed; the text says how.
    Platform(String),
    /// An I/O operation failed; the text is the I/O error's message.
    Io(String),
}

/// `PBT_APMRESUMESUSPEND`: the system resumed after a user-initiated wake.
pub const PBT_APMRESUMESUSPEND: usize = 7;

/// `PBT_APMRESUMEAUTOMATIC`: the system resumed from sleep.
pub const PBT_APMRESUMEAUTOMATIC: usize = 18;

/// Whether a `WM_POWERBROADCAST` event parameter reports a wake from sleep.
pub fn is_resume_event(wparam: usize) -> (r: bool)
    ensures
        r == (wparam == PBT_APMRESUMESUSPEND || wparam == PBT_APMRESUMEAUTOMATIC),
{
    wparam == PBT_APMRESUMESUSPEND || wparam == PBT_APMRESUMEAUTOMATIC
}

/// A four-character code: the four bytes read as a big-endian 32-bit number.
pub open spec fn spec_fcc(a: u8, b: u8, c: u8, d: u8) -> int {
    a * 0x100_0000 + b * 0x1_0000 + c * 0x100 + d
}

/// The four-character code of CoreAudio property selectors and scopes.
pub fn fcc(a: u8, b: u8, c: u8, d: u8) -> (r: u32)
    ensures
        r == spec_fcc(a, b, c, d),
{
    let r = (a as u32) << 24u32 | (b as u32) << 16u32 | (c as u32) << 8u32 | d as u32;
    assert(r == (a as u32) * 0x100_0000 + (b as u32) * 0x1_0000 + (c as u32) * 0x100 + (d as u32))
        by (bit_vector)
        requires
            r == (a as u32) << 24u32 | (b as u32) << 16u32 | (c as u32) << 8u32 | d as u32,
    ;
    r
}

/// The playback switch value that sets the Master mixer element's mute
/// state: 0 mutes, 1 plays.
pub fn set_mute(mute: bool) -> (switch: i32)
    ensures
        switch == (if mute {
            0i32
        } else {
            1i32
        }),
{
    if mute {
        0
    } else {
        1
    }
}

/// Whether a playback switch value read from the mixer means muted.
pub fn muted_from_switch(switch: i32) -> (r: bool)
    ensures
        r == (switch == 0),
{
    switch == 0
}

/// What to do after one way of pausing or resuming the media players was tried.
#[derive(Debug)]
pub enum MediaFallback {
    /// Done, with this outcome.
    Done(Result<(), AppError>),
    /// The MPRIS way failed: try the media key through `xdotool`.
    TryXdotool,
}

/// Pausing the players: MPRIS first, the media key when that fails.
/// Takes the outcome of the MPRIS attempt.
pub fn pause_all(via_mpris: Result<(), AppError>) -> (r: MediaFallback)
    ensures
        via_mpris is Ok <==> r is Done,
        r matches MediaFallback::Done(o) ==> o is Ok,
{
    match via_mpris {
        Ok(()) => MediaFallback::Done(Ok(())),
        Err(_) => MediaFallback::TryXdotool,
    }
}

/// Resuming the players: MPRIS first, the media key when that fails.
/// Takes the outcome of the MPRIS attempt.
pub fn resume_all(via_mpris: Result<(), AppError>) -> (r: MediaFallback)
    ensures
        via_mpris is Ok <==> r is Done,
        r matches MediaFallback::Done(o) ==> o is Ok,
{
    match via_mpris {
        Ok(()) => MediaFallback::Done(Ok(())),
        Err(_) => MediaFallback::TryXdotool,
    }
}

/// How running `xdotool` ended.
#[derive(Debug)]
pub enum CommandOutcome {
    /// The program ran and exited; `status` is the exit status as displayed.
    Exited { success: bool, status: String },
    /// The program is not installed.
    NotFound,
    /// Starting the program failed otherwise; the text is the I/O error's message.
    Failed(String),
}

/// The message for an `xdotool` run that exited unsuccessfully.
pub open spec fn xdotool_status_text(status: Seq<char>) -> Seq<char> {
    "xdotool exited with status "@ + status
}

/// The outcome of pressing the play/pause media key through `xdotool`: a
/// missing `xdotool` is not an error.
pub fn pause_all_via_xdotool(outcome: CommandOutcome) -> (r: Result<(), AppError>)
    ensures
        match outcome {
            CommandOutcome::Exited { success, status } => if success {
                r is Ok
            } else {
                r matches Err(AppError::Platform(m)) && m@ == xdotool_status_text(status@)
            },
            CommandOutcome::NotFound => r is Ok,
            CommandOutcome::Failed(msg) => r matches Err(AppError::Io(m)) && m@ == msg@,
        },
{
    match outcome {
        CommandOutcome::Exited { success, status } => {
            if success {
                Ok(())
            } else {
                let m = String::from_str("xdotool exited with status ").concat(status.as_str());
                Err(AppError::Platform(m))
            }
        },
        CommandOutcome::NotFound => Ok(()),
        CommandOutcome::Failed(msg) => Err(AppError::Io(msg)),
    }
}

/// The text of one active render device: its form factor (999 where the
/// property could not be read), friendly name and endpoint ID.
pub open spec fn audio_device_text(form_factor: Option<u32>, name: Option<String>, id: Option<String>) -> Seq<char> {
    let ff: nat = match form_factor {
        Some(f) => f as nat,
        None => 999,
    };
    let n = match name {
        Some(n) => n@,
        None => "<no name>"@,
    };
    let i = match id {
        Some(i) => i@,
        None => "<no id>"@,
    };
    "FormFactor="@ + decimal(ff) + " | Name="@ + n + " | ID="@ + i
}

/// The listing line of one active render device, from the properties that
/// could be read.
pub fn audio_device_line(form_factor: Option<u32>, name: Option<String>, id: Option<String>) -> (r: String)
    ensures
        r@ == audio_device_text(form_factor, name, id),
{
    let ff: u32 = match form_factor {
        Some(f) => f,
        None => 999,
    };
    let mut line = String::from_str("FormFactor=");
    line.append(decimal_string(ff as u128).as_str());
    line.append(" | Name=");
    match &name {
        Some(n) => line.append(n.as_str()),
        None => line.append("<no name>"),
    }
    line.append(" | ID=");
    match &id {
        Some(i) => line.append(i.as_str()),
        None => line.append("<no id>"),
    }
    line
}

/// The step of the render device enumeration that failed.
#[derive(Clone, Copy, Debug)]
pub enum DeviceListStep {
    /// Creating the device enumerator.
    CoCreateInstance,
    /// Enumerating the active render endpoints.
    EnumAudioEndpoints,
    /// Counting the endpoints.
    GetCount,
}

/// What the system's render device enumeration gave.
#[derive(Debug)]
pub enum DeviceListing {
    /// A step failed.
    Failed(DeviceListStep),
    /// The lines of the devices that could be opened, in enumeration order.
    Listed(Vec<String>),
    /// The platform has no such enumeration.
    Unsupported,
}

/// The report line of a failed enumeration step.
pub open spec fn device_step_error_text(step: DeviceListStep) -> Seq<char> {
    match step {
        DeviceListStep::CoCreateInstance => "ERROR: CoCreateInstance failed"@,
        DeviceListStep::EnumAudioEndpoints => "ERROR: EnumAudioEndpoints failed"@,
        DeviceListStep::GetCount => "ERROR: GetCount failed"@,
    }
}

/// The diagnostic listing of the audio output devices: one line per active
/// render device, or a single line that says why there is none.
pub fn list_audio_devices(listing: DeviceListing) -> (r: Vec<String>)
    ensures
        match listing {
            DeviceListing::Failed(step) => r@.len() == 1 && r@[0]@ == device_step_error_text(step),
            DeviceListing::Listed(lines) => if lines@.len() == 0 {
                r@.len() == 1 && r@[0]@ == "No active render devices found"@
            } else {
                r@ == lines@
            },
            DeviceListing::Unsupported => r@.len() == 1 && r@[0]@ == "Not supported on this platform"@,
        },
{
    match listing {
        DeviceListing::Failed(step) => {
            let m = match step {
                DeviceListStep::CoCreateInstance => String::from_str("ERROR: CoCreateInstance failed"),
                DeviceListStep::EnumAudioEndpoints => String::from_str("ERROR: EnumAudioEndpoints failed"),
                DeviceListStep::GetCount => String::from_str("ERROR: GetCount failed"),
            };
            vec![m]
        },
        DeviceListing::Listed(lines) => {
            if lines.len() == 0 {
                vec![String::from_str("No active render devices found")]
            } else {
                lines
            }
        },
        DeviceListing::Unsupported => vec![String::from_str("Not supported on this platform")],
    }
}

/// Whether resuming after the ceremony sends the play command through the
/// system's media remote: only when the pause reported paused players and a
/// Now Playing session is active, since a play command without a session
/// starts the default media application.
pub fn resume_specific(paused: &Vec<String>, has_now_playing_session: bool) -> (send_play: bool)
    ensures
        send_play == (paused@.len() > 0 && has_now_playing_session),
{
    paused.len() > 0 && has_now_playing_session
}

} // verus!
