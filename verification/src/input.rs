//! Decisions taken on window and toolbar input.

use vstd::prelude::*;

verus! {

/// Whether a window resize is applied: both sides must be at least 10
/// pixels; smaller sizes are ignored.
pub fn resize_accepted(width: u32, height: u32) -> (accepted: bool)
    ensures
        accepted == (width >= 10 && height >= 10),
{
    !(width < 10 || height < 10)
}

/// A mouse button.
#[derive(Clone, Copy, Debug, PartialEq, Eq, Structural)]
pub enum MouseButtonKind {
    Left,
    Right,
    Middle,
    Back,
    Forward,
    Other,
}

/// What the editor does on a mouse button event.
#[derive(Clone, Copy, Debug, PartialEq, Eq, Structural)]
pub enum MouseAction {
    Down,
    Up,
}

/// The editor reacts to the left button only: press is a mouse-down,
/// release a mouse-up.
pub fn mouse_action(button: MouseButtonKind, pressed: bool) -> (action: Option<MouseAction>)
    ensures
        button != MouseButtonKind::Left ==> action is None,
        button == MouseButtonKind::Left && pressed ==> action == Some(MouseAction::Down),
        button == MouseButtonKind::Left && !pressed ==> action == Some(MouseAction::Up),
{
    match button {
        MouseButtonKind::Left => if pressed {
            Some(MouseAction::Down)
        } else {
            Some(MouseAction::Up)
        },
        _ => None,
    }
}

/// What the play button does.
#[derive(Clone, Copy, Debug, PartialEq, Eq, Structural)]
pub enum PlaybackAction {
    /// Stop playing, forget the start time, put the objects back in place.
    Pause,
    /// Remember the current instant as the start time and play.
    Play,
}

/// The play button pauses a playing sequence and plays a paused one; the
/// second value is whether the sequence plays afterwards.
pub fn toggle_play(is_playing: bool) -> (r: (PlaybackAction, bool))
    ensures
        is_playing ==> r == (PlaybackAction::Pause, false),
        !is_playing ==> r == (PlaybackAction::Play, true),
{
    if is_playing {
        (PlaybackAction::Pause, false)
    } else {
        (PlaybackAction::Play, true)
    }
}

/// What the screen-capture button asks for.
#[derive(Clone, Copy, Debug, PartialEq, Eq, Structural)]
pub enum CaptureRequest {
    StopScreenCapture,
    ShowCaptureSources,
}

/// While recording, the capture button stops the capture; otherwise it
/// offers the sources to capture.
pub fn capture_button_request(is_recording: bool) -> (r: CaptureRequest)
    ensures
        is_recording ==> r == CaptureRequest::StopScreenCapture,
        !is_recording ==> r == CaptureRequest::ShowCaptureSources,
{
    if is_recording {
        CaptureRequest::StopScreenCapture
    } else {
        CaptureRequest::ShowCaptureSources
    }
}

} // verus!
