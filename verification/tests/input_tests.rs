use stunts_native::input::{capture_button_request, mouse_action, resize_accepted, toggle_play, CaptureRequest, MouseAction, MouseButtonKind, PlaybackAction};

#[test]
fn resize_threshold() {
    assert!(resize_accepted(10, 10));
    assert!(!resize_accepted(9, 800));
    assert!(!resize_accepted(800, 0));
}

#[test]
fn left_button_only() {
    assert_eq!(mouse_action(MouseButtonKind::Left, true), Some(MouseAction::Down));
    assert_eq!(mouse_action(MouseButtonKind::Left, false), Some(MouseAction::Up));
    assert_eq!(mouse_action(MouseButtonKind::Right, true), None);
    assert_eq!(mouse_action(MouseButtonKind::Middle, false), None);
}

#[test]
fn play_toggles() {
    assert_eq!(toggle_play(true), (PlaybackAction::Pause, false));
    assert_eq!(toggle_play(false), (PlaybackAction::Play, true));
}

#[test]
fn capture_button() {
    assert_eq!(capture_button_request(true), CaptureRequest::StopScreenCapture);
    assert_eq!(capture_button_request(false), CaptureRequest::ShowCaptureSources);
}
