use stunts_native::screens::{initial_screens, next_screens, ScreenEvent, Screens};

fn shown(s: &Screens) -> usize {
    [s.show_auth_form, s.show_project_list, s.show_project_creation, s.show_editor].iter().filter(|b| **b).count()
}

#[test]
fn start_up_panels() {
    let s = initial_screens(false, false);
    assert!(s.show_auth_form && !s.show_project_list && !s.show_editor && s.canvas_hidden);
    let s = initial_screens(true, false);
    assert!(!s.show_auth_form && s.show_project_list && !s.show_editor);
    let s = initial_screens(true, true);
    assert!(s.show_editor && !s.show_project_list);
}

#[test]
fn a_whole_session() {
    let mut s = initial_screens(false, false);
    for event in [
        ScreenEvent::SignedIn,
        ScreenEvent::OpenProjectCreation,
        ScreenEvent::CancelProjectCreation,
        ScreenEvent::OpenProjectCreation,
        ScreenEvent::ProjectOpened,
    ] {
        s = next_screens(s, event);
        assert!(shown(&s) <= 1);
    }
    assert!(s.show_editor);
    assert!(!s.canvas_hidden);
    s = next_screens(s, ScreenEvent::SignedOut);
    assert_eq!(
        s,
        Screens {
            show_auth_form: true,
            show_project_list: false,
            show_project_creation: false,
            show_editor: false,
            canvas_hidden: true
        }
    );
}

#[test]
fn opening_from_list() {
    let s = next_screens(initial_screens(true, false), ScreenEvent::ProjectOpened);
    assert!(s.show_editor && !s.show_project_list && !s.show_project_creation && !s.canvas_hidden);
}
