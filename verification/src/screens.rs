//! Which panel of the window is shown: the sign-in form, the project list,
//! the project-creation form or the editor, and whether the canvas is hidden.

use vstd::prelude::*;

verus! {

/// The visibility of the panels and of the canvas.
#[derive(Clone, Copy, Debug, PartialEq, Eq, Structural)]
pub struct Screens {
    pub show_auth_form: bool,
    pub show_project_list: bool,
    pub show_project_creation: bool,
    pub show_editor: bool,
    pub canvas_hidden: bool,
}

/// What happened to change the panels.
#[derive(Clone, Copy, Debug, PartialEq, Eq, Structural)]
pub enum ScreenEvent {
    /// Sign-in succeeded and the local projects were loaded.
    SignedIn,
    /// The user signed out.
    SignedOut,
    /// "Create Project" was pressed in the project list.
    OpenProjectCreation,
    /// "Cancel" was pressed in the project-creation form.
    CancelProjectCreation,
    /// A project was selected or created and its state loaded.
    ProjectOpened,
}

/// The panels at start-up: the sign-in form unless signed in, the editor
/// when a project is already selected, the project list otherwise; the
/// canvas starts hidden.
pub fn initial_screens(is_authenticated: bool, has_selected_project: bool) -> (s: Screens)
    ensures
        s == (Screens {
            show_auth_form: !is_authenticated,
            show_project_list: is_authenticated && !has_selected_project,
            show_project_creation: false,
            show_editor: is_authenticated && has_selected_project,
            canvas_hidden: true,
        }),
{
    Screens {
        show_auth_form: !is_authenticated,
        show_project_list: is_authenticated && !has_selected_project,
        show_project_creation: false,
        show_editor: is_authenticated && has_selected_project,
        canvas_hidden: true,
    }
}

/// The panels after `event`.
pub open spec fn screens_after(s: Screens, event: ScreenEvent) -> Screens {
    match event {
        ScreenEvent::SignedIn => Screens { show_auth_form: false, show_project_list: true, ..s },
        ScreenEvent::SignedOut => Screens {
            show_auth_form: true,
            show_project_list: false,
            show_project_creation: false,
            show_editor: false,
            canvas_hidden: true,
        },
        ScreenEvent::OpenProjectCreation => Screens {
            show_project_list: false,
            show_project_creation: true,
            ..s
        },
        ScreenEvent::CancelProjectCreation => Screens {
            show_project_list: true,
            show_project_creation: false,
            ..s
        },
        ScreenEvent::ProjectOpened => Screens {
            show_project_list: false,
            show_project_creation: false,
            show_editor: true,
            canvas_hidden: false,
            ..s
        },
    }
}

/// Applies `event` to the panels.
pub fn next_screens(s: Screens, event: ScreenEvent) -> (next: Screens)
    ensures
        next == screens_after(s, event),
{
    match event {
        ScreenEvent::SignedIn => Screens { show_auth_form: false, show_project_list: true, ..s },
        ScreenEvent::SignedOut => Screens {
            show_auth_form: true,
            show_project_list: false,
            show_project_creation: false,
            show_editor: false,
            canvas_hidden: true,
        },
        ScreenEvent::OpenProjectCreation => Screens {
            show_project_list: false,
            show_project_creation: true,
            ..s
        },
        ScreenEvent::CancelProjectCreation => Screens {
            show_project_list: true,
            show_project_creation: false,
            ..s
        },
        ScreenEvent::ProjectOpened => Screens {
            show_project_list: false,
            show_project_creation: false,
            show_editor: true,
            canvas_hidden: false,
            ..s
        },
    }
}

/// Whether at most one of the four panels is shown.
pub open spec fn at_most_one_panel(s: Screens) -> bool {
    let n = (if s.show_auth_form { 1int } else { 0 }) + (if s.show_project_list { 1int } else { 0 }) + (
    if s.show_project_creation { 1int } else { 0 }) + (if s.show_editor { 1int } else { 0 });
    n <= 1
}

/// Whether `event` can arrive with the panels `s` without showing two
/// panels: sign-in not over the editor or the creation form, opening or
/// cancelling the creation form not over the sign-in form or the editor, a
/// project not opened over the sign-in form. Each event is offered only by
/// a panel that these allow.
pub open spec fn arrives_from_its_panel(s: Screens, event: ScreenEvent) -> bool {
    match event {
        ScreenEvent::SignedIn => !s.show_editor && !s.show_project_creation,
        ScreenEvent::SignedOut => true,
        ScreenEvent::OpenProjectCreation => !s.show_auth_form && !s.show_editor,
        ScreenEvent::CancelProjectCreation => !s.show_auth_form && !s.show_editor,
        ScreenEvent::ProjectOpened => !s.show_auth_form,
    }
}

/// The panels never overlap: the start-up state shows at most one, and every
/// event that arrives from its panel keeps it so.
pub proof fn lemma_one_panel_at_a_time(is_authenticated: bool, has_selected_project: bool, s: Screens, event: ScreenEvent)
    requires
        at_most_one_panel(s),
        arrives_from_its_panel(s, event),
    ensures
        at_most_one_panel(
            Screens {
                show_auth_form: !is_authenticated,
                show_project_list: is_authenticated && !has_selected_project,
                show_project_creation: false,
                show_editor: is_authenticated && has_selected_project,
                canvas_hidden: true,
            },
        ),
        at_most_one_panel(screens_after(s, event)),
{
}

/// Signing out always lands on the sign-in form alone, with the canvas hidden.
pub proof fn lemma_sign_out_shows_sign_in(s: Screens)
    ensures
        screens_after(s, ScreenEvent::SignedOut) == (Screens {
            show_auth_form: true,
            show_project_list: false,
            show_project_creation: false,
            show_editor: false,
            canvas_hidden: true,
        }),
{
}

/// How many of the four panels are shown.
pub open spec fn panel_count(s: Screens) -> int {
    (if s.show_auth_form { 1int } else { 0 }) + (if s.show_project_list { 1int } else { 0 }) + (
    if s.show_project_creation { 1int } else { 0 }) + (if s.show_editor { 1int } else { 0 })
}

/// The window always shows exactly one panel: the start-up state shows one,
/// and every event that arrives from its panel leaves exactly one shown.
pub proof fn lemma_exactly_one_panel(is_authenticated: bool, has_selected_project: bool, s: Screens, event: ScreenEvent)
    requires
        panel_count(s) == 1,
        arrives_from_its_panel(s, event),
    ensures
        panel_count(
            Screens {
                show_auth_form: !is_authenticated,
                show_project_list: is_authenticated && !has_selected_project,
                show_project_creation: false,
                show_editor: is_authenticated && has_selected_project,
                canvas_hidden: true,
            },
        ) == 1,
        panel_count(screens_after(s, event)) == 1,
{
}

/// Each event shows its own panel, whatever was shown before: signing in
/// shows the project list, signing out the sign-in form, "Create Project"
/// the creation form, "Cancel" the project list again, and opening a project
/// the editor with its canvas.
pub proof fn lemma_each_event_shows_its_panel(s: Screens)
    ensures
        screens_after(s, ScreenEvent::SignedIn).show_project_list,
        !screens_after(s, ScreenEvent::SignedIn).show_auth_form,
        screens_after(s, ScreenEvent::SignedOut).show_auth_form,
        !screens_after(s, ScreenEvent::SignedOut).show_editor,
        screens_after(s, ScreenEvent::OpenProjectCreation).show_project_creation,
        !screens_after(s, ScreenEvent::OpenProjectCreation).show_project_list,
        screens_after(s, ScreenEvent::CancelProjectCreation).show_project_list,
        !screens_after(s, ScreenEvent::CancelProjectCreation).show_project_creation,
        screens_after(s, ScreenEvent::ProjectOpened).show_editor,
        !screens_after(s, ScreenEvent::ProjectOpened).canvas_hidden,
        !screens_after(s, ScreenEvent::ProjectOpened).show_project_list,
        !screens_after(s, ScreenEvent::ProjectOpened).show_project_creation,
{
}

} // verus!
