use stunts_native::ideas::{get_animation_ideas, pick_idea, MotionForm};

#[test]
fn catalogue_has_thirty_ideas_in_order() {
    let ideas = get_animation_ideas();
    assert_eq!(ideas.len(), 30);
    assert_eq!(ideas[0].object_description, "Modern notification bell icon");
    assert_eq!(ideas[0].position_description, "Gently bobs up and down");
    assert_eq!(ideas[0].rotation_description, "Wiggles slightly back and forth");
    assert_eq!(ideas[0].scale_description, "Pulses just a bit larger occasionally");
    assert_eq!(ideas[0].opacity_description, "Stays fully visible");
    assert_eq!(ideas[29].object_description, "Ring spinning in air");
    assert_eq!(ideas[29].opacity_description, "Metallic finish, fully visible");
}

#[test]
fn pick_idea_wraps_around() {
    let ideas = get_animation_ideas();
    let picked = pick_idea(&ideas, 31).unwrap();
    assert_eq!(picked.object_description, ideas[1].object_description);
    let picked = pick_idea(&ideas, usize::MAX).unwrap();
    assert_eq!(picked.object_description, ideas[usize::MAX % 30].object_description);
}

#[test]
fn pick_idea_from_nothing() {
    assert!(pick_idea(&Vec::new(), 7).is_none());
}

#[test]
fn apply_idea_keeps_duration_and_delay() {
    let ideas = get_animation_ideas();
    let mut form = MotionForm::new();
    form.duration = "5 seconds".to_string();
    form.delay = "1500ms".to_string();
    form.apply_idea(&ideas[2]);
    assert_eq!(form.description, "Check mark icon");
    assert_eq!(form.position, "Settles into place");
    assert_eq!(form.rotation, "No rotation");
    assert_eq!(form.scale, "Grows from small to normal with gentle bounce");
    assert_eq!(form.opacity, "Fades in");
    assert_eq!(form.duration, "5 seconds");
    assert_eq!(form.delay, "1500ms");
}

#[test]
fn random_animation_comes_from_catalogue() {
    let ideas = get_animation_ideas();
    let mut seen_different = false;
    let mut first: Option<String> = None;
    for _ in 0..50 {
        let mut form = MotionForm::new();
        form.delay = "2 seconds".to_string();
        form.try_random_animation();
        assert!(ideas.iter().any(|i| i.object_description == form.description
            && i.position_description == form.position
            && i.rotation_description == form.rotation
            && i.scale_description == form.scale
            && i.opacity_description == form.opacity));
        assert_eq!(form.delay, "2 seconds");
        assert_eq!(form.duration, "");
        match &first {
            None => first = Some(form.description.clone()),
            Some(f) => if *f != form.description { seen_different = true; },
        }
    }
    assert!(seen_different);
}
