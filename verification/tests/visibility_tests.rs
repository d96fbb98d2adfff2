use stunts_native::visibility::hidden_after_opening;

fn ids(v: &[&str]) -> Vec<String> {
    v.iter().map(|s| s.to_string()).collect()
}

#[test]
fn only_listed_objects_are_shown() {
    let hidden = hidden_after_opening(&ids(&["a", "b", "c", "b"]), &ids(&["b", "c"]));
    assert_eq!(hidden, vec![true, false, false, true]);
}

#[test]
fn nothing_listed() {
    assert_eq!(hidden_after_opening(&ids(&["a", "b"]), &Vec::new()), vec![true, true]);
    assert!(hidden_after_opening(&Vec::new(), &Vec::new()).is_empty());
}
