use stunts_native::projects::{collect_projects, find_project, sort_newest_first, DirEntryInfo, ProjectData, ProjectInfo};

fn data(id: &str, name: &str) -> ProjectData {
    ProjectData { project_id: id.to_string(), project_name: name.to_string() }
}

fn entry(name: &str, is_dir: bool, modified: i128) -> DirEntryInfo {
    DirEntryInfo { dir_name: name.to_string(), is_dir, created: 1, modified }
}

fn info(id: &str, modified: i128) -> ProjectInfo {
    ProjectInfo { dir_name: id.to_string(), project_id: id.to_string(), project_name: id.to_string(), created: 0, modified }
}

#[test]
fn only_directories_named_after_a_project() {
    let datafile = vec![data("a", "Alpha"), data("b", "Beta"), data("a", "Shadowed")];
    let entries = vec![entry("a", true, 10), entry("b", false, 20), entry("zz", true, 30), entry("b", true, 5)];
    let projects = collect_projects(&entries, &datafile);
    assert_eq!(projects.len(), 2);
    assert_eq!(projects[0].project_id, "a");
    assert_eq!(projects[0].project_name, "Alpha");
    assert_eq!(projects[0].modified, 10);
    assert_eq!(projects[0].created, 1);
    assert_eq!(projects[1].dir_name, "b");
    assert_eq!(projects[1].project_name, "Beta");
}

#[test]
fn newest_first_and_stable() {
    let mut v = vec![info("old", 1), info("new", 9), info("tie1", 5), info("mid", 7), info("tie2", 5)];
    sort_newest_first(&mut v);
    let order: Vec<&str> = v.iter().map(|p| p.project_id.as_str()).collect();
    assert_eq!(order, vec!["new", "mid", "tie1", "tie2", "old"]);
}

#[test]
fn empty_listing() {
    assert!(collect_projects(&Vec::new(), &vec![data("a", "A")]).is_empty());
    let mut v: Vec<ProjectInfo> = Vec::new();
    sort_newest_first(&mut v);
    assert!(v.is_empty());
}

#[test]
fn find_project_takes_first_match() {
    let datafile = vec![data("x", "1"), data("y", "2"), data("y", "3")];
    assert_eq!(find_project(&datafile, &"y".to_string()), Some(1));
    assert_eq!(find_project(&datafile, &"q".to_string()), None);
}
