use stunts_native::timeline::{arrange_sequences_in_series, first_sequence, plan_export, total_duration, ExportPlan, SequenceTiming, TrackType};

fn seq(id: &str, ms: i32) -> SequenceTiming {
    SequenceTiming { id: id.to_string(), name: format!("name {}", id), duration_ms: ms }
}

#[test]
fn sequences_in_series() {
    let mut sequences = vec![seq("s1", 1000), seq("s2", 2000), seq("s3", 500)];
    let config = arrange_sequences_in_series(&mut sequences);
    let t = &config.timeline_sequences;
    assert_eq!(t.len(), 3);
    assert_eq!(t[0].start_time_ms, 0);
    assert_eq!(t[1].start_time_ms, 1000);
    assert_eq!(t[2].start_time_ms, 3000);
    assert_eq!(t[2].sequence_id, "s3");
    assert!(t.iter().all(|e| e.track_type == TrackType::Video));
    assert_eq!(t[0].id.len(), 36);
    assert_ne!(t[0].id, t[1].id);
    assert_eq!(sequences.len(), 3);
    assert_eq!(sequences[1].id, "s2");
}

#[test]
fn empty_series() {
    let mut sequences: Vec<SequenceTiming> = Vec::new();
    assert!(arrange_sequences_in_series(&mut sequences).timeline_sequences.is_empty());
}

#[test]
fn export_refusals() {
    assert!(matches!(plan_export(true, None), ExportPlan::AlreadyExporting));
    assert!(matches!(plan_export(false, None), ExportPlan::NoSequences));
    assert!(matches!(plan_export(false, Some(&Vec::new())), ExportPlan::NoSequences));
    let zero = vec![seq("z", 0)];
    assert!(matches!(plan_export(false, Some(&zero)), ExportPlan::InvalidDuration));
    let negative = vec![seq("a", 1000), seq("b", -2000)];
    assert!(matches!(plan_export(false, Some(&negative)), ExportPlan::InvalidDuration));
}

#[test]
fn export_ready() {
    let sequences = vec![seq("a", 20000), seq("b", 5000)];
    match plan_export(false, Some(&sequences)) {
        ExportPlan::Ready { timeline, total_duration_ms } => {
            assert_eq!(total_duration_ms, 25000);
            assert_eq!(timeline.timeline_sequences[1].start_time_ms, 20000);
            assert_eq!(timeline.timeline_sequences[1].sequence_id, "b");
        }
        _ => panic!("export should be ready"),
    }
    assert_eq!(total_duration(&sequences), 25000);
}

#[test]
fn new_project_sequence() {
    let s = first_sequence("id-1".to_string());
    assert_eq!(s.id, "id-1");
    assert_eq!(s.name, "Sequence 1");
    assert_eq!(s.duration_ms, 20000);
}
