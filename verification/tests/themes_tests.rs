use stunts_native::themes::{apply_theme_to_sequences, effective_background, members_of_sequence, theme_colors, BackgroundFill, SequenceMember, SequenceStyle, TextItemStyle, ThemeSlots};

fn item(id: &str, bg: Option<[i32; 4]>) -> TextItemStyle {
    TextItemStyle { id: id.to_string(), color: [1, 2, 3, 4], background_fill: bg }
}

#[test]
fn colours_of_a_theme() {
    let (background, text) = theme_colors(ThemeSlots { background_row: 1, background_column: 2, text_row: 0, text_column: 4 });
    assert_eq!(background, [0xFF, 0x8C, 0x00, 255]);
    assert_eq!(text, [0x8B, 0x00, 0x00, 255]);
}

#[test]
fn theme_applies_to_current_sequence_only() {
    let mut sequences = vec![
        SequenceStyle { id: "s1".to_string(), background_fill: None, active_text_items: vec![item("t1", Some([9, 9, 9, 9])), item("t2", None)] },
        SequenceStyle { id: "s2".to_string(), background_fill: Some(BackgroundFill::Other), active_text_items: vec![item("t3", None)] },
    ];
    apply_theme_to_sequences(&mut sequences, &"s1".to_string(), [10, 20, 30, 255], [200, 100, 50, 255]);
    assert!(matches!(sequences[0].background_fill, Some(BackgroundFill::Color([200, 100, 50, 255]))));
    assert_eq!(sequences[0].active_text_items[0].color, [10, 20, 30, 255]);
    assert_eq!(sequences[0].active_text_items[0].background_fill, Some([10, 20, 30, 255]));
    assert_eq!(sequences[0].active_text_items[1].background_fill, None);
    assert_eq!(sequences[0].active_text_items[1].id, "t2");
    assert!(matches!(sequences[1].background_fill, Some(BackgroundFill::Other)));
    assert_eq!(sequences[1].active_text_items[0].color, [1, 2, 3, 4]);
    apply_theme_to_sequences(&mut sequences, &"s1".to_string(), [10, 20, 30, 255], [200, 100, 50, 255]);
    assert_eq!(sequences[0].active_text_items[0].background_fill, Some([10, 20, 30, 255]));
    assert_eq!(sequences[0].active_text_items[1].background_fill, None);
}

#[test]
fn members() {
    let objects = vec![
        SequenceMember { id: "p1".to_string(), sequence_id: "s1".to_string() },
        SequenceMember { id: "p2".to_string(), sequence_id: "s2".to_string() },
        SequenceMember { id: "p3".to_string(), sequence_id: "s1".to_string() },
    ];
    assert_eq!(members_of_sequence(&objects, &"s1".to_string()), vec!["p1", "p3"]);
    assert!(members_of_sequence(&objects, &"s9".to_string()).is_empty());
}

#[test]
fn background_default() {
    assert!(matches!(effective_background(None, BackgroundFill::Color([204, 204, 204, 255])), BackgroundFill::Color([204, 204, 204, 255])));
    assert!(matches!(effective_background(Some(BackgroundFill::Other), BackgroundFill::Color([0, 0, 0, 0])), BackgroundFill::Other));
}
