use stunts_native::text_properties::{default_font_family, font_family_options, text_property_fields, text_property_update, TextPropertyUpdate};

#[test]
fn panel_fields() {
    let fields = text_property_fields();
    let got: Vec<(&str, &str, &str)> =
        fields.iter().map(|f| (f.label.as_str(), f.key.as_str(), f.initial.as_str())).collect();
    assert_eq!(
        got,
        vec![
            ("Text:", "text_content", "Sample Text"),
            ("Size:", "font_size", "24"),
            ("X:", "position_x", "0"),
            ("Y:", "position_y", "0"),
            ("Width:", "width", "200"),
            ("Height:", "height", "50"),
        ]
    );
}

#[test]
fn fonts() {
    let fonts = font_family_options();
    assert_eq!(fonts.len(), 10);
    assert_eq!(fonts[0], "Actor");
    assert_eq!(fonts[9], "Coda");
    assert!(fonts.contains(&default_font_family()));
    assert_eq!(default_font_family(), "Aleo");
}

#[test]
fn updates() {
    assert!(matches!(text_property_update(&"font_family".to_string(), "Coda".to_string()), TextPropertyUpdate::FontFamily(v) if v == "Coda"));
    assert!(matches!(text_property_update(&"font_size".to_string(), "32".to_string()), TextPropertyUpdate::FontSize(v) if v == "32"));
    assert!(matches!(text_property_update(&"text_content".to_string(), "Hi".to_string()), TextPropertyUpdate::Text(v) if v == "Hi"));
    assert!(matches!(text_property_update(&"position_x".to_string(), "3".to_string()), TextPropertyUpdate::Unsupported));
    assert!(matches!(text_property_update(&"width".to_string(), "3".to_string()), TextPropertyUpdate::Unsupported));
}
