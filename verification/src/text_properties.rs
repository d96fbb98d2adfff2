//! The text-properties panel: its editable fields, the font choices, and
//! how an edit becomes an update of the selected text object.

use vstd::prelude::*;

verus! {

broadcast use vstd::string::to_string_from_display_ensures_for_str;

/// An editable field of the panel: its label, the property key it sends,
/// and the text it starts with.
pub struct PropertyField {
    pub label: String,
    pub key: String,
    pub initial: String,
}

/// The text fields of the panel in display order, as (label, key, initial text).
pub open spec fn property_field_table() -> Seq<(Seq<char>, Seq<char>, Seq<char>)> {
    seq![
        ("Text:"@, "text_content"@, "Sample Text"@),
        ("Size:"@, "font_size"@, "24"@),
        ("X:"@, "position_x"@, "0"@),
        ("Y:"@, "position_y"@, "0"@),
        ("Width:"@, "width"@, "200"@),
        ("Height:"@, "height"@, "50"@),
    ]
}

fn field(label: &str, key: &str, initial: &str) -> (f: PropertyField)
    ensures
        f.label@ == label@,
        f.key@ == key@,
        f.initial@ == initial@,
{
    PropertyField { label: label.to_string(), key: key.to_string(), initial: initial.to_string() }
}

/// The text fields of the panel, in display order: the text itself, the font
/// size, then position and size of the object.
pub fn text_property_fields() -> (fields: Vec<PropertyField>)
    ensures
        fields@.map_values(|f: PropertyField| (f.label@, f.key@, f.initial@)) == property_field_table(),
{
    let mut fields: Vec<PropertyField> = Vec::new();
    fields.push(field("Text:", "text_content", "Sample Text"));
    fields.push(field("Size:", "font_size", "24"));
    fields.push(field("X:", "position_x", "0"));
    fields.push(field("Y:", "position_y", "0"));
    fields.push(field("Width:", "width", "200"));
    fields.push(field("Height:", "height", "50"));
    assert(fields@.map_values(|f: PropertyField| (f.label@, f.key@, f.initial@)) =~= property_field_table());
    fields
}

/// The font families offered, in dropdown order.
pub open spec fn font_family_table() -> Seq<Seq<char>> {
    seq![
        "Actor"@,
        "Aladin"@,
        "Aleo"@,
        "Amiko"@,
        "Ballet"@,
        "Basic"@,
        "Bungee"@,
        "Caramel"@,
        "Cherish"@,
        "Coda"@,
    ]
}

/// The font families offered, in dropdown order; each is both the label and
/// the value of its entry.
pub fn font_family_options() -> (fonts: Vec<String>)
    ensures
        fonts@.map_values(|f: String| f@) == font_family_table(),
{
    let mut fonts: Vec<String> = Vec::new();
    fonts.push("Actor".to_string());
    fonts.push("Aladin".to_string());
    fonts.push("Aleo".to_string());
    fonts.push("Amiko".to_string());
    fonts.push("Ballet".to_string());
    fonts.push("Basic".to_string());
    fonts.push("Bungee".to_string());
    fonts.push("Caramel".to_string());
    fonts.push("Cherish".to_string());
    fonts.push("Coda".to_string());
    assert(fonts@.map_values(|f: String| f@) =~= font_family_table());
    fonts
}

/// The font family selected when the panel opens.
pub fn default_font_family() -> (font: String)
    ensures
        font@ == "Aleo"@,
{
    "Aleo".to_string()
}

/// The update an edit of the panel asks for.
pub enum TextPropertyUpdate {
    /// Set the font family.
    FontFamily(String),
    /// Set the font size; the text is read as a decimal number by the caller,
    /// and an edit that does not read as one is dropped.
    FontSize(String),
    /// Set the text.
    Text(String),
    /// The key names no property that text objects take; the edit is dropped.
    Unsupported,
}

/// The update for an edit of property `key` to `value`: `font_family`,
/// `font_size` and `text_content` are understood, any other key is not.
pub fn text_property_update(key: &String, value: String) -> (u: TextPropertyUpdate)
    ensures
        key@ == "font_family"@ ==> u == TextPropertyUpdate::FontFamily(value),
        key@ == "font_size"@ ==> u == TextPropertyUpdate::FontSize(value),
        key@ == "text_content"@ ==> u == TextPropertyUpdate::Text(value),
        key@ != "font_family"@ && key@ != "font_size"@ && key@ != "text_content"@ ==> u
            is Unsupported,
{
    proof {
        reveal_strlit("font_family");
        reveal_strlit("font_size");
        reveal_strlit("text_content");
        assert("font_size"@.len() != "font_family"@.len());
        assert("text_content"@.len() != "font_family"@.len());
        assert("text_content"@.len() != "font_size"@.len());
    }
    if *key == "font_family".to_string() {
        TextPropertyUpdate::FontFamily(value)
    } else if *key == "font_size".to_string() {
        TextPropertyUpdate::FontSize(value)
    } else if *key == "text_content".to_string() {
        TextPropertyUpdate::Text(value)
    } else {
        TextPropertyUpdate::Unsupported
    }
}

/// Of the panel's fields, the text and the font size reach the text object;
/// the position and size fields name no text property and their edits are
/// dropped.
pub proof fn lemma_panel_keys_reach_text()
    ensures
        property_field_table()[0].1 == "text_content"@,
        property_field_table()[1].1 == "font_size"@,
        forall|i: int|
            2 <= i < 6 ==> {
                let k = #[trigger] property_field_table()[i].1;
                k != "font_family"@ && k != "font_size"@ && k != "text_content"@
            },
{
    reveal_strlit("text_content");
    reveal_strlit("font_size");
    reveal_strlit("font_family");
    reveal_strlit("position_x");
    reveal_strlit("position_y");
    reveal_strlit("width");
    reveal_strlit("height");
    assert forall|i: int| 2 <= i < 6 implies {
        let k = #[trigger] property_field_table()[i].1;
        k != "font_family"@ && k != "font_size"@ && k != "text_content"@
    } by {
        let k = property_field_table()[i].1;
        assert(k.len() != "font_family"@.len() || k[0] != 'f');
        assert(k.len() != "text_content"@.len() || k[0] != 't');
        assert(k.len() != "font_size"@.len() || k[0] != 'f');
    }
}

} // verus!
