//! Applying a theme to the current sequence: text colour for its text
//! items and polygons, background colour for the sequence.

use vstd::prelude::*;
use crate::color::{ascii_bytes, hex_rgb, palette_hex, theme_rgb};

verus! {

/// Where a theme's two colours sit in the palette: hue row and shade column
/// of the background and of the text.
#[derive(Clone, Copy, Debug, PartialEq, Eq, Structural)]
pub struct ThemeSlots {
    pub background_row: usize,
    pub background_column: usize,
    pub text_row: usize,
    pub text_column: usize,
}

/// Whether both colours of the theme lie inside the palette.
pub open spec fn slots_in_palette(t: ThemeSlots) -> bool {
    t.background_row < 10 && t.background_column < 5 && t.text_row < 10 && t.text_column < 5
}

/// The palette colour in a slot, as `[r, g, b, a]` values.
pub open spec fn slot_rgb(row: usize, column: usize) -> (int, int, int, int) {
    hex_rgb(ascii_bytes(palette_hex(row as int, column as int)), true)
}

/// Whether `c` holds the channels `v`.
pub open spec fn holds_rgb(c: [i32; 4], v: (int, int, int, int)) -> bool {
    c[0] as int == v.0 && c[1] as int == v.1 && c[2] as int == v.2 && c[3] as int == v.3
}

/// The background colour and the text colour of a theme.
pub fn theme_colors(theme: ThemeSlots) -> (colors: ([i32; 4], [i32; 4]))
    requires
        slots_in_palette(theme),
    ensures
        holds_rgb(colors.0, slot_rgb(theme.background_row, theme.background_column)),
        holds_rgb(colors.1, slot_rgb(theme.text_row, theme.text_column)),
{
    let background = theme_rgb(theme.background_row, theme.background_column);
    let text = theme_rgb(theme.text_row, theme.text_column);
    (background, text)
}

/// How a sequence's background is filled.
#[derive(Clone, Copy, Debug)]
pub enum BackgroundFill {
    /// A solid colour, `[r, g, b, a]`.
    Color([i32; 4]),
    /// Any other fill.
    Other,
}

/// The background a sequence is shown with: its own fill, or `default`
/// when it has none.
pub fn effective_background(fill: Option<BackgroundFill>, default: BackgroundFill) -> (b: BackgroundFill)
    ensures
        fill is Some ==> b == fill->0,
        fill is None ==> b == default,
{
    match fill {
        Some(f) => f,
        None => default,
    }
}

/// The colours of a text item of a sequence.
pub struct TextItemStyle {
    pub id: String,
    pub color: [i32; 4],
    pub background_fill: Option<[i32; 4]>,
}

/// What a theme changes in a saved sequence.
pub struct SequenceStyle {
    pub id: String,
    pub background_fill: Option<BackgroundFill>,
    pub active_text_items: Vec<TextItemStyle>,
}

/// Whether `after` is `before` recoloured with `color`: text colour set,
/// and a background fill, where there is one, set to the same colour.
pub open spec fn recolored(before: TextItemStyle, after: TextItemStyle, color: [i32; 4]) -> bool {
    &&& after.id == before.id
    &&& after.color == color
    &&& after.background_fill == match before.background_fill {
        Some(_) => Some(color),
        None => None,
    }
}

/// Whether `after` is sequence `before` with the theme applied.
pub open spec fn themed(before: SequenceStyle, after: SequenceStyle, text: [i32; 4], background: [i32; 4]) -> bool {
    &&& after.id == before.id
    &&& after.background_fill == Some(BackgroundFill::Color(background))
    &&& after.active_text_items@.len() == before.active_text_items@.len()
    &&& forall|j: int|
        0 <= j < before.active_text_items@.len() ==> recolored(
            #[trigger] before.active_text_items@[j],
            after.active_text_items@[j],
            text,
        )
}

fn recolor_items(items: Vec<TextItemStyle>, color: [i32; 4]) -> (out: Vec<TextItemStyle>)
    ensures
        out@.len() == items@.len(),
        forall|j: int| 0 <= j < items@.len() ==> recolored(#[trigger] items@[j], out@[j], color),
{
    let mut rest = items;
    let ghost orig = rest@;
    let n = rest.len();
    let mut out: Vec<TextItemStyle> = Vec::new();
    let mut i: usize = 0;
    while rest.len() > 0
        invariant
            n == orig.len(),
            i + rest@.len() == n,
            rest@ == orig.skip(i as int),
            out@.len() == i,
            forall|j: int| 0 <= j < i ==> recolored(#[trigger] orig[j], out@[j], color),
        decreases rest@.len(),
    {
        let item = rest.remove(0);
        assert(item == orig[i as int]);
        assert(rest@ =~= orig.skip(i as int + 1));
        let background_fill = match item.background_fill {
            Some(_) => Some(color),
            None => None,
        };
        out.push(TextItemStyle { id: item.id, color, background_fill });
        i = i + 1;
    }
    out
}

/// Applies a theme to the sequence `current_sequence_id`: each of its text
/// items takes the text colour (and so does its background fill, where it
/// has one), and its background becomes a solid fill of the background
/// colour. Other sequences are left as they were.
pub fn apply_theme_to_sequences(
    sequences: &mut Vec<SequenceStyle>,
    current_sequence_id: &String,
    text_color: [i32; 4],
    background_color: [i32; 4],
)
    ensures
        final(sequences)@.len() == old(sequences)@.len(),
        forall|i: int|
            0 <= i < old(sequences)@.len() ==> if (#[trigger] old(sequences)@[i]).id@
                == current_sequence_id@ {
                themed(old(sequences)@[i], final(sequences)@[i], text_color, background_color)
            } else {
                final(sequences)@[i] == old(sequences)@[i]
            },
{
    let mut rest: Vec<SequenceStyle> = Vec::new();
    std::mem::swap(&mut rest, sequences);
    let ghost orig = rest@;
    let n = rest.len();
    let mut i: usize = 0;
    while rest.len() > 0
        invariant
            n == orig.len(),
            i + rest@.len() == n,
            rest@ == orig.skip(i as int),
            sequences@.len() == i,
            forall|j: int|
                0 <= j < i ==> if (#[trigger] orig[j]).id@ == current_sequence_id@ {
                    themed(orig[j], sequences@[j], text_color, background_color)
                } else {
                    sequences@[j] == orig[j]
                },
        decreases rest@.len(),
    {
        let s = rest.remove(0);
        assert(s == orig[i as int]);
        assert(rest@ =~= orig.skip(i as int + 1));
        if s.id == *current_sequence_id {
            let items = recolor_items(s.active_text_items, text_color);
            sequences.push(
                SequenceStyle {
                    id: s.id,
                    background_fill: Some(BackgroundFill::Color(background_color)),
                    active_text_items: items,
                },
            );
        } else {
            sequences.push(s);
        }
        i = i + 1;
    }
}

/// Applying the same theme again changes nothing further.
pub proof fn lemma_theme_reapplied_changes_nothing(
    a: SequenceStyle,
    b: SequenceStyle,
    c: SequenceStyle,
    text: [i32; 4],
    background: [i32; 4],
)
    requires
        themed(a, b, text, background),
        themed(b, c, text, background),
    ensures
        c.id == b.id,
        c.background_fill == b.background_fill,
        c.active_text_items@.len() == b.active_text_items@.len(),
        forall|j: int|
            0 <= j < c.active_text_items@.len() ==> {
                &&& (#[trigger] c.active_text_items@[j]).id == b.active_text_items@[j].id
                &&& c.active_text_items@[j].color == b.active_text_items@[j].color
                &&& c.active_text_items@[j].background_fill == b.active_text_items@[j].background_fill
            },
{
    assert forall|j: int| 0 <= j < c.active_text_items@.len() implies {
        &&& (#[trigger] c.active_text_items@[j]).id == b.active_text_items@[j].id
        &&& c.active_text_items@[j].color == b.active_text_items@[j].color
        &&& c.active_text_items@[j].background_fill == b.active_text_items@[j].background_fill
    } by {
        assert(recolored(a.active_text_items@[j], b.active_text_items@[j], text));
        assert(recolored(b.active_text_items@[j], c.active_text_items@[j], text));
    }
}

/// An object of the editor and the sequence it belongs to.
pub struct SequenceMember {
    pub id: String,
    pub sequence_id: String,
}

/// The ids of the objects that belong to sequence `current`, in order.
pub fn members_of_sequence(objects: &Vec<SequenceMember>, current: &String) -> (ids: Vec<String>)
    ensures
        ids@.map_values(|s: String| s@) == objects@.filter(|o: SequenceMember| o.sequence_id@ == current@).map_values(
            |o: SequenceMember| o.id@,
        ),
{
    let ghost pred = |o: SequenceMember| o.sequence_id@ == current@;
    let mut ids: Vec<String> = Vec::new();
    let mut i: usize = 0;
    assert(objects@.take(0).filter(pred) =~= Seq::<SequenceMember>::empty()) by {
        reveal(Seq::filter);
    }
    while i < objects.len()
        invariant
            i <= objects@.len(),
            pred == (|o: SequenceMember| o.sequence_id@ == current@),
            ids@.map_values(|s: String| s@) == objects@.take(i as int).filter(pred).map_values(
                |o: SequenceMember| o.id@,
            ),
        decreases objects@.len() - i,
    {
        let o = &objects[i];
        proof {
            assert(objects@.take(i as int + 1) =~= objects@.take(i as int).push(objects@[i as int]));
            objects@.take(i as int).lemma_filter_push(objects@[i as int], pred);
        }
        let ghost before = ids@;
        if o.sequence_id == *current {
            ids.push(o.id.clone());
            assert(ids@.map_values(|s: String| s@) =~= before.map_values(|s: String| s@).push(o.id@));
            assert(objects@.take(i as int + 1).filter(pred).map_values(|o: SequenceMember| o.id@)
                =~= objects@.take(i as int).filter(pred).map_values(|o: SequenceMember| o.id@).push(
                o.id@,
            ));
        }
        i = i + 1;
    }
    assert(objects@.take(i as int) =~= objects@);
    ids
}

} // verus!
