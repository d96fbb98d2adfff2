//! Hex colour parsing and the theme palette.

use vstd::prelude::*;
use vstd::string::StringSliceAdditionalSpecFns;

verus! {

/// The byte `#`.
pub open spec fn is_hash_byte(b: u8) -> bool {
    b == 0x23u8
}

/// `bytes` with every leading `#` removed (what `trim_start_matches('#')` leaves).
pub open spec fn strip_hashes(bytes: Seq<u8>) -> Seq<u8>
    decreases bytes.len(),
{
    if bytes.len() > 0 && is_hash_byte(bytes[0]) {
        strip_hashes(bytes.drop_first())
    } else {
        bytes
    }
}

/// Value of one ASCII hexadecimal digit, either case.
pub open spec fn hex_digit_value(b: u8) -> Option<int> {
    if 0x30u8 <= b <= 0x39u8 {
        Some(b - 0x30)
    } else if 0x61u8 <= b <= 0x66u8 {
        Some(b - 0x61 + 10)
    } else if 0x41u8 <= b <= 0x46u8 {
        Some(b - 0x41 + 10)
    } else {
        None
    }
}

/// What base-16 integer parsing yields for the two-byte text `a b`: two digits,
/// or a `+` sign (or a `-` sign, for a signed target) followed by one digit.
pub open spec fn radix16_pair(a: u8, b: u8, signed: bool) -> Option<int> {
    match (hex_digit_value(a), hex_digit_value(b)) {
        (Some(x), Some(y)) => Some(16 * x + y),
        (None, Some(y)) => if a == 0x2bu8 {
            Some(y)
        } else if a == 0x2du8 && signed {
            Some(-y)
        } else {
            None
        },
        _ => None,
    }
}

/// A channel value: the parsed pair, or 0 where parsing fails.
pub open spec fn channel_or_zero(a: u8, b: u8, signed: bool) -> int {
    match radix16_pair(a, b, signed) {
        Some(v) => v,
        None => 0,
    }
}

/// Whether the three two-byte pieces of a six-byte text fall on character
/// boundaries: bytes 2 and 4 are not UTF-8 continuation bytes.
pub open spec fn pieces_on_char_boundaries(t: Seq<u8>) -> bool {
    t.len() == 6 ==> !vstd::utf8::is_continuation_byte(t[2]) && !vstd::utf8::is_continuation_byte(
        t[4],
    )
}

/// Red, green, blue, alpha read from a `#RRGGBB` text given as UTF-8 bytes;
/// signed parsing, grey `(128, 128, 128, 255)` unless six bytes remain after the `#`s.
pub open spec fn hex_rgb(bytes: Seq<u8>, signed: bool) -> (int, int, int, int) {
    let t = strip_hashes(bytes);
    if t.len() == 6 {
        (
            channel_or_zero(t[0], t[1], signed),
            channel_or_zero(t[2], t[3], signed),
            channel_or_zero(t[4], t[5], signed),
            255,
        )
    } else {
        (128, 128, 128, 255)
    }
}

proof fn lemma_strip_step(bytes: Seq<u8>, i: int)
    requires
        0 <= i < bytes.len(),
        is_hash_byte(bytes[i]),
    ensures
        strip_hashes(bytes.skip(i)) == strip_hashes(bytes.skip(i + 1)),
{
    assert(bytes.skip(i).drop_first() =~= bytes.skip(i + 1));
}

/// Index of the first byte that is not `#`.
fn first_non_hash(bytes: &[u8]) -> (n: usize)
    ensures
        n <= bytes@.len(),
        strip_hashes(bytes@) == bytes@.skip(n as int),
{
    let mut i: usize = 0;
    assert(bytes@.skip(0) =~= bytes@);
    while i < bytes.len() && bytes[i] == 0x23u8
        invariant
            i <= bytes@.len(),
            strip_hashes(bytes@) == strip_hashes(bytes@.skip(i as int)),
        decreases bytes@.len() - i,
    {
        proof {
            lemma_strip_step(bytes@, i as int);
        }
        i = i + 1;
    }
    i
}

fn digit_value(b: u8) -> (r: Option<u8>)
    ensures
        match r {
            Some(v) => hex_digit_value(b) == Some(v as int) && v < 16,
            None => hex_digit_value(b) is None,
        },
{
    if 0x30u8 <= b && b <= 0x39u8 {
        Some(b - 0x30u8)
    } else if 0x61u8 <= b && b <= 0x66u8 {
        Some(b - 0x61u8 + 10)
    } else if 0x41u8 <= b && b <= 0x46u8 {
        Some(b - 0x41u8 + 10)
    } else {
        None
    }
}

/// Base-16 value of the two-byte text `a b`, as `from_str_radix` reads it.
fn parse_pair(a: u8, b: u8, signed: bool) -> (r: Option<i32>)
    ensures
        match r {
            Some(v) => radix16_pair(a, b, signed) == Some(v as int),
            None => radix16_pair(a, b, signed) is None,
        },
{
    match (digit_value(a), digit_value(b)) {
        (Some(x), Some(y)) => Some(16 * (x as i32) + (y as i32)),
        (None, Some(y)) => {
            if a == 0x2bu8 {
                Some(y as i32)
            } else if a == 0x2du8 && signed {
                Some(-(y as i32))
            } else {
                None
            }
        },
        _ => None,
    }
}

/// Reads `#RRGGBB` into `[r, g, b, 255]`; any number of leading `#` is
/// skipped; a text whose remainder is not six bytes long gives grey
/// `[128, 128, 128, 255]`; a pair that does not parse gives 0.
pub fn hex_to_rgb(hex: &str) -> (rgb: [i32; 4])
    requires
        pieces_on_char_boundaries(strip_hashes(hex.spec_bytes())),
    ensures
        (rgb[0] as int, rgb[1] as int, rgb[2] as int, rgb[3] as int) == hex_rgb(
            hex.spec_bytes(),
            true,
        ),
{
    let bytes = hex.as_bytes();
    let start = first_non_hash(bytes);
    if bytes.len() - start == 6 {
        let r = match parse_pair(bytes[start], bytes[start + 1], true) {
            Some(v) => v,
            None => 0,
        };
        let g = match parse_pair(bytes[start + 2], bytes[start + 3], true) {
            Some(v) => v,
            None => 0,
        };
        let b = match parse_pair(bytes[start + 4], bytes[start + 5], true) {
            Some(v) => v,
            None => 0,
        };
        [r, g, b, 255]
    } else {
        [128, 128, 128, 255]
    }
}


/// The palette: ten hues (red, orange, yellow, green, blue, purple, pink,
/// teal, brown, grey), each in five shades from light to dark.
pub open spec fn palette_hex(row: int, column: int) -> Seq<char> {
    if row == 0 {
        if column == 0 { "#FFE4E1"@ } else if column == 1 { "#FF6B6B"@ } else if column == 2 { "#FF0000"@ } else if column == 3 { "#B22222"@ } else { "#8B0000"@ }
    } else if row == 1 {
        if column == 0 { "#FFECD9"@ } else if column == 1 { "#FFB347"@ } else if column == 2 { "#FF8C00"@ } else if column == 3 { "#D95E00"@ } else { "#993D00"@ }
    } else if row == 2 {
        if column == 0 { "#FFFACD"@ } else if column == 1 { "#FFE66D"@ } else if column == 2 { "#FFD700"@ } else if column == 3 { "#DAA520"@ } else { "#B8860B"@ }
    } else if row == 3 {
        if column == 0 { "#E8F5E9"@ } else if column == 1 { "#7CB342"@ } else if column == 2 { "#2E7D32"@ } else if column == 3 { "#1B5E20"@ } else { "#0A3D0A"@ }
    } else if row == 4 {
        if column == 0 { "#E3F2FD"@ } else if column == 1 { "#64B5F6"@ } else if column == 2 { "#1E88E5"@ } else if column == 3 { "#1565C0"@ } else { "#0D47A1"@ }
    } else if row == 5 {
        if column == 0 { "#F3E5F5"@ } else if column == 1 { "#AB47BC"@ } else if column == 2 { "#8E24AA"@ } else if column == 3 { "#6A1B9A"@ } else { "#4A148C"@ }
    } else if row == 6 {
        if column == 0 { "#FCE4EC"@ } else if column == 1 { "#F06292"@ } else if column == 2 { "#E91E63"@ } else if column == 3 { "#C2185B"@ } else { "#880E4F"@ }
    } else if row == 7 {
        if column == 0 { "#E0F2F1"@ } else if column == 1 { "#4DB6AC"@ } else if column == 2 { "#00897B"@ } else if column == 3 { "#00695C"@ } else { "#004D40"@ }
    } else if row == 8 {
        if column == 0 { "#EFEBE9"@ } else if column == 1 { "#A1887F"@ } else if column == 2 { "#795548"@ } else if column == 3 { "#5D4037"@ } else { "#3E2723"@ }
    } else {
        if column == 0 { "#F5F5F5"@ } else if column == 1 { "#BDBDBD"@ } else if column == 2 { "#757575"@ } else if column == 3 { "#424242"@ } else { "#212121"@ }
    }
}

/// A character of a `#RRGGBB` palette entry: `#` first, then six
/// upper-case hexadecimal digits.
pub open spec fn is_upper_hex_char(c: char) -> bool {
    ('0' <= c <= '9') || ('A' <= c <= 'F')
}

pub open spec fn is_palette_text(s: Seq<char>) -> bool {
    &&& s.len() == 7
    &&& s[0] == '#'
    &&& forall|i: int| 1 <= i < 7 ==> is_upper_hex_char(#[trigger] s[i])
}

/// The palette entry in `row` (hue) and `column` (shade).
pub fn theme_color(row: usize, column: usize) -> (hex: &'static str)
    requires
        row < 10,
        column < 5,
    ensures
        hex@ == palette_hex(row as int, column as int),
        vstd::string::is_ascii(hex),
        is_palette_text(hex@),
{
    match row {
        0 => match column {
            0 => {
                proof { reveal_strlit("#FFE4E1"); }
                "#FFE4E1"
            },
            1 => {
                proof { reveal_strlit("#FF6B6B"); }
                "#FF6B6B"
            },
            2 => {
                proof { reveal_strlit("#FF0000"); }
                "#FF0000"
            },
            3 => {
                proof { reveal_strlit("#B22222"); }
                "#B22222"
            },
            _ => {
                proof { reveal_strlit("#8B0000"); }
                "#8B0000"
            },
        },
        1 => match column {
            0 => {
                proof { reveal_strlit("#FFECD9"); }
                "#FFECD9"
            },
            1 => {
                proof { reveal_strlit("#FFB347"); }
                "#FFB347"
            },
            2 => {
                proof { reveal_strlit("#FF8C00"); }
                "#FF8C00"
            },
            3 => {
                proof { reveal_strlit("#D95E00"); }
                "#D95E00"
            },
            _ => {
                proof { reveal_strlit("#993D00"); }
                "#993D00"
            },
        },
        2 => match column {
            0 => {
                proof { reveal_strlit("#FFFACD"); }
                "#FFFACD"
            },
            1 => {
                proof { reveal_strlit("#FFE66D"); }
                "#FFE66D"
            },
            2 => {
                proof { reveal_strlit("#FFD700"); }
                "#FFD700"
            },
            3 => {
                proof { reveal_strlit("#DAA520"); }
                "#DAA520"
            },
            _ => {
                proof { reveal_strlit("#B8860B"); }
                "#B8860B"
            },
        },
        3 => match column {
            0 => {
                proof { reveal_strlit("#E8F5E9"); }
                "#E8F5E9"
            },
            1 => {
                proof { reveal_strlit("#7CB342"); }
                "#7CB342"
            },
            2 => {
                proof { reveal_strlit("#2E7D32"); }
                "#2E7D32"
            },
            3 => {
                proof { reveal_strlit("#1B5E20"); }
                "#1B5E20"
            },
            _ => {
                proof { reveal_strlit("#0A3D0A"); }
                "#0A3D0A"
            },
        },
        4 => match column {
            0 => {
                proof { reveal_strlit("#E3F2FD"); }
                "#E3F2FD"
            },
            1 => {
                proof { reveal_strlit("#64B5F6"); }
                "#64B5F6"
            },
            2 => {
                proof { reveal_strlit("#1E88E5"); }
                "#1E88E5"
            },
            3 => {
                proof { reveal_strlit("#1565C0"); }
                "#1565C0"
            },
            _ => {
                proof { reveal_strlit("#0D47A1"); }
                "#0D47A1"
            },
        },
        5 => match column {
            0 => {
                proof { reveal_strlit("#F3E5F5"); }
                "#F3E5F5"
            },
            1 => {
                proof { reveal_strlit("#AB47BC"); }
                "#AB47BC"
            },
            2 => {
                proof { reveal_strlit("#8E24AA"); }
                "#8E24AA"
            },
            3 => {
                proof { reveal_strlit("#6A1B9A"); }
                "#6A1B9A"
            },
            _ => {
                proof { reveal_strlit("#4A148C"); }
                "#4A148C"
            },
        },
        6 => match column {
            0 => {
                proof { reveal_strlit("#FCE4EC"); }
                "#FCE4EC"
            },
            1 => {
                proof { reveal_strlit("#F06292"); }
                "#F06292"
            },
            2 => {
                proof { reveal_strlit("#E91E63"); }
                "#E91E63"
            },
            3 => {
                proof { reveal_strlit("#C2185B"); }
                "#C2185B"
            },
            _ => {
                proof { reveal_strlit("#880E4F"); }
                "#880E4F"
            },
        },
        7 => match column {
            0 => {
                proof { reveal_strlit("#E0F2F1"); }
                "#E0F2F1"
            },
            1 => {
                proof { reveal_strlit("#4DB6AC"); }
                "#4DB6AC"
            },
            2 => {
                proof { reveal_strlit("#00897B"); }
                "#00897B"
            },
            3 => {
                proof { reveal_strlit("#00695C"); }
                "#00695C"
            },
            _ => {
                proof { reveal_strlit("#004D40"); }
                "#004D40"
            },
        },
        8 => match column {
            0 => {
                proof { reveal_strlit("#EFEBE9"); }
                "#EFEBE9"
            },
            1 => {
                proof { reveal_strlit("#A1887F"); }
                "#A1887F"
            },
            2 => {
                proof { reveal_strlit("#795548"); }
                "#795548"
            },
            3 => {
                proof { reveal_strlit("#5D4037"); }
                "#5D4037"
            },
            _ => {
                proof { reveal_strlit("#3E2723"); }
                "#3E2723"
            },
        },
        _ => match column {
            0 => {
                proof { reveal_strlit("#F5F5F5"); }
                "#F5F5F5"
            },
            1 => {
                proof { reveal_strlit("#BDBDBD"); }
                "#BDBDBD"
            },
            2 => {
                proof { reveal_strlit("#757575"); }
                "#757575"
            },
            3 => {
                proof { reveal_strlit("#424242"); }
                "#424242"
            },
            _ => {
                proof { reveal_strlit("#212121"); }
                "#212121"
            },
        },
    }
}

/// A colour as four 8-bit channels.
#[derive(Clone, Copy, Debug, PartialEq, Eq, Structural)]
pub struct Rgba8 {
    pub r: u8,
    pub g: u8,
    pub b: u8,
    pub a: u8,
}

/// Reads `#RRGGBB` into an opaque colour the way the sidebar does: leading
/// `#`s skipped, unsigned parsing of each pair (0 where it fails), and grey
/// `(128, 128, 128, 255)` unless six bytes remain.
pub fn parse_hex_color(hex: &str) -> (color: Rgba8)
    requires
        pieces_on_char_boundaries(strip_hashes(hex.spec_bytes())),
    ensures
        (color.r as int, color.g as int, color.b as int, color.a as int) == hex_rgb(
            hex.spec_bytes(),
            false,
        ),
{
    let bytes = hex.as_bytes();
    let start = first_non_hash(bytes);
    if bytes.len() - start == 6 {
        let r = match parse_pair(bytes[start], bytes[start + 1], false) {
            Some(v) => v as u8,
            None => 0u8,
        };
        let g = match parse_pair(bytes[start + 2], bytes[start + 3], false) {
            Some(v) => v as u8,
            None => 0u8,
        };
        let b = match parse_pair(bytes[start + 4], bytes[start + 5], false) {
            Some(v) => v as u8,
            None => 0u8,
        };
        Rgba8 { r, g, b, a: 255 }
    } else {
        Rgba8 { r: 128, g: 128, b: 128, a: 255 }
    }
}

/// The two readers agree on every text in which no channel starts with `-`:
/// only the signed reader accepts a minus sign.
pub proof fn lemma_readers_agree(bytes: Seq<u8>)
    requires
        strip_hashes(bytes).len() == 6 ==> {
            let t = strip_hashes(bytes);
            t[0] != 0x2du8 && t[2] != 0x2du8 && t[4] != 0x2du8
        },
    ensures
        hex_rgb(bytes, true) == hex_rgb(bytes, false),
{
}

/// The bytes of a text made only of ASCII characters.
pub open spec fn ascii_bytes(s: Seq<char>) -> Seq<u8> {
    Seq::new(s.len(), |i: int| s[i] as u8)
}

proof fn lemma_palette_text_bytes(s: Seq<char>)
    requires
        is_palette_text(s),
    ensures
        strip_hashes(ascii_bytes(s)) =~= ascii_bytes(s).skip(1),
        strip_hashes(ascii_bytes(s)).len() == 6,
        forall|i: int|
            0 <= i < 6 ==> #[trigger] hex_digit_value(strip_hashes(ascii_bytes(s))[i]) is Some,
        pieces_on_char_boundaries(strip_hashes(ascii_bytes(s))),
{
    let b = ascii_bytes(s);
    assert(b.drop_first() =~= b.skip(1));
    assert(strip_hashes(b) == strip_hashes(b.drop_first()));
    assert(!is_hash_byte(b.skip(1)[0]));
    assert forall|i: int| 0 <= i < 6 implies #[trigger] hex_digit_value(b.skip(1)[i]) is Some by {
        assert(is_upper_hex_char(s[i + 1]));
    }
}

/// The palette entry in `row` and `column` read as `[r, g, b, 255]`; every
/// entry is a well-formed `#RRGGBB`, so no channel falls back to 0 and the
/// grey fallback never occurs.
pub fn theme_rgb(row: usize, column: usize) -> (rgb: [i32; 4])
    requires
        row < 10,
        column < 5,
    ensures
        (rgb[0] as int, rgb[1] as int, rgb[2] as int, rgb[3] as int) == hex_rgb(
            ascii_bytes(palette_hex(row as int, column as int)),
            true,
        ),
        0 <= rgb[0] <= 255,
        0 <= rgb[1] <= 255,
        0 <= rgb[2] <= 255,
        rgb[3] == 255,
{
    let hex = theme_color(row, column);
    proof {
        broadcast use vstd::string::is_ascii_spec_bytes;
        assert(hex.spec_bytes() =~= ascii_bytes(hex@));
        lemma_palette_text_bytes(hex@);
    }
    hex_to_rgb(hex)
}

/// The palette entry in `row` and `column` as an opaque colour.
pub fn theme_rgba8(row: usize, column: usize) -> (color: Rgba8)
    requires
        row < 10,
        column < 5,
    ensures
        (color.r as int, color.g as int, color.b as int, color.a as int) == hex_rgb(
            ascii_bytes(palette_hex(row as int, column as int)),
            false,
        ),
        color.a == 255,
{
    let hex = theme_color(row, column);
    proof {
        broadcast use vstd::string::is_ascii_spec_bytes;
        assert(hex.spec_bytes() =~= ascii_bytes(hex@));
        lemma_palette_text_bytes(hex@);
    }
    parse_hex_color(hex)
}

/// Both readers give the same colour for every palette entry.
pub proof fn lemma_palette_readers_agree(row: int, column: int)
    requires
        0 <= row < 10,
        0 <= column < 5,
    ensures
        hex_rgb(ascii_bytes(palette_hex(row, column)), true) == hex_rgb(
            ascii_bytes(palette_hex(row, column)),
            false,
        ),
{
    let s = palette_hex(row, column);
    assert(is_palette_text(s)) by {
        lemma_palette_entries_well_formed(row, column);
    }
    lemma_palette_text_bytes(s);
    let t = strip_hashes(ascii_bytes(s));
    assert(hex_digit_value(t[0]) is Some);
    assert(hex_digit_value(t[2]) is Some);
    assert(hex_digit_value(t[4]) is Some);
    lemma_readers_agree(ascii_bytes(s));
}

/// Every palette entry is a `#RRGGBB` text.
pub proof fn lemma_palette_entries_well_formed(row: int, column: int)
    requires
        0 <= row < 10,
        0 <= column < 5,
    ensures
        is_palette_text(palette_hex(row, column)),
{
    if row == 0 && column == 0 {
        reveal_strlit("#FFE4E1");
    }
    if row == 0 && column == 1 {
        reveal_strlit("#FF6B6B");
    }
    if row == 0 && column == 2 {
        reveal_strlit("#FF0000");
    }
    if row == 0 && column == 3 {
        reveal_strlit("#B22222");
    }
    if row == 0 && column == 4 {
        reveal_strlit("#8B0000");
    }
    if row == 1 && column == 0 {
        reveal_strlit("#FFECD9");
    }
    if row == 1 && column == 1 {
        reveal_strlit("#FFB347");
    }
    if row == 1 && column == 2 {
        reveal_strlit("#FF8C00");
    }
    if row == 1 && column == 3 {
        reveal_strlit("#D95E00");
    }
    if row == 1 && column == 4 {
        reveal_strlit("#993D00");
    }
    if row == 2 && column == 0 {
        reveal_strlit("#FFFACD");
    }
    if row == 2 && column == 1 {
        reveal_strlit("#FFE66D");
    }
    if row == 2 && column == 2 {
        reveal_strlit("#FFD700");
    }
    if row == 2 && column == 3 {
        reveal_strlit("#DAA520");
    }
    if row == 2 && column == 4 {
        reveal_strlit("#B8860B");
    }
    if row == 3 && column == 0 {
        reveal_strlit("#E8F5E9");
    }
    if row == 3 && column == 1 {
        reveal_strlit("#7CB342");
    }
    if row == 3 && column == 2 {
        reveal_strlit("#2E7D32");
    }
    if row == 3 && column == 3 {
        reveal_strlit("#1B5E20");
    }
    if row == 3 && column == 4 {
        reveal_strlit("#0A3D0A");
    }
    if row == 4 && column == 0 {
        reveal_strlit("#E3F2FD");
    }
    if row == 4 && column == 1 {
        reveal_strlit("#64B5F6");
    }
    if row == 4 && column == 2 {
        reveal_strlit("#1E88E5");
    }
    if row == 4 && column == 3 {
        reveal_strlit("#1565C0");
    }
    if row == 4 && column == 4 {
        reveal_strlit("#0D47A1");
    }
    if row == 5 && column == 0 {
        reveal_strlit("#F3E5F5");
    }
    if row == 5 && column == 1 {
        reveal_strlit("#AB47BC");
    }
    if row == 5 && column == 2 {
        reveal_strlit("#8E24AA");
    }
    if row == 5 && column == 3 {
        reveal_strlit("#6A1B9A");
    }
    if row == 5 && column == 4 {
        reveal_strlit("#4A148C");
    }
    if row == 6 && column == 0 {
        reveal_strlit("#FCE4EC");
    }
    if row == 6 && column == 1 {
        reveal_strlit("#F06292");
    }
    if row == 6 && column == 2 {
        reveal_strlit("#E91E63");
    }
    if row == 6 && column == 3 {
        reveal_strlit("#C2185B");
    }
    if row == 6 && column == 4 {
        reveal_strlit("#880E4F");
    }
    if row == 7 && column == 0 {
        reveal_strlit("#E0F2F1");
    }
    if row == 7 && column == 1 {
        reveal_strlit("#4DB6AC");
    }
    if row == 7 && column == 2 {
        reveal_strlit("#00897B");
    }
    if row == 7 && column == 3 {
        reveal_strlit("#00695C");
    }
    if row == 7 && column == 4 {
        reveal_strlit("#004D40");
    }
    if row == 8 && column == 0 {
        reveal_strlit("#EFEBE9");
    }
    if row == 8 && column == 1 {
        reveal_strlit("#A1887F");
    }
    if row == 8 && column == 2 {
        reveal_strlit("#795548");
    }
    if row == 8 && column == 3 {
        reveal_strlit("#5D4037");
    }
    if row == 8 && column == 4 {
        reveal_strlit("#3E2723");
    }
    if row == 9 && column == 0 {
        reveal_strlit("#F5F5F5");
    }
    if row == 9 && column == 1 {
        reveal_strlit("#BDBDBD");
    }
    if row == 9 && column == 2 {
        reveal_strlit("#757575");
    }
    if row == 9 && column == 3 {
        reveal_strlit("#424242");
    }
    if row == 9 && column == 4 {
        reveal_strlit("#212121");
    }
}

/// `bytes` with every ASCII lower-case letter turned upper-case (what
/// `to_ascii_uppercase` does).
pub open spec fn ascii_uppercase(bytes: Seq<u8>) -> Seq<u8> {
    Seq::new(
        bytes.len(),
        |i: int| if 0x61u8 <= bytes[i] <= 0x7au8 { (bytes[i] - 32) as u8 } else { bytes[i] },
    )
}

proof fn lemma_strip_uppercase(bytes: Seq<u8>)
    ensures
        strip_hashes(ascii_uppercase(bytes)) == ascii_uppercase(strip_hashes(bytes)),
    decreases bytes.len(),
{
    if bytes.len() > 0 && is_hash_byte(bytes[0]) {
        assert(ascii_uppercase(bytes).drop_first() =~= ascii_uppercase(bytes.drop_first()));
        lemma_strip_uppercase(bytes.drop_first());
    }
}

/// Hexadecimal digits are read the same in either case: upper-casing the
/// letters of a colour text never changes the colour read from it.
pub proof fn lemma_colour_text_case_insensitive(bytes: Seq<u8>, signed: bool)
    ensures
        hex_rgb(ascii_uppercase(bytes), signed) == hex_rgb(bytes, signed),
{
    lemma_strip_uppercase(bytes);
}

/// A pair of hexadecimal digits, each `0`-`9`, `A`-`F` or `a`-`f`, reads as
/// sixteen times the value of the first plus the value of the second, where
/// a letter is worth 10 to 15 in either case.
pub proof fn lemma_hex_pair_value(a: u8, b: u8, signed: bool)
    requires
        0x30u8 <= a <= 0x39u8 || 0x41u8 <= a <= 0x46u8 || 0x61u8 <= a <= 0x66u8,
        0x30u8 <= b <= 0x39u8 || 0x41u8 <= b <= 0x46u8 || 0x61u8 <= b <= 0x66u8,
    ensures
        radix16_pair(a, b, signed) == Some(
            16 * (if a <= 0x39u8 {
                a - 0x30
            } else if a <= 0x46u8 {
                a - 0x41 + 10
            } else {
                a - 0x61 + 10
            }) + (if b <= 0x39u8 {
                b - 0x30
            } else if b <= 0x46u8 {
                b - 0x41 + 10
            } else {
                b - 0x61 + 10
            }),
        ),
        0 <= radix16_pair(a, b, signed)->0 <= 255,
{
}

/// Value of an upper-case hexadecimal digit character.
spec fn upper_digit_value(c: char) -> int {
    if c <= '9' { c as int - 48 } else { c as int - 55 }
}

proof fn lemma_entry_channels(s: Seq<char>)
    requires
        is_palette_text(s),
    ensures
        hex_rgb(ascii_bytes(s), true) == (
            16 * upper_digit_value(s[1]) + upper_digit_value(s[2]),
            16 * upper_digit_value(s[3]) + upper_digit_value(s[4]),
            16 * upper_digit_value(s[5]) + upper_digit_value(s[6]),
            255int,
        ),
{
    lemma_palette_text_bytes(s);
    let t = strip_hashes(ascii_bytes(s));
    assert forall|i: int| 0 <= i < 6 implies #[trigger] hex_digit_value(t[i]) == Some(upper_digit_value(s[i + 1])) by {
        assert(is_upper_hex_char(s[i + 1]));
        assert(t[i] == s[i + 1] as u8);
    }
}

/// The channels of every palette entry, hue by hue (rows) and shade by
/// shade (columns), as `(red, green, blue, alpha)`.
pub proof fn lemma_palette_channels(row: int, column: int)
    requires
        0 <= row < 10,
        0 <= column < 5,
    ensures
        row == 0 && column == 0 ==> hex_rgb(ascii_bytes(palette_hex(row, column)), true) == (255int, 228int, 225int, 255int),
        row == 0 && column == 1 ==> hex_rgb(ascii_bytes(palette_hex(row, column)), true) == (255int, 107int, 107int, 255int),
        row == 0 && column == 2 ==> hex_rgb(ascii_bytes(palette_hex(row, column)), true) == (255int, 0int, 0int, 255int),
        row == 0 && column == 3 ==> hex_rgb(ascii_bytes(palette_hex(row, column)), true) == (178int, 34int, 34int, 255int),
        row == 0 && column == 4 ==> hex_rgb(ascii_bytes(palette_hex(row, column)), true) == (139int, 0int, 0int, 255int),
        row == 1 && column == 0 ==> hex_rgb(ascii_bytes(palette_hex(row, column)), true) == (255int, 236int, 217int, 255int),
        row == 1 && column == 1 ==> hex_rgb(ascii_bytes(palette_hex(row, column)), true) == (255int, 179int, 71int, 255int),
        row == 1 && column == 2 ==> hex_rgb(ascii_bytes(palette_hex(row, column)), true) == (255int, 140int, 0int, 255int),
        row == 1 && column == 3 ==> hex_rgb(ascii_bytes(palette_hex(row, column)), true) == (217int, 94int, 0int, 255int),
        row == 1 && column == 4 ==> hex_rgb(ascii_bytes(palette_hex(row, column)), true) == (153int, 61int, 0int, 255int),
        row == 2 && column == 0 ==> hex_rgb(ascii_bytes(palette_hex(row, column)), true) == (255int, 250int, 205int, 255int),
        row == 2 && column == 1 ==> hex_rgb(ascii_bytes(palette_hex(row, column)), true) == (255int, 230int, 109int, 255int),
        row == 2 && column == 2 ==> hex_rgb(ascii_bytes(palette_hex(row, column)), true) == (255int, 215int, 0int, 255int),
        row == 2 && column == 3 ==> hex_rgb(ascii_bytes(palette_hex(row, column)), true) == (218int, 165int, 32int, 255int),
        row == 2 && column == 4 ==> hex_rgb(ascii_bytes(palette_hex(row, column)), true) == (184int, 134int, 11int, 255int),
        row == 3 && column == 0 ==> hex_rgb(ascii_bytes(palette_hex(row, column)), true) == (232int, 245int, 233int, 255int),
        row == 3 && column == 1 ==> hex_rgb(ascii_bytes(palette_hex(row, column)), true) == (124int, 179int, 66int, 255int),
        row == 3 && column == 2 ==> hex_rgb(ascii_bytes(palette_hex(row, column)), true) == (46int, 125int, 50int, 255int),
        row == 3 && column == 3 ==> hex_rgb(ascii_bytes(palette_hex(row, column)), true) == (27int, 94int, 32int, 255int),
        row == 3 && column == 4 ==> hex_rgb(ascii_bytes(palette_hex(row, column)), true) == (10int, 61int, 10int, 255int),
        row == 4 && column == 0 ==> hex_rgb(ascii_bytes(palette_hex(row, column)), true) == (227int, 242int, 253int, 255int),
        row == 4 && column == 1 ==> hex_rgb(ascii_bytes(palette_hex(row, column)), true) == (100int, 181int, 246int, 255int),
        row == 4 && column == 2 ==> hex_rgb(ascii_bytes(palette_hex(row, column)), true) == (30int, 136int, 229int, 255int),
        row == 4 && column == 3 ==> hex_rgb(ascii_bytes(palette_hex(row, column)), true) == (21int, 101int, 192int, 255int),
        row == 4 && column == 4 ==> hex_rgb(ascii_bytes(palette_hex(row, column)), true) == (13int, 71int, 161int, 255int),
        row == 5 && column == 0 ==> hex_rgb(ascii_bytes(palette_hex(row, column)), true) == (243int, 229int, 245int, 255int),
        row == 5 && column == 1 ==> hex_rgb(ascii_bytes(palette_hex(row, column)), true) == (171int, 71int, 188int, 255int),
        row == 5 && column == 2 ==> hex_rgb(ascii_bytes(palette_hex(row, column)), true) == (142int, 36int, 170int, 255int),
        row == 5 && column == 3 ==> hex_rgb(ascii_bytes(palette_hex(row, column)), true) == (106int, 27int, 154int, 255int),
        row == 5 && column == 4 ==> hex_rgb(ascii_bytes(palette_hex(row, column)), true) == (74int, 20int, 140int, 255int),
        row == 6 && column == 0 ==> hex_rgb(ascii_bytes(palette_hex(row, column)), true) == (252int, 228int, 236int, 255int),
        row == 6 && column == 1 ==> hex_rgb(ascii_bytes(palette_hex(row, column)), true) == (240int, 98int, 146int, 255int),
        row == 6 && column == 2 ==> hex_rgb(ascii_bytes(palette_hex(row, column)), true) == (233int, 30int, 99int, 255int),
        row == 6 && column == 3 ==> hex_rgb(ascii_bytes(palette_hex(row, column)), true) == (194int, 24int, 91int, 255int),
        row == 6 && column == 4 ==> hex_rgb(ascii_bytes(palette_hex(row, column)), true) == (136int, 14int, 79int, 255int),
        row == 7 && column == 0 ==> hex_rgb(ascii_bytes(palette_hex(row, column)), true) == (224int, 242int, 241int, 255int),
        row == 7 && column == 1 ==> hex_rgb(ascii_bytes(palette_hex(row, column)), true) == (77int, 182int, 172int, 255int),
        row == 7 && column == 2 ==> hex_rgb(ascii_bytes(palette_hex(row, column)), true) == (0int, 137int, 123int, 255int),
        row == 7 && column == 3 ==> hex_rgb(ascii_bytes(palette_hex(row, column)), true) == (0int, 105int, 92int, 255int),
        row == 7 && column == 4 ==> hex_rgb(ascii_bytes(palette_hex(row, column)), true) == (0int, 77int, 64int, 255int),
        row == 8 && column == 0 ==> hex_rgb(ascii_bytes(palette_hex(row, column)), true) == (239int, 235int, 233int, 255int),
        row == 8 && column == 1 ==> hex_rgb(ascii_bytes(palette_hex(row, column)), true) == (161int, 136int, 127int, 255int),
        row == 8 && column == 2 ==> hex_rgb(ascii_bytes(palette_hex(row, column)), true) == (121int, 85int, 72int, 255int),
        row == 8 && column == 3 ==> hex_rgb(ascii_bytes(palette_hex(row, column)), true) == (93int, 64int, 55int, 255int),
        row == 8 && column == 4 ==> hex_rgb(ascii_bytes(palette_hex(row, column)), true) == (62int, 39int, 35int, 255int),
        row == 9 && column == 0 ==> hex_rgb(ascii_bytes(palette_hex(row, column)), true) == (245int, 245int, 245int, 255int),
        row == 9 && column == 1 ==> hex_rgb(ascii_bytes(palette_hex(row, column)), true) == (189int, 189int, 189int, 255int),
        row == 9 && column == 2 ==> hex_rgb(ascii_bytes(palette_hex(row, column)), true) == (117int, 117int, 117int, 255int),
        row == 9 && column == 3 ==> hex_rgb(ascii_bytes(palette_hex(row, column)), true) == (66int, 66int, 66int, 255int),
        row == 9 && column == 4 ==> hex_rgb(ascii_bytes(palette_hex(row, column)), true) == (33int, 33int, 33int, 255int),
{
    if row == 0 && column == 0 {
        reveal_strlit("#FFE4E1");
    }
    if row == 0 && column == 1 {
        reveal_strlit("#FF6B6B");
    }
    if row == 0 && column == 2 {
        reveal_strlit("#FF0000");
    }
    if row == 0 && column == 3 {
        reveal_strlit("#B22222");
    }
    if row == 0 && column == 4 {
        reveal_strlit("#8B0000");
    }
    if row == 1 && column == 0 {
        reveal_strlit("#FFECD9");
    }
    if row == 1 && column == 1 {
        reveal_strlit("#FFB347");
    }
    if row == 1 && column == 2 {
        reveal_strlit("#FF8C00");
    }
    if row == 1 && column == 3 {
        reveal_strlit("#D95E00");
    }
    if row == 1 && column == 4 {
        reveal_strlit("#993D00");
    }
    if row == 2 && column == 0 {
        reveal_strlit("#FFFACD");
    }
    if row == 2 && column == 1 {
        reveal_strlit("#FFE66D");
    }
    if row == 2 && column == 2 {
        reveal_strlit("#FFD700");
    }
    if row == 2 && column == 3 {
        reveal_strlit("#DAA520");
    }
    if row == 2 && column == 4 {
        reveal_strlit("#B8860B");
    }
    if row == 3 && column == 0 {
        reveal_strlit("#E8F5E9");
    }
    if row == 3 && column == 1 {
        reveal_strlit("#7CB342");
    }
    if row == 3 && column == 2 {
        reveal_strlit("#2E7D32");
    }
    if row == 3 && column == 3 {
        reveal_strlit("#1B5E20");
    }
    if row == 3 && column == 4 {
        reveal_strlit("#0A3D0A");
    }
    if row == 4 && column == 0 {
        reveal_strlit("#E3F2FD");
    }
    if row == 4 && column == 1 {
        reveal_strlit("#64B5F6");
    }
    if row == 4 && column == 2 {
        reveal_strlit("#1E88E5");
    }
    if row == 4 && column == 3 {
        reveal_strlit("#1565C0");
    }
    if row == 4 && column == 4 {
        reveal_strlit("#0D47A1");
    }
    if row == 5 && column == 0 {
        reveal_strlit("#F3E5F5");
    }
    if row == 5 && column == 1 {
        reveal_strlit("#AB47BC");
    }
    if row == 5 && column == 2 {
        reveal_strlit("#8E24AA");
    }
    if row == 5 && column == 3 {
        reveal_strlit("#6A1B9A");
    }
    if row == 5 && column == 4 {
        reveal_strlit("#4A148C");
    }
    if row == 6 && column == 0 {
        reveal_strlit("#FCE4EC");
    }
    if row == 6 && column == 1 {
        reveal_strlit("#F06292");
    }
    if row == 6 && column == 2 {
        reveal_strlit("#E91E63");
    }
    if row == 6 && column == 3 {
        reveal_strlit("#C2185B");
    }
    if row == 6 && column == 4 {
        reveal_strlit("#880E4F");
    }
    if row == 7 && column == 0 {
        reveal_strlit("#E0F2F1");
    }
    if row == 7 && column == 1 {
        reveal_strlit("#4DB6AC");
    }
    if row == 7 && column == 2 {
        reveal_strlit("#00897B");
    }
    if row == 7 && column == 3 {
        reveal_strlit("#00695C");
    }
    if row == 7 && column == 4 {
        reveal_strlit("#004D40");
    }
    if row == 8 && column == 0 {
        reveal_strlit("#EFEBE9");
    }
    if row == 8 && column == 1 {
        reveal_strlit("#A1887F");
    }
    if row == 8 && column == 2 {
        reveal_strlit("#795548");
    }
    if row == 8 && column == 3 {
        reveal_strlit("#5D4037");
    }
    if row == 8 && column == 4 {
        reveal_strlit("#3E2723");
    }
    if row == 9 && column == 0 {
        reveal_strlit("#F5F5F5");
    }
    if row == 9 && column == 1 {
        reveal_strlit("#BDBDBD");
    }
    if row == 9 && column == 2 {
        reveal_strlit("#757575");
    }
    if row == 9 && column == 3 {
        reveal_strlit("#424242");
    }
    if row == 9 && column == 4 {
        reveal_strlit("#212121");
    }
    lemma_palette_entries_well_formed(row, column);
    lemma_entry_channels(palette_hex(row, column));
}

/// The channels read from a palette entry.
pub open spec fn palette_rgb(row: int, column: int) -> (int, int, int, int) {
    hex_rgb(ascii_bytes(palette_hex(row, column)), true)
}

/// Sum of the red, green and blue channels: how light a colour is.
pub open spec fn lightness(c: (int, int, int, int)) -> int {
    c.0 + c.1 + c.2
}

/// Each row of the palette keeps its hue: red has red above green and blue;
/// orange, yellow and brown have red above green above blue; green has green
/// above both; blue has blue above green above red; purple has red and blue
/// above green; pink has red above blue above green; teal has green above
/// blue above red; grey has all three equal. Every entry is opaque, and
/// along a row each shade is darker than the one before it.
pub proof fn lemma_palette_hues_and_shades(row: int, column: int)
    requires
        0 <= row < 10,
        0 <= column < 5,
    ensures
        palette_rgb(row, column).3 == 255,
        row == 0 ==> palette_rgb(row, column).0 > palette_rgb(row, column).1 && palette_rgb(row, column).0
            > palette_rgb(row, column).2,
        row == 1 || row == 2 || row == 8 ==> palette_rgb(row, column).0 > palette_rgb(row, column).1
            > palette_rgb(row, column).2,
        row == 3 ==> palette_rgb(row, column).1 > palette_rgb(row, column).0 && palette_rgb(row, column).1
            > palette_rgb(row, column).2,
        row == 4 ==> palette_rgb(row, column).2 > palette_rgb(row, column).1 > palette_rgb(row, column).0,
        row == 5 ==> palette_rgb(row, column).0 > palette_rgb(row, column).1 && palette_rgb(row, column).2
            > palette_rgb(row, column).1,
        row == 6 ==> palette_rgb(row, column).0 > palette_rgb(row, column).2 > palette_rgb(row, column).1,
        row == 7 ==> palette_rgb(row, column).1 > palette_rgb(row, column).2 > palette_rgb(row, column).0,
        row == 9 ==> palette_rgb(row, column).0 == palette_rgb(row, column).1 == palette_rgb(row, column).2,
        column < 4 ==> lightness(palette_rgb(row, column)) > lightness(palette_rgb(row, column + 1)),
{
    lemma_palette_channels(row, column);
    if column < 4 {
        lemma_palette_channels(row, column + 1);
    }
}

} // verus!
