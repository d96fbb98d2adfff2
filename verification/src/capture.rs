//! Screen-capture sources: which windows are offered, how each is labelled
//! and encoded in the dropdown, and how a selection is read back.

use vstd::prelude::*;
use vstd::string::StringSliceAdditionalSpecFns;
use vstd::string::StrSliceExecFns;
use crate::text::{all_digits, decimal, digits_value, is_digit, digit_value, lemma_decimal_denotes, push_char, push_decimal};

verus! {

/// Whether `c` separates the fields of a capture selection (`-` or `x`).
pub open spec fn is_field_separator(c: char) -> bool {
    c == '-' || c == 'x'
}

/// The pieces of `s` between separators, empty pieces included; there is
/// always at least one piece.
pub open spec fn split_fields(s: Seq<char>) -> Seq<Seq<char>>
    decreases s.len(),
{
    if s.len() == 0 {
        seq![Seq::<char>::empty()]
    } else {
        let r = split_fields(s.drop_last());
        if is_field_separator(s.last()) {
            r.push(Seq::<char>::empty())
        } else {
            r.update(r.len() - 1, r.last().push(s.last()))
        }
    }
}

/// Splitting a text always gives at least one field, the empty text included.
pub proof fn lemma_split_fields_nonempty(s: Seq<char>)
    ensures
        split_fields(s).len() >= 1,
    decreases s.len(),
{
    if s.len() > 0 {
        lemma_split_fields_nonempty(s.drop_last());
    }
}

/// What unsigned decimal parsing (`str::parse`) gives for `s`: an optional
/// `+`, then one or more digits whose value is at most `max`.
pub open spec fn parse_unsigned(s: Seq<char>, max: nat) -> Option<nat> {
    if s.len() == 0 {
        None
    } else if s.len() == 1 && (s[0] == '+' || s[0] == '-') {
        None
    } else {
        let d = if s[0] == '+' {
            s.drop_first()
        } else {
            s
        };
        if all_digits(d) && digits_value(d) <= max {
            Some(digits_value(d))
        } else {
            None
        }
    }
}

/// The pieces of `input` between the separators `-` and `x`.
pub fn split_format_string(input: &str) -> (parts: Vec<String>)
    ensures
        parts@.map_values(|p: String| p@) == split_fields(input@),
{
    let n = input.unicode_len();
    let mut done: Vec<String> = Vec::new();
    let mut current = String::new();
    let mut i: usize = 0;
    while i < n
        invariant
            n == input@.len(),
            i <= n,
            done@.map_values(|p: String| p@).push(current@) == split_fields(input@.take(i as int)),
        decreases n - i,
    {
        let c = input.get_char(i);
        let ghost before = done@.map_values(|p: String| p@).push(current@);
        proof {
            assert(input@.take(i as int + 1).drop_last() =~= input@.take(i as int));
            assert(input@.take(i as int + 1).last() == c);
        }
        if c == '-' || c == 'x' {
            let ghost old_done = done@;
            done.push(current);
            current = String::new();
            assert(done@.map_values(|p: String| p@) =~= old_done.map_values(|p: String| p@).push(
                before.last(),
            ));
            assert(done@.map_values(|p: String| p@).push(current@) =~= before.push(Seq::<char>::empty()));
        } else {
            push_char(&mut current, c);
            assert(done@.map_values(|p: String| p@).push(current@) =~= before.update(
                before.len() - 1,
                before.last().push(c),
            ));
        }
        i = i + 1;
    }
    assert(input@.take(n as int) =~= input@);
    done.push(current);
    done
}

proof fn lemma_digits_prefix_le(d: Seq<char>, k: int)
    requires
        all_digits(d),
        0 <= k <= d.len(),
    ensures
        digits_value(d.take(k)) <= digits_value(d),
    decreases d.len(),
{
    if k < d.len() {
        let e = d.drop_last();
        assert(all_digits(e));
        assert(e.take(k) =~= d.take(k));
        lemma_digits_prefix_le(e, k);
        assert(digit_value(d.last()) >= 0);
        assert(digits_value(e) * 10 >= digits_value(e)) by (nonlinear_arith);
    } else {
        assert(d.take(k) =~= d);
    }
}

/// Parses an unsigned decimal number that fits in `usize`, as `str::parse`
/// does: an optional `+`, then digits only.
pub fn parse_usize(s: &str) -> (r: Option<usize>)
    ensures
        match r {
            Some(v) => parse_unsigned(s@, usize::MAX as nat) == Some(v as nat),
            None => parse_unsigned(s@, usize::MAX as nat) is None,
        },
{
    let n = s.unicode_len();
    if n == 0 {
        return None;
    }
    let first = s.get_char(0);
    if n == 1 && (first == '+' || first == '-') {
        return None;
    }
    let start: usize = if first == '+' { 1 } else { 0 };
    let ghost d = if first == '+' { s@.drop_first() } else { s@ };
    assert(d =~= s@.skip(start as int));
    let mut acc: u128 = 0;
    let mut i: usize = start;
    while i < n
        invariant
            n == s@.len(),
            start <= i <= n,
            d =~= s@.skip(start as int),
            d == (if s@[0] == '+' { s@.drop_first() } else { s@ }),
            n > 0,
            !(n == 1 && (s@[0] == '+' || s@[0] == '-')),
            all_digits(d.take(i - start)),
            acc == digits_value(d.take(i - start)),
            acc <= usize::MAX,
        decreases n - i,
    {
        let c = s.get_char(i);
        let ghost k = i - start;
        proof {
            assert(d[k] == c);
            assert(d.take(k + 1).drop_last() =~= d.take(k));
            assert(d.take(k + 1).last() == c);
        }
        if !('0' <= c && c <= '9') {
            assert(!is_digit(d[k]));
            assert(!all_digits(d));
            return None;
        }
        let digit = (c as u32 - 48) as u128;
        assert(digit as int == digit_value(c));
        acc = acc * 10 + digit;
        assert(all_digits(d.take(k + 1)));
        assert(acc == digits_value(d.take(k + 1)));
        if acc > usize::MAX as u128 {
            proof {
                if all_digits(d) {
                    lemma_digits_prefix_le(d, k + 1);
                }
            }
            return None;
        }
        i = i + 1;
    }
    assert(d.take(n - start) =~= d);
    Some(acc as usize)
}

/// Whether reading the fields of a selection stays within the pieces: the
/// second piece is read only when the first parses, the third only when the
/// first two do.
pub open spec fn selection_in_bounds(value: Seq<char>) -> bool {
    let p = split_fields(value);
    &&& parse_unsigned(p[0], usize::MAX as nat) is Some ==> p.len() >= 2
    &&& (parse_unsigned(p[0], usize::MAX as nat) is Some && parse_unsigned(p[1], usize::MAX as nat) is Some)
        ==> p.len() >= 3
}

/// Window handle, width and height read from a `hwnd-WIDTHxHEIGHT` selection.
pub open spec fn selection(value: Seq<char>) -> Option<(nat, nat, nat)> {
    let p = split_fields(value);
    match parse_unsigned(p[0], usize::MAX as nat) {
        None => None,
        Some(h) => match parse_unsigned(p[1], usize::MAX as nat) {
            None => None,
            Some(w) => match parse_unsigned(p[2], usize::MAX as nat) {
                None => None,
                Some(t) => Some((h, w, t)),
            },
        },
    }
}

/// Reads window handle, width and height from the dropdown value of a
/// capture source; `None` when one of the three does not parse.
pub fn parse_capture_selection(value: &str) -> (r: Option<(usize, usize, usize)>)
    requires
        selection_in_bounds(value@),
    ensures
        match r {
            Some((h, w, t)) => selection(value@) == Some((h as nat, w as nat, t as nat)),
            None => selection(value@) is None,
        },
{
    let parts = split_format_string(value);
    let ghost p = split_fields(value@);
    proof {
        lemma_split_fields_nonempty(value@);
    }
    assert(parts@[0]@ == p[0]) by {
        assert(parts@.map_values(|q: String| q@)[0] == parts@[0]@);
    }
    match parse_usize(parts[0].as_str()) {
        None => None,
        Some(hwnd) => {
            assert(parts@[1]@ == p[1]) by {
                assert(parts@.map_values(|q: String| q@)[1] == parts@[1]@);
            }
            match parse_usize(parts[1].as_str()) {
                None => None,
                Some(width) => {
                    assert(parts@[2]@ == p[2]) by {
                        assert(parts@.map_values(|q: String| q@)[2] == parts@[2]@);
                    }
                    match parse_usize(parts[2].as_str()) {
                        None => None,
                        Some(height) => Some((hwnd, width, height)),
                    }
                },
            }
        },
    }
}

/// A window that can be captured, with its size.
pub struct CaptureSource {
    pub title: String,
    pub hwnd: usize,
    pub width: u32,
    pub height: u32,
}

/// A dropdown entry: the text shown and the value handed back on selection.
pub struct CaptureOption {
    pub label: String,
    pub value: String,
}

/// Sources worth offering: a title longer than one byte (UTF-8), and both sides
/// longer than 100 pixels.
pub open spec fn is_offered(title: Seq<char>, width: u32, height: u32) -> bool {
    &&& (vstd::utf8::encode_utf8(title).len() as usize) > 1
    &&& width > 100
    &&& height > 100
}

/// `TITLE (WIDTHxHEIGHT)`.
pub open spec fn option_label(title: Seq<char>, width: u32, height: u32) -> Seq<char> {
    title + seq![' ', '('] + decimal(width as nat) + seq!['x'] + decimal(height as nat) + seq![')']
}

/// `HWND-WIDTHxHEIGHT`.
pub open spec fn option_value(hwnd: usize, width: u32, height: u32) -> Seq<char> {
    decimal(hwnd as nat) + seq!['-'] + decimal(width as nat) + seq!['x'] + decimal(height as nat)
}

/// The dropdown entry of an offered source, as (label, value).
pub open spec fn option_for(src: CaptureSource) -> Option<(Seq<char>, Seq<char>)> {
    if is_offered(src.title@, src.width, src.height) {
        Some((option_label(src.title@, src.width, src.height), option_value(src.hwnd, src.width, src.height)))
    } else {
        None
    }
}

/// The dropdown entry for one source.
pub fn capture_option(src: &CaptureSource) -> (opt: CaptureOption)
    ensures
        opt.label@ == option_label(src.title@, src.width, src.height),
        opt.value@ == option_value(src.hwnd, src.width, src.height),
{
    let mut label = src.title.clone();
    push_char(&mut label, ' ');
    push_char(&mut label, '(');
    push_decimal(&mut label, src.width as u64);
    push_char(&mut label, 'x');
    push_decimal(&mut label, src.height as u64);
    push_char(&mut label, ')');
    let mut value = String::new();
    push_decimal(&mut value, src.hwnd as u64);
    push_char(&mut value, '-');
    push_decimal(&mut value, src.width as u64);
    push_char(&mut value, 'x');
    push_decimal(&mut value, src.height as u64);
    assert(label@ =~= option_label(src.title@, src.width, src.height));
    assert(value@ =~= option_value(src.hwnd, src.width, src.height));
    CaptureOption { label, value }
}

/// The dropdown entries for the sources worth offering, in source order.
pub fn capture_options(sources: &Vec<CaptureSource>) -> (options: Vec<CaptureOption>)
    ensures
        options@.map_values(|o: CaptureOption| (o.label@, o.value@)) == sources@.filter_map(
            |s: CaptureSource| option_for(s),
        ),
{
    let ghost f = |s: CaptureSource| option_for(s);
    let mut options: Vec<CaptureOption> = Vec::new();
    let mut i: usize = 0;
    while i < sources.len()
        invariant
            i <= sources@.len(),
            f == (|s: CaptureSource| option_for(s)),
            options@.map_values(|o: CaptureOption| (o.label@, o.value@)) == sources@.take(
                i as int,
            ).filter_map(f),
        decreases sources@.len() - i,
    {
        let src = &sources[i];
        proof {
            sources@.lemma_filter_map_take_succ(f, i as int);
        }
        let title_text = src.title.as_str();
        let title_bytes = title_text.len();
        assert(title_text@ == src.title@);
        assert(title_bytes == (vstd::utf8::encode_utf8(src.title@).len() as usize));
        assert(sources@[i as int] == *src);
        if title_bytes > 1 && src.width > 100 && src.height > 100 {
            let opt = capture_option(src);
            let ghost before = options@;
            options.push(opt);
            assert(f(sources@[i as int]) == Some((opt.label@, opt.value@)));
            assert(options@.map_values(|o: CaptureOption| (o.label@, o.value@)) =~= before.map_values(
                |o: CaptureOption| (o.label@, o.value@),
            ) + seq![(opt.label@, opt.value@)]);
        }
        i = i + 1;
    }
    assert(sources@.take(i as int) =~= sources@);
    options
}

proof fn lemma_split_plain_suffix(a: Seq<char>, b: Seq<char>)
    requires
        forall|i: int| 0 <= i < b.len() ==> !is_field_separator(#[trigger] b[i]),
    ensures
        split_fields(a + b) == split_fields(a).update(
            split_fields(a).len() - 1,
            split_fields(a).last() + b,
        ),
    decreases b.len(),
{
    lemma_split_fields_nonempty(a);
    if b.len() == 0 {
        assert(a + b =~= a);
        assert(split_fields(a).last() + b =~= split_fields(a).last());
        assert(split_fields(a).update(split_fields(a).len() - 1, split_fields(a).last())
            =~= split_fields(a));
    } else {
        let c = b.drop_last();
        lemma_split_plain_suffix(a, c);
        assert((a + b).drop_last() =~= a + c);
        assert((a + b).last() == b.last());
        assert(!is_field_separator(b.last()));
        assert((split_fields(a).last() + c).push(b.last()) =~= split_fields(a).last() + b);
        assert(split_fields(a + b) =~= split_fields(a).update(
            split_fields(a).len() - 1,
            split_fields(a).last() + b,
        ));
    }
}

proof fn lemma_decimal_has_no_separator(n: nat)
    ensures
        forall|i: int| 0 <= i < decimal(n).len() ==> !is_field_separator(#[trigger] decimal(n)[i]),
{
    lemma_decimal_denotes(n);
    assert forall|i: int| 0 <= i < decimal(n).len() implies !is_field_separator(#[trigger] decimal(n)[i]) by {
        assert(is_digit(decimal(n)[i]));
    }
}

proof fn lemma_parse_decimal(n: nat)
    requires
        n <= usize::MAX,
    ensures
        parse_unsigned(decimal(n), usize::MAX as nat) == Some(n),
{
    lemma_decimal_denotes(n);
    let d = decimal(n);
    if d.len() == 1 {
        assert(is_digit(d[0]));
    }
}

/// Whether `b` holds no separator.
pub open spec fn is_plain(b: Seq<char>) -> bool {
    forall|i: int| 0 <= i < b.len() ==> !is_field_separator(#[trigger] b[i])
}

proof fn lemma_split_plain(b: Seq<char>)
    requires
        is_plain(b),
    ensures
        split_fields(b) == seq![b],
{
    let e = Seq::<char>::empty();
    lemma_split_plain_suffix(e, b);
    assert(e + b =~= b);
    assert(split_fields(e) =~= seq![e]);
    assert(seq![e].update(0, e + b) =~= seq![b]);
}

proof fn lemma_split_sep_plain(a: Seq<char>, c: char, b: Seq<char>)
    requires
        is_field_separator(c),
        is_plain(b),
    ensures
        split_fields(a + seq![c] + b) == split_fields(a).push(b),
{
    let e = Seq::<char>::empty();
    let s1 = a + seq![c];
    assert(s1.drop_last() =~= a);
    assert(s1.last() == c);
    assert(split_fields(s1) == split_fields(a).push(e));
    lemma_split_plain_suffix(s1, b);
    assert(split_fields(a).push(e).update(split_fields(a).len() as int, e + b) =~= split_fields(a).push(
        b,
    ));
}

/// Choosing a source's dropdown entry starts the capture of that window at
/// that size: the value of every entry reads back as its handle, width and
/// height, and reading it stays within its pieces.
pub proof fn lemma_selection_reads_back(hwnd: usize, width: u32, height: u32)
    ensures
        selection_in_bounds(option_value(hwnd, width, height)),
        selection(option_value(hwnd, width, height)) == Some((hwnd as nat, width as nat, height as nat)),
{
    let d1 = decimal(hwnd as nat);
    let d2 = decimal(width as nat);
    let d3 = decimal(height as nat);
    lemma_decimal_has_no_separator(hwnd as nat);
    lemma_decimal_has_no_separator(width as nat);
    lemma_decimal_has_no_separator(height as nat);
    assert(is_plain(d1));
    assert(is_plain(d2));
    assert(is_plain(d3));
    lemma_split_plain(d1);
    lemma_split_sep_plain(d1, '-', d2);
    let s2 = d1 + seq!['-'] + d2;
    lemma_split_sep_plain(s2, 'x', d3);
    let s3 = s2 + seq!['x'] + d3;
    assert(s3 == option_value(hwnd, width, height));
    let p = split_fields(s3);
    assert(p =~= seq![d1, d2, d3]);
    lemma_parse_decimal(hwnd as nat);
    lemma_parse_decimal(width as nat);
    lemma_parse_decimal(height as nat);
}

} // verus!
