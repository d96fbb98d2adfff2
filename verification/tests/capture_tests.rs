use stunts_native::capture::{capture_option, capture_options, parse_capture_selection, parse_usize, split_format_string, CaptureSource};

fn source(title: &str, hwnd: usize, width: u32, height: u32) -> CaptureSource {
    CaptureSource { title: title.to_string(), hwnd, width, height }
}

#[test]
fn split_on_dash_and_x() {
    assert_eq!(split_format_string("123-1920x1080"), vec!["123", "1920", "1080"]);
    assert_eq!(split_format_string("a--x"), vec!["a", "", "", ""]);
    assert_eq!(split_format_string(""), vec![""]);
    assert_eq!(split_format_string("héllo"), vec!["héllo"]);
}

#[test]
fn parse_usize_like_str_parse() {
    assert_eq!(parse_usize("42"), Some(42));
    assert_eq!(parse_usize("+42"), Some(42));
    assert_eq!(parse_usize("007"), Some(7));
    assert_eq!(parse_usize("+"), None);
    assert_eq!(parse_usize("-"), None);
    assert_eq!(parse_usize("-1"), None);
    assert_eq!(parse_usize(""), None);
    assert_eq!(parse_usize("1 2"), None);
    assert_eq!(parse_usize(&usize::MAX.to_string()), Some(usize::MAX));
    assert_eq!(parse_usize("18446744073709551616"), None);
    for s in ["0", "+9", "12a", "++1", "99999999999999999999"] {
        assert_eq!(parse_usize(s), s.parse::<usize>().ok());
    }
}

#[test]
fn selection_reads_handle_and_size() {
    assert_eq!(parse_capture_selection("123-1920x1080"), Some((123, 1920, 1080)));
    assert_eq!(parse_capture_selection("abc"), None);
    assert_eq!(parse_capture_selection("12-wide"), None);
    assert_eq!(parse_capture_selection("12-800xtall"), None);
}

#[test]
fn options_filter_and_format() {
    let sources = vec![
        source("", 1, 500, 500),
        source("A", 2, 500, 500),
        source("é", 3, 500, 500),
        source("Editor", 4, 100, 500),
        source("Browser", 5, 1280, 101),
    ];
    let options = capture_options(&sources);
    assert_eq!(options.len(), 2);
    assert_eq!(options[0].label, "é (500x500)");
    assert_eq!(options[0].value, "3-500x500");
    assert_eq!(options[1].label, "Browser (1280x101)");
    assert_eq!(options[1].value, "5-1280x101");
}

#[test]
fn option_round_trip() {
    let src = source("Terminal", 987654321, 4294967295, 7);
    let option = capture_option(&src);
    assert_eq!(option.label, "Terminal (4294967295x7)");
    assert_eq!(option.value, "987654321-4294967295x7");
    assert_eq!(parse_capture_selection(&option.value), Some((987654321, 4294967295, 7)));
}
