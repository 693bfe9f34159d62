use wsrelay::text::{
    chars_of, class_holds, cut, fold_case, join, names_match, parse_u16, scan, scan_back,
    text_eq, trim_window, window_is, CharClass,
};

fn chars(s: &str) -> Vec<char> {
    s.chars().collect()
}

#[test]
fn chars_of_gives_the_characters() {
    assert_eq!(chars_of("a\u{e9}z"), vec!['a', '\u{e9}', 'z']);
    assert_eq!(chars_of(""), Vec::<char>::new());
}

#[test]
fn classes_of_characters() {
    assert!(class_holds(CharClass::Space, ' '));
    assert!(class_holds(CharClass::Space, '\u{3000}'));
    assert!(!class_holds(CharClass::Space, 'x'));
    assert!(class_holds(CharClass::Word, 'x'));
    assert!(!class_holds(CharClass::Word, '\n'));
    assert!(class_holds(CharClass::Field, ' '));
    assert!(!class_holds(CharClass::Field, ','));
}

#[test]
fn scan_stops_at_the_first_character_outside_the_class() {
    let v = chars("  ab, c ");
    assert_eq!(scan(&v, 0, v.len(), CharClass::Space), 2);
    assert_eq!(scan(&v, 2, v.len(), CharClass::Word), 5);
    assert_eq!(scan(&v, 2, v.len(), CharClass::Field), 4);
    assert_eq!(scan(&v, 2, 3, CharClass::Word), 3);
    assert_eq!(scan(&v, 8, 8, CharClass::Word), 8);
}

#[test]
fn scan_back_stops_at_the_last_character_outside_the_class() {
    let v = chars("  ab, c  ");
    assert_eq!(scan_back(&v, 0, v.len(), CharClass::Space), 7);
    assert_eq!(scan_back(&v, 0, 7, CharClass::Word), 6);
    assert_eq!(scan_back(&v, 0, 2, CharClass::Space), 0);
}

#[test]
fn trim_window_matches_std_trim() {
    for s in ["", " ", "a", " a", "a ", "  a b  ", "\t\n x\u{a0}y \r\n", "\u{2028}\u{2029}"] {
        let v = chars(s);
        let (a, b) = trim_window(&v, 0, v.len());
        let got: String = v[a..b].iter().collect();
        assert_eq!(got, s.trim());
    }
}

#[test]
fn trim_window_stays_inside_its_window() {
    let v = chars("ab  cd  ef");
    assert_eq!(trim_window(&v, 2, 8), (4, 6));
    assert_eq!(trim_window(&v, 2, 4), (4, 4));
}

#[test]
fn window_is_compares_the_window() {
    let v = chars("/ping x");
    assert!(window_is(&v, 1, 5, "ping"));
    assert!(!window_is(&v, 1, 5, "pong"));
    assert!(!window_is(&v, 1, 4, "ping"));
    assert!(window_is(&v, 3, 3, ""));
}

#[test]
fn parse_u16_reads_decimal_numbers() {
    let v = chars("x1000y");
    assert_eq!(parse_u16(&v, 1, 5), Some(1000));
    assert_eq!(parse_u16(&v, 1, 2), Some(1));
    assert_eq!(parse_u16(&v, 1, 1), None);
    assert_eq!(parse_u16(&v, 0, 5), None);
    assert_eq!(parse_u16(&v, 1, 6), None);
    let big = chars("65535 65536 000000000065535 4294967296");
    assert_eq!(parse_u16(&big, 0, 5), Some(65535));
    assert_eq!(parse_u16(&big, 6, 11), None);
    assert_eq!(parse_u16(&big, 12, 27), Some(65535));
    assert_eq!(parse_u16(&big, 28, 38), None);
}

#[test]
fn fold_case_folds_ascii_capitals_only() {
    assert_eq!(fold_case('A'), 'a' as u32);
    assert_eq!(fold_case('Z'), 'z' as u32);
    assert_eq!(fold_case('a'), 'a' as u32);
    assert_eq!(fold_case('@'), '@' as u32);
    assert_eq!(fold_case('['), '[' as u32);
    assert_eq!(fold_case('\u{c9}'), 0xc9);
}

#[test]
fn names_match_ignores_ascii_case() {
    assert!(names_match("Sec-WebSocket-Key", "sec-websocket-key"));
    assert!(names_match("HOST", "host"));
    assert!(names_match("", ""));
    assert!(!names_match("host", "hosts"));
    assert!(!names_match("host", "hos"));
    assert!(!names_match("\u{c9}", "\u{e9}"));
    assert!(!names_match("@", "`"));
}

#[test]
fn text_eq_is_exact() {
    assert!(text_eq("ws", "ws"));
    assert!(!text_eq("ws", "WS"));
    assert!(!text_eq("ws", "wss"));
}

#[test]
fn cut_counts_characters() {
    assert_eq!(cut("h\u{e9}llo", 1, 3), "\u{e9}l");
    assert_eq!(cut("abc", 3, 3), "");
}

#[test]
fn join_appends() {
    assert_eq!(join("Basic ", "abc"), "Basic abc");
}
