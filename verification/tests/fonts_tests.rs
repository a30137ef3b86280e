use daily_commando::ascii_fonts::{render_big, glyph, Font, ROWS};

#[test]
fn render_basic_digits() {
    let lines = render_big("123", Font::Okay);
    assert_eq!(lines.len(), ROWS);
    assert!(lines.iter().any(|l| l.contains('█')));
}

#[test]
fn render_with_colon() {
    let lines = render_big("1:23", Font::Ko);
    assert_eq!(lines.len(), ROWS);
    assert!(lines.iter().any(|l| l.contains('0')));
}

#[test]
fn banner_rows_have_equal_width() {
    // 7 + 1 + 3 + 1 + 7 + 1 + 7 columns
    for font in [Font::Okay, Font::Ko] {
        let lines = render_big("1:23", font);
        for l in &lines {
            assert_eq!(l.chars().count(), 27);
        }
    }
    let minus = render_big("-0:05", Font::Okay);
    for l in &minus {
        assert_eq!(l.chars().count(), 3 + 1 + 7 + 1 + 3 + 1 + 7 + 1 + 7);
    }
}

#[test]
fn glyphs_join_with_one_space() {
    let lines = render_big("10", Font::Okay);
    assert_eq!(lines[0], "  ██     █████ ");
    assert_eq!(lines[6], "██████   █████ ");
    assert_eq!(render_big("", Font::Ko), vec![String::new(); 7]);
}

#[test]
fn unknown_characters_fall_back_to_the_colon() {
    assert_eq!(render_big("x", Font::Ko), render_big(":", Font::Okay));
    assert_eq!(glyph(Font::Ko, ':')[1], "00 ");
    assert_eq!(glyph(Font::Okay, '-')[3], "███");
    assert_eq!(glyph(Font::Ko, '8')[3], " 00000 ");
}
