use myshell::line_editor::line::{CharClass, CharTest, Line};
use myshell::line_editor::text_object::{find_range, Selector, TextObject};

fn line(text: &str, cursor: usize) -> Line {
    let mut l = Line::from_str(text);
    l.cursor_exact(cursor);
    l
}

fn state(l: &Line) -> (String, usize) {
    (l.to_string(), l.cursor())
}

#[test]
fn char_classes() {
    assert_eq!(CharClass::from(' '), CharClass::WhiteSpace);
    assert_eq!(CharClass::from('\t'), CharClass::WhiteSpace);
    assert_eq!(CharClass::from('a'), CharClass::Keyword);
    assert_eq!(CharClass::from('_'), CharClass::Keyword);
    assert_eq!(CharClass::from('9'), CharClass::Keyword);
    assert_eq!(CharClass::from('-'), CharClass::Other);
    assert!(CharClass::WhiteSpace.is_whitespace());
    assert!(!CharClass::Other.is_whitespace());
    assert!(CharClass::is_same(true, CharClass::Keyword, CharClass::Other));
    assert!(!CharClass::is_same(false, CharClass::Keyword, CharClass::Other));
    assert!(!CharClass::is_same(true, CharClass::Keyword, CharClass::WhiteSpace));
    assert!(CharClass::is_same(false, CharClass::Other, CharClass::Other));
}

#[test]
fn white_space_is_the_same_for_every_character() {
    let listed = |code: u32| {
        matches!(
            code,
            0x09..=0x0d
                | 0x20
                | 0x85
                | 0xa0
                | 0x1680
                | 0x2000..=0x200a
                | 0x2028
                | 0x2029
                | 0x202f
                | 0x205f
                | 0x3000
        )
    };
    for code in 0..=0x10ffff_u32 {
        if let Some(ch) = char::from_u32(code) {
            assert_eq!(CharClass::from(ch).is_whitespace(), listed(code), "U+{code:04X}");
        }
    }
}

#[test]
fn line_insert_and_delete() {
    let mut l = Line::new();
    assert_eq!(state(&l), ("".to_string(), 0));
    l.insert('a');
    l.insert('c');
    l.cursor_prev_char();
    l.insert('b');
    assert_eq!(state(&l), ("abc".to_string(), 2));
    l.delete_prev();
    assert_eq!(state(&l), ("ac".to_string(), 1));
    l.delete_next();
    assert_eq!(state(&l), ("a".to_string(), 1));
    l.delete_next();
    assert_eq!(state(&l), ("a".to_string(), 1));
    l.delete_prev();
    l.delete_prev();
    assert_eq!(state(&l), ("".to_string(), 0));
    assert_eq!(l.len(), 0);
    assert_eq!(l.char_at(0), None);
}

#[test]
fn line_cells_carry_display_widths() {
    let l = Line::from_str("aあ\u{7}");
    assert_eq!(l.iter(0, 3), vec![('a', 1), ('あ', 2), ('\u{7}', 1)]);
    assert_eq!(l.iter(1, 2), vec![('あ', 2)]);
    assert_eq!(l.substring(1, 3), "あ\u{7}");
    assert_eq!(l.char_at(1), Some('あ'));
    let mut m = Line::new();
    m.insert('あ');
    assert_eq!(m.iter(0, 1), vec![('あ', 2)]);
}

#[test]
fn line_delete_word() {
    let mut l = line("foo bar  ", 9);
    l.delete_word();
    assert_eq!(state(&l), ("foo ".to_string(), 4));
    l.delete_word();
    assert_eq!(state(&l), ("".to_string(), 0));
    let mut l = line("foo-bar baz", 7);
    l.delete_word();
    assert_eq!(state(&l), ("foo- baz".to_string(), 4));
    l.delete_word();
    assert_eq!(state(&l), ("foo baz".to_string(), 3));
    let mut l = line("   ", 2);
    l.delete_word();
    assert_eq!(state(&l), (" ".to_string(), 0));
}

#[test]
fn line_delete_range_and_line() {
    let mut l = line("abcdef", 5);
    l.delete_range(1, 3);
    assert_eq!(state(&l), ("adef".to_string(), 1));
    l.delete_range(2, 100);
    assert_eq!(state(&l), ("ad".to_string(), 2));
    l.delete_range(7, 9);
    assert_eq!(state(&l), ("ad".to_string(), 2));
    l.delete_range(0, 0);
    assert_eq!(state(&l), ("ad".to_string(), 0));
    l.delete_line();
    assert_eq!(state(&l), ("".to_string(), 0));
}

#[test]
fn line_last_word() {
    assert_eq!(Line::from_str("ls foo-bar").last_word(false), Some("bar".to_string()));
    assert_eq!(Line::from_str("ls foo-bar").last_word(true), Some("foo-bar".to_string()));
    assert_eq!(Line::from_str("ls ").last_word(true), None);
    assert_eq!(Line::from_str("").last_word(true), None);
    assert_eq!(Line::from_str("x").last_word(false), Some("x".to_string()));
}

#[test]
fn line_duplicate_current_word() {
    let mut l = line("echo foo", 8);
    l.duplicate_current_word();
    assert_eq!(state(&l), ("echo foo foo".to_string(), 12));
    let mut l = line("echo foo bar", 6);
    l.duplicate_current_word();
    assert_eq!(state(&l), ("echo foo foo bar".to_string(), 10));
    let mut l = line("foo  ", 5);
    l.duplicate_current_word();
    assert_eq!(state(&l), ("foo foo  ".to_string(), 7));
    let mut l = Line::new();
    l.duplicate_current_word();
    assert_eq!(state(&l), (" ".to_string(), 1));
}

#[test]
fn line_cursor_char_moves() {
    let mut l = line("ab", 0);
    l.cursor_prev_char();
    assert_eq!(l.cursor(), 0);
    l.cursor_next_char();
    l.cursor_next_char();
    l.cursor_next_char();
    assert_eq!(l.cursor(), 2);
    l.cursor_exact(1);
    assert_eq!(l.cursor(), 1);
    l.cursor_exact(9);
    assert_eq!(l.cursor(), 2);
    l.cursor_very_begin_of_line();
    assert_eq!(l.cursor(), 0);
    l.cursor_end_of_line();
    assert_eq!(l.cursor(), 2);
    let mut l = line("   x y", 5);
    l.cursor_begin_of_line();
    assert_eq!(l.cursor(), 3);
    let mut l = line("   ", 1);
    l.cursor_begin_of_line();
    assert_eq!(l.cursor(), 3);
}

#[test]
fn line_cursor_char_match() {
    let mut l = line("a,b,c,d", 0);
    l.cursor_next_char_match(',');
    assert_eq!(l.cursor(), 1);
    l.cursor_next_char_match(',');
    assert_eq!(l.cursor(), 3);
    l.cursor_next_char_match('x');
    assert_eq!(l.cursor(), 3);
    l.cursor_end_of_line();
    l.cursor_prev_char_match(',');
    assert_eq!(l.cursor(), 5);
    l.cursor_prev_char_match(',');
    assert_eq!(l.cursor(), 3);
    // the first cell is looked at too
    let mut l = line(",ab", 3);
    l.cursor_prev_char_match(',');
    assert_eq!(l.cursor(), 0);
    let mut l = line("ab", 1);
    l.cursor_prev_char_match('a');
    assert_eq!(l.cursor(), 0);
    let mut l = line("a.b", 2);
    l.cursor_prev_char_match('a');
    assert_eq!(l.cursor(), 0);
    assert_eq!(l.to_string(), "a.b");
    // the cell under the cursor is not
    let mut l = line("a.b", 0);
    l.cursor_prev_char_match('a');
    assert_eq!(l.cursor(), 0);
    let mut l = line("a.b", 2);
    l.cursor_prev_char_match('b');
    assert_eq!(l.cursor(), 2);
}

#[test]
fn line_cursor_word_moves() {
    let mut l = line("foo-bar  baz", 0);
    l.cursor_next_word_head(false);
    assert_eq!(l.cursor(), 3);
    l.cursor_next_word_head(false);
    assert_eq!(l.cursor(), 4);
    l.cursor_next_word_head(false);
    assert_eq!(l.cursor(), 9);
    l.cursor_next_word_head(false);
    assert_eq!(l.cursor(), 11);
    let mut l = line("foo-bar  baz", 0);
    l.cursor_next_word_head(true);
    assert_eq!(l.cursor(), 9);
    let mut l = line("foo-bar  baz", 0);
    l.cursor_next_word_end(false);
    assert_eq!(l.cursor(), 2);
    l.cursor_next_word_end(false);
    assert_eq!(l.cursor(), 3);
    l.cursor_next_word_end(true);
    assert_eq!(l.cursor(), 6);
    l.cursor_next_word_end(true);
    assert_eq!(l.cursor(), 11);
    let mut l = line("foo-bar  baz", 12);
    l.cursor_prev_word_head(false);
    assert_eq!(l.cursor(), 9);
    l.cursor_prev_word_head(false);
    assert_eq!(l.cursor(), 4);
    l.cursor_prev_word_head(true);
    assert_eq!(l.cursor(), 0);
    let mut l = Line::new();
    l.cursor_next_word_head(false);
    l.cursor_next_word_end(false);
    l.cursor_prev_word_head(false);
    assert_eq!(l.cursor(), 0);
}

#[test]
fn line_normal_mode_fix_cursor() {
    let mut l = line("abc", 3);
    l.normal_mode_fix_cursor();
    assert_eq!(l.cursor(), 2);
    l.normal_mode_fix_cursor();
    assert_eq!(l.cursor(), 2);
    let mut l = Line::new();
    l.normal_mode_fix_cursor();
    assert_eq!(l.cursor(), 0);
}

#[test]
fn line_scans() {
    let l = Line::from_str("ab  cd");
    assert_eq!(l.scan_fwd(0, 6, CharTest::NonBlank), 2);
    assert_eq!(l.scan_fwd(2, 6, CharTest::Blank), 4);
    assert_eq!(l.scan_fwd(2, 3, CharTest::Blank), 3);
    assert_eq!(l.scan_back(6, CharTest::NonBlank), 4);
    assert_eq!(l.scan_back(4, CharTest::Blank), 2);
    assert_eq!(l.scan_back(6, CharTest::Not('b')), 2);
    assert_eq!(
        l.scan_back(2, CharTest::Same { wide: false, class: CharClass::Keyword }),
        0
    );
}

#[test]
fn text_objects_on_an_empty_line() {
    let l = Line::new();
    for object in [
        TextObject::Word { wide: false },
        TextObject::Word { wide: true },
        TextObject::Pair { begin: '(', end: ')' },
        TextObject::Pair { begin: '"', end: '"' },
    ] {
        assert_eq!(find_range(&l, Selector::Inside, object), (0, 0));
        assert_eq!(find_range(&l, Selector::An, object), (0, 0));
    }
}

#[test]
fn text_object_words() {
    let l = line("foo-bar  baz qux", 5);
    assert_eq!(find_range(&l, Selector::Inside, TextObject::Word { wide: false }), (4, 7));
    assert_eq!(find_range(&l, Selector::Inside, TextObject::Word { wide: true }), (0, 7));
    assert_eq!(find_range(&l, Selector::An, TextObject::Word { wide: false }), (4, 9));
    assert_eq!(find_range(&l, Selector::An, TextObject::Word { wide: true }), (0, 9));
    let l = line("foo-bar  baz qux", 10);
    assert_eq!(find_range(&l, Selector::An, TextObject::Word { wide: false }), (7, 13));
    // on a blank, the word is the run of blanks
    let l = line("foo-bar  baz qux", 7);
    assert_eq!(find_range(&l, Selector::Inside, TextObject::Word { wide: false }), (7, 9));
    // behind the last character there is no word
    let l = line("foo", 3);
    assert_eq!(find_range(&l, Selector::Inside, TextObject::Word { wide: false }), (0, 0));
}

#[test]
fn text_object_pairs() {
    let pair = TextObject::Pair { begin: '(', end: ')' };
    let l = line("a (b c) d", 4);
    assert_eq!(find_range(&l, Selector::Inside, pair), (3, 6));
    assert_eq!(find_range(&l, Selector::An, pair), (2, 7));
    // without the delimiters the line's ends bound the range
    let l = line("abc", 1);
    assert_eq!(find_range(&l, Selector::Inside, pair), (0, 3));
    assert_eq!(find_range(&l, Selector::An, pair), (0, 3));
    // the cursor on the opening delimiter
    let l = line("(ab)", 0);
    assert_eq!(find_range(&l, Selector::An, pair), (0, 4));
    assert_eq!(find_range(&l, Selector::Inside, pair), (0, 3));
    // the cursor behind the last character
    let l = line("(ab", 3);
    assert_eq!(find_range(&l, Selector::An, pair), (0, 3));
}
