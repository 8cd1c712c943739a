use myshell::completion::{Completer, DirEntry, FileCompletion, StaticWordCompletion};
use myshell::line_editor::command::{Command, EditError, Event};
use myshell::line_editor::editor::{LineEditor, Outcome};
use myshell::line_editor::engine::{split_words, CompletionEngine};
use myshell::line_editor::keys::{decode, events};
use myshell::line_editor::line::Line;
use myshell::line_editor::modes::{
    parse_vim_text_object, InsertMode, Mode, NormalMode, SearchMode, VisualMode,
};
use myshell::line_editor::prompt::unescape_prompt;
use myshell::line_editor::text_object::{Selector, TextObject};

fn editor() -> LineEditor {
    let mut e = LineEditor::new(Completer::Files(FileCompletion::new()));
    e.new_line();
    e
}

/// What reading ended with, if it ended.
#[derive(Debug, PartialEq)]
enum End {
    Line(String),
    Error(EditError),
}

/// Feeds the bytes of one read to the editor, as a driver does.
fn feed(e: &mut LineEditor, bytes: &[u8]) -> Option<End> {
    let mut cmds = Vec::new();
    for ev in decode(bytes) {
        if let Some(err) = e.process_event(ev, &mut cmds) {
            return Some(End::Error(err));
        }
    }
    for cmd in cmds {
        match e.apply(&cmd) {
            Outcome::Continue | Outcome::Show(_) => {}
            Outcome::Commit => return Some(End::Line(e.commit())),
            Outcome::Leave(text) => return Some(End::Line(text)),
        }
    }
    None
}

/// Feeds keys one read at a time.
fn type_keys(e: &mut LineEditor, keys: &str) -> Option<End> {
    for ch in keys.chars() {
        let mut buf = [0u8; 4];
        if let Some(end) = feed(e, ch.encode_utf8(&mut buf).as_bytes()) {
            return Some(end);
        }
    }
    None
}

fn text(e: &LineEditor) -> (String, usize) {
    (e.line().to_string(), e.line().cursor())
}

#[test]
fn control_characters_are_the_same_for_every_character() {
    // above U+007F a character is a key unless it is a control character
    for code in 0x80..=0x10ffff_u32 {
        if let Some(ch) = char::from_u32(code) {
            let mut buf = [0u8; 4];
            let keys = decode(ch.encode_utf8(&mut buf).as_bytes());
            if (0x80..=0x9f).contains(&code) {
                assert_eq!(keys, vec![], "U+{code:04X}");
            } else {
                assert_eq!(keys, vec![Event::Char(ch)], "U+{code:04X}");
            }
        }
    }
}

#[test]
fn decode_keys() {
    assert_eq!(decode(b"\x1b[D"), vec![Event::KeyLeft]);
    assert_eq!(decode(b"\x1b[C"), vec![Event::KeyRight]);
    assert_eq!(decode(b"\x1b[A"), vec![Event::KeyUp]);
    assert_eq!(decode(b"\x1b[B"), vec![Event::KeyDown]);
    assert_eq!(decode(b"\x1b[3~"), vec![Event::KeyDelete]);
    assert_eq!(
        decode(b"\x00\x01\x03\x04\x09\x0d\x1a\x1b\x1c\x1f\x7fa"),
        vec![
            Event::Ctrl('@'),
            Event::Ctrl('a'),
            Event::Ctrl('c'),
            Event::Ctrl('d'),
            Event::KeyTab,
            Event::KeyReturn,
            Event::Ctrl('z'),
            Event::KeyEscape,
            Event::Ctrl('\\'),
            Event::Ctrl('_'),
            Event::KeyBackspace,
            Event::Char('a'),
        ]
    );
    assert_eq!(decode("あ\u{85}b".as_bytes()), vec![Event::Char('あ'), Event::Char('b')]);
    // an escape sequence among other input is read key by key
    assert_eq!(
        decode(b"\x1b[Dx"),
        vec![Event::KeyEscape, Event::Char('['), Event::Char('D'), Event::Char('x')]
    );
    assert_eq!(decode(b"\xff\xfe"), vec![]);
    assert_eq!(decode(b""), vec![]);
    assert_eq!(events("\x1b[3~"), vec![Event::KeyDelete]);
    assert_eq!(events("\x17"), vec![Event::Ctrl('w')]);
}

#[test]
fn vim_text_objects() {
    assert_eq!(
        parse_vim_text_object('i', 'w'),
        Some((Selector::Inside, TextObject::Word { wide: false }))
    );
    assert_eq!(
        parse_vim_text_object('a', 'W'),
        Some((Selector::An, TextObject::Word { wide: true }))
    );
    for (key, begin, end) in [
        ('(', '(', ')'),
        (')', '(', ')'),
        ('[', '[', ']'),
        (']', '[', ']'),
        ('<', '<', '>'),
        ('>', '<', '>'),
        ('{', '{', '}'),
        ('}', '{', '}'),
        ('\'', '\'', '\''),
        ('"', '"', '"'),
        ('`', '`', '`'),
    ] {
        assert_eq!(
            parse_vim_text_object('i', key),
            Some((Selector::Inside, TextObject::Pair { begin, end }))
        );
    }
    assert_eq!(parse_vim_text_object('x', 'w'), None);
    assert_eq!(parse_vim_text_object('i', 'x'), None);
}

#[test]
fn insert_mode_commands() {
    let line = Line::new();
    let mut mode = InsertMode;
    let mut cmds = Vec::new();
    for ev in [
        Event::Char('x'),
        Event::KeyEscape,
        Event::KeyReturn,
        Event::KeyBackspace,
        Event::KeyDelete,
        Event::Ctrl('w'),
        Event::Ctrl('u'),
        Event::KeyTab,
        Event::Ctrl('d'),
        Event::Ctrl('p'),
        Event::Ctrl('o'),
        Event::Ctrl('r'),
        Event::Ctrl('n'),
        Event::Ctrl('x'),
        Event::KeyLeft,
        Event::KeyRight,
        Event::KeyUp,
        Event::KeyDown,
    ] {
        mode.process_event(ev, &line, &mut cmds);
    }
    assert_eq!(
        cmds,
        vec![
            Command::Insert('x'),
            Command::CursorPrevChar,
            Command::ChangeModeToNormal,
            Command::Commit,
            Command::DeletePrevChar,
            Command::DeleteNextChar,
            Command::DeletePrevWord,
            Command::DeleteLine,
            Command::TryCompleteFilename,
            Command::DisplayCompletionCandidate,
            Command::CdToParent,
            Command::CdUndo,
            Command::ChangeModeToSearch,
            Command::DuplicateWord,
            Command::CursorPrevChar,
            Command::CursorNextChar,
            Command::HistoryPrev,
            Command::HistoryNext,
        ]
    );
}

fn normal(line: &Line, keys: &[Event]) -> Vec<Command> {
    let mut mode = NormalMode::new();
    let mut cmds = Vec::new();
    for ev in keys {
        mode.process_event(*ev, line, &mut cmds);
    }
    cmds
}

fn store(text: &str) -> Command {
    Command::RegisterStore { reg: '"', text: text.to_string() }
}

#[test]
fn normal_mode_single_keys() {
    let mut line = Line::from_str("foo bar");
    line.cursor_exact(4);
    let c = |ch| Event::Char(ch);
    assert_eq!(
        normal(&line, &[c('i')]),
        vec![Command::MakeCheckPoint, Command::ChangeModeToInsert]
    );
    assert_eq!(
        normal(&line, &[c('a')]),
        vec![Command::MakeCheckPoint, Command::ChangeModeToInsert, Command::CursorNextChar]
    );
    assert_eq!(
        normal(&line, &[c('x')]),
        vec![Command::MakeCheckPoint, store("b"), Command::DeleteNextChar]
    );
    assert_eq!(
        normal(&line, &[c('s')]),
        vec![
            Command::MakeCheckPoint,
            store("b"),
            Command::ChangeModeToInsert,
            Command::DeleteNextChar
        ]
    );
    assert_eq!(
        normal(&line, &[c('D')]),
        vec![Command::MakeCheckPoint, store("bar"), Command::DeleteRange { from: 4, to: 7 }]
    );
    assert_eq!(
        normal(&line, &[c('C')]),
        vec![
            Command::MakeCheckPoint,
            store("bar"),
            Command::ChangeModeToInsert,
            Command::DeleteRange { from: 4, to: 7 }
        ]
    );
    assert_eq!(normal(&line, &[c('Y')]), vec![store("foo bar")]);
    assert_eq!(
        normal(&line, &[c('p')]),
        vec![Command::MakeCheckPoint, Command::RegisterPasteNext { reg: '"' }]
    );
    assert_eq!(normal(&line, &[c('u'), Event::Ctrl('r')]), vec![Command::Undo, Command::Redo]);
    assert_eq!(
        normal(&line, &[Event::Ctrl('o'), Event::KeyTab, Event::Ctrl('p')]),
        vec![Command::CdUndo, Command::CdRedo, Command::CdToParent]
    );
    assert_eq!(
        normal(&line, &[c('w'), c('W'), c('e'), c('E'), c('b'), c('B'), c('0'), c('^'), c('$')]),
        vec![
            Command::CursorNextWordHead,
            Command::CursorNextWordHeadWide,
            Command::CursorNextWordEnd,
            Command::CursorNextWordEndWide,
            Command::CursorPrevWordHead,
            Command::CursorPrevWordHeadWide,
            Command::CursorExact(0),
            Command::CursorBegin,
            Command::CursorEnd,
        ]
    );
    assert_eq!(normal(&line, &[c('z'), Event::KeyBackspace]), vec![]);
    let empty = Line::new();
    assert_eq!(
        normal(&empty, &[c('x')]),
        vec![Command::MakeCheckPoint, Command::DeleteNextChar]
    );
}

#[test]
fn normal_mode_combinations() {
    let mut line = Line::from_str("foo (bar baz) qux");
    line.cursor_exact(6);
    let c = |ch| Event::Char(ch);
    assert_eq!(
        normal(&line, &[c('d'), c('d')]),
        vec![Command::MakeCheckPoint, store("foo (bar baz) qux"), Command::DeleteLine]
    );
    assert_eq!(
        normal(&line, &[c('c'), c('c')]),
        vec![
            Command::MakeCheckPoint,
            store("foo (bar baz) qux"),
            Command::DeleteLine,
            Command::ChangeModeToInsert
        ]
    );
    assert_eq!(normal(&line, &[c('y'), c('y')]), vec![store("foo (bar baz) qux")]);
    assert_eq!(
        normal(&line, &[c('S')]),
        vec![
            Command::MakeCheckPoint,
            store("foo (bar baz) qux"),
            Command::DeleteLine,
            Command::ChangeModeToInsert
        ]
    );
    assert_eq!(
        normal(&line, &[c('d'), c('i'), c('w')]),
        vec![Command::MakeCheckPoint, store("bar"), Command::DeleteRange { from: 5, to: 8 }]
    );
    assert_eq!(
        normal(&line, &[c('c'), c('a'), c('(')]),
        vec![
            Command::MakeCheckPoint,
            store("(bar baz)"),
            Command::DeleteRange { from: 4, to: 13 },
            Command::ChangeModeToInsert
        ]
    );
    assert_eq!(
        normal(&line, &[c('y'), c('i'), c(')')]),
        vec![store("bar baz"), Command::CursorExact(5)]
    );
    // a key that is no text object ends the combination
    assert_eq!(normal(&line, &[c('d'), c('i'), c('x'), c('x')]).len(), 3);
    assert_eq!(normal(&line, &[c('d'), Event::KeyReturn, Event::KeyReturn]), vec![Command::Commit]);
    // two keys of an operator are no combination yet
    assert_eq!(normal(&line, &[c('d'), c('w')]), vec![]);
    assert_eq!(normal(&line, &[c('d'), c('w'), Event::KeyReturn]), vec![]);
}

#[test]
fn normal_mode_find() {
    let line = Line::from_str("a,b");
    let c = |ch| Event::Char(ch);
    assert_eq!(
        normal(&line, &[c('f'), c(','), c(';')]),
        vec![Command::CursorNextCharMatch(','), Command::CursorNextCharMatch(',')]
    );
    assert_eq!(
        normal(&line, &[c('F'), c(','), c(';')]),
        vec![Command::CursorPrevCharMatch(','), Command::CursorPrevCharMatch(',')]
    );
    assert_eq!(normal(&line, &[c(';')]), vec![]);
    // a key that is no character gives the search up
    assert_eq!(normal(&line, &[c('f'), c(','), c('f'), Event::KeyEscape, c(';')]).len(), 1);
}

fn visual(mode: &mut VisualMode, line: &Line, keys: &[Event]) -> Vec<Command> {
    let mut cmds = Vec::new();
    for ev in keys {
        mode.process_event(*ev, line, &mut cmds);
    }
    cmds
}

#[test]
fn visual_mode_selection() {
    let mut line = Line::from_str("foo bar");
    line.cursor_exact(5);
    let c = |ch| Event::Char(ch);
    let mut mode = VisualMode::new_char(1);
    assert_eq!(mode.origin(), Some(1));
    assert!(!mode.is_line_mode());
    assert_eq!(
        visual(&mut mode, &line, &[c('d')]),
        vec![
            Command::MakeCheckPoint,
            store("oo ba"),
            Command::DeleteRange { from: 1, to: 6 },
            Command::ChangeModeToNormal
        ]
    );
    assert_eq!(
        visual(&mut mode, &line, &[c('c')]),
        vec![
            Command::MakeCheckPoint,
            Command::ChangeModeToInsert,
            store("oo ba"),
            Command::DeleteRange { from: 1, to: 6 },
        ]
    );
    assert_eq!(
        visual(&mut mode, &line, &[c('y')]),
        vec![store("oo ba"), Command::ChangeModeToNormal]
    );
    // the origin right of the cursor
    let mut mode = VisualMode::new_char(6);
    assert_eq!(
        visual(&mut mode, &line, &[c('x')]),
        vec![
            Command::MakeCheckPoint,
            store("ar"),
            Command::DeleteRange { from: 5, to: 7 },
            Command::ChangeModeToNormal
        ]
    );
    // `o` swaps the cursor and the origin
    assert_eq!(visual(&mut mode, &line, &[c('o')]), vec![Command::CursorExact(6)]);
    assert_eq!(mode.origin(), Some(5));
    // whole lines
    let mut mode = VisualMode::new_line();
    assert!(mode.is_line_mode());
    assert_eq!(mode.origin(), None);
    assert_eq!(
        visual(&mut mode, &line, &[c('d')]),
        vec![
            Command::MakeCheckPoint,
            store("foo bar"),
            Command::DeleteLine,
            Command::ChangeModeToNormal
        ]
    );
    assert_eq!(visual(&mut mode, &line, &[c('o')]), vec![]);
    // a yank of whole lines stores the line and deletes nothing
    assert_eq!(
        visual(&mut mode, &line, &[c('y')]),
        vec![store("foo bar"), Command::ChangeModeToNormal]
    );
    assert_eq!(
        visual(&mut VisualMode::new_line(), &Line::from_str("abc"), &[c('y')]),
        vec![store("abc"), Command::ChangeModeToNormal]
    );
    assert_eq!(
        visual(&mut mode, &line, &[c('c')]),
        vec![
            Command::MakeCheckPoint,
            Command::ChangeModeToInsert,
            store("foo bar"),
            Command::DeleteLine
        ]
    );
    assert_eq!(
        visual(&mut mode, &line, &[c('D')]),
        vec![
            Command::MakeCheckPoint,
            store("foo bar"),
            Command::DeleteLine,
            Command::ChangeModeToNormal
        ]
    );
    assert_eq!(
        visual(&mut mode, &line, &[c('S')]),
        vec![
            Command::MakeCheckPoint,
            store("foo bar"),
            Command::ChangeModeToInsert,
            Command::DeleteLine
        ]
    );
    assert_eq!(
        visual(&mut mode, &line, &[c('Y'), Event::KeyEscape, c('v'), Event::KeyReturn]),
        vec![
            store("foo bar"),
            Command::ChangeModeToNormal,
            Command::ChangeModeToNormal,
            Command::ChangeModeToNormal,
            Command::Commit
        ]
    );
}

#[test]
fn visual_mode_on_an_empty_line() {
    let line = Line::new();
    let mut mode = VisualMode::new_char(0);
    assert_eq!(
        visual(&mut mode, &line, &[Event::Char('d')]),
        vec![
            Command::MakeCheckPoint,
            store(""),
            Command::DeleteRange { from: 0, to: 0 },
            Command::ChangeModeToNormal
        ]
    );
}

#[test]
fn visual_mode_text_object() {
    let mut line = Line::from_str("foo (bar) baz");
    line.cursor_exact(6);
    let mut mode = VisualMode::new_char(6);
    let c = |ch| Event::Char(ch);
    assert_eq!(visual(&mut mode, &line, &[c('i'), c('w')]), vec![Command::CursorExact(7)]);
    assert_eq!(mode.origin(), Some(5));
    assert_eq!(visual(&mut mode, &line, &[c('a'), c('(')]), vec![Command::CursorExact(8)]);
    assert_eq!(mode.origin(), Some(4));
    assert_eq!(visual(&mut mode, &line, &[c('i'), c('x')]), vec![]);
    assert_eq!(visual(&mut mode, &line, &[c('i'), Event::KeyEscape]), vec![]);
    assert_eq!(mode.origin(), Some(4));
    let mut mode = VisualMode::new_line();
    assert_eq!(visual(&mut mode, &line, &[c('i'), c('w')]), vec![Command::CursorExact(7)]);
    assert_eq!(mode.origin(), Some(5));
}

#[test]
fn search_mode_commands() {
    let line = Line::new();
    let mut mode = SearchMode::new();
    let mut cmds = Vec::new();
    let search = |q: &str, reset| Command::HistorySearch { query: q.to_string(), reset };
    for ev in [
        Event::Char('a'),
        Event::Char(' '),
        Event::Char('b'),
        Event::Ctrl('r'),
        Event::KeyBackspace,
        Event::Ctrl('w'),
        Event::KeyDelete,
        Event::KeyReturn,
        Event::KeyUp,
        Event::Ctrl('u'),
    ] {
        mode.process_event(ev, &line, &mut cmds);
    }
    assert_eq!(
        cmds,
        vec![
            search("a", true),
            search("a ", true),
            search("a b", true),
            search("a b", false),
            search("a ", true),
            search("", true),
            Command::ChangeModeToInsert,
            Command::Commit,
            Command::ChangeModeToInsert,
            Command::HistoryPrev,
            Command::ChangeModeToInsert,
        ]
    );
    assert_eq!(mode.query(), "");
}

#[test]
fn mode_is_insert() {
    assert!(Mode::Insert(InsertMode).is_insert());
    assert!(Mode::Search(SearchMode::new()).is_insert());
    assert!(!Mode::Normal(NormalMode::new()).is_insert());
    assert!(!Mode::Visual(VisualMode::new_line()).is_insert());
}

#[test]
fn editor_types_and_commits() {
    let mut e = editor();
    assert_eq!(type_keys(&mut e, "echo hi"), None);
    assert_eq!(text(&e), ("echo hi".to_string(), 7));
    assert_eq!(type_keys(&mut e, "\r"), Some(End::Line("echo hi".to_string())));
    e.new_line();
    assert_eq!(text(&e), ("".to_string(), 0));
    // an empty line is committed but does not join the history
    assert_eq!(type_keys(&mut e, "\r"), Some(End::Line("".to_string())));
    e.new_line();
    assert_eq!(feed(&mut e, b"\x1b[A"), None);
    assert_eq!(text(&e), ("echo hi".to_string(), 7));
    assert_eq!(feed(&mut e, b"\x1b[A"), None);
    assert_eq!(text(&e), ("echo hi".to_string(), 7));
}

#[test]
fn editor_deletes_a_word_in_normal_mode() {
    let mut e = editor();
    assert_eq!(type_keys(&mut e, "hi\x1bbdiw"), None);
    assert_eq!(text(&e), ("".to_string(), 0));
    assert_eq!(type_keys(&mut e, "\r"), Some(End::Line("".to_string())));
}

#[test]
fn editor_two_keys_of_an_operator_delete_nothing() {
    let mut e = editor();
    // `d` and `w` are no combination; the Enter behind them ends it
    assert_eq!(type_keys(&mut e, "hi\x1bbdw\r"), None);
    assert_eq!(text(&e), ("hi".to_string(), 0));
    assert_eq!(type_keys(&mut e, "\r"), Some(End::Line("hi".to_string())));
}

#[test]
fn editor_keys_of_one_read_meet_one_mode() {
    let mut e = editor();
    assert_eq!(feed(&mut e, b"ab\x1bx"), None);
    assert_eq!(text(&e), ("axb".to_string(), 2));
    assert!(!e.mode().is_insert());
}

#[test]
fn editor_abort_and_exit() {
    let mut e = editor();
    assert_eq!(feed(&mut e, b"\x04"), Some(End::Error(EditError::Exitted)));
    assert_eq!(feed(&mut e, b"a\x03"), Some(End::Error(EditError::Aborted)));
    let mut e = editor();
    assert_eq!(type_keys(&mut e, "a\x04"), None);
    assert_eq!(type_keys(&mut e, "\x03"), Some(End::Error(EditError::Aborted)));
}

#[test]
fn editor_cd_shortcuts() {
    let mut e = editor();
    assert_eq!(type_keys(&mut e, "x\x10"), Some(End::Line("cd ..".to_string())));
    let mut e = editor();
    assert_eq!(type_keys(&mut e, "\x0f"), Some(End::Line("cd -".to_string())));
    let mut e = editor();
    assert_eq!(type_keys(&mut e, "\x1b\t"), Some(End::Line("cd +".to_string())));
}

#[test]
fn editor_undo_and_redo() {
    let mut e = editor();
    type_keys(&mut e, "foo bar\x1b");
    assert_eq!(text(&e), ("foo bar".to_string(), 6));
    // `x` takes a checkpoint and deletes; `u` restores the snapshot
    type_keys(&mut e, "x");
    assert_eq!(text(&e), ("foo ba".to_string(), 5));
    type_keys(&mut e, "0dd");
    assert_eq!(text(&e), ("".to_string(), 0));
    type_keys(&mut e, "u");
    assert_eq!(text(&e), ("foo ba".to_string(), 0));
    type_keys(&mut e, "u");
    assert_eq!(text(&e), ("foo bar".to_string(), 6));
    // redo undoes the undo
    type_keys(&mut e, "\x12");
    assert_eq!(text(&e), ("foo ba".to_string(), 0));
    type_keys(&mut e, "\x12");
    assert_eq!(text(&e), ("".to_string(), 0));
    type_keys(&mut e, "\x12");
    assert_eq!(text(&e), ("".to_string(), 0));
    // a checkpoint forgets what could be redone
    type_keys(&mut e, "uu");
    assert_eq!(text(&e), ("foo bar".to_string(), 6));
    type_keys(&mut e, "x\x12");
    assert_eq!(text(&e), ("foo ba".to_string(), 5));
    // the first snapshot of a line read in insert mode is the empty line
    type_keys(&mut e, "uuuu");
    assert_eq!(text(&e), ("".to_string(), 0));
}

#[test]
fn editor_registers_and_paste() {
    let mut e = editor();
    type_keys(&mut e, "foo bar\x1b0");
    type_keys(&mut e, "yiw$p");
    assert_eq!(text(&e), ("foo barfoo".to_string(), 9));
    type_keys(&mut e, "0P");
    assert_eq!(text(&e), ("foofoo barfoo".to_string(), 3));
    e.apply(&Command::RegisterStore { reg: 'a', text: "X".to_string() });
    e.apply(&Command::RegisterPastePrev { reg: 'a' });
    assert_eq!(text(&e), ("fooXfoo barfoo".to_string(), 4));
    e.apply(&Command::RegisterStore { reg: 'a', text: "YZ".to_string() });
    e.apply(&Command::RegisterPasteNext { reg: 'a' });
    assert_eq!(text(&e), ("fooXfYZoo barfoo".to_string(), 6));
    e.apply(&Command::RegisterPastePrev { reg: 'b' });
    assert_eq!(text(&e), ("fooXfYZoo barfoo".to_string(), 6));
}

#[test]
fn editor_visual_mode() {
    let mut e = editor();
    type_keys(&mut e, "foo bar baz\x1b0wvey");
    assert_eq!(text(&e), ("foo bar baz".to_string(), 6));
    type_keys(&mut e, "$p");
    assert_eq!(text(&e), ("foo bar bazbar".to_string(), 13));
    type_keys(&mut e, "0vlld");
    assert_eq!(text(&e), (" bar bazbar".to_string(), 0));
    type_keys(&mut e, "Vd");
    assert_eq!(text(&e), ("".to_string(), 0));
    // a yank of the whole line leaves it, and the paste brings it again
    type_keys(&mut e, "iab\x1bVyp");
    assert_eq!(text(&e), ("abab".to_string(), 3));
    // `S` stores the line that it deletes
    type_keys(&mut e, "Sx\x1bp");
    assert_eq!(text(&e), ("xabab".to_string(), 4));
}

fn commit(e: &mut LineEditor, line: &str) {
    e.new_line();
    assert_eq!(type_keys(e, line), None);
    assert_eq!(type_keys(e, "\r"), Some(End::Line(line.to_string())));
}

#[test]
fn editor_history_navigation() {
    let mut e = LineEditor::new(Completer::Files(FileCompletion::new()));
    commit(&mut e, "one");
    commit(&mut e, "two");
    e.new_line();
    type_keys(&mut e, "new");
    feed(&mut e, b"\x1b[A");
    assert_eq!(text(&e), ("two".to_string(), 3));
    type_keys(&mut e, "!");
    feed(&mut e, b"\x1b[A");
    assert_eq!(text(&e), ("one".to_string(), 3));
    feed(&mut e, b"\x1b[A");
    assert_eq!(text(&e), ("one".to_string(), 3));
    feed(&mut e, b"\x1b[B");
    // the copy that was edited is kept while the line is read
    assert_eq!(text(&e), ("two!".to_string(), 4));
    feed(&mut e, b"\x1b[B");
    assert_eq!(text(&e), ("new".to_string(), 3));
    feed(&mut e, b"\x1b[B");
    assert_eq!(text(&e), ("new".to_string(), 3));
    feed(&mut e, b"\x1b[A");
    assert_eq!(type_keys(&mut e, "\r"), Some(End::Line("two!".to_string())));
    e.new_line();
    feed(&mut e, b"\x1b[A");
    assert_eq!(text(&e), ("two!".to_string(), 4));
    feed(&mut e, b"\x1b[A");
    assert_eq!(text(&e), ("two".to_string(), 3));
}

#[test]
fn editor_history_search() {
    let mut e = LineEditor::new(Completer::Files(FileCompletion::new()));
    commit(&mut e, "git status");
    commit(&mut e, "ls -l");
    commit(&mut e, "git log");
    commit(&mut e, "make");
    e.new_line();
    type_keys(&mut e, "\x12gi");
    // with a reset the search starts below the newest line
    assert_eq!(text(&e), ("git log".to_string(), 2));
    type_keys(&mut e, "\x12");
    assert_eq!(text(&e), ("git status".to_string(), 2));
    type_keys(&mut e, "t s");
    assert_eq!(text(&e), ("git status".to_string(), 5));
    type_keys(&mut e, "x");
    // without a match the query becomes the line
    assert_eq!(text(&e), ("git sx".to_string(), 6));
    assert_eq!(type_keys(&mut e, "\x7f\r"), Some(End::Line("git status".to_string())));
}

#[test]
fn editor_history_search_without_history() {
    let mut e = editor();
    type_keys(&mut e, "\x12ab");
    assert_eq!(text(&e), ("ab".to_string(), 2));
}

fn word_editor(words: &[&str]) -> LineEditor {
    let mut e = LineEditor::new(Completer::Words(StaticWordCompletion::new(
        words.iter().map(|w| w.to_string()).collect(),
    )));
    e.new_line();
    e
}

#[test]
fn editor_completion_cycles() {
    let mut e = word_editor(&["--all", "--almost", "--long"]);
    type_keys(&mut e, "ls --a\t");
    assert_eq!(text(&e), ("ls --all".to_string(), 8));
    type_keys(&mut e, "\t");
    assert_eq!(text(&e), ("ls --almost".to_string(), 11));
    type_keys(&mut e, "\t");
    assert_eq!(text(&e), ("ls --all".to_string(), 8));
    // another key ends the cycle
    type_keys(&mut e, " --lo\t");
    assert_eq!(text(&e), ("ls --all --long".to_string(), 15));
    // a single candidate is taken at once
    type_keys(&mut e, "\t");
    assert_eq!(text(&e), ("ls --all --long".to_string(), 15));
}

#[test]
fn editor_completes_command_names() {
    let mut e = editor();
    e.update_commands(vec!["make".to_string(), "man".to_string(), "ls".to_string()]);
    type_keys(&mut e, "l\t");
    assert_eq!(text(&e), ("ls".to_string(), 2));
    let mut e = editor();
    e.update_commands(vec!["make".to_string(), "man".to_string()]);
    type_keys(&mut e, "sudo ma\t");
    assert_eq!(text(&e), ("sudo make".to_string(), 9));
    type_keys(&mut e, "\t");
    assert_eq!(text(&e), ("sudo man".to_string(), 8));
}

#[test]
fn editor_completes_file_names() {
    let mut e = editor();
    e.set_dirs(Some("/home/me".to_string()), Some("/work".to_string()));
    type_keys(&mut e, "cat sr");
    let q = e.file_query().unwrap();
    assert_eq!((q.dir.as_str(), q.pattern.as_str()), ("/work/", "sr"));
    e.set_listing(
        q.dir,
        vec![
            DirEntry { name: "src".to_string(), is_dir: true },
            DirEntry { name: "target".to_string(), is_dir: true },
        ],
    );
    type_keys(&mut e, "\t");
    assert_eq!(text(&e), ("cat src/".to_string(), 8));
}

#[test]
fn editor_displays_candidates() {
    let mut e = word_editor(&["--all", "--almost", "--long"]);
    type_keys(&mut e, "ls --al");
    match e.apply(&Command::DisplayCompletionCandidate) {
        Outcome::Show(text) => assert_eq!(text, "\r\n\x1b[J--all\t--almost\t\r\n"),
        _ => panic!("the candidates are shown"),
    }
    let mut e = word_editor(&["x"]);
    type_keys(&mut e, "ls ");
    assert!(matches!(e.apply(&Command::DisplayCompletionCandidate), Outcome::Continue));
}

#[test]
fn editor_mode_survives_the_line() {
    let mut e = editor();
    type_keys(&mut e, "a\x1b");
    assert!(!e.mode().is_insert());
    assert_eq!(type_keys(&mut e, "\r"), Some(End::Line("a".to_string())));
    e.new_line();
    assert!(!e.mode().is_insert());
    type_keys(&mut e, "i\x12");
    assert!(matches!(e.mode(), Mode::Search(_)));
    e.new_line();
    assert!(matches!(e.mode(), Mode::Insert(_)));
}

#[test]
fn completion_engine_cycle() {
    let words = StaticWordCompletion::new(vec!["ab".to_string(), "ac".to_string()]);
    let mut engine = CompletionEngine::new();
    assert!(engine.cleared());
    assert_eq!(engine.prev(), None);
    assert_eq!(engine.next(), None);
    engine.update(&words, "a".to_string());
    assert!(!engine.cleared());
    assert_eq!(engine.len(), 2);
    assert_eq!(engine.iter(), vec!["b", "c"]);
    assert_eq!(engine.prev(), None);
    assert_eq!(engine.next(), Some("b".to_string()));
    assert_eq!(engine.prev(), Some("b".to_string()));
    assert_eq!(engine.next(), Some("c".to_string()));
    assert_eq!(engine.iter(), vec!["b", "c"]);
    // the same line asks for nothing new
    engine.update(&words, "a".to_string());
    assert_eq!(engine.prev(), Some("c".to_string()));
    engine.update(&words, "ab".to_string());
    assert_eq!(engine.iter(), vec![""]);
    assert_eq!(engine.prev(), None);
    engine.clear();
    assert!(engine.cleared());
    assert_eq!(engine.len(), 0);
}

#[test]
fn completion_words() {
    assert_eq!(split_words("ls  -l\tfoo"), vec!["ls", "-l", "foo"]);
    assert_eq!(split_words("ls "), vec!["ls", ""]);
    assert_eq!(split_words("ls\t"), vec!["ls"]);
    assert_eq!(split_words(""), Vec::<String>::new());
    assert_eq!(split_words(" "), vec![""]);
}

#[test]
fn prompt_unescape() {
    assert_eq!(unescape_prompt("abc"), ("abc".to_string(), 3));
    assert_eq!(unescape_prompt("(\x1b[1m)ab(\x1b[m)$ "), ("\x1b[1mab\x1b[m$ ".to_string(), 4));
    assert_eq!(unescape_prompt("a\\(b\\)"), ("a(b)".to_string(), 4));
    assert_eq!(unescape_prompt("あ"), ("あ".to_string(), 2));
    // a closing bracket that opens nothing takes a column and hides the rest
    assert_eq!(unescape_prompt("a)b"), ("ab".to_string(), 2));
    assert_eq!(unescape_prompt(""), ("".to_string(), 0));
}

#[test]
fn render_frame() {
    let mut e = editor();
    type_keys(&mut e, "ab");
    assert_eq!(
        e.render("(\x1b[m)[  0] ", false, 80),
        "\x1b8\x1b[J\x1b[m[  0] \x1b[36;1m%\x1b[m ab\x1b8\x1b[10C\x1b[6 q"
    );
    assert_eq!(e.highlight(), None);
    // too narrow a terminal cuts the line
    assert_eq!(e.render("", true, 3), "\x1b8\x1b[J\x1b[36;1m#\x1b[m a\x1b8\x1b[4C\x1b[6 q");
    type_keys(&mut e, "\x1b0v");
    assert_eq!(e.highlight(), Some((0, 1)));
    assert_eq!(
        e.render("", false, 80),
        "\x1b8\x1b[J\x1b[32;1m%\x1b[m \x1b[100;97ma\x1b[mb\x1b8\x1b[2C\x1b[2 q"
    );
    type_keys(&mut e, "l\x1bV");
    assert_eq!(e.highlight(), Some((0, usize::MAX)));
    type_keys(&mut e, "\x1b");
    assert_eq!(
        e.render("", false, 80),
        "\x1b8\x1b[J\x1b[34;1m%\x1b[m ab\x1b8\x1b[3C\x1b[2 q"
    );
}

#[test]
fn render_search_highlight() {
    let mut e = LineEditor::new(Completer::Files(FileCompletion::new()));
    commit(&mut e, "echo hello");
    commit(&mut e, "true");
    e.new_line();
    type_keys(&mut e, "\x12ll");
    assert_eq!(text(&e), ("echo hello".to_string(), 9));
    assert_eq!(e.highlight(), Some((7, 9)));
    assert_eq!(
        e.render("", false, 80),
        "\x1b8\x1b[J\x1b[38;5;209;1m%\x1b[m echo he\x1b[100;97ml\x1b[m\x1b[100;97ml\x1b[mo\x1b8\x1b[11C\x1b[6 q"
    );
}
