//! The four editor modes. Each turns one key event, with a look at the current
//! line, into edit commands for the driver and its own next state.

use vstd::prelude::*;
use crate::line_editor::command::{emit, views, Command, CommandView, Event};
use crate::line_editor::line::{Line, LineView};
use crate::line_editor::text_object::{find_range, text_range, Selector, TextObject};

verus! {

/// The command that stores a text in the unnamed register.
pub open spec fn store(text: Seq<char>) -> CommandView {
    CommandView::RegisterStore { reg: '"', text }
}

fn emit_store(cmds: &mut Vec<Command>, text: String)
    ensures
        views(final(cmds)@) == views(old(cmds)@).push(store(text@)),
        final(cmds)@.len() == old(cmds)@.len() + 1,
{
    emit(cmds, Command::RegisterStore { reg: '"', text });
}

/// The selector and object that two keys name, as in `iw` or `a(`.
pub open spec fn vim_text_object(sel: char, obj: char) -> Option<(Selector, TextObject)> {
    let selector = if sel == 'i' {
        Some(Selector::Inside)
    } else if sel == 'a' {
        Some(Selector::An)
    } else {
        None
    };
    let object = if obj == 'w' {
        Some(TextObject::Word { wide: false })
    } else if obj == 'W' {
        Some(TextObject::Word { wide: true })
    } else if obj == '(' || obj == ')' {
        Some(TextObject::Pair { begin: '(', end: ')' })
    } else if obj == '[' || obj == ']' {
        Some(TextObject::Pair { begin: '[', end: ']' })
    } else if obj == '<' || obj == '>' {
        Some(TextObject::Pair { begin: '<', end: '>' })
    } else if obj == '{' || obj == '}' {
        Some(TextObject::Pair { begin: '{', end: '}' })
    } else if obj == '\'' {
        Some(TextObject::Pair { begin: '\'', end: '\'' })
    } else if obj == '"' {
        Some(TextObject::Pair { begin: '"', end: '"' })
    } else if obj == '`' {
        Some(TextObject::Pair { begin: '`', end: '`' })
    } else {
        None
    };
    match (selector, object) {
        (Some(s), Some(o)) => Some((s, o)),
        _ => None,
    }
}

pub fn parse_vim_text_object(sel: char, obj: char) -> (r: Option<(Selector, TextObject)>)
    ensures
        r == vim_text_object(sel, obj),
{
    let sel = match sel {
        'i' => Selector::Inside,
        'a' => Selector::An,
        _ => {
            return None;
        },
    };
    let obj = match obj {
        'w' => TextObject::Word { wide: false },
        'W' => TextObject::Word { wide: true },
        '(' | ')' => TextObject::Pair { begin: '(', end: ')' },
        '[' | ']' => TextObject::Pair { begin: '[', end: ']' },
        '<' | '>' => TextObject::Pair { begin: '<', end: '>' },
        '{' | '}' => TextObject::Pair { begin: '{', end: '}' },
        '\'' => TextObject::Pair { begin: '\'', end: '\'' },
        '"' => TextObject::Pair { begin: '"', end: '"' },
        '`' => TextObject::Pair { begin: '`', end: '`' },
        _ => {
            return None;
        },
    };
    Some((sel, obj))
}

// ---------------------------------------------------------------- insert

#[derive(Debug, Clone, Copy, PartialEq, Eq, Default)]
pub struct InsertMode;

/// The commands that insert mode answers a key with.
pub open spec fn insert_commands(ev: Event) -> Seq<CommandView> {
    match ev {
        Event::KeyEscape => seq![CommandView::CursorPrevChar, CommandView::ChangeModeToNormal],
        Event::KeyReturn => seq![CommandView::Commit],
        Event::KeyLeft => seq![CommandView::CursorPrevChar],
        Event::KeyRight => seq![CommandView::CursorNextChar],
        Event::KeyUp => seq![CommandView::HistoryPrev],
        Event::KeyDown => seq![CommandView::HistoryNext],
        Event::Char(ch) => seq![CommandView::Insert(ch)],
        Event::KeyBackspace => seq![CommandView::DeletePrevChar],
        Event::KeyDelete => seq![CommandView::DeleteNextChar],
        Event::KeyTab => seq![CommandView::TryCompleteFilename],
        Event::Ctrl(c) => if c == 'w' {
            seq![CommandView::DeletePrevWord]
        } else if c == 'u' {
            seq![CommandView::DeleteLine]
        } else if c == 'd' {
            seq![CommandView::DisplayCompletionCandidate]
        } else if c == 'p' {
            seq![CommandView::CdToParent]
        } else if c == 'o' {
            seq![CommandView::CdUndo]
        } else if c == 'r' {
            seq![CommandView::ChangeModeToSearch]
        } else if c == 'n' {
            seq![CommandView::DuplicateWord]
        } else {
            seq![]
        },
    }
}

impl InsertMode {
    pub fn process_event(&mut self, event: Event, _line: &Line, cmds: &mut Vec<Command>)
        ensures
            views(final(cmds)@) =~= views(old(cmds)@) + insert_commands(event),
    {
        match event {
            Event::KeyEscape => {
                emit(cmds, Command::CursorPrevChar);
                emit(cmds, Command::ChangeModeToNormal);
            },
            Event::KeyReturn => emit(cmds, Command::Commit),
            Event::KeyLeft => emit(cmds, Command::CursorPrevChar),
            Event::KeyRight => emit(cmds, Command::CursorNextChar),
            Event::KeyUp => emit(cmds, Command::HistoryPrev),
            Event::KeyDown => emit(cmds, Command::HistoryNext),
            Event::Char(ch) => emit(cmds, Command::Insert(ch)),
            Event::KeyBackspace => emit(cmds, Command::DeletePrevChar),
            Event::KeyDelete => emit(cmds, Command::DeleteNextChar),
            Event::KeyTab => emit(cmds, Command::TryCompleteFilename),
            Event::Ctrl(c) => match c {
                'w' => emit(cmds, Command::DeletePrevWord),
                'u' => emit(cmds, Command::DeleteLine),
                'd' => emit(cmds, Command::DisplayCompletionCandidate),
                'p' => emit(cmds, Command::CdToParent),
                'o' => emit(cmds, Command::CdUndo),
                'r' => emit(cmds, Command::ChangeModeToSearch),
                'n' => emit(cmds, Command::DuplicateWord),
                _ => {},
            },
        }
    }
}

// ---------------------------------------------------------------- normal

/// The last character search of normal mode, for `;` to repeat.
#[derive(Debug, Clone, Copy, PartialEq, Eq, Structural)]
pub enum LastFind {
    /// No search yet, or the last one was given up.
    Nothing,
    /// `f` and the character: to the right.
    Forward(char),
    /// `F` and the character: to the left.
    Backward(char),
}

#[derive(Debug, Clone, PartialEq, Eq)]
pub struct NormalMode {
    combo: Vec<char>,
    last_find: LastFind,
}

/// Normal mode's state: the keys of an unfinished combination, and the last
/// character search.
pub struct NormalView {
    pub combo: Seq<char>,
    pub last_find: LastFind,
}

impl View for NormalMode {
    type V = NormalView;

    closed spec fn view(&self) -> NormalView {
        NormalView { combo: self.combo@, last_find: self.last_find }
    }
}

/// The combinations that normal mode can be in the middle of: none, `f` or
/// `F`, or an operator `d`, `c`, `y` with at most one key of its text object.
pub open spec fn normal_wf(v: NormalView) -> bool {
    ||| v.combo.len() == 0
    ||| v.combo.len() == 1 && (v.combo[0] == 'f' || v.combo[0] == 'F')
    ||| 1 <= v.combo.len() <= 2 && (v.combo[0] == 'd' || v.combo[0] == 'c' || v.combo[0] == 'y')
}

/// The text from `from` to `to`, both cut to the line.
pub open spec fn slice_of(text: Seq<char>, from: int, to: int) -> Seq<char> {
    let f = if from < text.len() { from } else { text.len() as int };
    let t = if to < text.len() { to } else { text.len() as int };
    if f <= t {
        text.subrange(f, t)
    } else {
        Seq::empty()
    }
}

/// The commands that normal mode answers a character with when no combination
/// is under way.
pub open spec fn normal_idle_char(
    c: char,
    line: LineView,
    last_find: LastFind,
) -> Seq<CommandView> {
    let on_char = 0 <= line.cursor < line.text.len();
    let tail = slice_of(line.text, line.cursor, line.text.len() as int);
    let to_end = CommandView::DeleteRange { from: line.cursor as usize, to: line.text.len() as usize };
    if c == 'i' {
        seq![CommandView::MakeCheckPoint, CommandView::ChangeModeToInsert]
    } else if c == 'v' {
        seq![CommandView::ChangeModeToVisualChar]
    } else if c == 'V' {
        seq![CommandView::ChangeModeToVisualLine]
    } else if c == 'h' {
        seq![CommandView::CursorPrevChar]
    } else if c == 'l' {
        seq![CommandView::CursorNextChar]
    } else if c == 'k' {
        seq![CommandView::HistoryPrev]
    } else if c == 'j' {
        seq![CommandView::HistoryNext]
    } else if c == 'w' {
        seq![CommandView::CursorNextWordHead]
    } else if c == 'W' {
        seq![CommandView::CursorNextWordHeadWide]
    } else if c == 'e' {
        seq![CommandView::CursorNextWordEnd]
    } else if c == 'E' {
        seq![CommandView::CursorNextWordEndWide]
    } else if c == 'b' {
        seq![CommandView::CursorPrevWordHead]
    } else if c == 'B' {
        seq![CommandView::CursorPrevWordHeadWide]
    } else if c == ';' {
        match last_find {
            LastFind::Forward(ch) => seq![CommandView::CursorNextCharMatch(ch)],
            LastFind::Backward(ch) => seq![CommandView::CursorPrevCharMatch(ch)],
            LastFind::Nothing => seq![],
        }
    } else if c == '$' {
        seq![CommandView::CursorEnd]
    } else if c == '^' {
        seq![CommandView::CursorBegin]
    } else if c == '0' {
        seq![CommandView::CursorExact(0)]
    } else if c == 'A' {
        seq![CommandView::MakeCheckPoint, CommandView::ChangeModeToInsert, CommandView::CursorEnd]
    } else if c == 'I' {
        seq![CommandView::MakeCheckPoint, CommandView::ChangeModeToInsert, CommandView::CursorBegin]
    } else if c == 'a' {
        seq![
            CommandView::MakeCheckPoint,
            CommandView::ChangeModeToInsert,
            CommandView::CursorNextChar,
        ]
    } else if c == 's' {
        if on_char {
            seq![
                CommandView::MakeCheckPoint,
                store(seq![line.text[line.cursor]]),
                CommandView::ChangeModeToInsert,
                CommandView::DeleteNextChar,
            ]
        } else {
            seq![
                CommandView::MakeCheckPoint,
                CommandView::ChangeModeToInsert,
                CommandView::DeleteNextChar,
            ]
        }
    } else if c == 'x' {
        if on_char {
            seq![
                CommandView::MakeCheckPoint,
                store(seq![line.text[line.cursor]]),
                CommandView::DeleteNextChar,
            ]
        } else {
            seq![CommandView::MakeCheckPoint, CommandView::DeleteNextChar]
        }
    } else if c == 'D' {
        seq![CommandView::MakeCheckPoint, store(tail), to_end]
    } else if c == 'C' {
        seq![CommandView::MakeCheckPoint, store(tail), CommandView::ChangeModeToInsert, to_end]
    } else if c == 'S' {
        seq![
            CommandView::MakeCheckPoint,
            store(line.text),
            CommandView::DeleteLine,
            CommandView::ChangeModeToInsert,
        ]
    } else if c == 'Y' {
        seq![store(line.text)]
    } else if c == 'P' {
        seq![CommandView::MakeCheckPoint, CommandView::RegisterPastePrev { reg: '"' }]
    } else if c == 'p' {
        seq![CommandView::MakeCheckPoint, CommandView::RegisterPasteNext { reg: '"' }]
    } else if c == 'u' {
        seq![CommandView::Undo]
    } else {
        seq![]
    }
}

/// The commands that normal mode answers a key with when no combination is
/// under way.
pub open spec fn normal_idle(
    ev: Event,
    line: LineView,
    last_find: LastFind,
) -> Seq<CommandView> {
    match ev {
        Event::KeyReturn => seq![CommandView::Commit],
        Event::KeyLeft => seq![CommandView::CursorPrevChar],
        Event::KeyRight => seq![CommandView::CursorNextChar],
        Event::KeyUp => seq![CommandView::HistoryPrev],
        Event::KeyDown => seq![CommandView::HistoryNext],
        Event::KeyTab => seq![CommandView::CdRedo],
        Event::Ctrl(c) => if c == 'r' {
            seq![CommandView::Redo]
        } else if c == 'o' {
            seq![CommandView::CdUndo]
        } else if c == 'p' {
            seq![CommandView::CdToParent]
        } else {
            seq![]
        },
        Event::Char(c) => normal_idle_char(c, line, last_find),
        _ => seq![],
    }
}

/// The key that opens a combination in normal mode, if the event is one.
pub open spec fn normal_prefix(ev: Event) -> Seq<char> {
    match ev {
        Event::Char(c) => if c == 'f' || c == 'F' || c == 'd' || c == 'c' || c == 'y' {
            seq![c]
        } else {
            seq![]
        },
        _ => seq![],
    }
}

/// The commands of an operator (`d`, `c` or `y`) on the whole line.
pub open spec fn operator_on_line(op: char, line: LineView) -> Seq<CommandView> {
    if op == 'd' {
        seq![CommandView::MakeCheckPoint, store(line.text), CommandView::DeleteLine]
    } else if op == 'c' {
        seq![
            CommandView::MakeCheckPoint,
            store(line.text),
            CommandView::DeleteLine,
            CommandView::ChangeModeToInsert,
        ]
    } else {
        seq![store(line.text)]
    }
}

/// The commands of an operator (`d`, `c` or `y`) on the text object that the
/// keys `sel` and `obj` name; none where they name no text object.
pub open spec fn operator_on_object(op: char, sel: char, obj: char, line: LineView) -> Seq<
    CommandView,
> {
    match vim_text_object(sel, obj) {
        None => seq![],
        Some((selector, object)) => {
            let (from, to) = text_range(line, selector, object);
            let selected = line.text.subrange(from, to);
            let delete = CommandView::DeleteRange { from: from as usize, to: to as usize };
            if op == 'd' {
                seq![CommandView::MakeCheckPoint, store(selected), delete]
            } else if op == 'c' {
                seq![
                    CommandView::MakeCheckPoint,
                    store(selected),
                    delete,
                    CommandView::ChangeModeToInsert,
                ]
            } else {
                seq![store(selected), CommandView::CursorExact(from as usize)]
            }
        },
    }
}

/// Normal mode's answer to a key: its next state and the commands.
pub open spec fn normal_step(v: NormalView, ev: Event, line: LineView) -> (
    NormalView,
    Seq<CommandView>,
) {
    let idle = NormalView { combo: seq![], last_find: v.last_find };
    if v.combo.len() == 0 {
        (
            NormalView { combo: normal_prefix(ev), last_find: v.last_find },
            normal_idle(ev, line, v.last_find),
        )
    } else if v.combo[0] == 'f' || v.combo[0] == 'F' {
        match ev {
            Event::Char(ch) => if v.combo[0] == 'f' {
                (
                    NormalView { combo: seq![], last_find: LastFind::Forward(ch) },
                    seq![CommandView::CursorNextCharMatch(ch)],
                )
            } else {
                (
                    NormalView { combo: seq![], last_find: LastFind::Backward(ch) },
                    seq![CommandView::CursorPrevCharMatch(ch)],
                )
            },
            _ => (NormalView { combo: seq![], last_find: LastFind::Nothing }, seq![]),
        }
    } else if v.combo.len() == 1 && ev == Event::Char(v.combo[0]) {
        (idle, operator_on_line(v.combo[0], line))
    } else {
        match ev {
            Event::Char(ch) => if v.combo.len() == 1 {
                (NormalView { combo: v.combo.push(ch), last_find: v.last_find }, seq![])
            } else {
                (idle, operator_on_object(v.combo[0], v.combo[1], ch, line))
            },
            _ => (idle, seq![]),
        }
    }
}

fn char_string(ch: char) -> (s: String)
    ensures
        s@ == seq![ch],
{
    let mut s = String::new();
    s.push(ch);
    assert(s@ =~= seq![ch]);
    s
}

impl NormalMode {
    pub open spec fn wf(&self) -> bool {
        normal_wf(self@)
    }

    pub fn new() -> (r: Self)
        ensures
            r.wf(),
            r@.combo == Seq::<char>::empty(),
            r@.last_find == LastFind::Nothing,
    {
        NormalMode { combo: Vec::new(), last_find: LastFind::Nothing }
    }

    fn process_idle_char(&mut self, c: char, line: &Line, cmds: &mut Vec<Command>)
        requires
            old(self)@.combo.len() == 0,
            line.wf(),
        ensures
            final(self)@.last_find == old(self)@.last_find,
            final(self)@.combo == normal_prefix(Event::Char(c)),
            views(final(cmds)@) =~= views(old(cmds)@) + normal_idle_char(
                c,
                line@,
                old(self)@.last_find,
            ),
    {
        proof {
            line.lemma_wf();
        }
        match c {
            'i' => {
                emit(cmds, Command::MakeCheckPoint);
                emit(cmds, Command::ChangeModeToInsert);
            },
            'v' => emit(cmds, Command::ChangeModeToVisualChar),
            'V' => emit(cmds, Command::ChangeModeToVisualLine),
            'h' => emit(cmds, Command::CursorPrevChar),
            'l' => emit(cmds, Command::CursorNextChar),
            'k' => emit(cmds, Command::HistoryPrev),
            'j' => emit(cmds, Command::HistoryNext),
            'w' => emit(cmds, Command::CursorNextWordHead),
            'W' => emit(cmds, Command::CursorNextWordHeadWide),
            'e' => emit(cmds, Command::CursorNextWordEnd),
            'E' => emit(cmds, Command::CursorNextWordEndWide),
            'b' => emit(cmds, Command::CursorPrevWordHead),
            'B' => emit(cmds, Command::CursorPrevWordHeadWide),
            'f' | 'F' | 'd' | 'c' | 'y' => {
                self.combo.push(c);
                assert(self.combo@ =~= seq![c]);
            },
            ';' => match self.last_find {
                LastFind::Forward(ch) => emit(cmds, Command::CursorNextCharMatch(ch)),
                LastFind::Backward(ch) => emit(cmds, Command::CursorPrevCharMatch(ch)),
                LastFind::Nothing => {},
            },
            '$' => emit(cmds, Command::CursorEnd),
            '^' => emit(cmds, Command::CursorBegin),
            '0' => emit(cmds, Command::CursorExact(0)),
            'A' => {
                emit(cmds, Command::MakeCheckPoint);
                emit(cmds, Command::ChangeModeToInsert);
                emit(cmds, Command::CursorEnd);
            },
            'I' => {
                emit(cmds, Command::MakeCheckPoint);
                emit(cmds, Command::ChangeModeToInsert);
                emit(cmds, Command::CursorBegin);
            },
            'a' => {
                emit(cmds, Command::MakeCheckPoint);
                emit(cmds, Command::ChangeModeToInsert);
                emit(cmds, Command::CursorNextChar);
            },
            's' => {
                emit(cmds, Command::MakeCheckPoint);
                if let Some(ch) = line.char_at(line.cursor()) {
                    emit_store(cmds, char_string(ch));
                }
                emit(cmds, Command::ChangeModeToInsert);
                emit(cmds, Command::DeleteNextChar);
            },
            'x' => {
                emit(cmds, Command::MakeCheckPoint);
                if let Some(ch) = line.char_at(line.cursor()) {
                    emit_store(cmds, char_string(ch));
                }
                emit(cmds, Command::DeleteNextChar);
            },
            'D' => {
                emit(cmds, Command::MakeCheckPoint);
                let from = line.cursor();
                let to = line.len();
                emit_store(cmds, line.substring(from, to));
                emit(cmds, Command::DeleteRange { from, to });
            },
            'C' => {
                emit(cmds, Command::MakeCheckPoint);
                let from = line.cursor();
                let to = line.len();
                emit_store(cmds, line.substring(from, to));
                emit(cmds, Command::ChangeModeToInsert);
                emit(cmds, Command::DeleteRange { from, to });
            },
            'S' => {
                emit(cmds, Command::MakeCheckPoint);
                emit_store(cmds, line.to_string());
                emit(cmds, Command::DeleteLine);
                emit(cmds, Command::ChangeModeToInsert);
            },
            'Y' => emit_store(cmds, line.to_string()),
            'P' => {
                emit(cmds, Command::MakeCheckPoint);
                emit(cmds, Command::RegisterPastePrev { reg: '"' });
            },
            'p' => {
                emit(cmds, Command::MakeCheckPoint);
                emit(cmds, Command::RegisterPasteNext { reg: '"' });
            },
            'u' => emit(cmds, Command::Undo),
            _ => {},
        }
    }

    fn process_idle(&mut self, event: Event, line: &Line, cmds: &mut Vec<Command>)
        requires
            old(self)@.combo.len() == 0,
            line.wf(),
        ensures
            final(self)@.last_find == old(self)@.last_find,
            final(self)@.combo == normal_prefix(event),
            views(final(cmds)@) =~= views(old(cmds)@) + normal_idle(
                event,
                line@,
                old(self)@.last_find,
            ),
    {
        match event {
            Event::KeyReturn => emit(cmds, Command::Commit),
            Event::KeyLeft => emit(cmds, Command::CursorPrevChar),
            Event::KeyRight => emit(cmds, Command::CursorNextChar),
            Event::KeyUp => emit(cmds, Command::HistoryPrev),
            Event::KeyDown => emit(cmds, Command::HistoryNext),
            Event::KeyTab => emit(cmds, Command::CdRedo),
            Event::Ctrl(c) => match c {
                'r' => emit(cmds, Command::Redo),
                'o' => emit(cmds, Command::CdUndo),
                'p' => emit(cmds, Command::CdToParent),
                _ => {},
            },
            Event::Char(c) => self.process_idle_char(c, line, cmds),
            _ => {},
        }
    }

    fn process_line_operator(&mut self, line: &Line, cmds: &mut Vec<Command>)
        requires
            old(self).wf(),
            old(self)@.combo.len() == 1,
            old(self)@.combo[0] == 'd' || old(self)@.combo[0] == 'c' || old(self)@.combo[0] == 'y',
        ensures
            final(self)@.last_find == old(self)@.last_find,
            final(self)@.combo == Seq::<char>::empty(),
            views(final(cmds)@) =~= views(old(cmds)@) + operator_on_line(
                old(self)@.combo[0],
                line@,
            ),
    {
        let op = self.combo[0];
        if op == 'd' {
            emit(cmds, Command::MakeCheckPoint);
            emit_store(cmds, line.to_string());
            emit(cmds, Command::DeleteLine);
        } else if op == 'c' {
            emit(cmds, Command::MakeCheckPoint);
            emit_store(cmds, line.to_string());
            emit(cmds, Command::DeleteLine);
            emit(cmds, Command::ChangeModeToInsert);
        } else {
            emit_store(cmds, line.to_string());
        }
        self.combo.clear();
    }

    pub fn process_text_object(&mut self, event: Event, line: &Line, cmds: &mut Vec<Command>)
        requires
            old(self).wf(),
            1 <= old(self)@.combo.len(),
            old(self)@.combo[0] == 'd' || old(self)@.combo[0] == 'c' || old(self)@.combo[0] == 'y',
            line.wf(),
        ensures
            final(self).wf(),
            final(self)@.last_find == old(self)@.last_find,
            match event {
                Event::Char(ch) => if old(self)@.combo.len() == 1 {
                    final(self)@.combo == old(self)@.combo.push(ch) && final(cmds)@ == old(cmds)@
                } else {
                    final(self)@.combo == Seq::<char>::empty() && views(final(cmds)@) =~= views(
                        old(cmds)@,
                    ) + operator_on_object(old(self)@.combo[0], old(self)@.combo[1], ch, line@)
                },
                _ => final(self)@.combo == Seq::<char>::empty() && final(cmds)@ == old(cmds)@,
            },
    {
        match event {
            Event::Char(ch) => {
                self.combo.push(ch);
                if self.combo.len() < 3 {
                    return;
                }
            },
            _ => {
                self.combo.clear();
                return;
            },
        }
        if let Some((sel, obj)) = parse_vim_text_object(self.combo[1], self.combo[2]) {
            let (from, to) = find_range(line, sel, obj);
            let selected = line.substring(from, to);
            let op = self.combo[0];
            if op == 'd' {
                emit(cmds, Command::MakeCheckPoint);
                emit_store(cmds, selected);
                emit(cmds, Command::DeleteRange { from, to });
            } else if op == 'c' {
                emit(cmds, Command::MakeCheckPoint);
                emit_store(cmds, selected);
                emit(cmds, Command::DeleteRange { from, to });
                emit(cmds, Command::ChangeModeToInsert);
            } else {
                emit_store(cmds, selected);
                emit(cmds, Command::CursorExact(from));
            }
        }
        self.combo.clear();
    }

    pub fn process_event(&mut self, event: Event, line: &Line, cmds: &mut Vec<Command>)
        requires
            old(self).wf(),
            line.wf(),
        ensures
            final(self).wf(),
            final(self)@ == normal_step(old(self)@, event, line@).0,
            views(final(cmds)@) =~= views(old(cmds)@) + normal_step(old(self)@, event, line@).1,
    {
        if self.combo.len() == 0 {
            self.process_idle(event, line, cmds);
            return;
        }
        let first = self.combo[0];
        if first == 'f' || first == 'F' {
            match event {
                Event::Char(ch) => {
                    if first == 'f' {
                        self.last_find = LastFind::Forward(ch);
                        emit(cmds, Command::CursorNextCharMatch(ch));
                    } else {
                        self.last_find = LastFind::Backward(ch);
                        emit(cmds, Command::CursorPrevCharMatch(ch));
                    }
                },
                _ => {
                    self.last_find = LastFind::Nothing;
                },
            }
            self.combo.clear();
        } else if self.combo.len() == 1 && event == Event::Char(first) {
            self.process_line_operator(line, cmds);
        } else {
            self.process_text_object(event, line, cmds);
        }
    }
}

// ---------------------------------------------------------------- search

#[derive(Debug, Clone, PartialEq)]
pub struct SearchMode {
    query: Line,
}

impl View for SearchMode {
    type V = LineView;

    /// Search mode's state is the query, a line of its own.
    closed spec fn view(&self) -> LineView {
        self.query@
    }
}

/// The command that searches the history for a query.
pub open spec fn search_for(query: LineView, reset: bool) -> Seq<CommandView> {
    seq![CommandView::HistorySearch { query: query.text, reset }]
}

/// Search mode's answer to a key: the query afterwards and the commands.
pub open spec fn search_step(q: LineView, ev: Event) -> (LineView, Seq<CommandView>) {
    let leave = CommandView::ChangeModeToInsert;
    match ev {
        Event::KeyEscape | Event::KeyTab => (q, seq![leave]),
        Event::KeyReturn => (q, seq![leave, CommandView::Commit]),
        Event::KeyLeft => (q, seq![leave, CommandView::CursorPrevChar]),
        Event::KeyRight => (q, seq![leave, CommandView::CursorNextChar]),
        Event::KeyUp => (q, seq![leave, CommandView::HistoryPrev]),
        Event::KeyDown => (q, seq![leave, CommandView::HistoryNext]),
        Event::Char(ch) => {
            let q2 = LineView { text: q.text.insert(q.cursor, ch), cursor: q.cursor + 1 };
            (q2, search_for(q2, true))
        },
        Event::KeyBackspace => {
            let q2 = if q.cursor > 0 {
                LineView { text: q.text.remove(q.cursor - 1), cursor: q.cursor - 1 }
            } else {
                q
            };
            (q2, search_for(q2, true))
        },
        Event::Ctrl(c) => if c == 'u' || c == 'd' {
            (q, seq![leave])
        } else if c == 'w' {
            let q2 = crate::line_editor::line::word_deleted(q);
            (q2, search_for(q2, true))
        } else if c == 'r' {
            (q, search_for(q, false))
        } else {
            (q, seq![])
        },
        _ => (q, seq![]),
    }
}

impl SearchMode {
    pub closed spec fn wf(&self) -> bool {
        self.query.wf()
    }

    pub fn new() -> (r: Self)
        ensures
            r.wf(),
            r@.text == Seq::<char>::empty(),
            r@.cursor == 0,
    {
        Self { query: Line::new() }
    }

    pub fn query(&self) -> (r: String)
        ensures
            r@ == self@.text,
    {
        self.query.to_string()
    }

    /// The number of characters of the query.
    pub fn query_len(&self) -> (r: usize)
        ensures
            r == self@.text.len(),
    {
        self.query.len()
    }

    pub fn process_event(&mut self, event: Event, _line: &Line, cmds: &mut Vec<Command>)
        requires
            old(self).wf(),
            old(self)@.text.len() < usize::MAX,
        ensures
            final(self).wf(),
            final(self)@ == search_step(old(self)@, event).0,
            views(final(cmds)@) =~= views(old(cmds)@) + search_step(old(self)@, event).1,
    {
        match event {
            Event::KeyEscape | Event::KeyTab => emit(cmds, Command::ChangeModeToInsert),
            Event::KeyReturn => {
                emit(cmds, Command::ChangeModeToInsert);
                emit(cmds, Command::Commit);
            },
            Event::KeyLeft => {
                emit(cmds, Command::ChangeModeToInsert);
                emit(cmds, Command::CursorPrevChar);
            },
            Event::KeyRight => {
                emit(cmds, Command::ChangeModeToInsert);
                emit(cmds, Command::CursorNextChar);
            },
            Event::KeyUp => {
                emit(cmds, Command::ChangeModeToInsert);
                emit(cmds, Command::HistoryPrev);
            },
            Event::KeyDown => {
                emit(cmds, Command::ChangeModeToInsert);
                emit(cmds, Command::HistoryNext);
            },
            Event::Char(ch) => {
                self.query.insert(ch);
                emit(cmds, Command::HistorySearch { query: self.query.to_string(), reset: true });
            },
            Event::KeyBackspace => {
                self.query.delete_prev();
                emit(cmds, Command::HistorySearch { query: self.query.to_string(), reset: true });
            },
            Event::Ctrl(c) => match c {
                'u' | 'd' => emit(cmds, Command::ChangeModeToInsert),
                'w' => {
                    self.query.delete_word();
                        emit(
                        cmds,
                        Command::HistorySearch { query: self.query.to_string(), reset: true },
                    );
                },
                'r' => {
                    emit(
                        cmds,
                        Command::HistorySearch { query: self.query.to_string(), reset: false },
                    );
                },
                _ => {},
            },
            _ => {},
        }
    }
}

// ---------------------------------------------------------------- visual

#[derive(Debug, Clone, PartialEq, Eq, Default)]
pub struct VisualMode {
    origin: Option<usize>,
    combo: Vec<char>,
}

/// Visual mode's state: where the selection started (`None` when whole lines
/// are selected), and the selector key of an unfinished text object.
pub struct VisualView {
    pub origin: Option<usize>,
    pub combo: Seq<char>,
}

impl View for VisualMode {
    type V = VisualView;

    closed spec fn view(&self) -> VisualView {
        VisualView { origin: self.origin, combo: self.combo@ }
    }
}

/// The selected range `[from, to)` between the origin and the cursor, both
/// included, cut to the line.
pub open spec fn visual_range(origin: int, cursor: int, len: int) -> (int, int) {
    let lo = if origin < cursor { origin } else { cursor };
    let hi = if origin < cursor { cursor } else { origin };
    (if lo < len { lo } else { len }, if hi < len { hi + 1 } else { len })
}

/// The commands that store the selection and, with `delete`, take it out.
/// Without an origin the whole line is selected.
pub open spec fn on_selection(origin: Option<usize>, line: LineView, delete: bool) -> Seq<
    CommandView,
> {
    match origin {
        None => if delete {
            seq![store(line.text), CommandView::DeleteLine]
        } else {
            seq![store(line.text)]
        },
        Some(o) => {
            let (from, to) = visual_range(o as int, line.cursor, line.text.len() as int);
            let keep = seq![store(line.text.subrange(from, to))];
            if delete {
                keep + seq![CommandView::DeleteRange { from: from as usize, to: to as usize }]
            } else {
                keep
            }
        },
    }
}

/// The commands that visual mode answers a character with when no text object
/// is under way.
pub open spec fn visual_idle_char(c: char, origin: Option<usize>, line: LineView) -> Seq<
    CommandView,
> {
    let leave = seq![CommandView::ChangeModeToNormal];
    if c == 'v' {
        leave
    } else if c == 'h' {
        seq![CommandView::CursorPrevChar]
    } else if c == 'l' {
        seq![CommandView::CursorNextChar]
    } else if c == 'w' {
        seq![CommandView::CursorNextWordHead]
    } else if c == 'W' {
        seq![CommandView::CursorNextWordHeadWide]
    } else if c == 'e' {
        seq![CommandView::CursorNextWordEnd]
    } else if c == 'E' {
        seq![CommandView::CursorNextWordEndWide]
    } else if c == 'b' {
        seq![CommandView::CursorPrevWordHead]
    } else if c == 'B' {
        seq![CommandView::CursorPrevWordHeadWide]
    } else if c == 'o' {
        match origin {
            Some(o) => seq![CommandView::CursorExact(o)],
            None => seq![],
        }
    } else if c == '$' {
        seq![CommandView::CursorEnd]
    } else if c == '^' {
        seq![CommandView::CursorBegin]
    } else if c == '0' {
        seq![CommandView::CursorExact(0)]
    } else if c == 'D' {
        seq![CommandView::MakeCheckPoint, store(line.text), CommandView::DeleteLine] + leave
    } else if c == 'C' || c == 'S' {
        seq![
            CommandView::MakeCheckPoint,
            store(line.text),
            CommandView::ChangeModeToInsert,
            CommandView::DeleteLine,
        ]
    } else if c == 'Y' {
        seq![store(line.text)] + leave
    } else if c == 'd' || c == 'x' {
        seq![CommandView::MakeCheckPoint] + on_selection(origin, line, true) + leave
    } else if c == 'c' || c == 's' {
        seq![CommandView::MakeCheckPoint, CommandView::ChangeModeToInsert] + on_selection(
            origin,
            line,
            true,
        )
    } else if c == 'y' {
        on_selection(origin, line, false) + leave
    } else {
        seq![]
    }
}

/// Visual mode's answer to a key: its next state and the commands.
pub open spec fn visual_step(v: VisualView, ev: Event, line: LineView) -> (
    VisualView,
    Seq<CommandView>,
) {
    let idle = VisualView { origin: v.origin, combo: seq![] };
    if v.combo.len() == 0 {
        match ev {
            Event::KeyEscape => (v, seq![CommandView::ChangeModeToNormal]),
            Event::KeyReturn => (v, seq![CommandView::Commit]),
            Event::KeyLeft => (v, seq![CommandView::CursorPrevChar]),
            Event::KeyRight => (v, seq![CommandView::CursorNextChar]),
            Event::Char(c) => if c == 'i' || c == 'a' {
                (VisualView { origin: v.origin, combo: seq![c] }, seq![])
            } else if c == 'o' && v.origin is Some {
                (
                    VisualView { origin: Some(line.cursor as usize), combo: v.combo },
                    visual_idle_char(c, v.origin, line),
                )
            } else {
                (v, visual_idle_char(c, v.origin, line))
            },
            _ => (v, seq![]),
        }
    } else {
        match ev {
            Event::Char(ch) => match vim_text_object(v.combo[0], ch) {
                None => (idle, seq![]),
                Some((selector, object)) => {
                    let (from, to) = text_range(line, selector, object);
                    if to > from {
                        (
                            VisualView { origin: Some(from as usize), combo: seq![] },
                            seq![CommandView::CursorExact((to - 1) as usize)],
                        )
                    } else {
                        (idle, seq![])
                    }
                },
            },
            _ => (idle, seq![]),
        }
    }
}

impl VisualMode {
    /// At most the selector key of a text object is pending.
    pub open spec fn wf(&self) -> bool {
        self@.combo.len() <= 1
    }

    pub fn new_char(origin: usize) -> (r: Self)
        ensures
            r.wf(),
            r@.origin == Some(origin),
            r@.combo == Seq::<char>::empty(),
    {
        Self { origin: Some(origin), combo: Vec::new() }
    }

    pub fn new_line() -> (r: Self)
        ensures
            r.wf(),
            r@.origin == None::<usize>,
            r@.combo == Seq::<char>::empty(),
    {
        Self { origin: None, combo: Vec::new() }
    }

    pub fn origin(&self) -> (r: Option<usize>)
        ensures
            r == self@.origin,
    {
        self.origin
    }

    pub fn is_line_mode(&self) -> (r: bool)
        ensures
            r == (self@.origin is None),
    {
        self.origin.is_none()
    }

    pub fn process_text_object(&mut self, event: Event, line: &Line, cmds: &mut Vec<Command>)
        requires
            old(self)@.combo.len() == 1,
            line.wf(),
        ensures
            final(self).wf(),
            final(self)@ == visual_step(old(self)@, event, line@).0,
            views(final(cmds)@) =~= views(old(cmds)@) + visual_step(old(self)@, event, line@).1,
    {
        match event {
            Event::Char(ch) => {
                self.combo.push(ch);
            },
            _ => {
                self.combo.clear();
                return;
            },
        }
        if let Some((sel, obj)) = parse_vim_text_object(self.combo[0], self.combo[1]) {
            let (from, to) = find_range(line, sel, obj);
            if to > from {
                self.origin = Some(from);
                emit(cmds, Command::CursorExact(to - 1));
            }
        }
        self.combo.clear();
    }

    fn emit_selection(&self, line: &Line, delete: bool, cmds: &mut Vec<Command>)
        requires
            line.wf(),
        ensures
            views(final(cmds)@) =~= views(old(cmds)@) + on_selection(self@.origin, line@, delete),
    {
        proof {
            line.lemma_wf();
        }
        match self.origin {
            None => {
                emit_store(cmds, line.to_string());
                if delete {
                    emit(cmds, Command::DeleteLine);
                }
            },
            Some(o) => {
                let cursor = line.cursor();
                let len = line.len();
                let lo = if o < cursor {
                    o
                } else {
                    cursor
                };
                let hi = if o < cursor {
                    cursor
                } else {
                    o
                };
                let from = if lo < len {
                    lo
                } else {
                    len
                };
                let to = if hi < len {
                    hi + 1
                } else {
                    len
                };
                emit_store(cmds, line.substring(from, to));
                if delete {
                    emit(cmds, Command::DeleteRange { from, to });
                }
            },
        }
    }

    fn process_idle_char(&mut self, c: char, line: &Line, cmds: &mut Vec<Command>)
        requires
            old(self)@.combo.len() == 0,
            c != 'i',
            c != 'a',
            line.wf(),
        ensures
            final(self).wf(),
            final(self)@ == visual_step(old(self)@, Event::Char(c), line@).0,
            views(final(cmds)@) =~= views(old(cmds)@) + visual_idle_char(
                c,
                old(self)@.origin,
                line@,
            ),
    {
        match c {
            'v' => emit(cmds, Command::ChangeModeToNormal),
            'h' => emit(cmds, Command::CursorPrevChar),
            'l' => emit(cmds, Command::CursorNextChar),
            'w' => emit(cmds, Command::CursorNextWordHead),
            'W' => emit(cmds, Command::CursorNextWordHeadWide),
            'e' => emit(cmds, Command::CursorNextWordEnd),
            'E' => emit(cmds, Command::CursorNextWordEndWide),
            'b' => emit(cmds, Command::CursorPrevWordHead),
            'B' => emit(cmds, Command::CursorPrevWordHeadWide),
            'o' => {
                if let Some(o) = self.origin {
                    emit(cmds, Command::CursorExact(o));
                    self.origin = Some(line.cursor());
                }
            },
            '$' => emit(cmds, Command::CursorEnd),
            '^' => emit(cmds, Command::CursorBegin),
            '0' => emit(cmds, Command::CursorExact(0)),
            'D' => {
                emit(cmds, Command::MakeCheckPoint);
                emit_store(cmds, line.to_string());
                emit(cmds, Command::DeleteLine);
                emit(cmds, Command::ChangeModeToNormal);
            },
            'C' | 'S' => {
                emit(cmds, Command::MakeCheckPoint);
                emit_store(cmds, line.to_string());
                emit(cmds, Command::ChangeModeToInsert);
                emit(cmds, Command::DeleteLine);
            },
            'Y' => {
                emit_store(cmds, line.to_string());
                emit(cmds, Command::ChangeModeToNormal);
            },
            'd' | 'x' => {
                emit(cmds, Command::MakeCheckPoint);
                self.emit_selection(line, true, cmds);
                emit(cmds, Command::ChangeModeToNormal);
            },
            'c' | 's' => {
                emit(cmds, Command::MakeCheckPoint);
                emit(cmds, Command::ChangeModeToInsert);
                self.emit_selection(line, true, cmds);
            },
            'y' => {
                self.emit_selection(line, false, cmds);
                emit(cmds, Command::ChangeModeToNormal);
            },
            _ => {},
        }
    }

    pub fn process_event(&mut self, event: Event, line: &Line, cmds: &mut Vec<Command>)
        requires
            old(self).wf(),
            line.wf(),
        ensures
            final(self).wf(),
            final(self)@ == visual_step(old(self)@, event, line@).0,
            views(final(cmds)@) =~= views(old(cmds)@) + visual_step(old(self)@, event, line@).1,
    {
        if self.combo.len() > 0 {
            self.process_text_object(event, line, cmds);
            return;
        }
        match event {
            Event::KeyEscape => emit(cmds, Command::ChangeModeToNormal),
            Event::KeyReturn => emit(cmds, Command::Commit),
            Event::KeyLeft => emit(cmds, Command::CursorPrevChar),
            Event::KeyRight => emit(cmds, Command::CursorNextChar),
            Event::Char(c) => {
                if c == 'i' || c == 'a' {
                    self.combo.push(c);
                    assert(self.combo@ =~= seq![c]);
                } else {
                    self.process_idle_char(c, line, cmds);
                }
            },
            _ => {},
        }
    }
}

// ---------------------------------------------------------------- mode

#[derive(Debug, Clone, PartialEq)]
pub enum Mode {
    Insert(InsertMode),
    Search(SearchMode),
    Normal(NormalMode),
    Visual(VisualMode),
}

/// A mode with its state.
pub enum ModeView {
    Insert,
    Search(LineView),
    Normal(NormalView),
    Visual(VisualView),
}

impl View for Mode {
    type V = ModeView;

    open spec fn view(&self) -> ModeView {
        match self {
            Mode::Insert(_) => ModeView::Insert,
            Mode::Search(m) => ModeView::Search(m@),
            Mode::Normal(m) => ModeView::Normal(m@),
            Mode::Visual(m) => ModeView::Visual(m@),
        }
    }
}

impl Mode {
    pub open spec fn wf(&self) -> bool {
        match self {
            Mode::Insert(_) => true,
            Mode::Search(m) => m.wf(),
            Mode::Normal(m) => m.wf(),
            Mode::Visual(m) => m.wf(),
        }
    }

    /// Whether the cursor may stand behind the last character: in insert and
    /// in search mode.
    pub fn is_insert(&self) -> (r: bool)
        ensures
            r == (self is Insert || self is Search),
    {
        match self {
            Mode::Insert(_) | Mode::Search(_) => true,
            _ => false,
        }
    }
}

} // verus!
