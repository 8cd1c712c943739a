//! The editor's state and its two steps: a key event becomes commands, and a
//! command changes the state. Whoever drives the editor reads the keys, shows
//! the frames and lists the directories.

use vstd::prelude::*;
use crate::chars::{chars_of, find_text, first_occurrence, push_str, string_of};
use crate::completion::{texts, CommandCompletion, FileQuery};
use crate::line_editor::command::{views, Command, CommandView, EditError, Event};
use crate::line_editor::engine::{
    completion_words, previous, rotated, split_words, updated, CompletionEngine, EngineView,
};
use crate::line_editor::line::{
    duplicated, fixed_cursor, last_word_of, next_char_match, next_word_end, next_word_head,
    prev_char_match, prev_word_head, skip_fwd, with_inserted, without_range, word_deleted, CharTest,
    Line, LineView,
};
use crate::line_editor::modes::{
    insert_commands, normal_step, search_step, visual_step, InsertMode, LastFind, Mode, ModeView,
    NormalMode, NormalView, SearchMode, VisualMode, VisualView,
};

verus! {

/// A named register and the text stored in it.
pub struct Register {
    pub name: char,
    pub text: String,
}

pub struct RegisterView {
    pub name: char,
    pub text: Seq<char>,
}

impl View for Register {
    type V = RegisterView;

    open spec fn view(&self) -> RegisterView {
        RegisterView { name: self.name, text: self.text@ }
    }
}

/// The index of the register of a name: the first one of that name.
pub open spec fn register_index(rs: Seq<RegisterView>, name: char) -> Option<int>
    decreases rs.len(),
{
    if rs.len() == 0 {
        None
    } else {
        match register_index(rs.drop_last(), name) {
            Some(i) => Some(i),
            None => if rs.last().name == name {
                Some(rs.len() - 1)
            } else {
                None
            },
        }
    }
}

/// The index that `register_index` gives is in the list and has that name.
pub proof fn lemma_register_index(rs: Seq<RegisterView>, name: char)
    ensures
        match register_index(rs, name) {
            Some(i) => 0 <= i < rs.len() && rs[i].name == name,
            None => forall|k: int| 0 <= k < rs.len() ==> (#[trigger] rs[k]).name != name,
        },
    decreases rs.len(),
{
    if rs.len() > 0 {
        lemma_register_index(rs.drop_last(), name);
        match register_index(rs.drop_last(), name) {
            Some(i) => {
                assert(rs.drop_last()[i] == rs[i]);
            },
            None => {
                assert forall|k: int| 0 <= k < rs.len() - 1 implies (#[trigger] rs[k]).name
                    != name by {
                    assert(rs.drop_last()[k] == rs[k]);
                }
            },
        }
    }
}

/// The text of a register, if it was ever stored.
pub open spec fn register_text(rs: Seq<RegisterView>, name: char) -> Option<Seq<char>> {
    match register_index(rs, name) {
        Some(i) => Some(rs[i].text),
        None => None,
    }
}

/// The registers after a text was stored under a name.
pub open spec fn stored(rs: Seq<RegisterView>, name: char, text: Seq<char>) -> Seq<RegisterView> {
    match register_index(rs, name) {
        Some(i) => rs.update(i, RegisterView { name, text }),
        None => rs.push(RegisterView { name, text }),
    }
}

/// What the driver is to do after a command.
pub enum Outcome {
    /// Go on with the next command.
    Continue,
    /// The line is committed: drop the commands that are left and take the
    /// line with `commit`.
    Commit,
    /// End the reading with this text as the line read.
    Leave(String),
    /// Show this text below the line, then go on.
    Show(String),
}

pub enum OutcomeView {
    Continue,
    Commit,
    Leave(Seq<char>),
    Show(Seq<char>),
}

impl View for Outcome {
    type V = OutcomeView;

    open spec fn view(&self) -> OutcomeView {
        match self {
            Outcome::Continue => OutcomeView::Continue,
            Outcome::Commit => OutcomeView::Commit,
            Outcome::Leave(s) => OutcomeView::Leave(s@),
            Outcome::Show(s) => OutcomeView::Show(s@),
        }
    }
}

/// The editor's state.
pub struct EditorView {
    pub mode: ModeView,
    pub registers: Seq<RegisterView>,
    /// The committed lines, the newest last.
    pub history: Seq<LineView>,
    /// The lines being edited: the new one last, before it the copies of
    /// history lines that were visited.
    pub temporal: Seq<LineView>,
    /// How many lines back from the new one the current line is.
    pub back: int,
    /// Where the history search goes on.
    pub search_start: int,
    pub undo: Seq<LineView>,
    pub redo: Seq<LineView>,
    /// Whether the last command was one of the two completion commands.
    pub last_was_completion: bool,
    pub engine: EngineView,
}

/// The views of a sequence of lines.
pub open spec fn line_views(ls: Seq<Line>) -> Seq<LineView> {
    ls.map_values(|l: Line| l@)
}

/// Every line of the sequence is well formed.
pub open spec fn all_wf(ls: Seq<Line>) -> bool {
    forall|i: int| 0 <= i < ls.len() ==> (#[trigger] ls[i]).wf()
}

/// The index of the current line among the lines being edited.
pub open spec fn cur_index(v: EditorView) -> int {
    v.temporal.len() - 1 - v.back
}

/// The current line.
pub open spec fn cur(v: EditorView) -> LineView {
    v.temporal[cur_index(v)]
}

/// The state with another current line.
pub open spec fn set_cur(v: EditorView, l: LineView) -> EditorView {
    EditorView { temporal: v.temporal.update(cur_index(v), l), ..v }
}

/// What a command that only touches the line makes of it; `None` for the
/// other commands.
pub open spec fn line_edit(l: LineView, c: CommandView) -> Option<LineView> {
    let s = l.text;
    let n = s.len() as int;
    let at = |cursor: int| Some(LineView { text: s, cursor });
    match c {
        CommandView::CursorPrevChar => at(
            if l.cursor > 0 {
                l.cursor - 1
            } else {
                0
            },
        ),
        CommandView::CursorNextChar => at(
            if l.cursor < n {
                l.cursor + 1
            } else {
                l.cursor
            },
        ),
        CommandView::CursorPrevCharMatch(t) => at(prev_char_match(s, l.cursor, t)),
        CommandView::CursorNextCharMatch(t) => at(next_char_match(s, l.cursor, t)),
        CommandView::CursorPrevWordHead => at(prev_word_head(s, l.cursor, false)),
        CommandView::CursorPrevWordHeadWide => at(prev_word_head(s, l.cursor, true)),
        CommandView::CursorNextWordHead => at(next_word_head(s, l.cursor, false)),
        CommandView::CursorNextWordHeadWide => at(next_word_head(s, l.cursor, true)),
        CommandView::CursorNextWordEnd => at(next_word_end(s, l.cursor, false)),
        CommandView::CursorNextWordEndWide => at(next_word_end(s, l.cursor, true)),
        CommandView::CursorEnd => at(n),
        CommandView::CursorBegin => at(skip_fwd(s, 0, n, CharTest::Blank)),
        CommandView::CursorExact(p) => at(
            if p <= n {
                p as int
            } else {
                n
            },
        ),
        CommandView::DeletePrevChar => Some(
            if l.cursor > 0 {
                LineView { text: s.remove(l.cursor - 1), cursor: l.cursor - 1 }
            } else {
                l
            },
        ),
        CommandView::DeleteNextChar => Some(
            LineView {
                text: if l.cursor < n {
                    s.remove(l.cursor)
                } else {
                    s
                },
                cursor: l.cursor,
            },
        ),
        CommandView::DeletePrevWord => Some(word_deleted(l)),
        CommandView::DeleteLine => Some(LineView { text: seq![], cursor: 0 }),
        CommandView::DeleteRange { from, to } => Some(
            if from <= to {
                LineView {
                    text: without_range(s, from as int, to as int),
                    cursor: if from <= n {
                        from as int
                    } else {
                        n
                    },
                }
            } else {
                l
            },
        ),
        CommandView::Insert(ch) => Some(
            if n < usize::MAX {
                LineView { text: s.insert(l.cursor, ch), cursor: l.cursor + 1 }
            } else {
                l
            },
        ),
        CommandView::DuplicateWord => Some(
            if 2 * n + 1 <= usize::MAX {
                duplicated(l)
            } else {
                l
            },
        ),
        _ => None,
    }
}

/// The line with a text put in at the cursor, unless it would grow past what
/// the machine can index.
pub open spec fn pasted(l: LineView, text: Seq<char>) -> LineView {
    if l.text.len() + text.len() <= usize::MAX {
        with_inserted(l, text)
    } else {
        l
    }
}

/// The line with the `n` characters before the cursor taken out.
pub open spec fn deleted_back(l: LineView, n: int) -> LineView {
    let from = if l.cursor > n {
        l.cursor - n
    } else {
        0
    };
    LineView {
        text: l.text.subrange(0, from) + l.text.subrange(l.cursor, l.text.len() as int),
        cursor: from,
    }
}

/// The line with its cursor at the end.
pub open spec fn at_end(l: LineView) -> LineView {
    LineView { text: l.text, cursor: l.text.len() as int }
}

/// One step back in the history: to the line edited before, or to a fresh
/// copy of the next older history line; nothing where there is none.
pub open spec fn history_prev(v: EditorView) -> EditorView {
    let nb = v.back + 1;
    if nb <= v.temporal.len() - 1 {
        let w = EditorView { back: nb, ..v };
        set_cur(w, at_end(cur(w)))
    } else if nb <= v.history.len() {
        let picked = v.history[v.history.len() - nb];
        EditorView { temporal: seq![at_end(picked)] + v.temporal, back: nb, ..v }
    } else {
        v
    }
}

/// One step forward in the history, towards the new line.
pub open spec fn history_next(v: EditorView) -> EditorView {
    if v.back > 0 {
        let w = EditorView { back: v.back - 1, ..v };
        set_cur(w, at_end(cur(w)))
    } else {
        v
    }
}

/// The greatest index in `[lo, hi)` of a history line that holds the query.
pub open spec fn search_down(history: Seq<LineView>, query: Seq<char>, lo: int, hi: int) -> Option<
    int,
>
    decreases hi - lo,
{
    if hi <= lo || hi > history.len() || lo < 0 {
        None
    } else if first_occurrence(history[hi - 1].text, query) is Some {
        Some(hi - 1)
    } else {
        search_down(history, query, lo, hi - 1)
    }
}

/// The history line that a search finds: the nearest one before `start` that
/// holds the query, else the last one from `start` on that does.
pub open spec fn history_match(history: Seq<LineView>, query: Seq<char>, start: int) -> Option<
    int,
> {
    match search_down(history, query, 0, start) {
        Some(i) => Some(i),
        None => search_down(history, query, start, history.len() as int),
    }
}

/// A history search. With `reset` it starts over from the newest line. A line
/// that holds the query becomes the new line, the cursor right behind the
/// query, and the search goes on from there; without one the query itself
/// becomes the new line.
pub open spec fn history_search(v: EditorView, query: Seq<char>, reset: bool) -> EditorView {
    let start = if reset {
        if v.history.len() > 0 {
            v.history.len() - 1
        } else {
            0
        }
    } else {
        v.search_start
    };
    let w = EditorView { back: 0, search_start: start, ..v };
    match history_match(v.history, query, start) {
        Some(i) => {
            let h = v.history[i];
            let pos = first_occurrence(h.text, query)->0;
            set_cur(
                EditorView { search_start: i, ..w },
                LineView { text: h.text, cursor: pos + query.len() },
            )
        },
        None => set_cur(w, LineView { text: query, cursor: query.len() as int }),
    }
}

/// The register's text put in before the cursor.
pub open spec fn paste_prev(v: EditorView, reg: char) -> EditorView {
    match register_text(v.registers, reg) {
        Some(text) => set_cur(v, pasted(cur(v), text)),
        None => v,
    }
}

/// The register's text put in behind the character under the cursor; the
/// cursor ends on the last character put in.
pub open spec fn paste_next(v: EditorView, reg: char) -> EditorView {
    match register_text(v.registers, reg) {
        Some(text) => {
            let l = cur(v);
            let l1 = LineView {
                text: l.text,
                cursor: if l.cursor < l.text.len() {
                    l.cursor + 1
                } else {
                    l.cursor
                },
            };
            let l2 = pasted(l1, text);
            set_cur(
                v,
                LineView {
                    text: l2.text,
                    cursor: if l2.cursor > 0 {
                        l2.cursor - 1
                    } else {
                        0
                    },
                },
            )
        },
        None => v,
    }
}

/// The current line is put on the undo stack; what could be redone is gone.
pub open spec fn checkpoint(v: EditorView) -> EditorView {
    EditorView { undo: v.undo.push(cur(v)), redo: seq![], ..v }
}

/// The newest snapshot of the undo stack becomes the current line, which goes
/// to the redo stack.
pub open spec fn undo(v: EditorView) -> EditorView {
    if v.undo.len() > 0 {
        set_cur(
            EditorView { undo: v.undo.drop_last(), redo: v.redo.push(cur(v)), ..v },
            v.undo.last(),
        )
    } else {
        v
    }
}

/// The newest line of the redo stack becomes the current line, which goes to
/// the undo stack.
pub open spec fn redo(v: EditorView) -> EditorView {
    if v.redo.len() > 0 {
        set_cur(
            EditorView { redo: v.redo.drop_last(), undo: v.undo.push(cur(v)), ..v },
            v.redo.last(),
        )
    } else {
        v
    }
}

/// The cleared completion cycle.
pub open spec fn no_candidates() -> EngineView {
    EngineView { candidates: seq![], line: seq![], dirty: 0 }
}

/// One step of the completion cycle. The candidates are asked for anew unless
/// the last command was a completion too and the cycle is under way. The
/// candidate put in last is taken out again and the next one put in; a single
/// candidate ends the cycle.
pub open spec fn try_complete(v: EditorView, completion: &CommandCompletion) -> EditorView {
    let e1 = if !v.last_was_completion || v.engine.dirty == 0 {
        updated(v.engine, completion, cur(v).text)
    } else {
        v.engine
    };
    let last_len = match previous(e1) {
        Some(c) => c.len() as int,
        None => 0,
    };
    let l1 = deleted_back(cur(v), last_len);
    if e1.candidates.len() == 0 {
        set_cur(EditorView { engine: e1, ..v }, l1)
    } else {
        let e2 = rotated(e1);
        set_cur(
            EditorView {
                engine: if e2.candidates.len() == 1 {
                    no_candidates()
                } else {
                    e2
                },
                ..v
            },
            pasted(l1, e1.candidates[0]),
        )
    }
}

/// The candidates as one text to show: each behind the word it completes, a
/// tab behind each.
pub open spec fn candidate_list(prefix: Seq<char>, candidates: Seq<Seq<char>>) -> Seq<char>
    decreases candidates.len(),
{
    if candidates.len() == 0 {
        seq![]
    } else {
        candidate_list(prefix, candidates.drop_last()) + prefix + candidates.last() + seq!['\t']
    }
}

/// What showing the candidates does: they are asked for anew, and listed
/// where the line ends in a word.
pub open spec fn display(v: EditorView, completion: &CommandCompletion) -> (
    EditorView,
    OutcomeView,
) {
    let e1 = updated(v.engine, completion, cur(v).text);
    (
        EditorView { engine: e1, ..v },
        match last_word_of(cur(v).text, true) {
            Some(prefix) => OutcomeView::Show(
                "\r\n\x1b[J"@ + candidate_list(prefix, e1.candidates) + "\r\n"@,
            ),
            None => OutcomeView::Continue,
        },
    )
}

/// The mode that a command changes to, if it changes the mode.
pub open spec fn mode_change(v: EditorView, c: CommandView) -> Option<ModeView> {
    match c {
        CommandView::ChangeModeToNormal => Some(
            ModeView::Normal(NormalView { combo: seq![], last_find: LastFind::Nothing }),
        ),
        CommandView::ChangeModeToInsert => Some(ModeView::Insert),
        CommandView::ChangeModeToVisualChar => Some(
            ModeView::Visual(
                VisualView { origin: Some(cur(v).cursor as usize), combo: seq![] },
            ),
        ),
        CommandView::ChangeModeToVisualLine => Some(
            ModeView::Visual(VisualView { origin: None, combo: seq![] }),
        ),
        CommandView::ChangeModeToSearch => Some(
            ModeView::Search(LineView { text: seq![], cursor: 0 }),
        ),
        _ => None,
    }
}

/// What a command does before the cursor is settled.
pub open spec fn perform(v: EditorView, c: CommandView, completion: &CommandCompletion) -> (
    EditorView,
    OutcomeView,
) {
    let go = OutcomeView::Continue;
    match c {
        CommandView::HistoryPrev => (history_prev(v), go),
        CommandView::HistoryNext => (history_next(v), go),
        CommandView::HistorySearch { query, reset } => (history_search(v, query, reset), go),
        CommandView::RegisterStore { reg, text } => (
            EditorView { registers: stored(v.registers, reg, text), ..v },
            go,
        ),
        CommandView::RegisterPastePrev { reg } => (paste_prev(v, reg), go),
        CommandView::RegisterPasteNext { reg } => (paste_next(v, reg), go),
        CommandView::MakeCheckPoint => (checkpoint(v), go),
        CommandView::Undo => (undo(v), go),
        CommandView::Redo => (redo(v), go),
        CommandView::TryCompleteFilename => (try_complete(v, completion), go),
        CommandView::DisplayCompletionCandidate => display(v, completion),
        _ => match mode_change(v, c) {
            Some(m) => (EditorView { mode: m, ..v }, go),
            None => match line_edit(cur(v), c) {
                Some(l) => (set_cur(v, l), go),
                None => (v, go),
            },
        },
    }
}

/// Whether the cursor of the current line is settled: outside insert and
/// search mode it does not stand behind the last character.
pub open spec fn at_rest(v: EditorView) -> bool {
    v.mode is Insert || v.mode is Search || cur(v).cursor == fixed_cursor(
        cur(v).text.len() as int,
        cur(v).cursor,
    )
}

/// After a command the cursor is settled: outside insert and search mode it
/// may not stand behind the last character.
pub open spec fn settle(v: EditorView, was_completion: bool) -> EditorView {
    let l = cur(v);
    let settled = if v.mode is Insert || v.mode is Search {
        l
    } else {
        LineView { text: l.text, cursor: fixed_cursor(l.text.len() as int, l.cursor) }
    };
    EditorView { last_was_completion: was_completion, ..set_cur(v, settled) }
}

/// What a command makes of the editor, and what the driver is to do then.
pub open spec fn step(v: EditorView, c: CommandView, completion: &CommandCompletion) -> (
    EditorView,
    OutcomeView,
) {
    match c {
        CommandView::Commit => (v, OutcomeView::Commit),
        CommandView::CdToParent => (v, OutcomeView::Leave("cd .."@)),
        CommandView::CdUndo => (v, OutcomeView::Leave("cd -"@)),
        CommandView::CdRedo => (v, OutcomeView::Leave("cd +"@)),
        _ => {
            let (w, out) = perform(v, c, completion);
            (
                settle(
                    w,
                    c is TryCompleteFilename || c is DisplayCompletionCandidate,
                ),
                out,
            )
        },
    }
}

/// What a key makes of the mode, which commands it gives, and whether it ends
/// the reading: Ctrl-C gives the line up, Ctrl-D on an empty line leaves.
pub open spec fn key_step(v: EditorView, ev: Event) -> (
    ModeView,
    Seq<CommandView>,
    Option<EditError>,
) {
    if ev == Event::Ctrl('c') {
        (v.mode, seq![], Some(EditError::Aborted))
    } else if ev == Event::Ctrl('d') && cur(v).text.len() == 0 {
        (v.mode, seq![], Some(EditError::Exitted))
    } else {
        match v.mode {
            ModeView::Insert => (ModeView::Insert, insert_commands(ev), None),
            ModeView::Normal(m) => (
                ModeView::Normal(normal_step(m, ev, cur(v)).0),
                normal_step(m, ev, cur(v)).1,
                None,
            ),
            ModeView::Visual(m) => (
                ModeView::Visual(visual_step(m, ev, cur(v)).0),
                visual_step(m, ev, cur(v)).1,
                None,
            ),
            ModeView::Search(q) => if q.text.len() < usize::MAX {
                (ModeView::Search(search_step(q, ev).0), search_step(q, ev).1, None)
            } else {
                (v.mode, seq![], None)
            },
        }
    }
}

/// The state in which the reading of a line starts: the mode stays insert or
/// normal as it was left, and there is one empty line to edit.
pub open spec fn fresh(v: EditorView) -> EditorView {
    let empty = LineView { text: seq![], cursor: 0 };
    let insert = v.mode is Insert || v.mode is Search;
    EditorView {
        mode: if insert {
            ModeView::Insert
        } else {
            ModeView::Normal(NormalView { combo: seq![], last_find: LastFind::Nothing })
        },
        registers: v.registers,
        history: v.history,
        temporal: seq![empty],
        back: 0,
        search_start: 0,
        undo: if insert {
            seq![empty]
        } else {
            seq![]
        },
        redo: seq![],
        last_was_completion: false,
        engine: no_candidates(),
    }
}

/// The directory and the pattern that completing the last of these words
/// asks for, where the fallback completes file names.
pub open spec fn wanted_listing(words: Seq<Seq<char>>, fallback: crate::completion::Completer) -> Option<
    (Seq<char>, Seq<char>),
> {
    if words.len() == 0 {
        None
    } else {
        match fallback {
            crate::completion::Completer::Files(f) => crate::completion::query_of(
                words.last(),
                f@.home,
                f@.cwd,
            ),
            crate::completion::Completer::Words(_) => None,
        }
    }
}

pub struct LineEditor {
    mode: Mode,
    registers: Vec<Register>,
    line_history: Vec<Line>,
    command_completion: CommandCompletion,
    temporal: Vec<Line>,
    back: usize,
    search_start: usize,
    undo_stack: Vec<Line>,
    redo_stack: Vec<Line>,
    last_was_completion: bool,
    completion: CompletionEngine,
}

impl View for LineEditor {
    type V = EditorView;

    closed spec fn view(&self) -> EditorView {
        EditorView {
            mode: self.mode@,
            registers: self.registers@.map_values(|r: Register| r@),
            history: line_views(self.line_history@),
            temporal: line_views(self.temporal@),
            back: self.back as int,
            search_start: self.search_start as int,
            undo: line_views(self.undo_stack@),
            redo: line_views(self.redo_stack@),
            last_was_completion: self.last_was_completion,
            engine: self.completion@,
        }
    }
}

fn copy_line(l: &Line) -> (r: Line)
    ensures
        r@ == l@,
        r.wf() == l.wf(),
{
    l.clone()
}

fn line_at_end(l: &Line) -> (r: Line)
    requires
        l.wf(),
    ensures
        r.wf(),
        r@ == at_end(l@),
{
    let mut r = copy_line(l);
    r.cursor_end_of_line();
    r
}

/// Carries out a command that only touches the line. Returns whether the
/// command was one of these.
pub fn edit_line(line: &mut Line, cmd: &Command) -> (done: bool)
    requires
        old(line).wf(),
    ensures
        final(line).wf(),
        match line_edit(old(line)@, cmd@) {
            Some(l) => done && final(line)@ == l,
            None => !done && final(line)@ == old(line)@,
        },
{
    proof {
        line.lemma_wf();
    }
    match cmd {
        Command::CursorPrevChar => line.cursor_prev_char(),
        Command::CursorNextChar => line.cursor_next_char(),
        Command::CursorPrevCharMatch(t) => line.cursor_prev_char_match(*t),
        Command::CursorNextCharMatch(t) => line.cursor_next_char_match(*t),
        Command::CursorPrevWordHead => line.cursor_prev_word_head(false),
        Command::CursorPrevWordHeadWide => line.cursor_prev_word_head(true),
        Command::CursorNextWordHead => line.cursor_next_word_head(false),
        Command::CursorNextWordHeadWide => line.cursor_next_word_head(true),
        Command::CursorNextWordEnd => line.cursor_next_word_end(false),
        Command::CursorNextWordEndWide => line.cursor_next_word_end(true),
        Command::CursorEnd => line.cursor_end_of_line(),
        Command::CursorBegin => line.cursor_begin_of_line(),
        Command::CursorExact(p) => line.cursor_exact(*p),
        Command::DeletePrevChar => line.delete_prev(),
        Command::DeleteNextChar => line.delete_next(),
        Command::DeletePrevWord => line.delete_word(),
        Command::DeleteLine => line.delete_line(),
        Command::DeleteRange { from, to } => {
            if *from <= *to {
                line.delete_range(*from, *to);
            }
        },
        Command::Insert(ch) => {
            if line.len() < usize::MAX {
                line.insert(*ch);
            }
        },
        Command::DuplicateWord => {
            if line.len() <= (usize::MAX - 1) / 2 {
                line.duplicate_current_word();
            }
        },
        _ => {
            return false;
        },
    }
    true
}

/// Puts a text in at the cursor, unless the line would grow past what the
/// machine can index.
pub fn paste(line: &mut Line, text: &str)
    requires
        old(line).wf(),
    ensures
        final(line).wf(),
        final(line)@ == pasted(old(line)@, text@),
{
    let chars = chars_of(text);
    if chars.len() <= usize::MAX - line.len() {
        line.insert_all(&chars);
    }
}

/// Takes out the `n` characters before the cursor.
pub fn delete_back(line: &mut Line, n: usize)
    requires
        old(line).wf(),
    ensures
        final(line).wf(),
        final(line)@ == deleted_back(old(line)@, n as int),
{
    proof {
        line.lemma_wf();
    }
    let cursor = line.cursor();
    let from = if cursor > n {
        cursor - n
    } else {
        0
    };
    line.delete_range(from, cursor);
    assert(line@.text =~= deleted_back(old(line)@, n as int).text);
}

impl LineEditor {
    /// There is a current line with its cursor settled, the search start lies
    /// inside the history, and every line and the mode are well formed.
    pub closed spec fn wf(&self) -> bool {
        self.sound() && at_rest(self@)
    }

    /// What holds while a command is carried out, too: all of `wf` but that
    /// the cursor is settled.
    spec fn sound(&self) -> bool {
        &&& self.temporal@.len() >= 1
        &&& self.back < self.temporal@.len()
        &&& self.search_start <= self.line_history@.len()
        &&& all_wf(self.temporal@)
        &&& all_wf(self.line_history@)
        &&& all_wf(self.undo_stack@)
        &&& all_wf(self.redo_stack@)
        &&& self.mode.wf()
    }

    /// The provider that completes command lines.
    pub closed spec fn completer(&self) -> CommandCompletion {
        self.command_completion
    }

    /// The provider that completes command lines.
    pub fn command_completion(&self) -> (r: &CommandCompletion)
        ensures
            *r == self.completer(),
    {
        &self.command_completion
    }

    /// Takes a new list of commands to complete.
    pub fn update_commands(&mut self, new_commands: Vec<String>)
        requires
            old(self).wf(),
        ensures
            final(self).wf(),
            final(self)@ == old(self)@,
            final(self).completer().commands() == texts(new_commands@),
            final(self).completer().fallback() == old(self).completer().fallback(),
            exists|rule: crate::completion::Rule|
                {
                    &&& #[trigger] crate::completion::completes_from(
                        rule,
                        "sudo"@,
                        texts(new_commands@),
                    )
                    &&& final(self).completer().rules() == match crate::completion::rule_index(
                        old(self).completer().rules(),
                        "sudo"@,
                    ) {
                        Some(i) => old(self).completer().rules().update(i, rule),
                        None => old(self).completer().rules().push(rule),
                    }
                },
    {
        self.command_completion.update_commands(new_commands);
    }

    /// Tells the file completion the home directory and the current
    /// directory.
    pub fn set_dirs(&mut self, home: Option<String>, cwd: Option<String>)
        requires
            old(self).wf(),
        ensures
            final(self).wf(),
            final(self)@ == old(self)@,
            final(self).completer().commands() == old(self).completer().commands(),
            final(self).completer().rules() == old(self).completer().rules(),
            match old(self).completer().fallback() {
                crate::completion::Completer::Files(f) => final(self).completer().fallback()
                    matches crate::completion::Completer::Files(g) && g@ == (
                crate::completion::FileCompletionView {
                    home: crate::completion::opt_text(home),
                    cwd: crate::completion::opt_text(cwd),
                    ..f@
                }),
                crate::completion::Completer::Words(_) => final(self).completer().fallback()
                    == old(self).completer().fallback(),
            },
    {
        self.command_completion.set_dirs(home, cwd);
    }

    /// Hands the entries of the directory `dir` to the file completion.
    pub fn set_listing(&mut self, dir: String, entries: Vec<crate::completion::DirEntry>)
        requires
            old(self).wf(),
        ensures
            final(self).wf(),
            final(self)@ == old(self)@,
            final(self).completer().commands() == old(self).completer().commands(),
            final(self).completer().rules() == old(self).completer().rules(),
            match old(self).completer().fallback() {
                crate::completion::Completer::Files(f) => final(self).completer().fallback()
                    matches crate::completion::Completer::Files(g) && g@ == (
                crate::completion::FileCompletionView {
                    listed: Some(dir@),
                    entries: crate::completion::entry_views(entries@),
                    ..f@
                }),
                crate::completion::Completer::Words(_) => final(self).completer().fallback()
                    == old(self).completer().fallback(),
            },
    {
        self.command_completion.set_listing(dir, entries);
    }

    /// A well-formed editor has a current line, with its cursor inside it and
    /// settled.
    pub proof fn lemma_wf(&self)
        requires
            self.wf(),
        ensures
            self@.temporal.len() >= 1,
            0 <= self@.back < self@.temporal.len(),
            0 <= self@.search_start <= self@.history.len(),
            0 <= cur(self@).cursor <= cur(self@).text.len(),
            at_rest(self@),
    {
        self.lemma_sound();
    }

    proof fn lemma_sound(&self)
        requires
            self.sound(),
        ensures
            self@.temporal.len() >= 1,
            0 <= self@.back < self@.temporal.len(),
            0 <= self@.search_start <= self@.history.len(),
            0 <= cur(self@).cursor <= cur(self@).text.len(),
    {
        self.temporal@[cur_index(self@)].lemma_wf();
    }

    /// An editor in insert mode, with no history, no registers and no
    /// commands to complete, that uses `fallback` to complete arguments.
    pub fn new(fallback: crate::completion::Completer) -> (r: Self)
        ensures
            r.wf(),
            r@.mode == ModeView::Insert,
            r@.registers == Seq::<RegisterView>::empty(),
            r@.history == Seq::<LineView>::empty(),
            r@ == fresh(r@),
            r.completer().commands() == Seq::<Seq<char>>::empty(),
            r.completer().rules() == Seq::<crate::completion::Rule>::empty(),
            r.completer().fallback() == fallback,
    {
        let mut temporal: Vec<Line> = Vec::new();
        temporal.push(Line::new());
        let mut undo_stack: Vec<Line> = Vec::new();
        undo_stack.push(Line::new());
        let commands: Vec<String> = Vec::new();
        assert(texts(commands@) =~= Seq::<Seq<char>>::empty());
        let r = Self {
            mode: Mode::Insert(InsertMode),
            registers: Vec::new(),
            line_history: Vec::new(),
            command_completion: CommandCompletion::new(commands, fallback),
            temporal,
            back: 0,
            search_start: 0,
            undo_stack,
            redo_stack: Vec::new(),
            last_was_completion: false,
            completion: CompletionEngine::new(),
        };
        proof {
            let empty = LineView { text: seq![], cursor: 0 };
            assert(r@.registers =~= Seq::<RegisterView>::empty());
            assert(r@.history =~= Seq::<LineView>::empty());
            assert(r@.temporal =~= seq![empty]);
            assert(r@.undo =~= seq![empty]);
            assert(r@.redo =~= seq![]);
        }
        r
    }

    /// Starts the reading of a line.
    pub fn new_line(&mut self)
        requires
            old(self).wf(),
        ensures
            final(self).wf(),
            final(self)@ == fresh(old(self)@),
            final(self).completer() == old(self).completer(),
    {
        let insert = self.mode.is_insert();
        self.mode = if insert {
            Mode::Insert(InsertMode)
        } else {
            Mode::Normal(NormalMode::new())
        };
        self.temporal = Vec::new();
        self.temporal.push(Line::new());
        self.back = 0;
        self.search_start = 0;
        self.undo_stack = Vec::new();
        if insert {
            self.undo_stack.push(Line::new());
        }
        self.redo_stack = Vec::new();
        self.last_was_completion = false;
        self.completion = CompletionEngine::new();
        proof {
            let empty = LineView { text: seq![], cursor: 0 };
            assert(self@.temporal =~= seq![empty]);
            assert(self@.redo =~= seq![]);
            if insert {
                assert(self@.undo =~= seq![empty]);
            } else {
                assert(self@.undo =~= seq![]);
            }
        }
    }

    /// The text of the line as committed; a line that is not empty joins the
    /// history.
    pub fn commit(&mut self) -> (r: String)
        requires
            old(self).wf(),
        ensures
            final(self).wf(),
            r@ == cur(old(self)@).text,
            final(self)@ == (EditorView {
                history: if r@.len() > 0 {
                    old(self)@.history.push(cur(old(self)@))
                } else {
                    old(self)@.history
                },
                ..old(self)@
            }),
            final(self).completer() == old(self).completer(),
    {
        let idx = self.temporal.len() - 1 - self.back;
        let line = copy_line(&self.temporal[idx]);
        let result = line.to_string();
        if line.len() > 0 {
            self.line_history.push(line);
            assert(self@.history =~= old(self)@.history.push(cur(old(self)@)));
        }
        result
    }

    /// The current line.
    pub fn line(&self) -> (r: &Line)
        requires
            self.wf(),
        ensures
            r.wf(),
            r@ == cur(self@),
    {
        &self.temporal[self.temporal.len() - 1 - self.back]
    }

    /// The mode.
    pub fn mode(&self) -> (r: &Mode)
        ensures
            r@ == self@.mode,
    {
        &self.mode
    }

    /// The directory whose entries a completion of the current line would
    /// read: that of the last word, where the fallback completes file names.
    pub fn file_query(&self) -> (r: Option<FileQuery>)
        requires
            self.wf(),
        ensures
            match wanted_listing(completion_words(cur(self@).text), self.completer().fallback()) {
                Some((dir, pattern)) => r matches Some(q) && q.dir@ == dir && q.pattern@ == pattern,
                None => r is None,
            },
    {
        let words = split_words(self.line().to_string().as_str());
        if words.len() == 0 {
            return None;
        }
        assert(texts(words@).last() == words@[words@.len() - 1]@);
        self.command_completion.file_query(words[words.len() - 1].as_str())
    }

    /// Hands one key to the mode. The commands it gives are appended to
    /// `cmds`; the result says whether the key ends the reading.
    pub fn process_event(&mut self, ev: Event, cmds: &mut Vec<Command>) -> (r: Option<EditError>)
        requires
            old(self).wf(),
        ensures
            final(self).wf(),
            final(self)@ == (EditorView { mode: key_step(old(self)@, ev).0, ..old(self)@ }),
            views(final(cmds)@) =~= views(old(cmds)@) + key_step(old(self)@, ev).1,
            r == key_step(old(self)@, ev).2,
            final(self).completer() == old(self).completer(),
    {
        let idx = self.temporal.len() - 1 - self.back;
        if ev == Event::Ctrl('c') {
            return Some(EditError::Aborted);
        }
        if ev == Event::Ctrl('d') && self.temporal[idx].len() == 0 {
            return Some(EditError::Exitted);
        }
        match &mut self.mode {
            Mode::Insert(m) => m.process_event(ev, &self.temporal[idx], cmds),
            Mode::Normal(m) => m.process_event(ev, &self.temporal[idx], cmds),
            Mode::Visual(m) => m.process_event(ev, &self.temporal[idx], cmds),
            Mode::Search(m) => {
                if m.query_len() < usize::MAX {
                    m.process_event(ev, &self.temporal[idx], cmds);
                }
            },
        }
        None
    }

    fn store(&mut self, reg: char, text: String)
        requires
            old(self).sound(),
        ensures
            final(self).sound(),
            final(self)@ == (EditorView {
                registers: stored(old(self)@.registers, reg, text@),
                ..old(self)@
            }),
            final(self).completer() == old(self).completer(),
    {
        let ghost rs = self@.registers;
        match self.find_register(reg) {
            Some(i) => {
                self.registers[i] = Register { name: reg, text };
                assert(self@.registers =~= rs.update(i as int, RegisterView { name: reg, text: text@ }));
            },
            None => {
                self.registers.push(Register { name: reg, text });
                assert(self@.registers =~= rs.push(RegisterView { name: reg, text: text@ }));
            },
        }
    }

    fn find_register(&self, reg: char) -> (r: Option<usize>)
        ensures
            match r {
                Some(i) => i < self@.registers.len() && register_index(self@.registers, reg)
                    == Some(i as int),
                None => register_index(self@.registers, reg) is None,
            },
    {
        let ghost rs = self@.registers;
        let mut i: usize = 0;
        assert(rs.take(0) =~= seq![]);
        while i < self.registers.len()
            invariant
                i <= self.registers.len(),
                rs == self@.registers,
                rs.len() == self.registers@.len(),
                register_index(rs.take(i as int), reg) is None,
            decreases self.registers.len() - i,
        {
            assert(rs.take(i + 1).drop_last() =~= rs.take(i as int));
            assert(rs[i as int] == self.registers@[i as int]@);
            if self.registers[i].name == reg {
                proof {
                    Self::lemma_first_register(rs, reg, i as int);
                }
                return Some(i);
            }
            i += 1;
        }
        assert(rs.take(i as int) =~= rs);
        None
    }

    proof fn lemma_first_register(rs: Seq<RegisterView>, reg: char, i: int)
        requires
            0 <= i < rs.len(),
            rs[i].name == reg,
            register_index(rs.take(i), reg) is None,
        ensures
            register_index(rs, reg) == Some(i),
        decreases rs.len(),
    {
        if i == rs.len() - 1 {
            assert(rs.drop_last() =~= rs.take(i));
        } else {
            assert(rs.drop_last().take(i) =~= rs.take(i));
            Self::lemma_first_register(rs.drop_last(), reg, i);
        }
    }

    fn register(&self, reg: char) -> (r: Option<String>)
        ensures
            match register_text(self@.registers, reg) {
                Some(t) => r is Some && r->0@ == t,
                None => r is None,
            },
    {
        match self.find_register(reg) {
            Some(i) => Some(self.registers[i].text.clone()),
            None => None,
        }
    }

    fn do_history_prev(&mut self)
        requires
            old(self).sound(),
        ensures
            final(self).sound(),
            final(self)@ == history_prev(old(self)@),
            final(self).completer() == old(self).completer(),
    {
        let n = self.temporal.len();
        let nb = self.back + 1;
        if nb <= n - 1 {
            self.back = nb;
            let idx = self.temporal.len() - 1 - nb;
            self.temporal[idx].cursor_end_of_line();
            assert(self@.temporal =~= old(self)@.temporal.update(
                idx as int,
                at_end(old(self)@.temporal[idx as int]),
            ));
        } else if nb <= self.line_history.len() {
            let picked = line_at_end(&self.line_history[self.line_history.len() - nb]);
            self.temporal.insert(0, picked);
            self.back = nb;
            assert(self@.temporal =~= seq![
                at_end(old(self)@.history[old(self)@.history.len() - nb]),
            ] + old(self)@.temporal);
        }
    }

    fn do_history_next(&mut self)
        requires
            old(self).sound(),
        ensures
            final(self).sound(),
            final(self)@ == history_next(old(self)@),
            final(self).completer() == old(self).completer(),
    {
        if self.back > 0 {
            self.back = self.back - 1;
            let idx = self.temporal.len() - 1 - self.back;
            self.temporal[idx].cursor_end_of_line();
            assert(self@.temporal =~= old(self)@.temporal.update(
                idx as int,
                at_end(old(self)@.temporal[idx as int]),
            ));
        }
    }

    fn scan_history(&self, query: &Vec<char>, lo: usize, hi: usize) -> (r: Option<(usize, usize)>)
        requires
            lo <= hi <= self@.history.len(),
        ensures
            match r {
                Some((i, pos)) => search_down(self@.history, query@, lo as int, hi as int) == Some(
                    i as int,
                ) && i < self@.history.len() && first_occurrence(self@.history[i as int].text, query@)
                    == Some(pos as int) && pos + query@.len() <= self@.history[i as int].text.len(),
                None => search_down(self@.history, query@, lo as int, hi as int) is None,
            },
    {
        let mut i: usize = hi;
        while i > lo
            invariant
                lo <= i <= hi <= self.line_history.len(),
                self@.history.len() == self.line_history@.len(),
                search_down(self@.history, query@, lo as int, i as int) == search_down(
                    self@.history,
                    query@,
                    lo as int,
                    hi as int,
                ),
            decreases i,
        {
            let text = chars_of(self.line_history[i - 1].to_string().as_str());
            assert(text@ == self@.history[i - 1].text);
            match find_text(&text, query) {
                Some(pos) => {
                    return Some((i - 1, pos));
                },
                None => {},
            }
            i -= 1;
        }
        None
    }

    fn do_history_search(&mut self, query: &str, reset: bool)
        requires
            old(self).sound(),
        ensures
            final(self).sound(),
            final(self)@ == history_search(old(self)@, query@, reset),
            final(self).completer() == old(self).completer(),
    {
        if reset {
            self.search_start = if self.line_history.len() > 0 {
                self.line_history.len() - 1
            } else {
                0
            };
        }
        let start = self.search_start;
        let q = chars_of(query);
        let found = match self.scan_history(&q, 0, start) {
            Some(m) => Some(m),
            None => self.scan_history(&q, start, self.line_history.len()),
        };
        self.back = 0;
        let last = self.temporal.len() - 1;
        match found {
            Some((i, pos)) => {
                let mut line = copy_line(&self.line_history[i]);
                let len = line.len();
                assert(pos + q@.len() <= len);
                line.cursor_exact(pos + q.len());
                self.temporal[last] = line;
                self.search_start = i;
                assert(self@.temporal =~= old(self)@.temporal.update(
                    last as int,
                    LineView { text: old(self)@.history[i as int].text, cursor: pos + q@.len() },
                ));
            },
            None => {
                let mut line = Line::from_str(query);
                line.cursor_end_of_line();
                self.temporal[last] = line;
                assert(self@.temporal =~= old(self)@.temporal.update(
                    last as int,
                    LineView { text: query@, cursor: query@.len() as int },
                ));
            },
        }
    }

    fn do_paste(&mut self, reg: char, behind: bool)
        requires
            old(self).sound(),
        ensures
            final(self).sound(),
            final(self)@ == if behind {
                paste_next(old(self)@, reg)
            } else {
                paste_prev(old(self)@, reg)
            },
            final(self).completer() == old(self).completer(),
    {
        let idx = self.temporal.len() - 1 - self.back;
        if let Some(text) = self.register(reg) {
            if behind {
                self.temporal[idx].cursor_next_char();
            }
            paste(&mut self.temporal[idx], text.as_str());
            if behind {
                self.temporal[idx].cursor_prev_char();
            }
            proof {
                let l = cur(old(self)@);
                if behind {
                    assert(self@.temporal =~= set_cur(old(self)@, cur(self@)).temporal);
                    assert(self@ == paste_next(old(self)@, reg));
                } else {
                    assert(self@.temporal =~= set_cur(old(self)@, pasted(l, text@)).temporal);
                }
            }
        }
    }

    fn do_checkpoint(&mut self)
        requires
            old(self).sound(),
        ensures
            final(self).sound(),
            final(self)@ == checkpoint(old(self)@),
            final(self).completer() == old(self).completer(),
    {
        let idx = self.temporal.len() - 1 - self.back;
        let snapshot = copy_line(&self.temporal[idx]);
        self.undo_stack.push(snapshot);
        self.redo_stack = Vec::new();
        assert(self@.undo =~= old(self)@.undo.push(cur(old(self)@)));
        assert(self@.redo =~= seq![]);
    }

    fn do_undo(&mut self)
        requires
            old(self).sound(),
        ensures
            final(self).sound(),
            final(self)@ == undo(old(self)@),
            final(self).completer() == old(self).completer(),
    {
        let idx = self.temporal.len() - 1 - self.back;
        if self.undo_stack.len() > 0 {
            let line = self.undo_stack.pop().unwrap();
            let current = copy_line(&self.temporal[idx]);
            self.redo_stack.push(current);
            self.temporal[idx] = line;
            assert(self@.undo =~= old(self)@.undo.drop_last());
            assert(self@.redo =~= old(self)@.redo.push(cur(old(self)@)));
            assert(self@.temporal =~= old(self)@.temporal.update(
                idx as int,
                old(self)@.undo.last(),
            ));
        }
    }

    fn do_redo(&mut self)
        requires
            old(self).sound(),
        ensures
            final(self).sound(),
            final(self)@ == redo(old(self)@),
            final(self).completer() == old(self).completer(),
    {
        let idx = self.temporal.len() - 1 - self.back;
        if self.redo_stack.len() > 0 {
            let line = self.redo_stack.pop().unwrap();
            let current = copy_line(&self.temporal[idx]);
            self.undo_stack.push(current);
            self.temporal[idx] = line;
            assert(self@.redo =~= old(self)@.redo.drop_last());
            assert(self@.undo =~= old(self)@.undo.push(cur(old(self)@)));
            assert(self@.temporal =~= old(self)@.temporal.update(
                idx as int,
                old(self)@.redo.last(),
            ));
        }
    }

    fn do_try_complete(&mut self)
        requires
            old(self).sound(),
        ensures
            final(self).sound(),
            final(self)@ == try_complete(old(self)@, &old(self).completer()),
            final(self).completer() == old(self).completer(),
    {
        let idx = self.temporal.len() - 1 - self.back;
        if !self.last_was_completion || self.completion.cleared() {
            let text = self.temporal[idx].to_string();
            self.completion.update(&self.command_completion, text);
        }
        let last_len = match self.completion.prev() {
            Some(c) => c.as_str().unicode_len(),
            None => 0,
        };
        delete_back(&mut self.temporal[idx], last_len);
        let ghost l1 = self.temporal@[idx as int]@;
        let ghost e1 = self.completion@;
        if let Some(cand) = self.completion.next() {
            paste(&mut self.temporal[idx], cand.as_str());
            if self.completion.len() == 1 {
                self.completion.clear();
            }
            assert(self@.temporal =~= old(self)@.temporal.update(
                idx as int,
                pasted(l1, e1.candidates[0]),
            ));
        } else {
            assert(self@.temporal =~= old(self)@.temporal.update(idx as int, l1));
        }
    }

    fn do_display(&mut self) -> (r: Outcome)
        requires
            old(self).sound(),
        ensures
            final(self).sound(),
            final(self)@ == display(old(self)@, &old(self).completer()).0,
            r@ == display(old(self)@, &old(self).completer()).1,
            final(self).completer() == old(self).completer(),
    {
        let idx = self.temporal.len() - 1 - self.back;
        let text = self.temporal[idx].to_string();
        self.completion.update(&self.command_completion, text);
        match self.temporal[idx].last_word(true) {
            Some(prefix) => {
                let cands = self.completion.iter();
                let mut out: Vec<char> = Vec::new();
                push_str(&mut out, "\r\n\x1b[J");
                let ghost head = out@;
                let mut i: usize = 0;
                assert(texts(cands@).take(0) =~= seq![]);
                assert(out@ =~= head + candidate_list(prefix@, texts(cands@).take(0)));
                while i < cands.len()
                    invariant
                        i <= cands.len(),
                        out@ == head + candidate_list(prefix@, texts(cands@).take(i as int)),
                    decreases cands.len() - i,
                {
                    let ghost before = candidate_list(prefix@, texts(cands@).take(i as int));
                    assert(texts(cands@).take(i + 1).drop_last() =~= texts(cands@).take(i as int));
                    assert(texts(cands@).take(i + 1).last() == cands@[i as int]@);
                    push_str(&mut out, prefix.as_str());
                    push_str(&mut out, cands[i].as_str());
                    out.push('\t');
                    i += 1;
                    assert(out@ =~= head + (before + prefix@ + cands@[i - 1]@ + seq!['\t']));
                }
                assert(texts(cands@).take(i as int) =~= texts(cands@));
                push_str(&mut out, "\r\n");
                Outcome::Show(string_of(&out))
            },
            None => Outcome::Continue,
        }
    }

    fn do_change_mode(&mut self, cmd: &Command) -> (done: bool)
        requires
            old(self).sound(),
        ensures
            final(self).sound(),
            match mode_change(old(self)@, cmd@) {
                Some(m) => done && final(self)@ == (EditorView { mode: m, ..old(self)@ }),
                None => !done && final(self)@ == old(self)@,
            },
            final(self).completer() == old(self).completer(),
    {
        let idx = self.temporal.len() - 1 - self.back;
        match cmd {
            Command::ChangeModeToNormal => {
                self.mode = Mode::Normal(NormalMode::new());
            },
            Command::ChangeModeToInsert => {
                self.mode = Mode::Insert(InsertMode);
            },
            Command::ChangeModeToVisualChar => {
                let cursor = self.temporal[idx].cursor();
                self.mode = Mode::Visual(VisualMode::new_char(cursor));
            },
            Command::ChangeModeToVisualLine => {
                self.mode = Mode::Visual(VisualMode::new_line());
            },
            Command::ChangeModeToSearch => {
                self.mode = Mode::Search(SearchMode::new());
            },
            _ => {
                return false;
            },
        }
        true
    }

    fn do_perform(&mut self, cmd: &Command) -> (r: Outcome)
        requires
            old(self).sound(),
        ensures
            final(self).sound(),
            final(self)@ == perform(old(self)@, cmd@, &old(self).completer()).0,
            r@ == perform(old(self)@, cmd@, &old(self).completer()).1,
            final(self).completer() == old(self).completer(),
    {
        match cmd {
            Command::HistoryPrev => self.do_history_prev(),
            Command::HistoryNext => self.do_history_next(),
            Command::HistorySearch { query, reset } => self.do_history_search(query.as_str(), *reset),
            Command::RegisterStore { reg, text } => self.store(*reg, text.clone()),
            Command::RegisterPastePrev { reg } => self.do_paste(*reg, false),
            Command::RegisterPasteNext { reg } => self.do_paste(*reg, true),
            Command::MakeCheckPoint => self.do_checkpoint(),
            Command::Undo => self.do_undo(),
            Command::Redo => self.do_redo(),
            Command::TryCompleteFilename => self.do_try_complete(),
            Command::DisplayCompletionCandidate => {
                return self.do_display();
            },
            _ => {
                if !self.do_change_mode(cmd) {
                    let idx = self.temporal.len() - 1 - self.back;
                    let ghost before = self@;
                    let done = edit_line(&mut self.temporal[idx], cmd);
                    proof {
                        if done {
                            assert(self@.temporal =~= set_cur(
                                before,
                                line_edit(cur(before), cmd@)->0,
                            ).temporal);
                        } else {
                            assert(self@.temporal =~= before.temporal);
                        }
                    }
                }
            },
        }
        Outcome::Continue
    }

    /// Carries out one command.
    pub fn apply(&mut self, cmd: &Command) -> (r: Outcome)
        requires
            old(self).wf(),
        ensures
            final(self).wf(),
            final(self)@ == step(old(self)@, cmd@, &old(self).completer()).0,
            r@ == step(old(self)@, cmd@, &old(self).completer()).1,
            final(self).completer() == old(self).completer(),
    {
        match cmd {
            Command::Commit => {
                return Outcome::Commit;
            },
            Command::CdToParent => {
                return Outcome::Leave(String::from_str("cd .."));
            },
            Command::CdUndo => {
                return Outcome::Leave(String::from_str("cd -"));
            },
            Command::CdRedo => {
                return Outcome::Leave(String::from_str("cd +"));
            },
            _ => {},
        }
        let out = self.do_perform(cmd);
        let ghost w = self@;
        let idx = self.temporal.len() - 1 - self.back;
        if !self.mode.is_insert() {
            self.temporal[idx].normal_mode_fix_cursor();
        }
        self.last_was_completion = match cmd {
            Command::TryCompleteFilename | Command::DisplayCompletionCandidate => true,
            _ => false,
        };
        proof {
            w.temporal[idx as int];
            assert(self@.temporal =~= settle(w, self.last_was_completion).temporal);
        }
        out
    }
}

} // verus!
