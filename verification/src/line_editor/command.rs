//! Key events, and the edit commands that the modes turn them into.

use vstd::prelude::*;

verus! {

/// One decoded key press.
#[derive(Debug, Clone, Copy, PartialEq, Eq, Structural)]
pub enum Event {
    KeyEscape,
    KeyTab,
    KeyBackspace,
    KeyDelete,
    KeyReturn,
    KeyUp,
    KeyDown,
    KeyLeft,
    KeyRight,
    Ctrl(char),
    Char(char),
}

/// One step for the driver to carry out on the line, the history, the
/// registers or the mode.
#[derive(Debug, PartialEq)]
pub enum Command {
    CursorPrevChar,
    CursorPrevCharMatch(char),
    CursorNextChar,
    CursorNextCharMatch(char),
    CursorPrevWordHead,
    CursorPrevWordHeadWide,
    CursorNextWordHead,
    CursorNextWordHeadWide,
    CursorNextWordEnd,
    CursorNextWordEndWide,
    CursorEnd,
    CursorBegin,
    CursorExact(usize),
    HistoryPrev,
    HistoryNext,
    HistorySearch { query: String, reset: bool },
    DeletePrevChar,
    DeleteNextChar,
    DeletePrevWord,
    DeleteLine,
    DeleteRange { from: usize, to: usize },
    DuplicateWord,
    Commit,
    ChangeModeToInsert,
    ChangeModeToNormal,
    ChangeModeToVisualChar,
    ChangeModeToVisualLine,
    ChangeModeToSearch,
    Insert(char),
    RegisterStore { reg: char, text: String },
    RegisterPastePrev { reg: char },
    RegisterPasteNext { reg: char },
    MakeCheckPoint,
    Undo,
    Redo,
    TryCompleteFilename,
    DisplayCompletionCandidate,
    CdToParent,
    CdUndo,
    CdRedo,
}

/// A command with its texts as sequences of characters.
pub enum CommandView {
    CursorPrevChar,
    CursorPrevCharMatch(char),
    CursorNextChar,
    CursorNextCharMatch(char),
    CursorPrevWordHead,
    CursorPrevWordHeadWide,
    CursorNextWordHead,
    CursorNextWordHeadWide,
    CursorNextWordEnd,
    CursorNextWordEndWide,
    CursorEnd,
    CursorBegin,
    CursorExact(usize),
    HistoryPrev,
    HistoryNext,
    HistorySearch { query: Seq<char>, reset: bool },
    DeletePrevChar,
    DeleteNextChar,
    DeletePrevWord,
    DeleteLine,
    DeleteRange { from: usize, to: usize },
    DuplicateWord,
    Commit,
    ChangeModeToInsert,
    ChangeModeToNormal,
    ChangeModeToVisualChar,
    ChangeModeToVisualLine,
    ChangeModeToSearch,
    Insert(char),
    RegisterStore { reg: char, text: Seq<char> },
    RegisterPastePrev { reg: char },
    RegisterPasteNext { reg: char },
    MakeCheckPoint,
    Undo,
    Redo,
    TryCompleteFilename,
    DisplayCompletionCandidate,
    CdToParent,
    CdUndo,
    CdRedo,
}

impl View for Command {
    type V = CommandView;

    open spec fn view(&self) -> CommandView {
        match self {
            Command::CursorPrevChar => CommandView::CursorPrevChar,
            Command::CursorPrevCharMatch(x) => CommandView::CursorPrevCharMatch(*x),
            Command::CursorNextChar => CommandView::CursorNextChar,
            Command::CursorNextCharMatch(x) => CommandView::CursorNextCharMatch(*x),
            Command::CursorPrevWordHead => CommandView::CursorPrevWordHead,
            Command::CursorPrevWordHeadWide => CommandView::CursorPrevWordHeadWide,
            Command::CursorNextWordHead => CommandView::CursorNextWordHead,
            Command::CursorNextWordHeadWide => CommandView::CursorNextWordHeadWide,
            Command::CursorNextWordEnd => CommandView::CursorNextWordEnd,
            Command::CursorNextWordEndWide => CommandView::CursorNextWordEndWide,
            Command::CursorEnd => CommandView::CursorEnd,
            Command::CursorBegin => CommandView::CursorBegin,
            Command::CursorExact(x) => CommandView::CursorExact(*x),
            Command::HistoryPrev => CommandView::HistoryPrev,
            Command::HistoryNext => CommandView::HistoryNext,
            Command::HistorySearch { query, reset } => CommandView::HistorySearch {
                query: query@,
                reset: *reset,
            },
            Command::DeletePrevChar => CommandView::DeletePrevChar,
            Command::DeleteNextChar => CommandView::DeleteNextChar,
            Command::DeletePrevWord => CommandView::DeletePrevWord,
            Command::DeleteLine => CommandView::DeleteLine,
            Command::DeleteRange { from, to } => CommandView::DeleteRange { from: *from, to: *to },
            Command::DuplicateWord => CommandView::DuplicateWord,
            Command::Commit => CommandView::Commit,
            Command::ChangeModeToInsert => CommandView::ChangeModeToInsert,
            Command::ChangeModeToNormal => CommandView::ChangeModeToNormal,
            Command::ChangeModeToVisualChar => CommandView::ChangeModeToVisualChar,
            Command::ChangeModeToVisualLine => CommandView::ChangeModeToVisualLine,
            Command::ChangeModeToSearch => CommandView::ChangeModeToSearch,
            Command::Insert(x) => CommandView::Insert(*x),
            Command::RegisterStore { reg, text } => CommandView::RegisterStore {
                reg: *reg,
                text: text@,
            },
            Command::RegisterPastePrev { reg } => CommandView::RegisterPastePrev { reg: *reg },
            Command::RegisterPasteNext { reg } => CommandView::RegisterPasteNext { reg: *reg },
            Command::MakeCheckPoint => CommandView::MakeCheckPoint,
            Command::Undo => CommandView::Undo,
            Command::Redo => CommandView::Redo,
            Command::TryCompleteFilename => CommandView::TryCompleteFilename,
            Command::DisplayCompletionCandidate => CommandView::DisplayCompletionCandidate,
            Command::CdToParent => CommandView::CdToParent,
            Command::CdUndo => CommandView::CdUndo,
            Command::CdRedo => CommandView::CdRedo,
        }
    }
}

impl Clone for Command {
    fn clone(&self) -> (r: Self)
        ensures
            r@ == self@,
    {
        match self {
            Command::CursorPrevChar => Command::CursorPrevChar,
            Command::CursorPrevCharMatch(x) => Command::CursorPrevCharMatch(*x),
            Command::CursorNextChar => Command::CursorNextChar,
            Command::CursorNextCharMatch(x) => Command::CursorNextCharMatch(*x),
            Command::CursorPrevWordHead => Command::CursorPrevWordHead,
            Command::CursorPrevWordHeadWide => Command::CursorPrevWordHeadWide,
            Command::CursorNextWordHead => Command::CursorNextWordHead,
            Command::CursorNextWordHeadWide => Command::CursorNextWordHeadWide,
            Command::CursorNextWordEnd => Command::CursorNextWordEnd,
            Command::CursorNextWordEndWide => Command::CursorNextWordEndWide,
            Command::CursorEnd => Command::CursorEnd,
            Command::CursorBegin => Command::CursorBegin,
            Command::CursorExact(x) => Command::CursorExact(*x),
            Command::HistoryPrev => Command::HistoryPrev,
            Command::HistoryNext => Command::HistoryNext,
            Command::HistorySearch { query, reset } => Command::HistorySearch {
                query: query.clone(),
                reset: *reset,
            },
            Command::DeletePrevChar => Command::DeletePrevChar,
            Command::DeleteNextChar => Command::DeleteNextChar,
            Command::DeletePrevWord => Command::DeletePrevWord,
            Command::DeleteLine => Command::DeleteLine,
            Command::DeleteRange { from, to } => Command::DeleteRange { from: *from, to: *to },
            Command::DuplicateWord => Command::DuplicateWord,
            Command::Commit => Command::Commit,
            Command::ChangeModeToInsert => Command::ChangeModeToInsert,
            Command::ChangeModeToNormal => Command::ChangeModeToNormal,
            Command::ChangeModeToVisualChar => Command::ChangeModeToVisualChar,
            Command::ChangeModeToVisualLine => Command::ChangeModeToVisualLine,
            Command::ChangeModeToSearch => Command::ChangeModeToSearch,
            Command::Insert(x) => Command::Insert(*x),
            Command::RegisterStore { reg, text } => Command::RegisterStore {
                reg: *reg,
                text: text.clone(),
            },
            Command::RegisterPastePrev { reg } => Command::RegisterPastePrev { reg: *reg },
            Command::RegisterPasteNext { reg } => Command::RegisterPasteNext { reg: *reg },
            Command::MakeCheckPoint => Command::MakeCheckPoint,
            Command::Undo => Command::Undo,
            Command::Redo => Command::Redo,
            Command::TryCompleteFilename => Command::TryCompleteFilename,
            Command::DisplayCompletionCandidate => Command::DisplayCompletionCandidate,
            Command::CdToParent => Command::CdToParent,
            Command::CdUndo => Command::CdUndo,
            Command::CdRedo => Command::CdRedo,
        }
    }
}

/// The commands of a queue, each by its view.
pub open spec fn views(cmds: Seq<Command>) -> Seq<CommandView> {
    cmds.map_values(|c: Command| c@)
}

/// Appends one command to the queue.
pub fn emit(cmds: &mut Vec<Command>, c: Command)
    ensures
        views(final(cmds)@) == views(old(cmds)@).push(c@),
        final(cmds)@.len() == old(cmds)@.len() + 1,
{
    cmds.push(c);
    assert(views(cmds@) =~= views(old(cmds)@).push(c@));
}

/// Why reading a line ended without a line.
#[derive(Debug, Clone, Copy, PartialEq, Eq, Structural)]
pub enum EditError {
    Aborted,
    Exitted,
}

} // verus!
