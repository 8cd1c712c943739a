//! What the editor shows: the prompt, the line with its highlighted part, and
//! the cursor.

use vstd::prelude::*;
use crate::chars::{
    cell_width, chars_of, decimal, display_width, find_text, first_occurrence, push_decimal,
    push_str, string_of,
};
use crate::line_editor::editor::{cur, EditorView, LineEditor};
use crate::line_editor::modes::{Mode, ModeView};

verus! {

/// The sum of two lengths, held at the greatest number the machine has.
pub open spec fn capped_sum(a: int, b: int) -> int {
    if a + b > usize::MAX {
        usize::MAX as int
    } else {
        a + b
    }
}

fn add_capped(a: usize, b: usize) -> (r: usize)
    ensures
        r == capped_sum(a as int, b as int),
{
    if b > usize::MAX - a {
        usize::MAX
    } else {
        a + b
    }
}

/// How far the reading of a prompt has come: the text to print, the columns
/// it takes, how many brackets are open, and whether a backslash came last.
pub struct PromptState {
    pub text: Seq<char>,
    pub columns: int,
    pub open: int,
    pub escaped: bool,
}

/// The prompt state after one more character. A backslash takes the next
/// character as it is. Round brackets are not printed; what stands inside them
/// is printed but takes no columns.
pub open spec fn prompt_step(s: PromptState, c: char) -> PromptState {
    if !s.escaped && c == '\\' {
        PromptState { escaped: true, ..s }
    } else {
        let open = if !s.escaped && c == '(' {
            s.open + 1
        } else {
            s.open
        };
        PromptState {
            text: if s.escaped || (c != '(' && c != ')') {
                s.text.push(c)
            } else {
                s.text
            },
            columns: if open == 0 {
                capped_sum(s.columns, cell_width(c) as int)
            } else {
                s.columns
            },
            open: if !s.escaped && c == ')' {
                open - 1
            } else {
                open
            },
            escaped: false,
        }
    }
}

/// The prompt state after the first `n` characters of a prompt.
pub open spec fn prompt_read(prompt: Seq<char>, n: int) -> PromptState
    decreases n,
{
    if n <= 0 || n > prompt.len() {
        PromptState { text: seq![], columns: 0, open: 0, escaped: false }
    } else {
        prompt_step(prompt_read(prompt, n - 1), prompt[n - 1])
    }
}

/// The text to print for a prompt, and the columns it takes on the screen.
pub fn unescape_prompt(prompt: &str) -> (r: (String, usize))
    ensures
        r.0@ == prompt_read(prompt@, prompt@.len() as int).text,
        r.1 == prompt_read(prompt@, prompt@.len() as int).columns,
{
    let chars = chars_of(prompt);
    let mut buf: Vec<char> = Vec::new();
    let mut len: usize = 0;
    let mut ignore: i128 = 0;
    let mut escaped = false;
    let mut i: usize = 0;
    while i < chars.len()
        invariant
            i <= chars.len(),
            chars@ == prompt@,
            -(i as int) <= ignore <= i,
            prompt_read(prompt@, i as int) == (PromptState {
                text: buf@,
                columns: len as int,
                open: ignore as int,
                escaped,
            }),
        decreases chars.len() - i,
    {
        let ch = chars[i];
        i += 1;
        if !escaped && ch == '\\' {
            escaped = true;
            continue ;
        }
        if !escaped && ch == '(' {
            ignore += 1;
        }
        if escaped || (ch != '(' && ch != ')') {
            buf.push(ch);
        }
        if ignore == 0 {
            len = add_capped(len, display_width(ch));
        }
        if !escaped && ch == ')' {
            ignore -= 1;
        }
        escaped = false;
    }
    (string_of(&buf), len)
}

/// The colour that the prompt sign has in a mode.
pub open spec fn mode_color(m: ModeView) -> Seq<char> {
    match m {
        ModeView::Insert => "\x1b[36;1m"@,
        ModeView::Normal(_) => "\x1b[34;1m"@,
        ModeView::Visual(_) => "\x1b[32;1m"@,
        ModeView::Search(_) => "\x1b[38;5;209;1m"@,
    }
}

/// The prompt before it is unescaped: the caller's prefix, then the sign in
/// the colour of the mode, `#` for the superuser and `%` for everyone else.
pub open spec fn prompt_source(prefix: Seq<char>, m: ModeView, is_root: bool) -> Seq<char> {
    prefix + seq!['('] + mode_color(m) + seq![')'] + (if is_root {
        seq!['#']
    } else {
        seq!['%']
    }) + "(\x1b[m) "@
}

/// The part of the line to highlight: the selection in visual mode, the first
/// place where the query stands in search mode.
pub open spec fn highlight_of(v: EditorView) -> Option<(int, int)> {
    let l = cur(v);
    match v.mode {
        ModeView::Visual(vis) => match vis.origin {
            Some(o) => Some(
                if o <= l.cursor {
                    (o as int, capped_sum(l.cursor, 1))
                } else {
                    (l.cursor, capped_sum(o as int, 1))
                },
            ),
            None => Some((0, usize::MAX as int)),
        },
        ModeView::Search(q) => match first_occurrence(l.text, q.text) {
            Some(from) => Some((from, from + q.text.len())),
            None => None,
        },
        _ => None,
    }
}

/// What is printed for the cells from `i` on, when `used` columns are taken:
/// each character that still fits into `cols` columns, the highlighted ones
/// in inverse colours.
pub open spec fn shown_cells(
    text: Seq<char>,
    i: int,
    used: int,
    cols: int,
    hl: Option<(int, int)>,
) -> Seq<char>
    decreases text.len() - i,
{
    if i < 0 || i >= text.len() {
        seq![]
    } else {
        let used2 = capped_sum(used, cell_width(text[i]) as int);
        if used2 > cols {
            seq![]
        } else {
            shown_cell(text[i], in_range(hl, i)) + shown_cells(
                text,
                i + 1,
                used2,
                cols,
                hl,
            )
        }
    }
}

/// Whether an index lies in the range to highlight.
pub open spec fn in_range(hl: Option<(int, int)>, i: int) -> bool {
    match hl {
        Some((a, b)) => a <= i < b,
        None => false,
    }
}

/// What is printed for one character.
pub open spec fn shown_cell(c: char, highlighted: bool) -> Seq<char> {
    if highlighted {
        "\x1b[100;97m"@ + seq![c] + "\x1b[m"@
    } else {
        seq![c]
    }
}

/// The columns that the first `n` characters of a text take, after `from`.
pub open spec fn columns_upto(text: Seq<char>, n: int, from: int) -> int
    decreases n,
{
    if n <= 0 || n > text.len() {
        from
    } else {
        capped_sum(columns_upto(text, n - 1, from), cell_width(text[n - 1]) as int)
    }
}

/// The move of the cursor to its column: nothing for column 0.
pub open spec fn cursor_move(column: int) -> Seq<char> {
    if column > 0 {
        "\x1b["@ + decimal(column as nat) + seq!['C']
    } else {
        seq![]
    }
}

/// One frame: back to the saved cursor, erase, the prompt, the line, back
/// again and forward to the cursor's column, and the cursor's shape: a bar in
/// insert and search mode, a block otherwise.
pub open spec fn frame_of(v: EditorView, prefix: Seq<char>, is_root: bool, cols: int) -> Seq<char> {
    let source = prompt_source(prefix, v.mode, is_root);
    let prompt = prompt_read(source, source.len() as int);
    let l = cur(v);
    "\x1b8\x1b[J"@ + prompt.text + shown_cells(l.text, 0, prompt.columns, cols, highlight_of(v))
        + "\x1b8"@ + cursor_move(columns_upto(l.text, l.cursor, prompt.columns)) + (if v.mode
        is Insert || v.mode is Search {
        "\x1b[6 q"@
    } else {
        "\x1b[2 q"@
    })
}

impl LineEditor {
    /// The part of the current line to highlight.
    pub fn highlight(&self) -> (r: Option<(usize, usize)>)
        requires
            self.wf(),
        ensures
            match highlight_of(self@) {
                Some((a, b)) => r == Some((a as usize, b as usize)) && 0 <= a <= usize::MAX && 0
                    <= b <= usize::MAX,
                None => r is None,
            },
    {
        proof {
            self.lemma_wf();
        }
        let line = self.line();
        match self.mode() {
            Mode::Visual(vis) => match vis.origin() {
                Some(o) => {
                    let c = line.cursor();
                    if o <= c {
                        Some((o, add_capped(c, 1)))
                    } else {
                        Some((c, add_capped(o, 1)))
                    }
                },
                None => Some((0, usize::MAX)),
            },
            Mode::Search(search) => {
                let text = chars_of(line.to_string().as_str());
                let query = chars_of(search.query().as_str());
                let n = text.len();
                match find_text(&text, &query) {
                    Some(from) => {
                        assert(from + query@.len() <= n);
                        Some((from, from + query.len()))
                    },
                    None => None,
                }
            },
            _ => None,
        }
    }

    /// The text to write to the terminal to show the editor as it is.
    /// `prompt_prefix` is the caller's part of the prompt, `is_root` says
    /// whether the user is the superuser, `cols` is the terminal's width.
    pub fn render(&self, prompt_prefix: &str, is_root: bool, cols: usize) -> (r: String)
        requires
            self.wf(),
        ensures
            r@ == frame_of(self@, prompt_prefix@, is_root, cols as int),
    {
        proof {
            self.lemma_wf();
        }
        let line = self.line();
        let mut source: Vec<char> = Vec::new();
        push_str(&mut source, prompt_prefix);
        source.push('(');
        match self.mode() {
            Mode::Insert(_) => push_str(&mut source, "\x1b[36;1m"),
            Mode::Normal(_) => push_str(&mut source, "\x1b[34;1m"),
            Mode::Visual(_) => push_str(&mut source, "\x1b[32;1m"),
            Mode::Search(_) => push_str(&mut source, "\x1b[38;5;209;1m"),
        }
        source.push(')');
        source.push(
            if is_root {
                '#'
            } else {
                '%'
            },
        );
        push_str(&mut source, "(\x1b[m) ");
        assert(source@ =~= prompt_source(prompt_prefix@, self@.mode, is_root));
        let (prompt, prompt_length) = unescape_prompt(string_of(&source).as_str());
        let hl = self.highlight();
        let ghost ghl = highlight_of(self@);
        let ghost text = line@.text;

        let mut out: Vec<char> = Vec::new();
        push_str(&mut out, "\x1b8\x1b[J");
        push_str(&mut out, prompt.as_str());
        let ghost head = out@;
        let cells = line.iter(0, line.len());
        assert(text.subrange(0, text.len() as int) =~= text);
        let mut used: usize = prompt_length;
        let mut i: usize = 0;
        let mut column: usize = prompt_length;
        let cursor = line.cursor();
        let mut full = false;
        while i < cells.len() && !full
            invariant
                i <= cells.len(),
                full ==> shown_cells(text, i as int, used as int, cols as int, ghl) == Seq::<
                    char,
                >::empty(),
                cells@ == crate::line_editor::line::cells_of(text),
                cells@.len() == text.len(),
                head + shown_cells(text, 0, prompt_length as int, cols as int, ghl) == out@
                    + shown_cells(text, i as int, used as int, cols as int, ghl),
                match ghl {
                    Some((a, b)) => hl == Some((a as usize, b as usize)) && 0 <= a <= usize::MAX
                        && 0 <= b <= usize::MAX,
                    None => hl is None,
                },
            decreases cells.len() - i + (if full { 0int } else { 1int }),
        {
            let (ch, width) = cells[i];
            assert(ch == text[i as int] && width == cell_width(text[i as int]));
            let used2 = add_capped(used, width);
            if used2 > cols {
                full = true;
            } else {
                let highlighted = match hl {
                    Some((a, b)) => a <= i && i < b,
                    None => false,
                };
                let ghost before = out@;
                if highlighted {
                    push_str(&mut out, "\x1b[100;97m");
                    out.push(ch);
                    push_str(&mut out, "\x1b[m");
                } else {
                    out.push(ch);
                }
                assert(out@ =~= before + shown_cell(ch, highlighted));
                assert(before + shown_cells(text, i as int, used as int, cols as int, ghl) =~= out@
                    + shown_cells(text, i + 1, used2 as int, cols as int, ghl));
                used = used2;
                i += 1;
            }
        }
        assert(out@ =~= head + shown_cells(text, 0, prompt_length as int, cols as int, ghl)) by {
            assert(shown_cells(text, i as int, used as int, cols as int, ghl) =~= seq![]);
        }
        let mut k: usize = 0;
        while k < cursor
            invariant
                k <= cursor <= cells.len(),
                cells@ == crate::line_editor::line::cells_of(text),
                cells@.len() == text.len(),
                column == columns_upto(text, k as int, prompt_length as int),
            decreases cursor - k,
        {
            column = add_capped(column, cells[k].1);
            k += 1;
        }
        push_str(&mut out, "\x1b8");
        if column > 0 {
            push_str(&mut out, "\x1b[");
            push_decimal(&mut out, column);
            out.push('C');
        }
        if self.mode().is_insert() {
            push_str(&mut out, "\x1b[6 q");
        } else {
            push_str(&mut out, "\x1b[2 q");
        }
        assert(out@ =~= frame_of(self@, prompt_prefix@, is_root, cols as int));
        string_of(&out)
    }
}

} // verus!
