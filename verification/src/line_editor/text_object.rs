//! Text objects: a selector and an object, resolved to a range of the line.

use vstd::prelude::*;
use crate::line_editor::line::{class_of, skip_back, skip_fwd, CharClass, CharTest, Line, LineView};

verus! {

#[derive(Debug, Clone, Copy, PartialEq, Eq)]
pub enum Selector {
    An,
    Inside,
}

#[derive(Debug, Clone, Copy, PartialEq, Eq)]
pub enum TextObject {
    Word { wide: bool },
    Pair { begin: char, end: char },
}

/// Where the scan for the opening delimiter stops: the first index from `i`
/// down that is 0 or holds `ch`.
pub open spec fn skip_back_onto(s: Seq<char>, i: int, ch: char) -> int
    decreases i,
{
    if 0 < i && !(i < s.len() && s[i] == ch) {
        skip_back_onto(s, i - 1, ch)
    } else {
        i
    }
}

/// The scan for the opening delimiter stops at 0 or on the delimiter, and no
/// index that it passed holds the delimiter.
pub proof fn lemma_skip_back_onto(s: Seq<char>, i: int, ch: char)
    requires
        0 <= i,
    ensures
        0 <= skip_back_onto(s, i, ch) <= i,
        skip_back_onto(s, i, ch) > 0 ==> skip_back_onto(s, i, ch) < s.len() && s[skip_back_onto(
            s,
            i,
            ch,
        )] == ch,
        forall|k: int| skip_back_onto(s, i, ch) < k <= i && k < s.len() ==> #[trigger] s[k] != ch,
    decreases i,
{
    if 0 < i && !(i < s.len() && s[i] == ch) {
        lemma_skip_back_onto(s, i - 1, ch);
    }
}

/// The half-open range `(from, to)` that a selector and an object name on a
/// line.
pub open spec fn text_range(v: LineView, selector: Selector, object: TextObject) -> (int, int) {
    let s = v.text;
    let c = v.cursor;
    let n = s.len() as int;
    match object {
        TextObject::Word { wide } => {
            if c >= n {
                (0, 0)
            } else {
                let t = CharTest::Same { wide, class: class_of(s[c]) };
                let from = skip_back(s, c, t);
                let to = skip_fwd(s, c, n, t);
                match selector {
                    Selector::Inside => (from, to),
                    Selector::An => (
                        skip_back(s, from, CharTest::Blank),
                        skip_fwd(s, to, n, CharTest::Blank),
                    ),
                }
            }
        },
        TextObject::Pair { begin, end } => {
            let stop = skip_fwd(s, c, n, CharTest::Not(end));
            match selector {
                Selector::Inside => (skip_back(s, c, CharTest::Not(begin)), stop),
                Selector::An => (
                    skip_back_onto(s, c, begin),
                    if stop < n {
                        stop + 1
                    } else {
                        stop
                    },
                ),
            }
        },
    }
}

/// On an empty line every text object is the empty range at 0.
pub proof fn lemma_text_range_empty(v: LineView, selector: Selector, object: TextObject)
    requires
        v.text.len() == 0,
        v.cursor == 0,
    ensures
        text_range(v, selector, object) == (0int, 0int),
{
}

/// A text object lies inside the line, and its start is not right of the
/// cursor.
pub proof fn lemma_text_range_bounds(v: LineView, selector: Selector, object: TextObject)
    requires
        0 <= v.cursor <= v.text.len(),
    ensures
        0 <= text_range(v, selector, object).0 <= text_range(v, selector, object).1
            <= v.text.len(),
        text_range(v, selector, object).0 <= v.cursor,
{
    let s = v.text;
    let c = v.cursor;
    let n = s.len() as int;
    match object {
        TextObject::Word { wide } => {
            if c < n {
                let t = CharTest::Same { wide, class: class_of(s[c]) };
                crate::line_editor::line::lemma_skip_back(s, c, t);
                crate::line_editor::line::lemma_skip_fwd(s, c, n, t);
                crate::line_editor::line::lemma_skip_back(s, skip_back(s, c, t), CharTest::Blank);
                crate::line_editor::line::lemma_skip_fwd(
                    s,
                    skip_fwd(s, c, n, t),
                    n,
                    CharTest::Blank,
                );
            }
        },
        TextObject::Pair { begin, end } => {
            crate::line_editor::line::lemma_skip_fwd(s, c, n, CharTest::Not(end));
            crate::line_editor::line::lemma_skip_back(s, c, CharTest::Not(begin));
            lemma_skip_back_onto(s, c, begin);
        },
    }
}

fn scan_back_onto(line: &Line, i: usize, ch: char) -> (r: usize)
    ensures
        r == skip_back_onto(line@.text, i as int, ch),
        r <= i,
{
    let mut j: usize = i;
    while j > 0 && line.char_at(j) != Some(ch)
        invariant
            j <= i,
            skip_back_onto(line@.text, j as int, ch) == skip_back_onto(line@.text, i as int, ch),
        decreases j,
    {
        j -= 1;
    }
    j
}

pub fn find_range(line: &Line, selector: Selector, object: TextObject) -> (r: (usize, usize))
    requires
        line.wf(),
    ensures
        (r.0 as int, r.1 as int) == text_range(line@, selector, object),
        r.0 <= r.1 <= line@.text.len(),
{
    proof {
        line.lemma_wf();
        lemma_text_range_bounds(line@, selector, object);
    }
    let cursor = line.cursor();
    let len = line.len();
    match object {
        TextObject::Word { wide } => {
            let word_class = match line.char_at(cursor) {
                Some(ch) => CharClass::from(ch),
                None => {
                    return (0, 0);
                },
            };
            let t = CharTest::Same { wide, class: word_class };
            let from = line.scan_back(cursor, t);
            let to = line.scan_fwd(cursor, len, t);
            match selector {
                Selector::Inside => (from, to),
                Selector::An => (
                    line.scan_back(from, CharTest::Blank),
                    line.scan_fwd(to, len, CharTest::Blank),
                ),
            }
        },
        TextObject::Pair { begin, end } => {
            let stop = line.scan_fwd(cursor, len, CharTest::Not(end));
            match selector {
                Selector::Inside => (line.scan_back(cursor, CharTest::Not(begin)), stop),
                Selector::An => {
                    let from = scan_back_onto(line, cursor, begin);
                    let to = if stop < len {
                        stop + 1
                    } else {
                        stop
                    };
                    (from, to)
                },
            }
        },
    }
}

} // verus!
