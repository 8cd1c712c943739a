//! The line buffer: cells of a character and its display width, and a cursor.

use vstd::prelude::*;
use crate::chars::{cell_width, chars_of, display_width, is_alphanumeric_char, is_whitespace_char};

verus! {

/// The three classes that word motions tell apart.
#[derive(Debug, Clone, Copy, PartialEq, Eq, Hash, Structural)]
pub enum CharClass {
    WhiteSpace,
    Keyword,
    Other,
}

/// The class of a character: whitespace, keyword (alphanumeric or `_`), other.
pub open spec fn class_of(c: char) -> CharClass {
    if is_whitespace_char(c) {
        CharClass::WhiteSpace
    } else if is_alphanumeric_char(c) || c == '_' {
        CharClass::Keyword
    } else {
        CharClass::Other
    }
}

/// Whether two classes count as the same word: exactly equal for narrow words,
/// both blank or both not blank for wide ones.
pub open spec fn same_class(wide: bool, a: CharClass, b: CharClass) -> bool {
    if wide {
        (a == CharClass::WhiteSpace) == (b == CharClass::WhiteSpace)
    } else {
        a == b
    }
}

impl CharClass {
    pub fn is_whitespace(&self) -> (r: bool)
        ensures
            r == (*self == CharClass::WhiteSpace),
    {
        *self == CharClass::WhiteSpace
    }

    pub fn is_same(rough: bool, a: Self, b: Self) -> (r: bool)
        ensures
            r == same_class(rough, a, b),
    {
        if rough {
            (a.is_whitespace() && b.is_whitespace()) || (!a.is_whitespace() && !b.is_whitespace())
        } else {
            a == b
        }
    }
}

impl From<char> for CharClass {
    fn from(ch: char) -> (r: Self) {
        if ch.is_whitespace() {
            CharClass::WhiteSpace
        } else if ch.is_alphanumeric() || ch == '_' {
            CharClass::Keyword
        } else {
            CharClass::Other
        }
    }
}

impl vstd::std_specs::convert::FromSpecImpl<char> for CharClass {
    open spec fn obeys_from_spec() -> bool {
        true
    }

    open spec fn from_spec(ch: char) -> Self {
        class_of(ch)
    }
}

/// A test on one character, as the scans below apply it.
#[derive(Debug, Clone, Copy)]
pub enum CharTest {
    /// The character is whitespace.
    Blank,
    /// The character is not whitespace.
    NonBlank,
    /// The character belongs to the same (narrow or wide) word as `class`.
    Same { wide: bool, class: CharClass },
    /// The character differs from the given one.
    Not(char),
}

impl CharTest {
    pub open spec fn holds(self, c: char) -> bool {
        match self {
            CharTest::Blank => is_whitespace_char(c),
            CharTest::NonBlank => !is_whitespace_char(c),
            CharTest::Same { wide, class } => same_class(wide, class_of(c), class),
            CharTest::Not(x) => c != x,
        }
    }

    pub fn test(self, ch: char) -> (r: bool)
        ensures
            r == self.holds(ch),
    {
        match self {
            CharTest::Blank => ch.is_whitespace(),
            CharTest::NonBlank => !ch.is_whitespace(),
            CharTest::Same { wide, class } => CharClass::is_same(wide, CharClass::from(ch), class),
            CharTest::Not(x) => ch != x,
        }
    }
}

/// Where a scan to the right stops: the first index from `i` on that is not
/// below `limit` or whose character fails the test.
pub open spec fn skip_fwd(s: Seq<char>, i: int, limit: int, t: CharTest) -> int
    decreases limit - i,
{
    if 0 <= i < limit && limit <= s.len() && t.holds(s[i]) {
        skip_fwd(s, i + 1, limit, t)
    } else {
        i
    }
}

/// Where a scan to the left stops: the first index from `i` down that is 0 or
/// whose left neighbour fails the test.
pub open spec fn skip_back(s: Seq<char>, i: int, t: CharTest) -> int
    decreases i,
{
    if 0 < i <= s.len() && t.holds(s[i - 1]) {
        skip_back(s, i - 1, t)
    } else {
        i
    }
}

/// A scan to the right stops inside its bounds, everything it passed meets the
/// test, and it stopped at the limit or at a character that fails the test.
pub proof fn lemma_skip_fwd(s: Seq<char>, i: int, limit: int, t: CharTest)
    requires
        0 <= i <= limit <= s.len(),
    ensures
        i <= skip_fwd(s, i, limit, t) <= limit,
        forall|k: int| i <= k < skip_fwd(s, i, limit, t) ==> t.holds(#[trigger] s[k]),
        skip_fwd(s, i, limit, t) < limit ==> !t.holds(s[skip_fwd(s, i, limit, t)]),
    decreases limit - i,
{
    if i < limit && t.holds(s[i]) {
        lemma_skip_fwd(s, i + 1, limit, t);
    }
}

/// A scan to the left stops inside the line, everything it passed meets the
/// test, and it stopped at 0 or right of a character that fails the test.
pub proof fn lemma_skip_back(s: Seq<char>, i: int, t: CharTest)
    requires
        0 <= i <= s.len(),
    ensures
        0 <= skip_back(s, i, t) <= i,
        forall|k: int| skip_back(s, i, t) <= k < i ==> t.holds(#[trigger] s[k]),
        skip_back(s, i, t) > 0 ==> !t.holds(s[skip_back(s, i, t) - 1]),
    decreases i,
{
    if 0 < i && t.holds(s[i - 1]) {
        lemma_skip_back(s, i - 1, t);
    }
}

/// What a line is: its characters and the cursor, an index between 0 and the
/// number of characters.
pub struct LineView {
    pub text: Seq<char>,
    pub cursor: int,
}

/// The cells that a text is stored as.
pub open spec fn cells_of(text: Seq<char>) -> Seq<(char, usize)> {
    text.map_values(|c: char| (c, cell_width(c)))
}

/// The cursor that normal mode leaves: on the last character where it stood
/// past it.
pub open spec fn fixed_cursor(len: int, cursor: int) -> int {
    if cursor >= len {
        if len > 0 {
            len - 1
        } else {
            0
        }
    } else {
        cursor
    }
}

/// The text with the characters `[from, to)` taken out, both bounds cut to the
/// text's length.
pub open spec fn without_range(text: Seq<char>, from: int, to: int) -> Seq<char> {
    let f = if from < text.len() { from } else { text.len() as int };
    let t = if to < text.len() { to } else { text.len() as int };
    text.subrange(0, f) + text.subrange(t, text.len() as int)
}

/// The nearest index from `i` down that holds `target`.
pub open spec fn find_back(s: Seq<char>, i: int, target: char) -> Option<int>
    decreases i + 1,
{
    if i < 0 || i >= s.len() {
        None
    } else if s[i] == target {
        Some(i)
    } else {
        find_back(s, i - 1, target)
    }
}

/// The nearest index from `i` up that holds `target`.
pub open spec fn find_fwd(s: Seq<char>, i: int, target: char) -> Option<int>
    decreases s.len() - i,
{
    if i < 0 || i >= s.len() {
        None
    } else if s[i] == target {
        Some(i)
    } else {
        find_fwd(s, i + 1, target)
    }
}

/// `find_back` gives the nearest index from `i` down that holds the target,
/// and none only where no such index holds it.
pub proof fn lemma_find_back(s: Seq<char>, i: int, target: char)
    requires
        i < s.len(),
    ensures
        match find_back(s, i, target) {
            Some(j) => 0 <= j <= i && s[j] == target && forall|k: int|
                j < k <= i ==> #[trigger] s[k] != target,
            None => forall|k: int| 0 <= k <= i ==> #[trigger] s[k] != target,
        },
    decreases i + 1,
{
    if i >= 0 && s[i] != target {
        lemma_find_back(s, i - 1, target);
    }
}

/// `find_fwd` gives the nearest index from `i` on that holds the target, and
/// none only where no such index holds it.
pub proof fn lemma_find_fwd(s: Seq<char>, i: int, target: char)
    requires
        0 <= i,
    ensures
        match find_fwd(s, i, target) {
            Some(j) => i <= j < s.len() && s[j] == target && forall|k: int|
                i <= k < j ==> #[trigger] s[k] != target,
            None => forall|k: int| i <= k < s.len() ==> #[trigger] s[k] != target,
        },
    decreases s.len() - i,
{
    if i < s.len() && s[i] != target {
        lemma_find_fwd(s, i + 1, target);
    }
}

/// The cursor after `cursor_prev_char_match`.
pub open spec fn prev_char_match(s: Seq<char>, cursor: int, target: char) -> int {
    match find_back(s, cursor - 1, target) {
        Some(j) => j,
        None => cursor,
    }
}

/// The cursor after `cursor_next_char_match`.
pub open spec fn next_char_match(s: Seq<char>, cursor: int, target: char) -> int {
    match find_fwd(s, cursor + 1, target) {
        Some(j) => j,
        None => cursor,
    }
}

/// The line with a text put in at the cursor, and the cursor behind it.
pub open spec fn with_inserted(v: LineView, text: Seq<char>) -> LineView {
    LineView {
        text: v.text.subrange(0, v.cursor) + text + v.text.subrange(
            v.cursor,
            v.text.len() as int,
        ),
        cursor: v.cursor + text.len(),
    }
}

/// Where the word that `duplicate_current_word` copies begins.
pub open spec fn dup_word_begin(s: Seq<char>, cursor: int) -> int {
    skip_back(s, skip_back(s, cursor, CharTest::Blank), CharTest::NonBlank)
}

/// Where the word that `duplicate_current_word` copies ends.
pub open spec fn dup_word_end(s: Seq<char>, cursor: int) -> int {
    skip_fwd(s, skip_back(s, cursor, CharTest::Blank), s.len() as int, CharTest::NonBlank)
}

/// The line after `duplicate_current_word`.
pub open spec fn duplicated(v: LineView) -> LineView {
    let b = dup_word_begin(v.text, v.cursor);
    let e = dup_word_end(v.text, v.cursor);
    let back = if e > v.cursor { e - v.cursor } else { 0 };
    LineView {
        text: v.text.subrange(0, e) + seq![' '] + v.text.subrange(b, e) + v.text.subrange(
            e,
            v.text.len() as int,
        ),
        cursor: e + 1 + (e - b) - back,
    }
}

/// The cursor after `cursor_next_word_head`.
pub open spec fn next_word_head(s: Seq<char>, cursor: int, wide: bool) -> int {
    if cursor >= s.len() {
        cursor
    } else {
        let t = CharTest::Same { wide, class: class_of(s[cursor]) };
        skip_fwd(s, skip_fwd(s, cursor, s.len() - 1, t), s.len() - 1, CharTest::Blank)
    }
}

/// The cursor after `cursor_prev_word_head`.
pub open spec fn prev_word_head(s: Seq<char>, cursor: int, wide: bool) -> int {
    let c = skip_back(s, cursor, CharTest::Blank);
    if c == 0 {
        0
    } else {
        skip_back(s, c, CharTest::Same { wide, class: class_of(s[c - 1]) })
    }
}

/// The cursor after `cursor_next_word_end`.
pub open spec fn next_word_end(s: Seq<char>, cursor: int, wide: bool) -> int {
    let c0 = if cursor < s.len() { cursor + 1 } else { cursor };
    let c = skip_fwd(s, c0, s.len() - 1, CharTest::Blank);
    if c >= s.len() {
        c
    } else {
        skip_fwd(s, c + 1, s.len() as int, CharTest::Same { wide, class: class_of(s[c]) }) - 1
    }
}

/// The line after `delete_word`: the blanks left of the cursor go, then one
/// narrow word.
pub open spec fn word_deleted(v: LineView) -> LineView {
    let c = skip_back(v.text, v.cursor, CharTest::Blank);
    let b = if c == 0 {
        0
    } else {
        skip_back(v.text, c, CharTest::Same { wide: false, class: class_of(v.text[c - 1]) })
    };
    LineView { text: without_range(v.text, b, v.cursor), cursor: b }
}

/// The last word of a text, if the text ends in one.
pub open spec fn last_word_of(s: Seq<char>, wide: bool) -> Option<Seq<char>> {
    if s.len() == 0 || is_whitespace_char(s.last()) {
        None
    } else {
        let t = CharTest::Same { wide, class: class_of(s.last()) };
        Some(s.subrange(skip_back(s, s.len() - 1, t), s.len() as int))
    }
}

#[derive(Debug, PartialEq, Eq)]
pub struct Line {
    buf: Vec<(char, usize)>,
    cursor: usize,
}

impl Clone for Line {
    fn clone(&self) -> (r: Self)
        ensures
            r@ == self@,
            r.wf() == self.wf(),
    {
        let mut buf: Vec<(char, usize)> = Vec::new();
        let mut i: usize = 0;
        while i < self.buf.len()
            invariant
                i <= self.buf.len(),
                buf@ == self.buf@.subrange(0, i as int),
            decreases self.buf.len() - i,
        {
            buf.push(self.buf[i]);
            i += 1;
            assert(buf@ =~= self.buf@.subrange(0, i as int));
        }
        assert(buf@ =~= self.buf@);
        Self { buf, cursor: self.cursor }
    }
}

impl View for Line {
    type V = LineView;

    closed spec fn view(&self) -> LineView {
        LineView { text: self.buf@.map_values(|c: (char, usize)| c.0), cursor: self.cursor as int }
    }
}

impl Line {
    /// The cursor is inside the line or right after it, and each cell holds the
    /// display width of its character.
    pub closed spec fn wf(&self) -> bool {
        &&& self.cursor <= self.buf@.len()
        &&& forall|i: int|
            0 <= i < self.buf@.len() ==> (#[trigger] self.buf@[i]).1 == cell_width(self.buf@[i].0)
    }

    /// In a well-formed line the cursor is between 0 and the length.
    pub proof fn lemma_wf(&self)
        requires
            self.wf(),
        ensures
            0 <= self@.cursor <= self@.text.len(),
    {
    }

    proof fn lemma_cells(&self)
        requires
            self.wf(),
        ensures
            self.buf@ == cells_of(self@.text),
            self@.text.len() == self.buf@.len(),
            forall|i: int| 0 <= i < self.buf@.len() ==> self@.text[i] == (#[trigger] self.buf@[i]).0,
    {
        assert(self.buf@ =~= cells_of(self@.text));
    }

    pub fn new() -> (r: Self)
        ensures
            r.wf(),
            r@.text == Seq::<char>::empty(),
            r@.cursor == 0,
    {
        let r = Self { buf: Vec::new(), cursor: 0 };
        assert(r@.text =~= Seq::<char>::empty());
        r
    }

    /// The line that holds the characters of `s`, with the cursor at its start.
    pub fn from_str(s: &str) -> (r: Self)
        ensures
            r.wf(),
            r@.text == s@,
            r@.cursor == 0,
    {
        let chars = chars_of(s);
        let mut buf: Vec<(char, usize)> = Vec::new();
        let mut i: usize = 0;
        while i < chars.len()
            invariant
                i <= chars.len(),
                buf@.len() == i,
                forall|k: int| 0 <= k < i ==> #[trigger] buf@[k] == (chars@[k], cell_width(chars@[k])),
            decreases chars.len() - i,
        {
            let ch = chars[i];
            buf.push((ch, display_width(ch)));
            i += 1;
        }
        let r = Self { buf, cursor: 0 };
        assert(r@.text =~= s@);
        r
    }

    /// The text of the line as a string.
    pub fn to_string(&self) -> (r: String)
        ensures
            r@ == self@.text,
    {
        let mut s = String::new();
        let mut i: usize = 0;
        while i < self.buf.len()
            invariant
                i <= self.buf.len(),
                s@ == self@.text.subrange(0, i as int),
            decreases self.buf.len() - i,
        {
            s.push(self.buf[i].0);
            i += 1;
            assert(s@ =~= self@.text.subrange(0, i as int));
        }
        assert(self@.text.subrange(0, self.buf.len() as int) =~= self@.text);
        s
    }

    /// The cells `[from, to)`, each a character with its display width.
    pub fn iter(&self, from: usize, to: usize) -> (r: Vec<(char, usize)>)
        requires
            self.wf(),
            from <= to <= self@.text.len(),
        ensures
            r@ == cells_of(self@.text.subrange(from as int, to as int)),
    {
        proof {
            self.lemma_cells();
        }
        let mut r: Vec<(char, usize)> = Vec::new();
        let mut i: usize = from;
        while i < to
            invariant
                from <= i <= to <= self.buf.len(),
                r@ == self.buf@.subrange(from as int, i as int),
            decreases to - i,
        {
            r.push(self.buf[i]);
            i += 1;
            assert(r@ =~= self.buf@.subrange(from as int, i as int));
        }
        assert(r@ =~= cells_of(self@.text.subrange(from as int, to as int)));
        r
    }

    /// The characters `[from, to)` as a string.
    pub fn substring(&self, from: usize, to: usize) -> (r: String)
        requires
            from <= to <= self@.text.len(),
        ensures
            r@ == self@.text.subrange(from as int, to as int),
    {
        let mut s = String::new();
        let mut i: usize = from;
        while i < to
            invariant
                from <= i <= to <= self.buf.len(),
                s@ == self@.text.subrange(from as int, i as int),
            decreases to - i,
        {
            s.push(self.buf[i].0);
            i += 1;
            assert(s@ =~= self@.text.subrange(from as int, i as int));
        }
        s
    }

    pub fn char_at(&self, at: usize) -> (r: Option<char>)
        ensures
            r == if at < self@.text.len() {
                Some(self@.text[at as int])
            } else {
                None
            },
    {
        if at < self.buf.len() {
            Some(self.buf[at].0)
        } else {
            None
        }
    }

    pub fn cursor(&self) -> (r: usize)
        ensures
            r == self@.cursor,
    {
        self.cursor
    }

    pub fn len(&self) -> (r: usize)
        ensures
            r == self@.text.len(),
    {
        self.buf.len()
    }

    /// Scans right from `i` while the test holds, not past `limit`.
    pub fn scan_fwd(&self, i: usize, limit: usize, t: CharTest) -> (r: usize)
        requires
            i <= limit <= self@.text.len(),
        ensures
            r == skip_fwd(self@.text, i as int, limit as int, t),
            i <= r <= limit,
    {
        let mut j: usize = i;
        while j < limit && t.test(self.buf[j].0)
            invariant
                i <= j <= limit <= self.buf.len(),
                skip_fwd(self@.text, j as int, limit as int, t) == skip_fwd(
                    self@.text,
                    i as int,
                    limit as int,
                    t,
                ),
            decreases limit - j,
        {
            j += 1;
        }
        j
    }

    /// Scans left from `i` while the test holds of the character before.
    pub fn scan_back(&self, i: usize, t: CharTest) -> (r: usize)
        requires
            i <= self@.text.len(),
        ensures
            r == skip_back(self@.text, i as int, t),
            r <= i,
    {
        let mut j: usize = i;
        while j > 0 && t.test(self.buf[j - 1].0)
            invariant
                j <= i <= self.buf.len(),
                skip_back(self@.text, j as int, t) == skip_back(self@.text, i as int, t),
            decreases j,
        {
            j -= 1;
        }
        j
    }

    pub fn last_word(&self, wide: bool) -> (r: Option<String>)
        ensures
            match last_word_of(self@.text, wide) {
                Some(w) => r is Some && r->0@ == w,
                None => r is None,
            },
    {
        let n = self.buf.len();
        if n == 0 {
            return None;
        }
        let word_class = CharClass::from(self.buf[n - 1].0);
        if word_class.is_whitespace() {
            return None;
        }
        let i = self.scan_back(n - 1, CharTest::Same { wide, class: word_class });
        Some(self.substring(i, n))
    }

    /// Puts a character in at the cursor and moves the cursor past it.
    pub fn insert(&mut self, ch: char)
        requires
            old(self).wf(),
            old(self)@.text.len() < usize::MAX,
        ensures
            final(self).wf(),
            final(self)@.text == old(self)@.text.insert(old(self)@.cursor, ch),
            final(self)@.cursor == old(self)@.cursor + 1,
    {
        let width = display_width(ch);
        self.buf.insert(self.cursor, (ch, width));
        self.cursor += 1;
        assert(self@.text =~= old(self)@.text.insert(old(self)@.cursor, ch));
    }

    pub fn delete_prev(&mut self)
        requires
            old(self).wf(),
        ensures
            final(self).wf(),
            final(self)@ == if old(self)@.cursor > 0 {
                LineView {
                    text: old(self)@.text.remove(old(self)@.cursor - 1),
                    cursor: old(self)@.cursor - 1,
                }
            } else {
                old(self)@
            },
    {
        if self.cursor > 0 {
            self.buf.remove(self.cursor - 1);
            self.cursor -= 1;
            assert(self@.text =~= old(self)@.text.remove(old(self)@.cursor - 1));
        }
    }

    pub fn delete_next(&mut self)
        requires
            old(self).wf(),
        ensures
            final(self).wf(),
            final(self)@.cursor == old(self)@.cursor,
            final(self)@.text == if old(self)@.cursor < old(self)@.text.len() {
                old(self)@.text.remove(old(self)@.cursor)
            } else {
                old(self)@.text
            },
    {
        if self.cursor < self.buf.len() {
            self.buf.remove(self.cursor);
            assert(self@.text =~= old(self)@.text.remove(old(self)@.cursor));
        }
    }

    pub fn delete_word(&mut self)
        requires
            old(self).wf(),
        ensures
            final(self).wf(),
            final(self)@ == word_deleted(old(self)@),
    {
        let c = self.scan_back(self.cursor, CharTest::Blank);
        let b = if c == 0 {
            0
        } else {
            let word_class = CharClass::from(self.buf[c - 1].0);
            self.scan_back(c, CharTest::Same { wide: false, class: word_class })
        };
        let end = self.cursor;
        self.delete_range(b, end);
    }

    pub fn delete_line(&mut self)
        ensures
            final(self).wf(),
            final(self)@.text == Seq::<char>::empty(),
            final(self)@.cursor == 0,
    {
        self.cursor = 0;
        self.buf.clear();
        assert(self@.text =~= Seq::<char>::empty());
    }

    /// Deletes the characters in `[from, to)` and leaves the cursor at `from`,
    /// or at the end of the line where `from` lies past it.
    pub fn delete_range(&mut self, from: usize, to: usize)
        requires
            old(self).wf(),
            from <= to,
        ensures
            final(self).wf(),
            final(self)@.text == without_range(old(self)@.text, from as int, to as int),
            final(self)@.cursor == if from <= old(self)@.text.len() {
                from as int
            } else {
                old(self)@.text.len() as int
            },
    {
        let n = self.buf.len();
        let mut new_buf: Vec<(char, usize)> = Vec::new();
        let mut i: usize = 0;
        let ghost f: int = if from < n { from as int } else { n as int };
        let ghost t: int = if to < n { to as int } else { n as int };
        while i < n
            invariant
                i <= n,
                n == self.buf@.len(),
                from <= to,
                f == if from < n { from as int } else { n as int },
                t == if to < n { to as int } else { n as int },
                self.buf == old(self).buf,
                new_buf@ == if i <= f {
                    self.buf@.subrange(0, i as int)
                } else if i <= t {
                    self.buf@.subrange(0, f)
                } else {
                    self.buf@.subrange(0, f) + self.buf@.subrange(t, i as int)
                },
            decreases n - i,
        {
            if !(from <= i && i < to) {
                new_buf.push(self.buf[i]);
            }
            i += 1;
            assert(new_buf@ =~= if i <= f {
                self.buf@.subrange(0, i as int)
            } else if i <= t {
                self.buf@.subrange(0, f)
            } else {
                self.buf@.subrange(0, f) + self.buf@.subrange(t, i as int)
            });
        }
        assert(new_buf@ =~= self.buf@.subrange(0, f) + self.buf@.subrange(t, n as int));
        self.buf = new_buf;
        self.cursor = if from <= self.buf.len() {
            from
        } else {
            self.buf.len()
        };
        assert(self@.text =~= without_range(old(self)@.text, from as int, to as int));
    }

    pub fn duplicate_current_word(&mut self)
        requires
            old(self).wf(),
            2 * old(self)@.text.len() + 1 <= usize::MAX,
        ensures
            final(self).wf(),
            final(self)@ == duplicated(old(self)@),
    {
        let cursor_pos = self.cursor;
        let base = self.scan_back(cursor_pos, CharTest::Blank);
        let word_begin = self.scan_back(base, CharTest::NonBlank);
        let word_end = self.scan_fwd(base, self.buf.len(), CharTest::NonBlank);
        let back: usize = if word_end > cursor_pos {
            word_end - cursor_pos
        } else {
            0
        };
        let ghost text0 = self@.text;
        self.cursor = word_end;
        self.insert(' ');
        let mut i: usize = word_begin;
        while i < word_end
            invariant
                word_begin <= i <= word_end <= text0.len(),
                2 * text0.len() + 1 <= usize::MAX,
                self.wf(),
                self@.cursor == word_end + 1 + (i - word_begin),
                self@.text == text0.subrange(0, word_end as int) + seq![' '] + text0.subrange(
                    word_begin as int,
                    i as int,
                ) + text0.subrange(word_end as int, text0.len() as int),
            decreases word_end - i,
        {
            assert(self@.text[i as int] == text0[i as int]);
            let ch = self.buf[i].0;
            self.insert(ch);
            i += 1;
            assert(self@.text =~= text0.subrange(0, word_end as int) + seq![' ']
                + text0.subrange(word_begin as int, i as int) + text0.subrange(
                word_end as int,
                text0.len() as int,
            ));
        }
        self.cursor = self.cursor - back;
    }

    pub fn cursor_prev_char(&mut self)
        requires
            old(self).wf(),
        ensures
            final(self).wf(),
            final(self)@.text == old(self)@.text,
            final(self)@.cursor == if old(self)@.cursor > 0 {
                old(self)@.cursor - 1
            } else {
                0
            },
    {
        if self.cursor > 0 {
            self.cursor -= 1;
        }
    }

    pub fn cursor_next_char(&mut self)
        requires
            old(self).wf(),
        ensures
            final(self).wf(),
            final(self)@.text == old(self)@.text,
            final(self)@.cursor == if old(self)@.cursor < old(self)@.text.len() {
                old(self)@.cursor + 1
            } else {
                old(self)@.cursor
            },
    {
        if self.cursor < self.buf.len() {
            self.cursor += 1;
        }
    }

    /// Moves left to the nearest cell that holds `target`. Without such a
    /// cell the cursor stays.
    pub fn cursor_prev_char_match(&mut self, target: char)
        requires
            old(self).wf(),
        ensures
            final(self).wf(),
            final(self)@.text == old(self)@.text,
            final(self)@.cursor == prev_char_match(old(self)@.text, old(self)@.cursor, target),
    {
        let mut i: usize = self.cursor;
        while i > 0
            invariant
                self.wf(),
                *self == *old(self),
                i <= self.cursor,
                find_back(self@.text, i - 1, target) == find_back(
                    self@.text,
                    self.cursor - 1,
                    target,
                ),
            decreases i,
        {
            if self.buf[i - 1].0 == target {
                self.cursor = i - 1;
                return;
            }
            i -= 1;
        }
    }

    /// Moves right to the nearest cell that holds `target`. Without such a
    /// cell the cursor stays.
    pub fn cursor_next_char_match(&mut self, target: char)
        requires
            old(self).wf(),
        ensures
            final(self).wf(),
            final(self)@.text == old(self)@.text,
            final(self)@.cursor == next_char_match(old(self)@.text, old(self)@.cursor, target),
    {
        let len = self.buf.len();
        if self.cursor >= len {
            return;
        }
        let mut i: usize = self.cursor + 1;
        while i < len
            invariant
                self.wf(),
                *self == *old(self),
                len == self.buf.len(),
                self.cursor < i <= len,
                find_fwd(self@.text, i as int, target) == find_fwd(
                    self@.text,
                    self.cursor + 1,
                    target,
                ),
            decreases len - i,
        {
            if self.buf[i].0 == target {
                self.cursor = i;
                return;
            }
            i += 1;
        }
    }

    /// Puts the characters of `text` in at the cursor and moves the cursor
    /// past them.
    pub fn insert_all(&mut self, text: &Vec<char>)
        requires
            old(self).wf(),
            old(self)@.text.len() + text@.len() <= usize::MAX,
        ensures
            final(self).wf(),
            final(self)@ == with_inserted(old(self)@, text@),
    {
        let mut i: usize = 0;
        let ghost v0 = self@;
        proof {
            self.lemma_wf();
            assert(self@.text =~= v0.text.subrange(0, v0.cursor) + text@.take(0) + v0.text.subrange(
                v0.cursor,
                v0.text.len() as int,
            ));
        }
        while i < text.len()
            invariant
                i <= text.len(),
                self.wf(),
                0 <= v0.cursor <= v0.text.len(),
                v0.text.len() + text@.len() <= usize::MAX,
                self@.cursor == v0.cursor + i,
                self@.text == v0.text.subrange(0, v0.cursor) + text@.take(i as int)
                    + v0.text.subrange(v0.cursor, v0.text.len() as int),
            decreases text.len() - i,
        {
            self.insert(text[i]);
            i += 1;
            assert(self@.text =~= v0.text.subrange(0, v0.cursor) + text@.take(i as int)
                + v0.text.subrange(v0.cursor, v0.text.len() as int));
        }
        assert(text@.take(i as int) =~= text@);
    }

    pub fn cursor_prev_word_head(&mut self, wide: bool)
        requires
            old(self).wf(),
        ensures
            final(self).wf(),
            final(self)@.text == old(self)@.text,
            final(self)@.cursor == prev_word_head(old(self)@.text, old(self)@.cursor, wide),
    {
        let c = self.scan_back(self.cursor, CharTest::Blank);
        if c == 0 {
            self.cursor = 0;
            return;
        }
        let word_class = CharClass::from(self.buf[c - 1].0);
        self.cursor = self.scan_back(c, CharTest::Same { wide, class: word_class });
    }

    pub fn cursor_next_word_head(&mut self, wide: bool)
        requires
            old(self).wf(),
        ensures
            final(self).wf(),
            final(self)@.text == old(self)@.text,
            final(self)@.cursor == next_word_head(old(self)@.text, old(self)@.cursor, wide),
    {
        let len = self.buf.len();
        if self.cursor == len {
            return;
        }
        let word_class = CharClass::from(self.buf[self.cursor].0);
        let c = self.scan_fwd(self.cursor, len - 1, CharTest::Same { wide, class: word_class });
        self.cursor = self.scan_fwd(c, len - 1, CharTest::Blank);
    }

    pub fn cursor_next_word_end(&mut self, wide: bool)
        requires
            old(self).wf(),
        ensures
            final(self).wf(),
            final(self)@.text == old(self)@.text,
            final(self)@.cursor == next_word_end(old(self)@.text, old(self)@.cursor, wide),
    {
        self.cursor_next_char();
        let len = self.buf.len();
        if len == 0 {
            return;
        }
        if self.cursor == len {
            return;
        }
        let c = self.scan_fwd(self.cursor, len - 1, CharTest::Blank);
        let word_class = CharClass::from(self.buf[c].0);
        let e = self.scan_fwd(c + 1, len, CharTest::Same { wide, class: word_class });
        self.cursor = e - 1;
    }

    pub fn cursor_end_of_line(&mut self)
        requires
            old(self).wf(),
        ensures
            final(self).wf(),
            final(self)@.text == old(self)@.text,
            final(self)@.cursor == old(self)@.text.len(),
    {
        self.cursor = self.buf.len();
    }

    /// Moves to the first character of the line that is not whitespace.
    pub fn cursor_begin_of_line(&mut self)
        requires
            old(self).wf(),
        ensures
            final(self).wf(),
            final(self)@.text == old(self)@.text,
            final(self)@.cursor == skip_fwd(
                old(self)@.text,
                0,
                old(self)@.text.len() as int,
                CharTest::Blank,
            ),
    {
        self.cursor = self.scan_fwd(0, self.buf.len(), CharTest::Blank);
    }

    pub fn cursor_very_begin_of_line(&mut self)
        requires
            old(self).wf(),
        ensures
            final(self).wf(),
            final(self)@.text == old(self)@.text,
            final(self)@.cursor == 0,
    {
        self.cursor = 0;
    }

    /// Moves to `pos`, or to the end of the line where `pos` lies past it.
    pub fn cursor_exact(&mut self, pos: usize)
        requires
            old(self).wf(),
        ensures
            final(self).wf(),
            final(self)@.text == old(self)@.text,
            final(self)@.cursor == if pos <= old(self)@.text.len() {
                pos as int
            } else {
                old(self)@.text.len() as int
            },
    {
        self.cursor = if pos <= self.buf.len() {
            pos
        } else {
            self.buf.len()
        };
    }

    pub fn normal_mode_fix_cursor(&mut self)
        requires
            old(self).wf(),
        ensures
            final(self).wf(),
            final(self)@.text == old(self)@.text,
            final(self)@.cursor == fixed_cursor(
                old(self)@.text.len() as int,
                old(self)@.cursor,
            ),
    {
        if self.cursor >= self.buf.len() {
            self.cursor = if self.buf.len() > 0 {
                self.buf.len() - 1
            } else {
                0
            };
        }
    }
}

} // verus!
