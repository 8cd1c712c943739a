//! The completion cycle: the candidates for the line as it was when they were
//! asked for, handed out one after the other.

use vstd::prelude::*;
use crate::chars::{chars_of, string_of};
use crate::completion::{texts, word_texts, Complete};

verus! {

/// Whether a character separates the words of a line: an ASCII blank.
pub open spec fn is_word_break(c: char) -> bool {
    c == ' ' || c == '\t' || c == '\n' || c == '\x0C' || c == '\r'
}

/// The words read so far in the first `n` characters: those that are complete,
/// and the one that is still open.
pub open spec fn words_read(s: Seq<char>, n: int) -> (Seq<Seq<char>>, Seq<char>)
    decreases n,
{
    if n <= 0 || n > s.len() {
        (seq![], seq![])
    } else {
        let (done, open) = words_read(s, n - 1);
        if is_word_break(s[n - 1]) {
            if open.len() > 0 {
                (done.push(open), seq![])
            } else {
                (done, open)
            }
        } else {
            (done, open.push(s[n - 1]))
        }
    }
}

/// The words of a line for completion: its runs of characters other than
/// blanks, and an empty word behind them where the line ends in a space.
pub open spec fn completion_words(line: Seq<char>) -> Seq<Seq<char>> {
    let (done, open) = words_read(line, line.len() as int);
    let words = if open.len() > 0 {
        done.push(open)
    } else {
        done
    };
    if line.len() > 0 && line.last() == ' ' {
        words.push(seq![])
    } else {
        words
    }
}

/// Splits a line into its words for completion.
pub fn split_words(line: &str) -> (r: Vec<String>)
    ensures
        texts(r@) == completion_words(line@),
{
    let chars = chars_of(line);
    let mut done: Vec<String> = Vec::new();
    let mut open: Vec<char> = Vec::new();
    let mut i: usize = 0;
    assert(texts(done@) =~= seq![]);
    while i < chars.len()
        invariant
            i <= chars.len(),
            chars@ == line@,
            (texts(done@), open@) == words_read(line@, i as int),
        decreases chars.len() - i,
    {
        let ch = chars[i];
        let ghost before = texts(done@);
        if ch == ' ' || ch == '\t' || ch == '\n' || ch == '\x0C' || ch == '\r' {
            if open.len() > 0 {
                let w = string_of(&open);
                done.push(w);
                assert(texts(done@) =~= before.push(open@));
                open = Vec::new();
            }
        } else {
            open.push(ch);
        }
        i += 1;
    }
    let ghost before = texts(done@);
    if open.len() > 0 {
        let w = string_of(&open);
        done.push(w);
        assert(texts(done@) =~= before.push(open@));
    }
    let ghost words = texts(done@);
    if chars.len() > 0 && chars[chars.len() - 1] == ' ' {
        done.push(String::new());
        assert(texts(done@) =~= words.push(seq![]));
    }
    done
}

/// The state of the completion cycle.
pub struct CompletionEngine {
    candidates: Vec<String>,
    line: String,
    dirty: u8,
}

/// The candidates still in the cycle, the one handed out last standing last;
/// the line they were asked for; and how far the cycle is: 0 cleared, 1 asked,
/// 2 handing out.
pub struct EngineView {
    pub candidates: Seq<Seq<char>>,
    pub line: Seq<char>,
    pub dirty: u8,
}

impl View for CompletionEngine {
    type V = EngineView;

    closed spec fn view(&self) -> EngineView {
        EngineView { candidates: texts(self.candidates@), line: self.line@, dirty: self.dirty }
    }
}

/// The engine after it was asked to take the candidates for `line`: nothing
/// changes where it holds those of the same line.
pub open spec fn updated<C: Complete>(v: EngineView, completion: &C, line: Seq<char>) -> EngineView {
    if v.line == line {
        v
    } else {
        EngineView {
            candidates: completion.candidates_of(completion_words(line)),
            line,
            dirty: 1,
        }
    }
}

/// The engine after it handed out the next candidate: the first one moves to
/// the end.
pub open spec fn rotated(v: EngineView) -> EngineView {
    if v.candidates.len() == 0 {
        v
    } else {
        EngineView {
            candidates: v.candidates.drop_first().push(v.candidates[0]),
            line: v.line,
            dirty: 2,
        }
    }
}

/// The candidate handed out last, if the cycle is handing out.
pub open spec fn previous(v: EngineView) -> Option<Seq<char>> {
    if v.dirty == 2 && v.candidates.len() > 0 {
        Some(v.candidates.last())
    } else {
        None
    }
}

impl CompletionEngine {
    pub fn new() -> (r: Self)
        ensures
            r@ == (EngineView { candidates: seq![], line: seq![], dirty: 0 }),
    {
        let r = Self { candidates: Vec::new(), line: String::new(), dirty: 0 };
        assert(r@.candidates =~= seq![]);
        assert(r@.line =~= seq![]);
        r
    }

    pub fn clear(&mut self)
        ensures
            final(self)@ == (EngineView { candidates: seq![], line: seq![], dirty: 0 }),
    {
        self.candidates.clear();
        self.line = String::new();
        self.dirty = 0;
        assert(self@.candidates =~= seq![]);
        assert(self@.line =~= seq![]);
    }

    pub fn cleared(&self) -> (r: bool)
        ensures
            r == (self@.dirty == 0),
    {
        self.dirty == 0
    }

    /// Asks the provider for the candidates of `line`, unless the engine holds
    /// those of the same line.
    pub fn update<C: Complete>(&mut self, completion: &C, line: String)
        ensures
            final(self)@ == updated(old(self)@, completion, line@),
    {
        if self.line != line {
            let words = split_words(line.as_str());
            let mut refs: Vec<&str> = Vec::new();
            let mut i: usize = 0;
            assert(word_texts(refs@) =~= texts(words@).take(0));
            while i < words.len()
                invariant
                    i <= words.len(),
                    word_texts(refs@) == texts(words@).take(i as int),
                decreases words.len() - i,
            {
                let ghost before = word_texts(refs@);
                let w = words[i].as_str();
                refs.push(w);
                assert(word_texts(refs@) =~= before.push(w@));
                i += 1;
                assert(word_texts(refs@) =~= texts(words@).take(i as int));
            }
            assert(texts(words@).take(i as int) =~= texts(words@));
            self.candidates = completion.candidates(refs.as_slice());
            self.line = line;
            self.dirty = 1;
        }
    }

    /// Hands out the next candidate, `None` where there is none.
    pub fn next(&mut self) -> (r: Option<String>)
        ensures
            final(self)@ == rotated(old(self)@),
            match r {
                Some(c) => old(self)@.candidates.len() > 0 && c@ == old(self)@.candidates[0],
                None => old(self)@.candidates.len() == 0,
            },
    {
        if self.candidates.len() == 0 {
            return None;
        }
        self.dirty = 2;
        let ghost before = texts(self.candidates@);
        let cand = self.candidates.remove(0);
        assert(texts(self.candidates@) =~= before.drop_first());
        let copy = cand.clone();
        self.candidates.push(cand);
        assert(texts(self.candidates@) =~= before.drop_first().push(before[0]));
        Some(copy)
    }

    /// The candidate that `next` handed out last.
    pub fn prev(&self) -> (r: Option<String>)
        ensures
            match previous(self@) {
                Some(c) => r is Some && r->0@ == c,
                None => r is None,
            },
    {
        if self.dirty == 2 && self.candidates.len() > 0 {
            let c = self.candidates[self.candidates.len() - 1].clone();
            assert(c@ == texts(self.candidates@).last());
            Some(c)
        } else {
            None
        }
    }

    /// The candidates in the cycle, in its order.
    pub fn iter(&self) -> (r: Vec<String>)
        ensures
            texts(r@) == self@.candidates,
    {
        let mut out: Vec<String> = Vec::new();
        let mut i: usize = 0;
        assert(texts(out@) =~= texts(self.candidates@).take(0));
        while i < self.candidates.len()
            invariant
                i <= self.candidates.len(),
                texts(out@) == texts(self.candidates@).take(i as int),
            decreases self.candidates.len() - i,
        {
            let ghost before = texts(out@);
            let c = self.candidates[i].clone();
            out.push(c);
            assert(texts(out@) =~= before.push(c@));
            i += 1;
            assert(texts(out@) =~= texts(self.candidates@).take(i as int));
        }
        assert(texts(self.candidates@).take(i as int) =~= texts(self.candidates@));
        out
    }

    pub fn len(&self) -> (r: usize)
        ensures
            r == self@.candidates.len(),
    {
        self.candidates.len()
    }
}

} // verus!
