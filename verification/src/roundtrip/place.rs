//! Texts at places of a text, and what can stand where a part of a command
//! ends or starts.

use vstd::prelude::*;
use crate::grammar::at;

verus! {

/// Whether the text `t` stands in `s` at `pos`.
#[verifier::opaque]
pub open spec fn has(s: Seq<char>, pos: int, t: Seq<char>) -> bool {
    0 <= pos && pos + t.len() <= s.len() && s.subrange(pos, pos + t.len()) == t
}

/// Whether nothing that belongs to a command can start at `pos`: the text
/// ends there, or one of `;`, `&`, `|`, `)`, `}` stands there.
pub open spec fn stops(s: Seq<char>, pos: int) -> bool {
    0 <= pos <= s.len() && (pos < s.len() ==> s[pos] == ';' || s[pos] == '&' || s[pos] == '|'
        || s[pos] == ')' || s[pos] == '}')
}

/// Where two texts stand one behind the other as one, each stands at its
/// place.
pub(crate) proof fn lemma_has_concat(s: Seq<char>, pos: int, a: Seq<char>, b: Seq<char>)
    requires
        has(s, pos, a + b),
    ensures
        has(s, pos, a),
        has(s, pos + a.len(), b),
        0 <= pos,
        pos + a.len() + b.len() <= s.len(),
{
    reveal(has);
    let t = a + b;
    assert(s.subrange(pos, pos + a.len()) =~= a) by {
        assert forall|i: int| 0 <= i < a.len() implies s.subrange(pos, pos + a.len())[i] == a[i] by {
            assert(s.subrange(pos, pos + t.len())[i] == t[i]);
        }
    }
    assert(s.subrange(pos + a.len(), pos + a.len() + b.len()) =~= b) by {
        assert forall|i: int| 0 <= i < b.len() implies s.subrange(
            pos + a.len(),
            pos + a.len() + b.len(),
        )[i] == b[i] by {
            assert(s.subrange(pos, pos + t.len())[a.len() + i] == t[a.len() + i]);
        }
    }
}

/// Where a text stands, each of its characters stands.
pub(crate) proof fn lemma_has_char(s: Seq<char>, pos: int, t: Seq<char>, i: int)
    requires
        has(s, pos, t),
        0 <= i < t.len(),
    ensures
        s[pos + i] == t[i],
        0 <= pos + i < s.len(),
{
    reveal(has);
    assert(s.subrange(pos, pos + t.len())[i] == t[i]);
}

/// Whether a list can end at `pos`: the text ends there, or `)` stands there.
pub open spec fn closes(s: Seq<char>, pos: int) -> bool {
    0 <= pos <= s.len() && (pos < s.len() ==> s[pos] == ')')
}

/// Whether a pipeline can end at `pos`: nothing of a command can start
/// there, and a `|` there is the first of two.
pub open spec fn ends_pipeline(s: Seq<char>, pos: int) -> bool {
    stops(s, pos) && (at(s, pos, '|') ==> at(s, pos + 1, '|'))
}

/// Whether a character can be the first of a pipeline's text.
pub open spec fn starts_pipeline(c: char) -> bool {
    c == '{' || c == '(' || starts_argument(c)
}

/// Whether a character can be the first of an argument's text.
pub open spec fn starts_argument(c: char) -> bool {
    c == '@' || starts_string(c)
}

/// Whether a character can be the first of a string's text.
pub open spec fn starts_string(c: char) -> bool {
    c == '\'' || c == '"'
}

/// Whether a character can be the first of an expansion's text.
pub open spec fn starts_expansion(c: char) -> bool {
    c == '$' || c == '=' || c == '?'
}

/// Two texts, one behind the other, start as the first does.
pub(crate) proof fn lemma_first(a: Seq<char>, b: Seq<char>)
    requires
        a.len() > 0,
    ensures
        (a + b).len() > 0,
        (a + b)[0] == a[0],
{
}

/// A text stands in itself at the start.
pub(crate) proof fn lemma_has_whole(s: Seq<char>)
    ensures
        has(s, 0, s),
{
    reveal(has);
    assert(s.subrange(0, s.len() as int) =~= s);
}

/// A text stands at the start of what it is the start of.
pub(crate) proof fn lemma_has_prefix(a: Seq<char>, b: Seq<char>)
    ensures
        has(a + b, 0, a),
{
    reveal(has);
    assert((a + b).subrange(0, a.len() as int) =~= a);
}

/// What stands at a place is the part of the text there.
pub(crate) proof fn lemma_has_range(s: Seq<char>, pos: int, t: Seq<char>)
    requires
        has(s, pos, t),
    ensures
        0 <= pos,
        pos + t.len() <= s.len(),
        s.subrange(pos, pos + t.len()) == t,
{
    reveal(has);
}

/// Where a text between an opening and a closing character stands, each of
/// the three stands at its place.
pub(crate) proof fn lemma_enclosed(
    s: Seq<char>,
    pos: int,
    t: Seq<char>,
    open: Seq<char>,
    inner: Seq<char>,
    close: char,
)
    requires
        has(s, pos, t),
        t == open + inner + seq![close],
    ensures
        has(s, pos, open),
        has(s, pos + open.len(), inner),
        at(s, pos + open.len() + inner.len(), close),
        t.len() == open.len() + inner.len() + 1,
{
    lemma_has_concat(s, pos, open + inner, seq![close]);
    lemma_has_concat(s, pos, open, inner);
    lemma_has_char(s, pos + open.len() + inner.len(), seq![close], 0);
}

/// Where a text stands that is not empty, its first character stands.
pub(crate) proof fn lemma_has_first(s: Seq<char>, pos: int, t: Seq<char>)
    requires
        has(s, pos, t),
        t.len() > 0,
    ensures
        0 <= pos < s.len(),
        s[pos] == t[0],
{
    lemma_has_char(s, pos, t, 0);
}

/// What is gathered with the `k`th item, and the items behind it, are what
/// was gathered before and the items from the `k`th on.
pub(crate) proof fn lemma_gathered<A>(acc: Seq<A>, items: Seq<A>, k: int)
    requires
        0 <= k < items.len(),
    ensures
        acc.push(items[k]) + items.skip(k + 1) == acc + items.skip(k),
{
    assert(acc.push(items[k]) + items.skip(k + 1) =~= acc + items.skip(k));
}

/// Behind the last item nothing is left to gather, and behind none all are.
pub(crate) proof fn lemma_gathered_all<A>(acc: Seq<A>, items: Seq<A>)
    ensures
        acc + items.skip(items.len() as int) == acc,
        Seq::<A>::empty() + items.skip(0) == items,
        Seq::<A>::empty() + items == items,
{
    assert(acc + items.skip(items.len() as int) =~= acc);
    assert(Seq::<A>::empty() + items.skip(0) =~= items);
    assert(Seq::<A>::empty() + items =~= items);
}

/// A sequence of one item is that item alone.
pub(crate) proof fn lemma_alone<A>(items: Seq<A>)
    requires
        items.len() == 1,
    ensures
        items == seq![items[0]],
{
    assert(items =~= seq![items[0]]);
}

} // verus!
