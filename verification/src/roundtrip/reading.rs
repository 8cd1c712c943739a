//! What the grammar reads where given characters stand.

use vstd::prelude::*;
use crate::ast::{
    ArgumentsView, CommandView, ExpansionView, ListView, Pipe, PipelineView, StrPartView,
};
use crate::grammar::{
    at, dq_char, dq_chars, dq_parts, g_args, g_arguments, g_command, g_connect, g_expansion, g_list,
    g_name, g_pipe, g_pipeline, g_single_quoted, g_string, g_subshell, g_variable, is_name_char,
    is_ws, name_end, raw_char, raw_chars, raw_parts, skip_ws, sq_char, sq_chars, subst_head,
    subst_of,
};
use crate::render::{
    dq_escaped, is_dq_special, is_name, opens_substitution, part_ok, pipe_sign, sq_escaped,
    subst_list, subst_sign,
};
use crate::roundtrip::place::{
    ends_pipeline, has, lemma_has_char, lemma_has_concat, lemma_has_range, starts_argument,
    starts_pipeline, starts_string, stops,
};

verus! {

/// Where no blank stands, none is skipped.
pub(crate) proof fn lemma_no_ws(s: Seq<char>, pos: int)
    requires
        0 <= pos <= s.len(),
        pos < s.len() ==> !is_ws(s[pos]),
    ensures
        skip_ws(s, pos) == pos,
{
}

/// A space before what is no blank is skipped alone.
pub(crate) proof fn lemma_one_space(s: Seq<char>, pos: int)
    requires
        at(s, pos, ' '),
        pos + 1 < s.len() ==> !is_ws(s[pos + 1]),
    ensures
        skip_ws(s, pos) == pos + 1,
{
    lemma_no_ws(s, pos + 1);
}

/// Inside single quotes the escaped text is read as the text.
pub(crate) proof fn lemma_sq_chars(s: Seq<char>, pos: int, text: Seq<char>, acc: Seq<char>)
    requires
        has(s, pos, sq_escaped(text)),
        at(s, pos + sq_escaped(text).len(), '\''),
    ensures
        sq_chars(s, pos, acc) == (acc + text, pos + sq_escaped(text).len()),
    decreases text.len(),
{
    if text.len() == 0 {
        assert(acc + text =~= acc);
        assert(sq_char(s, pos) is None);
    } else {
        let c = text[0];
        let rest = text.skip(1);
        if c == '\'' || c == '\\' {
            lemma_has_concat(s, pos, seq!['\\', c], sq_escaped(rest));
            lemma_has_char(s, pos, seq!['\\', c], 0);
            lemma_has_char(s, pos, seq!['\\', c], 1);
            assert(sq_char(s, pos) == Some((c, pos + 2)));
            lemma_sq_chars(s, pos + 2, rest, acc.push(c));
        } else {
            lemma_has_concat(s, pos, seq![c], sq_escaped(rest));
            lemma_has_char(s, pos, seq![c], 0);
            assert(sq_char(s, pos) == Some((c, pos + 1)));
            lemma_sq_chars(s, pos + 1, rest, acc.push(c));
        }
        assert(acc.push(c) + rest =~= acc + text);
    }
}

/// Inside double quotes the escaped text is read as the text.
pub(crate) proof fn lemma_dq_chars(s: Seq<char>, pos: int, text: Seq<char>, acc: Seq<char>)
    requires
        has(s, pos, dq_escaped(text)),
        at(s, pos + dq_escaped(text).len(), '"') || at(s, pos + dq_escaped(text).len(), '$'),
    ensures
        dq_chars(s, pos, acc) == (acc + text, pos + dq_escaped(text).len()),
    decreases text.len(),
{
    if text.len() == 0 {
        assert(acc + text =~= acc);
        assert(dq_char(s, pos) is None);
    } else {
        let c = text[0];
        let rest = text.skip(1);
        if is_dq_special(c) {
            lemma_has_concat(s, pos, seq!['\\', c], dq_escaped(rest));
            lemma_has_char(s, pos, seq!['\\', c], 0);
            lemma_has_char(s, pos, seq!['\\', c], 1);
            assert(dq_char(s, pos) == Some((c, pos + 2)));
            lemma_dq_chars(s, pos + 2, rest, acc.push(c));
        } else {
            lemma_has_concat(s, pos, seq![c], dq_escaped(rest));
            lemma_has_char(s, pos, seq![c], 0);
            assert(dq_char(s, pos) == Some((c, pos + 1)));
            lemma_dq_chars(s, pos + 1, rest, acc.push(c));
        }
        assert(acc.push(c) + rest =~= acc + text);
    }
}

/// The first character of an escaped text: `\` before a character that is
/// escaped, else the text's own.
pub(crate) proof fn lemma_dq_first(s: Seq<char>, pos: int, text: Seq<char>)
    requires
        text.len() > 0,
        has(s, pos, dq_escaped(text)),
    ensures
        dq_escaped(text).len() > 0,
        0 <= pos < s.len(),
        is_dq_special(text[0]) ==> s[pos] == '\\',
        !is_dq_special(text[0]) ==> s[pos] == text[0] && has(s, pos + 1, dq_escaped(text.skip(1))),
{
    let c = text[0];
    let rest = text.skip(1);
    if is_dq_special(c) {
        lemma_has_concat(s, pos, seq!['\\', c], dq_escaped(rest));
        lemma_has_char(s, pos, seq!['\\', c], 0);
    } else {
        lemma_has_concat(s, pos, seq![c], dq_escaped(rest));
        lemma_has_char(s, pos, seq![c], 0);
    }
}

/// Where literal text stands inside double quotes, no expansion is read.
pub(crate) proof fn lemma_text_first(s: Seq<char>, pos: int, text: Seq<char>)
    requires
        text.len() > 0,
        !opens_substitution(text),
        has(s, pos, dq_escaped(text)),
        at(s, pos + dq_escaped(text).len(), '"') || at(s, pos + dq_escaped(text).len(), '$'),
    ensures
        g_expansion(s, pos) is None,
        dq_escaped(text).len() > 0,
{
    lemma_dq_first(s, pos, text);
    let c = text[0];
    if c == '=' || c == '?' {
        let rest = text.skip(1);
        if rest.len() == 0 {
            assert(dq_escaped(rest).len() == 0);
        } else {
            lemma_dq_first(s, pos + 1, rest);
            assert(rest[0] == text[1]);
        }
        assert(!at(s, pos + 1, '('));
        assert(g_subshell(s, pos + 1) is None);
    }
    assert(g_variable(s, pos) is None);
}

/// A name ends where its last character stands before one that no name
/// holds.
pub(crate) proof fn lemma_name_end(s: Seq<char>, pos: int, name: Seq<char>, k: int)
    requires
        has(s, pos, name),
        0 <= k <= name.len(),
        forall|i: int| 0 <= i < name.len() ==> is_name_char(#[trigger] name[i]),
        pos + name.len() < s.len() ==> !is_name_char(s[pos + name.len()]),
    ensures
        name_end(s, pos + k) == pos + name.len(),
    decreases name.len() - k,
{
    if k < name.len() {
        lemma_has_char(s, pos, name, k);
        lemma_name_end(s, pos, name, k + 1);
    }
}

/// `${name}` is read as the variable of that name.
pub(crate) proof fn lemma_variable(s: Seq<char>, pos: int, name: Seq<char>)
    requires
        is_name(name),
        has(s, pos, seq!['$', '{'] + name + seq!['}']),
    ensures
        g_expansion(s, pos) == Some(
            (ExpansionView::Variable { name }, pos + name.len() + 3),
        ),
{
    let head = seq!['$', '{'];
    let t = head + name + seq!['}'];
    lemma_has_concat(s, pos, head + name, seq!['}']);
    lemma_has_concat(s, pos, head, name);
    lemma_has_char(s, pos, head, 0);
    lemma_has_char(s, pos, head, 1);
    lemma_has_char(s, pos + 2 + name.len(), seq!['}'], 0);
    lemma_has_char(s, pos + 2, name, 0);
    lemma_name_end(s, pos + 2, name, 1);
    lemma_has_range(s, pos + 2, name);
    assert(g_name(s, pos + 2) == Some((name, pos + 2 + name.len())));
    assert(subst_head(s, pos) == Some((2int, pos + 1)));
    assert(g_subshell(s, pos + 1) is None);
    assert(g_variable(s, pos) == Some((name, pos + name.len() + 3)));
}

/// Where nothing of a command can start, no string, argument, command or
/// pipeline is read.
pub(crate) proof fn lemma_stop(s: Seq<char>, pos: int)
    requires
        stops(s, pos),
    ensures
        g_string(s, pos) is None,
        g_arguments(s, pos) is None,
        g_command(s, pos) is None,
        g_pipeline(s, pos) is None,
        forall|acc: Seq<ArgumentsView>| #[trigger] g_args(s, pos, acc) == (acc, pos),
{
    lemma_no_ws(s, pos);
    assert(subst_head(s, pos) is None);
    assert(g_variable(s, pos) is None);
    assert(g_expansion(s, pos) is None);
    assert(raw_char(s, pos) is None);
    assert(raw_chars(s, pos, seq![]) == (Seq::<char>::empty(), pos));
    assert(raw_parts(s, pos, seq![]) == (Seq::<StrPartView>::empty(), pos));
    assert(g_single_quoted(s, pos) is None);
    assert(g_string(s, pos) is None);
    assert(g_arguments(s, pos) is None);
    assert forall|acc: Seq<ArgumentsView>| #[trigger] g_args(s, pos, acc) == (acc, pos) by {}
    assert(g_subshell(s, pos) is None);
    assert(g_args(s, pos, seq![]) == (Seq::<ArgumentsView>::empty(), pos));
    assert(g_command(s, pos) is None);
    assert(g_pipeline(s, pos) is None);
}

/// Escaped text between single quotes is read as a string of that text.
pub(crate) proof fn lemma_read_quoted(s: Seq<char>, pos: int, text: Seq<char>)
    requires
        has(s, pos, seq!['\''] + sq_escaped(text) + seq!['\'']),
    ensures
        g_string(s, pos) == Some(
            (seq![StrPartView::Chars(text)], pos + sq_escaped(text).len() + 2),
        ),
{
    let quote = seq!['\''];
    lemma_has_concat(s, pos, quote + sq_escaped(text), quote);
    lemma_has_concat(s, pos, quote, sq_escaped(text));
    lemma_has_char(s, pos, quote, 0);
    lemma_has_char(s, pos + 1 + sq_escaped(text).len(), quote, 0);
    lemma_sq_chars(s, pos + 1, text, seq![]);
    assert(Seq::<char>::empty() + text =~= text);
    assert(g_single_quoted(s, pos) == Some((text, pos + sq_escaped(text).len() + 2)));
}

/// Parts between double quotes are read as a string of these parts.
pub(crate) proof fn lemma_read_double(s: Seq<char>, pos: int, parts: Seq<StrPartView>, close: int)
    requires
        at(s, pos, '"'),
        dq_parts(s, pos + 1, seq![]) == (parts, close),
        at(s, close, '"'),
    ensures
        g_string(s, pos) == Some((parts, close + 1)),
{
    assert(g_single_quoted(s, pos) is None);
}

/// Where no expansion starts inside double quotes, literal text is read as
/// the next part.
pub(crate) proof fn lemma_read_text(s: Seq<char>, pos: int, text: Seq<char>, end: int, acc: Seq<StrPartView>)
    requires
        g_expansion(s, pos) is None,
        dq_chars(s, pos, seq![]) == (text, end),
        pos < end <= s.len(),
    ensures
        dq_parts(s, pos, acc) == dq_parts(s, end, acc.push(StrPartView::Chars(text))),
{
}

/// Where an expansion stands inside double quotes, it is read as the next
/// part.
pub(crate) proof fn lemma_read_part(s: Seq<char>, pos: int, e: ExpansionView, end: int, acc: Seq<StrPartView>)
    requires
        g_expansion(s, pos) == Some((e, end)),
        pos < end <= s.len(),
    ensures
        dq_parts(s, pos, acc) == dq_parts(s, end, acc.push(StrPartView::Expansion(e))),
{
}

/// At the closing quote no further part is read.
pub(crate) proof fn lemma_read_close(s: Seq<char>, pos: int, acc: Seq<StrPartView>)
    requires
        at(s, pos, '"'),
    ensures
        dq_parts(s, pos, acc) == (acc, pos),
{
    assert(subst_head(s, pos) is None);
    assert(g_variable(s, pos) is None);
    assert(g_expansion(s, pos) is None);
    assert(dq_char(s, pos) is None);
    assert(dq_chars(s, pos, seq![]) == (Seq::<char>::empty(), pos));
}

/// A list between round brackets is read as that list.
pub(crate) proof fn lemma_read_subshell(s: Seq<char>, pos: int, l: ListView, close: int)
    requires
        at(s, pos, '('),
        g_list(s, pos + 1) == Some((l, close)),
        at(s, close, ')'),
    ensures
        g_subshell(s, pos) == Some((l, close + 1)),
{
}

/// Behind the sign of a substitution, a list in round brackets is read as
/// the substitution of that kind.
pub(crate) proof fn lemma_read_kind(s: Seq<char>, pos: int, kind: int, open: int, l: ListView, end: int)
    requires
        subst_head(s, pos) == Some((kind, open)),
        open > pos,
        g_subshell(s, open) == Some((l, end)),
    ensures
        g_expansion(s, pos) == Some((subst_of(kind, l), end)),
{
}

/// The kind of a substitution, as the grammar numbers them.
pub open spec fn subst_kind(e: ExpansionView) -> int {
    match e {
        ExpansionView::SubstBoth(_) => 0,
        ExpansionView::SubstStderr(_) => 1,
        ExpansionView::SubstStdout(_) => 2,
        ExpansionView::SubstPipeName(_) => 3,
        _ => 4,
    }
}

/// The sign of a substitution is read as its kind, and ends with `(`.
pub(crate) proof fn lemma_read_sign(s: Seq<char>, pos: int, e: ExpansionView)
    requires
        !(e is Variable),
        has(s, pos, subst_sign(e)),
    ensures
        subst_head(s, pos) == Some((subst_kind(e), pos + subst_sign(e).len() - 1)),
        at(s, pos + subst_sign(e).len() - 1, '('),
        subst_of(subst_kind(e), subst_list(e)->0) == e,
{
    let sign = subst_sign(e);
    lemma_has_char(s, pos, sign, 0);
    lemma_has_char(s, pos, sign, 1);
    match e {
        ExpansionView::SubstBoth(l) => {
            lemma_has_char(s, pos, sign, 2);
            assert(Box::new(*l) == l);
        },
        ExpansionView::SubstStderr(l) => {
            lemma_has_char(s, pos, sign, 2);
            assert(Box::new(*l) == l);
        },
        ExpansionView::SubstStdout(l) => {
            assert(Box::new(*l) == l);
        },
        ExpansionView::SubstPipeName(l) => {
            assert(Box::new(*l) == l);
        },
        ExpansionView::SubstStatus(l) => {
            assert(Box::new(*l) == l);
        },
        ExpansionView::Variable { .. } => {},
    }
}

/// The sign of a substitution, its list and `)` are read as the
/// substitution.
pub(crate) proof fn lemma_read_subst(s: Seq<char>, pos: int, e: ExpansionView, l: ListView, end: int)
    requires
        subst_list(e) == Some(l),
        has(s, pos, subst_sign(e)),
        g_list(s, pos + subst_sign(e).len()) == Some((l, end)),
        at(s, end, ')'),
    ensures
        g_expansion(s, pos) == Some((e, end + 1)),
{
    let open = pos + subst_sign(e).len() - 1;
    lemma_read_sign(s, pos, e);
    lemma_read_subshell(s, open, l, end);
    lemma_read_kind(s, pos, subst_kind(e), open, l, end + 1);
}

/// A string with a space behind it, and `@` before it where it is split, is
/// read as an argument.
pub(crate) proof fn lemma_read_argument(
    s: Seq<char>,
    pos: int,
    split: bool,
    parts: Seq<StrPartView>,
    close: int,
)
    requires
        0 <= pos < s.len(),
        split ==> at(s, pos, '@') && g_string(s, pos + 1) == Some((parts, close)),
        !split ==> starts_string(s[pos]) && g_string(s, pos) == Some((parts, close)),
        at(s, close, ' '),
        close + 1 < s.len() ==> !is_ws(s[close + 1]),
    ensures
        g_arguments(s, pos) == Some(
            (
                if split {
                    ArgumentsView::AtExpansion(parts)
                } else {
                    ArgumentsView::Arg(parts)
                },
                close + 1,
            ),
        ),
{
    lemma_no_ws(s, pos);
    lemma_one_space(s, close);
}

/// Arguments are read as a simple command.
pub(crate) proof fn lemma_read_simple(s: Seq<char>, pos: int, args: Seq<ArgumentsView>, end: int)
    requires
        0 <= pos < s.len(),
        starts_argument(s[pos]),
        args.len() > 0,
        g_args(s, pos, seq![]) == (args, end),
    ensures
        g_command(s, pos) == Some((CommandView::Simple(args), end)),
{
    lemma_no_ws(s, pos);
    assert(g_subshell(s, pos) is None);
}

/// A list between round brackets, where nothing of a command follows, is
/// read as a command.
pub(crate) proof fn lemma_read_nested(s: Seq<char>, pos: int, l: ListView, close: int)
    requires
        at(s, pos, '('),
        g_list(s, pos + 1) == Some((l, close)),
        at(s, close, ')'),
        stops(s, close + 1),
    ensures
        g_command(s, pos) == Some((CommandView::SubShell(Box::new(l)), close + 1)),
{
    lemma_no_ws(s, pos);
    lemma_no_ws(s, close + 1);
    lemma_read_subshell(s, pos, l, close);
}

/// A command where its pipeline ends is read as a pipeline of its own.
pub(crate) proof fn lemma_read_single(s: Seq<char>, pos: int, c: CommandView, end: int)
    requires
        0 <= pos < end,
        !at(s, pos, '{'),
        g_command(s, pos) == Some((c, end)),
        ends_pipeline(s, end),
    ensures
        g_pipeline(s, pos) == Some((PipelineView::Single(c), end)),
{
    let p = PipelineView::Single(c);
    lemma_no_ws(s, end);
    if at(s, end, '|') {
        lemma_no_ws(s, end + 1);
        lemma_stop(s, end + 1);
        assert(g_pipe(s, end) == Some((Pipe::Stdout, end + 1)));
    } else {
        assert(g_pipe(s, end) is None);
    }
    assert(g_connect(s, pos, p, end) == (p, end));
}

/// A pipeline in curly brackets, the sign of a pipe and a pipeline are read
/// as the two connected.
pub(crate) proof fn lemma_read_connected(
    s: Seq<char>,
    pos: int,
    pipe: Pipe,
    lhs: PipelineView,
    rhs: PipelineView,
    close: int,
    end: int,
)
    requires
        at(s, pos, '{'),
        g_pipeline(s, pos + 1) == Some((lhs, close)),
        at(s, close, '}'),
        has(s, close + 1, pipe_sign(pipe)),
        0 <= close + 1 + pipe_sign(pipe).len() < s.len(),
        starts_pipeline(s[close + 1 + pipe_sign(pipe).len()]),
        g_pipeline(s, close + 1 + pipe_sign(pipe).len()) == Some((rhs, end)),
        pos < close < end <= s.len(),
    ensures
        g_pipeline(s, pos) == Some(
            (PipelineView::Connected { pipe, lhs: Box::new(lhs), rhs: Box::new(rhs) }, end),
        ),
{
    let sign = pipe_sign(pipe);
    let after = close + 1;
    let start = after + sign.len();
    lemma_has_char(s, after, sign, 0);
    if sign.len() == 2 {
        lemma_has_char(s, after, sign, 1);
    }
    lemma_no_ws(s, after);
    lemma_no_ws(s, start);
    assert(g_pipe(s, after) == Some((pipe, start)));
    let p = PipelineView::Connected { pipe, lhs: Box::new(lhs), rhs: Box::new(rhs) };
    assert(g_connect(s, pos, lhs, after) == (p, end));
}

/// Literal text inside double quotes is read as one part.
pub(crate) proof fn lemma_text_part(s: Seq<char>, pos: int, text: Seq<char>, acc: Seq<StrPartView>)
    requires
        part_ok(StrPartView::Chars(text)),
        has(s, pos, dq_escaped(text)),
        at(s, pos + dq_escaped(text).len(), '"') || at(s, pos + dq_escaped(text).len(), '$'),
    ensures
        dq_parts(s, pos, acc) == dq_parts(
            s,
            pos + dq_escaped(text).len(),
            acc.push(StrPartView::Chars(text)),
        ),
{
    lemma_text_first(s, pos, text);
    lemma_dq_chars(s, pos, text, seq![]);
    assert(Seq::<char>::empty() + text =~= text);
    lemma_read_text(s, pos, text, pos + dq_escaped(text).len(), acc);
}

/// An argument that is read is gathered, and reading goes on behind it.
pub(crate) proof fn lemma_read_args(s: Seq<char>, pos: int, a: ArgumentsView, mid: int, acc: Seq<ArgumentsView>)
    requires
        g_arguments(s, pos) == Some((a, mid)),
        pos < mid <= s.len(),
    ensures
        g_args(s, pos, acc) == g_args(s, mid, acc.push(a)),
{
}

} // verus!
