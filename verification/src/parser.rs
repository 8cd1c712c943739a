//! The parser: reads a text by the grammar and builds the syntax tree.

use vstd::prelude::*;
use crate::ast::{
    argument_views, following_views, lemma_list_view, lemma_simple_view, lemma_str_view, part_views,
    Arguments, Command, Condition, Expansion, List, Pipe, Pipeline, Program, Str, StrPart,
    StrPartView,
};
use crate::chars::{chars_of, string_of, string_of_range};
use crate::grammar::{
    at, condition_head, dq_char, dq_chars, dq_parts, g_args, g_arguments, g_command, g_connect,
    g_expansion, g_following, g_list, g_name, g_pipe, g_pipeline, g_single_quoted, g_string,
    g_subshell, g_variable, is_meta, is_name_char, is_name_start, name_end, raw_char, raw_chars,
    raw_parts, skip_ws, sq_char, sq_chars, subst_head,
};

verus! {

/// A text that the grammar does not accept as a whole.
#[derive(Debug, Clone, Copy, PartialEq, Eq, Structural)]
pub struct ParseError {
    /// Where the reading stopped: the index of the first character that
    /// could not be read, 0 where nothing could.
    pub position: usize,
}

/// Whether what was read is the value `v`, up to the position `e`.
pub open spec fn read_is<T: View>(r: Option<(T, usize)>, v: T::V, e: int) -> bool {
    match r {
        Some((t, p)) => t@ == v && p == e,
        None => false,
    }
}

/// Whether what was read is the string with the parts `v`, up to the
/// position `e`.
pub open spec fn read_parts(r: Option<(Str, usize)>, v: Seq<StrPartView>, e: int) -> bool {
    match r {
        Some((t, p)) => part_views(t@) == v && p == e,
        None => false,
    }
}

fn is_at(s: &Vec<char>, pos: usize, c: char) -> (r: bool)
    ensures
        r == at(s@, pos as int, c),
{
    pos < s.len() && s[pos] == c
}

fn ws_end(s: &Vec<char>, pos: usize) -> (r: usize)
    requires
        pos <= s.len(),
    ensures
        r == skip_ws(s@, pos as int),
        pos <= r <= s.len(),
{
    let mut p: usize = pos;
    while p < s.len() && (s[p] == ' ' || s[p] == '\t' || s[p] == '\n' || s[p] == '\r')
        invariant
            pos <= p <= s.len(),
            skip_ws(s@, p as int) == skip_ws(s@, pos as int),
        decreases s.len() - p,
    {
        p += 1;
    }
    p
}

pub(crate) fn name_start(c: char) -> (r: bool)
    ensures
        r == is_name_start(c),
{
    let code = c as u32;
    ('a' as u32 <= code && code <= 'z' as u32) || ('A' as u32 <= code && code <= 'Z' as u32) || c
        == '_'
}

pub(crate) fn name_char(c: char) -> (r: bool)
    ensures
        r == is_name_char(c),
{
    let code = c as u32;
    name_start(c) || ('0' as u32 <= code && code <= '9' as u32)
}

fn name(s: &Vec<char>, pos: usize) -> (r: Option<(String, usize)>)
    requires
        pos <= s.len(),
    ensures
        match g_name(s@, pos as int) {
            Some((n, e)) => read_is(r, n, e) && pos < e <= s.len(),
            None => r is None,
        },
{
    if pos < s.len() && name_start(s[pos]) {
        let mut p: usize = pos + 1;
        while p < s.len() && name_char(s[p])
            invariant
                pos < p <= s.len(),
                name_end(s@, p as int) == name_end(s@, pos + 1),
            decreases s.len() - p,
        {
            p += 1;
        }
        Some((string_of_range(s, pos, p), p))
    } else {
        None
    }
}

fn variable(s: &Vec<char>, pos: usize) -> (r: Option<(String, usize)>)
    requires
        pos <= s.len(),
    ensures
        match g_variable(s@, pos as int) {
            Some((n, e)) => read_is(r, n, e) && pos < e <= s.len(),
            None => r is None,
        },
{
    if !is_at(s, pos, '$') {
        return None;
    }
    if is_at(s, pos + 1, '{') {
        if let Some((n, e)) = name(s, pos + 2) {
            if is_at(s, e, '}') {
                return Some((n, e + 1));
            }
        }
    }
    name(s, pos + 1)
}

fn single_quoted(s: &Vec<char>, pos: usize) -> (r: Option<(String, usize)>)
    requires
        pos <= s.len(),
    ensures
        match g_single_quoted(s@, pos as int) {
            Some((t, e)) => read_is(r, t, e) && pos < e <= s.len(),
            None => r is None,
        },
{
    if !is_at(s, pos, '\'') {
        return None;
    }
    let mut text: Vec<char> = Vec::new();
    let mut p: usize = pos + 1;
    let mut done = false;
    while !done
        invariant
            pos < p <= s.len(),
            sq_chars(s@, p as int, text@) == sq_chars(s@, pos + 1, seq![]),
            done ==> sq_char(s@, p as int) is None,
        decreases s.len() - p + (if done { 0int } else { 1int }),
    {
        if is_at(s, p, '\\') && is_at(s, p + 1, '\'') {
            text.push('\'');
            p += 2;
        } else if is_at(s, p, '\\') && is_at(s, p + 1, '\\') {
            text.push('\\');
            p += 2;
        } else if p < s.len() && s[p] != '\'' {
            text.push(s[p]);
            p += 1;
        } else {
            done = true;
        }
    }
    if is_at(s, p, '\'') {
        Some((string_of(&text), p + 1))
    } else {
        None
    }
}

fn dq_text(s: &Vec<char>, pos: usize) -> (r: (String, usize))
    requires
        pos <= s.len(),
    ensures
        (r.0@, r.1 as int) == dq_chars(s@, pos as int, seq![]),
        pos <= r.1 <= s.len(),
{
    let mut text: Vec<char> = Vec::new();
    let mut p: usize = pos;
    let mut done = false;
    while !done
        invariant
            pos <= p <= s.len(),
            dq_chars(s@, p as int, text@) == dq_chars(s@, pos as int, seq![]),
            done ==> dq_char(s@, p as int) is None,
        decreases s.len() - p + (if done { 0int } else { 1int }),
    {
        if is_at(s, p, '\\') && is_at(s, p + 1, '"') {
            text.push('"');
            p += 2;
        } else if is_at(s, p, '\\') && is_at(s, p + 1, '\\') {
            text.push('\\');
            p += 2;
        } else if is_at(s, p, '\\') && is_at(s, p + 1, '$') {
            text.push('$');
            p += 2;
        } else if p < s.len() && s[p] != '"' && s[p] != '$' {
            text.push(s[p]);
            p += 1;
        } else {
            done = true;
        }
    }
    (string_of(&text), p)
}

fn meta(c: char) -> (r: bool)
    ensures
        r == is_meta(c),
{
    c == '\\' || c == ' ' || c == '\t' || c == '\n' || c == '@' || c == ';' || c == '&' || c == '|'
        || c == '$' || c == '(' || c == ')' || c == '[' || c == ']' || c == '\'' || c == '"' || c
        == '=' || c == '?' || c == '{' || c == '}'
}

fn raw_text(s: &Vec<char>, pos: usize) -> (r: (String, usize))
    requires
        pos <= s.len(),
    ensures
        (r.0@, r.1 as int) == raw_chars(s@, pos as int, seq![]),
        pos <= r.1 <= s.len(),
{
    let mut text: Vec<char> = Vec::new();
    let mut p: usize = pos;
    let mut done = false;
    while !done
        invariant
            pos <= p <= s.len(),
            raw_chars(s@, p as int, text@) == raw_chars(s@, pos as int, seq![]),
            done ==> raw_char(s@, p as int) is None,
        decreases s.len() - p + (if done { 0int } else { 1int }),
    {
        if is_at(s, p, '\\') && p + 1 < s.len() && (meta(s[p + 1]) || s[p + 1] == '*') {
            text.push(s[p + 1]);
            p += 2;
        } else if p < s.len() && !meta(s[p]) {
            text.push(s[p]);
            p += 1;
        } else if (is_at(s, p, '=') || is_at(s, p, '?')) && !is_at(s, p + 1, '(') {
            text.push(s[p]);
            p += 1;
        } else {
            done = true;
        }
    }
    (string_of(&text), p)
}

fn pipe(s: &Vec<char>, pos: usize) -> (r: Option<(Pipe, usize)>)
    requires
        pos <= s.len(),
    ensures
        match g_pipe(s@, pos as int) {
            Some((k, e)) => r == Some((k, e as usize)) && pos < e <= s.len(),
            None => r is None,
        },
{
    let q = ws_end(s, pos);
    if is_at(s, q, '|') {
        if is_at(s, q + 1, '&') {
            Some((Pipe::Both, ws_end(s, q + 2)))
        } else if is_at(s, q + 1, '!') {
            Some((Pipe::Stderr, ws_end(s, q + 2)))
        } else {
            Some((Pipe::Stdout, ws_end(s, q + 1)))
        }
    } else {
        None
    }
}

fn subshell(s: &Vec<char>, pos: usize) -> (r: Option<(Box<List>, usize)>)
    requires
        pos <= s.len(),
    ensures
        match g_subshell(s@, pos as int) {
            Some((l, e)) => read_is(r, l, e) && pos < e <= s.len(),
            None => r is None,
        },
    decreases s.len() - pos, 2int,
{
    if !is_at(s, pos, '(') {
        return None;
    }
    match parse_list(s, pos + 1) {
        Some((l, p)) => {
            if is_at(s, p, ')') {
                Some((l, p + 1))
            } else {
                None
            }
        },
        None => None,
    }
}

fn parse_expansion(s: &Vec<char>, pos: usize) -> (r: Option<(Expansion, usize)>)
    requires
        pos <= s.len(),
    ensures
        match g_expansion(s@, pos as int) {
            Some((x, e)) => read_is(r, x, e) && pos < e <= s.len(),
            None => r is None,
        },
    decreases s.len() - pos, 3int,
{
    let head: Option<(u8, usize)> = if is_at(s, pos, '$') && is_at(s, pos + 1, '&') {
        Some((0, pos + 2))
    } else if is_at(s, pos, '$') && is_at(s, pos + 1, '!') {
        Some((1, pos + 2))
    } else if is_at(s, pos, '$') {
        Some((2, pos + 1))
    } else if is_at(s, pos, '=') {
        Some((3, pos + 1))
    } else if is_at(s, pos, '?') {
        Some((4, pos + 1))
    } else {
        None
    };
    assert(match subst_head(s@, pos as int) {
        Some((k, p)) => head == Some((k as u8, p as usize)) && 0 <= k <= 4 && pos < p <= s.len(),
        None => head is None,
    });
    if let Some((kind, p)) = head {
        if let Some((l, e)) = subshell(s, p) {
            let x = if kind == 0 {
                Expansion::SubstBoth(l)
            } else if kind == 1 {
                Expansion::SubstStderr(l)
            } else if kind == 2 {
                Expansion::SubstStdout(l)
            } else if kind == 3 {
                Expansion::SubstPipeName(l)
            } else {
                Expansion::SubstStatus(l)
            };
            return Some((x, e));
        }
    }
    match variable(s, pos) {
        Some((n, e)) => Some((Expansion::Variable { name: n }, e)),
        None => None,
    }
}

fn parse_dq_parts(s: &Vec<char>, pos: usize) -> (r: (Str, usize))
    requires
        pos <= s.len(),
    ensures
        (part_views(r.0@), r.1 as int) == dq_parts(s@, pos as int, seq![]),
        pos <= r.1 <= s.len(),
    decreases s.len() - pos, 4int,
{
    let mut parts: Vec<StrPart> = Vec::new();
    let mut p: usize = pos;
    let mut done = false;
    assert(part_views(parts@) =~= seq![]);
    while !done
        invariant
            pos <= p <= s.len(),
            dq_parts(s@, p as int, part_views(parts@)) == dq_parts(s@, pos as int, seq![]),
            done ==> dq_parts(s@, p as int, part_views(parts@)) == (part_views(parts@), p as int),
        decreases s.len() - p + (if done { 0int } else { 1int }),
    {
        let ghost before = part_views(parts@);
        match parse_expansion(s, p) {
            Some((x, e)) => {
                parts.push(StrPart::Expansion(x));
                assert(part_views(parts@) =~= before.push(StrPartView::Expansion(x@)));
                p = e;
            },
            None => {
                let (text, e) = dq_text(s, p);
                if e > p {
                    parts.push(StrPart::Chars(text));
                    assert(part_views(parts@) =~= before.push(StrPartView::Chars(text@)));
                    p = e;
                } else {
                    done = true;
                }
            },
        }
    }
    (parts, p)
}

fn parse_raw_parts(s: &Vec<char>, pos: usize) -> (r: (Str, usize))
    requires
        pos <= s.len(),
    ensures
        (part_views(r.0@), r.1 as int) == raw_parts(s@, pos as int, seq![]),
        pos <= r.1 <= s.len(),
        r.0@.len() > 0 ==> r.1 > pos,
    decreases s.len() - pos, 4int,
{
    let mut parts: Vec<StrPart> = Vec::new();
    let mut p: usize = pos;
    let mut done = false;
    assert(part_views(parts@) =~= seq![]);
    while !done
        invariant
            pos <= p <= s.len(),
            parts@.len() > 0 ==> p > pos,
            raw_parts(s@, p as int, part_views(parts@)) == raw_parts(s@, pos as int, seq![]),
            done ==> raw_parts(s@, p as int, part_views(parts@)) == (part_views(parts@), p as int),
        decreases s.len() - p + (if done { 0int } else { 1int }),
    {
        let ghost before = part_views(parts@);
        match parse_expansion(s, p) {
            Some((x, e)) => {
                parts.push(StrPart::Expansion(x));
                assert(part_views(parts@) =~= before.push(StrPartView::Expansion(x@)));
                p = e;
            },
            None => {
                let (text, e) = raw_text(s, p);
                if e > p {
                    parts.push(StrPart::Chars(text));
                    assert(part_views(parts@) =~= before.push(StrPartView::Chars(text@)));
                    p = e;
                } else {
                    done = true;
                }
            },
        }
    }
    (parts, p)
}

fn parse_string(s: &Vec<char>, pos: usize) -> (r: Option<(Str, usize)>)
    requires
        pos <= s.len(),
    ensures
        match g_string(s@, pos as int) {
            Some((parts, e)) => read_parts(r, parts, e) && pos < e <= s.len(),
            None => r is None,
        },
    decreases s.len() - pos, 5int,
{
    if let Some((text, e)) = single_quoted(s, pos) {
        let mut parts: Vec<StrPart> = Vec::new();
        parts.push(StrPart::Chars(text));
        assert(part_views(parts@) =~= seq![StrPartView::Chars(text@)]);
        return Some((parts, e));
    }
    if is_at(s, pos, '"') {
        let (parts, e) = parse_dq_parts(s, pos + 1);
        if is_at(s, e, '"') {
            return Some((parts, e + 1));
        }
    }
    let (parts, e) = parse_raw_parts(s, pos);
    if parts.len() > 0 {
        Some((parts, e))
    } else {
        None
    }
}

fn parse_arguments(s: &Vec<char>, pos: usize) -> (r: Option<(Arguments, usize)>)
    requires
        pos <= s.len(),
    ensures
        match g_arguments(s@, pos as int) {
            Some((a, e)) => read_is(r, a, e) && pos < e <= s.len(),
            None => r is None,
        },
    decreases s.len() - pos, 6int,
{
    let q = ws_end(s, pos);
    if is_at(s, q, '@') {
        if let Some((parts, e)) = parse_string(s, q + 1) {
            proof {
                lemma_str_view(parts);
            }
            return Some((Arguments::AtExpansion(parts), ws_end(s, e)));
        }
    }
    match parse_string(s, q) {
        Some((parts, e)) => {
            proof {
                lemma_str_view(parts);
            }
            Some((Arguments::Arg(parts), ws_end(s, e)))
        },
        None => None,
    }
}

fn parse_command(s: &Vec<char>, pos: usize) -> (r: Option<(Command, usize)>)
    requires
        pos <= s.len(),
    ensures
        match g_command(s@, pos as int) {
            Some((c, e)) => read_is(r, c, e) && pos < e <= s.len(),
            None => r is None,
        },
    decreases s.len() - pos, 8int,
{
    let q = ws_end(s, pos);
    if let Some((l, e)) = subshell(s, q) {
        return Some((Command::SubShell(l), ws_end(s, e)));
    }
    let mut args: Vec<Arguments> = Vec::new();
    let mut p: usize = pos;
    let mut done = false;
    assert(argument_views(args@) =~= seq![]);
    while !done
        invariant
            pos <= p <= s.len(),
            args@.len() > 0 ==> p > pos,
            g_args(s@, p as int, argument_views(args@)) == g_args(s@, pos as int, seq![]),
            done ==> g_args(s@, p as int, argument_views(args@)) == (
                argument_views(args@),
                p as int,
            ),
        decreases s.len() - p + (if done { 0int } else { 1int }),
    {
        let ghost before = argument_views(args@);
        match parse_arguments(s, p) {
            Some((a, e)) => {
                args.push(a);
                assert(argument_views(args@) =~= before.push(a@));
                p = e;
            },
            None => {
                done = true;
            },
        }
    }
    if args.len() > 0 {
        proof {
            lemma_simple_view(args);
        }
        Some((Command::Simple(args), p))
    } else {
        None
    }
}

fn connect(s: &Vec<char>, pos: usize, lhs: Pipeline, p: usize) -> (r: (Pipeline, usize))
    requires
        pos < p <= s.len(),
    ensures
        (r.0@, r.1 as int) == g_connect(s@, pos as int, lhs@, p as int),
        pos < r.1 <= s.len(),
    decreases s.len() - pos, 9int,
{
    match pipe(s, p) {
        Some((kind, p2)) => {
            match parse_pipeline(s, p2) {
                Some((rhs, e)) => (
                    Pipeline::Connected { pipe: kind, lhs: Box::new(lhs), rhs: Box::new(rhs) },
                    e,
                ),
                None => (lhs, p),
            }
        },
        None => (lhs, p),
    }
}

fn parse_pipeline(s: &Vec<char>, pos: usize) -> (r: Option<(Pipeline, usize)>)
    requires
        pos <= s.len(),
    ensures
        match g_pipeline(s@, pos as int) {
            Some((pl, e)) => read_is(r, pl, e) && pos < e <= s.len(),
            None => r is None,
        },
    decreases s.len() - pos, 10int,
{
    if is_at(s, pos, '{') {
        if let Some((inner, p)) = parse_pipeline(s, pos + 1) {
            if is_at(s, p, '}') {
                return Some(connect(s, pos, inner, p + 1));
            }
        }
    }
    match parse_command(s, pos) {
        Some((c, p)) => Some(connect(s, pos, Pipeline::Single(c), p)),
        None => None,
    }
}

fn parse_list(s: &Vec<char>, pos: usize) -> (r: Option<(Box<List>, usize)>)
    requires
        pos <= s.len(),
    ensures
        match g_list(s@, pos as int) {
            Some((l, e)) => read_is(r, l, e) && pos < e <= s.len(),
            None => r is None,
        },
    decreases s.len() - pos, 12int,
{
    let (first, start) = match parse_pipeline(s, pos) {
        Some(r) => r,
        None => {
            return None;
        },
    };
    let mut following: Vec<(Condition, Pipeline)> = Vec::new();
    let mut p: usize = start;
    let mut done = false;
    assert(following_views(following@) =~= seq![]);
    while !done
        invariant
            pos < start <= p <= s.len(),
            g_following(s@, p as int, following_views(following@)) == g_following(
                s@,
                start as int,
                seq![],
            ),
            done ==> g_following(s@, p as int, following_views(following@)) == (
                following_views(following@),
                p as int,
            ),
        decreases s.len() - p + (if done { 0int } else { 1int }),
    {
        let head: Option<(Condition, usize)> = if is_at(s, p, ';') {
            Some((Condition::Always, p + 1))
        } else if is_at(s, p, '&') && is_at(s, p + 1, '&') {
            Some((Condition::IfSuccess, p + 2))
        } else if is_at(s, p, '|') && is_at(s, p + 1, '|') {
            Some((Condition::IfError, p + 2))
        } else {
            None
        };
        assert(match condition_head(s@, p as int) {
            Some((c, q)) => head == Some((c, q as usize)) && p < q <= s.len(),
            None => head is None,
        });
        let ghost before = following_views(following@);
        match head {
            Some((cond, q)) => {
                match parse_pipeline(s, q) {
                    Some((pl, e)) => {
                        following.push((cond, pl));
                        assert(following_views(following@) =~= before.push((cond, pl@)));
                        p = e;
                    },
                    None => {
                        done = true;
                    },
                }
            },
            None => {
                done = true;
            },
        }
    }
    let l = List { first, following };
    proof {
        lemma_list_view(l);
    }
    Some((Box::new(l), p))
}

/// What reading a whole text gives: the tree where the grammar accepts all
/// of it, else the position where the reading stopped.
pub open spec fn parsed<V>(s: Seq<char>, read: Option<(V, int)>) -> Result<V, int> {
    match read {
        Some((v, e)) => if e == s.len() {
            Ok(v)
        } else {
            Err(e)
        },
        None => Err(0int),
    }
}

fn position(p: usize) -> (e: ParseError)
    ensures
        e.position == p,
{
    ParseError { position: p }
}

/// Reads a whole input line.
pub fn toplevel(input: &str) -> (r: Result<Box<Program>, ParseError>)
    ensures
        match parsed(input@, g_list(input@, 0)) {
            Ok(v) => r is Ok && r->Ok_0@ == v,
            Err(p) => r is Err && r->Err_0.position == p,
        },
{
    list(input)
}

/// Reads a whole text as a list.
pub fn list(input: &str) -> (r: Result<Box<List>, ParseError>)
    ensures
        match parsed(input@, g_list(input@, 0)) {
            Ok(v) => r is Ok && r->Ok_0@ == v,
            Err(p) => r is Err && r->Err_0.position == p,
        },
{
    let s = chars_of(input);
    match parse_list(&s, 0) {
        Some((v, e)) => if e == s.len() {
            Ok(v)
        } else {
            Err(position(e))
        },
        None => Err(position(0)),
    }
}

/// Reads a whole text as a pipeline.
pub fn pipeline(input: &str) -> (r: Result<Pipeline, ParseError>)
    ensures
        match parsed(input@, g_pipeline(input@, 0)) {
            Ok(v) => r is Ok && r->Ok_0@ == v,
            Err(p) => r is Err && r->Err_0.position == p,
        },
{
    let s = chars_of(input);
    match parse_pipeline(&s, 0) {
        Some((v, e)) => if e == s.len() {
            Ok(v)
        } else {
            Err(position(e))
        },
        None => Err(position(0)),
    }
}

/// Reads a whole text as a command.
pub fn command(input: &str) -> (r: Result<Command, ParseError>)
    ensures
        match parsed(input@, g_command(input@, 0)) {
            Ok(v) => r is Ok && r->Ok_0@ == v,
            Err(p) => r is Err && r->Err_0.position == p,
        },
{
    let s = chars_of(input);
    match parse_command(&s, 0) {
        Some((v, e)) => if e == s.len() {
            Ok(v)
        } else {
            Err(position(e))
        },
        None => Err(position(0)),
    }
}

/// Reads a whole text as a string.
pub fn string(input: &str) -> (r: Result<Str, ParseError>)
    ensures
        match parsed(input@, g_string(input@, 0)) {
            Ok(v) => r is Ok && part_views(r->Ok_0@) == v,
            Err(p) => r is Err && r->Err_0.position == p,
        },
{
    let s = chars_of(input);
    match parse_string(&s, 0) {
        Some((v, e)) => if e == s.len() {
            Ok(v)
        } else {
            Err(position(e))
        },
        None => Err(position(0)),
    }
}

/// Reads a whole text as an expansion.
pub fn expansion(input: &str) -> (r: Result<Expansion, ParseError>)
    ensures
        match parsed(input@, g_expansion(input@, 0)) {
            Ok(v) => r is Ok && r->Ok_0@ == v,
            Err(p) => r is Err && r->Err_0.position == p,
        },
{
    let s = chars_of(input);
    match parse_expansion(&s, 0) {
        Some((v, e)) => if e == s.len() {
            Ok(v)
        } else {
            Err(position(e))
        },
        None => Err(position(0)),
    }
}

} // verus!
