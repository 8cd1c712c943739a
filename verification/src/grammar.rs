//! The grammar of the command language, as functions from a text and a
//! position to what stands there and where it ends. Alternatives are tried in
//! order and repetitions take all they can get.
//!
//! ```text
//! list        = pipeline { (";" | "&&" | "||") pipeline }
//! pipeline    = ("{" pipeline "}" | command) [ pipe pipeline ]
//! pipe        = ws* ("|&" | "|!" | "|") ws*
//! command     = ws* "(" list ")" ws* | argument+
//! argument    = ws* ["@"] string ws*
//! string      = single_quoted | double_quoted | raw
//! expansion   = ("$&" | "$!" | "$" | "=" | "?") "(" list ")" | "${" name "}" | "$" name
//! ```

use vstd::prelude::*;
use crate::ast::{
    ArgumentsView, CommandView, Condition, ExpansionView, ListView, Pipe, PipelineView, StrPartView,
};

verus! {

/// Whether the character `c` stands at `pos`.
pub open spec fn at(s: Seq<char>, pos: int, c: char) -> bool {
    0 <= pos < s.len() && s[pos] == c
}

/// Whether a character is one of the blanks that may stand between arguments.
pub open spec fn is_ws(c: char) -> bool {
    c == ' ' || c == '\t' || c == '\n' || c == '\r'
}

/// The first position from `pos` on that holds no blank.
pub open spec fn skip_ws(s: Seq<char>, pos: int) -> int
    decreases s.len() - pos,
{
    if 0 <= pos < s.len() && is_ws(s[pos]) {
        skip_ws(s, pos + 1)
    } else {
        pos
    }
}

/// Whether a name can start with the character: a letter or `_`.
pub open spec fn is_name_start(c: char) -> bool {
    ('a' as u32 <= c as u32 <= 'z' as u32) || ('A' as u32 <= c as u32 <= 'Z' as u32) || c == '_'
}

/// Whether a name can go on with the character: a letter, `_` or a digit.
pub open spec fn is_name_char(c: char) -> bool {
    is_name_start(c) || ('0' as u32 <= c as u32 <= '9' as u32)
}

/// The first position from `pos` on that holds no character of a name.
pub open spec fn name_end(s: Seq<char>, pos: int) -> int
    decreases s.len() - pos,
{
    if 0 <= pos < s.len() && is_name_char(s[pos]) {
        name_end(s, pos + 1)
    } else {
        pos
    }
}

/// A name: a letter or `_`, then letters, digits and `_`.
pub open spec fn g_name(s: Seq<char>, pos: int) -> Option<(Seq<char>, int)> {
    if 0 <= pos < s.len() && is_name_start(s[pos]) {
        Some((s.subrange(pos, name_end(s, pos + 1)), name_end(s, pos + 1)))
    } else {
        None
    }
}

/// A variable: `${name}` or `$name`.
pub open spec fn g_variable(s: Seq<char>, pos: int) -> Option<(Seq<char>, int)> {
    let braced = if at(s, pos, '$') && at(s, pos + 1, '{') {
        match g_name(s, pos + 2) {
            Some((name, e)) => if at(s, e, '}') {
                Some((name, e + 1))
            } else {
                None
            },
            None => None,
        }
    } else {
        None
    };
    if braced is Some {
        braced
    } else if at(s, pos, '$') {
        g_name(s, pos + 1)
    } else {
        None
    }
}

/// One character inside single quotes: `\'` for a quote, `\\` for a
/// backslash, or any character but the quote.
pub open spec fn sq_char(s: Seq<char>, pos: int) -> Option<(char, int)> {
    if at(s, pos, '\\') && at(s, pos + 1, '\'') {
        Some(('\'', pos + 2))
    } else if at(s, pos, '\\') && at(s, pos + 1, '\\') {
        Some(('\\', pos + 2))
    } else if 0 <= pos < s.len() && s[pos] != '\'' {
        Some((s[pos], pos + 1))
    } else {
        None
    }
}

/// The characters inside single quotes from `pos` on, behind those in `acc`.
pub open spec fn sq_chars(s: Seq<char>, pos: int, acc: Seq<char>) -> (Seq<char>, int)
    decreases s.len() - pos,
{
    match sq_char(s, pos) {
        Some((c, p)) => sq_chars(s, p, acc.push(c)),
        None => (acc, pos),
    }
}

/// A string in single quotes.
pub open spec fn g_single_quoted(s: Seq<char>, pos: int) -> Option<(Seq<char>, int)> {
    if at(s, pos, '\'') {
        let (text, e) = sq_chars(s, pos + 1, seq![]);
        if at(s, e, '\'') {
            Some((text, e + 1))
        } else {
            None
        }
    } else {
        None
    }
}

/// One literal character inside double quotes: `\"`, `\\` and `\$` for the
/// character behind the backslash, or any character but `"` and `$`.
pub open spec fn dq_char(s: Seq<char>, pos: int) -> Option<(char, int)> {
    if at(s, pos, '\\') && at(s, pos + 1, '"') {
        Some(('"', pos + 2))
    } else if at(s, pos, '\\') && at(s, pos + 1, '\\') {
        Some(('\\', pos + 2))
    } else if at(s, pos, '\\') && at(s, pos + 1, '$') {
        Some(('$', pos + 2))
    } else if 0 <= pos < s.len() && s[pos] != '"' && s[pos] != '$' {
        Some((s[pos], pos + 1))
    } else {
        None
    }
}

/// The literal characters inside double quotes from `pos` on, behind those
/// in `acc`.
pub open spec fn dq_chars(s: Seq<char>, pos: int, acc: Seq<char>) -> (Seq<char>, int)
    decreases s.len() - pos,
{
    match dq_char(s, pos) {
        Some((c, p)) => dq_chars(s, p, acc.push(c)),
        None => (acc, pos),
    }
}

/// Whether a character has a meaning of its own in an unquoted string.
pub open spec fn is_meta(c: char) -> bool {
    c == '\\' || c == ' ' || c == '\t' || c == '\n' || c == '@' || c == ';' || c == '&' || c == '|'
        || c == '$' || c == '(' || c == ')' || c == '[' || c == ']' || c == '\'' || c == '"' || c
        == '=' || c == '?' || c == '{' || c == '}'
}

/// One literal character of an unquoted string: a backslash and a character
/// with a meaning of its own or `*`, for that character; a character without
/// such a meaning; or `=` or `?` where no `(` follows.
pub open spec fn raw_char(s: Seq<char>, pos: int) -> Option<(char, int)> {
    if at(s, pos, '\\') && 0 <= pos + 1 < s.len() && (is_meta(s[pos + 1]) || s[pos + 1] == '*') {
        Some((s[pos + 1], pos + 2))
    } else if 0 <= pos < s.len() && !is_meta(s[pos]) {
        Some((s[pos], pos + 1))
    } else if (at(s, pos, '=') || at(s, pos, '?')) && !at(s, pos + 1, '(') {
        Some((s[pos], pos + 1))
    } else {
        None
    }
}

/// The literal characters of an unquoted string from `pos` on, behind those
/// in `acc`.
pub open spec fn raw_chars(s: Seq<char>, pos: int, acc: Seq<char>) -> (Seq<char>, int)
    decreases s.len() - pos,
{
    match raw_char(s, pos) {
        Some((c, p)) => raw_chars(s, p, acc.push(c)),
        None => (acc, pos),
    }
}

/// A pipe sign with the blanks around it.
pub open spec fn g_pipe(s: Seq<char>, pos: int) -> Option<(Pipe, int)> {
    let q = skip_ws(s, pos);
    if at(s, q, '|') {
        if at(s, q + 1, '&') {
            Some((Pipe::Both, skip_ws(s, q + 2)))
        } else if at(s, q + 1, '!') {
            Some((Pipe::Stderr, skip_ws(s, q + 2)))
        } else {
            Some((Pipe::Stdout, skip_ws(s, q + 1)))
        }
    } else {
        None
    }
}

/// A list in round brackets.
pub open spec fn g_subshell(s: Seq<char>, pos: int) -> Option<(ListView, int)>
    decreases s.len() - pos, 2int,
{
    if at(s, pos, '(') {
        match g_list(s, pos + 1) {
            Some((l, p)) => if at(s, p, ')') {
                Some((l, p + 1))
            } else {
                None
            },
            None => None,
        }
    } else {
        None
    }
}

/// The kind of substitution that starts at `pos`, and where its bracket is.
pub open spec fn subst_head(s: Seq<char>, pos: int) -> Option<(int, int)> {
    if at(s, pos, '$') && at(s, pos + 1, '&') {
        Some((0int, pos + 2))
    } else if at(s, pos, '$') && at(s, pos + 1, '!') {
        Some((1int, pos + 2))
    } else if at(s, pos, '$') {
        Some((2int, pos + 1))
    } else if at(s, pos, '=') {
        Some((3int, pos + 1))
    } else if at(s, pos, '?') {
        Some((4int, pos + 1))
    } else {
        None
    }
}

/// The substitution of a kind around a list.
pub open spec fn subst_of(kind: int, l: ListView) -> ExpansionView {
    if kind == 0 {
        ExpansionView::SubstBoth(Box::new(l))
    } else if kind == 1 {
        ExpansionView::SubstStderr(Box::new(l))
    } else if kind == 2 {
        ExpansionView::SubstStdout(Box::new(l))
    } else if kind == 3 {
        ExpansionView::SubstPipeName(Box::new(l))
    } else {
        ExpansionView::SubstStatus(Box::new(l))
    }
}

/// An expansion: a substitution `$&(..)`, `$!(..)`, `$(..)`, `=(..)` or
/// `?(..)`, or a variable.
pub open spec fn g_expansion(s: Seq<char>, pos: int) -> Option<(ExpansionView, int)>
    decreases s.len() - pos, 3int,
{
    let subst = match subst_head(s, pos) {
        Some((kind, p)) => if p > pos {
            match g_subshell(s, p) {
                Some((l, e)) => Some((subst_of(kind, l), e)),
                None => None,
            }
        } else {
            None
        },
        None => None,
    };
    if subst is Some {
        subst
    } else {
        match g_variable(s, pos) {
            Some((name, e)) => Some((ExpansionView::Variable { name }, e)),
            None => None,
        }
    }
}

/// The parts inside double quotes from `pos` on, behind those in `acc`: each
/// an expansion, or as many literal characters as there are.
pub open spec fn dq_parts(s: Seq<char>, pos: int, acc: Seq<StrPartView>) -> (
    Seq<StrPartView>,
    int,
)
    decreases s.len() - pos, 4int,
{
    match g_expansion(s, pos) {
        Some((e, p)) => if pos < p <= s.len() {
            dq_parts(s, p, acc.push(StrPartView::Expansion(e)))
        } else {
            (acc, pos)
        },
        None => {
            let (text, p) = dq_chars(s, pos, seq![]);
            if pos < p <= s.len() {
                dq_parts(s, p, acc.push(StrPartView::Chars(text)))
            } else {
                (acc, pos)
            }
        },
    }
}

/// The parts of an unquoted string from `pos` on, behind those in `acc`.
pub open spec fn raw_parts(s: Seq<char>, pos: int, acc: Seq<StrPartView>) -> (
    Seq<StrPartView>,
    int,
)
    decreases s.len() - pos, 4int,
{
    match g_expansion(s, pos) {
        Some((e, p)) => if pos < p <= s.len() {
            raw_parts(s, p, acc.push(StrPartView::Expansion(e)))
        } else {
            (acc, pos)
        },
        None => {
            let (text, p) = raw_chars(s, pos, seq![]);
            if pos < p <= s.len() {
                raw_parts(s, p, acc.push(StrPartView::Chars(text)))
            } else {
                (acc, pos)
            }
        },
    }
}

/// A string: in single quotes, in double quotes, or unquoted.
pub open spec fn g_string(s: Seq<char>, pos: int) -> Option<(Seq<StrPartView>, int)>
    decreases s.len() - pos, 5int,
{
    match g_single_quoted(s, pos) {
        Some((text, e)) => Some((seq![StrPartView::Chars(text)], e)),
        None => {
            let quoted = if at(s, pos, '"') {
                let (parts, e) = dq_parts(s, pos + 1, seq![]);
                if at(s, e, '"') {
                    Some((parts, e + 1))
                } else {
                    None
                }
            } else {
                None
            };
            if quoted is Some {
                quoted
            } else {
                let (parts, e) = raw_parts(s, pos, seq![]);
                if parts.len() > 0 {
                    Some((parts, e))
                } else {
                    None
                }
            }
        },
    }
}

/// An argument: a string, or `@` and a string, with the blanks around it.
pub open spec fn g_arguments(s: Seq<char>, pos: int) -> Option<(ArgumentsView, int)>
    decreases s.len() - pos, 6int,
{
    let q = skip_ws(s, pos);
    let split = if at(s, q, '@') && pos <= q {
        match g_string(s, q + 1) {
            Some((parts, e)) => Some((ArgumentsView::AtExpansion(parts), skip_ws(s, e))),
            None => None,
        }
    } else {
        None
    };
    if split is Some {
        split
    } else if pos <= q <= s.len() {
        match g_string(s, q) {
            Some((parts, e)) => Some((ArgumentsView::Arg(parts), skip_ws(s, e))),
            None => None,
        }
    } else {
        None
    }
}

/// The arguments from `pos` on, behind those in `acc`.
pub open spec fn g_args(s: Seq<char>, pos: int, acc: Seq<ArgumentsView>) -> (
    Seq<ArgumentsView>,
    int,
)
    decreases s.len() - pos, 7int,
{
    match g_arguments(s, pos) {
        Some((a, p)) => if pos < p <= s.len() {
            g_args(s, p, acc.push(a))
        } else {
            (acc, pos)
        },
        None => (acc, pos),
    }
}

/// A command: a list in round brackets with blanks around it, or one or more
/// arguments.
pub open spec fn g_command(s: Seq<char>, pos: int) -> Option<(CommandView, int)>
    decreases s.len() - pos, 8int,
{
    let q = skip_ws(s, pos);
    let sub = if pos <= q <= s.len() {
        g_subshell(s, q)
    } else {
        None
    };
    match sub {
        Some((l, e)) => Some((CommandView::SubShell(Box::new(l)), skip_ws(s, e))),
        None => {
            let (args, e) = g_args(s, pos, seq![]);
            if args.len() > 0 {
                Some((CommandView::Simple(args), e))
            } else {
                None
            }
        },
    }
}

/// What follows the left side of a pipeline that ends at `p`: a pipe and
/// another pipeline, or nothing.
pub open spec fn g_connect(s: Seq<char>, pos: int, lhs: PipelineView, p: int) -> (
    PipelineView,
    int,
)
    decreases s.len() - pos, 9int,
{
    match g_pipe(s, p) {
        Some((pipe, p2)) => if pos < p2 <= s.len() {
            match g_pipeline(s, p2) {
                Some((rhs, e)) => (
                    PipelineView::Connected { pipe, lhs: Box::new(lhs), rhs: Box::new(rhs) },
                    e,
                ),
                None => (lhs, p),
            }
        } else {
            (lhs, p)
        },
        None => (lhs, p),
    }
}

/// A pipeline: a pipeline in curly brackets or a command, and behind it,
/// where there is one, a pipe and another pipeline.
pub open spec fn g_pipeline(s: Seq<char>, pos: int) -> Option<(PipelineView, int)>
    decreases s.len() - pos, 10int,
{
    let braced = if at(s, pos, '{') {
        match g_pipeline(s, pos + 1) {
            Some((inner, p)) => if at(s, p, '}') {
                Some((inner, p + 1))
            } else {
                None
            },
            None => None,
        }
    } else {
        None
    };
    match braced {
        Some((lhs, p)) => Some(g_connect(s, pos, lhs, p)),
        None => match g_command(s, pos) {
            Some((c, p)) => Some(g_connect(s, pos, PipelineView::Single(c), p)),
            None => None,
        },
    }
}

/// The condition that starts at `pos`, and where its pipeline starts.
pub open spec fn condition_head(s: Seq<char>, pos: int) -> Option<(Condition, int)> {
    if at(s, pos, ';') {
        Some((Condition::Always, pos + 1))
    } else if at(s, pos, '&') && at(s, pos + 1, '&') {
        Some((Condition::IfSuccess, pos + 2))
    } else if at(s, pos, '|') && at(s, pos + 1, '|') {
        Some((Condition::IfError, pos + 2))
    } else {
        None
    }
}

/// The conditions and pipelines from `pos` on, behind those in `acc`.
pub open spec fn g_following(s: Seq<char>, pos: int, acc: Seq<(Condition, PipelineView)>) -> (
    Seq<(Condition, PipelineView)>,
    int,
)
    decreases s.len() - pos, 11int,
{
    match condition_head(s, pos) {
        Some((cond, p)) => if p > pos {
            match g_pipeline(s, p) {
                Some((pl, e)) => if pos < e <= s.len() {
                    g_following(s, e, acc.push((cond, pl)))
                } else {
                    (acc, pos)
                },
                None => (acc, pos),
            }
        } else {
            (acc, pos)
        },
        None => (acc, pos),
    }
}

/// A list: a pipeline, and behind it as many conditions with their pipelines
/// as there are.
pub open spec fn g_list(s: Seq<char>, pos: int) -> Option<(ListView, int)>
    decreases s.len() - pos, 12int,
{
    match g_pipeline(s, pos) {
        Some((first, p)) => if pos <= p <= s.len() {
            let (following, e) = g_following(s, p, seq![]);
            Some((ListView { first, following }, e))
        } else {
            None
        },
        None => None,
    }
}

} // verus!
