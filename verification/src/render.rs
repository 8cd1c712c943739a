//! A way to write a syntax tree down so that the grammar reads the same tree
//! back: a string of literal text in single quotes, any other string in
//! double quotes, pipelines on the left of a pipe in curly brackets.

use vstd::prelude::*;
use crate::ast::{
    argument_views, following_views, lemma_list_view, lemma_simple_view, lemma_str_view, part_views,
    str_view, Arguments, ArgumentsView, Command, CommandView, Condition, Expansion, ExpansionView,
    List, ListView, Pipe, Pipeline, PipelineView, Str, StrPart, StrPartView,
};
use crate::chars::{chars_of, push_str, string_of};
use crate::grammar::{is_name_char, is_name_start};
use crate::parser::{name_char, name_start};

verus! {

/// A text with `\` before each `'` and each `\`.
pub open spec fn sq_escaped(text: Seq<char>) -> Seq<char>
    decreases text.len(),
{
    if text.len() == 0 {
        seq![]
    } else if text[0] == '\'' || text[0] == '\\' {
        seq!['\\', text[0]] + sq_escaped(text.skip(1))
    } else {
        seq![text[0]] + sq_escaped(text.skip(1))
    }
}

/// Whether a character is written behind `\` inside double quotes.
pub open spec fn is_dq_special(c: char) -> bool {
    c == '"' || c == '\\' || c == '$'
}

/// A text with `\` before each `"`, each `\` and each `$`.
pub open spec fn dq_escaped(text: Seq<char>) -> Seq<char>
    decreases text.len(),
{
    if text.len() == 0 {
        seq![]
    } else if is_dq_special(text[0]) {
        seq!['\\', text[0]] + dq_escaped(text.skip(1))
    } else {
        seq![text[0]] + dq_escaped(text.skip(1))
    }
}

/// Whether a text can be the name of a variable.
pub open spec fn is_name(name: Seq<char>) -> bool {
    &&& name.len() > 0
    &&& is_name_start(name[0])
    &&& forall|i: int| 0 <= i < name.len() ==> is_name_char(#[trigger] name[i])
}

/// The sign of a pipe.
pub open spec fn pipe_sign(pipe: Pipe) -> Seq<char> {
    match pipe {
        Pipe::Stdout => seq!['|'],
        Pipe::Stderr => seq!['|', '!'],
        Pipe::Both => seq!['|', '&'],
    }
}

/// The sign of a condition.
pub open spec fn condition_sign(cond: Condition) -> Seq<char> {
    match cond {
        Condition::Always => seq![';'],
        Condition::IfSuccess => seq!['&', '&'],
        Condition::IfError => seq!['|', '|'],
    }
}

/// What opens a substitution.
pub open spec fn subst_sign(e: ExpansionView) -> Seq<char> {
    match e {
        ExpansionView::SubstBoth(_) => seq!['$', '&', '('],
        ExpansionView::SubstStderr(_) => seq!['$', '!', '('],
        ExpansionView::SubstStdout(_) => seq!['$', '('],
        ExpansionView::SubstPipeName(_) => seq!['=', '('],
        ExpansionView::SubstStatus(_) => seq!['?', '('],
        ExpansionView::Variable { .. } => seq!['$', '{'],
    }
}

/// The list inside a substitution.
pub open spec fn subst_list(e: ExpansionView) -> Option<ListView> {
    match e {
        ExpansionView::SubstBoth(l) => Some(*l),
        ExpansionView::SubstStderr(l) => Some(*l),
        ExpansionView::SubstStdout(l) => Some(*l),
        ExpansionView::SubstPipeName(l) => Some(*l),
        ExpansionView::SubstStatus(l) => Some(*l),
        ExpansionView::Variable { .. } => None,
    }
}

/// A list written down: its pipelines with the signs of their conditions
/// between them.
#[verifier::opaque]
pub open spec fn list_text(l: ListView) -> Seq<char>
    decreases l, 2int,
{
    pipeline_text(l.first) + following_text(l, 0)
}

/// The conditions and pipelines of a list from the `k`th on, written down.
pub open spec fn following_text(l: ListView, k: int) -> Seq<char>
    decreases l, 1int, l.following.len() - k,
{
    if k < 0 || k >= l.following.len() {
        seq![]
    } else {
        condition_sign(l.following[k].0) + pipeline_text(l.following[k].1) + following_text(
            l,
            k + 1,
        )
    }
}

/// A pipeline written down: a command, or the left side in curly brackets,
/// the pipe's sign and the right side.
pub open spec fn pipeline_text(p: PipelineView) -> Seq<char>
    decreases p, 0int,
{
    match p {
        PipelineView::Single(c) => command_text(c),
        PipelineView::Connected { pipe, lhs, rhs } => seq!['{'] + pipeline_text(*lhs) + seq!['}']
            + pipe_sign(pipe) + pipeline_text(*rhs),
    }
}

/// A command written down: its arguments, or its list in round brackets.
pub open spec fn command_text(c: CommandView) -> Seq<char>
    decreases c, 2int,
{
    match c {
        CommandView::Simple(args) => arguments_text(args, 0),
        CommandView::SubShell(l) => seq!['('] + list_text(*l) + seq![')'],
    }
}

/// The arguments of a simple command from the `k`th on, written down.
pub open spec fn arguments_text(args: Seq<ArgumentsView>, k: int) -> Seq<char>
    decreases args, 1int, args.len() - k,
{
    if k < 0 || k >= args.len() {
        seq![]
    } else {
        argument_text(args[k]) + arguments_text(args, k + 1)
    }
}

/// An argument written down: its string, behind `@` where it is split, and a
/// space.
pub open spec fn argument_text(a: ArgumentsView) -> Seq<char>
    decreases a,
{
    match a {
        ArgumentsView::Arg(parts) => string_text(parts) + seq![' '],
        ArgumentsView::AtExpansion(parts) => seq!['@'] + string_text(parts) + seq![' '],
    }
}

/// Whether a string is literal text and nothing else.
pub open spec fn is_plain(parts: Seq<StrPartView>) -> bool {
    parts.len() == 1 && parts[0] is Chars
}

/// A string written down: literal text in single quotes, any other string
/// as its parts in double quotes.
pub open spec fn string_text(parts: Seq<StrPartView>) -> Seq<char>
    decreases parts, 1int,
{
    if is_plain(parts) {
        seq!['\''] + sq_escaped(parts[0]->Chars_0) + seq!['\'']
    } else {
        seq!['"'] + parts_text(parts, 0) + seq!['"']
    }
}

/// The parts of a string from the `k`th on, as they stand in double quotes.
pub open spec fn parts_text(parts: Seq<StrPartView>, k: int) -> Seq<char>
    decreases parts, 0int, parts.len() - k,
{
    if k < 0 || k >= parts.len() {
        seq![]
    } else {
        part_text(parts[k]) + parts_text(parts, k + 1)
    }
}

/// A part of a string as it stands in double quotes.
pub open spec fn part_text(p: StrPartView) -> Seq<char>
    decreases p,
{
    match p {
        StrPartView::Chars(text) => dq_escaped(text),
        StrPartView::Expansion(e) => expansion_text(e),
    }
}

/// An expansion written down: `${name}`, or the substitution's sign and its
/// list in round brackets.
pub open spec fn expansion_text(e: ExpansionView) -> Seq<char>
    decreases e,
{
    match e {
        ExpansionView::Variable { name } => seq!['$', '{'] + name + seq!['}'],
        ExpansionView::SubstBoth(l) => subst_sign(e) + list_text(*l) + seq![')'],
        ExpansionView::SubstStderr(l) => subst_sign(e) + list_text(*l) + seq![')'],
        ExpansionView::SubstStdout(l) => subst_sign(e) + list_text(*l) + seq![')'],
        ExpansionView::SubstPipeName(l) => subst_sign(e) + list_text(*l) + seq![')'],
        ExpansionView::SubstStatus(l) => subst_sign(e) + list_text(*l) + seq![')'],
    }
}

/// Whether a list can be written down so that it is read back: each of its
/// commands has arguments, each variable has a name that the grammar reads,
/// and in a string of several parts no literal text is empty, starts like a
/// substitution, or stands before another text or a substitution without `$`.
#[verifier::opaque]
pub open spec fn list_ok(l: ListView) -> bool
    decreases l, 2int,
{
    pipeline_ok(l.first) && following_ok(l, 0)
}

/// Whether the pipelines of a list from the `k`th following one on are read
/// back.
pub open spec fn following_ok(l: ListView, k: int) -> bool
    decreases l, 1int, l.following.len() - k,
{
    if k < 0 || k >= l.following.len() {
        true
    } else {
        pipeline_ok(l.following[k].1) && following_ok(l, k + 1)
    }
}

/// Whether a pipeline is read back: each of its commands is.
pub open spec fn pipeline_ok(p: PipelineView) -> bool
    decreases p, 0int,
{
    match p {
        PipelineView::Single(c) => command_ok(c),
        PipelineView::Connected { pipe, lhs, rhs } => pipeline_ok(*lhs) && pipeline_ok(*rhs),
    }
}

/// Whether a command is read back: it has arguments and each is read back,
/// or its list is.
pub open spec fn command_ok(c: CommandView) -> bool
    decreases c, 2int,
{
    match c {
        CommandView::Simple(args) => args.len() > 0 && arguments_ok(args, 0),
        CommandView::SubShell(l) => list_ok(*l),
    }
}

/// Whether the arguments from the `k`th on are read back.
pub open spec fn arguments_ok(args: Seq<ArgumentsView>, k: int) -> bool
    decreases args, 1int, args.len() - k,
{
    if k < 0 || k >= args.len() {
        true
    } else {
        argument_ok(args[k]) && arguments_ok(args, k + 1)
    }
}

/// Whether an argument is read back: its string is.
pub open spec fn argument_ok(a: ArgumentsView) -> bool
    decreases a,
{
    match a {
        ArgumentsView::Arg(parts) => string_ok(parts),
        ArgumentsView::AtExpansion(parts) => string_ok(parts),
    }
}

/// Whether a string is read back: it is literal text and nothing else, or
/// its parts are read back inside double quotes.
pub open spec fn string_ok(parts: Seq<StrPartView>) -> bool
    decreases parts, 1int,
{
    is_plain(parts) || parts_ok(parts, 0)
}

/// Whether the parts of a string from the `k`th on are read back inside
/// double quotes: each is, and behind literal text stands nothing or an
/// expansion that starts with `$`.
pub open spec fn parts_ok(parts: Seq<StrPartView>, k: int) -> bool
    decreases parts, 0int, parts.len() - k,
{
    if k < 0 || k >= parts.len() {
        true
    } else {
        part_ok(parts[k]) && (parts[k] is Chars && k + 1 < parts.len() ==> follows_text(
            parts[k + 1],
        )) && parts_ok(parts, k + 1)
    }
}

/// Whether a text starts like a substitution without `$`: with `=(` or `?(`.
pub open spec fn opens_substitution(text: Seq<char>) -> bool {
    text.len() >= 2 && (text[0] == '=' || text[0] == '?') && text[1] == '('
}

/// Whether a part can stand behind literal text in double quotes: an
/// expansion that starts with `$`.
pub open spec fn follows_text(p: StrPartView) -> bool {
    match p {
        StrPartView::Chars(_) => false,
        StrPartView::Expansion(e) => !(e is SubstPipeName) && !(e is SubstStatus),
    }
}

/// Whether a part is read back inside double quotes: literal text that is
/// not empty and does not start like a substitution, or an expansion that is
/// read back.
pub open spec fn part_ok(p: StrPartView) -> bool
    decreases p,
{
    match p {
        StrPartView::Chars(text) => text.len() > 0 && !opens_substitution(text),
        StrPartView::Expansion(e) => expansion_ok(e),
    }
}

/// Whether an expansion is read back: a variable has a name that the grammar
/// reads, and the list of a substitution is read back.
pub open spec fn expansion_ok(e: ExpansionView) -> bool
    decreases e,
{
    match e {
        ExpansionView::Variable { name } => is_name(name),
        ExpansionView::SubstBoth(l) => list_ok(*l),
        ExpansionView::SubstStderr(l) => list_ok(*l),
        ExpansionView::SubstStdout(l) => list_ok(*l),
        ExpansionView::SubstPipeName(l) => list_ok(*l),
        ExpansionView::SubstStatus(l) => list_ok(*l),
    }
}

/// The text of a substitution is its sign, the text of its list and `)`, and
/// it is read back where its list is.
pub proof fn lemma_subst_text(e: ExpansionView)
    requires
        !(e is Variable),
    ensures
        subst_list(e) is Some,
        expansion_text(e) == subst_sign(e) + list_text(subst_list(e)->0) + seq![')'],
        expansion_ok(e) == list_ok(subst_list(e)->0),
        decreases_to!(e => subst_list(e)->0),
{
    reveal(list_text);
    reveal(list_ok);
    match e {
        ExpansionView::SubstBoth(l) => {
            assert(expansion_text(e) == subst_sign(e) + list_text(*l) + seq![')']);
            assert(expansion_ok(e) == list_ok(*l));
        },
        ExpansionView::SubstStderr(l) => {
            assert(expansion_text(e) == subst_sign(e) + list_text(*l) + seq![')']);
            assert(expansion_ok(e) == list_ok(*l));
        },
        ExpansionView::SubstStdout(l) => {
            assert(expansion_text(e) == subst_sign(e) + list_text(*l) + seq![')']);
            assert(expansion_ok(e) == list_ok(*l));
        },
        ExpansionView::SubstPipeName(l) => {
            assert(expansion_text(e) == subst_sign(e) + list_text(*l) + seq![')']);
            assert(expansion_ok(e) == list_ok(*l));
        },
        ExpansionView::SubstStatus(l) => {
            assert(expansion_text(e) == subst_sign(e) + list_text(*l) + seq![')']);
            assert(expansion_ok(e) == list_ok(*l));
        },
        ExpansionView::Variable { .. } => {},
    }
}

/// The text of a list in round brackets is the text of the list between
/// them, and it is read back where the list is.
pub proof fn lemma_subshell_text(c: CommandView)
    requires
        c is SubShell,
    ensures
        command_text(c) == seq!['('] + list_text(*c->SubShell_0) + seq![')'],
        command_ok(c) == list_ok(*c->SubShell_0),
{
    reveal(list_text);
    reveal(list_ok);
}

/// Appending one text after the other is appending the two as one.
proof fn lemma_appended(a: Seq<char>, b: Seq<char>, c: Seq<char>)
    ensures
        (a + b) + c == a + (b + c),
{
    assert((a + b) + c =~= a + (b + c));
}

/// Appends a text with `\` before each `'` and each `\`.
fn write_sq(text: &str, out: &mut Vec<char>)
    ensures
        final(out)@ == old(out)@ + sq_escaped(text@),
{
    let chars = chars_of(text);
    let mut i: usize = 0;
    assert(chars@.skip(0) =~= chars@);
    while i < chars.len()
        invariant
            i <= chars.len(),
            chars@ == text@,
            out@ + sq_escaped(chars@.skip(i as int)) == old(out)@ + sq_escaped(chars@),
        decreases chars.len() - i,
    {
        let c = chars[i];
        let ghost before = out@;
        let ghost rest = chars@.skip(i as int);
        assert(rest[0] == c);
        assert(rest.skip(1) =~= chars@.skip(i + 1));
        if c == '\'' || c == '\\' {
            out.push('\\');
        }
        out.push(c);
        i += 1;
        assert(out@ + sq_escaped(chars@.skip(i as int)) =~= before + sq_escaped(rest));
    }
    assert(out@ + sq_escaped(chars@.skip(i as int)) =~= out@);
}

/// Appends a text with `\` before each `"`, each `\` and each `$`.
fn write_dq(text: &str, out: &mut Vec<char>)
    ensures
        final(out)@ == old(out)@ + dq_escaped(text@),
{
    let chars = chars_of(text);
    let mut i: usize = 0;
    assert(chars@.skip(0) =~= chars@);
    while i < chars.len()
        invariant
            i <= chars.len(),
            chars@ == text@,
            out@ + dq_escaped(chars@.skip(i as int)) == old(out)@ + dq_escaped(chars@),
        decreases chars.len() - i,
    {
        let c = chars[i];
        let ghost before = out@;
        let ghost rest = chars@.skip(i as int);
        assert(rest[0] == c);
        assert(rest.skip(1) =~= chars@.skip(i + 1));
        if c == '"' || c == '\\' || c == '$' {
            out.push('\\');
        }
        out.push(c);
        i += 1;
        assert(out@ + dq_escaped(chars@.skip(i as int)) =~= before + dq_escaped(rest));
    }
    assert(out@ + dq_escaped(chars@.skip(i as int)) =~= out@);
}

/// Appends the sign of a pipe.
fn write_pipe(pipe: Pipe, out: &mut Vec<char>)
    ensures
        final(out)@ == old(out)@ + pipe_sign(pipe),
{
    out.push('|');
    match pipe {
        Pipe::Stdout => {},
        Pipe::Stderr => {
            out.push('!');
        },
        Pipe::Both => {
            out.push('&');
        },
    }
    assert(out@ =~= old(out)@ + pipe_sign(pipe));
}

/// Appends the sign of a condition.
fn write_condition(cond: Condition, out: &mut Vec<char>)
    ensures
        final(out)@ == old(out)@ + condition_sign(cond),
{
    match cond {
        Condition::Always => {
            out.push(';');
        },
        Condition::IfSuccess => {
            out.push('&');
            out.push('&');
        },
        Condition::IfError => {
            out.push('|');
            out.push('|');
        },
    }
    assert(out@ =~= old(out)@ + condition_sign(cond));
}

/// Appends the text of a list.
fn write_list(l: &List, out: &mut Vec<char>)
    ensures
        final(out)@ == old(out)@ + list_text(l@),
    decreases l, 0int,
{
    proof {
        reveal(list_text);
        lemma_list_view(*l);
    }
    let ghost lv = l@;
    write_pipeline(&l.first, out);
    let mut i: usize = 0;
    while i < l.following.len()
        invariant
            i <= l.following.len(),
            lv == l@,
            lv.following == following_views(l.following@),
            out@ + following_text(lv, i as int) == old(out)@ + pipeline_text(lv.first)
                + following_text(lv, 0),
        decreases l.following.len() - i,
    {
        let ghost before = out@;
        write_condition(l.following[i].0, out);
        write_pipeline(&l.following[i].1, out);
        assert(lv.following[i as int] == (l.following[i as int].0, l.following[i as int].1@));
        assert(out@ + following_text(lv, i + 1) =~= before + following_text(lv, i as int));
        i += 1;
    }
    assert(out@ + following_text(lv, i as int) =~= out@);
}

/// Appends the text of a pipeline.
fn write_pipeline(p: &Pipeline, out: &mut Vec<char>)
    ensures
        final(out)@ == old(out)@ + pipeline_text(p@),
    decreases p,
{
    match p {
        Pipeline::Single(c) => {
            write_command(c, out);
        },
        Pipeline::Connected { pipe, lhs, rhs } => {
            out.push('{');
            write_pipeline(lhs, out);
            out.push('}');
            write_pipe(*pipe, out);
            write_pipeline(rhs, out);
            assert(out@ =~= old(out)@ + (seq!['{'] + pipeline_text(lhs@) + seq!['}'] + pipe_sign(
                *pipe,
            ) + pipeline_text(rhs@)));
        },
    }
}

/// Appends the text of a command.
fn write_command(c: &Command, out: &mut Vec<char>)
    ensures
        final(out)@ == old(out)@ + command_text(c@),
    decreases c,
{
    match c {
        Command::Simple(args) => {
            proof {
                lemma_simple_view(*args);
            }
            let ghost av = argument_views(args@);
            let mut i: usize = 0;
            assert(out@ + arguments_text(av, 0) =~= old(out)@ + arguments_text(av, 0));
            while i < args.len()
                invariant
                    i <= args.len(),
                    c is Simple,
                    c->Simple_0 == *args,
                    av == argument_views(args@),
                    out@ + arguments_text(av, i as int) == old(out)@ + arguments_text(av, 0),
                decreases args.len() - i,
            {
                let ghost before = out@;
                write_argument(&args[i], out);
                assert(av[i as int] == args[i as int]@);
                assert(out@ + arguments_text(av, i + 1) =~= before + arguments_text(av, i as int));
                i += 1;
            }
            assert(out@ + arguments_text(av, i as int) =~= out@);
        },
        Command::SubShell(l) => {
            proof {
                lemma_subshell_text(c@);
            }
            out.push('(');
            write_list(l, out);
            out.push(')');
            assert(out@ =~= old(out)@ + (seq!['('] + list_text(l@) + seq![')']));
        },
    }
}

/// Appends the text of an argument.
fn write_argument(a: &Arguments, out: &mut Vec<char>)
    ensures
        final(out)@ == old(out)@ + argument_text(a@),
    decreases a,
{
    match a {
        Arguments::Arg(parts) => {
            write_string(parts, out);
            out.push(' ');
            assert(out@ =~= old(out)@ + (string_text(str_view(*parts)) + seq![' ']));
        },
        Arguments::AtExpansion(parts) => {
            out.push('@');
            write_string(parts, out);
            out.push(' ');
            assert(out@ =~= old(out)@ + (seq!['@'] + string_text(str_view(*parts)) + seq![' ']));
        },
    }
}

/// Whether a string is literal text and nothing else.
fn plain(parts: &Str) -> (r: bool)
    ensures
        r == is_plain(str_view(*parts)),
{
    proof {
        lemma_str_view(*parts);
    }
    if parts.len() == 1 {
        match &parts[0] {
            StrPart::Chars(_) => true,
            StrPart::Expansion(_) => false,
        }
    } else {
        false
    }
}

/// Appends the text of a string.
fn write_string(parts: &Str, out: &mut Vec<char>)
    ensures
        final(out)@ == old(out)@ + string_text(str_view(*parts)),
    decreases parts,
{
    proof {
        lemma_str_view(*parts);
    }
    let ghost pv = str_view(*parts);
    if plain(parts) {
        match &parts[0] {
            StrPart::Chars(text) => {
                out.push('\'');
                write_sq(text.as_str(), out);
                out.push('\'');
                assert(pv[0] == parts[0]@);
                assert(out@ =~= old(out)@ + (seq!['\''] + sq_escaped(text@) + seq!['\'']));
            },
            StrPart::Expansion(_) => {},
        }
    } else {
        out.push('"');
        let ghost opened = out@;
        let mut i: usize = 0;
        assert(out@ + parts_text(pv, 0) =~= opened + parts_text(pv, 0));
        while i < parts.len()
            invariant
                i <= parts.len(),
                pv == part_views(parts@),
                out@ + parts_text(pv, i as int) == opened + parts_text(pv, 0),
            decreases parts.len() - i,
        {
            let ghost before = out@;
            write_part(&parts[i], out);
            assert(pv[i as int] == parts[i as int]@);
            proof {
                lemma_appended(before, part_text(pv[i as int]), parts_text(pv, i + 1));
            }
            i += 1;
        }
        assert(out@ + parts_text(pv, i as int) =~= out@);
        out.push('"');
        assert(out@ =~= old(out)@ + (seq!['"'] + parts_text(pv, 0) + seq!['"']));
    }
}

/// Appends a part of a string as it stands in double quotes.
fn write_part(p: &StrPart, out: &mut Vec<char>)
    ensures
        final(out)@ == old(out)@ + part_text(p@),
    decreases p,
{
    match p {
        StrPart::Chars(text) => {
            write_dq(text.as_str(), out);
        },
        StrPart::Expansion(e) => {
            write_expansion(e, out);
        },
    }
}

/// Appends the text of a substitution with the given sign.
fn write_substitution(sign: &str, l: &List, out: &mut Vec<char>)
    ensures
        final(out)@ == old(out)@ + (sign@ + list_text(l@) + seq![')']),
    decreases l, 1int,
{
    push_str(out, sign);
    write_list(l, out);
    out.push(')');
    assert(out@ =~= old(out)@ + (sign@ + list_text(l@) + seq![')']));
}

/// The sign that opens an expansion.
fn sign_of(e: &Expansion) -> (r: &'static str)
    ensures
        r@ == subst_sign(e@),
{
    proof {
        reveal_strlit("$(");
        reveal_strlit("$!(");
        reveal_strlit("$&(");
        reveal_strlit("=(");
        reveal_strlit("?(");
        reveal_strlit("${");
    }
    let r = match e {
        Expansion::SubstStdout(_) => "$(",
        Expansion::SubstStderr(_) => "$!(",
        Expansion::SubstBoth(_) => "$&(",
        Expansion::SubstPipeName(_) => "=(",
        Expansion::SubstStatus(_) => "?(",
        Expansion::Variable { .. } => "${",
    };
    assert(r@ =~= subst_sign(e@));
    r
}

/// Appends the text of an expansion.
fn write_expansion(e: &Expansion, out: &mut Vec<char>)
    ensures
        final(out)@ == old(out)@ + expansion_text(e@),
    decreases e,
{
    let sign = sign_of(e);
    match e {
        Expansion::Variable { name } => {
            push_str(out, sign);
            push_str(out, name.as_str());
            out.push('}');
            assert(out@ =~= old(out)@ + (seq!['$', '{'] + name@ + seq!['}']));
        },
        Expansion::SubstStdout(l) => {
            proof {
                lemma_subst_text(e@);
            }
            write_substitution(sign, l, out);
        },
        Expansion::SubstStderr(l) => {
            proof {
                lemma_subst_text(e@);
            }
            write_substitution(sign, l, out);
        },
        Expansion::SubstBoth(l) => {
            proof {
                lemma_subst_text(e@);
            }
            write_substitution(sign, l, out);
        },
        Expansion::SubstPipeName(l) => {
            proof {
                lemma_subst_text(e@);
            }
            write_substitution(sign, l, out);
        },
        Expansion::SubstStatus(l) => {
            proof {
                lemma_subst_text(e@);
            }
            write_substitution(sign, l, out);
        },
    }
}

/// Writes a list down.
pub fn render(l: &List) -> (r: String)
    ensures
        r@ == list_text(l@),
{
    let mut out: Vec<char> = Vec::new();
    write_list(l, &mut out);
    assert(out@ =~= list_text(l@));
    string_of(&out)
}

/// Whether a text can be the name of a variable.
fn named(name: &str) -> (r: bool)
    ensures
        r == is_name(name@),
{
    let chars = chars_of(name);
    if chars.len() == 0 || !name_start(chars[0]) {
        return false;
    }
    let mut i: usize = 0;
    while i < chars.len()
        invariant
            i <= chars.len(),
            chars@ == name@,
            forall|j: int| 0 <= j < i ==> is_name_char(#[trigger] chars@[j]),
        decreases chars.len() - i,
    {
        if !name_char(chars[i]) {
            return false;
        }
        i += 1;
    }
    true
}

/// Whether a text can stand inside double quotes as a part of its own.
fn fits_text(text: &str) -> (r: bool)
    ensures
        r == part_ok(StrPartView::Chars(text@)),
{
    let n: usize = text.unicode_len();
    if n == 0 {
        false
    } else if n == 1 {
        true
    } else {
        let first = text.get_char(0);
        !((first == '=' || first == '?') && text.get_char(1) == '(')
    }
}

/// Whether a part can stand behind literal text in double quotes.
fn follows(p: &StrPart) -> (r: bool)
    ensures
        r == follows_text(p@),
{
    match p {
        StrPart::Chars(_) => false,
        StrPart::Expansion(e) => match e {
            Expansion::SubstPipeName(_) => false,
            Expansion::SubstStatus(_) => false,
            _ => true,
        },
    }
}

/// Whether a list is read back from its text.
fn fits_list(l: &List) -> (r: bool)
    ensures
        r == list_ok(l@),
    decreases l,
{
    proof {
        reveal(list_ok);
        lemma_list_view(*l);
    }
    let ghost lv = l@;
    let mut ok = fits_pipeline(&l.first);
    let mut i: usize = 0;
    while i < l.following.len()
        invariant
            i <= l.following.len(),
            lv == l@,
            lv.following == following_views(l.following@),
            (ok && following_ok(lv, i as int)) == (pipeline_ok(lv.first) && following_ok(lv, 0)),
        decreases l.following.len() - i,
    {
        assert(lv.following[i as int].1 == l.following[i as int].1@);
        if ok {
            ok = fits_pipeline(&l.following[i].1);
        }
        i += 1;
    }
    ok
}

/// Whether a pipeline is read back from its text.
fn fits_pipeline(p: &Pipeline) -> (r: bool)
    ensures
        r == pipeline_ok(p@),
    decreases p,
{
    match p {
        Pipeline::Single(c) => fits_command(c),
        Pipeline::Connected { pipe, lhs, rhs } => fits_pipeline(lhs) && fits_pipeline(rhs),
    }
}

/// Whether a command is read back from its text.
fn fits_command(c: &Command) -> (r: bool)
    ensures
        r == command_ok(c@),
    decreases c,
{
    match c {
        Command::Simple(args) => {
            proof {
                lemma_simple_view(*args);
            }
            let ghost av = argument_views(args@);
            let mut ok = args.len() > 0;
            let mut i: usize = 0;
            while i < args.len()
                invariant
                    i <= args.len(),
                    c is Simple,
                    c->Simple_0 == *args,
                    av == argument_views(args@),
                    (ok && arguments_ok(av, i as int)) == (args.len() > 0 && arguments_ok(av, 0)),
                decreases args.len() - i,
            {
                assert(av[i as int] == args[i as int]@);
                if ok {
                    ok = fits_argument(&args[i]);
                }
                i += 1;
            }
            ok
        },
        Command::SubShell(l) => {
            proof {
                lemma_subshell_text(c@);
            }
            fits_list(l)
        },
    }
}

/// Whether an argument is read back from its text.
fn fits_argument(a: &Arguments) -> (r: bool)
    ensures
        r == argument_ok(a@),
    decreases a,
{
    match a {
        Arguments::Arg(parts) => fits_string(parts),
        Arguments::AtExpansion(parts) => fits_string(parts),
    }
}

/// Whether a part is read back inside double quotes.
fn fits_part(p: &StrPart) -> (r: bool)
    ensures
        r == part_ok(p@),
    decreases p,
{
    match p {
        StrPart::Chars(text) => fits_text(text.as_str()),
        StrPart::Expansion(e) => fits_expansion(e),
    }
}

/// Whether a string is read back from its text.
fn fits_string(parts: &Str) -> (r: bool)
    ensures
        r == string_ok(str_view(*parts)),
    decreases parts,
{
    proof {
        lemma_str_view(*parts);
    }
    let ghost pv = str_view(*parts);
    if plain(parts) {
        return true;
    }
    let mut ok = true;
    let mut i: usize = 0;
    while i < parts.len()
        invariant
            i <= parts.len(),
            pv == part_views(parts@),
            (ok && parts_ok(pv, i as int)) == parts_ok(pv, 0),
        decreases parts.len() - i,
    {
        assert(pv[i as int] == parts[i as int]@);
        if ok {
            ok = fits_part(&parts[i]);
            if ok && i + 1 < parts.len() {
                assert(pv[i + 1] == parts[i + 1]@);
                match &parts[i] {
                    StrPart::Chars(_) => {
                        ok = follows(&parts[i + 1]);
                    },
                    StrPart::Expansion(_) => {},
                }
            }
        }
        i += 1;
    }
    ok
}

/// Whether an expansion is read back from its text.
fn fits_expansion(e: &Expansion) -> (r: bool)
    ensures
        r == expansion_ok(e@),
    decreases e,
{
    match e {
        Expansion::Variable { name } => named(name.as_str()),
        Expansion::SubstStdout(l) => {
            proof {
                lemma_subst_text(e@);
            }
            fits_list(l)
        },
        Expansion::SubstStderr(l) => {
            proof {
                lemma_subst_text(e@);
            }
            fits_list(l)
        },
        Expansion::SubstBoth(l) => {
            proof {
                lemma_subst_text(e@);
            }
            fits_list(l)
        },
        Expansion::SubstPipeName(l) => {
            proof {
                lemma_subst_text(e@);
            }
            fits_list(l)
        },
        Expansion::SubstStatus(l) => {
            proof {
                lemma_subst_text(e@);
            }
            fits_list(l)
        },
    }
}

/// Whether a list is read back from what [`render`] writes: each of its
/// commands has arguments, each variable has a name that the grammar reads,
/// and in a string of several parts no literal text is empty, starts like a
/// substitution, or stands before another text or a substitution without `$`.
pub fn reads_back(l: &List) -> (r: bool)
    ensures
        r == list_ok(l@),
{
    fits_list(l)
}

} // verus!
