//! How the text of a tree is made of the texts of its parts.

use vstd::prelude::*;
use crate::ast::{ArgumentsView, CommandView, ExpansionView, ListView, PipelineView, StrPartView};
use crate::grammar::{at, is_ws};
use crate::render::{
    argument_ok, argument_text, arguments_ok, arguments_text, command_ok, command_text,
    condition_sign, expansion_text, following_text, follows_text, is_plain, lemma_subshell_text,
    lemma_subst_text, list_text, part_ok, part_text, parts_ok, parts_text, pipe_sign, pipeline_ok,
    pipeline_text, sq_escaped, string_text, subst_list, subst_sign,
};
use crate::roundtrip::place::{
    closes, ends_pipeline, has, lemma_first, lemma_has_char, lemma_has_concat, lemma_has_prefix,
    starts_argument, starts_expansion, starts_pipeline, starts_string, stops,
};

verus! {

/// The sign of an expansion starts with `$`, `=` or `?`, and with `$` where
/// the expansion can stand behind literal text.
pub(crate) proof fn lemma_sign_first(e: ExpansionView)
    ensures
        subst_sign(e).len() > 0,
        starts_expansion(subst_sign(e)[0]),
        follows_text(StrPartView::Expansion(e)) ==> subst_sign(e)[0] == '$',
{
}

/// The text of an expansion starts as its sign does.
pub(crate) proof fn lemma_expansion_first(e: ExpansionView)
    ensures
        expansion_text(e).len() > 0,
        starts_expansion(expansion_text(e)[0]),
        follows_text(StrPartView::Expansion(e)) ==> expansion_text(e)[0] == '$',
{
    lemma_sign_first(e);
    let sign = subst_sign(e);
    if e is Variable {
        let name = e->name;
        assert(expansion_text(e) == sign + name + seq!['}']);
        lemma_first(sign, name);
        lemma_first(sign + name, seq!['}']);
    } else {
        let l = subst_list(e)->0;
        lemma_subst_text(e);
        lemma_first(sign, list_text(l));
        lemma_first(sign + list_text(l), seq![')']);
    }
}

/// The text of a string starts with a quote.
pub(crate) proof fn lemma_string_first(parts: Seq<StrPartView>)
    ensures
        string_text(parts).len() > 0,
        starts_string(string_text(parts)[0]),
{
    if is_plain(parts) {
        let text = parts[0]->Chars_0;
        lemma_first(seq!['\''], sq_escaped(text));
        lemma_first(seq!['\''] + sq_escaped(text), seq!['\'']);
    } else {
        lemma_first(seq!['"'], parts_text(parts, 0));
        lemma_first(seq!['"'] + parts_text(parts, 0), seq!['"']);
    }
}

/// The text of an argument starts with `@` where it is split, and with a
/// quote where it is not.
pub(crate) proof fn lemma_argument_first(a: ArgumentsView)
    requires
        argument_ok(a),
    ensures
        argument_text(a).len() > 0,
        starts_argument(argument_text(a)[0]),
        a is AtExpansion <==> argument_text(a)[0] == '@',
{
    match a {
        ArgumentsView::Arg(parts) => {
            lemma_string_first(parts);
            assert(argument_text(a) == string_text(parts) + seq![' ']);
            assert((string_text(parts) + seq![' '])[0] == string_text(parts)[0]);
        },
        ArgumentsView::AtExpansion(parts) => {
            assert(argument_text(a) == seq!['@'] + string_text(parts) + seq![' ']);
            assert((seq!['@'] + string_text(parts) + seq![' '])[0] == '@');
        },
    }
}

/// The texts of arguments are the text of the first and those of the
/// others, and start as the first does.
pub(crate) proof fn lemma_arguments_first(args: Seq<ArgumentsView>, k: int)
    requires
        0 <= k < args.len(),
        arguments_ok(args, k),
    ensures
        arguments_text(args, k).len() > 0,
        starts_argument(arguments_text(args, k)[0]),
        argument_ok(args[k]),
        arguments_ok(args, k + 1),
        arguments_text(args, k) == argument_text(args[k]) + arguments_text(args, k + 1),
{
    lemma_argument_first(args[k]);
    assert((argument_text(args[k]) + arguments_text(args, k + 1))[0] == argument_text(args[k])[0]);
}

/// The text of a command starts with `(`, `@` or a quote.
pub(crate) proof fn lemma_command_first(c: CommandView)
    requires
        command_ok(c),
    ensures
        command_text(c).len() > 0,
        c is SubShell ==> command_text(c)[0] == '(',
        c is Simple ==> starts_argument(command_text(c)[0]),
{
    match c {
        CommandView::Simple(args) => {
            assert(command_text(c) == arguments_text(args, 0));
            lemma_arguments_first(args, 0);
        },
        CommandView::SubShell(l) => {
            lemma_subshell_text(c);
            assert((seq!['('] + list_text(*l) + seq![')'])[0] == '(');
        },
    }
}

/// The text of a pipeline starts with `{` where it is connected, and as its
/// command does where it is not.
pub(crate) proof fn lemma_pipeline_first(p: PipelineView)
    requires
        pipeline_ok(p),
    ensures
        pipeline_text(p).len() > 0,
        starts_pipeline(pipeline_text(p)[0]),
        p is Connected <==> pipeline_text(p)[0] == '{',
{
    match p {
        PipelineView::Single(c) => {
            assert(pipeline_text(p) == command_text(c));
            lemma_command_first(c);
        },
        PipelineView::Connected { pipe, lhs, rhs } => {
            let t = seq!['{'] + pipeline_text(*lhs) + seq!['}'] + pipe_sign(pipe) + pipeline_text(
                *rhs,
            );
            assert(pipeline_text(p) == t);
            assert(t[0] == '{');
        },
    }
}

/// The text of what follows in a list starts with the sign of the first
/// condition.
pub(crate) proof fn lemma_following_first(l: ListView, k: int)
    requires
        0 <= k < l.following.len(),
    ensures
        following_text(l, k) == condition_sign(l.following[k].0) + pipeline_text(
            l.following[k].1,
        ) + following_text(l, k + 1),
        following_text(l, k).len() >= condition_sign(l.following[k].0).len(),
        has(following_text(l, k), 0, condition_sign(l.following[k].0)),
{
    let sign = condition_sign(l.following[k].0);
    let t = following_text(l, k);
    assert(t == sign + (pipeline_text(l.following[k].1) + following_text(l, k + 1))) by {
        assert(t =~= sign + (pipeline_text(l.following[k].1) + following_text(l, k + 1)));
    }
    lemma_has_prefix(sign, pipeline_text(l.following[k].1) + following_text(l, k + 1));
}

/// What follows a pipeline of a list in the text ends the pipeline.
pub(crate) proof fn lemma_following_ends(s: Seq<char>, pos: int, l: ListView, k: int)
    requires
        0 <= k <= l.following.len(),
        has(s, pos, following_text(l, k)),
        closes(s, pos + following_text(l, k).len()),
    ensures
        ends_pipeline(s, pos),
        k == l.following.len() ==> closes(s, pos),
{
    if k < l.following.len() {
        lemma_following_first(l, k);
        let sign = condition_sign(l.following[k].0);
        lemma_has_concat(
            s,
            pos,
            sign + pipeline_text(l.following[k].1),
            following_text(l, k + 1),
        );
        lemma_has_concat(s, pos, sign, pipeline_text(l.following[k].1));
        lemma_has_char(s, pos, sign, 0);
        if sign.len() == 2 {
            lemma_has_char(s, pos, sign, 1);
        }
    } else {
        assert(following_text(l, k).len() == 0);
    }
}

/// The texts of the parts of a string are the text of the first and those of
/// the others, and the parts are read back where each of them is.
pub(crate) proof fn lemma_parts_step(parts: Seq<StrPartView>, k: int)
    requires
        0 <= k < parts.len(),
    ensures
        parts_text(parts, k) == part_text(parts[k]) + parts_text(parts, k + 1),
        parts_ok(parts, k) ==> part_ok(parts[k]) && parts_ok(parts, k + 1),
        parts_ok(parts, k) && parts[k] is Chars && k + 1 < parts.len() ==> follows_text(
            parts[k + 1],
        ),
        k + 1 == parts.len() ==> parts_text(parts, k + 1).len() == 0,
{
}

/// Behind literal text inside double quotes stands `"` or `$`.
pub(crate) proof fn lemma_text_end(s: Seq<char>, pos: int, parts: Seq<StrPartView>, k: int)
    requires
        0 <= k < parts.len(),
        parts[k] is Chars,
        parts_ok(parts, k),
        has(s, pos, parts_text(parts, k + 1)),
        at(s, pos + parts_text(parts, k + 1).len(), '"'),
    ensures
        at(s, pos, '"') || at(s, pos, '$'),
{
    lemma_parts_step(parts, k);
    if k + 1 < parts.len() {
        lemma_parts_step(parts, k + 1);
        let e = parts[k + 1]->Expansion_0;
        assert(part_text(parts[k + 1]) == expansion_text(e));
        lemma_expansion_first(e);
        lemma_first(expansion_text(e), parts_text(parts, k + 2));
        lemma_has_char(s, pos, parts_text(parts, k + 1), 0);
    }
}

/// Where the texts of arguments stand, the text of the first stands first,
/// and behind it the texts of the others, with no blank at their start.
pub(crate) proof fn lemma_arguments_text(s: Seq<char>, pos: int, args: Seq<ArgumentsView>, k: int)
    requires
        0 <= k < args.len(),
        arguments_ok(args, k),
        has(s, pos, arguments_text(args, k)),
        stops(s, pos + arguments_text(args, k).len()),
    ensures
        argument_ok(args[k]),
        arguments_ok(args, k + 1),
        argument_text(args[k]).len() > 0,
        has(s, pos, argument_text(args[k])),
        has(s, pos + argument_text(args[k]).len(), arguments_text(args, k + 1)),
        arguments_text(args, k).len() == argument_text(args[k]).len() + arguments_text(
            args,
            k + 1,
        ).len(),
        pos + argument_text(args[k]).len() < s.len() ==> !is_ws(
            s[pos + argument_text(args[k]).len()],
        ),
{
    let a = args[k];
    lemma_arguments_first(args, k);
    lemma_has_concat(s, pos, argument_text(a), arguments_text(args, k + 1));
    let mid = pos + argument_text(a).len();
    if k + 1 < args.len() {
        lemma_arguments_first(args, k + 1);
        lemma_has_char(s, mid, arguments_text(args, k + 1), 0);
    } else {
        assert(arguments_text(args, k + 1).len() == 0);
    }
}

} // verus!
