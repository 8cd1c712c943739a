//! The grammar reads the text of a tree as that tree.

use vstd::prelude::*;
use crate::ast::{
    ArgumentsView, CommandView, Condition, ExpansionView, ListView, PipelineView, StrPartView,
};
use crate::grammar::{
    at, condition_head, dq_parts, g_args, g_arguments, g_command, g_expansion, g_following, g_list,
    g_pipeline, g_string, is_ws,
};
use crate::parser::parsed;
use crate::render::{
    argument_ok, argument_text, arguments_ok, arguments_text, command_ok, command_text,
    condition_sign, expansion_ok, expansion_text, following_ok, following_text, is_name, is_plain,
    lemma_subshell_text, lemma_subst_text, list_ok, list_text, part_text, parts_ok, parts_text,
    pipe_sign, pipeline_ok, pipeline_text, string_ok, string_text, subst_list, subst_sign,
};
use crate::roundtrip::place::{
    closes, ends_pipeline, has, lemma_alone, lemma_enclosed, lemma_gathered, lemma_gathered_all,
    lemma_has_char, lemma_has_concat, lemma_has_first, lemma_has_whole, stops,
};
use crate::roundtrip::reading::{
    lemma_read_args, lemma_read_argument, lemma_read_close, lemma_read_connected, lemma_read_double,
    lemma_read_nested, lemma_read_part, lemma_read_quoted, lemma_read_simple, lemma_read_single,
    lemma_read_subst, lemma_stop, lemma_text_part, lemma_variable,
};
use crate::roundtrip::writing::{
    lemma_arguments_text, lemma_command_first, lemma_expansion_first, lemma_following_ends,
    lemma_following_first, lemma_parts_step, lemma_pipeline_first, lemma_string_first,
    lemma_text_end,
};

verus! {

/// The text of a variable is read as the variable.
#[verifier::spinoff_prover]
proof fn lemma_named(s: Seq<char>, pos: int, e: ExpansionView)
    requires
        e is Variable,
        expansion_ok(e),
        has(s, pos, expansion_text(e)),
    ensures
        g_expansion(s, pos) == Some((e, pos + expansion_text(e).len())),
{
    let name = e->name;
    assert(expansion_text(e) == seq!['$', '{'] + name + seq!['}']);
    assert(is_name(name));
    lemma_variable(s, pos, name);
}

/// The text of an expansion is read as the expansion.
#[verifier::spinoff_prover]
proof fn lemma_expansion(s: Seq<char>, pos: int, e: ExpansionView)
    requires
        expansion_ok(e),
        has(s, pos, expansion_text(e)),
    ensures
        g_expansion(s, pos) == Some((e, pos + expansion_text(e).len())),
    decreases e,
{
    if e is Variable {
        lemma_named(s, pos, e);
    } else {
        let l = subst_list(e)->0;
        let sign = subst_sign(e);
        lemma_subst_text(e);
        lemma_enclosed(s, pos, expansion_text(e), sign, list_text(l), ')');
        lemma_list(s, pos + sign.len(), l);
        lemma_read_subst(s, pos, e, l, pos + sign.len() + list_text(l).len());
    }
}

/// The texts of the parts of a string from the `k`th on are read inside
/// double quotes as these parts.
#[verifier::spinoff_prover]
proof fn lemma_parts(
    s: Seq<char>,
    pos: int,
    parts: Seq<StrPartView>,
    k: int,
    acc: Seq<StrPartView>,
)
    requires
        0 <= k <= parts.len(),
        parts_ok(parts, k),
        has(s, pos, parts_text(parts, k)),
        at(s, pos + parts_text(parts, k).len(), '"'),
    ensures
        dq_parts(s, pos, acc) == (acc + parts.skip(k), pos + parts_text(parts, k).len()),
    decreases parts, 0int, parts.len() - k,
{
    if k == parts.len() {
        assert(parts_text(parts, k).len() == 0);
        lemma_read_close(s, pos, acc);
        lemma_gathered_all(acc, parts);
    } else {
        let part = parts[k];
        lemma_parts_step(parts, k);
        lemma_has_concat(s, pos, part_text(part), parts_text(parts, k + 1));
        let mid = pos + part_text(part).len();
        match part {
            StrPartView::Chars(text) => {
                lemma_text_end(s, mid, parts, k);
                lemma_text_part(s, pos, text, acc);
            },
            StrPartView::Expansion(e) => {
                lemma_expansion_first(e);
                lemma_expansion(s, pos, e);
                lemma_read_part(s, pos, e, mid, acc);
            },
        }
        lemma_parts(s, mid, parts, k + 1, acc.push(part));
        lemma_gathered(acc, parts, k);
    }
}

/// The text of a string is read as the string.
#[verifier::spinoff_prover]
proof fn lemma_string(s: Seq<char>, pos: int, parts: Seq<StrPartView>)
    requires
        string_ok(parts),
        has(s, pos, string_text(parts)),
    ensures
        g_string(s, pos) == Some((parts, pos + string_text(parts).len())),
    decreases parts, 1int,
{
    if is_plain(parts) {
        let text = parts[0]->Chars_0;
        lemma_alone(parts);
        lemma_read_quoted(s, pos, text);
    } else {
        let inner = parts_text(parts, 0);
        lemma_enclosed(s, pos, string_text(parts), seq!['"'], inner, '"');
        lemma_has_first(s, pos, seq!['"']);
        lemma_parts(s, pos + 1, parts, 0, seq![]);
        lemma_gathered_all(seq![], parts);
        lemma_read_double(s, pos, parts, pos + 1 + inner.len());
    }
}

/// The text of an argument is read as the argument.
#[verifier::spinoff_prover]
proof fn lemma_argument(s: Seq<char>, pos: int, a: ArgumentsView)
    requires
        argument_ok(a),
        has(s, pos, argument_text(a)),
        pos + argument_text(a).len() < s.len() ==> !is_ws(s[pos + argument_text(a).len()]),
    ensures
        g_arguments(s, pos) == Some((a, pos + argument_text(a).len())),
    decreases a,
{
    match a {
        ArgumentsView::Arg(parts) => {
            let t = string_text(parts);
            lemma_string_first(parts);
            lemma_enclosed(s, pos, argument_text(a), seq![], t, ' ');
            lemma_gathered_all(seq![], t);
            lemma_has_first(s, pos, t);
            lemma_string(s, pos, parts);
            lemma_read_argument(s, pos, false, parts, pos + t.len());
        },
        ArgumentsView::AtExpansion(parts) => {
            let t = string_text(parts);
            lemma_enclosed(s, pos, argument_text(a), seq!['@'], t, ' ');
            lemma_has_first(s, pos, seq!['@']);
            lemma_string(s, pos + 1, parts);
            lemma_read_argument(s, pos, true, parts, pos + 1 + t.len());
        },
    }
}

/// The texts of the arguments from the `k`th on are read as these
/// arguments.
#[verifier::spinoff_prover]
proof fn lemma_args(
    s: Seq<char>,
    pos: int,
    args: Seq<ArgumentsView>,
    k: int,
    acc: Seq<ArgumentsView>,
)
    requires
        0 <= k <= args.len(),
        arguments_ok(args, k),
        has(s, pos, arguments_text(args, k)),
        stops(s, pos + arguments_text(args, k).len()),
    ensures
        g_args(s, pos, acc) == (acc + args.skip(k), pos + arguments_text(args, k).len()),
    decreases args, 1int, args.len() - k,
{
    if k == args.len() {
        assert(arguments_text(args, k).len() == 0);
        lemma_stop(s, pos);
        lemma_gathered_all(acc, args);
    } else {
        let a = args[k];
        let mid = pos + argument_text(a).len();
        lemma_arguments_text(s, pos, args, k);
        lemma_argument(s, pos, a);
        lemma_read_args(s, pos, a, mid, acc);
        lemma_args(s, mid, args, k + 1, acc.push(a));
        lemma_gathered(acc, args, k);
    }
}

/// The text of a command is read as the command.
#[verifier::spinoff_prover]
proof fn lemma_command(s: Seq<char>, pos: int, c: CommandView)
    requires
        command_ok(c),
        has(s, pos, command_text(c)),
        stops(s, pos + command_text(c).len()),
    ensures
        g_command(s, pos) == Some((c, pos + command_text(c).len())),
    decreases c, 2int,
{
    let end = pos + command_text(c).len();
    lemma_command_first(c);
    lemma_has_char(s, pos, command_text(c), 0);
    match c {
        CommandView::Simple(args) => {
            assert(command_text(c) == arguments_text(args, 0));
            lemma_args(s, pos, args, 0, seq![]);
            lemma_gathered_all(seq![], args);
            lemma_read_simple(s, pos, args, end);
        },
        CommandView::SubShell(l) => {
            lemma_subshell_text(c);
            lemma_has_concat(s, pos, seq!['('] + list_text(*l), seq![')']);
            lemma_has_concat(s, pos, seq!['('], list_text(*l));
            lemma_has_char(s, end - 1, seq![')'], 0);
            lemma_list(s, pos + 1, *l);
            lemma_read_nested(s, pos, *l, end - 1);
        },
    }
}

/// The text of a pipeline is read as the pipeline.
#[verifier::spinoff_prover]
proof fn lemma_pipeline(s: Seq<char>, pos: int, p: PipelineView)
    requires
        pipeline_ok(p),
        has(s, pos, pipeline_text(p)),
        ends_pipeline(s, pos + pipeline_text(p).len()),
    ensures
        g_pipeline(s, pos) == Some((p, pos + pipeline_text(p).len())),
    decreases p, 0int,
{
    let end = pos + pipeline_text(p).len();
    lemma_pipeline_first(p);
    lemma_has_char(s, pos, pipeline_text(p), 0);
    match p {
        PipelineView::Single(c) => {
            assert(pipeline_text(p) == command_text(c));
            lemma_command(s, pos, c);
            lemma_read_single(s, pos, c, end);
        },
        PipelineView::Connected { pipe, lhs, rhs } => {
            let l = pipeline_text(*lhs);
            let r = pipeline_text(*rhs);
            let sign = pipe_sign(pipe);
            assert(pipeline_text(p) == seq!['{'] + l + seq!['}'] + sign + r);
            lemma_has_concat(s, pos, seq!['{'] + l + seq!['}'] + sign, r);
            lemma_has_concat(s, pos, seq!['{'] + l + seq!['}'], sign);
            lemma_has_concat(s, pos, seq!['{'] + l, seq!['}']);
            lemma_has_concat(s, pos, seq!['{'], l);
            let close = pos + 1 + l.len();
            lemma_has_char(s, close, seq!['}'], 0);
            lemma_pipeline(s, pos + 1, *lhs);
            let start = close + 1 + sign.len();
            lemma_pipeline_first(*lhs);
            lemma_pipeline_first(*rhs);
            lemma_has_char(s, start, r, 0);
            lemma_pipeline(s, start, *rhs);
            lemma_read_connected(s, pos, pipe, *lhs, *rhs, close, end);
        },
    }
}

/// The texts of the pipelines of a list from the `k`th following one on are
/// read as these pipelines with their conditions.
#[verifier::spinoff_prover]
proof fn lemma_following(
    s: Seq<char>,
    pos: int,
    l: ListView,
    k: int,
    acc: Seq<(Condition, PipelineView)>,
)
    requires
        0 <= k <= l.following.len(),
        following_ok(l, k),
        has(s, pos, following_text(l, k)),
        closes(s, pos + following_text(l, k).len()),
    ensures
        g_following(s, pos, acc) == (
            acc + l.following.skip(k),
            pos + following_text(l, k).len(),
        ),
    decreases l, 1int, l.following.len() - k,
{
    if k == l.following.len() {
        assert(following_text(l, k).len() == 0);
        assert(condition_head(s, pos) is None);
        lemma_gathered_all(acc, l.following);
    } else {
        let cond = l.following[k].0;
        let pl = l.following[k].1;
        let sign = condition_sign(cond);
        lemma_following_first(l, k);
        lemma_has_concat(s, pos, sign + pipeline_text(pl), following_text(l, k + 1));
        lemma_has_concat(s, pos, sign, pipeline_text(pl));
        lemma_has_char(s, pos, sign, 0);
        if sign.len() == 2 {
            lemma_has_char(s, pos, sign, 1);
        }
        let start = pos + sign.len();
        let mid = start + pipeline_text(pl).len();
        assert(condition_head(s, pos) == Some((cond, start)));
        lemma_following_ends(s, mid, l, k + 1);
        lemma_pipeline_first(pl);
        lemma_pipeline(s, start, pl);
        lemma_following(s, mid, l, k + 1, acc.push((cond, pl)));
        lemma_gathered(acc, l.following, k);
        assert(g_following(s, pos, acc) == g_following(s, mid, acc.push((cond, pl))));
    }
}

/// The text of a list is read as the list.
#[verifier::spinoff_prover]
proof fn lemma_list(s: Seq<char>, pos: int, l: ListView)
    requires
        list_ok(l),
        has(s, pos, list_text(l)),
        closes(s, pos + list_text(l).len()),
    ensures
        g_list(s, pos) == Some((l, pos + list_text(l).len())),
    decreases l, 2int,
{
    reveal(list_ok);
    reveal(list_text);
    assert(list_text(l) == pipeline_text(l.first) + following_text(l, 0));
    lemma_has_concat(s, pos, pipeline_text(l.first), following_text(l, 0));
    let mid = pos + pipeline_text(l.first).len();
    lemma_following_ends(s, mid, l, 0);
    lemma_pipeline_first(l.first);
    lemma_pipeline(s, pos, l.first);
    lemma_following(s, mid, l, 0, seq![]);
    lemma_gathered_all(seq![], l.following);
}

/// Every list that can be written down is read back from its text: the
/// grammar accepts the whole text and gives the list.
pub proof fn lemma_round_trip(l: ListView)
    requires
        list_ok(l),
    ensures
        parsed(list_text(l), g_list(list_text(l), 0)) == Ok::<ListView, int>(l),
{
    let s = list_text(l);
    lemma_has_whole(s);
    lemma_list(s, 0, l);
}

} // verus!
