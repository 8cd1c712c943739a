//! The syntax tree of the command language.

use vstd::prelude::*;

verus! {

/// A whole input line.
pub type Program = List;

/// Pipelines in sequence, each but the first behind the condition on which it
/// runs.
#[derive(Debug, PartialEq)]
pub struct List {
    pub first: Pipeline,
    pub following: Vec<(Condition, Pipeline)>,
}

/// When the next pipeline of a list runs: always (`;`), only after success
/// (`&&`), only after failure (`||`).
#[derive(Debug, Clone, Copy, PartialEq, Eq, Structural)]
pub enum Condition {
    Always,
    IfSuccess,
    IfError,
}

#[derive(Debug, PartialEq)]
pub enum Pipeline {
    Single(Command),
    Connected { pipe: Pipe, lhs: Box<Pipeline>, rhs: Box<Pipeline> },
}

/// What a pipe carries to the next command: the output (`|`), the errors
/// (`|!`), or both (`|&`).
#[derive(Debug, Clone, Copy, PartialEq, Eq, Structural)]
pub enum Pipe {
    Stdout,
    Stderr,
    Both,
}

#[derive(Debug, PartialEq)]
pub enum Command {
    Simple(Vec<Arguments>),
    SubShell(Box<List>),
}

/// One argument as written: a single token, or (`@`) one that is split at
/// blanks after expansion.
#[derive(Debug, PartialEq)]
pub enum Arguments {
    Arg(Str),
    AtExpansion(Str),
}

/// A string as written: literal text and expansions in turn.
pub type Str = Vec<StrPart>;

#[derive(Debug, PartialEq)]
pub enum StrPart {
    Chars(String),
    Expansion(Expansion),
}

#[derive(Debug, PartialEq)]
pub enum Expansion {
    SubstStdout(Box<List>),
    SubstStderr(Box<List>),
    SubstBoth(Box<List>),
    SubstPipeName(Box<List>),
    SubstStatus(Box<List>),
    Variable { name: String },
}

// The same tree over sequences, for contracts.

pub struct ListView {
    pub first: PipelineView,
    pub following: Seq<(Condition, PipelineView)>,
}

pub enum PipelineView {
    Single(CommandView),
    Connected { pipe: Pipe, lhs: Box<PipelineView>, rhs: Box<PipelineView> },
}

pub enum CommandView {
    Simple(Seq<ArgumentsView>),
    SubShell(Box<ListView>),
}

pub enum ArgumentsView {
    Arg(Seq<StrPartView>),
    AtExpansion(Seq<StrPartView>),
}

pub enum StrPartView {
    Chars(Seq<char>),
    Expansion(ExpansionView),
}

pub enum ExpansionView {
    SubstStdout(Box<ListView>),
    SubstStderr(Box<ListView>),
    SubstBoth(Box<ListView>),
    SubstPipeName(Box<ListView>),
    SubstStatus(Box<ListView>),
    Variable { name: Seq<char> },
}

pub open spec fn list_view(l: List) -> ListView
    decreases l,
{
    ListView {
        first: pipeline_view(l.first),
        following: Seq::new(
            l.following.len() as nat,
            |i: int|
                if 0 <= i < l.following.len() {
                    (l.following[i].0, pipeline_view(l.following[i].1))
                } else {
                    (Condition::Always, PipelineView::Single(CommandView::Simple(seq![])))
                },
        ),
    }
}

pub open spec fn pipeline_view(p: Pipeline) -> PipelineView
    decreases p,
{
    match p {
        Pipeline::Single(c) => PipelineView::Single(command_view(c)),
        Pipeline::Connected { pipe, lhs, rhs } => PipelineView::Connected {
            pipe,
            lhs: Box::new(pipeline_view(*lhs)),
            rhs: Box::new(pipeline_view(*rhs)),
        },
    }
}

pub open spec fn command_view(c: Command) -> CommandView
    decreases c,
{
    match c {
        Command::Simple(args) => CommandView::Simple(
            Seq::new(
                args.len() as nat,
                |i: int|
                    if 0 <= i < args.len() {
                        arguments_view(args[i])
                    } else {
                        ArgumentsView::Arg(seq![])
                    },
            ),
        ),
        Command::SubShell(l) => CommandView::SubShell(Box::new(list_view(*l))),
    }
}

pub open spec fn arguments_view(a: Arguments) -> ArgumentsView
    decreases a,
{
    match a {
        Arguments::Arg(s) => ArgumentsView::Arg(str_view(s)),
        Arguments::AtExpansion(s) => ArgumentsView::AtExpansion(str_view(s)),
    }
}

pub open spec fn str_view(s: Str) -> Seq<StrPartView>
    decreases s,
{
    Seq::new(
        s.len() as nat,
        |i: int|
            if 0 <= i < s.len() {
                part_view(s[i])
            } else {
                StrPartView::Chars(seq![])
            },
    )
}

pub open spec fn part_view(p: StrPart) -> StrPartView
    decreases p,
{
    match p {
        StrPart::Chars(s) => StrPartView::Chars(s@),
        StrPart::Expansion(e) => StrPartView::Expansion(expansion_view(e)),
    }
}

pub open spec fn expansion_view(e: Expansion) -> ExpansionView
    decreases e,
{
    match e {
        Expansion::SubstStdout(l) => ExpansionView::SubstStdout(Box::new(list_view(*l))),
        Expansion::SubstStderr(l) => ExpansionView::SubstStderr(Box::new(list_view(*l))),
        Expansion::SubstBoth(l) => ExpansionView::SubstBoth(Box::new(list_view(*l))),
        Expansion::SubstPipeName(l) => ExpansionView::SubstPipeName(Box::new(list_view(*l))),
        Expansion::SubstStatus(l) => ExpansionView::SubstStatus(Box::new(list_view(*l))),
        Expansion::Variable { name } => ExpansionView::Variable { name: name@ },
    }
}

impl View for List {
    type V = ListView;

    open spec fn view(&self) -> ListView {
        list_view(*self)
    }
}

impl View for Pipeline {
    type V = PipelineView;

    open spec fn view(&self) -> PipelineView {
        pipeline_view(*self)
    }
}

impl View for Command {
    type V = CommandView;

    open spec fn view(&self) -> CommandView {
        command_view(*self)
    }
}

impl View for Arguments {
    type V = ArgumentsView;

    open spec fn view(&self) -> ArgumentsView {
        arguments_view(*self)
    }
}

impl View for StrPart {
    type V = StrPartView;

    open spec fn view(&self) -> StrPartView {
        part_view(*self)
    }
}

impl View for Expansion {
    type V = ExpansionView;

    open spec fn view(&self) -> ExpansionView {
        expansion_view(*self)
    }
}

/// The views of the parts of a string.
pub open spec fn part_views(s: Seq<StrPart>) -> Seq<StrPartView> {
    s.map_values(|p: StrPart| p@)
}

/// The views of a sequence of arguments.
pub open spec fn argument_views(s: Seq<Arguments>) -> Seq<ArgumentsView> {
    s.map_values(|a: Arguments| a@)
}

/// The views of the conditions and pipelines that follow the first one.
pub open spec fn following_views(s: Seq<(Condition, Pipeline)>) -> Seq<(Condition, PipelineView)> {
    s.map_values(|p: (Condition, Pipeline)| (p.0, p.1@))
}

/// The view of a string is the sequence of the views of its parts.
pub proof fn lemma_str_view(s: Str)
    ensures
        str_view(s) == part_views(s@),
{
    assert(str_view(s) =~= part_views(s@));
}

/// The view of a simple command holds the views of its arguments.
pub proof fn lemma_simple_view(args: Vec<Arguments>)
    ensures
        Command::Simple(args)@ == CommandView::Simple(argument_views(args@)),
{
    assert(command_view(Command::Simple(args))->Simple_0 =~= argument_views(args@));
}

/// The view of a list holds the view of its first pipeline and the views of
/// those that follow.
pub proof fn lemma_list_view(l: List)
    ensures
        l@ == (ListView { first: l.first@, following: following_views(l.following@) }),
{
    assert(list_view(l).following =~= following_views(l.following@));
}

} // verus!
