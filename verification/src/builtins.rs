//! The commands that the shell carries out itself. Each one decides from the
//! shell's state and its arguments what changes and what is to be printed or
//! done; the printing and the system calls are left to the caller.

use vstd::prelude::*;
use crate::chars::{decimal, push_decimal, push_str, string_of, utf8_str};
use crate::dict::{bytes_eq, clone_bytes};
use crate::env::{name_bytes, AliasEntry, VarEntry};
use crate::job::{job_index, stopped_index, JobView};
use crate::pattern::byte_views;
use crate::shell::Shell;

verus! {

/// What is left to do for a builtin once it has decided.
pub enum Action {
    /// Nothing.
    Nothing,
    /// Leave the shell.
    Exit,
    /// Write this message, and a newline, to the error stream.
    Complain(String),
    /// Write the arguments to the output, each with its index, from 1 on.
    PrintArgs(Vec<Vec<u8>>),
    /// Write the process groups of the jobs to the output, each with its
    /// index.
    PrintJobs(Vec<i32>),
    /// Write the aliases to the output.
    PrintAliases(Vec<AliasEntry>),
    /// Write the variables to the output.
    PrintVars(Vec<VarEntry>),
    /// Change to this directory, and report with `finish_cd`.
    Chdir(Vec<u8>),
    /// Bring the job of this process group to the foreground and wait for
    /// it.
    Foreground(i32),
    /// Copy the input to the file at this path, behind what it holds or in
    /// place of it.
    Redirect { path: Vec<u8>, append: bool },
}

/// The answer of a builtin: its exit status, unless the action that is
/// left decides it, and that action.
pub struct Reply {
    pub status: i32,
    pub action: Action,
}

/// The number that `str::parse::<i32>` reads from a text, if it reads one.
pub uninterp spec fn i32_text(text: Seq<char>) -> Option<i32>;

/// `str::parse::<i32>`: what it reads depends on the text alone.
#[verifier::external_body]
fn parse_i32(text: &str) -> (r: Option<i32>)
    ensures
        r == i32_text(text@),
{
    text.parse::<i32>().ok()
}

fn is_text(arg: &Vec<u8>, text: &str) -> (r: bool)
    ensures
        r == (arg@ == name_bytes(text@)),
{
    bytes_eq(arg.as_slice(), text.as_bytes())
}

/// Whether an answer is a complaint with a status and a message.
pub open spec fn is_complaint(r: Reply, status: i32, message: Seq<char>) -> bool {
    r.status == status && (r.action matches Action::Complain(m) && m@ == message)
}

/// Whether an answer asks for a redirection to a path.
pub open spec fn is_redirect(r: Reply, p: Seq<u8>, to_end: bool) -> bool {
    r.status == 0 && (r.action matches Action::Redirect { path, append } && path@ == p && append
        == to_end)
}

fn complain(status: i32, message: &str) -> (r: Reply)
    ensures
        is_complaint(r, status, message@),
{
    Reply { status, action: Action::Complain(String::from_str(message)) }
}

fn copy_args(args: &Vec<Vec<u8>>, from: usize) -> (r: Vec<Vec<u8>>)
    requires
        from <= args@.len(),
    ensures
        byte_views(r@) == byte_views(args@).skip(from as int),
{
    let mut out: Vec<Vec<u8>> = Vec::new();
    let mut i: usize = from;
    assert(byte_views(out@) =~= byte_views(args@).subrange(from as int, i as int));
    while i < args.len()
        invariant
            from <= i <= args.len(),
            byte_views(out@) == byte_views(args@).subrange(from as int, i as int),
        decreases args.len() - i,
    {
        let ghost before = byte_views(out@);
        let v = clone_bytes(args[i].as_slice());
        out.push(v);
        assert(byte_views(out@) =~= before.push(v@));
        i += 1;
        assert(byte_views(out@) =~= byte_views(args@).subrange(from as int, i as int));
    }
    assert(byte_views(args@).subrange(from as int, args.len() as int) =~= byte_views(args@).skip(
        from as int,
    ));
    out
}

/// `args`: the arguments behind the command's name are printed.
pub fn builtin_args(args: &Vec<Vec<u8>>) -> (r: Reply)
    ensures
        r.status == 0,
        r.action matches Action::PrintArgs(a) && byte_views(a@) == (if args@.len() > 0 {
            byte_views(args@).skip(1)
        } else {
            seq![]
        }),
{
    let from: usize = if args.len() > 0 {
        1
    } else {
        0
    };
    proof {
        if args@.len() == 0 {
            assert(byte_views(args@).skip(0) =~= seq![]);
        }
    }
    Reply { status: 0, action: Action::PrintArgs(copy_args(args, from)) }
}

/// The message of `exit` when jobs are left.
pub open spec fn pending_jobs_message(n: nat) -> Seq<char> {
    "exit: you have "@ + decimal(n) + " pending jobs."@
}

/// `exit`: the shell is left unless jobs are left; then their number is
/// complained of, with status 1.
pub fn builtin_exit(shell: &Shell) -> (r: Reply)
    ensures
        shell.jobs@.len() == 0 ==> r.status == 0 && r.action is Exit,
        shell.jobs@.len() > 0 ==> r.status == 1 && (r.action matches Action::Complain(m) && m@
            == pending_jobs_message(shell.jobs@.len())),
{
    if shell.jobs.is_empty() {
        Reply { status: 0, action: Action::Exit }
    } else {
        let mut text: Vec<char> = Vec::new();
        push_str(&mut text, "exit: you have ");
        push_decimal(&mut text, shell.jobs.len());
        push_str(&mut text, " pending jobs.");
        assert(text@ =~= pending_jobs_message(shell.jobs@.len()));
        Reply { status: 1, action: Action::Complain(string_of(&text)) }
    }
}

/// `jobs`: the process groups of the jobs are printed, in the table's order.
pub fn builtin_jobs(shell: &Shell) -> (r: Reply)
    ensures
        r.status == 0,
        r.action matches Action::PrintJobs(p) && p@.len() == shell.jobs@.len() && forall|i: int|
            0 <= i < p@.len() ==> shell.jobs@[i].pgid == Some(#[trigger] p@[i])
                || (shell.jobs@[i].pgid is None && p@[i] == 0),
{
    let mut out: Vec<i32> = Vec::new();
    let mut i: usize = 0;
    while i < shell.jobs.len()
        invariant
            i <= shell.jobs@.len(),
            out@.len() == i,
            forall|k: int|
                0 <= k < i ==> shell.jobs@[k].pgid == Some(#[trigger] out@[k])
                    || (shell.jobs@[k].pgid is None && out@[k] == 0),
        decreases shell.jobs@.len() - i,
    {
        match shell.jobs.pgid_at(i) {
            Some(g) => out.push(g),
            None => out.push(0),
        }
        i += 1;
    }
    Reply { status: 0, action: Action::PrintJobs(out) }
}

/// The shape of the arguments of `alias`, `var` and `evar`.
pub enum Assignment {
    /// The name alone: show what there is.
    Show,
    /// `name = value ..`: set it.
    Assign,
    /// Anything else.
    Invalid,
}

/// The shape of the arguments of an assignment with at least `least` and at
/// most `most` values.
pub open spec fn assignment_shape(args: Seq<Seq<u8>>, least: int, most: int) -> Assignment {
    if args.len() == 1 {
        Assignment::Show
    } else if args.len() >= 3 && args[2] == name_bytes("="@) && least <= args.len() - 3 <= most {
        Assignment::Assign
    } else {
        Assignment::Invalid
    }
}

fn shape_of(args: &Vec<Vec<u8>>, least: usize, most: usize) -> (r: Assignment)
    ensures
        r == assignment_shape(byte_views(args@), least as int, most as int),
{
    if args.len() == 1 {
        Assignment::Show
    } else if args.len() >= 3 {
        assert(byte_views(args@)[2] == args@[2]@);
        if is_text(&args[2], "=") && least <= args.len() - 3 && args.len() - 3 <= most {
            Assignment::Assign
        } else {
            Assignment::Invalid
        }
    } else {
        Assignment::Invalid
    }
}

/// `alias`: without arguments the aliases are listed; `alias name = value ..`
/// sets one; anything else is complained of, with status 1.
pub fn builtin_alias(shell: &mut Shell, args: &Vec<Vec<u8>>) -> (r: Reply)
    requires
        old(shell).wf(),
    ensures
        final(shell).wf(),
        final(shell).env.env_vars() == old(shell).env.env_vars(),
        final(shell).env.shell_vars() == old(shell).env.shell_vars(),
        final(shell).env.commands() == old(shell).env.commands(),
        final(shell).jobs == old(shell).jobs,
        match assignment_shape(byte_views(args@), 1, usize::MAX as int) {
            Assignment::Show => r.status == 0 && final(shell).env.aliases() == old(shell).env.aliases() && (r.action matches Action::PrintAliases(l) && l@.len() == old(shell).env.alias_names().len() && forall|i: int|
                0 <= i < l@.len() ==> (#[trigger] l@[i]).name@ == old(shell).env.alias_names()[i]
                    && byte_views(l@[i].values@) == old(shell).env.aliases()[l@[i].name@]),
            Assignment::Assign => r.status == 0 && r.action is Nothing && final(shell).env.aliases()
                == old(shell).env.aliases().insert(
                byte_views(args@)[1],
                byte_views(args@).skip(3),
            ),
            Assignment::Invalid => r.status == 1 && final(shell).env.aliases() == old(shell).env.aliases() && (r.action matches Action::Complain(m) && m@
                == "alias: invalid assignment"@),
        },
{
    match shape_of(args, 1, usize::MAX) {
        Assignment::Show => Reply {
            status: 0,
            action: Action::PrintAliases(shell.env.alias_entries()),
        },
        Assignment::Assign => {
            assert(byte_views(args@)[1] == args@[1]@);
            let name = clone_bytes(args[1].as_slice());
            let values = copy_args(args, 3);
            shell.env.set_alias(name, values);
            Reply { status: 0, action: Action::Nothing }
        },
        Assignment::Invalid => complain(1, "alias: invalid assignment"),
    }
}

/// `var`: without arguments the shell-only variables are listed; `var name =
/// value` sets one; anything else is complained of, with status 1.
pub fn builtin_var(shell: &mut Shell, args: &Vec<Vec<u8>>) -> (r: Reply)
    requires
        old(shell).wf(),
    ensures
        final(shell).wf(),
        final(shell).env.env_vars() == old(shell).env.env_vars(),
        final(shell).env.aliases() == old(shell).env.aliases(),
        final(shell).env.commands() == old(shell).env.commands(),
        final(shell).jobs == old(shell).jobs,
        match assignment_shape(byte_views(args@), 1, 1) {
            Assignment::Show => r.status == 0 && final(shell).env.shell_vars() == old(shell).env.shell_vars() && (r.action matches Action::PrintVars(l) && l@.len() == old(shell).env.shell_names().len() && forall|i: int|
                0 <= i < l@.len() ==> (#[trigger] l@[i]).name@ == old(shell).env.shell_names()[i]
                    && l@[i].value@ == old(shell).env.shell_vars()[l@[i].name@]),
            Assignment::Assign => r.status == 0 && r.action is Nothing
                && final(shell).env.shell_vars() == old(shell).env.shell_vars().insert(
                byte_views(args@)[1],
                byte_views(args@)[3],
            ),
            Assignment::Invalid => r.status == 1 && final(shell).env.shell_vars() == old(shell).env.shell_vars() && (r.action matches Action::Complain(m) && m@
                == "var: invalid assignment"@),
        },
{
    match shape_of(args, 1, 1) {
        Assignment::Show => Reply {
            status: 0,
            action: Action::PrintVars(shell.env.shell_entries()),
        },
        Assignment::Assign => {
            assert(byte_views(args@)[1] == args@[1]@);
            assert(byte_views(args@)[3] == args@[3]@);
            let name = clone_bytes(args[1].as_slice());
            let value = clone_bytes(args[3].as_slice());
            shell.env.set_var(name, value);
            Reply { status: 0, action: Action::Nothing }
        },
        Assignment::Invalid => complain(1, "var: invalid assignment"),
    }
}

/// `evar`: as `var`, for the exported variables.
pub fn builtin_evar(shell: &mut Shell, args: &Vec<Vec<u8>>) -> (r: Reply)
    requires
        old(shell).wf(),
    ensures
        final(shell).wf(),
        final(shell).env.shell_vars() == old(shell).env.shell_vars(),
        final(shell).env.aliases() == old(shell).env.aliases(),
        final(shell).env.commands() == old(shell).env.commands(),
        final(shell).jobs == old(shell).jobs,
        match assignment_shape(byte_views(args@), 1, 1) {
            Assignment::Show => r.status == 0 && final(shell).env.env_vars() == old(shell).env.env_vars() && (r.action matches Action::PrintVars(l) && l@.len() == old(shell).env.env_names().len() && forall|i: int|
                0 <= i < l@.len() ==> (#[trigger] l@[i]).name@ == old(shell).env.env_names()[i]
                    && l@[i].value@ == old(shell).env.env_vars()[l@[i].name@]),
            Assignment::Assign => r.status == 0 && r.action is Nothing && final(shell).env.env_vars()
                == old(shell).env.env_vars().insert(byte_views(args@)[1], byte_views(args@)[3]),
            Assignment::Invalid => r.status == 1 && final(shell).env.env_vars() == old(shell).env.env_vars() && (r.action matches Action::Complain(m) && m@
                == "evar: invalid assignment"@),
        },
{
    match shape_of(args, 1, 1) {
        Assignment::Show => Reply { status: 0, action: Action::PrintVars(shell.env.env_entries()) },
        Assignment::Assign => {
            assert(byte_views(args@)[1] == args@[1]@);
            assert(byte_views(args@)[3] == args@[3]@);
            let name = clone_bytes(args[1].as_slice());
            let value = clone_bytes(args[3].as_slice());
            shell.env.set_evar(name, value);
            Reply { status: 0, action: Action::Nothing }
        },
        Assignment::Invalid => complain(1, "evar: invalid assignment"),
    }
}

/// A map without the given keys from the `n`th on.
pub open spec fn without_keys(m: Map<Seq<u8>, Seq<u8>>, keys: Seq<Seq<u8>>, n: int) -> Map<
    Seq<u8>,
    Seq<u8>,
>
    decreases keys.len() - n,
{
    if n < 0 || n >= keys.len() {
        m
    } else {
        without_keys(m.remove(keys[n]), keys, n + 1)
    }
}

/// `unset`: the variables named behind the command's name are taken out of
/// the exported and of the shell-only ones.
pub fn builtin_unset(shell: &mut Shell, args: &Vec<Vec<u8>>) -> (r: Reply)
    requires
        old(shell).wf(),
    ensures
        final(shell).wf(),
        r.status == 0,
        r.action is Nothing,
        final(shell).env.env_vars() == without_keys(
            old(shell).env.env_vars(),
            byte_views(args@),
            1,
        ),
        final(shell).env.shell_vars() == without_keys(
            old(shell).env.shell_vars(),
            byte_views(args@),
            1,
        ),
        final(shell).env.aliases() == old(shell).env.aliases(),
        final(shell).env.commands() == old(shell).env.commands(),
        final(shell).jobs == old(shell).jobs,
{
    let mut i: usize = 1;
    let ghost names = byte_views(args@);
    while i < args.len()
        invariant
            1 <= i,
            shell.wf(),
            names == byte_views(args@),
            shell.jobs == old(shell).jobs,
            shell.env.aliases() == old(shell).env.aliases(),
            shell.env.commands() == old(shell).env.commands(),
            without_keys(shell.env.env_vars(), names, i as int) == without_keys(
                old(shell).env.env_vars(),
                names,
                1,
            ),
            without_keys(shell.env.shell_vars(), names, i as int) == without_keys(
                old(shell).env.shell_vars(),
                names,
                1,
            ),
        decreases args.len() - i,
    {
        assert(names[i as int] == args@[i as int]@);
        shell.env.unset(args[i].as_slice());
        i += 1;
    }
    Reply { status: 0, action: Action::Nothing }
}

/// What `cd` is asked to do.
pub enum CdOp {
    /// `cd -`: back to the directory left last.
    Undo,
    /// `cd +`: forward again.
    Redo,
    /// `cd path`, or `cd` alone for the home directory.
    Chdir,
}

/// What the arguments of `cd` ask for.
pub open spec fn cd_op_of(args: Seq<Seq<u8>>) -> CdOp {
    if args.len() >= 2 && args[1] == name_bytes("-"@) {
        CdOp::Undo
    } else if args.len() >= 2 && args[1] == name_bytes("+"@) {
        CdOp::Redo
    } else {
        CdOp::Chdir
    }
}

/// What the arguments of `cd` ask for.
pub fn cd_op(args: &Vec<Vec<u8>>) -> (r: CdOp)
    ensures
        r == cd_op_of(byte_views(args@)),
{
    if args.len() >= 2 {
        assert(byte_views(args@)[1] == args@[1]@);
        if is_text(&args[1], "-") {
            return CdOp::Undo;
        }
        if is_text(&args[1], "+") {
            return CdOp::Redo;
        }
    }
    CdOp::Chdir
}

/// The directory that `cd path` or `cd` alone goes to: the path; without
/// one the home directory; without that `.`.
pub open spec fn cd_target(args: Seq<Seq<u8>>, env_vars: Map<Seq<u8>, Seq<u8>>) -> Seq<u8> {
    if args.len() >= 2 {
        args[1]
    } else if env_vars.contains_key(name_bytes("HOME"@)) {
        env_vars[name_bytes("HOME"@)]
    } else {
        name_bytes("."@)
    }
}

/// `cd`, before the directory is changed. `old_cwd` is the current
/// directory, where it is known.
///
/// `cd -` and `cd +` take the directory to go to from the undo or the redo
/// stack and give status 2 where that is empty; the current directory goes
/// to the other stack and becomes `OLDPWD`. The answer names the directory
/// to change to.
pub fn builtin_cd(shell: &mut Shell, args: &Vec<Vec<u8>>, old_cwd: Option<&Vec<u8>>) -> (r: Reply)
    requires
        old(shell).wf(),
    ensures
        final(shell).wf(),
        final(shell).jobs == old(shell).jobs,
        final(shell).env.shell_vars() == old(shell).env.shell_vars(),
        final(shell).env.aliases() == old(shell).env.aliases(),
        final(shell).env.commands() == old(shell).env.commands(),
        match cd_op_of(byte_views(args@)) {
            CdOp::Chdir => r.status == 0 && (r.action matches Action::Chdir(t) && t@ == cd_target(
                byte_views(args@),
                old(shell).env.env_vars(),
            )) && final(shell).env.env_vars() == old(shell).env.env_vars() && byte_views(
                final(shell).cd_undo_stack@,
            ) == byte_views(old(shell).cd_undo_stack@) && byte_views(final(shell).cd_redo_stack@)
                == byte_views(old(shell).cd_redo_stack@),
            CdOp::Undo => moved(
                byte_views(old(shell).cd_undo_stack@),
                byte_views(old(shell).cd_redo_stack@),
                old(shell).env.env_vars(),
                old_cwd,
                byte_views(final(shell).cd_undo_stack@),
                byte_views(final(shell).cd_redo_stack@),
                final(shell).env.env_vars(),
                r,
            ),
            CdOp::Redo => moved(
                byte_views(old(shell).cd_redo_stack@),
                byte_views(old(shell).cd_undo_stack@),
                old(shell).env.env_vars(),
                old_cwd,
                byte_views(final(shell).cd_redo_stack@),
                byte_views(final(shell).cd_undo_stack@),
                final(shell).env.env_vars(),
                r,
            ),
        },
{
    match cd_op(args) {
        CdOp::Chdir => {
            let target = if args.len() >= 2 {
                assert(byte_views(args@)[1] == args@[1]@);
                clone_bytes(args[1].as_slice())
            } else {
                match shell.env.get_env("HOME") {
                    Some(home) => clone_bytes(home.as_slice()),
                    None => clone_bytes(".".as_bytes()),
                }
            };
            Reply { status: 0, action: Action::Chdir(target) }
        },
        CdOp::Undo => {
            let ghost from = byte_views(shell.cd_undo_stack@);
            let ghost to = byte_views(shell.cd_redo_stack@);
            match shell.cd_undo_stack.pop() {
                Some(target) => {
                    assert(byte_views(shell.cd_undo_stack@) =~= from.drop_last());
                    if let Some(cwd) = old_cwd {
                        shell.env.set_env("OLDPWD", clone_bytes(cwd.as_slice()));
                        let copy = clone_bytes(cwd.as_slice());
                        shell.cd_redo_stack.push(copy);
                        assert(byte_views(shell.cd_redo_stack@) =~= to.push(cwd@));
                    }
                    Reply { status: 0, action: Action::Chdir(target) }
                },
                None => {
                    assert(byte_views(shell.cd_undo_stack@) =~= from);
                    Reply { status: 2, action: Action::Nothing }
                },
            }
        },
        CdOp::Redo => {
            let ghost from = byte_views(shell.cd_redo_stack@);
            let ghost to = byte_views(shell.cd_undo_stack@);
            match shell.cd_redo_stack.pop() {
                Some(target) => {
                    assert(byte_views(shell.cd_redo_stack@) =~= from.drop_last());
                    if let Some(cwd) = old_cwd {
                        shell.env.set_env("OLDPWD", clone_bytes(cwd.as_slice()));
                        let copy = clone_bytes(cwd.as_slice());
                        shell.cd_undo_stack.push(copy);
                        assert(byte_views(shell.cd_undo_stack@) =~= to.push(cwd@));
                    }
                    Reply { status: 0, action: Action::Chdir(target) }
                },
                None => {
                    assert(byte_views(shell.cd_redo_stack@) =~= from);
                    Reply { status: 2, action: Action::Nothing }
                },
            }
        },
    }
}

/// What `cd -` and `cd +` do to the stack they take from and the one they
/// give to.
pub open spec fn moved(
    from: Seq<Seq<u8>>,
    to: Seq<Seq<u8>>,
    env_vars: Map<Seq<u8>, Seq<u8>>,
    old_cwd: Option<&Vec<u8>>,
    from_after: Seq<Seq<u8>>,
    to_after: Seq<Seq<u8>>,
    env_after: Map<Seq<u8>, Seq<u8>>,
    r: Reply,
) -> bool {
    if from.len() == 0 {
        r.status == 2 && r.action is Nothing && from_after == from && to_after == to && env_after
            == env_vars
    } else {
        &&& r.status == 0
        &&& r.action matches Action::Chdir(t) && t@ == from.last()
        &&& from_after == from.drop_last()
        &&& match old_cwd {
            Some(cwd) => to_after == to.push(cwd@) && env_after == env_vars.insert(
                name_bytes("OLDPWD"@),
                cwd@,
            ),
            None => to_after == to && env_after == env_vars,
        }
    }
}

/// The message of `cd` when the directory could not be changed.
pub open spec fn cd_failure_message(error: Seq<char>) -> Seq<char> {
    "cd: "@ + error
}

/// `cd`, after the attempt to change the directory. `failure` is the
/// system's message where it failed; `new_cwd` is the current directory
/// afterwards.
///
/// A failure is complained of, with status 1. After `cd path` the directory
/// left goes to the undo stack and becomes `OLDPWD`, and the redo stack is
/// emptied. `PWD` becomes the new directory.
pub fn finish_cd(
    shell: &mut Shell,
    op: CdOp,
    old_cwd: Option<&Vec<u8>>,
    target: Vec<u8>,
    failure: Option<&str>,
    new_cwd: Vec<u8>,
) -> (r: Reply)
    requires
        old(shell).wf(),
    ensures
        final(shell).wf(),
        final(shell).jobs == old(shell).jobs,
        final(shell).env.shell_vars() == old(shell).env.shell_vars(),
        final(shell).env.aliases() == old(shell).env.aliases(),
        final(shell).env.commands() == old(shell).env.commands(),
        match failure {
            Some(e) => r.status == 1 && (r.action matches Action::Complain(m) && m@
                == cd_failure_message(e@)) && final(shell).env.env_vars() == old(shell).env.env_vars() && final(shell).cd_undo_stack == old(shell).cd_undo_stack && final(shell).cd_redo_stack == old(shell).cd_redo_stack,
            None => r.status == 0 && r.action is Nothing && match op {
                CdOp::Chdir => {
                    &&& byte_views(final(shell).cd_redo_stack@) == Seq::<Seq<u8>>::empty()
                    &&& match old_cwd {
                        Some(cwd) => byte_views(final(shell).cd_undo_stack@) == byte_views(
                            old(shell).cd_undo_stack@,
                        ).push(cwd@) && final(shell).env.env_vars() == old(shell).env.env_vars().insert(name_bytes("OLDPWD"@), cwd@).insert(
                            name_bytes("PWD"@),
                            new_cwd@,
                        ),
                        None => final(shell).cd_undo_stack == old(shell).cd_undo_stack && final(shell).env.env_vars() == old(shell).env.env_vars().insert(
                            name_bytes("PWD"@),
                            new_cwd@,
                        ),
                    }
                },
                _ => final(shell).env.env_vars() == old(shell).env.env_vars().insert(
                    name_bytes("PWD"@),
                    target@,
                ) && final(shell).cd_undo_stack == old(shell).cd_undo_stack && final(shell).cd_redo_stack == old(shell).cd_redo_stack,
            },
        },
{
    if let Some(e) = failure {
        let mut text: Vec<char> = Vec::new();
        push_str(&mut text, "cd: ");
        push_str(&mut text, e);
        assert(text@ =~= cd_failure_message(e@));
        return Reply { status: 1, action: Action::Complain(string_of(&text)) };
    }
    match op {
        CdOp::Chdir => {
            if let Some(cwd) = old_cwd {
                let ghost before = byte_views(shell.cd_undo_stack@);
                shell.env.set_env("OLDPWD", clone_bytes(cwd.as_slice()));
                let copy = clone_bytes(cwd.as_slice());
                shell.cd_undo_stack.push(copy);
                assert(byte_views(shell.cd_undo_stack@) =~= before.push(cwd@));
            }
            shell.env.set_env("PWD", new_cwd);
            shell.cd_redo_stack.clear();
            assert(byte_views(shell.cd_redo_stack@) =~= Seq::<Seq<u8>>::empty());
        },
        _ => {
            shell.env.set_env("PWD", target);
        },
    }
    Reply { status: 0, action: Action::Nothing }
}

/// The job that `fg` brings to the foreground: the one named, if the table
/// has it; without a name the first stopped one.
pub open spec fn fg_job(jobs: Seq<JobView>, args: Seq<Seq<u8>>) -> Option<i32> {
    if args.len() >= 2 {
        if vstd::utf8::valid_utf8(args[1]) {
            match i32_text(vstd::utf8::decode_utf8(args[1])) {
                Some(g) => if job_index(jobs, g) is Some {
                    Some(g)
                } else {
                    None
                },
                None => None,
            }
        } else {
            None
        }
    } else {
        match stopped_index(jobs) {
            Some(i) => jobs[i].pgid,
            None => None,
        }
    }
}

/// `fg`: names the job to bring to the foreground, or complains with
/// status 1 that there is none.
pub fn builtin_fg(shell: &Shell, args: &Vec<Vec<u8>>) -> (r: Reply)
    ensures
        match fg_job(shell.jobs@, byte_views(args@)) {
            Some(g) => r.status == 0 && r.action == Action::Foreground(g),
            None => is_complaint(
                r,
                1,
                if args@.len() >= 2 {
                    "fg: no such job is found\nfg: usage: fg <pgid>"@
                } else {
                    "fg: you have no suspended job"@
                },
            ),
        },
{
    if args.len() >= 2 {
        assert(byte_views(args@)[1] == args@[1]@);
        let named = match utf8_str(args[1].as_slice()) {
            Some(text) => parse_i32(text),
            None => None,
        };
        let ghost spec_named = if vstd::utf8::valid_utf8(args@[1]@) {
            i32_text(vstd::utf8::decode_utf8(args@[1]@))
        } else {
            None
        };
        assert(named == spec_named);
        let pgid = pgid_of(named);
        if pgid.0 && shell.jobs.contains(pgid.1) {
            Reply { status: 0, action: Action::Foreground(pgid.1) }
        } else {
            complain(1, "fg: no such job is found\nfg: usage: fg <pgid>")
        }
    } else {
        let first = pgid_of(shell.jobs.first_stopped());
        if first.0 {
            Reply { status: 0, action: Action::Foreground(first.1) }
        } else {
            complain(1, "fg: you have no suspended job")
        }
    }
}

fn pgid_of(p: Option<i32>) -> (r: (bool, i32))
    ensures
        r.0 == p is Some,
        p matches Some(g) ==> r.1 == g,
{
    match p {
        Some(g) => (true, g),
        None => (false, 0),
    }
}

/// The file that a redirection writes to: the one argument behind the
/// command's name.
pub open spec fn redirect_path(args: Seq<Seq<u8>>) -> Option<Seq<u8>> {
    if args.len() == 2 {
        Some(args[1])
    } else {
        None
    }
}

fn redirect(args: &Vec<Vec<u8>>, append: bool) -> (r: Reply)
    ensures
        match redirect_path(byte_views(args@)) {
            Some(p) => is_redirect(r, p, append),
            None => is_complaint(
                r,
                1,
                if append {
                    ">>: takes 1 argument"@
                } else {
                    ">: takes 1 argument"@
                },
            ),
        },
{
    if args.len() == 2 {
        assert(byte_views(args@)[1] == args@[1]@);
        Reply {
            status: 0,
            action: Action::Redirect { path: clone_bytes(args[1].as_slice()), append },
        }
    } else if append {
        complain(1, ">>: takes 1 argument")
    } else {
        complain(1, ">: takes 1 argument")
    }
}

/// `>> path`: the input goes behind what the file holds. Another number of
/// arguments is complained of, with status 1.
pub fn builtin_append(args: &Vec<Vec<u8>>) -> (r: Reply)
    ensures
        match redirect_path(byte_views(args@)) {
            Some(p) => is_redirect(r, p, true),
            None => is_complaint(r, 1, ">>: takes 1 argument"@),
        },
{
    redirect(args, true)
}

/// `> path`: the input takes the place of what the file holds. Another
/// number of arguments is complained of, with status 1.
pub fn builtin_overwrite(args: &Vec<Vec<u8>>) -> (r: Reply)
    ensures
        match redirect_path(byte_views(args@)) {
            Some(p) => is_redirect(r, p, false),
            None => is_complaint(r, 1, ">: takes 1 argument"@),
        },
{
    redirect(args, false)
}

/// The message of a redirection that could not write its file.
pub open spec fn redirect_failure_message(append: bool, error: Seq<char>) -> Seq<char> {
    (if append {
        ">>: "@
    } else {
        ">: "@
    }) + error
}

/// The answer of a redirection that could not write its file: the system's
/// message is complained of, with status 2.
pub fn redirect_failed(append: bool, error: &str) -> (r: Reply)
    ensures
        r.status == 2,
        r.action matches Action::Complain(m) && m@ == redirect_failure_message(append, error@),
{
    let mut text: Vec<char> = Vec::new();
    if append {
        push_str(&mut text, ">>: ");
    } else {
        push_str(&mut text, ">: ");
    }
    push_str(&mut text, error);
    assert(text@ =~= redirect_failure_message(append, error@));
    Reply { status: 2, action: Action::Complain(string_of(&text)) }
}

} // verus!
