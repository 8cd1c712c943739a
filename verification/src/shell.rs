//! The state that the shell keeps from one command to the next.

use vstd::prelude::*;
use crate::ast::Program;
use crate::chars::{decimal, push_decimal};
use crate::completion::texts;
use crate::env::{name_bytes, text_names, vars_map, Env, ExecutableView};
use crate::eval::SYNTAX_ERROR_STATUS;
use crate::grammar::g_list;
use crate::job::{JobTable, JobView};
use crate::parser::{parsed, toplevel};

verus! {

/// The bytes of a text of digits.
pub open spec fn digit_bytes(text: Seq<char>) -> Seq<u8> {
    text.map_values(|c: char| c as u8)
}

/// The decimal digits of a number, as bytes.
pub fn decimal_bytes(n: usize) -> (r: Vec<u8>)
    ensures
        r@ == digit_bytes(decimal(n as nat)),
{
    let mut chars: Vec<char> = Vec::new();
    push_decimal(&mut chars, n);
    assert(chars@ =~= decimal(n as nat));
    let mut out: Vec<u8> = Vec::new();
    let mut i: usize = 0;
    while i < chars.len()
        invariant
            i <= chars.len(),
            out@ == digit_bytes(chars@.take(i as int)),
        decreases chars.len() - i,
    {
        out.push(chars[i] as u8);
        i += 1;
        assert(out@ =~= digit_bytes(chars@.take(i as int)));
    }
    assert(chars@.take(i as int) =~= chars@);
    out
}

pub struct Shell {
    /// The process group of the shell itself.
    pub shell_pgid: i32,
    pub env: Env,
    pub jobs: JobTable,
    /// The directories left by `cd`, the last one last.
    pub cd_undo_stack: Vec<Vec<u8>>,
    /// The directories left by `cd -`, the last one last.
    pub cd_redo_stack: Vec<Vec<u8>>,
}

impl Shell {
    pub open spec fn wf(&self) -> bool {
        self.env.wf() && self.jobs.wf()
    }

    /// A shell with the given exported variables, no jobs and no directory
    /// history. `PWD` is set to the current directory where it is known.
    pub fn new(shell_pgid: i32, vars: &Vec<(Vec<u8>, Vec<u8>)>, cwd: Option<Vec<u8>>) -> (r: Self)
        ensures
            r.wf(),
            r.shell_pgid == shell_pgid,
            r.jobs@ == Seq::<JobView>::empty(),
            r.cd_undo_stack@ == Seq::<Vec<u8>>::empty(),
            r.cd_redo_stack@ == Seq::<Vec<u8>>::empty(),
            r.env.env_vars() == match cwd {
                Some(c) => vars_map(vars@).insert(name_bytes("PWD"@), c@),
                None => vars_map(vars@),
            },
            r.env.shell_vars() == Map::<Seq<u8>, Seq<u8>>::empty(),
            r.env.aliases() == Map::<Seq<u8>, Seq<Seq<u8>>>::empty(),
            r.env.commands() == Map::<Seq<u8>, ExecutableView>::empty(),
    {
        let mut env = Env::new(vars);
        match cwd {
            Some(c) => {
                env.set_env("PWD", c);
            },
            None => {},
        }
        Shell {
            shell_pgid,
            env,
            jobs: JobTable::new(),
            cd_undo_stack: Vec::new(),
            cd_redo_stack: Vec::new(),
        }
    }

    /// The number of jobs that are not over.
    pub fn jobs(&self) -> (r: usize)
        ensures
            r == self.jobs@.len(),
    {
        self.jobs.len()
    }

    /// The names of the commands that the shell knows.
    pub fn list_commands(&self) -> (r: Vec<String>)
        requires
            self.wf(),
        ensures
            texts(r@) == text_names(self.env.command_names()),
    {
        self.env.list_commands()
    }

    /// Exports the size of the terminal as `LINES` and `COLUMNS`.
    pub fn update_variables(&mut self, rows: u16, cols: u16)
        requires
            old(self).wf(),
        ensures
            final(self).wf(),
            final(self).env.env_vars() == old(self).env.env_vars().insert(
                name_bytes("LINES"@),
                digit_bytes(decimal(rows as nat)),
            ).insert(name_bytes("COLUMNS"@), digit_bytes(decimal(cols as nat))),
            final(self).env.shell_vars() == old(self).env.shell_vars(),
            final(self).env.aliases() == old(self).env.aliases(),
            final(self).env.commands() == old(self).env.commands(),
            final(self).jobs == old(self).jobs,
            final(self).shell_pgid == old(self).shell_pgid,
            final(self).cd_undo_stack == old(self).cd_undo_stack,
            final(self).cd_redo_stack == old(self).cd_redo_stack,
    {
        self.env.set_env("LINES", decimal_bytes(rows as usize));
        self.env.set_env("COLUMNS", decimal_bytes(cols as usize));
    }

    /// Reads a line of input. A line that the grammar does not accept gives
    /// the status 127.
    pub fn parse(program: &str) -> (r: Result<Box<Program>, i32>)
        ensures
            match parsed(program@, g_list(program@, 0)) {
                Ok(v) => r is Ok && r->Ok_0@ == v,
                Err(_) => r == Err::<Box<Program>, i32>(127i32),
            },
    {
        match toplevel(program) {
            Ok(tree) => Ok(tree),
            Err(_) => Err(SYNTAX_ERROR_STATUS),
        }
    }
}

} // verus!
