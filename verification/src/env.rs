//! The shell's environment: aliases, exported and shell-only variables, and
//! the index of the commands it knows.

use vstd::prelude::*;
use vstd::utf8::{decode_utf8, encode_utf8, valid_utf8};
use crate::dict::{clone_bytes, Dict};
use crate::pattern::{byte_views, push_bytes};

verus! {

/// The commands that the shell carries out itself.
#[derive(Debug, Clone, Copy, PartialEq, Eq, Structural)]
pub enum BuiltinKind {
    Args,
    Exit,
    Cd,
    Jobs,
    Fg,
    Append,
    Overwrite,
    Alias,
    Var,
    Evar,
    Unset,
}

/// What a command name stands for: a program at a path, or a builtin.
#[derive(Debug, PartialEq, Eq)]
pub enum Executable {
    External(Vec<u8>),
    Builtin(BuiltinKind),
}

pub enum ExecutableView {
    External(Seq<u8>),
    Builtin(BuiltinKind),
}

impl View for Executable {
    type V = ExecutableView;

    open spec fn view(&self) -> ExecutableView {
        match self {
            Executable::External(p) => ExecutableView::External(p@),
            Executable::Builtin(k) => ExecutableView::Builtin(*k),
        }
    }
}

impl Clone for Executable {
    fn clone(&self) -> (r: Self)
        ensures
            r@ == self@,
    {
        match self {
            Executable::External(p) => Executable::External(clone_bytes(p.as_slice())),
            Executable::Builtin(k) => Executable::Builtin(*k),
        }
    }
}

/// A program found on the search path: its name and its path.
pub struct ExternalCommand {
    pub name: Vec<u8>,
    pub path: Vec<u8>,
}

/// The bytes of a name.
pub open spec fn name_bytes(name: Seq<char>) -> Seq<u8> {
    encode_utf8(name)
}

/// The map of the variables given as pairs: a later pair of the same name
/// wins.
pub open spec fn vars_map(pairs: Seq<(Vec<u8>, Vec<u8>)>) -> Map<Seq<u8>, Seq<u8>>
    decreases pairs.len(),
{
    if pairs.len() == 0 {
        Map::empty()
    } else {
        vars_map(pairs.drop_last()).insert(pairs.last().0@, pairs.last().1@)
    }
}

/// The value that a variable expands to: that of the shell variable, else
/// that of the exported variable, else nothing.
pub open spec fn variable_value(
    shell_vars: Map<Seq<u8>, Seq<u8>>,
    env_vars: Map<Seq<u8>, Seq<u8>>,
    name: Seq<u8>,
) -> Seq<u8> {
    if shell_vars.contains_key(name) {
        shell_vars[name]
    } else if env_vars.contains_key(name) {
        env_vars[name]
    } else {
        seq![]
    }
}

/// The programs of the search path by name: of two of the same name the
/// first one wins.
pub open spec fn first_wins(found: Seq<ExternalCommand>) -> Map<Seq<u8>, ExecutableView>
    decreases found.len(),
{
    if found.len() == 0 {
        Map::empty()
    } else {
        let m = first_wins(found.drop_last());
        if m.contains_key(found.last().name@) {
            m
        } else {
            m.insert(found.last().name@, ExecutableView::External(found.last().path@))
        }
    }
}

/// The index with the builtins laid over it.
pub open spec fn with_builtins(m: Map<Seq<u8>, ExecutableView>) -> Map<Seq<u8>, ExecutableView> {
    m.insert(name_bytes("args"@), ExecutableView::Builtin(BuiltinKind::Args)).insert(
        name_bytes("exit"@),
        ExecutableView::Builtin(BuiltinKind::Exit),
    ).insert(name_bytes("cd"@), ExecutableView::Builtin(BuiltinKind::Cd)).insert(
        name_bytes("jobs"@),
        ExecutableView::Builtin(BuiltinKind::Jobs),
    ).insert(name_bytes("fg"@), ExecutableView::Builtin(BuiltinKind::Fg)).insert(
        name_bytes(">>"@),
        ExecutableView::Builtin(BuiltinKind::Append),
    ).insert(name_bytes(">"@), ExecutableView::Builtin(BuiltinKind::Overwrite)).insert(
        name_bytes("alias"@),
        ExecutableView::Builtin(BuiltinKind::Alias),
    ).insert(name_bytes("var"@), ExecutableView::Builtin(BuiltinKind::Var)).insert(
        name_bytes("evar"@),
        ExecutableView::Builtin(BuiltinKind::Evar),
    ).insert(name_bytes("unset"@), ExecutableView::Builtin(BuiltinKind::Unset))
}

/// The command that a first token stands for: what the index has for it,
/// else the program at the path that the token itself is.
pub open spec fn resolved(commands: Map<Seq<u8>, ExecutableView>, arg0: Seq<u8>) -> ExecutableView {
    if commands.contains_key(arg0) {
        commands[arg0]
    } else {
        ExecutableView::External(arg0)
    }
}

/// The arguments with an alias in first place replaced by what it stands
/// for.
pub open spec fn alias_expanded(aliases: Map<Seq<u8>, Seq<Seq<u8>>>, args: Seq<Seq<u8>>) -> Seq<
    Seq<u8>,
> {
    if args.len() > 0 && aliases.contains_key(args[0]) {
        aliases[args[0]] + args.skip(1)
    } else {
        args
    }
}

/// The pieces of a byte string between the separators, the one under way in
/// `open`.
pub open spec fn pieces_from(bytes: Seq<u8>, sep: u8, n: int, done: Seq<Seq<u8>>, open: Seq<u8>) -> Seq<
    Seq<u8>,
>
    decreases bytes.len() - n,
{
    if n < 0 || n >= bytes.len() {
        done.push(open)
    } else if bytes[n] == sep {
        pieces_from(bytes, sep, n + 1, done.push(open), seq![])
    } else {
        pieces_from(bytes, sep, n + 1, done, open.push(bytes[n]))
    }
}

/// The directories of a search path: its pieces between the colons.
pub open spec fn path_dirs(path: Seq<u8>) -> Seq<Seq<u8>> {
    pieces_from(path, 0x3a, 0, seq![], seq![])
}

/// One line of a process environment: the name, `=`, the value.
pub open spec fn env_line(name: Seq<u8>, value: Seq<u8>) -> Seq<u8> {
    name.push(0x3d) + value
}

/// The names among the keys that are valid texts, in the keys' order.
pub open spec fn text_names(keys: Seq<Seq<u8>>) -> Seq<Seq<char>>
    decreases keys.len(),
{
    if keys.len() == 0 {
        seq![]
    } else if valid_utf8(keys.last()) {
        text_names(keys.drop_last()).push(decode_utf8(keys.last()))
    } else {
        text_names(keys.drop_last())
    }
}

fn str_bytes(s: &str) -> (r: Vec<u8>)
    ensures
        r@ == name_bytes(s@),
{
    clone_bytes(s.as_bytes())
}

pub struct Env {
    aliases: Dict<Vec<Vec<u8>>>,
    commands: Dict<Executable>,
    env_vars: Dict<Vec<u8>>,
    shell_vars: Dict<Vec<u8>>,
}

impl Env {
    pub closed spec fn wf(&self) -> bool {
        self.aliases.wf() && self.commands.wf() && self.env_vars.wf() && self.shell_vars.wf()
    }

    /// The exported variables.
    pub closed spec fn env_vars(&self) -> Map<Seq<u8>, Seq<u8>> {
        self.env_vars@.map_values(|v: Vec<u8>| v@)
    }

    /// The names of the exported variables in the order in which they came.
    pub closed spec fn env_names(&self) -> Seq<Seq<u8>> {
        self.env_vars.keys()
    }

    /// The shell-only variables.
    pub closed spec fn shell_vars(&self) -> Map<Seq<u8>, Seq<u8>> {
        self.shell_vars@.map_values(|v: Vec<u8>| v@)
    }

    /// The aliases.
    pub closed spec fn aliases(&self) -> Map<Seq<u8>, Seq<Seq<u8>>> {
        self.aliases@.map_values(|v: Vec<Vec<u8>>| byte_views(v@))
    }

    /// The index of the commands.
    pub closed spec fn commands(&self) -> Map<Seq<u8>, ExecutableView> {
        self.commands@.map_values(|e: Executable| e@)
    }

    /// The names of the commands in the order in which they came.
    pub closed spec fn command_names(&self) -> Seq<Seq<u8>> {
        self.commands.keys()
    }

    /// An environment with the given exported variables and nothing else.
    pub fn new(vars: &Vec<(Vec<u8>, Vec<u8>)>) -> (r: Self)
        ensures
            r.wf(),
            r.env_vars() == vars_map(vars@),
            r.shell_vars() == Map::<Seq<u8>, Seq<u8>>::empty(),
            r.aliases() == Map::<Seq<u8>, Seq<Seq<u8>>>::empty(),
            r.commands() == Map::<Seq<u8>, ExecutableView>::empty(),
    {
        let mut env_vars: Dict<Vec<u8>> = Dict::new();
        let mut i: usize = 0;
        assert(vars@.take(0) =~= seq![]);
        assert(env_vars@.map_values(|v: Vec<u8>| v@) =~= vars_map(vars@.take(0)));
        while i < vars.len()
            invariant
                i <= vars.len(),
                env_vars.wf(),
                env_vars@.map_values(|v: Vec<u8>| v@) == vars_map(vars@.take(i as int)),
            decreases vars.len() - i,
        {
            let ghost before = env_vars@;
            let key = clone_bytes(vars[i].0.as_slice());
            let value = clone_bytes(vars[i].1.as_slice());
            env_vars.insert(key, value);
            proof {
                assert(vars@.take(i + 1).drop_last() =~= vars@.take(i as int));
                assert(vars@.take(i + 1).last() == vars@[i as int]);
                assert(env_vars@.map_values(|v: Vec<u8>| v@) =~= before.map_values(
                    |v: Vec<u8>| v@,
                ).insert(key@, value@));
            }
            i += 1;
        }
        assert(vars@.take(i as int) =~= vars@);
        let r = Env {
            aliases: Dict::new(),
            commands: Dict::new(),
            env_vars,
            shell_vars: Dict::new(),
        };
        proof {
            assert(r.shell_vars() =~= Map::<Seq<u8>, Seq<u8>>::empty());
            assert(r.aliases() =~= Map::<Seq<u8>, Seq<Seq<u8>>>::empty());
            assert(r.commands() =~= Map::<Seq<u8>, ExecutableView>::empty());
        }
        r
    }

    /// The value of an exported variable.
    pub fn get_env(&self, name: &str) -> (r: Option<&Vec<u8>>)
        requires
            self.wf(),
        ensures
            match r {
                Some(v) => self.env_vars().contains_key(name_bytes(name@)) && v@
                    == self.env_vars()[name_bytes(name@)],
                None => !self.env_vars().contains_key(name_bytes(name@)),
            },
    {
        self.env_vars.get(name.as_bytes())
    }

    /// Sets an exported variable.
    pub fn set_env(&mut self, name: &str, value: Vec<u8>)
        requires
            old(self).wf(),
        ensures
            final(self).wf(),
            final(self).env_vars() == old(self).env_vars().insert(name_bytes(name@), value@),
            final(self).shell_vars() == old(self).shell_vars(),
            final(self).aliases() == old(self).aliases(),
            final(self).commands() == old(self).commands(),
    {
        self.set_evar(str_bytes(name), value);
    }

    /// Sets an exported variable whose name is given in bytes.
    pub fn set_evar(&mut self, name: Vec<u8>, value: Vec<u8>)
        requires
            old(self).wf(),
        ensures
            final(self).wf(),
            final(self).env_vars() == old(self).env_vars().insert(name@, value@),
            final(self).shell_vars() == old(self).shell_vars(),
            final(self).aliases() == old(self).aliases(),
            final(self).commands() == old(self).commands(),
    {
        self.env_vars.insert(name, value);
        assert(self.env_vars() =~= old(self).env_vars().insert(name@, value@));
    }

    /// Sets a shell-only variable.
    pub fn set_var(&mut self, name: Vec<u8>, value: Vec<u8>)
        requires
            old(self).wf(),
        ensures
            final(self).wf(),
            final(self).shell_vars() == old(self).shell_vars().insert(name@, value@),
            final(self).env_vars() == old(self).env_vars(),
            final(self).aliases() == old(self).aliases(),
            final(self).commands() == old(self).commands(),
    {
        self.shell_vars.insert(name, value);
        assert(self.shell_vars() =~= old(self).shell_vars().insert(name@, value@));
    }

    /// Sets an alias.
    pub fn set_alias(&mut self, name: Vec<u8>, values: Vec<Vec<u8>>)
        requires
            old(self).wf(),
        ensures
            final(self).wf(),
            final(self).aliases() == old(self).aliases().insert(name@, byte_views(values@)),
            final(self).env_vars() == old(self).env_vars(),
            final(self).shell_vars() == old(self).shell_vars(),
            final(self).commands() == old(self).commands(),
    {
        self.aliases.insert(name, values);
        assert(self.aliases() =~= old(self).aliases().insert(name@, byte_views(values@)));
    }

    /// Takes a variable out of the exported and of the shell-only ones.
    pub fn unset(&mut self, name: &[u8])
        requires
            old(self).wf(),
        ensures
            final(self).wf(),
            final(self).env_vars() == old(self).env_vars().remove(name@),
            final(self).shell_vars() == old(self).shell_vars().remove(name@),
            final(self).aliases() == old(self).aliases(),
            final(self).commands() == old(self).commands(),
    {
        self.env_vars.remove(name);
        self.shell_vars.remove(name);
        assert(self.env_vars() =~= old(self).env_vars().remove(name@));
        assert(self.shell_vars() =~= old(self).shell_vars().remove(name@));
    }

    /// The value that a variable expands to.
    pub fn variable(&self, name: &[u8]) -> (r: Vec<u8>)
        requires
            self.wf(),
        ensures
            r@ == variable_value(self.shell_vars(), self.env_vars(), name@),
    {
        match self.shell_vars.get(name) {
            Some(v) => clone_bytes(v.as_slice()),
            None => match self.env_vars.get(name) {
                Some(v) => clone_bytes(v.as_slice()),
                None => Vec::new(),
            },
        }
    }

    /// The directories of the search path, `None` without a `PATH`.
    pub fn search_dirs(&self) -> (r: Option<Vec<Vec<u8>>>)
        requires
            self.wf(),
        ensures
            match r {
                Some(dirs) => self.env_vars().contains_key(name_bytes("PATH"@)) && byte_views(
                    dirs@,
                ) == path_dirs(self.env_vars()[name_bytes("PATH"@)]),
                None => !self.env_vars().contains_key(name_bytes("PATH"@)),
            },
    {
        let path = match self.get_env("PATH") {
            Some(p) => p,
            None => {
                return None;
            },
        };
        let mut done: Vec<Vec<u8>> = Vec::new();
        let mut open: Vec<u8> = Vec::new();
        let mut i: usize = 0;
        assert(byte_views(done@) =~= seq![]);
        while i < path.len()
            invariant
                i <= path.len(),
                pieces_from(path@, 0x3a, i as int, byte_views(done@), open@) == path_dirs(path@),
            decreases path.len() - i,
        {
            let ghost before = byte_views(done@);
            if path[i] == 0x3a {
                done.push(open);
                assert(byte_views(done@) =~= before.push(open@));
                open = Vec::new();
            } else {
                open.push(path[i]);
            }
            i += 1;
        }
        let ghost before = byte_views(done@);
        done.push(open);
        assert(byte_views(done@) =~= before.push(open@));
        Some(done)
    }

    /// Builds the index of the commands anew from the programs found on the
    /// search path, in the order in which they were found, with the builtins
    /// laid over them. Without a `PATH` the index holds the builtins alone.
    pub fn update_commands(&mut self, found: &Vec<ExternalCommand>)
        requires
            old(self).wf(),
        ensures
            final(self).wf(),
            final(self).commands() == if old(self).env_vars().contains_key(name_bytes("PATH"@)) {
                with_builtins(first_wins(found@))
            } else {
                with_builtins(Map::<Seq<u8>, ExecutableView>::empty())
            },
            final(self).env_vars() == old(self).env_vars(),
            final(self).shell_vars() == old(self).shell_vars(),
            final(self).aliases() == old(self).aliases(),
    {
        self.commands.clear();
        assert(self.commands() =~= Map::<Seq<u8>, ExecutableView>::empty());
        let limit = if self.get_env("PATH").is_some() {
            found.len()
        } else {
            0
        };
        let mut i: usize = 0;
        assert(found@.take(0) =~= seq![]);
        while i < limit
            invariant
                i <= limit <= found.len(),
                self.wf(),
                self.env_vars == old(self).env_vars,
                self.shell_vars == old(self).shell_vars,
                self.aliases == old(self).aliases,
                self.commands() == first_wins(found@.take(i as int)),
            decreases limit - i,
        {
            let ghost before = self.commands();
            assert(found@.take(i + 1).drop_last() =~= found@.take(i as int));
            assert(found@.take(i + 1).last() == found@[i as int]);
            if !self.commands.contains_key(found[i].name.as_slice()) {
                let name = clone_bytes(found[i].name.as_slice());
                let path = clone_bytes(found[i].path.as_slice());
                self.commands.insert(name, Executable::External(path));
                assert(self.commands() =~= before.insert(name@, ExecutableView::External(path@)));
            }
            i += 1;
        }
        assert(limit == found.len() ==> found@.take(i as int) =~= found@);
        self.bind("args", BuiltinKind::Args);
        self.bind("exit", BuiltinKind::Exit);
        self.bind("cd", BuiltinKind::Cd);
        self.bind("jobs", BuiltinKind::Jobs);
        self.bind("fg", BuiltinKind::Fg);
        self.bind(">>", BuiltinKind::Append);
        self.bind(">", BuiltinKind::Overwrite);
        self.bind("alias", BuiltinKind::Alias);
        self.bind("var", BuiltinKind::Var);
        self.bind("evar", BuiltinKind::Evar);
        self.bind("unset", BuiltinKind::Unset);
    }

    fn bind(&mut self, name: &str, kind: BuiltinKind)
        requires
            old(self).wf(),
        ensures
            final(self).wf(),
            final(self).commands() == old(self).commands().insert(
                name_bytes(name@),
                ExecutableView::Builtin(kind),
            ),
            final(self).env_vars == old(self).env_vars,
            final(self).shell_vars == old(self).shell_vars,
            final(self).aliases == old(self).aliases,
    {
        self.commands.insert(str_bytes(name), Executable::Builtin(kind));
        assert(self.commands() =~= old(self).commands().insert(
            name_bytes(name@),
            ExecutableView::Builtin(kind),
        ));
    }

    /// The command that a first token stands for.
    pub fn resolve(&self, arg0: &[u8]) -> (r: Executable)
        requires
            self.wf(),
        ensures
            r@ == resolved(self.commands(), arg0@),
    {
        match self.commands.get(arg0) {
            Some(e) => e.clone(),
            None => Executable::External(clone_bytes(arg0)),
        }
    }

    /// Replaces an alias in first place by what it stands for.
    pub fn expand_alias(&self, args: Vec<Vec<u8>>) -> (r: Vec<Vec<u8>>)
        requires
            self.wf(),
        ensures
            byte_views(r@) == alias_expanded(self.aliases(), byte_views(args@)),
    {
        if args.len() == 0 {
            return args;
        }
        assert(byte_views(args@)[0] == args@[0]@);
        match self.aliases.get(args[0].as_slice()) {
            Some(values) => {
                let mut out: Vec<Vec<u8>> = Vec::new();
                let mut i: usize = 0;
                assert(byte_views(out@) =~= byte_views(values@).take(0));
                while i < values.len()
                    invariant
                        i <= values.len(),
                        byte_views(out@) == byte_views(values@).take(i as int),
                    decreases values.len() - i,
                {
                    let ghost before = byte_views(out@);
                    let v = clone_bytes(values[i].as_slice());
                    out.push(v);
                    assert(byte_views(out@) =~= before.push(v@));
                    i += 1;
                    assert(byte_views(out@) =~= byte_views(values@).take(i as int));
                }
                assert(byte_views(values@).take(i as int) =~= byte_views(values@));
                let mut k: usize = 1;
                assert(byte_views(out@) =~= byte_views(values@) + byte_views(args@).subrange(1, 1));
                while k < args.len()
                    invariant
                        1 <= k <= args.len(),
                        byte_views(out@) == byte_views(values@) + byte_views(args@).subrange(
                            1,
                            k as int,
                        ),
                    decreases args.len() - k,
                {
                    let ghost before = byte_views(out@);
                    let v = clone_bytes(args[k].as_slice());
                    out.push(v);
                    assert(byte_views(out@) =~= before.push(v@));
                    k += 1;
                    assert(byte_views(out@) =~= byte_views(values@) + byte_views(
                        args@,
                    ).subrange(1, k as int));
                }
                assert(byte_views(args@).subrange(1, args.len() as int) =~= byte_views(
                    args@,
                ).skip(1));
                out
            },
            None => args,
        }
    }

    /// The process environment for a child: one line for each exported
    /// variable, in the order in which they came.
    pub fn envp(&self) -> (r: Vec<Vec<u8>>)
        requires
            self.wf(),
        ensures
            r@.len() == self.env_names().len(),
            forall|i: int|
                0 <= i < r@.len() ==> (#[trigger] r@[i])@ == env_line(
                    self.env_names()[i],
                    self.env_vars()[self.env_names()[i]],
                ),
    {
        proof {
            self.env_vars.lemma_view();
        }
        let mut out: Vec<Vec<u8>> = Vec::new();
        let mut i: usize = 0;
        while i < self.env_vars.len()
            invariant
                i <= self.env_vars.keys().len(),
                self.wf(),
                out@.len() == i,
                forall|k: int|
                    0 <= k < i ==> (#[trigger] out@[k])@ == env_line(
                        self.env_names()[k],
                        self.env_vars()[self.env_names()[k]],
                    ),
            decreases self.env_vars.keys().len() - i,
        {
            let mut line = clone_bytes(self.env_vars.key_at(i).as_slice());
            line.push(0x3d);
            let value = self.env_vars.value_at(i);
            assert(value@.skip(0) =~= value@);
            push_bytes(&mut line, value.as_slice(), 0);
            proof {
                self.env_vars.lemma_view();
            }
            out.push(line);
            i += 1;
        }
        out
    }

    /// The names of the commands that are valid texts.
    pub fn list_commands(&self) -> (r: Vec<String>)
        requires
            self.wf(),
        ensures
            crate::completion::texts(r@) == text_names(self.command_names()),
    {
        let mut out: Vec<String> = Vec::new();
        let mut i: usize = 0;
        let ghost keys = self.command_names();
        assert(keys.take(0) =~= seq![]);
        assert(crate::completion::texts(out@) =~= seq![]);
        while i < self.commands.len()
            invariant
                i <= keys.len(),
                self.wf(),
                keys == self.command_names(),
                crate::completion::texts(out@) == text_names(keys.take(i as int)),
            decreases keys.len() - i,
        {
            let ghost before = crate::completion::texts(out@);
            assert(keys.take(i + 1).drop_last() =~= keys.take(i as int));
            assert(keys.take(i + 1).last() == keys[i as int]);
            match crate::chars::utf8_str(self.commands.key_at(i).as_slice()) {
                Some(name) => {
                    let s = String::from_str(name);
                    out.push(s);
                    assert(crate::completion::texts(out@) =~= before.push(s@));
                },
                None => {},
            }
            i += 1;
        }
        assert(keys.take(i as int) =~= keys);
        out
    }
}

} // verus!

verus! {

/// A variable as listed: its name and its value.
pub struct VarEntry {
    pub name: Vec<u8>,
    pub value: Vec<u8>,
}

/// An alias as listed: its name and what it stands for.
pub struct AliasEntry {
    pub name: Vec<u8>,
    pub values: Vec<Vec<u8>>,
}

fn clone_list(values: &Vec<Vec<u8>>) -> (r: Vec<Vec<u8>>)
    ensures
        byte_views(r@) == byte_views(values@),
{
    let mut out: Vec<Vec<u8>> = Vec::new();
    let mut i: usize = 0;
    assert(byte_views(out@) =~= byte_views(values@).take(0));
    while i < values.len()
        invariant
            i <= values.len(),
            byte_views(out@) == byte_views(values@).take(i as int),
        decreases values.len() - i,
    {
        let ghost before = byte_views(out@);
        let v = clone_bytes(values[i].as_slice());
        out.push(v);
        assert(byte_views(out@) =~= before.push(v@));
        i += 1;
        assert(byte_views(out@) =~= byte_views(values@).take(i as int));
    }
    assert(byte_views(values@).take(i as int) =~= byte_views(values@));
    out
}

fn entries_of(d: &Dict<Vec<u8>>) -> (r: Vec<VarEntry>)
    requires
        d.wf(),
    ensures
        r@.len() == d.keys().len(),
        forall|i: int|
            0 <= i < r@.len() ==> (#[trigger] r@[i]).name@ == d.keys()[i] && r@[i].value@
                == d@[d.keys()[i]]@,
{
    let mut out: Vec<VarEntry> = Vec::new();
    let mut i: usize = 0;
    while i < d.len()
        invariant
            i <= d.keys().len(),
            d.wf(),
            out@.len() == i,
            forall|k: int|
                0 <= k < i ==> (#[trigger] out@[k]).name@ == d.keys()[k] && out@[k].value@
                    == d@[d.keys()[k]]@,
        decreases d.keys().len() - i,
    {
        let name = clone_bytes(d.key_at(i).as_slice());
        let value = clone_bytes(d.value_at(i).as_slice());
        out.push(VarEntry { name, value });
        i += 1;
    }
    out
}

impl Env {
    /// The names of the shell-only variables in the order in which they
    /// came.
    pub closed spec fn shell_names(&self) -> Seq<Seq<u8>> {
        self.shell_vars.keys()
    }

    /// The names of the aliases in the order in which they came.
    pub closed spec fn alias_names(&self) -> Seq<Seq<u8>> {
        self.aliases.keys()
    }

    /// The exported variables, in the order in which they came.
    pub fn env_entries(&self) -> (r: Vec<VarEntry>)
        requires
            self.wf(),
        ensures
            r@.len() == self.env_names().len(),
            forall|i: int|
                0 <= i < r@.len() ==> (#[trigger] r@[i]).name@ == self.env_names()[i]
                    && r@[i].value@ == self.env_vars()[self.env_names()[i]],
    {
        proof {
            self.env_vars.lemma_view();
        }
        entries_of(&self.env_vars)
    }

    /// The shell-only variables, in the order in which they came.
    pub fn shell_entries(&self) -> (r: Vec<VarEntry>)
        requires
            self.wf(),
        ensures
            r@.len() == self.shell_names().len(),
            forall|i: int|
                0 <= i < r@.len() ==> (#[trigger] r@[i]).name@ == self.shell_names()[i]
                    && r@[i].value@ == self.shell_vars()[self.shell_names()[i]],
    {
        proof {
            self.shell_vars.lemma_view();
        }
        entries_of(&self.shell_vars)
    }

    /// The aliases, in the order in which they came.
    pub fn alias_entries(&self) -> (r: Vec<AliasEntry>)
        requires
            self.wf(),
        ensures
            r@.len() == self.alias_names().len(),
            forall|i: int|
                0 <= i < r@.len() ==> (#[trigger] r@[i]).name@ == self.alias_names()[i]
                    && byte_views(r@[i].values@) == self.aliases()[self.alias_names()[i]],
    {
        proof {
            self.aliases.lemma_view();
        }
        let mut out: Vec<AliasEntry> = Vec::new();
        let mut i: usize = 0;
        while i < self.aliases.len()
            invariant
                i <= self.aliases.keys().len(),
                self.wf(),
                out@.len() == i,
                forall|k: int|
                    0 <= k < i ==> (#[trigger] out@[k]).name@ == self.alias_names()[k]
                        && byte_views(out@[k].values@) == self.aliases()[self.alias_names()[k]],
            decreases self.aliases.keys().len() - i,
        {
            proof {
                self.aliases.lemma_view();
            }
            let name = clone_bytes(self.aliases.key_at(i).as_slice());
            let values = clone_list(self.aliases.value_at(i));
            out.push(AliasEntry { name, values });
            i += 1;
        }
        out
    }
}

} // verus!
