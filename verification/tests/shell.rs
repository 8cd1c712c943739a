use myshell::ast::{Arguments, Condition, Expansion, List, Pipe, StrPart};
use myshell::builtins::{
    builtin_alias, builtin_append, builtin_args, builtin_cd, builtin_evar, builtin_exit,
    builtin_fg, builtin_jobs, builtin_overwrite, builtin_unset, builtin_var, cd_op, finish_cd,
    redirect_failed, Action, CdOp, Reply,
};
use myshell::dict::Dict;
use myshell::env::{BuiltinKind, Env, Executable, ExternalCommand};
use myshell::eval::{
    append_output, assemble, capture_io, exec_failure_status, next_pipeline, should_run,
    split_fields, substitution_at, tokens_of, Capture, EvalError, ARG_SIZE_LIMIT,
    SYNTAX_ERROR_STATUS,
};
use myshell::glob::{expand_pattern, EntryKind, GlobEntry, GlobWalk, PatternExpansion};
use myshell::io::{FdRead, FdWrite, Io};
use myshell::job::{Job, JobTable, WaitEvent, WaitOutcome};
use myshell::parser;
use myshell::pattern::{
    expand_tilde, has_wildcard, join_path, join_spaced, pattern_matches, split_pattern,
};
use myshell::shell::{decimal_bytes, Shell};
use myshell::terminal_size::{get_cols, get_rows, TerminalSize};

fn b(s: &str) -> Vec<u8> {
    s.as_bytes().to_vec()
}

fn bs(list: &[&str]) -> Vec<Vec<u8>> {
    list.iter().map(|s| b(s)).collect()
}

fn vars(list: &[(&str, &str)]) -> Vec<(Vec<u8>, Vec<u8>)> {
    list.iter().map(|(k, v)| (b(k), b(v))).collect()
}

// ---------------------------------------------------------------- patterns

#[test]
fn tilde_expansion() {
    assert_eq!(expand_tilde(b"~/src", Some(b"/home/me")), b("/home/me/src"));
    assert_eq!(expand_tilde(b"~", Some(b"/home/me")), b("/home/me"));
    assert_eq!(expand_tilde(b"a~", Some(b"/home/me")), b("a~"));
    assert_eq!(expand_tilde(b"", Some(b"/home/me")), b(""));
    // without a home directory the tilde stays
    assert_eq!(expand_tilde(b"~/src", None), b("~/src"));
}

#[test]
fn pattern_matching() {
    assert!(pattern_matches(b"", b""));
    assert!(!pattern_matches(b"", b"a"));
    assert!(pattern_matches(b"*", b""));
    assert!(pattern_matches(b"*", b"anything"));
    assert!(pattern_matches(b"*.rs", b"main.rs"));
    assert!(pattern_matches(b"*.rs", b".rs"));
    assert!(!pattern_matches(b"*.rs", b"main.rc"));
    assert!(pattern_matches(b"a*b*c", b"aXbYbZc"));
    assert!(!pattern_matches(b"a*b*c", b"aXbYbZ"));
    assert!(pattern_matches(b"abc", b"abc"));
    assert!(!pattern_matches(b"abc", b"abcd"));
    assert!(!pattern_matches(b"abc", b"ab"));
    assert!(pattern_matches(b"**", b"x"));
}

#[test]
fn pattern_without_star_is_itself() {
    for token in ["", "plain", "/usr/bin", "~x", "a b"] {
        assert!(!has_wildcard(token.as_bytes()));
        match expand_pattern(token.as_bytes()) {
            PatternExpansion::Plain(bytes) => assert_eq!(bytes, b(token)),
            PatternExpansion::Walk(_) => panic!("no walk without a star"),
        }
    }
    assert!(has_wildcard(b"a*"));
}

#[test]
fn pattern_segments_and_paths() {
    assert_eq!(split_pattern(b"src/*.rs"), bs(&["src", "*.rs"]));
    assert_eq!(split_pattern(b"/usr/*"), bs(&["usr", "*"]));
    assert_eq!(split_pattern(b"*"), bs(&["*"]));
    assert_eq!(split_pattern(b"a//b/"), bs(&["a", "", "b", ""]));
    assert_eq!(split_pattern(b""), Vec::<Vec<u8>>::new());
    assert_eq!(join_path(b".", b"x"), b("./x"));
    assert_eq!(join_path(b"/", b"x"), b("/x"));
    assert_eq!(join_path(b"./a", b"x"), b("./a/x"));
    assert_eq!(join_spaced(&bs(&["a", "b c", "d"])), b("a b c d"));
    assert_eq!(join_spaced(&bs(&["a"])), b("a"));
    assert_eq!(join_spaced(&Vec::new()), b(""));
}

fn entry(name: &str, kind: EntryKind) -> GlobEntry {
    GlobEntry { name: b(name), kind }
}

/// Drives a walk over a file system given as a function.
fn walk(pattern: &str, fs: &dyn Fn(&str) -> Option<Vec<GlobEntry>>) -> String {
    let mut w = match expand_pattern(pattern.as_bytes()) {
        PatternExpansion::Walk(w) => w,
        PatternExpansion::Plain(bytes) => return String::from_utf8(bytes).unwrap(),
    };
    let mut steps = 0;
    loop {
        let dir = match w.request() {
            Some(dir) => String::from_utf8(dir.clone()).unwrap(),
            None => break,
        };
        w.feed(fs(&dir));
        steps += 1;
        assert!(steps < 100);
    }
    String::from_utf8(w.finish()).unwrap()
}

fn tree(dir: &str) -> Option<Vec<GlobEntry>> {
    match dir {
        "." => Some(vec![
            entry(".", EntryKind::Directory),
            entry("src", EntryKind::Directory),
            entry("main.rs", EntryKind::File),
            entry("tests", EntryKind::Directory),
            entry("odd", EntryKind::Unknown),
            entry("locked", EntryKind::Directory),
        ]),
        "./src" => Some(vec![
            entry("lib.rs", EntryKind::File),
            entry("io", EntryKind::Directory),
            entry("env.rs", EntryKind::File),
        ]),
        "./src/io" => Some(vec![entry("mod.rs", EntryKind::File)]),
        "./tests" => Some(vec![entry("a.rs", EntryKind::File), entry("b.txt", EntryKind::File)]),
        "./." => Some(vec![]),
        "/" => Some(vec![entry("etc", EntryKind::Directory), entry("tmp", EntryKind::Directory)]),
        "/etc" => Some(vec![entry("passwd", EntryKind::File)]),
        _ => None,
    }
}

#[test]
fn glob_walk() {
    assert_eq!(walk("*.rs", &tree), "./main.rs");
    assert_eq!(walk("src/*.rs", &tree), "./src/lib.rs ./src/env.rs");
    assert_eq!(walk("*/*.rs", &tree), "./src/lib.rs ./src/env.rs ./tests/a.rs");
    assert_eq!(walk("*/*/*", &tree), "./src/io/mod.rs");
    assert_eq!(walk("s*", &tree), "./src");
    assert_eq!(walk("/*", &tree), "/etc /tmp");
    assert_eq!(walk("/etc/p*", &tree), "/etc/passwd");
    assert_eq!(walk("/tmp/*", &tree), "");
    assert_eq!(walk("nothing*", &tree), "");
    assert_eq!(walk("main.rs/*", &tree), "");
    assert_eq!(walk("locked/*", &tree), "");
    assert_eq!(walk("o*", &tree), "");
}

#[test]
fn glob_walk_asks_for_one_directory_at_a_time() {
    let mut w = GlobWalk::new(b"*/*.rs");
    assert_eq!(w.request(), Some(&b(".")));
    w.feed(tree("."));
    assert_eq!(w.request(), Some(&b("./.")));
    w.feed(tree("./."));
    assert_eq!(w.request(), Some(&b("./src")));
    w.feed(tree("./src"));
    assert_eq!(w.request(), Some(&b("./tests")));
    w.feed(tree("./tests"));
    assert_eq!(w.request(), Some(&b("./locked")));
    w.feed(None);
    assert_eq!(w.request(), None);
    assert_eq!(w.finish(), b("./src/lib.rs ./src/env.rs ./tests/a.rs"));
}

#[test]
fn glob_walk_finds_paths_as_it_goes() {
    let mut w = GlobWalk::new(b"*/*.rs");
    assert_eq!(w.finish(), b(""));
    w.feed(tree("."));
    assert_eq!(w.finish(), b(""));
    w.feed(tree("./."));
    assert_eq!(w.finish(), b(""));
    w.feed(tree("./src"));
    assert_eq!(w.finish(), b("./src/lib.rs ./src/env.rs"));
    w.feed(tree("./tests"));
    assert_eq!(w.finish(), b("./src/lib.rs ./src/env.rs ./tests/a.rs"));
    assert_eq!(w.request(), Some(&b("./locked")));

    let mut w = GlobWalk::new(b"*");
    w.feed(None);
    assert_eq!(w.request(), None);
    assert_eq!(w.finish(), b(""));
}

// ---------------------------------------------------------------- dictionary

#[test]
fn dict_operations() {
    let mut d: Dict<u32> = Dict::new();
    assert_eq!(d.len(), 0);
    assert_eq!(d.get(b"a"), None);
    d.insert(b("a"), 1);
    d.insert(b("b"), 2);
    d.insert(b("a"), 3);
    assert_eq!(d.len(), 2);
    assert_eq!(d.get(b"a"), Some(&3));
    assert_eq!(d.get(b"b"), Some(&2));
    assert_eq!(d.find(b"b"), Some(1));
    assert_eq!(d.key_at(0), &b("a"));
    assert_eq!(d.value_at(1), &2);
    assert!(d.contains_key(b"a"));
    d.remove(b"a");
    assert!(!d.contains_key(b"a"));
    assert_eq!(d.key_at(0), &b("b"));
    d.remove(b"zz");
    assert_eq!(d.len(), 1);
    d.clear();
    assert_eq!(d.len(), 0);
}

// ---------------------------------------------------------------- environment

#[test]
fn env_variables() {
    let mut env = Env::new(&vars(&[("HOME", "/home/me"), ("X", "env"), ("HOME", "/root")]));
    assert_eq!(env.get_env("HOME"), Some(&b("/root")));
    assert_eq!(env.get_env("NONE"), None);
    env.set_env("Y", b("1"));
    assert_eq!(env.get_env("Y"), Some(&b("1")));
    // a variable is the shell's, else the exported one, else empty
    assert_eq!(env.variable(b"X"), b("env"));
    env.set_var(b("X"), b("shell"));
    assert_eq!(env.variable(b"X"), b("shell"));
    assert_eq!(env.get_env("X"), Some(&b("env")));
    env.set_var(b("X"), b(""));
    assert_eq!(env.variable(b"X"), b(""));
    assert_eq!(env.variable(b"UNSET"), b(""));
    env.unset(b"X");
    assert_eq!(env.variable(b"X"), b(""));
    assert_eq!(env.get_env("X"), None);
}

#[test]
fn env_envp() {
    let env = Env::new(&vars(&[("A", "1"), ("B", ""), ("A", "x=y")]));
    assert_eq!(env.envp(), bs(&["A=x=y", "B="]));
}

fn external(name: &str, path: &str) -> ExternalCommand {
    ExternalCommand { name: b(name), path: b(path) }
}

#[test]
fn env_commands() {
    let mut env = Env::new(&vars(&[("PATH", "/bin:/usr/bin")]));
    assert_eq!(env.search_dirs(), Some(bs(&["/bin", "/usr/bin"])));
    assert_eq!(env.resolve(b"ls"), Executable::External(b("ls")));
    env.update_commands(&vec![
        external("ls", "/bin/ls"),
        external("cat", "/bin/cat"),
        external("ls", "/usr/bin/ls"),
        external("cd", "/usr/bin/cd"),
    ]);
    // the first program of a name wins, and a builtin wins over a program
    assert_eq!(env.resolve(b"ls"), Executable::External(b("/bin/ls")));
    assert_eq!(env.resolve(b"cat"), Executable::External(b("/bin/cat")));
    assert_eq!(env.resolve(b"cd"), Executable::Builtin(BuiltinKind::Cd));
    assert_eq!(env.resolve(b">"), Executable::Builtin(BuiltinKind::Overwrite));
    assert_eq!(env.resolve(b">>"), Executable::Builtin(BuiltinKind::Append));
    for (name, kind) in [
        ("args", BuiltinKind::Args),
        ("exit", BuiltinKind::Exit),
        ("jobs", BuiltinKind::Jobs),
        ("fg", BuiltinKind::Fg),
        ("alias", BuiltinKind::Alias),
        ("var", BuiltinKind::Var),
        ("evar", BuiltinKind::Evar),
        ("unset", BuiltinKind::Unset),
    ] {
        assert_eq!(env.resolve(name.as_bytes()), Executable::Builtin(kind));
    }
    assert_eq!(env.resolve(b"./a.out"), Executable::External(b("./a.out")));
    let names = env.list_commands();
    assert_eq!(names[..3], ["ls", "cat", "cd"]);
    assert_eq!(names.len(), 13);
    env.update_commands(&vec![]);
    assert_eq!(env.resolve(b"ls"), Executable::External(b("ls")));
    assert_eq!(env.list_commands().len(), 11);
}

#[test]
fn env_commands_without_path() {
    let mut env = Env::new(&vars(&[]));
    assert_eq!(env.search_dirs(), None);
    env.update_commands(&vec![external("ls", "/bin/ls")]);
    // the builtins are there all the same, the programs are not
    assert_eq!(env.list_commands().len(), 11);
    assert_eq!(env.resolve(b"cd"), Executable::Builtin(BuiltinKind::Cd));
    assert_eq!(env.resolve(b"ls"), Executable::External(b("ls")));
    let mut env = Env::new(&vars(&[("PATH", "")]));
    assert_eq!(env.search_dirs(), Some(bs(&[""])));
    env.update_commands(&vec![]);
    assert_eq!(env.list_commands().len(), 11);
    let env = Env::new(&vars(&[("PATH", ":/bin:")]));
    assert_eq!(env.search_dirs(), Some(bs(&["", "/bin", ""])));
}

#[test]
fn env_list_commands_skips_names_that_are_no_text() {
    let mut env = Env::new(&vars(&[("PATH", "/bin")]));
    env.update_commands(&vec![
        ExternalCommand { name: vec![0xff, 0xfe], path: b("/bin/odd") },
        external("ok", "/bin/ok"),
    ]);
    let names = env.list_commands();
    assert_eq!(names[0], "ok");
    assert_eq!(names.len(), 12);
}

#[test]
fn env_aliases() {
    let mut env = Env::new(&vars(&[]));
    env.set_alias(b("g"), bs(&["echo", "hi"]));
    assert_eq!(env.expand_alias(bs(&["g"])), bs(&["echo", "hi"]));
    assert_eq!(env.expand_alias(bs(&["g", "there", "g"])), bs(&["echo", "hi", "there", "g"]));
    assert_eq!(env.expand_alias(bs(&["echo", "g"])), bs(&["echo", "g"]));
    assert_eq!(env.expand_alias(Vec::new()), Vec::<Vec<u8>>::new());
    let aliases = env.alias_entries();
    assert_eq!(aliases.len(), 1);
    assert_eq!(aliases[0].name, b("g"));
    assert_eq!(aliases[0].values, bs(&["echo", "hi"]));
}

// ---------------------------------------------------------------- descriptors

#[test]
fn io_triple() {
    let io = Io::stdio();
    assert_eq!(io, Io { input: FdRead(0), output: FdWrite(1), error: FdWrite(2) });
    assert_eq!(io.set_input(FdRead(7)).input, FdRead(7));
    assert_eq!(io.set_output(FdWrite(8)).output, FdWrite(8));
    assert_eq!(io.set_error(FdWrite(9)).error, FdWrite(9));
    assert_eq!(io.set_error(FdWrite(9)).output, FdWrite(1));
    let (r, w) = (FdRead(5), FdWrite(6));
    assert_eq!(
        io.connect(Pipe::Stdout, r, w),
        (Io { output: w, ..io }, Io { input: r, ..io })
    );
    assert_eq!(
        io.connect(Pipe::Stderr, r, w),
        (Io { error: w, ..io }, Io { input: r, ..io })
    );
    assert_eq!(
        io.connect(Pipe::Both, r, w),
        (Io { output: w, error: w, ..io }, Io { input: r, ..io })
    );
    assert_eq!(capture_io(Capture::Stdout, w), Io { output: w, ..io });
    assert_eq!(capture_io(Capture::Stderr, w), Io { error: w, ..io });
    assert_eq!(capture_io(Capture::Both, w), Io { output: w, error: w, ..io });
}

// ---------------------------------------------------------------- jobs

#[test]
fn job_states() {
    let mut job = Job::new(true, 100);
    assert_eq!(job.pgid(), None);
    assert!(job.interactive());
    // without processes a job is over and not stopped
    assert!(job.is_completed());
    assert!(!job.is_stopped());
    assert_eq!(job.group_for(41), 41);
    job.add_process(41);
    job.add_process(42);
    assert_eq!(job.pgid(), Some(41));
    assert_eq!(job.group_for(43), 41);
    assert!(!job.is_completed());
    assert!(!job.is_stopped());
    let job = Job::new(false, 100);
    assert_eq!(job.pgid(), Some(100));
    assert!(!job.interactive());
    assert_eq!(job.last_status(), None);
    let mut job = Job::new(true, 100);
    job.finish_builtin(3, 100);
    assert_eq!((job.pgid(), job.last_status()), (Some(100), Some(3)));
    let mut job = Job::new(true, 100);
    job.add_process(7);
    job.finish_builtin(0, 100);
    assert_eq!((job.pgid(), job.last_status()), (Some(7), Some(0)));
}

fn table_with(pids: &[i32]) -> (JobTable, i32) {
    let mut job = Job::new(true, 1);
    for pid in pids {
        job.add_process(*pid);
    }
    let mut table = JobTable::new();
    let pgid = table.insert(job).ok().unwrap();
    (table, pgid)
}

#[test]
fn job_table_wait_until_over() {
    let (mut table, pgid) = table_with(&[10, 11]);
    assert_eq!(pgid, 10);
    assert_eq!(table.len(), 1);
    assert!(table.contains(10));
    assert_eq!(table.poll(10), WaitOutcome::Wait);
    assert!(table.mark_process_status(WaitEvent::Exited { pid: 11, status: 0 }));
    assert_eq!(table.poll(10), WaitOutcome::Wait);
    assert!(table.mark_process_status(WaitEvent::Signaled { pid: 10, signal: 9 }));
    // a job that is over leaves the table
    assert_eq!(table.poll(10), WaitOutcome::Done(137));
    assert!(table.is_empty());
    assert_eq!(table.poll(10), WaitOutcome::Broken);
    assert!(!table.mark_process_status(WaitEvent::Exited { pid: 10, status: 0 }));
}

#[test]
fn job_table_stopped_job_stays() {
    let (mut table, _) = table_with(&[10, 11]);
    assert!(table.mark_process_status(WaitEvent::Exited { pid: 10, status: 2 }));
    assert!(table.mark_process_status(WaitEvent::Stopped { pid: 11, signal: 20 }));
    assert_eq!(table.poll(10), WaitOutcome::Done(148));
    assert_eq!(table.len(), 1);
    assert!(table.is_stopped(10));
    assert_eq!(table.first_stopped(), Some(10));
    // fg: the processes run again
    assert!(table.resume(10));
    assert!(!table.is_stopped(10));
    assert_eq!(table.first_stopped(), None);
    assert_eq!(table.poll(10), WaitOutcome::Wait);
    assert!(table.mark_process_status(WaitEvent::Exited { pid: 11, status: 5 }));
    assert_eq!(table.poll(10), WaitOutcome::Done(5));
    assert!(table.is_empty());
    assert!(!table.resume(10));
}

#[test]
fn job_table_builtin_job() {
    let mut job = Job::new(true, 1);
    job.finish_builtin(4, 1);
    let mut table = JobTable::new();
    assert_eq!(table.insert(job).ok(), Some(1));
    assert_eq!(table.pgid_at(0), Some(1));
    assert_eq!(table.poll(1), WaitOutcome::Done(4));
    assert!(table.is_empty());
    // a job without a process group does not enter the table
    assert!(table.insert(Job::new(true, 1)).is_err());
    assert!(table.is_empty());
    // a job without a status cannot be waited for
    let mut job = Job::new(false, 1);
    assert!(job.pgid().is_some());
    job.add_process(1);
    let mut table = JobTable::new();
    table.insert(Job::new(false, 9)).ok().unwrap();
    assert_eq!(table.poll(9), WaitOutcome::Broken);
}

#[test]
fn job_table_same_group_replaces() {
    let (mut table, _) = table_with(&[10]);
    let mut other = Job::new(false, 10);
    other.add_process(30);
    assert_eq!(table.insert(other).ok(), Some(10));
    assert_eq!(table.len(), 1);
    assert!(!table.mark_process_status(WaitEvent::Exited { pid: 10, status: 0 }));
    assert!(table.mark_process_status(WaitEvent::Exited { pid: 30, status: 0 }));
    assert!(table.take_termios(10).is_none());
    assert!(table.take_termios(99).is_none());
}

/// Terminal settings that differ in their input flags.
fn settings(input_flags: u32) -> nix::sys::termios::Termios {
    nix::sys::termios::Termios::from(nix::libc::termios {
        c_iflag: input_flags,
        c_oflag: 0,
        c_cflag: 0,
        c_lflag: 0,
        c_line: 0,
        c_cc: [0; nix::libc::NCCS],
        c_ispeed: 0,
        c_ospeed: 0,
    })
}

#[test]
fn job_table_keeps_terminal_settings() {
    let (mut table, _) = table_with(&[10]);
    // what is taken is what was saved last
    assert!(table.save_termios(10, settings(1)).is_none());
    assert!(table.save_termios(10, settings(2)).is_none());
    let taken = table.take_termios(10).expect("settings were saved");
    assert_eq!(taken.input_flags.bits(), 2);
    // and it is taken once
    assert!(table.take_termios(10).is_none());
    // without the job the settings come back
    let back = table.save_termios(99, settings(4)).expect("no such job");
    assert_eq!(back.input_flags.bits(), 4);
    assert!(table.take_termios(99).is_none());
}

// ---------------------------------------------------------------- evaluation

#[test]
fn statuses() {
    assert_eq!(exec_failure_status(true), 127);
    assert_eq!(exec_failure_status(false), 126);
    assert_eq!(SYNTAX_ERROR_STATUS, 127);
    assert_eq!(ARG_SIZE_LIMIT, 2 * 1024 * 1024);
    assert_eq!(Shell::parse("echo 'open").err(), Some(127));
    assert!(Shell::parse("echo ok").is_ok());
}

#[test]
fn list_conditions() {
    assert!(should_run(Condition::Always, 0));
    assert!(should_run(Condition::Always, 1));
    assert!(should_run(Condition::IfSuccess, 0));
    assert!(!should_run(Condition::IfSuccess, 1));
    assert!(!should_run(Condition::IfError, 0));
    assert!(should_run(Condition::IfError, 130));
}

/// The pipelines of a list that run when the pipeline `i` ends with
/// `statuses[i]`.
fn run_order(line: &str, statuses: &[i32]) -> Vec<usize> {
    let list: Box<List> = parser::toplevel(line).unwrap();
    let mut order = Vec::new();
    let mut last = 0;
    let mut done = 0;
    while let Some(i) = next_pipeline(&list, done, last) {
        order.push(i);
        last = statuses[i];
        done = i + 1;
    }
    order
}

#[test]
fn list_runs_until_a_condition_fails() {
    assert_eq!(run_order("echo foo bar", &[0]), vec![0]);
    assert_eq!(run_order("true || echo x", &[0, 0]), vec![0]);
    assert_eq!(run_order("false || echo x", &[1, 0]), vec![0, 1]);
    assert_eq!(run_order("true && echo x", &[0, 0]), vec![0, 1]);
    assert_eq!(run_order("a ; b ; c", &[1, 1, 1]), vec![0, 1, 2]);
    // the first condition that fails ends the list
    assert_eq!(run_order("false && echo x ; echo y", &[1, 0, 0]), vec![0]);
    assert_eq!(run_order("true || a ; b", &[0, 0, 0]), vec![0]);
    assert_eq!(run_order("a && b || c && d", &[0, 3, 0, 0]), vec![0, 1, 2, 3]);
}

#[test]
fn substitution_output_is_collapsed() {
    let mut buf = b("x=");
    append_output(&mut buf, b"a  b\n\tc\n");
    assert_eq!(buf, b("x=a b c"));
    let mut buf = b("a ");
    append_output(&mut buf, b" b");
    assert_eq!(buf, b("a b"));
    let mut buf = b("a ");
    append_output(&mut buf, b"");
    assert_eq!(buf, b("a"));
    let mut buf = b("");
    append_output(&mut buf, b"\n");
    assert_eq!(buf, b(""));
    let mut buf = b("");
    append_output(&mut buf, b"a\rb");
    assert_eq!(buf, b("a\rb"));
}

fn parts(text: &str) -> Vec<StrPart> {
    parser::string(text).unwrap()
}

#[test]
fn strings_are_assembled() {
    let mut env = Env::new(&vars(&[("X", "env"), ("Y", "why")]));
    env.set_var(b("X"), b("shell"));
    let none: Vec<Vec<u8>> = Vec::new();
    assert_eq!(assemble(&parts("plain"), &env, &none), Ok(b("plain")));
    assert_eq!(assemble(&parts("$X"), &env, &none), Ok(b("shell")));
    assert_eq!(assemble(&parts("${Y}"), &env, &none), Ok(b("why")));
    assert_eq!(assemble(&parts("$Z"), &env, &none), Ok(b("")));
    assert_eq!(assemble(&parts("\"a $X/${Y}あ\""), &env, &none), Ok(b("a shell/whyあ")));
    assert_eq!(
        assemble(&parts("\"<$(a)|$!(b)>\""), &env, &bs(&["1\n2\n", " x "])),
        Ok(b("<1 2| x>"))
    );
    assert_eq!(
        assemble(&parts("$(a)$(b)"), &env, &bs(&["1\n"])),
        Err(EvalError::MissingOutput)
    );
    assert_eq!(assemble(&parts("a=(b)"), &env, &none), Err(EvalError::Unsupported));
    assert_eq!(assemble(&parts("?(b)"), &env, &bs(&["x"])), Err(EvalError::Unsupported));
    assert_eq!(assemble(&Vec::new(), &env, &none), Ok(b("")));
}

#[test]
fn substitutions_of_a_string() {
    let p = parts("\"a$(x)$Y$!(y)$&(z)\"");
    assert_eq!(p.len(), 5);
    assert!(substitution_at(&p, 0).is_none());
    assert_eq!(substitution_at(&p, 1).map(|s| s.0), Some(Capture::Stdout));
    assert!(substitution_at(&p, 2).is_none());
    assert_eq!(substitution_at(&p, 3).map(|s| s.0), Some(Capture::Stderr));
    assert_eq!(substitution_at(&p, 4).map(|s| s.0), Some(Capture::Both));
    let (_, list) = substitution_at(&p, 3).unwrap();
    assert_eq!(Some(list), parser::list("y").ok().as_deref());
    let q = parts("=(x)");
    assert!(matches!(q[0], StrPart::Expansion(Expansion::SubstPipeName(_))));
    assert!(substitution_at(&q, 0).is_none());
}

#[test]
fn arguments_become_tokens() {
    assert_eq!(split_fields(b" a  b\tc\nd "), bs(&["a", "b", "c", "d"]));
    assert_eq!(split_fields(b""), Vec::<Vec<u8>>::new());
    assert_eq!(split_fields(b" \n"), Vec::<Vec<u8>>::new());
    assert_eq!(split_fields(b"a\rb"), bs(&["a\rb"]));
    let arg = Arguments::Arg(parts("x"));
    let at = Arguments::AtExpansion(parts("x"));
    assert_eq!(tokens_of(&arg, b("a b")), bs(&["a b"]));
    assert_eq!(tokens_of(&arg, b("")), bs(&[""]));
    assert_eq!(tokens_of(&at, b("a b")), bs(&["a", "b"]));
    assert_eq!(tokens_of(&at, b("")), Vec::<Vec<u8>>::new());
}

// ---------------------------------------------------------------- shell and builtins

fn shell() -> Shell {
    let mut sh = Shell::new(1, &vars(&[("HOME", "/home/me"), ("PATH", "/bin")]), Some(b("/start")));
    sh.env.update_commands(&vec![]);
    sh
}

fn message(r: &Reply) -> &str {
    match &r.action {
        Action::Complain(m) => m,
        _ => panic!("no complaint"),
    }
}

#[test]
fn shell_state() {
    let mut sh = shell();
    assert_eq!(sh.jobs(), 0);
    assert_eq!(sh.shell_pgid, 1);
    assert_eq!(sh.env.get_env("PWD"), Some(&b("/start")));
    assert_eq!(sh.list_commands().len(), 11);
    sh.update_variables(24, 80);
    assert_eq!(sh.env.get_env("LINES"), Some(&b("24")));
    assert_eq!(sh.env.get_env("COLUMNS"), Some(&b("80")));
    sh.update_variables(0, 65535);
    assert_eq!(sh.env.get_env("LINES"), Some(&b("0")));
    assert_eq!(sh.env.get_env("COLUMNS"), Some(&b("65535")));
    assert_eq!(decimal_bytes(1203), b("1203"));
    let sh = Shell::new(1, &vars(&[]), None);
    assert_eq!(sh.env.get_env("PWD"), None);
    let size = TerminalSize { rows: 3, cols: 4 };
    assert_eq!((get_rows(&size), get_cols(&size)), (3, 4));
}

#[test]
fn builtin_args_lists_arguments() {
    let r = builtin_args(&bs(&["args", "a", "b c"]));
    assert_eq!(r.status, 0);
    assert!(matches!(r.action, Action::PrintArgs(a) if a == bs(&["a", "b c"])));
    assert!(matches!(builtin_args(&bs(&["args"])).action, Action::PrintArgs(a) if a.is_empty()));
    assert!(matches!(builtin_args(&Vec::new()).action, Action::PrintArgs(a) if a.is_empty()));
}

#[test]
fn builtin_exit_needs_no_jobs() {
    let mut sh = shell();
    let r = builtin_exit(&sh);
    assert_eq!(r.status, 0);
    assert!(matches!(r.action, Action::Exit));
    let mut job = Job::new(true, 1);
    job.add_process(12);
    sh.jobs.insert(job).ok().unwrap();
    let mut job = Job::new(true, 1);
    job.add_process(13);
    sh.jobs.insert(job).ok().unwrap();
    let r = builtin_exit(&sh);
    assert_eq!(r.status, 1);
    assert_eq!(message(&r), "exit: you have 2 pending jobs.");
    let r = builtin_jobs(&sh);
    assert_eq!(r.status, 0);
    assert!(matches!(r.action, Action::PrintJobs(p) if p == vec![12, 13]));
}

#[test]
fn builtin_alias_sets_and_lists() {
    let mut sh = shell();
    let r = builtin_alias(&mut sh, &bs(&["alias", "g", "=", "echo", "hi"]));
    assert_eq!(r.status, 0);
    assert!(matches!(r.action, Action::Nothing));
    assert_eq!(sh.env.expand_alias(bs(&["g", "x"])), bs(&["echo", "hi", "x"]));
    let r = builtin_alias(&mut sh, &bs(&["alias"]));
    assert_eq!(r.status, 0);
    match r.action {
        Action::PrintAliases(l) => {
            assert_eq!(l.len(), 1);
            assert_eq!((l[0].name.clone(), l[0].values.clone()), (b("g"), bs(&["echo", "hi"])));
        }
        _ => panic!("the aliases are listed"),
    }
    for bad in [
        bs(&["alias", "g"]),
        bs(&["alias", "g", "="]),
        bs(&["alias", "g", "echo", "hi"]),
        Vec::new(),
    ] {
        let r = builtin_alias(&mut sh, &bad);
        assert_eq!(r.status, 1);
        assert_eq!(message(&r), "alias: invalid assignment");
    }
}

#[test]
fn builtin_var_and_evar() {
    let mut sh = shell();
    assert_eq!(builtin_var(&mut sh, &bs(&["var", "X", "=", "hello"])).status, 0);
    assert_eq!(sh.env.variable(b"X"), b("hello"));
    assert_eq!(sh.env.get_env("X"), None);
    assert_eq!(builtin_evar(&mut sh, &bs(&["evar", "E", "=", "1"])).status, 0);
    assert_eq!(sh.env.get_env("E"), Some(&b("1")));
    match builtin_var(&mut sh, &bs(&["var"])).action {
        Action::PrintVars(l) => {
            assert_eq!(l.len(), 1);
            assert_eq!((l[0].name.clone(), l[0].value.clone()), (b("X"), b("hello")));
        }
        _ => panic!("the variables are listed"),
    }
    match builtin_evar(&mut sh, &bs(&["evar"])).action {
        Action::PrintVars(l) => {
            let names: Vec<Vec<u8>> = l.iter().map(|e| e.name.clone()).collect();
            assert_eq!(names, bs(&["HOME", "PATH", "PWD", "E"]));
        }
        _ => panic!("the variables are listed"),
    }
    let r = builtin_var(&mut sh, &bs(&["var", "X", "=", "a", "b"]));
    assert_eq!((r.status, message(&r)), (1, "var: invalid assignment"));
    let r = builtin_evar(&mut sh, &bs(&["evar", "X", "a"]));
    assert_eq!((r.status, message(&r)), (1, "evar: invalid assignment"));
    let r = builtin_unset(&mut sh, &bs(&["unset", "X", "E", "none"]));
    assert_eq!(r.status, 0);
    assert_eq!(sh.env.variable(b"X"), b(""));
    assert_eq!(sh.env.get_env("E"), None);
    assert_eq!(builtin_unset(&mut sh, &Vec::new()).status, 0);
    assert_eq!(sh.env.get_env("HOME"), Some(&b("/home/me")));
}

fn target(r: &Reply) -> Vec<u8> {
    match &r.action {
        Action::Chdir(t) => t.clone(),
        _ => panic!("no directory to change to"),
    }
}

/// `cd` with a system in which every directory can be entered.
fn cd(sh: &mut Shell, cwd: &mut Vec<u8>, args: &[&str]) -> i32 {
    let args = bs(args);
    let old = cwd.clone();
    let r = builtin_cd(sh, &args, Some(&old));
    match r.action {
        Action::Chdir(t) => {
            *cwd = t.clone();
            finish_cd(sh, cd_op(&args), Some(&old), t, None, cwd.clone()).status
        }
        _ => r.status,
    }
}

#[test]
fn builtin_cd_targets() {
    let mut sh = shell();
    assert_eq!(target(&builtin_cd(&mut sh, &bs(&["cd"]), None)), b("/home/me"));
    assert_eq!(target(&builtin_cd(&mut sh, &bs(&["cd", "/tmp", "x"]), None)), b("/tmp"));
    sh.env.unset(b"HOME");
    assert_eq!(target(&builtin_cd(&mut sh, &bs(&["cd"]), None)), b("."));
    assert!(matches!(cd_op(&bs(&["cd", "-"])), CdOp::Undo));
    assert!(matches!(cd_op(&bs(&["cd", "+"])), CdOp::Redo));
    assert!(matches!(cd_op(&bs(&["cd", "--"])), CdOp::Chdir));
    assert!(matches!(cd_op(&bs(&["cd"])), CdOp::Chdir));
}

#[test]
fn builtin_cd_keeps_a_history() {
    let mut sh = shell();
    let mut cwd = b("/start");
    assert_eq!(cd(&mut sh, &mut cwd, &["cd", "-"]), 2);
    assert_eq!(cd(&mut sh, &mut cwd, &["cd", "+"]), 2);
    assert_eq!(cd(&mut sh, &mut cwd, &["cd", "/a"]), 0);
    assert_eq!(cd(&mut sh, &mut cwd, &["cd", "/b"]), 0);
    assert_eq!(sh.env.get_env("PWD"), Some(&b("/b")));
    assert_eq!(sh.env.get_env("OLDPWD"), Some(&b("/a")));
    assert_eq!(sh.cd_undo_stack, bs(&["/start", "/a"]));
    assert_eq!(cd(&mut sh, &mut cwd, &["cd", "-"]), 0);
    assert_eq!(cwd, b("/a"));
    assert_eq!(cd(&mut sh, &mut cwd, &["cd", "-"]), 0);
    assert_eq!(cwd, b("/start"));
    assert_eq!(sh.env.get_env("PWD"), Some(&b("/start")));
    assert_eq!(sh.env.get_env("OLDPWD"), Some(&b("/a")));
    assert_eq!(sh.cd_redo_stack, bs(&["/b", "/a"]));
    assert_eq!(cd(&mut sh, &mut cwd, &["cd", "-"]), 2);
    assert_eq!(cd(&mut sh, &mut cwd, &["cd", "+"]), 0);
    assert_eq!(cwd, b("/a"));
    assert_eq!(sh.cd_undo_stack, bs(&["/start"]));
    // a new directory forgets what could be redone
    assert_eq!(cd(&mut sh, &mut cwd, &["cd", "/c"]), 0);
    assert!(sh.cd_redo_stack.is_empty());
    assert_eq!(cd(&mut sh, &mut cwd, &["cd", "+"]), 2);
}

#[test]
fn builtin_cd_failure() {
    let mut sh = shell();
    let r = builtin_cd(&mut sh, &bs(&["cd", "/none"]), Some(&b("/start")));
    let t = target(&r);
    let r = finish_cd(&mut sh, CdOp::Chdir, Some(&b("/start")), t, Some("No such file"), b(""));
    assert_eq!((r.status, message(&r)), (1, "cd: No such file"));
    assert_eq!(sh.env.get_env("PWD"), Some(&b("/start")));
    assert!(sh.cd_undo_stack.is_empty());
    // without a current directory nothing is noted of the one left
    let r = builtin_cd(&mut sh, &bs(&["cd", "/x"]), None);
    let t = target(&r);
    assert_eq!(finish_cd(&mut sh, CdOp::Chdir, None, t, None, b("/real/x")).status, 0);
    assert_eq!(sh.env.get_env("PWD"), Some(&b("/real/x")));
    assert_eq!(sh.env.get_env("OLDPWD"), None);
    assert!(sh.cd_undo_stack.is_empty());
}

#[test]
fn builtin_fg_chooses_a_job() {
    let mut sh = shell();
    let r = builtin_fg(&sh, &bs(&["fg"]));
    assert_eq!((r.status, message(&r)), (1, "fg: you have no suspended job"));
    let r = builtin_fg(&sh, &bs(&["fg", "12"]));
    assert_eq!(
        (r.status, message(&r)),
        (1, "fg: no such job is found\nfg: usage: fg <pgid>")
    );
    for pid in [12, 13] {
        let mut job = Job::new(true, 1);
        job.add_process(pid);
        sh.jobs.insert(job).ok().unwrap();
    }
    assert_eq!(builtin_fg(&sh, &bs(&["fg"])).status, 1);
    sh.jobs.mark_process_status(WaitEvent::Stopped { pid: 13, signal: 20 });
    assert!(matches!(builtin_fg(&sh, &bs(&["fg"])).action, Action::Foreground(13)));
    assert!(matches!(builtin_fg(&sh, &bs(&["fg", "12"])).action, Action::Foreground(12)));
    assert!(matches!(builtin_fg(&sh, &bs(&["fg", "+13"])).action, Action::Foreground(13)));
    for bad in ["14", "x", "", "12 "] {
        assert_eq!(builtin_fg(&sh, &bs(&["fg", bad])).status, 1);
    }
    assert_eq!(builtin_fg(&sh, &vec![b("fg"), vec![0xff]]).status, 1);
}

#[test]
fn builtin_redirections() {
    let r = builtin_append(&bs(&[">>", "out.txt"]));
    assert_eq!(r.status, 0);
    assert!(
        matches!(r.action, Action::Redirect { path, append } if path == b("out.txt") && append)
    );
    let r = builtin_overwrite(&bs(&[">", "out.txt"]));
    assert!(
        matches!(r.action, Action::Redirect { path, append } if path == b("out.txt") && !append)
    );
    let r = builtin_append(&bs(&[">>"]));
    assert_eq!((r.status, message(&r)), (1, ">>: takes 1 argument"));
    let r = builtin_overwrite(&bs(&[">", "a", "b"]));
    assert_eq!((r.status, message(&r)), (1, ">: takes 1 argument"));
    let r = redirect_failed(true, "Permission denied");
    assert_eq!((r.status, message(&r)), (2, ">>: Permission denied"));
    let r = redirect_failed(false, "Is a directory");
    assert_eq!((r.status, message(&r)), (2, ">: Is a directory"));
}
