//! What the execution engine decides and computes between its system calls:
//! which pipeline of a list runs, what a string expands to once the outputs of
//! its substitutions are known, and how an argument becomes tokens.

use vstd::prelude::*;
use vstd::utf8::encode_utf8;
use crate::ast::{
    part_views, Arguments, ArgumentsView, Condition, Expansion, ExpansionView, List, StrPart,
    StrPartView,
};
use crate::env::{variable_value, Env};
use crate::io::{FdWrite, Io};
use crate::pattern::{byte_views, push_bytes};

verus! {

/// The most that is read of the output of a substitution, in bytes.
pub const ARG_SIZE_LIMIT: u64 = 0x200000;

/// The status of a line that the grammar does not accept.
pub const SYNTAX_ERROR_STATUS: i32 = 127;

/// The status of a child that could not start its program: 127 where there
/// is no such program, else 126.
pub fn exec_failure_status(not_found: bool) -> (r: i32)
    ensures
        r == if not_found {
            127i32
        } else {
            126i32
        },
{
    if not_found {
        127
    } else {
        126
    }
}

/// Whether the pipeline behind a condition runs after a status: always
/// behind `;`, after success behind `&&`, after failure behind `||`.
pub open spec fn runs_after(cond: Condition, last_status: i32) -> bool {
    match cond {
        Condition::Always => true,
        Condition::IfSuccess => last_status == 0,
        Condition::IfError => last_status != 0,
    }
}

pub fn should_run(cond: Condition, last_status: i32) -> (r: bool)
    ensures
        r == runs_after(cond, last_status),
{
    match cond {
        Condition::Always => true,
        Condition::IfSuccess => last_status == 0,
        Condition::IfError => last_status != 0,
    }
}

/// The pipeline of a list that runs after `done` of them have run, the last
/// with `last_status`: the first one at the start; the next one if its
/// condition holds; none where the condition fails or the list is over. The
/// first condition that fails ends the list.
pub open spec fn next_of(conditions: Seq<Condition>, done: int, last_status: i32) -> Option<int> {
    if done == 0 {
        Some(0int)
    } else if 1 <= done <= conditions.len() && runs_after(conditions[done - 1], last_status) {
        Some(done)
    } else {
        None
    }
}

/// The conditions of the pipelines that follow the first one.
pub open spec fn conditions_of(list: List) -> Seq<Condition> {
    list.following@.map_values(|p: (Condition, crate::ast::Pipeline)| p.0)
}

/// The index of the pipeline to run next: 0 for the first one, `i` for
/// `following[i - 1]`.
pub fn next_pipeline(list: &List, done: usize, last_status: i32) -> (r: Option<usize>)
    ensures
        match next_of(conditions_of(*list), done as int, last_status) {
            Some(i) => r == Some(i as usize),
            None => r is None,
        },
{
    if done == 0 {
        Some(0)
    } else if done <= list.following.len() && should_run(list.following[done - 1].0, last_status) {
        Some(done)
    } else {
        None
    }
}

/// Whether a byte of a substitution's output is a blank: space, newline or
/// tab.
pub open spec fn is_blank_byte(b: u8) -> bool {
    b == 0x20 || b == 0x0a || b == 0x09
}

/// The buffer after one byte of output: a blank becomes a space unless a
/// space stands there already.
pub open spec fn collapse_step(buf: Seq<u8>, b: u8) -> Seq<u8> {
    if is_blank_byte(b) {
        if buf.len() > 0 && buf.last() == 0x20 {
            buf
        } else {
            buf.push(0x20)
        }
    } else {
        buf.push(b)
    }
}

/// The buffer after the first `n` bytes of output.
pub open spec fn collapse_read(buf: Seq<u8>, output: Seq<u8>, n: int) -> Seq<u8>
    decreases n,
{
    if n <= 0 || n > output.len() {
        buf
    } else {
        collapse_step(collapse_read(buf, output, n - 1), output[n - 1])
    }
}

/// The buffer after the output of a substitution: runs of blanks become one
/// space, and a space at the end goes.
pub open spec fn substituted(buf: Seq<u8>, output: Seq<u8>) -> Seq<u8> {
    let r = collapse_read(buf, output, output.len() as int);
    if r.len() > 0 && r.last() == 0x20 {
        r.drop_last()
    } else {
        r
    }
}

/// Appends the output of a substitution to the buffer.
pub fn append_output(buf: &mut Vec<u8>, output: &[u8])
    ensures
        final(buf)@ == substituted(old(buf)@, output@),
{
    let mut i: usize = 0;
    while i < output.len()
        invariant
            i <= output.len(),
            buf@ == collapse_read(old(buf)@, output@, i as int),
        decreases output.len() - i,
    {
        let b = output[i];
        if b == 0x20 || b == 0x0a || b == 0x09 {
            if !(buf.len() > 0 && buf[buf.len() - 1] == 0x20) {
                buf.push(0x20);
            }
        } else {
            buf.push(b);
        }
        i += 1;
    }
    if buf.len() > 0 && buf[buf.len() - 1] == 0x20 {
        buf.pop();
    }
}

/// Which streams of a substitution are captured.
#[derive(Debug, Clone, Copy, PartialEq, Eq, Structural)]
pub enum Capture {
    Stdout,
    Stderr,
    Both,
}

/// Why a string has no value.
#[derive(Debug, Clone, Copy, PartialEq, Eq, Structural)]
pub enum EvalError {
    /// The string holds `=(..)` or `?(..)`, which have no meaning yet.
    Unsupported,
    /// Fewer outputs were given than the string has substitutions.
    MissingOutput,
}

/// The descriptors of a substitution's child: those of the shell, with the
/// captured streams going to the pipe.
pub fn capture_io(capture: Capture, write: FdWrite) -> (r: Io)
    ensures
        r == match capture {
            Capture::Stdout => Io { output: write, ..Io { input: crate::io::FdRead(0), output: FdWrite(1), error: FdWrite(2) } },
            Capture::Stderr => Io { error: write, ..Io { input: crate::io::FdRead(0), output: FdWrite(1), error: FdWrite(2) } },
            Capture::Both => Io { input: crate::io::FdRead(0), output: write, error: write },
        },
{
    match capture {
        Capture::Stdout => Io::stdio().set_output(write),
        Capture::Stderr => Io::stdio().set_error(write),
        Capture::Both => Io::stdio().set_output(write).set_error(write),
    }
}

/// The substitution that a part of a string is: what it captures and the
/// list that runs.
pub open spec fn substitution_of(part: StrPart) -> Option<(Capture, List)> {
    match part {
        StrPart::Expansion(Expansion::SubstStdout(l)) => Some((Capture::Stdout, *l)),
        StrPart::Expansion(Expansion::SubstStderr(l)) => Some((Capture::Stderr, *l)),
        StrPart::Expansion(Expansion::SubstBoth(l)) => Some((Capture::Both, *l)),
        _ => None,
    }
}

/// The substitution at a part of a string: what it captures and the list to
/// run. `None` for a part that runs nothing.
pub fn substitution_at(parts: &Vec<StrPart>, i: usize) -> (r: Option<(Capture, &List)>)
    requires
        i < parts@.len(),
    ensures
        match substitution_of(parts@[i as int]) {
            Some((c, l)) => r == Some((c, &l)),
            None => r is None,
        },
{
    match &parts[i] {
        StrPart::Expansion(Expansion::SubstStdout(l)) => Some((Capture::Stdout, &**l)),
        StrPart::Expansion(Expansion::SubstStderr(l)) => Some((Capture::Stderr, &**l)),
        StrPart::Expansion(Expansion::SubstBoth(l)) => Some((Capture::Both, &**l)),
        _ => None,
    }
}

/// The buffer after one part of a string, and how many outputs are used:
/// literal text stands for its bytes, a variable for its value, a
/// substitution for the next output.
pub open spec fn part_value(
    part: StrPartView,
    shell_vars: Map<Seq<u8>, Seq<u8>>,
    env_vars: Map<Seq<u8>, Seq<u8>>,
    outputs: Seq<Seq<u8>>,
    buf: Seq<u8>,
    used: int,
) -> Result<(Seq<u8>, int), EvalError> {
    match part {
        StrPartView::Chars(text) => Ok((buf + encode_utf8(text), used)),
        StrPartView::Expansion(e) => match e {
            ExpansionView::Variable { name } => Ok(
                (buf + variable_value(shell_vars, env_vars, encode_utf8(name)), used),
            ),
            ExpansionView::SubstPipeName(_) => Err(EvalError::Unsupported),
            ExpansionView::SubstStatus(_) => Err(EvalError::Unsupported),
            _ => if 0 <= used < outputs.len() {
                Ok((substituted(buf, outputs[used]), used + 1))
            } else {
                Err(EvalError::MissingOutput)
            },
        },
    }
}

/// The buffer after the first `n` parts of a string.
pub open spec fn assembled(
    parts: Seq<StrPartView>,
    n: int,
    shell_vars: Map<Seq<u8>, Seq<u8>>,
    env_vars: Map<Seq<u8>, Seq<u8>>,
    outputs: Seq<Seq<u8>>,
) -> Result<(Seq<u8>, int), EvalError>
    decreases n,
{
    if n <= 0 || n > parts.len() {
        Ok((seq![], 0int))
    } else {
        match assembled(parts, n - 1, shell_vars, env_vars, outputs) {
            Ok((buf, used)) => part_value(parts[n - 1], shell_vars, env_vars, outputs, buf, used),
            Err(e) => Err(e),
        }
    }
}

fn apply_part(
    part: &StrPart,
    env: &Env,
    outputs: &Vec<Vec<u8>>,
    buf: &mut Vec<u8>,
    used: usize,
) -> (r: Result<usize, EvalError>)
    requires
        env.wf(),
        used <= outputs@.len(),
    ensures
        match part_value(
            part@,
            env.shell_vars(),
            env.env_vars(),
            byte_views(outputs@),
            old(buf)@,
            used as int,
        ) {
            Ok((b, u)) => r == Ok::<usize, EvalError>(u as usize) && final(buf)@ == b && u
                <= outputs@.len(),
            Err(e) => r == Err::<usize, EvalError>(e),
        },
{
    match part {
        StrPart::Chars(text) => {
            let bytes = text.as_str().as_bytes();
            assert(bytes@.skip(0) =~= bytes@);
            push_bytes(buf, bytes, 0);
            Ok(used)
        },
        StrPart::Expansion(e) => match e {
            Expansion::Variable { name } => {
                let value = env.variable(name.as_str().as_bytes());
                assert(value@.skip(0) =~= value@);
                push_bytes(buf, value.as_slice(), 0);
                Ok(used)
            },
            Expansion::SubstPipeName(_) => Err(EvalError::Unsupported),
            Expansion::SubstStatus(_) => Err(EvalError::Unsupported),
            _ => {
                if used < outputs.len() {
                    assert(byte_views(outputs@)[used as int] == outputs@[used as int]@);
                    append_output(buf, outputs[used].as_slice());
                    Ok(used + 1)
                } else {
                    Err(EvalError::MissingOutput)
                }
            },
        },
    }
}

/// The bytes that a string stands for before `~` and `*` are expanded.
/// `outputs` are the outputs of its substitutions, in the order in which the
/// string has them.
pub fn assemble(parts: &Vec<StrPart>, env: &Env, outputs: &Vec<Vec<u8>>) -> (r: Result<
    Vec<u8>,
    EvalError,
>)
    requires
        env.wf(),
    ensures
        match assembled(
            part_views(parts@),
            parts@.len() as int,
            env.shell_vars(),
            env.env_vars(),
            byte_views(outputs@),
        ) {
            Ok((buf, _)) => r is Ok && r->Ok_0@ == buf,
            Err(e) => r == Err::<Vec<u8>, EvalError>(e),
        },
{
    let mut buf: Vec<u8> = Vec::new();
    let mut used: usize = 0;
    let mut i: usize = 0;
    let ghost views = part_views(parts@);
    let ghost outs = byte_views(outputs@);
    while i < parts.len()
        invariant
            i <= parts.len(),
            env.wf(),
            views == part_views(parts@),
            outs == byte_views(outputs@),
            used <= outputs.len(),
            assembled(views, i as int, env.shell_vars(), env.env_vars(), outs) == Ok::<
                (Seq<u8>, int),
                EvalError,
            >((buf@, used as int)),
        decreases parts.len() - i,
    {
        assert(views[i as int] == parts@[i as int]@);
        match apply_part(&parts[i], env, outputs, &mut buf, used) {
            Ok(u) => {
                used = u;
            },
            Err(e) => {
                proof {
                    lemma_error_stays(
                        views,
                        i + 1,
                        parts@.len() as int,
                        env.shell_vars(),
                        env.env_vars(),
                        outs,
                    );
                }
                return Err(e);
            },
        }
        i += 1;
    }
    Ok(buf)
}

/// A string that has no value after some of its parts has none after more
/// of them.
pub proof fn lemma_error_stays(
    parts: Seq<StrPartView>,
    i: int,
    n: int,
    shell_vars: Map<Seq<u8>, Seq<u8>>,
    env_vars: Map<Seq<u8>, Seq<u8>>,
    outputs: Seq<Seq<u8>>,
)
    requires
        0 <= i <= n <= parts.len(),
        assembled(parts, i, shell_vars, env_vars, outputs) is Err,
    ensures
        assembled(parts, n, shell_vars, env_vars, outputs) == assembled(
            parts,
            i,
            shell_vars,
            env_vars,
            outputs,
        ),
    decreases n - i,
{
    if i < n {
        lemma_error_stays(parts, i, n - 1, shell_vars, env_vars, outputs);
    }
}

/// The fields read so far in the first `n` bytes: those that are complete,
/// and the one that is still open.
pub open spec fn fields_read(s: Seq<u8>, n: int) -> (Seq<Seq<u8>>, Seq<u8>)
    decreases n,
{
    if n <= 0 || n > s.len() {
        (seq![], seq![])
    } else {
        let (done, open) = fields_read(s, n - 1);
        if is_blank_byte(s[n - 1]) {
            if open.len() > 0 {
                (done.push(open), seq![])
            } else {
                (done, open)
            }
        } else {
            (done, open.push(s[n - 1]))
        }
    }
}

/// The fields of a byte string: its runs of bytes other than blanks.
pub open spec fn fields_of(s: Seq<u8>) -> Seq<Seq<u8>> {
    let (done, open) = fields_read(s, s.len() as int);
    if open.len() > 0 {
        done.push(open)
    } else {
        done
    }
}

/// Splits a byte string into its fields.
pub fn split_fields(bytes: &[u8]) -> (r: Vec<Vec<u8>>)
    ensures
        byte_views(r@) == fields_of(bytes@),
{
    let mut done: Vec<Vec<u8>> = Vec::new();
    let mut open: Vec<u8> = Vec::new();
    let mut i: usize = 0;
    assert(byte_views(done@) =~= seq![]);
    while i < bytes.len()
        invariant
            i <= bytes.len(),
            (byte_views(done@), open@) == fields_read(bytes@, i as int),
        decreases bytes.len() - i,
    {
        let b = bytes[i];
        let ghost before = byte_views(done@);
        if b == 0x20 || b == 0x0a || b == 0x09 {
            if open.len() > 0 {
                done.push(open);
                assert(byte_views(done@) =~= before.push(open@));
                open = Vec::new();
            }
        } else {
            open.push(b);
        }
        i += 1;
    }
    let ghost before = byte_views(done@);
    if open.len() > 0 {
        done.push(open);
        assert(byte_views(done@) =~= before.push(open@));
    }
    done
}

/// The tokens that an argument gives once its string has a value: the value
/// itself, or for `@` its fields.
pub open spec fn tokens(a: ArgumentsView, value: Seq<u8>) -> Seq<Seq<u8>> {
    match a {
        ArgumentsView::Arg(_) => seq![value],
        ArgumentsView::AtExpansion(_) => fields_of(value),
    }
}

/// The string of an argument.
pub fn string_of_argument(arg: &Arguments) -> (r: &Vec<StrPart>)
    ensures
        match arg {
            Arguments::Arg(s) => r == s,
            Arguments::AtExpansion(s) => r == s,
        },
{
    match arg {
        Arguments::Arg(s) => s,
        Arguments::AtExpansion(s) => s,
    }
}

/// The tokens that an argument gives once its string has a value.
pub fn tokens_of(arg: &Arguments, value: Vec<u8>) -> (r: Vec<Vec<u8>>)
    ensures
        byte_views(r@) == tokens(arg@, value@),
{
    match arg {
        Arguments::Arg(_) => {
            let mut out: Vec<Vec<u8>> = Vec::new();
            out.push(value);
            assert(byte_views(out@) =~= seq![value@]);
            out
        },
        Arguments::AtExpansion(_) => split_fields(value.as_slice()),
    }
}

} // verus!
