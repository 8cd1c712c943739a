//! Path patterns: `~` for the home directory, and `*` for any run of bytes in
//! a file name.

use vstd::prelude::*;

verus! {

/// The token with a leading `~` replaced by the home directory. Without a
/// home directory, and without a leading `~`, the token stays as it is.
pub open spec fn tilde_expanded(bytes: Seq<u8>, home: Option<Seq<u8>>) -> Seq<u8> {
    if bytes.len() > 0 && bytes[0] == 0x7e {
        match home {
            Some(h) => h + bytes.skip(1),
            None => bytes,
        }
    } else {
        bytes
    }
}

fn copy_bytes(bytes: &[u8]) -> (r: Vec<u8>)
    ensures
        r@ == bytes@,
{
    let mut out: Vec<u8> = Vec::new();
    let mut i: usize = 0;
    while i < bytes.len()
        invariant
            i <= bytes.len(),
            out@ == bytes@.take(i as int),
        decreases bytes.len() - i,
    {
        out.push(bytes[i]);
        i += 1;
        assert(out@ =~= bytes@.take(i as int));
    }
    assert(bytes@.take(i as int) =~= bytes@);
    out
}

/// Appends the bytes `from[start..]` to `out`.
pub fn push_bytes(out: &mut Vec<u8>, from: &[u8], start: usize)
    requires
        start <= from@.len(),
    ensures
        final(out)@ == old(out)@ + from@.skip(start as int),
{
    let mut i: usize = start;
    assert(out@ =~= old(out)@ + from@.subrange(start as int, i as int));
    while i < from.len()
        invariant
            start <= i <= from.len(),
            out@ == old(out)@ + from@.subrange(start as int, i as int),
        decreases from.len() - i,
    {
        out.push(from[i]);
        i += 1;
        assert(out@ =~= old(out)@ + from@.subrange(start as int, i as int));
    }
    assert(from@.subrange(start as int, from.len() as int) =~= from@.skip(start as int));
}

/// Expands a leading `~` to the home directory.
pub fn expand_tilde(bytes: &[u8], home: Option<&[u8]>) -> (r: Vec<u8>)
    ensures
        r@ == tilde_expanded(
            bytes@,
            match home {
                Some(h) => Some(h@),
                None => None,
            },
        ),
{
    if bytes.len() > 0 && bytes[0] == 0x7e {
        match home {
            Some(h) => {
                let mut out = copy_bytes(h);
                push_bytes(&mut out, bytes, 1);
                out
            },
            None => copy_bytes(bytes),
        }
    } else {
        copy_bytes(bytes)
    }
}

/// Whether a pattern matches a name: `*` stands for any run of bytes, every
/// other byte for itself. A `*` matches nothing and the rest of the pattern
/// what follows, or it takes one byte of the name and goes on.
pub open spec fn glob_match(pat: Seq<u8>, name: Seq<u8>) -> bool
    decreases pat.len(), name.len(),
{
    if pat.len() == 0 {
        name.len() == 0
    } else if pat[0] == 0x2a {
        glob_match(pat.skip(1), name) || (name.len() > 0 && glob_match(pat, name.skip(1)))
    } else {
        name.len() > 0 && pat[0] == name[0] && glob_match(pat.skip(1), name.skip(1))
    }
}

/// A pattern that starts with `*` matches a name exactly if the rest of the
/// pattern matches one of the name's suffixes.
pub proof fn lemma_star_matches_suffix(pat: Seq<u8>, name: Seq<u8>)
    requires
        pat.len() > 0,
        pat[0] == 0x2a,
    ensures
        glob_match(pat, name) <==> exists|i: int|
            0 <= i <= name.len() && glob_match(pat.skip(1), #[trigger] name.skip(i)),
    decreases name.len(),
{
    assert(name.skip(0) =~= name);
    if name.len() > 0 {
        lemma_star_matches_suffix(pat, name.skip(1));
        if glob_match(pat, name.skip(1)) {
            let i = choose|i: int|
                0 <= i <= name.skip(1).len() && glob_match(
                    pat.skip(1),
                    #[trigger] name.skip(1).skip(i),
                );
            assert(name.skip(1).skip(i) =~= name.skip(i + 1));
        }
        if exists|i: int| 0 <= i <= name.len() && glob_match(pat.skip(1), #[trigger] name.skip(i)) {
            let i = choose|i: int|
                0 <= i <= name.len() && glob_match(pat.skip(1), #[trigger] name.skip(i));
            if i > 0 {
                assert(name.skip(1).skip(i - 1) =~= name.skip(i));
            }
        }
    } else {
        assert forall|i: int| 0 <= i <= name.len() implies #[trigger] name.skip(i) =~= name by {}
    }
}

/// A pattern without `*` matches exactly itself.
pub proof fn lemma_plain_pattern_matches_itself(pat: Seq<u8>, name: Seq<u8>)
    requires
        !pat.contains(0x2a),
    ensures
        glob_match(pat, name) <==> name == pat,
    decreases pat.len(),
{
    if pat.len() == 0 {
        assert(name.len() == 0 <==> name =~= pat);
    } else {
        assert(pat[0] != 0x2a);
        assert forall|k: int| 0 <= k < pat.skip(1).len() implies pat.skip(1)[k] != 0x2a by {
            assert(pat[k + 1] != 0x2a);
        }
        if name.len() > 0 {
            lemma_plain_pattern_matches_itself(pat.skip(1), name.skip(1));
            if name == pat {
                assert(name.skip(1) == pat.skip(1));
            }
            if pat[0] == name[0] && name.skip(1) == pat.skip(1) {
                assert(name =~= seq![name[0]] + name.skip(1));
                assert(pat =~= seq![pat[0]] + pat.skip(1));
            }
        }
    }
}

fn matches_from(pat: &[u8], pi: usize, name: &[u8], ni: usize) -> (r: bool)
    requires
        pi <= pat@.len(),
        ni <= name@.len(),
    ensures
        r == glob_match(pat@.skip(pi as int), name@.skip(ni as int)),
    decreases pat@.len() - pi, name@.len() - ni,
{
    let ghost p = pat@.skip(pi as int);
    let ghost n = name@.skip(ni as int);
    if pi == pat.len() {
        return ni == name.len();
    }
    assert(p.skip(1) =~= pat@.skip(pi + 1));
    if ni < name.len() {
        assert(n.skip(1) =~= name@.skip(ni + 1));
    }
    if pat[pi] == 0x2a {
        matches_from(pat, pi + 1, name, ni) || (ni < name.len() && matches_from(
            pat,
            pi,
            name,
            ni + 1,
        ))
    } else {
        ni < name.len() && pat[pi] == name[ni] && matches_from(pat, pi + 1, name, ni + 1)
    }
}

/// Whether a pattern matches a name.
pub fn pattern_matches(pat: &[u8], name: &[u8]) -> (r: bool)
    ensures
        r == glob_match(pat@, name@),
{
    assert(pat@.skip(0) =~= pat@);
    assert(name@.skip(0) =~= name@);
    matches_from(pat, 0, name, 0)
}

/// Whether a token is a pattern: whether it holds a `*`.
pub fn has_wildcard(bytes: &[u8]) -> (r: bool)
    ensures
        r == bytes@.contains(0x2a),
{
    let mut i: usize = 0;
    while i < bytes.len()
        invariant
            i <= bytes.len(),
            forall|k: int| 0 <= k < i ==> bytes@[k] != 0x2a,
        decreases bytes.len() - i,
    {
        if bytes[i] == 0x2a {
            return true;
        }
        i += 1;
    }
    false
}

/// The segments of a path from `start` on: the runs between its `/`, the one
/// under way in `open`.
pub open spec fn segments_from(bytes: Seq<u8>, n: int, done: Seq<Seq<u8>>, open: Seq<u8>) -> Seq<
    Seq<u8>,
>
    decreases bytes.len() - n,
{
    if n < 0 || n >= bytes.len() {
        done.push(open)
    } else if bytes[n] == 0x2f {
        segments_from(bytes, n + 1, done.push(open), seq![])
    } else {
        segments_from(bytes, n + 1, done, open.push(bytes[n]))
    }
}

/// The segments that a pattern is matched by, directory by directory: the
/// runs between its `/`, without the empty one in front of a leading `/`.
pub open spec fn pattern_segments(bytes: Seq<u8>) -> Seq<Seq<u8>> {
    let all = segments_from(bytes, 0, seq![], seq![]);
    if all.len() > 0 && all[0].len() == 0 {
        all.skip(1)
    } else {
        all
    }
}

/// The views of a sequence of byte strings.
pub open spec fn byte_views(v: Seq<Vec<u8>>) -> Seq<Seq<u8>> {
    v.map_values(|b: Vec<u8>| b@)
}

/// Splits a pattern into its segments.
pub fn split_pattern(bytes: &[u8]) -> (r: Vec<Vec<u8>>)
    ensures
        byte_views(r@) == pattern_segments(bytes@),
{
    let mut done: Vec<Vec<u8>> = Vec::new();
    let mut open: Vec<u8> = Vec::new();
    let mut i: usize = 0;
    assert(byte_views(done@) =~= seq![]);
    while i < bytes.len()
        invariant
            i <= bytes.len(),
            segments_from(bytes@, i as int, byte_views(done@), open@) == segments_from(
                bytes@,
                0,
                seq![],
                seq![],
            ),
        decreases bytes.len() - i,
    {
        let ghost before = byte_views(done@);
        if bytes[i] == 0x2f {
            done.push(open);
            assert(byte_views(done@) =~= before.push(open@));
            open = Vec::new();
        } else {
            open.push(bytes[i]);
        }
        i += 1;
    }
    let ghost before = byte_views(done@);
    done.push(open);
    assert(byte_views(done@) =~= before.push(open@));
    if done[0].len() == 0 {
        let ghost all = byte_views(done@);
        done.remove(0);
        assert(byte_views(done@) =~= all.skip(1));
    }
    done
}

/// The path of an entry in a directory.
pub open spec fn joined_path(dir: Seq<u8>, name: Seq<u8>) -> Seq<u8> {
    if dir.len() > 0 && dir.last() == 0x2f {
        dir + name
    } else {
        dir.push(0x2f) + name
    }
}

/// The path of an entry in a directory.
pub fn join_path(dir: &[u8], name: &[u8]) -> (r: Vec<u8>)
    ensures
        r@ == joined_path(dir@, name@),
{
    let mut out = copy_bytes(dir);
    if !(dir.len() > 0 && dir[dir.len() - 1] == 0x2f) {
        out.push(0x2f);
    }
    assert(name@.skip(0) =~= name@);
    push_bytes(&mut out, name, 0);
    out
}

/// The paths in one line, a space between each two.
pub open spec fn spaced(paths: Seq<Seq<u8>>) -> Seq<u8>
    decreases paths.len(),
{
    if paths.len() == 0 {
        seq![]
    } else if paths.len() == 1 {
        paths[0]
    } else {
        spaced(paths.drop_last()).push(0x20) + paths.last()
    }
}

/// Joins paths with single spaces.
pub fn join_spaced(paths: &Vec<Vec<u8>>) -> (r: Vec<u8>)
    ensures
        r@ == spaced(byte_views(paths@)),
{
    let mut out: Vec<u8> = Vec::new();
    let mut i: usize = 0;
    let ghost all = byte_views(paths@);
    assert(all.take(0) =~= seq![]);
    while i < paths.len()
        invariant
            i <= paths.len(),
            all == byte_views(paths@),
            out@ == spaced(all.take(i as int)),
        decreases paths.len() - i,
    {
        assert(all.take(i + 1).drop_last() =~= all.take(i as int));
        assert(all.take(i + 1).last() == paths@[i as int]@);
        if i > 0 {
            out.push(0x20);
        }
        assert(paths@[i as int]@.skip(0) =~= paths@[i as int]@);
        let ghost before = out@;
        push_bytes(&mut out, paths[i].as_slice(), 0);
        proof {
            if i == 0 {
                assert(out@ =~= paths@[0]@);
            }
        }
        i += 1;
    }
    assert(all.take(i as int) =~= all);
    out
}

} // verus!
