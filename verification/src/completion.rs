//! Completion providers: from the words typed so far to the tails that can be
//! appended to the last of them.

use vstd::prelude::*;
use crate::chars::{chars_of, string_of_range};

verus! {

/// The texts of a sequence of strings.
pub open spec fn texts(v: Seq<String>) -> Seq<Seq<char>> {
    v.map_values(|s: String| s@)
}

/// The texts of a sequence of string slices.
pub open spec fn word_texts(v: Seq<&str>) -> Seq<Seq<char>> {
    v.map_values(|s: &str| s@)
}

/// What is left of `item` behind `prefix`, if it starts with it.
pub open spec fn strip_prefix(item: Seq<char>, prefix: Seq<char>) -> Option<Seq<char>> {
    if prefix.is_prefix_of(item) {
        Some(item.skip(prefix.len() as int))
    } else {
        None
    }
}

/// The tails of those items that start with `prefix`, in the items' order.
pub open spec fn stripped(items: Seq<Seq<char>>, prefix: Seq<char>) -> Seq<Seq<char>>
    decreases items.len(),
{
    if items.len() == 0 {
        seq![]
    } else {
        let rest = stripped(items.drop_last(), prefix);
        match strip_prefix(items.last(), prefix) {
            Some(tail) => rest.push(tail),
            None => rest,
        }
    }
}

/// Every item that starts with the prefix has its tail among the stripped ones.
pub proof fn lemma_stripped_contains(items: Seq<Seq<char>>, prefix: Seq<char>, i: int)
    requires
        0 <= i < items.len(),
        prefix.is_prefix_of(items[i]),
    ensures
        stripped(items, prefix).contains(items[i].skip(prefix.len() as int)),
    decreases items.len(),
{
    let rest = stripped(items.drop_last(), prefix);
    if i == items.len() - 1 {
        assert(stripped(items, prefix) == rest.push(items[i].skip(prefix.len() as int)));
        assert(stripped(items, prefix).last() == items[i].skip(prefix.len() as int));
    } else {
        lemma_stripped_contains(items.drop_last(), prefix, i);
        let tail = items[i].skip(prefix.len() as int);
        let k = choose|k: int| 0 <= k < rest.len() && rest[k] == tail;
        assert(stripped(items, prefix)[k] == tail);
    }
}

/// Whether `v[..]` starts with `prefix[..]`.
pub fn starts_with(v: &Vec<char>, prefix: &Vec<char>) -> (r: bool)
    ensures
        r == prefix@.is_prefix_of(v@),
{
    if prefix.len() > v.len() {
        return false;
    }
    let mut i: usize = 0;
    while i < prefix.len()
        invariant
            i <= prefix.len() <= v.len(),
            forall|k: int| 0 <= k < i ==> v@[k] == prefix@[k],
        decreases prefix.len() - i,
    {
        if v[i] != prefix[i] {
            assert(v@.subrange(0, prefix@.len() as int)[i as int] != prefix@[i as int]);
            return false;
        }
        i += 1;
    }
    assert(v@.subrange(0, prefix@.len() as int) =~= prefix@);
    true
}

/// A provider of completions. `words` are the words of the line so far; each
/// candidate is a tail to append to the last of them.
pub trait Complete {
    /// The candidates that the provider gives for these words.
    spec fn candidates_of(&self, words: Seq<Seq<char>>) -> Seq<Seq<char>>;

    fn candidates(&self, words: &[&str]) -> (r: Vec<String>)
        ensures
            texts(r@) == self.candidates_of(word_texts(words@)),
    ;
}

// ------------------------------------------------------------ static list

/// Completes from a fixed list of words.
pub struct StaticWordCompletion {
    items: Vec<String>,
}

impl StaticWordCompletion {
    pub closed spec fn items(&self) -> Seq<Seq<char>> {
        texts(self.items@)
    }

    pub fn new(items: Vec<String>) -> (r: Self)
        ensures
            r.items() == texts(items@),
    {
        Self { items }
    }
}

impl Complete for StaticWordCompletion {
    open spec fn candidates_of(&self, words: Seq<Seq<char>>) -> Seq<Seq<char>> {
        if words.len() == 0 {
            seq![]
        } else {
            stripped(self.items(), words.last())
        }
    }

    fn candidates(&self, words: &[&str]) -> (r: Vec<String>) {
        let mut out: Vec<String> = Vec::new();
        if words.len() == 0 {
            assert(texts(out@) =~= seq![]);
            return out;
        }
        let word = chars_of(words[words.len() - 1]);
        assert(word@ == word_texts(words@).last());
        let mut i: usize = 0;
        assert(texts(self.items@).take(0) =~= seq![]);
        assert(texts(out@) =~= seq![]);
        while i < self.items.len()
            invariant
                i <= self.items.len(),
                texts(out@) == stripped(texts(self.items@).take(i as int), word@),
            decreases self.items.len() - i,
        {
            let item = chars_of(self.items[i].as_str());
            let ghost before = texts(out@);
            let ghost all = texts(self.items@);
            assert(all.take(i + 1).drop_last() =~= all.take(i as int));
            assert(all.take(i + 1).last() == item@);
            if starts_with(&item, &word) {
                let tail = string_of_range(&item, word.len(), item.len());
                assert(tail@ =~= item@.skip(word@.len() as int));
                out.push(tail);
                assert(texts(out@) =~= before.push(tail@));
            }
            i += 1;
        }
        assert(texts(self.items@).take(i as int) =~= texts(self.items@));
        out
    }
}

// ------------------------------------------------------------ files

/// Whether the shell gives a character a meaning of its own, so that a file
/// name has to escape it.
pub open spec fn is_shell_special(c: char) -> bool {
    c == '\\' || c == ' ' || c == '\t' || c == '\n' || c == '@' || c == ';' || c == '&' || c == '|'
        || c == '$' || c == '(' || c == ')' || c == '[' || c == ']' || c == '\'' || c == '"' || c
        == '=' || c == '?' || c == '{' || c == '}'
}

/// The text with a backslash in front of every special character.
pub open spec fn escaped(s: Seq<char>) -> Seq<char>
    decreases s.len(),
{
    if s.len() == 0 {
        seq![]
    } else if is_shell_special(s.last()) {
        escaped(s.drop_last()).push('\\').push(s.last())
    } else {
        escaped(s.drop_last()).push(s.last())
    }
}

/// One entry of a directory: its name, and whether it is a directory itself.
pub struct DirEntry {
    pub name: String,
    pub is_dir: bool,
}

pub struct DirEntryView {
    pub name: Seq<char>,
    pub is_dir: bool,
}

impl View for DirEntry {
    type V = DirEntryView;

    open spec fn view(&self) -> DirEntryView {
        DirEntryView { name: self.name@, is_dir: self.is_dir }
    }
}

/// The entries of a sequence, each by its view.
pub open spec fn entry_views(v: Seq<DirEntry>) -> Seq<DirEntryView> {
    v.map_values(|e: DirEntry| e@)
}

/// The entries whose name starts with `pattern`, in the listing's order.
pub open spec fn matching(entries: Seq<DirEntryView>, pattern: Seq<char>) -> Seq<DirEntryView>
    decreases entries.len(),
{
    if entries.len() == 0 {
        seq![]
    } else if pattern.is_prefix_of(entries.last().name) {
        matching(entries.drop_last(), pattern).push(entries.last())
    } else {
        matching(entries.drop_last(), pattern)
    }
}

/// The candidate that an entry gives: what is left of its name behind the
/// pattern, escaped.
pub open spec fn entry_tail(e: DirEntryView, pattern: Seq<char>) -> Seq<char> {
    escaped(e.name.skip(pattern.len() as int))
}

/// The candidates that a listing gives for a pattern: the escaped tail of each
/// matching entry; a single candidate that is a directory ends in `/`.
pub open spec fn selected(entries: Seq<DirEntryView>, pattern: Seq<char>) -> Seq<Seq<char>> {
    let m = matching(entries, pattern);
    if m.len() == 1 && m[0].is_dir {
        seq![entry_tail(m[0], pattern).push('/')]
    } else {
        m.map_values(|e: DirEntryView| entry_tail(e, pattern))
    }
}

/// Every entry of the listing whose name starts with the pattern is among the
/// matching ones.
pub proof fn lemma_matching_contains(entries: Seq<DirEntryView>, pattern: Seq<char>, i: int)
    requires
        0 <= i < entries.len(),
        pattern.is_prefix_of(entries[i].name),
    ensures
        matching(entries, pattern).contains(entries[i]),
    decreases entries.len(),
{
    let rest = matching(entries.drop_last(), pattern);
    if i == entries.len() - 1 {
        assert(matching(entries, pattern).last() == entries[i]);
    } else {
        lemma_matching_contains(entries.drop_last(), pattern, i);
        let k = choose|k: int| 0 <= k < rest.len() && rest[k] == entries[i];
        assert(matching(entries, pattern)[k] == entries[i]);
    }
}

/// For a directory with entry `entries[i]` and a pattern that this entry's
/// name starts with, the candidates hold the escaped rest of the name; where
/// the entry is a directory and the only match, they hold it with `/` behind.
pub proof fn lemma_entry_is_candidate(entries: Seq<DirEntryView>, pattern: Seq<char>, i: int)
    requires
        0 <= i < entries.len(),
        pattern.is_prefix_of(entries[i].name),
    ensures
        selected(entries, pattern).contains(
            if matching(entries, pattern).len() == 1 && entries[i].is_dir {
                entry_tail(entries[i], pattern).push('/')
            } else {
                entry_tail(entries[i], pattern)
            },
        ),
{
    lemma_matching_contains(entries, pattern, i);
    let m = matching(entries, pattern);
    let k = choose|k: int| 0 <= k < m.len() && m[k] == entries[i];
    if m.len() == 1 && m[0].is_dir {
        assert(selected(entries, pattern)[0] == entry_tail(entries[i], pattern).push('/'));
    } else {
        assert(selected(entries, pattern)[k] == entry_tail(entries[i], pattern));
    }
}

/// Where to look and what for: the directory to list and the pattern that
/// the names in it must start with.
pub struct FileQuery {
    pub dir: String,
    pub pattern: String,
}

/// The rule that turns a partial path into a query. `home` and `cwd` are the
/// home directory and the current directory, where known.
///
/// A leading `~` stands for the home directory; a path that does not start
/// with `/` is taken from the current directory; what follows the last `/` is
/// the pattern, what precedes it, with that `/`, the directory.
pub open spec fn query_of(
    partial: Seq<char>,
    home: Option<Seq<char>>,
    cwd: Option<Seq<char>>,
) -> Option<(Seq<char>, Seq<char>)> {
    let expanded = if partial.len() > 0 && partial[0] == '~' {
        match home {
            Some(h) => Some(h + partial.skip(1)),
            None => None,
        }
    } else {
        Some(partial)
    };
    match expanded {
        None => None,
        Some(p) => {
            let full = if p.len() > 0 && p[0] == '/' {
                Some(p)
            } else {
                match cwd {
                    Some(c) => Some(c.push('/') + p),
                    None => None,
                }
            };
            match full {
                None => None,
                Some(f) => {
                    let cut = last_slash(f) + 1;
                    Some((f.take(cut), f.skip(cut)))
                },
            }
        },
    }
}

/// The index of the last `/` of a path, -1 without one.
pub open spec fn last_slash(s: Seq<char>) -> int
    decreases s.len(),
{
    if s.len() == 0 {
        -1
    } else if s.last() == '/' {
        s.len() - 1
    } else {
        last_slash(s.drop_last())
    }
}

/// Completes file names from the listing of one directory, which the caller
/// took and handed in.
pub struct FileCompletion {
    home: Option<String>,
    cwd: Option<String>,
    listed: Option<String>,
    entries: Vec<DirEntry>,
}

pub struct FileCompletionView {
    pub home: Option<Seq<char>>,
    pub cwd: Option<Seq<char>>,
    /// The directory whose entries are known.
    pub listed: Option<Seq<char>>,
    pub entries: Seq<DirEntryView>,
}

pub open spec fn opt_text(s: Option<String>) -> Option<Seq<char>> {
    match s {
        Some(t) => Some(t@),
        None => None,
    }
}

impl View for FileCompletion {
    type V = FileCompletionView;

    closed spec fn view(&self) -> FileCompletionView {
        FileCompletionView {
            home: opt_text(self.home),
            cwd: opt_text(self.cwd),
            listed: opt_text(self.listed),
            entries: entry_views(self.entries@),
        }
    }
}

/// The candidates for a partial path, `None` where the rule gives no query or
/// the directory it asks for is not the listed one.
pub open spec fn found(v: FileCompletionView, partial: Seq<char>) -> Option<Seq<Seq<char>>> {
    match query_of(partial, v.home, v.cwd) {
        None => None,
        Some((dir, pattern)) => if v.listed == Some(dir) {
            Some(selected(v.entries, pattern))
        } else {
            None
        },
    }
}

fn clone_string(s: &String) -> (r: String)
    ensures
        r@ == s@,
{
    s.clone()
}

fn same_text(a: &str, b: &str) -> (r: bool)
    ensures
        r == (a@ == b@),
{
    let x = chars_of(a);
    let y = chars_of(b);
    if x.len() != y.len() {
        return false;
    }
    let r = starts_with(&x, &y);
    proof {
        if r {
            assert(x@.subrange(0, y@.len() as int) =~= x@);
        } else {
            if x@ == y@ {
                assert(y@.subrange(0, y@.len() as int) =~= y@);
            }
        }
    }
    r
}

impl FileCompletion {
    /// A provider that knows no directory: it has no candidates.
    pub fn new() -> (r: Self)
        ensures
            r@.home == None::<Seq<char>>,
            r@.cwd == None::<Seq<char>>,
            r@.listed == None::<Seq<char>>,
            r@.entries == Seq::<DirEntryView>::empty(),
    {
        let r = Self { home: None, cwd: None, listed: None, entries: Vec::new() };
        assert(r@.entries =~= Seq::<DirEntryView>::empty());
        r
    }

    /// Tells the provider the home directory and the current directory.
    pub fn set_dirs(&mut self, home: Option<String>, cwd: Option<String>)
        ensures
            final(self)@.home == opt_text(home),
            final(self)@.cwd == opt_text(cwd),
            final(self)@.listed == old(self)@.listed,
            final(self)@.entries == old(self)@.entries,
    {
        self.home = home;
        self.cwd = cwd;
    }

    /// Hands in the entries of the directory `dir`.
    pub fn set_listing(&mut self, dir: String, entries: Vec<DirEntry>)
        ensures
            final(self)@.home == old(self)@.home,
            final(self)@.cwd == old(self)@.cwd,
            final(self)@.listed == Some(dir@),
            final(self)@.entries == entry_views(entries@),
    {
        self.listed = Some(dir);
        self.entries = entries;
    }

    /// The directory to list and the pattern to look for, for a partial path.
    pub fn query(&self, partial: &str) -> (r: Option<FileQuery>)
        ensures
            match query_of(partial@, self@.home, self@.cwd) {
                Some((dir, pattern)) => r is Some && r->0.dir@ == dir && r->0.pattern@ == pattern,
                None => r is None,
            },
    {
        let p = chars_of(partial);
        let mut full: Vec<char> = Vec::new();
        let mut from: usize = 0;
        if p.len() > 0 && p[0] == '~' {
            match &self.home {
                Some(h) => {
                    full = chars_of(h.as_str());
                    from = 1;
                },
                None => {
                    return None;
                },
            }
        }
        let ghost expanded = full@ + p@.skip(from as int);
        let absolute = if full.len() > 0 {
            full[0] == '/'
        } else {
            from < p.len() && p[from] == '/'
        };
        assert(absolute == (expanded.len() > 0 && expanded[0] == '/'));
        if !absolute {
            match &self.cwd {
                Some(c) => {
                    let mut joined = chars_of(c.as_str());
                    joined.push('/');
                    let mut k: usize = 0;
                    while k < full.len()
                        invariant
                            k <= full.len(),
                            joined@ == c@.push('/') + full@.take(k as int),
                        decreases full.len() - k,
                    {
                        joined.push(full[k]);
                        k += 1;
                        assert(joined@ =~= c@.push('/') + full@.take(k as int));
                    }
                    assert(full@.take(full.len() as int) =~= full@);
                    full = joined;
                },
                None => {
                    return None;
                },
            }
        }
        let ghost head = full@;
        let mut k: usize = from;
        while k < p.len()
            invariant
                from <= k <= p.len(),
                full@ == head + p@.subrange(from as int, k as int),
            decreases p.len() - k,
        {
            full.push(p[k]);
            k += 1;
            assert(full@ =~= head + p@.subrange(from as int, k as int));
        }
        assert(p@.subrange(from as int, p.len() as int) =~= p@.skip(from as int));
        proof {
            if absolute {
                assert(full@ =~= expanded);
            } else {
                assert(full@ =~= self.cwd->0@.push('/') + expanded);
            }
            if from == 0 {
                assert(expanded =~= p@);
            }
        }
        let mut cut: usize = full.len();
        assert(full@.take(full.len() as int) =~= full@);
        while cut > 0 && full[cut - 1] != '/'
            invariant
                cut <= full.len(),
                last_slash(full@) == last_slash(full@.take(cut as int)),
            decreases cut,
        {
            assert(full@.take(cut as int).drop_last() =~= full@.take(cut - 1));
            cut -= 1;
        }
        assert(cut == last_slash(full@) + 1) by {
            if cut > 0 {
                assert(full@.take(cut as int).last() == '/');
            }
        }
        let dir = string_of_range(&full, 0, cut);
        let pattern = string_of_range(&full, cut, full.len());
        assert(dir@ =~= full@.take(cut as int));
        assert(pattern@ =~= full@.skip(cut as int));
        Some(FileQuery { dir, pattern })
    }

    /// The candidates for a pattern among the entries of a listing.
    pub fn select(pattern: &str, entries: &Vec<DirEntry>) -> (r: Vec<String>)
        ensures
            texts(r@) == selected(entry_views(entries@), pattern@),
    {
        let pat = chars_of(pattern);
        let mut out: Vec<String> = Vec::new();
        let mut first_is_dir = false;
        let ghost all = entry_views(entries@);
        let mut i: usize = 0;
        assert(all.take(0) =~= seq![]);
        assert(texts(out@) =~= seq![]);
        while i < entries.len()
            invariant
                i <= entries.len(),
                pat@ == pattern@,
                all == entry_views(entries@),
                texts(out@) == matching(all.take(i as int), pat@).map_values(
                    |e: DirEntryView| entry_tail(e, pat@),
                ),
                out@.len() > 0 ==> first_is_dir == matching(all.take(i as int), pat@)[0].is_dir,
            decreases entries.len() - i,
        {
            let name = chars_of(entries[i].name.as_str());
            let ghost before = texts(out@);
            let ghost m0 = matching(all.take(i as int), pat@);
            assert(all.take(i + 1).drop_last() =~= all.take(i as int));
            assert(all.take(i + 1).last() == entries@[i as int]@);
            if starts_with(&name, &pat) {
                if out.len() == 0 {
                    first_is_dir = entries[i].is_dir;
                }
                let tail = string_of_range(&name, pat.len(), name.len());
                assert(tail@ =~= name@.skip(pat@.len() as int));
                let cand = Self::escape_special_characters(tail.as_str());
                out.push(cand);
                assert(texts(out@) =~= before.push(cand@));
                assert(texts(out@) =~= m0.push(entries@[i as int]@).map_values(
                    |e: DirEntryView| entry_tail(e, pat@),
                ));
            }
            i += 1;
        }
        assert(all.take(i as int) =~= all);
        let ghost m = matching(all, pat@);
        assert(texts(out@).len() == m.len());
        if out.len() == 1 && first_is_dir {
            assert(texts(out@)[0] == entry_tail(m[0], pat@));
            let mut only = out.pop().unwrap();
            only.push('/');
            out.push(only);
            assert(texts(out@) =~= seq![entry_tail(m[0], pat@).push('/')]);
        }
        out
    }

    /// The candidates for a partial path, from the listing that the provider
    /// holds.
    pub fn find(&self, partial: &str) -> (r: Option<Vec<String>>)
        ensures
            match found(self@, partial@) {
                Some(c) => r is Some && texts(r->0@) == c,
                None => r is None,
            },
    {
        let q = match self.query(partial) {
            Some(q) => q,
            None => {
                return None;
            },
        };
        match &self.listed {
            Some(dir) => {
                if same_text(dir.as_str(), q.dir.as_str()) {
                    Some(Self::select(q.pattern.as_str(), &self.entries))
                } else {
                    None
                }
            },
            None => None,
        }
    }

    /// Puts a backslash in front of every character that the shell gives a
    /// meaning of its own.
    pub fn escape_special_characters(candidate: &str) -> (r: String)
        ensures
            r@ == escaped(candidate@),
    {
        let chars = chars_of(candidate);
        let mut buf = String::new();
        let mut i: usize = 0;
        assert(chars@.take(0) =~= seq![]);
        while i < chars.len()
            invariant
                i <= chars.len(),
                buf@ == escaped(chars@.take(i as int)),
            decreases chars.len() - i,
        {
            let ch = chars[i];
            assert(chars@.take(i + 1).drop_last() =~= chars@.take(i as int));
            if ch == '\\' || ch == ' ' || ch == '\t' || ch == '\n' || ch == '@' || ch == ';' || ch
                == '&' || ch == '|' || ch == '$' || ch == '(' || ch == ')' || ch == '[' || ch == ']'
                || ch == '\'' || ch == '"' || ch == '=' || ch == '?' || ch == '{' || ch == '}' {
                buf.push('\\');
            }
            buf.push(ch);
            i += 1;
        }
        assert(chars@.take(i as int) =~= chars@);
        buf
    }
}

impl Complete for FileCompletion {
    open spec fn candidates_of(&self, words: Seq<Seq<char>>) -> Seq<Seq<char>> {
        if words.len() == 0 {
            seq![]
        } else {
            match found(self@, words.last()) {
                Some(c) => c,
                None => seq![],
            }
        }
    }

    fn candidates(&self, words: &[&str]) -> (r: Vec<String>) {
        if words.len() == 0 {
            let out: Vec<String> = Vec::new();
            assert(texts(out@) =~= seq![]);
            return out;
        }
        let word = words[words.len() - 1];
        assert(word@ == word_texts(words@).last());
        match self.find(word) {
            Some(c) => c,
            None => {
                let out: Vec<String> = Vec::new();
                assert(texts(out@) =~= seq![]);
                out
            },
        }
    }
}

// ------------------------------------------------------------ commands

/// A provider that a rule or the fallback of the command completer can be.
pub enum Completer {
    Words(StaticWordCompletion),
    Files(FileCompletion),
}

impl Complete for Completer {
    open spec fn candidates_of(&self, words: Seq<Seq<char>>) -> Seq<Seq<char>> {
        match self {
            Completer::Words(c) => c.candidates_of(words),
            Completer::Files(c) => c.candidates_of(words),
        }
    }

    fn candidates(&self, words: &[&str]) -> (r: Vec<String>) {
        match self {
            Completer::Words(c) => c.candidates(words),
            Completer::Files(c) => c.candidates(words),
        }
    }
}

/// One rule of the command completer: the provider for the arguments of one
/// command.
pub struct Rule {
    pub command: String,
    pub completion: Completer,
}

/// Completes a command line: the command's name from the known commands, its
/// arguments by the command's rule, or by the fallback where it has none.
pub struct CommandCompletion {
    commands: StaticWordCompletion,
    rules: Vec<Rule>,
    fallback: Completer,
}

/// The index of the rule for a command: the first one of that name.
pub open spec fn rule_index(rules: Seq<Rule>, command: Seq<char>) -> Option<int>
    decreases rules.len(),
{
    if rules.len() == 0 {
        None
    } else {
        match rule_index(rules.drop_last(), command) {
            Some(i) => Some(i),
            None => if rules.last().command@ == command {
                Some(rules.len() - 1)
            } else {
                None
            },
        }
    }
}

/// The rule that `rule_index` names is in the list and has that command, and
/// no rule before it has; without one, no rule has that command.
pub proof fn lemma_rule_index(rules: Seq<Rule>, command: Seq<char>)
    ensures
        match rule_index(rules, command) {
            Some(i) => 0 <= i < rules.len() && rules[i].command@ == command && forall|k: int|
                0 <= k < i ==> (#[trigger] rules[k]).command@ != command,
            None => forall|k: int| 0 <= k < rules.len() ==> (#[trigger] rules[k]).command@ != command,
        },
    decreases rules.len(),
{
    if rules.len() > 0 {
        lemma_rule_index(rules.drop_last(), command);
        match rule_index(rules.drop_last(), command) {
            Some(i) => {
                assert(rules.drop_last()[i] == rules[i]);
                assert forall|k: int| 0 <= k < i implies (#[trigger] rules[k]).command@
                    != command by {
                    assert(rules.drop_last()[k] == rules[k]);
                }
            },
            None => {
                assert forall|k: int| 0 <= k < rules.len() - 1 implies (#[trigger] rules[k]).command@
                    != command by {
                    assert(rules.drop_last()[k] == rules[k]);
                }
            },
        }
    }
}

/// Whether a rule is for `command` and completes from the list `words`.
pub open spec fn completes_from(rule: Rule, command: Seq<char>, words: Seq<Seq<char>>) -> bool {
    &&& rule.command@ == command
    &&& rule.completion matches Completer::Words(w) && w.items() == words
}

impl CommandCompletion {
    pub closed spec fn commands(&self) -> Seq<Seq<char>> {
        self.commands.items()
    }

    pub closed spec fn rules(&self) -> Seq<Rule> {
        self.rules@
    }

    pub closed spec fn fallback(&self) -> Completer {
        self.fallback
    }

    pub fn new(commands: Vec<String>, fallback: Completer) -> (r: Self)
        ensures
            r.commands() == texts(commands@),
            r.rules() == Seq::<Rule>::empty(),
            r.fallback() == fallback,
    {
        Self { commands: StaticWordCompletion::new(commands), rules: Vec::new(), fallback }
    }

    fn find_rule(&self, command: &str) -> (r: Option<usize>)
        ensures
            match r {
                Some(i) => i < self.rules().len() && rule_index(self.rules(), command@) == Some(
                    i as int,
                ),
                None => rule_index(self.rules(), command@) is None,
            },
    {
        let mut i: usize = 0;
        assert(self.rules@.take(0) =~= seq![]);
        while i < self.rules.len()
            invariant
                i <= self.rules.len(),
                rule_index(self.rules@.take(i as int), command@) is None,
            decreases self.rules.len() - i,
        {
            assert(self.rules@.take(i + 1).drop_last() =~= self.rules@.take(i as int));
            if same_text(self.rules[i].command.as_str(), command) {
                proof {
                    lemma_rule_index(self.rules@, command@);
                    lemma_rule_index(self.rules@.take(i as int), command@);
                    assert forall|k: int| 0 <= k < i implies (#[trigger] self.rules@[k]).command@
                        != command@ by {
                        assert(self.rules@.take(i as int)[k] == self.rules@[k]);
                    }
                    let j = rule_index(self.rules@, command@)->0;
                    assert(rule_index(self.rules@, command@) is Some) by {
                        if rule_index(self.rules@, command@) is None {
                            assert(self.rules@[i as int].command@ != command@);
                        }
                    }
                    assert(j == i) by {
                        if j < i {
                            assert(self.rules@[j].command@ != command@);
                        }
                        if i < j {
                            assert(self.rules@[i as int].command@ != command@);
                        }
                    }
                }
                return Some(i);
            }
            i += 1;
        }
        assert(self.rules@.take(i as int) =~= self.rules@);
        None
    }

    /// The directory and the pattern for a partial path, where the fallback
    /// completes file names.
    pub fn file_query(&self, partial: &str) -> (r: Option<FileQuery>)
        ensures
            match self.fallback() {
                Completer::Files(f) => match query_of(partial@, f@.home, f@.cwd) {
                    Some((dir, pattern)) => r is Some && r->0.dir@ == dir && r->0.pattern@
                        == pattern,
                    None => r is None,
                },
                Completer::Words(_) => r is None,
            },
    {
        match &self.fallback {
            Completer::Files(f) => f.query(partial),
            Completer::Words(_) => None,
        }
    }

    /// Tells a fallback that completes file names the home directory and the
    /// current directory.
    pub fn set_dirs(&mut self, home: Option<String>, cwd: Option<String>)
        ensures
            final(self).commands() == old(self).commands(),
            final(self).rules() == old(self).rules(),
            match old(self).fallback() {
                Completer::Files(f) => final(self).fallback() matches Completer::Files(g) && g@ == (
                FileCompletionView { home: opt_text(home), cwd: opt_text(cwd), ..f@ }),
                Completer::Words(_) => final(self).fallback() == old(self).fallback(),
            },
    {
        match &mut self.fallback {
            Completer::Files(f) => f.set_dirs(home, cwd),
            Completer::Words(_) => {},
        }
    }

    /// Hands the entries of the directory `dir` to a fallback that completes
    /// file names.
    pub fn set_listing(&mut self, dir: String, entries: Vec<DirEntry>)
        ensures
            final(self).commands() == old(self).commands(),
            final(self).rules() == old(self).rules(),
            match old(self).fallback() {
                Completer::Files(f) => final(self).fallback() matches Completer::Files(g) && g@ == (
                FileCompletionView {
                    listed: Some(dir@),
                    entries: entry_views(entries@),
                    ..f@
                }),
                Completer::Words(_) => final(self).fallback() == old(self).fallback(),
            },
    {
        match &mut self.fallback {
            Completer::Files(f) => f.set_listing(dir, entries),
            Completer::Words(_) => {},
        }
    }

    /// Sets the rule for a command, in place of the one it had.
    pub fn add_completion(&mut self, cmd: String, completion: Completer)
        ensures
            final(self).commands() == old(self).commands(),
            final(self).fallback() == old(self).fallback(),
            match rule_index(old(self).rules(), cmd@) {
                Some(i) => final(self).rules() == old(self).rules().update(
                    i,
                    Rule { command: cmd, completion },
                ),
                None => final(self).rules() == old(self).rules().push(
                    Rule { command: cmd, completion },
                ),
            },
    {
        match self.find_rule(cmd.as_str()) {
            Some(i) => {
                self.rules[i] = Rule { command: cmd, completion };
            },
            None => {
                self.rules.push(Rule { command: cmd, completion });
            },
        }
    }

    /// Takes a new list of commands; `sudo` completes its arguments from the
    /// same list.
    pub fn update_commands(&mut self, new_commands: Vec<String>)
        ensures
            final(self).commands() == texts(new_commands@),
            final(self).fallback() == old(self).fallback(),
            exists|rule: Rule|
                {
                    &&& #[trigger] completes_from(rule, "sudo"@, texts(new_commands@))
                    &&& final(self).rules() == match rule_index(old(self).rules(), "sudo"@) {
                        Some(i) => old(self).rules().update(i, rule),
                        None => old(self).rules().push(rule),
                    }
                },
    {
        let mut copy: Vec<String> = Vec::new();
        let mut i: usize = 0;
        assert(texts(copy@) =~= texts(new_commands@).take(0));
        while i < new_commands.len()
            invariant
                i <= new_commands.len(),
                texts(copy@) == texts(new_commands@).take(i as int),
            decreases new_commands.len() - i,
        {
            let ghost before = texts(copy@);
            let s = clone_string(&new_commands[i]);
            assert(s@ == texts(new_commands@)[i as int]);
            copy.push(s);
            assert(texts(copy@) =~= before.push(s@));
            i += 1;
            assert(texts(copy@) =~= texts(new_commands@).take(i as int));
        }
        assert(texts(new_commands@).take(i as int) =~= texts(new_commands@));
        self.commands = StaticWordCompletion::new(new_commands);
        let name = String::from_str("sudo");
        let completion = Completer::Words(StaticWordCompletion::new(copy));
        let ghost rule = Rule { command: name, completion };
        self.add_completion(name, completion);
        assert(completes_from(rule, "sudo"@, texts(new_commands@)));
        assert(final(self).rules() == match rule_index(old(self).rules(), "sudo"@) {
            Some(i) => old(self).rules().update(i, rule),
            None => old(self).rules().push(rule),
        });
    }
}

impl Complete for CommandCompletion {
    open spec fn candidates_of(&self, words: Seq<Seq<char>>) -> Seq<Seq<char>> {
        if words.len() <= 1 {
            if words.len() == 0 {
                seq![]
            } else {
                stripped(self.commands(), words.last())
            }
        } else {
            match rule_index(self.rules(), words[0]) {
                Some(i) => self.rules()[i].completion.candidates_of(words),
                None => self.fallback().candidates_of(words),
            }
        }
    }

    fn candidates(&self, words: &[&str]) -> (r: Vec<String>) {
        if words.len() <= 1 {
            self.commands.candidates(words)
        } else {
            assert(words@[0]@ == word_texts(words@)[0]);
            match self.find_rule(words[0]) {
                Some(i) => self.rules[i].completion.candidates(words),
                None => self.fallback.candidates(words),
            }
        }
    }
}

} // verus!
