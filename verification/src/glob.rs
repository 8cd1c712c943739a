//! The expansion of a `*` pattern against the file system, as a walk that asks
//! for one directory listing at a time. Whoever drives the walk lists each
//! directory it asks for and hands the entries in.

use vstd::prelude::*;
use crate::pattern::{
    byte_views, glob_match, has_wildcard, join_path, join_spaced, joined_path, pattern_segments,
    spaced, split_pattern,
};

verus! {

/// What an entry of a directory is, for the walk.
#[derive(Debug, Clone, Copy, PartialEq, Eq, Structural)]
pub enum EntryKind {
    /// A directory, or a symbolic link that leads to one.
    Directory,
    /// Anything else, a symbolic link that leads nowhere too.
    File,
    /// The system did not tell: the entry is passed over.
    Unknown,
}

/// One entry of a directory listing.
pub struct GlobEntry {
    pub name: Vec<u8>,
    pub kind: EntryKind,
}

pub struct GlobEntryView {
    pub name: Seq<u8>,
    pub kind: EntryKind,
}

impl View for GlobEntry {
    type V = GlobEntryView;

    open spec fn view(&self) -> GlobEntryView {
        GlobEntryView { name: self.name@, kind: self.kind }
    }
}

/// The views of the entries of a listing.
pub open spec fn listing_view(v: Seq<GlobEntry>) -> Seq<GlobEntryView> {
    v.map_values(|e: GlobEntry| e@)
}

/// A file system as the walk sees it: the entries of each directory, in the
/// order in which the system gives them; `None` for what cannot be listed.
pub type Listings = spec_fn(Seq<u8>) -> Option<Seq<GlobEntryView>>;

/// The paths that the entries of `dir` from the `k`th on give, for the
/// segments of the pattern from `depth` on: an entry that matches the last
/// segment gives its path; one that matches an earlier segment and is a
/// directory gives what its own entries give for the next segment.
pub open spec fn found(
    fs: Listings,
    dir: Seq<u8>,
    segs: Seq<Seq<u8>>,
    depth: int,
    entries: Seq<GlobEntryView>,
    k: int,
) -> Seq<Seq<u8>>
    decreases segs.len() - depth, 1int, entries.len() - k,
{
    if depth < 0 || depth >= segs.len() || k < 0 || k >= entries.len() {
        seq![]
    } else {
        entry_gives(fs, dir, segs, depth, entries[k]) + found(fs, dir, segs, depth, entries, k + 1)
    }
}

/// The paths that one entry of `dir` gives.
pub open spec fn entry_gives(
    fs: Listings,
    dir: Seq<u8>,
    segs: Seq<Seq<u8>>,
    depth: int,
    e: GlobEntryView,
) -> Seq<Seq<u8>>
    decreases segs.len() - depth, 0int, 0int,
    when 0 <= depth < segs.len()
{
    if e.kind != EntryKind::Unknown && glob_match(segs[depth], e.name) {
        let path = joined_path(dir, e.name);
        if depth == segs.len() - 1 {
            seq![path]
        } else if e.kind == EntryKind::Directory {
            found_in(fs, path, segs, depth + 1)
        } else {
            seq![]
        }
    } else {
        seq![]
    }
}

/// The paths that a directory gives for the segments from `depth` on: none
/// where it cannot be listed.
pub open spec fn found_in(fs: Listings, dir: Seq<u8>, segs: Seq<Seq<u8>>, depth: int) -> Seq<
    Seq<u8>,
>
    decreases segs.len() - depth, 2int, 0int,
    when 0 <= depth <= segs.len()
{
    match fs(dir) {
        Some(entries) => found(fs, dir, segs, depth, entries, 0),
        None => seq![],
    }
}

/// Where the matching of a pattern starts: at `/` for an absolute pattern,
/// else at the current directory.
pub open spec fn origin_of(pattern: Seq<u8>) -> Seq<u8> {
    if pattern.len() > 0 && pattern[0] == 0x2f {
        seq![0x2fu8]
    } else {
        seq![0x2eu8]
    }
}

/// The paths that a pattern matches in a file system, in the order of the
/// listings.
pub open spec fn matched_paths(fs: Listings, pattern: Seq<u8>) -> Seq<Seq<u8>> {
    found_in(fs, origin_of(pattern), pattern_segments(pattern), 0)
}

/// What a token expands to in a file system: itself without a `*`, else the
/// paths it matches with a space between each two, nothing where none
/// matches.
pub open spec fn expanded(fs: Listings, token: Seq<u8>) -> Seq<u8> {
    if token.contains(0x2a) {
        spaced(matched_paths(fs, token))
    } else {
        token
    }
}

/// A directory under way: its path, the index of the segment that its entries
/// are held against, its entries, and the index of the next entry to look at.
pub struct DirView {
    pub dir: Seq<u8>,
    pub depth: int,
    pub entries: Seq<GlobEntryView>,
    pub next: int,
}

/// A walk: the segments of its pattern, the directories under way with the
/// innermost last, the directory whose listing it waits for with the index of
/// the segment for its entries, and the paths found so far.
pub struct WalkView {
    pub segments: Seq<Seq<u8>>,
    pub under_way: Seq<DirView>,
    pub wanted: Option<(Seq<u8>, int)>,
    pub matched: Seq<Seq<u8>>,
}

/// The walk for a pattern before anything was listed: it waits for the
/// directory where the matching starts, unless the pattern has no segment.
pub open spec fn started(pattern: Seq<u8>) -> WalkView {
    WalkView {
        segments: pattern_segments(pattern),
        under_way: seq![],
        wanted: if pattern_segments(pattern).len() > 0 {
            Some((origin_of(pattern), 0int))
        } else {
            None
        },
        matched: seq![],
    }
}

/// How many entries of the innermost directory are still to look at.
pub open spec fn entries_left(v: WalkView) -> int {
    if v.under_way.len() > 0 && v.under_way.last().next < v.under_way.last().entries.len() {
        v.under_way.last().entries.len() - v.under_way.last().next
    } else {
        0
    }
}

/// The walk gone on as far as it can without a listing: it looks at the
/// entries of the innermost directory in turn and leaves a directory when
/// none is left. An entry that matches the last segment is found; one that
/// matches an earlier segment and is a directory is what the walk then waits
/// for. The walk is over when no directory is left.
pub open spec fn settled(v: WalkView) -> WalkView
    decreases v.under_way.len(), entries_left(v),
{
    if v.wanted is Some || v.under_way.len() == 0 {
        v
    } else {
        let top = v.under_way.last();
        if top.next < 0 || top.next >= top.entries.len() {
            settled(WalkView { under_way: v.under_way.drop_last(), ..v })
        } else {
            let e = top.entries[top.next];
            let w = WalkView {
                under_way: v.under_way.update(
                    v.under_way.len() - 1,
                    DirView { next: top.next + 1, ..top },
                ),
                ..v
            };
            if 0 <= top.depth < v.segments.len() && e.kind != EntryKind::Unknown && glob_match(
                v.segments[top.depth],
                e.name,
            ) {
                let path = joined_path(top.dir, e.name);
                if top.depth == v.segments.len() - 1 {
                    settled(WalkView { matched: v.matched.push(path), ..w })
                } else if e.kind == EntryKind::Directory {
                    WalkView { wanted: Some((path, top.depth + 1)), ..w }
                } else {
                    settled(w)
                }
            } else {
                settled(w)
            }
        }
    }
}

/// The walk after the listing of the directory that it waits for was handed
/// in: the directory is under way with these entries, or passed over where it
/// could not be listed, and the walk has gone on as far as it can.
pub open spec fn fed(v: WalkView, listing: Option<Seq<GlobEntryView>>) -> WalkView {
    match v.wanted {
        Some((dir, depth)) => settled(
            WalkView {
                under_way: match listing {
                    Some(entries) => v.under_way.push(DirView { dir, depth, entries, next: 0 }),
                    None => v.under_way,
                },
                wanted: None,
                ..v
            },
        ),
        None => v,
    }
}

/// A listing as the walk sees it.
pub open spec fn listing_of(listing: Option<Vec<GlobEntry>>) -> Option<Seq<GlobEntryView>> {
    match listing {
        Some(l) => Some(listing_view(l@)),
        None => None,
    }
}

struct Frame {
    dir: Vec<u8>,
    depth: usize,
    entries: Vec<GlobEntry>,
    next: usize,
}

/// The state of a walk.
pub struct GlobWalk {
    segments: Vec<Vec<u8>>,
    frames: Vec<Frame>,
    pending: Option<Frame>,
    matched: Vec<Vec<u8>>,
}

impl Frame {
    spec fn wf(&self, segs: int) -> bool {
        self.depth < segs && self.next <= self.entries@.len()
    }

    spec fn view(&self) -> DirView {
        DirView {
            dir: self.dir@,
            depth: self.depth as int,
            entries: listing_view(self.entries@),
            next: self.next as int,
        }
    }

    spec fn gives(&self, fs: Listings, segs: Seq<Seq<u8>>) -> Seq<Seq<u8>> {
        found(fs, self.dir@, segs, self.depth as int, listing_view(self.entries@), self.next as int)
    }
}

spec fn frames_give(fs: Listings, segs: Seq<Seq<u8>>, frames: Seq<Frame>) -> Seq<Seq<u8>>
    decreases frames.len(),
{
    if frames.len() == 0 {
        seq![]
    } else {
        frames.last().gives(fs, segs) + frames_give(fs, segs, frames.drop_last())
    }
}

spec fn frames_left(frames: Seq<Frame>) -> int
    decreases frames.len(),
{
    if frames.len() == 0 {
        0
    } else {
        1 + (frames.last().entries@.len() - frames.last().next) + frames_left(frames.drop_last())
    }
}

proof fn lemma_frames_left(frames: Seq<Frame>, segs: int)
    requires
        forall|i: int| 0 <= i < frames.len() ==> (#[trigger] frames[i]).wf(segs),
    ensures
        frames_left(frames) >= 0,
    decreases frames.len(),
{
    if frames.len() > 0 {
        assert forall|i: int| 0 <= i < frames.drop_last().len() implies (
        #[trigger] frames.drop_last()[i]).wf(segs) by {
            assert(frames.drop_last()[i] == frames[i]);
        }
        lemma_frames_left(frames.drop_last(), segs);
    }
}

impl View for GlobWalk {
    type V = WalkView;

    closed spec fn view(&self) -> WalkView {
        WalkView {
            segments: byte_views(self.segments@),
            under_way: self.frames@.map_values(|f: Frame| f.view()),
            wanted: match self.pending {
                Some(f) => Some((f.dir@, f.depth as int)),
                None => None,
            },
            matched: byte_views(self.matched@),
        }
    }
}

impl GlobWalk {
    /// Every directory under way belongs to a segment of the pattern.
    pub closed spec fn wf(&self) -> bool {
        &&& forall|i: int|
            0 <= i < self.frames@.len() ==> (#[trigger] self.frames@[i]).wf(
                self.segments@.len() as int,
            )
        &&& match self.pending {
            Some(f) => f.depth < self.segments@.len() && f.next == 0 && f.entries@.len() == 0,
            None => true,
        }
    }

    /// The directory whose listing the walk waits for; `None` when the walk
    /// is over.
    pub open spec fn wanted(&self) -> Option<Seq<u8>> {
        match self@.wanted {
            Some((dir, _)) => Some(dir),
            None => None,
        }
    }

    /// The paths found so far.
    pub open spec fn matched(&self) -> Seq<Seq<u8>> {
        self@.matched
    }

    /// The paths that the walk ends with in a file system: those found so
    /// far, then what the directory it waits for gives, then what is left of
    /// the directories under way.
    pub closed spec fn outcome(&self, fs: Listings) -> Seq<Seq<u8>> {
        let segs = byte_views(self.segments@);
        self.matched() + (match self.pending {
            Some(f) => found_in(fs, f.dir@, segs, f.depth as int),
            None => seq![],
        }) + frames_give(fs, segs, self.frames@)
    }

    /// A walk that is over has found all that it ends with.
    pub proof fn lemma_done(&self, fs: Listings)
        requires
            self.wf(),
            self.wanted() is None,
            self.is_over(),
        ensures
            self.outcome(fs) == self.matched(),
    {
        assert(self.outcome(fs) =~= self.matched());
    }

    /// Whether no directory is under way.
    pub open spec fn is_over(&self) -> bool {
        self@.under_way.len() == 0
    }

    /// Starts the walk for a pattern.
    pub fn new(pattern: &[u8]) -> (r: Self)
        ensures
            r.wf(),
            r@ == started(pattern@),
            forall|fs: Listings| #[trigger] r.outcome(fs) == matched_paths(fs, pattern@),
    {
        let segments = split_pattern(pattern);
        let mut origin: Vec<u8> = Vec::new();
        if pattern.len() > 0 && pattern[0] == 0x2f {
            origin.push(0x2f);
        } else {
            origin.push(0x2e);
        }
        assert(origin@ =~= origin_of(pattern@));
        let pending = if segments.len() > 0 {
            Some(Frame { dir: origin, depth: 0, entries: Vec::new(), next: 0 })
        } else {
            None
        };
        let r = Self { segments, frames: Vec::new(), pending, matched: Vec::new() };
        proof {
            assert(r@.under_way =~= seq![]);
            assert(r@.matched =~= seq![]);
            assert forall|fs: Listings| #[trigger] r.outcome(fs) == matched_paths(fs, pattern@) by {
                let segs = pattern_segments(pattern@);
                if segs.len() == 0 {
                    assert(r.outcome(fs) =~= seq![]);
                    assert(matched_paths(fs, pattern@) =~= seq![]);
                } else {
                    assert(r.outcome(fs) =~= found_in(fs, origin_of(pattern@), segs, 0));
                }
            }
        }
        r
    }

    /// The directory to list next; `None` when the walk is over.
    pub fn request(&self) -> (r: Option<&Vec<u8>>)
        ensures
            match self.wanted() {
                Some(dir) => r is Some && r->0@ == dir,
                None => r is None,
            },
    {
        match &self.pending {
            Some(f) => Some(&f.dir),
            None => None,
        }
    }

    fn advance(&mut self)
        requires
            old(self).wf(),
            old(self).pending is None,
        ensures
            final(self).wf(),
            final(self)@ == settled(old(self)@),
            forall|fs: Listings| #[trigger] final(self).outcome(fs) == old(self).outcome(fs),
            final(self).wanted() is None ==> final(self).is_over(),
    {
        proof {
            lemma_frames_left(self.frames@, self.segments@.len() as int);
        }
        while self.frames.len() > 0 && self.pending.is_none()
            invariant
                self.wf(),
                self.segments == old(self).segments,
                settled(self@) == settled(old(self)@),
                forall|fs: Listings| #[trigger] self.outcome(fs) == old(self).outcome(fs),
                frames_left(self.frames@) >= 0,
            decreases frames_left(self.frames@) + (if self.pending is None { 1int } else { 0int }),
        {
            let ghost before = *self;
            let ghost segs = byte_views(self.segments@);
            let top = self.frames.len() - 1;
            let ghost under = self.frames@.drop_last();
            let ghost old_top = self.frames@[top as int];
            assert(self.frames@.drop_last() =~= under);
            if self.frames[top].next >= self.frames[top].entries.len() {
                self.frames.pop();
                proof {
                    assert(self.frames@ =~= under);
                    assert(self@.under_way =~= before@.under_way.drop_last());
                    assert forall|fs: Listings| #[trigger] self.outcome(fs) == before.outcome(
                        fs,
                    ) by {
                        assert(old_top.gives(fs, segs) =~= seq![]);
                        assert(self.outcome(fs) =~= before.outcome(fs));
                    }
                    assert forall|i: int| 0 <= i < under.len() implies (#[trigger] under[i]).wf(
                        self.segments@.len() as int,
                    ) by {
                        assert(under[i] == before.frames@[i]);
                    }
                    lemma_frames_left(self.frames@, self.segments@.len() as int);
                }
            } else {
                assert(old_top.wf(self.segments@.len() as int));
                let k = self.frames[top].next;
                let depth = self.frames[top].depth;
                let kind = self.frames[top].entries[k].kind;
                let hit = match kind {
                    EntryKind::Unknown => false,
                    _ => crate::pattern::pattern_matches(
                        self.segments[depth].as_slice(),
                        self.frames[top].entries[k].name.as_slice(),
                    ),
                };
                let path = if hit {
                    Some(
                        join_path(
                            self.frames[top].dir.as_slice(),
                            self.frames[top].entries[k].name.as_slice(),
                        ),
                    )
                } else {
                    None
                };
                let count = self.segments.len();
                let last = depth == count - 1;
                self.frames[top].next = k + 1;
                let ghost new_top = self.frames@[top as int];
                let ghost e = listing_view(old_top.entries@)[k as int];
                proof {
                    assert(self.frames@ =~= under.push(new_top));
                    assert(self.frames@.drop_last() =~= under);
                    assert(segs[depth as int] == self.segments@[depth as int]@);
                    assert(e == old_top.entries@[k as int]@);
                    assert forall|i: int| 0 <= i < self.frames@.len() implies (
                    #[trigger] self.frames@[i]).wf(self.segments@.len() as int) by {
                        if i < top {
                            assert(self.frames@[i] == before.frames@[i]);
                        }
                    }
                    assert forall|i: int| 0 <= i < under.len() implies (#[trigger] under[i]).wf(
                        self.segments@.len() as int,
                    ) by {
                        assert(under[i] == before.frames@[i]);
                    }
                    lemma_frames_left(under, self.segments@.len() as int);
                }
                let ghost mid = *self;
                match path {
                    Some(p) => {
                        if last {
                            let ghost found_before = byte_views(self.matched@);
                            self.matched.push(p);
                            assert(byte_views(self.matched@) =~= found_before.push(p@));
                        } else {
                            match kind {
                                EntryKind::Directory => {
                                    self.pending = Some(
                                        Frame {
                                            dir: p,
                                            depth: depth + 1,
                                            entries: Vec::new(),
                                            next: 0,
                                        },
                                    );
                                },
                                _ => {},
                            }
                        }
                    },
                    None => {},
                }
                proof {
                    let top_view = before@.under_way.last();
                    assert(top_view == old_top.view());
                    assert(top_view.entries[k as int] == e);
                    assert(before@.segments[depth as int] == segs[depth as int]);
                    assert(self@.under_way =~= before@.under_way.update(
                        before@.under_way.len() - 1,
                        DirView { next: top_view.next + 1, ..top_view },
                    ));
                    if self.pending is Some {
                        assert(self@ == settled(before@));
                    } else {
                        assert(settled(self@) == settled(before@));
                    }
                }
                proof {
                    assert forall|fs: Listings| #[trigger] self.outcome(fs) == before.outcome(
                        fs,
                    ) by {
                        let gives = entry_gives(fs, old_top.dir@, segs, depth as int, e);
                        assert(old_top.gives(fs, segs) == gives + new_top.gives(fs, segs));
                        assert(frames_give(fs, segs, before.frames@) == old_top.gives(fs, segs)
                            + frames_give(fs, segs, under));
                        assert(frames_give(fs, segs, self.frames@) == new_top.gives(fs, segs)
                            + frames_give(fs, segs, under));
                        assert(self.outcome(fs) =~= before.outcome(fs));
                    }
                }
            }
        }
    }

    /// Takes the listing of the directory asked for (`None` where it cannot
    /// be listed) and goes on to the next directory to list, or to the end:
    /// the walk is then what `fed` says. Whatever the file system, if the
    /// listing is the one that it has for that directory, the walk still ends
    /// with the same paths.
    pub fn feed(&mut self, listing: Option<Vec<GlobEntry>>)
        requires
            old(self).wf(),
            old(self).wanted() is Some,
        ensures
            final(self).wf(),
            final(self)@ == fed(old(self)@, listing_of(listing)),
            final(self).wanted() is None ==> final(self).is_over(),
            forall|fs: Listings|
                fs(old(self).wanted()->0) == listing_of(listing) ==> #[trigger] final(self).outcome(
                    fs,
                ) == old(self).outcome(fs),
    {
        let ghost before = *self;
        let ghost segs = byte_views(self.segments@);
        let frame = self.pending.take().unwrap();
        match listing {
            Some(entries) => {
                let ghost under = self.frames@;
                let pushed = Frame { dir: frame.dir, depth: frame.depth, entries, next: 0 };
                self.frames.push(pushed);
                proof {
                    assert(self.frames@.drop_last() =~= under);
                    match before@.wanted {
                        Some((dir, depth)) => {
                            assert(self@.under_way =~= before@.under_way.push(
                                DirView { dir, depth, entries: listing_view(entries@), next: 0 },
                            ));
                        },
                        None => {},
                    }
                    assert forall|i: int| 0 <= i < self.frames@.len() implies (
                    #[trigger] self.frames@[i]).wf(self.segments@.len() as int) by {
                        if i < under.len() {
                            assert(self.frames@[i] == under[i]);
                        }
                    }
                    assert forall|fs: Listings|
                        fs(before.wanted()->0) == Some(
                            listing_view(entries@),
                        ) implies #[trigger] self.outcome(fs) == before.outcome(fs) by {
                        assert(self.outcome(fs) =~= before.outcome(fs));
                    }
                }
            },
            None => {
                proof {
                    assert(self@.under_way =~= before@.under_way);
                    assert forall|fs: Listings|
                        fs(before.wanted()->0) == None::<
                            Seq<GlobEntryView>,
                        > implies #[trigger] self.outcome(fs) == before.outcome(fs) by {
                        assert(self.outcome(fs) =~= before.outcome(fs));
                    }
                }
            },
        }
        let ghost mid = *self;
        self.advance();
        proof {
            assert forall|fs: Listings|
                fs(before.wanted()->0) == listing_of(listing) implies #[trigger] self.outcome(fs)
                == before.outcome(fs) by {
                assert(self.outcome(fs) == mid.outcome(fs));
            }
        }
    }

    /// The paths found, with a space between each two.
    pub fn finish(&self) -> (r: Vec<u8>)
        ensures
            r@ == spaced(self.matched()),
    {
        join_spaced(&self.matched)
    }
}

/// What there is to do for a token: nothing, or a walk.
pub enum PatternExpansion {
    /// The token holds no `*` and stands for itself.
    Plain(Vec<u8>),
    /// The token is a pattern: this walk finds what it matches.
    Walk(GlobWalk),
}

/// Starts the expansion of a token. A token without `*` stays as it is; for a
/// pattern the walk, once over, has found what the pattern matches.
pub fn expand_pattern(bytes: &[u8]) -> (r: PatternExpansion)
    ensures
        match r {
            PatternExpansion::Plain(b) => !bytes@.contains(0x2a) && b@ == bytes@,
            PatternExpansion::Walk(w) => bytes@.contains(0x2a) && w.wf() && w@ == started(bytes@)
                && (forall|fs: Listings| #[trigger] w.outcome(fs) == matched_paths(fs, bytes@)),
        },
{
    if has_wildcard(bytes) {
        PatternExpansion::Walk(GlobWalk::new(bytes))
    } else {
        let mut out: Vec<u8> = Vec::new();
        assert(bytes@.skip(0) =~= bytes@);
        crate::pattern::push_bytes(&mut out, bytes, 0);
        PatternExpansion::Plain(out)
    }
}

} // verus!
