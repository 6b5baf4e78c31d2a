//! The directory scanner: every image file under a directory, down to a
//! bounded depth.
//!
//! Reading a directory is the caller's part. The [`Scanner`] says which
//! directory to read next and is told what the read returned; it decides
//! what counts as an image, which directories are still shallow enough to
//! be read, and that one failed read fails the whole scan.

use vstd::prelude::*;
use vstd::multiset::Multiset;
use vstd::string::StringExecFns;
use crate::error::PipelineError;
use crate::error::PipelineErrorView;
use crate::path::extension;
use crate::path::extension_of;
use crate::text::texts;

verus! {

/// How far below the root the scan reads by default: the root and two
/// levels of directories under it.
pub const MAX_DEPTH: usize = 2;

/// What kind of thing a directory entry is, as the file system reports it
/// without following links.
#[derive(Clone, Copy, Debug, PartialEq, Eq, Structural)]
pub enum EntryKind {
    Directory,
    File,
    Symlink,
    Other,
}

/// One entry of a directory: its path and its kind.
#[derive(Clone, Debug, PartialEq, Eq)]
pub struct DirEntry {
    pub path: String,
    pub kind: EntryKind,
}

/// The mathematical value of a [`DirEntry`].
pub struct DirEntryView {
    pub path: Seq<char>,
    pub kind: EntryKind,
}

impl View for DirEntry {
    type V = DirEntryView;

    open spec fn view(&self) -> DirEntryView {
        DirEntryView { path: self.path@, kind: self.kind }
    }
}

/// The views of a listing.
pub open spec fn entry_views(entries: Seq<DirEntry>) -> Seq<DirEntryView> {
    entries.map_values(|e: DirEntry| e@)
}

/// The extensions that mark an image. The match is exact: `JPG` is none of
/// them.
pub open spec fn allowed_extension(ext: Seq<char>) -> bool {
    ext == "jpg"@ || ext == "jpeg"@ || ext == "png"@
}

/// Whether the path ends in one of the allowed extensions.
pub open spec fn names_image(path: Seq<char>) -> bool {
    match extension_of(path) {
        Some(ext) => allowed_extension(ext),
        None => false,
    }
}

/// Whether an entry is a candidate image: a file, or a link, with an allowed
/// extension.
pub open spec fn is_image(e: DirEntryView) -> bool {
    (e.kind == EntryKind::File || e.kind == EntryKind::Symlink) && names_image(e.path)
}

/// The images of a listing, in its order.
pub open spec fn images_in(entries: Seq<DirEntryView>) -> Seq<Seq<char>>
    decreases entries.len(),
{
    if entries.len() == 0 {
        Seq::empty()
    } else {
        let before = images_in(entries.drop_last());
        if is_image(entries.last()) {
            before.push(entries.last().path)
        } else {
            before
        }
    }
}

/// The directories of a listing, in its order, each with the depth `depth`.
pub open spec fn directories_in(entries: Seq<DirEntryView>, depth: nat) -> Seq<(Seq<char>, nat)>
    decreases entries.len(),
{
    if entries.len() == 0 {
        Seq::empty()
    } else {
        let before = directories_in(entries.drop_last(), depth);
        if entries.last().kind == EntryKind::Directory {
            before.push((entries.last().path, depth))
        } else {
            before
        }
    }
}

/// Whether the path ends in one of the allowed extensions.
pub fn has_allowed_extension(path: &str) -> (r: bool)
    ensures
        r == names_image(path@),
{
    match extension(path) {
        None => false,
        Some(ext) => {
            ext == String::from_str("jpg") || ext == String::from_str("jpeg") || ext
                == String::from_str("png")
        },
    }
}

/// The state of a scan.
#[derive(Debug)]
pub struct Scanner {
    max_depth: usize,
    pending: Vec<(String, usize)>,
    reading: Option<usize>,
    found: Vec<String>,
    failure: Option<String>,
}

/// The mathematical value of a [`Scanner`].
pub struct ScannerView {
    /// The depth of the deepest directories that are read; the root has
    /// depth 0.
    pub max_depth: nat,
    /// The directories that are still to be read, each with its depth.
    pub pending: Seq<(Seq<char>, nat)>,
    /// The depth of the directory whose listing is awaited.
    pub reading: Option<nat>,
    /// The images found so far.
    pub found: Seq<Seq<char>>,
    /// The diagnostic of the read that failed.
    pub failure: Option<Seq<char>>,
}

/// The views of a list of directories with their depths.
pub open spec fn pending_views(pending: Seq<(String, usize)>) -> Seq<(Seq<char>, nat)> {
    pending.map_values(|p: (String, usize)| (p.0@, p.1 as nat))
}

/// The state after the listing `entries` of a directory at depth `depth`:
/// its images are found, and its directories are pending unless they lie
/// deeper than the scan reads.
pub open spec fn after_listing(s: ScannerView, depth: nat, entries: Seq<DirEntryView>) -> ScannerView {
    ScannerView {
        max_depth: s.max_depth,
        pending: if depth < s.max_depth {
            s.pending + directories_in(entries, depth + 1)
        } else {
            s.pending
        },
        reading: None,
        found: s.found + images_in(entries),
        failure: s.failure,
    }
}

impl View for Scanner {
    type V = ScannerView;

    closed spec fn view(&self) -> ScannerView {
        ScannerView {
            max_depth: self.max_depth as nat,
            pending: pending_views(self.pending@),
            reading: match self.reading {
                Some(d) => Some(d as nat),
                None => None,
            },
            found: texts(self.found@),
            failure: match self.failure {
                Some(m) => Some(m@),
                None => None,
            },
        }
    }
}

impl Scanner {
    /// Every pending directory, and the one being read, is shallow enough
    /// to be read.
    #[verifier::type_invariant]
    spec fn shallow(self) -> bool {
        &&& forall|i: int|
            0 <= i < self.pending@.len() ==> (#[trigger] self.pending@[i]).1 <= self.max_depth
        &&& match self.reading {
            Some(d) => d <= self.max_depth,
            None => true,
        }
    }

    /// A scan of the tree under `root` that reads directories down to depth
    /// `max_depth`.
    pub fn new(root: &str, max_depth: usize) -> (r: Scanner)
        ensures
            r@ == (ScannerView {
                max_depth: max_depth as nat,
                pending: seq![(root@, 0nat)],
                reading: None,
                found: Seq::empty(),
                failure: None,
            }),
    {
        let mut pending: Vec<(String, usize)> = Vec::new();
        pending.push((String::from_str(root), 0));
        let r = Scanner { max_depth, pending, reading: None, found: Vec::new(), failure: None };
        assert(r@.pending =~= seq![(root@, 0nat)]);
        assert(r@.found =~= Seq::empty());
        r
    }

    /// The directory to read next, if the scan is not over: the one that
    /// became pending last. Its listing goes to [`Scanner::listed`]. A scan
    /// is over once a read has failed or nothing is pending.
    pub fn next_directory(&mut self) -> (r: Option<String>)
        ensures
            match r {
                Some(dir) => {
                    &&& old(self)@.failure is None
                    &&& old(self)@.pending.len() > 0
                    &&& dir@ == old(self)@.pending.last().0
                    &&& final(self)@ == (ScannerView {
                        pending: old(self)@.pending.drop_last(),
                        reading: Some(old(self)@.pending.last().1),
                        ..old(self)@
                    })
                },
                None => {
                    &&& old(self)@.failure is Some || old(self)@.pending.len() == 0
                    &&& final(self)@ == old(self)@
                },
            },
    {
        proof {
            use_type_invariant(&*self);
        }
        if self.failure.is_some() {
            return None;
        }
        let ghost before = self.pending@;
        let mut pending: Vec<(String, usize)> = Vec::new();
        core::mem::swap(&mut self.pending, &mut pending);
        match pending.pop() {
            None => {
                assert(self.pending@ =~= before);
                None
            },
            Some((dir, depth)) => {
                proof {
                    assert(pending@ == before.drop_last());
                    assert(pending_views(before.drop_last()) =~= pending_views(before).drop_last());
                    assert(pending_views(before).last() == (dir@, depth as nat));
                    assert(before.last().1 <= self.max_depth);
                }
                self.reading = Some(depth);
                core::mem::swap(&mut self.pending, &mut pending);
                Some(dir)
            },
        }
    }

    /// Whether the scan is over.
    pub fn is_finished(&self) -> (r: bool)
        ensures
            r == (self@.failure is Some || (self@.pending.len() == 0 && self@.reading is None)),
    {
        self.failure.is_some() || (self.pending.len() == 0 && self.reading.is_none())
    }

    /// Takes in what the read of the directory that [`Scanner::next_directory`]
    /// handed out returned: its entries, or the system's diagnostic. A failed
    /// read fails the scan. Without a directory handed out, nothing changes.
    pub fn listed(&mut self, listing: Result<Vec<DirEntry>, String>)
        ensures
            final(self)@ == match old(self)@.reading {
                None => old(self)@,
                Some(depth) => match listing {
                    Err(message) => ScannerView {
                        reading: None,
                        failure: Some(message@),
                        ..old(self)@
                    },
                    Ok(entries) => after_listing(old(self)@, depth, entry_views(entries@)),
                },
            },
    {
        proof {
            use_type_invariant(&*self);
        }
        let depth = match self.reading {
            None => {
                return ;
            },
            Some(depth) => depth,
        };
        let entries = match listing {
            Err(message) => {
                self.reading = None;
                self.failure = Some(message);
                return ;
            },
            Ok(entries) => entries,
        };
        let ghost start = self@;
        let ghost all = entry_views(entries@);
        let max_depth = self.max_depth;
        let descend: bool = depth < max_depth;
        let mut pending: Vec<(String, usize)> = Vec::new();
        let mut found: Vec<String> = Vec::new();
        core::mem::swap(&mut self.pending, &mut pending);
        core::mem::swap(&mut self.found, &mut found);
        let mut i: usize = 0;
        proof {
            assert(all.take(0) =~= Seq::<DirEntryView>::empty());
            assert(start.found + images_in(all.take(0)) =~= start.found);
            assert(start.pending + directories_in(all.take(0), (depth + 1) as nat)
                =~= start.pending);
        }
        while i < entries.len()
            invariant
                i <= entries.len(),
                all == entry_views(entries@),
                descend == (depth < max_depth),
                depth <= max_depth,
                forall|k: int| 0 <= k < pending@.len() ==> (#[trigger] pending@[k]).1 <= max_depth,
                texts(found@) == start.found + images_in(all.take(i as int)),
                pending_views(pending@) == if descend {
                    start.pending + directories_in(all.take(i as int), (depth + 1) as nat)
                } else {
                    start.pending
                },
            decreases entries.len() - i,
        {
            let ghost seen_found = found@;
            let ghost seen_pending = pending@;
            proof {
                assert(all.take(i + 1).drop_last() =~= all.take(i as int));
                assert(all.take(i + 1).last() == entries@[i as int]@);
            }
            let entry = &entries[i];
            match entry.kind {
                EntryKind::Directory => {
                    if descend {
                        pending.push((entry.path.clone(), depth + 1));
                        proof {
                            assert(pending_views(seen_pending.push(pending@.last()))
                                =~= pending_views(seen_pending).push(
                                (entry.path@, (depth + 1) as nat),
                            ));
                        }
                    }
                },
                EntryKind::File | EntryKind::Symlink => {
                    if has_allowed_extension(entry.path.as_str()) {
                        found.push(entry.path.clone());
                        proof {
                            assert(texts(seen_found.push(found@.last())) =~= texts(
                                seen_found,
                            ).push(entry.path@));
                        }
                    }
                },
                EntryKind::Other => {},
            }
            i += 1;
        }
        proof {
            assert(all.take(i as int) =~= all);
        }
        self.reading = None;
        core::mem::swap(&mut self.pending, &mut pending);
        core::mem::swap(&mut self.found, &mut found);
    }

    /// The result of the scan: the images found, or the failure of the read
    /// that failed.
    pub fn finish(self) -> (r: Result<Vec<String>, PipelineError>)
        ensures
            match r {
                Ok(images) => self@.failure is None && texts(images@) == self@.found,
                Err(e) => self@.failure is Some && e@ == PipelineErrorView::Io(
                    self@.failure->0,
                ),
            },
    {
        match self.failure {
            Some(message) => Err(PipelineError::Io(message)),
            None => Ok(self.found),
        }
    }
}

/// The images that a scan finds under the directory `dir` of the tree
/// `tree`, which gives each directory's listing, when it reads `dir` and
/// `levels` levels of directories below it. Each entry that is an image
/// counts once.
pub open spec fn images_under(
    tree: Map<Seq<char>, Seq<DirEntryView>>,
    dir: Seq<char>,
    levels: nat,
) -> Multiset<Seq<char>>
    decreases levels, 1nat, 0nat,
{
    images_among(tree, tree[dir], levels)
}

/// The images that a scan finds through the entries `entries` of one
/// directory, when it reads `levels` levels of directories below that one.
pub open spec fn images_among(
    tree: Map<Seq<char>, Seq<DirEntryView>>,
    entries: Seq<DirEntryView>,
    levels: nat,
) -> Multiset<Seq<char>>
    decreases levels, 0nat, entries.len(),
{
    if entries.len() == 0 {
        Multiset::empty()
    } else {
        let before = images_among(tree, entries.drop_last(), levels);
        let e = entries.last();
        if is_image(e) {
            before.insert(e.path)
        } else if e.kind == EntryKind::Directory && levels > 0 {
            before.add(images_under(tree, e.path, (levels - 1) as nat))
        } else {
            before
        }
    }
}

/// The images that are still to be found through the pending directories.
pub open spec fn outstanding(
    tree: Map<Seq<char>, Seq<DirEntryView>>,
    pending: Seq<(Seq<char>, nat)>,
    max_depth: nat,
) -> Multiset<Seq<char>>
    decreases pending.len(),
{
    if pending.len() == 0 {
        Multiset::empty()
    } else {
        outstanding(tree, pending.drop_last(), max_depth).add(
            images_under(tree, pending.last().0, (max_depth - pending.last().1) as nat),
        )
    }
}

/// The scan of the tree under `root` is on course: no read has failed, none
/// is awaited, and what was found together with what is still to be found
/// is what the tree holds within the depth.
pub open spec fn accounts_for(
    s: ScannerView,
    tree: Map<Seq<char>, Seq<DirEntryView>>,
    root: Seq<char>,
) -> bool {
    &&& s.failure is None
    &&& s.reading is None
    &&& forall|i: int| 0 <= i < s.pending.len() ==> (#[trigger] s.pending[i]).1 <= s.max_depth
    &&& s.found.to_multiset().add(outstanding(tree, s.pending, s.max_depth)) == images_under(
        tree,
        root,
        s.max_depth,
    )
}

/// The state in which a scan of the tree under `root` starts.
pub open spec fn initial(root: Seq<char>, max_depth: nat) -> ScannerView {
    ScannerView {
        max_depth,
        pending: seq![(root, 0nat)],
        reading: None,
        found: Seq::empty(),
        failure: None,
    }
}

/// The state after the scan has taken its next directory and has been given
/// that directory's listing in the tree.
pub open spec fn after_next(s: ScannerView, tree: Map<Seq<char>, Seq<DirEntryView>>) -> ScannerView {
    after_listing(
        ScannerView {
            pending: s.pending.drop_last(),
            reading: Some(s.pending.last().1),
            ..s
        },
        s.pending.last().1,
        tree[s.pending.last().0],
    )
}

proof fn lemma_bag_concat(a: Seq<Seq<char>>, b: Seq<Seq<char>>)
    ensures
        (a + b).to_multiset() == a.to_multiset().add(b.to_multiset()),
    decreases b.len(),
{
    broadcast use vstd::seq_lib::group_to_multiset_ensures;
    broadcast use vstd::multiset::group_multiset_axioms;

    if b.len() == 0 {
        assert(a + b =~= a);
        assert(b.to_multiset() =~= Multiset::<Seq<char>>::empty());
        assert(a.to_multiset().add(b.to_multiset()) =~= a.to_multiset());
    } else {
        lemma_bag_concat(a, b.drop_last());
        assert(a + b =~= (a + b.drop_last()).push(b.last()));
        assert(b =~= b.drop_last().push(b.last()));
        assert(a.to_multiset().add(b.drop_last().to_multiset()).insert(b.last())
            =~= a.to_multiset().add(b.drop_last().to_multiset().insert(b.last())));
    }
}

proof fn lemma_outstanding_concat(
    tree: Map<Seq<char>, Seq<DirEntryView>>,
    a: Seq<(Seq<char>, nat)>,
    b: Seq<(Seq<char>, nat)>,
    max_depth: nat,
)
    ensures
        outstanding(tree, a + b, max_depth) == outstanding(tree, a, max_depth).add(
            outstanding(tree, b, max_depth),
        ),
    decreases b.len(),
{
    broadcast use vstd::multiset::group_multiset_axioms;

    if b.len() == 0 {
        assert(a + b =~= a);
        assert(outstanding(tree, a, max_depth).add(outstanding(tree, b, max_depth))
            =~= outstanding(tree, a, max_depth));
    } else {
        lemma_outstanding_concat(tree, a, b.drop_last(), max_depth);
        assert((a + b).drop_last() =~= a + b.drop_last());
        assert((a + b).last() == b.last());
        let x = images_under(tree, b.last().0, (max_depth - b.last().1) as nat);
        assert(outstanding(tree, a, max_depth).add(
            outstanding(tree, b.drop_last(), max_depth),
        ).add(x) =~= outstanding(tree, a, max_depth).add(
            outstanding(tree, b.drop_last(), max_depth).add(x),
        ));
    }
}

/// What a scan finds through a listing is the listing's own images and what
/// it finds under the listing's directories.
proof fn lemma_listing_accounts(
    tree: Map<Seq<char>, Seq<DirEntryView>>,
    entries: Seq<DirEntryView>,
    depth: nat,
    max_depth: nat,
)
    requires
        depth <= max_depth,
    ensures
        images_among(tree, entries, (max_depth - depth) as nat) == images_in(
            entries,
        ).to_multiset().add(
            if depth < max_depth {
                outstanding(tree, directories_in(entries, depth + 1), max_depth)
            } else {
                Multiset::empty()
            },
        ),
    decreases entries.len(),
{
    broadcast use vstd::seq_lib::group_to_multiset_ensures;
    broadcast use vstd::multiset::group_multiset_axioms;

    let levels = (max_depth - depth) as nat;
    if entries.len() == 0 {
        assert(images_in(entries).to_multiset() =~= Multiset::<Seq<char>>::empty());
        assert(images_among(tree, entries, levels) =~= images_in(entries).to_multiset().add(
            if depth < max_depth {
                outstanding(tree, directories_in(entries, depth + 1), max_depth)
            } else {
                Multiset::empty()
            },
        ));
    } else {
        let rest = entries.drop_last();
        let e = entries.last();
        lemma_listing_accounts(tree, rest, depth, max_depth);
        let rest_images = images_in(rest).to_multiset();
        let rest_dirs = directories_in(rest, depth + 1);
        let rest_out = if depth < max_depth {
            outstanding(tree, rest_dirs, max_depth)
        } else {
            Multiset::empty()
        };
        assert(images_among(tree, rest, levels) == rest_images.add(rest_out));
        if is_image(e) {
            assert(images_in(entries) == images_in(rest).push(e.path));
            assert(directories_in(entries, depth + 1) == rest_dirs);
            assert(rest_images.add(rest_out).insert(e.path) =~= rest_images.insert(e.path).add(
                rest_out,
            ));
        } else if e.kind == EntryKind::Directory && levels > 0 {
            let dirs = directories_in(entries, depth + 1);
            assert(dirs == rest_dirs.push((e.path, depth + 1)));
            assert(dirs.drop_last() =~= rest_dirs);
            assert(dirs.last() == (e.path, depth + 1));
            let under = images_under(tree, e.path, (levels - 1) as nat);
            assert(outstanding(tree, dirs, max_depth) == rest_out.add(under));
            assert(rest_images.add(rest_out).add(under) =~= rest_images.add(rest_out.add(under)));
        } else {
            assert(images_in(entries) == images_in(rest));
        }
    }
}

/// A scan starts on course.
pub proof fn lemma_scan_starts_on_course(
    tree: Map<Seq<char>, Seq<DirEntryView>>,
    root: Seq<char>,
    max_depth: nat,
)
    ensures
        accounts_for(initial(root, max_depth), tree, root),
{
    broadcast use vstd::multiset::group_multiset_axioms;

    broadcast use vstd::seq_lib::group_to_multiset_ensures;

    reveal_with_fuel(outstanding, 2);
    let s = initial(root, max_depth);
    assert(s.pending.drop_last() =~= Seq::<(Seq<char>, nat)>::empty());
    assert(s.found.to_multiset().len() == 0);
    assert(s.found.to_multiset() =~= Multiset::<Seq<char>>::empty());
    assert(outstanding(tree, s.pending.drop_last(), max_depth) =~= Multiset::<Seq<char>>::empty());
    assert(Multiset::<Seq<char>>::empty().add(images_under(tree, root, max_depth))
        =~= images_under(tree, root, max_depth));
    assert(outstanding(tree, s.pending, max_depth) =~= images_under(tree, root, max_depth));
    assert(s.found.to_multiset().add(outstanding(tree, s.pending, max_depth)) =~= images_under(
        tree,
        root,
        max_depth,
    ));
}

/// A scan that is on course stays on course when it reads its next
/// directory and is told what the tree holds there.
pub proof fn lemma_scan_stays_on_course(
    s: ScannerView,
    tree: Map<Seq<char>, Seq<DirEntryView>>,
    root: Seq<char>,
)
    requires
        accounts_for(s, tree, root),
        s.pending.len() > 0,
    ensures
        accounts_for(after_next(s, tree), tree, root),
{
    broadcast use vstd::multiset::group_multiset_axioms;

    let dir = s.pending.last().0;
    let depth = s.pending.last().1;
    let rest = s.pending.drop_last();
    let entries = tree[dir];
    let t = after_next(s, tree);
    let images = images_in(entries);
    let dirs = directories_in(entries, depth + 1);
    assert(depth <= s.max_depth);
    lemma_listing_accounts(tree, entries, depth, s.max_depth);
    lemma_bag_concat(s.found, images);
    lemma_directories_depth(entries, depth + 1);
    let rest_out = outstanding(tree, rest, s.max_depth);
    let under = images_under(tree, dir, (s.max_depth - depth) as nat);
    assert(outstanding(tree, s.pending, s.max_depth) == rest_out.add(under));
    if depth < s.max_depth {
        lemma_outstanding_concat(tree, rest, dirs, s.max_depth);
        let dirs_out = outstanding(tree, dirs, s.max_depth);
        assert(s.found.to_multiset().add(images.to_multiset()).add(rest_out.add(dirs_out))
            =~= s.found.to_multiset().add(rest_out.add(images.to_multiset().add(dirs_out))));
        assert forall|i: int| 0 <= i < t.pending.len() implies (#[trigger] t.pending[i]).1
            <= t.max_depth by {
            if i < rest.len() {
                assert(t.pending[i] == s.pending[i]);
            } else {
                assert(t.pending[i] == dirs[i - rest.len()]);
            }
        }
    } else {
        assert(s.found.to_multiset().add(images.to_multiset()).add(rest_out)
            =~= s.found.to_multiset().add(
            rest_out.add(images.to_multiset().add(Multiset::empty())),
        ));
        assert forall|i: int| 0 <= i < t.pending.len() implies (#[trigger] t.pending[i]).1
            <= t.max_depth by {
            assert(t.pending[i] == s.pending[i]);
        }
    }
}

proof fn lemma_directories_depth(entries: Seq<DirEntryView>, depth: nat)
    ensures
        forall|i: int|
            0 <= i < directories_in(entries, depth).len() ==> (#[trigger] directories_in(
                entries,
                depth,
            )[i]).1 == depth,
    decreases entries.len(),
{
    if entries.len() > 0 {
        let rest = directories_in(entries.drop_last(), depth);
        let all = directories_in(entries, depth);
        lemma_directories_depth(entries.drop_last(), depth);
        assert forall|i: int| 0 <= i < all.len() implies (#[trigger] all[i]).1 == depth by {
            if i < rest.len() {
                assert(all[i] == rest[i]);
            }
        }
    }
}

/// A scan that is on course and has nothing left to read has found every
/// image that the tree holds within the depth, each exactly as often as the
/// tree lists it.
pub proof fn lemma_scan_ends_complete(
    s: ScannerView,
    tree: Map<Seq<char>, Seq<DirEntryView>>,
    root: Seq<char>,
)
    requires
        accounts_for(s, tree, root),
        s.pending.len() == 0,
    ensures
        s.found.to_multiset() == images_under(tree, root, s.max_depth),
{
    broadcast use vstd::multiset::group_multiset_axioms;

    assert(s.found.to_multiset().add(Multiset::empty()) =~= s.found.to_multiset());
}

} // verus!
