//! Directory trees as a *convention*, not a wire feature.
//!
//! A collection is one ordinary blob: a manifest listing member paths, hashes and
//! sizes, announced with the [`COLLECTION_MEDIA_TYPE`] media type. Members are imported
//! into the blob store without announcements, so a directory of 500 files produces
//! exactly one offer.
//!
//! Reading directories, importing and fetching blobs happen outside; what is read comes
//! in as plain values, and what is to be done next comes back as one.

use crate::error::{SdkError, SdkErrorView};
use crate::ids::BlobHash;
use crate::order::{arrange, arranged, comes_before, text_before, Ranked};
use crate::path::{
    any_empty_piece, below, below_adds_parts, file_name, file_name_text, has_empty_piece, join_path,
    joined_names_are_parts, parent, parent_text, part_views, parts, parts_of_pieces, pieces, plain_name,
    plain_paths_get_no_longer, plainly_relative, split, Part, PartView,
};
use crate::text::{
    byte_len, contains_char, decimal, join, joined, number, opt_text, quote, quoted, replace_char,
    replaced, same, starts_with, texts, utf8_len,
};
use vstd::prelude::*;
use vstd::utf8::encode_utf8;

verus! {

/// Media type advertising that a blob is a collection manifest.
pub const COLLECTION_MEDIA_TYPE: &'static str = "application/vnd.iroh-drop.collection+json";

/// Offer metadata key: number of files in the collection.
pub const META_MEMBERS: &'static str = "collection.members";

/// Offer metadata key: total size of all members, in bytes.
pub const META_TOTAL_BYTES: &'static str = "collection.total_bytes";

/// Largest manifest we will parse (a manifest is metadata, not payload).
pub const MAX_MANIFEST_BYTES: u64 = 8_388_608;

/// Most members one collection may contain.
pub const MAX_MEMBERS: usize = 20_000;

/// One member of a collection.
#[derive(Debug)]
pub struct ManifestEntry {
    /// Relative path with `/` separators. Never absolute, never `..`.
    pub path: String,
    /// Content hash, hex.
    pub hash: String,
    /// Size in bytes.
    pub size: u64,
}

/// The model of a [`ManifestEntry`].
#[verifier::ext_equal]
pub struct EntryView {
    /// Relative path.
    pub path: Seq<char>,
    /// Content hash, hex.
    pub hash: Seq<char>,
    /// Size in bytes.
    pub size: u64,
}

impl View for ManifestEntry {
    type V = EntryView;

    open spec fn view(&self) -> EntryView {
        EntryView { path: self.path@, hash: self.hash@, size: self.size }
    }
}

/// A collection manifest.
#[derive(Debug)]
pub struct Manifest {
    /// Marker and version, so a manifest is self-describing even when the media type is
    /// unknown.
    pub iroh_drop_collection: u16,
    /// Display name of the tree (usually the directory name).
    pub name: String,
    /// Members, in stable sorted order.
    pub entries: Vec<ManifestEntry>,
}

/// The sum of the sizes of `entries`.
pub open spec fn size_sum(entries: Seq<ManifestEntry>) -> nat
    decreases entries.len(),
{
    if entries.len() == 0 {
        0
    } else {
        size_sum(entries.drop_last()) + entries.last().size as nat
    }
}

proof fn lemma_size_sum_grows(entries: Seq<ManifestEntry>, k: int)
    requires
        0 <= k <= entries.len(),
    ensures
        size_sum(entries.take(k)) <= size_sum(entries),
    decreases entries.len(),
{
    if k < entries.len() {
        lemma_size_sum_grows(entries.drop_last(), k);
        assert(entries.drop_last().take(k) =~= entries.take(k));
    } else {
        assert(entries.take(k) =~= entries);
    }
}

impl Manifest {
    /// The models of the members.
    pub open spec fn members(&self) -> Seq<EntryView> {
        Seq::new(self.entries@.len(), |i: int| self.entries@[i]@)
    }

    /// Total size of all members.
    pub fn total_size(&self) -> (r: u64)
        requires
            size_sum(self.entries@) <= u64::MAX,
        ensures
            r == size_sum(self.entries@),
    {
        let mut total: u64 = 0;
        let mut i: usize = 0;
        assert(self.entries@.take(0) =~= Seq::<ManifestEntry>::empty());
        while i < self.entries.len()
            invariant
                i <= self.entries@.len(),
                size_sum(self.entries@) <= u64::MAX,
                total == size_sum(self.entries@.take(i as int)),
            decreases self.entries@.len() - i,
        {
            proof {
                lemma_size_sum_grows(self.entries@, i + 1);
                assert(self.entries@.take(i + 1).drop_last() =~= self.entries@.take(i as int));
            }
            total += self.entries[i].size;
            i += 1;
        }
        assert(self.entries@.take(i as int) =~= self.entries@);
        total
    }

    /// Total size of all members, where a `u64` can hold it.
    pub fn checked_total_size(&self) -> (r: Option<u64>)
        ensures
            match r {
                Some(total) => total == size_sum(self.entries@),
                None => size_sum(self.entries@) > u64::MAX,
            },
    {
        let mut total: u64 = 0;
        let mut i: usize = 0;
        assert(self.entries@.take(0) =~= Seq::<ManifestEntry>::empty());
        while i < self.entries.len()
            invariant
                i <= self.entries@.len(),
                total == size_sum(self.entries@.take(i as int)),
            decreases self.entries@.len() - i,
        {
            proof {
                lemma_size_sum_grows(self.entries@, i + 1);
                assert(self.entries@.take(i + 1).drop_last() =~= self.entries@.take(i as int));
            }
            let size: u64 = self.entries[i].size;
            if size > u64::MAX - total {
                return None;
            }
            total += size;
            i += 1;
        }
        assert(self.entries@.take(i as int) =~= self.entries@);
        Some(total)
    }
}

proof fn lemma_sizes_add_up(a: Seq<ManifestEntry>, b: Seq<ManifestEntry>)
    ensures
        size_sum(a + b) == size_sum(a) + size_sum(b),
    decreases b.len(),
{
    if b.len() == 0 {
        assert(a + b =~= a);
    } else {
        assert((a + b).drop_last() =~= a + b.drop_last());
        lemma_sizes_add_up(a, b.drop_last());
    }
}

/// The total size of a manifest is the sum of what its members take: nothing where there is none,
/// the size of the one where there is one, and the two totals together where two lists of members
/// stand one behind the other.
pub proof fn total_sizes_add_up(
    whole: &Manifest,
    front: &Manifest,
    back: &Manifest,
    total: u64,
    of_front: u64,
    of_back: u64,
)
    requires
        call_ensures(Manifest::total_size, (whole,), total),
        call_ensures(Manifest::total_size, (front,), of_front),
        call_ensures(Manifest::total_size, (back,), of_back),
        whole.entries@ == front.entries@ + back.entries@,
    ensures
        total == of_front + of_back,
        whole.entries@.len() == 0 ==> total == 0,
        whole.entries@.len() == 1 ==> total == whole.entries@[0].size,
        forall|i: int| 0 <= i < whole.entries@.len() ==> (#[trigger] whole.entries@[i]).size <= total,
{
    lemma_sizes_add_up(front.entries@, back.entries@);
    let all = whole.entries@;
    assert forall|i: int| 0 <= i < all.len() implies (#[trigger] all[i]).size <= total by {
        lemma_sizes_add_up(all.take(i + 1), all.skip(i + 1));
        assert(all.take(i + 1) + all.skip(i + 1) =~= all);
        assert(all.take(i + 1).last() == all[i]);
    }
    if all.len() == 1 {
        assert(all.drop_last() =~= Seq::<ManifestEntry>::empty());
        assert(size_sum(all.drop_last()) == 0);
    }
}

/// An announced blob.
#[derive(Debug)]
pub struct PublishedBlob {
    /// Content hash.
    pub hash: BlobHash,
    /// The name it was announced under.
    pub name: String,
    /// Size in bytes.
    pub size: u64,
}

/// What a publish produced: the announced blob plus what it stands for.
#[derive(Debug)]
pub struct Published {
    /// The announced blob (for a directory: the manifest).
    pub blob: PublishedBlob,
    /// Number of files shared (1 for a plain file).
    pub members: usize,
    /// Total bytes shared, excluding manifest overhead.
    pub total_size: u64,
    /// Whether this was published as a collection.
    pub is_collection: bool,
}

/// What stands at a path.
#[derive(Clone, Copy, Debug, PartialEq, Eq, Structural)]
pub enum PathKind {
    /// A regular file.
    File,
    /// A directory.
    Directory,
    /// Anything else: a symbolic link, a socket, a device.
    Other,
}

/// How to publish a path.
#[derive(Debug)]
pub enum PublishPlan {
    /// Publish the file itself, under this name if there is one.
    File {
        /// The name that was asked for.
        given: Option<String>,
    },
    /// Walk the directory, import its files and announce one manifest.
    Tree {
        /// The name of the collection.
        name: String,
    },
}

/// The name of a collection: the one asked for, else the directory's own.
pub open spec fn collection_name(path: Seq<char>, name: Option<Seq<char>>) -> Seq<char> {
    match name {
        Some(name) => name,
        None => match file_name_text(path) {
            Some(own) => own,
            None => "collection"@,
        },
    }
}

/// Decides how to publish a file *or* a directory.
///
/// Files are published directly. Directories are imported member by member and announced
/// as a single collection manifest.
pub fn publish_path(path: &str, kind: PathKind, name: Option<String>) -> (r: Result<
    PublishPlan,
    SdkError,
>)
    ensures
        match r {
            Ok(PublishPlan::File { given }) => kind is File && opt_text(given) == opt_text(
                name,
            ),
            Ok(PublishPlan::Tree { name: chosen }) => kind is Directory && chosen@
                == collection_name(path@, opt_text(name)),
            Err(e) => kind is Other && e@ == SdkErrorView::Io(
                path@ + " is neither a file nor a directory"@,
            ),
        },
{
    match kind {
        PathKind::File => Ok(PublishPlan::File { given: name }),
        PathKind::Directory => {
            let chosen = match name {
                Some(name) => name,
                None => match file_name(path) {
                    Some(own) => own,
                    None => "collection".to_owned(),
                },
            };
            Ok(PublishPlan::Tree { name: chosen })
        },
        PathKind::Other => Err(
            SdkError::Io(path.to_owned().concat(" is neither a file nor a directory")),
        ),
    }
}

/// Where a file or directory stands below the root of a walk: the names on the way.
#[derive(Debug)]
pub struct MemberPath {
    /// The names, outermost first.
    pub names: Vec<String>,
}

impl View for MemberPath {
    type V = Seq<Seq<char>>;

    open spec fn view(&self) -> Seq<Seq<char>> {
        texts(self.names@)
    }
}

/// Whether one path comes before another: name by name, in the order of texts.
pub open spec fn path_before(a: Seq<Seq<char>>, b: Seq<Seq<char>>) -> bool
    decreases a.len(),
{
    if b.len() == 0 {
        false
    } else if a.len() == 0 {
        true
    } else if a[0] != b[0] {
        text_before(a[0], b[0])
    } else {
        path_before(a.drop_first(), b.drop_first())
    }
}

proof fn lemma_path_before_asymmetric(a: Seq<Seq<char>>, b: Seq<Seq<char>>)
    requires
        path_before(a, b),
    ensures
        !path_before(b, a),
    decreases a.len(),
{
    if a.len() > 0 && b.len() > 0 {
        if a[0] != b[0] {
            crate::order::text_before_asymmetric(a[0], b[0]);
        } else {
            lemma_path_before_asymmetric(a.drop_first(), b.drop_first());
        }
    }
}

proof fn lemma_path_not_before_transitive(
    a: Seq<Seq<char>>,
    b: Seq<Seq<char>>,
    c: Seq<Seq<char>>,
)
    requires
        !path_before(a, b),
        !path_before(b, c),
    ensures
        !path_before(a, c),
    decreases a.len(),
{
    if a.len() > 0 && b.len() > 0 && c.len() > 0 {
        if a[0] == b[0] && b[0] == c[0] {
            lemma_path_not_before_transitive(a.drop_first(), b.drop_first(), c.drop_first());
        } else if a[0] != b[0] && b[0] != c[0] {
            crate::order::text_not_before_transitive(a[0], b[0], c[0]);
            if a[0] == c[0] {
                crate::order::text_before_total(a[0], b[0]);
            }
        }
    }
}

impl Ranked for MemberPath {
    open spec fn ranks_before(&self, other: &Self) -> bool {
        path_before(self@, other@)
    }

    fn precedes(&self, other: &Self) -> (r: bool) {
        let mut i: usize = 0;
        let ghost a = self@;
        let ghost b = other@;
        assert(a.skip(0) =~= a);
        assert(b.skip(0) =~= b);
        while i < self.names.len() && i < other.names.len() && same(
            self.names[i].as_str(),
            other.names[i].as_str(),
        )
            invariant
                i <= self.names@.len(),
                i <= other.names@.len(),
                a == texts(self.names@),
                b == texts(other.names@),
                path_before(a, b) == path_before(a.skip(i as int), b.skip(i as int)),
            decreases self.names@.len() - i,
        {
            assert(a.skip(i as int).drop_first() =~= a.skip(i + 1));
            assert(b.skip(i as int).drop_first() =~= b.skip(i + 1));
            assert(a.skip(i as int)[0] == b.skip(i as int)[0]);
            i += 1;
        }
        if i == other.names.len() {
            false
        } else if i == self.names.len() {
            true
        } else {
            assert(a.skip(i as int)[0] == self.names@[i as int]@);
            assert(b.skip(i as int)[0] == other.names@[i as int]@);
            comes_before(self.names[i].as_str(), other.names[i].as_str())
        }
    }

    proof fn rank_is_asymmetric(a: Self, b: Self) {
        lemma_path_before_asymmetric(a@, b@);
    }

    proof fn rank_is_total(a: Self, b: Self, c: Self) {
        lemma_path_not_before_transitive(a@, b@, c@);
    }
}

/// Whether a name is hidden: it begins with a dot.
pub open spec fn hidden_name(name: Seq<char>) -> bool {
    name.len() > 0 && name[0] == '.'
}

/// Whether a name is hidden.
pub fn is_hidden(name: &str) -> (r: bool)
    ensures
        r == hidden_name(name@),
{
    proof {
        reveal_strlit(".");
    }
    let r = starts_with(name, ".");
    assert(r == hidden_name(name@)) by {
        if hidden_name(name@) {
            assert(name@.subrange(0, 1) =~= "."@);
        } else if r {
            assert(name@.subrange(0, 1)[0] == '.');
        }
    }
    r
}

/// Whether no name on the way is hidden.
pub open spec fn visible(path: Seq<Seq<char>>) -> bool {
    forall|i: int| 0 <= i < path.len() ==> !hidden_name(#[trigger] path[i])
}

/// The models of member paths.
pub open spec fn path_views(s: Seq<MemberPath>) -> Seq<Seq<Seq<char>>> {
    Seq::new(s.len(), |i: int| s[i]@)
}

/// A walk through a directory tree, collecting its regular files.
///
/// Dot-entries are skipped (no `.git` in your share) and symbolic links are not followed,
/// so a share cannot escape the directory it names.
#[derive(Debug)]
pub struct Walk {
    /// Directories still to be read.
    pub pending: Vec<MemberPath>,
    /// Files found so far.
    pub files: Vec<MemberPath>,
}

/// The model of a [`Walk`].
#[verifier::ext_equal]
pub struct WalkView {
    /// Directories still to be read.
    pub pending: Seq<Seq<Seq<char>>>,
    /// Files found so far.
    pub files: Seq<Seq<Seq<char>>>,
}

impl View for Walk {
    type V = WalkView;

    open spec fn view(&self) -> WalkView {
        WalkView { pending: path_views(self.pending@), files: path_views(self.files@) }
    }
}

impl WalkView {
    /// A walk that has yet to read the root.
    pub open spec fn start() -> WalkView {
        WalkView { pending: seq![Seq::<Seq<char>>::empty()], files: Seq::empty() }
    }

    /// The walk after it took up one entry of the directory `dir`.
    pub open spec fn found(self, dir: Seq<Seq<char>>, name: Seq<char>, kind: PathKind) -> WalkView {
        if hidden_name(name) {
            self
        } else {
            match kind {
                PathKind::Directory => WalkView {
                    pending: self.pending.push(dir.push(name)),
                    ..self
                },
                PathKind::File => WalkView { files: self.files.push(dir.push(name)), ..self },
                PathKind::Other => self,
            }
        }
    }

    /// The walk after it took up entries of the directory `dir`, one after the other.
    pub open spec fn found_all(
        self,
        dir: Seq<Seq<char>>,
        entries: Seq<(Seq<char>, PathKind)>,
    ) -> WalkView
        decreases entries.len(),
    {
        if entries.len() == 0 {
            self
        } else {
            self.found_all(dir, entries.drop_last()).found(
                dir,
                entries.last().0,
                entries.last().1,
            )
        }
    }

    /// The walk after it read its next directory, in a tree with these entries in each.
    pub open spec fn read_next(
        self,
        tree: spec_fn(Seq<Seq<char>>) -> Seq<(Seq<char>, PathKind)>,
    ) -> WalkView {
        let dir = self.pending.last();
        WalkView { pending: self.pending.drop_last(), ..self }.found_all(dir, tree(dir))
    }
}

impl Walk {
    /// Whether nothing hidden has been taken up.
    pub open spec fn wf(&self) -> bool {
        &&& forall|i: int| 0 <= i < self.pending@.len() ==> visible((#[trigger] self.pending@[i])@)
        &&& forall|i: int| 0 <= i < self.files@.len() ==> visible((#[trigger] self.files@[i])@)
    }

    /// A walk that has yet to read the root.
    pub fn new() -> (r: Walk)
        ensures
            r.wf(),
            r@ == WalkView::start(),
    {
        let root = MemberPath { names: Vec::new() };
        assert(root@ =~= Seq::<Seq<char>>::empty());
        let mut pending: Vec<MemberPath> = Vec::new();
        pending.push(root);
        let r = Walk { pending, files: Vec::new() };
        assert(r@ =~= WalkView::start());
        r
    }

    /// The next directory to read, if the walk is not over.
    pub fn next_dir(&mut self) -> (r: Option<MemberPath>)
        requires
            old(self).wf(),
        ensures
            final(self).wf(),
            match r {
                Some(dir) => {
                    &&& old(self)@.pending.len() > 0
                    &&& dir@ == old(self)@.pending.last()
                    &&& visible(dir@)
                    &&& final(self)@ == (WalkView {
                        pending: old(self)@.pending.drop_last(),
                        ..old(self)@
                    })
                },
                None => old(self)@.pending.len() == 0 && final(self)@ == old(self)@,
            },
    {
        let ghost before = self.pending@;
        let r = self.pending.pop();
        proof {
            if r is Some {
                assert(before =~= self.pending@.push(r->0));
                assert(before[before.len() - 1] == r->0);
                assert forall|i: int| 0 <= i < self.pending@.len() implies visible(
                    (#[trigger] self.pending@[i])@,
                ) by {
                    assert(self.pending@[i] == before[i]);
                }
                assert(path_views(before).last() == (r->0)@);
                assert(path_views(self.pending@) =~= path_views(before).drop_last());
            }
        }
        r
    }

    /// Takes up one entry of the directory `dir`.
    pub fn found(&mut self, dir: &MemberPath, name: &str, kind: PathKind)
        requires
            old(self).wf(),
            visible(dir@),
        ensures
            final(self).wf(),
            final(self)@ == old(self)@.found(dir@, name@, kind),
    {
        if is_hidden(name) {
            return ;
        }
        let mut names: Vec<String> = Vec::new();
        let mut i: usize = 0;
        while i < dir.names.len()
            invariant
                i <= dir.names@.len(),
                texts(names@) == texts(dir.names@).take(i as int),
            decreases dir.names@.len() - i,
        {
            let ghost before = names@;
            let piece = dir.names[i].clone();
            names.push(piece);
            assert(texts(names@) =~= texts(before).push(piece@));
            assert(texts(names@) =~= texts(dir.names@).take(i + 1));
            i += 1;
        }
        let ghost before = names@;
        let own = name.to_owned();
        names.push(own);
        assert(texts(names@) =~= texts(before).push(own@));
        let path = MemberPath { names };
        assert(path@ =~= dir@.push(name@));
        assert(visible(path@)) by {
            assert forall|k: int| 0 <= k < path@.len() implies !hidden_name(
                #[trigger] path@[k],
            ) by {
                if k < dir@.len() {
                    assert(path@[k] == dir@[k]);
                }
            }
        }
        match kind {
            PathKind::Directory => {
                let ghost was = self.pending@;
                self.pending.push(path);
                assert(path_views(self.pending@) =~= path_views(was).push(path@));
            },
            PathKind::File => {
                let ghost was = self.files@;
                self.files.push(path);
                assert(path_views(self.files@) =~= path_views(was).push(path@));
            },
            PathKind::Other => {},
        }
    }

    /// The files of a finished walk, sorted; `path` is what was walked.
    pub fn members(self, path: &str) -> (r: Result<Vec<MemberPath>, SdkError>)
        requires
            self.wf(),
        ensures
            match r {
                Ok(members) => 0 < self.files@.len() <= MAX_MEMBERS && members@ == arranged(
                    self.files@,
                ),
                Err(e) => {
                    ||| self.files@.len() == 0 && e@ == SdkErrorView::Io(path@ + " is empty"@)
                    ||| self.files@.len() > MAX_MEMBERS && e@ == SdkErrorView::Manifest(
                        decimal(self.files@.len()) + " files exceeds the "@ + decimal(
                            MAX_MEMBERS as nat,
                        ) + " member limit"@,
                    )
                },
            },
    {
        let count: usize = self.files.len();
        if count == 0 {
            return Err(SdkError::Io(path.to_owned().concat(" is empty")));
        }
        if count > MAX_MEMBERS {
            return Err(
                SdkError::Manifest(
                    number(count as u64).concat(" files exceeds the ").concat(
                        number(MAX_MEMBERS as u64).as_str(),
                    ).concat(" member limit"),
                ),
            );
        }
        Ok(arrange(self.files))
    }
}

/// Whether a path leads to a directory of the tree through directories alone and past nothing
/// hidden. A tree is given as the entries of each directory, by its path.
pub open spec fn reached(
    tree: spec_fn(Seq<Seq<char>>) -> Seq<(Seq<char>, PathKind)>,
    dir: Seq<Seq<char>>,
) -> bool
    decreases dir.len(),
{
    dir.len() == 0 || (!hidden_name(dir.last()) && tree(dir.drop_last()).contains(
        (dir.last(), PathKind::Directory),
    ) && reached(tree, dir.drop_last()))
}

/// Whether a path leads to a regular file of the tree, through directories alone and past
/// nothing hidden.
pub open spec fn shared(
    tree: spec_fn(Seq<Seq<char>>) -> Seq<(Seq<char>, PathKind)>,
    path: Seq<Seq<char>>,
) -> bool {
    &&& path.len() > 0
    &&& !hidden_name(path.last())
    &&& tree(path.drop_last()).contains((path.last(), PathKind::File))
    &&& reached(tree, path.drop_last())
}

/// Whether no two entries have the same name.
pub open spec fn names_differ(entries: Seq<(Seq<char>, PathKind)>) -> bool {
    forall|i: int, j: int|
        0 <= i < j < entries.len() ==> (#[trigger] entries[i]).0 != (#[trigger] entries[j]).0
}

/// Whether `path` is `dir` or something below it.
spec fn leads_to(dir: Seq<Seq<char>>, path: Seq<Seq<char>>) -> bool {
    dir.len() <= path.len() && path.take(dir.len() as int) == dir
}

/// The visible entries of one kind, as paths.
spec fn taken(
    dir: Seq<Seq<char>>,
    entries: Seq<(Seq<char>, PathKind)>,
    kind: PathKind,
) -> Seq<Seq<Seq<char>>>
    decreases entries.len(),
{
    if entries.len() == 0 {
        Seq::empty()
    } else {
        let front = taken(dir, entries.drop_last(), kind);
        if entries.last().1 == kind && !hidden_name(entries.last().0) {
            front.push(dir.push(entries.last().0))
        } else {
            front
        }
    }
}

proof fn lemma_found_all(w: WalkView, dir: Seq<Seq<char>>, entries: Seq<(Seq<char>, PathKind)>)
    ensures
        w.found_all(dir, entries).pending == w.pending + taken(dir, entries, PathKind::Directory),
        w.found_all(dir, entries).files == w.files + taken(dir, entries, PathKind::File),
    decreases entries.len(),
{
    let r = w.found_all(dir, entries);
    if entries.len() > 0 {
        lemma_found_all(w, dir, entries.drop_last());
    }
    assert(r.pending =~= w.pending + taken(dir, entries, PathKind::Directory));
    assert(r.files =~= w.files + taken(dir, entries, PathKind::File));
}

proof fn lemma_taken(dir: Seq<Seq<char>>, entries: Seq<(Seq<char>, PathKind)>, kind: PathKind)
    ensures
        forall|k: int|
            0 <= k < taken(dir, entries, kind).len() ==> {
                let p = #[trigger] taken(dir, entries, kind)[k];
                &&& p.len() == dir.len() + 1
                &&& p.drop_last() == dir
                &&& !hidden_name(p.last())
                &&& entries.contains((p.last(), kind))
            },
        forall|name: Seq<char>|
            !hidden_name(name) && #[trigger] entries.contains((name, kind)) ==> taken(
                dir,
                entries,
                kind,
            ).contains(dir.push(name)),
    decreases entries.len(),
{
    let all = taken(dir, entries, kind);
    if entries.len() > 0 {
        let front = entries.drop_last();
        let last = entries.last();
        lemma_taken(dir, front, kind);
        let before = taken(dir, front, kind);
        assert(dir.push(last.0).drop_last() =~= dir);
        assert forall|k: int| 0 <= k < all.len() implies {
            let p = #[trigger] all[k];
            &&& p.len() == dir.len() + 1
            &&& p.drop_last() == dir
            &&& !hidden_name(p.last())
            &&& entries.contains((p.last(), kind))
        } by {
            if k < before.len() {
                assert(all[k] == before[k]);
                let p = before[k];
                let j = choose|j: int| 0 <= j < front.len() && front[j] == (p.last(), kind);
                assert(entries[j] == (p.last(), kind));
            } else {
                assert(entries[entries.len() - 1] == (all[k].last(), kind));
            }
        }
        assert forall|name: Seq<char>|
            !hidden_name(name) && #[trigger] entries.contains((name, kind)) implies all.contains(
            dir.push(name),
        ) by {
            let j = choose|j: int| 0 <= j < entries.len() && entries[j] == (name, kind);
            if j < front.len() {
                assert(front[j] == (name, kind));
                assert(front.contains((name, kind)));
                let k = choose|k: int| 0 <= k < before.len() && before[k] == dir.push(name);
                assert(all[k] == dir.push(name));
            } else {
                assert(all[all.len() - 1] == dir.push(name));
            }
        }
    }
}

proof fn lemma_taken_once(dir: Seq<Seq<char>>, entries: Seq<(Seq<char>, PathKind)>, kind: PathKind)
    requires
        names_differ(entries),
    ensures
        taken(dir, entries, kind).no_duplicates(),
    decreases entries.len(),
{
    if entries.len() > 0 {
        let front = entries.drop_last();
        let last = entries.last();
        assert forall|i: int, j: int| 0 <= i < j < front.len() implies (#[trigger] front[i]).0 != (
        #[trigger] front[j]).0 by {
            assert(front[i] == entries[i] && front[j] == entries[j]);
        }
        lemma_taken_once(dir, front, kind);
        lemma_taken(dir, front, kind);
        let before = taken(dir, front, kind);
        assert forall|k: int| 0 <= k < before.len() implies #[trigger] before[k] != dir.push(
            last.0,
        ) by {
            let p = before[k];
            let j = choose|j: int| 0 <= j < front.len() && front[j] == (p.last(), kind);
            assert(entries[j].0 != entries[entries.len() - 1].0);
        }
    }
}

proof fn lemma_reached_on_the_way(
    tree: spec_fn(Seq<Seq<char>>) -> Seq<(Seq<char>, PathKind)>,
    path: Seq<Seq<char>>,
    n: int,
)
    requires
        reached(tree, path),
        0 <= n <= path.len(),
    ensures
        reached(tree, path.take(n)),
    decreases path.len(),
{
    if n == path.len() {
        assert(path.take(n) =~= path);
    } else {
        lemma_reached_on_the_way(tree, path.drop_last(), n);
        assert(path.drop_last().take(n) =~= path.take(n));
    }
}

/// What holds of a walk all along: what it took up is right, what it has yet to take up lies
/// below a pending directory, and nothing is there twice or will be.
spec fn on_its_way(
    tree: spec_fn(Seq<Seq<char>>) -> Seq<(Seq<char>, PathKind)>,
    w: WalkView,
) -> bool {
    &&& forall|i: int| 0 <= i < w.pending.len() ==> reached(tree, #[trigger] w.pending[i])
    &&& forall|i: int| 0 <= i < w.files.len() ==> shared(tree, #[trigger] w.files[i])
    &&& forall|path: Seq<Seq<char>>| #[trigger]
        shared(tree, path) ==> w.files.contains(path) || exists|i: int|
            0 <= i < w.pending.len() && leads_to(#[trigger] w.pending[i], path.drop_last())
    &&& forall|i: int, j: int|
        0 <= i < w.pending.len() && 0 <= j < w.pending.len() && i != j ==> !leads_to(
            #[trigger] w.pending[i],
            #[trigger] w.pending[j],
        )
    &&& forall|i: int, j: int|
        0 <= i < w.pending.len() && 0 <= j < w.files.len() ==> !leads_to(
            #[trigger] w.pending[i],
            #[trigger] w.files[j],
        )
    &&& w.files.no_duplicates()
}

proof fn lemma_below_or_past(d: Seq<Seq<char>>, child: Seq<Seq<char>>, e: Seq<Seq<char>>)
    requires
        child.len() == d.len() + 1,
        child.drop_last() == d,
    ensures
        leads_to(d, child),
        leads_to(child, e) ==> leads_to(d, e),
        leads_to(e, child) ==> leads_to(e, d) || e == child,
{
    assert(child.take(d.len() as int) =~= d);
    if leads_to(child, e) {
        assert(e.take(d.len() as int) =~= e.take(child.len() as int).take(d.len() as int));
    }
    if leads_to(e, child) {
        if e.len() == child.len() {
            assert(child.take(e.len() as int) =~= child);
        } else {
            assert(d.take(e.len() as int) =~= child.take(e.len() as int));
        }
    }
}

proof fn lemma_read_next(
    tree: spec_fn(Seq<Seq<char>>) -> Seq<(Seq<char>, PathKind)>,
    w: WalkView,
)
    requires
        forall|dir: Seq<Seq<char>>| #[trigger] names_differ(tree(dir)),
        on_its_way(tree, w),
        w.pending.len() > 0,
    ensures
        on_its_way(tree, w.read_next(tree)),
{
    let d = w.pending.last();
    let here = tree(d);
    let at = w.pending.len() - 1;
    let rest = w.pending.drop_last();
    let dirs = taken(d, here, PathKind::Directory);
    let news = taken(d, here, PathKind::File);
    let r = w.read_next(tree);
    assert(names_differ(tree(d)));
    lemma_found_all(WalkView { pending: rest, ..w }, d, tree(d));
    assert(r.pending == rest + dirs && r.files == w.files + news);
    lemma_taken(d, here, PathKind::Directory);
    lemma_taken(d, here, PathKind::File);
    lemma_taken_once(d, here, PathKind::Directory);
    lemma_taken_once(d, here, PathKind::File);
    assert(w.pending[at] == d && reached(tree, d));
    assert forall|i: int| 0 <= i < r.pending.len() implies reached(
        tree,
        #[trigger] r.pending[i],
    ) by {
        if i < at {
            assert(r.pending[i] == w.pending[i]);
        } else {
            assert(r.pending[i] == dirs[i - at]);
        }
    }
    assert forall|i: int| 0 <= i < r.files.len() implies shared(tree, #[trigger] r.files[i]) by {
        if i < w.files.len() {
            assert(r.files[i] == w.files[i]);
        } else {
            assert(r.files[i] == news[i - w.files.len()]);
        }
    }
    assert forall|path: Seq<Seq<char>>| #[trigger]
        shared(tree, path) implies r.files.contains(path) || exists|i: int|
        0 <= i < r.pending.len() && leads_to(#[trigger] r.pending[i], path.drop_last()) by {
        if w.files.contains(path) {
            let k = choose|k: int| 0 <= k < w.files.len() && w.files[k] == path;
            assert(r.files[k] == path);
        } else {
            let i = choose|i: int|
                0 <= i < w.pending.len() && leads_to(#[trigger] w.pending[i], path.drop_last());
            let way = path.drop_last();
            if i < at {
                assert(r.pending[i] == w.pending[i]);
            } else if way.len() == d.len() {
                assert(way.take(d.len() as int) =~= way);
                assert(path =~= d.push(path.last()));
                assert(news.contains(path));
                let k = choose|k: int| 0 <= k < news.len() && news[k] == path;
                assert(r.files[w.files.len() + k] == path);
            } else {
                let n = d.len() as int;
                let child = way.take(n + 1);
                lemma_reached_on_the_way(tree, way, n + 1);
                assert(child.drop_last() =~= way.take(n));
                assert(child =~= d.push(child.last()));
                assert(dirs.contains(child));
                let k = choose|k: int| 0 <= k < dirs.len() && dirs[k] == child;
                assert(r.pending[at + k] == child);
                assert(leads_to(r.pending[at + k], way));
            }
        }
    }
    assert forall|i: int, j: int|
        0 <= i < r.pending.len() && 0 <= j < r.pending.len() && i != j implies !leads_to(
        #[trigger] r.pending[i],
        #[trigger] r.pending[j],
    ) by {
        let a = r.pending[i];
        let b = r.pending[j];
        if i < at && j < at {
            assert(a == w.pending[i] && b == w.pending[j]);
        } else if i < at {
            assert(a == w.pending[i] && b == dirs[j - at]);
            lemma_below_or_past(d, b, a);
            assert(!leads_to(w.pending[i], w.pending[at]) && !leads_to(w.pending[at], w.pending[i]));
        } else if j < at {
            assert(a == dirs[i - at] && b == w.pending[j]);
            lemma_below_or_past(d, a, b);
            assert(!leads_to(w.pending[at], w.pending[j]));
        } else {
            assert(a == dirs[i - at] && b == dirs[j - at]);
            assert(b.take(a.len() as int) =~= b);
        }
    }
    assert forall|i: int, j: int|
        0 <= i < r.pending.len() && 0 <= j < r.files.len() implies !leads_to(
        #[trigger] r.pending[i],
        #[trigger] r.files[j],
    ) by {
        let a = r.pending[i];
        let b = r.files[j];
        if j < w.files.len() {
            assert(b == w.files[j]);
            assert(!leads_to(w.pending[at], w.files[j]));
            if i < at {
                assert(a == w.pending[i]);
            } else {
                assert(a == dirs[i - at]);
                lemma_below_or_past(d, a, b);
            }
        } else {
            assert(b == news[j - w.files.len()]);
            lemma_below_or_past(d, b, a);
            if i < at {
                assert(a == w.pending[i]);
                assert(!leads_to(w.pending[i], w.pending[at]) && !leads_to(
                    w.pending[at],
                    w.pending[i],
                ));
            } else {
                assert(a == dirs[i - at]);
                assert(b.take(a.len() as int) =~= b);
                if a == b {
                    let x = choose|x: int|
                        0 <= x < here.len() && here[x] == (a.last(), PathKind::Directory);
                    let y = choose|y: int|
                        0 <= y < here.len() && here[y] == (a.last(), PathKind::File);
                    assert(here[x].0 == here[y].0);
                }
            }
        }
    }
    assert forall|i: int, j: int|
        0 <= i < r.files.len() && 0 <= j < r.files.len() && i != j implies r.files[i]
        != r.files[j] by {
        let m = w.files.len() as int;
        if i < m && j < m {
            assert(r.files[i] == w.files[i] && r.files[j] == w.files[j]);
        } else if i < m {
            assert(r.files[i] == w.files[i] && r.files[j] == news[j - m]);
            lemma_below_or_past(d, news[j - m], d);
            assert(!leads_to(w.pending[at], w.files[i]));
        } else if j < m {
            assert(r.files[j] == w.files[j] && r.files[i] == news[i - m]);
            lemma_below_or_past(d, news[i - m], d);
            assert(!leads_to(w.pending[at], w.files[j]));
        } else {
            assert(r.files[i] == news[i - m] && r.files[j] == news[j - m]);
        }
    }
}

proof fn lemma_walked(
    tree: spec_fn(Seq<Seq<char>>) -> Seq<(Seq<char>, PathKind)>,
    states: Seq<WalkView>,
    n: int,
)
    requires
        forall|dir: Seq<Seq<char>>| #[trigger] names_differ(tree(dir)),
        0 <= n < states.len(),
        states[0] == WalkView::start(),
        forall|k: int|
            0 <= k < states.len() - 1 ==> (#[trigger] states[k]).pending.len() > 0 && states[k + 1]
                == states[k].read_next(tree),
    ensures
        on_its_way(tree, states[n]),
    decreases n,
{
    if n == 0 {
        let w = states[0];
        assert(w.pending[0] =~= Seq::<Seq<char>>::empty());
        assert forall|path: Seq<Seq<char>>| #[trigger] shared(tree, path) implies exists|i: int|
            0 <= i < w.pending.len() && leads_to(#[trigger] w.pending[i], path.drop_last()) by {
            assert(path.drop_last().take(0) =~= w.pending[0]);
            assert(leads_to(w.pending[0], path.drop_last()));
        }
    } else {
        lemma_walked(tree, states, n - 1);
        assert(states[n - 1].pending.len() > 0);
        lemma_read_next(tree, states[n - 1]);
    }
}

/// A whole walk takes up exactly the visible regular files, each of them once: from the start,
/// through the reading of one pending directory after the other, to the state in which none is
/// pending.
pub proof fn a_whole_walk_finds_the_visible_files(
    tree: spec_fn(Seq<Seq<char>>) -> Seq<(Seq<char>, PathKind)>,
    states: Seq<WalkView>,
)
    requires
        forall|dir: Seq<Seq<char>>| #[trigger] names_differ(tree(dir)),
        states.len() > 0,
        states[0] == WalkView::start(),
        forall|k: int|
            0 <= k < states.len() - 1 ==> (#[trigger] states[k]).pending.len() > 0 && states[k + 1]
                == states[k].read_next(tree),
        states.last().pending.len() == 0,
    ensures
        forall|path: Seq<Seq<char>>| #[trigger]
            states.last().files.contains(path) <==> shared(tree, path),
        states.last().files.no_duplicates(),
{
    let w = states.last();
    lemma_walked(tree, states, states.len() - 1);
    assert forall|path: Seq<Seq<char>>| #[trigger] w.files.contains(path) <==> shared(
        tree,
        path,
    ) by {
        if w.files.contains(path) {
            let k = choose|k: int| 0 <= k < w.files.len() && w.files[k] == path;
            assert(shared(tree, w.files[k]));
        }
    }
}

/// A regular file whose name does not begin with a dot is taken up among the files, a directory
/// with such a name is read later on, and a link or anything else is passed over. An entry whose
/// name does begin with a dot changes nothing.
pub proof fn a_walk_takes_up_what_has_no_leading_dot(
    walk: &mut Walk,
    dir: &MemberPath,
    name: &str,
    kind: PathKind,
)
    requires
        call_ensures(Walk::found, (walk, dir, name, kind), ()),
    ensures
        name@.len() > 0 && name@[0] == '.' ==> final(walk)@ == old(walk)@,
        !(name@.len() > 0 && name@[0] == '.') ==> {
            let here = texts(dir.names@).push(name@);
            match kind {
                PathKind::File => {
                    &&& final(walk)@.files == old(walk)@.files.push(here)
                    &&& final(walk)@.pending == old(walk)@.pending
                },
                PathKind::Directory => {
                    &&& final(walk)@.files == old(walk)@.files
                    &&& final(walk)@.pending == old(walk)@.pending.push(here)
                },
                PathKind::Other => final(walk)@ == old(walk)@,
            }
        },
{
}

/// Exactly the names whose first character is a dot are hidden.
pub proof fn only_a_leading_dot_hides(name: &str, r: bool)
    requires
        call_ensures(is_hidden, (name,), r),
    ensures
        r <==> name@.len() > 0 && name@.first() == '.',
{
}

/// Whether `path` leads to a regular file through directories alone, in a tree with these entries
/// in each directory, and no name on the way begins with a dot.
spec fn stands_in(
    tree: spec_fn(Seq<Seq<char>>) -> Seq<(Seq<char>, PathKind)>,
    path: Seq<Seq<char>>,
    last: PathKind,
) -> bool {
    forall|k: int|
        0 <= k < path.len() ==> {
            &&& !((#[trigger] path[k]).len() > 0 && path[k][0] == '.')
            &&& tree(path.take(k)).contains(
                (
                    path[k],
                    if k < path.len() - 1 {
                        PathKind::Directory
                    } else {
                        last
                    },
                ),
            )
        }
}

proof fn lemma_reached(
    tree: spec_fn(Seq<Seq<char>>) -> Seq<(Seq<char>, PathKind)>,
    dir: Seq<Seq<char>>,
)
    ensures
        reached(tree, dir) <==> stands_in(tree, dir, PathKind::Directory),
    decreases dir.len(),
{
    if dir.len() > 0 {
        let front = dir.drop_last();
        let n = dir.len() - 1;
        lemma_reached(tree, front);
        assert(dir.take(n) =~= front);
        assert(forall|k: int| 0 <= k < n ==> front.take(k) =~= dir.take(k));
        if reached(tree, dir) {
            assert forall|k: int| 0 <= k < dir.len() implies {
                &&& !((#[trigger] dir[k]).len() > 0 && dir[k][0] == '.')
                &&& tree(dir.take(k)).contains((dir[k], PathKind::Directory))
            } by {
                if k < n {
                    assert(front[k] == dir[k]);
                    assert(front.take(k) =~= dir.take(k));
                }
            }
        }
        if stands_in(tree, dir, PathKind::Directory) {
            assert(dir[n] == dir.last());
            assert forall|k: int| 0 <= k < front.len() implies {
                &&& !((#[trigger] front[k]).len() > 0 && front[k][0] == '.')
                &&& tree(front.take(k)).contains((front[k], PathKind::Directory))
            } by {
                assert(front[k] == dir[k]);
                assert(front.take(k) =~= dir.take(k));
            }
        }
    }
}

proof fn lemma_shared(
    tree: spec_fn(Seq<Seq<char>>) -> Seq<(Seq<char>, PathKind)>,
    path: Seq<Seq<char>>,
)
    ensures
        shared(tree, path) <==> path.len() > 0 && stands_in(tree, path, PathKind::File),
{
    if path.len() > 0 {
        let front = path.drop_last();
        let n = path.len() - 1;
        lemma_reached(tree, front);
        assert(path.take(n) =~= front);
        if shared(tree, path) {
            assert forall|k: int| 0 <= k < path.len() implies {
                &&& !((#[trigger] path[k]).len() > 0 && path[k][0] == '.')
                &&& tree(path.take(k)).contains(
                    (
                        path[k],
                        if k < path.len() - 1 {
                            PathKind::Directory
                        } else {
                            PathKind::File
                        },
                    ),
                )
            } by {
                if k < n {
                    assert(front[k] == path[k]);
                    assert(front.take(k) =~= path.take(k));
                }
            }
        }
        if stands_in(tree, path, PathKind::File) {
            assert(path[n] == path.last());
            assert forall|k: int| 0 <= k < front.len() implies {
                &&& !((#[trigger] front[k]).len() > 0 && front[k][0] == '.')
                &&& tree(front.take(k)).contains((front[k], PathKind::Directory))
            } by {
                assert(front[k] == path[k]);
                assert(front.take(k) =~= path.take(k));
            }
        }
    }
}

/// A whole walk has among its files exactly the paths that lead to a regular file through
/// directories alone, with no name on the way that begins with a dot.
pub proof fn a_whole_walk_shares_every_undotted_file(
    tree: spec_fn(Seq<Seq<char>>) -> Seq<(Seq<char>, PathKind)>,
    states: Seq<WalkView>,
    path: Seq<Seq<char>>,
)
    requires
        forall|dir: Seq<Seq<char>>| #[trigger] names_differ(tree(dir)),
        states.len() > 0,
        states[0] == WalkView::start(),
        forall|k: int|
            0 <= k < states.len() - 1 ==> (#[trigger] states[k]).pending.len() > 0 && states[k + 1]
                == states[k].read_next(tree),
        states.last().pending.len() == 0,
        path.len() > 0,
    ensures
        states.last().files.contains(path) <==> forall|k: int|
            0 <= k < path.len() ==> {
                &&& !((#[trigger] path[k]).len() > 0 && path[k][0] == '.')
                &&& tree(path.take(k)).contains(
                    (
                        path[k],
                        if k < path.len() - 1 {
                            PathKind::Directory
                        } else {
                            PathKind::File
                        },
                    ),
                )
            },
{
    a_whole_walk_finds_the_visible_files(tree, states);
    lemma_shared(tree, path);
    assert(states.last().files.contains(path) <==> shared(tree, path));
}

/// Nothing hidden is ever shared: no name on the way to any member begins with a dot.
pub proof fn members_are_visible(walk: Walk, members: Seq<MemberPath>)
    requires
        walk.wf(),
        members == arranged(walk.files@),
    ensures
        forall|i: int| 0 <= i < members.len() ==> visible((#[trigger] members[i])@),
{
    broadcast use vstd::seq_lib::group_to_multiset_ensures;

    crate::order::arranged_keeps_elements(walk.files@);
    assert forall|i: int| 0 <= i < members.len() implies visible((#[trigger] members[i])@) by {
        assert(members.contains(members[i]));
        assert(members.to_multiset().count(members[i]) > 0);
        assert(walk.files@.to_multiset().count(members[i]) > 0);
        let k = choose|k: int| 0 <= k < walk.files@.len() && walk.files@[k] == members[i];
        assert(visible(walk.files@[k]@));
    }
}

/// The path of a member, as a manifest spells it.
pub open spec fn member_text(path: Seq<Seq<char>>) -> Seq<char> {
    replaced(joined(path, "/"@), '\\', '/')
}

/// Builds the manifest of the members that were imported, each with its hash and size.
pub fn build_manifest(
    name: &str,
    members: &Vec<MemberPath>,
    imported: &Vec<(BlobHash, u64)>,
) -> (r: Manifest)
    requires
        members@.len() == imported@.len(),
    ensures
        r.iroh_drop_collection == 1,
        r.name@ == name@,
        r.members() == Seq::new(
            members@.len(),
            |i: int|
                EntryView {
                    path: member_text(members@[i]@),
                    hash: imported@[i].0.hex@,
                    size: imported@[i].1,
                },
        ),
{
    let mut entries: Vec<ManifestEntry> = Vec::new();
    let mut i: usize = 0;
    while i < members.len()
        invariant
            i <= members@.len(),
            members@.len() == imported@.len(),
            entries@.len() == i,
            forall|k: int|
                0 <= k < i ==> (#[trigger] entries@[k])@ == (EntryView {
                    path: member_text(members@[k]@),
                    hash: imported@[k].0.hex@,
                    size: imported@[k].1,
                }),
        decreases members@.len() - i,
    {
        let text = join(&members[i].names, "/");
        let entry = ManifestEntry {
            path: replace_char(text.as_str(), '\\', '/'),
            hash: imported[i].0.to_hex(),
            size: imported[i].1,
        };
        entries.push(entry);
        i += 1;
    }
    let r = Manifest { iroh_drop_collection: 1, name: name.to_owned(), entries };
    assert(r.members() =~= Seq::new(
        members@.len(),
        |i: int|
            EntryView {
                path: member_text(members@[i]@),
                hash: imported@[i].0.hex@,
                size: imported@[i].1,
            },
    ));
    r
}

/// Metadata as pairs of texts.
pub open spec fn pair_views(s: Seq<(String, String)>) -> Seq<(Seq<char>, Seq<char>)> {
    Seq::new(s.len(), |i: int| (s[i].0@, s[i].1@))
}

/// What the offer of a collection carries, so that receivers can see what they are about
/// to download before fetching anything.
pub fn offer_metadata(manifest: &Manifest) -> (r: Vec<(String, String)>)
    requires
        size_sum(manifest.entries@) <= u64::MAX,
    ensures
        pair_views(r@) == seq![
            (META_MEMBERS@, decimal(manifest.entries@.len())),
            (META_TOTAL_BYTES@, decimal(size_sum(manifest.entries@))),
        ],
{
    let mut out: Vec<(String, String)> = Vec::new();
    let count = number(manifest.entries.len() as u64);
    let total = number(manifest.total_size());
    out.push((META_MEMBERS.to_owned(), count));
    out.push((META_TOTAL_BYTES.to_owned(), total));
    assert(pair_views(out@) =~= seq![
        (META_MEMBERS@, decimal(manifest.entries@.len())),
        (META_TOTAL_BYTES@, decimal(size_sum(manifest.entries@))),
    ]);
    out
}

/// What publishing a plain file produced.
pub fn published_file(blob: PublishedBlob) -> (r: Published)
    ensures
        r.blob == blob,
        r.members == 1,
        r.total_size == blob.size,
        !r.is_collection,
{
    let total_size: u64 = blob.size;
    Published { blob, members: 1, total_size, is_collection: false }
}

/// What publishing a directory produced.
pub fn published_tree(blob: PublishedBlob, manifest: &Manifest) -> (r: Published)
    requires
        size_sum(manifest.entries@) <= u64::MAX,
    ensures
        r.blob == blob,
        r.members == manifest.entries@.len(),
        r.total_size == size_sum(manifest.entries@),
        r.is_collection,
{
    Published {
        blob,
        members: manifest.entries.len(),
        total_size: manifest.total_size(),
        is_collection: true,
    }
}

/// Whether a name from untrusted metadata may become a path component.
pub open spec fn safe_name(name: Seq<char>) -> bool {
    &&& name.len() > 0
    &&& utf8_len(name) <= 255
    &&& !name.contains('/')
    &&& !name.contains('\\')
    &&& name != "."@
    &&& name != ".."@
}

/// The error for a name that may not become a path component.
pub open spec fn unsafe_name(name: Seq<char>) -> SdkErrorView {
    SdkErrorView::Manifest("unsafe name "@ + quoted(name))
}

/// Validates one path component from untrusted metadata.
pub fn sanitize_component(name: &str) -> (r: Result<String, SdkError>)
    ensures
        match r {
            Ok(s) => safe_name(name@) && s@ == name@,
            Err(e) => !safe_name(name@) && e@ == unsafe_name(name@),
        },
{
    proof {
        reveal_strlit("");
    }
    let empty = same(name, "");
    assert(empty == (name@.len() == 0)) by {
        if name@.len() == 0 {
            assert(name@ =~= ""@);
        }
    }
    if empty || byte_len(name) > 255 || contains_char(name, '/') || contains_char(name, '\\')
        || same(name, ".") || same(name, "..") {
        return Err(SdkError::Manifest("unsafe name ".to_owned().concat(quote(name).as_str())));
    }
    Ok(name.to_owned())
}

/// What [`sanitize_component`] accepts, it accepts unchanged; and it accepts every name that is not
/// empty, takes at most 255 bytes, holds neither slash nor backslash, and is neither `.` nor `..`,
/// and no other.
pub proof fn ordinary_names_are_accepted(name: &str, r: Result<String, SdkError>)
    requires
        call_ensures(sanitize_component, (name,), r),
    ensures
        r is Ok <==> {
            &&& 0 < name@.len()
            &&& encode_utf8(name@).len() <= 255
            &&& forall|i: int|
                0 <= i < name@.len() ==> #[trigger] name@[i] != '/' && name@[i] != '\\'
            &&& name@ != seq!['.']
            &&& name@ != seq!['.', '.']
        },
        r is Ok ==> r->Ok_0@ == name@,
{
    reveal_strlit(".");
    reveal_strlit("..");
    assert("."@ =~= seq!['.']);
    assert(".."@ =~= seq!['.', '.']);
    if safe_name(name@) {
        assert forall|i: int| 0 <= i < name@.len() implies #[trigger] name@[i] != '/' && name@[i]
            != '\\' by {
            assert(name@.contains(name@[i]));
        }
    }
}

/// The first thing wrong with the parts of a member path, if anything is.
pub open spec fn parts_fault(p: Seq<PartView>, path: Seq<char>) -> Option<SdkErrorView>
    decreases p.len(),
{
    if p.len() == 0 {
        None
    } else {
        match p[0] {
            PartView::Name(name) => if safe_name(name) {
                parts_fault(p.drop_first(), path)
            } else {
                Some(unsafe_name(name))
            },
            _ => Some(SdkErrorView::Manifest("unsafe member path "@ + quoted(path))),
        }
    }
}

/// The names among parts.
pub open spec fn part_names(p: Seq<PartView>) -> Seq<Seq<char>> {
    Seq::new(p.len(), |i: int| p[i]->Name_0)
}

/// What becomes of an untrusted member path: its names with slashes between them, unless
/// it is too long, empty, absolute, has a part that is not a safe name, or has an empty
/// component.
pub open spec fn sanitized(path: Seq<char>) -> Result<Seq<char>, SdkErrorView> {
    if utf8_len(path) > 1024 {
        Err(SdkErrorView::Manifest("member path too long"@))
    } else {
        match parts_fault(parts(path), path) {
            Some(e) => Err(e),
            None => if parts(path).len() == 0 {
                Err(SdkErrorView::Manifest("empty member path"@))
            } else if has_empty_piece(path) {
                Err(SdkErrorView::Manifest("unsafe member path "@ + quoted(path)))
            } else {
                Ok(joined(part_names(parts(path)), "/"@))
            },
        }
    }
}

/// Validates an untrusted relative path from a manifest: no absolute paths, no `..`, no
/// empty components, no empty path.
pub fn sanitize_relative(path: &str) -> (r: Result<String, SdkError>)
    ensures
        match r {
            Ok(s) => sanitized(path@) == Ok::<Seq<char>, SdkErrorView>(s@),
            Err(e) => sanitized(path@) == Err::<Seq<char>, SdkErrorView>(e@),
        },
{
    if byte_len(path) > 1024 {
        return Err(SdkError::Manifest("member path too long".to_owned()));
    }
    let found = split(path);
    let ghost all = parts(path@);
    let mut safe: Vec<String> = Vec::new();
    let mut i: usize = 0;
    assert(all.skip(0) =~= all);
    while i < found.len()
        invariant
            i <= found@.len(),
            all == part_views(found@),
            all == parts(path@),
            utf8_len(path@) <= 1024,
            parts_fault(all, path@) == parts_fault(all.skip(i as int), path@),
            texts(safe@) == part_names(all).take(i as int),
        decreases found@.len() - i,
    {
        assert(all.skip(i as int)[0] == found@[i as int]@);
        assert(all.skip(i as int).drop_first() =~= all.skip(i + 1));
        match &found[i] {
            Part::Name(name) => match sanitize_component(name.as_str()) {
                Ok(name) => {
                    let ghost before = safe@;
                    safe.push(name);
                    assert(texts(safe@) =~= texts(before).push(name@));
                    assert(texts(safe@) =~= part_names(all).take(i + 1));
                },
                Err(e) => {
                    return Err(e);
                },
            },
            _ => {
                return Err(
                    SdkError::Manifest(
                        "unsafe member path ".to_owned().concat(quote(path).as_str()),
                    ),
                );
            },
        }
        i += 1;
    }
    assert(all.skip(i as int).len() == 0);
    if found.len() == 0 {
        return Err(SdkError::Manifest("empty member path".to_owned()));
    }
    if any_empty_piece(path) {
        return Err(
            SdkError::Manifest("unsafe member path ".to_owned().concat(quote(path).as_str())),
        );
    }
    assert(texts(safe@) =~= part_names(all));
    Ok(join(&safe, "/"))
}

proof fn lemma_no_fault(p: Seq<PartView>, path: Seq<char>)
    requires
        parts_fault(p, path) is None,
    ensures
        forall|i: int|
            0 <= i < p.len() ==> (#[trigger] p[i]) is Name && safe_name(p[i]->Name_0),
    decreases p.len(),
{
    if p.len() > 0 {
        lemma_no_fault(p.drop_first(), path);
        assert forall|i: int| 0 <= i < p.len() implies (#[trigger] p[i]) is Name && safe_name(
            p[i]->Name_0,
        ) by {
            if i > 0 {
                assert(p[i] == p.drop_first()[i - 1]);
            }
        }
    }
}

/// A sanitized path has the parts of the path it came from, and all of them are safe
/// names: it can lead neither out of nor past the directory that it is taken below.
pub proof fn sanitized_path_is_safe(path: Seq<char>)
    requires
        sanitized(path) is Ok,
    ensures
        parts(sanitized(path)->Ok_0) == parts(path),
        !has_empty_piece(path),
        !has_empty_piece(sanitized(path)->Ok_0),
        plainly_relative(sanitized(path)->Ok_0),
        parts(path).len() > 0,
        forall|i: int|
            0 <= i < parts(path).len() ==> (#[trigger] parts(path)[i]) is Name && safe_name(
                parts(path)[i]->Name_0,
            ),
{
    let p = parts(path);
    let names = part_names(p);
    lemma_no_fault(p, path);
    assert forall|i: int| 0 <= i < names.len() implies plain_name(#[trigger] names[i]) by {
        assert(p[i] is Name);
    }
    joined_names_are_parts(names);
    assert(parts(joined(names, "/"@)) =~= p) by {
        assert forall|i: int| 0 <= i < p.len() implies #[trigger] p[i] == PartView::Name(
            names[i],
        ) by {
            assert(p[i] is Name);
        }
    }
}

/// Sanitizing twice gives what sanitizing once gives.
pub proof fn sanitizing_is_idempotent(path: Seq<char>)
    requires
        sanitized(path) is Ok,
    ensures
        sanitized(sanitized(path)->Ok_0) == sanitized(path),
{
    sanitized_path_is_safe(path);
    plain_paths_get_no_longer(path);
    let s = sanitized(path)->Ok_0;
    lemma_no_fault(parts(path), path);
    lemma_safe_parts_have_no_fault(parts(s), s);
}

proof fn lemma_safe_parts_have_no_fault(p: Seq<PartView>, path: Seq<char>)
    requires
        forall|i: int| 0 <= i < p.len() ==> (#[trigger] p[i]) is Name && safe_name(p[i]->Name_0),
    ensures
        parts_fault(p, path) is None,
    decreases p.len(),
{
    if p.len() > 0 {
        assert(p[0] is Name);
        assert forall|i: int| 0 <= i < p.drop_first().len() implies (
        #[trigger] p.drop_first()[i]) is Name && safe_name(p.drop_first()[i]->Name_0) by {
            assert(p.drop_first()[i] == p[i + 1]);
        }
        lemma_safe_parts_have_no_fault(p.drop_first(), path);
    }
}

/// A path made of ordinary names with slashes between them passes as it is.
pub proof fn ordinary_paths_are_accepted(names: Seq<Seq<char>>)
    requires
        names.len() > 0,
        forall|i: int|
            0 <= i < names.len() ==> {
                &&& 0 < (#[trigger] names[i]).len()
                &&& encode_utf8(names[i]).len() <= 255
                &&& !names[i].contains('/')
                &&& !names[i].contains('\\')
                &&& names[i] != "."@
                &&& names[i] != ".."@
            },
        encode_utf8(joined(names, "/"@)).len() <= 1024,
    ensures
        sanitized(joined(names, "/"@)) == Ok::<Seq<char>, SdkErrorView>(joined(names, "/"@)),
{
    let path = joined(names, "/"@);
    assert forall|i: int| 0 <= i < names.len() implies plain_name(#[trigger] names[i]) by {
        assert(0 < names[i].len());
    }
    joined_names_are_parts(names);
    let p = parts(path);
    assert forall|i: int| 0 <= i < p.len() implies (#[trigger] p[i]) is Name && safe_name(
        p[i]->Name_0,
    ) by {
        assert(0 < names[i].len());
    }
    lemma_safe_parts_have_no_fault(p, path);
    assert(part_names(p) =~= names);
    assert(pieces(path) == names);
}

/// What is refused: a path with an empty component (an absolute one begins with one), with a `..`
/// anywhere or a `.` in front, with a backslash, with a component of more than 255 bytes, or of
/// more than 1024 bytes in all.
pub proof fn paths_that_could_escape_are_refused(path: Seq<char>, i: int)
    requires
        0 <= i < pieces(path).len(),
        ({
            ||| pieces(path)[i].len() == 0
            ||| pieces(path)[i] == ".."@
            ||| pieces(path)[i].contains('\\')
            ||| encode_utf8(pieces(path)[i]).len() > 255
            ||| pieces(path)[0] == "."@
            ||| encode_utf8(path).len() > 1024
        }),
    ensures
        sanitized(path) is Err,
{
    if sanitized(path) is Ok {
        let p = parts(path);
        lemma_no_fault(p, path);
        let piece = pieces(path)[i];
        assert(!has_empty_piece(path));
        assert(!(path.len() > 0 && path[0] == '/')) by {
            if path.len() > 0 && path[0] == '/' {
                assert(p[0] is Root);
            }
        }
        assert(pieces(path)[0] != "."@) by {
            if pieces(path)[0] == "."@ {
                assert(p[0] is Current);
            }
        }
        reveal_strlit(".");
        reveal_strlit("..");
        if piece != "."@ {
            lemma_pieces_are_parts(pieces(path), i);
            let k = choose|k: int|
                0 <= k < p.len() && p[k] == if piece == ".."@ {
                    PartView::Parent
                } else {
                    PartView::Name(piece)
                };
            assert(p[k] is Name && safe_name(p[k]->Name_0));
        } else {
            assert(!piece.contains('\\'));
            assert(utf8_len(piece) <= 4 * piece.len()) by {
                lemma_utf8_len_bound(piece);
            }
        }
    }
}

proof fn lemma_utf8_len_bound(s: Seq<char>)
    ensures
        utf8_len(s) <= 4 * s.len(),
    decreases s.len(),
{
    if s.len() > 0 {
        lemma_utf8_len_bound(s.drop_first());
    }
}

proof fn lemma_pieces_are_parts(p: Seq<Seq<char>>, i: int)
    requires
        0 <= i < p.len(),
        p[i].len() > 0,
        p[i] != "."@,
    ensures
        parts_of_pieces(p).contains(
            if p[i] == ".."@ {
                PartView::Parent
            } else {
                PartView::Name(p[i])
            },
        ),
    decreases p.len(),
{
    let part = if p[i] == ".."@ {
        PartView::Parent
    } else {
        PartView::Name(p[i])
    };
    if i == 0 {
        assert(parts_of_pieces(p)[0] == part);
    } else {
        assert(p.drop_first()[i - 1] == p[i]);
        lemma_pieces_are_parts(p.drop_first(), i - 1);
        let rest = parts_of_pieces(p.drop_first());
        let k = choose|k: int| 0 <= k < rest.len() && rest[k] == part;
        let whole = parts_of_pieces(p);
        if whole.len() == rest.len() {
            assert(whole[k] == part);
        } else {
            assert(whole[k + 1] == part);
        }
    }
}

/// How to fetch a blob.
#[derive(Debug)]
pub enum FetchPlan {
    /// An ordinary blob: write it to the destination directory.
    Plain,
    /// A collection: write its members below a directory of its own.
    Tree(TreeFetch),
}

/// A collection on its way to disk, member by member.
#[derive(Debug)]
pub struct TreeFetch {
    /// What is being fetched.
    pub manifest: Manifest,
    /// The directory that the members go below.
    pub root: String,
    /// The paths written so far.
    pub written: Vec<String>,
}

/// The next member to fetch.
#[derive(Debug)]
pub struct MemberStep {
    /// Where the member goes.
    pub target: String,
    /// The directory to create first, if the target stands in one.
    pub parent: Option<String>,
    /// The member's hash, as the manifest spells it.
    pub hash: String,
}

/// Progress of a collection fetch, member by member.
#[derive(Debug)]
pub struct MemberProgress {
    /// 1-based member index.
    pub index: usize,
    /// Total members in the collection.
    pub total: usize,
    /// Relative path of the member just fetched.
    pub path: String,
    /// Collection name.
    pub collection: String,
}

/// Decides how to fetch a blob into `dest`, given its manifest where it has one. Plain
/// blobs land in `dest`; collections become `dest/<name>/...`.
pub fn fetch_any_reporting(dest: &str, manifest: Option<Manifest>) -> (r: Result<
    FetchPlan,
    SdkError,
>)
    ensures
        match (manifest, r) {
            (None, r) => r == Ok::<FetchPlan, SdkError>(FetchPlan::Plain),
            (Some(manifest), Ok(FetchPlan::Tree(fetch))) => {
                &&& safe_name(manifest.name@)
                &&& fetch.manifest == manifest
                &&& fetch.root@ == below(dest@, manifest.name@)
                &&& fetch.written@.len() == 0
            },
            (Some(manifest), Ok(FetchPlan::Plain)) => false,
            (Some(manifest), Err(e)) => !safe_name(manifest.name@) && e@ == unsafe_name(
                manifest.name@,
            ),
        },
{
    match manifest {
        None => Ok(FetchPlan::Plain),
        Some(manifest) => match sanitize_component(manifest.name.as_str()) {
            Ok(name) => {
                let root = join_path(dest, name.as_str());
                Ok(FetchPlan::Tree(TreeFetch { manifest, root, written: Vec::new() }))
            },
            Err(e) => Err(e),
        },
    }
}

impl TreeFetch {
    /// Whether `step` is how to fetch the next member: it goes where its sanitized path leads
    /// below the root.
    pub open spec fn offers(self, step: MemberStep) -> bool {
        let entry = self.manifest.entries@[self.written@.len() as int];
        &&& self.written@.len() < self.manifest.entries@.len()
        &&& sanitized(entry.path@) is Ok
        &&& step.target@ == below(self.root@, sanitized(entry.path@)->Ok_0)
        &&& opt_text(step.parent) == parent_text(step.target@)
        &&& step.hash@ == entry.hash@
    }

    /// Whether this is the state after the next member was fetched: so many bytes, written to
    /// `path` if it differs from the target.
    pub open spec fn took(
        self,
        before: TreeFetch,
        step: MemberStep,
        size: u64,
        path: Option<String>,
    ) -> bool {
        &&& self.manifest == before.manifest
        &&& self.root == before.root
        &&& size == before.manifest.entries@[before.written@.len() as int].size
        &&& self.written@.len() == before.written@.len() + 1
        &&& self.written@.drop_last() == before.written@
        &&& self.written@.last()@ == match path {
            Some(path) => path@,
            None => step.target@,
        }
    }

    /// The next member, or none when all are written; an error for a member whose path is
    /// not safe.
    pub fn next_member(&self) -> (r: Option<Result<MemberStep, SdkError>>)
        ensures
            match r {
                None => self.written@.len() >= self.manifest.entries@.len(),
                Some(step) => {
                    let entry = self.manifest.entries@[self.written@.len() as int];
                    &&& self.written@.len() < self.manifest.entries@.len()
                    &&& match step {
                        Ok(step) => self.offers(step),
                        Err(e) => sanitized(entry.path@) == Err::<Seq<char>, SdkErrorView>(e@),
                    }
                },
            },
    {
        let at: usize = self.written.len();
        if at >= self.manifest.entries.len() {
            return None;
        }
        let entry = &self.manifest.entries[at];
        match sanitize_relative(entry.path.as_str()) {
            Ok(rel) => {
                let target = join_path(self.root.as_str(), rel.as_str());
                let parent = parent(target.as_str());
                Some(Ok(MemberStep { target, parent, hash: entry.hash.clone() }))
            },
            Err(e) => Some(Err(e)),
        }
    }

    /// The error for a member whose hash cannot be read.
    pub fn bad_hash(why: &str) -> (r: SdkError)
        ensures
            r@ == SdkErrorView::Manifest("bad member hash: "@ + why@),
    {
        SdkError::Manifest("bad member hash: ".to_owned().concat(why))
    }

    /// Takes note that the next member was fetched: `size` bytes, written to `path` if it
    /// differs from the target. A member of another size than the manifest says is an
    /// error, and nothing is noted.
    pub fn landed(&mut self, step: MemberStep, size: u64, path: Option<String>) -> (r: Result<
        MemberProgress,
        SdkError,
    >)
        requires
            old(self).written@.len() < old(self).manifest.entries@.len(),
        ensures
            ({
                let entry = old(self).manifest.entries@[old(self).written@.len() as int];
                match r {
                    Ok(progress) => {
                        &&& final(self).took(*old(self), step, size, path)
                        &&& progress.index == old(self).written@.len() + 1
                        &&& progress.total == old(self).manifest.entries@.len()
                        &&& progress.path@ == entry.path@
                        &&& progress.collection@ == old(self).manifest.name@
                    },
                    Err(e) => {
                        &&& size != entry.size
                        &&& *final(self) == *old(self)
                        &&& e@ == SdkErrorView::Manifest(
                            "member "@ + entry.path@ + " is "@ + decimal(size as nat)
                                + " bytes, manifest says "@ + decimal(entry.size as nat),
                        )
                    },
                }
            }),
    {
        let at: usize = self.written.len();
        let expected: u64 = self.manifest.entries[at].size;
        if size != expected {
            return Err(
                SdkError::Manifest(
                    "member ".to_owned().concat(self.manifest.entries[at].path.as_str()).concat(
                        " is ",
                    ).concat(number(size).as_str()).concat(" bytes, manifest says ").concat(
                        number(expected).as_str(),
                    ),
                ),
            );
        }
        let path = match path {
            Some(path) => path,
            None => step.target,
        };
        self.written.push(path);
        assert(self.written@.drop_last() =~= old(self).written@);
        Ok(
            MemberProgress {
                index: self.written.len(),
                total: self.manifest.entries.len(),
                path: self.manifest.entries[at].path.clone(),
                collection: self.manifest.name.clone(),
            },
        )
    }
}

proof fn lemma_fetched_so_far(
    states: Seq<TreeFetch>,
    steps: Seq<MemberStep>,
    sizes: Seq<u64>,
    paths: Seq<Option<String>>,
    n: int,
)
    requires
        states.len() == steps.len() + 1,
        0 <= n <= steps.len(),
        states[0].written@.len() == 0,
        forall|k: int|
            0 <= k < steps.len() ==> states[k].offers(#[trigger] steps[k]) && states[k + 1].took(
                states[k],
                steps[k],
                sizes[k],
                paths[k],
            ),
    ensures
        states[n].manifest == states[0].manifest,
        states[n].root == states[0].root,
        states[n].written@.len() == n,
        forall|k: int|
            0 <= k < n ==> {
                let entry = states[0].manifest.entries@[k];
                &&& sanitized(entry.path@) is Ok
                &&& (#[trigger] steps[k]).hash@ == entry.hash@
                &&& steps[k].target@ == below(states[0].root@, sanitized(entry.path@)->Ok_0)
                &&& sizes[k] == entry.size
                &&& states[n].written@[k]@ == match paths[k] {
                    Some(path) => path@,
                    None => steps[k].target@,
                }
            },
    decreases n,
{
    if n > 0 {
        lemma_fetched_so_far(states, steps, sizes, paths, n - 1);
        assert(states[n - 1].offers(steps[n - 1]));
        let before = states[n - 1].written@;
        let after = states[n].written@;
        assert(after.drop_last() == before);
        assert forall|k: int| 0 <= k < n - 1 implies #[trigger] after[k] == before[k] by {
            assert(after.drop_last()[k] == after[k]);
        }
    }
}

/// A whole fetch writes every member once, in the order of the manifest: from nothing written,
/// through steps as they are offered and taken note of, to the state in which none is left. Each
/// member has the hash and the size that the manifest says, and goes where its sanitized path
/// leads below the root.
pub proof fn a_whole_fetch_writes_every_member_once(
    states: Seq<TreeFetch>,
    steps: Seq<MemberStep>,
    sizes: Seq<u64>,
    paths: Seq<Option<String>>,
)
    requires
        states.len() == steps.len() + 1,
        states[0].written@.len() == 0,
        forall|k: int|
            0 <= k < steps.len() ==> states[k].offers(#[trigger] steps[k]) && states[k + 1].took(
                states[k],
                steps[k],
                sizes[k],
                paths[k],
            ),
        states.last().written@.len() >= states.last().manifest.entries@.len(),
    ensures
        steps.len() == states[0].manifest.entries@.len(),
        states.last().written@.len() == states[0].manifest.entries@.len(),
        forall|k: int|
            0 <= k < steps.len() ==> {
                let entry = states[0].manifest.entries@[k];
                &&& sanitized(entry.path@) is Ok
                &&& (#[trigger] steps[k]).hash@ == entry.hash@
                &&& steps[k].target@ == below(states[0].root@, sanitized(entry.path@)->Ok_0)
                &&& sizes[k] == entry.size
                &&& states.last().written@[k]@ == match paths[k] {
                    Some(path) => path@,
                    None => steps[k].target@,
                }
            },
{
    let n = steps.len() as int;
    lemma_fetched_so_far(states, steps, sizes, paths, n);
    if n > 0 {
        lemma_fetched_so_far(states, steps, sizes, paths, n - 1);
        assert(states[n - 1].offers(steps[n - 1]));
    }
}

/// Whatever a manifest says, every member goes below the destination: the parts of its
/// target are those of the destination, the collection's name, and safe names.
pub proof fn members_stay_below_the_destination(dest: Seq<char>, name: Seq<char>, path: Seq<char>)
    requires
        safe_name(name),
        sanitized(path) is Ok,
    ensures
        parts(below(below(dest, name), sanitized(path)->Ok_0)) == parts(dest) + seq![
            PartView::Name(name),
        ] + parts(path),
        forall|i: int|
            0 <= i < parts(path).len() ==> (#[trigger] parts(path)[i]) is Name && safe_name(
                parts(path)[i]->Name_0,
            ),
{
    sanitized_path_is_safe(path);
    joined_names_are_parts(seq![name]);
    assert(joined(seq![name], "/"@) == name);
    assert(parts(name) =~= seq![PartView::Name(name)]);
    below_adds_parts(dest, name);
    below_adds_parts(below(dest, name), sanitized(path)->Ok_0);
    assert(parts(dest) + parts(name) =~= parts(dest) + seq![PartView::Name(name)]);
}

proof fn lemma_joined_without(names: Seq<Seq<char>>, sep: Seq<char>, c: char)
    requires
        forall|i: int| 0 <= i < names.len() ==> !(#[trigger] names[i]).contains(c),
        !sep.contains(c),
    ensures
        !joined(names, sep).contains(c),
    decreases names.len(),
{
    if names.len() == 1 {
        assert(!names[0].contains(c));
    } else if names.len() > 1 {
        let front = joined(names.drop_last(), sep);
        let last = names.last();
        assert forall|i: int| 0 <= i < names.drop_last().len() implies !(
        #[trigger] names.drop_last()[i]).contains(c) by {
            assert(names.drop_last()[i] == names[i]);
        }
        lemma_joined_without(names.drop_last(), sep, c);
        assert(!names[names.len() - 1].contains(c));
        let whole = front + sep + last;
        assert forall|i: int| 0 <= i < whole.len() implies #[trigger] whole[i] != c by {
            if i < front.len() {
                assert(front.contains(front[i]));
            } else if i < front.len() + sep.len() {
                assert(sep.contains(sep[i - front.len()]));
            } else {
                assert(last.contains(last[i - front.len() - sep.len()]));
            }
        }
    }
}

/// A directory goes in on one side and comes out on the other: a member that is shared
/// under the names `names` passes as it is, and is written below the destination and the
/// collection's name under those same names.
pub proof fn shared_members_arrive_where_they_were(
    dest: Seq<char>,
    name: Seq<char>,
    names: Seq<Seq<char>>,
)
    requires
        0 < name.len(),
        encode_utf8(name).len() <= 255,
        !name.contains('/'),
        !name.contains('\\'),
        name != "."@,
        name != ".."@,
        names.len() > 0,
        forall|i: int|
            0 <= i < names.len() ==> {
                &&& 0 < (#[trigger] names[i]).len()
                &&& encode_utf8(names[i]).len() <= 255
                &&& !names[i].contains('/')
                &&& !names[i].contains('\\')
                &&& names[i] != "."@
                &&& names[i] != ".."@
            },
        encode_utf8(joined(names, "/"@)).len() <= 1024,
    ensures
        member_text(names) == joined(names, "/"@),
        sanitized(member_text(names)) == Ok::<Seq<char>, SdkErrorView>(member_text(names)),
        parts(below(below(dest, name), sanitized(member_text(names))->Ok_0)) == parts(dest)
            + seq![PartView::Name(name)] + Seq::new(
            names.len(),
            |i: int| PartView::Name(names[i]),
        ),
{
    let path = joined(names, "/"@);
    reveal_strlit("/");
    assert forall|i: int| 0 <= i < names.len() implies plain_name(#[trigger] names[i]) && !names[i].contains(
        '\\',
    ) by {
        assert(0 < names[i].len());
    }
    lemma_joined_without(names, "/"@, '\\');
    assert(member_text(names) =~= path) by {
        assert forall|i: int| 0 <= i < path.len() implies #[trigger] path[i] != '\\' by {
            assert(path.contains(path[i]));
        }
    }
    joined_names_are_parts(names);
    ordinary_paths_are_accepted(names);
    members_stay_below_the_destination(dest, name, path);
}

/// What to do about a blob that may be a manifest, before reading it.
#[derive(Debug)]
pub enum ManifestCheck {
    /// Advertised as something else, or too large to be a manifest: an ordinary blob.
    Blob,
    /// Read it and see.
    Read,
}

/// Whether the offer of a blob says that it is a collection.
pub open spec fn says_collection(media_type: Option<Seq<char>>) -> bool {
    media_type == Some(COLLECTION_MEDIA_TYPE@)
}

/// Whether the offer of a blob says that it is a collection.
pub fn is_collection_type(media_type: &Option<String>) -> (r: bool)
    ensures
        r == says_collection(opt_text(*media_type)),
{
    match media_type {
        Some(t) => same(t.as_str(), COLLECTION_MEDIA_TYPE),
        None => false,
    }
}

/// Whether the offer of a blob says that it is something else than a collection.
pub open spec fn says_other(media_type: Option<Seq<char>>) -> bool {
    media_type is Some && !says_collection(media_type)
}

/// Decides by its media type, where that is known, and its size whether a blob is to be read
/// as a manifest. One that is advertised as a collection and is too large for one is an error.
pub fn check_manifest_size(advertised: &Option<String>, size: u64) -> (r: Result<
    ManifestCheck,
    SdkError,
>)
    ensures
        match r {
            Ok(ManifestCheck::Read) => size <= MAX_MANIFEST_BYTES && !says_other(
                opt_text(*advertised),
            ),
            Ok(ManifestCheck::Blob) => says_other(opt_text(*advertised)) || (size
                > MAX_MANIFEST_BYTES && advertised is None),
            Err(e) => {
                &&& size > MAX_MANIFEST_BYTES
                &&& says_collection(opt_text(*advertised))
                &&& e@ == SdkErrorView::Manifest(
                    "manifest of "@ + decimal(size as nat) + " bytes exceeds the "@ + decimal(
                        MAX_MANIFEST_BYTES as nat,
                    ) + " byte limit"@,
                )
            },
        },
{
    let collection = is_collection_type(advertised);
    if advertised.is_some() && !collection {
        return Ok(ManifestCheck::Blob);
    }
    if size > MAX_MANIFEST_BYTES {
        if collection {
            return Err(
                SdkError::Manifest(
                    "manifest of ".to_owned().concat(number(size).as_str()).concat(
                        " bytes exceeds the ",
                    ).concat(number(MAX_MANIFEST_BYTES).as_str()).concat(" byte limit"),
                ),
            );
        }
        return Ok(ManifestCheck::Blob);
    }
    Ok(ManifestCheck::Read)
}

/// Decides what the bytes of a blob are, once somebody has tried to parse them as a
/// manifest. Trusts the media type when the offer is known, and otherwise goes by whether
/// the bytes describe themselves as a manifest.
pub fn read_manifest(advertised: &Option<String>, parsed: Result<Manifest, String>) -> (r: Result<
    Option<Manifest>,
    SdkError,
>)
    ensures
        says_other(opt_text(*advertised)) ==> r == Ok::<Option<Manifest>, SdkError>(None),
        !says_other(opt_text(*advertised)) ==> match (parsed, r) {
            (Ok(m), Ok(found)) => {
                &&& m.iroh_drop_collection == 1
                &&& m.entries@.len() <= MAX_MEMBERS
                &&& found == Some(m)
            },
            (Ok(m), Err(e)) => {
                ||| m.iroh_drop_collection == 1 && m.entries@.len() > MAX_MEMBERS && e@
                    == SdkErrorView::Manifest(
                    "manifest lists "@ + decimal(m.entries@.len()) + " members, over the "@
                        + decimal(MAX_MEMBERS as nat) + " limit"@,
                )
                ||| m.iroh_drop_collection != 1 && e@ == SdkErrorView::Manifest(
                    "unsupported collection version "@ + decimal(m.iroh_drop_collection as nat),
                )
            },
            (Err(why), Ok(found)) => advertised is None && found is None,
            (Err(why), Err(e)) => says_collection(opt_text(*advertised)) && e@
                == SdkErrorView::Manifest(why@),
        },
{
    let collection = is_collection_type(advertised);
    if advertised.is_some() && !collection {
        return Ok(None);
    }
    match parsed {
        Ok(m) => {
            if m.iroh_drop_collection == 1 {
                if m.entries.len() > MAX_MEMBERS {
                    return Err(
                        SdkError::Manifest(
                            "manifest lists ".to_owned().concat(
                                number(m.entries.len() as u64).as_str(),
                            ).concat(" members, over the ").concat(
                                number(MAX_MEMBERS as u64).as_str(),
                            ).concat(" limit"),
                        ),
                    );
                }
                Ok(Some(m))
            } else {
                Err(
                    SdkError::Manifest(
                        "unsupported collection version ".to_owned().concat(
                            number(m.iroh_drop_collection as u64).as_str(),
                        ),
                    ),
                )
            }
        },
        Err(why) => if collection {
            Err(SdkError::Manifest(why))
        } else {
            Ok(None)
        },
    }
}

} // verus!
