//! What holds of files and folders on their way from one disk to another.

use crate::collections::{
    build_manifest, check_manifest_size, fetch_any_reporting, offer_metadata,
    ordinary_paths_are_accepted, pair_views, publish_path, published_file, published_tree,
    read_manifest, FetchPlan, Manifest, ManifestCheck, MemberPath, MemberProgress, MemberStep,
    PathKind, PublishPlan, Published, PublishedBlob, TreeFetch, Walk,
};
use crate::error::SdkError;
use crate::ids::BlobHash;
use crate::inventory::{
    advertised_totals_are_listed, advertised_type, inventory, lists, offered_type, other_names,
    InventoryItem, OfferRecord,
};
use crate::order::{arranged, arranged_has_the_same, arranged_is_in_order};
use crate::path::{
    a_name_below_adds_a_part, below, below_adds_parts, file_name, joined_names_are_parts, parent,
    parent_of, parts, pieces, pieces_around_slash, plain_name, PartView,
};
use crate::text::{joined, opt_text, texts};
use vstd::prelude::*;
use vstd::utf8::encode_utf8;

verus! {

/// A file is published as a file and a directory as a tree, each under the name that was asked for;
/// a directory for which none was is called by its own. Anything else cannot be published.
pub proof fn paths_are_published_by_their_kind(
    path: &str,
    kind: PathKind,
    name: Option<String>,
    r: Result<PublishPlan, SdkError>,
    dir: Seq<char>,
    own: Seq<char>,
)
    requires
        call_ensures(publish_path, (path, kind, name), r),
        path@ == below(dir, own),
        own.len() > 0,
        !own.contains('/'),
        own != "."@,
        own != ".."@,
    ensures
        r is Err <==> kind is Other,
        kind is File ==> r->Ok_0 is File && opt_text(r->Ok_0->given) == opt_text(name),
        kind is Directory ==> r->Ok_0 is Tree && r->Ok_0->Tree_name@ == match name {
            Some(name) => name@,
            None => own,
        },
{
    a_name_below_adds_a_part(dir, own);
    assert(parts(path@).last() == PartView::Name(own));
}

/// The last name of a path is its file name.
pub proof fn the_last_name_is_the_file_name(
    path: &str,
    r: Option<String>,
    dir: Seq<char>,
    own: Seq<char>,
)
    requires
        call_ensures(file_name, (path,), r),
        path@ == below(dir, own),
        own.len() > 0,
        !own.contains('/'),
        own != "."@,
        own != ".."@,
    ensures
        r is Some,
        r->0@ == own,
{
    a_name_below_adds_a_part(dir, own);
    assert(parts(path@).last() == PartView::Name(own));
}

/// The directory of a relative path of plain names is the names but the last, and that of an
/// absolute one is absolute.
pub proof fn the_parent_is_all_but_the_last_name(
    path: &str,
    r: Option<String>,
    names: Seq<Seq<char>>,
)
    requires
        call_ensures(parent, (path,), r),
        names.len() > 1,
        forall|i: int| 0 <= i < names.len() ==> plain_name(#[trigger] names[i]),
        path@ == joined(names, "/"@) || path@ == "/"@ + joined(names, "/"@),
    ensures
        r is Some,
        path@ == joined(names, "/"@) ==> r->0@ == joined(names.drop_last(), "/"@),
        path@ == "/"@ + joined(names, "/"@) ==> r->0@ == "/"@ + joined(names.drop_last(), "/"@),
{
    reveal_strlit("/");
    reveal_strlit("");
    joined_names_are_parts(names);
    let rel = joined(names, "/"@);
    let named = Seq::new(names.len(), |i: int| PartView::Name(names[i]));
    let front = names.drop_last();
    if path@ == rel {
        let p = named.drop_last();
        assert(crate::path::part_texts(p) =~= front);
        assert(p[0] is Name);
        assert(p != seq![PartView::Root]) by {
            if p == seq![PartView::Root] {
                assert(p[0] is Root);
            }
        }
        assert(rel != "/"@ + rel) by {
            assert(("/"@ + rel).len() == rel.len() + 1);
        }
    } else {
        let empty = Seq::<char>::empty();
        assert(empty + "/"@ + rel =~= path@);
        pieces_around_slash(empty, rel);
        crate::path::one_piece(empty);
        assert(pieces(path@) =~= seq![empty] + names);
        assert((seq![empty] + names).drop_first() =~= names);
        assert(path@[0] == '/');
        crate::path::below_adds_parts(""@, rel);
        assert(crate::path::parts_of_pieces(names) == parts(rel)) by {
            assert(pieces(rel) == names);
            assert(names[0] != "."@) by {
                assert(plain_name(names[0]));
            }
        }
        assert(parts(path@) =~= seq![PartView::Root] + named);
        let p = (seq![PartView::Root] + named).drop_last();
        assert(p =~= seq![PartView::Root] + named.drop_last());
        assert(p.len() > 1);
        assert(p != seq![PartView::Root]) by {
            assert(seq![PartView::Root].len() == 1);
        }
        let told = crate::path::part_texts(p);
        assert(told =~= seq![""@] + front) by {
            assert forall|i: int| 0 <= i < told.len() implies told[i] == (seq![""@] + front)[i] by {
                if i > 0 {
                    assert(p[i] == named[i - 1]);
                }
            }
        }
        lemma_joined_with_root(front);
    }
}

proof fn lemma_joined_with_root(names: Seq<Seq<char>>)
    requires
        names.len() > 0,
    ensures
        joined(seq![""@] + names, "/"@) == "/"@ + joined(names, "/"@),
    decreases names.len(),
{
    reveal_strlit("");
    let all = seq![""@] + names;
    assert(all.last() == names.last());
    assert(all.drop_last() =~= seq![""@] + names.drop_last());
    if names.len() == 1 {
        assert(all.drop_last() =~= seq![""@]);
        assert(joined(all.drop_last(), "/"@) == ""@);
        assert(all.len() == 2);
        assert(joined(all, "/"@) == ""@ + "/"@ + names[0]);
        assert(""@ + "/"@ + names[0] =~= "/"@ + names[0]);
    } else {
        lemma_joined_with_root(names.drop_last());
        assert(joined(all, "/"@) =~= "/"@ + joined(names, "/"@));
    }
}

/// The folder that is shown for a saved file is what stands before its last slash.
pub proof fn the_folder_stands_before_the_last_slash(
    path: &str,
    r: &str,
    dir: Seq<char>,
    own: Seq<char>,
)
    requires
        call_ensures(parent_of, (path,), r),
        path@ == dir + seq!['/'] + own,
        !own.contains('/'),
    ensures
        r@ == dir,
{
    lemma_last_slash(dir, own);
    assert(path@[dir.len() as int] == '/');
    assert(path@.contains('/'));
    assert(path@.take(dir.len() as int) =~= dir);
}

/// The last slash of a path is the one before the name at its end.
pub proof fn lemma_last_slash(dir: Seq<char>, own: Seq<char>)
    requires
        !own.contains('/'),
    ensures
        crate::path::last_slash(dir + seq!['/'] + own) == dir.len(),
    decreases own.len(),
{
    let s = dir + seq!['/'] + own;
    if own.len() == 0 {
        assert(s.last() == '/');
    } else {
        assert(s.last() == own.last());
        assert(own.contains(own.last()));
        assert(s.drop_last() =~= dir + seq!['/'] + own.drop_last());
        assert(!own.drop_last().contains('/')) by {
            if own.drop_last().contains('/') {
                let i = choose|i: int| 0 <= i < own.drop_last().len() && own.drop_last()[i] == '/';
                assert(own[i] == '/');
            }
        }
        lemma_last_slash(dir, own.drop_last());
    }
}

/// A manifest says of each member, in order, the names on the way to it with slashes between them,
/// its hash and its size; it is of the first version and has the collection's name.
pub proof fn manifests_say_what_was_imported(
    name: &str,
    members: &Vec<MemberPath>,
    imported: &Vec<(BlobHash, u64)>,
    r: Manifest,
    i: int,
)
    requires
        members@.len() == imported@.len(),
        call_ensures(build_manifest, (name, members, imported), r),
        0 <= i < members@.len(),
    ensures
        r.iroh_drop_collection == 1,
        r.name@ == name@,
        r.entries@.len() == members@.len(),
        r.entries@[i].hash@ == imported@[i].0.hex@,
        r.entries@[i].size == imported@[i].1,
        !r.entries@[i].path@.contains('\\'),
        r.entries@[i].path@.len() == joined(texts(members@[i].names@), "/"@).len(),
        !joined(texts(members@[i].names@), "/"@).contains('\\') ==> r.entries@[i].path@ == joined(
            texts(members@[i].names@),
            "/"@,
        ),
{
    assert(r.members().len() == r.entries@.len());
    assert(r.members()[i] == r.entries@[i]@);
    let path = joined(texts(members@[i].names@), "/"@);
    let told = r.entries@[i].path@;
    assert(told == crate::text::replaced(path, '\\', '/'));
    assert(!told.contains('\\')) by {
        if told.contains('\\') {
            let k = choose|k: int| 0 <= k < told.len() && told[k] == '\\';
            assert(told[k] != '\\');
        }
    }
    if !path.contains('\\') {
        assert forall|k: int| 0 <= k < path.len() implies #[trigger] path[k] != '\\' by {
            assert(path.contains(path[k]));
        }
        assert(crate::text::replaced(path, '\\', '/') =~= path);
    }
}

/// What was published says how many files it stands for and how many bytes: one file and its own
/// size, or the members of the manifest and their sizes together.
pub proof fn published_totals_are_told(
    blob: PublishedBlob,
    file: Published,
    tree: Published,
    manifest: &Manifest,
    total: u64,
)
    requires
        call_ensures(published_file, (blob,), file),
        call_ensures(published_tree, (blob, manifest), tree),
        call_ensures(Manifest::total_size, (manifest,), total),
    ensures
        file.members == 1,
        file.total_size == blob.size,
        !file.is_collection,
        tree.members == manifest.entries@.len(),
        tree.total_size == total,
        tree.is_collection,
        file.blob == blob,
        tree.blob == blob,
{
}

/// From the publisher's manifest to the receiver's listing: the offer of a collection that carries
/// its metadata is listed as a collection of as many files as the manifest has, and of their total
/// size.
pub proof fn a_collection_is_listed_with_its_totals(
    manifest: &Manifest,
    metadata: Vec<(String, String)>,
    total: u64,
    records: &Vec<OfferRecord>,
    items: Vec<InventoryItem>,
    k: int,
)
    requires
        call_ensures(offer_metadata, (manifest,), metadata),
        call_ensures(Manifest::total_size, (manifest,), total),
        call_ensures(inventory, (records,), items),
        0 <= k < records@.len(),
        opt_text(records@[k].media_type) == Some("application/vnd.iroh-drop.collection+json"@),
        pair_views(records@[k].metadata@) == pair_views(metadata@),
        manifest.entries@.len() <= usize::MAX,
    ensures
        items@[k].is_collection,
        items@[k].members == Some(manifest.entries@.len() as usize),
        items@[k].content_size == total,
{
    assert(lists(items@[k], records@[k], k + 1));
    advertised_totals_are_listed(
        items@[k],
        records@[k],
        k + 1,
        manifest.entries@.len(),
        total as nat,
    );
}

/// A listing has a line for each offer, in the order of the offers and numbered from one, with what
/// the offer says. What is no collection has its own size and no members.
pub proof fn each_offer_has_its_line(
    records: &Vec<OfferRecord>,
    items: Vec<InventoryItem>,
    k: int,
    name: Seq<char>,
)
    requires
        call_ensures(inventory, (records,), items),
        0 <= k < records@.len(),
    ensures
        items@.len() == records@.len(),
        items@[k].index == k + 1,
        items@[k].name@ == records@[k].name@,
        items@[k].hash.hex@ == records@[k].blob_hash.hex@,
        items@[k].hash.short@ == records@[k].blob_hash.short@,
        items@[k].size == records@[k].size,
        opt_text(items@[k].media_type) == opt_text(records@[k].media_type),
        items@[k].status == records@[k].local_status,
        items@[k].is_collection <==> opt_text(records@[k].media_type) == Some(
            "application/vnd.iroh-drop.collection+json"@,
        ),
        !items@[k].is_collection ==> items@[k].members is None && items@[k].content_size
            == records@[k].size,
        records@[k].metadata@.len() == 0 ==> items@[k].members is None && items@[k].content_size
            == records@[k].size,
        texts(items@[k].aliases@).contains(name) <==> texts(records@[k].aliases@).contains(name)
            && name != records@[k].name@,
{
    let item = items@[k];
    let record = records@[k];
    assert(lists(item, record, k + 1));
    assert(item.hash@ == record.blob_hash@);
    let others = other_names(record.aliases@, record.name@);
    lemma_other_names(record.aliases@, record.name@, name);
    arranged_has_the_same(others);
    if texts(item.aliases@).contains(name) {
        let i = choose|i: int| 0 <= i < item.aliases@.len() && texts(item.aliases@)[i] == name;
        assert(others.contains(arranged(others)[i]));
        let j = choose|j: int| 0 <= j < others.len() && others[j] == arranged(others)[i];
        assert(texts(others)[j] == name);
    }
    if texts(others).contains(name) {
        let j = choose|j: int| 0 <= j < others.len() && texts(others)[j] == name;
        assert(arranged(others).contains(others[j]));
        let i = choose|i: int| 0 <= i < item.aliases@.len() && item.aliases@[i] == others[j];
        assert(texts(item.aliases@)[i] == name);
    }
}

/// The other names of an item are its aliases without its own name.
pub proof fn lemma_other_names(aliases: Seq<String>, own: Seq<char>, name: Seq<char>)
    ensures
        texts(other_names(aliases, own)).contains(name) <==> texts(aliases).contains(name) && name
            != own,
    decreases aliases.len(),
{
    if aliases.len() > 0 {
        let front = aliases.drop_last();
        lemma_other_names(front, own, name);
        let a = texts(other_names(front, own));
        let b = texts(other_names(aliases, own));
        let all = texts(aliases);
        assert(texts(front) =~= all.drop_last());
        assert(all.last() == aliases.last()@);
        if b.contains(name) {
            let i = choose|i: int| 0 <= i < b.len() && b[i] == name;
            if i < a.len() {
                assert(a[i] == name);
                let k = choose|k: int| 0 <= k < front.len() && texts(front)[k] == name;
                assert(all[k] == name);
            } else {
                assert(all[all.len() - 1] == name);
            }
        }
        if all.contains(name) && name != own {
            let k = choose|k: int| 0 <= k < all.len() && all[k] == name;
            if k < front.len() {
                assert(texts(front)[k] == name);
                let i = choose|i: int| 0 <= i < a.len() && a[i] == name;
                assert(b[i] == name);
            } else {
                assert(b[b.len() - 1] == name);
            }
        }
    }
}

/// The media type of a blob is what the first offer of it advertises.
pub proof fn the_first_offer_says_the_type(
    records: &Vec<OfferRecord>,
    hash: &BlobHash,
    r: Option<String>,
    k: int,
)
    requires
        call_ensures(advertised_type, (records, hash), r),
        0 <= k <= records@.len(),
        k < records@.len() ==> records@[k].blob_hash.hex@ == hash.hex@,
        forall|j: int| 0 <= j < k ==> (#[trigger] records@[j]).blob_hash.hex@ != hash.hex@,
    ensures
        k < records@.len() ==> opt_text(r) == opt_text(records@[k].media_type),
        k == records@.len() ==> r is None,
{
    lemma_first_offer(records@, hash.hex@, k);
    assert(opt_text(r) is Some <==> r is Some);
}

proof fn lemma_first_offer(records: Seq<OfferRecord>, hash: Seq<char>, k: int)
    requires
        0 <= k <= records.len(),
        k < records.len() ==> records[k].blob_hash.hex@ == hash,
        forall|j: int| 0 <= j < k ==> (#[trigger] records[j]).blob_hash.hex@ != hash,
    ensures
        offered_type(records, hash) == if k < records.len() {
            opt_text(records[k].media_type)
        } else {
            None
        },
    decreases k,
{
    if k > 0 {
        let rest = records.drop_first();
        assert(records[0].blob_hash.hex@ != hash);
        assert forall|j: int| 0 <= j < k - 1 implies (#[trigger] rest[j]).blob_hash.hex@
            != hash by {
            assert(rest[j] == records[j + 1]);
        }
        lemma_first_offer(rest, hash, k - 1);
    }
}

/// The members of a walk are its files in order, from one to twenty thousand; no file at all, and
/// more than that, is an error.
pub proof fn members_are_the_files_in_order(
    walk: Walk,
    path: &str,
    r: Result<Vec<MemberPath>, SdkError>,
    member: MemberPath,
)
    requires
        call_ensures(Walk::members, (walk, path), r),
    ensures
        r is Ok <==> 1 <= walk.files@.len() <= 20_000,
        r is Ok ==> {
            &&& r->Ok_0@.len() == walk.files@.len()
            &&& r->Ok_0@.contains(member) <==> walk.files@.contains(member)
            &&& forall|i: int, j: int|
                0 <= i < j < r->Ok_0@.len() ==> !crate::collections::path_before(
                    (#[trigger] r->Ok_0@[j])@,
                    (#[trigger] r->Ok_0@[i])@,
                )
        },
{
    if r is Ok {
        let files = walk.files@;
        arranged_has_the_same(files);
        arranged_is_in_order(files);
        let got = r->Ok_0@;
        if got.contains(member) {
            let i = choose|i: int| 0 <= i < got.len() && got[i] == member;
            assert(files.contains(arranged(files)[i]));
        }
        if files.contains(member) {
            let i = choose|i: int| 0 <= i < files.len() && files[i] == member;
            assert(arranged(files).contains(files[i]));
        }
    }
}

/// A plain blob is written as it is; a collection whose name is an ordinary one goes into a
/// directory of that name below the destination, with nothing written yet.
pub proof fn collections_get_a_directory_of_their_own(
    dest: &str,
    manifest: Option<Manifest>,
    r: Result<FetchPlan, SdkError>,
)
    requires
        call_ensures(fetch_any_reporting, (dest, manifest), r),
        manifest is Some ==> {
            let name = manifest->0.name@;
            &&& 0 < name.len()
            &&& encode_utf8(name).len() <= 255
            &&& !name.contains('/')
            &&& !name.contains('\\')
            &&& name != "."@
            &&& name != ".."@
        },
    ensures
        r is Ok,
        r->Ok_0 is Plain <==> manifest is None,
        manifest is Some ==> {
            let fetch = r->Ok_0->Tree_0;
            &&& fetch.manifest == manifest->0
            &&& parts(fetch.root@) == parts(dest@).push(PartView::Name(manifest->0.name@))
            &&& fetch.written@.len() == 0
        },
{
    if manifest is Some {
        a_name_below_adds_a_part(dest@, manifest->0.name@);
    }
}

/// A member whose path is made of ordinary names goes below the root under those names, and is
/// fetched by the hash that the manifest says.
pub proof fn members_go_where_the_manifest_says(
    fetch: &TreeFetch,
    r: Option<Result<MemberStep, SdkError>>,
    names: Seq<Seq<char>>,
)
    requires
        call_ensures(TreeFetch::next_member, (fetch,), r),
        fetch.written@.len() < fetch.manifest.entries@.len(),
        names.len() > 0,
        forall|i: int|
            0 <= i < names.len() ==> {
                &&& 0 < (#[trigger] names[i]).len()
                &&& encode_utf8(names[i]).len() <= 255
                &&& !names[i].contains('/')
                &&& !names[i].contains('\\')
                &&& names[i] != "."@
                &&& names[i] != ".."@
            },
        fetch.manifest.entries@[fetch.written@.len() as int].path@ == joined(names, "/"@),
        encode_utf8(joined(names, "/"@)).len() <= 1024,
    ensures
        r is Some,
        r->0 is Ok,
        parts(r->0->Ok_0.target@) == parts(fetch.root@) + Seq::new(
            names.len(),
            |i: int| PartView::Name(names[i]),
        ),
        r->0->Ok_0.hash@ == fetch.manifest.entries@[fetch.written@.len() as int].hash@,
        r->0->Ok_0.parent is Some,
{
    ordinary_paths_are_accepted(names);
    let path = joined(names, "/"@);
    assert forall|i: int| 0 <= i < names.len() implies plain_name(#[trigger] names[i]) by {
        assert(0 < names[i].len());
    }
    joined_names_are_parts(names);
    below_adds_parts(fetch.root@, path);
    let target = parts(r->0->Ok_0.target@);
    assert(target.last() == PartView::Name(names.last()));
    assert(opt_text(r->0->Ok_0.parent) is Some);
}

/// A member of another size than the manifest says is refused, and nothing is noted; one of the
/// right size is noted where it was written, and counted.
pub proof fn members_have_the_size_the_manifest_says(
    fetch: &mut TreeFetch,
    step: MemberStep,
    size: u64,
    path: Option<String>,
    r: Result<MemberProgress, SdkError>,
)
    requires
        call_ensures(TreeFetch::landed, (fetch, step, size, path), r),
        old(fetch).written@.len() < old(fetch).manifest.entries@.len(),
    ensures
        r is Ok <==> size == old(fetch).manifest.entries@[old(fetch).written@.len() as int].size,
        r is Err ==> final(fetch).written@ == old(fetch).written@,
        r is Ok ==> {
            &&& final(fetch).written@.len() == old(fetch).written@.len() + 1
            &&& final(fetch).written@.last()@ == match path {
                Some(path) => path@,
                None => step.target@,
            }
            &&& r->Ok_0.index == old(fetch).written@.len() + 1
            &&& r->Ok_0.total == old(fetch).manifest.entries@.len()
        },
        final(fetch).manifest == old(fetch).manifest,
{
}

/// A blob is read as a manifest where it is offered as one or nothing is known of it, and is at
/// most eight mebibytes; one that is offered as a manifest and is larger is an error.
pub proof fn only_small_blobs_are_read_as_manifests(
    advertised: &Option<String>,
    size: u64,
    r: Result<ManifestCheck, SdkError>,
)
    requires
        call_ensures(check_manifest_size, (advertised, size), r),
    ensures
        ({
            let collection = opt_text(*advertised) == Some(
                "application/vnd.iroh-drop.collection+json"@,
            );
            &&& r is Ok && r->Ok_0 is Read <==> (advertised is None || collection) && size <= 8
                * 1024 * 1024
            &&& r is Err <==> collection && size > 8 * 1024 * 1024
        }),
{
}

/// A manifest is taken up when it is of the first version and has at most twenty thousand members.
/// What is offered as something else is none, and neither is what nothing is known of and that does
/// not read as one; what is offered as a manifest and is none is an error.
pub proof fn manifests_are_taken_up(
    advertised: &Option<String>,
    parsed: Result<Manifest, String>,
    r: Result<Option<Manifest>, SdkError>,
)
    requires
        call_ensures(read_manifest, (advertised, parsed), r),
    ensures
        ({
            let collection = opt_text(*advertised) == Some(
                "application/vnd.iroh-drop.collection+json"@,
            );
            &&& advertised is Some && !collection ==> r is Ok && r->Ok_0 is None
            &&& (advertised is None || collection) && parsed is Ok ==> {
                &&& r is Ok <==> parsed->Ok_0.iroh_drop_collection == 1
                    && parsed->Ok_0.entries@.len() <= 20_000
                &&& r is Ok ==> r->Ok_0 == Some(parsed->Ok_0)
            }
            &&& advertised is None && parsed is Err ==> r is Ok && r->Ok_0 is None
            &&& collection && parsed is Err ==> r is Err
        }),
{
}

/// Members stand in the order of the first name in which they differ; a path that another goes on
/// from stands before it.
pub proof fn paths_are_ordered_by_their_first_difference(
    a: Seq<Seq<char>>,
    b: Seq<Seq<char>>,
    k: int,
)
    requires
        0 <= k <= a.len(),
        k <= b.len(),
        forall|i: int| 0 <= i < k ==> #[trigger] a[i] == b[i],
    ensures
        k < a.len() && k < b.len() && a[k] != b[k] ==> (crate::collections::path_before(a, b)
            <==> crate::order::text_before(a[k], b[k])),
        k == a.len() && k < b.len() ==> crate::collections::path_before(a, b),
        k == b.len() ==> !crate::collections::path_before(a, b),
    decreases k,
{
    if k > 0 {
        assert(a[0] == b[0]);
        assert forall|i: int| 0 <= i < k - 1 implies #[trigger] a.drop_first()[i]
            == b.drop_first()[i] by {
            assert(a[i + 1] == b[i + 1]);
        }
        paths_are_ordered_by_their_first_difference(a.drop_first(), b.drop_first(), k - 1);
    }
}

} // verus!
