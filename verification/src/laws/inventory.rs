//! What holds of listings and of what is picked from them.

use crate::error::{SdkError, SdkErrorView};
use crate::ids::{BlobHash, PeerId};
use crate::inventory::{
    find_meta, lists, meta_value, other_names, pick_from, picked, resolve_pick, InventoryItem,
    OfferRecord,
};
use crate::laws::collections::lemma_other_names;
use crate::order::{arranged, arranged_has_the_same};
use crate::terminal::is_named;
use crate::text::{decimal, opt_text, parsed, texts, trimmed};
use vstd::prelude::*;

verus! {

/// What an item is called: a file is a file, and a folder is a folder with as many files as it
/// says, one of which is not spoken of in the plural.
pub proof fn kinds_are_told(item: &InventoryItem, r: String)
    requires
        call_ensures(InventoryItem::kind, (item,), r),
    ensures
        !item.is_collection ==> r@ == "file"@,
        item.is_collection && item.members is None ==> r@ == "folder"@,
        item.is_collection && item.members == Some(1usize) ==> r@ == "folder, 1 file"@,
        item.is_collection && item.members is Some && item.members->0 != 1 ==> r@ == "folder, "@
            + decimal(item.members->0 as nat) + " files"@,
{
}

/// An item is called by its name and by each of its other names, and by nothing else.
pub proof fn items_are_called_by_their_names(item: &InventoryItem, text: &str, r: bool)
    requires
        call_ensures(InventoryItem::is_called, (item, text), r),
    ensures
        r <==> item.name@ == text@ || exists|a: int|
            0 <= a < item.aliases@.len() && (#[trigger] item.aliases@[a])@ == text@,
{
    let all = texts(item.aliases@);
    if all.contains(text@) {
        let a = choose|a: int| 0 <= a < all.len() && all[a] == text@;
        assert(item.aliases@[a]@ == text@);
    }
    if exists|a: int| 0 <= a < item.aliases@.len() && (#[trigger] item.aliases@[a])@ == text@ {
        let a = choose|a: int|
            0 <= a < item.aliases@.len() && (#[trigger] item.aliases@[a])@ == text@;
        assert(all[a] == text@);
    }
}

/// A blob has a name when some item of its hash is called otherwise than by the hash.
pub proof fn named_blobs_have_names(items: &Vec<InventoryItem>, hash: &BlobHash, r: bool)
    requires
        call_ensures(is_named, (items, hash), r),
    ensures
        r <==> exists|i: int|
            0 <= i < items@.len() && (#[trigger] items@[i]).hash.hex@ == hash.hex@
                && items@[i].name@ != hash.hex@,
{
}

/// The first value under a key is the one that counts.
pub proof fn the_first_value_counts(
    metadata: &Vec<(String, String)>,
    key: &str,
    r: Option<String>,
    k: int,
)
    requires
        call_ensures(find_meta, (metadata, key), r),
        0 <= k <= metadata@.len(),
        k < metadata@.len() ==> metadata@[k].0@ == key@,
        forall|j: int| 0 <= j < k ==> (#[trigger] metadata@[j]).0@ != key@,
    ensures
        k < metadata@.len() ==> r is Some && r->0@ == metadata@[k].1@,
        k == metadata@.len() ==> r is None,
{
    lemma_first_value(metadata@, key@, k);
    assert(opt_text(r) is Some <==> r is Some);
}

proof fn lemma_first_value(metadata: Seq<(String, String)>, key: Seq<char>, k: int)
    requires
        0 <= k <= metadata.len(),
        k < metadata.len() ==> metadata[k].0@ == key,
        forall|j: int| 0 <= j < k ==> (#[trigger] metadata[j]).0@ != key,
    ensures
        meta_value(metadata, key) == if k < metadata.len() {
            Some(metadata[k].1@)
        } else {
            None
        },
    decreases k,
{
    if k > 0 {
        let rest = metadata.drop_first();
        assert(metadata[0].0@ != key);
        assert forall|j: int| 0 <= j < k - 1 implies (#[trigger] rest[j]).0@ != key by {
            assert(rest[j] == metadata[j + 1]);
        }
        lemma_first_value(rest, key, k - 1);
    }
}

/// A text that is no number and that just one item has as its name or as one of its other names
/// picks that item, whatever the protocol knows.
pub proof fn a_name_or_alias_picks_its_item(
    items: &Vec<InventoryItem>,
    input: &str,
    resolved: Option<BlobHash>,
    r: Result<BlobHash, SdkError>,
    k: int,
)
    requires
        call_ensures(pick_from, (items, input, resolved), r),
        trimmed(input@).len() > 0,
        parsed(trimmed(input@), usize::MAX as nat) is None,
        0 <= k < items@.len(),
        items@[k].name@ == trimmed(input@) || exists|a: int|
            0 <= a < items@[k].aliases@.len() && (#[trigger] items@[k].aliases@[a])@ == trimmed(
                input@,
            ),
        forall|j: int|
            0 <= j < items@.len() && j != k ==> (#[trigger] items@[j]).name@ != trimmed(input@)
                && forall|a: int|
                0 <= a < items@[j].aliases@.len() ==> (#[trigger] items@[j].aliases@[a])@
                    != trimmed(input@),
    ensures
        r is Ok,
        r->Ok_0.hex@ == items@[k].hash.hex@,
{
    let text = trimmed(input@);
    assert(items@[k].answers_to(text)) by {
        if items@[k].name@ != text {
            let a = choose|a: int|
                0 <= a < items@[k].aliases@.len() && (#[trigger] items@[k].aliases@[a])@ == text;
            assert(texts(items@[k].aliases@)[a] == text);
        }
    }
    assert forall|j: int| 0 <= j < items@.len() && j != k implies !(
    #[trigger] items@[j]).answers_to(text) by {
        let all = texts(items@[j].aliases@);
        if all.contains(text) {
            let a = choose|a: int| 0 <= a < all.len() && all[a] == text;
            assert(items@[j].aliases@[a]@ == text);
        }
    }
    crate::inventory::a_name_picks_its_item(
        items@,
        input@,
        k,
        crate::inventory::opt_hash(resolved),
    );
}

/// Of what is offered, a number picks the offer at that place, and a name that just one offer has
/// picks that offer.
pub proof fn offers_are_picked_by_number_and_name(
    records: &Vec<OfferRecord>,
    input: &str,
    resolved: Option<BlobHash>,
    r: Result<BlobHash, SdkError>,
    k: int,
)
    requires
        call_ensures(resolve_pick, (records, input, resolved), r),
        0 <= k < records@.len() <= usize::MAX,
        ({
            ||| input@ == decimal((k + 1) as nat)
            ||| {
                &&& records@[k].name@ == trimmed(input@)
                &&& trimmed(input@).len() > 0
                &&& parsed(trimmed(input@), usize::MAX as nat) is None
                &&& forall|j: int|
                    0 <= j < records@.len() && j != k ==> (#[trigger] records@[j]).name@ != trimmed(
                        input@,
                    ) && !texts(records@[j].aliases@).contains(trimmed(input@))
            }
        }),
    ensures
        r is Ok,
        r->Ok_0.hex@ == records@[k].blob_hash.hex@,
{
    let known = crate::inventory::opt_hash(resolved);
    let items = choose|items: Seq<InventoryItem>| #[trigger]
        crate::inventory::listing_of(items, records@) && match r {
            Ok(hash) => picked(items, input@, known) == Ok::<(Seq<char>, Seq<char>), SdkErrorView>(
                hash@,
            ),
            Err(e) => picked(items, input@, known) == Err::<(Seq<char>, Seq<char>), SdkErrorView>(
                e@,
            ),
        };
    assert(lists(items[k], records@[k], k + 1));
    if input@ == decimal((k + 1) as nat) {
        crate::inventory::a_number_picks_its_line(items, (k + 1) as nat, known);
    } else {
        let text = trimmed(input@);
        assert forall|j: int| 0 <= j < items.len() && j != k implies !(
        #[trigger] items[j]).answers_to(text) by {
            assert(lists(items[j], records@[j], j + 1));
            let own = records@[j].name@;
            let others = other_names(records@[j].aliases@, own);
            lemma_other_names(records@[j].aliases@, own, text);
            arranged_has_the_same(others);
            let all = texts(items[j].aliases@);
            if all.contains(text) {
                let a = choose|a: int| 0 <= a < all.len() && all[a] == text;
                assert(others.contains(arranged(others)[a]));
                let b = choose|b: int| 0 <= b < others.len() && others[b] == arranged(others)[a];
                assert(texts(others)[b] == text);
            }
        }
        crate::inventory::a_name_picks_its_item(items, input@, k, known);
    }
}

/// Two hashes are the same when all their digits are, and two peers when their ids are; the short
/// forms do not count.
pub proof fn digits_tell_hashes_apart(
    a: &BlobHash,
    b: &BlobHash,
    same: bool,
    prefix: &str,
    begins: bool,
    one: &PeerId,
    other: &PeerId,
    r: bool,
)
    requires
        call_ensures(BlobHash::is, (a, b), same),
        call_ensures(BlobHash::matches_prefix, (a, prefix), begins),
        call_ensures(PeerId::is, (one, other), r),
    ensures
        same <==> a.hex@ == b.hex@,
        begins <==> prefix@.is_prefix_of(a.hex@),
        r <==> one.id@ == other.id@,
{
    if prefix@.len() <= a.hex@.len() {
        assert(a.hex@.subrange(0, prefix@.len() as int) == prefix@ <==> prefix@.is_prefix_of(
            a.hex@,
        ));
    }
}

} // verus!
