//! Turning a drop's contents into something a human can point at.
//!
//! The protocol identifies blobs by hash. People do not want to type hashes, so this
//! module builds a *stable numbered listing* and resolves picks:
//!
//! - `3`: the third item in the listing
//! - `report.pdf`: an offered name (or alias)
//! - `a1b2c3`: a hash prefix, for scripts and pathological cases

use crate::collections::{
    is_collection_type, pair_views, says_collection, META_MEMBERS, META_TOTAL_BYTES,
};
use crate::error::{SdkError, SdkErrorView};
use crate::ids::BlobHash;
use crate::order::{arrange, arranged};
use crate::size::{human_bytes, human_size};
use crate::text::{
    copy_text, decimal, decimal_is_trimmed, decimal_reads_back, has_prefix, number, opt_text,
    parse_unsigned, parsed, quote, quoted, same, texts, trim, trimmed,
};
use vstd::prelude::*;

verus! {

/// How much of a blob is here.
#[derive(Debug)]
pub enum LocalBlobStatus {
    /// Nothing of it.
    Missing,
    /// It is on its way.
    Fetching {
        /// Bytes that arrived.
        downloaded: u64,
        /// Bytes there are, where that is known.
        total: Option<u64>,
    },
    /// All of it.
    Complete,
    /// The last fetch of it failed; in the protocol's own words.
    Other(String),
}

impl LocalBlobStatus {
    /// The same status again.
    pub fn copy(&self) -> (r: LocalBlobStatus)
        ensures
            r == *self,
    {
        match self {
            LocalBlobStatus::Missing => LocalBlobStatus::Missing,
            LocalBlobStatus::Fetching { downloaded, total } => LocalBlobStatus::Fetching {
                downloaded: *downloaded,
                total: *total,
            },
            LocalBlobStatus::Complete => LocalBlobStatus::Complete,
            LocalBlobStatus::Other(s) => LocalBlobStatus::Other(s.clone()),
        }
    }
}

/// A blob that somebody in the drop offers.
#[derive(Debug)]
pub struct OfferRecord {
    /// Content hash.
    pub blob_hash: BlobHash,
    /// The name it is offered under.
    pub name: String,
    /// Advertised size in bytes.
    pub size: u64,
    /// Advertised media type, if any.
    pub media_type: Option<String>,
    /// Untrusted metadata: keys and values.
    pub metadata: Vec<(String, String)>,
    /// Every name it has been offered under.
    pub aliases: Vec<String>,
    /// Local availability.
    pub local_status: LocalBlobStatus,
}

/// One line of a human-facing listing.
#[derive(Debug)]
pub struct InventoryItem {
    /// 1-based position in the listing; what the user types.
    pub index: usize,
    /// Preferred display name.
    pub name: String,
    /// Content hash.
    pub hash: BlobHash,
    /// Advertised size in bytes.
    pub size: u64,
    /// Advertised media type, if any.
    pub media_type: Option<String>,
    /// Whether this is a collection manifest (a directory tree).
    pub is_collection: bool,
    /// For collections: number of files, if the publisher said so.
    pub members: Option<usize>,
    /// Bytes the user will actually receive: the tree total for a collection (when
    /// advertised), otherwise the blob size.
    pub content_size: u64,
    /// Local availability.
    pub status: LocalBlobStatus,
    /// Other names this hash has been offered under.
    pub aliases: Vec<String>,
}

/// What an item is, in a few words.
pub open spec fn kind_text(is_collection: bool, members: Option<usize>) -> Seq<char> {
    if !is_collection {
        "file"@
    } else {
        match members {
            None => "folder"@,
            Some(n) => if n == 1 {
                "folder, 1 file"@
            } else {
                "folder, "@ + decimal(n as nat) + " files"@
            },
        }
    }
}

impl InventoryItem {
    /// Human-readable size of what the user receives, e.g. `1.4 MiB`.
    pub fn human_size(&self) -> (r: String)
        ensures
            r@ == human_size(self.content_size as nat),
    {
        human_bytes(self.content_size)
    }

    /// Short description of what this item is, e.g. `folder, 12 files`.
    pub fn kind(&self) -> (r: String)
        ensures
            r@ == kind_text(self.is_collection, self.members),
    {
        if !self.is_collection {
            return "file".to_owned();
        }
        match self.members {
            None => "folder".to_owned(),
            Some(n) => if n == 1 {
                "folder, 1 file".to_owned()
            } else {
                "folder, ".to_owned().concat(number(n as u64).as_str()).concat(" files")
            },
        }
    }

    /// Whether `text` is this item's name or one of its other names.
    pub open spec fn answers_to(&self, text: Seq<char>) -> bool {
        self.name@ == text || texts(self.aliases@).contains(text)
    }

    /// Whether `text` is this item's name or one of its other names.
    pub fn is_called(&self, text: &str) -> (r: bool)
        ensures
            r == self.answers_to(text@),
    {
        if same(self.name.as_str(), text) {
            return true;
        }
        let mut i: usize = 0;
        while i < self.aliases.len()
            invariant
                i <= self.aliases@.len(),
                self.name@ != text@,
                forall|k: int| 0 <= k < i ==> (#[trigger] self.aliases@[k])@ != text@,
            decreases self.aliases@.len() - i,
        {
            if same(self.aliases[i].as_str(), text) {
                assert(texts(self.aliases@)[i as int] == text@);
                return true;
            }
            i += 1;
        }
        assert(!texts(self.aliases@).contains(text@)) by {
            if texts(self.aliases@).contains(text@) {
                let k = choose|k: int|
                    0 <= k < self.aliases@.len() && texts(self.aliases@)[k] == text@;
                assert(self.aliases@[k]@ == text@);
            }
        }
        false
    }
}

/// The value of `key` in metadata.
pub open spec fn meta_value(metadata: Seq<(String, String)>, key: Seq<char>) -> Option<Seq<char>>
    decreases metadata.len(),
{
    if metadata.len() == 0 {
        None
    } else if metadata[0].0@ == key {
        Some(metadata[0].1@)
    } else {
        meta_value(metadata.drop_first(), key)
    }
}

/// The value of `key` in metadata.
pub fn find_meta(metadata: &Vec<(String, String)>, key: &str) -> (r: Option<String>)
    ensures
        opt_text(r) == meta_value(metadata@, key@),
{
    let mut i: usize = 0;
    assert(metadata@.skip(0) =~= metadata@);
    while i < metadata.len()
        invariant
            i <= metadata@.len(),
            meta_value(metadata@, key@) == meta_value(metadata@.skip(i as int), key@),
        decreases metadata@.len() - i,
    {
        assert(metadata@.skip(i as int).drop_first() =~= metadata@.skip(i + 1));
        if same(metadata[i].0.as_str(), key) {
            return Some(metadata[i].1.clone());
        }
        i += 1;
    }
    None
}

/// The number that a metadata value spells, where it spells one of at most `max`.
pub open spec fn meta_number(
    metadata: Seq<(String, String)>,
    key: Seq<char>,
    max: nat,
) -> Option<nat> {
    match meta_value(metadata, key) {
        Some(v) => parsed(v, max),
        None => None,
    }
}

fn find_meta_number(metadata: &Vec<(String, String)>, key: &str, max: u64) -> (r: Option<u64>)
    ensures
        match r {
            Some(n) => meta_number(metadata@, key@, max as nat) == Some(n as nat),
            None => meta_number(metadata@, key@, max as nat) is None,
        },
{
    match find_meta(metadata, key) {
        Some(v) => parse_unsigned(v.as_str(), max),
        None => None,
    }
}

/// The names in `aliases` other than `name`.
pub open spec fn other_names(aliases: Seq<String>, name: Seq<char>) -> Seq<String>
    decreases aliases.len(),
{
    if aliases.len() == 0 {
        Seq::empty()
    } else {
        let front = other_names(aliases.drop_last(), name);
        if aliases.last()@ != name {
            front.push(aliases.last())
        } else {
            front
        }
    }
}

fn list_other_names(aliases: &Vec<String>, name: &str) -> (r: Vec<String>)
    ensures
        r@ == other_names(aliases@, name@),
{
    let mut out: Vec<String> = Vec::new();
    let mut i: usize = 0;
    assert(aliases@.take(0) =~= Seq::<String>::empty());
    while i < aliases.len()
        invariant
            i <= aliases@.len(),
            out@ == other_names(aliases@.take(i as int), name@),
        decreases aliases@.len() - i,
    {
        assert(aliases@.take(i + 1).drop_last() =~= aliases@.take(i as int));
        if !same(aliases[i].as_str(), name) {
            out.push(aliases[i].clone());
        }
        i += 1;
    }
    assert(aliases@.take(i as int) =~= aliases@);
    out
}

/// Whether `item` is the line for `record` at the 1-based position `index`.
///
/// Metadata is untrusted: what does not parse, or stands on something that is not a
/// collection, is as if it were not there.
pub open spec fn lists(item: InventoryItem, record: OfferRecord, index: int) -> bool {
    let is_collection = says_collection(opt_text(record.media_type));
    let members = meta_number(record.metadata@, META_MEMBERS@, usize::MAX as nat);
    let total = meta_number(record.metadata@, META_TOTAL_BYTES@, u64::MAX as nat);
    &&& item.index == index
    &&& item.name@ == record.name@
    &&& item.hash@ == record.blob_hash@
    &&& item.size == record.size
    &&& opt_text(item.media_type) == opt_text(record.media_type)
    &&& item.is_collection == is_collection
    &&& match (is_collection, members) {
        (true, Some(n)) => item.members == Some(n as usize),
        _ => item.members is None,
    }
    &&& item.content_size == match (is_collection, total) {
        (true, Some(n)) => n as u64,
        _ => record.size,
    }
    &&& item.status == record.local_status
    &&& item.aliases@ == arranged(other_names(record.aliases@, record.name@))
}

/// Whether `items` is the listing of `records`.
pub open spec fn listing_of(items: Seq<InventoryItem>, records: Seq<OfferRecord>) -> bool {
    &&& items.len() == records.len()
    &&& forall|i: int| 0 <= i < items.len() ==> lists(#[trigger] items[i], records[i], i + 1)
}

fn list_one(record: &OfferRecord, index: usize) -> (r: InventoryItem)
    ensures
        lists(r, *record, index as int),
{
    let is_collection = is_collection_type(&record.media_type);
    let members = match find_meta_number(&record.metadata, META_MEMBERS, usize::MAX as u64) {
        Some(n) => if is_collection {
            Some(n as usize)
        } else {
            None
        },
        None => None,
    };
    let content_size: u64 = match find_meta_number(&record.metadata, META_TOTAL_BYTES, u64::MAX) {
        Some(n) => if is_collection {
            n
        } else {
            record.size
        },
        None => record.size,
    };
    let aliases = arrange(list_other_names(&record.aliases, record.name.as_str()));
    InventoryItem {
        index,
        name: record.name.clone(),
        hash: record.blob_hash.copy(),
        size: record.size,
        media_type: copy_text(&record.media_type),
        is_collection,
        members,
        content_size,
        status: record.local_status.copy(),
        aliases,
    }
}

/// The current listing, in the order in which the offers were first seen.
pub fn inventory(records: &Vec<OfferRecord>) -> (r: Vec<InventoryItem>)
    ensures
        listing_of(r@, records@),
{
    let mut out: Vec<InventoryItem> = Vec::new();
    let mut i: usize = 0;
    while i < records.len()
        invariant
            i <= records@.len(),
            out@.len() == i,
            forall|k: int| 0 <= k < i ==> lists(#[trigger] out@[k], records@[k], k + 1),
        decreases records@.len() - i,
    {
        let item = list_one(&records[i], i + 1);
        out.push(item);
        i += 1;
    }
    out
}

/// The media type that the first offer of a blob advertises.
pub open spec fn offered_type(records: Seq<OfferRecord>, hash: Seq<char>) -> Option<Seq<char>>
    decreases records.len(),
{
    if records.len() == 0 {
        None
    } else if records[0].blob_hash.hex@ == hash {
        opt_text(records[0].media_type)
    } else {
        offered_type(records.drop_first(), hash)
    }
}

/// The media type that the first offer of a blob advertises.
pub fn advertised_type(records: &Vec<OfferRecord>, hash: &BlobHash) -> (r: Option<String>)
    ensures
        opt_text(r) == offered_type(records@, hash.hex@),
{
    let mut i: usize = 0;
    assert(records@.skip(0) =~= records@);
    while i < records.len()
        invariant
            i <= records@.len(),
            offered_type(records@, hash.hex@) == offered_type(records@.skip(i as int), hash.hex@),
        decreases records@.len() - i,
    {
        assert(records@.skip(i as int).drop_first() =~= records@.skip(i + 1));
        if records[i].blob_hash.is(hash) {
            return copy_text(&records[i].media_type);
        }
        i += 1;
    }
    None
}

/// A way in which a typed text can mean an item.
pub enum Matching {
    /// By its name or one of its other names.
    Name,
    /// By the first digits of its hash.
    HashPrefix,
}

/// Whether `text` means `item`.
pub open spec fn means(item: InventoryItem, text: Seq<char>, how: Matching) -> bool {
    match how {
        Matching::Name => item.answers_to(text),
        Matching::HashPrefix => has_prefix(item.hash.hex@, text),
    }
}

/// The items that `text` means, in the order of the listing.
pub open spec fn hits(items: Seq<InventoryItem>, text: Seq<char>, how: Matching) -> Seq<
    InventoryItem,
>
    decreases items.len(),
{
    if items.len() == 0 {
        Seq::empty()
    } else {
        let front = hits(items.drop_last(), text, how);
        if means(items.last(), text, how) {
            front.push(items.last())
        } else {
            front
        }
    }
}

/// How many items `text` means, and the first of them.
fn find_hits(items: &Vec<InventoryItem>, text: &str, how: Matching) -> (r: (usize, usize))
    ensures
        r.0 == hits(items@, text@, how).len(),
        r.0 > 0 ==> r.1 < items@.len() && items@[r.1 as int] == hits(items@, text@, how)[0],
{
    let mut count: usize = 0;
    let mut first: usize = 0;
    let mut i: usize = 0;
    assert(items@.take(0) =~= Seq::<InventoryItem>::empty());
    while i < items.len()
        invariant
            count <= i <= items@.len(),
            count == hits(items@.take(i as int), text@, how).len(),
            count > 0 ==> first < i && items@[first as int] == hits(
                items@.take(i as int),
                text@,
                how,
            )[0],
        decreases items@.len() - i,
    {
        assert(items@.take(i + 1).drop_last() =~= items@.take(i as int));
        assert(items@.take(i + 1).last() == items@[i as int]);
        let hit = match how {
            Matching::Name => items[i].is_called(text),
            Matching::HashPrefix => items[i].hash.matches_prefix(text),
        };
        if hit {
            if count == 0 {
                first = i;
            }
            count += 1;
        }
        i += 1;
    }
    assert(items@.take(i as int) =~= items@);
    (count, first)
}

/// What a typed text picks from a listing. `resolved` is the hash that the protocol itself
/// knows by that name, if it knows one.
pub open spec fn picked(
    items: Seq<InventoryItem>,
    input: Seq<char>,
    resolved: Option<(Seq<char>, Seq<char>)>,
) -> Result<(Seq<char>, Seq<char>), SdkErrorView> {
    let text = trimmed(input);
    let named = hits(items, text, Matching::Name);
    let prefixed = hits(items, text, Matching::HashPrefix);
    if text.len() == 0 {
        Err(SdkErrorView::Pick("nothing to pick"@))
    } else if let Some(n) = parsed(text, usize::MAX as nat) {
        if 1 <= n <= items.len() {
            Ok(items[n - 1].hash@)
        } else {
            Err(
                SdkErrorView::Pick(
                    "no item "@ + decimal(n) + " in this drop ("@ + decimal(items.len())
                        + " known)"@,
                ),
            )
        }
    } else if named.len() == 1 {
        Ok(named[0].hash@)
    } else if named.len() > 1 {
        Err(
            SdkErrorView::Pick(
                quoted(text) + " matches "@ + decimal(named.len())
                    + " items; pick by number instead"@,
            ),
        )
    } else if let Some(hash) = resolved {
        Ok(hash)
    } else if prefixed.len() == 1 {
        Ok(prefixed[0].hash@)
    } else if prefixed.len() == 0 {
        Err(SdkErrorView::Pick("nothing here matches "@ + quoted(text) + "; try `list`"@))
    } else {
        Err(
            SdkErrorView::Pick(
                quoted(text) + " matches "@ + decimal(prefixed.len())
                    + " hashes; use more characters"@,
            ),
        )
    }
}

/// A hash that may be missing.
pub open spec fn opt_hash(h: Option<BlobHash>) -> Option<(Seq<char>, Seq<char>)> {
    match h {
        Some(h) => Some(h@),
        None => None,
    }
}

/// Resolves what a user typed into a hash.
///
/// Accepts a listing number, a name or alias, or a hash prefix. Ambiguity is an error
/// rather than a guess.
pub fn pick_from(items: &Vec<InventoryItem>, input: &str, resolved: Option<BlobHash>) -> (r: Result<
    BlobHash,
    SdkError,
>)
    requires
        forall|i: int| 0 <= i < items@.len() ==> (#[trigger] items@[i]).index == i + 1,
    ensures
        match r {
            Ok(hash) => picked(items@, input@, opt_hash(resolved)) == Ok::<
                (Seq<char>, Seq<char>),
                SdkErrorView,
            >(hash@),
            Err(e) => picked(items@, input@, opt_hash(resolved)) == Err::<
                (Seq<char>, Seq<char>),
                SdkErrorView,
            >(e@),
        },
{
    let text = trim(input);
    proof {
        reveal_strlit("");
        if text@.len() == 0 {
            assert(text@ =~= ""@);
        }
    }
    if same(text, "") {
        return Err(SdkError::Pick("nothing to pick".to_owned()));
    }
    if let Some(n) = parse_unsigned(text, usize::MAX as u64) {
        if 1 <= n && n <= items.len() as u64 {
            return Ok(items[(n - 1) as usize].hash.copy());
        }
        return Err(
            SdkError::Pick(
                "no item ".to_owned().concat(number(n).as_str()).concat(" in this drop (").concat(
                    number(items.len() as u64).as_str(),
                ).concat(" known)"),
            ),
        );
    }
    let (count, first) = find_hits(items, text, Matching::Name);
    if count == 1 {
        return Ok(items[first].hash.copy());
    }
    if count > 1 {
        return Err(
            SdkError::Pick(
                quote(text).concat(" matches ").concat(number(count as u64).as_str()).concat(
                    " items; pick by number instead",
                ),
            ),
        );
    }
    if let Some(hash) = resolved {
        return Ok(hash);
    }
    let (count, first) = find_hits(items, text, Matching::HashPrefix);
    if count == 1 {
        return Ok(items[first].hash.copy());
    }
    if count == 0 {
        return Err(
            SdkError::Pick(
                "nothing here matches ".to_owned().concat(quote(text).as_str()).concat(
                    "; try `list`",
                ),
            ),
        );
    }
    Err(
        SdkError::Pick(
            quote(text).concat(" matches ").concat(number(count as u64).as_str()).concat(
                " hashes; use more characters",
            ),
        ),
    )
}

/// Resolves what a user typed into a hash, against the offers of a drop.
pub fn resolve_pick(
    records: &Vec<OfferRecord>,
    input: &str,
    resolved: Option<BlobHash>,
) -> (r: Result<BlobHash, SdkError>)
    ensures
        exists|items: Seq<InventoryItem>| #[trigger]
            listing_of(items, records@) && match r {
                Ok(hash) => picked(items, input@, opt_hash(resolved)) == Ok::<
                    (Seq<char>, Seq<char>),
                    SdkErrorView,
                >(hash@),
                Err(e) => picked(items, input@, opt_hash(resolved)) == Err::<
                    (Seq<char>, Seq<char>),
                    SdkErrorView,
                >(e@),
            },
{
    let items = inventory(records);
    assert forall|i: int| 0 <= i < items@.len() implies (#[trigger] items@[i]).index == i + 1 by {
        assert(lists(items@[i], records@[i], i + 1));
    }
    let r = pick_from(&items, input, resolved);
    assert(listing_of(items@, records@));
    r
}

/// Typing the number of a line picks that line, whatever else is in the listing.
pub proof fn a_number_picks_its_line(
    items: Seq<InventoryItem>,
    n: nat,
    resolved: Option<(Seq<char>, Seq<char>)>,
)
    requires
        1 <= n <= items.len() <= usize::MAX,
    ensures
        picked(items, decimal(n), resolved) == Ok::<(Seq<char>, Seq<char>), SdkErrorView>(
            items[n - 1].hash@,
        ),
{
    decimal_is_trimmed(n);
    decimal_reads_back(n, usize::MAX as nat);
}

/// A name that exactly one item answers to, and that is not a number, picks that item.
pub proof fn a_name_picks_its_item(
    items: Seq<InventoryItem>,
    input: Seq<char>,
    k: int,
    resolved: Option<(Seq<char>, Seq<char>)>,
)
    requires
        trimmed(input).len() > 0,
        parsed(trimmed(input), usize::MAX as nat) is None,
        0 <= k < items.len(),
        items[k].answers_to(trimmed(input)),
        forall|j: int|
            0 <= j < items.len() && j != k ==> !(#[trigger] items[j]).answers_to(trimmed(input)),
    ensures
        picked(items, input, resolved) == Ok::<(Seq<char>, Seq<char>), SdkErrorView>(
            items[k].hash@,
        ),
{
    lemma_single_hit(items, trimmed(input), Matching::Name, k);
}

/// The first digits of a hash pick the item whose hash begins with them, where there is just one:
/// a text that is no number, that no item has as a name or other name and that the protocol does
/// not know picks the one item whose hex digits begin with it.
pub proof fn first_digits_pick_their_item(
    items: &Vec<InventoryItem>,
    input: &str,
    k: int,
    r: Result<BlobHash, SdkError>,
)
    requires
        call_ensures(pick_from, (items, input, None::<BlobHash>), r),
        trimmed(input@).len() > 0,
        parsed(trimmed(input@), usize::MAX as nat) is None,
        forall|j: int|
            0 <= j < items@.len() ==> (#[trigger] items@[j]).name@ != trimmed(input@) && forall|
                a: int,
            |
                0 <= a < items@[j].aliases@.len() ==> (#[trigger] items@[j].aliases@[a])@
                    != trimmed(input@),
        0 <= k < items@.len(),
        trimmed(input@).len() <= items@[k].hash.hex@.len(),
        items@[k].hash.hex@.take(trimmed(input@).len() as int) == trimmed(input@),
        forall|j: int|
            0 <= j < items@.len() && j != k ==> {
                let hex = (#[trigger] items@[j]).hash.hex@;
                hex.len() < trimmed(input@).len() || hex.take(trimmed(input@).len() as int)
                    != trimmed(input@)
            },
    ensures
        r is Ok,
        r->Ok_0.hex@ == items@[k].hash.hex@,
        r->Ok_0.short@ == items@[k].hash.short@,
{
    let text = trimmed(input@);
    lemma_nobody_is_called(items@, text);
    assert forall|j: int| 0 <= j < items@.len() implies means(
        #[trigger] items@[j],
        text,
        Matching::HashPrefix,
    ) == (j == k) by {
        let hex = items@[j].hash.hex@;
        if text.len() <= hex.len() {
            assert(hex.subrange(0, text.len() as int) =~= hex.take(text.len() as int));
        }
    }
    lemma_single_hit(items@, text, Matching::HashPrefix, k);
}

/// All the digits of a hash pick its item, where no other item's digits begin with them.
pub proof fn a_whole_hash_picks_its_item(
    items: &Vec<InventoryItem>,
    input: &str,
    k: int,
    r: Result<BlobHash, SdkError>,
)
    requires
        call_ensures(pick_from, (items, input, None::<BlobHash>), r),
        0 <= k < items@.len(),
        trimmed(input@) == items@[k].hash.hex@,
        items@[k].hash.hex@.len() > 0,
        parsed(items@[k].hash.hex@, usize::MAX as nat) is None,
        forall|j: int|
            0 <= j < items@.len() ==> (#[trigger] items@[j]).name@ != items@[k].hash.hex@
                && forall|a: int|
                0 <= a < items@[j].aliases@.len() ==> (#[trigger] items@[j].aliases@[a])@
                    != items@[k].hash.hex@,
        forall|j: int|
            0 <= j < items@.len() ==> (#[trigger] items@[j]).hash.hex@.len()
                == items@[k].hash.hex@.len(),
        forall|j: int|
            0 <= j < items@.len() && j != k ==> (#[trigger] items@[j]).hash.hex@
                != items@[k].hash.hex@,
    ensures
        r is Ok,
        r->Ok_0.hex@ == items@[k].hash.hex@,
{
    let hex = items@[k].hash.hex@;
    assert(hex.take(hex.len() as int) =~= hex);
    assert forall|j: int| 0 <= j < items@.len() && j != k implies {
        let other = (#[trigger] items@[j]).hash.hex@;
        other.len() < hex.len() || other.take(hex.len() as int) != hex
    } by {
        let other = items@[j].hash.hex@;
        assert(other.take(other.len() as int) =~= other);
    }
    first_digits_pick_their_item(items, input, k, r);
}

/// Ambiguity is an error rather than a guess: a text that two items have as a name, or that is the
/// beginning of two hashes, picks nothing.
pub proof fn ambiguous_texts_pick_nothing(
    items: &Vec<InventoryItem>,
    input: &str,
    j: int,
    k: int,
    r: Result<BlobHash, SdkError>,
)
    requires
        call_ensures(pick_from, (items, input, None::<BlobHash>), r),
        parsed(trimmed(input@), usize::MAX as nat) is None,
        0 <= j < k < items@.len(),
        ({
            ||| items@[j].name@ == trimmed(input@) && items@[k].name@ == trimmed(input@)
            ||| {
                &&& forall|i: int|
                    0 <= i < items@.len() ==> (#[trigger] items@[i]).name@ != trimmed(input@)
                        && items@[i].aliases@.len() == 0
                &&& trimmed(input@).is_prefix_of(items@[j].hash.hex@)
                &&& trimmed(input@).is_prefix_of(items@[k].hash.hex@)
            }
        }),
    ensures
        r is Err,
{
    let text = trimmed(input@);
    if text.len() > 0 {
        if items@[j].name@ == text && items@[k].name@ == text {
            lemma_two_hits(items@, text, Matching::Name, j, k);
        } else {
            lemma_nobody_is_called(items@, text);
            assert(has_prefix(items@[j].hash.hex@, text)) by {
                assert(items@[j].hash.hex@.subrange(0, text.len() as int) =~= text);
            }
            assert(has_prefix(items@[k].hash.hex@, text)) by {
                assert(items@[k].hash.hex@.subrange(0, text.len() as int) =~= text);
            }
            lemma_two_hits(items@, text, Matching::HashPrefix, j, k);
        }
    }
}

/// A text that is no number, that no item has as a name and that is the beginning of no hash picks
/// what the protocol knows by it, and nothing where the protocol knows nothing.
pub proof fn an_unknown_text_is_left_to_the_protocol(
    items: &Vec<InventoryItem>,
    input: &str,
    resolved: Option<BlobHash>,
    r: Result<BlobHash, SdkError>,
)
    requires
        call_ensures(pick_from, (items, input, resolved), r),
        trimmed(input@).len() > 0,
        parsed(trimmed(input@), usize::MAX as nat) is None,
        forall|j: int|
            0 <= j < items@.len() ==> (#[trigger] items@[j]).name@ != trimmed(input@)
                && items@[j].aliases@.len() == 0 && !trimmed(input@).is_prefix_of(
                items@[j].hash.hex@,
            ),
    ensures
        match resolved {
            Some(hash) => r is Ok && r->Ok_0.hex@ == hash.hex@,
            None => r is Err,
        },
{
    let text = trimmed(input@);
    lemma_nobody_is_called(items@, text);
    assert forall|j: int| 0 <= j < items@.len() implies !means(
        #[trigger] items@[j],
        text,
        Matching::HashPrefix,
    ) by {
        let hex = items@[j].hash.hex@;
        if has_prefix(hex, text) {
            assert(hex.subrange(0, text.len() as int) == text);
            assert(text.is_prefix_of(hex));
        }
    }
    lemma_no_hit(items@, text, Matching::HashPrefix);
}

/// A number outside of the listing, and nothing at all, pick nothing.
pub proof fn numbers_beyond_the_listing_pick_nothing(
    items: &Vec<InventoryItem>,
    input: &str,
    resolved: Option<BlobHash>,
    r: Result<BlobHash, SdkError>,
)
    requires
        call_ensures(pick_from, (items, input, resolved), r),
        ({
            ||| trimmed(input@).len() == 0
            ||| parsed(trimmed(input@), usize::MAX as nat) == Some(0nat)
            ||| exists|n: nat|
                n > items@.len() && #[trigger] parsed(trimmed(input@), usize::MAX as nat) == Some(n)
        }),
    ensures
        r is Err,
{
}

proof fn lemma_nobody_is_called(items: Seq<InventoryItem>, text: Seq<char>)
    requires
        forall|j: int|
            0 <= j < items.len() ==> (#[trigger] items[j]).name@ != text && forall|a: int|
                0 <= a < items[j].aliases@.len() ==> (#[trigger] items[j].aliases@[a])@ != text,
    ensures
        hits(items, text, Matching::Name).len() == 0,
{
    assert forall|j: int| 0 <= j < items.len() implies !means(
        #[trigger] items[j],
        text,
        Matching::Name,
    ) by {
        let item = items[j];
        assert(item.name@ != text);
        if texts(item.aliases@).contains(text) {
            let a = choose|a: int| 0 <= a < item.aliases@.len() && texts(item.aliases@)[a] == text;
            assert(item.aliases@[a]@ == text);
        }
    }
    lemma_no_hit(items, text, Matching::Name);
}

proof fn lemma_two_hits(items: Seq<InventoryItem>, text: Seq<char>, how: Matching, j: int, k: int)
    requires
        0 <= j < k < items.len(),
        means(items[j], text, how),
        means(items[k], text, how),
    ensures
        hits(items, text, how).len() >= 2,
    decreases items.len(),
{
    let front = items.drop_last();
    if k < items.len() - 1 {
        lemma_two_hits(front, text, how, j, k);
    } else {
        lemma_one_hit(front, text, how, j);
    }
}

proof fn lemma_one_hit(items: Seq<InventoryItem>, text: Seq<char>, how: Matching, j: int)
    requires
        0 <= j < items.len(),
        means(items[j], text, how),
    ensures
        hits(items, text, how).len() >= 1,
    decreases items.len(),
{
    if j < items.len() - 1 {
        lemma_one_hit(items.drop_last(), text, how, j);
    }
}

proof fn lemma_single_hit(items: Seq<InventoryItem>, text: Seq<char>, how: Matching, k: int)
    requires
        0 <= k < items.len(),
        means(items[k], text, how),
        forall|j: int| 0 <= j < items.len() && j != k ==> !means(#[trigger] items[j], text, how),
    ensures
        hits(items, text, how) == seq![items[k]],
    decreases items.len(),
{
    let front = items.drop_last();
    if k == items.len() - 1 {
        lemma_no_hit(front, text, how);
        assert(hits(items, text, how) =~= seq![items[k]]);
    } else {
        lemma_single_hit(front, text, how, k);
        assert(!means(items[items.len() - 1], text, how));
    }
}

proof fn lemma_no_hit(items: Seq<InventoryItem>, text: Seq<char>, how: Matching)
    requires
        forall|j: int| 0 <= j < items.len() ==> !means(#[trigger] items[j], text, how),
    ensures
        hits(items, text, how).len() == 0,
    decreases items.len(),
{
    if items.len() > 0 {
        lemma_no_hit(items.drop_last(), text, how);
        assert(!means(items[items.len() - 1], text, how));
    }
}

/// What a publisher says of a collection is what its receivers see: the line of an offer
/// that carries a manifest's metadata shows the number of members and their total size.
pub proof fn advertised_totals_are_listed(
    item: InventoryItem,
    record: OfferRecord,
    index: int,
    members: nat,
    total: nat,
)
    requires
        lists(item, record, index),
        says_collection(opt_text(record.media_type)),
        pair_views(record.metadata@) == seq![
            (META_MEMBERS@, decimal(members)),
            (META_TOTAL_BYTES@, decimal(total)),
        ],
        members <= usize::MAX,
        total <= u64::MAX,
    ensures
        item.is_collection,
        item.members == Some(members as usize),
        item.content_size == total,
{
    let m = record.metadata@;
    let pairs = pair_views(m);
    assert(m.len() == pairs.len());
    assert(pairs[0] == (m[0].0@, m[0].1@));
    assert(pairs[1] == (m[1].0@, m[1].1@));
    assert(m.drop_first()[0] == m[1]);
    assert(META_MEMBERS@ != META_TOTAL_BYTES@) by {
        reveal_strlit("collection.members");
        reveal_strlit("collection.total_bytes");
        assert("collection.members"@.len() != "collection.total_bytes"@.len());
    }
    assert(meta_value(m, META_MEMBERS@) == Some(decimal(members)));
    assert(meta_value(m, META_TOTAL_BYTES@) == meta_value(m.drop_first(), META_TOTAL_BYTES@));
    assert(meta_value(m, META_TOTAL_BYTES@) == Some(decimal(total)));
    decimal_reads_back(members, usize::MAX as nat);
    decimal_reads_back(total, u64::MAX as nat);
}

} // verus!
