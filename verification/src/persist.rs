//! Drop-level persistence, so a drop survives a cold restart: not just the blob cache, the
//! drop itself.
//!
//! Layout, next to the blob store (a store at `~/data/blobs` gets `~/data/blobs-daemon/`):
//!
//! ```text
//! drops.json            table of hosted drops: handle, name, whether we created it, ticket
//! frames-<topic>.bin    the retained signed frames of one drop, oldest first
//! ```

use crate::json::{
    field, json_in, json_row, json_rows, json_views, object, parse_json, pretty_text, text_or_null,
    write_pretty, Json, JsonView,
};
use crate::path::{
    a_name_below_adds_a_part, below, file_name, file_name_text, join_path, parent, parent_text,
    parts, plain_name, PartView,
};
use crate::service::ServiceOptions;
use crate::text::opt_text;
use vstd::prelude::*;

verus! {

/// One hosted drop, as of the last persist.
#[derive(Debug)]
pub struct PersistedDrop {
    /// The daemon-local handle, kept stable across restarts so scripts and UIs do not see
    /// drops rename themselves.
    pub handle: String,
    /// Display name for drops we created; joined drops have none.
    pub name: Option<String>,
    /// Whether we created it; false for a drop we joined.
    pub mine: bool,
    /// Full ticket (bootstrap addresses included, possibly stale: a join does not need any
    /// of them to be reachable).
    pub ticket: String,
}

/// The model of a [`PersistedDrop`].
#[verifier::ext_equal]
pub struct PersistedView {
    /// The handle.
    pub handle: Seq<char>,
    /// Display name.
    pub name: Option<Seq<char>>,
    /// Whether we created it.
    pub mine: bool,
    /// Full ticket.
    pub ticket: Seq<char>,
}

impl View for PersistedDrop {
    type V = PersistedView;

    open spec fn view(&self) -> PersistedView {
        PersistedView {
            handle: self.handle@,
            name: opt_text(self.name),
            mine: self.mine,
            ticket: self.ticket@,
        }
    }
}

/// The models of a table's rows.
pub open spec fn persisted_views(drops: Seq<PersistedDrop>) -> Seq<PersistedView> {
    Seq::new(drops.len(), |i: int| drops[i]@)
}

/// A row of the table, as a structured value.
pub open spec fn row_json(row: PersistedView) -> JsonView {
    object().with("handle"@, JsonView::Text(row.handle)).with(
        "mine"@,
        JsonView::Bool(row.mine),
    ).with("name"@, text_or_null(row.name)).with("ticket"@, JsonView::Text(row.ticket))
}

/// The table, as a structured value.
pub open spec fn table_json(rows: Seq<PersistedView>) -> JsonView {
    JsonView::List(Seq::new(rows.len(), |i: int| row_json(rows[i])))
}

/// The row that a structured value is, if it is one: it has a handle and a ticket, a name or
/// none, and says whether we created the drop. Where it does not say, a drop with a name is one
/// that we created.
pub open spec fn row_in(v: JsonView) -> Option<PersistedView> {
    let name = match v.get("name"@) {
        None => Some(None),
        Some(JsonView::Null) => Some(None),
        Some(JsonView::Text(name)) => Some(Some(name)),
        Some(_) => None,
    };
    let mine = match v.get("mine"@) {
        None => Some(name is Some && name->0 is Some),
        Some(JsonView::Null) => Some(name is Some && name->0 is Some),
        Some(JsonView::Bool(mine)) => Some(mine),
        Some(_) => None,
    };
    match (v.text_at("handle"@), v.text_at("ticket"@)) {
        (Some(handle), Some(ticket)) => if name is Some && mine is Some {
            Some(PersistedView { handle, name: name->0, mine: mine->0, ticket })
        } else {
            None
        },
        _ => None,
    }
}

/// The rows that structured values are, if all of them are rows.
pub open spec fn rows_in(items: Seq<JsonView>) -> Option<Seq<PersistedView>>
    decreases items.len(),
{
    if items.len() == 0 {
        Some(Seq::empty())
    } else {
        match (rows_in(items.drop_last()), row_in(items.last())) {
            (Some(rows), Some(row)) => Some(rows.push(row)),
            _ => None,
        }
    }
}

/// The table that a structured value is, if it is one.
pub open spec fn table_in(v: JsonView) -> Option<Seq<PersistedView>> {
    match v {
        JsonView::List(items) => rows_in(items),
        _ => None,
    }
}

/// The table that a file with this text holds; none where it cannot be read.
pub open spec fn table_of(text: Seq<char>) -> Seq<PersistedView> {
    match json_in(text) {
        Ok(v) => match table_in(v) {
            Some(rows) => rows,
            None => Seq::empty(),
        },
        Err(_) => Seq::empty(),
    }
}

proof fn lemma_row(row: PersistedView)
    ensures
        row_in(row_json(row)) == Some(row),
        json_row(row_json(row)),
{
    reveal_with_fuel(field, 5);
    reveal_with_fuel(crate::order::text_before, 2);
    reveal_strlit("handle");
    reveal_strlit("mine");
    reveal_strlit("name");
    reveal_strlit("ticket");
    assert("handle"@[0] < "mine"@[0] && "mine"@[0] < "name"@[0] && "name"@[0] < "ticket"@[0]);
    let fields = row_json(row)->Object_0;
    assert(fields =~= seq![
        ("handle"@, JsonView::Text(row.handle)),
        ("mine"@, JsonView::Bool(row.mine)),
        ("name"@, text_or_null(row.name)),
        ("ticket"@, JsonView::Text(row.ticket)),
    ]);
}

proof fn lemma_rows(rows: Seq<PersistedView>)
    ensures
        rows_in(Seq::new(rows.len(), |i: int| row_json(rows[i]))) == Some(rows),
    decreases rows.len(),
{
    let items = Seq::new(rows.len(), |i: int| row_json(rows[i]));
    if rows.len() > 0 {
        let front = rows.drop_last();
        lemma_rows(front);
        lemma_row(rows.last());
        assert(items.drop_last() =~= Seq::new(front.len(), |i: int| row_json(front[i])));
        assert(front.push(rows.last()) =~= rows);
    } else {
        assert(rows =~= Seq::<PersistedView>::empty());
    }
}

/// The table reads back as it was, row by row and in the same order.
pub proof fn a_table_reads_back(rows: Seq<PersistedView>)
    ensures
        table_in(table_json(rows)) == Some(rows),
        json_rows(table_json(rows)),
{
    lemma_rows(rows);
    assert forall|i: int| 0 <= i < rows.len() implies json_row(
        #[trigger] table_json(rows)->List_0[i],
    ) by {
        lemma_row(rows[i]);
    }
}

fn row_to_json(row: &PersistedDrop) -> (r: Json)
    ensures
        r@ == row_json(row@),
{
    Json::object().with("handle", Json::text(row.handle.as_str())).with(
        "mine",
        Json::Bool(row.mine),
    ).with("name", Json::text_or_null(&row.name)).with("ticket", Json::text(row.ticket.as_str()))
}

fn row_from_json(v: &Json) -> (r: Option<PersistedDrop>)
    ensures
        match r {
            Some(row) => row_in(v@) == Some(row@),
            None => row_in(v@) is None,
        },
{
    let name = match v.get("name") {
        None => None,
        Some(Json::Null) => None,
        Some(Json::Text(name)) => Some(name.clone()),
        Some(_) => {
            return None;
        },
    };
    let mine = match v.get("mine") {
        None => name.is_some(),
        Some(Json::Null) => name.is_some(),
        Some(Json::Bool(mine)) => *mine,
        Some(_) => {
            return None;
        },
    };
    match (v.text_at("handle"), v.text_at("ticket")) {
        (Some(handle), Some(ticket)) => Some(
            PersistedDrop { handle: handle.to_owned(), name, mine, ticket: ticket.to_owned() },
        ),
        _ => None,
    }
}

/// The table of hosted drops, as a structured value.
pub fn table_to_json(drops: &Vec<PersistedDrop>) -> (r: Json)
    ensures
        r@ == table_json(persisted_views(drops@)),
{
    let mut items: Vec<Json> = Vec::new();
    let mut i: usize = 0;
    while i < drops.len()
        invariant
            i <= drops@.len(),
            items@.len() == i,
            forall|k: int| 0 <= k < i ==> (#[trigger] items@[k])@ == row_json(drops@[k]@),
        decreases drops@.len() - i,
    {
        items.push(row_to_json(&drops[i]));
        i += 1;
    }
    let ghost rows = persisted_views(drops@);
    assert(json_views(items@) =~= Seq::new(rows.len(), |k: int| row_json(rows[k])));
    Json::list(items)
}

/// The table of hosted drops that a structured value is, if it is one.
pub fn table_from_json(v: &Json) -> (r: Option<Vec<PersistedDrop>>)
    ensures
        match r {
            Some(drops) => table_in(v@) == Some(persisted_views(drops@)),
            None => table_in(v@) is None,
        },
{
    let items = match v {
        Json::List(items) => items,
        _ => {
            return None;
        },
    };
    let ghost all = json_views(items@);
    assert(v@->List_0 =~= all);
    let mut drops: Vec<PersistedDrop> = Vec::new();
    let mut i: usize = 0;
    assert(all.take(0) =~= Seq::<JsonView>::empty());
    assert(persisted_views(drops@) =~= Seq::<PersistedView>::empty());
    while i < items.len()
        invariant
            i <= items@.len(),
            all == json_views(items@),
            v@ == JsonView::List(all),
            rows_in(all.take(i as int)) == Some(persisted_views(drops@)),
        decreases items@.len() - i,
    {
        assert(all.take(i + 1).drop_last() =~= all.take(i as int));
        assert(all.take(i + 1).last() == items@[i as int]@);
        match row_from_json(&items[i]) {
            Some(row) => {
                let ghost before = drops@;
                drops.push(row);
                assert(persisted_views(drops@) =~= persisted_views(before).push(row@));
            },
            None => {
                proof {
                    lemma_unreadable(all, i + 1);
                }
                return None;
            },
        }
        i += 1;
    }
    assert(all.take(i as int) =~= all);
    Some(drops)
}

proof fn lemma_unreadable(items: Seq<JsonView>, n: int)
    requires
        0 <= n <= items.len(),
        rows_in(items.take(n)) is None,
    ensures
        rows_in(items) is None,
    decreases items.len(),
{
    if n == items.len() {
        assert(items.take(n) =~= items);
    } else {
        assert(items.drop_last().take(n) =~= items.take(n));
        lemma_unreadable(items.drop_last(), n);
    }
}

/// The bytes of frames.
pub open spec fn frame_views(frames: Seq<Vec<u8>>) -> Seq<Seq<u8>> {
    Seq::new(frames.len(), |i: int| frames[i]@)
}

/// A length as a variable number of bytes: seven bits to a byte, lowest first, every byte
/// but the last with its top bit set.
pub open spec fn packed_len(n: nat) -> Seq<u8>
    decreases n,
{
    if n < 128 {
        seq![n as u8]
    } else {
        seq![(n % 128 + 128) as u8] + packed_len(n / 128)
    }
}

/// Frames one behind the other, each with its length in front.
pub open spec fn packed_each(frames: Seq<Seq<u8>>) -> Seq<u8>
    decreases frames.len(),
{
    if frames.len() == 0 {
        Seq::empty()
    } else {
        packed_each(frames.drop_last()) + packed_len(frames.last().len()) + frames.last()
    }
}

/// A list of frames: how many there are, then the frames.
pub open spec fn packed(frames: Seq<Seq<u8>>) -> Seq<u8> {
    packed_len(frames.len()) + packed_each(frames)
}

/// The frames that bytes hold, as far as they hold any.
pub uninterp spec fn unpacked(bytes: Seq<u8>) -> Option<Seq<Seq<u8>>>;

/// Packs frames by `postcard::to_stdvec`. The contract claims postcard's encoding of a list
/// of byte lists: each list is its length as a variable-length integer and then its
/// elements, and a byte is itself. It claims that packing such a list does not fail, and
/// that what was packed is what [`unpack`] finds again.
#[verifier::external_body]
fn pack(frames: &Vec<Vec<u8>>) -> (r: Option<Vec<u8>>)
    ensures
        r is Some,
        r->0@ == packed(frame_views(frames@)),
        unpacked(r->0@) == Some(frame_views(frames@)),
{
    postcard::to_stdvec(frames).ok()
}

/// Reads packed frames by `postcard::from_bytes`. Which bytes it reads as which frames is
/// left to it, but for what [`pack`] says of packed frames; the same bytes always give the
/// same result.
#[verifier::external_body]
fn unpack(bytes: &Vec<u8>) -> (r: Option<Vec<Vec<u8>>>)
    ensures
        match r {
            Some(frames) => unpacked(bytes@) == Some(frame_views(frames@)),
            None => unpacked(bytes@) is None,
        },
{
    postcard::from_bytes(bytes).ok()
}

/// What to write, and how: `bytes` to `tmp` in the directory `dir`, and then `tmp` renamed
/// to `path`, so that a crash in the middle never halves a file.
#[derive(Debug)]
pub struct FileWrite {
    /// The directory to create first, for its owner only.
    pub dir: String,
    /// Where the bytes go first.
    pub tmp: String,
    /// Where they end up.
    pub path: String,
}

impl FileWrite {
    /// Whether this writes the table of drops in the directory `dir`.
    pub open spec fn writes_table(self, dir: Seq<char>) -> bool {
        &&& self.dir@ == dir
        &&& self.tmp@ == below(dir, "drops.tmp"@)
        &&& self.path@ == below(dir, "drops.json"@)
    }

    /// Whether this writes the frames of a drop in the directory `dir`.
    pub open spec fn writes_frames(self, dir: Seq<char>, topic: Seq<char>) -> bool {
        &&& self.dir@ == dir
        &&& self.tmp@ == below(dir, "frames-"@ + topic + ".tmp"@)
        &&& self.path@ == frames_file(dir, topic)
    }

    /// What the files hold once this was written: `bytes` at its path, nothing at its temporary
    /// one, and elsewhere what was there.
    pub open spec fn written(
        self,
        files: Map<Seq<char>, Seq<u8>>,
        bytes: Seq<u8>,
    ) -> Map<Seq<char>, Seq<u8>> {
        files.insert(self.tmp@, bytes).remove(self.tmp@).insert(self.path@, bytes)
    }
}

/// Where the frames of a drop are.
pub open spec fn frames_file(dir: Seq<char>, topic: Seq<char>) -> Seq<char> {
    below(dir, "frames-"@ + topic + ".bin"@)
}

/// What to write when the table and the frames of one drop are saved.
#[derive(Debug)]
pub struct Saved {
    /// How to write the table.
    pub table: FileWrite,
    /// The table's text.
    pub rows: String,
    /// How to write the frames.
    pub frames: FileWrite,
    /// The packed frames.
    pub bytes: Vec<u8>,
}

/// Where the daemon keeps its small persistent state.
#[derive(Debug)]
pub struct DropStore {
    /// The directory.
    pub dir: String,
}

/// The directory beside a blob store.
pub open spec fn beside(store: Seq<char>) -> Option<Seq<char>> {
    match (parent_text(store), file_name_text(store)) {
        (Some(dir), Some(name)) => Some(below(dir, name + "-daemon"@)),
        _ => None,
    }
}

impl DropStore {
    /// The store sits beside the blob store. `None` (in-memory blobs) means no persistence
    /// at all: nothing to anchor it to.
    pub fn for_options(options: &ServiceOptions) -> (r: Option<DropStore>)
        ensures
            match options.store_path {
                None => r is None,
                Some(store) => match beside(store@) {
                    Some(dir) => r is Some && r->0.dir@ == dir,
                    None => r is None,
                },
            },
    {
        match &options.store_path {
            None => None,
            Some(store) => match file_name(store.as_str()) {
                None => None,
                Some(name) => match parent(store.as_str()) {
                    None => None,
                    Some(dir) => Some(
                        DropStore {
                            dir: join_path(dir.as_str(), name.concat("-daemon").as_str()),
                        },
                    ),
                },
            },
        }
    }

    /// Where the table of drops is.
    pub fn table_path(&self) -> (r: String)
        ensures
            r@ == below(self.dir@, "drops.json"@),
    {
        join_path(self.dir.as_str(), "drops.json")
    }

    /// Where the frames of a drop are.
    pub fn frames_path(&self, topic: &str) -> (r: String)
        ensures
            r@ == frames_file(self.dir@, topic@),
    {
        join_path(self.dir.as_str(), "frames-".to_owned().concat(topic).concat(".bin").as_str())
    }

    /// Every drop the daemon was hosting when it last persisted, from the text of the table;
    /// none where the table is missing or cannot be read.
    pub fn load_table(text: &Option<String>) -> (r: Vec<PersistedDrop>)
        ensures
            persisted_views(r@) == match text {
                Some(text) => table_of(text@),
                None => Seq::empty(),
            },
    {
        let none: Vec<PersistedDrop> = Vec::new();
        assert(persisted_views(none@) =~= Seq::<PersistedView>::empty());
        match text {
            Some(text) => match parse_json(text.as_str()) {
                Ok(v) => match table_from_json(&v) {
                    Some(drops) => drops,
                    None => none,
                },
                Err(_) => none,
            },
            None => none,
        }
    }

    /// The retained signed frames for one drop, oldest first; none where the file is
    /// missing or cannot be read.
    pub fn load_frames(bytes: &Option<Vec<u8>>) -> (r: Vec<Vec<u8>>)
        ensures
            frame_views(r@) == match bytes {
                Some(bytes) => match unpacked(bytes@) {
                    Some(frames) => frames,
                    None => Seq::empty(),
                },
                None => Seq::empty(),
            },
    {
        match bytes {
            Some(bytes) => match unpack(bytes) {
                Some(frames) => frames,
                None => {
                    let none: Vec<Vec<u8>> = Vec::new();
                    assert(frame_views(none@) =~= Seq::<Seq<u8>>::empty());
                    none
                },
            },
            None => {
                let none: Vec<Vec<u8>> = Vec::new();
                assert(frame_views(none@) =~= Seq::<Seq<u8>>::empty());
                none
            },
        }
    }

    /// How to write the table of drops, and the text to write. The table reads back from it as
    /// it is.
    pub fn save_table(&self, drops: &Vec<PersistedDrop>) -> (r: (FileWrite, String))
        ensures
            r.0.writes_table(self.dir@),
            r.1@ == pretty_text(table_json(persisted_views(drops@))),
            table_of(r.1@) == persisted_views(drops@),
    {
        let write = FileWrite {
            dir: self.dir.clone(),
            tmp: join_path(self.dir.as_str(), "drops.tmp"),
            path: self.table_path(),
        };
        let v = table_to_json(drops);
        proof {
            a_table_reads_back(persisted_views(drops@));
        }
        (write, write_pretty(&v))
    }

    /// How to write the whole table and the frame history of one drop, and what to write. Both
    /// read back as they are.
    pub fn save(
        &self,
        drops: &Vec<PersistedDrop>,
        topic: &str,
        frames: &Vec<Vec<u8>>,
    ) -> (r: Saved)
        ensures
            r.table.writes_table(self.dir@),
            r.rows@ == pretty_text(table_json(persisted_views(drops@))),
            table_of(r.rows@) == persisted_views(drops@),
            r.frames.writes_frames(self.dir@, topic@),
            r.bytes@ == packed(frame_views(frames@)),
            unpacked(r.bytes@) == Some(frame_views(frames@)),
    {
        let (table, rows) = self.save_table(drops);
        let write = FileWrite {
            dir: self.dir.clone(),
            tmp: join_path(
                self.dir.as_str(),
                "frames-".to_owned().concat(topic).concat(".tmp").as_str(),
            ),
            path: self.frames_path(topic),
        };
        let bytes = match pack(frames) {
            Some(bytes) => bytes,
            None => Vec::new(),
        };
        Saved { table, rows, frames: write, bytes }
    }

    /// The file to remove when a drop is deliberately left.
    pub fn remove_drop(&self, topic: &str) -> (r: String)
        ensures
            r@ == frames_file(self.dir@, topic@),
    {
        self.frames_path(topic)
    }
}

proof fn lemma_below_differs(dir: Seq<char>, a: Seq<char>, b: Seq<char>)
    requires
        a != b,
        a.len() > 0 && a[0] != '/',
        b.len() > 0 && b[0] != '/',
    ensures
        below(dir, a) != below(dir, b),
{
    let x = below(dir, a);
    let y = below(dir, b);
    let base = if dir.len() == 0 || dir.last() == '/' {
        dir
    } else {
        dir + "/"@
    };
    assert(x =~= base + a && y =~= base + b);
    if x == y {
        assert(x.skip(base.len() as int) =~= a);
        assert(y.skip(base.len() as int) =~= b);
    }
}

/// Each drop has a frames file of its own, which is neither the table nor a file that anything
/// is written to on its way: the paths differ where the topics do. Where the topics are single
/// names, the paths also lead to different places.
pub proof fn topics_have_files_of_their_own(dir: Seq<char>, a: Seq<char>, b: Seq<char>)
    requires
        a != b,
    ensures
        frames_file(dir, a) != frames_file(dir, b),
        frames_file(dir, a) != below(dir, "frames-"@ + b + ".tmp"@),
        frames_file(dir, a) != below(dir, "drops.json"@),
        frames_file(dir, a) != below(dir, "drops.tmp"@),
        !a.contains('/') && !b.contains('/') ==> parts(frames_file(dir, a)) != parts(
            frames_file(dir, b),
        ),
{
    reveal_strlit("frames-");
    reveal_strlit(".bin");
    reveal_strlit(".tmp");
    reveal_strlit("drops.json");
    reveal_strlit("drops.tmp");
    let x = "frames-"@ + a + ".bin"@;
    let y = "frames-"@ + b + ".bin"@;
    let tmp = "frames-"@ + b + ".tmp"@;
    assert(x != y) by {
        if x == y {
            assert(x.subrange(7, x.len() - 4) =~= a);
            assert(y.subrange(7, y.len() - 4) =~= b);
        }
    }
    assert(x != tmp) by {
        assert(x[x.len() - 1] == 'n');
        assert(tmp[tmp.len() - 1] == 'p');
    }
    assert(x[0] == 'f' && y[0] == 'f' && tmp[0] == 'f');
    assert("drops.json"@[0] == 'd' && "drops.tmp"@[0] == 'd');
    lemma_below_differs(dir, x, y);
    lemma_below_differs(dir, x, tmp);
    lemma_below_differs(dir, x, "drops.json"@);
    lemma_below_differs(dir, x, "drops.tmp"@);
    if !a.contains('/') && !b.contains('/') {
        lemma_single_name(dir, a);
        lemma_single_name(dir, b);
        if parts(frames_file(dir, a)) == parts(frames_file(dir, b)) {
            assert(parts(frames_file(dir, a)).last() == PartView::Name(x));
            assert(parts(frames_file(dir, b)).last() == PartView::Name(y));
        }
    }
}

proof fn lemma_single_name(dir: Seq<char>, topic: Seq<char>)
    requires
        !topic.contains('/'),
    ensures
        parts(frames_file(dir, topic)) == parts(dir).push(
            PartView::Name("frames-"@ + topic + ".bin"@),
        ),
{
    reveal_strlit("frames-");
    reveal_strlit(".bin");
    reveal_strlit(".");
    reveal_strlit("..");
    let name = "frames-"@ + topic + ".bin"@;
    assert(plain_name(name)) by {
        assert(name.len() >= 11 && name[0] == 'f');
        if name.contains('/') {
            let i = choose|i: int| 0 <= i < name.len() && name[i] == '/';
            if 7 <= i < name.len() - 4 {
                assert(topic[i - 7] == '/');
                assert(topic.contains('/'));
            }
        }
    }
    a_name_below_adds_a_part(dir, name);
}

/// Saving a drop's frames leaves those of every other drop as they were, and puts the new ones
/// and the table where they are looked for.
pub proof fn saving_leaves_other_drops_alone(
    dir: Seq<char>,
    files: Map<Seq<char>, Seq<u8>>,
    saved: Saved,
    table: Seq<u8>,
    topic: Seq<char>,
    other: Seq<char>,
)
    requires
        saved.table.writes_table(dir),
        saved.frames.writes_frames(dir, topic),
        other != topic,
    ensures
        ({
            let after = saved.frames.written(saved.table.written(files, table), saved.bytes@);
            &&& after.contains_key(frames_file(dir, topic))
            &&& after[frames_file(dir, topic)] == saved.bytes@
            &&& after.contains_key(below(dir, "drops.json"@))
            &&& after[below(dir, "drops.json"@)] == table
            &&& after.contains_key(frames_file(dir, other)) == files.contains_key(
                frames_file(dir, other),
            )
            &&& after[frames_file(dir, other)] == files[frames_file(dir, other)]
        }),
{
    topics_have_files_of_their_own(dir, other, topic);
    topics_have_files_of_their_own(dir, topic, other);
    reveal_strlit("frames-");
    reveal_strlit(".tmp");
    reveal_strlit("drops.json");
    let tmp = "frames-"@ + topic + ".tmp"@;
    assert(tmp[0] == 'f' && "drops.json"@[0] == 'd');
    lemma_below_differs(dir, tmp, "drops.json"@);
}

} // verus!
