//! What holds of what is kept on disk: rooms, settings, drops, and the places they have.

use crate::config::{Config, DropPolicy, Environment, FileRead, StackOptions};
use crate::error::SdkError;
use crate::json::{added_value_is_found, nothing_is_in_an_empty_object, Json, JsonView};
use crate::path::{a_name_below_adds_a_part, below, parts, plain_name, PartView};
use crate::persist::{
    persisted_views, row_in, rows_in, table_from_json, table_to_json, DropStore, FileWrite,
    PersistedDrop, PersistedView,
};
use crate::rooms::{
    book_json, lists, room_fields, room_json, rows_book, ListedRoom, RoomView, Rooms,
};
use crate::text::opt_text;
use vstd::prelude::*;

verus! {

/// A room that is saved is there under its name, with that ticket, as used just now; one that was
/// not there has the given note and begins now. Other rooms stay.
pub proof fn a_saved_room_has_its_ticket(
    rooms: &mut Rooms,
    name: &str,
    ticket: &str,
    note: &Option<String>,
    now: u64,
    after: &Rooms,
    found: Result<&str, SdkError>,
    other: Seq<char>,
)
    requires
        call_ensures(Rooms::set, (rooms, name, ticket, note, now), ()),
        *after == *final(rooms),
        call_ensures(Rooms::ticket, (after, name), found),
        other != name@,
    ensures
        found is Ok,
        found->Ok_0@ == ticket@,
        final(rooms).book()[name@].last_used == now,
        !old(rooms).book().contains_key(name@) ==> {
            &&& final(rooms).book()[name@].created_at == now
            &&& final(rooms).book()[name@].note == opt_text(*note)
        },
        old(rooms).book().contains_key(name@) ==> {
            &&& final(rooms).book()[name@].created_at == old(rooms).book()[name@].created_at
            &&& final(rooms).book()[name@].note == match old(rooms).book()[name@].note {
                Some(kept) => Some(kept),
                None => opt_text(*note),
            }
        },
        final(rooms).book().contains_key(other) <==> old(rooms).book().contains_key(other),
        old(rooms).book().contains_key(other) ==> final(rooms).book()[other]
            == old(rooms).book()[other],
{
}

/// A room that is removed is gone, and the others stay.
pub proof fn a_removed_room_is_gone(
    rooms: &mut Rooms,
    name: &str,
    r: bool,
    after: &Rooms,
    found: Result<&str, SdkError>,
    other: Seq<char>,
)
    requires
        call_ensures(Rooms::remove, (rooms, name), r),
        *after == *final(rooms),
        call_ensures(Rooms::ticket, (after, name), found),
        other != name@,
    ensures
        r <==> old(rooms).book().contains_key(name@),
        found is Err,
        final(rooms).book().contains_key(other) <==> old(rooms).book().contains_key(other),
        old(rooms).book().contains_key(other) ==> final(rooms).book()[other]
            == old(rooms).book()[other],
{
}

/// The room that was used last is listed first, and of two that were used at the same time the one
/// whose name comes first.
pub proof fn recent_rooms_are_listed_first(rooms: &Rooms, r: Vec<ListedRoom<'_>>, i: int, j: int)
    requires
        call_ensures(Rooms::list, (rooms,), r),
        0 <= i < j < r@.len(),
    ensures
        r@[i].room.last_used >= r@[j].room.last_used,
        r@[i].room.last_used == r@[j].room.last_used ==> crate::order::text_before(
            r@[i].name@,
            r@[j].name@,
        ),
        r@[i].name@ != r@[j].name@,
        r@[i].room@ == rooms.book()[r@[i].name@],
{
    let a = r@[i];
    let b = r@[j];
    assert(crate::rooms::listed_before(a, b));
}

proof fn lemma_book(rows: Seq<(Seq<char>, RoomView)>, name: Seq<char>)
    requires
        forall|i: int, j: int|
            0 <= i < j < rows.len() ==> crate::order::text_before(
                #[trigger] rows[i].0,
                #[trigger] rows[j].0,
            ),
    ensures
        rows_book(rows).contains_key(name) ==> JsonView::Object(room_fields(rows)).get(name)
            == Some(room_json(rows_book(rows)[name])),
        rows_book(rows).contains_key(name) <==> exists|i: int|
            0 <= i < rows.len() && (#[trigger] rows[i]).0 == name,
        !rows_book(rows).contains_key(name) ==> JsonView::Object(room_fields(rows)).get(name)
            is None,
    decreases rows.len(),
{
    broadcast use added_value_is_found;

    if rows.len() > 0 {
        let front = rows.drop_last();
        assert forall|i: int, j: int| 0 <= i < j < front.len() implies crate::order::text_before(
            #[trigger] front[i].0,
            #[trigger] front[j].0,
        ) by {
            assert(rows[i] == front[i] && rows[j] == front[j]);
        }
        lemma_book(front, name);
        let last = rows.last();
        let whole = JsonView::Object(room_fields(rows));
        let part = JsonView::Object(room_fields(front));
        assert(room_fields(rows) =~= room_fields(front).push((last.0, room_json(last.1))));
        assert(whole == part.with(last.0, room_json(last.1)));
        assert(part.with(last.0, room_json(last.1)).get(name) == whole.get(name));
        if name == last.0 {
            assert(rows[rows.len() - 1].0 == name);
            if rows_book(front).contains_key(name) {
                let i = choose|i: int| 0 <= i < front.len() && (#[trigger] front[i]).0 == name;
                assert(rows[i].0 == name);
                let end = rows.len() - 1;
                assert(crate::order::text_before(rows[i].0, rows[end].0));
                crate::order::text_before_irreflexive(name);
            }
        } else {
            if rows_book(front).contains_key(name) {
                let i = choose|i: int| 0 <= i < front.len() && (#[trigger] front[i]).0 == name;
                assert(rows[i].0 == name);
            }
            if exists|i: int| 0 <= i < rows.len() && (#[trigger] rows[i]).0 == name {
                let i = choose|i: int| 0 <= i < rows.len() && (#[trigger] rows[i]).0 == name;
                assert(front[i].0 == name);
            }
        }
    } else {
        assert(room_fields(rows) =~= Seq::<(Seq<char>, JsonView)>::empty());
    }
}

/// A room book is written with one table for each room under `rooms`, which tells its ticket, its
/// times, and its note where it has one.
pub proof fn rooms_are_written_by_name(rooms: &Rooms, r: Json, name: Seq<char>)
    requires
        call_ensures(Rooms::to_json, (rooms,), r),
        rooms.book().contains_key(name),
    ensures
        r@.get("rooms"@) is Some,
        r@.get("rooms"@)->0.get(name) is Some,
        ({
            let told = r@.get("rooms"@)->0.get(name)->0;
            let room = rooms.book()[name];
            &&& told.text_at("ticket"@) == Some(room.ticket)
            &&& told.number_at("created_at"@) == Some(room.created_at)
            &&& told.number_at("last_used"@) == Some(room.last_used)
            &&& told.text_at("note"@) == room.note
            &&& told.get("note"@) is Some <==> room.note is Some
        }),
{
    broadcast use {added_value_is_found, nothing_is_in_an_empty_object};

    reveal_strlit("created_at");
    reveal_strlit("last_used");
    reveal_strlit("note");
    reveal_strlit("ticket");
    assert("created_at"@.len() == 10 && "last_used"@.len() == 9 && "note"@.len() == 4
        && "ticket"@.len() == 6);
    let rows = choose|rows: Seq<(Seq<char>, RoomView)>| #[trigger]
        lists(rows, rooms.book()) && r@ == book_json(rows);
    lemma_book(rows, name);
    assert(r@.get("rooms"@) is Some);
    let told = room_json(rooms.book()[name]);
    assert(told.get("ticket"@) is Some);
    assert(told.get("created_at"@) is Some);
    assert(told.get("last_used"@) is Some);
    assert(told.get("note"@) is Some <==> rooms.book()[name].note is Some);
}

/// The settings are written under their names.
pub proof fn settings_are_written_by_name(config: &Config, r: Json)
    requires
        call_ensures(Config::to_json, (config,), r),
    ensures
        r@.text_at("identity_path"@) == Some(config.identity_path@),
        r@.text_at("store_path"@) == Some(config.store_path@),
        r@.text_at("download_dir"@) == Some(config.download_dir@),
        r@.flag_at("auto_fetch"@) == Some(config.auto_fetch),
        r@.number_at("max_auto_blob_size"@) == Some(config.max_auto_blob_size),
        r@.number_at("max_auto_total_bytes"@) == Some(config.max_auto_total_bytes),
        r@.text_at("link_base"@) == opt_text(config.link_base),
        r@.get("link_base"@) is Some <==> config.link_base is Some,
{
    broadcast use {added_value_is_found, nothing_is_in_an_empty_object};

    reveal_strlit("identity_path");
    reveal_strlit("store_path");
    reveal_strlit("download_dir");
    reveal_strlit("auto_fetch");
    reveal_strlit("max_auto_blob_size");
    reveal_strlit("max_auto_total_bytes");
    reveal_strlit("link_base");
    assert("identity_path"@.len() == 13 && "store_path"@.len() == 10
        && "download_dir"@.len() == 12 && "auto_fetch"@.len() == 10
        && "max_auto_blob_size"@.len() == 18 && "max_auto_total_bytes"@.len() == 20
        && "link_base"@.len() == 9);
    assert("store_path"@[0] == 's' && "auto_fetch"@[0] == 'a');
    assert(r@.get("identity_path"@) is Some);
    assert(r@.get("store_path"@) is Some);
    assert(r@.get("download_dir"@) is Some);
    assert(r@.get("auto_fetch"@) is Some);
    assert(r@.get("max_auto_blob_size"@) is Some);
    assert(r@.get("max_auto_total_bytes"@) is Some);
    assert(r@.get("link_base"@) is Some <==> config.link_base is Some);
}

/// Each setting that is given is taken as it is given, under its own name, and each that is not is
/// the usual one; a setting of the wrong type is refused.
pub proof fn settings_are_read_by_name(v: &Json, usual: Config, r: Result<Config, String>)
    requires
        call_ensures(Config::from_json, (v, usual), r),
    ensures
        r is Ok ==> {
            let config = r->Ok_0;
            &&& config.identity_path@ == match v@.text_at("identity_path"@) {
                Some(path) => path,
                None => usual.identity_path@,
            }
            &&& config.store_path@ == match v@.text_at("store_path"@) {
                Some(path) => path,
                None => usual.store_path@,
            }
            &&& config.download_dir@ == match v@.text_at("download_dir"@) {
                Some(path) => path,
                None => usual.download_dir@,
            }
            &&& config.auto_fetch == match v@.flag_at("auto_fetch"@) {
                Some(flag) => flag,
                None => usual.auto_fetch,
            }
            &&& config.max_auto_blob_size == match v@.number_at("max_auto_blob_size"@) {
                Some(n) => n,
                None => usual.max_auto_blob_size,
            }
            &&& config.max_auto_total_bytes == match v@.number_at("max_auto_total_bytes"@) {
                Some(n) => n,
                None => usual.max_auto_total_bytes,
            }
            &&& opt_text(config.link_base) == match v@.text_at("link_base"@) {
                Some(base) => Some(base),
                None => opt_text(usual.link_base),
            }
        },
        r is Ok <==> {
            &&& v@.get("identity_path"@) is Some ==> v@.get("identity_path"@)->0 is Text
            &&& v@.get("store_path"@) is Some ==> v@.get("store_path"@)->0 is Text
            &&& v@.get("download_dir"@) is Some ==> v@.get("download_dir"@)->0 is Text
            &&& v@.get("auto_fetch"@) is Some ==> v@.get("auto_fetch"@)->0 is Bool
            &&& v@.get("max_auto_blob_size"@) is Some ==> v@.get("max_auto_blob_size"@)->0
                is Unsigned
            &&& v@.get("max_auto_total_bytes"@) is Some ==> v@.get("max_auto_total_bytes"@)->0
                is Unsigned
            &&& v@.get("link_base"@) is Some ==> v@.get("link_base"@)->0 is Text
        },
{
    if r is Ok {
        assert(r->Ok_0@.identity_path == r->Ok_0.identity_path@);
    }
}

proof fn lemma_plain(name: Seq<char>)
    requires
        name.len() > 2,
        forall|i: int| 0 <= i < name.len() ==> name[i] != '/',
    ensures
        plain_name(name),
{
    reveal_strlit(".");
    reveal_strlit("..");
    assert("."@.len() == 1 && ".."@.len() == 2);
}

/// Where the data goes: below the data directory of the environment, else below `.local/share` in
/// the home directory; the settings go below its own directory, else below `.config`.
pub proof fn files_have_their_places(env: &Environment, data: String, config: String)
    requires
        call_ensures(Environment::data_dir, (env,), data),
        call_ensures(Environment::config_dir, (env,), config),
    ensures
        parts(data@) == match (env.data_home, env.home) {
            (Some(dir), _) => parts(dir@).push(PartView::Name("iroh-drop"@)),
            (None, Some(home)) => parts(home@).push(PartView::Name(".local"@)).push(
                PartView::Name("share"@),
            ).push(PartView::Name("iroh-drop"@)),
            (None, None) => parts("."@).push(PartView::Name(".local"@)).push(
                PartView::Name("share"@),
            ).push(PartView::Name("iroh-drop"@)),
        },
        parts(config@) == match (env.config_home, env.home) {
            (Some(dir), _) => parts(dir@).push(PartView::Name("iroh-drop"@)),
            (None, Some(home)) => parts(home@).push(PartView::Name(".config"@)).push(
                PartView::Name("iroh-drop"@),
            ),
            (None, None) => parts("."@).push(PartView::Name(".config"@)).push(
                PartView::Name("iroh-drop"@),
            ),
        },
{
    reveal_strlit("iroh-drop");
    reveal_strlit(".local");
    reveal_strlit("share");
    reveal_strlit(".config");
    lemma_plain("iroh-drop"@);
    lemma_plain(".local"@);
    lemma_plain("share"@);
    lemma_plain(".config"@);
    let home = env.home_text();
    lemma_below(home, ".local"@);
    lemma_below(below(home, ".local"@), "share"@);
    lemma_below(below(below(home, ".local"@), "share"@), "iroh-drop"@);
    lemma_below(home, ".config"@);
    lemma_below(below(home, ".config"@), "iroh-drop"@);
    if env.data_home is Some {
        lemma_below(env.data_home->0@, "iroh-drop"@);
    }
    if env.config_home is Some {
        lemma_below(env.config_home->0@, "iroh-drop"@);
    }
}

proof fn lemma_below(dir: Seq<char>, name: Seq<char>)
    requires
        plain_name(name),
    ensures
        parts(below(dir, name)) == parts(dir).push(PartView::Name(name)),
{
    a_name_below_adds_a_part(dir, name);
    assert(parts(dir) + seq![PartView::Name(name)] =~= parts(dir).push(PartView::Name(name)));
}

/// Without a settings file everything stands below the data directory: the identity, the blobs and
/// what is received; nothing is fetched unasked, and the limits are the given ones.
pub proof fn without_a_file_the_usual_holds(
    env: &Environment,
    limits: &DropPolicy,
    r: Result<Config, SdkError>,
    data: String,
)
    requires
        call_ensures(Config::load, (env, limits, &FileRead::Missing), r),
        call_ensures(Environment::data_dir, (env,), data),
    ensures
        r is Ok,
        parts(r->Ok_0.identity_path@) == parts(data@).push(PartView::Name("identity.key"@)),
        parts(r->Ok_0.store_path@) == parts(data@).push(PartView::Name("blobs"@)),
        parts(r->Ok_0.download_dir@) == parts(data@).push(PartView::Name("received"@)),
        !r->Ok_0.auto_fetch,
        r->Ok_0.max_auto_blob_size == limits.max_blob_size,
        r->Ok_0.max_auto_total_bytes == limits.max_total_auto_fetch_bytes,
        r->Ok_0.link_base is None,
{
    reveal_strlit("identity.key");
    reveal_strlit("blobs");
    reveal_strlit("received");
    lemma_plain("identity.key"@);
    lemma_plain("blobs"@);
    lemma_plain("received"@);
    lemma_below(data@, "identity.key"@);
    lemma_below(data@, "blobs"@);
    lemma_below(data@, "received"@);
    assert(r->Ok_0@.link_base is None);
    assert(r->Ok_0@.identity_path == r->Ok_0.identity_path@);
}

/// The settings decide where the stack keeps things and what it fetches unasked.
pub proof fn settings_reach_the_stack(
    config: &Config,
    offline: bool,
    mdns: bool,
    options: StackOptions,
    base: DropPolicy,
    policy: DropPolicy,
)
    requires
        call_ensures(Config::stack_options, (config, offline, mdns), options),
        call_ensures(Config::policy, (config, base), policy),
    ensures
        opt_text(options.store_path) == Some(config.store_path@),
        opt_text(options.identity_path) == Some(config.identity_path@),
        options.offline == offline,
        options.mdns == mdns,
        policy.auto_fetch == config.auto_fetch,
        policy.max_blob_size == config.max_auto_blob_size,
        policy.max_total_auto_fetch_bytes == config.max_auto_total_bytes,
        policy.output_directory == base.output_directory,
{
}

/// The table of drops holds a row for each, in their order, that tells its handle, name, ticket,
/// and whether it is our own.
pub proof fn kept_drops_are_written_by_name(drops: &Vec<PersistedDrop>, r: Json, i: int)
    requires
        call_ensures(table_to_json, (drops,), r),
        0 <= i < drops@.len(),
    ensures
        r@ is List,
        r@->List_0.len() == drops@.len(),
        r@->List_0[i].text_at("handle"@) == Some(drops@[i].handle@),
        r@->List_0[i].text_at("name"@) == opt_text(drops@[i].name),
        r@->List_0[i].flag_at("mine"@) == Some(drops@[i].mine),
        r@->List_0[i].text_at("ticket"@) == Some(drops@[i].ticket@),
{
    broadcast use {added_value_is_found, nothing_is_in_an_empty_object};

    reveal_strlit("handle");
    reveal_strlit("mine");
    reveal_strlit("name");
    reveal_strlit("ticket");
    assert("handle"@.len() == 6 && "mine"@.len() == 4 && "name"@.len() == 4
        && "ticket"@.len() == 6);
    assert("handle"@[0] == 'h' && "ticket"@[0] == 't');
    assert("mine"@[0] == 'm' && "name"@[0] == 'n');
    let row = r@->List_0[i];
    assert(row == crate::persist::row_json(drops@[i]@));
    assert(row.get("handle"@) is Some);
    assert(row.get("mine"@) is Some);
    assert(row.get("name"@) is Some);
    assert(row.get("ticket"@) is Some);
}

/// A row that does not say whether the drop is our own is taken to be of our own exactly when it
/// has a name.
pub proof fn rows_without_an_owner_are_told_by_their_name(
    v: &Json,
    r: Option<Vec<PersistedDrop>>,
    handle: Seq<char>,
    ticket: Seq<char>,
)
    requires
        call_ensures(table_from_json, (v,), r),
        v@ is List,
        v@->List_0.len() == 1,
        v@->List_0[0].text_at("handle"@) == Some(handle),
        v@->List_0[0].text_at("ticket"@) == Some(ticket),
        v@->List_0[0].get("mine"@) is None,
        v@->List_0[0].get("name"@) is Some ==> v@->List_0[0].get("name"@)->0 is Text,
    ensures
        r is Some,
        r->0@.len() == 1,
        r->0@[0].handle@ == handle,
        r->0@[0].ticket@ == ticket,
        opt_text(r->0@[0].name) == v@->List_0[0].text_at("name"@),
        r->0@[0].mine <==> v@->List_0[0].get("name"@) is Some,
{
    let items = v@->List_0;
    assert(items.drop_last() =~= Seq::<JsonView>::empty());
    assert(items.last() == items[0]);
    let none = Seq::<PersistedView>::empty();
    let row = PersistedView {
        handle,
        name: items[0].text_at("name"@),
        mine: items[0].get("name"@) is Some,
        ticket,
    };
    assert(row_in(items[0]) == Some(row));
    assert(rows_in(items.drop_last()) == Some(none));
    assert(rows_in(items) == Some(none.push(row)));
    let views = persisted_views(r->0@);
    assert(views == none.push(row));
    assert(views.len() == r->0@.len());
    assert(none.push(row)[0] == row);
    assert(views[0] == r->0@[0]@);
}

/// The table and the frames of a drop are written to files of their own in the store's directory,
/// first to another name beside them.
pub proof fn kept_files_have_their_names(
    store: &DropStore,
    table: String,
    topic: &str,
    frames: String,
    gone: String,
    drops: &Vec<PersistedDrop>,
    written: (FileWrite, String),
)
    requires
        call_ensures(DropStore::table_path, (store,), table),
        call_ensures(DropStore::frames_path, (store, topic), frames),
        call_ensures(DropStore::remove_drop, (store, topic), gone),
        call_ensures(DropStore::save_table, (store, drops), written),
        !topic@.contains('/'),
    ensures
        parts(table@) == parts(store.dir@).push(PartView::Name("drops.json"@)),
        parts(frames@) == parts(store.dir@).push(
            PartView::Name("frames-"@ + topic@ + ".bin"@),
        ),
        gone@ == frames@,
        written.0.path@ == table@,
        written.0.dir@ == store.dir@,
        written.0.tmp@ != written.0.path@,
        table@ != frames@,
{
    reveal_strlit("drops.json");
    reveal_strlit("drops.tmp");
    reveal_strlit("frames-");
    reveal_strlit(".bin");
    lemma_plain("drops.json"@);
    lemma_plain("drops.tmp"@);
    let name = "frames-"@ + topic@ + ".bin"@;
    assert forall|i: int| 0 <= i < name.len() implies name[i] != '/' by {
        if 7 <= i < 7 + topic@.len() {
            assert(name[i] == topic@[i - 7]);
            assert(topic@.contains(topic@[i - 7]));
        }
    }
    lemma_plain(name);
    lemma_below(store.dir@, "drops.json"@);
    lemma_below(store.dir@, "drops.tmp"@);
    lemma_below(store.dir@, name);
    let dir = parts(store.dir@);
    assert("drops.json"@.len() == 10 && "drops.tmp"@.len() == 9);
    assert("drops.json"@[0] == 'd' && name[0] == 'f');
    let a = dir.push(PartView::Name("drops.json"@));
    let b = dir.push(PartView::Name("drops.tmp"@));
    let c = dir.push(PartView::Name(name));
    assert(a.last() != b.last());
    assert(a.last() != c.last());
}

/// A room is read where it has a ticket and both its times; one that lacks any of them, or whose
/// note is no text, makes the book unreadable. Without rooms the book is empty.
pub proof fn rooms_are_read_by_name(
    v: &Json,
    r: Result<Rooms, String>,
    fields: Seq<(Seq<char>, JsonView)>,
)
    requires
        call_ensures(Rooms::from_json, (v,), r),
        v@.get("rooms"@) is None || v@.get("rooms"@) == Some(JsonView::Object(fields)),
        v@.get("rooms"@) is Some ==> fields.len() == 1,
    ensures
        v@.get("rooms"@) is None ==> r is Ok && r->Ok_0.book() == Map::<
            Seq<char>,
            RoomView,
        >::empty(),
        v@.get("rooms"@) is Some ==> {
            let room = fields[0].1;
            let complete = {
                &&& room.text_at("ticket"@) is Some
                &&& room.number_at("created_at"@) is Some
                &&& room.number_at("last_used"@) is Some
                &&& room.get("note"@) is Some ==> room.get("note"@)->0 is Text
            };
            &&& r is Ok <==> complete
            &&& r is Ok ==> {
                let read = r->Ok_0.book()[fields[0].0];
                &&& r->Ok_0.book().contains_key(fields[0].0)
                &&& read.ticket == room.text_at("ticket"@)->0
                &&& read.created_at == room.number_at("created_at"@)->0
                &&& read.last_used == room.number_at("last_used"@)->0
                &&& read.note == room.text_at("note"@)
            }
        },
{
    if v@.get("rooms"@) is Some {
        assert(fields.drop_last() =~= Seq::<(Seq<char>, JsonView)>::empty());
        assert(fields.last() == fields[0]);
        let none = Map::<Seq<char>, RoomView>::empty();
        assert(crate::rooms::rooms_in(fields.drop_last()) == Ok::<
            Map<Seq<char>, RoomView>,
            Seq<char>,
        >(none));
    }
}

} // verus!
