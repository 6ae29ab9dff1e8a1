//! Named drops, so nobody types a ticket twice.
//!
//! A *room* is just a saved ticket under a name you chose. The first exchange with someone
//! still needs one string; after that, `--room team` is enough.

use crate::config::{Environment, FileRead, TextFile};
use crate::error::{SdkError, SdkErrorView};
use crate::json::{
    field, field_views, has_quote_run, names_rise, object, parse_toml, quote_run, toml_document,
    toml_in, toml_row, toml_rows, toml_text, write_toml, Json, JsonView,
};
use crate::order::{
    arrange, arranged_has_the_same, arranged_is_strict, comes_before, text_before,
    text_before_asymmetric, text_before_irreflexive, text_not_before_transitive, Ranked,
};
use crate::path::{below, join_path, parent, parent_text};
use crate::table::{keys_ascend, map_of, rows_are_the_map, Table};
use crate::text::{copy_text, opt_text, quote, quoted, utf8_len};
use vstd::prelude::*;

verus! {

/// One saved drop.
#[derive(Debug)]
pub struct Room {
    /// The most recent ticket we know for this drop.
    pub ticket: String,
    /// Unix seconds when the room was first saved.
    pub created_at: u64,
    /// Unix seconds when the room was last joined.
    pub last_used: u64,
    /// Optional human note (defaults to the ticket's display name).
    pub note: Option<String>,
}

/// The model of a [`Room`].
#[verifier::ext_equal]
pub struct RoomView {
    /// The most recent ticket.
    pub ticket: Seq<char>,
    /// When the room was first saved.
    pub created_at: u64,
    /// When the room was last joined.
    pub last_used: u64,
    /// The note.
    pub note: Option<Seq<char>>,
}

impl View for Room {
    type V = RoomView;

    open spec fn view(&self) -> RoomView {
        RoomView {
            ticket: self.ticket@,
            created_at: self.created_at,
            last_used: self.last_used,
            note: opt_text(self.note),
        }
    }
}

/// The room book.
#[derive(Debug)]
pub struct Rooms {
    rooms: Table<Room>,
}

/// The models of rooms by name.
pub open spec fn book_of(rooms: Map<Seq<char>, Room>) -> Map<Seq<char>, RoomView> {
    rooms.map_values(|room: Room| room@)
}

/// A line of the listing of rooms.
#[derive(Debug)]
pub struct ListedRoom<'a> {
    /// The name of the room.
    pub name: &'a String,
    /// The room.
    pub room: &'a Room,
}

/// Whether `a` stands before `b` in a listing: it was used more recently, or at the same time
/// and its name comes first.
pub open spec fn listed_before(a: ListedRoom<'_>, b: ListedRoom<'_>) -> bool {
    a.room.last_used > b.room.last_used || (a.room.last_used == b.room.last_used && text_before(
        a.name@,
        b.name@,
    ))
}

impl<'a> Ranked for ListedRoom<'a> {
    open spec fn ranks_before(&self, other: &Self) -> bool {
        listed_before(*self, *other)
    }

    fn precedes(&self, other: &Self) -> (r: bool) {
        self.room.last_used > other.room.last_used || (self.room.last_used == other.room.last_used
            && comes_before(self.name.as_str(), other.name.as_str()))
    }

    proof fn rank_is_asymmetric(a: Self, b: Self) {
        if text_before(a.name@, b.name@) {
            text_before_asymmetric(a.name@, b.name@);
        }
    }

    proof fn rank_is_total(a: Self, b: Self, c: Self) {
        if a.room.last_used == b.room.last_used && b.room.last_used == c.room.last_used {
            text_not_before_transitive(a.name@, b.name@, c.name@);
        }
    }
}

/// A room, as a structured value; a note that is not there is left out.
pub open spec fn room_json(room: RoomView) -> JsonView {
    let times = object().with("created_at"@, JsonView::Unsigned(room.created_at)).with(
        "last_used"@,
        JsonView::Unsigned(room.last_used),
    );
    let noted = match room.note {
        Some(note) => times.with("note"@, JsonView::Text(note)),
        None => times,
    };
    noted.with("ticket"@, JsonView::Text(room.ticket))
}

/// Rooms under their names, as structured values.
pub open spec fn room_fields(rows: Seq<(Seq<char>, RoomView)>) -> Seq<(Seq<char>, JsonView)> {
    Seq::new(rows.len(), |i: int| (rows[i].0, room_json(rows[i].1)))
}

/// The room book, as a structured value.
pub open spec fn book_json(rows: Seq<(Seq<char>, RoomView)>) -> JsonView {
    object().with("rooms"@, JsonView::Object(room_fields(rows)))
}

/// The rooms by name.
pub open spec fn rows_book(rows: Seq<(Seq<char>, RoomView)>) -> Map<Seq<char>, RoomView>
    decreases rows.len(),
{
    if rows.len() == 0 {
        Map::empty()
    } else {
        rows_book(rows.drop_last()).insert(rows.last().0, rows.last().1)
    }
}

/// Whether these are the rooms of a book, in the order of their names.
pub open spec fn lists(
    rows: Seq<(Seq<char>, RoomView)>,
    book: Map<Seq<char>, RoomView>,
) -> bool {
    &&& forall|i: int, j: int|
        0 <= i < j < rows.len() ==> text_before(#[trigger] rows[i].0, #[trigger] rows[j].0)
    &&& rows_book(rows) == book
}

/// The room that a structured value is, or why it is none: it has a ticket and two times, and a
/// note or none.
pub open spec fn room_in(name: Seq<char>, v: JsonView) -> Result<RoomView, Seq<char>> {
    match v.text_at("ticket"@) {
        None => Err(bad_room(name, "ticket"@)),
        Some(ticket) => match v.number_at("created_at"@) {
            None => Err(bad_room(name, "created_at"@)),
            Some(created_at) => match v.number_at("last_used"@) {
                None => Err(bad_room(name, "last_used"@)),
                Some(last_used) => match v.get("note"@) {
                    None => Ok(RoomView { ticket, created_at, last_used, note: None }),
                    Some(JsonView::Text(note)) => Ok(
                        RoomView { ticket, created_at, last_used, note: Some(note) },
                    ),
                    Some(_) => Err(bad_room(name, "note"@)),
                },
            },
        },
    }
}

/// Why a room cannot be read.
pub open spec fn bad_room(name: Seq<char>, key: Seq<char>) -> Seq<char> {
    "room "@ + quoted(name) + ": missing or invalid `"@ + key + "`"@
}

/// The rooms that structured values are, or what is wrong with the first that is none.
pub open spec fn rooms_in(fields: Seq<(Seq<char>, JsonView)>) -> Result<
    Map<Seq<char>, RoomView>,
    Seq<char>,
>
    decreases fields.len(),
{
    if fields.len() == 0 {
        Ok(Map::empty())
    } else {
        match rooms_in(fields.drop_last()) {
            Ok(book) => match room_in(fields.last().0, fields.last().1) {
                Ok(room) => Ok(book.insert(fields.last().0, room)),
                Err(why) => Err(why),
            },
            Err(why) => Err(why),
        }
    }
}

/// The room book that a structured value is, or why it is none. Other entries are ignored.
pub open spec fn book_in(v: JsonView) -> Result<Map<Seq<char>, RoomView>, Seq<char>> {
    match v.get("rooms"@) {
        None => Ok(Map::empty()),
        Some(JsonView::Object(fields)) => rooms_in(fields),
        Some(_) => Err("`rooms` is not a table"@),
    }
}

/// The room book that a file with this text holds, or why it holds none.
pub open spec fn book_of_text(text: Seq<char>) -> Result<Map<Seq<char>, RoomView>, Seq<char>> {
    match toml_in(text) {
        Ok(v) => book_in(v),
        Err(why) => Err(why),
    }
}

/// Whether this is what comes of reading the room book at `path`: an empty one where there is no
/// such file, and an error where it cannot be read.
pub open spec fn loads(path: Seq<char>, read: FileRead, r: Result<Rooms, SdkError>) -> bool {
    match read {
        FileRead::Text(text) => match book_of_text(text@) {
            Ok(book) => r is Ok && r->Ok_0.book() == book,
            Err(why) => r is Err && r->Err_0@ == SdkErrorView::Config(path + ": "@ + why),
        },
        FileRead::Missing => r is Ok && r->Ok_0.book() == Map::<Seq<char>, RoomView>::empty(),
        FileRead::Failed(why) => r is Err && r->Err_0@ == SdkErrorView::Config(
            path + ": "@ + why@,
        ),
    }
}

/// Whether the texts of a room can be written as TOML.
pub open spec fn room_texts_fit(room: RoomView) -> bool {
    !quote_run(room.ticket) && (room.note is Some ==> !quote_run(room.note->0))
}

/// Whether the texts in a book can be written as TOML.
pub open spec fn texts_fit(book: Map<Seq<char>, RoomView>) -> bool {
    forall|name: Seq<char>| #[trigger] book.contains_key(name) ==> room_texts_fit(book[name])
}

/// Whether TOML integers hold the times of a room.
pub open spec fn room_times_fit(room: RoomView) -> bool {
    room.created_at <= i64::MAX && room.last_used <= i64::MAX
}

/// Whether TOML integers hold the times in a book.
pub open spec fn times_fit(book: Map<Seq<char>, RoomView>) -> bool {
    forall|name: Seq<char>| #[trigger] book.contains_key(name) ==> room_times_fit(book[name])
}

/// The models of a table's rows.
spec fn row_views(entries: Seq<(String, Room)>) -> Seq<(Seq<char>, RoomView)> {
    Seq::new(entries.len(), |i: int| (entries[i].0@, entries[i].1@))
}

proof fn lemma_rows_are_the_book(entries: Seq<(String, Room)>)
    requires
        keys_ascend(entries),
    ensures
        lists(row_views(entries), book_of(map_of(entries))),
    decreases entries.len(),
{
    let rows = row_views(entries);
    if entries.len() > 0 {
        let front = entries.drop_last();
        assert forall|i: int, j: int| 0 <= i < j < front.len() implies text_before(
            #[trigger] front[i].0@,
            #[trigger] front[j].0@,
        ) by {
            assert(front[i] == entries[i] && front[j] == entries[j]);
        }
        lemma_rows_are_the_book(front);
        assert(rows.drop_last() =~= row_views(front));
        assert(rows_book(rows) =~= book_of(map_of(entries)));
    } else {
        assert(rows_book(rows) =~= book_of(map_of(entries)));
    }
    assert forall|i: int, j: int| 0 <= i < j < rows.len() implies text_before(
        #[trigger] rows[i].0,
        #[trigger] rows[j].0,
    ) by {
        assert(text_before(entries[i].0@, entries[j].0@));
    }
}

proof fn lemma_rows_in_the_book(rows: Seq<(Seq<char>, RoomView)>)
    requires
        lists(rows, rows_book(rows)),
    ensures
        forall|i: int|
            0 <= i < rows.len() ==> rows_book(rows).contains_key((#[trigger] rows[i]).0)
                && rows_book(rows)[rows[i].0] == rows[i].1,
    decreases rows.len(),
{
    if rows.len() > 0 {
        let front = rows.drop_last();
        assert forall|i: int, j: int| 0 <= i < j < front.len() implies text_before(
            #[trigger] front[i].0,
            #[trigger] front[j].0,
        ) by {
            assert(front[i] == rows[i] && front[j] == rows[j]);
        }
        lemma_rows_in_the_book(front);
        assert forall|i: int| 0 <= i < rows.len() implies rows_book(rows).contains_key(
            (#[trigger] rows[i]).0,
        ) && rows_book(rows)[rows[i].0] == rows[i].1 by {
            if i < front.len() {
                assert(front[i] == rows[i]);
                assert(text_before(rows[i].0, rows[rows.len() - 1].0));
                text_before_irreflexive(rows[i].0);
            }
        }
    }
}

proof fn lemma_room(name: Seq<char>, room: RoomView)
    ensures
        room_in(name, room_json(room)) == Ok::<RoomView, Seq<char>>(room),
        room_texts_fit(room) && room_times_fit(room) ==> toml_row(room_json(room)),
{
    reveal_with_fuel(field, 5);
    reveal_with_fuel(text_before, 2);
    reveal_strlit("created_at");
    reveal_strlit("last_used");
    reveal_strlit("note");
    reveal_strlit("ticket");
    assert("created_at"@[0] < "last_used"@[0] && "last_used"@[0] < "note"@[0] && "note"@[0]
        < "ticket"@[0]);
    let fields = room_json(room)->Object_0;
    match room.note {
        Some(note) => {
            assert(fields =~= seq![
                ("created_at"@, JsonView::Unsigned(room.created_at)),
                ("last_used"@, JsonView::Unsigned(room.last_used)),
                ("note"@, JsonView::Text(note)),
                ("ticket"@, JsonView::Text(room.ticket)),
            ]);
        },
        None => {
            assert(fields =~= seq![
                ("created_at"@, JsonView::Unsigned(room.created_at)),
                ("last_used"@, JsonView::Unsigned(room.last_used)),
                ("ticket"@, JsonView::Text(room.ticket)),
            ]);
        },
    }
}

proof fn lemma_rooms(rows: Seq<(Seq<char>, RoomView)>)
    ensures
        rooms_in(room_fields(rows)) == Ok::<Map<Seq<char>, RoomView>, Seq<char>>(rows_book(rows)),
    decreases rows.len(),
{
    if rows.len() > 0 {
        lemma_rooms(rows.drop_last());
        lemma_room(rows.last().0, rows.last().1);
        assert(room_fields(rows).drop_last() =~= room_fields(rows.drop_last()));
    }
}

/// A room book reads back as it was.
pub proof fn a_book_reads_back(rows: Seq<(Seq<char>, RoomView)>)
    ensures
        book_in(book_json(rows)) == Ok::<Map<Seq<char>, RoomView>, Seq<char>>(rows_book(rows)),
{
    reveal_with_fuel(field, 2);
    let fields = book_json(rows)->Object_0;
    assert(fields =~= seq![("rooms"@, JsonView::Object(room_fields(rows)))]);
    lemma_rooms(rows);
}

proof fn lemma_book_document(rows: Seq<(Seq<char>, RoomView)>)
    requires
        lists(rows, rows_book(rows)),
        forall|i: int|
            0 <= i < rows.len() ==> room_texts_fit((#[trigger] rows[i]).1) && room_times_fit(
                rows[i].1,
            ),
    ensures
        toml_document(book_json(rows)),
{
    let listed = JsonView::Object(room_fields(rows));
    assert forall|i: int| 0 <= i < rows.len() implies toml_row(
        (#[trigger] room_fields(rows)[i]).1,
    ) by {
        assert(room_texts_fit(rows[i].1));
        lemma_room(rows[i].0, rows[i].1);
    }
    assert(names_rise(room_fields(rows))) by {
        assert forall|i: int, j: int| 0 <= i < j < rows.len() implies text_before(
            #[trigger] room_fields(rows)[i].0,
            #[trigger] room_fields(rows)[j].0,
        ) by {
            assert(text_before(rows[i].0, rows[j].0));
        }
    }
    assert(toml_rows(listed));
    let fields = book_json(rows)->Object_0;
    assert(fields =~= seq![("rooms"@, listed)]);
}

proof fn lemma_first_fault(fields: Seq<(Seq<char>, JsonView)>, n: int)
    requires
        0 <= n <= fields.len(),
        rooms_in(fields.take(n)) is Err,
    ensures
        rooms_in(fields) == rooms_in(fields.take(n)),
    decreases fields.len(),
{
    if n == fields.len() {
        assert(fields.take(n) =~= fields);
    } else {
        assert(fields.drop_last().take(n) =~= fields.take(n));
        lemma_first_fault(fields.drop_last(), n);
    }
}

/// A book that was saved and is loaded from what was written is the same: as many rooms, and
/// each with its ticket, its times and its note.
pub proof fn a_saved_book_is_loaded_again(
    before: Rooms,
    path: Seq<char>,
    file: TextFile,
    after: Result<Rooms, SdkError>,
)
    requires
        before.saves(path, Ok(file)),
        loads(path, FileRead::Text(file.text), after),
    ensures
        after is Ok,
        after->Ok_0.book() == before.book(),
        after->Ok_0.book().dom().len() == before.book().dom().len(),
        forall|name: Seq<char>| #[trigger]
            before.book().contains_key(name) ==> after->Ok_0.book().contains_key(name)
                && after->Ok_0.book()[name] == before.book()[name],
{
}

fn room_to_json(room: &Room) -> (r: Json)
    ensures
        r@ == room_json(room@),
{
    let times = Json::object().with("created_at", Json::Unsigned(room.created_at)).with(
        "last_used",
        Json::Unsigned(room.last_used),
    );
    let noted = match &room.note {
        Some(note) => times.with("note", Json::text(note.as_str())),
        None => times,
    };
    noted.with("ticket", Json::text(room.ticket.as_str()))
}

fn bad_field(name: &str, key: &str) -> (r: String)
    ensures
        r@ == bad_room(name@, key@),
{
    "room ".to_owned().concat(quote(name).as_str()).concat(": missing or invalid `").concat(
        key,
    ).concat("`")
}

fn room_from_json(name: &str, v: &Json) -> (r: Result<Room, String>)
    ensures
        match r {
            Ok(room) => room_in(name@, v@) == Ok::<RoomView, Seq<char>>(room@),
            Err(why) => room_in(name@, v@) == Err::<RoomView, Seq<char>>(why@),
        },
{
    let ticket = match v.text_at("ticket") {
        Some(ticket) => ticket.to_owned(),
        None => {
            return Err(bad_field(name, "ticket"));
        },
    };
    let created_at: u64 = match v.number_at("created_at") {
        Some(time) => time,
        None => {
            return Err(bad_field(name, "created_at"));
        },
    };
    let last_used: u64 = match v.number_at("last_used") {
        Some(time) => time,
        None => {
            return Err(bad_field(name, "last_used"));
        },
    };
    match v.get("note") {
        None => Ok(Room { ticket, created_at, last_used, note: None }),
        Some(Json::Text(note)) => Ok(
            Room { ticket, created_at, last_used, note: Some(note.clone()) },
        ),
        Some(_) => Err(bad_field(name, "note")),
    }
}

/// What a room becomes when it is saved again (or for the first time).
pub open spec fn saved_room(
    before: Option<RoomView>,
    ticket: Seq<char>,
    display_name: Option<Seq<char>>,
    now: u64,
) -> RoomView {
    match before {
        Some(room) => RoomView {
            ticket,
            created_at: room.created_at,
            last_used: now,
            note: if room.note is None {
                display_name
            } else {
                room.note
            },
        },
        None => RoomView { ticket, created_at: now, last_used: now, note: display_name },
    }
}

impl Rooms {
    /// The rooms by name.
    pub closed spec fn book(&self) -> Map<Seq<char>, RoomView> {
        book_of(self.rooms@)
    }

    /// An empty book.
    pub fn new() -> (r: Rooms)
        ensures
            r.book() == Map::<Seq<char>, RoomView>::empty(),
    {
        let r = Rooms { rooms: Table::new() };
        assert(r.book() =~= Map::<Seq<char>, RoomView>::empty());
        r
    }

    /// Default location of the room book.
    pub fn default_path(env: &Environment) -> (r: String)
        ensures
            r@ == below(env.data_text(), "rooms.toml"@),
    {
        join_path(env.data_dir().as_str(), "rooms.toml")
    }

    /// The room book from its default location, or an empty one if it does not exist yet.
    pub fn load(env: &Environment, read: &FileRead) -> (r: Result<Rooms, SdkError>)
        ensures
            loads(below(env.data_text(), "rooms.toml"@), *read, r),
    {
        let path = Self::default_path(env);
        Self::load_from(path.as_str(), read)
    }

    /// The room book from a specific file, or an empty one if it does not exist.
    pub fn load_from(path: &str, read: &FileRead) -> (r: Result<Rooms, SdkError>)
        ensures
            loads(path@, *read, r),
    {
        let why = match read {
            FileRead::Text(text) => match parse_toml(text.as_str()) {
                Ok(v) => match Self::from_json(&v) {
                    Ok(rooms) => {
                        return Ok(rooms);
                    },
                    Err(why) => why,
                },
                Err(why) => why,
            },
            FileRead::Missing => {
                return Ok(Rooms::new());
            },
            FileRead::Failed(why) => why.clone(),
        };
        Err(SdkError::Config(path.to_owned().concat(": ").concat(why.as_str())))
    }

    /// The room book that a structured value is, or why it is none.
    pub fn from_json(v: &Json) -> (r: Result<Rooms, String>)
        ensures
            match r {
                Ok(rooms) => book_in(v@) == Ok::<Map<Seq<char>, RoomView>, Seq<char>>(rooms.book()),
                Err(why) => book_in(v@) == Err::<Map<Seq<char>, RoomView>, Seq<char>>(why@),
            },
    {
        let mut rooms = Rooms::new();
        let fields = match v.get("rooms") {
            None => {
                return Ok(rooms);
            },
            Some(Json::Object(fields)) => fields,
            Some(_) => {
                return Err("`rooms` is not a table".to_owned());
            },
        };
        let ghost all = field_views(fields@);
        assert(v@.get("rooms"@) == Some(JsonView::Object(all))) by {
            assert(v@.get("rooms"@)->0->Object_0 =~= all);
        }
        let mut i: usize = 0;
        assert(all.take(0) =~= Seq::<(Seq<char>, JsonView)>::empty());
        while i < fields.len()
            invariant
                i <= fields@.len(),
                all == field_views(fields@),
                v@.get("rooms"@) == Some(JsonView::Object(all)),
                rooms_in(all.take(i as int)) == Ok::<Map<Seq<char>, RoomView>, Seq<char>>(
                    rooms.book(),
                ),
            decreases fields@.len() - i,
        {
            assert(all.take(i + 1).drop_last() =~= all.take(i as int));
            assert(all.take(i + 1).last() == all[i as int]);
            let name = fields[i].0.as_str();
            match room_from_json(name, &fields[i].1) {
                Ok(room) => {
                    rooms.put(name, room);
                },
                Err(why) => {
                    proof {
                        lemma_first_fault(all, i + 1);
                    }
                    return Err(why);
                },
            }
            i += 1;
        }
        assert(all.take(i as int) =~= all);
        Ok(rooms)
    }

    /// The room book as a structured value: the rooms in the order of their names.
    pub fn to_json(&self) -> (r: Json)
        ensures
            exists|rows: Seq<(Seq<char>, RoomView)>| #[trigger]
                lists(rows, self.book()) && r@ == book_json(rows),
    {
        let count: usize = self.rooms.len();
        let ghost entries = self.rooms.entries();
        let ghost rows = row_views(entries);
        let mut fields: Vec<(String, Json)> = Vec::new();
        let mut i: usize = 0;
        while i < count
            invariant
                i <= count == entries.len(),
                entries == self.rooms.entries(),
                rows == row_views(entries),
                field_views(fields@) == room_fields(rows).take(i as int),
            decreases count - i,
        {
            let entry = self.rooms.row(i);
            let ghost before = fields@;
            let v = room_to_json(&entry.1);
            fields.push((entry.0.clone(), v));
            assert(field_views(fields@) =~= field_views(before).push((entry.0@, v@)));
            assert(field_views(fields@) =~= room_fields(rows).take(i + 1));
            i += 1;
        }
        assert(room_fields(rows).take(i as int) =~= room_fields(rows));
        let listed = Json::Object(fields);
        assert(listed@->Object_0 =~= room_fields(rows));
        proof {
            lemma_rows_are_the_book(entries);
            assert(lists(rows, self.book()));
        }
        Json::object().with("rooms", listed)
    }

    /// Whether the texts in the book can be written as TOML.
    pub fn writable(&self) -> (r: bool)
        ensures
            r == texts_fit(self.book()),
    {
        let count: usize = self.rooms.len();
        let ghost entries = self.rooms.entries();
        proof {
            rows_are_the_map(entries);
        }
        let mut i: usize = 0;
        while i < count
            invariant
                i <= count == entries.len(),
                entries == self.rooms.entries(),
                keys_ascend(entries),
                forall|k: int| 0 <= k < i ==> room_texts_fit((#[trigger] entries[k]).1@),
            decreases count - i,
        {
            let entry = self.rooms.row(i);
            let noted = match &entry.1.note {
                Some(note) => has_quote_run(note.as_str()),
                None => false,
            };
            if noted || has_quote_run(entry.1.ticket.as_str()) {
                assert(self.book().contains_key(entry.0@));
                assert(!room_texts_fit(self.book()[entry.0@]));
                return false;
            }
            i += 1;
        }
        assert forall|name: Seq<char>| #[trigger]
            self.book().contains_key(name) implies room_texts_fit(self.book()[name]) by {
            rows_are_the_map(entries);
            assert(map_of(entries).contains_key(name));
            let k = choose|k: int| 0 <= k < entries.len() && (#[trigger] entries[k]).0@ == name;
        }
        true
    }

    fn times_written(&self) -> (r: bool)
        ensures
            r == times_fit(self.book()),
    {
        let count: usize = self.rooms.len();
        let ghost entries = self.rooms.entries();
        proof {
            rows_are_the_map(entries);
        }
        let mut i: usize = 0;
        while i < count
            invariant
                i <= count == entries.len(),
                entries == self.rooms.entries(),
                keys_ascend(entries),
                forall|k: int| 0 <= k < i ==> room_times_fit((#[trigger] entries[k]).1@),
            decreases count - i,
        {
            let entry = self.rooms.row(i);
            if entry.1.created_at > i64::MAX as u64 || entry.1.last_used > i64::MAX as u64 {
                assert(self.book().contains_key(entry.0@));
                assert(!room_times_fit(self.book()[entry.0@]));
                return false;
            }
            i += 1;
        }
        assert forall|name: Seq<char>| #[trigger]
            self.book().contains_key(name) implies room_times_fit(self.book()[name]) by {
            rows_are_the_map(entries);
            assert(map_of(entries).contains_key(name));
            let k = choose|k: int| 0 <= k < entries.len() && (#[trigger] entries[k]).0@ == name;
        }
        true
    }

    /// How to write the room book to its default location. The book reads back from it as it is.
    pub fn save(&self, env: &Environment) -> (r: Result<TextFile, SdkError>)
        requires
            texts_fit(self.book()),
        ensures
            self.saves(below(env.data_text(), "rooms.toml"@), r),
    {
        let path = Self::default_path(env);
        self.save_to(path.as_str())
    }

    /// How to write the room book to a specific path. A time that no TOML integer holds cannot
    /// be written.
    pub fn save_to(&self, path: &str) -> (r: Result<TextFile, SdkError>)
        requires
            texts_fit(self.book()),
        ensures
            self.saves(path@, r),
    {
        if !self.times_written() {
            return Err(SdkError::Config("out-of-range value for u64 type".to_owned()));
        }
        let v = self.to_json();
        proof {
            let rows = choose|rows: Seq<(Seq<char>, RoomView)>| #[trigger]
                lists(rows, self.book()) && v@ == book_json(rows);
            lemma_rows_in_the_book(rows);
            assert forall|i: int| 0 <= i < rows.len() implies room_texts_fit(
                (#[trigger] rows[i]).1,
            ) && room_times_fit(rows[i].1) by {
                assert(self.book().contains_key(rows[i].0));
            }
            lemma_book_document(rows);
            a_book_reads_back(rows);
        }
        let text = write_toml(&v);
        Ok(TextFile { path: path.to_owned(), dir: parent(path), text })
    }

    /// Whether this is what comes of saving the book: the file to write, with a text from which
    /// the same book is read, or an error where some time cannot be written.
    pub open spec fn saves(self, path: Seq<char>, r: Result<TextFile, SdkError>) -> bool {
        match r {
            Ok(file) => {
                &&& times_fit(self.book())
                &&& file.path@ == path
                &&& opt_text(file.dir) == parent_text(path)
                &&& exists|rows: Seq<(Seq<char>, RoomView)>| #[trigger]
                    lists(rows, self.book()) && file.text@ == toml_text(book_json(rows))
                &&& book_of_text(file.text@) == Ok::<Map<Seq<char>, RoomView>, Seq<char>>(
                    self.book(),
                )
            },
            Err(e) => {
                &&& !times_fit(self.book())
                &&& e@ == SdkErrorView::Config("out-of-range value for u64 type"@)
            },
        }
    }

    /// Look up a room by name.
    pub fn get(&self, name: &str) -> (r: Option<&Room>)
        ensures
            match r {
                Some(room) => self.book().contains_key(name@) && self.book()[name@] == room@,
                None => !self.book().contains_key(name@),
            },
    {
        self.rooms.get(name)
    }

    /// The text of the ticket saved for a room.
    pub fn ticket(&self, name: &str) -> (r: Result<&str, SdkError>)
        ensures
            match r {
                Ok(ticket) => self.book().contains_key(name@) && self.book()[name@].ticket
                    == ticket@,
                Err(e) => !self.book().contains_key(name@) && e@ == SdkErrorView::Pick(
                    "no room named "@ + quoted(name@) + "; try `rooms`"@,
                ),
            },
    {
        match self.get(name) {
            Some(room) => Ok(room.ticket.as_str()),
            None => Err(
                SdkError::Pick(
                    "no room named ".to_owned().concat(quote(name).as_str()).concat(
                        "; try `rooms`",
                    ),
                ),
            ),
        }
    }

    /// The error for a saved ticket that cannot be read.
    pub fn unusable_ticket(name: &str, why: &str) -> (r: SdkError)
        ensures
            r@ == SdkErrorView::Config(
                "room "@ + quoted(name@) + " has an unusable ticket: "@ + why@,
            ),
    {
        SdkError::Config(
            "room ".to_owned().concat(quote(name).as_str()).concat(
                " has an unusable ticket: ",
            ).concat(why),
        )
    }

    /// All rooms, most recently used first; rooms used at the same time in the order of
    /// their names.
    pub fn list(&self) -> (r: Vec<ListedRoom<'_>>)
        ensures
            self.book().dom().finite(),
            r@.len() == self.book().dom().len(),
            forall|i: int|
                0 <= i < r@.len() ==> self.book().contains_key((#[trigger] r@[i]).name@)
                    && self.book()[r@[i].name@] == r@[i].room@,
            forall|name: Seq<char>| #[trigger]
                self.book().contains_key(name) ==> exists|i: int|
                    0 <= i < r@.len() && (#[trigger] r@[i]).name@ == name,
            forall|i: int, j: int|
                0 <= i < j < r@.len() ==> (#[trigger] r@[i]).name@ != (#[trigger] r@[j]).name@,
            forall|i: int, j: int|
                0 <= i < j < r@.len() ==> listed_before(#[trigger] r@[i], #[trigger] r@[j]),
    {
        let count: usize = self.rooms.len();
        let ghost entries = self.rooms.entries();
        let mut rows: Vec<ListedRoom<'_>> = Vec::new();
        let mut i: usize = 0;
        while i < count
            invariant
                i <= count == entries.len(),
                entries == self.rooms.entries(),
                rows@.len() == i,
                forall|k: int|
                    0 <= k < i ==> *(#[trigger] rows@[k]).name == entries[k].0 && *rows@[k].room
                        == entries[k].1,
            decreases count - i,
        {
            let entry = self.rooms.row(i);
            rows.push(ListedRoom { name: &entry.0, room: &entry.1 });
            i += 1;
        }
        let ghost all = rows@;
        let sorted = arrange(rows);
        proof {
            rows_are_the_map(entries);
            assert(self.book().dom() =~= self.rooms@.dom());
            arranged_has_the_same(all);
            assert forall|i: int, j: int| 0 <= i < j < all.len() implies (
            #[trigger] all[i]).ranks_before(#[trigger] &all[j]) || all[j].ranks_before(
                &all[i],
            ) by {
                assert(text_before(entries[i].0@, entries[j].0@));
            }
            arranged_is_strict(all);
            assert forall|i: int| 0 <= i < sorted@.len() implies self.book().contains_key(
                (#[trigger] sorted@[i]).name@,
            ) && self.book()[sorted@[i].name@] == sorted@[i].room@ by {
                assert(all.contains(sorted@[i]));
                let k = choose|k: int| 0 <= k < all.len() && all[k] == sorted@[i];
                assert(self.rooms@.contains_key(entries[k].0@));
            }
            assert forall|name: Seq<char>| #[trigger]
                self.book().contains_key(name) implies exists|i: int|
                0 <= i < sorted@.len() && (#[trigger] sorted@[i]).name@ == name by {
                assert(map_of(entries).contains_key(name));
                let k = choose|k: int| 0 <= k < entries.len() && (#[trigger] entries[k]).0@ == name;
                assert(sorted@.contains(all[k]));
                let i = choose|i: int| 0 <= i < sorted@.len() && sorted@[i] == all[k];
                assert(sorted@[i].name@ == name);
            }
            assert forall|i: int, j: int| 0 <= i < j < sorted@.len() implies listed_before(
                #[trigger] sorted@[i],
                #[trigger] sorted@[j],
            ) && sorted@[i].name@ != sorted@[j].name@ by {
                assert(sorted@[i].ranks_before(&sorted@[j]));
                let x = choose|k: int| 0 <= k < all.len() && all[k] == sorted@[i];
                let y = choose|k: int| 0 <= k < all.len() && all[k] == sorted@[j];
                assert(all.contains(sorted@[i]) && all.contains(sorted@[j]));
                text_before_irreflexive(sorted@[i].name@);
                if sorted@[i].name@ == sorted@[j].name@ {
                    assert(entries[x].1 == entries[y].1);
                }
            }
        }
        sorted
    }

    /// Save (or refresh) a room. Keeps the original creation time and note.
    pub fn set(&mut self, name: &str, ticket: &str, display_name: &Option<String>, now: u64)
        requires
            1 <= utf8_len(name@) <= 64,
        ensures
            final(self).book() == old(self).book().insert(
                name@,
                saved_room(
                    if old(self).book().contains_key(name@) {
                        Some(old(self).book()[name@])
                    } else {
                        None
                    },
                    ticket@,
                    opt_text(*display_name),
                    now,
                ),
            ),
    {
        let fresh = match self.get(name) {
            Some(room) => Room {
                ticket: ticket.to_owned(),
                created_at: room.created_at,
                last_used: now,
                note: match &room.note {
                    Some(note) => Some(note.clone()),
                    None => copy_text(display_name),
                },
            },
            None => Room {
                ticket: ticket.to_owned(),
                created_at: now,
                last_used: now,
                note: copy_text(display_name),
            },
        };
        self.put(name, fresh);
    }

    /// Enters a room as it is, in place of any other of that name.
    pub fn put(&mut self, name: &str, room: Room)
        ensures
            final(self).book() == old(self).book().insert(name@, room@),
    {
        self.rooms.insert(name, room);
        assert(self.book() =~= old(self).book().insert(name@, room@));
    }

    /// Forget a room. Returns whether it existed.
    pub fn remove(&mut self, name: &str) -> (r: bool)
        ensures
            r == old(self).book().contains_key(name@),
            final(self).book() == old(self).book().remove(name@),
            old(self).book().dom().finite(),
            final(self).book().dom().len() == old(self).book().dom().len() - (if r {
                1int
            } else {
                0int
            }),
    {
        let r = self.rooms.remove(name).is_some();
        assert(self.book() =~= old(self).book().remove(name@));
        assert(old(self).book().dom() =~= old(self).rooms@.dom());
        assert(self.book().dom() =~= old(self).book().dom().remove(name@));
        r
    }

    /// Number of saved rooms.
    pub fn len(&self) -> (r: usize)
        ensures
            self.book().dom().finite(),
            r == self.book().dom().len(),
    {
        assert(self.book().dom() =~= self.rooms@.dom());
        self.rooms.len()
    }

    /// Whether the book is empty.
    pub fn is_empty(&self) -> (r: bool)
        ensures
            r == (self.book() == Map::<Seq<char>, RoomView>::empty()),
    {
        let n = self.rooms.len();
        proof {
            if n == 0 {
                assert(self.book() =~= Map::<Seq<char>, RoomView>::empty());
            } else {
                rows_are_the_map(self.rooms.entries());
                assert(self.book().contains_key(self.rooms.entries()[0].0@));
            }
        }
        n == 0
    }
}

/// Refreshing a room keeps when it was first saved, and the note it has, whatever the new
/// ticket says.
pub proof fn refreshing_keeps_history(
    first: RoomView,
    ticket: Seq<char>,
    display_name: Option<Seq<char>>,
    now: u64,
)
    ensures
        saved_room(Some(first), ticket, display_name, now).created_at == first.created_at,
        first.note is Some ==> saved_room(Some(first), ticket, display_name, now).note
            == first.note,
        saved_room(Some(first), ticket, display_name, now).ticket == ticket,
{
}

} // verus!
