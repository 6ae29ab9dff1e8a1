//! Structured values, as they travel between the daemon and its clients.

use crate::order::text_before;
use crate::text::{chars_of, decimal, same, texts};
use serde_json::Value;
use vstd::prelude::*;

verus! {

/// A structured value.
#[derive(Debug)]
pub enum Json {
    /// Nothing.
    Null,
    /// A truth value.
    Bool(bool),
    /// A number that is not negative and has no fraction.
    Unsigned(u64),
    /// A negative number without a fraction.
    Negative(i64),
    /// Any other number, as it is written.
    Decimal(String),
    /// A text.
    Text(String),
    /// A list of values.
    List(Vec<Json>),
    /// Named values, in the order in which they were added.
    Object(Vec<(String, Json)>),
}

/// The model of a [`Json`].
#[verifier::ext_equal]
pub enum JsonView {
    /// Nothing.
    Null,
    /// A truth value.
    Bool(bool),
    /// A number that is not negative and has no fraction.
    Unsigned(u64),
    /// A negative number without a fraction.
    Negative(i64),
    /// Any other number, as it is written.
    Decimal(Seq<char>),
    /// A text.
    Text(Seq<char>),
    /// A list of values.
    List(Seq<JsonView>),
    /// Named values.
    Object(Seq<(Seq<char>, JsonView)>),
}

impl View for Json {
    type V = JsonView;

    open spec fn view(&self) -> JsonView {
        json_view(*self)
    }
}

/// The model of `v`.
pub open spec fn json_view(v: Json) -> JsonView
    decreases v,
{
    match v {
        Json::Null => JsonView::Null,
        Json::Bool(b) => JsonView::Bool(b),
        Json::Unsigned(n) => JsonView::Unsigned(n),
        Json::Negative(n) => JsonView::Negative(n),
        Json::Decimal(s) => JsonView::Decimal(s@),
        Json::Text(s) => JsonView::Text(s@),
        Json::List(items) => JsonView::List(
            Seq::new(
                items@.len(),
                |i: int|
                    if 0 <= i < items@.len() {
                        json_view(items@[i])
                    } else {
                        JsonView::Null
                    },
            ),
        ),
        Json::Object(fields) => JsonView::Object(
            Seq::new(
                fields@.len(),
                |i: int|
                    if 0 <= i < fields@.len() {
                        (fields@[i].0@, json_view(fields@[i].1))
                    } else {
                        (Seq::empty(), JsonView::Null)
                    },
            ),
        ),
    }
}

/// The models of a list of values.
pub open spec fn json_views(s: Seq<Json>) -> Seq<JsonView> {
    Seq::new(s.len(), |i: int| s[i]@)
}

/// The models of named values.
pub open spec fn field_views(s: Seq<(String, Json)>) -> Seq<(Seq<char>, JsonView)> {
    Seq::new(s.len(), |i: int| (s[i].0@, s[i].1@))
}

/// An object without named values.
pub open spec fn object() -> JsonView {
    JsonView::Object(Seq::empty())
}

/// A text that may be missing, as a value.
pub open spec fn text_or_null(s: Option<Seq<char>>) -> JsonView {
    match s {
        Some(s) => JsonView::Text(s),
        None => JsonView::Null,
    }
}

/// A number that may be missing, as a value.
pub open spec fn number_or_null(n: Option<u64>) -> JsonView {
    match n {
        Some(n) => JsonView::Unsigned(n),
        None => JsonView::Null,
    }
}

/// Texts, as a list of values.
pub open spec fn text_list(s: Seq<Seq<char>>) -> JsonView {
    JsonView::List(Seq::new(s.len(), |i: int| JsonView::Text(s[i])))
}

/// The value named `key` among `fields`: the first of that name.
pub open spec fn field(fields: Seq<(Seq<char>, JsonView)>, key: Seq<char>) -> Option<JsonView>
    decreases fields.len(),
{
    if fields.len() == 0 {
        None
    } else if fields[0].0 == key {
        Some(fields[0].1)
    } else {
        field(fields.drop_first(), key)
    }
}

/// `fields` with `value` under the name `key`.
pub open spec fn set_field(
    fields: Seq<(Seq<char>, JsonView)>,
    key: Seq<char>,
    value: JsonView,
) -> Seq<(Seq<char>, JsonView)>
    decreases fields.len(),
{
    if fields.len() == 0 {
        seq![(key, value)]
    } else if fields[0].0 == key {
        fields.update(0, (key, value))
    } else {
        seq![fields[0]] + set_field(fields.drop_first(), key, value)
    }
}

/// A value that was set is there, and no other is changed.
pub proof fn set_value_is_there(v: JsonView, key: Seq<char>, value: JsonView, other: Seq<char>)
    requires
        v is Object,
    ensures
        v.set(key, value).get(key) == Some(value),
        other != key ==> v.set(key, value).get(other) == v.get(other),
{
    lemma_set_field(v->Object_0, key, value, other);
}

/// A value that was added to an object is found under its name unless one of that name was there,
/// and is found under no other name.
pub broadcast proof fn added_value_is_found(
    v: JsonView,
    key: Seq<char>,
    value: JsonView,
    other: Seq<char>,
)
    requires
        v is Object,
    ensures
        (#[trigger] v.with(key, value).get(other)) == match v.get(other) {
            Some(found) => Some(found),
            None => if other == key {
                Some(value)
            } else {
                None
            },
        },
        v.with(key, value) is Object,
{
    lemma_added_field(v->Object_0, key, value, other);
}

proof fn lemma_added_field(
    fields: Seq<(Seq<char>, JsonView)>,
    key: Seq<char>,
    value: JsonView,
    other: Seq<char>,
)
    ensures
        field(fields.push((key, value)), other) == match field(fields, other) {
            Some(found) => Some(found),
            None => if other == key {
                Some(value)
            } else {
                None
            },
        },
    decreases fields.len(),
{
    let r = fields.push((key, value));
    if fields.len() == 0 {
        assert(r.drop_first() =~= Seq::<(Seq<char>, JsonView)>::empty());
        assert(field(r.drop_first(), other) is None);
    } else {
        lemma_added_field(fields.drop_first(), key, value, other);
        assert(r.drop_first() =~= fields.drop_first().push((key, value)));
    }
}

/// An object without values has none under any name.
pub broadcast proof fn nothing_is_in_an_empty_object(key: Seq<char>)
    ensures
        (#[trigger] object().get(key)) is None,
{
}

proof fn lemma_set_field(
    fields: Seq<(Seq<char>, JsonView)>,
    key: Seq<char>,
    value: JsonView,
    other: Seq<char>,
)
    ensures
        field(set_field(fields, key, value), key) == Some(value),
        other != key ==> field(set_field(fields, key, value), other) == field(fields, other),
    decreases fields.len(),
{
    let r = set_field(fields, key, value);
    if fields.len() == 0 {
        assert(r.drop_first() =~= Seq::<(Seq<char>, JsonView)>::empty());
        assert(field(r.drop_first(), other) is None);
    } else if fields[0].0 == key {
        assert(r.drop_first() =~= fields.drop_first());
    } else {
        lemma_set_field(fields.drop_first(), key, value, other);
        assert(r.drop_first() =~= set_field(fields.drop_first(), key, value));
    }
}

impl JsonView {
    /// The value named `key`, where this is an object that has it.
    pub open spec fn get(self, key: Seq<char>) -> Option<JsonView> {
        match self {
            JsonView::Object(fields) => field(fields, key),
            _ => None,
        }
    }

    /// The text that this is.
    pub open spec fn text(self) -> Option<Seq<char>> {
        match self {
            JsonView::Text(s) => Some(s),
            _ => None,
        }
    }

    /// The number that this is.
    pub open spec fn number(self) -> Option<u64> {
        match self {
            JsonView::Unsigned(n) => Some(n),
            _ => None,
        }
    }

    /// The truth value that this is.
    pub open spec fn flag(self) -> Option<bool> {
        match self {
            JsonView::Bool(b) => Some(b),
            _ => None,
        }
    }

    /// The list that this is.
    pub open spec fn list(self) -> Option<Seq<JsonView>> {
        match self {
            JsonView::List(items) => Some(items),
            _ => None,
        }
    }

    /// The text named `key`.
    pub open spec fn text_at(self, key: Seq<char>) -> Option<Seq<char>> {
        match self.get(key) {
            Some(v) => v.text(),
            None => None,
        }
    }

    /// The number named `key`.
    pub open spec fn number_at(self, key: Seq<char>) -> Option<u64> {
        match self.get(key) {
            Some(v) => v.number(),
            None => None,
        }
    }

    /// The truth value named `key`.
    pub open spec fn flag_at(self, key: Seq<char>) -> Option<bool> {
        match self.get(key) {
            Some(v) => v.flag(),
            None => None,
        }
    }

    /// The list named `key`.
    pub open spec fn list_at(self, key: Seq<char>) -> Option<Seq<JsonView>> {
        match self.get(key) {
            Some(v) => v.list(),
            None => None,
        }
    }

    /// This object with `value` under the name `key`: in the place of the first of that
    /// name, or behind all others.
    pub open spec fn set(self, key: Seq<char>, value: JsonView) -> JsonView {
        match self {
            JsonView::Object(fields) => JsonView::Object(set_field(fields, key, value)),
            other => other,
        }
    }

    /// This object with one more named value.
    pub open spec fn with(self, key: Seq<char>, value: JsonView) -> JsonView {
        match self {
            JsonView::Object(fields) => JsonView::Object(fields.push((key, value))),
            other => other,
        }
    }
}

impl Json {
    /// A text, as a value.
    pub fn text(s: &str) -> (r: Json)
        ensures
            r@ == JsonView::Text(s@),
    {
        Json::Text(s.to_owned())
    }

    /// A text that may be missing, as a value.
    pub fn text_or_null(s: &Option<String>) -> (r: Json)
        ensures
            r@ == text_or_null(crate::text::opt_text(*s)),
    {
        match s {
            Some(s) => Json::Text(s.clone()),
            None => Json::Null,
        }
    }

    /// A number that may be missing, as a value.
    pub fn number_or_null(n: Option<u64>) -> (r: Json)
        ensures
            r@ == number_or_null(n),
    {
        match n {
            Some(n) => Json::Unsigned(n),
            None => Json::Null,
        }
    }

    /// A list of values.
    pub fn list(items: Vec<Json>) -> (r: Json)
        ensures
            r@ == JsonView::List(json_views(items@)),
    {
        let r = Json::List(items);
        assert(r@->List_0 =~= json_views(items@));
        r
    }

    /// A list of texts, as a value.
    pub fn text_list(items: &Vec<String>) -> (r: Json)
        ensures
            r@ == text_list(crate::text::texts(items@)),
    {
        let mut out: Vec<Json> = Vec::new();
        let mut i: usize = 0;
        while i < items.len()
            invariant
                i <= items@.len(),
                out@.len() == i,
                forall|k: int| 0 <= k < i ==> (#[trigger] out@[k])@ == JsonView::Text(items@[k]@),
            decreases items@.len() - i,
        {
            out.push(Json::text(items[i].as_str()));
            i += 1;
        }
        let r = Json::list(out);
        assert(r@->List_0 =~= text_list(crate::text::texts(items@))->List_0);
        r
    }

    /// An object without named values.
    pub fn object() -> (r: Json)
        ensures
            r@ == object(),
    {
        let r = Json::Object(Vec::new());
        assert(r@->Object_0 =~= Seq::<(Seq<char>, JsonView)>::empty());
        r
    }

    /// This object with one more named value.
    pub fn with(self, key: &str, value: Json) -> (r: Json)
        ensures
            r@ == self@.with(key@, value@),
    {
        match self {
            Json::Object(fields) => {
                let mut fields = fields;
                let ghost before = fields@;
                fields.push((key.to_owned(), value));
                let r = Json::Object(fields);
                assert(r@->Object_0 =~= self@->Object_0.push((key@, value@)));
                r
            },
            other => other,
        }
    }

    /// This object with `value` under the name `key`, in place of any other of that name.
    pub fn set(self, key: &str, value: Json) -> (r: Json)
        ensures
            r@ == self@.set(key@, value@),
    {
        match self {
            Json::Object(fields) => {
                let mut fields = fields;
                let ghost all = self@->Object_0;
                assert(all =~= field_views(fields@));
                let mut i: usize = 0;
                assert(all.skip(0) =~= all);
                assert(all.take(0) + set_field(all.skip(0), key@, value@) =~= set_field(
                    all,
                    key@,
                    value@,
                ));
                while i < fields.len() && !same(fields[i].0.as_str(), key)
                    invariant
                        i <= fields@.len(),
                        all == field_views(fields@),
                        set_field(all, key@, value@) == all.take(i as int) + set_field(
                            all.skip(i as int),
                            key@,
                            value@,
                        ),
                    decreases fields@.len() - i,
                {
                    assert(all.skip(i as int).drop_first() =~= all.skip(i + 1));
                    assert(all.skip(i as int)[0] == all[i as int]);
                    assert(all.take(i as int) + (seq![all[i as int]] + set_field(
                        all.skip(i + 1),
                        key@,
                        value@,
                    )) =~= all.take(i + 1) + set_field(all.skip(i + 1), key@, value@));
                    i += 1;
                }
                let ghost before = fields@;
                if i < fields.len() {
                    fields.set(i, (key.to_owned(), value));
                    assert(all.skip(i as int)[0] == all[i as int]);
                    assert(field_views(fields@) =~= all.take(i as int) + all.skip(
                        i as int,
                    ).update(0, (key@, value@)));
                } else {
                    fields.push((key.to_owned(), value));
                    assert(all.take(i as int) =~= all);
                    assert(field_views(fields@) =~= all + seq![(key@, value@)]);
                }
                let r = Json::Object(fields);
                assert(r@->Object_0 =~= field_views(fields@));
                r
            },
            other => other,
        }
    }

    /// The value named `key`.
    pub fn get(&self, key: &str) -> (r: Option<&Json>)
        ensures
            match r {
                Some(v) => self@.get(key@) == Some(v@),
                None => self@.get(key@) is None,
            },
    {
        match self {
            Json::Object(fields) => {
                let ghost all = self@->Object_0;
                let mut i: usize = 0;
                assert(all.skip(0) =~= all);
                while i < fields.len()
                    invariant
                        i <= fields@.len(),
                        all.len() == fields@.len(),
                        forall|k: int|
                            0 <= k < all.len() ==> #[trigger] all[k] == (
                                fields@[k].0@,
                                fields@[k].1@,
                            ),
                        self@ == JsonView::Object(all),
                        field(all, key@) == field(all.skip(i as int), key@),
                    decreases fields@.len() - i,
                {
                    assert(all.skip(i as int).drop_first() =~= all.skip(i + 1));
                    assert(all.skip(i as int)[0] == all[i as int]);
                    if same(fields[i].0.as_str(), key) {
                        return Some(&fields[i].1);
                    }
                    i += 1;
                }
                assert(all.skip(i as int).len() == 0);
                None
            },
            _ => None,
        }
    }

    /// The text that this is.
    pub fn as_str(&self) -> (r: Option<&str>)
        ensures
            match r {
                Some(s) => self@.text() == Some(s@),
                None => self@.text() is None,
            },
    {
        match self {
            Json::Text(s) => Some(s.as_str()),
            _ => None,
        }
    }

    /// The text named `key`.
    pub fn text_at(&self, key: &str) -> (r: Option<&str>)
        ensures
            match r {
                Some(s) => self@.text_at(key@) == Some(s@),
                None => self@.text_at(key@) is None,
            },
    {
        match self.get(key) {
            Some(v) => v.as_str(),
            None => None,
        }
    }

    /// The text named `key`, as a text of its own.
    pub fn own_text_at(&self, key: &str) -> (r: Option<String>)
        ensures
            crate::text::opt_text(r) == self@.text_at(key@),
    {
        match self.text_at(key) {
            Some(s) => Some(s.to_owned()),
            None => None,
        }
    }

    /// The number named `key`.
    pub fn number_at(&self, key: &str) -> (r: Option<u64>)
        ensures
            r == self@.number_at(key@),
    {
        match self.get(key) {
            Some(Json::Unsigned(n)) => Some(*n),
            _ => None,
        }
    }

    /// The truth value named `key`.
    pub fn flag_at(&self, key: &str) -> (r: Option<bool>)
        ensures
            r == self@.flag_at(key@),
    {
        match self.get(key) {
            Some(Json::Bool(b)) => Some(*b),
            _ => None,
        }
    }

    /// The list named `key`.
    pub fn list_at(&self, key: &str) -> (r: Option<&Vec<Json>>)
        ensures
            match r {
                Some(items) => self@.list_at(key@) == Some(json_views(items@)),
                None => self@.list_at(key@) is None,
            },
    {
        match self.get(key) {
            Some(v) => match v {
                Json::List(items) => {
                    assert(v@->List_0 =~= json_views(items@));
                    Some(items)
                },
                _ => None,
            },
            None => None,
        }
    }

    /// The same value again.
    pub fn copy(&self) -> (r: Json)
        ensures
            r@ == self@,
        decreases self,
    {
        match self {
            Json::Null => Json::Null,
            Json::Bool(b) => Json::Bool(*b),
            Json::Unsigned(n) => Json::Unsigned(*n),
            Json::Negative(n) => Json::Negative(*n),
            Json::Decimal(s) => Json::Decimal(s.clone()),
            Json::Text(s) => Json::Text(s.clone()),
            Json::List(items) => {
                let mut out: Vec<Json> = Vec::new();
                let mut i: usize = 0;
                while i < items.len()
                    invariant
                        i <= items@.len(),
                        out@.len() == i,
                        *self == Json::List(*items),
                        forall|k: int| 0 <= k < i ==> (#[trigger] out@[k])@ == items@[k]@,
                    decreases items@.len() - i,
                {
                    let item = &items[i];
                    assert(decreases_to!(*self => self->List_0));
                    assert(decreases_to!(self->List_0 => self->List_0@));
                    assert(decreases_to!(self->List_0@ => self->List_0@[i as int]));
                    out.push(item.copy());
                    i += 1;
                }
                let r = Json::List(out);
                assert(r@->List_0 =~= self@->List_0);
                r
            },
            Json::Object(fields) => {
                let mut out: Vec<(String, Json)> = Vec::new();
                let mut i: usize = 0;
                while i < fields.len()
                    invariant
                        i <= fields@.len(),
                        out@.len() == i,
                        *self == Json::Object(*fields),
                        forall|k: int|
                            0 <= k < i ==> (#[trigger] out@[k]).0@ == fields@[k].0@ && out@[k].1@
                                == fields@[k].1@,
                    decreases fields@.len() - i,
                {
                    let item = &fields[i];
                    assert(decreases_to!(*self => self->Object_0));
                    assert(decreases_to!(self->Object_0 => self->Object_0@));
                    assert(decreases_to!(self->Object_0@ => self->Object_0@[i as int]));
                    assert(decreases_to!(self->Object_0@[i as int] => self->Object_0@[i as int].1));
                    out.push((item.0.clone(), item.1.copy()));
                    i += 1;
                }
                let r = Json::Object(out);
                assert(r@->Object_0 =~= self@->Object_0);
                r
            },
        }
    }
}

/// The text named `key`, or an empty one.
pub open spec fn text_or_empty(v: JsonView, key: Seq<char>) -> Seq<char> {
    match v.text_at(key) {
        Some(s) => s,
        None => ""@,
    }
}

/// The text named `key`, or an empty one.
pub fn str_of(v: &Json, key: &str) -> (r: String)
    ensures
        r@ == text_or_empty(v@, key@),
{
    match v.text_at(key) {
        Some(s) => s.to_owned(),
        None => "".to_owned(),
    }
}

/// The named value, or another where there is none.
pub open spec fn value_or(args: JsonView, key: Seq<char>, other: JsonView) -> JsonView {
    match args.get(key) {
        Some(v) => v,
        None => other,
    }
}

/// The named value, or another where there is none.
pub fn take_or(args: &Json, key: &str, other: Json) -> (r: Json)
    ensures
        r@ == value_or(args@, key@, other@),
{
    match args.get(key) {
        Some(v) => v.copy(),
        None => other,
    }
}

/// `serde_json::Value`, which stands between a [`Json`] and its text. Nothing is claimed of
/// what is inside.
#[verifier::external_type_specification]
#[verifier::external_body]
pub struct ExValue(Value);

/// What `serde_json::from_str` reads in a text: the value, or why there is none, in that
/// crate's words. A number is read as one of the three kinds that `serde_json::Number` tells
/// apart, and the names in an object come in the order in which `serde_json::Map` keeps them.
pub uninterp spec fn json_in(text: Seq<char>) -> Result<JsonView, Seq<char>>;

/// How `serde_json` writes a value on one line, by the `Display` of `serde_json::Value`.
pub uninterp spec fn json_text(v: JsonView) -> Seq<char>;

/// How `serde_json::to_string_pretty` writes a value on several lines.
pub uninterp spec fn pretty_text(v: JsonView) -> Seq<char>;

/// What `toml::from_str` reads in a text, into a `serde_json::Value`: the document, or why there
/// is none, in that crate's words.
pub uninterp spec fn toml_in(text: Seq<char>) -> Result<JsonView, Seq<char>>;

/// How `toml::to_string_pretty` writes a document.
pub uninterp spec fn toml_text(v: JsonView) -> Seq<char>;

/// Whether names stand in order, none of them twice.
pub open spec fn names_rise(fields: Seq<(Seq<char>, JsonView)>) -> bool {
    forall|i: int, j: int|
        0 <= i < j < fields.len() ==> text_before(#[trigger] fields[i].0, #[trigger] fields[j].0)
}

/// Whether this is nothing, a truth value, a count or a text.
pub open spec fn json_scalar(v: JsonView) -> bool {
    v is Null || v is Bool || v is Unsigned || v is Text
}

/// Whether this is an object of such values, with its names in order.
pub open spec fn json_row(v: JsonView) -> bool {
    &&& v is Object
    &&& names_rise(v->Object_0)
    &&& forall|i: int| 0 <= i < v->Object_0.len() ==> json_scalar((#[trigger] v->Object_0[i]).1)
}

/// Whether this is a list of such objects.
pub open spec fn json_rows(v: JsonView) -> bool {
    &&& v is List
    &&& forall|i: int| 0 <= i < v->List_0.len() ==> json_row(#[trigger] v->List_0[i])
}

/// How many equal quotation marks in a row are one too many for a text of a TOML document.
pub const QUOTE_RUN: usize = 256;

/// Whether `c` stands everywhere in so many places from `from` on.
pub open spec fn stands_from(s: Seq<char>, from: int, c: char) -> bool {
    forall|k: int| from <= k < from + QUOTE_RUN ==> #[trigger] s[k] == c
}

/// Whether `c` stands in too many places in a row.
pub open spec fn long_run(s: Seq<char>, c: char) -> bool {
    exists|from: int| 0 <= from && from + QUOTE_RUN <= s.len() && #[trigger] stands_from(s, from, c)
}

/// Whether a text has too many equal quotation marks in a row to be written as TOML.
pub open spec fn quote_run(s: Seq<char>) -> bool {
    long_run(s, '"') || long_run(s, '\'')
}

/// Whether this is a truth value, a count that a TOML integer holds, or a text that can be
/// written as TOML.
pub open spec fn toml_scalar(v: JsonView) -> bool {
    match v {
        JsonView::Bool(_) => true,
        JsonView::Unsigned(n) => n <= i64::MAX,
        JsonView::Text(s) => !quote_run(s),
        _ => false,
    }
}

/// Whether this is an object of such values, with its names in order.
pub open spec fn toml_row(v: JsonView) -> bool {
    &&& v is Object
    &&& names_rise(v->Object_0)
    &&& forall|i: int| 0 <= i < v->Object_0.len() ==> toml_scalar((#[trigger] v->Object_0[i]).1)
}

/// Whether this is an object of such objects, with its names in order.
pub open spec fn toml_rows(v: JsonView) -> bool {
    &&& v is Object
    &&& names_rise(v->Object_0)
    &&& forall|i: int| 0 <= i < v->Object_0.len() ==> toml_row((#[trigger] v->Object_0[i]).1)
}

/// Whether this is a document of plain values, or one of named tables of such.
pub open spec fn toml_document(v: JsonView) -> bool {
    toml_row(v) || {
        &&& v is Object
        &&& names_rise(v->Object_0)
        &&& forall|i: int| 0 <= i < v->Object_0.len() ==> toml_rows((#[trigger] v->Object_0[i]).1)
    }
}

fn find_long_run(s: &Vec<char>, c: char) -> (r: bool)
    ensures
        r == long_run(s@, c),
{
    let mut i: usize = 0;
    let mut run: usize = 0;
    while i < s.len()
        invariant
            run <= i <= s@.len(),
            run < QUOTE_RUN,
            forall|k: int| i - run <= k < i ==> #[trigger] s@[k] == c,
            run < i ==> s@[i - run - 1] != c,
            forall|from: int|
                0 <= from && from + QUOTE_RUN <= i ==> !#[trigger] stands_from(s@, from, c),
        decreases s@.len() - i,
    {
        if s[i] == c {
            run += 1;
            if run == QUOTE_RUN {
                assert(stands_from(s@, i + 1 - QUOTE_RUN, c));
                return true;
            }
        } else {
            run = 0;
        }
        assert forall|from: int| 0 <= from && from + QUOTE_RUN <= i + 1 implies !#[trigger]
            stands_from(s@, from, c) by {
            if from + QUOTE_RUN == i + 1 {
                let k = i - run;
                assert(s@[k] != c);
            }
        }
        i += 1;
    }
    false
}

/// Whether a text has too many equal quotation marks in a row to be written as TOML.
pub fn has_quote_run(s: &str) -> (r: bool)
    ensures
        r == quote_run(s@),
{
    let chars = chars_of(s);
    find_long_run(&chars, '"') || find_long_run(&chars, '\'')
}

/// Turns a `serde_json::Value` into a [`Json`], one for one. Nothing is claimed of the result.
#[verifier::external_body]
fn from_value(v: Value) -> Json {
    match v {
        Value::Null => Json::Null,
        Value::Bool(b) => Json::Bool(b),
        Value::Number(n) => match (n.as_u64(), n.as_i64()) {
            (Some(n), _) => Json::Unsigned(n),
            (None, Some(n)) => Json::Negative(n),
            (None, None) => Json::Decimal(n.to_string()),
        },
        Value::String(text) => Json::Text(text),
        Value::Array(items) => Json::List(items.into_iter().map(from_value).collect()),
        Value::Object(fields) => Json::Object(
            fields.into_iter().map(|(key, v)| (key, from_value(v))).collect(),
        ),
    }
}

/// Turns a [`Json`] into a `serde_json::Value`, one for one. Nothing is claimed of the result.
#[verifier::external_body]
fn to_value(v: &Json) -> Value {
    match v {
        Json::Null => Value::Null,
        Json::Bool(b) => Value::Bool(*b),
        Json::Unsigned(n) => Value::from(*n),
        Json::Negative(n) => Value::from(*n),
        Json::Decimal(text) => serde_json::from_str(text).unwrap_or(Value::Null),
        Json::Text(text) => Value::String(text.clone()),
        Json::List(items) => Value::Array(items.iter().map(to_value).collect()),
        Json::Object(fields) => Value::Object(
            fields.iter().map(|(key, v)| (key.clone(), to_value(v))).collect(),
        ),
    }
}

/// Reads a value with `serde_json::from_str`, into a `serde_json::Value`. The claim is that
/// what comes out, the value or the words of the error, depends on the text alone.
#[verifier::external_body]
pub(crate) fn parse_json(text: &str) -> (r: Result<Json, String>)
    ensures
        match r {
            Ok(v) => json_in(text@) == Ok::<JsonView, Seq<char>>(v@),
            Err(why) => json_in(text@) == Err::<JsonView, Seq<char>>(why@),
        },
{
    match serde_json::from_str::<Value>(text) {
        Ok(v) => Ok(from_value(v)),
        Err(e) => Err(e.to_string()),
    }
}

/// Writes a value on one line, with the `Display` of `serde_json::Value`. The claim is that
/// the text depends on the value alone, and that a number that is not negative and has no
/// fraction is written in decimal digits.
#[verifier::external_body]
pub(crate) fn write_json(v: &Json) -> (r: String)
    ensures
        r@ == json_text(v@),
        v@ matches JsonView::Unsigned(n) ==> r@ == decimal(n as nat),
{
    to_value(v).to_string()
}

/// Writes a value on several lines with `serde_json::to_string_pretty`, which fails on no
/// `serde_json::Value`. The claim is that the text depends on the value alone, and that
/// [`parse_json`] reads a list of rows back as it was, where the names in each row stand in the
/// order in which `serde_json::Map` keeps them.
#[verifier::external_body]
pub(crate) fn write_pretty(v: &Json) -> (r: String)
    ensures
        r@ == pretty_text(v@),
        json_rows(v@) ==> (json_in(r@) == Ok::<JsonView, Seq<char>>(v@)),
{
    serde_json::to_string_pretty(&to_value(v)).unwrap_or_default()
}

/// Reads a document with `toml::from_str`, into a `serde_json::Value`. The claim is that what
/// comes out, the document or the words of the error, depends on the text alone.
#[verifier::external_body]
pub(crate) fn parse_toml(text: &str) -> (r: Result<Json, String>)
    ensures
        match r {
            Ok(v) => toml_in(text@) == Ok::<JsonView, Seq<char>>(v@),
            Err(why) => toml_in(text@) == Err::<JsonView, Seq<char>>(why@),
        },
{
    match toml::from_str::<Value>(text) {
        Ok(v) => Ok(from_value(v)),
        Err(e) => Err(e.to_string()),
    }
}

/// Writes a document with `toml::to_string_pretty`, which does not fail on these. Left out are
/// texts with so many quotation marks in a row that the crate's count of them would overflow.
/// The claim is that the text depends on the document alone, and that [`parse_toml`] reads it
/// back as it was.
#[verifier::external_body]
pub(crate) fn write_toml(v: &Json) -> (r: String)
    requires
        toml_document(v@),
    ensures
        r@ == toml_text(v@),
        (toml_in(r@) == Ok::<JsonView, Seq<char>>(v@)),
{
    toml::to_string_pretty(&to_value(v)).unwrap_or_default()
}

/// How a value is shown in the middle of a line: a count in decimal digits, anything else as
/// JSON text.
pub open spec fn shown_value(v: JsonView) -> Seq<char> {
    match v {
        JsonView::Unsigned(n) => decimal(n as nat),
        other => json_text(other),
    }
}

/// How the values of that name are shown, of each of the items; one that is missing is shown
/// as the value that is nothing.
pub open spec fn shown_fields(items: Seq<JsonView>, key: Seq<char>) -> Seq<Seq<char>> {
    Seq::new(items.len(), |i: int| shown_value(value_or(items[i], key, JsonView::Null)))
}

/// How the values of that name are shown, of each of the items.
pub fn show_fields(items: &Vec<Json>, key: &str) -> (r: Vec<String>)
    ensures
        texts(r@) == shown_fields(json_views(items@), key@),
{
    let mut out: Vec<String> = Vec::new();
    let mut i: usize = 0;
    while i < items.len()
        invariant
            i <= items@.len(),
            out@.len() == i,
            forall|k: int|
                0 <= k < i ==> (#[trigger] out@[k])@ == shown_value(
                    value_or(items@[k]@, key@, JsonView::Null),
                ),
        decreases items@.len() - i,
    {
        let v = take_or(&items[i], key, Json::Null);
        out.push(write_json(&v));
        i += 1;
    }
    assert(texts(out@) =~= shown_fields(json_views(items@), key@));
    out
}

} // verus!
