//! What holds of structured values.

use crate::json::{added_value_is_found, str_of, take_or, Json, JsonView};
use vstd::prelude::*;

verus! {

/// What is read under a name is what stands there, where it is of the wanted type, and nothing
/// otherwise: a text is no number, and a number is no text.
pub proof fn values_are_read_by_name_and_type(
    v: &Json,
    key: &str,
    text: Option<&str>,
    number: Option<u64>,
    flag: Option<bool>,
    list: Option<&Vec<Json>>,
    shown: String,
)
    requires
        call_ensures(Json::text_at, (v, key), text),
        call_ensures(Json::number_at, (v, key), number),
        call_ensures(Json::flag_at, (v, key), flag),
        call_ensures(Json::list_at, (v, key), list),
        call_ensures(str_of, (v, key), shown),
    ensures
        match v@.get(key@) {
            Some(JsonView::Text(s)) => text is Some && text->0@ == s && shown@ == s && number
                is None && flag is None && list is None,
            Some(JsonView::Unsigned(n)) => number == Some(n) && text is None && shown@.len() == 0
                && flag is None && list is None,
            Some(JsonView::Bool(b)) => flag == Some(b) && text is None && shown@.len() == 0
                && number is None && list is None,
            Some(JsonView::List(items)) => list is Some && list->0@.len() == items.len() && text
                is None && number is None && flag is None,
            _ => text is None && number is None && flag is None && list is None && shown@.len()
                == 0,
        },
{
    reveal_strlit("");
    if list is Some {
        assert(crate::json::json_views(list->0@).len() == list->0@.len());
    }
}

/// An object gives back what was put into it: under a name that was not there, what was added, and
/// under a name that was, what was set in its place; other names stay.
pub proof fn objects_give_back_what_was_put_in(
    v: Json,
    key: &str,
    value: Json,
    added: Json,
    other: Seq<char>,
)
    requires
        call_ensures(Json::with, (v, key, value), added),
        v@ is Object,
        other != key@,
    ensures
        v@.get(key@) is None ==> added@.get(key@) == Some(value@),
        added@.get(other) == v@.get(other),
{
    broadcast use added_value_is_found;

    assert(v@.with(key@, value@).get(key@) == added@.get(key@));
    assert(v@.with(key@, value@).get(other) == added@.get(other));
}

/// A value that is taken by its name is that value, or the other one where there is none.
pub proof fn missing_values_are_replaced(args: &Json, key: &str, other: Json, r: Json)
    requires
        call_ensures(take_or, (args, key, other), r),
    ensures
        args@.get(key@) is Some ==> r@ == args@.get(key@)->0,
        args@.get(key@) is None ==> r@ == other@,
{
}

} // verus!
