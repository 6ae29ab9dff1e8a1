//! What holds of tickets and the links that carry them.

use crate::ticket::{
    app_link, app_link_gives_ticket_back, begins_ticket, extract_ticket,
    pasted_app_link_gives_ticket_back, ticket_char, ticket_from_text, ticket_in, ticket_run,
    web_link, Prefixes,
};
use vstd::prelude::*;

verus! {

/// A link carries its ticket: the link of a ticket is one of our own scheme, and both ways of
/// finding a ticket in a text find it there, as they find it where it stands alone.
pub proof fn a_link_carries_its_ticket(
    ticket: &str,
    link: String,
    text: &str,
    first: Option<String>,
    any: Option<&str>,
)
    requires
        "drop1"@.is_prefix_of(ticket@),
        ticket@.len() > 32,
        forall|i: int|
            0 <= i < ticket@.len() ==> 'a' <= #[trigger] ticket@[i] <= 'z' || '0' <= ticket@[i]
                <= '9',
        call_ensures(app_link, (ticket,), link),
        text@ == link@ || text@ == ticket@,
        call_ensures(extract_ticket, (text,), first),
        call_ensures(ticket_from_text, (text,), any),
    ensures
        "iroh-drop://receive/"@.is_prefix_of(link@),
        link@.len() == 20 + ticket@.len(),
        first is Some,
        first->0@ == ticket@,
        any is Some,
        any->0@ == ticket@,
{
    reveal_strlit("drop1");
    reveal_strlit("iroh-drop");
    reveal_strlit("://receive/");
    reveal_strlit("iroh-drop://receive/");
    assert(ticket@.subrange(0, 5) =~= "drop1"@);
    assert(link@.subrange(0, 20) =~= "iroh-drop://receive/"@);
    pasted_app_link_gives_ticket_back(ticket@, Prefixes::First);
    app_link_gives_ticket_back(ticket@, Prefixes::Any);
    if text@ == ticket@ {
        lemma_ticket_with_rest(ticket@, Seq::empty(), Prefixes::Any);
        assert(ticket@ + Seq::<char>::empty() =~= ticket@);
    }
}

/// A ticket of the second version is found too, where both versions are looked for.
pub proof fn newer_tickets_are_found(ticket: &str, any: Option<&str>)
    requires
        "drop2"@.is_prefix_of(ticket@),
        ticket@.len() > 32,
        forall|i: int|
            0 <= i < ticket@.len() ==> 'a' <= #[trigger] ticket@[i] <= 'z' || '0' <= ticket@[i]
                <= '9',
        call_ensures(ticket_from_text, (ticket,), any),
    ensures
        any is Some,
        any->0@ == ticket@,
{
    reveal_strlit("drop2");
    assert(ticket@.subrange(0, 5) =~= "drop2"@);
    lemma_ticket_with_rest(ticket@, Seq::empty(), Prefixes::Any);
    assert(ticket@ + Seq::<char>::empty() =~= ticket@);
}

proof fn lemma_run(t: Seq<char>, rest: Seq<char>)
    requires
        forall|i: int| 0 <= i < t.len() ==> ticket_char(#[trigger] t[i]),
        rest.len() > 0 ==> !ticket_char(rest[0]),
    ensures
        ticket_run(t + rest) == t,
    decreases t.len(),
{
    if t.len() == 0 {
        assert(t + rest =~= rest);
        assert(ticket_run(t + rest) =~= t);
    } else {
        assert((t + rest).drop_first() =~= t.drop_first() + rest);
        assert(ticket_char(t[0]));
        assert forall|i: int| 0 <= i < t.drop_first().len() implies ticket_char(
            #[trigger] t.drop_first()[i],
        ) by {
            assert(t.drop_first()[i] == t[i + 1]);
        }
        lemma_run(t.drop_first(), rest);
        assert(seq![t[0]] + t.drop_first() =~= t);
    }
}

proof fn lemma_ticket_with_rest(t: Seq<char>, rest: Seq<char>, p: Prefixes)
    requires
        begins_ticket(t, p),
        t.len() > 32,
        forall|i: int| 0 <= i < t.len() ==> ticket_char(#[trigger] t[i]),
        rest.len() > 0 ==> !ticket_char(rest[0]),
    ensures
        ticket_in(t + rest, p) == Some(t),
{
    lemma_run(t, rest);
    reveal_strlit("drop1");
    reveal_strlit("drop2");
    assert((t + rest).subrange(0, 5) =~= t.subrange(0, 5));
    assert(begins_ticket(t + rest, p));
}

/// A ticket ends where something else than a small letter or a digit stands.
pub proof fn a_ticket_ends_with_its_letters(
    ticket: Seq<char>,
    rest: Seq<char>,
    text: &str,
    any: Option<&str>,
)
    requires
        "drop1"@.is_prefix_of(ticket) || "drop2"@.is_prefix_of(ticket),
        ticket.len() > 32,
        forall|i: int|
            0 <= i < ticket.len() ==> 'a' <= #[trigger] ticket[i] <= 'z' || '0' <= ticket[i]
                <= '9',
        rest.len() > 0,
        !('a' <= rest[0] <= 'z' || '0' <= rest[0] <= '9'),
        text@ == ticket + rest,
        call_ensures(ticket_from_text, (text,), any),
    ensures
        any is Some,
        any->0@ == ticket,
{
    reveal_strlit("drop1");
    reveal_strlit("drop2");
    if "drop1"@.is_prefix_of(ticket) {
        assert(ticket.subrange(0, 5) =~= "drop1"@);
    } else {
        assert(ticket.subrange(0, 5) =~= "drop2"@);
    }
    lemma_ticket_with_rest(ticket, rest, Prefixes::Any);
}

proof fn lemma_no_ticket(s: Seq<char>, p: Prefixes)
    requires
        forall|i: int| 0 <= i < s.len() ==> !begins_ticket(#[trigger] s.skip(i), p),
    ensures
        ticket_in(s, p) is None,
    decreases s.len(),
{
    reveal_strlit("drop1");
    reveal_strlit("drop2");
    if s.len() > 0 {
        assert(s.skip(0) =~= s);
        assert forall|i: int| 0 <= i < s.drop_first().len() implies !begins_ticket(
            #[trigger] s.drop_first().skip(i),
            p,
        ) by {
            assert(s.drop_first().skip(i) =~= s.skip(i + 1));
        }
        lemma_no_ticket(s.drop_first(), p);
    }
}

/// A text in which neither version's beginning stands anywhere holds no ticket.
pub proof fn other_texts_hold_no_ticket(text: &str, any: Option<&str>)
    requires
        forall|i: int|
            0 <= i <= text@.len() - 5 ==> (#[trigger] text@.subrange(i, i + 5)) != "drop1"@
                && text@.subrange(i, i + 5) != "drop2"@,
        call_ensures(ticket_from_text, (text,), any),
    ensures
        any is None,
{
    reveal_strlit("drop1");
    reveal_strlit("drop2");
    assert forall|i: int| 0 <= i < text@.len() implies !begins_ticket(
        #[trigger] text@.skip(i),
        Prefixes::Any,
    ) by {
        if i <= text@.len() - 5 {
            assert(text@.skip(i).subrange(0, 5) =~= text@.subrange(i, i + 5));
        }
    }
    lemma_no_ticket(text@, Prefixes::Any);
}

/// A link to a web page is the page's address without slashes behind it, and the ticket behind
/// `/#`.
pub proof fn a_web_link_ends_with_its_ticket(base: &str, ticket: &str, link: String)
    requires
        base@.len() > 0,
        base@.last() != '/',
        call_ensures(web_link, (base, ticket), link),
    ensures
        link@ == base@ + seq!['/', '#'] + ticket@,
{
    reveal_strlit("/#");
    assert("/#"@ =~= seq!['/', '#']);
}

} // verus!
