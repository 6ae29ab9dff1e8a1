//! Tickets and links: the one string that people pass around.
//!
//! A ticket is written in lower-case base32 behind a version prefix. People paste it
//! bare, inside a link, or in the middle of a chat message; this module finds it again.

use crate::text::{chars_of, has_prefix, is_white, trim, trimmed};
use vstd::prelude::*;

verus! {

/// URL scheme the desktop app registers, so a link opens it directly.
pub const LINK_SCHEME: &'static str = "iroh-drop";

/// A stretch of text of this many characters or fewer is a typo, not a ticket.
pub const SHORTEST_STRETCH: usize = 32;

/// Whether `c` can stand in a ticket.
pub open spec fn ticket_char(c: char) -> bool {
    'a' <= c <= 'z' || '0' <= c <= '9'
}

/// The longest beginning of `s` that holds ticket characters only.
pub open spec fn ticket_run(s: Seq<char>) -> Seq<char>
    decreases s.len(),
{
    if s.len() == 0 || !ticket_char(s[0]) {
        Seq::empty()
    } else {
        seq![s[0]] + ticket_run(s.drop_first())
    }
}

/// Which version prefixes begin a ticket.
#[derive(Clone, Copy, PartialEq, Eq, Structural, Debug)]
pub enum Prefixes {
    /// The first version's only.
    First,
    /// Any version's.
    Any,
}

/// Whether `s` begins with one of the prefixes.
pub open spec fn begins_ticket(s: Seq<char>, prefixes: Prefixes) -> bool {
    has_prefix(s, "drop1"@) || (prefixes == Prefixes::Any && has_prefix(s, "drop2"@))
}

/// The ticket in a text: what begins at the first place where a prefix stands and runs
/// as far as ticket characters do, if that is long enough to be one.
pub open spec fn ticket_in(s: Seq<char>, prefixes: Prefixes) -> Option<Seq<char>>
    decreases s.len(),
{
    if begins_ticket(s, prefixes) {
        if ticket_run(s).len() > SHORTEST_STRETCH {
            Some(ticket_run(s))
        } else {
            None
        }
    } else if s.len() == 0 {
        None
    } else {
        ticket_in(s.drop_first(), prefixes)
    }
}

/// Whether the characters of `s` from `at` on begin with `head`.
fn begins_at(s: &Vec<char>, at: usize, head: &Vec<char>) -> (r: bool)
    requires
        at <= s@.len(),
    ensures
        r == has_prefix(s@.skip(at as int), head@),
{
    if s.len() - at < head.len() {
        return false;
    }
    let mut i: usize = 0;
    while i < head.len()
        invariant
            i <= head@.len(),
            at + head@.len() <= s@.len(),
            s@.len() <= usize::MAX,
            forall|j: int| 0 <= j < i ==> s@[at + j] == head@[j],
        decreases head@.len() - i,
    {
        if s[at + i] != head[i] {
            assert(s@.skip(at as int).subrange(0, head@.len() as int)[i as int] != head@[i as int]);
            return false;
        }
        i += 1;
    }
    assert(s@.skip(at as int).subrange(0, head@.len() as int) =~= head@);
    true
}

fn find_ticket<'a>(input: &'a str, prefixes: Prefixes) -> (r: Option<&'a str>)
    ensures
        match r {
            Some(t) => ticket_in(input@, prefixes) == Some(t@),
            None => ticket_in(input@, prefixes) is None,
        },
{
    let s = chars_of(input);
    let first = chars_of("drop1");
    let second = chars_of("drop2");
    let mut at: usize = 0;
    assert(s@.skip(0) =~= s@);
    while at < s.len() && !begins_at(&s, at, &first) && !(prefixes == Prefixes::Any && begins_at(
        &s,
        at,
        &second,
    ))
        invariant
            at <= s@.len(),
            first@ == "drop1"@,
            second@ == "drop2"@,
            s@ == input@,
            ticket_in(input@, prefixes) == ticket_in(s@.skip(at as int), prefixes),
        decreases s@.len() - at,
    {
        assert(s@.skip(at as int).drop_first() =~= s@.skip(at + 1));
        at += 1;
    }
    if at == s.len() {
        proof {
            reveal_strlit("drop1");
            reveal_strlit("drop2");
        }
        return None;
    }
    let ghost rest = s@.skip(at as int);
    let mut to: usize = at;
    assert(Seq::<char>::empty() + ticket_run(rest) =~= ticket_run(rest));
    assert(s@.subrange(at as int, at as int) =~= Seq::<char>::empty());
    while to < s.len() && (('a' <= s[to] && s[to] <= 'z') || ('0' <= s[to] && s[to] <= '9'))
        invariant
            at <= to <= s@.len(),
            ticket_run(rest) == s@.subrange(at as int, to as int) + ticket_run(s@.skip(to as int)),
        decreases s@.len() - to,
    {
        assert(s@.skip(to as int).drop_first() =~= s@.skip(to + 1));
        assert(s@.subrange(at as int, to as int) + (seq![s@[to as int]] + ticket_run(
            s@.skip(to + 1),
        )) =~= s@.subrange(at as int, to + 1) + ticket_run(s@.skip(to + 1)));
        to += 1;
    }
    assert(ticket_run(rest) =~= s@.subrange(at as int, to as int));
    if to - at > SHORTEST_STRETCH {
        Some(input.substring_char(at, to))
    } else {
        None
    }
}

/// Pulls a ticket out of whatever was pasted: a bare ticket, an app link, an `https`
/// link with the ticket in its fragment, or any of those inside other words. A ticket
/// of the first version is found too, so that it can be refused by name.
pub fn ticket_from_text<'a>(input: &'a str) -> (r: Option<&'a str>)
    ensures
        match r {
            Some(t) => ticket_in(input@, Prefixes::Any) == Some(t@),
            None => ticket_in(input@, Prefixes::Any) is None,
        },
{
    find_ticket(input, Prefixes::Any)
}

/// Accepts a bare ticket, a `drop1…` inside other text, or the fragment link.
pub fn extract_ticket(input: &str) -> (r: Option<String>)
    ensures
        match r {
            Some(t) => ticket_in(trimmed(input@), Prefixes::First) == Some(t@),
            None => ticket_in(trimmed(input@), Prefixes::First) is None,
        },
{
    match find_ticket(trim(input), Prefixes::First) {
        Some(t) => Some(t.to_owned()),
        None => None,
    }
}

/// The link that opens the app on a ticket.
pub open spec fn app_link_text(ticket: Seq<char>) -> Seq<char> {
    LINK_SCHEME@ + "://receive/"@ + ticket
}

/// Turns a ticket into something a person can send in a chat app.
pub fn app_link(ticket: &str) -> (r: String)
    ensures
        r@ == app_link_text(ticket@),
{
    let mut out = LINK_SCHEME.to_owned();
    out.append("://receive/");
    out.append(ticket);
    out
}

/// `s` without the slashes at its end.
pub open spec fn without_slashes(s: Seq<char>) -> Seq<char>
    decreases s.len(),
{
    if s.len() > 0 && s.last() == '/' {
        without_slashes(s.drop_last())
    } else {
        s
    }
}

/// The link to a web page at `base` that hands the ticket over in its fragment.
pub open spec fn web_link_text(base: Seq<char>, ticket: Seq<char>) -> Seq<char> {
    without_slashes(base) + "/#"@ + ticket
}

/// The `https` form of a link. The ticket goes in the fragment, which browsers never
/// send, so it does not reach the server.
pub fn web_link(base: &str, ticket: &str) -> (r: String)
    ensures
        r@ == web_link_text(base@, ticket@),
{
    let chars = chars_of(base);
    let mut to: usize = chars.len();
    assert(chars@.take(to as int) =~= chars@);
    while to > 0 && chars[to - 1] == '/'
        invariant
            to <= chars@.len(),
            without_slashes(base@) == without_slashes(chars@.take(to as int)),
        decreases to,
    {
        assert(chars@.take(to as int).drop_last() =~= chars@.take(to - 1));
        to -= 1;
    }
    assert(base@.subrange(0, to as int) =~= chars@.take(to as int));
    let mut out = base.substring_char(0, to).to_owned();
    out.append("/#");
    out.append(ticket);
    out
}

/// Whether `t` has the shape of a ticket: a version prefix, ticket characters only, and
/// enough of them.
pub open spec fn well_formed_ticket(t: Seq<char>, p: Prefixes) -> bool {
    &&& begins_ticket(t, p)
    &&& t.len() > SHORTEST_STRETCH
    &&& forall|i: int| 0 <= i < t.len() ==> ticket_char(#[trigger] t[i])
}

proof fn lemma_run_of_ticket(t: Seq<char>)
    requires
        forall|i: int| 0 <= i < t.len() ==> ticket_char(#[trigger] t[i]),
    ensures
        ticket_run(t) == t,
    decreases t.len(),
{
    if t.len() > 0 {
        lemma_run_of_ticket(t.drop_first());
        assert(seq![t[0]] + t.drop_first() =~= t);
    } else {
        assert(ticket_run(t) =~= t);
    }
}

proof fn lemma_run(s: Seq<char>)
    ensures
        ticket_run(s).len() <= s.len(),
        ticket_run(s) == s.take(ticket_run(s).len() as int),
        forall|i: int| 0 <= i < ticket_run(s).len() ==> ticket_char(#[trigger] ticket_run(s)[i]),
    decreases s.len(),
{
    if s.len() > 0 && ticket_char(s[0]) {
        lemma_run(s.drop_first());
        let r = ticket_run(s);
        let q = ticket_run(s.drop_first());
        assert(r =~= s.take(r.len() as int));
        assert forall|i: int| 0 <= i < r.len() implies ticket_char(#[trigger] r[i]) by {
            if i > 0 {
                assert(r[i] == q[i - 1]);
            }
        }
    } else {
        assert(ticket_run(s) =~= s.take(0));
    }
}

/// Whatever is found in a text has the shape of a ticket, and stands in that text.
pub proof fn found_ticket_is_well_formed(s: Seq<char>, p: Prefixes)
    requires
        ticket_in(s, p) is Some,
    ensures
        well_formed_ticket(ticket_in(s, p).unwrap(), p),
        exists|i: int| #[trigger]
            crate::text::occurs_at(s, ticket_in(s, p).unwrap(), i),
    decreases s.len(),
{
    let t = ticket_in(s, p).unwrap();
    if begins_ticket(s, p) {
        reveal_strlit("drop1");
        reveal_strlit("drop2");
        lemma_run(s);
        assert(t.subrange(0, 5) =~= s.subrange(0, 5));
        assert(crate::text::occurs_at(s, t, 0)) by {
            assert(s.subrange(0, t.len() as int) =~= t);
        }
    } else {
        found_ticket_is_well_formed(s.drop_first(), p);
        let i = choose|i: int| #[trigger] crate::text::occurs_at(s.drop_first(), t, i);
        assert(s.subrange(i + 1, i + 1 + t.len()) =~= s.drop_first().subrange(i, i + t.len()));
        assert(crate::text::occurs_at(s, t, i + 1));
    }
}

/// A ticket is found at the end of any text in front of it in which no version prefix
/// begins.
pub proof fn ticket_found_behind(front: Seq<char>, t: Seq<char>, p: Prefixes)
    requires
        well_formed_ticket(t, p),
        forall|i: int|
            0 <= i < front.len() ==> !begins_ticket(#[trigger] (front + t).skip(i), p),
    ensures
        ticket_in(front + t, p) == Some(t),
    decreases front.len(),
{
    let s = front + t;
    assert(s.skip(0) =~= s);
    if front.len() == 0 {
        assert(s =~= t);
        lemma_run_of_ticket(t);
    } else {
        assert(s.drop_first() =~= front.drop_first() + t);
        assert forall|i: int| 0 <= i < front.drop_first().len() implies !begins_ticket(
            #[trigger] (front.drop_first() + t).skip(i),
            p,
        ) by {
            assert((front.drop_first() + t).skip(i) =~= s.skip(i + 1));
        }
        assert(!begins_ticket(s.skip(0), p));
        ticket_found_behind(front.drop_first(), t, p);
    }
}

/// Opening an app link gives back the ticket it was made of.
pub proof fn app_link_gives_ticket_back(t: Seq<char>, p: Prefixes)
    requires
        well_formed_ticket(t, p),
    ensures
        ticket_in(app_link_text(t), p) == Some(t),
{
    let front = LINK_SCHEME@ + "://receive/"@;
    reveal_strlit("drop1");
    reveal_strlit("drop2");
    reveal_strlit("iroh-drop");
    reveal_strlit("://receive/");
    assert(front.len() == 20);
    assert(front =~= seq![
        'i', 'r', 'o', 'h', '-', 'd', 'r', 'o', 'p', ':', '/', '/', 'r', 'e', 'c', 'e', 'i', 'v',
        'e', '/',
    ]);
    assert forall|i: int| 0 <= i < front.len() implies !begins_ticket(
        #[trigger] (front + t).skip(i),
        p,
    ) by {
        let r = (front + t).skip(i);
        if has_prefix(r, "drop1"@) {
            assert(r.subrange(0, 5)[0] == 'd');
            assert(r.subrange(0, 5)[4] == '1');
            assert(r[0] == front[i]);
            assert(i == 5);
            assert(r[4] == front[9]);
        }
        if has_prefix(r, "drop2"@) {
            assert(r.subrange(0, 5)[0] == 'd');
            assert(r.subrange(0, 5)[4] == '2');
            assert(r[0] == front[i]);
            assert(i == 5);
            assert(r[4] == front[9]);
        }
    }
    ticket_found_behind(front, t, p);
}

/// Opening a web link gives back the ticket it was made of, whatever page it points to,
/// as long as the address of that page does not itself hold a version prefix.
pub proof fn web_link_gives_ticket_back(base: Seq<char>, t: Seq<char>, p: Prefixes)
    requires
        well_formed_ticket(t, p),
        forall|i: int|
            0 <= i < base.len() ==> !begins_ticket(#[trigger] base.skip(i), p),
    ensures
        ticket_in(web_link_text(base, t), p) == Some(t),
{
    let page = without_slashes(base);
    let front = page + "/#"@;
    reveal_strlit("drop1");
    reveal_strlit("drop2");
    reveal_strlit("/#");
    lemma_without_slashes(base);
    assert forall|i: int| 0 <= i < front.len() implies !begins_ticket(
        #[trigger] (front + t).skip(i),
        p,
    ) by {
        let r = (front + t).skip(i);
        if begins_ticket(r, p) {
            let h = r.subrange(0, 5);
            assert(h[0] == 'd' && h[1] == 'r' && h[2] == 'o' && h[3] == 'p' && (h[4] == '1' || h[4]
                == '2'));
            assert(r[0] == (front + t)[i]);
            assert(r[1] == (front + t)[i + 1]);
            assert(r[2] == (front + t)[i + 2]);
            assert(r[3] == (front + t)[i + 3]);
            assert(r[4] == (front + t)[i + 4]);
            assert(front[page.len() as int] == '/');
            assert(i + 4 < page.len());
            assert(base.skip(i).subrange(0, 5) =~= h);
            assert(!begins_ticket(base.skip(i), p));
        }
    }
    ticket_found_behind(front, t, p);
}

/// An app link, or the ticket alone, gives back the ticket when it is trimmed first, as
/// something pasted is.
pub proof fn pasted_app_link_gives_ticket_back(t: Seq<char>, p: Prefixes)
    requires
        well_formed_ticket(t, p),
    ensures
        ticket_in(trimmed(app_link_text(t)), p) == Some(t),
        ticket_in(trimmed(t), p) == Some(t),
{
    app_link_gives_ticket_back(t, p);
    let link = app_link_text(t);
    assert(link[0] == 'i') by {
        reveal_strlit("iroh-drop");
    }
    assert(link.last() == t.last());
    assert(ticket_char(t[0]) && ticket_char(t[t.len() - 1]));
    assert(!is_white(link[0]) && !is_white(link.last()) && !is_white(t[0]));
    assert(trimmed(link) == link);
    assert(trimmed(t) == t);
    ticket_found_behind(Seq::empty(), t, p);
    assert(Seq::<char>::empty() + t =~= t);
}

proof fn lemma_without_slashes(s: Seq<char>)
    ensures
        without_slashes(s).len() <= s.len(),
        without_slashes(s) == s.take(without_slashes(s).len() as int),
    decreases s.len(),
{
    if s.len() > 0 && s.last() == '/' {
        lemma_without_slashes(s.drop_last());
        assert(without_slashes(s) =~= s.take(without_slashes(s).len() as int));
    } else {
        assert(without_slashes(s) =~= s.take(s.len() as int));
    }
}

} // verus!
