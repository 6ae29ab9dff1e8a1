//! Paths, as texts with `/` between their parts.

use crate::text::{chars_of, has_prefix, join, joined, same, text_of, texts, utf8_len, utf8_len_adds_up};
use vstd::prelude::*;

verus! {

/// One part of a path.
#[derive(Debug)]
pub enum Part {
    /// The leading `/` of an absolute path.
    Root,
    /// A leading `.`.
    Current,
    /// `..`.
    Parent,
    /// Anything else.
    Name(String),
}

/// The model of a [`Part`].
pub enum PartView {
    /// The leading `/` of an absolute path.
    Root,
    /// A leading `.`.
    Current,
    /// `..`.
    Parent,
    /// Anything else.
    Name(Seq<char>),
}

impl View for Part {
    type V = PartView;

    open spec fn view(&self) -> PartView {
        match self {
            Part::Root => PartView::Root,
            Part::Current => PartView::Current,
            Part::Parent => PartView::Parent,
            Part::Name(name) => PartView::Name(name@),
        }
    }
}

/// The models of a list of parts.
pub open spec fn part_views(s: Seq<Part>) -> Seq<PartView> {
    Seq::new(s.len(), |i: int| s[i]@)
}

/// How many characters stand before the first `/` of `s`.
pub open spec fn piece_len(s: Seq<char>) -> nat
    decreases s.len(),
{
    if s.len() == 0 || s[0] == '/' {
        0
    } else {
        1 + piece_len(s.drop_first())
    }
}

/// What stands between the slashes of `s`.
pub open spec fn pieces(s: Seq<char>) -> Seq<Seq<char>>
    decreases s.len(),
{
    let n = piece_len(s) as int;
    if n >= s.len() {
        seq![s]
    } else {
        seq![s.take(n)] + pieces(s.skip(n + 1))
    }
}

/// The parts that pieces stand for: an empty piece or a `.` stands for none.
pub open spec fn parts_of_pieces(p: Seq<Seq<char>>) -> Seq<PartView>
    decreases p.len(),
{
    if p.len() == 0 {
        Seq::empty()
    } else if p[0].len() == 0 || p[0] == "."@ {
        parts_of_pieces(p.drop_first())
    } else if p[0] == ".."@ {
        seq![PartView::Parent] + parts_of_pieces(p.drop_first())
    } else {
        seq![PartView::Name(p[0])] + parts_of_pieces(p.drop_first())
    }
}

/// The parts of a path.
pub open spec fn parts(s: Seq<char>) -> Seq<PartView> {
    let body = parts_of_pieces(pieces(s));
    if s.len() > 0 && s[0] == '/' {
        seq![PartView::Root] + body
    } else if pieces(s)[0] == "."@ {
        seq![PartView::Current] + body
    } else {
        body
    }
}

proof fn lemma_piece_len(s: Seq<char>)
    ensures
        piece_len(s) <= s.len(),
        piece_len(s) < s.len() ==> s[piece_len(s) as int] == '/',
        forall|i: int| 0 <= i < piece_len(s) ==> s[i] != '/',
    decreases s.len(),
{
    if s.len() > 0 && s[0] != '/' {
        lemma_piece_len(s.drop_first());
        assert forall|i: int| 0 <= i < piece_len(s) implies s[i] != '/' by {
            if i > 0 {
                assert(s[i] == s.drop_first()[i - 1]);
            }
        }
    }
}

/// What stands between the slashes of `path`.
fn split_pieces(path: &str) -> (r: Vec<String>)
    ensures
        texts(r@) == pieces(path@),
{
    let s = chars_of(path);
    let mut out: Vec<String> = Vec::new();
    let mut at: usize = 0;
    assert(s@.skip(0) =~= s@);
    assert(texts(out@) + pieces(s@) =~= pieces(s@));
    loop
        invariant_except_break
            pieces(path@) == texts(out@) + pieces(s@.skip(at as int)),
        invariant
            at <= s@.len(),
            s@ == path@,
        ensures
            texts(out@) == pieces(path@),
        decreases s@.len() - at,
    {
        let from: usize = at;
        let ghost rest = s@.skip(from as int);
        while at < s.len() && s[at] != '/'
            invariant
                from <= at <= s@.len(),
                rest == s@.skip(from as int),
                piece_len(rest) == (at - from) + piece_len(s@.skip(at as int)),
            decreases s@.len() - at,
        {
            assert(s@.skip(at as int).drop_first() =~= s@.skip(at + 1));
            at += 1;
        }
        assert(piece_len(s@.skip(at as int)) == 0);
        let piece = text_of(&s, from, at);
        assert(texts(out@.push(piece)) =~= texts(out@) + seq![piece@]);
        out.push(piece);
        if at == s.len() {
            assert(rest =~= piece@);
            assert(pieces(rest) =~= seq![piece@]);
            break;
        }
        proof {
            let n = (at - from) as int;
            assert(rest.take(n) =~= piece@);
            assert(rest.skip(n + 1) =~= s@.skip(at + 1));
            assert(pieces(path@) =~= texts(out@) + pieces(s@.skip(at + 1)));
        }
        at += 1;
    }
    out
}

/// Whether nothing stands somewhere between two slashes of `path`, before its first or
/// behind its last.
pub open spec fn has_empty_piece(path: Seq<char>) -> bool {
    exists|i: int| 0 <= i < pieces(path).len() && (#[trigger] pieces(path)[i]).len() == 0
}

/// Whether nothing stands somewhere between two slashes of `path`, before its first or
/// behind its last.
pub fn any_empty_piece(path: &str) -> (r: bool)
    ensures
        r == has_empty_piece(path@),
{
    let found = split_pieces(path);
    let mut i: usize = 0;
    while i < found.len()
        invariant
            i <= found@.len(),
            texts(found@) == pieces(path@),
            forall|k: int| 0 <= k < i ==> (#[trigger] pieces(path@)[k]).len() > 0,
        decreases found@.len() - i,
    {
        assert(pieces(path@)[i as int] == found@[i as int]@);
        if found[i].as_str().unicode_len() == 0 {
            return true;
        }
        i += 1;
    }
    false
}

/// The parts of `path`.
pub fn split(path: &str) -> (r: Vec<Part>)
    ensures
        part_views(r@) == parts(path@),
{
    let pieces_here = split_pieces(path);
    let mut out: Vec<Part> = Vec::new();
    proof {
        lemma_pieces(path@);
        reveal_strlit("/");
    }
    let absolute = crate::text::starts_with(path, "/");
    assert(absolute == (path@.len() > 0 && path@[0] == '/')) by {
        if path@.len() > 0 && path@[0] == '/' {
            assert(path@.subrange(0, 1) =~= "/"@);
        } else if path@.len() > 0 && has_prefix(path@, "/"@) {
            assert(path@.subrange(0, 1)[0] == '/');
        }
    }
    assert(texts(pieces_here@)[0] == pieces_here@[0]@);
    if absolute {
        out.push(Part::Root);
        assert(part_views(out@) =~= seq![PartView::Root]);
    } else if same(pieces_here[0].as_str(), ".") {
        out.push(Part::Current);
        assert(part_views(out@) =~= seq![PartView::Current]);
    } else {
        assert(part_views(out@) =~= Seq::<PartView>::empty());
    }
    let ghost lead = part_views(out@);
    let ghost all = texts(pieces_here@);
    assert(all.skip(0) =~= all);
    assert(lead + parts_of_pieces(all) =~= parts(path@));
    let mut i: usize = 0;
    while i < pieces_here.len()
        invariant
            i <= pieces_here@.len(),
            all == texts(pieces_here@),
            part_views(out@) + parts_of_pieces(all.skip(i as int)) == parts(path@),
        decreases pieces_here@.len() - i,
    {
        let piece = pieces_here[i].as_str();
        let ghost before = part_views(out@);
        assert(all.skip(i as int).drop_first() =~= all.skip(i + 1));
        assert(all.skip(i as int)[0] == piece@);
        let ghost tail = parts_of_pieces(all.skip(i + 1));
        if same(piece, "") || same(piece, ".") {
            proof {
                reveal_strlit("");
            }
            if same(piece, "") {
                assert(piece@.len() == 0);
            }
        } else if same(piece, "..") {
            proof {
                lemma_not_empty(piece@);
            }
            out.push(Part::Parent);
            assert(part_views(out@) =~= before + seq![PartView::Parent]);
            assert(before + (seq![PartView::Parent] + tail) =~= part_views(out@) + tail);
        } else {
            proof {
                lemma_not_empty(piece@);
            }
            out.push(Part::Name(piece.to_owned()));
            assert(part_views(out@) =~= before + seq![PartView::Name(piece@)]);
            assert(before + (seq![PartView::Name(piece@)] + tail) =~= part_views(out@) + tail);
        }
        i += 1;
    }
    assert(all.skip(i as int) =~= Seq::<Seq<char>>::empty());
    assert(part_views(out@) + Seq::<PartView>::empty() =~= part_views(out@));
    out
}

proof fn lemma_not_empty(s: Seq<char>)
    ensures
        s != ""@ ==> s.len() > 0,
{
    reveal_strlit("");
    if s.len() == 0 {
        assert(s =~= ""@);
    }
}

proof fn lemma_pieces(s: Seq<char>)
    ensures
        pieces(s).len() > 0,
{
    lemma_piece_len(s);
}

/// `part` taken below `base`: an absolute `part` stands alone.
pub open spec fn below(base: Seq<char>, part: Seq<char>) -> Seq<char> {
    if part.len() > 0 && part[0] == '/' {
        part
    } else if base.len() == 0 || base.last() == '/' {
        base + part
    } else {
        base + "/"@ + part
    }
}

/// `part` taken below `base`.
pub fn join_path(base: &str, part: &str) -> (r: String)
    ensures
        r@ == below(base@, part@),
{
    let b = chars_of(base);
    let p = chars_of(part);
    if p.len() > 0 && p[0] == '/' {
        return part.to_owned();
    }
    let mut out = base.to_owned();
    if b.len() > 0 && b[b.len() - 1] != '/' {
        out.append("/");
    }
    out.append(part);
    out
}

/// The text of one part, as it stands behind a slash.
pub open spec fn part_text(p: PartView) -> Seq<char> {
    match p {
        PartView::Root => ""@,
        PartView::Current => "."@,
        PartView::Parent => ".."@,
        PartView::Name(name) => name,
    }
}

/// The texts of parts.
pub open spec fn part_texts(p: Seq<PartView>) -> Seq<Seq<char>> {
    Seq::new(p.len(), |i: int| part_text(p[i]))
}

/// The path with the parts `p`.
pub open spec fn path_text(p: Seq<PartView>) -> Seq<char> {
    if p == seq![PartView::Root] {
        "/"@
    } else {
        joined(part_texts(p), "/"@)
    }
}

fn write_path(p: &Vec<Part>, to: usize) -> (r: String)
    requires
        to <= p@.len(),
    ensures
        r@ == path_text(part_views(p@).take(to as int)),
{
    let ghost shown = part_views(p@).take(to as int);
    if to == 1 && matches!(p[0], Part::Root) {
        assert(shown =~= seq![PartView::Root]);
        return "/".to_owned();
    }
    assert(shown != seq![PartView::Root]) by {
        if shown == seq![PartView::Root] {
            assert(shown.len() == 1);
            assert(shown[0] == p@[0]@);
        }
    }
    let mut list: Vec<String> = Vec::new();
    let mut i: usize = 0;
    while i < to
        invariant
            i <= to <= p@.len(),
            shown == part_views(p@).take(to as int),
            texts(list@) == part_texts(shown).take(i as int),
        decreases to - i,
    {
        let piece = match &p[i] {
            Part::Root => "".to_owned(),
            Part::Current => ".".to_owned(),
            Part::Parent => "..".to_owned(),
            Part::Name(name) => name.clone(),
        };
        assert(piece@ == part_text(shown[i as int]));
        let ghost before = list@;
        list.push(piece);
        assert(texts(list@) =~= texts(before).push(piece@));
        assert(texts(list@) =~= part_texts(shown).take(i + 1));
        i += 1;
    }
    assert(texts(list@) =~= part_texts(shown));
    join(&list, "/")
}

/// The directory that a path stands in, if it has one.
pub open spec fn parent_text(s: Seq<char>) -> Option<Seq<char>> {
    let p = parts(s);
    if p.len() == 0 || p.last() is Root {
        None
    } else {
        Some(path_text(p.drop_last()))
    }
}

/// The directory that `path` stands in.
pub fn parent(path: &str) -> (r: Option<String>)
    ensures
        match r {
            Some(dir) => parent_text(path@) == Some(dir@),
            None => parent_text(path@) is None,
        },
{
    let p = split(path);
    let n: usize = p.len();
    if n == 0 {
        return None;
    }
    assert(part_views(p@)[n - 1] == p@[n - 1]@);
    if matches!(p[n - 1], Part::Root) {
        return None;
    }
    assert(part_views(p@).drop_last() =~= part_views(p@).take(n - 1));
    Some(write_path(&p, n - 1))
}

/// The last part of a path, if it is a name.
pub open spec fn file_name_text(s: Seq<char>) -> Option<Seq<char>> {
    let p = parts(s);
    if p.len() == 0 {
        None
    } else {
        match p.last() {
            PartView::Name(name) => Some(name),
            _ => None,
        }
    }
}

/// The last part of `path`, if it is a name.
pub fn file_name(path: &str) -> (r: Option<String>)
    ensures
        match r {
            Some(name) => file_name_text(path@) == Some(name@),
            None => file_name_text(path@) is None,
        },
{
    let p = split(path);
    let n: usize = p.len();
    if n == 0 {
        return None;
    }
    assert(part_views(p@)[n - 1] == p@[n - 1]@);
    match &p[n - 1] {
        Part::Name(name) => Some(name.clone()),
        _ => None,
    }
}

/// What stands before the last `/` of a path, or all of it.
pub open spec fn before_last_slash(s: Seq<char>) -> Seq<char> {
    if s.contains('/') {
        s.take(last_slash(s))
    } else {
        s
    }
}

/// Where the last `/` of `s` stands.
pub open spec fn last_slash(s: Seq<char>) -> int
    decreases s.len(),
{
    if s.len() == 0 {
        -1
    } else if s.last() == '/' {
        s.len() - 1
    } else {
        last_slash(s.drop_last())
    }
}

/// The folder to show for a saved file.
pub fn parent_of<'a>(path: &'a str) -> (r: &'a str)
    ensures
        r@ == before_last_slash(path@),
{
    let s = chars_of(path);
    let mut at: usize = s.len();
    assert(s@.take(at as int) =~= s@);
    while at > 0 && s[at - 1] != '/'
        invariant
            at <= s@.len(),
            s@ == path@,
            last_slash(path@) == last_slash(s@.take(at as int)),
            forall|i: int| at <= i < s@.len() ==> s@[i] != '/',
        decreases at,
    {
        assert(s@.take(at as int).drop_last() =~= s@.take(at - 1));
        at -= 1;
    }
    if at == 0 {
        assert(!path@.contains('/'));
        return path;
    }
    assert(path@[at - 1] == '/');
    assert(path@.contains('/'));
    assert(path@.subrange(0, at - 1) =~= path@.take(at - 1));
    path.substring_char(0, at - 1)
}


proof fn lemma_first_slash(s: Seq<char>, i: int)
    requires
        0 <= i <= s.len(),
        i < s.len() ==> s[i] == '/',
        forall|j: int| 0 <= j < i ==> s[j] != '/',
    ensures
        piece_len(s) == i,
    decreases s.len(),
{
    if i > 0 {
        assert forall|j: int| 0 <= j < i - 1 implies s.drop_first()[j] != '/' by {
            assert(s.drop_first()[j] == s[j + 1]);
        }
        lemma_first_slash(s.drop_first(), i - 1);
    }
}

/// A text without a slash is one piece.
pub proof fn one_piece(s: Seq<char>)
    requires
        !s.contains('/'),
    ensures
        pieces(s) == seq![s],
{
    assert forall|j: int| 0 <= j < s.len() implies s[j] != '/' by {
        if s[j] == '/' {
            assert(s.contains('/'));
        }
    }
    lemma_first_slash(s, s.len() as int);
}

/// A slash between two texts parts their pieces.
pub proof fn pieces_around_slash(a: Seq<char>, b: Seq<char>)
    ensures
        pieces(a + "/"@ + b) == pieces(a) + pieces(b),
    decreases a.len(),
{
    reveal_strlit("/");
    let s = a + "/"@ + b;
    lemma_piece_len(a);
    let n = piece_len(a) as int;
    lemma_first_slash(s, n);
    if n >= a.len() {
        assert(s.take(n) =~= a);
        assert(s.skip(n + 1) =~= b);
        assert(pieces(a) =~= seq![a]);
    } else {
        assert(s.take(n) =~= a.take(n));
        assert(s.skip(n + 1) =~= a.skip(n + 1) + "/"@ + b);
        pieces_around_slash(a.skip(n + 1), b);
        assert(pieces(s) =~= pieces(a) + pieces(b));
    }
}

proof fn lemma_parts_of_pieces_add(p: Seq<Seq<char>>, q: Seq<Seq<char>>)
    ensures
        parts_of_pieces(p + q) == parts_of_pieces(p) + parts_of_pieces(q),
    decreases p.len(),
{
    if p.len() == 0 {
        assert(p + q =~= q);
        assert(parts_of_pieces(p + q) =~= parts_of_pieces(p) + parts_of_pieces(q));
    } else {
        assert((p + q).drop_first() =~= p.drop_first() + q);
        lemma_parts_of_pieces_add(p.drop_first(), q);
        assert(parts_of_pieces(p + q) =~= parts_of_pieces(p) + parts_of_pieces(q));
    }
}

/// Whether `s` is relative and does not begin with a `.` that stands for itself.
pub open spec fn plainly_relative(s: Seq<char>) -> bool {
    s.len() > 0 && s[0] != '/' && pieces(s)[0] != "."@
}

/// A relative path taken below another adds its parts to that path's.
pub proof fn below_adds_parts(base: Seq<char>, rel: Seq<char>)
    requires
        plainly_relative(rel),
    ensures
        parts(below(base, rel)) == parts(base) + parts(rel),
{
    let s = below(base, rel);
    reveal_strlit(".");
    if base.len() == 0 {
        assert(s =~= rel);
        assert(pieces(base) =~= seq![base]);
        assert(base != "."@) by {
            assert("."@.len() == 1);
        }
        assert(pieces(base).drop_first() =~= Seq::<Seq<char>>::empty());
        assert(parts_of_pieces(pieces(base)) =~= parts_of_pieces(pieces(base).drop_first()));
        assert(parts(base) =~= Seq::<PartView>::empty());
        assert(parts(base) + parts(rel) =~= parts(rel));
    } else {
        let a = if base.last() == '/' {
            base.drop_last()
        } else {
            base
        };
        reveal_strlit("/");
        assert(s =~= a + "/"@ + rel);
        pieces_around_slash(a, rel);
        lemma_parts_of_pieces_add(pieces(a), pieces(rel));
        lemma_pieces(a);
        if base.last() == '/' {
            let empty = Seq::<char>::empty();
            assert(base =~= a + "/"@ + empty);
            pieces_around_slash(a, empty);
            lemma_parts_of_pieces_add(pieces(a), pieces(empty));
            assert(pieces(empty) =~= seq![empty]);
            assert(pieces(empty).drop_first() =~= Seq::<Seq<char>>::empty());
            assert(parts_of_pieces(pieces(empty)) =~= parts_of_pieces(pieces(empty).drop_first()));
            assert(parts_of_pieces(pieces(base)) =~= parts_of_pieces(pieces(a)));
        }
        assert(pieces(base)[0] == pieces(s)[0]);
        assert(base[0] == s[0]);
        assert(parts(s) =~= parts(base) + parts(rel));
    }
}

/// Whether `name` is a part of its own: it is not empty, holds no slash and is neither
/// `.` nor `..`.
pub open spec fn plain_name(name: Seq<char>) -> bool {
    name.len() > 0 && !name.contains('/') && name != "."@ && name != ".."@
}

/// Names joined by slashes are a relative path with those names as its parts.
pub proof fn joined_names_are_parts(names: Seq<Seq<char>>)
    requires
        names.len() > 0,
        forall|i: int| 0 <= i < names.len() ==> plain_name(#[trigger] names[i]),
    ensures
        pieces(joined(names, "/"@)) == names,
        plainly_relative(joined(names, "/"@)),
        parts(joined(names, "/"@)) == Seq::new(names.len(), |i: int| PartView::Name(names[i])),
{
    lemma_joined_pieces(names);
    let s = joined(names, "/"@);
    assert(names[0].len() > 0);
    lemma_piece_len(s);
    assert(s.len() > 0 && s[0] != '/') by {
        if s.len() == 0 || s[0] == '/' {
            assert(piece_len(s) == 0);
            assert(pieces(s)[0].len() == 0);
        }
    }
    lemma_parts_of_names(names);
}

proof fn lemma_joined_pieces(names: Seq<Seq<char>>)
    requires
        names.len() > 0,
        forall|i: int| 0 <= i < names.len() ==> plain_name(#[trigger] names[i]),
    ensures
        pieces(joined(names, "/"@)) == names,
    decreases names.len(),
{
    one_piece(names.last());
    if names.len() == 1 {
        assert(pieces(joined(names, "/"@)) =~= names);
    } else {
        let front = names.drop_last();
        lemma_joined_pieces(front);
        pieces_around_slash(joined(front, "/"@), names.last());
        assert(pieces(joined(names, "/"@)) =~= names);
    }
}

proof fn lemma_parts_of_names(names: Seq<Seq<char>>)
    requires
        forall|i: int| 0 <= i < names.len() ==> plain_name(#[trigger] names[i]),
    ensures
        parts_of_pieces(names) == Seq::new(names.len(), |i: int| PartView::Name(names[i])),
    decreases names.len(),
{
    if names.len() > 0 {
        assert(plain_name(names[0]));
        assert forall|i: int| 0 <= i < names.drop_first().len() implies plain_name(
            #[trigger] names.drop_first()[i],
        ) by {
            assert(names.drop_first()[i] == names[i + 1]);
        }
        lemma_parts_of_names(names.drop_first());
        assert(parts_of_pieces(names) =~= Seq::new(
            names.len(),
            |i: int| PartView::Name(names[i]),
        ));
    } else {
        assert(parts_of_pieces(names) =~= Seq::new(
            names.len(),
            |i: int| PartView::Name(names[i]),
        ));
    }
}

/// Every name among the parts of a path is a part of its own.
pub proof fn part_names_are_plain(s: Seq<char>, i: int)
    requires
        0 <= i < parts(s).len(),
        parts(s)[i] is Name,
    ensures
        plain_name(parts(s)[i]->Name_0),
{
    lemma_pieces_hold_no_slash(s);
    let body = parts_of_pieces(pieces(s));
    lemma_names_come_from_pieces(pieces(s));
    let j = i - (parts(s).len() - body.len());
    assert(parts(s)[i] == body[j]);
}

proof fn lemma_pieces_hold_no_slash(s: Seq<char>)
    ensures
        forall|i: int| 0 <= i < pieces(s).len() ==> !(#[trigger] pieces(s)[i]).contains('/'),
    decreases s.len(),
{
    lemma_piece_len(s);
    let n = piece_len(s) as int;
    if n < s.len() {
        lemma_pieces_hold_no_slash(s.skip(n + 1));
        assert forall|i: int| 0 <= i < pieces(s).len() implies !(#[trigger] pieces(s)[i]).contains(
            '/',
        ) by {
            if i > 0 {
                assert(pieces(s)[i] == pieces(s.skip(n + 1))[i - 1]);
            }
        }
    }
}

proof fn lemma_names_come_from_pieces(p: Seq<Seq<char>>)
    requires
        forall|i: int| 0 <= i < p.len() ==> !(#[trigger] p[i]).contains('/'),
    ensures
        forall|i: int|
            0 <= i < parts_of_pieces(p).len() && parts_of_pieces(p)[i] is Name ==> plain_name(
                (#[trigger] parts_of_pieces(p)[i])->Name_0,
            ),
    decreases p.len(),
{
    if p.len() > 0 {
        let rest = p.drop_first();
        assert forall|i: int| 0 <= i < rest.len() implies !(#[trigger] rest[i]).contains('/') by {
            assert(rest[i] == p[i + 1]);
        }
        lemma_names_come_from_pieces(rest);
        assert forall|i: int|
            0 <= i < parts_of_pieces(p).len()
                && parts_of_pieces(p)[i] is Name implies plain_name(
            (#[trigger] parts_of_pieces(p)[i])->Name_0,
        ) by {
            assert(!p[0].contains('/'));
            if !(p[0].len() == 0 || p[0] == "."@) {
                if i > 0 {
                    assert(parts_of_pieces(p)[i] == parts_of_pieces(rest)[i - 1]);
                }
            }
        }
    }
}

/// How many bytes pieces take with a slash behind each.
spec fn slashed_len(p: Seq<Seq<char>>) -> nat
    decreases p.len(),
{
    if p.len() == 0 {
        0
    } else {
        utf8_len(p[0]) + 1 + slashed_len(p.drop_first())
    }
}

proof fn lemma_slashed_pieces(s: Seq<char>)
    ensures
        slashed_len(pieces(s)) == utf8_len(s) + 1,
    decreases s.len(),
{
    lemma_piece_len(s);
    let n = piece_len(s) as int;
    if n >= s.len() {
        assert(pieces(s).drop_first() =~= Seq::<Seq<char>>::empty());
        assert(slashed_len(pieces(s).drop_first()) == 0);
    } else {
        let rest = s.skip(n + 1);
        lemma_slashed_pieces(rest);
        assert(pieces(s).drop_first() =~= pieces(rest));
        assert(s =~= s.take(n) + (seq!['/'] + rest));
        utf8_len_adds_up(s.take(n), seq!['/'] + rest);
        utf8_len_adds_up(seq!['/'], rest);
        assert(utf8_len(seq!['/']) == 1) by {
            assert(seq!['/'].drop_first() =~= Seq::<char>::empty());
            assert(utf8_len(seq!['/'].drop_first()) == 0);
            assert('/' as u32 == 47);
        }
    }
}

proof fn lemma_names_are_no_longer(p: Seq<Seq<char>>)
    requires
        forall|i: int| 0 <= i < parts_of_pieces(p).len() ==> parts_of_pieces(p)[i] is Name,
    ensures
        slashed_len(Seq::new(parts_of_pieces(p).len(), |i: int| parts_of_pieces(p)[i]->Name_0))
            <= slashed_len(p),
    decreases p.len(),
{
    let all = parts_of_pieces(p);
    let names = Seq::new(all.len(), |i: int| all[i]->Name_0);
    if p.len() > 0 {
        let rest = parts_of_pieces(p.drop_first());
        let rest_names = Seq::new(rest.len(), |i: int| rest[i]->Name_0);
        if p[0].len() == 0 || p[0] == "."@ {
            lemma_names_are_no_longer(p.drop_first());
            assert(names =~= rest_names);
        } else {
            assert(all[0] is Name);
            assert forall|i: int| 0 <= i < rest.len() implies rest[i] is Name by {
                assert(rest[i] == all[i + 1]);
            }
            lemma_names_are_no_longer(p.drop_first());
            assert(names.drop_first() =~= rest_names);
            assert(names[0] == p[0]);
        }
    }
}

/// A name taken below a path adds one part to that path's.
pub proof fn a_name_below_adds_a_part(base: Seq<char>, name: Seq<char>)
    requires
        plain_name(name),
    ensures
        parts(below(base, name)) == parts(base).push(PartView::Name(name)),
{
    joined_names_are_parts(seq![name]);
    assert(joined(seq![name], "/"@) == name);
    assert(parts(name) =~= seq![PartView::Name(name)]);
    below_adds_parts(base, name);
    assert(parts(base) + seq![PartView::Name(name)] =~= parts(base).push(PartView::Name(name)));
}

/// A path of names alone is no longer when it is written with one slash between each name
/// and the next.
pub proof fn plain_paths_get_no_longer(s: Seq<char>)
    requires
        parts(s).len() > 0,
        forall|i: int| 0 <= i < parts(s).len() ==> (#[trigger] parts(s)[i]) is Name,
    ensures
        utf8_len(joined(Seq::new(parts(s).len(), |i: int| parts(s)[i]->Name_0), "/"@))
            <= utf8_len(s),
{
    let names = Seq::new(parts(s).len(), |i: int| parts(s)[i]->Name_0);
    assert(parts(s)[0] is Name);
    assert(parts(s) == parts_of_pieces(pieces(s)));
    assert forall|i: int| 0 <= i < names.len() implies plain_name(#[trigger] names[i]) by {
        assert(parts(s)[i] is Name);
        part_names_are_plain(s, i);
    }
    joined_names_are_parts(names);
    lemma_slashed_pieces(joined(names, "/"@));
    lemma_slashed_pieces(s);
    lemma_names_are_no_longer(pieces(s));
}

} // verus!
