//! What holds of texts: trimming, words, columns, cuts and numbers.

use crate::order::{comes_before, text_before};
use crate::text::{
    decimal, is_white, joined, lower, pad_left, pad_right, percent, replace_char, shorten,
    take_chars, trim, trimmed, trimmed_end, trimmed_start, white, word_len, words,
};
use vstd::prelude::*;

verus! {

proof fn lemma_start_of_push(s: Seq<char>, c: char)
    requires
        is_white(c),
    ensures
        trimmed_start(s.push(c)) == if trimmed_start(s).len() == 0 {
            Seq::empty()
        } else {
            trimmed_start(s).push(c)
        },
    decreases s.len(),
{
    if s.len() == 0 {
        assert(s.push(c).drop_first() =~= Seq::<char>::empty());
        assert(trimmed_start(s.push(c)) == trimmed_start(s.push(c).drop_first()));
    } else if is_white(s[0]) {
        assert(s.push(c).drop_first() =~= s.drop_first().push(c));
        lemma_start_of_push(s.drop_first(), c);
    }
}

/// White space around a text does not count: a character of white space in front of it or behind
/// it changes nothing, and a text that begins and ends with something else stays as it is.
pub proof fn white_space_around_does_not_count(s: Seq<char>, c: char)
    ensures
        is_white(c) ==> trimmed(seq![c] + s) == trimmed(s),
        is_white(c) ==> trimmed(s.push(c)) == trimmed(s),
        s.len() > 0 && !is_white(s[0]) && !is_white(s.last()) ==> trimmed(s) == s,
        s.len() == 0 ==> trimmed(s) == s,
{
    if is_white(c) {
        assert((seq![c] + s).drop_first() =~= s);
        lemma_start_of_push(s, c);
        if trimmed_start(s).len() > 0 {
            assert(trimmed_start(s).push(c).drop_last() =~= trimmed_start(s));
        }
    }
}

/// Among the ASCII characters, white space is the blank and what stands from the tabulator to the
/// carriage return; no letter, digit or sign is.
pub proof fn blanks_and_line_ends_are_white(c: char, r: bool)
    requires
        call_ensures(white, (c,), r),
        c as u32 <= 127,
    ensures
        r <==> c == ' ' || 9 <= c as u32 <= 13,
{
}

/// What [`trim`] gives neither begins nor ends with white space, and stands in the text it came
/// from with nothing but white space around it.
pub proof fn trimming_takes_white_space_alone(s: &str, r: &str)
    requires
        call_ensures(trim, (s,), r),
    ensures
        r@.len() > 0 ==> !is_white(r@[0]) && !is_white(r@.last()),
        exists|i: int|
            0 <= i && i + r@.len() <= s@.len() && #[trigger] s@.subrange(i, i + r@.len()) == r@ && (
            forall|k: int| 0 <= k < i ==> is_white(#[trigger] s@[k])) && (forall|k: int|
                i + r@.len() <= k < s@.len() ==> is_white(#[trigger] s@[k])),
{
    lemma_start(s@);
    let t = trimmed_start(s@);
    lemma_end(t);
    let i = s@.len() - t.len();
    let e = trimmed_end(t);
    assert(s@.subrange(i, i + e.len()) =~= e) by {
        assert(s@.subrange(i, s@.len() as int) == t);
        assert forall|k: int| 0 <= k < e.len() implies s@.subrange(i, i + e.len())[k] == e[k] by {
            assert(t[k] == s@[i + k]);
            assert(t.take(e.len() as int)[k] == t[k]);
        }
    }
    assert forall|k: int| i + e.len() <= k < s@.len() implies is_white(#[trigger] s@[k]) by {
        assert(t[k - i] == s@[k]);
    }
    if e.len() > 0 {
        assert(t[0] == e[0]) by {
            assert(t.take(e.len() as int)[0] == t[0]);
        }
    }
}

proof fn lemma_start(s: Seq<char>)
    ensures
        trimmed_start(s).len() <= s.len(),
        s.subrange(s.len() - trimmed_start(s).len(), s.len() as int) == trimmed_start(s),
        forall|k: int| 0 <= k < s.len() - trimmed_start(s).len() ==> is_white(#[trigger] s[k]),
        trimmed_start(s).len() > 0 ==> !is_white(trimmed_start(s)[0]),
    decreases s.len(),
{
    if s.len() > 0 && is_white(s[0]) {
        let rest = s.drop_first();
        lemma_start(rest);
        let t = trimmed_start(s);
        assert(s.subrange(s.len() - t.len(), s.len() as int) =~= rest.subrange(
            rest.len() - t.len(),
            rest.len() as int,
        ));
        assert forall|k: int| 0 <= k < s.len() - t.len() implies is_white(#[trigger] s[k]) by {
            if k > 0 {
                assert(rest[k - 1] == s[k]);
            }
        }
    } else {
        assert(s.subrange(0, s.len() as int) =~= s);
    }
}

proof fn lemma_end(s: Seq<char>)
    ensures
        trimmed_end(s).len() <= s.len(),
        s.take(trimmed_end(s).len() as int) == trimmed_end(s),
        forall|k: int| trimmed_end(s).len() <= k < s.len() ==> is_white(#[trigger] s[k]),
        trimmed_end(s).len() > 0 ==> !is_white(trimmed_end(s).last()),
    decreases s.len(),
{
    if s.len() > 0 && is_white(s.last()) {
        let rest = s.drop_last();
        lemma_end(rest);
        let t = trimmed_end(s);
        assert(s.take(t.len() as int) =~= rest.take(t.len() as int));
        assert forall|k: int| t.len() <= k < s.len() implies is_white(#[trigger] s[k]) by {
            if k < rest.len() {
                assert(rest[k] == s[k]);
            }
        }
    } else {
        assert(s.take(s.len() as int) =~= s);
    }
}

proof fn lemma_word_len_of(w: Seq<char>, rest: Seq<char>)
    requires
        forall|i: int| 0 <= i < w.len() ==> !is_white(#[trigger] w[i]),
        rest.len() > 0 ==> is_white(rest[0]),
    ensures
        word_len(w + rest) == w.len(),
    decreases w.len(),
{
    if w.len() == 0 {
        assert(w + rest =~= rest);
    } else {
        assert(!is_white(w[0]));
        assert((w + rest).drop_first() =~= w.drop_first() + rest);
        assert forall|i: int| 0 <= i < w.drop_first().len() implies !is_white(
            #[trigger] w.drop_first()[i],
        ) by {
            assert(w.drop_first()[i] == w[i + 1]);
        }
        lemma_word_len_of(w.drop_first(), rest);
    }
}

/// The words of a line are what stands between white space: a line without any is one word, a word
/// with white space behind it comes before the words of the rest, and white space in front makes no
/// difference.
pub proof fn words_stand_between_white_space(w: Seq<char>, c: char, rest: Seq<char>)
    requires
        w.len() > 0,
        forall|i: int| 0 <= i < w.len() ==> !is_white(#[trigger] w[i]),
        is_white(c),
    ensures
        words(Seq::empty()) == Seq::<Seq<char>>::empty(),
        words(w) == seq![w],
        words(w + seq![c] + rest) == seq![w] + words(rest),
        words(seq![c] + rest) == words(rest),
{
    let empty = Seq::<char>::empty();
    assert(words(empty) =~= Seq::<Seq<char>>::empty());
    assert(!is_white(w[0]));
    lemma_word_len_of(w, empty);
    assert(w + empty =~= w);
    assert(w.take(w.len() as int) =~= w);
    assert(w.skip(w.len() as int) =~= empty);
    assert(words(w) =~= seq![w]);
    let tail = seq![c] + rest;
    assert(tail.drop_first() =~= rest);
    assert(words(tail) == words(rest)) by {
        lemma_start(rest);
        assert(trimmed_start(tail) == trimmed_start(rest));
    }
    let line = w + seq![c] + rest;
    assert(line =~= w + tail);
    lemma_word_len_of(w, tail);
    assert(line[0] == w[0]);
    assert(line.take(w.len() as int) =~= w);
    assert(line.skip(w.len() as int) =~= tail);
}

/// A text in a column keeps its characters, at the left or at the right, with blanks for the rest;
/// one that is too long stays as it is.
pub proof fn columns_are_filled_with_blanks(s: &str, width: usize, left: String, right: String)
    requires
        call_ensures(pad_right, (s, width), left),
        call_ensures(pad_left, (s, width), right),
    ensures
        left@.len() == if s@.len() < width {
            width as nat
        } else {
            s@.len()
        },
        right@.len() == left@.len(),
        left@.take(s@.len() as int) == s@,
        right@.skip(right@.len() - s@.len()) == s@,
        forall|i: int| s@.len() <= i < left@.len() ==> #[trigger] left@[i] == ' ',
        forall|i: int| 0 <= i < right@.len() - s@.len() ==> #[trigger] right@[i] == ' ',
{
    assert(left@.take(s@.len() as int) =~= s@);
    assert(right@.skip(right@.len() - s@.len()) =~= s@);
}

/// A text that fits is not cut; one that does not keeps its first characters, as many as leave room
/// for the ellipsis at its end.
pub proof fn cut_texts_end_with_an_ellipsis(s: &str, max: usize, r: String)
    requires
        call_ensures(shorten, (s, max), r),
    ensures
        s@.len() <= max ==> r@ == s@,
        s@.len() > max && max > 0 ==> r@.len() == max && r@.last() == '\u{2026}' && r@.drop_last()
            == s@.take(max - 1),
{
    if s@.len() > max && max > 0 {
        assert(r@.drop_last() =~= s@.take(max - 1));
    }
}

/// The first characters of a text are its first characters, as many as there are.
pub proof fn first_characters_are_taken(s: &str, n: usize, r: String)
    requires
        call_ensures(take_chars, (s, n), r),
    ensures
        r@.len() == if s@.len() < n {
            s@.len()
        } else {
            n as nat
        },
        r@ == s@.take(r@.len() as int),
{
    assert(s@.take(r@.len() as int) =~= r@);
}

/// A percentage is rounded down: so many hundredths are there, and one more are not.
pub proof fn percentages_are_rounded_down(part: u64, whole: u64, r: u128)
    requires
        whole > 0,
        call_ensures(percent, (part, whole), r),
    ensures
        r * whole <= 100 * part < (r + 1) * whole,
        part == whole ==> r == 100,
{
    let p = part as int;
    let w = whole as int;
    let q = r as int;
    assert(q == p * 100 / w);
    assert(q * w <= p * 100 < (q + 1) * w) by (nonlinear_arith)
        requires
            q == p * 100 / w,
            w > 0,
    ;
    if part == whole {
        assert(q == 100) by (nonlinear_arith)
            requires
                q * w <= w * 100 < (q + 1) * w,
                w > 0,
        ;
    }
}

/// Exactly the one character is replaced, wherever it stands.
pub proof fn one_character_is_replaced(s: &str, from: char, to: char, r: String, i: int)
    requires
        call_ensures(replace_char, (s, from, to), r),
        0 <= i < s@.len(),
    ensures
        r@.len() == s@.len(),
        s@[i] == from ==> r@[i] == to,
        s@[i] != from ==> r@[i] == s@[i],
{
}

/// Large letters become small ones, and nothing else changes.
pub proof fn large_letters_become_small(s: &str, r: String, i: int)
    requires
        call_ensures(lower, (s,), r),
        0 <= i < s@.len(),
    ensures
        r@.len() == s@.len(),
        'A' <= s@[i] <= 'Z' ==> r@[i] as int == s@[i] as int + 'a' as int - 'A' as int,
        !('A' <= s@[i] <= 'Z') ==> r@[i] == s@[i],
{
}

/// Joining puts the separator between each text and the next, and nowhere else.
pub proof fn joining_puts_the_separator_between(
    front: Seq<Seq<char>>,
    last: Seq<char>,
    sep: Seq<char>,
)
    ensures
        joined(Seq::empty(), sep) == Seq::<char>::empty(),
        joined(seq![last], sep) == last,
        front.len() > 0 ==> joined(front.push(last), sep) == joined(front, sep) + sep + last,
{
    assert(front.push(last).drop_last() =~= front);
}

/// A number in decimal is its digits, without a zero in front: a number below ten is one digit, and
/// ten times a number and a digit is the number's digits and that digit behind them.
pub proof fn digits_stand_for_tens(n: nat, d: nat)
    requires
        d < 10,
    ensures
        decimal(d).len() == 1,
        decimal(d)[0] as nat == '0' as nat + d,
        n > 0 ==> decimal(10 * n + d) == decimal(n) + decimal(d),
        n > 0 ==> decimal(n)[0] != '0',
{
    if n > 0 {
        assert((10 * n + d) / 10 == n);
        assert((10 * n + d) % 10 == d);
        assert(decimal(10 * n + d) =~= decimal(n) + decimal(d));
        lemma_no_leading_zero(n);
    }
}

proof fn lemma_no_leading_zero(n: nat)
    requires
        n > 0,
    ensures
        decimal(n).len() > 0,
        decimal(n)[0] != '0',
    decreases n,
{
    if n >= 10 {
        lemma_no_leading_zero(n / 10);
    }
}

/// Texts stand in the order of their first difference: the one with the lesser character there
/// comes first, and so does one that the other goes on from.
pub proof fn texts_are_ordered_by_their_first_difference(a: &str, b: &str, r: bool, k: int)
    requires
        call_ensures(comes_before, (a, b), r),
        0 <= k <= a@.len(),
        k <= b@.len(),
        forall|i: int| 0 <= i < k ==> #[trigger] a@[i] == b@[i],
    ensures
        k < a@.len() && k < b@.len() && a@[k] < b@[k] ==> r,
        k < a@.len() && k < b@.len() && a@[k] > b@[k] ==> !r,
        k == a@.len() && k < b@.len() ==> r,
        k == b@.len() ==> !r,
{
    lemma_first_difference(a@, b@, k);
}

proof fn lemma_first_difference(a: Seq<char>, b: Seq<char>, k: int)
    requires
        0 <= k <= a.len(),
        k <= b.len(),
        forall|i: int| 0 <= i < k ==> #[trigger] a[i] == b[i],
    ensures
        k < a.len() && k < b.len() && a[k] < b[k] ==> text_before(a, b),
        k < a.len() && k < b.len() && a[k] > b[k] ==> !text_before(a, b),
        k == a.len() && k < b.len() ==> text_before(a, b),
        k == b.len() ==> !text_before(a, b),
    decreases k,
{
    if k > 0 {
        assert(a[0] == b[0]);
        assert forall|i: int| 0 <= i < k - 1 implies #[trigger] a.drop_first()[i]
            == b.drop_first()[i] by {
            assert(a[i + 1] == b[i + 1]);
        }
        lemma_first_difference(a.drop_first(), b.drop_first(), k - 1);
    }
}

} // verus!
