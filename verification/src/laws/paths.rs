//! What holds of paths: how they are joined, checked and walked.

use crate::collections::{
    ordinary_paths_are_accepted, paths_that_could_escape_are_refused, sanitize_relative, Manifest,
    MemberPath, Walk,
};
use crate::config::Config;
use crate::error::SdkError;
use crate::path::{join_path, pieces};
use crate::text::{
    decimal, decimal_reads_back, digits_value, is_digit, joined, parse_unsigned, parsed,
    starts_with, texts, unsigned_digits,
};
use vstd::prelude::*;
use vstd::utf8::encode_utf8;

verus! {

/// A relative path goes behind the base with one slash between them, an absolute one stands alone,
/// and a base that is empty adds nothing.
pub proof fn paths_are_joined_with_one_slash(base: &str, part: &str, r: String)
    requires
        call_ensures(join_path, (base, part), r),
    ensures
        part@.len() > 0 && part@[0] == '/' ==> r@ == part@,
        !(part@.len() > 0 && part@[0] == '/') ==> {
            &&& base@.len() == 0 ==> r@ == part@
            &&& base@.len() > 0 && base@.last() == '/' ==> r@ == base@ + part@
            &&& base@.len() > 0 && base@.last() != '/' ==> r@ == base@ + seq!['/'] + part@
        },
{
    reveal_strlit("/");
    assert("/"@ =~= seq!['/']);
    if base@.len() == 0 {
        assert(base@ + part@ =~= part@);
    }
}

/// An untrusted path of ordinary names is accepted as it is.
pub proof fn ordinary_members_are_accepted(
    path: &str,
    r: Result<String, SdkError>,
    names: Seq<Seq<char>>,
)
    requires
        call_ensures(sanitize_relative, (path,), r),
        names.len() > 0,
        forall|i: int|
            0 <= i < names.len() ==> {
                &&& 0 < (#[trigger] names[i]).len()
                &&& encode_utf8(names[i]).len() <= 255
                &&& !names[i].contains('/')
                &&& !names[i].contains('\\')
                &&& names[i] != "."@
                &&& names[i] != ".."@
            },
        path@ == joined(names, "/"@),
        encode_utf8(path@).len() <= 1024,
    ensures
        r is Ok,
        r->Ok_0@ == path@,
{
    ordinary_paths_are_accepted(names);
}

/// An untrusted path that could lead elsewhere is refused, and so is one that is too long.
pub proof fn escaping_members_are_refused(path: &str, r: Result<String, SdkError>, i: int)
    requires
        call_ensures(sanitize_relative, (path,), r),
        0 <= i < pieces(path@).len(),
        ({
            ||| pieces(path@)[i].len() == 0
            ||| pieces(path@)[i] == ".."@
            ||| pieces(path@)[i].contains('\\')
            ||| encode_utf8(pieces(path@)[i]).len() > 255
            ||| pieces(path@)[0] == "."@
            ||| encode_utf8(path@).len() > 1024
        }),
    ensures
        r is Err,
{
    paths_that_could_escape_are_refused(path@, i);
}

/// The total that is checked is the total, wherever it fits.
pub proof fn checked_totals_are_the_totals(manifest: &Manifest, r: Option<u64>, total: u64)
    requires
        call_ensures(Manifest::checked_total_size, (manifest,), r),
        r is Some ==> call_ensures(Manifest::total_size, (manifest,), total),
    ensures
        r is Some ==> r->0 == total,
        manifest.entries@.len() == 0 ==> r == Some(0u64),
        manifest.entries@.len() == 1 ==> r == Some(manifest.entries@[0].size),
{
    if manifest.entries@.len() == 1 {
        assert(manifest.entries@.drop_last().len() == 0);
        assert(crate::collections::size_sum(manifest.entries@.drop_last()) == 0);
    }
}

/// A walk begins at the root, with nothing found, and reads each directory that it takes up once.
pub proof fn a_walk_begins_at_the_root(
    walk: Walk,
    reading: &mut Walk,
    r: Option<MemberPath>,
)
    requires
        call_ensures(Walk::new, (), walk),
        call_ensures(Walk::next_dir, (reading,), r),
    ensures
        walk@.files.len() == 0,
        walk@.pending.len() == 1,
        walk@.pending[0].len() == 0,
        r is Some <==> old(reading)@.pending.len() > 0,
        r is Some ==> {
            &&& old(reading)@.pending.contains(texts(r->0.names@))
            &&& final(reading)@.pending.len() == old(reading)@.pending.len() - 1
            &&& final(reading)@.files == old(reading)@.files
        },
{
    if r is Some {
        let pending = old(reading)@.pending;
        assert(pending[pending.len() - 1] == texts(r->0.names@));
    }
}

/// A text starts with its beginnings, and with nothing else.
pub proof fn texts_start_with_their_beginnings(s: &str, prefix: &str, r: bool)
    requires
        call_ensures(starts_with, (s, prefix), r),
    ensures
        r <==> prefix@.is_prefix_of(s@),
{
    if prefix@.len() <= s@.len() {
        assert(s@.subrange(0, prefix@.len() as int) == prefix@ <==> prefix@.is_prefix_of(s@));
    }
}

/// A number is read from its digits, also behind a plus sign, up to the limit; a text with anything
/// else in it, and one without a digit, is no number.
pub proof fn numbers_are_read_from_their_digits(s: &str, max: u64, r: Option<u64>, n: nat, i: int)
    requires
        call_ensures(parse_unsigned, (s, max), r),
    ensures
        s@ == decimal(n) ==> (r is Some <==> n <= max),
        s@ == decimal(n) && r is Some ==> r->0 == n,
        s@ == seq!['+'] + decimal(n) ==> (r is Some <==> n <= max),
        s@ == seq!['+'] + decimal(n) && r is Some ==> r->0 == n,
        s@.len() == 0 ==> r is None,
        0 < i < s@.len() && !('0' <= s@[i] <= '9') ==> r is None,
        s@.len() > 0 && s@[0] != '+' && !('0' <= s@[0] <= '9') ==> r is None,
{
    lemma_digits(n);
    if s@ == seq!['+'] + decimal(n) {
        assert(s@.drop_first() =~= decimal(n));
    }
    if s@ == decimal(n) {
        assert(is_digit(decimal(n)[0]));
    }
    if 0 < i < s@.len() && !('0' <= s@[i] <= '9') {
        let digits = unsigned_digits(s@);
        if s@[0] == '+' {
            assert(digits[i - 1] == s@[i]);
        } else {
            assert(digits[i] == s@[i]);
        }
    }
}

proof fn lemma_digits(n: nat)
    ensures
        decimal(n).len() > 0,
        forall|i: int| 0 <= i < decimal(n).len() ==> is_digit(#[trigger] decimal(n)[i]),
        digits_value(decimal(n)) == n,
{
    decimal_reads_back(n, n);
    assert(parsed(decimal(n), n) == Some(n));
    crate::laws::text::digits_stand_for_tens(n, 0);
    lemma_first_digit(n);
    assert(unsigned_digits(decimal(n)) == decimal(n));
}

proof fn lemma_first_digit(n: nat)
    ensures
        decimal(n).len() > 0,
        is_digit(decimal(n)[0]),
    decreases n,
{
    if n >= 10 {
        lemma_first_digit(n / 10);
    }
}

/// The directories that have to be there are the store's, the one for downloads, and the one that
/// the identity stands in.
pub proof fn the_places_of_the_settings_are_prepared(config: &Config, r: Vec<String>)
    requires
        call_ensures(Config::prepare_dirs, (config,), r),
    ensures
        r@.len() >= 2,
        r@[0]@ == config.store_path@,
        r@[1]@ == config.download_dir@,
{
    let told = texts(r@);
    assert(told.len() == r@.len());
    assert(told[0] == r@[0]@ && told[1] == r@[1]@);
}

} // verus!
