//! The front-end origins that cross-origin requests are allowed from.

use vstd::prelude::*;
use crate::config::DEFAULT_FRONTEND_ORIGIN;
use crate::text::{concat2, has_prefix, split_char, split_on, texts, trim, trim_str};

verus! {

/// Whether `http::HeaderValue::from_str` accepts text holding `c`: every byte
/// of its UTF-8 form is a visible byte (at least 32 and not 127) or a tab.
pub open spec fn header_char_ok(c: char) -> bool {
    ((c as u32) >= 32 && (c as u32) != 127) || (c as u32) == 9
}

/// Whether `http::HeaderValue::from_str` accepts `s`.
pub open spec fn header_value_ok(s: Seq<char>) -> bool {
    forall|i: int| 0 <= i < s.len() ==> header_char_ok(#[trigger] s[i])
}

/// Calls `http::HeaderValue::from_str` (through `str::parse`) and tells
/// whether it accepted `s`; assumed to be exactly when every character is
/// one whose UTF-8 bytes are all at least 32 and not 127, or a tab.
#[verifier::external_body]
fn is_header_value(s: &str) -> (b: bool)
    ensures
        b == header_value_ok(s@),
{
    s.parse::<axum::http::HeaderValue>().is_ok()
}

/// `http://localhost:`
pub open spec fn http_localhost() -> Seq<char> {
    "http://localhost:"@
}

/// `http://127.0.0.1:`
pub open spec fn http_loopback() -> Seq<char> {
    "http://127.0.0.1:"@
}

/// `https://localhost:`
pub open spec fn https_localhost() -> Seq<char> {
    "https://localhost:"@
}

/// `https://127.0.0.1:`
pub open spec fn https_loopback() -> Seq<char> {
    "https://127.0.0.1:"@
}

/// The other spelling of a local origin: `localhost` and `127.0.0.1` stand
/// for each other under `http` and `https`.
pub open spec fn swapped_local(origin: Seq<char>) -> Option<Seq<char>> {
    if has_prefix(origin, http_localhost()) {
        Some(http_loopback() + origin.skip(http_localhost().len() as int))
    } else if has_prefix(origin, http_loopback()) {
        Some(http_localhost() + origin.skip(http_loopback().len() as int))
    } else if has_prefix(origin, https_localhost()) {
        Some(https_loopback() + origin.skip(https_localhost().len() as int))
    } else if has_prefix(origin, https_loopback()) {
        Some(https_localhost() + origin.skip(https_loopback().len() as int))
    } else {
        None
    }
}

/// An origin followed by its other local spelling, if it has one.
pub open spec fn local_aliases(origin: Seq<char>) -> Seq<Seq<char>> {
    match swapped_local(origin) {
        Some(other) => seq![origin, other],
        None => seq![origin],
    }
}

/// The origin and its other local spelling, if it has one.
pub fn local_origin_aliases(origin: &str) -> (r: Vec<String>)
    ensures
        texts(r@) == local_aliases(origin@),
{
    let mut aliases: Vec<String> = Vec::new();
    aliases.push(origin.to_string());
    let other = if let Some(rest) = crate::text::strip_prefix(origin, "http://localhost:") {
        Some(concat2("http://127.0.0.1:", rest.as_str()))
    } else if let Some(rest) = crate::text::strip_prefix(origin, "http://127.0.0.1:") {
        Some(concat2("http://localhost:", rest.as_str()))
    } else if let Some(rest) = crate::text::strip_prefix(origin, "https://localhost:") {
        Some(concat2("https://127.0.0.1:", rest.as_str()))
    } else if let Some(rest) = crate::text::strip_prefix(origin, "https://127.0.0.1:") {
        Some(concat2("https://localhost:", rest.as_str()))
    } else {
        None
    };
    if let Some(o) = other {
        aliases.push(o);
    }
    assert(texts(aliases@) =~= local_aliases(origin@));
    aliases
}

/// `values` after adding, in order, each of `candidates` that is a valid
/// header value and not yet present.
pub open spec fn with_aliases(values: Seq<Seq<char>>, candidates: Seq<Seq<char>>) -> Seq<Seq<char>>
    decreases candidates.len(),
{
    if candidates.len() == 0 {
        values
    } else {
        let before = with_aliases(values, candidates.drop_last());
        let c = candidates.last();
        if header_value_ok(c) && !before.contains(c) {
            before.push(c)
        } else {
            before
        }
    }
}

fn contains_text(values: &Vec<String>, s: &String) -> (b: bool)
    ensures
        b == texts(values@).contains(s@),
{
    let mut i: usize = 0;
    while i < values.len()
        invariant
            i <= values@.len(),
            forall|j: int| 0 <= j < i ==> values@[j]@ != s@,
        decreases values@.len() - i,
    {
        if values[i] == *s {
            assert(texts(values@)[i as int] == s@);
            return true;
        }
        i += 1;
    }
    assert forall|j: int| 0 <= j < texts(values@).len() implies texts(values@)[j] != s@ by {}
    false
}

/// Adds the valid aliases of `origin` that `values` lacks.
pub fn push_origin_aliases(values: &mut Vec<String>, origin: &str)
    ensures
        texts(final(values)@) == with_aliases(texts(old(values)@), local_aliases(origin@)),
{
    let candidates = local_origin_aliases(origin);
    let ghost start = texts(values@);
    let mut i: usize = 0;
    while i < candidates.len()
        invariant
            i <= candidates@.len(),
            texts(candidates@) == local_aliases(origin@),
            texts(values@) == with_aliases(start, texts(candidates@).take(i as int)),
        decreases candidates@.len() - i,
    {
        let c = &candidates[i];
        assert(texts(candidates@).take(i + 1).drop_last() =~= texts(candidates@).take(i as int));
        if is_header_value(c.as_str()) && !contains_text(values, c) {
            values.push(c.clone());
            assert(texts(values@) =~= with_aliases(start, texts(candidates@).take(i as int)).push(
                c@,
            ));
        }
        i += 1;
    }
    assert(texts(candidates@).take(candidates@.len() as int) =~= texts(candidates@));
}

/// `values` after adding the aliases of each non-blank trimmed piece.
pub open spec fn with_origin_pieces(values: Seq<Seq<char>>, pieces: Seq<Seq<char>>) -> Seq<Seq<char>>
    decreases pieces.len(),
{
    if pieces.len() == 0 {
        values
    } else {
        let before = with_origin_pieces(values, pieces.drop_last());
        let origin = trim(pieces.last());
        if origin.len() == 0 {
            before
        } else {
            with_aliases(before, local_aliases(origin))
        }
    }
}

/// The allowed origins for the comma-separated list `raw`: the valid
/// aliases of its entries without repeats, or those of the default origin
/// when that leaves none.
pub open spec fn frontend_origins(raw: Seq<char>) -> Seq<Seq<char>> {
    let configured = with_origin_pieces(seq![], split_char(raw, ','));
    if configured.len() == 0 {
        with_aliases(seq![], local_aliases(DEFAULT_FRONTEND_ORIGIN@))
    } else {
        configured
    }
}

/// The allowed origins for the comma-separated list `raw`.
pub fn configured_frontend_origins(raw: &str) -> (r: Vec<String>)
    ensures
        texts(r@) == frontend_origins(raw@),
{
    let pieces = split_on(raw, ',');
    let mut values: Vec<String> = Vec::new();
    let mut i: usize = 0;
    while i < pieces.len()
        invariant
            i <= pieces@.len(),
            texts(pieces@) == split_char(raw@, ','),
            texts(values@) == with_origin_pieces(seq![], texts(pieces@).take(i as int)),
        decreases pieces@.len() - i,
    {
        let origin = trim_str(pieces[i].as_str());
        assert(texts(pieces@).take(i + 1).drop_last() =~= texts(pieces@).take(i as int));
        if !origin.as_str().is_empty() {
            push_origin_aliases(&mut values, origin.as_str());
        }
        i += 1;
    }
    assert(texts(pieces@).take(pieces@.len() as int) =~= texts(pieces@));
    assert(texts(values@).len() == values@.len());
    if values.len() == 0 {
        assert(texts(values@) =~= seq![]);
        push_origin_aliases(&mut values, DEFAULT_FRONTEND_ORIGIN);
    }
    values
}


/// Every element of a sequence of texts is a valid header value.
pub open spec fn all_header_values(values: Seq<Seq<char>>) -> bool {
    forall|i: int| 0 <= i < values.len() ==> header_value_ok(#[trigger] values[i])
}

proof fn lemma_with_aliases(values: Seq<Seq<char>>, candidates: Seq<Seq<char>>)
    ensures
        forall|x: Seq<char>| values.contains(x) ==> #[trigger] with_aliases(values, candidates).contains(x),
        forall|i: int|
            0 <= i < candidates.len() && header_value_ok(#[trigger] candidates[i])
                ==> with_aliases(values, candidates).contains(candidates[i]),
        values.no_duplicates() ==> with_aliases(values, candidates).no_duplicates(),
        all_header_values(values) ==> all_header_values(with_aliases(values, candidates)),
    decreases candidates.len(),
{
    if candidates.len() > 0 {
        let rest = candidates.drop_last();
        lemma_with_aliases(values, rest);
        let before = with_aliases(values, rest);
        let c = candidates.last();
        let after = with_aliases(values, candidates);
        if header_value_ok(c) && !before.contains(c) {
            assert(after == before.push(c));
            assert forall|x: Seq<char>| before.contains(x) implies after.contains(x) by {
                let j = choose|j: int| 0 <= j < before.len() && before[j] == x;
                assert(after[j] == x);
            }
            assert(after[before.len() as int] == c);
        }
        assert forall|i: int|
            0 <= i < candidates.len() && header_value_ok(#[trigger] candidates[i]) implies after.contains(
            candidates[i]) by {
            if i < rest.len() {
                assert(rest[i] == candidates[i]);
            }
        }
    }
}

proof fn lemma_with_origin_pieces(values: Seq<Seq<char>>, pieces: Seq<Seq<char>>)
    ensures
        forall|x: Seq<char>| values.contains(x) ==> #[trigger] with_origin_pieces(values, pieces).contains(x),
        forall|i: int, a: Seq<char>|
            0 <= i < pieces.len() && trim(#[trigger] pieces[i]).len() > 0 && #[trigger] local_aliases(
                trim(pieces[i]),
            ).contains(a) && header_value_ok(a) ==> with_origin_pieces(values, pieces).contains(a),
        values.no_duplicates() ==> with_origin_pieces(values, pieces).no_duplicates(),
        all_header_values(values) ==> all_header_values(with_origin_pieces(values, pieces)),
    decreases pieces.len(),
{
    if pieces.len() > 0 {
        let rest = pieces.drop_last();
        lemma_with_origin_pieces(values, rest);
        let before = with_origin_pieces(values, rest);
        let origin = trim(pieces.last());
        if origin.len() > 0 {
            lemma_with_aliases(before, local_aliases(origin));
        }
        let after = with_origin_pieces(values, pieces);
        assert forall|i: int, a: Seq<char>|
            0 <= i < pieces.len() && trim(#[trigger] pieces[i]).len() > 0 && #[trigger] local_aliases(
                trim(pieces[i]),
            ).contains(a) && header_value_ok(a) implies after.contains(a) by {
            if i < rest.len() {
                assert(rest[i] == pieces[i]);
                assert(before.contains(a));
            } else {
                let k = choose|k: int| 0 <= k < local_aliases(origin).len() && local_aliases(origin)[k] == a;
                assert(header_value_ok(local_aliases(origin)[k]));
            }
        }
    }
}

/// The allowed origins are valid header values without repeats, there is
/// always at least one, and each valid spelling of each configured origin
/// (the origin itself and its other local spelling) is among them.
pub proof fn law_allowed_origins(raw: Seq<char>)
    ensures
        frontend_origins(raw).len() > 0,
        frontend_origins(raw).no_duplicates(),
        all_header_values(frontend_origins(raw)),
        forall|i: int, a: Seq<char>|
            0 <= i < split_char(raw, ',').len() && trim(#[trigger] split_char(raw, ',')[i]).len() > 0
                && #[trigger] local_aliases(trim(split_char(raw, ',')[i])).contains(a)
                && header_value_ok(a) ==> frontend_origins(raw).contains(a),
{
    let empty = Seq::<Seq<char>>::empty();
    lemma_with_origin_pieces(empty, split_char(raw, ','));
    let configured = with_origin_pieces(empty, split_char(raw, ','));
    if configured.len() == 0 {
        reveal_strlit("http://localhost:3900");
        let d = DEFAULT_FRONTEND_ORIGIN@;
        assert(header_value_ok(d));
        lemma_with_aliases(empty, local_aliases(d));
        assert(local_aliases(d)[0] == d);
        assert(with_aliases(empty, local_aliases(d)).contains(d));
        assert forall|i: int, a: Seq<char>|
            0 <= i < split_char(raw, ',').len() && trim(#[trigger] split_char(raw, ',')[i]).len() > 0
                && #[trigger] local_aliases(trim(split_char(raw, ',')[i])).contains(a)
                && header_value_ok(a) implies frontend_origins(raw).contains(a) by {
            assert(configured.contains(a));
        }
    }
}

/// `localhost` and `127.0.0.1` spellings of a local origin stand for each
/// other both ways.
pub proof fn law_local_alias_symmetric(origin: Seq<char>)
    ensures
        swapped_local(origin) matches Some(other) ==> swapped_local(other) == Some(origin),
{
    reveal_strlit("http://localhost:");
    reveal_strlit("http://127.0.0.1:");
    reveal_strlit("https://localhost:");
    reveal_strlit("https://127.0.0.1:");
    let a = http_localhost();
    let b = http_loopback();
    let c = https_localhost();
    let d = https_loopback();
    if let Some(other) = swapped_local(origin) {
        if has_prefix(origin, a) {
            let rest = origin.skip(a.len() as int);
            assert((b + rest).take(b.len() as int) =~= b);
            assert(!has_prefix(b + rest, a)) by {
                assert((b + rest)[7] != a[7]);
            }
            assert((b + rest).skip(b.len() as int) =~= rest);
            assert(a + rest =~= origin);
        } else if has_prefix(origin, b) {
            let rest = origin.skip(b.len() as int);
            assert((a + rest).take(a.len() as int) =~= a);
            assert((a + rest).skip(a.len() as int) =~= rest);
            assert(b + rest =~= origin);
        } else if has_prefix(origin, c) {
            let rest = origin.skip(c.len() as int);
            assert((d + rest).take(d.len() as int) =~= d);
            assert(!has_prefix(d + rest, a)) by {
                assert((d + rest)[4] != a[4]);
            }
            assert(!has_prefix(d + rest, b)) by {
                assert((d + rest)[4] != b[4]);
            }
            assert(!has_prefix(d + rest, c)) by {
                assert((d + rest)[8] != c[8]);
            }
            assert((d + rest).skip(d.len() as int) =~= rest);
            assert(c + rest =~= origin);
        } else {
            let rest = origin.skip(d.len() as int);
            assert((c + rest).take(c.len() as int) =~= c);
            assert(!has_prefix(c + rest, a)) by {
                assert((c + rest)[4] != a[4]);
            }
            assert(!has_prefix(c + rest, b)) by {
                assert((c + rest)[4] != b[4]);
            }
            assert((c + rest).skip(c.len() as int) =~= rest);
            assert(d + rest =~= origin);
        }
    }
}


/// `localhost` and `127.0.0.1` stand for each other under `http` and
/// `https`, keeping the rest of the origin (the port and anything after).
pub proof fn law_local_alias_spellings(rest: Seq<char>)
    ensures
        swapped_local("http://localhost:"@ + rest) == Some("http://127.0.0.1:"@ + rest),
        swapped_local("http://127.0.0.1:"@ + rest) == Some("http://localhost:"@ + rest),
        swapped_local("https://localhost:"@ + rest) == Some("https://127.0.0.1:"@ + rest),
        swapped_local("https://127.0.0.1:"@ + rest) == Some("https://localhost:"@ + rest),
{
    reveal_strlit("http://localhost:");
    reveal_strlit("http://127.0.0.1:");
    reveal_strlit("https://localhost:");
    reveal_strlit("https://127.0.0.1:");
    let a = http_localhost();
    let b = http_loopback();
    let c = https_localhost();
    let d = https_loopback();
    assert((a + rest).take(a.len() as int) =~= a);
    assert((a + rest).skip(a.len() as int) =~= rest);
    assert((b + rest).take(b.len() as int) =~= b);
    assert((b + rest).skip(b.len() as int) =~= rest);
    assert(!has_prefix(b + rest, a)) by {
        assert((b + rest)[7] != a[7]);
    }
    assert((c + rest).take(c.len() as int) =~= c);
    assert((c + rest).skip(c.len() as int) =~= rest);
    assert(!has_prefix(c + rest, a)) by {
        assert((c + rest)[4] != a[4]);
    }
    assert(!has_prefix(c + rest, b)) by {
        assert((c + rest)[4] != b[4]);
    }
    assert((d + rest).take(d.len() as int) =~= d);
    assert((d + rest).skip(d.len() as int) =~= rest);
    assert(!has_prefix(d + rest, a)) by {
        assert((d + rest)[4] != a[4]);
    }
    assert(!has_prefix(d + rest, b)) by {
        assert((d + rest)[4] != b[4]);
    }
    assert(!has_prefix(d + rest, c)) by {
        assert((d + rest)[8] != c[8]);
    }
}

proof fn lemma_with_aliases_from(values: Seq<Seq<char>>, candidates: Seq<Seq<char>>)
    ensures
        forall|x: Seq<char>| #[trigger] with_aliases(values, candidates).contains(x) ==> values.contains(x)
            || candidates.contains(x),
    decreases candidates.len(),
{
    if candidates.len() > 0 {
        let rest = candidates.drop_last();
        lemma_with_aliases_from(values, rest);
        let before = with_aliases(values, rest);
        let after = with_aliases(values, candidates);
        assert forall|x: Seq<char>| #[trigger] after.contains(x) implies values.contains(x)
            || candidates.contains(x) by {
            if before.contains(x) {
                if rest.contains(x) {
                    let j = choose|j: int| 0 <= j < rest.len() && rest[j] == x;
                    assert(candidates[j] == x);
                }
            } else {
                assert(after != before);
                let j = choose|j: int| 0 <= j < after.len() && after[j] == x;
                assert(after == before.push(candidates.last()));
                if j < before.len() {
                    assert(after[j] == before[j]);
                }
                assert(candidates[candidates.len() - 1] == x);
            }
        }
    }
}

proof fn lemma_with_origin_pieces_from(values: Seq<Seq<char>>, pieces: Seq<Seq<char>>)
    ensures
        forall|x: Seq<char>| #[trigger] with_origin_pieces(values, pieces).contains(x) ==> values.contains(x)
            || exists|i: int|
            0 <= i < pieces.len() && trim(pieces[i]).len() > 0 && #[trigger] local_aliases(
                trim(pieces[i]),
            ).contains(x),
    decreases pieces.len(),
{
    if pieces.len() > 0 {
        let rest = pieces.drop_last();
        lemma_with_origin_pieces_from(values, rest);
        let before = with_origin_pieces(values, rest);
        let origin = trim(pieces.last());
        let after = with_origin_pieces(values, pieces);
        if origin.len() > 0 {
            lemma_with_aliases_from(before, local_aliases(origin));
        }
        assert forall|x: Seq<char>| #[trigger] after.contains(x) implies values.contains(x) || exists|i: int|
            0 <= i < pieces.len() && trim(pieces[i]).len() > 0 && #[trigger] local_aliases(
                trim(pieces[i]),
            ).contains(x) by {
            if before.contains(x) {
                if !values.contains(x) {
                    let i = choose|i: int|
                        0 <= i < rest.len() && trim(rest[i]).len() > 0 && #[trigger] local_aliases(
                            trim(rest[i]),
                        ).contains(x);
                    assert(pieces[i] == rest[i]);
                }
            } else {
                assert(local_aliases(trim(pieces[pieces.len() - 1])).contains(x));
            }
        }
    }
}

/// Every allowed origin is a spelling of a configured origin, or of the
/// default one when no configured origin is usable.
pub proof fn law_allowed_origins_come_from_configuration(raw: Seq<char>, x: Seq<char>)
    requires
        frontend_origins(raw).contains(x),
    ensures
        (exists|i: int|
            0 <= i < split_char(raw, ',').len() && trim(split_char(raw, ',')[i]).len() > 0
                && #[trigger] local_aliases(trim(split_char(raw, ',')[i])).contains(x))
            || local_aliases(DEFAULT_FRONTEND_ORIGIN@).contains(x),
{
    let empty = Seq::<Seq<char>>::empty();
    lemma_with_origin_pieces_from(empty, split_char(raw, ','));
    lemma_with_aliases_from(empty, local_aliases(DEFAULT_FRONTEND_ORIGIN@));
}
} // verus!
