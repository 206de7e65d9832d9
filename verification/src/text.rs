//! Character-level text utilities with a mathematical model over `Seq<char>`.

use vstd::prelude::*;
use vstd::string::*;

verus! {

broadcast use vstd::string::group_string_axioms;

/// The Unicode `White_Space` property, which is what `char::is_whitespace` tests.
pub open spec fn is_ws(c: char) -> bool {
    let u = c as u32;
    ||| 0x09 <= u <= 0x0d
    ||| u == 0x20
    ||| u == 0x85
    ||| u == 0xa0
    ||| u == 0x1680
    ||| 0x2000 <= u <= 0x200a
    ||| u == 0x2028
    ||| u == 0x2029
    ||| u == 0x202f
    ||| u == 0x205f
    ||| u == 0x3000
}

/// Whether `c` is white space.
pub fn is_whitespace(c: char) -> (b: bool)
    ensures
        b == is_ws(c),
{
    let u = c as u32;
    (0x09 <= u && u <= 0x0d) || u == 0x20 || u == 0x85 || u == 0xa0 || u == 0x1680 || (0x2000
        <= u && u <= 0x200a) || u == 0x2028 || u == 0x2029 || u == 0x202f || u == 0x205f || u
        == 0x3000
}

/// `s` without its leading white space.
pub open spec fn trim_start(s: Seq<char>) -> Seq<char>
    decreases s.len(),
{
    if s.len() > 0 && is_ws(s[0]) {
        trim_start(s.drop_first())
    } else {
        s
    }
}

/// `s` without its trailing white space.
pub open spec fn trim_end(s: Seq<char>) -> Seq<char>
    decreases s.len(),
{
    if s.len() > 0 && is_ws(s.last()) {
        trim_end(s.drop_last())
    } else {
        s
    }
}

/// `s` without leading and trailing white space, as `str::trim` gives it.
pub open spec fn trim(s: Seq<char>) -> Seq<char> {
    trim_end(trim_start(s))
}

/// Appends one character to a `String` by calling `String::push`, assumed to
/// leave the string's characters followed by `c`, as its documentation says.
#[verifier::external_body]
pub(crate) fn push_char(s: &mut String, c: char)
    ensures
        final(s)@ == old(s)@.push(c),
{
    s.push(c);
}

/// The characters of `s`, in order.
pub fn chars_of(s: &str) -> (v: Vec<char>)
    ensures
        v@ == s@,
{
    let mut v: Vec<char> = Vec::new();
    for c in it: s.chars()
        invariant
            v@ == it.seq().take(it.index() as int),
            it.seq() == s@,
    {
        v.push(c);
    }
    v
}


/// The characters `v[lo..hi]` as a `String`.
pub fn string_from_range(v: &Vec<char>, lo: usize, hi: usize) -> (r: String)
    requires
        lo <= hi <= v@.len(),
    ensures
        r@ == v@.subrange(lo as int, hi as int),
{
    let mut r = String::new();
    let mut i = lo;
    while i < hi
        invariant
            lo <= i <= hi,
            hi <= v@.len(),
            r@ == v@.subrange(lo as int, i as int),
        decreases hi - i,
    {
        push_char(&mut r, v[i]);
        assert(v@.subrange(lo as int, i + 1) =~= v@.subrange(lo as int, i as int).push(v@[i as int]));
        i += 1;
    }
    r
}

proof fn lemma_trim_start_step(s: Seq<char>, i: int)
    requires
        0 <= i < s.len(),
        is_ws(s[i]),
    ensures
        trim_start(s.subrange(i, s.len() as int)) == trim_start(s.subrange(i + 1, s.len() as int)),
{
    assert(s.subrange(i, s.len() as int).drop_first() =~= s.subrange(i + 1, s.len() as int));
}

proof fn lemma_trim_end_step(s: Seq<char>, i: int, j: int)
    requires
        0 <= i < j <= s.len(),
        is_ws(s[j - 1]),
    ensures
        trim_end(s.subrange(i, j)) == trim_end(s.subrange(i, j - 1)),
{
    assert(s.subrange(i, j).drop_last() =~= s.subrange(i, j - 1));
}

/// Bounds `(lo, hi)` such that `v[lo..hi]` is `v` trimmed of white space.
pub fn trim_bounds(v: &Vec<char>) -> (r: (usize, usize))
    ensures
        r.0 <= r.1 <= v@.len(),
        v@.subrange(r.0 as int, r.1 as int) == trim(v@),
{
    let n = v.len();
    let mut i: usize = 0;
    assert(v@.subrange(0, n as int) =~= v@);
    while i < n && is_whitespace(v[i])
        invariant
            i <= n,
            n == v@.len(),
            trim_start(v@) == trim_start(v@.subrange(i as int, n as int)),
        decreases n - i,
    {
        proof {
            lemma_trim_start_step(v@, i as int);
        }
        i += 1;
    }
    let ghost u = v@.subrange(i as int, n as int);
    assert(trim_start(v@) == u);
    let mut j: usize = n;
    while j > i && is_whitespace(v[j - 1])
        invariant
            i <= j <= n,
            n == v@.len(),
            u == v@.subrange(i as int, n as int),
            trim_end(u) == trim_end(v@.subrange(i as int, j as int)),
        decreases j,
    {
        proof {
            lemma_trim_end_step(v@, i as int, j as int);
        }
        j -= 1;
    }
    (i, j)
}

/// `s` without leading and trailing white space.
pub fn trim_str(s: &str) -> (r: String)
    ensures
        r@ == trim(s@),
{
    let v = chars_of(s);
    let (lo, hi) = trim_bounds(&v);
    string_from_range(&v, lo, hi)
}

/// Whether `s` holds only white space (or nothing).
pub fn is_blank(s: &str) -> (b: bool)
    ensures
        b == (trim(s@).len() == 0),
{
    let v = chars_of(s);
    let (lo, hi) = trim_bounds(&v);
    lo == hi
}

/// The number of words of `s`: of maximal runs of characters that are not
/// white space, which is the number of items `str::split_whitespace` yields.
pub open spec fn word_count(s: Seq<char>) -> nat
    decreases s.len(),
{
    if s.len() == 0 {
        0
    } else {
        let n = s.len() as int;
        let starts_word = !is_ws(s[n - 1]) && (n == 1 || is_ws(s[n - 2]));
        word_count(s.drop_last()) + if starts_word {
            1nat
        } else {
            0nat
        }
    }
}

proof fn lemma_word_count_bound(s: Seq<char>)
    ensures
        word_count(s) <= s.len(),
    decreases s.len(),
{
    if s.len() > 0 {
        lemma_word_count_bound(s.drop_last());
    }
}

/// The number of white-space separated words in `content`.
pub fn count_words(content: &str) -> (n: i64)
    ensures
        n == word_count(content@) as i64,
        word_count(content@) <= i64::MAX ==> n == word_count(content@),
{
    let v = chars_of(content);
    let mut count: usize = 0;
    let mut prev_ws = true;
    let mut i: usize = 0;
    while i < v.len()
        invariant
            i <= v@.len(),
            count == word_count(v@.take(i as int)),
            prev_ws == (i == 0 || is_ws(v@[i - 1])),
        decreases v@.len() - i,
    {
        let w = is_whitespace(v[i]);
        assert(v@.take(i + 1).drop_last() =~= v@.take(i as int));
        proof {
            lemma_word_count_bound(v@.take(i as int));
        }
        if !w && prev_ws {
            count += 1;
        }
        prev_ws = w;
        i += 1;
    }
    assert(v@.take(v@.len() as int) =~= v@);
    count as i64
}

/// `c` with ASCII upper-case letters mapped to lower case.
pub open spec fn ascii_lower(c: char) -> char {
    if 65 <= (c as u32) <= 90 {
        ((c as u32) + 32) as char
    } else {
        c
    }
}

/// `s` with ASCII letters in lower case, as `str::to_ascii_lowercase` gives it.
pub open spec fn ascii_lowercase(s: Seq<char>) -> Seq<char> {
    s.map_values(|c: char| ascii_lower(c))
}

/// `s` with ASCII letters in lower case.
pub fn to_ascii_lowercase(s: &str) -> (r: String)
    ensures
        r@ == ascii_lowercase(s@),
{
    let v = chars_of(s);
    let mut r = String::new();
    let mut i: usize = 0;
    while i < v.len()
        invariant
            i <= v@.len(),
            r@ == ascii_lowercase(v@.take(i as int)),
        decreases v@.len() - i,
    {
        let c = v[i];
        let u = c as u32;
        let l = if 65 <= u && u <= 90 {
            ((u + 32) as u8) as char
        } else {
            c
        };
        push_char(&mut r, l);
        assert(ascii_lowercase(v@.take(i + 1)) =~= ascii_lowercase(v@.take(i as int)).push(
            ascii_lower(v@[i as int]),
        ));
        i += 1;
    }
    assert(v@.take(v@.len() as int) =~= v@);
    r
}


/// The ASCII digit for `d` (`0 <= d < 10`).
pub open spec fn digit_char(d: int) -> char {
    ((d + 48) as u8) as char
}

/// Whether `c` is an ASCII decimal digit.
pub open spec fn is_digit(c: char) -> bool {
    48 <= (c as u32) <= 57
}

/// The decimal notation of `n`, without leading zeros.
pub open spec fn nat_decimal(n: nat) -> Seq<char>
    decreases n,
{
    if n < 10 {
        seq![digit_char(n as int)]
    } else {
        nat_decimal(n / 10).push(digit_char((n % 10) as int))
    }
}

/// The decimal notation of `n`, with a leading `-` when it is negative, as
/// `i64`'s `Display` writes it.
pub open spec fn int_decimal(n: int) -> Seq<char> {
    if n < 0 {
        seq!['-'] + nat_decimal((-n) as nat)
    } else {
        nat_decimal(n as nat)
    }
}

fn push_decimal(out: &mut String, n: u64)
    ensures
        final(out)@ == old(out)@ + nat_decimal(n as nat),
    decreases n,
{
    if n >= 10 {
        push_decimal(out, n / 10);
    }
    let d = ((n % 10) as u8 + 48) as char;
    push_char(out, d);
    assert(old(out)@ + nat_decimal(n as nat) =~= if n >= 10 {
        old(out)@ + nat_decimal((n / 10) as nat)
    } else {
        old(out)@
    }.push(d));
}

/// The decimal notation of `n`.
pub fn i64_to_string(n: i64) -> (r: String)
    ensures
        r@ == int_decimal(n as int),
{
    let mut r = String::new();
    if n < 0 {
        push_char(&mut r, '-');
        let m = (0i128 - n as i128) as u64;
        push_decimal(&mut r, m);
    } else {
        push_decimal(&mut r, n as u64);
    }
    r
}

/// The value of the digit string `s`.
pub open spec fn digits_value(s: Seq<char>) -> int
    decreases s.len(),
{
    if s.len() == 0 {
        0
    } else {
        digits_value(s.drop_last()) * 10 + ((s.last() as u32) - 48)
    }
}

/// Whether `s` is a non-empty string of ASCII digits.
pub open spec fn all_digits(s: Seq<char>) -> bool {
    s.len() > 0 && forall|i: int| 0 <= i < s.len() ==> is_digit(#[trigger] s[i])
}

/// The integer that `s` writes in decimal: an optional `+` or `-` followed by
/// one or more ASCII digits; `None` for anything else.
pub open spec fn int_of_decimal(s: Seq<char>) -> Option<int> {
    if s.len() > 0 && (s[0] == '-' || s[0] == '+') {
        let rest = s.drop_first();
        if all_digits(rest) {
            Some(
                if s[0] == '-' {
                    -digits_value(rest)
                } else {
                    digits_value(rest)
                },
            )
        } else {
            None
        }
    } else if all_digits(s) {
        Some(digits_value(s))
    } else {
        None
    }
}

/// What `str::parse::<i64>` gives for `s`: the integer it writes when that
/// fits in an `i64`, else `None`.
pub open spec fn i64_of_decimal(s: Seq<char>) -> Option<i64> {
    match int_of_decimal(s) {
        Some(v) => if i64::MIN <= v <= i64::MAX {
            Some(v as i64)
        } else {
            None
        },
        None => None,
    }
}

pub proof fn lemma_digits_value_nonneg(s: Seq<char>)
    requires
        forall|i: int| 0 <= i < s.len() ==> is_digit(#[trigger] s[i]),
    ensures
        digits_value(s) >= 0,
    decreases s.len(),
{
    if s.len() > 0 {
        lemma_digits_value_nonneg(s.drop_last());
    }
}

pub proof fn lemma_digits_value_monotone(s: Seq<char>, k: int)
    requires
        0 <= k <= s.len(),
        forall|i: int| 0 <= i < s.len() ==> is_digit(#[trigger] s[i]),
    ensures
        digits_value(s) >= digits_value(s.take(k)),
    decreases s.len(),
{
    if k < s.len() {
        assert(s.drop_last().take(k) =~= s.take(k));
        lemma_digits_value_monotone(s.drop_last(), k);
        lemma_digits_value_nonneg(s.drop_last());
    } else {
        assert(s.take(k) =~= s);
    }
}

/// Parses `s` as `str::parse::<i64>` does.
pub fn parse_i64(s: &str) -> (r: Option<i64>)
    ensures
        r == i64_of_decimal(s@),
{
    let v = chars_of(s);
    let n = v.len();
    if n == 0 {
        return None;
    }
    let first = v[0];
    let signed = first == '-' || first == '+';
    let neg = first == '-';
    let start: usize = if signed {
        1
    } else {
        0
    };
    if start == n {
        return None;
    }
    let ghost rest = v@.subrange(start as int, n as int);
    assert(signed ==> rest =~= v@.drop_first());
    assert(!signed ==> rest =~= v@);
    let mut acc: i128 = 0;
    let mut i = start;
    while i < n
        invariant
            start <= i <= n,
            n == v@.len(),
            n > 0,
            v@ == s@,
            signed == (v@[0] == '-' || v@[0] == '+'),
            start == (if signed {
                1usize
            } else {
                0usize
            }),
            rest == v@.subrange(start as int, n as int),
            signed ==> rest == v@.drop_first(),
            !signed ==> rest == v@,
            acc == digits_value(rest.take(i - start)),
            0 <= acc <= 9223372036854775808,
            forall|j: int| 0 <= j < i - start ==> is_digit(#[trigger] rest[j]),
        decreases n - i,
    {
        let c = v[i];
        let u = c as u32;
        if !(48 <= u && u <= 57) {
            assert(!is_digit(rest[i - start]));
            return None;
        }
        assert(rest.take(i - start + 1).drop_last() =~= rest.take(i - start));
        acc = acc * 10 + (u - 48) as i128;
        if acc > 9223372036854775808 {
            proof {
                if all_digits(rest) {
                    lemma_digits_value_monotone(rest, i - start + 1);
                }
            }
            return None;
        }
        i += 1;
    }
    assert(rest.take(n - start) =~= rest);
    let value: i128 = if neg {
        -acc
    } else {
        acc
    };
    if value > 9223372036854775807 {
        return None;
    }
    Some(value as i64)
}

/// `s` without the trailing run of `c` characters, as `str::trim_end_matches`
/// gives it for a single character.
pub open spec fn trim_end_char(s: Seq<char>, c: char) -> Seq<char>
    decreases s.len(),
{
    if s.len() > 0 && s.last() == c {
        trim_end_char(s.drop_last(), c)
    } else {
        s
    }
}

/// `s` without its trailing `c` characters.
pub fn trim_end_matches_char(s: &str, c: char) -> (r: String)
    ensures
        r@ == trim_end_char(s@, c),
{
    let v = chars_of(s);
    let mut j = v.len();
    assert(v@.subrange(0, j as int) =~= v@);
    while j > 0 && v[j - 1] == c
        invariant
            j <= v@.len(),
            trim_end_char(v@, c) == trim_end_char(v@.subrange(0, j as int), c),
        decreases j,
    {
        assert(v@.subrange(0, j as int).drop_last() =~= v@.subrange(0, j - 1));
        j -= 1;
    }
    string_from_range(&v, 0, j)
}

/// Whether `p` is a prefix of `s`.
pub open spec fn has_prefix(s: Seq<char>, p: Seq<char>) -> bool {
    p.len() <= s.len() && s.take(p.len() as int) == p
}

/// `s` after its prefix `p`, as `str::strip_prefix` gives it.
pub fn strip_prefix(s: &str, p: &str) -> (r: Option<String>)
    ensures
        r matches Some(rest) ==> has_prefix(s@, p@) && rest@ == s@.skip(p@.len() as int),
        r is None ==> !has_prefix(s@, p@),
{
    let v = chars_of(s);
    let w = chars_of(p);
    if w.len() > v.len() {
        return None;
    }
    let mut i: usize = 0;
    while i < w.len()
        invariant
            i <= w@.len() <= v@.len(),
            v@ == s@,
            w@ == p@,
            forall|j: int| 0 <= j < i ==> v@[j] == w@[j],
        decreases w@.len() - i,
    {
        if v[i] != w[i] {
            assert(v@.take(w@.len() as int)[i as int] != w@[i as int]);
            return None;
        }
        i += 1;
    }
    assert(v@.take(w@.len() as int) =~= w@);
    let rest = string_from_range(&v, w.len(), v.len());
    assert(v@.subrange(w@.len() as int, v@.len() as int) =~= v@.skip(w@.len() as int));
    Some(rest)
}

/// The concatenation of `a` and `b`.
pub fn concat2(a: &str, b: &str) -> (r: String)
    ensures
        r@ == a@ + b@,
{
    let mut r = a.to_string();
    r.append(b);
    r
}

/// The concatenation of `a`, `b` and `c`.
pub fn concat3(a: &str, b: &str, c: &str) -> (r: String)
    ensures
        r@ == a@ + b@ + c@,
{
    let mut r = a.to_string();
    r.append(b);
    r.append(c);
    r
}

/// The texts of a sequence of strings.
pub open spec fn texts(v: Seq<String>) -> Seq<Seq<char>> {
    v.map_values(|s: String| s@)
}

/// The pieces of `s` between occurrences of `c`, as `str::split` yields them.
pub open spec fn split_char(s: Seq<char>, c: char) -> Seq<Seq<char>>
    decreases s.len(),
{
    if s.len() == 0 {
        seq![seq![]]
    } else {
        let pieces = split_char(s.drop_last(), c);
        if s.last() == c {
            pieces.push(seq![])
        } else {
            pieces.update(pieces.len() - 1, pieces.last().push(s.last()))
        }
    }
}

proof fn lemma_split_char_nonempty(s: Seq<char>, c: char)
    ensures
        split_char(s, c).len() >= 1,
    decreases s.len(),
{
    if s.len() > 0 {
        lemma_split_char_nonempty(s.drop_last(), c);
    }
}

/// The pieces of `s` between occurrences of `c`.
pub fn split_on(s: &str, c: char) -> (r: Vec<String>)
    ensures
        texts(r@) == split_char(s@, c),
{
    let v = chars_of(s);
    let mut pieces: Vec<String> = Vec::new();
    let mut cur = String::new();
    let mut i: usize = 0;
    while i < v.len()
        invariant
            i <= v@.len(),
            texts(pieces@).push(cur@) == split_char(v@.take(i as int), c),
        decreases v@.len() - i,
    {
        let ch = v[i];
        let ghost before = texts(pieces@).push(cur@);
        assert(v@.take(i + 1).drop_last() =~= v@.take(i as int));
        proof {
            lemma_split_char_nonempty(v@.take(i as int), c);
        }
        if ch == c {
            let done = cur;
            pieces.push(done);
            cur = String::new();
            assert(texts(pieces@).push(cur@) =~= before.push(seq![]));
        } else {
            push_char(&mut cur, ch);
            assert(texts(pieces@).push(cur@) =~= before.update(
                before.len() - 1,
                before.last().push(ch),
            ));
        }
        i += 1;
    }
    assert(v@.take(v@.len() as int) =~= v@);
    pieces.push(cur);
    assert(texts(pieces@) =~= split_char(v@, c));
    pieces
}


proof fn lemma_trim_start_shape(s: Seq<char>)
    ensures
        trim_start(s).len() == 0 || !is_ws(trim_start(s)[0]),
        trim_start(s).len() <= s.len(),
        trim_start(s) == s.skip(s.len() - trim_start(s).len()),
    decreases s.len(),
{
    if s.len() > 0 && is_ws(s[0]) {
        lemma_trim_start_shape(s.drop_first());
        assert(s.drop_first().skip(s.drop_first().len() - trim_start(s).len()) =~= s.skip(
            s.len() - trim_start(s).len(),
        ));
    } else {
        assert(s.skip(0) =~= s);
    }
}

proof fn lemma_trim_end_shape(s: Seq<char>)
    ensures
        trim_end(s).len() == 0 || !is_ws(trim_end(s).last()),
        trim_end(s).len() <= s.len(),
        trim_end(s) == s.take(trim_end(s).len() as int),
    decreases s.len(),
{
    if s.len() > 0 && is_ws(s.last()) {
        lemma_trim_end_shape(s.drop_last());
        assert(s.drop_last().take(trim_end(s).len() as int) =~= s.take(trim_end(s).len() as int));
    } else {
        assert(s.take(s.len() as int) =~= s);
    }
}

/// Trimmed text neither starts nor ends with white space.
pub proof fn lemma_trim_shape(s: Seq<char>)
    ensures
        trim(s).len() == 0 || (!is_ws(trim(s)[0]) && !is_ws(trim(s).last())),
        trim(s).len() <= s.len(),
{
    let u = trim_start(s);
    lemma_trim_start_shape(s);
    lemma_trim_end_shape(u);
    if trim(s).len() > 0 {
        assert(trim(s)[0] == u.take(trim(s).len() as int)[0]);
    }
}

/// Text that neither starts nor ends with white space is its own trim.
pub proof fn lemma_trim_fixed(s: Seq<char>)
    requires
        s.len() == 0 || (!is_ws(s[0]) && !is_ws(s.last())),
    ensures
        trim(s) == s,
{
}

/// Trimming twice is trimming once.
pub proof fn law_trim_idempotent(s: Seq<char>)
    ensures
        trim(trim(s)) == trim(s),
{
    lemma_trim_shape(s);
    lemma_trim_fixed(trim(s));
}


pub proof fn lemma_digit_char(d: int)
    requires
        0 <= d < 10,
    ensures
        is_digit(digit_char(d)),
        (digit_char(d) as u32) - 48 == d,
        !is_ws(digit_char(d)),
{
    let b = (d + 48) as u8;
    assert(b as int == d + 48);
    assert((b as char) as u32 == b as u32);
}

pub proof fn lemma_nat_decimal(n: nat)
    ensures
        all_digits(nat_decimal(n)),
        digits_value(nat_decimal(n)) == n,
    decreases n,
{
    if n < 10 {
        lemma_digit_char(n as int);
        let s = nat_decimal(n);
        assert(s.drop_last() =~= Seq::<char>::empty());
        assert(s.last() == digit_char(n as int));
        assert(digits_value(s.drop_last()) == 0);
        assert(digits_value(s) == digits_value(s.drop_last()) * 10 + ((s.last() as u32) - 48));
    } else {
        lemma_nat_decimal(n / 10);
        lemma_digit_char((n % 10) as int);
        let s = nat_decimal(n);
        assert(s.drop_last() =~= nat_decimal(n / 10));
        assert(s.last() == digit_char((n % 10) as int));
        assert(n == (n / 10) * 10 + n % 10);
        assert(digits_value(s) == digits_value(nat_decimal(n / 10)) * 10 + ((s.last() as u32) - 48));
        assert forall|i: int| 0 <= i < s.len() implies is_digit(#[trigger] s[i]) by {
            if i < s.len() - 1 {
                assert(s[i] == nat_decimal(n / 10)[i]);
            }
        }
    }
}

/// The decimal text of an integer reads back as that integer.
pub proof fn law_decimal_round_trip(n: i64)
    ensures
        i64_of_decimal(int_decimal(n as int)) == Some(n),
        trim(int_decimal(n as int)) == int_decimal(n as int),
{
    let m: nat = if n < 0 {
        (-n) as nat
    } else {
        n as nat
    };
    lemma_nat_decimal(m);
    let d = nat_decimal(m);
    assert(!is_ws(d[0]));
    assert(!is_ws(d.last()));
    assert(d[0] != '-' && d[0] != '+');
    if n < 0 {
        let s = seq!['-'] + d;
        assert(s.drop_first() =~= d);
        assert(s.last() == d.last());
        lemma_trim_fixed(s);
    } else {
        lemma_trim_fixed(d);
    }
}


/// Words do not run across white space: the words of two texts joined by a
/// white-space character are the words of the first followed by those of
/// the second.
pub proof fn law_word_count_of_joined_text(a: Seq<char>, sep: char, b: Seq<char>)
    requires
        is_ws(sep),
    ensures
        word_count(a + seq![sep] + b) == word_count(a) + word_count(b),
    decreases b.len(),
{
    let s = a + seq![sep] + b;
    if b.len() == 0 {
        assert(s =~= a.push(sep));
        assert(s.drop_last() =~= a);
    } else {
        law_word_count_of_joined_text(a, sep, b.drop_last());
        assert(s.drop_last() =~= a + seq![sep] + b.drop_last());
        let n = s.len() as int;
        let m = b.len() as int;
        assert(s[n - 1] == b[m - 1]);
        if m == 1 {
            assert(s[n - 2] == sep);
        } else {
            assert(s[n - 2] == b[m - 2]);
        }
    }
}


/// Whether `s` holds only white space.
pub open spec fn all_ws(s: Seq<char>) -> bool {
    forall|i: int| 0 <= i < s.len() ==> is_ws(#[trigger] s[i])
}

proof fn lemma_trim_start_padded(left: Seq<char>, rest: Seq<char>)
    requires
        all_ws(left),
    ensures
        trim_start(left + rest) == trim_start(rest),
    decreases left.len(),
{
    if left.len() > 0 {
        assert((left + rest)[0] == left[0]);
        assert((left + rest).drop_first() =~= left.drop_first() + rest);
        lemma_trim_start_padded(left.drop_first(), rest);
    } else {
        assert(left + rest =~= rest);
    }
}

proof fn lemma_trim_end_padded(rest: Seq<char>, right: Seq<char>)
    requires
        all_ws(right),
    ensures
        trim_end(rest + right) == trim_end(rest),
    decreases right.len(),
{
    if right.len() > 0 {
        assert((rest + right).last() == right.last());
        assert((rest + right).drop_last() =~= rest + right.drop_last());
        lemma_trim_end_padded(rest, right.drop_last());
    } else {
        assert(rest + right =~= rest);
    }
}

/// Text padded with white space on both sides trims back to itself when it
/// neither starts nor ends with white space.
pub proof fn lemma_trim_padded(left: Seq<char>, x: Seq<char>, right: Seq<char>)
    requires
        all_ws(left),
        all_ws(right),
        x.len() > 0,
        !is_ws(x[0]),
        !is_ws(x.last()),
    ensures
        trim(left + x + right) == x,
{
    lemma_trim_start_padded(left, x + right);
    assert(left + x + right =~= left + (x + right));
    assert((x + right)[0] == x[0]);
    lemma_trim_end_padded(x, right);
}

/// The decimal text of a natural number starts with `0` only when it is `0`.
pub proof fn lemma_nat_decimal_leading(n: nat)
    ensures
        nat_decimal(n)[0] == '0' ==> nat_decimal(n).len() == 1,
        nat_decimal(n).len() >= 1,
    decreases n,
{
    if n >= 10 {
        lemma_nat_decimal_leading(n / 10);
        assert(nat_decimal(n)[0] == nat_decimal(n / 10)[0]);
        if nat_decimal(n / 10)[0] == '0' {
            assert(nat_decimal(n / 10) =~= seq!['0']);
            lemma_zero_text(n / 10);
        }
    }
}

proof fn lemma_zero_text(n: nat)
    requires
        nat_decimal(n) == seq!['0'],
    ensures
        n == 0,
    decreases n,
{
    assert(nat_decimal(n).len() == 1);
    if n >= 10 {
        lemma_nat_decimal_leading(n / 10);
        assert(nat_decimal(n).len() == nat_decimal(n / 10).len() + 1);
    } else {
        lemma_digit_char(n as int);
        assert(nat_decimal(n)[0] == digit_char(n as int));
        assert(('0' as u32) == 48);
    }
}

/// Text without the separator is a single piece.
pub proof fn lemma_split_without_separator(s: Seq<char>, c: char)
    requires
        forall|i: int| 0 <= i < s.len() ==> #[trigger] s[i] != c,
    ensures
        split_char(s, c) == seq![s],
    decreases s.len(),
{
    if s.len() > 0 {
        lemma_split_without_separator(s.drop_last(), c);
        assert(s.drop_last().push(s.last()) =~= s);
        assert(split_char(s, c) =~= seq![s]);
    } else {
        assert(s =~= Seq::<char>::empty());
    }
}

/// A non-empty text without white space is one word, and a text of white
/// space alone has none.
pub proof fn law_word_count_single(s: Seq<char>)
    ensures
        s.len() > 0 && (forall|i: int| 0 <= i < s.len() ==> !is_ws(#[trigger] s[i])) ==> word_count(
            s,
        ) == 1,
        all_ws(s) ==> word_count(s) == 0,
    decreases s.len(),
{
    if s.len() > 0 {
        law_word_count_single(s.drop_last());
        let r = s.drop_last();
        assert(forall|i: int| 0 <= i < r.len() ==> r[i] == s[i]);
    }
}

/// Trimming drops exactly the white space around a text that neither starts
/// nor ends with white space.
pub proof fn law_trim_padded(left: Seq<char>, x: Seq<char>, right: Seq<char>)
    requires
        all_ws(left),
        all_ws(right),
        x.len() > 0,
        !is_ws(x[0]),
        !is_ws(x.last()),
    ensures
        trim(left + x + right) == x,
        trim(left + right).len() == 0,
{
    lemma_trim_padded(left, x, right);
    lemma_trim_start_padded(left + right, seq![]);
    assert(left + right + seq![] =~= left + right);
    assert forall|i: int| 0 <= i < (left + right).len() implies is_ws(#[trigger] (left + right)[i]) by {
        if i < left.len() {
            assert((left + right)[i] == left[i]);
        } else {
            assert((left + right)[i] == right[i - left.len()]);
        }
    }
}


/// The ASCII white space is tab, line feed, vertical tab, form feed,
/// carriage return and space; beyond ASCII it is U+0085, U+00A0, U+1680,
/// U+2000 to U+200A, U+2028, U+2029, U+202F, U+205F and U+3000.
pub proof fn law_white_space(c: char)
    ensures
        (c as u32) < 128 ==> (is_ws(c) <==> (9 <= (c as u32) <= 13 || (c as u32) == 32)),
        (c as u32) >= 128 ==> (is_ws(c) <==> ((c as u32) == 0x85 || (c as u32) == 0xa0 || (c as u32)
            == 0x1680 || (0x2000 <= (c as u32) <= 0x200a) || (c as u32) == 0x2028 || (c as u32)
            == 0x2029 || (c as u32) == 0x202f || (c as u32) == 0x205f || (c as u32) == 0x3000)),
{
}

/// ASCII lower-casing maps `A`..`Z` to `a`..`z` and leaves every other
/// character as it is.
pub proof fn law_ascii_lower(c: char)
    ensures
        65 <= (c as u32) <= 90 ==> (ascii_lower(c) as u32) == (c as u32) + 32,
        !(65 <= (c as u32) <= 90) ==> ascii_lower(c) == c,
{
}

/// Decimal text is positional: a number below ten is its one digit, and a
/// larger one is the text of its tenth followed by its last digit. A
/// negative number is `-` followed by the text of its magnitude.
pub proof fn law_decimal_text(n: nat, m: int)
    ensures
        n < 10 ==> nat_decimal(n) == seq![((n + 48) as u8) as char],
        n >= 10 ==> nat_decimal(n) == nat_decimal(n / 10).push(((n % 10 + 48) as u8) as char),
        m < 0 ==> int_decimal(m) == seq!['-'] + nat_decimal((-m) as nat),
        m >= 0 ==> int_decimal(m) == nat_decimal(m as nat),
{
}

/// Reading decimal text: digits give their positional value, a leading `+`
/// changes nothing and a leading `-` negates; text that is not an optional
/// sign followed by digits gives nothing.
pub proof fn law_decimal_reading(d: Seq<char>, c: char)
    requires
        all_digits(d),
        is_digit(c),
    ensures
        int_of_decimal(d) == Some(digits_value(d)),
        digits_value(d.push(c)) == 10 * digits_value(d) + ((c as u32) - 48),
        int_of_decimal(seq!['+'] + d) == Some(digits_value(d)),
        int_of_decimal(seq!['-'] + d) == Some(-digits_value(d)),
        int_of_decimal(Seq::<char>::empty()) is None,
        int_of_decimal(seq!['-']) is None,
{
    assert((seq!['+'] + d).drop_first() =~= d);
    assert((seq!['-'] + d).drop_first() =~= d);
    assert(d.push(c).drop_last() =~= d);
    assert(!is_digit('-'));
    assert(!is_digit('+'));
    assert(d[0] != '-' && d[0] != '+');
    assert(seq!['-'].drop_first().len() == 0);
}

/// Splitting on a separator: text joined by one separator splits into the
/// pieces of each side.
pub proof fn law_split_joined(a: Seq<char>, c: char, b: Seq<char>)
    requires
        forall|i: int| 0 <= i < a.len() ==> #[trigger] a[i] != c,
        forall|i: int| 0 <= i < b.len() ==> #[trigger] b[i] != c,
    ensures
        split_char(a + seq![c] + b, c) == seq![a, b],
        split_char(a, c) == seq![a],
    decreases b.len(),
{
    lemma_split_without_separator(a, c);
    let s = a + seq![c] + b;
    if b.len() == 0 {
        assert(s =~= a.push(c));
        assert(s.drop_last() =~= a);
        assert(s.last() == c);
        assert(b =~= Seq::<char>::empty());
        assert(split_char(s, c) =~= seq![a, b]);
    } else {
        law_split_joined(a, c, b.drop_last());
        assert(s.drop_last() =~= a + seq![c] + b.drop_last());
        assert(s.last() == b.last());
        assert(b[b.len() - 1] != c);
        assert(b.drop_last().push(b.last()) =~= b);
        assert(split_char(s.drop_last(), c) == seq![a, b.drop_last()]);
        assert(split_char(s, c) =~= seq![a, b]);
    }
}

} // verus!
