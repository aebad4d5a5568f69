//! What a watermarking request asks for: the text, taken from the query of
//! the user's URL.

use vstd::prelude::*;
use vstd::string::StrSliceExecFns;
use crate::watermark::chars_of;

verus! {

/// `s` holds the character `c`.
pub open spec fn has_char(s: Seq<char>, c: char) -> bool {
    exists|i: int| 0 <= i < s.len() && s[i] == c
}

/// Index of the first `c` in `s` (meaningful where `has_char(s, c)`).
pub open spec fn first_index(s: Seq<char>, c: char) -> int {
    choose|i: int| 0 <= i < s.len() && s[i] == c && forall|j: int| 0 <= j < i ==> s[j] != c
}

/// The query of a URL: what follows its first `?`, up to the next `?`.
#[verifier::opaque]
pub open spec fn query_of(url: Seq<char>) -> Option<Seq<char>> {
    if has_char(url, '?') {
        let rest = url.subrange(first_index(url, '?') + 1, url.len() as int);
        if has_char(rest, '?') {
            Some(rest.subrange(0, first_index(rest, '?')))
        } else {
            Some(rest)
        }
    } else {
        None
    }
}

/// The value that a `key=value` piece gives to `key`, if the piece has an
/// `=` (split at the first one) and its key is `key`.
pub open spec fn piece_value(piece: Seq<char>, key: Seq<char>) -> Option<Seq<char>> {
    if has_char(piece, '=') && piece.subrange(0, first_index(piece, '=')) == key {
        Some(piece.subrange(first_index(piece, '=') + 1, piece.len() as int))
    } else {
        None
    }
}

/// `later` where it is set, else `earlier`.
pub open spec fn overriding(earlier: Option<Seq<char>>, later: Option<Seq<char>>) -> Option<
    Seq<char>,
> {
    if later is Some {
        later
    } else {
        earlier
    }
}

/// The value of `key` among the `&`-separated pieces of a query; where the
/// key occurs more than once, the last occurrence wins.
#[verifier::opaque]
pub open spec fn param_in(query: Seq<char>, key: Seq<char>) -> Option<Seq<char>>
    decreases query.len(),
{
    if has_char(query, '&') {
        let i = first_index(query, '&');
        if 0 <= i < query.len() {
            overriding(
                piece_value(query.subrange(0, i), key),
                param_in(query.subrange(i + 1, query.len() as int), key),
            )
        } else {
            None
        }
    } else {
        piece_value(query, key)
    }
}

/// The value of the query parameter `key` in `url`.
pub open spec fn url_param(url: Seq<char>, key: Seq<char>) -> Option<Seq<char>> {
    match query_of(url) {
        Some(q) => param_in(q, key),
        None => None,
    }
}

pub open spec fn string_option_view(o: Option<String>) -> Option<Seq<char>> {
    match o {
        Some(s) => Some(s@),
        None => None,
    }
}

proof fn lemma_first_index(s: Seq<char>, c: char, k: int)
    requires
        0 <= k < s.len(),
        s[k] == c,
        forall|j: int| 0 <= j < k ==> s[j] != c,
    ensures
        has_char(s, c),
        first_index(s, c) == k,
{
    let i = first_index(s, c);
    assert(0 <= i < s.len() && s[i] == c && forall|j: int| 0 <= j < i ==> s[j] != c);
    if i < k {
        assert(s[i] != c);
    }
    if i > k {
        assert(s[k] != c);
    }
}

/// First index at or after `from` and before `to` of `c` in `s`, or `to`.
fn find_char(s: &Vec<char>, c: char, from: usize, to: usize) -> (r: usize)
    requires
        from <= to <= s@.len(),
    ensures
        from <= r <= to,
        r < to ==> s@[r as int] == c,
        forall|j: int| from <= j < r ==> s@[j] != c,
{
    let mut i: usize = from;
    while i < to && s[i] != c
        invariant
            from <= i <= to,
            to <= s@.len(),
            forall|j: int| from <= j < i ==> s@[j] != c,
        decreases to - i,
    {
        i = i + 1;
    }
    i
}

/// Whether `s[from..to]` is `key`.
fn matches_at(s: &Vec<char>, from: usize, to: usize, key: &Vec<char>) -> (r: bool)
    requires
        from <= to <= s@.len(),
    ensures
        r == (s@.subrange(from as int, to as int) == key@),
{
    if to - from != key.len() {
        return false;
    }
    let mut i: usize = 0;
    while i < key.len()
        invariant
            from <= to <= s@.len(),
            to - from == key@.len(),
            i <= key@.len(),
            forall|j: int| 0 <= j < i ==> s@[from + j] == key@[j],
        decreases key@.len() - i,
    {
        if s[from + i] != key[i] {
            assert(s@.subrange(from as int, to as int)[i as int] != key@[i as int]);
            return false;
        }
        i = i + 1;
    }
    assert(s@.subrange(from as int, to as int) =~= key@);
    true
}

/// The value of the query parameter `key` in `url`: the query is what
/// follows the first `?` up to the next one, its pieces are separated by
/// `&`, each splits at its first `=` into key and value, pieces without `=`
/// are ignored, and the last piece with the key wins.
pub fn query_param(url: &str, key: &str) -> (r: Option<String>)
    ensures
        string_option_view(r) == url_param(url@, key@),
{
    let s = chars_of(url);
    let k = chars_of(key);
    let n: usize = s.len();
    let q = find_char(&s, '?', 0, n);
    if q == n {
        proof {
            reveal(query_of);
            assert(!has_char(s@, '?'));
        }
        return None;
    }
    let end = find_char(&s, '?', q + 1, n);
    proof {
        lemma_query(s@, q as int, end as int);
    }
    let mut found: Option<String> = None;
    let mut a: usize = q + 1;
    loop
        invariant
            q + 1 <= a <= end,
            end <= n,
            n == s@.len(),
            s@ == url@,
            k@ == key@,
            url_param(url@, key@) == param_in(s@.subrange(q + 1, end as int), key@),
            param_in(s@.subrange(q + 1, end as int), key@) == overriding(
                string_option_view(found),
                param_in(s@.subrange(a as int, end as int), key@),
            ),
        decreases end - a,
    {
        let b = find_char(&s, '&', a, end);
        let eq = find_char(&s, '=', a, b);
        proof {
            lemma_param_step(s@, a as int, b as int, end as int, key@);
            lemma_piece_value(s@, a as int, b as int, eq as int, key@);
        }
        if eq < b && matches_at(&s, a, eq, &k) {
            let v = url.substring_char(eq + 1, b).to_owned();
            assert(v@ == s@.subrange(eq + 1, b as int));
            found = Some(v);
        }
        if b == end {
            return found;
        }
        a = b + 1;
    }
}

proof fn lemma_query(s: Seq<char>, q: int, end: int)
    requires
        0 <= q < end <= s.len(),
        s[q] == '?',
        forall|j: int| 0 <= j < q ==> s[j] != '?',
        end < s.len() ==> s[end] == '?',
        forall|j: int| q + 1 <= j < end ==> s[j] != '?',
    ensures
        query_of(s) == Some(s.subrange(q + 1, end)),
{
    reveal(query_of);
    lemma_first_index(s, '?', q);
    let rest = s.subrange(q + 1, s.len() as int);
    if end < s.len() {
        lemma_first_index(rest, '?', end - q - 1);
        assert(rest.subrange(0, end - q - 1) =~= s.subrange(q + 1, end));
    } else {
        assert(!has_char(rest, '?')) by {
            if has_char(rest, '?') {
                let i = choose|i: int| 0 <= i < rest.len() && rest[i] == '?';
                assert(s[q + 1 + i] == '?');
            }
        }
        assert(rest =~= s.subrange(q + 1, end));
    }
}

proof fn lemma_piece_value(s: Seq<char>, a: int, b: int, eq: int, key: Seq<char>)
    requires
        0 <= a <= eq <= b <= s.len(),
        eq < b ==> s[eq] == '=',
        forall|j: int| a <= j < eq ==> s[j] != '=',
    ensures
        piece_value(s.subrange(a, b), key) == (if eq < b && s.subrange(a, eq) == key {
            Some(s.subrange(eq + 1, b))
        } else {
            None
        }),
{
    let piece = s.subrange(a, b);
    if eq < b {
        lemma_first_index(piece, '=', eq - a);
        assert(piece.subrange(0, eq - a) =~= s.subrange(a, eq));
        assert(piece.subrange(eq - a + 1, piece.len() as int) =~= s.subrange(eq + 1, b));
    } else {
        assert(!has_char(piece, '=')) by {
            if has_char(piece, '=') {
                let i = choose|i: int| 0 <= i < piece.len() && piece[i] == '=';
                assert(s[a + i] == '=');
            }
        }
    }
}

proof fn lemma_param_step(s: Seq<char>, a: int, b: int, end: int, key: Seq<char>)
    requires
        0 <= a <= b <= end <= s.len(),
        b < end ==> s[b] == '&',
        forall|j: int| a <= j < b ==> s[j] != '&',
    ensures
        b == end ==> param_in(s.subrange(a, end), key) == piece_value(s.subrange(a, b), key),
        b < end ==> param_in(s.subrange(a, end), key) == overriding(
            piece_value(s.subrange(a, b), key),
            param_in(s.subrange(b + 1, end), key),
        ),
{
    reveal(param_in);
    let remaining = s.subrange(a, end);
    if b < end {
        lemma_first_index(remaining, '&', b - a);
        assert(remaining.subrange(0, b - a) =~= s.subrange(a, b));
        assert(remaining.subrange(b - a + 1, remaining.len() as int) =~= s.subrange(b + 1, end));
    } else {
        assert(!has_char(remaining, '&')) by {
            if has_char(remaining, '&') {
                let i = choose|i: int| 0 <= i < remaining.len() && remaining[i] == '&';
                assert(s[a + i] == '&');
            }
        }
        assert(remaining =~= s.subrange(a, b));
    }
}

/// The text to watermark with: the `usercode` query parameter of `url`, or
/// `WATERMARK` where the URL has none.
pub fn watermark_text(url: &str) -> (r: String)
    ensures
        r@ == (match url_param(url@, "usercode"@) {
            Some(v) => v,
            None => "WATERMARK"@,
        }),
{
    match query_param(url, "usercode") {
        Some(v) => v,
        None => "WATERMARK".to_owned(),
    }
}

} // verus!
