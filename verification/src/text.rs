//! Verified text helpers: character-level comparison and search, the
//! self-reference placeholder substitution, and decimal rendering of numbers.

use vstd::prelude::*;

verus! {

/// What `str::to_lowercase` returns: a function of the characters alone.
pub uninterp spec fn lower_of(s: Seq<char>) -> Seq<char>;

/// What `str::to_uppercase` returns: a function of the characters alone.
pub uninterp spec fn upper_of(s: Seq<char>) -> Seq<char>;

/// Relies on `str::to_lowercase`: the result depends on the characters alone,
/// each character maps to one or more characters, so only an empty string
/// yields an empty string.
#[verifier::external_body]
pub fn lowercase(s: &str) -> (r: String)
    ensures
        r@ == lower_of(s@),
        (r@.len() == 0) == (s@.len() == 0),
{
    s.to_lowercase()
}

/// Relies on `str::to_uppercase`: the result depends on the characters alone,
/// each character maps to one or more characters, so only an empty string
/// yields an empty string.
#[verifier::external_body]
pub fn uppercase(s: &str) -> (r: String)
    ensures
        r@ == upper_of(s@),
        (r@.len() == 0) == (s@.len() == 0),
{
    s.to_uppercase()
}

/// Compares two string slices character by character.
pub fn str_eq(a: &str, b: &str) -> (r: bool)
    ensures
        r == (a@ == b@),
{
    let alen = a.unicode_len();
    let blen = b.unicode_len();
    if alen != blen {
        assert(a@ !~= b@);
        return false;
    }
    let mut i: usize = 0;
    while i < alen
        invariant
            alen == a@.len(),
            blen == b@.len(),
            alen == blen,
            i <= alen,
            forall|j: int| 0 <= j < i ==> a@[j] == b@[j],
        decreases alen - i,
    {
        if a.get_char(i) != b.get_char(i) {
            assert(a@ != b@);
            return false;
        }
        i = i + 1;
    }
    assert(a@ =~= b@);
    true
}

/// The pattern `p` occurs in `s` starting at position `i`.
pub open spec fn contains_at(s: Seq<char>, p: Seq<char>, i: int) -> bool {
    0 <= i && i + p.len() <= s.len() && s.subrange(i, i + p.len()) == p
}

/// The pattern `p` occurs somewhere in `s`.
pub open spec fn has_pattern(s: Seq<char>, p: Seq<char>) -> bool {
    exists|i: int| contains_at(s, p, i)
}

/// Whether `p` occurs in `s` at position `i`, by comparing characters.
fn match_at(s: &str, p: &str, i: usize) -> (r: bool)
    requires
        i + p@.len() <= s@.len(),
        s@.len() <= usize::MAX,
    ensures
        r == contains_at(s@, p@, i as int),
{
    let plen = p.unicode_len();
    let mut j: usize = 0;
    while j < plen
        invariant
            plen == p@.len(),
            i + plen <= s@.len(),
            s@.len() <= usize::MAX,
            j <= plen,
            forall|t: int| 0 <= t < j ==> s@[i + t] == p@[t],
        decreases plen - j,
    {
        if s.get_char(i + j) != p.get_char(j) {
            assert(!contains_at(s@, p@, i as int)) by {
                assert(s@.subrange(i as int, i + p@.len())[j as int] == s@[i + j]);
            }
            return false;
        }
        j = j + 1;
    }
    assert(s@.subrange(i as int, i + p@.len()) =~= p@);
    true
}

/// Character-level substring search.
pub fn str_contains(s: &str, p: &str) -> (r: bool)
    ensures
        r == has_pattern(s@, p@),
{
    let slen = s.unicode_len();
    let plen = p.unicode_len();
    if plen > slen {
        assert(!has_pattern(s@, p@)) by {
            assert(forall|i: int| !contains_at(s@, p@, i));
        }
        return false;
    }
    if plen == 0 {
        assert(contains_at(s@, p@, 0)) by {
            assert(s@.subrange(0, 0) =~= p@);
        }
        return true;
    }
    let mut i: usize = 0;
    while i <= slen - plen
        invariant
            slen == s@.len(),
            plen == p@.len(),
            0 < plen <= slen,
            i <= slen - plen + 1,
            forall|j: int| 0 <= j < i ==> !contains_at(s@, p@, j),
        decreases slen - i,
    {
        if match_at(s, p, i) {
            assert(has_pattern(s@, p@));
            return true;
        }
        i = i + 1;
    }
    assert(!has_pattern(s@, p@)) by {
        assert(forall|j: int| i <= j ==> !contains_at(s@, p@, j));
    }
    false
}

/// The result of replacing, left to right, each occurrence of the two-character
/// self-reference placeholder `'_` in `s` by `lt`.
pub open spec fn subst(s: Seq<char>, lt: Seq<char>) -> Seq<char>
    decreases s.len(),
{
    if s.len() < 2 {
        s
    } else if s[0] == '\'' && s[1] == '_' {
        lt + subst(s.skip(2), lt)
    } else {
        seq![s[0]] + subst(s.skip(1), lt)
    }
}

/// Replaces every occurrence of the self-reference placeholder `'_` by `lt`.
pub fn replace_self_ref(s: &str, lt: &str) -> (r: String)
    ensures
        r@ == subst(s@, lt@),
    decreases s@.len(),
{
    let slen = s.unicode_len();
    if slen < 2 {
        return s.to_owned();
    }
    if s.get_char(0) == '\'' && s.get_char(1) == '_' {
        let rest = replace_self_ref(s.substring_char(2, slen), lt);
        let mut r = lt.to_owned();
        r.append(rest.as_str());
        assert(s@.subrange(2, slen as int) == s@.skip(2));
        r
    } else {
        let mut r = s.substring_char(0, 1).to_owned();
        let rest = replace_self_ref(s.substring_char(1, slen), lt);
        r.append(rest.as_str());
        assert(s@.subrange(1, slen as int) == s@.skip(1));
        assert(s@.subrange(0, 1) =~= seq![s@[0]]);
        r
    }
}

/// The decimal digit `d` as a character; `d` must be below ten.
pub open spec fn dec_digit(d: nat) -> char {
    if d == 0 { '0' }
    else if d == 1 { '1' }
    else if d == 2 { '2' }
    else if d == 3 { '3' }
    else if d == 4 { '4' }
    else if d == 5 { '5' }
    else if d == 6 { '6' }
    else if d == 7 { '7' }
    else if d == 8 { '8' }
    else { '9' }
}

/// The decimal representation of `n`, without leading zeros (except for zero
/// itself).
pub open spec fn dec_rep(n: nat) -> Seq<char>
    decreases n,
{
    if n < 10 {
        seq![dec_digit(n)]
    } else {
        dec_rep(n / 10).push(dec_digit(n % 10))
    }
}

/// One decimal digit as a string slice.
fn digit_str(d: usize) -> (r: &'static str)
    requires
        d < 10,
    ensures
        r@ == seq![dec_digit(d as nat)],
{
    let r = if d == 0 { "0" }
    else if d == 1 { "1" }
    else if d == 2 { "2" }
    else if d == 3 { "3" }
    else if d == 4 { "4" }
    else if d == 5 { "5" }
    else if d == 6 { "6" }
    else if d == 7 { "7" }
    else if d == 8 { "8" }
    else { "9" };
    proof {
        reveal_strlit("0");
        reveal_strlit("1");
        reveal_strlit("2");
        reveal_strlit("3");
        reveal_strlit("4");
        reveal_strlit("5");
        reveal_strlit("6");
        reveal_strlit("7");
        reveal_strlit("8");
        reveal_strlit("9");
    }
    assert(r@ =~= seq![dec_digit(d as nat)]);
    r
}

/// Renders `n` in decimal.
pub fn usize_to_string(n: usize) -> (r: String)
    ensures
        r@ == dec_rep(n as nat),
    decreases n,
{
    if n < 10 {
        digit_str(n).to_owned()
    } else {
        let mut r = usize_to_string(n / 10);
        r.append(digit_str(n % 10));
        assert(r@ =~= dec_rep((n / 10) as nat).push(dec_digit((n % 10) as nat)));
        r
    }
}

} // verus!
