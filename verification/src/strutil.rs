//! Verified character-level string helpers.
//!
//! URLs, listing bodies and rendered summaries are all reasoned about as
//! sequences of characters; these helpers give exact contracts for the
//! few primitive scans the rest of the library needs.

use vstd::prelude::*;

verus! {

/// `n` occurs in `h` starting at position `i`.
pub open spec fn spec_matches_at(h: Seq<char>, n: Seq<char>, i: int) -> bool {
    0 <= i && i + n.len() <= h.len() && h.subrange(i, i + n.len() as int) == n
}

/// `n` occurs somewhere in `h`.
pub open spec fn spec_contains(h: Seq<char>, n: Seq<char>) -> bool {
    exists|i: int| spec_matches_at(h, n, i)
}

/// Position of the first occurrence of `c` in `s` at or after `i`, or -1.
pub open spec fn spec_find(s: Seq<char>, c: char, i: int) -> int
    decreases s.len() - i,
{
    if i < 0 || i >= s.len() {
        -1
    } else if s[i] == c {
        i
    } else {
        spec_find(s, c, i + 1)
    }
}

/// Position of the last occurrence of `c` in `s` at or before `i`, or -1.
pub open spec fn spec_rfind(s: Seq<char>, c: char, i: int) -> int
    decreases i + 1,
{
    if i < 0 || i >= s.len() {
        -1
    } else if s[i] == c {
        i
    } else {
        spec_rfind(s, c, i - 1)
    }
}

pub proof fn lemma_find_bounds(s: Seq<char>, c: char, i: int)
    ensures
        spec_find(s, c, i) == -1 || (i <= spec_find(s, c, i) < s.len() && s[spec_find(s, c, i)]
            == c),
    decreases s.len() - i,
{
    if i < 0 || i >= s.len() {
    } else if s[i] == c {
    } else {
        lemma_find_bounds(s, c, i + 1);
    }
}

pub proof fn lemma_find_first(s: Seq<char>, c: char, i: int)
    requires
        0 <= i,
    ensures
        spec_find(s, c, i) >= 0 ==> forall|j: int| i <= j < spec_find(s, c, i) ==> s[j] != c,
        spec_find(s, c, i) == -1 ==> forall|j: int| i <= j < s.len() ==> s[j] != c,
    decreases s.len() - i,
{
    if i < 0 || i >= s.len() {
    } else if s[i] == c {
    } else {
        lemma_find_first(s, c, i + 1);
    }
}

pub proof fn lemma_rfind_bounds(s: Seq<char>, c: char, i: int)
    ensures
        spec_rfind(s, c, i) == -1 || (0 <= spec_rfind(s, c, i) <= i && spec_rfind(s, c, i)
            < s.len() && s[spec_rfind(s, c, i)] == c),
    decreases i + 1,
{
    if i < 0 || i >= s.len() {
    } else if s[i] == c {
    } else {
        lemma_rfind_bounds(s, c, i - 1);
    }
}

/// `s` itself when it already ends with a separator, else `s` with one
/// appended.
pub open spec fn spec_with_slash(s: Seq<char>) -> Seq<char> {
    if s.len() > 0 && s.last() == '/' {
        s
    } else {
        s.push('/')
    }
}

pub fn str_matches_at(hay: &str, needle: &str, i: usize) -> (r: bool)
    ensures
        r == spec_matches_at(hay@, needle@, i as int),
{
    let hlen = hay.unicode_len();
    let nlen = needle.unicode_len();
    if i > hlen || nlen > hlen - i {
        return false;
    }
    let mut j: usize = 0;
    while j < nlen
        invariant
            j <= nlen,
            i + nlen <= hlen,
            hlen == hay@.len(),
            nlen == needle@.len(),
            forall|k: int| 0 <= k < j ==> hay@[i + k] == needle@[k],
        decreases nlen - j,
    {
        if hay.get_char(i + j) != needle.get_char(j) {
            proof {
                assert(hay@.subrange(i as int, i + needle@.len()) != needle@) by {
                    assert(hay@.subrange(i as int, i + needle@.len())[j as int] == hay@[i + j]);
                }
            }
            return false;
        }
        j = j + 1;
    }
    proof {
        assert(hay@.subrange(i as int, i + needle@.len()) =~= needle@);
    }
    true
}

pub fn str_contains_sub(hay: &str, needle: &str) -> (r: bool)
    ensures
        r == spec_contains(hay@, needle@),
{
    let hlen = hay.unicode_len();
    let nlen = needle.unicode_len();
    if nlen > hlen {
        proof {
            assert forall|i: int| !spec_matches_at(hay@, needle@, i) by {}
        }
        return false;
    }
    if nlen == 0 {
        proof {
            assert(spec_matches_at(hay@, needle@, 0)) by {
                assert(hay@.subrange(0, 0) =~= needle@);
            }
        }
        return true;
    }
    let mut i: usize = 0;
    while i <= hlen - nlen
        invariant
            1 <= nlen <= hlen,
            hlen == hay@.len(),
            nlen == needle@.len(),
            i <= hlen - nlen + 1,
            forall|k: int| 0 <= k < i ==> !spec_matches_at(hay@, needle@, k),
        decreases hlen - nlen - i + 1,
    {
        if str_matches_at(hay, needle, i) {
            return true;
        }
        i = i + 1;
    }
    proof {
        assert forall|k: int| !spec_matches_at(hay@, needle@, k) by {}
    }
    false
}

/// `needle` is a prefix of `hay`.
pub fn str_has_prefix(hay: &str, needle: &str) -> (r: bool)
    ensures
        r == spec_matches_at(hay@, needle@, 0),
{
    str_matches_at(hay, needle, 0)
}

pub fn ends_with_slash(s: &str) -> (r: bool)
    ensures
        r == (s@.len() > 0 && s@.last() == '/'),
{
    let l = s.unicode_len();
    if l == 0 {
        false
    } else {
        s.get_char(l - 1) == '/'
    }
}

pub fn with_trailing_slash(url: &str) -> (r: String)
    ensures
        r@ == spec_with_slash(url@),
{
    if ends_with_slash(url) {
        String::from_str(url)
    } else {
        let t = String::from_str(url);
        let r = t.concat("/");
        proof {
            reveal_strlit("/");
            assert(r@ =~= url@.push('/'));
        }
        r
    }
}

pub fn find_char_from(s: &str, c: char, from: usize) -> (r: Option<usize>)
    ensures
        spec_find(s@, c, from as int) >= 0 ==> r == Some(spec_find(s@, c, from as int) as usize),
        spec_find(s@, c, from as int) == -1 ==> r is None,
{
    let l = s.unicode_len();
    let mut i: usize = from;
    if i >= l {
        return None;
    }
    while i < l
        invariant
            from <= i <= l,
            l == s@.len(),
            spec_find(s@, c, from as int) == spec_find(s@, c, i as int),
        decreases l - i,
    {
        if s.get_char(i) == c {
            return Some(i);
        }
        i = i + 1;
    }
    None
}

pub fn rfind_char(s: &str, c: char) -> (r: Option<usize>)
    ensures
        spec_rfind(s@, c, s@.len() - 1) >= 0 ==> r == Some(
            spec_rfind(s@, c, s@.len() - 1) as usize,
        ),
        spec_rfind(s@, c, s@.len() - 1) == -1 ==> r is None,
{
    let l = s.unicode_len();
    if l == 0 {
        return None;
    }
    let mut i: usize = l - 1;
    loop
        invariant
            i < l,
            l == s@.len(),
            spec_rfind(s@, c, l - 1) == spec_rfind(s@, c, i as int),
        decreases i,
    {
        if s.get_char(i) == c {
            return Some(i);
        }
        if i == 0 {
            proof {
                assert(spec_rfind(s@, c, -1) == -1);
            }
            return None;
        }
        i = i - 1;
    }
}

/// The decimal digit character for one digit value.
pub open spec fn digit_char(d: nat) -> char {
    if d == 0 {
        '0'
    } else if d == 1 {
        '1'
    } else if d == 2 {
        '2'
    } else if d == 3 {
        '3'
    } else if d == 4 {
        '4'
    } else if d == 5 {
        '5'
    } else if d == 6 {
        '6'
    } else if d == 7 {
        '7'
    } else if d == 8 {
        '8'
    } else {
        '9'
    }
}

/// The decimal rendering of a number, most significant digit first.
pub open spec fn spec_decimal(n: nat) -> Seq<char>
    decreases n,
{
    if n < 10 {
        seq![digit_char(n)]
    } else {
        spec_decimal(n / 10).push(digit_char(n % 10))
    }
}

fn digit_string(d: u64) -> (r: String)
    requires
        d < 10,
    ensures
        r@ =~= seq![digit_char(d as nat)],
{
    proof {
        reveal_strlit("0");
        reveal_strlit("1");
        reveal_strlit("2");
        reveal_strlit("3");
        reveal_strlit("4");
        reveal_strlit("5");
        reveal_strlit("6");
        reveal_strlit("7");
        reveal_strlit("8");
        reveal_strlit("9");
    }
    if d == 0 {
        String::from_str("0")
    } else if d == 1 {
        String::from_str("1")
    } else if d == 2 {
        String::from_str("2")
    } else if d == 3 {
        String::from_str("3")
    } else if d == 4 {
        String::from_str("4")
    } else if d == 5 {
        String::from_str("5")
    } else if d == 6 {
        String::from_str("6")
    } else if d == 7 {
        String::from_str("7")
    } else if d == 8 {
        String::from_str("8")
    } else {
        String::from_str("9")
    }
}

/// Renders a number in decimal.
pub fn decimal_string(n: u64) -> (r: String)
    ensures
        r@ == spec_decimal(n as nat),
    decreases n,
{
    if n < 10 {
        digit_string(n)
    } else {
        let high = decimal_string(n / 10);
        let low = digit_string(n % 10);
        let r = high.concat(low.as_str());
        proof {
            assert(r@ =~= spec_decimal((n / 10) as nat).push(digit_char((n % 10) as nat)));
        }
        r
    }
}

} // verus!
