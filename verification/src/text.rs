//! Tests and cuts on names.

use vstd::prelude::*;

verus! {

/// `s` without the underscores that it begins with.
pub open spec fn without_leading_underscores(s: Seq<char>) -> Seq<char>
    decreases s.len(),
{
    if s.len() > 0 && s[0] == '_' {
        without_leading_underscores(s.drop_first())
    } else {
        s
    }
}

/// `s` without its first character.
pub open spec fn without_first(s: Seq<char>) -> Seq<char> {
    s.subrange(1, s.len() as int)
}

/// What is left after the leading underscores does not begin with one.
pub proof fn lemma_no_leading_underscore(s: Seq<char>)
    ensures
        without_leading_underscores(s).len() == 0 || without_leading_underscores(s)[0] != '_',
    decreases s.len(),
{
    if s.len() > 0 && s[0] == '_' {
        lemma_no_leading_underscore(s.drop_first());
    }
}

/// Whether two texts hold the same characters.
pub fn same_text(a: &str, b: &str) -> (same: bool)
    ensures
        same == (a@ == b@),
{
    let left = String::from_str(a);
    let right = String::from_str(b);
    left == right
}

/// Whether `s` begins with `prefix`.
pub fn starts_with(s: &str, prefix: &str) -> (found: bool)
    ensures
        found == prefix@.is_prefix_of(s@),
{
    let n = s.unicode_len();
    let k = prefix.unicode_len();
    if k > n {
        return false;
    }
    same_text(s.substring_char(0, k), prefix)
}

/// Whether `s` ends with `suffix`.
pub fn ends_with(s: &str, suffix: &str) -> (found: bool)
    ensures
        found == suffix@.is_suffix_of(s@),
{
    let n = s.unicode_len();
    let k = suffix.unicode_len();
    if k > n {
        return false;
    }
    same_text(s.substring_char(n - k, n), suffix)
}

/// A copy of `s` from its first character that is no underscore.
pub fn trim_leading_underscores(s: &str) -> (trimmed: String)
    ensures
        trimmed@ == without_leading_underscores(s@),
{
    let n = s.unicode_len();
    let mut start: usize = 0;
    assert(s@.subrange(0, n as int) == s@);
    while start < n && s.get_char(start) == '_'
        invariant
            start <= n,
            n == s@.len(),
            without_leading_underscores(s@) == without_leading_underscores(
                s@.subrange(start as int, n as int),
            ),
        decreases n - start,
    {
        proof {
            let rest = s@.subrange(start as int, n as int);
            assert(rest.drop_first() == s@.subrange(start + 1, n as int));
        }
        start += 1;
    }
    proof {
        let rest = s@.subrange(start as int, n as int);
        assert(start < n ==> rest[0] == s@[start as int]);
    }
    String::from_str(s.substring_char(start, n))
}

/// A copy of `s` without its first character.
pub fn drop_first_char(s: &str) -> (rest: String)
    requires
        s@.len() > 0,
    ensures
        rest@ == without_first(s@),
{
    let n = s.unicode_len();
    String::from_str(s.substring_char(1, n))
}

} // verus!
