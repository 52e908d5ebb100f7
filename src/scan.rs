//! Scanning over the characters of the input: trivia, comments and tokens.
use vstd::prelude::*;
use crate::grammar::{
    bare_end, block_comment_end, comment_end, is_bare, is_digit, is_number_text, is_space,
    line_comment_end, skip_space, skip_trivia, string_end,
};

verus! {

pub(crate) fn is_space_char(c: char) -> (r: bool)
    ensures
        r == is_space(c),
{
    c == ' ' || c == '\t' || c == '\n' || c == '\r'
}

pub(crate) fn is_bare_char(c: char) -> (r: bool)
    ensures
        r == is_bare(c),
{
    !is_space_char(c) && !(c == '{' || c == '}' || c == '(' || c == ')' || c == '=' || c == ';'
        || c == ',' || c == '"')
}

pub(crate) fn line_comment_end_at(s: &[char], i: usize) -> (r: usize)
    requires
        i <= s@.len(),
    ensures
        r as int == line_comment_end(s@, i as int),
        i <= r <= s@.len(),
{
    let mut k = i;
    while k < s.len() && s[k] != '\n'
        invariant
            i <= k <= s@.len(),
            line_comment_end(s@, k as int) == line_comment_end(s@, i as int),
        decreases s.len() - k,
    {
        k = k + 1;
    }
    if k < s.len() {
        k + 1
    } else {
        s.len()
    }
}

pub(crate) fn block_comment_end_at(s: &[char], i: usize) -> (r: Option<usize>)
    requires
        i <= s@.len(),
    ensures
        match r {
            Some(e) => block_comment_end(s@, i as int) == Some(e as int) && i + 2 <= e <= s@.len(),
            None => block_comment_end(s@, i as int) is None,
        },
{
    let mut k = i;
    while k < s.len() && k + 1 < s.len()
        invariant
            i <= k <= s@.len(),
            block_comment_end(s@, k as int) == block_comment_end(s@, i as int),
        decreases s.len() - k,
    {
        if s[k] == '*' && s[k + 1] == '/' {
            return Some(k + 2);
        }
        k = k + 1;
    }
    None
}

/// The end of the comment that starts at `i`, if one does.
pub(crate) fn comment_end_at(s: &[char], i: usize) -> (r: Option<usize>)
    requires
        i <= s@.len(),
    ensures
        match r {
            Some(e) => comment_end(s@, i as int) == Some(e as int) && i + 2 <= e <= s@.len(),
            None => comment_end(s@, i as int) is None,
        },
{
    if i < s.len() && i + 1 < s.len() && s[i] == '/' && s[i + 1] == '/' {
        Some(line_comment_end_at(s, i + 2))
    } else if i < s.len() && i + 1 < s.len() && s[i] == '/' && s[i + 1] == '*' {
        block_comment_end_at(s, i + 2)
    } else {
        None
    }
}

pub(crate) fn skip_space_at(s: &[char], i: usize) -> (r: usize)
    requires
        i <= s@.len(),
    ensures
        r as int == skip_space(s@, i as int),
        i <= r <= s@.len(),
{
    let mut k = i;
    while k < s.len() && is_space_char(s[k])
        invariant
            i <= k <= s@.len(),
            skip_space(s@, k as int) == skip_space(s@, i as int),
        decreases s.len() - k,
    {
        k = k + 1;
    }
    k
}

pub(crate) fn skip_trivia_at(s: &[char], i: usize) -> (r: usize)
    requires
        i <= s@.len(),
    ensures
        r as int == skip_trivia(s@, i as int),
        i <= r <= s@.len(),
{
    let mut k = i;
    loop
        invariant
            i <= k <= s@.len(),
            skip_trivia(s@, k as int) == skip_trivia(s@, i as int),
        decreases s.len() - k,
    {
        if k < s.len() && is_space_char(s[k]) {
            k = k + 1;
        } else {
            match comment_end_at(s, k) {
                Some(e) => {
                    k = e;
                },
                None => {
                    return k;
                },
            }
        }
    }
}

pub(crate) fn bare_end_at(s: &[char], i: usize) -> (r: usize)
    requires
        i <= s@.len(),
    ensures
        r as int == bare_end(s@, i as int),
        i <= r <= s@.len(),
{
    let mut k = i;
    while k < s.len() && is_bare_char(s[k])
        invariant
            i <= k <= s@.len(),
            bare_end(s@, k as int) == bare_end(s@, i as int),
        decreases s.len() - k,
    {
        k = k + 1;
    }
    k
}

pub(crate) fn string_end_at(s: &[char], i: usize) -> (r: Option<usize>)
    requires
        i <= s@.len(),
    ensures
        match r {
            Some(e) => string_end(s@, i as int) == Some(e as int) && i < e <= s@.len(),
            None => string_end(s@, i as int) is None,
        },
{
    let mut k = i;
    while k < s.len()
        invariant
            i <= k <= s@.len() + 1,
            string_end(s@, k as int) == string_end(s@, i as int),
        decreases s.len() + 1 - k,
    {
        if s[k] == '"' {
            return Some(k + 1);
        } else if s[k] == '\\' && k + 1 < s.len() {
            k = k + 2;
        } else {
            k = k + 1;
        }
    }
    None
}

/// Whether the characters from `a` to `b` form a number.
pub(crate) fn is_number_at(s: &[char], a: usize, b: usize) -> (r: bool)
    requires
        a <= b <= s@.len(),
    ensures
        r == is_number_text(s@.subrange(a as int, b as int)),
{
    let ghost t = s@.subrange(a as int, b as int);
    let mut k = a;
    if k < b && s[k] == '-' {
        k = k + 1;
    }
    if k >= b {
        return false;
    }
    let start = k;
    while k < b
        invariant
            a <= start <= k <= b <= s@.len(),
            start < b,
            t == s@.subrange(a as int, b as int),
            (start == a && s@[a as int] != '-') || (start == a + 1 && s@[a as int] == '-'),
            forall|m: int| start <= m < k ==> is_digit(#[trigger] s@[m]),
        decreases b - k,
    {
        if !('0' <= s[k] && s[k] <= '9') {
            assert(t[(k - a) as int] == s@[k as int]);
            return false;
        }
        k = k + 1;
    }
    assert forall|m: int| (start - a) <= m < t.len() implies is_digit(#[trigger] t[m]) by {
        assert(t[m] == s@[m + a]);
    }
    true
}

} // verus!
