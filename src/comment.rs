//! Comment text: recognising the two comment shapes and stripping their
//! delimiters, and the quotes of quoted literals.
use vstd::prelude::*;
use crate::model::option_text;
use crate::text::{chars_of, string_of, trim_of, trim_start_of, trim_text, trim_text_start};

verus! {

pub open spec fn starts_with(t: Seq<char>, p: Seq<char>) -> bool {
    p.len() <= t.len() && t.subrange(0, p.len() as int) == p
}

/// `t` opens with `/*` and closes with `*/`.
pub open spec fn is_block_comment_text(t: Seq<char>) -> bool {
    &&& t.len() >= 2
    &&& t[0] == '/' && t[1] == '*'
    &&& t[t.len() - 2] == '*' && t[t.len() - 1] == '/'
}

/// `t` opens with `//`.
pub open spec fn is_line_comment_text(t: Seq<char>) -> bool {
    t.len() >= 2 && t[0] == '/' && t[1] == '/'
}

pub open spec fn is_comment_shape(t: Seq<char>) -> bool {
    is_block_comment_text(t) || is_line_comment_text(t)
}

/// The text between a comment's delimiters, or `None` for text that is not a
/// comment.
pub open spec fn comment_body_of(t: Seq<char>) -> Option<Seq<char>> {
    if t.len() >= 4 && is_block_comment_text(t) {
        Some(t.subrange(2, t.len() - 2))
    } else if is_line_comment_text(t) {
        Some(t.subrange(2, t.len() as int))
    } else {
        None
    }
}

/// A comment's text with its delimiters and surrounding whitespace removed.
pub open spec fn cleaned_comment(raw: Seq<char>) -> Seq<char> {
    let t = trim_of(raw);
    match comment_body_of(t) {
        Some(b) => trim_of(b),
        None => t,
    }
}

/// The comment that follows a pair inside the text of its entry, if what
/// follows the pair is a comment and nothing else.
pub open spec fn inline_comment_of(entry: Seq<char>, pair: Seq<char>) -> Option<Seq<char>> {
    let te = trim_start_of(entry);
    if !starts_with(te, pair) {
        None
    } else {
        let c = trim_of(te.subrange(pair.len() as int, te.len() as int));
        if c.len() == 0 {
            None
        } else if is_comment_shape(c) {
            Some(cleaned_comment(c))
        } else {
            None
        }
    }
}

/// A quoted literal without its first and last character.
pub open spec fn unquoted(t: Seq<char>) -> Seq<char> {
    if t.len() >= 2 {
        t.subrange(1, t.len() - 1)
    } else {
        Seq::empty()
    }
}

fn has_prefix(t: &[char], p: &[char]) -> (r: bool)
    ensures
        r == starts_with(t@, p@),
{
    if p.len() > t.len() {
        return false;
    }
    let mut k: usize = 0;
    while k < p.len()
        invariant
            p@.len() <= t@.len(),
            k <= p@.len(),
            forall|m: int| 0 <= m < k ==> t@[m] == p@[m],
        decreases p.len() - k,
    {
        if t[k] != p[k] {
            assert(t@.subrange(0, p@.len() as int)[k as int] != p@[k as int]);
            return false;
        }
        k = k + 1;
    }
    assert(t@.subrange(0, p@.len() as int) =~= p@);
    true
}

fn block_shape(t: &[char]) -> (r: bool)
    ensures
        r == is_block_comment_text(t@),
{
    let n = t.len();
    n >= 2 && t[0] == '/' && t[1] == '*' && t[n - 2] == '*' && t[n - 1] == '/'
}

fn line_shape(t: &[char]) -> (r: bool)
    ensures
        r == is_line_comment_text(t@),
{
    t.len() >= 2 && t[0] == '/' && t[1] == '/'
}

/// Whether a text has one of the two comment shapes: `/* ... */`, or `//`
/// followed by anything.
pub fn is_comment_text(t: &str) -> (r: bool)
    ensures
        r == is_comment_shape(t@),
{
    let cs = chars_of(t);
    block_shape(cs.as_slice()) || line_shape(cs.as_slice())
}

/// The text between a comment's delimiters, or `None` for text that is not a
/// comment.
pub fn comment_body(t: &str) -> (r: Option<String>)
    ensures
        option_text(r) == comment_body_of(t@),
{
    let cs = chars_of(t);
    let n = cs.len();
    if n >= 4 && block_shape(cs.as_slice()) {
        Some(string_of(&cs.as_slice()[2..n - 2]))
    } else if line_shape(cs.as_slice()) {
        Some(string_of(&cs.as_slice()[2..n]))
    } else {
        None
    }
}

/// A comment's text with its delimiters (`/*`, `*/`, `//`) and surrounding
/// whitespace removed; text of another shape comes back trimmed.
pub fn clean_comment(raw: &str) -> (r: String)
    ensures
        r@ == cleaned_comment(raw@),
{
    let t = trim_text(raw);
    match comment_body(t) {
        Some(b) => trim_text(b.as_str()).to_owned(),
        None => t.to_owned(),
    }
}

/// The comment that trails a pair in its entry's text: the entry's text, less
/// its leading whitespace and the pair's text, must be one comment and nothing
/// else.
pub fn extract_inline_comment(entry_text: &str, pair_text: &str) -> (r: Option<String>)
    ensures
        option_text(r) == inline_comment_of(entry_text@, pair_text@),
{
    let te = chars_of(trim_text_start(entry_text));
    let pc = chars_of(pair_text);
    if !has_prefix(te.as_slice(), pc.as_slice()) {
        return None;
    }
    let rest = string_of(&te.as_slice()[pc.len()..te.len()]);
    let candidate = trim_text(rest.as_str());
    if candidate.unicode_len() == 0 {
        None
    } else if is_comment_text(candidate) {
        Some(clean_comment(candidate))
    } else {
        None
    }
}

/// A quoted literal without its enclosing quotes (its first and last
/// character); no escape sequence is interpreted.
pub fn unquote(s: &str) -> (r: String)
    ensures
        r@ == unquoted(s@),
{
    let cs = chars_of(s);
    let n = cs.len();
    if n >= 2 {
        string_of(&cs.as_slice()[1..n - 1])
    } else {
        String::new()
    }
}

} // verus!
