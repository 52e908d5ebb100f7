//! The grammar of the format, as a deterministic parsing function over the
//! characters of the input. Each function takes the position where its rule
//! starts and yields what the rule builds and the position after it, or the
//! position of the first mismatch and what was expected there.
use vstd::prelude::*;
use crate::comment::{cleaned_comment, inline_comment_of, unquoted};
use crate::error::{Expected, Rule, SyntaxError};
use crate::model::{EntryModel, ValueModel};

verus! {

/// The outcome of a rule: what it built and where it ended, or where and why
/// it failed.
pub type Outcome<T> = Result<(T, int), (int, Expected)>;

pub open spec fn is_space(c: char) -> bool {
    c == ' ' || c == '\t' || c == '\n' || c == '\r'
}

pub open spec fn is_delimiter(c: char) -> bool {
    c == '{' || c == '}' || c == '(' || c == ')' || c == '=' || c == ';' || c == ',' || c == '"'
}

/// A character that may stand in an unquoted token.
pub open spec fn is_bare(c: char) -> bool {
    !is_space(c) && !is_delimiter(c)
}

pub open spec fn is_digit(c: char) -> bool {
    '0' <= c && c <= '9'
}

pub open spec fn digits_from(t: Seq<char>, from: int) -> bool {
    forall|k: int| from <= k < t.len() ==> is_digit(#[trigger] t[k])
}

/// An optional `-` followed by one or more decimal digits.
pub open spec fn is_number_text(t: Seq<char>) -> bool {
    if t.len() > 0 && t[0] == '-' {
        t.len() >= 2 && digits_from(t, 1)
    } else {
        t.len() >= 1 && digits_from(t, 0)
    }
}

/// `s` holds `c` at `i`.
pub open spec fn at(s: Seq<char>, i: int, c: char) -> bool {
    0 <= i < s.len() && s[i] == c
}

/// The end of a line comment whose text continues at `i`: after the first
/// newline, or the end of input.
pub open spec fn line_comment_end(s: Seq<char>, i: int) -> int
    decreases s.len() - i,
{
    if i < 0 || i >= s.len() {
        s.len() as int
    } else if s[i] == '\n' {
        i + 1
    } else {
        line_comment_end(s, i + 1)
    }
}

/// The end of a block comment whose text continues at `i`: after the first
/// `*/`, if there is one.
pub open spec fn block_comment_end(s: Seq<char>, i: int) -> Option<int>
    decreases s.len() - i,
{
    if i < 0 || i + 1 >= s.len() {
        None
    } else if s[i] == '*' && s[i + 1] == '/' {
        Some(i + 2)
    } else {
        block_comment_end(s, i + 1)
    }
}

/// The end of the comment that starts at `i`, if one does.
pub open spec fn comment_end(s: Seq<char>, i: int) -> Option<int> {
    if at(s, i, '/') && at(s, i + 1, '/') {
        Some(line_comment_end(s, i + 2))
    } else if at(s, i, '/') && at(s, i + 1, '*') {
        block_comment_end(s, i + 2)
    } else {
        None
    }
}

pub proof fn lemma_line_comment_end(s: Seq<char>, i: int)
    requires
        0 <= i,
    ensures
        i <= line_comment_end(s, i) <= s.len() || (i > s.len() && line_comment_end(s, i) == s.len()),
    decreases s.len() - i,
{
    if i < s.len() && s[i] != '\n' {
        lemma_line_comment_end(s, i + 1);
    }
}

pub proof fn lemma_block_comment_end(s: Seq<char>, i: int)
    requires
        0 <= i,
    ensures
        block_comment_end(s, i) matches Some(e) ==> i + 2 <= e <= s.len(),
    decreases s.len() - i,
{
    if i + 1 < s.len() && !(s[i] == '*' && s[i + 1] == '/') {
        lemma_block_comment_end(s, i + 1);
    }
}

pub proof fn lemma_comment_end(s: Seq<char>, i: int)
    ensures
        comment_end(s, i) matches Some(e) ==> 0 <= i && i + 2 <= e <= s.len(),
{
    if at(s, i, '/') && at(s, i + 1, '/') {
        lemma_line_comment_end(s, i + 2);
    } else if at(s, i, '/') && at(s, i + 1, '*') {
        lemma_block_comment_end(s, i + 2);
    }
}

/// The position after the whitespace that starts at `i`.
pub open spec fn skip_space(s: Seq<char>, i: int) -> int
    decreases s.len() - i,
{
    if 0 <= i < s.len() && is_space(s[i]) {
        skip_space(s, i + 1)
    } else {
        i
    }
}

/// The position after the whitespace and comments that start at `i`.
pub open spec fn skip_trivia(s: Seq<char>, i: int) -> int
    decreases s.len() - i,
{
    if 0 <= i < s.len() && is_space(s[i]) {
        skip_trivia(s, i + 1)
    } else {
        match comment_end(s, i) {
            Some(e) => {
                proof {
                    lemma_comment_end(s, i);
                }
                skip_trivia(s, e)
            },
            None => i,
        }
    }
}

pub proof fn lemma_skip_space(s: Seq<char>, i: int)
    ensures
        i <= skip_space(s, i),
        0 <= i <= s.len() ==> skip_space(s, i) <= s.len(),
    decreases s.len() - i,
{
    if 0 <= i < s.len() && is_space(s[i]) {
        lemma_skip_space(s, i + 1);
    }
}

pub proof fn lemma_skip_trivia(s: Seq<char>, i: int)
    ensures
        i <= skip_trivia(s, i),
        0 <= i <= s.len() ==> skip_trivia(s, i) <= s.len(),
    decreases s.len() - i,
{
    if 0 <= i < s.len() && is_space(s[i]) {
        lemma_skip_trivia(s, i + 1);
    } else {
        lemma_comment_end(s, i);
        if let Some(e) = comment_end(s, i) {
            lemma_skip_trivia(s, e);
        }
    }
}

/// The end of the run of bare characters that starts at `i`.
pub open spec fn bare_end(s: Seq<char>, i: int) -> int
    decreases s.len() - i,
{
    if 0 <= i < s.len() && is_bare(s[i]) {
        bare_end(s, i + 1)
    } else {
        i
    }
}

pub proof fn lemma_bare_end(s: Seq<char>, i: int)
    ensures
        i <= bare_end(s, i),
        0 <= i <= s.len() ==> bare_end(s, i) <= s.len(),
        forall|k: int| i <= k < bare_end(s, i) ==> is_bare(#[trigger] s[k]),
    decreases s.len() - i,
{
    if 0 <= i < s.len() && is_bare(s[i]) {
        lemma_bare_end(s, i + 1);
    }
}

/// The end of a quoted string whose text continues at `i`: after the first
/// `"` that no backslash escapes, if there is one.
pub open spec fn string_end(s: Seq<char>, i: int) -> Option<int>
    decreases s.len() - i,
{
    if i < 0 || i >= s.len() {
        None
    } else if s[i] == '"' {
        Some(i + 1)
    } else if s[i] == '\\' && i + 1 < s.len() {
        string_end(s, i + 2)
    } else {
        string_end(s, i + 1)
    }
}

pub proof fn lemma_string_end(s: Seq<char>, i: int)
    ensures
        string_end(s, i) matches Some(e) ==> 0 <= i < e <= s.len(),
    decreases s.len() - i,
{
    if 0 <= i < s.len() && s[i] != '"' {
        if s[i] == '\\' && i + 1 < s.len() {
            lemma_string_end(s, i + 2);
        } else {
            lemma_string_end(s, i + 1);
        }
    }
}

/// A quoted string at `i`: its full text, quotes included.
pub open spec fn quoted_token(s: Seq<char>, i: int) -> Outcome<Seq<char>> {
    match string_end(s, i + 1) {
        Some(e) => Ok((s.subrange(i, e), e)),
        None => Err((s.len() as int, Expected::ClosingQuote)),
    }
}

/// A string, identifier or number at `i`.
pub open spec fn parse_scalar(s: Seq<char>, i: int) -> Outcome<ValueModel> {
    if at(s, i, '"') {
        match quoted_token(s, i) {
            Ok((t, e)) => Ok((ValueModel::Str(unquoted(t)), e)),
            Err(x) => Err(x),
        }
    } else if 0 <= i < s.len() && is_bare(s[i]) {
        let e = bare_end(s, i);
        let t = s.subrange(i, e);
        if is_number_text(t) {
            Ok((ValueModel::Number(t), e))
        } else {
            Ok((ValueModel::Identifier(t), e))
        }
    } else {
        Err((i, Expected::Value))
    }
}

/// A key at `i`: a quoted string, unquoted, or an identifier.
pub open spec fn parse_key(s: Seq<char>, i: int) -> Outcome<Seq<char>> {
    if at(s, i, '"') {
        match quoted_token(s, i) {
            Ok((t, e)) => Ok((unquoted(t), e)),
            Err(x) => Err(x),
        }
    } else if 0 <= i < s.len() && is_bare(s[i]) && !is_number_text(s.subrange(i, bare_end(s, i))) {
        Ok((s.subrange(i, bare_end(s, i)), bare_end(s, i)))
    } else {
        Err((i, Expected::Key))
    }
}

pub proof fn lemma_parse_key(s: Seq<char>, i: int)
    ensures
        parse_key(s, i) matches Ok((k, e)) ==> 0 <= i < e <= s.len(),
{
    if at(s, i, '"') {
        lemma_string_end(s, i + 1);
    } else {
        lemma_bare_end(s, i);
        lemma_bare_end(s, i + 1);
    }
}

/// A value at `i` (after any trivia).
pub open spec fn parse_value(s: Seq<char>, i: int) -> Outcome<ValueModel>
    decreases s.len() - i, 0int,
{
    if at(s, i, '{') {
        if at(s, skip_trivia(s, i + 1), '}') {
            Ok((ValueModel::Dictionary(Seq::empty()), skip_trivia(s, i + 1) + 1))
        } else {
            match parse_pair_sequence(s, i + 1, Seq::empty()) {
                Err(x) => Err(x),
                Ok((es, k)) => {
                    let m = skip_trivia(s, k);
                    if at(s, m, '}') {
                        Ok((ValueModel::Dictionary(es), m + 1))
                    } else {
                        Err((m, Expected::EntrySeparator))
                    }
                },
            }
        }
    } else if at(s, i, '(') {
        if at(s, skip_trivia(s, i + 1), ')') {
            Ok((ValueModel::Array(Seq::empty()), skip_trivia(s, i + 1) + 1))
        } else {
            match parse_value_list(s, i + 1, Seq::empty()) {
                Err(x) => Err(x),
                Ok((vs, k)) => {
                    let m = skip_trivia(s, k);
                    if at(s, m, ')') {
                        Ok((ValueModel::Array(vs), m + 1))
                    } else {
                        Err((m, Expected::ElementSeparator))
                    }
                },
            }
        }
    } else {
        parse_scalar(s, i)
    }
}

/// A pair at `i`: key, `=`, value, with trivia between them.
pub open spec fn parse_pair(s: Seq<char>, i: int) -> Outcome<(Seq<char>, ValueModel)>
    decreases s.len() - i, 0int,
{
    match parse_key(s, i) {
        Err(x) => Err(x),
        Ok((key, k1)) => {
            let k2 = skip_trivia(s, k1);
            if !at(s, k2, '=') {
                Err((k2, Expected::Equals))
            } else {
                proof {
                    lemma_parse_key(s, i);
                    lemma_skip_trivia(s, k1);
                    lemma_skip_trivia(s, k2 + 1);
                }
                match parse_value(s, skip_trivia(s, k2 + 1)) {
                    Err(x) => Err(x),
                    Ok((v, e)) => Ok(((key, v), e)),
                }
            }
        },
    }
}

/// The comment that trails a pair ending at `k`, in the entry whose text runs
/// from `i` to `e` and whose pair starts at `j`: the comment that starts after
/// the whitespace at `k`, or else what the entry's text shows.
pub open spec fn trailing_comment(s: Seq<char>, i: int, j: int, k: int, e: int) -> Option<Seq<char>> {
    let c = skip_space(s, k);
    match comment_end(s, c) {
        Some(ce) => Some(cleaned_comment(s.subrange(c, ce))),
        None => inline_comment_of(s.subrange(i, e), s.subrange(j, k)),
    }
}

/// The end of the trivia after a pair that ends at `k`.
pub open spec fn entry_end(s: Seq<char>, k: int) -> int {
    let c = skip_space(s, k);
    match comment_end(s, c) {
        Some(ce) => skip_trivia(s, ce),
        None => skip_trivia(s, k),
    }
}

/// A dictionary entry at `i`: trivia, a pair, its trailing comment if any,
/// and trivia.
pub open spec fn parse_pair_entry(s: Seq<char>, i: int) -> Outcome<EntryModel>
    decreases s.len() - i, 1int,
{
    let j = skip_trivia(s, i);
    proof {
        lemma_skip_trivia(s, i);
    }
    match parse_pair(s, j) {
        Err(x) => Err(x),
        Ok(((key, v), k)) => {
            let e = entry_end(s, k);
            Ok((EntryModel { key, value: v, comment: trailing_comment(s, i, j, k, e) }, e))
        },
    }
}

/// Entries separated by `;`, with one `;` allowed after the last, appended to
/// `acc`.
pub open spec fn parse_pair_sequence(s: Seq<char>, i: int, acc: Seq<EntryModel>) -> Outcome<
    Seq<EntryModel>,
>
    decreases s.len() - i, 2int,
{
    match parse_pair_entry(s, i) {
        Err(x) => Err(x),
        Ok((entry, k)) => {
            let acc2 = acc.push(entry);
            if at(s, k, ';') && k >= i {
                let n = skip_trivia(s, k + 1);
                if n >= s.len() || at(s, n, '}') {
                    Ok((acc2, k + 1))
                } else {
                    parse_pair_sequence(s, k + 1, acc2)
                }
            } else {
                Ok((acc2, k))
            }
        },
    }
}

/// An array element at `i`: trivia, a value, trivia.
pub open spec fn parse_value_entry(s: Seq<char>, i: int) -> Outcome<ValueModel>
    decreases s.len() - i, 1int,
{
    let j = skip_trivia(s, i);
    proof {
        lemma_skip_trivia(s, i);
    }
    match parse_value(s, j) {
        Err(x) => Err(x),
        Ok((v, k)) => Ok((v, skip_trivia(s, k))),
    }
}

/// Elements separated by `,`, with one `,` allowed after the last, appended
/// to `acc`.
pub open spec fn parse_value_list(s: Seq<char>, i: int, acc: Seq<ValueModel>) -> Outcome<
    Seq<ValueModel>,
>
    decreases s.len() - i, 2int,
{
    match parse_value_entry(s, i) {
        Err(x) => Err(x),
        Ok((v, k)) => {
            let acc2 = acc.push(v);
            if at(s, k, ',') && k >= i {
                let n = skip_trivia(s, k + 1);
                if n >= s.len() || at(s, n, ')') {
                    Ok((acc2, k + 1))
                } else {
                    parse_value_list(s, k + 1, acc2)
                }
            } else {
                Ok((acc2, k))
            }
        },
    }
}

/// A whole file: trivia, the top-level dictionary, trivia, end of input.
pub open spec fn parse_file(s: Seq<char>) -> Result<ValueModel, (int, Expected)> {
    let i = skip_trivia(s, 0);
    if !at(s, i, '{') {
        Err((i, Expected::Dictionary))
    } else {
        match parse_value(s, i) {
            Err(x) => Err(x),
            Ok((v, e)) => {
                let k = skip_trivia(s, e);
                if k == s.len() {
                    Ok(v)
                } else {
                    Err((k, Expected::EndOfInput))
                }
            },
        }
    }
}

} // verus!

verus! {

/// Where a rule's outcome ends, or where and why it failed.
pub open spec fn end_of<T>(o: Outcome<T>) -> Result<int, (int, Expected)> {
    match o {
        Ok((_, e)) => Ok(e),
        Err(x) => Err(x),
    }
}

/// Matching one rule of the grammar against the start of `s`: where the match
/// ends, or where and why it failed.
pub open spec fn rule_match(rule: Rule, s: Seq<char>) -> Result<int, (int, Expected)> {
    match rule {
        Rule::File => match parse_file(s) {
            Ok(_) => Ok(s.len() as int),
            Err(x) => Err(x),
        },
        Rule::Value => end_of(parse_value(s, 0)),
        Rule::Dictionary => if at(s, 0, '{') {
            end_of(parse_value(s, 0))
        } else {
            Err((0, Expected::Dictionary))
        },
        Rule::Array => if at(s, 0, '(') {
            end_of(parse_value(s, 0))
        } else {
            Err((0, Expected::Value))
        },
        Rule::PairSequence => end_of(parse_pair_sequence(s, 0, Seq::empty())),
        Rule::PairEntry => end_of(parse_pair_entry(s, 0)),
        Rule::PairComment => match comment_end(s, skip_space(s, 0)) {
            Some(e) => Ok(e),
            None => Err((skip_space(s, 0), Expected::Comment)),
        },
        Rule::Pair => end_of(parse_pair(s, 0)),
        Rule::Key => end_of(parse_key(s, 0)),
        Rule::ValueList => end_of(parse_value_list(s, 0, Seq::empty())),
        Rule::ValueEntry => end_of(parse_value_entry(s, 0)),
        Rule::String => if at(s, 0, '"') {
            end_of(quoted_token(s, 0))
        } else {
            Err((0, Expected::Value))
        },
        Rule::Identifier => if 0 < s.len() && is_bare(s[0]) && !is_number_text(
            s.subrange(0, bare_end(s, 0)),
        ) {
            Ok(bare_end(s, 0))
        } else {
            Err((0, Expected::Value))
        },
        Rule::Number => if 0 < s.len() && is_bare(s[0]) && is_number_text(
            s.subrange(0, bare_end(s, 0)),
        ) {
            Ok(bare_end(s, 0))
        } else {
            Err((0, Expected::Value))
        },
        Rule::LineComment => if at(s, 0, '/') && at(s, 1, '/') {
            Ok(line_comment_end(s, 2))
        } else {
            Err((0, Expected::Comment))
        },
        Rule::BlockComment => if at(s, 0, '/') && at(s, 1, '*') {
            match block_comment_end(s, 2) {
                Some(e) => Ok(e),
                None => Err((s.len() as int, Expected::CommentEnd)),
            }
        } else {
            Err((0, Expected::Comment))
        },
    }
}

/// The number of newlines before position `p`.
pub open spec fn newlines_before(s: Seq<char>, p: int) -> nat
    decreases p,
{
    if p <= 0 {
        0
    } else {
        newlines_before(s, p - 1) + if s[p - 1] == '\n' {
            1nat
        } else {
            0nat
        }
    }
}

/// The position where the line that holds position `p` starts.
pub open spec fn line_start(s: Seq<char>, p: int) -> int
    decreases p,
{
    if p <= 0 {
        0
    } else if s[p - 1] == '\n' {
        p
    } else {
        line_start(s, p - 1)
    }
}

/// `n + 1`, or the largest `usize` where that does not fit.
pub open spec fn count_from_one(n: int) -> usize {
    if n + 1 > usize::MAX {
        usize::MAX
    } else {
        (n + 1) as usize
    }
}

/// The syntax error at position `p`, with its line and column.
pub open spec fn syntax_error_at(s: Seq<char>, p: int, x: Expected) -> SyntaxError {
    SyntaxError {
        offset: p as usize,
        line: count_from_one(newlines_before(s, p) as int),
        column: count_from_one(p - line_start(s, p)),
        expected: x,
    }
}

} // verus!
