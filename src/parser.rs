//! The recursive-descent parser: builds the document model while it
//! recognizes the grammar, and is proved to agree with it.
use vstd::prelude::*;
use crate::comment::{clean_comment, cleaned_comment, extract_inline_comment, unquote};
use crate::error::{Expected, PbxParseError, Rule, SyntaxError};
use crate::grammar::{
    comment_end, line_start, newlines_before, parse_file, parse_key, parse_pair, parse_pair_entry,
    parse_pair_sequence, parse_scalar, parse_value, parse_value_entry, parse_value_list,
    quoted_token, rule_match, skip_space, syntax_error_at, Outcome,
};
use crate::model::{
    entries_model, entry_model, lemma_entries_model_push, lemma_values_model_push, value_model,
    values_model, EntryModel, PbxDocument, PbxEntry, PbxValue, ValueModel,
};
use crate::scan::{
    bare_end_at, block_comment_end_at, comment_end_at, is_bare_char, is_number_at,
    line_comment_end_at, skip_space_at, skip_trivia_at, string_end_at,
};
use crate::text::{chars_of, string_of};

verus! {

/// What a step of the parser returns: what it built and where it ended, or
/// where it failed and what it expected there.
pub type Step<T> = Result<(T, usize), (usize, Expected)>;

/// A step agrees with the grammar's outcome, through the model `view`.
pub open spec fn agrees<T, M>(r: Step<T>, o: Outcome<M>, view: spec_fn(T) -> M) -> bool {
    match r {
        Ok((t, e)) => o == Ok::<(M, int), (int, Expected)>((view(t), e as int)),
        Err((p, x)) => o == Err::<(M, int), (int, Expected)>((p as int, x)),
    }
}

/// A successful step consumed input and stayed within it; a failure lies
/// within it.
pub open spec fn in_bounds<T>(r: Step<T>, i: int, n: int) -> bool {
    match r {
        Ok((_, e)) => i < e <= n,
        Err((p, _)) => p <= n,
    }
}

/// The quoted string at `i`, quotes included.
fn quoted_token_at(s: &[char], i: usize) -> (r: Step<String>)
    requires
        i < s@.len(),
        s@[i as int] == '"',
    ensures
        agrees(r, quoted_token(s@, i as int), |t: String| t@),
        in_bounds(r, i as int, s@.len() as int),
{
    let n = s.len();
    assert(i + 1 <= n);
    match string_end_at(s, i + 1) {
        Some(e) => Ok((string_of(&s[i..e]), e)),
        None => Err((s.len(), Expected::ClosingQuote)),
    }
}

/// A string, identifier or number at `i`.
fn parse_scalar_at(s: &[char], i: usize) -> (r: Step<PbxValue>)
    requires
        i <= s@.len(),
    ensures
        agrees(r, parse_scalar(s@, i as int), |v: PbxValue| value_model(v)),
        in_bounds(r, i as int, s@.len() as int),
{
    if i < s.len() && s[i] == '"' {
        match quoted_token_at(s, i) {
            Ok((t, e)) => Ok((PbxValue::String(unquote(t.as_str())), e)),
            Err(x) => Err(x),
        }
    } else if i < s.len() && is_bare_char(s[i]) {
        let e = bare_end_at(s, i);
        proof {
            crate::grammar::lemma_bare_end(s@, i + 1);
        }
        let t = string_of(&s[i..e]);
        if is_number_at(s, i, e) {
            Ok((PbxValue::Number(t), e))
        } else {
            Ok((PbxValue::Identifier(t), e))
        }
    } else {
        Err((i, Expected::Value))
    }
}

/// A key at `i`: a quoted string, unquoted, or an identifier.
fn parse_key_at(s: &[char], i: usize) -> (r: Step<String>)
    requires
        i <= s@.len(),
    ensures
        agrees(r, parse_key(s@, i as int), |k: String| k@),
        in_bounds(r, i as int, s@.len() as int),
{
    proof {
        crate::grammar::lemma_parse_key(s@, i as int);
    }
    if i < s.len() && s[i] == '"' {
        match quoted_token_at(s, i) {
            Ok((t, e)) => Ok((unquote(t.as_str()), e)),
            Err(x) => Err(x),
        }
    } else if i < s.len() && is_bare_char(s[i]) {
        let e = bare_end_at(s, i);
        if is_number_at(s, i, e) {
            Err((i, Expected::Key))
        } else {
            Ok((string_of(&s[i..e]), e))
        }
    } else {
        Err((i, Expected::Key))
    }
}

/// A value at `i`.
fn parse_value_at(s: &[char], i: usize) -> (r: Step<PbxValue>)
    requires
        i <= s@.len(),
    ensures
        agrees(r, parse_value(s@, i as int), |v: PbxValue| value_model(v)),
        in_bounds(r, i as int, s@.len() as int),
    decreases s@.len() - i, 0int,
{
    if i < s.len() && s[i] == '{' {
        let j = skip_trivia_at(s, i + 1);
        if j < s.len() && s[j] == '}' {
            let empty: Vec<PbxEntry> = Vec::new();
            assert(entries_model(empty@) == Seq::<EntryModel>::empty());
            return Ok((PbxValue::Dictionary(empty), j + 1));
        }
        match parse_pair_sequence_at(s, i + 1) {
            Err(x) => Err(x),
            Ok((es, k)) => {
                let m = skip_trivia_at(s, k);
                if m < s.len() && s[m] == '}' {
                    Ok((PbxValue::Dictionary(es), m + 1))
                } else {
                    Err((m, Expected::EntrySeparator))
                }
            },
        }
    } else if i < s.len() && s[i] == '(' {
        let j = skip_trivia_at(s, i + 1);
        if j < s.len() && s[j] == ')' {
            let empty: Vec<PbxValue> = Vec::new();
            assert(values_model(empty@) == Seq::<ValueModel>::empty());
            return Ok((PbxValue::Array(empty), j + 1));
        }
        match parse_value_list_at(s, i + 1) {
            Err(x) => Err(x),
            Ok((vs, k)) => {
                let m = skip_trivia_at(s, k);
                if m < s.len() && s[m] == ')' {
                    Ok((PbxValue::Array(vs), m + 1))
                } else {
                    Err((m, Expected::ElementSeparator))
                }
            },
        }
    } else {
        parse_scalar_at(s, i)
    }
}

/// A pair at `i`: key, `=`, value.
fn parse_pair_at(s: &[char], i: usize) -> (r: Step<(String, PbxValue)>)
    requires
        i <= s@.len(),
    ensures
        agrees(r, parse_pair(s@, i as int), |p: (String, PbxValue)| (p.0@, value_model(p.1))),
        in_bounds(r, i as int, s@.len() as int),
    decreases s@.len() - i, 0int,
{
    match parse_key_at(s, i) {
        Err(x) => Err(x),
        Ok((key, k1)) => {
            let k2 = skip_trivia_at(s, k1);
            if !(k2 < s.len() && s[k2] == '=') {
                return Err((k2, Expected::Equals));
            }
            let k3 = skip_trivia_at(s, k2 + 1);
            match parse_value_at(s, k3) {
                Err(x) => Err(x),
                Ok((v, e)) => Ok(((key, v), e)),
            }
        },
    }
}

/// The comment that directly follows, after spaces, a pair that ends at `k`:
/// its text without delimiters, and where it ends.
fn parse_pair_comment_at(s: &[char], k: usize) -> (r: Option<(String, usize)>)
    requires
        k <= s@.len(),
    ensures
        match r {
            Some((t, ce)) => comment_end(s@, skip_space(s@, k as int)) == Some(ce as int)
                && t@ == cleaned_comment(s@.subrange(skip_space(s@, k as int), ce as int))
                && k + 2 <= ce <= s@.len(),
            None => comment_end(s@, skip_space(s@, k as int)) is None,
        },
{
    let c = skip_space_at(s, k);
    match comment_end_at(s, c) {
        Some(ce) => {
            let raw = string_of(&s[c..ce]);
            Some((clean_comment(raw.as_str()), ce))
        },
        None => None,
    }
}

/// A dictionary entry at `i`, with the comment that trails its pair: the one
/// that directly follows the pair, or else the one that the entry's text
/// shows after the pair.
fn parse_pair_entry_at(s: &[char], i: usize) -> (r: Step<PbxEntry>)
    requires
        i <= s@.len(),
    ensures
        agrees(r, parse_pair_entry(s@, i as int), |e: PbxEntry| entry_model(e)),
        in_bounds(r, i as int, s@.len() as int),
    decreases s@.len() - i, 1int,
{
    let j = skip_trivia_at(s, i);
    let (key, value, k) = match parse_pair_at(s, j) {
        Err(x) => {
            return Err(x);
        },
        Ok(((key, value), k)) => (key, value, k),
    };
    let (comment, e) = match parse_pair_comment_at(s, k) {
        Some((text, ce)) => (Some(text), skip_trivia_at(s, ce)),
        None => {
            let e = skip_trivia_at(s, k);
            let entry_text = string_of(&s[i..e]);
            let pair_text = string_of(&s[j..k]);
            (extract_inline_comment(entry_text.as_str(), pair_text.as_str()), e)
        },
    };
    Ok((PbxEntry { key, value, comment }, e))
}

/// Entries separated by `;`, starting at `i`.
fn parse_pair_sequence_at(s: &[char], i: usize) -> (r: Step<Vec<PbxEntry>>)
    requires
        i <= s@.len(),
    ensures
        agrees(
            r,
            parse_pair_sequence(s@, i as int, Seq::empty()),
            |es: Vec<PbxEntry>| entries_model(es@),
        ),
        in_bounds(r, i as int, s@.len() as int),
    decreases s@.len() - i, 2int,
{
    let mut entries: Vec<PbxEntry> = Vec::new();
    let mut pos = i;
    assert(entries_model(entries@) == Seq::<EntryModel>::empty());
    loop
        invariant
            i <= pos <= s@.len(),
            parse_pair_sequence(s@, i as int, Seq::empty()) == parse_pair_sequence(
                s@,
                pos as int,
                entries_model(entries@),
            ),
        decreases s@.len() - pos,
    {
        match parse_pair_entry_at(s, pos) {
            Err(x) => {
                return Err(x);
            },
            Ok((entry, k)) => {
                proof {
                    lemma_entries_model_push(entries@, entry);
                }
                entries.push(entry);
                if k < s.len() && s[k] == ';' {
                    let n = skip_trivia_at(s, k + 1);
                    if n >= s.len() || s[n] == '}' {
                        return Ok((entries, k + 1));
                    }
                    pos = k + 1;
                } else {
                    return Ok((entries, k));
                }
            },
        }
    }
}

/// An array element at `i`.
fn parse_value_entry_at(s: &[char], i: usize) -> (r: Step<PbxValue>)
    requires
        i <= s@.len(),
    ensures
        agrees(r, parse_value_entry(s@, i as int), |v: PbxValue| value_model(v)),
        in_bounds(r, i as int, s@.len() as int),
    decreases s@.len() - i, 1int,
{
    let j = skip_trivia_at(s, i);
    match parse_value_at(s, j) {
        Err(x) => Err(x),
        Ok((v, k)) => Ok((v, skip_trivia_at(s, k))),
    }
}

/// Elements separated by `,`, starting at `i`.
fn parse_value_list_at(s: &[char], i: usize) -> (r: Step<Vec<PbxValue>>)
    requires
        i <= s@.len(),
    ensures
        agrees(
            r,
            parse_value_list(s@, i as int, Seq::empty()),
            |vs: Vec<PbxValue>| values_model(vs@),
        ),
        in_bounds(r, i as int, s@.len() as int),
    decreases s@.len() - i, 2int,
{
    let mut values: Vec<PbxValue> = Vec::new();
    let mut pos = i;
    assert(values_model(values@) == Seq::<ValueModel>::empty());
    loop
        invariant
            i <= pos <= s@.len(),
            parse_value_list(s@, i as int, Seq::empty()) == parse_value_list(
                s@,
                pos as int,
                values_model(values@),
            ),
        decreases s@.len() - pos,
    {
        match parse_value_entry_at(s, pos) {
            Err(x) => {
                return Err(x);
            },
            Ok((v, k)) => {
                proof {
                    lemma_values_model_push(values@, v);
                }
                values.push(v);
                if k < s.len() && s[k] == ',' {
                    let n = skip_trivia_at(s, k + 1);
                    if n >= s.len() || s[n] == ')' {
                        return Ok((values, k + 1));
                    }
                    pos = k + 1;
                } else {
                    return Ok((values, k));
                }
            },
        }
    }
}

/// A whole file: trivia, the top-level dictionary, trivia, end of input.
fn parse_file_at(s: &[char]) -> (r: Result<PbxValue, (usize, Expected)>)
    ensures
        match r {
            Ok(v) => parse_file(s@) == Ok::<ValueModel, (int, Expected)>(value_model(v)),
            Err((p, x)) => parse_file(s@) == Err::<ValueModel, (int, Expected)>((p as int, x))
                && p <= s@.len(),
        },
{
    let i = skip_trivia_at(s, 0);
    if !(i < s.len() && s[i] == '{') {
        return Err((i, Expected::Dictionary));
    }
    match parse_value_at(s, i) {
        Err(x) => Err(x),
        Ok((v, e)) => {
            let k = skip_trivia_at(s, e);
            if k == s.len() {
                Ok(v)
            } else {
                Err((k, Expected::EndOfInput))
            }
        },
    }
}

/// The syntax error at position `p`, with the line and column of `p`.
fn locate(s: &[char], p: usize, x: Expected) -> (r: SyntaxError)
    requires
        p <= s@.len(),
    ensures
        r == syntax_error_at(s@, p as int, x),
{
    let mut k: usize = 0;
    let mut newlines: usize = 0;
    let mut start: usize = 0;
    while k < p
        invariant
            k <= p <= s@.len(),
            newlines == newlines_before(s@, k as int),
            start == line_start(s@, k as int),
            newlines <= k,
            start <= k,
        decreases p - k,
    {
        if s[k] == '\n' {
            newlines = newlines + 1;
            start = k + 1;
        }
        k = k + 1;
    }
    SyntaxError {
        offset: p,
        line: newlines.saturating_add(1),
        column: (p - start).saturating_add(1),
        expected: x,
    }
}

/// Parses the text of a project file into a document. The result is the
/// grammar's reading of the text: the document whose root is the model that
/// the grammar builds, or the syntax error where the grammar fails first.
pub fn parse_document(source: &str) -> (r: Result<PbxDocument, PbxParseError>)
    ensures
        match r {
            Ok(d) => parse_file(source@) == Ok::<ValueModel, (int, Expected)>(d.model()),
            Err(e) => parse_file(source@) matches Err((p, x)) && e == PbxParseError::Syntax(
                syntax_error_at(source@, p, x),
            ),
        },
{
    let cs = chars_of(source);
    let s = cs.as_slice();
    match parse_file_at(s) {
        Ok(v) => Ok(PbxDocument::new(v)),
        Err((p, x)) => Err(PbxParseError::Syntax(locate(s, p, x))),
    }
}

fn end_of_step<T>(r: Step<T>) -> (e: Result<usize, (usize, Expected)>)
    ensures
        match r {
            Ok((_, k)) => e == Ok::<usize, (usize, Expected)>(k),
            Err(x) => e == Err::<usize, (usize, Expected)>(x),
        },
{
    match r {
        Ok((_, k)) => Ok(k),
        Err(x) => Err(x),
    }
}

/// Where one rule of the grammar, matched against the start of `s`, ends.
fn rule_end(rule: Rule, s: &[char]) -> (r: Result<usize, (usize, Expected)>)
    ensures
        match r {
            Ok(e) => rule_match(rule, s@) == Ok::<int, (int, Expected)>(e as int) && e <= s@.len(),
            Err((p, x)) => rule_match(rule, s@) == Err::<int, (int, Expected)>((p as int, x))
                && p <= s@.len(),
        },
{
    let n = s.len();
    match rule {
        Rule::File => match parse_file_at(s) {
            Ok(_) => Ok(n),
            Err(x) => Err(x),
        },
        Rule::Value => end_of_step(parse_value_at(s, 0)),
        Rule::Dictionary => if 0 < n && s[0] == '{' {
            end_of_step(parse_value_at(s, 0))
        } else {
            Err((0, Expected::Dictionary))
        },
        Rule::Array => if 0 < n && s[0] == '(' {
            end_of_step(parse_value_at(s, 0))
        } else {
            Err((0, Expected::Value))
        },
        Rule::PairSequence => end_of_step(parse_pair_sequence_at(s, 0)),
        Rule::PairEntry => end_of_step(parse_pair_entry_at(s, 0)),
        Rule::PairComment => {
            let c = skip_space_at(s, 0);
            match comment_end_at(s, c) {
                Some(e) => Ok(e),
                None => Err((c, Expected::Comment)),
            }
        },
        Rule::Pair => end_of_step(parse_pair_at(s, 0)),
        Rule::Key => end_of_step(parse_key_at(s, 0)),
        Rule::ValueList => end_of_step(parse_value_list_at(s, 0)),
        Rule::ValueEntry => end_of_step(parse_value_entry_at(s, 0)),
        Rule::String => if 0 < n && s[0] == '"' {
            end_of_step(quoted_token_at(s, 0))
        } else {
            Err((0, Expected::Value))
        },
        Rule::Identifier => if 0 < n && is_bare_char(s[0]) {
            let e = bare_end_at(s, 0);
            if is_number_at(s, 0, e) {
                Err((0, Expected::Value))
            } else {
                Ok(e)
            }
        } else {
            Err((0, Expected::Value))
        },
        Rule::Number => if 0 < n && is_bare_char(s[0]) {
            let e = bare_end_at(s, 0);
            if is_number_at(s, 0, e) {
                Ok(e)
            } else {
                Err((0, Expected::Value))
            }
        } else {
            Err((0, Expected::Value))
        },
        Rule::LineComment => if 1 < n && s[0] == '/' && s[1] == '/' {
            Ok(line_comment_end_at(s, 2))
        } else {
            Err((0, Expected::Comment))
        },
        Rule::BlockComment => if 1 < n && s[0] == '/' && s[1] == '*' {
            match block_comment_end_at(s, 2) {
                Some(e) => Ok(e),
                None => Err((n, Expected::CommentEnd)),
            }
        } else {
            Err((0, Expected::Comment))
        },
    }
}

/// Matches one rule of the grammar against the start of `source` and returns
/// the text that the match covers, or the syntax error where it fails.
pub fn recognize(rule: Rule, source: &str) -> (r: Result<String, SyntaxError>)
    ensures
        match r {
            Ok(t) => rule_match(rule, source@) matches Ok(e) && t@ == source@.subrange(0, e),
            Err(x) => rule_match(rule, source@) matches Err((p, ex)) && x == syntax_error_at(
                source@,
                p,
                ex,
            ),
        },
{
    let cs = chars_of(source);
    let s = cs.as_slice();
    match rule_end(rule, s) {
        Ok(e) => Ok(string_of(&s[0..e])),
        Err((p, x)) => Err(locate(s, p, x)),
    }
}

} // verus!
