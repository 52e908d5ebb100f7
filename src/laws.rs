//! Properties of the grammar and of the projection that hold for every input.
use vstd::prelude::*;
use crate::grammar::{
    at, bare_end, comment_end, entry_end, is_bare, is_number_text, lemma_bare_end, lemma_comment_end,
    lemma_parse_key, lemma_skip_space, lemma_skip_trivia, lemma_string_end, parse_file,
    parse_pair, parse_pair_entry, parse_pair_sequence, parse_scalar, parse_value,
    parse_value_entry, parse_value_list, skip_space, skip_trivia, Outcome,
};
use crate::comment::cleaned_comment;
use crate::json::{json_model, project_value, JsonValue};
use crate::model::{EntryModel, PbxDocument, ValueModel};

verus! {

/// `acc` followed by what a sequence rule built.
pub open spec fn prepend<T>(acc: Seq<T>, o: Outcome<Seq<T>>) -> Outcome<Seq<T>> {
    match o {
        Ok((xs, e)) => Ok((acc + xs, e)),
        Err(x) => Err(x),
    }
}

proof fn lemma_entry_end(s: Seq<char>, k: int)
    requires
        0 <= k <= s.len(),
    ensures
        k <= entry_end(s, k) <= s.len(),
{
    lemma_skip_space(s, k);
    lemma_skip_trivia(s, k);
    let c = skip_space(s, k);
    lemma_comment_end(s, c);
    if let Some(ce) = crate::grammar::comment_end(s, c) {
        lemma_skip_trivia(s, ce);
    }
}

proof fn lemma_value_advances(s: Seq<char>, i: int)
    requires
        0 <= i <= s.len(),
    ensures
        parse_value(s, i) matches Ok((v, e)) ==> i < e <= s.len(),
    decreases s.len() - i, 0int,
{
    if at(s, i, '{') {
        lemma_skip_trivia(s, i + 1);
        lemma_sequence_advances(s, i + 1, Seq::empty());
        if let Ok((es, k)) = parse_pair_sequence(s, i + 1, Seq::empty()) {
            lemma_skip_trivia(s, k);
        }
    } else if at(s, i, '(') {
        lemma_skip_trivia(s, i + 1);
        lemma_list_advances(s, i + 1, Seq::empty());
        if let Ok((vs, k)) = parse_value_list(s, i + 1, Seq::empty()) {
            lemma_skip_trivia(s, k);
        }
    } else {
        lemma_string_end(s, i + 1);
        lemma_bare_end(s, i);
        lemma_bare_end(s, i + 1);
    }
}

proof fn lemma_pair_advances(s: Seq<char>, i: int)
    requires
        0 <= i <= s.len(),
    ensures
        parse_pair(s, i) matches Ok((p, e)) ==> i < e <= s.len(),
    decreases s.len() - i, 0int,
{
    lemma_parse_key(s, i);
    if let Ok((key, k1)) = crate::grammar::parse_key(s, i) {
        lemma_skip_trivia(s, k1);
        let k2 = skip_trivia(s, k1);
        if at(s, k2, '=') {
            lemma_skip_trivia(s, k2 + 1);
            lemma_value_advances(s, skip_trivia(s, k2 + 1));
        }
    }
}

proof fn lemma_entry_advances(s: Seq<char>, i: int)
    requires
        0 <= i <= s.len(),
    ensures
        parse_pair_entry(s, i) matches Ok((en, e)) ==> i < e <= s.len(),
    decreases s.len() - i, 1int,
{
    lemma_skip_trivia(s, i);
    let j = skip_trivia(s, i);
    lemma_pair_advances(s, j);
    if let Ok((p, k)) = parse_pair(s, j) {
        lemma_entry_end(s, k);
    }
}

proof fn lemma_sequence_advances(s: Seq<char>, i: int, acc: Seq<EntryModel>)
    requires
        0 <= i <= s.len(),
    ensures
        parse_pair_sequence(s, i, acc) matches Ok((es, e)) ==> i < e <= s.len(),
    decreases s.len() - i, 2int,
{
    lemma_entry_advances(s, i);
    if let Ok((entry, k)) = parse_pair_entry(s, i) {
        if at(s, k, ';') {
            lemma_sequence_advances(s, k + 1, acc.push(entry));
        }
    }
}

proof fn lemma_value_entry_advances(s: Seq<char>, i: int)
    requires
        0 <= i <= s.len(),
    ensures
        parse_value_entry(s, i) matches Ok((v, e)) ==> i < e <= s.len(),
    decreases s.len() - i, 1int,
{
    lemma_skip_trivia(s, i);
    let j = skip_trivia(s, i);
    lemma_value_advances(s, j);
    if let Ok((v, k)) = parse_value(s, j) {
        lemma_skip_trivia(s, k);
    }
}

proof fn lemma_list_advances(s: Seq<char>, i: int, acc: Seq<ValueModel>)
    requires
        0 <= i <= s.len(),
    ensures
        parse_value_list(s, i, acc) matches Ok((vs, e)) ==> i < e <= s.len(),
    decreases s.len() - i, 2int,
{
    lemma_value_entry_advances(s, i);
    if let Ok((v, k)) = parse_value_entry(s, i) {
        if at(s, k, ',') {
            lemma_list_advances(s, k + 1, acc.push(v));
        }
    }
}

proof fn lemma_sequence_prefix(s: Seq<char>, i: int, acc: Seq<EntryModel>)
    requires
        0 <= i <= s.len(),
    ensures
        parse_pair_sequence(s, i, acc) == prepend(acc, parse_pair_sequence(s, i, Seq::empty())),
    decreases s.len() - i,
{
    lemma_entry_advances(s, i);
    if let Ok((entry, k)) = parse_pair_entry(s, i) {
        let n = skip_trivia(s, k + 1);
        if at(s, k, ';') && !(n >= s.len() || at(s, n, '}')) {
            lemma_sequence_prefix(s, k + 1, acc.push(entry));
            lemma_sequence_prefix(s, k + 1, seq![entry]);
            assert(Seq::<EntryModel>::empty().push(entry) =~= seq![entry]);
            if let Ok((xs, e)) = parse_pair_sequence(s, k + 1, Seq::empty()) {
                assert(acc.push(entry) + xs =~= acc + (seq![entry] + xs));
            }
        } else {
            assert(acc.push(entry) =~= acc + Seq::<EntryModel>::empty().push(entry));
        }
    }
}

proof fn lemma_list_prefix(s: Seq<char>, i: int, acc: Seq<ValueModel>)
    requires
        0 <= i <= s.len(),
    ensures
        parse_value_list(s, i, acc) == prepend(acc, parse_value_list(s, i, Seq::empty())),
    decreases s.len() - i,
{
    lemma_value_entry_advances(s, i);
    if let Ok((v, k)) = parse_value_entry(s, i) {
        let n = skip_trivia(s, k + 1);
        if at(s, k, ',') && !(n >= s.len() || at(s, n, ')')) {
            lemma_list_prefix(s, k + 1, acc.push(v));
            lemma_list_prefix(s, k + 1, seq![v]);
            assert(Seq::<ValueModel>::empty().push(v) =~= seq![v]);
            if let Ok((xs, e)) = parse_value_list(s, k + 1, Seq::empty()) {
                assert(acc.push(v) + xs =~= acc + (seq![v] + xs));
            }
        } else {
            assert(acc.push(v) =~= acc + Seq::<ValueModel>::empty().push(v));
        }
    }
}

/// Whatever text parses, the root of the document is a dictionary.
pub proof fn law_root_is_dictionary(s: Seq<char>)
    ensures
        parse_file(s) matches Ok(v) ==> v is Dictionary,
{
}

/// Dictionary entries keep their source order: when an entry is followed by
/// `;` and more entries, the entries are that entry, then the ones after the
/// `;` in their own order. Nothing is merged, so entries with equal keys stay
/// separate.
pub proof fn law_entry_order(s: Seq<char>, i: int)
    requires
        0 <= i <= s.len(),
        parse_pair_entry(s, i) matches Ok((first, k)) && at(s, k, ';') && !(skip_trivia(s, k + 1)
            >= s.len() || at(s, skip_trivia(s, k + 1), '}')),
    ensures
        parse_pair_entry(s, i) matches Ok((first, k)) && parse_pair_sequence(s, i, Seq::empty())
            == prepend(seq![first], parse_pair_sequence(s, k + 1, Seq::empty())),
{
    lemma_entry_advances(s, i);
    if let Ok((first, k)) = parse_pair_entry(s, i) {
        lemma_sequence_prefix(s, k + 1, Seq::empty().push(first));
        assert(Seq::<EntryModel>::empty().push(first) =~= seq![first]);
    }
}

/// Array elements keep their source order: when an element is followed by
/// `,` and more elements, the elements are that element, then the ones after
/// the `,` in their own order.
pub proof fn law_element_order(s: Seq<char>, i: int)
    requires
        0 <= i <= s.len(),
        parse_value_entry(s, i) matches Ok((first, k)) && at(s, k, ',') && !(skip_trivia(s, k + 1)
            >= s.len() || at(s, skip_trivia(s, k + 1), ')')),
    ensures
        parse_value_entry(s, i) matches Ok((first, k)) && parse_value_list(s, i, Seq::empty())
            == prepend(seq![first], parse_value_list(s, k + 1, Seq::empty())),
{
    lemma_value_entry_advances(s, i);
    if let Ok((first, k)) = parse_value_entry(s, i) {
        lemma_list_prefix(s, k + 1, Seq::empty().push(first));
        assert(Seq::<ValueModel>::empty().push(first) =~= seq![first]);
    }
}

/// An unquoted token is kept as its exact source text: a number when it is an
/// optional `-` and digits, an identifier otherwise, never converted.
pub proof fn law_scalars_verbatim(s: Seq<char>, i: int)
    requires
        0 <= i < s.len(),
        is_bare(s[i]),
    ensures
        parse_scalar(s, i) matches Ok((v, e)) && e == bare_end(s, i) && if is_number_text(
            s.subrange(i, e),
        ) {
            v == ValueModel::Number(s.subrange(i, e))
        } else {
            v == ValueModel::Identifier(s.subrange(i, e))
        },
{
}

/// A comment that directly follows an entry's value, after spaces only, is
/// that entry's comment, without its delimiters and surrounding whitespace.
pub proof fn law_trailing_comment_attaches(s: Seq<char>, i: int)
    requires
        parse_pair(s, skip_trivia(s, i)) matches Ok((p, k)) && comment_end(s, skip_space(s, k)) is Some,
    ensures
        parse_pair(s, skip_trivia(s, i)) matches Ok((p, k)) && parse_pair_entry(s, i) matches Ok((entry, e))
            && entry.key == p.0 && entry.value == p.1 && entry.comment == Some(
            cleaned_comment(s.subrange(skip_space(s, k), comment_end(s, skip_space(s, k))->0)),
        ),
{
}

/// Projecting one document twice gives the same JSON value.
pub proof fn law_projection_deterministic(d: PbxDocument, a: JsonValue, b: JsonValue)
    requires
        json_model(a) == project_value(d.model()),
        json_model(b) == project_value(d.model()),
    ensures
        json_model(a) == json_model(b),
{
}

} // verus!
