//! Path templates: `{name}` placeholders and their replacement from a query
//! record.
//!
//! A placeholder is an opening brace, a run of one or more word characters
//! that goes on as far as it can, and a closing brace. The path is read once
//! from left to right; the text that replaces a placeholder is never read
//! again, and every character outside a placeholder is kept as it is.

use vstd::prelude::*;
use vstd::string::StringExecFns;
use crate::error::{text_result_model, RunError, RunErrorModel};
use crate::json::{
    object_model, optional_object_model, path_text, JsonModel, JsonObject,
};
use crate::text::{chars_of, text_of};

verus! {

/// Whether the regular expression class `\w` holds the character.
pub uninterp spec fn is_word_char(c: char) -> bool;

/// For each character of `path`, in order, what `regex::Regex::is_match`
/// says of the pattern `^\w$` and the text made of that one character: the
/// membership of the character in the class `\w`, which is all that is
/// claimed of it. The pattern is compiled once for the whole path.
#[verifier::external_body]
fn word_flags(path: &str) -> (word: Vec<bool>)
    ensures
        word@.len() == path@.len(),
        forall|i: int| 0 <= i < path@.len() ==> word@[i] == is_word_char(path@[i]),
{
    let class = regex::Regex::new(r"^\w$").unwrap();
    path.chars().map(|c| class.is_match(c.encode_utf8(&mut [0u8; 4]))).collect()
}

/// For each character of a text, whether it is a word character.
pub open spec fn word_mask(path: Seq<char>) -> Seq<bool> {
    Seq::new(path.len(), |i: int| is_word_char(path[i]))
}

/// The length of the run of marked positions that starts at `from`. A
/// position beyond the end of the mask counts as unmarked.
pub open spec fn word_run(word: Seq<bool>, from: int) -> nat
    decreases word.len() - from,
{
    if 0 <= from < word.len() && word[from] {
        1 + word_run(word, from + 1)
    } else {
        0
    }
}

/// Whether a placeholder starts at position `at`.
pub open spec fn token_at(path: Seq<char>, word: Seq<bool>, at: int) -> bool {
    let run = word_run(word, at + 1);
    &&& 0 <= at < path.len()
    &&& path[at] == '{'
    &&& run > 0
    &&& at + 1 + run < path.len()
    &&& path[at + 1 + run] == '}'
}

/// The name inside the placeholder that starts at `at`.
pub open spec fn token_name(path: Seq<char>, word: Seq<bool>, at: int) -> Seq<char> {
    path.subrange(at + 1, at + 1 + word_run(word, at + 1))
}

/// The position just behind the placeholder that starts at `at`.
pub open spec fn token_end(word: Seq<bool>, at: int) -> int {
    at + 2 + word_run(word, at + 1)
}

/// The path from position `at` on, with each placeholder replaced by the
/// text of its query value; the leftmost placeholder without a query entry
/// makes the whole an error that names it.
pub open spec fn expand_from(
    path: Seq<char>,
    word: Seq<bool>,
    query: Map<Seq<char>, JsonModel>,
    at: int,
) -> Result<Seq<char>, RunErrorModel>
    decreases path.len() - at,
{
    if at < 0 || at >= path.len() {
        Ok(Seq::empty())
    } else if token_at(path, word, at) {
        let name = token_name(path, word, at);
        if !query.contains_key(name) {
            Err(RunErrorModel::Template { token: name })
        } else {
            match expand_from(path, word, query, token_end(word, at)) {
                Ok(rest) => Ok(path_text(query[name]) + rest),
                Err(e) => Err(e),
            }
        }
    } else {
        match expand_from(path, word, query, at + 1) {
            Ok(rest) => Ok(seq![path[at]] + rest),
            Err(e) => Err(e),
        }
    }
}

/// The whole path with its placeholders replaced.
pub open spec fn expand(path: Seq<char>, word: Seq<bool>, query: Map<Seq<char>, JsonModel>) -> Result<
    Seq<char>,
    RunErrorModel,
> {
    expand_from(path, word, query, 0)
}

/// What resolving a path gives: the path itself where the step carries no
/// query record, else the path with its placeholders replaced.
pub open spec fn resolve(path: Seq<char>, query: Option<Map<Seq<char>, JsonModel>>) -> Result<
    Seq<char>,
    RunErrorModel,
> {
    match query {
        Some(q) => expand(path, word_mask(path), q),
        None => Ok(path),
    }
}

/// Text outside placeholders is kept as it is: where no placeholder starts
/// before position `upto`, the result is the first `upto` characters of the
/// path followed by the replacement of the rest.
pub proof fn lemma_literal_text_kept(
    path: Seq<char>,
    word: Seq<bool>,
    query: Map<Seq<char>, JsonModel>,
    from: int,
    upto: int,
)
    requires
        0 <= from <= upto <= path.len(),
        forall|i: int| from <= i < upto ==> !token_at(path, word, i),
    ensures
        expand_from(path, word, query, from) == match expand_from(path, word, query, upto) {
            Ok(rest) => Ok::<Seq<char>, RunErrorModel>(path.subrange(from, upto) + rest),
            Err(e) => Err(e),
        },
    decreases upto - from,
{
    if from < upto {
        lemma_literal_text_kept(path, word, query, from + 1, upto);
        let rest = expand_from(path, word, query, upto);
        if rest is Ok {
            assert(seq![path[from]] + (path.subrange(from + 1, upto) + rest->Ok_0)
                =~= path.subrange(from, upto) + rest->Ok_0);
        }
    } else {
        let rest = expand_from(path, word, query, upto);
        if rest is Ok {
            assert(path.subrange(from, upto) + rest->Ok_0 =~= rest->Ok_0);
        }
    }
}

/// A path without an opening brace resolves to itself, whatever the query
/// holds.
pub proof fn lemma_plain_path_unchanged(
    path: Seq<char>,
    word: Seq<bool>,
    query: Map<Seq<char>, JsonModel>,
)
    requires
        forall|i: int| 0 <= i < path.len() ==> path[i] != '{',
    ensures
        expand(path, word, query) == Ok::<Seq<char>, RunErrorModel>(path),
{
    lemma_literal_text_kept(path, word, query, 0, path.len() as int);
    assert(path.subrange(0, path.len() as int) + Seq::<char>::empty() =~= path);
}

/// A placeholder is replaced once: behind the text of its value the
/// replacement goes on in the path, after the closing brace.
pub proof fn lemma_placeholder_replaced(
    path: Seq<char>,
    word: Seq<bool>,
    query: Map<Seq<char>, JsonModel>,
    at: int,
)
    requires
        token_at(path, word, at),
    ensures
        expand_from(path, word, query, at) == (if query.contains_key(token_name(path, word, at)) {
            match expand_from(path, word, query, token_end(word, at)) {
                Ok(rest) => Ok::<Seq<char>, RunErrorModel>(
                    path_text(query[token_name(path, word, at)]) + rest,
                ),
                Err(e) => Err(e),
            }
        } else {
            Err(RunErrorModel::Template { token: token_name(path, word, at) })
        }),
{
}

/// The replacement of what is left of the path decides the whole, given the
/// text produced so far.
spec fn carried(
    path: Seq<char>,
    word: Seq<bool>,
    query: Map<Seq<char>, JsonModel>,
    done: Seq<char>,
    at: int,
) -> Result<Seq<char>, RunErrorModel> {
    match expand_from(path, word, query, at) {
        Ok(rest) => Ok(done + rest),
        Err(e) => Err(e),
    }
}

/// Whether position `i` is marked in the mask.
fn marked(word: &Vec<bool>, i: usize) -> (m: bool)
    ensures
        m == (i < word@.len() && word@[i as int]),
{
    i < word.len() && word[i]
}

/// The position just behind the run of marked positions that starts at
/// `from`, cut off at `limit`.
fn run_end(word: &Vec<bool>, from: usize, limit: usize) -> (end: usize)
    requires
        from <= limit,
    ensures
        from <= end <= limit,
        end - from <= word_run(word@, from as int),
        end < limit ==> end - from == word_run(word@, from as int),
{
    let mut end: usize = from;
    while end < limit && marked(word, end)
        invariant
            from <= end <= limit,
            word_run(word@, from as int) == (end - from) + word_run(word@, end as int),
        decreases limit - end,
    {
        end = end + 1;
    }
    end
}

/// Replaces the placeholders of `path`, where `word` marks its word
/// characters: each placeholder gives way to the text of the query value
/// under its name. The leftmost placeholder whose name the query lacks
/// makes the result a template error that carries the name.
pub fn expand_template(path: &str, word: &Vec<bool>, query: &JsonObject) -> (result: Result<
    String,
    RunError,
>)
    ensures
        text_result_model(result) == expand(path@, word@, object_model(*query)),
{
    let chars = chars_of(path);
    let n = chars.len();
    let ghost q = object_model(*query);
    let mut out = String::new();
    let mut at: usize = 0;
    while at < n
        invariant
            chars@ == path@,
            n == chars@.len(),
            at <= n,
            q == object_model(*query),
            carried(path@, word@, q, out@, at as int) == expand(path@, word@, q),
        decreases n - at,
    {
        let ghost before = out@;
        let mut consumed: bool = false;
        if chars[at] == '{' {
            let end = run_end(word, at + 1, n);
            if end > at + 1 && end < n && chars[end] == '}' {
                assert(token_at(path@, word@, at as int));
                let name = text_of(&chars, at + 1, end);
                assert(name@ == token_name(path@, word@, at as int));
                match query.get(name.as_str()) {
                    Some(value) => {
                        let piece = value.path_text();
                        out.append(piece.as_str());
                        proof {
                            let rest = expand_from(path@, word@, q, end + 1);
                            if rest is Ok {
                                assert(before + (piece@ + rest->Ok_0) =~= (before + piece@)
                                    + rest->Ok_0);
                            }
                        }
                        at = end + 1;
                        consumed = true;
                    },
                    None => {
                        return Err(RunError::Template { token: name });
                    },
                }
            } else {
                assert(!token_at(path@, word@, at as int));
            }
        }
        if !consumed {
            out.push(chars[at]);
            proof {
                let rest = expand_from(path@, word@, q, at + 1);
                if rest is Ok {
                    assert(before + (seq![path@[at as int]] + rest->Ok_0) =~= before.push(
                        path@[at as int],
                    ) + rest->Ok_0);
                }
            }
            at = at + 1;
        }
    }
    assert(out@ + Seq::<char>::empty() =~= out@);
    Ok(out)
}

/// For each character of `path`, whether it is a word character.
pub fn classify(path: &str) -> (word: Vec<bool>)
    ensures
        word@ == word_mask(path@),
{
    let word = word_flags(path);
    assert(word@ =~= word_mask(path@));
    word
}

/// Whether the path holds an opening brace.
fn has_opening_brace(path: &str) -> (found: bool)
    ensures
        found == exists|i: int| 0 <= i < path@.len() && path@[i] == '{',
{
    let chars = chars_of(path);
    let mut i: usize = 0;
    while i < chars.len()
        invariant
            chars@ == path@,
            i <= chars@.len(),
            forall|j: int| 0 <= j < i ==> path@[j] != '{',
        decreases chars.len() - i,
    {
        if chars[i] == '{' {
            return true;
        }
        i = i + 1;
    }
    false
}

/// Resolves the placeholders of a path against the query record of a bound
/// step. A step without a query record keeps its path as it is, braces and
/// all.
pub fn resolve_path(path: &str, query: &Option<JsonObject>) -> (result: Result<String, RunError>)
    ensures
        text_result_model(result) == resolve(path@, optional_object_model(*query)),
{
    match query {
        Some(q) => {
            if has_opening_brace(path) {
                let word = classify(path);
                expand_template(path, &word, q)
            } else {
                proof {
                    lemma_plain_path_unchanged(path@, word_mask(path@), object_model(*q));
                }
                Ok(path.to_owned())
            }
        },
        None => Ok(path.to_owned()),
    }
}

} // verus!
