//! The suite's pointer to its data document.

use vstd::prelude::*;
use crate::error::{text_result_model, RunError, RunErrorModel};
use crate::text::{chars_of, text_of};

verus! {

/// The scheme that a data pointer starts with: `json://`.
pub open spec fn scheme() -> Seq<char> {
    seq!['j', 's', 'o', 'n', ':', '/', '/']
}

/// Whether a text starts with the scheme.
pub open spec fn has_scheme(text: Seq<char>) -> bool {
    text.len() >= scheme().len() && text.subrange(0, scheme().len() as int) == scheme()
}

/// A text without the scheme at its start, however often it stands there.
pub open spec fn strip_scheme(text: Seq<char>) -> Seq<char>
    decreases text.len(),
{
    if has_scheme(text) {
        strip_scheme(text.skip(scheme().len() as int))
    } else {
        text
    }
}

/// The path of the data document that a pointer names: what follows the
/// scheme. A pointer without the scheme names none.
pub open spec fn data_path(pointer: Seq<char>) -> Result<Seq<char>, RunErrorModel> {
    if has_scheme(pointer) {
        Ok(strip_scheme(pointer))
    } else {
        Err(RunErrorModel::Config)
    }
}

/// Whether the scheme stands at position `at`.
fn scheme_at(chars: &Vec<char>, at: usize) -> (found: bool)
    requires
        at <= chars@.len(),
    ensures
        found == has_scheme(chars@.skip(at as int)),
{
    let found = chars.len() - at >= 7 && chars[at] == 'j' && chars[at + 1] == 's' && chars[at + 2]
        == 'o' && chars[at + 3] == 'n' && chars[at + 4] == ':' && chars[at + 5] == '/' && chars[at
        + 6] == '/';
    proof {
        let rest = chars@.skip(at as int);
        if found {
            assert(rest.subrange(0, 7) =~= scheme());
        } else if rest.len() >= 7 {
            let head = rest.subrange(0, 7);
            assert(head[0] == rest[0] && head[1] == rest[1] && head[2] == rest[2] && head[3]
                == rest[3] && head[4] == rest[4] && head[5] == rest[5] && head[6] == rest[6]);
        }
    }
    found
}

/// The path of the data document behind a suite's data pointer: the
/// pointer without its `json://` scheme. A pointer that does not start with
/// the scheme is a configuration error.
pub fn data_file_path(pointer: &str) -> (result: Result<String, RunError>)
    ensures
        text_result_model(result) == data_path(pointer@),
{
    let chars = chars_of(pointer);
    if !scheme_at(&chars, 0) {
        assert(chars@.skip(0) =~= pointer@);
        return Err(RunError::Config);
    }
    let mut at: usize = 0;
    assert(chars@.skip(0) =~= pointer@);
    while scheme_at(&chars, at)
        invariant
            chars@ == pointer@,
            at <= chars@.len(),
            strip_scheme(pointer@) == strip_scheme(chars@.skip(at as int)),
        decreases chars@.len() - at,
    {
        assert(scheme().len() == 7);
        assert(chars@.skip(at as int).len() >= 7);
        assert(at + 7 <= chars.len());
        assert(chars@.skip(at as int).skip(7) =~= chars@.skip(at + 7));
        at = at + 7;
    }
    let path = text_of(&chars, at, chars.len());
    assert(chars@.skip(at as int) =~= chars@.subrange(at as int, chars@.len() as int));
    Ok(path)
}

} // verus!
