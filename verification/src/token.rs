//! The name normalizer and the token classifier.

use crate::error::ArgError;
use crate::text::{count_char, find_char, lemma_strip_dashes, strip_dashes};
use vstd::prelude::*;
use vstd::string::*;

verus! {

/// The option name that a token carries: the token without the dashes in
/// front. An empty token carries none. A token of dashes alone is not
/// refused here: it carries the empty name, which no valid schema declares.
pub open spec fn normalize_spec(token: Seq<char>) -> Result<Seq<char>, ArgError> {
    if token.len() == 0 {
        Err(ArgError::InvalidToken)
    } else {
        Ok(strip_dashes(token))
    }
}

/// Whether a normalized token joins a name and a value: it holds exactly one
/// `=`, which parts it in two.
pub open spec fn is_embedded(name: Seq<char>) -> bool {
    count_char(name, '=') == 1
}

/// Strips the dashes that `arg` starts with.
pub fn remove_leading_dashes(arg: &str) -> (result: Result<&str, ArgError>)
    ensures
        match result {
            Ok(name) => normalize_spec(arg@) == Ok::<Seq<char>, ArgError>(name@),
            Err(e) => normalize_spec(arg@) == Err::<Seq<char>, ArgError>(e),
        },
{
    let len = arg.unicode_len();
    if len == 0 {
        return Err(ArgError::InvalidToken);
    }
    let mut idx: usize = 0;
    for c in it: arg.chars()
        invariant
            it.seq() == arg@,
            len == arg@.len(),
            idx == it.index(),
            forall|j: int| 0 <= j < idx ==> arg@[j] == '-',
    {
        if c != '-' {
            proof {
                lemma_strip_dashes(arg@, idx as int);
            }
            return Ok(arg.substring_char(idx, len));
        }
        idx += 1;
    }
    proof {
        lemma_strip_dashes(arg@, len as int);
    }
    Ok(arg.substring_char(len, len))
}

/// Whether `arg` has the form `name=value`.
pub fn is_embedded_arg(arg: &str) -> (embedded: bool)
    ensures
        embedded == is_embedded(arg@),
{
    match find_char(arg, '=') {
        Some(equals) => !equals.repeated,
        None => false,
    }
}

} // verus!
