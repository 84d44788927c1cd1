//! Text replication, a small utility offered next to the signatures.

use crate::error::SignatureError;
use vstd::prelude::*;
use vstd::string::StringExecFns;

verus! {

/// `text` written `count` times in a row.
pub open spec fn repeated(text: Seq<char>, count: nat) -> Seq<char>
    decreases count,
{
    if count == 0 {
        Seq::empty()
    } else {
        repeated(text, (count - 1) as nat) + text
    }
}

/// Concatenates `count` copies of `text`. A count of zero gives the empty
/// string; a negative count is refused.
pub fn replicate(text: &str, count: i64) -> (result: Result<String, SignatureError>)
    ensures
        result is Err <==> count < 0,
        result matches Err(e) ==> e == SignatureError::InvalidParameter,
        result matches Ok(copies) ==> copies@ == repeated(text@, count as nat),
{
    if count < 0 {
        return Err(SignatureError::InvalidParameter);
    }
    let mut copies = String::new();
    let mut done: i64 = 0;
    while done < count
        invariant
            0 <= done <= count,
            copies@ == repeated(text@, done as nat),
        decreases count - done,
    {
        copies.append(text);
        done = done + 1;
    }
    Ok(copies)
}

} // verus!
