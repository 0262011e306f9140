//! Account identifiers of the host ledger, and which of them are well formed.

use vstd::prelude::*;

verus! {

/// One of the characters that may join two parts of an identifier.
pub open spec fn is_separator(c: char) -> bool {
    c == '-' || c == '_' || c == '.'
}

/// A lower-case letter or a digit.
pub open spec fn is_plain(c: char) -> bool {
    ('a' <= c && c <= 'z') || ('0' <= c && c <= '9')
}

/// A well-formed account identifier: 2 to 64 characters, each a lower-case
/// letter, a digit or a separator, with no separator at either end and no
/// two separators side by side.
pub open spec fn valid_account_id(id: Seq<char>) -> bool {
    &&& 2 <= id.len() <= 64
    &&& forall|i: int| 0 <= i < id.len() ==> is_plain(#[trigger] id[i]) || is_separator(id[i])
    &&& !is_separator(id[0])
    &&& !is_separator(id[id.len() - 1])
    &&& forall|i: int|
        0 <= i < id.len() - 1 ==> !(is_separator(#[trigger] id[i]) && is_separator(id[i + 1]))
}

/// `near_sdk::env::is_valid_account_id` on the identifier's bytes. The
/// contract restates the rule that the function checks byte by byte; a
/// character outside ASCII fails it there as it does here.
#[verifier::external_body]
fn host_is_valid_account_id(id: &String) -> (r: bool)
    ensures
        r == valid_account_id(id@),
{
    near_sdk::env::is_valid_account_id(id.as_bytes())
}

/// Whether the identifier is well formed.
pub fn is_valid_account(id: &String) -> (r: bool)
    ensures
        r == valid_account_id(id@),
{
    host_is_valid_account_id(id)
}

} // verus!
