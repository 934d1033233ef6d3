//! The identifiers of users.

use uuid::Uuid;
use vstd::prelude::*;

verus! {

/// The identifier that a text writes, or the reason why it writes none.
pub uninterp spec fn uuid_parsed(text: Seq<char>) -> Result<u128, Seq<char>>;

/// `uuid::Uuid::parse_str`: the identifier as a number, or the text of the
/// error. Both depend on the text alone and are named, not described.
#[verifier::external_body]
pub(crate) fn parse_uuid_text(text: &str) -> (id: Result<u128, String>)
    ensures
        match id {
            Ok(number) => uuid_parsed(text@) == Ok::<u128, Seq<char>>(number),
            Err(error) => uuid_parsed(text@) == Err::<u128, Seq<char>>(error@),
        },
{
    match Uuid::parse_str(text) {
        Ok(uuid) => Ok(uuid.as_u128()),
        Err(error) => Err(error.to_string()),
    }
}

} // verus!
