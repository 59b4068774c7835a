//! New identifiers.

use vstd::prelude::*;
use vstd::string::StringExecFns;

verus! {

pub open spec fn lower_hex_digit(c: char) -> bool {
    ('0' <= c && c <= '9') || ('a' <= c && c <= 'f')
}

/// A random identifier of thirty-two lower-case hexadecimal digits.
pub open spec fn random_id(text: Seq<char>) -> bool {
    &&& text.len() == 32
    &&& forall|i: int| 0 <= i < 32 ==> lower_hex_digit(#[trigger] text[i])
    &&& text[12] == '4'
}

/// `Uuid::new_v4`, written by `Uuid::simple`: which identifier comes out is left to chance; it has
/// thirty-two lower-case hexadecimal digits, of which the thirteenth gives the version.
#[verifier::external_body]
fn random_uuid() -> (text: String)
    ensures
        random_id(text@),
{
    uuid::Uuid::new_v4().simple().to_string()
}

/// `id` is `prefix` and a random identifier.
pub open spec fn random_with_prefix(id: Seq<char>, prefix: Seq<char>) -> bool {
    exists|text: Seq<char>| #[trigger] random_id(text) && id == prefix + text
}

/// A new identifier that starts with `prefix`.
pub fn new_id(prefix: &str) -> (id: String)
    ensures
        random_with_prefix(id@, prefix@),
{
    let text = random_uuid();
    let id = prefix.to_owned().concat(text.as_str());
    proof {
        assert(random_id(text@));
    }
    id
}

} // verus!
