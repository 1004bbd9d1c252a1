//! Identifiers for records.
use vstd::prelude::*;

verus! {

/// A digit of the hexadecimal system, with small letters.
pub open spec fn is_lower_hex(c: char) -> bool {
    '0' as u32 <= c as u32 <= '9' as u32 || 'a' as u32 <= c as u32 <= 'f' as u32
}

/// The text of a random identifier: thirty-two hexadecimal digits in five groups, with
/// the version and the variant at their places.
pub open spec fn is_random_id(text: Seq<char>) -> bool {
    &&& text.len() == 36
    &&& text[8] == '-' && text[13] == '-' && text[18] == '-' && text[23] == '-'
    &&& text[14] == '4'
    &&& text[19] == '8' || text[19] == '9' || text[19] == 'a' || text[19] == 'b'
    &&& forall|i: int|
        0 <= i < 36 && i != 8 && i != 13 && i != 18 && i != 23 ==> is_lower_hex(
            #[trigger] text[i],
        )
}

/// `uuid::Uuid::new_v4` and its `to_string`. The identifier is random: of it only the
/// form is known.
#[verifier::external_body]
pub(crate) fn random_id() -> (text: String)
    ensures
        is_random_id(text@),
{
    uuid::Uuid::new_v4().to_string()
}

}
