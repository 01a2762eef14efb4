//! What a document takes from outside the computation: the current
//! instant and a random UUID.

use vstd::prelude::*;

verus! {

/// The current instant in RFC 3339 form, from `jiff::Timestamp::now` and
/// its `Display`. Nothing is claimed of the text: it depends on the clock.
/// jiff does not return where the system clock is set outside the range
/// of years that it supports.
#[verifier::external_body]
pub(crate) fn current_timestamp() -> (timestamp: String) {
    jiff::Timestamp::now().to_string()
}

/// The shape of a version 4 UUID in hyphenated form: 36 characters, with
/// hyphens after the groups of 8, 4, 4 and 4, and the version digit `4`
/// at the head of the third group.
pub open spec fn is_hyphenated_v4(text: Seq<char>) -> bool {
    &&& text.len() == 36
    &&& text[8] == '-'
    &&& text[13] == '-'
    &&& text[18] == '-'
    &&& text[23] == '-'
    &&& text[14] == '4'
}

/// A fresh random UUID in its hyphenated lower-case form, from
/// `uuid::Uuid::new_v4` and its `Display`. The digits depend on the
/// system's random source; believed of the text is its shape: the 36
/// characters of the hyphenated form with its four hyphens, and the
/// version digit that `new_v4` sets. The uuid crate does not return where
/// the system hands out no random bytes.
#[verifier::external_body]
pub(crate) fn random_uuid() -> (uuid: String)
    ensures
        is_hyphenated_v4(uuid@),
{
    uuid::Uuid::new_v4().to_string()
}

} // verus!
