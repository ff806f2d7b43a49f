use vstd::prelude::*;

verus! {

/// What `uuid::Uuid::parse_str` makes of a string: the 128-bit value of the
/// identifier the string names (read through `Uuid::as_u128`), or `None`
/// where the string does not spell a UUID. The result depends on the
/// characters alone.
pub uninterp spec fn parsed_uuid(s: Seq<char>) -> Option<u128>;

/// The text that `uuid` prints for the identifier with the given 128-bit
/// value: the hyphenated lower-case hexadecimal form. The result depends on
/// the value alone.
pub uninterp spec fn uuid_text(id: u128) -> Seq<char>;

/// Relies on `uuid::Uuid::new_v4` (read through `Uuid::as_u128`): a randomly
/// drawn identifier. Nothing is promised of the value; callers must check it
/// themselves.
#[verifier::external_body]
pub(crate) fn new_uuid() -> u128 {
    uuid::Uuid::new_v4().as_u128()
}

/// Relies on `uuid::Uuid::parse_str` and `Uuid::as_u128`: parses hexadecimal
/// digits with optional hyphens; the result is a function of the input
/// characters alone.
#[verifier::external_body]
pub(crate) fn parse_uuid(s: &str) -> (r: Option<u128>)
    ensures
        r == parsed_uuid(s@),
{
    uuid::Uuid::parse_str(s).ok().map(|u| u.as_u128())
}

/// Relies on `uuid::Uuid::from_u128` and uuid's `Display` impl, which prints
/// the hyphenated lower-case form. `from_u128` and `as_u128` are inverses
/// (both are documented as the big-endian byte reading), and `parse_str`
/// accepts the hyphenated form, so parsing the printed text gives the value
/// back.
#[verifier::external_body]
pub(crate) fn uuid_to_string(id: u128) -> (r: String)
    ensures
        r@ == uuid_text(id),
        parsed_uuid(r@) == Some(id),
{
    uuid::Uuid::from_u128(id).to_string()
}

/// The text of an identifier, for callers that hand identifiers on as
/// strings. Parsing the result names the same identifier again.
pub fn format_id(id: u128) -> (r: String)
    ensures
        r@ == uuid_text(id),
        parsed_uuid(r@) == Some(id),
{
    uuid_to_string(id)
}

} // verus!
