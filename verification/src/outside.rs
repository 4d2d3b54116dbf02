//! What the library has from elsewhere.
//!
//! Every item here stands for one call into another crate, or into a part of
//! the standard library that has no specification of its own. Nothing here is
//! proved: each doc comment says what is claimed of the call.

use vstd::prelude::*;

verus! {

/// A reading that succeeded.
pub open spec fn read_as<T>(value: T) -> Result<T, Seq<char>> {
    Ok(value)
}

/// A reading that failed, with the text of the error.
pub open spec fn unreadable<T>(reason: Seq<char>) -> Result<T, Seq<char>> {
    Err(reason)
}

// --- identifiers -----------------------------------------------------------

/// The hyphenated text of an identifier, as `uuid::Uuid` displays it.
pub uninterp spec fn uuid_text(value: u128) -> Seq<char>;

/// What `uuid::Uuid::parse_str` makes of a text: the identifier, or the text
/// of its error.
pub uninterp spec fn uuid_parsed(raw: Seq<char>) -> Result<u128, Seq<char>>;

/// An identifier that says of itself that it is random: its version, the four bits
/// above the lowest 76, is four, and its variant, the two bits above the lowest 62,
/// is two.
pub open spec fn marked_random(value: u128) -> bool {
    &&& value / 0x1000_0000_0000_0000_0000 % 16 == 4
    &&& value / 0x4000_0000_0000_0000 % 4 == 2
}

/// `uuid::Uuid::new_v4`: a random identifier. Claims that it carries the version and
/// the variant of one. Nothing is claimed of its other bits, which are random.
#[verifier::external_body]
pub(crate) fn random_uuid() -> (r: u128)
    ensures
        marked_random(r),
{
    uuid::Uuid::new_v4().as_u128()
}

/// `uuid::Uuid`'s `Display`: the hyphenated text of an identifier. Claims that
/// the text depends on the identifier alone, and that `uuid::Uuid::parse_str`
/// reads it back.
#[verifier::external_body]
pub(crate) fn display_uuid(value: u128) -> (r: String)
    ensures
        r@ == uuid_text(value),
        uuid_parsed(r@) == read_as(value),
{
    uuid::Uuid::from_u128(value).to_string()
}

/// `uuid::Uuid::parse_str`. Claims that what comes back, the text of an error
/// included, depends on the input alone.
#[verifier::external_body]
pub(crate) fn parse_uuid(raw: &str) -> (r: Result<u128, String>)
    ensures
        match r {
            Ok(value) => uuid_parsed(raw@) == read_as(value),
            Err(reason) => uuid_parsed(raw@) == unreadable::<u128>(reason@),
        },
{
    match uuid::Uuid::parse_str(raw) {
        Ok(value) => Ok(value.as_u128()),
        Err(error) => Err(error.to_string()),
    }
}

// --- time ------------------------------------------------------------------

/// The first second `chrono::DateTime<Utc>` can hold.
pub const FIRST_SECOND: i64 = -8334601228800;

/// The last second `chrono::DateTime<Utc>` can hold.
pub const LAST_SECOND: i64 = 8210266876799;

/// A second and a fraction that `chrono::DateTime<Utc>` can hold. A fraction of
/// a whole second or more is a leap second, which only ends a minute.
pub open spec fn time_in_range(seconds: i64, nanos: u32) -> bool {
    &&& FIRST_SECOND <= seconds <= LAST_SECOND
    &&& nanos < 1_000_000_000 || (nanos < 2_000_000_000 && seconds % 60 == 59)
}

/// A second of the years 0 to 9999, which are written with four digits.
pub open spec fn year_of_four_digits(seconds: i64) -> bool {
    -62167219200 <= seconds <= 253402300799
}

/// The text `chrono::DateTime::<Utc>::to_rfc3339` gives a moment.
pub uninterp spec fn rfc3339_text(seconds: i64, nanos: u32) -> Seq<char>;

/// What `chrono::DateTime::parse_from_rfc3339` makes of a text, in UTC: seconds
/// and nanoseconds since the Unix epoch, or the text of its error.
pub uninterp spec fn rfc3339_parsed(raw: Seq<char>) -> Result<(i64, u32), Seq<char>>;

/// `chrono::Utc::now`: the system clock. Claims that the moment is one chrono
/// can hold and no leap second, and that it is not before the Unix epoch: the
/// call gives up on a clock set before it.
#[verifier::external_body]
pub(crate) fn clock() -> (r: (i64, u32))
    ensures
        0 <= r.0 <= LAST_SECOND,
        r.1 < 1_000_000_000,
{
    let now = chrono::Utc::now();
    (now.timestamp(), now.timestamp_subsec_nanos())
}

/// `chrono::DateTime::<Utc>::to_rfc3339`. Claims that the text depends on the
/// moment alone, and that `chrono::DateTime::parse_from_rfc3339` reads it back
/// when the year has four digits and the moment is no leap second.
#[verifier::external_body]
pub(crate) fn format_rfc3339(seconds: i64, nanos: u32) -> (r: String)
    requires
        time_in_range(seconds, nanos),
    ensures
        r@ == rfc3339_text(seconds, nanos),
        year_of_four_digits(seconds) && nanos < 1_000_000_000 ==> rfc3339_parsed(r@) == read_as(
            (seconds, nanos),
        ),
{
    chrono::DateTime::<chrono::Utc>::from_timestamp(seconds, nanos)
        .expect("a moment in range")
        .to_rfc3339()
}

/// `chrono::DateTime::parse_from_rfc3339`, taken to UTC. Claims that what comes
/// back depends on the input alone, and that a moment that comes back is one
/// chrono can hold.
#[verifier::external_body]
pub(crate) fn parse_rfc3339(raw: &str) -> (r: Result<(i64, u32), String>)
    ensures
        match r {
            Ok(moment) => rfc3339_parsed(raw@) == read_as(moment)
                && time_in_range(moment.0, moment.1),
            Err(reason) => rfc3339_parsed(raw@) == unreadable::<(i64, u32)>(reason@),
        },
{
    match chrono::DateTime::parse_from_rfc3339(raw) {
        Ok(value) => Ok((value.timestamp(), value.timestamp_subsec_nanos())),
        Err(error) => Err(error.to_string()),
    }
}

// --- JSON ------------------------------------------------------------------

/// The JSON text `serde_json::to_string` gives a list of texts.
pub uninterp spec fn json_list_text(values: Seq<Seq<char>>) -> Seq<char>;

/// What `serde_json::from_str` makes of a text read as a list of texts: the
/// list, or the text of its error.
pub uninterp spec fn json_list_parsed(raw: Seq<char>) -> Result<Seq<Seq<char>>, Seq<char>>;

/// The entries of the object that stands under a key of a JSON object, in the
/// order `serde_json` keeps them, each with its value where that is a text.
/// `None` when the text is no JSON, or nothing under that key is an object.
pub uninterp spec fn json_entries_under(raw: Seq<char>, key: Seq<char>) -> Option<
    Seq<(Seq<char>, Option<Seq<char>>)>,
>;

/// `serde_json::to_string` on a list of texts. Claims that the text depends on
/// the list alone, and that `serde_json::from_str` reads it back.
#[verifier::external_body]
pub(crate) fn write_json_list(values: &Vec<String>) -> (r: String)
    ensures
        r@ == json_list_text(values.deep_view()),
        json_list_parsed(r@) == read_as(values.deep_view()),
{
    serde_json::to_string(values).expect("a list of texts is always JSON")
}

/// `serde_json::from_str` into a list of texts. Claims that what comes back,
/// the text of an error included, depends on the input alone.
#[verifier::external_body]
pub(crate) fn read_json_list(raw: &str) -> (r: Result<Vec<String>, String>)
    ensures
        match r {
            Ok(values) => json_list_parsed(raw@) == read_as(values.deep_view()),
            Err(reason) => json_list_parsed(raw@) == unreadable::<Seq<Seq<char>>>(reason@),
        },
{
    match serde_json::from_str::<Vec<String>>(raw) {
        Ok(values) => Ok(values),
        Err(error) => Err(error.to_string()),
    }
}

/// `serde_json::from_str` into a `serde_json::Value`, and what
/// `Value::get`, `Value::as_object` and `Value::as_str` read off it. Claims
/// that what comes back depends on the two arguments alone.
#[verifier::external_body]
pub(crate) fn read_json_entries(raw: &str, key: &str) -> (r: Option<
    Vec<(String, Option<String>)>,
>)
    ensures
        r.deep_view() == json_entries_under(raw@, key@),
{
    let value = serde_json::from_str::<serde_json::Value>(raw).ok()?;
    let object = value.get(key)?.as_object()?;
    Some(
        object
            .iter()
            .map(|(name, value)| (name.clone(), value.as_str().map(str::to_owned)))
            .collect(),
    )
}

// --- text ------------------------------------------------------------------

/// The text `str::to_lowercase` gives.
pub uninterp spec fn lowercased(text: Seq<char>) -> Seq<char>;

/// `str::to_lowercase`. Claims that the result depends on the text alone, and that of an
/// ASCII text the letters `A` to `Z` become `a` to `z` and the rest stays.
#[verifier::external_body]
pub(crate) fn lowercase(text: &str) -> (r: String)
    ensures
        r@ == lowercased(text@),
        crate::text::all_ascii(text@) ==> r@ == crate::text::ascii_lowered(text@),
{
    text.to_lowercase()
}

/// Whether `char::is_alphanumeric` holds.
pub uninterp spec fn alphanumeric(c: char) -> bool;

/// `char::is_alphanumeric`. Claims that the answer depends on the character
/// alone, and that of the ASCII characters it holds of letters and digits.
#[verifier::external_body]
pub(crate) fn is_alphanumeric(c: char) -> (r: bool)
    ensures
        r == alphanumeric(c),
        (c as u32) < 128 ==> r == crate::text::ascii_alphanumeric(c),
{
    c.is_alphanumeric()
}

/// The text in quotes that `str`'s `Debug` gives.
pub uninterp spec fn quoted(text: Seq<char>) -> Seq<char>;

/// `str`'s `Debug`: the text in quotes, with escapes. Claims that the result
/// depends on the text alone, and that nothing is escaped in a text of printable ASCII
/// characters without quotes and backslashes.
#[verifier::external_body]
pub(crate) fn quote(text: &str) -> (r: String)
    ensures
        r@ == quoted(text@),
        crate::text::all_plain(text@) ==> r@ == "\""@ + text@ + "\""@,
{
    format!("{text:?}")
}

/// The text `String::from_utf8_lossy` gives.
pub uninterp spec fn utf8_lossy(bytes: Seq<u8>) -> Seq<char>;

/// `String::from_utf8_lossy`. Claims that the result depends on the bytes
/// alone, and that bytes which are UTF-8 are decoded as they stand.
#[verifier::external_body]
pub(crate) fn decode_utf8_lossy(bytes: &Vec<u8>) -> (r: String)
    ensures
        r@ == utf8_lossy(bytes@),
        vstd::utf8::valid_utf8(bytes@) ==> vstd::utf8::encode_utf8(r@) == bytes@,
{
    String::from_utf8_lossy(bytes).into_owned()
}

} // verus!
