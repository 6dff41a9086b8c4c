//! Identifiers (random version-4 UUIDs held as their 128-bit value) and
//! wall-clock timestamps.

use vstd::prelude::*;

verus! {

/// The version nibble of a UUID held as a big-endian `u128`.
pub open spec fn uuid_version(v: u128) -> u128 {
    (v >> 76u128) & 0xfu128
}

/// The two variant bits of a UUID held as a big-endian `u128`.
pub open spec fn uuid_variant(v: u128) -> u128 {
    (v >> 62u128) & 0x3u128
}

/// A random (version 4, RFC 4122 variant) UUID value.
pub open spec fn is_random_uuid(v: u128) -> bool {
    uuid_version(v) == 4 && uuid_variant(v) == 2
}

/// Lower-case hexadecimal digit for a nibble.
pub open spec fn hex_digit(n: u128) -> char {
    if n < 10 {
        ((n + 48) as u8) as char
    } else {
        ((n + 87) as u8) as char
    }
}

/// Positions of the four hyphens in the hyphenated form.
pub open spec fn is_hyphen_position(i: int) -> bool {
    i == 8 || i == 13 || i == 18 || i == 23
}

/// Number of hex digits written before position `i` of the hyphenated form.
pub open spec fn digits_before(i: int) -> int {
    if i <= 8 { i } else if i <= 13 { i - 1 } else if i <= 18 { i - 2 } else if i <= 23 { i - 3 } else { i - 4 }
}

/// The `n`-th nibble of `v`, counting from the most significant one.
pub open spec fn nibble(v: u128, n: int) -> u128 {
    (v >> ((124 - 4 * n) as u128)) & 0xfu128
}

/// The hyphenated lower-case form `xxxxxxxx-xxxx-xxxx-xxxx-xxxxxxxxxxxx` of a UUID.
pub open spec fn hyphenated_uuid(v: u128) -> Seq<char> {
    Seq::new(36, |i: int| if is_hyphen_position(i) { '-' } else { hex_digit(nibble(v, digits_before(i))) })
}

/// Calls `uuid::Uuid::new_v4` and hands out the value through `Uuid::as_u128`.
/// The value is random; the crate's source fixes the version nibble to 4 and
/// the variant bits to `0b10`, and that is all this contract claims.
#[verifier::external_body]
fn random_uuid_value() -> (v: u128)
    ensures
        is_random_uuid(v),
{
    uuid::Uuid::new_v4().as_u128()
}

/// Calls the `Display` of `uuid::Uuid` (built by `Uuid::from_u128`), which the
/// crate documents and implements as the lower-case hyphenated form.
#[verifier::external_body]
fn uuid_text(v: u128) -> (s: String)
    ensures
        s@ == hyphenated_uuid(v),
{
    uuid::Uuid::from_u128(v).to_string()
}

/// A UTC instant: whole seconds since the Unix epoch and the nanoseconds
/// past them (chrono may report more than 999,999,999 within a leap second).
#[derive(Debug, Clone, Copy, PartialEq, Eq, Structural)]
pub struct Timestamp {
    pub secs: i64,
    pub nanos: u32,
}

/// Calls `chrono::Utc::now` and hands out `DateTime::timestamp` and
/// `DateTime::timestamp_subsec_nanos` of that one reading. Nothing is claimed
/// of the value (it is the clock's reading); chrono panics when the system
/// clock is set before the epoch.
#[verifier::external_body]
pub(crate) fn now() -> (t: Timestamp)
{
    let t = chrono::Utc::now();
    Timestamp { secs: t.timestamp(), nanos: t.timestamp_subsec_nanos() }
}

/// Unique identifier for a live collaboration session.
#[derive(Debug, Clone, Copy, PartialEq, Eq, Hash, Structural)]
pub struct SessionId(pub u128);

/// Unique identifier for a single event in a session stream.
#[derive(Debug, Clone, Copy, PartialEq, Eq, Hash, Structural)]
pub struct EventId(pub u128);

/// Unique id for a stored proxy capture.
#[derive(Debug, Clone, Copy, PartialEq, Eq, Hash, Structural)]
pub struct CaptureId(pub u128);

/// Unique id for an analyst finding / validation candidate.
#[derive(Debug, Clone, Copy, PartialEq, Eq, Hash, Structural)]
pub struct FindingId(pub u128);

impl SessionId {
    /// A fresh random identifier.
    pub fn new() -> (r: Self)
        ensures
            is_random_uuid(r.0),
    {
        SessionId(random_uuid_value())
    }

    /// The hyphenated text form, as the id is displayed.
    pub fn to_text(&self) -> (s: String)
        ensures
            s@ == hyphenated_uuid(self.0),
    {
        uuid_text(self.0)
    }
}

impl EventId {
    /// A fresh random identifier.
    pub fn new() -> (r: Self)
        ensures
            is_random_uuid(r.0),
    {
        EventId(random_uuid_value())
    }

    /// The hyphenated text form, as the id is displayed.
    pub fn to_text(&self) -> (s: String)
        ensures
            s@ == hyphenated_uuid(self.0),
    {
        uuid_text(self.0)
    }
}

impl CaptureId {
    /// A fresh random identifier.
    pub fn new() -> (r: Self)
        ensures
            is_random_uuid(r.0),
    {
        CaptureId(random_uuid_value())
    }

    /// The hyphenated text form, as the id is displayed.
    pub fn to_text(&self) -> (s: String)
        ensures
            s@ == hyphenated_uuid(self.0),
    {
        uuid_text(self.0)
    }
}

impl FindingId {
    /// A fresh random identifier.
    pub fn new() -> (r: Self)
        ensures
            is_random_uuid(r.0),
    {
        FindingId(random_uuid_value())
    }

    /// The hyphenated text form, as the id is displayed.
    pub fn to_text(&self) -> (s: String)
        ensures
            s@ == hyphenated_uuid(self.0),
    {
        uuid_text(self.0)
    }
}

impl Default for SessionId {
    fn default() -> (r: Self)
        ensures
            is_random_uuid(r.0),
    {
        SessionId::new()
    }
}

impl Default for EventId {
    fn default() -> (r: Self)
        ensures
            is_random_uuid(r.0),
    {
        EventId::new()
    }
}

impl Default for CaptureId {
    fn default() -> (r: Self)
        ensures
            is_random_uuid(r.0),
    {
        CaptureId::new()
    }
}

impl Default for FindingId {
    fn default() -> (r: Self)
        ensures
            is_random_uuid(r.0),
    {
        FindingId::new()
    }
}

} // verus!
