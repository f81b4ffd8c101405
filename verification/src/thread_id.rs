//! Thread identifiers: UUIDs held as their 128-bit value.

use vstd::prelude::*;

verus! {

/// True for an ASCII hexadecimal digit, either case.
pub open spec fn is_hex_digit(c: char) -> bool {
    ('0' <= c && c <= '9') || ('a' <= c && c <= 'f') || ('A' <= c && c <= 'F')
}

/// The value of one hexadecimal digit.
pub open spec fn hex_digit_value(c: char) -> int {
    if '0' <= c && c <= '9' {
        c as int - '0' as int
    } else if 'a' <= c && c <= 'f' {
        c as int - 'a' as int + 10
    } else {
        c as int - 'A' as int + 10
    }
}

/// The big-endian value of a run of hexadecimal digits.
pub open spec fn hex_value(s: Seq<char>) -> int
    decreases s.len(),
{
    if s.len() == 0 {
        0
    } else {
        hex_value(s.drop_last()) * 16 + hex_digit_value(s.last())
    }
}

/// All characters of `s` are hexadecimal digits.
pub open spec fn all_hex(s: Seq<char>) -> bool {
    forall|i: int| 0 <= i < s.len() ==> is_hex_digit(#[trigger] s[i])
}

/// The 32 digits of a hyphenated UUID, with the four hyphens left out.
pub open spec fn hyphenated_digits(s: Seq<char>) -> Seq<char> {
    s.subrange(0, 8) + s.subrange(9, 13) + s.subrange(14, 18) + s.subrange(19, 23) + s.subrange(
        24,
        36,
    )
}

/// `s` is `xxxxxxxx-xxxx-xxxx-xxxx-xxxxxxxxxxxx` with hexadecimal digits in place of `x`.
pub open spec fn is_hyphenated_uuid(s: Seq<char>) -> bool {
    &&& s.len() == 36
    &&& s[8] == '-' && s[13] == '-' && s[18] == '-' && s[23] == '-'
    &&& all_hex(hyphenated_digits(s))
}

/// ASCII lower-casing of one character.
pub open spec fn ascii_lower(c: char) -> char {
    if 'A' <= c && c <= 'Z' {
        ((c as u32) + 32) as char
    } else {
        c
    }
}

/// The nine characters `urn:uuid:`, compared without regard to ASCII case.
pub open spec fn is_urn_prefix(s: Seq<char>) -> bool {
    let p = seq!['u', 'r', 'n', ':', 'u', 'u', 'i', 'd', ':'];
    s.len() == 9 && forall|i: int| 0 <= i < 9 ==> ascii_lower(#[trigger] s[i]) == p[i]
}

/// The hexadecimal digits of a UUID written in one of the accepted textual forms:
/// 32 bare digits, hyphenated, hyphenated in braces, or hyphenated behind `urn:uuid:`.
pub open spec fn uuid_text_digits(s: Seq<char>) -> Option<Seq<char>> {
    if s.len() == 32 && all_hex(s) {
        Some(s)
    } else if is_hyphenated_uuid(s) {
        Some(hyphenated_digits(s))
    } else if s.len() == 38 && s[0] == '{' && s[37] == '}' && is_hyphenated_uuid(
        s.subrange(1, 37),
    ) {
        Some(hyphenated_digits(s.subrange(1, 37)))
    } else if s.len() == 45 && is_urn_prefix(s.subrange(0, 9)) && is_hyphenated_uuid(
        s.subrange(9, 45),
    ) {
        Some(hyphenated_digits(s.subrange(9, 45)))
    } else {
        None
    }
}

/// The lower-case hexadecimal digit for a value below 16.
pub open spec fn lower_hex_char(d: int) -> char {
    if d < 10 {
        ('0' as int + d) as char
    } else {
        ('a' as int + d - 10) as char
    }
}

/// The last `n` lower-case hexadecimal digits of `v`, most significant first.
pub open spec fn lower_hex_digits(v: nat, n: nat) -> Seq<char>
    decreases n,
{
    if n == 0 {
        Seq::empty()
    } else {
        lower_hex_digits(v / 16, (n - 1) as nat).push(lower_hex_char((v % 16) as int))
    }
}

/// The hyphenated lower-case text of a UUID value.
pub open spec fn uuid_hyphenated_text(v: u128) -> Seq<char> {
    let d = lower_hex_digits(v as nat, 32);
    d.subrange(0, 8) + seq!['-'] + d.subrange(8, 12) + seq!['-'] + d.subrange(12, 16) + seq![
        '-',
    ] + d.subrange(16, 20) + seq!['-'] + d.subrange(20, 32)
}

#[verifier::external_type_specification]
#[verifier::external_body]
pub struct ExUuidError(uuid::Error);

/// Calls `uuid::Uuid::parse_str` and hands back the parsed UUID as its big-endian
/// 128-bit value (`Uuid::as_u128`). Claimed of it: parsing succeeds exactly on the four
/// textual forms described by `uuid_text_digits`, and the value is that of the digits.
#[verifier::external_body]
fn uuid_parse_str(input: &str) -> (r: Result<u128, uuid::Error>)
    ensures
        r is Ok <==> uuid_text_digits(input@) is Some,
        r matches Ok(v) ==> v as int == hex_value(uuid_text_digits(input@)->0),
{
    uuid::Uuid::parse_str(input).map(|u| u.as_u128())
}

/// Calls `Display` of `uuid::Uuid::from_u128(value)`. Claimed of it: the text is the
/// hyphenated lower-case form of the value.
#[verifier::external_body]
fn uuid_hyphenated_string(value: u128) -> (r: String)
    ensures
        r@ == uuid_hyphenated_text(value),
{
    uuid::Uuid::from_u128(value).to_string()
}

/// Why a text is not a thread id.
#[derive(Clone, Copy, Debug, PartialEq, Eq, Structural)]
pub enum ThreadIdError {
    InvalidUuid,
}

/// Identifier of one conversation thread.
#[derive(Clone, Copy, Debug, PartialEq, Eq, Structural, Hash)]
pub struct ThreadId {
    pub uuid: u128,
}

impl ThreadId {
    /// The id whose UUID has the given 128-bit value.
    pub fn from_u128(value: u128) -> (r: ThreadId)
        ensures
            r.uuid == value,
    {
        ThreadId { uuid: value }
    }

    /// Parses a thread id from the textual forms of a UUID.
    pub fn from_string(s: &str) -> (r: Result<ThreadId, ThreadIdError>)
        ensures
            r is Ok <==> uuid_text_digits(s@) is Some,
            r matches Ok(id) ==> id.uuid as int == hex_value(uuid_text_digits(s@)->0),
            r matches Err(e) ==> e == ThreadIdError::InvalidUuid,
    {
        match uuid_parse_str(s) {
            Ok(v) => Ok(ThreadId { uuid: v }),
            Err(_) => Err(ThreadIdError::InvalidUuid),
        }
    }

    /// The hyphenated lower-case text of the id.
    pub fn to_uuid_string(&self) -> (r: String)
        ensures
            r@ == uuid_hyphenated_text(self.uuid),
    {
        uuid_hyphenated_string(self.uuid)
    }
}

/// The thread id used as the fixture of the monitor's scenarios.
pub fn thread_id() -> (r: ThreadId)
    ensures
        r.uuid == 0x0198a9d1_7f58_7d42_99e8_c6262c249001u128,
{
    let text = "0198a9d1-7f58-7d42-99e8-c6262c249001";
    proof {
        reveal_strlit("0198a9d1-7f58-7d42-99e8-c6262c249001");
        assert(uuid_text_digits(text@) == Some(hyphenated_digits(text@)));
        reveal_with_fuel(hex_value, 33);
        assert(hex_value(hyphenated_digits(text@)) == 0x0198a9d1_7f58_7d42_99e8_c6262c249001int);
    }
    match ThreadId::from_string(text) {
        Ok(id) => id,
        Err(_) => ThreadId::from_u128(0),
    }
}

/// The thread id with the given 128-bit value.
pub fn id(value: u128) -> (r: ThreadId)
    ensures
        r.uuid == value,
{
    ThreadId::from_u128(value)
}

} // verus!
