//! Identifiers: UUID strings.

use vstd::prelude::*;
use crate::error::AppError;

verus! {

/// A hexadecimal digit, in either case.
pub open spec fn is_hex_digit(c: char) -> bool {
    ('0' <= c <= '9') || ('a' <= c <= 'f') || ('A' <= c <= 'F')
}

/// The hyphenated form: 36 characters, hyphens at 8, 13, 18 and 23, and
/// hexadecimal digits everywhere else.
pub open spec fn uuid_hyphenated(t: Seq<char>) -> bool {
    &&& t.len() == 36
    &&& forall|i: int| 0 <= i < 36 ==> if i == 8 || i == 13 || i == 18 || i == 23 {
        t[i] == '-'
    } else {
        is_hex_digit(#[trigger] t[i])
    }
}

/// `c` with an ASCII capital letter lowered.
pub open spec fn ascii_lower(c: char) -> char {
    if 'A' <= c <= 'Z' {
        ((c as u32) + 32) as char
    } else {
        c
    }
}

/// The texts `uuid::Uuid::parse_str` accepts: 32 hexadecimal digits; the
/// hyphenated form; the hyphenated form in braces; or `urn:uuid:` (in any
/// ASCII case) followed by the hyphenated form.
pub open spec fn uuid_parses(s: Seq<char>) -> bool {
    ||| s.len() == 32 && forall|i: int| 0 <= i < 32 ==> is_hex_digit(#[trigger] s[i])
    ||| uuid_hyphenated(s)
    ||| s.len() == 38 && s[0] == '{' && s[37] == '}' && uuid_hyphenated(s.subrange(1, 37))
    ||| s.len() == 45 && (forall|i: int| 0 <= i < 9 ==> ascii_lower(#[trigger] s[i]) == "urn:uuid:"@[i])
        && uuid_hyphenated(s.skip(9))
}

/// `uuid::Uuid::parse_str(s).is_ok()`: whether the text has one of the four
/// shapes of `uuid_parses` (uuid's `try_parse` matches on the byte length
/// and accepts only ASCII hexadecimal digits, hyphens, braces and the URN
/// prefix, so a text with other characters is refused either way).
#[verifier::external_body]
fn uuid_accepts(s: &str) -> (r: bool)
    ensures
        r == uuid_parses(s@),
{
    uuid::Uuid::parse_str(s).is_ok()
}

/// `Uuid::new_v7(Timestamp::from_unix(NoContext, secs, nanos)).to_string()`:
/// a time-ordered UUID for that instant, its remaining bits random. Its
/// text is the hyphenated form that `Display` writes, which
/// `Uuid::parse_str` accepts; which UUID it is is not stated (it depends on
/// randomness). uuid computes the millisecond timestamp with saturating
/// arithmetic, so no instant makes it panic.
#[verifier::external_body]
pub(crate) fn uuid_v7_at(secs: u64, nanos: u32) -> (r: String)
    ensures
        uuid_parses(r@),
{
    uuid::Uuid::new_v7(uuid::Timestamp::from_unix(uuid::NoContext, secs, nanos)).to_string()
}

/// A fresh time-ordered UUID for the system clock's current reading (the
/// epoch when the clock reads before it).
pub(crate) fn fresh_uuid_v7() -> (r: String)
    ensures
        uuid_parses(r@),
{
    let (secs, nanos) = crate::clock::unix_now();
    uuid_v7_at(secs, nanos)
}

/// `uuid::Uuid::new_v4().to_string()`: a fresh random UUID. Its text is the
/// hyphenated form that `Display` writes, which `Uuid::parse_str` accepts;
/// which UUID it is is not stated (it depends on randomness).
#[verifier::external_body]
pub(crate) fn fresh_uuid_v4() -> (r: String)
    ensures
        uuid_parses(r@),
{
    uuid::Uuid::new_v4().to_string()
}

/// A UUID-backed identifier.
#[derive(Debug, Clone)]
pub struct Id(String);

impl View for Id {
    type V = Seq<char>;

    closed spec fn view(&self) -> Seq<char> {
        self.0@
    }
}

/// The message of a refused identifier.
pub open spec fn invalid_id_message(s: Seq<char>) -> Seq<char> {
    "Invalid ID: "@ + s
}

impl Id {
    /// A fresh time-ordered identifier; its text is a UUID.
    pub fn new() -> (r: Id)
        ensures
            uuid_parses(r@),
    {
        Id(fresh_uuid_v7())
    }

    /// Wraps `s` when it is a UUID, and refuses it otherwise.
    pub fn from_str(s: &str) -> (r: Result<Id, AppError>)
        ensures
            uuid_parses(s@) ==> (r matches Ok(id) && id@ == s@),
            !uuid_parses(s@) ==> (r matches Err(AppError::InvalidInput(m)) && m@
                == invalid_id_message(s@)),
    {
        if !uuid_accepts(s) {
            let mut m = String::from_str("Invalid ID: ");
            m.append(s);
            return Err(AppError::InvalidInput(m));
        }
        Ok(Id(String::from_str(s)))
    }

    /// The identifier's text.
    pub fn as_str(&self) -> (r: &str)
        ensures
            r@ == self@,
    {
        self.0.as_str()
    }

    /// A copy of the identifier's text.
    pub fn to_string(&self) -> (r: String)
        ensures
            r@ == self@,
    {
        self.0.clone()
    }

    /// Whether two identifiers hold the same text (`==` on `Id`).
    pub fn same_as(&self, other: &Id) -> (r: bool)
        ensures
            r == (self@ == other@),
    {
        self.0 == other.0
    }
}

} // verus!
