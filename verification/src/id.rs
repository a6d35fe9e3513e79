use vstd::prelude::*;

use base64::prelude::{Engine, BASE64_STANDARD_NO_PAD};

verus! {

/// The sixteen bytes of a universally unique identifier, most significant
/// byte first.
#[derive(Clone, Copy, Debug)]
pub struct Uid {
    pub bytes: [u8; 16],
}

impl Uid {
    /// Whether two identifiers are the same.
    pub fn equals(&self, other: &Uid) -> (res: bool)
        ensures
            res == (self.bytes@ == other.bytes@),
    {
        let mut i: usize = 0;
        while i < 16
            invariant
                i <= 16,
                forall|k: int| 0 <= k < i ==> self.bytes@[k] == other.bytes@[k],
            decreases 16 - i,
        {
            if self.bytes[i] != other.bytes[i] {
                return false;
            }
            i = i + 1;
        }
        assert(self.bytes@ =~= other.bytes@);
        true
    }
}

/// The bytes that `uuid::Uuid::try_parse` reads from a text of one of the
/// lengths it accepts (its simple, hyphenated, braced and URN forms), or
/// `None` where it rejects the text.
pub uninterp spec fn uuid_parsed(text: Seq<char>) -> Option<Seq<u8>>;

/// What `uuid::Uuid::try_parse` gives for a text: only texts of 32, 36, 38
/// or 45 characters can be identifiers.
pub open spec fn uuid_text_bytes(text: Seq<char>) -> Option<Seq<u8>> {
    if text.len() == 32 || text.len() == 36 || text.len() == 38 || text.len() == 45 {
        uuid_parsed(text)
    } else {
        None
    }
}

/// The bytes that the standard base64 alphabet without padding decodes a
/// text to, or `None` where the text is not such an encoding.
pub uninterp spec fn base64_decoded(text: Seq<char>) -> Option<Seq<u8>>;

/// The standard base64 encoding without padding of a byte sequence.
pub uninterp spec fn base64_encoded(bytes: Seq<u8>) -> Seq<char>;

/// The sixteen-byte buffer that decoding a text of `n` bytes leaves: the
/// bytes followed by zeros.
pub open spec fn zero_padded(bytes: Seq<u8>) -> Seq<u8> {
    bytes + Seq::new((16 - bytes.len()) as nat, |i: int| 0u8)
}

/// Calls `uuid::Uuid::try_parse` and hands out the bytes of the parsed
/// identifier. The parser accepts only inputs of 32, 36, 38 or 45 bytes,
/// all of them ASCII (so as many characters); what it reads from those is
/// named `uuid_parsed`.
#[verifier::external_body]
pub(crate) fn uuid_try_parse(text: &str) -> (res: Option<[u8; 16]>)
    ensures
        res matches Some(b) ==> (text@.len() == 32 || text@.len() == 36 || text@.len() == 38
            || text@.len() == 45) && uuid_parsed(text@) == Some(b@),
        res is None ==> !(text@.len() == 32 || text@.len() == 36 || text@.len() == 38
            || text@.len() == 45) || uuid_parsed(text@) is None,
{
    match uuid::Uuid::try_parse(text) {
        Ok(id) => Some(*id.as_bytes()),
        Err(_) => None,
    }
}

/// Calls `Engine::decode_slice` of `base64::prelude::BASE64_STANDARD_NO_PAD`
/// into a zeroed sixteen-byte buffer. The call succeeds exactly when the
/// text decodes to at most sixteen bytes, which it writes at the start of
/// the buffer, leaving the rest untouched.
#[verifier::external_body]
fn base64_decode_into_buffer(text: &str) -> (res: Option<[u8; 16]>)
    ensures
        match base64_decoded(text@) {
            Some(d) => if d.len() <= 16 {
                res matches Some(b) && b@ == zero_padded(d)
            } else {
                res is None
            },
            None => res is None,
        },
{
    let mut buffer: [u8; 16] = [0; 16];
    match BASE64_STANDARD_NO_PAD.decode_slice(text, &mut buffer) {
        Ok(_) => Some(buffer),
        Err(_) => None,
    }
}

/// Calls `Engine::encode` of `base64::prelude::BASE64_STANDARD_NO_PAD`. Its
/// result is named `base64_encoded`; it is ceil(4n/3) characters long for
/// n bytes, and decoding it gives the bytes back.
#[verifier::external_body]
fn base64_encode(bytes: &[u8]) -> (res: String)
    ensures
        res@ == base64_encoded(bytes@),
        res@.len() == (4 * bytes@.len() + 2) / 3,
        base64_decoded(res@) == Some(bytes@),
{
    BASE64_STANDARD_NO_PAD.encode(bytes)
}

/// Why the identifiers of a request could not be read; each is answered
/// with status 400.
#[derive(Clone, Copy, Debug, PartialEq, Eq, Structural)]
pub enum Rejection {
    IdMissing,
    IdUndecodable,
    QueriesMissing,
    UserMissing,
    EventMissing,
}

impl Rejection {
    /// The HTTP status code of every rejection.
    pub fn status(&self) -> (code: u16)
        ensures
            code == 400,
    {
        400
    }

    /// The text that explains the rejection.
    pub fn reason(&self) -> (text: &'static str)
        ensures
            text@ == match *self {
                Rejection::IdMissing => "id query missing"@,
                Rejection::IdUndecodable => "id could not be decoded"@,
                Rejection::QueriesMissing => "Queries missing"@,
                Rejection::UserMissing => "user query is missing"@,
                Rejection::EventMissing => "event query is missing"@,
            },
    {
        match self {
            Rejection::IdMissing => "id query missing",
            Rejection::IdUndecodable => "id could not be decoded",
            Rejection::QueriesMissing => "Queries missing",
            Rejection::UserMissing => "user query is missing",
            Rejection::EventMissing => "event query is missing",
        }
    }
}

/// The identifier a text denotes: a UUID in one of its textual forms or,
/// failing that, the base64 encoding (standard alphabet, no padding) of at
/// most sixteen bytes, padded with zeros.
pub open spec fn id_of_text(text: Seq<char>) -> Option<Seq<u8>> {
    match uuid_text_bytes(text) {
        Some(b) => Some(b),
        None => match base64_decoded(text) {
            Some(d) => if d.len() <= 16 {
                Some(zero_padded(d))
            } else {
                None
            },
            None => None,
        },
    }
}

/// Reads an identifier from a text: as a UUID, else as base64.
pub fn parse_id(text: &str) -> (res: Result<Uid, Rejection>)
    ensures
        match id_of_text(text@) {
            Some(b) => res matches Ok(id) && id.bytes@ == b,
            None => res == Err::<Uid, Rejection>(Rejection::IdUndecodable),
        },
{
    match uuid_try_parse(text) {
        Some(bytes) => Ok(Uid { bytes }),
        None => match base64_decode_into_buffer(text) {
            Some(bytes) => Ok(Uid { bytes }),
            None => Err(Rejection::IdUndecodable),
        },
    }
}

/// The code under which an identifier is handed out: the base64 encoding
/// (standard alphabet, no padding) of its bytes. The code reads back as the
/// identifier it was made from.
pub fn id_code(id: &Uid) -> (res: String)
    ensures
        res@ == base64_encoded(id.bytes@),
        res@.len() == 22,
        id_of_text(res@) == Some(id.bytes@),
{
    let code = base64_encode(id.bytes.as_slice());
    assert(zero_padded(id.bytes@) =~= id.bytes@);
    code
}

/// The character of a hexadecimal digit, in lower case.
pub open spec fn hex_char(d: nat) -> char {
    if d < 10 {
        ((48 + d) as u8) as char
    } else {
        ((87 + d) as u8) as char
    }
}

/// The hyphenated lower-case hexadecimal text of an identifier's bytes:
/// groups of 4, 2, 2, 2 and 6 bytes separated by hyphens.
pub open spec fn hyphenated(bytes: Seq<u8>) -> Seq<char>
    decreases bytes.len(),
{
    if bytes.len() == 0 {
        seq![]
    } else {
        let at = bytes.len() - 1;
        let b = bytes.last();
        hyphenated(bytes.drop_last()) + (if at == 4 || at == 6 || at == 8 || at == 10 {
            seq!['-']
        } else {
            seq![]
        }) + seq![hex_char((b / 16) as nat), hex_char((b % 16) as nat)]
    }
}

/// Formats `uuid::Uuid::from_bytes` with `Display`: the hyphenated
/// lower-case hexadecimal text of the identifier, 36 characters long, which
/// `Uuid::try_parse` reads back as the same bytes.
#[verifier::external_body]
fn uuid_text(bytes: [u8; 16]) -> (res: String)
    ensures
        res@ == hyphenated(bytes@),
        res@.len() == 36,
        uuid_parsed(res@) == Some(bytes@),
{
    uuid::Uuid::from_bytes(bytes).to_string()
}

impl Uid {
    /// The hyphenated lower-case hexadecimal text of the identifier, as
    /// `uuid::Uuid` displays it. The text reads back as the identifier.
    pub fn hyphenated_text(&self) -> (res: String)
        ensures
            res@ == hyphenated(self.bytes@),
            id_of_text(res@) == Some(self.bytes@),
    {
        uuid_text(self.bytes)
    }
}

} // verus!
