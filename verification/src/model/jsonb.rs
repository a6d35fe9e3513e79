use vstd::prelude::*;

verus! {

/// The version byte that starts every stored JSONB value.
pub const JSONB_VERSION: u8 = 1;

/// Why a stored JSONB value could not be read.
#[derive(Clone, Copy, Debug, PartialEq, Eq, Structural)]
pub enum JsonbError {
    /// The value starts with a version byte other than 1.
    UnsupportedVersion,
}

impl JsonbError {
    /// The text that explains the error.
    pub fn message(&self) -> (res: &'static str)
        ensures
            res@ == "Unsupported JSONB encoding version"@,
    {
        "Unsupported JSONB encoding version"
    }
}

/// The stored form of a JSON text: the version byte, then the text.
pub open spec fn framed(payload: Seq<u8>) -> Seq<u8> {
    seq![JSONB_VERSION] + payload
}

/// The JSON text of a stored value: what follows the version byte, which
/// must be 1.
pub open spec fn unframed(stored: Seq<u8>) -> Result<Seq<u8>, JsonbError>
    recommends
        stored.len() > 0,
{
    if stored[0] == JSONB_VERSION {
        Ok(stored.drop_first())
    } else {
        Err(JsonbError::UnsupportedVersion)
    }
}

/// The stored form of a JSON text.
pub fn frame(payload: &[u8]) -> (res: Vec<u8>)
    ensures
        res@ == framed(payload@),
{
    let mut out: Vec<u8> = Vec::new();
    out.push(JSONB_VERSION);
    let n = payload.len();
    for i in 0..n
        invariant
            n == payload@.len(),
            out@ == seq![JSONB_VERSION] + payload@.take(i as int),
    {
        out.push(payload[i]);
        assert(payload@.take(i as int + 1) =~= payload@.take(i as int).push(payload@[i as int]));
    }
    assert(payload@.take(n as int) =~= payload@);
    out
}

/// The JSON text of a stored value, which must not be empty.
pub fn unframe(stored: &[u8]) -> (res: Result<Vec<u8>, JsonbError>)
    requires
        stored@.len() > 0,
    ensures
        match unframed(stored@) {
            Ok(payload) => res matches Ok(v) && v@ == payload,
            Err(e) => res == Err::<Vec<u8>, JsonbError>(e),
        },
{
    if stored[0] != JSONB_VERSION {
        return Err(JsonbError::UnsupportedVersion);
    }
    let mut out: Vec<u8> = Vec::new();
    let n = stored.len();
    for i in 1..n
        invariant
            n == stored@.len(),
            out@ == stored@.subrange(1, i as int),
    {
        out.push(stored[i]);
        assert(stored@.subrange(1, i as int + 1) =~= stored@.subrange(1, i as int).push(
            stored@[i as int],
        ));
    }
    assert(stored@.subrange(1, n as int) =~= stored@.drop_first());
    Ok(out)
}

/// A stored value reads back as the JSON text it was stored from.
pub proof fn jsonb_round_trip(payload: Seq<u8>)
    ensures
        framed(payload).len() > 0,
        unframed(framed(payload)) == Ok::<Seq<u8>, JsonbError>(payload),
{
    assert(framed(payload).drop_first() =~= payload);
}

} // verus!
