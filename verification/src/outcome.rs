use vstd::prelude::*;

verus! {

/// The domain-level result of handling one request. The boundary layer
/// translates it to a protocol status: a success is an OK response (carrying
/// the body, if any), and `NotFound` collapses every domain failure — absent
/// entry, rejected store operation, exhausted name generation, unmatched
/// route — into one absent-resource response with an empty body.
pub enum ResponseOutcome {
    /// Success with no response body.
    OkEmpty,
    /// Success carrying the bytes of a stored entry.
    OkBytes(Vec<u8>),
    /// Success carrying a server-generated resource name as text.
    OkText(String),
    /// The single coarse failure outcome.
    NotFound,
}

} // verus!
