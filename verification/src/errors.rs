use vstd::prelude::*;

verus! {

/// Why a decode gave no result. Decoding never panics: a buffer that is too
/// short or holds an unrecognized code is reported through one of these.
#[derive(Clone, Copy, Debug, PartialEq, Eq, Structural)]
pub enum DecodeError {
    /// The buffer holds fewer than the 12 bytes a header occupies.
    TruncatedHeader,
    /// The buffer ran out while reading the name, the type or the class.
    TruncatedQuestion,
    /// The 16-bit query-type code is not one of the recognized record types.
    UnknownQueryType(u16),
    /// The 16-bit query-class code is not IN (1), the only recognized class.
    UnknownQueryClass(u16),
}

} // verus!
