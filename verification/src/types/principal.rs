use vstd::prelude::*;
use vstd::slice::*;

verus! {

/// The textual form of the principal with the given bytes, as
/// `candid::Principal::to_text` prints it: the base-32 encoding of a CRC-32
/// checksum followed by the bytes, in lower case, in groups of five.
pub uninterp spec fn principal_text(bytes: Seq<u8>) -> Seq<char>;

/// The longest byte string that is a principal.
pub const MAX_PRINCIPAL_LENGTH: usize = 29;

/// An opaque identity of the event log: between 0 and 29 bytes.
#[derive(Debug, PartialEq, Eq)]
pub struct PrincipalId {
    bytes: Vec<u8>,
}

impl View for PrincipalId {
    type V = Seq<u8>;

    closed spec fn view(&self) -> Seq<u8> {
        self.bytes@
    }
}

impl PrincipalId {
    #[verifier::type_invariant]
    spec fn bounded(self) -> bool {
        self.bytes@.len() <= MAX_PRINCIPAL_LENGTH
    }

    /// Takes the bytes of a principal; more than 29 are refused.
    pub fn from_slice(bytes: &[u8]) -> (out: Option<PrincipalId>)
        ensures
            bytes@.len() <= MAX_PRINCIPAL_LENGTH <==> out is Some,
            out is Some ==> out->Some_0@ == bytes@,
    {
        if bytes.len() <= MAX_PRINCIPAL_LENGTH {
            Some(PrincipalId { bytes: slice_to_vec(bytes) })
        } else {
            None
        }
    }

    /// The bytes of the principal.
    pub fn as_slice(&self) -> (out: &[u8])
        ensures
            out@ == self@,
            out@.len() <= MAX_PRINCIPAL_LENGTH,
    {
        proof {
            use_type_invariant(self);
        }
        self.bytes.as_slice()
    }

    /// A second copy of the principal.
    pub fn duplicate(&self) -> (out: PrincipalId)
        ensures
            out@ == self@,
    {
        proof {
            use_type_invariant(self);
        }
        PrincipalId { bytes: slice_to_vec(self.bytes.as_slice()) }
    }

    /// The principal in its textual form.
    pub fn to_text(&self) -> (out: String)
        ensures
            out@ == principal_text(self@),
    {
        proof {
            use_type_invariant(self);
        }
        print_principal(self.bytes.as_slice())
    }
}

/// Calls `candid::Principal::from_slice` and `to_text` on the result. The
/// first panics on more than 29 bytes, which the precondition leaves out; the
/// second depends on the bytes alone, and the contract gives its result a
/// name without saying more of it.
#[verifier::external_body]
fn print_principal(bytes: &[u8]) -> (out: String)
    requires
        bytes@.len() <= MAX_PRINCIPAL_LENGTH,
    ensures
        out@ == principal_text(bytes@),
{
    candid::Principal::from_slice(bytes).to_text()
}

} // verus!
