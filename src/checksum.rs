use vstd::prelude::*;

use crate::bytes::{copy_bytes, same_bytes};
use crate::error::ErrorKind;

verus! {

/// The digest that identifies a bytecode.
pub uninterp spec fn checksum_of(wasm: Seq<u8>) -> Seq<u8>;

/// Relies on cosmwasm_vm::Checksum::generate, the SHA-256 digest of the bytecode,
/// which is 32 bytes long and depends on the bytes alone.
#[verifier::external_body]
fn generate_digest(wasm: &[u8]) -> (r: Vec<u8>)
    ensures
        r@ == checksum_of(wasm@),
        r@.len() == 32,
{
    cosmwasm_vm::Checksum::generate(wasm).into()
}

/// The 32-byte content hash of a bytecode.
#[derive(Debug)]
pub struct Checksum {
    bytes: Vec<u8>,
}

impl View for Checksum {
    type V = Seq<u8>;

    closed spec fn view(&self) -> Seq<u8> {
        self.bytes@
    }
}

impl Checksum {
    pub open spec fn wf(&self) -> bool {
        self@.len() == 32
    }

    /// The checksum of a bytecode.
    pub fn generate(wasm: &[u8]) -> (r: Checksum)
        ensures
            r@ == checksum_of(wasm@),
            r.wf(),
    {
        Checksum { bytes: generate_digest(wasm) }
    }

    /// Reads a checksum that was handed over as bytes; it must be 32 bytes long.
    pub fn from_slice(bytes: &[u8]) -> (r: Result<Checksum, ErrorKind>)
        ensures
            r is Ok <==> bytes@.len() == 32,
            r is Ok ==> r->Ok_0@ == bytes@ && r->Ok_0.wf(),
            r is Err ==> r == Err::<Checksum, ErrorKind>(ErrorKind::ArgumentError),
    {
        if bytes.len() != 32 {
            Err(ErrorKind::ArgumentError)
        } else {
            Ok(Checksum { bytes: copy_bytes(bytes) })
        }
    }

    pub fn as_slice(&self) -> (r: &[u8])
        ensures
            r@ == self@,
    {
        self.bytes.as_slice()
    }

    pub fn to_vec(&self) -> (r: Vec<u8>)
        ensures
            r@ == self@,
    {
        copy_bytes(self.bytes.as_slice())
    }

    pub fn same_as(&self, other: &Checksum) -> (r: bool)
        ensures
            r == (self@ == other@),
    {
        same_bytes(self.bytes.as_slice(), other.bytes.as_slice())
    }

    pub fn duplicate(&self) -> (r: Checksum)
        ensures
            r@ == self@,
    {
        Checksum { bytes: copy_bytes(self.bytes.as_slice()) }
    }
}

} // verus!
