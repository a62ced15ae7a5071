//! The identity of one subscriber or publisher.

use vstd::prelude::*;

verus! {

/// Whether a 128-bit identifier carries the version and variant bits of a
/// random (version 4) UUID.
pub open spec fn is_random_uuid(id: u128) -> bool {
    id & 0x0000_0000_0000_f000_c000_0000_0000_0000u128
        == 0x0000_0000_0000_4000_8000_0000_0000_0000u128
}

/// Calls `Uuid::new_v4` and reads the identifier as a number with
/// `Uuid::as_u128`. The bits come from the operating system's random source,
/// so the contract claims only what the masks in `new_v4` fix: the version
/// and the variant. Where that source fails, the call panics.
#[verifier::external_body]
fn random_uuid() -> (id: u128)
    ensures
        is_random_uuid(id),
{
    uuid::Uuid::new_v4().as_u128()
}

/// One subscriber or publisher, known by a random 128-bit identifier.
#[derive(Clone, PartialEq, Eq, PartialOrd, Ord, Hash, Debug)]
pub struct Client {
    id: u128,
}

impl Client {
    /// The identifier of this client.
    pub closed spec fn spec_id(&self) -> u128 {
        self.id
    }

    /// A client with a fresh random identifier.
    pub fn new() -> (client: Client)
        ensures
            is_random_uuid(client.spec_id()),
    {
        Client { id: random_uuid() }
    }

    /// The client with a given identifier.
    pub fn from_u128(id: u128) -> (client: Client)
        ensures
            client.spec_id() == id,
    {
        Client { id }
    }

    /// The identifier of this client.
    #[verifier::when_used_as_spec(spec_id)]
    pub fn id(&self) -> (id: u128)
        ensures
            id == self.spec_id(),
    {
        self.id
    }
}

} // verus!
