use crate::proofs::ReclaimProof;
use crate::SocialHandle;
use vstd::prelude::*;

verus! {

/// One outbound transfer for an external asset custodian to perform: a
/// native-value transfer, a fungible-token transfer (amount as a decimal
/// string), or a non-fungible-token transfer.
#[derive(Debug)]
#[allow(inconsistent_fields)]
pub enum TransferRequest {
    Native { receiver: String, amount: u128 },
    FungibleTokenTransfer { token: String, receiver: String, amount: String, memo: String },
    NonFungibleTokenTransfer { token: String, receiver: String, token_id: String, memo: String },
}

/// The data bound at dispatch time and handed back verbatim with the
/// transfer's completion; it is not stored in durable state.
#[derive(Debug)]
pub struct Continuation {
    pub social_handle: SocialHandle,
    pub token_type: String,
    pub claim_id: u64,
    pub recipient: String,
    /// `Some(true)` on the reclaim path, `None` on the settlement path.
    pub reclaim_trf: Option<bool>,
}

/// An outbound transfer together with the continuation its completion must
/// carry; direct forwards of fresh deposits carry none.
#[derive(Debug)]
pub struct Dispatch {
    pub request: TransferRequest,
    pub continuation: Option<Continuation>,
}

/// One round trip to the external proof verifier, with the data the resumed
/// flow needs to commit the link.
#[derive(Debug)]
pub struct VerifyRequest {
    pub verifier: String,
    pub identity_proof: ReclaimProof,
    pub social_handle: SocialHandle,
    pub requester: String,
}

} // verus!
