//! Escrowed social-media tipping: value credited to a (platform, handle)
//! pair before its owner has linked an account is held as a claim, settled in
//! bounded batches once the handle is verifiably linked, and returnable to
//! the sender after a 90-day expiry window.
//!
//! The [`Contract`] aggregate owns all durable state and is pure: every entry
//! point takes its context (caller, attached deposit, current time) as plain
//! values and returns the outbound actions — transfer dispatches with their
//! continuations, verification round trips, notifications — instead of
//! performing them. The single reconciliation entry point
//! [`Contract::on_transfer_complete`] tolerates out-of-order and duplicate
//! completions; the aggregate invariant [`Contract::inv`] ties the claim
//! store to the pending index, so a settled or reclaimed claim is never
//! pending anywhere.

use vstd::prelude::*;

pub mod claim;
pub mod events;
pub mod external;
pub mod proofs;
pub mod routing;
pub mod store;
pub mod text;
pub mod token;

use crate::claim::{claim_type_text, token_type_seq, Claim, ClaimExternal, ClaimType};
use crate::events::{
    is_account_linked, is_claim_created, is_claim_processed, is_tip_reclaimed, is_tip_transferred,
    Event,
};
use crate::routing::{json_nested_str_field, json_str_field, lookup_json_nested_str_field,
    lookup_json_str_field};
use crate::text::dec_seq;
use crate::external::{Continuation, Dispatch, TransferRequest, VerifyRequest};
use crate::proofs::ReclaimProof;
use crate::store::StrMap;
use crate::text::{handle_key, lower_of, lowercase, u128_to_dec};
use crate::token::TokenInfo;
use vstd::string::StrSliceExecFns;
use vstd::string::StringExecFns;

verus! {

/// Nanoseconds between a claim's creation and its expiry (90 days).
pub const CLAIM_EXPIRATION_PERIOD: u64 = 90 * 24 * 60 * 60 * 1_000_000_000;

/// Maximum time allowed between proof generation and submission (5 minutes,
/// in nanoseconds).
pub const MAX_PROOF_AGE: u64 = 5 * 60 * 1_000_000_000;

/// Maximum number of pending claims visited by one settlement call.
pub const MAX_CLAIMS_PER_BATCH: usize = 100;

/// A case-folded (platform, handle) pair, the canonical identity of a social
/// account.
#[derive(Debug)]
pub struct SocialHandle {
    pub platform: String,
    pub handle: String,
}

impl Clone for SocialHandle {
    fn clone(&self) -> (r: Self)
        ensures
            r == *self,
    {
        SocialHandle { platform: self.platform.clone(), handle: self.handle.clone() }
    }
}

/// The canonical map key of the case-folded pair (platform, handle).
pub open spec fn key_of(platform: Seq<char>, handle: Seq<char>) -> Seq<char> {
    handle_key(lower_of(platform), lower_of(handle))
}

/// Two (platform, handle) pairs share a canonical key only when they case-fold
/// to the same pair: the combination rule cannot conflate distinct folded
/// identities.
pub proof fn lemma_key_of_injective(p1: Seq<char>, h1: Seq<char>, p2: Seq<char>, h2: Seq<char>)
    requires
        key_of(p1, h1) == key_of(p2, h2),
    ensures
        lower_of(p1) == lower_of(p2),
        lower_of(h1) == lower_of(h2),
{
    crate::text::lemma_handle_key_injective(lower_of(p1), lower_of(h1), lower_of(p2), lower_of(h2));
}

impl SocialHandle {
    /// Case-folds both parts.
    pub fn new(platform: String, handle: String) -> (r: Self)
        ensures
            r.platform@ == lower_of(platform@),
            r.handle@ == lower_of(handle@),
    {
        SocialHandle {
            platform: lowercase(platform.as_str()),
            handle: lowercase(handle.as_str()),
        }
    }

    /// The canonical string key: the platform length in decimal, a colon, the
    /// platform, then the handle. Distinct pairs never collide
    /// (`text::lemma_handle_key_injective`).
    pub fn to_string(&self) -> (r: String)
        ensures
            r@ == handle_key(self.platform@, self.handle@),
    {
        let len = self.platform.as_str().unicode_len();
        let mut r = u128_to_dec(len as u128);
        r.append(":");
        r.append(self.platform.as_str());
        r.append(self.handle.as_str());
        proof {
            reveal_strlit(":");
            assert(r@ =~= handle_key(self.platform@, self.handle@));
        }
        r
    }
}

/// Why an invocation was rejected; every rejection leaves the durable state
/// unchanged.
#[derive(Clone, Copy, PartialEq, Eq, Debug)]
pub enum TipError {
    /// The system is suspended.
    Paused,
    /// The call carried no attached deposit.
    NoDeposit,
    /// The handle key is already linked.
    AlreadyLinked,
    /// The identity proof's context is not JSON or lacks the proven handle.
    MalformedProofContext,
    /// The proven handle differs from the passed handle.
    ProofHandleMismatch,
    /// The external verifier rejected the identity proof.
    VerificationFailed,
    /// The handle key is not linked to any account.
    NotLinked,
    /// The caller is not the account this operation belongs to.
    WrongCaller,
    /// The handle has no pending claims to process.
    NoPendingClaims,
    /// No claim is stored under the identifier.
    ClaimNotFound,
    /// The claim was already settled.
    AlreadyClaimed,
    /// The claim was already reclaimed.
    AlreadyReclaimed,
    /// The claim's expiry window has not passed yet.
    NotExpired,
    /// Only the original tipper may reclaim.
    NotTipper,
    /// Only the owner may perform this administrative operation.
    NotOwner,
    /// The system is already suspended.
    AlreadyPaused,
    /// The system is not suspended.
    NotPaused,
    /// The notifying custodian is not on the allow-list.
    UnsupportedToken,
    /// The routing message is not JSON or lacks the platform or handle field.
    MalformedMessage,
}

/// What an accepted deposit notification led to: an immediate forward to the
/// linked owner, or a new escrowed claim.
#[derive(Debug)]
pub enum TipOutcome {
    Transferred { dispatch: Dispatch, event: Event },
    ClaimStored { claim_id: u64, event: Event },
}

/// The aggregate owning all durable state: the identity link registry, the
/// claim store, the pending index, and the custodian allow-list.
pub struct Contract {
    pub owner_id: String,
    pub reclaim_contract_id: String,
    /// Canonical handle key to owning account; write-once per key.
    pub linked_accounts: StrMap<String>,
    /// The next claim identifier; identifiers start at one, strictly
    /// increase, and are never reused.
    pub next_claim_id: u64,
    /// Claim `i + 1` lives at index `i`; records are never deleted.
    pub claims_by_id: Vec<Claim>,
    /// Canonical handle key to the claim identifiers awaiting resolution;
    /// a bucket is deleted as soon as it would become empty.
    pub handle_claims: StrMap<Vec<u64>>,
    /// Allow-listed token custodians.
    pub supported_tokens: StrMap<TokenInfo>,
    pub paused: bool,
}

/// What must hold of one pending bucket: non-empty, every identifier names a
/// stored claim, none twice, and none whose claim is already settled or
/// reclaimed.
pub open spec fn bucket_inv(b: Seq<u64>, claims: Seq<Claim>) -> bool {
    &&& b.len() > 0
    &&& forall|i: int| 0 <= i < b.len() ==> 1 <= #[trigger] b[i] <= claims.len()
    &&& forall|i: int, j: int| 0 <= i < j < b.len() ==> b[i] != b[j]
    &&& forall|i: int|
        0 <= i < b.len() ==> !claims[#[trigger] b[i] - 1].claimed && !claims[b[i] - 1].reclaimed
}

/// Claim `id` stands in the bucket of handle key `key`.
pub open spec fn bucket_has(p: Map<Seq<char>, Vec<u64>>, key: Seq<char>, id: u64) -> bool {
    p.contains_key(key) && p[key]@.contains(id)
}

/// Every bucket of the pending index is well formed against the claim store.
pub open spec fn buckets_ok(p: Map<Seq<char>, Vec<u64>>, claims: Seq<Claim>) -> bool {
    forall|key: Seq<char>| #[trigger] p.contains_key(key) ==> bucket_inv(p[key]@, claims)
}

/// No claim identifier is pending under two handle keys.
pub open spec fn pending_unique(p: Map<Seq<char>, Vec<u64>>) -> bool {
    forall|k1: Seq<char>, k2: Seq<char>, id: u64|
        #![trigger bucket_has(p, k1, id), bucket_has(p, k2, id)]
        bucket_has(p, k1, id) && bucket_has(p, k2, id) ==> k1 == k2
}

impl Contract {
    /// A claim identifier that names a stored record.
    pub open spec fn has_claim(self, id: u64) -> bool {
        1 <= id <= self.claims_by_id@.len()
    }

    /// The stored record of claim `id`.
    pub open spec fn claim_of(self, id: u64) -> Claim {
        self.claims_by_id@[id - 1]
    }

    /// Claim `id` awaits resolution under handle key `key`.
    pub open spec fn pending_has(self, key: Seq<char>, id: u64) -> bool {
        bucket_has(self.handle_claims@, key, id)
    }

    /// The aggregate's well-formedness: unique map keys, the identifier
    /// counter one past the store, every pending bucket well formed, and no
    /// identifier pending under two handle keys.
    pub open spec fn inv(self) -> bool {
        &&& self.linked_accounts.wf()
        &&& self.handle_claims.wf()
        &&& self.supported_tokens.wf()
        &&& self.next_claim_id == self.claims_by_id@.len() + 1
        &&& buckets_ok(self.handle_claims@, self.claims_by_id@)
        &&& pending_unique(self.handle_claims@)
    }

    /// A settled claim is absent from every pending bucket. This is the
    /// invariant tying the claim store to the pending index; it holds in
    /// every reachable state.
    pub proof fn lemma_settled_not_pending(self, key: Seq<char>, id: u64)
        requires
            self.inv(),
            self.has_claim(id),
            self.claim_of(id).claimed,
        ensures
            !self.pending_has(key, id),
    {
        if self.pending_has(key, id) {
            let b = self.handle_claims@[key]@;
            let i = choose|i: int| 0 <= i < b.len() && b[i] == id;
            assert(!self.claims_by_id@[b[i] - 1].claimed);
        }
    }

    /// A reclaimed claim is absent from every pending bucket too.
    pub proof fn lemma_reclaimed_not_pending(self, key: Seq<char>, id: u64)
        requires
            self.inv(),
            self.has_claim(id),
            self.claim_of(id).reclaimed,
        ensures
            !self.pending_has(key, id),
    {
        if self.pending_has(key, id) {
            let b = self.handle_claims@[key]@;
            let i = choose|i: int| 0 <= i < b.len() && b[i] == id;
            assert(!self.claims_by_id@[b[i] - 1].reclaimed);
        }
    }

    /// A fresh aggregate: nothing linked, nothing escrowed, nothing
    /// allow-listed, not suspended, identifiers starting at one.
    pub fn new(owner_id: String, reclaim_contract_id: String) -> (r: Self)
        ensures
            r.inv(),
            r.owner_id == owner_id,
            r.reclaim_contract_id == reclaim_contract_id,
            r.linked_accounts@ == Map::<Seq<char>, String>::empty(),
            r.next_claim_id == 1,
            r.claims_by_id@ == Seq::<Claim>::empty(),
            r.handle_claims@ == Map::<Seq<char>, Vec<u64>>::empty(),
            r.supported_tokens@ == Map::<Seq<char>, TokenInfo>::empty(),
            !r.paused,
    {
        Contract {
            owner_id,
            reclaim_contract_id,
            linked_accounts: StrMap::new(),
            next_claim_id: 1,
            claims_by_id: Vec::new(),
            handle_claims: StrMap::new(),
            supported_tokens: StrMap::new(),
            paused: false,
        }
    }

    /// Suspends the system; only the owner may, and only when it runs.
    pub fn pause(&mut self, caller: String) -> (r: Result<(), TipError>)
        requires
            old(self).inv(),
        ensures
            final(self).inv(),
            (if caller@ != old(self).owner_id@ {
                r == Err::<(), TipError>(TipError::NotOwner) && *final(self) == *old(self)
            } else if old(self).paused {
                r == Err::<(), TipError>(TipError::AlreadyPaused) && *final(self) == *old(self)
            } else {
                r == Ok::<(), TipError>(()) && *final(self) == (Contract {
                    paused: true,
                    ..*old(self)
                })
            }),
    {
        if !caller.eq(&self.owner_id) {
            return Err(TipError::NotOwner);
        }
        if self.paused {
            return Err(TipError::AlreadyPaused);
        }
        self.paused = true;
        Ok(())
    }

    /// Resumes the system; only the owner may, and only when it is suspended.
    pub fn unpause(&mut self, caller: String) -> (r: Result<(), TipError>)
        requires
            old(self).inv(),
        ensures
            final(self).inv(),
            (if caller@ != old(self).owner_id@ {
                r == Err::<(), TipError>(TipError::NotOwner) && *final(self) == *old(self)
            } else if !old(self).paused {
                r == Err::<(), TipError>(TipError::NotPaused) && *final(self) == *old(self)
            } else {
                r == Ok::<(), TipError>(()) && *final(self) == (Contract {
                    paused: false,
                    ..*old(self)
                })
            }),
    {
        if !caller.eq(&self.owner_id) {
            return Err(TipError::NotOwner);
        }
        if !self.paused {
            return Err(TipError::NotPaused);
        }
        self.paused = false;
        Ok(())
    }

    pub fn is_paused(&self) -> (r: bool)
        ensures
            r == self.paused,
    {
        self.paused
    }

    /// Points the proof gateway at another verifier; only the owner may.
    pub fn set_reclaim_contract(&mut self, contract_id: String, caller: String) -> (r: Result<
        (),
        TipError,
    >)
        requires
            old(self).inv(),
        ensures
            final(self).inv(),
            (if caller@ != old(self).owner_id@ {
                r == Err::<(), TipError>(TipError::NotOwner) && *final(self) == *old(self)
            } else {
                r == Ok::<(), TipError>(()) && *final(self) == (Contract {
                    reclaim_contract_id: contract_id,
                    ..*old(self)
                })
            }),
    {
        if !caller.eq(&self.owner_id) {
            return Err(TipError::NotOwner);
        }
        self.reclaim_contract_id = contract_id;
        Ok(())
    }

    pub fn get_reclaim_contract(&self) -> (r: String)
        ensures
            r == self.reclaim_contract_id,
    {
        self.reclaim_contract_id.clone()
    }

    /// Allow-lists a token custodian; only the owner may.
    pub fn register_token(&mut self, token_id: String, token_info: TokenInfo, caller: String) -> (r:
        Result<(), TipError>)
        requires
            old(self).inv(),
        ensures
            final(self).inv(),
            (if caller@ != old(self).owner_id@ {
                r == Err::<(), TipError>(TipError::NotOwner) && *final(self) == *old(self)
            } else {
                &&& r == Ok::<(), TipError>(())
                &&& final(self).supported_tokens@ == old(self).supported_tokens@.insert(
                    token_id@,
                    token_info,
                )
                &&& final(self).linked_accounts == old(self).linked_accounts
                &&& final(self).claims_by_id == old(self).claims_by_id
                &&& final(self).handle_claims == old(self).handle_claims
                &&& final(self).owner_id == old(self).owner_id
                &&& final(self).reclaim_contract_id == old(self).reclaim_contract_id
                &&& final(self).next_claim_id == old(self).next_claim_id
                &&& final(self).paused == old(self).paused
            }),
    {
        if !caller.eq(&self.owner_id) {
            return Err(TipError::NotOwner);
        }
        self.supported_tokens.insert(token_id, token_info);
        Ok(())
    }

    /// Removes a token custodian from the allow-list; only the owner may.
    pub fn remove_token(&mut self, token_id: String, caller: String) -> (r: Result<(), TipError>)
        requires
            old(self).inv(),
        ensures
            final(self).inv(),
            (if caller@ != old(self).owner_id@ {
                r == Err::<(), TipError>(TipError::NotOwner) && *final(self) == *old(self)
            } else {
                &&& r == Ok::<(), TipError>(())
                &&& final(self).supported_tokens@ == old(self).supported_tokens@.remove(token_id@)
                &&& final(self).linked_accounts == old(self).linked_accounts
                &&& final(self).claims_by_id == old(self).claims_by_id
                &&& final(self).handle_claims == old(self).handle_claims
                &&& final(self).owner_id == old(self).owner_id
                &&& final(self).reclaim_contract_id == old(self).reclaim_contract_id
                &&& final(self).next_claim_id == old(self).next_claim_id
                &&& final(self).paused == old(self).paused
            }),
    {
        if !caller.eq(&self.owner_id) {
            return Err(TipError::NotOwner);
        }
        self.supported_tokens.remove(&token_id);
        Ok(())
    }

    pub fn get_token_info(&self, token_id: String) -> (r: Option<TokenInfo>)
        requires
            self.inv(),
        ensures
            (match r {
                Some(info) => self.supported_tokens@.contains_key(token_id@) && info
                    == self.supported_tokens@[token_id@],
                None => !self.supported_tokens@.contains_key(token_id@),
            }),
    {
        match self.supported_tokens.get(&token_id) {
            Some(info) => Some(info.clone()),
            None => None,
        }
    }

    /// Whether the case-folded pair is linked.
    pub fn is_linked(&self, platform: String, handle: String) -> (r: bool)
        requires
            self.inv(),
        ensures
            r == self.linked_accounts@.contains_key(key_of(platform@, handle@)),
    {
        let social_handle = SocialHandle::new(platform, handle);
        let key = social_handle.to_string();
        self.linked_accounts.contains_key(&key)
    }

    /// The account linked to the case-folded pair, if any.
    pub fn get_linked_account(&self, platform: String, handle: String) -> (r: Option<String>)
        requires
            self.inv(),
        ensures
            (match r {
                Some(account) => self.linked_accounts@.contains_key(key_of(platform@, handle@))
                    && account == self.linked_accounts@[key_of(platform@, handle@)],
                None => !self.linked_accounts@.contains_key(key_of(platform@, handle@)),
            }),
    {
        let social_handle = SocialHandle::new(platform, handle);
        let key = social_handle.to_string();
        match self.linked_accounts.get(&key) {
            Some(account) => Some(account.clone()),
            None => None,
        }
    }

    /// The stored record of a claim identifier, if any; records persist as an
    /// audit trail even after settlement or reclaim.
    pub fn get_claim_by_id(&self, claim_id: u64) -> (r: Option<Claim>)
        ensures
            (match r {
                Some(c) => self.has_claim(claim_id) && c == self.claim_of(claim_id),
                None => !self.has_claim(claim_id),
            }),
    {
        if claim_id >= 1 && claim_id <= self.claims_by_id.len() as u64 {
            let idx = (claim_id - 1) as usize;
            Some(self.claims_by_id[idx].clone())
        } else {
            None
        }
    }
}

/// How escrowing one claim under `key` changes the aggregate: the record is
/// appended under the next identifier, the identifier joins `key`'s bucket
/// (created if absent), and nothing else moves.
pub open spec fn claim_stored(pre: Contract, post: Contract, key: Seq<char>, c: Claim) -> bool {
    &&& post.claims_by_id@ == pre.claims_by_id@.push(c)
    &&& post.next_claim_id == pre.next_claim_id + 1
    &&& post.handle_claims@.contains_key(key)
    &&& post.handle_claims@[key]@ == (if pre.handle_claims@.contains_key(key) {
        pre.handle_claims@[key]@.push(pre.next_claim_id)
    } else {
        seq![pre.next_claim_id]
    })
    &&& forall|k: Seq<char>|
        (#[trigger] post.handle_claims@.contains_key(k)) <==> (pre.handle_claims@.contains_key(k)
            || k == key)
    &&& forall|k: Seq<char>|
        k != key && #[trigger] pre.handle_claims@.contains_key(k) ==> post.handle_claims@[k]
            == pre.handle_claims@[k]
    &&& post.linked_accounts == pre.linked_accounts
    &&& post.supported_tokens == pre.supported_tokens
    &&& post.owner_id == pre.owner_id
    &&& post.reclaim_contract_id == pre.reclaim_contract_id
    &&& post.paused == pre.paused
}

/// The memo on a transfer that settles a claim to the linked owner.
pub open spec fn settle_memo(tipper: Seq<char>) -> Seq<char> {
    "Claimed tip from "@ + tipper
}

/// The memo on a transfer that forwards a fresh deposit to the linked owner.
pub open spec fn forward_memo(sender: Seq<char>) -> Seq<char> {
    "Tip from "@ + sender
}

/// The transfer request that delivers the asset of claim `c` to `recipient`,
/// with `memo` on token transfers (native transfers carry none).
pub open spec fn claim_request_ok(
    req: TransferRequest,
    c: Claim,
    recipient: Seq<char>,
    memo: Seq<char>,
) -> bool {
    match c.claim_type {
        ClaimType::Near => req matches TransferRequest::Native { receiver, amount } && receiver@
            == recipient && amount == c.amount,
        ClaimType::FungibleToken { contract_id } => req matches TransferRequest::FungibleTokenTransfer {
            token,
            receiver,
            amount,
            memo: m,
        } && token@ == contract_id@ && receiver@ == recipient && amount@ == dec_seq(
            c.amount as nat,
        ) && m@ == memo,
        ClaimType::NonFungibleToken { contract_id, token_id } => req matches TransferRequest::NonFungibleTokenTransfer {
            token,
            receiver,
            token_id: t,
            memo: m,
        } && token@ == contract_id@ && receiver@ == recipient && t@ == token_id@ && m@ == memo,
    }
}

/// The continuation bound to a settlement or reclaim dispatch of claim `id`.
pub open spec fn continuation_ok(
    k: Continuation,
    platform: Seq<char>,
    handle: Seq<char>,
    token_type: Seq<char>,
    id: u64,
    recipient: Seq<char>,
    reclaim: bool,
) -> bool {
    &&& k.social_handle.platform@ == platform
    &&& k.social_handle.handle@ == handle
    &&& k.token_type@ == token_type
    &&& k.claim_id == id
    &&& k.recipient@ == recipient
    &&& k.reclaim_trf == (if reclaim {
        Some(true)
    } else {
        None::<bool>
    })
}

/// A complete settlement (or, with `reclaim`, reclaim) dispatch of claim
/// `id`: the matching transfer request plus the continuation its completion
/// must carry.
pub open spec fn claim_dispatch_ok(
    d: Dispatch,
    id: u64,
    c: Claim,
    platform: Seq<char>,
    handle: Seq<char>,
    recipient: Seq<char>,
    reclaim: bool,
) -> bool {
    &&& claim_request_ok(
        d.request,
        c,
        recipient,
        if reclaim {
            "Reclaimed expired tip"@
        } else {
            settle_memo(c.tipper@)
        },
    )
    &&& d.continuation matches Some(k) && continuation_ok(
        k,
        platform,
        handle,
        token_type_seq(c.claim_type),
        id,
        recipient,
        reclaim,
    )
}

/// An element-for-element copy of a bucket's identifiers.
fn copy_ids(b: &Vec<u64>) -> (r: Vec<u64>)
    ensures
        r@ == b@,
{
    let mut r: Vec<u64> = Vec::new();
    let n = b.len();
    let mut i: usize = 0;
    while i < n
        invariant
            i <= n,
            n == b@.len(),
            r@ == b@.take(i as int),
        decreases n - i,
    {
        r.push(b[i]);
        proof {
            assert(r@ =~= b@.take(i + 1));
        }
        i = i + 1;
    }
    proof {
        assert(b@.take(n as int) =~= b@);
    }
    r
}

/// Appending a claim record disturbs no existing bucket.
proof fn lemma_bucket_inv_push(b: Seq<u64>, claims: Seq<Claim>, c: Claim)
    requires
        bucket_inv(b, claims),
    ensures
        bucket_inv(b, claims.push(c)),
{
    assert forall|i: int|
        0 <= i < b.len() implies !claims.push(c)[#[trigger] b[i] - 1].claimed && !claims.push(
        c,
    )[b[i] - 1].reclaimed by {
        assert(claims.push(c)[b[i] - 1] == claims[b[i] - 1]);
    }
}

impl Contract {
    /// Builds the outbound dispatch that delivers claim `claim_id` to
    /// `recipient`, on the settlement path or (with `reclaim`) the reclaim
    /// path.
    fn make_claim_dispatch(
        social_handle: &SocialHandle,
        claim_id: u64,
        c: &Claim,
        recipient: &String,
        reclaim: bool,
    ) -> (d: Dispatch)
        ensures
            claim_dispatch_ok(
                d,
                claim_id,
                *c,
                social_handle.platform@,
                social_handle.handle@,
                recipient@,
                reclaim,
            ),
    {
        let memo: String = if reclaim {
            String::from_str("Reclaimed expired tip")
        } else {
            let mut m = String::from_str("Claimed tip from ");
            m.append(c.tipper.as_str());
            m
        };
        let request: TransferRequest = match &c.claim_type {
            ClaimType::Near => TransferRequest::Native {
                receiver: recipient.clone(),
                amount: c.amount,
            },
            ClaimType::FungibleToken { contract_id } => TransferRequest::FungibleTokenTransfer {
                token: contract_id.clone(),
                receiver: recipient.clone(),
                amount: u128_to_dec(c.amount),
                memo,
            },
            ClaimType::NonFungibleToken { contract_id, token_id } => TransferRequest::NonFungibleTokenTransfer {
                token: contract_id.clone(),
                receiver: recipient.clone(),
                token_id: token_id.clone(),
                memo,
            },
        };
        let continuation = Continuation {
            social_handle: social_handle.clone(),
            token_type: String::from_str(c.token_type()),
            claim_id,
            recipient: recipient.clone(),
            reclaim_trf: if reclaim {
                Some(true)
            } else {
                None
            },
        };
        Dispatch { request, continuation: Some(continuation) }
    }

    /// Escrows `claim` under the handle's key: assigns the next identifier,
    /// stores the record, appends the identifier to the handle's pending
    /// bucket (creating it if absent), and reports the claim-created
    /// notification.
    pub fn store_claim(&mut self, social_handle: SocialHandle, claim: Claim) -> (r: (u64, Event))
        requires
            old(self).inv(),
            old(self).claims_by_id@.len() + 2 <= u64::MAX,
            !claim.claimed,
            !claim.reclaimed,
        ensures
            final(self).inv(),
            ({
                let key = handle_key(social_handle.platform@, social_handle.handle@);
                &&& r.0 == old(self).next_claim_id
                &&& is_claim_created(
                    r.1,
                    social_handle.platform@,
                    social_handle.handle@,
                    claim.amount,
                    token_type_seq(claim.claim_type),
                    claim.tipper@,
                )
                &&& claim_stored(*old(self), *final(self), key, claim)
            }),
    {
        let claim_id = self.next_claim_id;
        self.next_claim_id = self.next_claim_id + 1;
        let event = Event::ClaimCreated {
            platform: social_handle.platform.clone(),
            handle: social_handle.handle.clone(),
            amount: claim.amount(),
            token_type: String::from_str(claim.token_type()),
            tipper: claim.tipper().clone(),
        };
        self.claims_by_id.push(claim);
        let key = social_handle.to_string();
        let new_bucket: Vec<u64> = match self.handle_claims.get(&key) {
            Some(b) => {
                let mut b2 = copy_ids(b);
                b2.push(claim_id);
                b2
            },
            None => {
                let mut b2: Vec<u64> = Vec::new();
                b2.push(claim_id);
                b2
            },
        };
        self.handle_claims.insert(key, new_bucket);
        proof {
            let keyv = handle_key(social_handle.platform@, social_handle.handle@);
            let fp = self.handle_claims@;
            let op = old(self).handle_claims@;
            let oc = old(self).claims_by_id@;
            let nc = self.claims_by_id@;
            assert(nc == oc.push(claim));
            assert forall|k: Seq<char>| #[trigger] fp.contains_key(k) implies bucket_inv(
                fp[k]@,
                nc,
            ) by {
                if k == keyv {
                    if op.contains_key(keyv) {
                        assert(fp[keyv]@ == op[keyv]@.push(claim_id));
                        lemma_bucket_inv_push(op[keyv]@, oc, claim);
                        let b = fp[keyv]@;
                        assert forall|i: int| 0 <= i < b.len() implies 1 <= #[trigger] b[i]
                            <= nc.len() by {
                            if i < b.len() - 1 {
                                assert(b[i] == op[keyv]@[i]);
                            }
                        }
                        assert forall|i: int, j: int| 0 <= i < j < b.len() implies b[i]
                            != b[j] by {
                            if j < b.len() - 1 {
                                assert(b[i] == op[keyv]@[i] && b[j] == op[keyv]@[j]);
                            } else {
                                assert(b[i] == op[keyv]@[i]);
                                assert(b[i] <= oc.len());
                            }
                        }
                        assert forall|i: int|
                            0 <= i < b.len() implies !nc[#[trigger] b[i] - 1].claimed
                            && !nc[b[i] - 1].reclaimed by {
                            if i < b.len() - 1 {
                                assert(b[i] == op[keyv]@[i]);
                                assert(nc[b[i] - 1] == oc[b[i] - 1]);
                            } else {
                                assert(b[i] == claim_id);
                                assert(nc[claim_id - 1] == claim);
                            }
                        }
                    } else {
                        assert(fp[keyv]@ =~= seq![claim_id]);
                        assert(nc[claim_id - 1] == claim);
                    }
                } else {
                    assert(op.contains_key(k));
                    assert(fp[k] == op[k]);
                    lemma_bucket_inv_push(op[k]@, oc, claim);
                }
            }
            assert forall|k1: Seq<char>, k2: Seq<char>, id: u64|
                bucket_has(fp, k1, id) && bucket_has(fp, k2, id) implies k1 == k2 by {
                lemma_store_claim_unique(op, oc, keyv, claim_id as u64, fp, k1, k2, id);
            }
        }
        (claim_id, event)
    }
}

impl Contract {
    /// Accepts a native-value tip for a handle: forwards it at once when the
    /// handle is linked, otherwise escrows it as a claim.
    pub fn tip_near(
        &mut self,
        platform: String,
        handle: String,
        caller: String,
        attached_deposit: u128,
        current_time: u64,
    ) -> (r: Result<TipOutcome, TipError>)
        requires
            old(self).inv(),
            old(self).claims_by_id@.len() + 2 <= u64::MAX,
            current_time + CLAIM_EXPIRATION_PERIOD <= u64::MAX,
        ensures
            final(self).inv(),
            final(self).linked_accounts == old(self).linked_accounts,
            ({
                let key = key_of(platform@, handle@);
                let lp = lower_of(platform@);
                let lh = lower_of(handle@);
                if old(self).paused {
                    r == Err::<TipOutcome, TipError>(TipError::Paused) && *final(self) == *old(self)
                } else if attached_deposit == 0 {
                    r == Err::<TipOutcome, TipError>(TipError::NoDeposit) && *final(self) == *old(
                        self,
                    )
                } else if old(self).linked_accounts@.contains_key(key) {
                    let recipient = old(self).linked_accounts@[key]@;
                    &&& *final(self) == *old(self)
                    &&& r matches Ok(TipOutcome::Transferred { dispatch, event })
                        && dispatch.request matches TransferRequest::Native { receiver, amount }
                        && receiver@ == recipient && amount == attached_deposit
                        && dispatch.continuation is None && is_tip_transferred(
                        event,
                        lp,
                        lh,
                        attached_deposit,
                        "NEAR"@,
                        recipient,
                    )
                } else {
                    &&& r matches Ok(TipOutcome::ClaimStored { claim_id, event }) && claim_id
                        == old(self).next_claim_id && is_claim_created(
                        event,
                        lp,
                        lh,
                        attached_deposit,
                        "NEAR"@,
                        caller@,
                    )
                    &&& claim_stored(
                        *old(self),
                        *final(self),
                        key,
                        Claim {
                            claim_type: ClaimType::Near,
                            amount: attached_deposit,
                            tipper: caller,
                            timestamp: current_time,
                            expires_at: (current_time + CLAIM_EXPIRATION_PERIOD) as u64,
                            claimed: false,
                            reclaimed: false,
                        },
                    )
                }
            }),
    {
        if self.paused {
            return Err(TipError::Paused);
        }
        if attached_deposit == 0 {
            return Err(TipError::NoDeposit);
        }
        let social_handle = SocialHandle::new(platform, handle);
        let key = social_handle.to_string();
        let linked: Option<String> = match self.linked_accounts.get(&key) {
            Some(recipient) => Some(recipient.clone()),
            None => None,
        };
        match linked {
            Some(recipient) => {
                let event = Event::TipTransferred {
                    platform: social_handle.platform.clone(),
                    handle: social_handle.handle.clone(),
                    amount: attached_deposit,
                    token_type: String::from_str("NEAR"),
                    recipient: recipient.clone(),
                };
                let dispatch = Dispatch {
                    request: TransferRequest::Native { receiver: recipient, amount: attached_deposit },
                    continuation: None,
                };
                Ok(TipOutcome::Transferred { dispatch, event })
            },
            None => {
                let claim = Claim::new_near(caller, attached_deposit, current_time);
                let (claim_id, event) = self.store_claim(social_handle, claim);
                Ok(TipOutcome::ClaimStored { claim_id, event })
            },
        }
    }

    /// Begins linking a handle to the caller's account: pre-checks the
    /// request and the proof's context, then hands back the round trip the
    /// external verifier must perform. State changes only when the
    /// verification result arrives at `on_link_account_verified`.
    pub fn link_account(
        &self,
        platform: String,
        handle: String,
        identity_proof: ReclaimProof,
        caller: String,
        attached_deposit: u128,
    ) -> (r: Result<VerifyRequest, TipError>)
        requires
            self.inv(),
        ensures
            ({
                let key = key_of(platform@, handle@);
                let ctx = json_nested_str_field(
                    identity_proof.claimInfo.context@,
                    "extractedParameters"@,
                    "screen_name"@,
                );
                if self.paused {
                    r == Err::<VerifyRequest, TipError>(TipError::Paused)
                } else if attached_deposit == 0 {
                    r == Err::<VerifyRequest, TipError>(TipError::NoDeposit)
                } else if self.linked_accounts@.contains_key(key) {
                    r == Err::<VerifyRequest, TipError>(TipError::AlreadyLinked)
                } else if ctx is None {
                    r == Err::<VerifyRequest, TipError>(TipError::MalformedProofContext)
                } else if ctx matches Some(Some(s)) && s != handle@ {
                    r == Err::<VerifyRequest, TipError>(TipError::ProofHandleMismatch)
                } else {
                    r matches Ok(v) && v.verifier == self.reclaim_contract_id && v.identity_proof
                        == identity_proof && v.social_handle.platform@ == lower_of(platform@)
                        && v.social_handle.handle@ == lower_of(handle@) && v.requester == caller
                }
            }),
    {
        if self.paused {
            return Err(TipError::Paused);
        }
        if attached_deposit == 0 {
            return Err(TipError::NoDeposit);
        }
        let social_handle = SocialHandle::new(platform, handle.clone());
        let key = social_handle.to_string();
        if self.linked_accounts.contains_key(&key) {
            return Err(TipError::AlreadyLinked);
        }
        match lookup_json_nested_str_field(
            identity_proof.claimInfo.context.as_str(),
            "extractedParameters",
            "screen_name",
        ) {
            None => Err(TipError::MalformedProofContext),
            Some(Some(screen_name)) => {
                if !screen_name.eq(&handle) {
                    return Err(TipError::ProofHandleMismatch);
                }
                Ok(VerifyRequest {
                    verifier: self.reclaim_contract_id.clone(),
                    identity_proof,
                    social_handle,
                    requester: caller,
                })
            },
            Some(None) => Ok(VerifyRequest {
                verifier: self.reclaim_contract_id.clone(),
                identity_proof,
                social_handle,
                requester: caller,
            }),
        }
    }

    /// Resumes the linking flow with the external verifier's result: on
    /// success commits the mapping (a concurrent earlier commit for the same
    /// key is overwritten; callers re-check at request time only) and reports
    /// the account-linked notification; on failure changes nothing.
    pub fn on_link_account_verified(
        &mut self,
        social_handle: SocialHandle,
        account_id: String,
        verification_result: Result<(), ()>,
    ) -> (r: Result<Event, TipError>)
        requires
            old(self).inv(),
        ensures
            final(self).inv(),
            ({
                let key = handle_key(social_handle.platform@, social_handle.handle@);
                if verification_result is Err {
                    r == Err::<Event, TipError>(TipError::VerificationFailed) && *final(self)
                        == *old(self)
                } else {
                    &&& r matches Ok(e) && is_account_linked(
                        e,
                        social_handle.platform@,
                        social_handle.handle@,
                        account_id@,
                    )
                    &&& final(self).linked_accounts@ == old(self).linked_accounts@.insert(
                        key,
                        account_id,
                    )
                    &&& final(self).claims_by_id == old(self).claims_by_id
                    &&& final(self).handle_claims == old(self).handle_claims
                    &&& final(self).supported_tokens == old(self).supported_tokens
                    &&& final(self).owner_id == old(self).owner_id
                    &&& final(self).reclaim_contract_id == old(self).reclaim_contract_id
                    &&& final(self).next_claim_id == old(self).next_claim_id
                    &&& final(self).paused == old(self).paused
                }
            }),
    {
        if verification_result.is_err() {
            return Err(TipError::VerificationFailed);
        }
        let event = Event::AccountLinked {
            platform: social_handle.platform.clone(),
            handle: social_handle.handle.clone(),
            account_id: account_id.clone(),
        };
        let key = social_handle.to_string();
        self.linked_accounts.insert(key, account_id);
        Ok(event)
    }
}

impl Contract {
    /// Handles a fungible-token deposit notification from custodian
    /// `token_contract` (the calling contract): parses the routing message,
    /// rejects custodians off the allow-list, forwards to the linked owner or
    /// escrows a claim. Custody of the deposit always stays here; nothing is
    /// refunded at the notification boundary.
    pub fn ft_on_transfer(
        &mut self,
        sender_id: String,
        amount: u128,
        msg: String,
        token_contract: String,
        current_time: u64,
    ) -> (r: Result<TipOutcome, TipError>)
        requires
            old(self).inv(),
            old(self).claims_by_id@.len() + 2 <= u64::MAX,
            current_time + CLAIM_EXPIRATION_PERIOD <= u64::MAX,
        ensures
            final(self).inv(),
            final(self).linked_accounts == old(self).linked_accounts,
            ({
                let pv = json_str_field(msg@, "platform"@);
                let hv = json_str_field(msg@, "handle"@);
                if old(self).paused {
                    r == Err::<TipOutcome, TipError>(TipError::Paused) && *final(self) == *old(self)
                } else if pv is None || hv is None {
                    r == Err::<TipOutcome, TipError>(TipError::MalformedMessage) && *final(self)
                        == *old(self)
                } else {
                    let lp = lower_of(pv.unwrap());
                    let lh = lower_of(hv.unwrap());
                    let key = handle_key(lp, lh);
                    if !old(self).supported_tokens@.contains_key(token_contract@) {
                        r == Err::<TipOutcome, TipError>(TipError::UnsupportedToken) && *final(self)
                            == *old(self)
                    } else if old(self).linked_accounts@.contains_key(key) {
                        let recipient = old(self).linked_accounts@[key]@;
                        &&& *final(self) == *old(self)
                        &&& r matches Ok(TipOutcome::Transferred { dispatch, event })
                            && dispatch.request matches TransferRequest::FungibleTokenTransfer {
                            token,
                            receiver,
                            amount: amount_text,
                            memo,
                        } && token@ == token_contract@ && receiver@ == recipient && amount_text@
                            == dec_seq(amount as nat) && memo@ == forward_memo(sender_id@)
                            && dispatch.continuation is None && is_tip_transferred(
                            event,
                            lp,
                            lh,
                            amount,
                            "FT"@,
                            recipient,
                        )
                    } else {
                        &&& r matches Ok(TipOutcome::ClaimStored { claim_id, event }) && claim_id
                            == old(self).next_claim_id && is_claim_created(
                            event,
                            lp,
                            lh,
                            amount,
                            "FT"@,
                            sender_id@,
                        )
                        &&& claim_stored(
                            *old(self),
                            *final(self),
                            key,
                            Claim {
                                claim_type: ClaimType::FungibleToken { contract_id: token_contract },
                                amount,
                                tipper: sender_id,
                                timestamp: current_time,
                                expires_at: (current_time + CLAIM_EXPIRATION_PERIOD) as u64,
                                claimed: false,
                                reclaimed: false,
                            },
                        )
                    }
                }
            }),
    {
        if self.paused {
            return Err(TipError::Paused);
        }
        let platform = match lookup_json_str_field(msg.as_str(), "platform") {
            Some(p) => p,
            None => {
                return Err(TipError::MalformedMessage);
            },
        };
        let handle = match lookup_json_str_field(msg.as_str(), "handle") {
            Some(h) => h,
            None => {
                return Err(TipError::MalformedMessage);
            },
        };
        let social_handle = SocialHandle::new(platform, handle);
        if !self.supported_tokens.contains_key(&token_contract) {
            return Err(TipError::UnsupportedToken);
        }
        let key = social_handle.to_string();
        let linked: Option<String> = match self.linked_accounts.get(&key) {
            Some(recipient) => Some(recipient.clone()),
            None => None,
        };
        match linked {
            Some(recipient) => {
                let event = Event::TipTransferred {
                    platform: social_handle.platform.clone(),
                    handle: social_handle.handle.clone(),
                    amount,
                    token_type: String::from_str("FT"),
                    recipient: recipient.clone(),
                };
                let mut memo = String::from_str("Tip from ");
                memo.append(sender_id.as_str());
                let dispatch = Dispatch {
                    request: TransferRequest::FungibleTokenTransfer {
                        token: token_contract,
                        receiver: recipient,
                        amount: u128_to_dec(amount),
                        memo,
                    },
                    continuation: None,
                };
                Ok(TipOutcome::Transferred { dispatch, event })
            },
            None => {
                let claim = Claim::new_ft(sender_id, token_contract, amount, current_time);
                let (claim_id, event) = self.store_claim(social_handle, claim);
                Ok(TipOutcome::ClaimStored { claim_id, event })
            },
        }
    }

    /// Handles a non-fungible-token deposit notification from custodian
    /// `token_contract`; as `ft_on_transfer`, with the token identifier in
    /// place of an amount (a non-fungible claim's amount is fixed to zero).
    pub fn nft_on_transfer(
        &mut self,
        sender_id: String,
        previous_owner_id: String,
        token_id: String,
        msg: String,
        token_contract: String,
        current_time: u64,
    ) -> (r: Result<TipOutcome, TipError>)
        requires
            old(self).inv(),
            old(self).claims_by_id@.len() + 2 <= u64::MAX,
            current_time + CLAIM_EXPIRATION_PERIOD <= u64::MAX,
        ensures
            final(self).inv(),
            final(self).linked_accounts == old(self).linked_accounts,
            ({
                let pv = json_str_field(msg@, "platform"@);
                let hv = json_str_field(msg@, "handle"@);
                if old(self).paused {
                    r == Err::<TipOutcome, TipError>(TipError::Paused) && *final(self) == *old(self)
                } else if pv is None || hv is None {
                    r == Err::<TipOutcome, TipError>(TipError::MalformedMessage) && *final(self)
                        == *old(self)
                } else {
                    let lp = lower_of(pv.unwrap());
                    let lh = lower_of(hv.unwrap());
                    let key = handle_key(lp, lh);
                    if !old(self).supported_tokens@.contains_key(token_contract@) {
                        r == Err::<TipOutcome, TipError>(TipError::UnsupportedToken) && *final(self)
                            == *old(self)
                    } else if old(self).linked_accounts@.contains_key(key) {
                        let recipient = old(self).linked_accounts@[key]@;
                        &&& *final(self) == *old(self)
                        &&& r matches Ok(TipOutcome::Transferred { dispatch, event })
                            && dispatch.request matches TransferRequest::NonFungibleTokenTransfer {
                            token,
                            receiver,
                            token_id: tid,
                            memo,
                        } && token@ == token_contract@ && receiver@ == recipient && tid@
                            == token_id@ && memo@ == forward_memo(sender_id@)
                            && dispatch.continuation is None && is_tip_transferred(
                            event,
                            lp,
                            lh,
                            0,
                            "NFT"@,
                            recipient,
                        )
                    } else {
                        &&& r matches Ok(TipOutcome::ClaimStored { claim_id, event }) && claim_id
                            == old(self).next_claim_id && is_claim_created(
                            event,
                            lp,
                            lh,
                            0,
                            "NFT"@,
                            sender_id@,
                        )
                        &&& claim_stored(
                            *old(self),
                            *final(self),
                            key,
                            Claim {
                                claim_type: ClaimType::NonFungibleToken {
                                    contract_id: token_contract,
                                    token_id,
                                },
                                amount: 0,
                                tipper: sender_id,
                                timestamp: current_time,
                                expires_at: (current_time + CLAIM_EXPIRATION_PERIOD) as u64,
                                claimed: false,
                                reclaimed: false,
                            },
                        )
                    }
                }
            }),
    {
        let _ = previous_owner_id;
        if self.paused {
            return Err(TipError::Paused);
        }
        let platform = match lookup_json_str_field(msg.as_str(), "platform") {
            Some(p) => p,
            None => {
                return Err(TipError::MalformedMessage);
            },
        };
        let handle = match lookup_json_str_field(msg.as_str(), "handle") {
            Some(h) => h,
            None => {
                return Err(TipError::MalformedMessage);
            },
        };
        let social_handle = SocialHandle::new(platform, handle);
        if !self.supported_tokens.contains_key(&token_contract) {
            return Err(TipError::UnsupportedToken);
        }
        let key = social_handle.to_string();
        let linked: Option<String> = match self.linked_accounts.get(&key) {
            Some(recipient) => Some(recipient.clone()),
            None => None,
        };
        match linked {
            Some(recipient) => {
                let event = Event::TipTransferred {
                    platform: social_handle.platform.clone(),
                    handle: social_handle.handle.clone(),
                    amount: 0,
                    token_type: String::from_str("NFT"),
                    recipient: recipient.clone(),
                };
                let mut memo = String::from_str("Tip from ");
                memo.append(sender_id.as_str());
                let dispatch = Dispatch {
                    request: TransferRequest::NonFungibleTokenTransfer {
                        token: token_contract,
                        receiver: recipient,
                        token_id,
                        memo,
                    },
                    continuation: None,
                };
                Ok(TipOutcome::Transferred { dispatch, event })
            },
            None => {
                let claim = Claim::new_nft(sender_id, token_contract, token_id, current_time);
                let (claim_id, event) = self.store_claim(social_handle, claim);
                Ok(TipOutcome::ClaimStored { claim_id, event })
            },
        }
    }
}

/// The position of `id` in a bucket, if it stands there.
fn find_id(b: &Vec<u64>, id: u64) -> (r: Option<usize>)
    ensures
        (match r {
            Some(i) => i < b@.len() && b@[i as int] == id,
            None => !b@.contains(id),
        }),
{
    let n = b.len();
    let mut i: usize = 0;
    while i < n
        invariant
            i <= n,
            n == b@.len(),
            forall|j: int| 0 <= j < i ==> b@[j] != id,
        decreases n - i,
    {
        if b[i] == id {
            return Some(i);
        }
        i = i + 1;
    }
    None
}

/// How pruning `id` from the bucket of `key` changes the pending index:
/// other buckets stand untouched; `key`'s bucket loses the one occurrence of
/// `id`, or is deleted when `id` was its last entry; pruning an absent
/// identifier is a no-op.
pub open spec fn pruned_from(
    pre: Map<Seq<char>, Vec<u64>>,
    post: Map<Seq<char>, Vec<u64>>,
    key: Seq<char>,
    id: u64,
) -> bool {
    &&& forall|k: Seq<char>| k != key ==> ((#[trigger] post.contains_key(k)) <==> pre.contains_key(k))
    &&& forall|k: Seq<char>| #[trigger]
        post.contains_key(k) && k != key && pre.contains_key(k) ==> post[k] == pre[k]
    &&& (if bucket_has(pre, key, id) {
        if pre[key]@.len() == 1 {
            !post.contains_key(key)
        } else {
            post.contains_key(key) && exists|i: int|
                0 <= i < pre[key]@.len() && pre[key]@[i] == id && post[key]@ == pre[key]@.remove(i)
        }
    } else {
        post == pre
    })
}

impl Contract {
    /// Removes `claim_id` from the pending bucket of `key`, deleting the
    /// bucket once empty; the claim store record is never deleted. Removing
    /// an identifier that is not pending there is a no-op.
    pub fn prune(&mut self, key: &String, claim_id: u64)
        requires
            old(self).inv(),
        ensures
            final(self).inv(),
            pruned_from(old(self).handle_claims@, final(self).handle_claims@, key@, claim_id),
            final(self).claims_by_id == old(self).claims_by_id,
            final(self).linked_accounts == old(self).linked_accounts,
            final(self).supported_tokens == old(self).supported_tokens,
            final(self).owner_id == old(self).owner_id,
            final(self).reclaim_contract_id == old(self).reclaim_contract_id,
            final(self).next_claim_id == old(self).next_claim_id,
            final(self).paused == old(self).paused,
    {
        let owned: Option<Vec<u64>> = match self.handle_claims.get(key) {
            Some(b) => Some(copy_ids(b)),
            None => None,
        };
        match owned {
            None => {
                proof {
                    assert(!bucket_has(old(self).handle_claims@, key@, claim_id));
                }
            },
            Some(mut b) => {
                match find_id(&b, claim_id) {
                    None => {
                        proof {
                            assert(!bucket_has(old(self).handle_claims@, key@, claim_id));
                        }
                    },
                    Some(i) => {
                        let ghost pre = old(self).handle_claims@;
                        let _ = b.remove(i);
                        if b.is_empty() {
                            self.handle_claims.remove(key);
                        } else {
                            self.handle_claims.insert(key.clone(), b);
                        }
                        proof {
                            let post = self.handle_claims@;
                            assert(bucket_has(pre, key@, claim_id));
                            assert forall|k: Seq<char>| #[trigger]
                                post.contains_key(k) implies bucket_inv(
                                post[k]@,
                                self.claims_by_id@,
                            ) by {
                                if k == key@ {
                                    let ob = pre[key@]@;
                                    let nb = post[key@]@;
                                    assert(nb == ob.remove(i as int));
                                    assert forall|a: int| 0 <= a < nb.len() implies 1
                                        <= #[trigger] nb[a] <= self.claims_by_id@.len()
                                        && !self.claims_by_id@[nb[a] - 1].claimed
                                        && !self.claims_by_id@[nb[a] - 1].reclaimed by {
                                        if a < i as int {
                                            assert(nb[a] == ob[a]);
                                        } else {
                                            assert(nb[a] == ob[a + 1]);
                                        }
                                    }
                                    assert forall|a: int, b2: int|
                                        0 <= a < b2 < nb.len() implies nb[a] != nb[b2] by {
                                        if a < i as int {
                                            assert(nb[a] == ob[a]);
                                        } else {
                                            assert(nb[a] == ob[a + 1]);
                                        }
                                        if b2 < i as int {
                                            assert(nb[b2] == ob[b2]);
                                        } else {
                                            assert(nb[b2] == ob[b2 + 1]);
                                        }
                                    }
                                }
                            }
                            assert forall|k1: Seq<char>, k2: Seq<char>, id2: u64|
                                bucket_has(post, k1, id2) && bucket_has(post, k2, id2) implies k1
                                == k2 by {
                                assert forall|k: Seq<char>| #[trigger]
                                    bucket_has(post, k, id2) implies bucket_has(pre, k, id2) by {
                                    if k == key@ {
                                        let ob = pre[key@]@;
                                        let nb = post[key@]@;
                                        let a = choose|a: int| 0 <= a < nb.len() && nb[a] == id2;
                                        if a < i as int {
                                            assert(ob[a] == id2);
                                        } else {
                                            assert(ob[a + 1] == id2);
                                        }
                                    }
                                }
                            }
                        }
                    },
                }
            },
        }
    }

    /// Settles the handle's pending claims in one bounded batch: the caller
    /// must be the linked owner; up to `MAX_CLAIMS_PER_BATCH` pending
    /// identifiers are visited in bucket order; each unexpired one gets
    /// exactly one outbound transfer dispatch (its identifier stays pending
    /// until the completion arrives at `on_transfer_complete`); expired ones
    /// are dispatched nothing and are pruned after the batch, leaving them to
    /// the sender's reclaim path. Draining a larger backlog takes repeated
    /// calls.
    pub fn claim(
        &mut self,
        platform: String,
        handle: String,
        caller: String,
        current_time: u64,
    ) -> (r: Result<Vec<Dispatch>, TipError>)
        requires
            old(self).inv(),
        ensures
            final(self).inv(),
            final(self).linked_accounts == old(self).linked_accounts,
            final(self).claims_by_id == old(self).claims_by_id,
            final(self).supported_tokens == old(self).supported_tokens,
            final(self).owner_id == old(self).owner_id,
            final(self).reclaim_contract_id == old(self).reclaim_contract_id,
            final(self).next_claim_id == old(self).next_claim_id,
            final(self).paused == old(self).paused,
            ({
                let lp = lower_of(platform@);
                let lh = lower_of(handle@);
                let key = handle_key(lp, lh);
                if old(self).paused {
                    r == Err::<Vec<Dispatch>, TipError>(TipError::Paused) && *final(self) == *old(
                        self,
                    )
                } else if !old(self).linked_accounts@.contains_key(key) {
                    r == Err::<Vec<Dispatch>, TipError>(TipError::NotLinked) && *final(self)
                        == *old(self)
                } else if caller@ != old(self).linked_accounts@[key]@ {
                    r == Err::<Vec<Dispatch>, TipError>(TipError::WrongCaller) && *final(self)
                        == *old(self)
                } else if !old(self).handle_claims@.contains_key(key) {
                    r == Err::<Vec<Dispatch>, TipError>(TipError::NoPendingClaims) && *final(self)
                        == *old(self)
                } else {
                    let recipient = old(self).linked_accounts@[key]@;
                    let bucket = old(self).handle_claims@[key]@;
                    let batch = if bucket.len() <= MAX_CLAIMS_PER_BATCH as int {
                        bucket.len() as int
                    } else {
                        MAX_CLAIMS_PER_BATCH as int
                    };
                    let keep = unexpired_ids(bucket.take(batch), old(self).claims_by_id@, current_time);
                    let newb = keep + bucket.skip(batch);
                    &&& r matches Ok(ds) && ds@.len() == keep.len() && (forall|i: int|
                        0 <= i < keep.len() ==> claim_dispatch_ok(
                            #[trigger] ds@[i],
                            keep[i],
                            old(self).claim_of(keep[i]),
                            lp,
                            lh,
                            recipient,
                            false,
                        ))
                    &&& forall|i: int|
                        0 <= i < keep.len() ==> current_time < old(self).claim_of(
                            #[trigger] keep[i],
                        ).expires_at
                    &&& (if newb.len() == 0 {
                        final(self).handle_claims@ == old(self).handle_claims@.remove(key)
                    } else {
                        &&& forall|k: Seq<char>|
                            (#[trigger] final(self).handle_claims@.contains_key(k)) <==> old(
                                self,
                            ).handle_claims@.contains_key(k)
                        &&& forall|k: Seq<char>|
                            k != key && #[trigger] old(self).handle_claims@.contains_key(k)
                                ==> final(self).handle_claims@[k] == old(self).handle_claims@[k]
                        &&& final(self).handle_claims@[key]@ == newb
                    })
                }
            }),
    {
        if self.paused {
            return Err(TipError::Paused);
        }
        let social_handle = SocialHandle::new(platform, handle);
        let key = social_handle.to_string();
        let account_id: String = match self.linked_accounts.get(&key) {
            Some(a) => a.clone(),
            None => {
                return Err(TipError::NotLinked);
            },
        };
        if !caller.eq(&account_id) {
            return Err(TipError::WrongCaller);
        }
        let bucket: Vec<u64> = match self.handle_claims.get(&key) {
            Some(b) => copy_ids(b),
            None => {
                return Err(TipError::NoPendingClaims);
            },
        };
        let ghost keyv = handle_key(social_handle.platform@, social_handle.handle@);
        proof {
            assert(bucket_inv(bucket@, self.claims_by_id@));
        }
        let batch = if bucket.len() <= MAX_CLAIMS_PER_BATCH {
            bucket.len()
        } else {
            MAX_CLAIMS_PER_BATCH
        };
        let mut dispatches: Vec<Dispatch> = Vec::new();
        let mut keep: Vec<u64> = Vec::new();
        let mut i: usize = 0;
        proof {
            assert(bucket@.take(0) =~= Seq::<u64>::empty());
        }
        while i < batch
            invariant
                *self == *old(self),
                self.inv(),
                i <= batch,
                batch <= bucket@.len(),
                bucket_inv(bucket@, self.claims_by_id@),
                account_id@ == old(self).linked_accounts@[keyv]@,
                keep@ == unexpired_ids(bucket@.take(i as int), self.claims_by_id@, current_time),
                dispatches@.len() == keep@.len(),
                forall|j: int|
                    0 <= j < keep@.len() ==> claim_dispatch_ok(
                        #[trigger] dispatches@[j],
                        keep@[j],
                        self.claim_of(keep@[j]),
                        social_handle.platform@,
                        social_handle.handle@,
                        account_id@,
                        false,
                    ),
            decreases batch - i,
        {
            let id = bucket[i];
            let total = self.claims_by_id.len();
            proof {
                assert(1 <= bucket@[i as int] <= self.claims_by_id@.len());
                assert(id <= total as u64);
            }
            let idx = (id - 1) as usize;
            proof {
                assert(idx == id - 1);
                assert(self.claim_of(id) == self.claims_by_id@[idx as int]);
            }
            let ghost prefix = bucket@.take(i as int);
            if current_time >= self.claims_by_id[idx].expires_at {
                // Expired: no transfer; the identifier is dropped from the
                // bucket after the batch, leaving only the reclaim path.
            } else {
                let d = Self::make_claim_dispatch(
                    &social_handle,
                    id,
                    &self.claims_by_id[idx],
                    &account_id,
                    false,
                );
                dispatches.push(d);
                keep.push(id);
            }
            proof {
                lemma_unexpired_push(prefix, self.claims_by_id@, current_time, id);
                assert(bucket@.take(i + 1) =~= prefix.push(id));
                assert(keep@ =~= unexpired_ids(
                    bucket@.take(i + 1),
                    self.claims_by_id@,
                    current_time,
                ));
            }
            i = i + 1;
        }
        let ghost visited = bucket@.take(batch as int);
        let ghost keepu = unexpired_ids(visited, self.claims_by_id@, current_time);
        let mut j = batch;
        while j < bucket.len()
            invariant
                *self == *old(self),
                self.inv(),
                batch <= j <= bucket@.len(),
                keep@ == keepu + bucket@.subrange(batch as int, j as int),
            decreases bucket@.len() - j,
        {
            keep.push(bucket[j]);
            proof {
                assert(keep@ =~= keepu + bucket@.subrange(batch as int, j + 1));
            }
            j = j + 1;
        }
        proof {
            assert(bucket@.subrange(batch as int, bucket@.len() as int) =~= bucket@.skip(
                batch as int,
            ));
        }
        let ghost newb = keep@;
        proof {
            // The new bucket's identifiers all stand in the old bucket.
            lemma_unexpired_sound(visited, self.claims_by_id@, current_time);
            lemma_unexpired_unique(visited, self.claims_by_id@, current_time);
            assert forall|a: int, b: int|
                0 <= a < b < visited.len() implies visited[a] != visited[b] by {
                assert(visited[a] == bucket@[a] && visited[b] == bucket@[b]);
            }
            assert forall|a: int| 0 <= a < newb.len() implies bucket@.contains(
                #[trigger] newb[a],
            ) by {
                if a < keepu.len() {
                    assert(visited.contains(newb[a]));
                    let m = choose|m: int| 0 <= m < visited.len() && visited[m] == newb[a];
                    assert(bucket@[m] == newb[a]);
                } else {
                    assert(newb[a] == bucket@[a - keepu.len() + batch]);
                }
            }
        }
        let result: Result<Vec<Dispatch>, TipError> = Ok(dispatches);
        if keep.is_empty() {
            self.handle_claims.remove(&key);
            proof {
                let post = self.handle_claims@;
                let pre = old(self).handle_claims@;
                assert forall|k1: Seq<char>, k2: Seq<char>, id2: u64|
                    bucket_has(post, k1, id2) && bucket_has(post, k2, id2) implies k1 == k2 by {
                    assert(bucket_has(pre, k1, id2) && bucket_has(pre, k2, id2));
                }
            }
        } else {
            self.handle_claims.insert(key, keep);
            proof {
                let post = self.handle_claims@;
                let pre = old(self).handle_claims@;
                let claims = self.claims_by_id@;
                assert forall|k: Seq<char>| #[trigger] post.contains_key(k) implies bucket_inv(
                    post[k]@,
                    claims,
                ) by {
                    if k == keyv {
                        assert(post[keyv]@ == newb);
                        assert forall|a: int| 0 <= a < newb.len() implies 1 <= #[trigger] newb[a]
                            <= claims.len() && !claims[newb[a] - 1].claimed && !claims[newb[a]
                            - 1].reclaimed by {
                            let m = choose|m: int|
                                0 <= m < bucket@.len() && bucket@[m] == newb[a];
                            assert(1 <= bucket@[m] <= claims.len());
                        }
                        assert forall|a: int, b: int|
                            0 <= a < b < newb.len() implies newb[a] != newb[b] by {
                            if a < keepu.len() && b >= keepu.len() {
                                assert(visited.contains(newb[a]));
                                let m = choose|m: int|
                                    0 <= m < visited.len() && visited[m] == newb[a];
                                assert(bucket@[m] == newb[a]);
                                assert(newb[b] == bucket@[b - keepu.len() + batch]);
                                assert(m < batch <= b - keepu.len() + batch);
                            } else if a >= keepu.len() {
                                assert(newb[a] == bucket@[a - keepu.len() + batch]);
                                assert(newb[b] == bucket@[b - keepu.len() + batch]);
                            }
                        }
                    } else {
                        assert(pre.contains_key(k));
                        assert(post[k] == pre[k]);
                    }
                }
                assert forall|k1: Seq<char>, k2: Seq<char>, id2: u64|
                    bucket_has(post, k1, id2) && bucket_has(post, k2, id2) implies k1 == k2 by {
                    assert forall|k: Seq<char>| #[trigger]
                        bucket_has(post, k, id2) implies bucket_has(pre, k, id2) by {
                        if k == keyv {
                            let a = choose|a: int| 0 <= a < newb.len() && newb[a] == id2;
                            assert(bucket@.contains(id2));
                        } else {
                            assert(post[k] == pre[k]);
                        }
                    }
                }
            }
        }
        result
    }

    /// Returns an expired, unsettled, unreclaimed claim's asset to its
    /// original sender: only that sender may call, and only once the expiry
    /// window has passed. Exactly one outbound transfer is dispatched, with a
    /// reclaim continuation; durable state changes only when the completion
    /// arrives at `on_transfer_complete`.
    pub fn reclaim_tip(
        &mut self,
        platform: String,
        handle: String,
        claim_id: u64,
        caller: String,
        current_time: u64,
    ) -> (r: Result<Dispatch, TipError>)
        requires
            old(self).inv(),
        ensures
            final(self).inv(),
            *final(self) == *old(self),
            ({
                let lp = lower_of(platform@);
                let lh = lower_of(handle@);
                if old(self).paused {
                    r == Err::<Dispatch, TipError>(TipError::Paused)
                } else if !old(self).has_claim(claim_id) {
                    r == Err::<Dispatch, TipError>(TipError::ClaimNotFound)
                } else {
                    let c = old(self).claim_of(claim_id);
                    if c.claimed {
                        r == Err::<Dispatch, TipError>(TipError::AlreadyClaimed)
                    } else if c.reclaimed {
                        r == Err::<Dispatch, TipError>(TipError::AlreadyReclaimed)
                    } else if current_time < c.expires_at {
                        r == Err::<Dispatch, TipError>(TipError::NotExpired)
                    } else if caller@ != c.tipper@ {
                        r == Err::<Dispatch, TipError>(TipError::NotTipper)
                    } else {
                        r matches Ok(d) && claim_dispatch_ok(d, claim_id, c, lp, lh, caller@, true)
                    }
                }
            }),
    {
        if self.paused {
            return Err(TipError::Paused);
        }
        let social_handle = SocialHandle::new(platform, handle);
        if !(claim_id >= 1 && claim_id <= self.claims_by_id.len() as u64) {
            return Err(TipError::ClaimNotFound);
        }
        let idx = (claim_id - 1) as usize;
        if self.claims_by_id[idx].claimed {
            return Err(TipError::AlreadyClaimed);
        }
        if self.claims_by_id[idx].reclaimed {
            return Err(TipError::AlreadyReclaimed);
        }
        if !self.claims_by_id[idx].is_expired(current_time) {
            return Err(TipError::NotExpired);
        }
        if !caller.eq(&self.claims_by_id[idx].tipper) {
            return Err(TipError::NotTipper);
        }
        Ok(
            Self::make_claim_dispatch(
                &social_handle,
                claim_id,
                &self.claims_by_id[idx],
                &caller,
                true,
            ),
        )
    }

    /// The single reconciliation entry point for every outbound transfer's
    /// completion; the first five arguments are the continuation bound at
    /// dispatch time, so `claim_id` can be pending only under this handle's
    /// key. On failure nothing changes and the claim stays pending. A
    /// successful settlement marks the claim settled, prunes it, and reports
    /// claim-processed; a successful reclaim marks it reclaimed, prunes it,
    /// and reports tip-reclaimed; a duplicate completion for an already
    /// settled or reclaimed claim changes nothing and reports nothing.
    pub fn on_transfer_complete(
        &mut self,
        social_handle: SocialHandle,
        token_type: String,
        claim_id: u64,
        recipient: String,
        reclaim_trf: Option<bool>,
        transfer_result: Result<(), ()>,
    ) -> (r: Option<Event>)
        requires
            old(self).inv(),
            forall|k: Seq<char>|
                old(self).pending_has(k, claim_id) ==> k == handle_key(
                    social_handle.platform@,
                    social_handle.handle@,
                ),
        ensures
            final(self).inv(),
            final(self).linked_accounts == old(self).linked_accounts,
            final(self).supported_tokens == old(self).supported_tokens,
            final(self).owner_id == old(self).owner_id,
            final(self).reclaim_contract_id == old(self).reclaim_contract_id,
            final(self).next_claim_id == old(self).next_claim_id,
            final(self).paused == old(self).paused,
            ({
                let key = handle_key(social_handle.platform@, social_handle.handle@);
                if transfer_result is Err || !old(self).has_claim(claim_id) {
                    *final(self) == *old(self) && r is None
                } else {
                    let c = old(self).claim_of(claim_id);
                    if reclaim_trf is Some {
                        if c.claimed || c.reclaimed {
                            *final(self) == *old(self) && r is None
                        } else {
                            &&& final(self).claims_by_id@ == old(self).claims_by_id@.update(
                                claim_id - 1,
                                (Claim { reclaimed: true, ..c }),
                            )
                            &&& pruned_from(
                                old(self).handle_claims@,
                                final(self).handle_claims@,
                                key,
                                claim_id,
                            )
                            &&& r matches Some(e) && is_tip_reclaimed(
                                e,
                                social_handle.platform@,
                                social_handle.handle@,
                                c.amount,
                                token_type_seq(c.claim_type),
                                c.tipper@,
                            )
                        }
                    } else {
                        if c.claimed {
                            *final(self) == *old(self) && r is None
                        } else {
                            &&& final(self).claims_by_id@ == old(self).claims_by_id@.update(
                                claim_id - 1,
                                (Claim { claimed: true, ..c }),
                            )
                            &&& pruned_from(
                                old(self).handle_claims@,
                                final(self).handle_claims@,
                                key,
                                claim_id,
                            )
                            &&& r matches Some(e) && is_claim_processed(
                                e,
                                social_handle.platform@,
                                social_handle.handle@,
                                c.amount,
                                token_type@,
                                recipient@,
                            )
                        }
                    }
                }
            }),
    {
        if transfer_result.is_err() {
            return None;
        }
        if !(claim_id >= 1 && claim_id <= self.claims_by_id.len() as u64) {
            return None;
        }
        let idx = (claim_id - 1) as usize;
        let reclaiming = reclaim_trf.is_some();
        if reclaiming && (self.claims_by_id[idx].claimed || self.claims_by_id[idx].reclaimed) {
            return None;
        }
        if !reclaiming && self.claims_by_id[idx].claimed {
            return None;
        }
        let key = social_handle.to_string();
        self.prune(&key, claim_id);
        let ghost pruned = *self;
        let mut c = self.claims_by_id[idx].clone();
        let event = if reclaiming {
            c.reclaimed = true;
            Event::TipReclaimed {
                platform: social_handle.platform.clone(),
                handle: social_handle.handle.clone(),
                amount: c.amount,
                token_type: String::from_str(c.token_type()),
                tipper: c.tipper.clone(),
            }
        } else {
            c.claimed = true;
            Event::ClaimProcessed {
                platform: social_handle.platform.clone(),
                handle: social_handle.handle.clone(),
                amount: c.amount,
                token_type,
                claimer: recipient,
            }
        };
        self.claims_by_id[idx] = c;
        proof {
            let keyv = handle_key(social_handle.platform@, social_handle.handle@);
            let pre = old(self).handle_claims@;
            let post = self.handle_claims@;
            let oc = old(self).claims_by_id@;
            let nc = self.claims_by_id@;
            assert(post == pruned.handle_claims@);
            // No bucket of the pruned index holds `claim_id` any more, so
            // flipping that record's flag disturbs no bucket.
            assert forall|k: Seq<char>| #[trigger]
                post.contains_key(k) implies bucket_inv(post[k]@, nc) by {
                assert(bucket_inv(post[k]@, oc));
                let b = post[k]@;
                assert forall|a: int| 0 <= a < b.len() implies 1 <= #[trigger] b[a] <= nc.len()
                    && !nc[b[a] - 1].claimed && !nc[b[a] - 1].reclaimed by {
                    if b[a] == claim_id {
                        if k == keyv {
                            if bucket_has(pre, keyv, claim_id) {
                                if pre[keyv]@.len() == 1 {
                                    assert(false);
                                } else {
                                    let ob = pre[keyv]@;
                                    let i = choose|i: int|
                                        0 <= i < ob.len() && ob[i] == claim_id && b == ob.remove(i);
                                    if a < i {
                                        assert(b[a] == ob[a]);
                                        assert(ob[a] != ob[i]);
                                    } else {
                                        assert(b[a] == ob[a + 1]);
                                        assert(ob[a + 1] != ob[i]);
                                    }
                                    assert(false);
                                }
                            } else {
                                assert(post == pre);
                                assert(bucket_has(pre, keyv, claim_id));
                                assert(false);
                            }
                        } else {
                            assert(pre.contains_key(k));
                            assert(post[k] == pre[k]);
                            assert(bucket_has(pre, k, claim_id));
                            assert(old(self).pending_has(k, claim_id));
                            assert(false);
                        }
                    } else {
                        assert(nc[b[a] - 1] == oc[b[a] - 1]);
                    }
                }
            }
            assert forall|k1: Seq<char>, k2: Seq<char>, id2: u64|
                bucket_has(post, k1, id2) && bucket_has(post, k2, id2) implies k1 == k2 by {
                assert(bucket_has(pruned.handle_claims@, k1, id2));
                assert(bucket_has(pruned.handle_claims@, k2, id2));
            }
        }
        Some(event)
    }
}

/// The identifiers of `b`, in order, whose claims are not yet expired at
/// `now`: the ones a settlement batch dispatches and keeps pending.
pub open spec fn unexpired_ids(b: Seq<u64>, claims: Seq<Claim>, now: u64) -> Seq<u64>
    decreases b.len(),
{
    if b.len() == 0 {
        Seq::empty()
    } else {
        let head: Seq<u64> = if now < claims[b[0] - 1].expires_at {
            seq![b[0]]
        } else {
            Seq::empty()
        };
        head + unexpired_ids(b.skip(1), claims, now)
    }
}

proof fn lemma_unexpired_push(b: Seq<u64>, claims: Seq<Claim>, now: u64, x: u64)
    ensures
        unexpired_ids(b.push(x), claims, now) == unexpired_ids(b, claims, now) + (if now < claims[x
            - 1].expires_at {
            seq![x]
        } else {
            Seq::<u64>::empty()
        }),
    decreases b.len(),
{
    let tail: Seq<u64> = if now < claims[x - 1].expires_at {
        seq![x]
    } else {
        Seq::empty()
    };
    if b.len() == 0 {
        assert(b.push(x)[0] == x);
        assert(b.push(x).skip(1) =~= Seq::<u64>::empty());
        assert(unexpired_ids(Seq::<u64>::empty(), claims, now) == Seq::<u64>::empty());
        assert(unexpired_ids(b.push(x), claims, now) =~= unexpired_ids(b, claims, now) + tail);
    } else {
        assert(b.push(x)[0] == b[0]);
        assert(b.push(x).skip(1) =~= b.skip(1).push(x));
        lemma_unexpired_push(b.skip(1), claims, now, x);
        let head: Seq<u64> = if now < claims[b[0] - 1].expires_at {
            seq![b[0]]
        } else {
            Seq::empty()
        };
        assert(head + (unexpired_ids(b.skip(1), claims, now) + tail) =~= (head + unexpired_ids(
            b.skip(1),
            claims,
            now,
        )) + tail);
        assert(unexpired_ids(b.push(x), claims, now) =~= unexpired_ids(b, claims, now) + tail);
    }
}

/// Every identifier a settlement batch keeps stands in the visited bucket
/// and names a claim that has not expired.
proof fn lemma_unexpired_sound(b: Seq<u64>, claims: Seq<Claim>, now: u64)
    ensures
        forall|i: int|
            0 <= i < unexpired_ids(b, claims, now).len() ==> b.contains(
                #[trigger] unexpired_ids(b, claims, now)[i],
            ) && now < claims[unexpired_ids(b, claims, now)[i] - 1].expires_at,
    decreases b.len(),
{
    if b.len() > 0 {
        lemma_unexpired_sound(b.skip(1), claims, now);
        let u = unexpired_ids(b, claims, now);
        let ut = unexpired_ids(b.skip(1), claims, now);
        let head: Seq<u64> = if now < claims[b[0] - 1].expires_at {
            seq![b[0]]
        } else {
            Seq::empty()
        };
        assert forall|i: int| 0 <= i < u.len() implies b.contains(#[trigger] u[i]) && now
            < claims[u[i] - 1].expires_at by {
            if i < head.len() {
                assert(u[i] == b[0]);
            } else {
                assert(u[i] == ut[i - head.len()]);
                assert(b.skip(1).contains(u[i]));
                let j = choose|j: int| 0 <= j < b.skip(1).len() && b.skip(1)[j] == u[i];
                assert(b[j + 1] == u[i]);
            }
        }
    }
}

/// A batch over a bucket without duplicates keeps no identifier twice.
proof fn lemma_unexpired_unique(b: Seq<u64>, claims: Seq<Claim>, now: u64)
    requires
        forall|i: int, j: int| 0 <= i < j < b.len() ==> b[i] != b[j],
    ensures
        forall|i: int, j: int|
            0 <= i < j < unexpired_ids(b, claims, now).len() ==> unexpired_ids(b, claims, now)[i]
                != unexpired_ids(b, claims, now)[j],
    decreases b.len(),
{
    if b.len() > 0 {
        assert forall|i: int, j: int| 0 <= i < j < b.skip(1).len() implies b.skip(1)[i] != b.skip(
            1,
        )[j] by {
            assert(b.skip(1)[i] == b[i + 1] && b.skip(1)[j] == b[j + 1]);
        }
        lemma_unexpired_unique(b.skip(1), claims, now);
        lemma_unexpired_sound(b.skip(1), claims, now);
        let u = unexpired_ids(b, claims, now);
        let ut = unexpired_ids(b.skip(1), claims, now);
        let head: Seq<u64> = if now < claims[b[0] - 1].expires_at {
            seq![b[0]]
        } else {
            Seq::empty()
        };
        assert forall|i: int, j: int| 0 <= i < j < u.len() implies u[i] != u[j] by {
            if i < head.len() {
                assert(u[i] == b[0]);
                assert(u[j] == ut[j - head.len()]);
                assert(b.skip(1).contains(u[j]));
                let m = choose|m: int| 0 <= m < b.skip(1).len() && b.skip(1)[m] == u[j];
                assert(b[m + 1] == u[j]);
            } else {
                assert(u[i] == ut[i - head.len()] && u[j] == ut[j - head.len()]);
            }
        }
    }
}

/// A rendered claim matches its stored record.
pub open spec fn claim_external_ok(e: ClaimExternal, id: u64, c: Claim) -> bool {
    &&& e.id == id
    &&& e.claim_type@ == claim_type_text(c.claim_type)
    &&& e.amount == c.amount
    &&& e.tipper == c.tipper
    &&& e.timestamp == c.timestamp
    &&& e.expires_at == c.expires_at
    &&& e.claimed == c.claimed
}

/// The handle keys of `kv`, in order, whose linked account is `account`.
pub open spec fn handles_of(kv: Seq<(Seq<char>, String)>, account: Seq<char>) -> Seq<Seq<char>>
    decreases kv.len(),
{
    if kv.len() == 0 {
        Seq::empty()
    } else {
        handles_of(kv.drop_last(), account) + (if kv.last().1@ == account {
            seq![kv.last().0]
        } else {
            Seq::empty()
        })
    }
}

/// The identifiers of the claims of `tipper`, in increasing order (claim
/// `i + 1` is stored at index `i`).
pub open spec fn tipper_claim_ids(claims: Seq<Claim>, tipper: Seq<char>) -> Seq<u64>
    decreases claims.len(),
{
    if claims.len() == 0 {
        Seq::empty()
    } else {
        tipper_claim_ids(claims.drop_last(), tipper) + (if claims.last().tipper@ == tipper {
            seq![claims.len() as u64]
        } else {
            Seq::empty()
        })
    }
}

impl Contract {
    /// One page of the custodian allow-list, in its native iteration order.
    pub fn get_supported_tokens(&self, from_index: u64, limit: u64) -> (r: Vec<(String, TokenInfo)>)
        requires
            self.inv(),
        ensures
            ({
                let kv = self.supported_tokens.kv();
                let start = if from_index as int <= kv.len() as int {
                    from_index as int
                } else {
                    kv.len() as int
                };
                let n = if limit as int <= kv.len() - start {
                    limit as int
                } else {
                    kv.len() - start
                };
                &&& r@.len() == n
                &&& forall|i: int|
                    0 <= i < n ==> (#[trigger] r@[i]).0@ == kv[start + i].0 && r@[i].1 == kv[start
                        + i].1
            }),
    {
        let len = self.supported_tokens.len();
        let start: usize = if from_index >= len as u64 {
            len
        } else {
            from_index as usize
        };
        let n: usize = if limit >= (len - start) as u64 {
            len - start
        } else {
            limit as usize
        };
        let mut r: Vec<(String, TokenInfo)> = Vec::new();
        let mut i: usize = 0;
        while i < n
            invariant
                i <= n,
                start + n <= len,
                len == self.supported_tokens.kv().len(),
                r@.len() == i,
                forall|j: int|
                    0 <= j < i ==> (#[trigger] r@[j]).0@ == self.supported_tokens.kv()[start as int
                        + j].0 && r@[j].1 == self.supported_tokens.kv()[start as int + j].1,
            decreases n - i,
        {
            let entry = self.supported_tokens.entry_at(start + i);
            r.push((entry.0.clone(), entry.1.clone()));
            i = i + 1;
        }
        r
    }

    /// One page of the identity link registry, in its native iteration order.
    pub fn get_linked_handles(&self, from_index: u64, limit: u64) -> (r: Vec<(String, String)>)
        requires
            self.inv(),
        ensures
            ({
                let kv = self.linked_accounts.kv();
                let start = if from_index as int <= kv.len() as int {
                    from_index as int
                } else {
                    kv.len() as int
                };
                let n = if limit as int <= kv.len() - start {
                    limit as int
                } else {
                    kv.len() - start
                };
                &&& r@.len() == n
                &&& forall|i: int|
                    0 <= i < n ==> (#[trigger] r@[i]).0@ == kv[start + i].0 && r@[i].1 == kv[start
                        + i].1
            }),
    {
        let len = self.linked_accounts.len();
        let start: usize = if from_index >= len as u64 {
            len
        } else {
            from_index as usize
        };
        let n: usize = if limit >= (len - start) as u64 {
            len - start
        } else {
            limit as usize
        };
        let mut r: Vec<(String, String)> = Vec::new();
        let mut i: usize = 0;
        while i < n
            invariant
                i <= n,
                start + n <= len,
                len == self.linked_accounts.kv().len(),
                r@.len() == i,
                forall|j: int|
                    0 <= j < i ==> (#[trigger] r@[j]).0@ == self.linked_accounts.kv()[start as int
                        + j].0 && r@[j].1 == self.linked_accounts.kv()[start as int + j].1,
            decreases n - i,
        {
            let entry = self.linked_accounts.entry_at(start + i);
            r.push((entry.0.clone(), entry.1.clone()));
            i = i + 1;
        }
        r
    }

    /// Every canonical handle key linked to `account_id`, in registry order.
    pub fn get_handles_by_account(&self, account_id: String) -> (r: Vec<String>)
        requires
            self.inv(),
        ensures
            ({
                let h = handles_of(self.linked_accounts.kv(), account_id@);
                r@.len() == h.len() && forall|i: int| 0 <= i < h.len() ==> (#[trigger] r@[i])@
                    == h[i]
            }),
    {
        let len = self.linked_accounts.len();
        let mut r: Vec<String> = Vec::new();
        let mut i: usize = 0;
        proof {
            assert(self.linked_accounts.kv().take(0) =~= Seq::<(Seq<char>, String)>::empty());
        }
        while i < len
            invariant
                i <= len,
                len == self.linked_accounts.kv().len(),
                ({
                    let h = handles_of(
                        self.linked_accounts.kv().take(i as int),
                        account_id@,
                    );
                    r@.len() == h.len() && forall|j: int| 0 <= j < h.len() ==> (#[trigger] r@[j])@
                        == h[j]
                }),
            decreases len - i,
        {
            let ghost kv = self.linked_accounts.kv();
            let entry = self.linked_accounts.entry_at(i);
            if entry.1.eq(&account_id) {
                r.push(entry.0.clone());
            }
            proof {
                assert(kv.take(i + 1).drop_last() =~= kv.take(i as int));
                assert(kv.take(i + 1).last() == kv[i as int]);
            }
            i = i + 1;
        }
        proof {
            assert(self.linked_accounts.kv().take(len as int) =~= self.linked_accounts.kv());
        }
        r
    }

    /// How many of the handle's pending claims are still settleable: pending
    /// and not yet expired at `current_time`.
    pub fn get_pending_claims_count(&self, platform: String, handle: String, current_time: u64) -> (r:
        u64)
        requires
            self.inv(),
        ensures
            ({
                let key = key_of(platform@, handle@);
                if self.handle_claims@.contains_key(key) {
                    r == unexpired_ids(
                        self.handle_claims@[key]@,
                        self.claims_by_id@,
                        current_time,
                    ).len()
                } else {
                    r == 0
                }
            }),
    {
        let social_handle = SocialHandle::new(platform, handle);
        let key = social_handle.to_string();
        let bucket: Vec<u64> = match self.handle_claims.get(&key) {
            Some(b) => copy_ids(b),
            None => {
                return 0;
            },
        };
        proof {
            assert(bucket_inv(bucket@, self.claims_by_id@));
            assert(bucket@.take(0) =~= Seq::<u64>::empty());
        }
        let len = bucket.len();
        let total = self.claims_by_id.len();
        let mut count: u64 = 0;
        let mut i: usize = 0;
        while i < len
            invariant
                i <= len,
                len == bucket@.len(),
                total == self.claims_by_id@.len(),
                bucket_inv(bucket@, self.claims_by_id@),
                count == unexpired_ids(
                    bucket@.take(i as int),
                    self.claims_by_id@,
                    current_time,
                ).len(),
                count <= i,
            decreases len - i,
        {
            let id = bucket[i];
            proof {
                assert(1 <= bucket@[i as int] <= self.claims_by_id@.len());
                assert(id <= total as u64);
            }
            let idx = (id - 1) as usize;
            let ghost prefix = bucket@.take(i as int);
            if current_time < self.claims_by_id[idx].expires_at {
                count = count + 1;
            }
            proof {
                lemma_unexpired_push(prefix, self.claims_by_id@, current_time, id);
                assert(bucket@.take(i + 1) =~= prefix.push(id));
            }
            i = i + 1;
        }
        proof {
            assert(bucket@.take(len as int) =~= bucket@);
        }
        count
    }

    /// One page of the handle's pending bucket, rendered, keeping only claims
    /// not yet expired at `current_time`.
    pub fn get_pending_claims(
        &self,
        platform: String,
        handle: String,
        from_index: u64,
        limit: u64,
        current_time: u64,
    ) -> (r: Vec<ClaimExternal>)
        requires
            self.inv(),
        ensures
            ({
                let key = key_of(platform@, handle@);
                if self.handle_claims@.contains_key(key) {
                    let bucket = self.handle_claims@[key]@;
                    let start = if from_index as int <= bucket.len() as int {
                        from_index as int
                    } else {
                        bucket.len() as int
                    };
                    let n = if limit as int <= bucket.len() - start {
                        limit as int
                    } else {
                        bucket.len() - start
                    };
                    let ids = unexpired_ids(
                        bucket.subrange(start, start + n),
                        self.claims_by_id@,
                        current_time,
                    );
                    r@.len() == ids.len() && forall|i: int|
                        0 <= i < ids.len() ==> claim_external_ok(
                            #[trigger] r@[i],
                            ids[i],
                            self.claim_of(ids[i]),
                        )
                } else {
                    r@.len() == 0
                }
            }),
    {
        let social_handle = SocialHandle::new(platform, handle);
        let key = social_handle.to_string();
        let bucket: Vec<u64> = match self.handle_claims.get(&key) {
            Some(b) => copy_ids(b),
            None => {
                return Vec::new();
            },
        };
        proof {
            assert(bucket_inv(bucket@, self.claims_by_id@));
        }
        let len = bucket.len();
        let start: usize = if from_index >= len as u64 {
            len
        } else {
            from_index as usize
        };
        let n: usize = if limit >= (len - start) as u64 {
            len - start
        } else {
            limit as usize
        };
        let ghost page = bucket@.subrange(start as int, start as int + n as int);
        let total = self.claims_by_id.len();
        let mut r: Vec<ClaimExternal> = Vec::new();
        let mut i: usize = 0;
        proof {
            assert(page.take(0) =~= Seq::<u64>::empty());
        }
        while i < n
            invariant
                i <= n,
                start + n <= len,
                len == bucket@.len(),
                page == bucket@.subrange(start as int, start as int + n as int),
                total == self.claims_by_id@.len(),
                bucket_inv(bucket@, self.claims_by_id@),
                ({
                    let ids = unexpired_ids(page.take(i as int), self.claims_by_id@, current_time);
                    r@.len() == ids.len() && forall|j: int|
                        0 <= j < ids.len() ==> claim_external_ok(
                            #[trigger] r@[j],
                            ids[j],
                            self.claim_of(ids[j]),
                        )
                }),
            decreases n - i,
        {
            let id = bucket[start + i];
            proof {
                assert(1 <= bucket@[start + i] <= self.claims_by_id@.len());
                assert(id <= total as u64);
                assert(page[i as int] == id);
            }
            let idx = (id - 1) as usize;
            let ghost prefix = page.take(i as int);
            if current_time < self.claims_by_id[idx].expires_at {
                let rendered = crate::claim::format_claim(&id, &self.claims_by_id[idx]);
                r.push(rendered);
            }
            proof {
                lemma_unexpired_push(prefix, self.claims_by_id@, current_time, id);
                assert(page.take(i + 1) =~= prefix.push(id));
            }
            i = i + 1;
        }
        proof {
            assert(page.take(n as int) =~= page);
        }
        r
    }

    /// One page of the handle's pending bucket, rendered, expiry
    /// notwithstanding.
    pub fn get_all_claims_for_handle(
        &self,
        platform: String,
        handle: String,
        from_index: u64,
        limit: u64,
    ) -> (r: Vec<ClaimExternal>)
        requires
            self.inv(),
        ensures
            ({
                let key = key_of(platform@, handle@);
                if self.handle_claims@.contains_key(key) {
                    let bucket = self.handle_claims@[key]@;
                    let start = if from_index as int <= bucket.len() as int {
                        from_index as int
                    } else {
                        bucket.len() as int
                    };
                    let n = if limit as int <= bucket.len() - start {
                        limit as int
                    } else {
                        bucket.len() - start
                    };
                    r@.len() == n && forall|i: int|
                        0 <= i < n ==> claim_external_ok(
                            #[trigger] r@[i],
                            bucket[start + i],
                            self.claim_of(bucket[start + i]),
                        )
                } else {
                    r@.len() == 0
                }
            }),
    {
        let social_handle = SocialHandle::new(platform, handle);
        let key = social_handle.to_string();
        let bucket: Vec<u64> = match self.handle_claims.get(&key) {
            Some(b) => copy_ids(b),
            None => {
                return Vec::new();
            },
        };
        proof {
            assert(bucket_inv(bucket@, self.claims_by_id@));
        }
        let len = bucket.len();
        let start: usize = if from_index >= len as u64 {
            len
        } else {
            from_index as usize
        };
        let n: usize = if limit >= (len - start) as u64 {
            len - start
        } else {
            limit as usize
        };
        let total = self.claims_by_id.len();
        let mut r: Vec<ClaimExternal> = Vec::new();
        let mut i: usize = 0;
        while i < n
            invariant
                i <= n,
                start + n <= len,
                len == bucket@.len(),
                total == self.claims_by_id@.len(),
                bucket_inv(bucket@, self.claims_by_id@),
                r@.len() == i,
                forall|j: int|
                    0 <= j < i ==> claim_external_ok(
                        #[trigger] r@[j],
                        bucket@[start as int + j],
                        self.claim_of(bucket@[start as int + j]),
                    ),
            decreases n - i,
        {
            let id = bucket[start + i];
            proof {
                assert(1 <= bucket@[start + i] <= self.claims_by_id@.len());
                assert(id <= total as u64);
            }
            let idx = (id - 1) as usize;
            let rendered = crate::claim::format_claim(&id, &self.claims_by_id[idx]);
            r.push(rendered);
            i = i + 1;
        }
        r
    }

    /// One page of the rendered claims whose sender is `tipper`, scanning the
    /// whole claim store in identifier order.
    pub fn get_claims_by_tipper(&self, tipper: String, from_index: u64, limit: u64) -> (r: Vec<
        ClaimExternal,
    >)
        requires
            self.inv(),
        ensures
            ({
                let ids = tipper_claim_ids(self.claims_by_id@, tipper@);
                let start = if from_index as int <= ids.len() as int {
                    from_index as int
                } else {
                    ids.len() as int
                };
                let n = if limit as int <= ids.len() - start {
                    limit as int
                } else {
                    ids.len() - start
                };
                r@.len() == n && forall|i: int|
                    0 <= i < n ==> claim_external_ok(
                        #[trigger] r@[i],
                        ids[start + i],
                        self.claim_of(ids[start + i]),
                    )
            }),
    {
        let total = self.claims_by_id.len();
        let mut all: Vec<ClaimExternal> = Vec::new();
        let ghost claims = self.claims_by_id@;
        let ghost idseq = tipper_claim_ids(claims, tipper@);
        let mut i: usize = 0;
        proof {
            assert(claims.take(0) =~= Seq::<Claim>::empty());
        }
        while i < total
            invariant
                i <= total,
                total == claims.len(),
                claims == self.claims_by_id@,
                ({
                    let ids = tipper_claim_ids(claims.take(i as int), tipper@);
                    all@.len() == ids.len() && forall|j: int|
                        0 <= j < ids.len() ==> claim_external_ok(
                            #[trigger] all@[j],
                            ids[j],
                            self.claim_of(ids[j]),
                        ) && 1 <= ids[j] <= i
                }),
            decreases total - i,
        {
            let id = (i as u64) + 1;
            if self.claims_by_id[i].tipper.eq(&tipper) {
                let rendered = crate::claim::format_claim(&id, &self.claims_by_id[i]);
                all.push(rendered);
            }
            proof {
                assert(claims.take(i + 1).drop_last() =~= claims.take(i as int));
                assert(claims.take(i + 1).last() == claims[i as int]);
            }
            i = i + 1;
        }
        proof {
            assert(claims.take(total as int) =~= claims);
        }
        let len = all.len();
        let start: usize = if from_index >= len as u64 {
            len
        } else {
            from_index as usize
        };
        let n: usize = if limit >= (len - start) as u64 {
            len - start
        } else {
            limit as usize
        };
        let mut r: Vec<ClaimExternal> = Vec::new();
        let mut j: usize = 0;
        while j < n
            invariant
                j <= n,
                start + n <= len,
                len == all@.len(),
                all@.len() == idseq.len(),
                claims == self.claims_by_id@,
                forall|m: int|
                    0 <= m < idseq.len() ==> claim_external_ok(
                        #[trigger] all@[m],
                        idseq[m],
                        self.claim_of(idseq[m]),
                    ),
                r@.len() == j,
                forall|m: int|
                    0 <= m < j ==> claim_external_ok(
                        #[trigger] r@[m],
                        idseq[start as int + m],
                        self.claim_of(idseq[start as int + m]),
                    ),
            decreases n - j,
        {
            r.push(all[start + j].clone());
            j = j + 1;
        }
        r
    }
}

/// After one identifier, fresh above every stored claim, is appended to one
/// bucket, no identifier is pending under two keys.
proof fn lemma_store_claim_unique(
    op: Map<Seq<char>, Vec<u64>>,
    oc: Seq<Claim>,
    key: Seq<char>,
    fresh: u64,
    fp: Map<Seq<char>, Vec<u64>>,
    k1: Seq<char>,
    k2: Seq<char>,
    id: u64,
)
    requires
        buckets_ok(op, oc),
        pending_unique(op),
        fresh == oc.len() + 1,
        fp.contains_key(key),
        fp[key]@ == (if op.contains_key(key) {
            op[key]@.push(fresh)
        } else {
            seq![fresh]
        }),
        forall|k: Seq<char>| (#[trigger] fp.contains_key(k)) <==> (op.contains_key(k) || k == key),
        forall|k: Seq<char>| k != key && #[trigger] op.contains_key(k) ==> fp[k] == op[k],
        bucket_has(fp, k1, id),
        bucket_has(fp, k2, id),
    ensures
        k1 == k2,
{
    if k1 != k2 {
        let other = if k1 == key {
            k2
        } else {
            k1
        };
        if id == fresh {
            // The fresh identifier can stand only in `key`'s bucket: every
            // old bucket holds identifiers of stored claims.
            if other != key && bucket_has(fp, other, fresh) {
                assert(op.contains_key(other));
                assert(fp[other] == op[other]);
                let b = op[other]@;
                let i = choose|i: int| 0 <= i < b.len() && b[i] == fresh;
                assert(1 <= b[i] <= oc.len());
                assert(false);
            }
            assert(k1 == key && k2 == key);
        } else {
            // An old identifier in `key`'s new bucket already stood in
            // `key`'s old bucket.
            assert forall|k: Seq<char>| #[trigger]
                bucket_has(fp, k, id) implies bucket_has(op, k, id) by {
                if k == key {
                    let b = fp[key]@;
                    let i = choose|i: int| 0 <= i < b.len() && b[i] == id;
                    if op.contains_key(key) {
                        assert(b == op[key]@.push(fresh));
                        assert(i < b.len() - 1);
                        assert(op[key]@[i] == id);
                    } else {
                        assert(b =~= seq![fresh]);
                        assert(false);
                    }
                } else {
                    assert(op.contains_key(k));
                    assert(fp[k] == op[k]);
                }
            }
            assert(bucket_has(op, k1, id));
            assert(bucket_has(op, k2, id));
        }
    }
}

} // verus!
