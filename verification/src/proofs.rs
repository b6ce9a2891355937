use vstd::prelude::*;

verus! {

/// What an identity proof claims about the proven session.
#[derive(Debug)]
pub struct ClaimInfo {
    pub provider: String,
    pub parameters: String,
    pub context: String,
}

/// The signed core of an identity proof.
#[allow(non_snake_case)]
#[derive(Debug)]
pub struct CompleteClaimData {
    pub identifier: String,
    pub owner: String,
    pub epoch: u64,
    pub timestampS: u64,
}

#[derive(Debug)]
pub struct SignedClaim {
    pub claim: CompleteClaimData,
    pub signatures: Vec<String>,
}

/// An identity proof as submitted for external verification; its internal
/// format is owned by the external verifier and carried through opaquely.
#[allow(non_snake_case)]
#[derive(Debug)]
pub struct ReclaimProof {
    pub claimInfo: ClaimInfo,
    pub signedClaim: SignedClaim,
}

impl Clone for ClaimInfo {
    fn clone(&self) -> (r: Self)
        ensures
            r == *self,
    {
        ClaimInfo {
            provider: self.provider.clone(),
            parameters: self.parameters.clone(),
            context: self.context.clone(),
        }
    }
}

impl Clone for CompleteClaimData {
    fn clone(&self) -> (r: Self)
        ensures
            r == *self,
    {
        CompleteClaimData {
            identifier: self.identifier.clone(),
            owner: self.owner.clone(),
            epoch: self.epoch,
            timestampS: self.timestampS,
        }
    }
}

impl Clone for SignedClaim {
    fn clone(&self) -> (r: Self)
        ensures
            r.claim == self.claim,
            r.signatures@ == self.signatures@,
    {
        let mut signatures: Vec<String> = Vec::new();
        let n = self.signatures.len();
        let mut i: usize = 0;
        while i < n
            invariant
                i <= n,
                n == self.signatures@.len(),
                signatures@ == self.signatures@.take(i as int),
            decreases n - i,
        {
            signatures.push(self.signatures[i].clone());
            proof {
                assert(signatures@ =~= self.signatures@.take(i + 1));
            }
            i = i + 1;
        }
        proof {
            assert(self.signatures@.take(n as int) =~= self.signatures@);
        }
        SignedClaim { claim: self.claim.clone(), signatures }
    }
}

impl Clone for ReclaimProof {
    fn clone(&self) -> (r: Self)
        ensures
            r.claimInfo == self.claimInfo,
            r.signedClaim.claim == self.signedClaim.claim,
            r.signedClaim.signatures@ == self.signedClaim.signatures@,
    {
        ReclaimProof { claimInfo: self.claimInfo.clone(), signedClaim: self.signedClaim.clone() }
    }
}

impl ReclaimProof {
    /// Whether the proof's claimed generation time lies within the allowed
    /// recency window of `current_time` (both in nanoseconds); elapsed time is
    /// clamped at zero for proofs claiming a future generation time.
    pub fn is_recent(&self, current_time: u64) -> (r: bool)
        requires
            self.signedClaim.claim.timestampS * 1_000_000_000 <= u64::MAX,
        ensures
            r == ({
                let proof_time_ns = self.signedClaim.claim.timestampS * 1_000_000_000;
                (if current_time >= proof_time_ns {
                    current_time - proof_time_ns
                } else {
                    0
                }) < crate::MAX_PROOF_AGE
            }),
    {
        let proof_time_ns = self.signedClaim.claim.timestampS * 1_000_000_000;
        let elapsed = if current_time >= proof_time_ns {
            current_time - proof_time_ns
        } else {
            0
        };
        elapsed < crate::MAX_PROOF_AGE
    }

    pub fn get_platform(&self) -> (r: String)
        ensures
            r == self.claimInfo.provider,
    {
        self.claimInfo.provider.clone()
    }

    pub fn get_handle(&self) -> (r: String)
        ensures
            r == self.claimInfo.parameters,
    {
        self.claimInfo.parameters.clone()
    }
}

} // verus!
