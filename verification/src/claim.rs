use vstd::prelude::*;
use vstd::string::StringExecFns;

verus! {

/// The escrowed asset: native value, a fungible-token amount, or one
/// non-fungible token. The amount field of a claim is meaningless and fixed
/// to zero for the non-fungible variant.
#[derive(Debug)]
pub enum ClaimType {
    Near,
    FungibleToken { contract_id: String },
    NonFungibleToken { contract_id: String, token_id: String },
}

/// An escrowed obligation awaiting settlement or reclaim.
#[derive(Debug)]
pub struct Claim {
    pub claim_type: ClaimType,
    pub amount: u128,
    pub tipper: String,
    pub timestamp: u64,
    pub expires_at: u64,
    /// Set exactly once, by a successful non-reclaim settlement.
    pub claimed: bool,
    /// Set exactly once, by a successful reclaim; checked at reclaim entry so
    /// that a reclaim can succeed at most once.
    pub reclaimed: bool,
}

/// A claim as shown on the read surface, with its identifier and its asset
/// rendered as text.
#[derive(Debug)]
pub struct ClaimExternal {
    pub id: u64,
    pub claim_type: String,
    pub amount: u128,
    pub tipper: String,
    pub timestamp: u64,
    pub expires_at: u64,
    pub claimed: bool,
}

impl Clone for ClaimType {
    fn clone(&self) -> (r: Self)
        ensures
            r == *self,
    {
        match self {
            ClaimType::Near => ClaimType::Near,
            ClaimType::FungibleToken { contract_id } => ClaimType::FungibleToken {
                contract_id: contract_id.clone(),
            },
            ClaimType::NonFungibleToken { contract_id, token_id } => ClaimType::NonFungibleToken {
                contract_id: contract_id.clone(),
                token_id: token_id.clone(),
            },
        }
    }
}

impl Clone for Claim {
    fn clone(&self) -> (r: Self)
        ensures
            r == *self,
    {
        Claim {
            claim_type: self.claim_type.clone(),
            amount: self.amount,
            tipper: self.tipper.clone(),
            timestamp: self.timestamp,
            expires_at: self.expires_at,
            claimed: self.claimed,
            reclaimed: self.reclaimed,
        }
    }
}

impl Clone for ClaimExternal {
    fn clone(&self) -> (r: Self)
        ensures
            r == *self,
    {
        ClaimExternal {
            id: self.id,
            claim_type: self.claim_type.clone(),
            amount: self.amount,
            tipper: self.tipper.clone(),
            timestamp: self.timestamp,
            expires_at: self.expires_at,
            claimed: self.claimed,
        }
    }
}

/// The short asset tag carried by transfer continuations and notifications.
pub open spec fn token_type_seq(t: ClaimType) -> Seq<char> {
    match t {
        ClaimType::Near => "NEAR"@,
        ClaimType::FungibleToken { .. } => "FT"@,
        ClaimType::NonFungibleToken { .. } => "NFT"@,
    }
}

/// The rendered asset description of the read surface.
pub open spec fn claim_type_text(t: ClaimType) -> Seq<char> {
    match t {
        ClaimType::Near => "Near"@,
        ClaimType::FungibleToken { contract_id } => "FT("@ + contract_id@ + ")"@,
        ClaimType::NonFungibleToken { contract_id, token_id } => "NFT("@ + contract_id@ + ", "@
            + token_id@ + ")"@,
    }
}

impl Claim {
    pub fn new_near(tipper: String, amount: u128, current_time: u64) -> (r: Self)
        requires
            current_time + crate::CLAIM_EXPIRATION_PERIOD <= u64::MAX,
        ensures
            r == (Claim {
                claim_type: ClaimType::Near,
                amount,
                tipper,
                timestamp: current_time,
                expires_at: (current_time + crate::CLAIM_EXPIRATION_PERIOD) as u64,
                claimed: false,
                reclaimed: false,
            }),
    {
        Claim {
            claim_type: ClaimType::Near,
            amount,
            tipper,
            timestamp: current_time,
            expires_at: current_time + crate::CLAIM_EXPIRATION_PERIOD,
            claimed: false,
            reclaimed: false,
        }
    }

    pub fn new_ft(tipper: String, contract_id: String, amount: u128, current_time: u64) -> (r:
        Self)
        requires
            current_time + crate::CLAIM_EXPIRATION_PERIOD <= u64::MAX,
        ensures
            r == (Claim {
                claim_type: ClaimType::FungibleToken { contract_id },
                amount,
                tipper,
                timestamp: current_time,
                expires_at: (current_time + crate::CLAIM_EXPIRATION_PERIOD) as u64,
                claimed: false,
                reclaimed: false,
            }),
    {
        Claim {
            claim_type: ClaimType::FungibleToken { contract_id },
            amount,
            tipper,
            timestamp: current_time,
            expires_at: current_time + crate::CLAIM_EXPIRATION_PERIOD,
            claimed: false,
            reclaimed: false,
        }
    }

    pub fn new_nft(tipper: String, contract_id: String, token_id: String, current_time: u64) -> (r:
        Self)
        requires
            current_time + crate::CLAIM_EXPIRATION_PERIOD <= u64::MAX,
        ensures
            r == (Claim {
                claim_type: ClaimType::NonFungibleToken { contract_id, token_id },
                amount: 0,
                tipper,
                timestamp: current_time,
                expires_at: (current_time + crate::CLAIM_EXPIRATION_PERIOD) as u64,
                claimed: false,
                reclaimed: false,
            }),
    {
        Claim {
            claim_type: ClaimType::NonFungibleToken { contract_id, token_id },
            amount: 0,
            tipper,
            timestamp: current_time,
            expires_at: current_time + crate::CLAIM_EXPIRATION_PERIOD,
            claimed: false,
            reclaimed: false,
        }
    }

    /// Whether the claim's expiry window has passed at `current_time`.
    pub fn is_expired(&self, current_time: u64) -> (r: bool)
        ensures
            r == (current_time >= self.expires_at),
    {
        current_time >= self.expires_at
    }

    pub fn amount(&self) -> (r: u128)
        ensures
            r == self.amount,
    {
        self.amount
    }

    pub fn tipper(&self) -> (r: &String)
        ensures
            *r == self.tipper,
    {
        &self.tipper
    }

    pub fn token_type(&self) -> (r: &'static str)
        ensures
            r@ == token_type_seq(self.claim_type),
    {
        match &self.claim_type {
            ClaimType::Near => "NEAR",
            ClaimType::FungibleToken { .. } => "FT",
            ClaimType::NonFungibleToken { .. } => "NFT",
        }
    }
}

/// Renders a stored claim for the read surface.
pub fn format_claim(claim_id: &u64, claim: &Claim) -> (r: ClaimExternal)
    ensures
        r.id == *claim_id,
        r.claim_type@ == claim_type_text(claim.claim_type),
        r.amount == claim.amount,
        r.tipper == claim.tipper,
        r.timestamp == claim.timestamp,
        r.expires_at == claim.expires_at,
        r.claimed == claim.claimed,
{
    let claim_type: String = match &claim.claim_type {
        ClaimType::Near => String::from_str("Near"),
        ClaimType::FungibleToken { contract_id } => {
            let mut s = String::from_str("FT(");
            s.append(contract_id.as_str());
            s.append(")");
            proof {
                assert(s@ =~= claim_type_text(claim.claim_type));
            }
            s
        },
        ClaimType::NonFungibleToken { contract_id, token_id } => {
            let mut s = String::from_str("NFT(");
            s.append(contract_id.as_str());
            s.append(", ");
            s.append(token_id.as_str());
            s.append(")");
            proof {
                assert(s@ =~= claim_type_text(claim.claim_type));
            }
            s
        },
    };
    ClaimExternal {
        id: *claim_id,
        claim_type,
        amount: claim.amount,
        tipper: claim.tipper.clone(),
        timestamp: claim.timestamp,
        expires_at: claim.expires_at,
        claimed: claim.claimed,
    }
}

} // verus!
