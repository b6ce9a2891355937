use vstd::prelude::*;

verus! {

/// The ledger standard an allow-listed asset custodian speaks.
#[derive(Clone, Copy, PartialEq, Eq, Debug)]
pub enum TokenStandard {
    NEAR,
    NEP141,
    NEP171,
}

/// What the owner recorded about an allow-listed token contract.
#[derive(Debug)]
pub struct TokenInfo {
    pub standard: TokenStandard,
    pub decimals: u8,
    pub symbol: String,
    pub chain: String,
}

impl Clone for TokenInfo {
    fn clone(&self) -> (r: Self)
        ensures
            r == *self,
    {
        TokenInfo {
            standard: self.standard,
            decimals: self.decimals,
            symbol: self.symbol.clone(),
            chain: self.chain.clone(),
        }
    }
}

} // verus!
