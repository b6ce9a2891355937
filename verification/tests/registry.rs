use claim_protocol::events::Event;
use claim_protocol::proofs::{ClaimInfo, CompleteClaimData, ReclaimProof, SignedClaim};
use claim_protocol::token::{TokenInfo, TokenStandard};
use claim_protocol::{Contract, SocialHandle, TipError, MAX_PROOF_AGE};

fn s(x: &str) -> String {
    x.to_string()
}

fn fresh() -> Contract {
    Contract::new(s("owner.near"), s("verifier.near"))
}

fn proof_with_context(context: &str) -> ReclaimProof {
    ReclaimProof {
        claimInfo: ClaimInfo {
            provider: s("twitter"),
            parameters: s("alice123"),
            context: s(context),
        },
        signedClaim: SignedClaim {
            claim: CompleteClaimData {
                identifier: s("id-1"),
                owner: s("0xabc"),
                epoch: 1,
                timestampS: 1000,
            },
            signatures: vec![s("sig-1")],
        },
    }
}

const GOOD_CONTEXT: &str = "{\"extractedParameters\":{\"screen_name\":\"alice123\"}}";

#[test]
fn link_request_round_trip() {
    let mut c = fresh();
    let r = c
        .link_account(s("Twitter"), s("alice123"), proof_with_context(GOOD_CONTEXT), s("alice.near"), 1)
        .unwrap();
    assert_eq!(r.verifier, "verifier.near");
    assert_eq!(r.requester, "alice.near");
    assert_eq!(r.social_handle.platform, "twitter");
    assert_eq!(r.social_handle.handle, "alice123");

    // The verifier's success resumes the flow and commits the link.
    let ev = c
        .on_link_account_verified(r.social_handle, r.requester, Ok(()))
        .unwrap();
    assert!(matches!(ev, Event::AccountLinked { .. }));
    assert!(c.is_linked(s("Twitter"), s("alice123")));
    assert_eq!(c.get_linked_account(s("twitter"), s("ALICE123")).unwrap(), "alice.near");

    // Re-linking a linked handle is rejected at request time.
    let again = c.link_account(
        s("twitter"),
        s("alice123"),
        proof_with_context(GOOD_CONTEXT),
        s("mallory.near"),
        1,
    );
    assert_eq!(again.unwrap_err(), TipError::AlreadyLinked);
}

#[test]
fn link_request_rejections() {
    let mut c = fresh();
    assert_eq!(
        c.link_account(s("t"), s("alice123"), proof_with_context(GOOD_CONTEXT), s("a.near"), 0)
            .unwrap_err(),
        TipError::NoDeposit
    );
    assert_eq!(
        c.link_account(s("t"), s("alice123"), proof_with_context("not json"), s("a.near"), 1)
            .unwrap_err(),
        TipError::MalformedProofContext
    );
    assert_eq!(
        c.link_account(s("t"), s("alice123"), proof_with_context("{\"other\":1}"), s("a.near"), 1)
            .unwrap_err(),
        TipError::MalformedProofContext
    );
    assert_eq!(
        c.link_account(
            s("t"),
            s("alice123"),
            proof_with_context("{\"extractedParameters\":{}}"),
            s("a.near"),
            1,
        )
        .unwrap_err(),
        TipError::MalformedProofContext
    );
    assert_eq!(
        c.link_account(
            s("t"),
            s("alice123"),
            proof_with_context("{\"extractedParameters\":{\"screen_name\":\"other\"}}"),
            s("a.near"),
            1,
        )
        .unwrap_err(),
        TipError::ProofHandleMismatch
    );
    // A non-string proven handle passes the pre-check and goes to the
    // verifier unchanged.
    assert!(c
        .link_account(
            s("t"),
            s("alice123"),
            proof_with_context("{\"extractedParameters\":{\"screen_name\":7}}"),
            s("a.near"),
            1,
        )
        .is_ok());
    c.pause(s("owner.near")).unwrap();
    assert_eq!(
        c.link_account(s("t"), s("alice123"), proof_with_context(GOOD_CONTEXT), s("a.near"), 1)
            .unwrap_err(),
        TipError::Paused
    );
}

#[test]
fn failed_verification_changes_nothing() {
    let mut c = fresh();
    let sh = SocialHandle::new(s("t"), s("h"));
    let r = c.on_link_account_verified(sh, s("a.near"), Err(()));
    assert_eq!(r.unwrap_err(), TipError::VerificationFailed);
    assert!(!c.is_linked(s("t"), s("h")));
}

#[test]
fn proof_recency_window() {
    let p = proof_with_context(GOOD_CONTEXT);
    let generated_ns: u64 = 1000 * 1_000_000_000;
    assert!(p.is_recent(generated_ns));
    assert!(p.is_recent(generated_ns + MAX_PROOF_AGE - 1));
    assert!(!p.is_recent(generated_ns + MAX_PROOF_AGE));
    // A proof claiming a future generation time counts as fresh.
    assert!(p.is_recent(0));
    assert_eq!(p.get_platform(), "twitter");
    assert_eq!(p.get_handle(), "alice123");
}

#[test]
fn pause_and_owner_gates() {
    let mut c = fresh();
    assert!(!c.is_paused());
    assert_eq!(c.pause(s("mallory.near")).unwrap_err(), TipError::NotOwner);
    assert_eq!(c.unpause(s("owner.near")).unwrap_err(), TipError::NotPaused);
    c.pause(s("owner.near")).unwrap();
    assert!(c.is_paused());
    assert_eq!(c.pause(s("owner.near")).unwrap_err(), TipError::AlreadyPaused);
    assert_eq!(
        c.tip_near(s("t"), s("h"), s("a.near"), 1, 1).unwrap_err(),
        TipError::Paused
    );
    c.unpause(s("owner.near")).unwrap();
    assert!(!c.is_paused());
}

#[test]
fn reclaim_contract_administration() {
    let mut c = fresh();
    assert_eq!(c.get_reclaim_contract(), "verifier.near");
    assert_eq!(
        c.set_reclaim_contract(s("v2.near"), s("mallory.near")).unwrap_err(),
        TipError::NotOwner
    );
    c.set_reclaim_contract(s("v2.near"), s("owner.near")).unwrap();
    assert_eq!(c.get_reclaim_contract(), "v2.near");
}

#[test]
fn token_allow_list_administration() {
    let mut c = fresh();
    let info = TokenInfo {
        standard: TokenStandard::NEP141,
        decimals: 18,
        symbol: s("MOCK"),
        chain: s("near"),
    };
    assert_eq!(
        c.register_token(s("token.near"), info.clone(), s("mallory.near")).unwrap_err(),
        TipError::NotOwner
    );
    c.register_token(s("token.near"), info, s("owner.near")).unwrap();
    let got = c.get_token_info(s("token.near")).unwrap();
    assert_eq!(got.symbol, "MOCK");
    assert_eq!(got.decimals, 18);
    assert!(matches!(got.standard, TokenStandard::NEP141));
    assert_eq!(got.chain, "near");

    let nft = TokenInfo {
        standard: TokenStandard::NEP171,
        decimals: 0,
        symbol: s("NFT"),
        chain: s("near"),
    };
    c.register_token(s("nft.near"), nft, s("owner.near")).unwrap();
    let page = c.get_supported_tokens(0, 10);
    assert_eq!(page.len(), 2);
    assert_eq!(page[0].0, "token.near");
    assert_eq!(page[1].0, "nft.near");
    assert_eq!(c.get_supported_tokens(1, 10).len(), 1);
    assert_eq!(c.get_supported_tokens(2, 10).len(), 0);

    c.remove_token(s("token.near"), s("owner.near")).unwrap();
    assert!(c.get_token_info(s("token.near")).is_none());
    assert_eq!(c.get_supported_tokens(0, 10).len(), 1);
}

#[test]
fn registry_views() {
    let mut c = fresh();
    for (p, h, a) in [("t", "h1", "alice.near"), ("t", "h2", "bob.near"), ("t", "h3", "alice.near")] {
        let sh = SocialHandle::new(s(p), s(h));
        c.on_link_account_verified(sh, s(a), Ok(())).unwrap();
    }
    let all = c.get_linked_handles(0, 10);
    assert_eq!(all.len(), 3);
    assert_eq!(all[0].0, "1:th1");
    assert_eq!(all[0].1, "alice.near");
    assert_eq!(c.get_linked_handles(1, 1).len(), 1);
    assert_eq!(c.get_linked_handles(1, 1)[0].1, "bob.near");
    assert_eq!(c.get_linked_handles(5, 10).len(), 0);

    let alices = c.get_handles_by_account(s("alice.near"));
    assert_eq!(alices, vec![s("1:th1"), s("1:th3")]);
    assert_eq!(c.get_handles_by_account(s("nobody.near")).len(), 0);
}

#[test]
fn tip_requires_a_deposit() {
    let mut c = fresh();
    assert_eq!(
        c.tip_near(s("t"), s("h"), s("a.near"), 0, 1).unwrap_err(),
        TipError::NoDeposit
    );
    assert!(c.get_claim_by_id(1).is_none());
}

#[test]
fn empty_platform_and_handle_still_form_a_key() {
    let mut c = fresh();
    let sh = SocialHandle::new(s(""), s(""));
    assert_eq!(sh.to_string(), "0:");
    c.tip_near(s(""), s(""), s("a.near"), 1, 1).unwrap();
    assert_eq!(c.get_pending_claims_count(s(""), s(""), 1), 1);
    assert_eq!(c.get_pending_claims_count(s(""), s("x"), 1), 0);
}

#[test]
fn claim_views_and_pagination() {
    let mut c = fresh();
    let now: u64 = 5;
    c.tip_near(s("t"), s("h"), s("alice.near"), 10, now).unwrap();
    c.tip_near(s("t"), s("h"), s("bob.near"), 20, now).unwrap();
    c.tip_near(s("t"), s("other"), s("alice.near"), 30, now).unwrap();

    let page = c.get_pending_claims(s("t"), s("h"), 0, 10, now);
    assert_eq!(page.len(), 2);
    assert_eq!(page[0].id, 1);
    assert_eq!(page[0].amount, 10);
    assert_eq!(page[1].id, 2);
    assert_eq!(c.get_pending_claims(s("t"), s("h"), 1, 10, now).len(), 1);

    // Expired claims drop out of the pending view but not the full view.
    let late = now + claim_protocol::CLAIM_EXPIRATION_PERIOD;
    assert_eq!(c.get_pending_claims(s("t"), s("h"), 0, 10, late).len(), 0);
    assert_eq!(c.get_pending_claims_count(s("t"), s("h"), late), 0);
    let all = c.get_all_claims_for_handle(s("t"), s("h"), 0, 10);
    assert_eq!(all.len(), 2);
    assert_eq!(all[1].tipper, "bob.near");

    let by_alice = c.get_claims_by_tipper(s("alice.near"), 0, 10);
    assert_eq!(by_alice.len(), 2);
    assert_eq!(by_alice[0].id, 1);
    assert_eq!(by_alice[1].id, 3);
    assert_eq!(by_alice[1].amount, 30);
    assert_eq!(c.get_claims_by_tipper(s("alice.near"), 1, 10).len(), 1);
    assert_eq!(c.get_claims_by_tipper(s("nobody.near"), 0, 10).len(), 0);
}
