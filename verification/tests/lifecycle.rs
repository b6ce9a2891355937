use claim_protocol::claim::ClaimType;
use claim_protocol::events::Event;
use claim_protocol::external::TransferRequest;
use claim_protocol::{Contract, SocialHandle, TipError, TipOutcome, CLAIM_EXPIRATION_PERIOD};

fn s(x: &str) -> String {
    x.to_string()
}

const ONE_NEAR: u128 = 1_000_000_000_000_000_000_000_000;

fn fresh() -> Contract {
    Contract::new(s("owner.near"), s("verifier.near"))
}

fn link(c: &mut Contract, platform: &str, handle: &str, account: &str) {
    let sh = SocialHandle::new(s(platform), s(handle));
    let ev = c.on_link_account_verified(sh, s(account), Ok(())).unwrap();
    assert!(matches!(ev, Event::AccountLinked { .. }));
}

#[test]
fn scenario_deposit_then_link_then_settle() {
    let mut c = fresh();
    let now: u64 = 1_000_000;

    // Deposit of one unit of native value to an unlinked handle.
    let r = c
        .tip_near(s("Twitter"), s("Bob456"), s("alice.near"), ONE_NEAR, now)
        .unwrap();
    let claim_id = match r {
        TipOutcome::ClaimStored { claim_id, event } => {
            assert!(matches!(event, Event::ClaimCreated { .. }));
            claim_id
        }
        TipOutcome::Transferred { .. } => panic!("unlinked handle must escrow"),
    };
    assert_eq!(claim_id, 1);
    assert_eq!(c.get_pending_claims_count(s("Twitter"), s("Bob456"), now), 1);

    // Link, then settle: exactly one native transfer of the full amount.
    link(&mut c, "Twitter", "Bob456", "bob.near");
    let ds = c
        .claim(s("Twitter"), s("Bob456"), s("bob.near"), now + 5)
        .unwrap();
    assert_eq!(ds.len(), 1);
    match &ds[0].request {
        TransferRequest::Native { receiver, amount } => {
            assert_eq!(receiver, "bob.near");
            assert_eq!(*amount, ONE_NEAR);
        }
        _ => panic!("native claim must dispatch a native transfer"),
    }
    let k = ds[0].continuation.as_ref().unwrap();
    assert_eq!(k.claim_id, 1);
    assert_eq!(k.token_type, "NEAR");
    assert_eq!(k.recipient, "bob.near");
    assert_eq!(k.reclaim_trf, None);

    // The identifier stays pending until the completion lands.
    assert_eq!(c.get_pending_claims_count(s("Twitter"), s("Bob456"), now + 5), 1);
    let ev = c
        .on_transfer_complete(
            SocialHandle::new(s("Twitter"), s("Bob456")),
            s("NEAR"),
            1,
            s("bob.near"),
            None,
            Ok(()),
        )
        .unwrap();
    assert!(matches!(ev, Event::ClaimProcessed { .. }));
    assert_eq!(c.get_pending_claims_count(s("Twitter"), s("Bob456"), now + 5), 0);
    assert!(c.get_claim_by_id(1).unwrap().claimed);
}

#[test]
fn scenario_deposit_to_linked_handle_settles_synchronously() {
    let mut c = fresh();
    let now: u64 = 42;
    link(&mut c, "Twitter", "Alice123", "alice.near");

    let r = c
        .tip_near(s("Twitter"), s("Alice123"), s("bob.near"), ONE_NEAR, now)
        .unwrap();
    match r {
        TipOutcome::Transferred { dispatch, event } => {
            match dispatch.request {
                TransferRequest::Native { receiver, amount } => {
                    assert_eq!(receiver, "alice.near");
                    assert_eq!(amount, ONE_NEAR);
                }
                _ => panic!("direct forward must be a native transfer"),
            }
            assert!(dispatch.continuation.is_none());
            assert!(matches!(event, Event::TipTransferred { .. }));
        }
        TipOutcome::ClaimStored { .. } => panic!("linked handle must not escrow"),
    }
    // No claim record and no pending entry were created.
    assert!(c.get_claim_by_id(1).is_none());
    assert_eq!(c.get_pending_claims_count(s("Twitter"), s("Alice123"), now), 0);
}

#[test]
fn scenario_expired_claim_skipped_then_reclaimed_once() {
    let mut c = fresh();
    let created: u64 = 7;
    c.tip_near(s("Twitter"), s("Bob456"), s("alice.near"), 500, created)
        .unwrap();
    link(&mut c, "Twitter", "Bob456", "bob.near");

    let late = created + CLAIM_EXPIRATION_PERIOD;
    assert!(c.get_claim_by_id(1).unwrap().is_expired(late));

    // Settle after expiry: nothing dispatched, identifier pruned.
    let ds = c.claim(s("Twitter"), s("Bob456"), s("bob.near"), late).unwrap();
    assert!(ds.is_empty());
    assert_eq!(c.get_pending_claims_count(s("Twitter"), s("Bob456"), late), 0);
    assert_eq!(
        c.get_all_claims_for_handle(s("Twitter"), s("Bob456"), 0, 10).len(),
        0
    );

    // Reclaim by the original sender succeeds.
    let d = c
        .reclaim_tip(s("Twitter"), s("Bob456"), 1, s("alice.near"), late)
        .unwrap();
    match &d.request {
        TransferRequest::Native { receiver, amount } => {
            assert_eq!(receiver, "alice.near");
            assert_eq!(*amount, 500);
        }
        _ => panic!("native claim must reclaim natively"),
    }
    let k = d.continuation.as_ref().unwrap();
    assert_eq!(k.reclaim_trf, Some(true));
    let ev = c
        .on_transfer_complete(
            SocialHandle::new(s("Twitter"), s("Bob456")),
            s("NEAR"),
            1,
            s("alice.near"),
            Some(true),
            Ok(()),
        )
        .unwrap();
    assert!(matches!(ev, Event::TipReclaimed { .. }));
    assert!(c.get_claim_by_id(1).unwrap().reclaimed);

    // A second reclaim of the same claim is rejected.
    assert_eq!(
        c.reclaim_tip(s("Twitter"), s("Bob456"), 1, s("alice.near"), late).unwrap_err(),
        TipError::AlreadyReclaimed
    );
}

#[test]
fn scenario_unlisted_custodian_rejected_without_claim() {
    let mut c = fresh();
    let msg = s("{\"platform\":\"Twitter\",\"handle\":\"bob456\"}");
    let r = c.ft_on_transfer(s("alice.near"), 1000, msg, s("rogue-token.near"), 5);
    assert_eq!(r.unwrap_err(), TipError::UnsupportedToken);
    assert!(c.get_claim_by_id(1).is_none());
    assert_eq!(c.get_pending_claims_count(s("Twitter"), s("bob456"), 5), 0);
}

#[test]
fn settled_claim_leaves_the_pending_bucket() {
    let mut c = fresh();
    let now: u64 = 9;
    c.tip_near(s("x"), s("h"), s("alice.near"), 1, now).unwrap();
    c.tip_near(s("x"), s("h"), s("bob.near"), 2, now).unwrap();
    link(&mut c, "x", "h", "owner1.near");
    c.claim(s("x"), s("h"), s("owner1.near"), now).unwrap();
    c.on_transfer_complete(
        SocialHandle::new(s("x"), s("h")),
        s("NEAR"),
        1,
        s("owner1.near"),
        None,
        Ok(()),
    );
    // The settled identifier is gone from the bucket; its record stays.
    let remaining = c.get_all_claims_for_handle(s("x"), s("h"), 0, 10);
    assert_eq!(remaining.len(), 1);
    assert_eq!(remaining[0].id, 2);
    assert!(c.get_claim_by_id(1).unwrap().claimed);
}

#[test]
fn mixed_expiry_batch_dispatches_only_fresh_claims() {
    let mut c = fresh();
    let early: u64 = 1;
    c.tip_near(s("x"), s("h"), s("alice.near"), 10, early).unwrap();
    let later = early + 1000;
    c.tip_near(s("x"), s("h"), s("bob.near"), 20, later).unwrap();
    link(&mut c, "x", "h", "owner1.near");

    // At this moment the first claim has expired and the second has not.
    let now = early + CLAIM_EXPIRATION_PERIOD;
    let ds = c.claim(s("x"), s("h"), s("owner1.near"), now).unwrap();
    assert_eq!(ds.len(), 1);
    assert_eq!(ds[0].continuation.as_ref().unwrap().claim_id, 2);
    // The expired claim was pruned; the dispatched one stays pending.
    let remaining = c.get_all_claims_for_handle(s("x"), s("h"), 0, 10);
    assert_eq!(remaining.len(), 1);
    assert_eq!(remaining[0].id, 2);
    // The expired claim is still reclaimable by its sender.
    assert!(c.reclaim_tip(s("x"), s("h"), 1, s("alice.near"), now).is_ok());
}

#[test]
fn reconciliation_duplicate_success_is_inert() {
    let mut c = fresh();
    let now: u64 = 9;
    c.tip_near(s("x"), s("h"), s("alice.near"), 33, now).unwrap();
    link(&mut c, "x", "h", "owner1.near");
    let ds = c.claim(s("x"), s("h"), s("owner1.near"), now).unwrap();
    assert_eq!(ds.len(), 1);
    let sh = || SocialHandle::new(s("x"), s("h"));
    let first = c.on_transfer_complete(sh(), s("NEAR"), 1, s("owner1.near"), None, Ok(()));
    assert!(first.is_some());
    // Delivering the same success again: no pruning, no notification.
    let second = c.on_transfer_complete(sh(), s("NEAR"), 1, s("owner1.near"), None, Ok(()));
    assert!(second.is_none());
    assert_eq!(c.get_pending_claims_count(s("x"), s("h"), now), 0);
    assert!(c.get_claim_by_id(1).unwrap().claimed);
}

#[test]
fn reconciliation_failure_keeps_claim_pending() {
    let mut c = fresh();
    let now: u64 = 9;
    c.tip_near(s("x"), s("h"), s("alice.near"), 33, now).unwrap();
    link(&mut c, "x", "h", "owner1.near");
    c.claim(s("x"), s("h"), s("owner1.near"), now).unwrap();
    let ev = c.on_transfer_complete(
        SocialHandle::new(s("x"), s("h")),
        s("NEAR"),
        1,
        s("owner1.near"),
        None,
        Err(()),
    );
    assert!(ev.is_none());
    assert_eq!(c.get_pending_claims_count(s("x"), s("h"), now), 1);
    assert!(!c.get_claim_by_id(1).unwrap().claimed);
    // A later settle retries the same claim.
    let ds = c.claim(s("x"), s("h"), s("owner1.near"), now + 1).unwrap();
    assert_eq!(ds.len(), 1);
}

#[test]
fn settle_preconditions() {
    let mut c = fresh();
    let now: u64 = 3;
    assert_eq!(c.claim(s("x"), s("h"), s("a.near"), now).unwrap_err(), TipError::NotLinked);
    link(&mut c, "x", "h", "owner1.near");
    assert_eq!(
        c.claim(s("x"), s("h"), s("mallory.near"), now).unwrap_err(),
        TipError::WrongCaller
    );
    assert_eq!(
        c.claim(s("x"), s("h"), s("owner1.near"), now).unwrap_err(),
        TipError::NoPendingClaims
    );
    c.pause(s("owner.near")).unwrap();
    assert_eq!(c.claim(s("x"), s("h"), s("owner1.near"), now).unwrap_err(), TipError::Paused);
}

#[test]
fn reclaim_preconditions() {
    let mut c = fresh();
    let created: u64 = 10;
    c.tip_near(s("x"), s("h"), s("alice.near"), 77, created).unwrap();
    assert_eq!(
        c.reclaim_tip(s("x"), s("h"), 9, s("alice.near"), created).unwrap_err(),
        TipError::ClaimNotFound
    );
    assert_eq!(
        c.reclaim_tip(s("x"), s("h"), 1, s("alice.near"), created).unwrap_err(),
        TipError::NotExpired
    );
    let late = created + CLAIM_EXPIRATION_PERIOD + 1;
    assert_eq!(
        c.reclaim_tip(s("x"), s("h"), 1, s("mallory.near"), late).unwrap_err(),
        TipError::NotTipper
    );
    // Settle the claim, then reclaim is rejected as already settled.
    link(&mut c, "x", "h", "owner1.near");
    c.claim(s("x"), s("h"), s("owner1.near"), created).unwrap();
    c.on_transfer_complete(
        SocialHandle::new(s("x"), s("h")),
        s("NEAR"),
        1,
        s("owner1.near"),
        None,
        Ok(()),
    );
    assert_eq!(
        c.reclaim_tip(s("x"), s("h"), 1, s("alice.near"), late).unwrap_err(),
        TipError::AlreadyClaimed
    );
}

#[test]
fn identity_links_untouched_by_lifecycle_paths() {
    let mut c = fresh();
    let now: u64 = 1;
    link(&mut c, "x", "h", "owner1.near");
    link(&mut c, "x", "other", "carol.near");

    c.tip_near(s("x"), s("h"), s("alice.near"), 5, now).unwrap();
    c.tip_near(s("x"), s("unlinked"), s("alice.near"), 5, now).unwrap();
    c.claim(s("x"), s("h"), s("owner1.near"), now).ok();
    c.on_transfer_complete(
        SocialHandle::new(s("x"), s("h")),
        s("NEAR"),
        1,
        s("owner1.near"),
        None,
        Ok(()),
    );
    let late = now + CLAIM_EXPIRATION_PERIOD;
    c.reclaim_tip(s("x"), s("unlinked"), 2, s("alice.near"), late).ok();

    assert_eq!(c.get_linked_account(s("x"), s("h")).unwrap(), "owner1.near");
    assert_eq!(c.get_linked_account(s("x"), s("other")).unwrap(), "carol.near");
    assert_eq!(c.get_linked_handles(0, 10).len(), 2);
}

#[test]
fn batch_visits_at_most_hundred_claims() {
    let mut c = fresh();
    let now: u64 = 1;
    for _ in 0..105 {
        c.tip_near(s("x"), s("h"), s("alice.near"), 1, now).unwrap();
    }
    link(&mut c, "x", "h", "owner1.near");
    let ds = c.claim(s("x"), s("h"), s("owner1.near"), now).unwrap();
    assert_eq!(ds.len(), 100);
    // The five claims past the batch ceiling stay for the next call.
    assert_eq!(c.get_pending_claims_count(s("x"), s("h"), now), 105);
    for d in &ds {
        let k = d.continuation.as_ref().unwrap();
        c.on_transfer_complete(
            SocialHandle::new(s("x"), s("h")),
            k.token_type.clone(),
            k.claim_id,
            k.recipient.clone(),
            None,
            Ok(()),
        );
    }
    assert_eq!(c.get_pending_claims_count(s("x"), s("h"), now), 5);
    let ds2 = c.claim(s("x"), s("h"), s("owner1.near"), now).unwrap();
    assert_eq!(ds2.len(), 5);
}

#[test]
fn ft_deposit_escrow_and_settlement() {
    let mut c = fresh();
    let now: u64 = 50;
    let info = claim_protocol::token::TokenInfo {
        standard: claim_protocol::token::TokenStandard::NEP141,
        decimals: 18,
        symbol: s("MOCK"),
        chain: s("near"),
    };
    c.register_token(s("token.near"), info, s("owner.near")).unwrap();

    let msg = s("{\"platform\":\"Twitter\",\"handle\":\"bob456\"}");
    let r = c
        .ft_on_transfer(s("alice.near"), 2500, msg, s("token.near"), now)
        .unwrap();
    let claim_id = match r {
        TipOutcome::ClaimStored { claim_id, .. } => claim_id,
        _ => panic!("unlinked handle must escrow"),
    };
    assert_eq!(claim_id, 1);
    let stored = c.get_claim_by_id(1).unwrap();
    assert!(matches!(stored.claim_type, ClaimType::FungibleToken { .. }));
    assert_eq!(stored.amount, 2500);
    assert_eq!(stored.tipper, "alice.near");
    assert_eq!(stored.expires_at, now + CLAIM_EXPIRATION_PERIOD);

    link(&mut c, "Twitter", "bob456", "bob.near");
    let ds = c.claim(s("Twitter"), s("bob456"), s("bob.near"), now).unwrap();
    assert_eq!(ds.len(), 1);
    match &ds[0].request {
        TransferRequest::FungibleTokenTransfer { token, receiver, amount, memo } => {
            assert_eq!(token, "token.near");
            assert_eq!(receiver, "bob.near");
            assert_eq!(amount, "2500");
            assert_eq!(memo, "Claimed tip from alice.near");
        }
        _ => panic!("fungible claim must dispatch a fungible transfer"),
    }
}

#[test]
fn ft_deposit_to_linked_handle_forwards() {
    let mut c = fresh();
    let info = claim_protocol::token::TokenInfo {
        standard: claim_protocol::token::TokenStandard::NEP141,
        decimals: 6,
        symbol: s("USD"),
        chain: s("near"),
    };
    c.register_token(s("token.near"), info, s("owner.near")).unwrap();
    link(&mut c, "Twitter", "bob456", "bob.near");
    let msg = s("{\"platform\":\"Twitter\",\"handle\":\"Bob456\"}");
    let r = c
        .ft_on_transfer(s("alice.near"), 77, msg, s("token.near"), 4)
        .unwrap();
    match r {
        TipOutcome::Transferred { dispatch, .. } => match dispatch.request {
            TransferRequest::FungibleTokenTransfer { token, receiver, amount, memo } => {
                assert_eq!(token, "token.near");
                assert_eq!(receiver, "bob.near");
                assert_eq!(amount, "77");
                assert_eq!(memo, "Tip from alice.near");
            }
            _ => panic!("forward must be a fungible transfer"),
        },
        _ => panic!("linked handle must not escrow"),
    }
    assert!(c.get_claim_by_id(1).is_none());
}

#[test]
fn nft_deposit_escrow() {
    let mut c = fresh();
    let info = claim_protocol::token::TokenInfo {
        standard: claim_protocol::token::TokenStandard::NEP171,
        decimals: 0,
        symbol: s("NFT"),
        chain: s("near"),
    };
    c.register_token(s("nft.near"), info, s("owner.near")).unwrap();
    let msg = s("{\"platform\":\"Twitter\",\"handle\":\"bob456\"}");
    let r = c
        .nft_on_transfer(s("alice.near"), s("alice.near"), s("token-7"), msg, s("nft.near"), 3)
        .unwrap();
    match r {
        TipOutcome::ClaimStored { claim_id, .. } => assert_eq!(claim_id, 1),
        _ => panic!("unlinked handle must escrow"),
    }
    let stored = c.get_claim_by_id(1).unwrap();
    assert_eq!(stored.amount, 0);
    match stored.claim_type {
        ClaimType::NonFungibleToken { contract_id, token_id } => {
            assert_eq!(contract_id, "nft.near");
            assert_eq!(token_id, "token-7");
        }
        _ => panic!("expected a non-fungible claim"),
    }
}

#[test]
fn malformed_routing_message_rejected() {
    let mut c = fresh();
    let info = claim_protocol::token::TokenInfo {
        standard: claim_protocol::token::TokenStandard::NEP141,
        decimals: 6,
        symbol: s("USD"),
        chain: s("near"),
    };
    c.register_token(s("token.near"), info, s("owner.near")).unwrap();
    for msg in [
        s("not json"),
        s("{\"platform\":\"x\"}"),
        s("{\"handle\":\"h\"}"),
        s("{\"platform\":7,\"handle\":\"h\"}"),
    ] {
        let r = c.ft_on_transfer(s("alice.near"), 1, msg, s("token.near"), 1);
        assert_eq!(r.unwrap_err(), TipError::MalformedMessage);
    }
    assert!(c.get_claim_by_id(1).is_none());
}
