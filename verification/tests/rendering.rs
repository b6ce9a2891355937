use claim_protocol::claim::{format_claim, Claim, ClaimType};
use claim_protocol::events::{
    log_account_linked_event, log_claim_created_event, log_claim_processed_event,
    log_tip_reclaimed_event, log_tip_transferred_event, render_event, Event,
};
use claim_protocol::text::u128_to_dec;
use claim_protocol::SocialHandle;

fn s(x: &str) -> String {
    x.to_string()
}

#[test]
fn decimal_rendering_is_exact() {
    assert_eq!(u128_to_dec(0), "0");
    assert_eq!(u128_to_dec(9), "9");
    assert_eq!(u128_to_dec(10), "10");
    assert_eq!(u128_to_dec(12345), "12345");
    assert_eq!(u128_to_dec(1_000_000_000_000_000_000_000_000), "1000000000000000000000000");
    assert_eq!(
        u128_to_dec(u128::MAX),
        "340282366920938463463374607431768211455"
    );
}

#[test]
fn social_handle_case_folds() {
    let sh = SocialHandle::new(s("Twitter"), s("Alice123"));
    assert_eq!(sh.platform, "twitter");
    assert_eq!(sh.handle, "alice123");
    let sh2 = SocialHandle::new(s("TWITTER"), s("ALICE123"));
    assert_eq!(sh2.platform, "twitter");
    assert_eq!(sh2.handle, "alice123");
}

#[test]
fn canonical_key_is_length_prefixed() {
    let sh = SocialHandle::new(s("Twitter"), s("Alice123"));
    assert_eq!(sh.to_string(), "7:twitteralice123");
    // The length prefix keeps distinct pairs apart where naive joining
    // would collide.
    let a = SocialHandle::new(s("ab"), s("c")).to_string();
    let b = SocialHandle::new(s("a"), s("bc")).to_string();
    assert_eq!(a, "2:abc");
    assert_eq!(b, "1:abc");
    assert_ne!(a, b);
}

#[test]
fn account_linked_event_bytes() {
    let line = log_account_linked_event("twitter", "alice123", "alice.near");
    assert_eq!(
        line,
        "EVENT_JSON:{\"standard\":\"claim_protocol\",\"version\":\"1.0.0\",\
         \"event\":\"account_linked\",\"data\":[{\"platform\":\"twitter\",\
         \"handle\":\"alice123\",\"account_id\":\"alice.near\"}]}"
    );
}

#[test]
fn amount_event_bytes() {
    let line = log_claim_created_event("twitter", "bob456", 1000000, "NEAR", "alice.near");
    assert_eq!(
        line,
        "EVENT_JSON:{\"standard\":\"claim_protocol\",\"version\":\"1.0.0\",\
         \"event\":\"claim_created\",\"data\":[{\"platform\":\"twitter\",\
         \"handle\":\"bob456\",\"amount\":\"1000000\",\"token_type\":\"NEAR\",\
         \"tipper\":\"alice.near\"}]}"
    );
    let line = log_tip_transferred_event("twitter", "bob456", 5, "FT", "bob.near");
    assert_eq!(
        line,
        "EVENT_JSON:{\"standard\":\"claim_protocol\",\"version\":\"1.0.0\",\
         \"event\":\"tip_transferred\",\"data\":[{\"platform\":\"twitter\",\
         \"handle\":\"bob456\",\"amount\":\"5\",\"token_type\":\"FT\",\
         \"recipient\":\"bob.near\"}]}"
    );
    let line = log_claim_processed_event("twitter", "bob456", 5, "FT", "bob.near");
    assert_eq!(
        line,
        "EVENT_JSON:{\"standard\":\"claim_protocol\",\"version\":\"1.0.0\",\
         \"event\":\"claim_processed\",\"data\":[{\"platform\":\"twitter\",\
         \"handle\":\"bob456\",\"amount\":\"5\",\"token_type\":\"FT\",\
         \"claimer\":\"bob.near\"}]}"
    );
    let line = log_tip_reclaimed_event("twitter", "bob456", 5, "NFT", "alice.near");
    assert_eq!(
        line,
        "EVENT_JSON:{\"standard\":\"claim_protocol\",\"version\":\"1.0.0\",\
         \"event\":\"tip_reclaimed\",\"data\":[{\"platform\":\"twitter\",\
         \"handle\":\"bob456\",\"amount\":\"5\",\"token_type\":\"NFT\",\
         \"tipper\":\"alice.near\"}]}"
    );
}

#[test]
fn event_rendering_escapes_json_strings() {
    let line = log_account_linked_event("t\"w", "a\\b", "x\u{1}y");
    assert_eq!(
        line,
        "EVENT_JSON:{\"standard\":\"claim_protocol\",\"version\":\"1.0.0\",\
         \"event\":\"account_linked\",\"data\":[{\"platform\":\"t\\\"w\",\
         \"handle\":\"a\\\\b\",\"account_id\":\"x\\u0001y\"}]}"
    );
    let line = log_account_linked_event("a\nb", "c\u{1f}d", "ok");
    assert_eq!(
        line,
        "EVENT_JSON:{\"standard\":\"claim_protocol\",\"version\":\"1.0.0\",\
         \"event\":\"account_linked\",\"data\":[{\"platform\":\"a\\u000ab\",\
         \"handle\":\"c\\u001fd\",\"account_id\":\"ok\"}]}"
    );
}

#[test]
fn render_event_matches_direct_rendering() {
    let e = Event::TipTransferred {
        platform: s("twitter"),
        handle: s("bob456"),
        amount: 12,
        token_type: s("NEAR"),
        recipient: s("bob.near"),
    };
    assert_eq!(
        render_event(&e),
        log_tip_transferred_event("twitter", "bob456", 12, "NEAR", "bob.near")
    );
    let e = Event::AccountLinked {
        platform: s("twitter"),
        handle: s("alice123"),
        account_id: s("alice.near"),
    };
    assert_eq!(
        render_event(&e),
        log_account_linked_event("twitter", "alice123", "alice.near")
    );
}

#[test]
fn rendered_claims_show_their_asset() {
    let near_claim = Claim::new_near(s("alice.near"), 42, 100);
    let e = format_claim(&1, &near_claim);
    assert_eq!(e.id, 1);
    assert_eq!(e.claim_type, "Near");
    assert_eq!(e.amount, 42);
    assert_eq!(e.tipper, "alice.near");
    assert_eq!(e.timestamp, 100);
    assert_eq!(e.expires_at, 100 + claim_protocol::CLAIM_EXPIRATION_PERIOD);
    assert!(!e.claimed);

    let ft_claim = Claim::new_ft(s("alice.near"), s("token.near"), 7, 100);
    assert_eq!(format_claim(&2, &ft_claim).claim_type, "FT(token.near)");

    let nft_claim = Claim::new_nft(s("alice.near"), s("nft.near"), s("id-9"), 100);
    let e = format_claim(&3, &nft_claim);
    assert_eq!(e.claim_type, "NFT(nft.near, id-9)");
    assert_eq!(e.amount, 0);
}

#[test]
fn claim_expiry_boundary() {
    let c = Claim::new_near(s("alice.near"), 1, 1000);
    let deadline = 1000 + claim_protocol::CLAIM_EXPIRATION_PERIOD;
    assert!(!c.is_expired(deadline - 1));
    assert!(c.is_expired(deadline));
    assert!(c.is_expired(deadline + 1));
    assert_eq!(c.token_type(), "NEAR");
    assert_eq!(c.amount(), 1);
    assert_eq!(c.tipper(), "alice.near");
    let f = Claim::new_ft(s("a"), s("t"), 1, 0);
    assert_eq!(f.token_type(), "FT");
    let n = Claim::new_nft(s("a"), s("t"), s("i"), 0);
    assert_eq!(n.token_type(), "NFT");
}

#[test]
fn unicode_handles_survive_canonicalization() {
    let sh = SocialHandle::new(s("Täst"), s("Übér"));
    assert_eq!(sh.platform, "täst");
    assert_eq!(sh.handle, "übér");
    assert_eq!(sh.to_string(), "4:tästübér");
}
