use crate::text::{append_escaped, dec_seq, escape_seq, u128_to_dec};
use vstd::prelude::*;
use vstd::string::StringExecFns;

verus! {

/// The five structured notifications the coordinator emits; off-chain
/// observers consume them in the byte-stable JSON line each `log_*` function
/// renders.
#[derive(Debug)]
pub enum Event {
    AccountLinked { platform: String, handle: String, account_id: String },
    TipTransferred {
        platform: String,
        handle: String,
        amount: u128,
        token_type: String,
        recipient: String,
    },
    ClaimCreated {
        platform: String,
        handle: String,
        amount: u128,
        token_type: String,
        tipper: String,
    },
    ClaimProcessed {
        platform: String,
        handle: String,
        amount: u128,
        token_type: String,
        claimer: String,
    },
    TipReclaimed {
        platform: String,
        handle: String,
        amount: u128,
        token_type: String,
        tipper: String,
    },
}

pub open spec fn is_account_linked(
    e: Event,
    platform: Seq<char>,
    handle: Seq<char>,
    account_id: Seq<char>,
) -> bool {
    e matches Event::AccountLinked { platform: p, handle: h, account_id: a } && p@ == platform && h@
        == handle && a@ == account_id
}

pub open spec fn is_tip_transferred(
    e: Event,
    platform: Seq<char>,
    handle: Seq<char>,
    amount: u128,
    token_type: Seq<char>,
    recipient: Seq<char>,
) -> bool {
    e matches Event::TipTransferred { platform: p, handle: h, amount: a, token_type: t, recipient: r }
        && p@ == platform && h@ == handle && a == amount && t@ == token_type && r@ == recipient
}

pub open spec fn is_claim_created(
    e: Event,
    platform: Seq<char>,
    handle: Seq<char>,
    amount: u128,
    token_type: Seq<char>,
    tipper: Seq<char>,
) -> bool {
    e matches Event::ClaimCreated { platform: p, handle: h, amount: a, token_type: t, tipper: ti }
        && p@ == platform && h@ == handle && a == amount && t@ == token_type && ti@ == tipper
}

pub open spec fn is_claim_processed(
    e: Event,
    platform: Seq<char>,
    handle: Seq<char>,
    amount: u128,
    token_type: Seq<char>,
    claimer: Seq<char>,
) -> bool {
    e matches Event::ClaimProcessed { platform: p, handle: h, amount: a, token_type: t, claimer: c }
        && p@ == platform && h@ == handle && a == amount && t@ == token_type && c@ == claimer
}

pub open spec fn is_tip_reclaimed(
    e: Event,
    platform: Seq<char>,
    handle: Seq<char>,
    amount: u128,
    token_type: Seq<char>,
    tipper: Seq<char>,
) -> bool {
    e matches Event::TipReclaimed { platform: p, handle: h, amount: a, token_type: t, tipper: ti }
        && p@ == platform && h@ == handle && a == amount && t@ == token_type && ti@ == tipper
}

/// A JSON string literal holding `s`.
pub open spec fn json_str_lit(s: Seq<char>) -> Seq<char> {
    seq!['"'] + escape_seq(s) + seq!['"']
}

/// The notification line for a committed identity link.
pub open spec fn account_linked_json(
    platform: Seq<char>,
    handle: Seq<char>,
    account_id: Seq<char>,
) -> Seq<char> {
    "EVENT_JSON:{\"standard\":\"claim_protocol\",\"version\":\"1.0.0\",\"event\":\"account_linked\",\"data\":[{\"platform\":"@
        + json_str_lit(platform) + ",\"handle\":"@ + json_str_lit(handle) + ",\"account_id\":"@
        + json_str_lit(account_id) + "}]}"@
}

/// The common notification line of the four amount-carrying events: the named
/// event, the handle, the amount as a decimal string, the asset tag, and one
/// trailing account field.
pub open spec fn amount_event_json(
    event_name: Seq<char>,
    platform: Seq<char>,
    handle: Seq<char>,
    amount: u128,
    token_type: Seq<char>,
    field_name: Seq<char>,
    account: Seq<char>,
) -> Seq<char> {
    "EVENT_JSON:{\"standard\":\"claim_protocol\",\"version\":\"1.0.0\",\"event\":\""@ + event_name
        + "\",\"data\":[{\"platform\":"@ + json_str_lit(platform) + ",\"handle\":"@ + json_str_lit(
        handle,
    ) + ",\"amount\":\""@ + dec_seq(amount as nat) + "\",\"token_type\":"@ + json_str_lit(
        token_type,
    ) + ",\""@ + field_name + "\":"@ + json_str_lit(account) + "}]}"@
}

pub open spec fn tip_transferred_json(
    platform: Seq<char>,
    handle: Seq<char>,
    amount: u128,
    token_type: Seq<char>,
    recipient: Seq<char>,
) -> Seq<char> {
    amount_event_json(
        "tip_transferred"@,
        platform,
        handle,
        amount,
        token_type,
        "recipient"@,
        recipient,
    )
}

pub open spec fn claim_created_json(
    platform: Seq<char>,
    handle: Seq<char>,
    amount: u128,
    token_type: Seq<char>,
    tipper: Seq<char>,
) -> Seq<char> {
    amount_event_json("claim_created"@, platform, handle, amount, token_type, "tipper"@, tipper)
}

pub open spec fn claim_processed_json(
    platform: Seq<char>,
    handle: Seq<char>,
    amount: u128,
    token_type: Seq<char>,
    claimer: Seq<char>,
) -> Seq<char> {
    amount_event_json("claim_processed"@, platform, handle, amount, token_type, "claimer"@, claimer)
}

pub open spec fn tip_reclaimed_json(
    platform: Seq<char>,
    handle: Seq<char>,
    amount: u128,
    token_type: Seq<char>,
    tipper: Seq<char>,
) -> Seq<char> {
    amount_event_json("tip_reclaimed"@, platform, handle, amount, token_type, "tipper"@, tipper)
}

/// Appends a JSON string literal holding `s`.
fn append_json_string(out: &mut String, s: &str)
    ensures
        final(out)@ == old(out)@ + json_str_lit(s@),
{
    out.append("\"");
    append_escaped(out, s);
    out.append("\"");
    proof {
        reveal_strlit("\"");
        assert(out@ =~= old(out)@ + json_str_lit(s@));
    }
}

fn render_amount_event(
    event_name: &str,
    platform: &str,
    handle: &str,
    amount: u128,
    token_type: &str,
    field_name: &str,
    account: &str,
) -> (r: String)
    ensures
        r@ == amount_event_json(
            event_name@,
            platform@,
            handle@,
            amount,
            token_type@,
            field_name@,
            account@,
        ),
{
    let mut r = String::from_str(
        "EVENT_JSON:{\"standard\":\"claim_protocol\",\"version\":\"1.0.0\",\"event\":\"",
    );
    r.append(event_name);
    r.append("\",\"data\":[{\"platform\":");
    append_json_string(&mut r, platform);
    r.append(",\"handle\":");
    append_json_string(&mut r, handle);
    r.append(",\"amount\":\"");
    let amount_text = u128_to_dec(amount);
    r.append(amount_text.as_str());
    r.append("\",\"token_type\":");
    append_json_string(&mut r, token_type);
    r.append(",\"");
    r.append(field_name);
    r.append("\":");
    append_json_string(&mut r, account);
    r.append("}]}");
    proof {
        assert(r@ =~= amount_event_json(
            event_name@,
            platform@,
            handle@,
            amount,
            token_type@,
            field_name@,
            account@,
        ));
    }
    r
}

/// The notification line for a committed identity link.
pub fn log_account_linked_event(platform: &str, handle: &str, account_id: &str) -> (r: String)
    ensures
        r@ == account_linked_json(platform@, handle@, account_id@),
{
    let mut r = String::from_str(
        "EVENT_JSON:{\"standard\":\"claim_protocol\",\"version\":\"1.0.0\",\"event\":\"account_linked\",\"data\":[{\"platform\":",
    );
    append_json_string(&mut r, platform);
    r.append(",\"handle\":");
    append_json_string(&mut r, handle);
    r.append(",\"account_id\":");
    append_json_string(&mut r, account_id);
    r.append("}]}");
    proof {
        assert(r@ =~= account_linked_json(platform@, handle@, account_id@));
    }
    r
}

/// The notification line for a deposit forwarded directly to a linked owner.
pub fn log_tip_transferred_event(
    platform: &str,
    handle: &str,
    amount: u128,
    token_type: &str,
    recipient: &str,
) -> (r: String)
    ensures
        r@ == tip_transferred_json(platform@, handle@, amount, token_type@, recipient@),
{
    render_amount_event("tip_transferred", platform, handle, amount, token_type, "recipient", recipient)
}

/// The notification line for a newly escrowed claim.
pub fn log_claim_created_event(
    platform: &str,
    handle: &str,
    amount: u128,
    token_type: &str,
    tipper: &str,
) -> (r: String)
    ensures
        r@ == claim_created_json(platform@, handle@, amount, token_type@, tipper@),
{
    render_amount_event("claim_created", platform, handle, amount, token_type, "tipper", tipper)
}

/// The notification line for a settled claim.
pub fn log_claim_processed_event(
    platform: &str,
    handle: &str,
    amount: u128,
    token_type: &str,
    claimer: &str,
) -> (r: String)
    ensures
        r@ == claim_processed_json(platform@, handle@, amount, token_type@, claimer@),
{
    render_amount_event("claim_processed", platform, handle, amount, token_type, "claimer", claimer)
}

/// The notification line for a reclaimed claim.
pub fn log_tip_reclaimed_event(
    platform: &str,
    handle: &str,
    amount: u128,
    token_type: &str,
    tipper: &str,
) -> (r: String)
    ensures
        r@ == tip_reclaimed_json(platform@, handle@, amount, token_type@, tipper@),
{
    render_amount_event("tip_reclaimed", platform, handle, amount, token_type, "tipper", tipper)
}

/// The notification line of any event value.
pub open spec fn event_json(e: Event) -> Seq<char> {
    match e {
        Event::AccountLinked { platform, handle, account_id } => account_linked_json(
            platform@,
            handle@,
            account_id@,
        ),
        Event::TipTransferred { platform, handle, amount, token_type, recipient } => tip_transferred_json(
            platform@,
            handle@,
            amount,
            token_type@,
            recipient@,
        ),
        Event::ClaimCreated { platform, handle, amount, token_type, tipper } => claim_created_json(
            platform@,
            handle@,
            amount,
            token_type@,
            tipper@,
        ),
        Event::ClaimProcessed { platform, handle, amount, token_type, claimer } => claim_processed_json(
            platform@,
            handle@,
            amount,
            token_type@,
            claimer@,
        ),
        Event::TipReclaimed { platform, handle, amount, token_type, tipper } => tip_reclaimed_json(
            platform@,
            handle@,
            amount,
            token_type@,
            tipper@,
        ),
    }
}

/// Renders any event value as the line an observer reads.
pub fn render_event(e: &Event) -> (r: String)
    ensures
        r@ == event_json(*e),
{
    match e {
        Event::AccountLinked { platform, handle, account_id } => log_account_linked_event(
            platform.as_str(),
            handle.as_str(),
            account_id.as_str(),
        ),
        Event::TipTransferred { platform, handle, amount, token_type, recipient } => log_tip_transferred_event(
            platform.as_str(),
            handle.as_str(),
            *amount,
            token_type.as_str(),
            recipient.as_str(),
        ),
        Event::ClaimCreated { platform, handle, amount, token_type, tipper } => log_claim_created_event(
            platform.as_str(),
            handle.as_str(),
            *amount,
            token_type.as_str(),
            tipper.as_str(),
        ),
        Event::ClaimProcessed { platform, handle, amount, token_type, claimer } => log_claim_processed_event(
            platform.as_str(),
            handle.as_str(),
            *amount,
            token_type.as_str(),
            claimer.as_str(),
        ),
        Event::TipReclaimed { platform, handle, amount, token_type, tipper } => log_tip_reclaimed_event(
            platform.as_str(),
            handle.as_str(),
            *amount,
            token_type.as_str(),
            tipper.as_str(),
        ),
    }
}

} // verus!
