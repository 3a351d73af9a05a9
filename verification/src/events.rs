use vstd::prelude::*;
use vstd::string::StringSliceAdditionalSpecFns;

use vstd::seq_lib::lemma_concat_associative;

use crate::amount::{Amount, Shares};
use crate::canon::{dec, json_hex, json_text, lit, push_dec, push_json_hex, push_json_str, push_lit};
use crate::error::KeystoneResult;
use crate::ids::{
    parts_digest, parts_view, u32_be, u32_be_vec, u64_be, u64_be_vec, AccountId, Digest, LoanId, TxId, VaultId,
    TX_DOMAIN,
};
use crate::time::Epoch;

verus! {

pub const JOURNAL_GENESIS_DOMAIN: &'static str = "keystonexdtl-journal-genesis-v1";

pub const EVENT_STATE_DOMAIN: &'static str = "keystonexdtl-event-state-v1";

/// The kind under which an event's transaction identity is derived.
pub const EVENT_TX_KIND: &'static str = "event";

/// What happened in the engine.
#[derive(Clone, Debug, PartialEq, Eq)]
pub enum EventKind {
    EngineInitialized { network_id: u32, epoch: Epoch },
    VaultRegistered { vault: VaultId, role: String },
    AccountDeposited { vault: VaultId, owner: AccountId, amount: Amount, shares: Shares },
    AccountRedeemed { vault: VaultId, owner: AccountId, amount: Amount, shares: Shares },
    LoanOpened { loan: LoanId, lender: VaultId, borrower: VaultId, principal: Amount, projected_interest: Amount },
    LoanRepaid { loan: LoanId, payer: VaultId, principal: Amount, interest: Amount, mode: String },
    CollateralReleased { loan: LoanId, borrower: VaultId, amount: Amount },
    LoanDefaulted { loan: LoanId, overdue_epochs: u64 },
    LoanLiquidated { loan: LoanId, seized: Amount, shortfall: Amount },
    InterestDistributed { vault: VaultId, amount: Amount, recipients: usize },
    EpochAdvanced { from: Epoch, to: Epoch },
    PolicyUpdated { digest: Digest },
    InvariantChecked { digest: Digest },
}

/// The canonical JSON text of an event kind: an object tagged by the kind's snake-case name
/// under `type`, then its fields in declaration order.
pub open spec fn json_event_kind(kind: EventKind) -> Seq<u8> {
    match kind {
        EventKind::EngineInitialized { network_id, epoch } => lit("{\"type\":\"engine_initialized\",\"network_id\":") + dec(network_id as nat) + lit(",\"epoch\":") + dec(epoch.0 as nat) + lit("}"),
        EventKind::VaultRegistered { vault, role } => lit("{\"type\":\"vault_registered\",\"vault\":") + json_hex(vault.0.0@) + lit(",\"role\":") + json_text(role@) + lit("}"),
        EventKind::AccountDeposited { vault, owner, amount, shares } => lit("{\"type\":\"account_deposited\",\"vault\":") + json_hex(vault.0.0@) + lit(",\"owner\":") + json_hex(owner.0.0@) + lit(",\"amount\":") + dec(amount.0 as nat) + lit(",\"shares\":") + dec(shares.0 as nat) + lit("}"),
        EventKind::AccountRedeemed { vault, owner, amount, shares } => lit("{\"type\":\"account_redeemed\",\"vault\":") + json_hex(vault.0.0@) + lit(",\"owner\":") + json_hex(owner.0.0@) + lit(",\"amount\":") + dec(amount.0 as nat) + lit(",\"shares\":") + dec(shares.0 as nat) + lit("}"),
        EventKind::LoanOpened { loan, lender, borrower, principal, projected_interest } => lit("{\"type\":\"loan_opened\",\"loan\":") + json_hex(loan.0.0@) + lit(",\"lender\":") + json_hex(lender.0.0@) + lit(",\"borrower\":") + json_hex(borrower.0.0@) + lit(",\"principal\":") + dec(principal.0 as nat) + lit(",\"projected_interest\":") + dec(projected_interest.0 as nat) + lit("}"),
        EventKind::LoanRepaid { loan, payer, principal, interest, mode } => lit("{\"type\":\"loan_repaid\",\"loan\":") + json_hex(loan.0.0@) + lit(",\"payer\":") + json_hex(payer.0.0@) + lit(",\"principal\":") + dec(principal.0 as nat) + lit(",\"interest\":") + dec(interest.0 as nat) + lit(",\"mode\":") + json_text(mode@) + lit("}"),
        EventKind::CollateralReleased { loan, borrower, amount } => lit("{\"type\":\"collateral_released\",\"loan\":") + json_hex(loan.0.0@) + lit(",\"borrower\":") + json_hex(borrower.0.0@) + lit(",\"amount\":") + dec(amount.0 as nat) + lit("}"),
        EventKind::LoanDefaulted { loan, overdue_epochs } => lit("{\"type\":\"loan_defaulted\",\"loan\":") + json_hex(loan.0.0@) + lit(",\"overdue_epochs\":") + dec(overdue_epochs as nat) + lit("}"),
        EventKind::LoanLiquidated { loan, seized, shortfall } => lit("{\"type\":\"loan_liquidated\",\"loan\":") + json_hex(loan.0.0@) + lit(",\"seized\":") + dec(seized.0 as nat) + lit(",\"shortfall\":") + dec(shortfall.0 as nat) + lit("}"),
        EventKind::InterestDistributed { vault, amount, recipients } => lit("{\"type\":\"interest_distributed\",\"vault\":") + json_hex(vault.0.0@) + lit(",\"amount\":") + dec(amount.0 as nat) + lit(",\"recipients\":") + dec(recipients as nat) + lit("}"),
        EventKind::EpochAdvanced { from, to } => lit("{\"type\":\"epoch_advanced\",\"from\":") + dec(from.0 as nat) + lit(",\"to\":") + dec(to.0 as nat) + lit("}"),
        EventKind::PolicyUpdated { digest } => lit("{\"type\":\"policy_updated\",\"digest\":") + json_hex(digest.0@) + lit("}"),
        EventKind::InvariantChecked { digest } => lit("{\"type\":\"invariant_checked\",\"digest\":") + json_hex(digest.0@) + lit("}"),
    }
}

pub fn write_event_kind(out: &mut Vec<u8>, kind: &EventKind)
    ensures
        final(out)@ == old(out)@ + json_event_kind(*kind),
{
    let ghost start = out@;
    match kind {
        EventKind::EngineInitialized { network_id, epoch } => {
            push_lit(out, "{\"type\":\"engine_initialized\",\"network_id\":");
            let ghost mut acc: Seq<u8> = lit("{\"type\":\"engine_initialized\",\"network_id\":");
            push_dec(out, *network_id as u128);
            proof {
                lemma_concat_associative(start, acc, dec(*network_id as nat));
                acc = acc + dec(*network_id as nat);
            }
            push_lit(out, ",\"epoch\":");
            proof {
                lemma_concat_associative(start, acc, lit(",\"epoch\":"));
                acc = acc + lit(",\"epoch\":");
            }
            push_dec(out, epoch.0 as u128);
            proof {
                lemma_concat_associative(start, acc, dec(epoch.0 as nat));
                acc = acc + dec(epoch.0 as nat);
            }
            push_lit(out, "}");
            proof {
                lemma_concat_associative(start, acc, lit("}"));
                acc = acc + lit("}");
            }
            assert(out@ == start + acc);
        },
        EventKind::VaultRegistered { vault, role } => {
            push_lit(out, "{\"type\":\"vault_registered\",\"vault\":");
            let ghost mut acc: Seq<u8> = lit("{\"type\":\"vault_registered\",\"vault\":");
            push_json_hex(out, &vault.0.0);
            proof {
                lemma_concat_associative(start, acc, json_hex(vault.0.0@));
                acc = acc + json_hex(vault.0.0@);
            }
            push_lit(out, ",\"role\":");
            proof {
                lemma_concat_associative(start, acc, lit(",\"role\":"));
                acc = acc + lit(",\"role\":");
            }
            push_json_str(out, role.as_str());
            proof {
                lemma_concat_associative(start, acc, json_text(role@));
                acc = acc + json_text(role@);
            }
            push_lit(out, "}");
            proof {
                lemma_concat_associative(start, acc, lit("}"));
                acc = acc + lit("}");
            }
            assert(out@ == start + acc);
        },
        EventKind::AccountDeposited { vault, owner, amount, shares } => {
            push_lit(out, "{\"type\":\"account_deposited\",\"vault\":");
            let ghost mut acc: Seq<u8> = lit("{\"type\":\"account_deposited\",\"vault\":");
            push_json_hex(out, &vault.0.0);
            proof {
                lemma_concat_associative(start, acc, json_hex(vault.0.0@));
                acc = acc + json_hex(vault.0.0@);
            }
            push_lit(out, ",\"owner\":");
            proof {
                lemma_concat_associative(start, acc, lit(",\"owner\":"));
                acc = acc + lit(",\"owner\":");
            }
            push_json_hex(out, &owner.0.0);
            proof {
                lemma_concat_associative(start, acc, json_hex(owner.0.0@));
                acc = acc + json_hex(owner.0.0@);
            }
            push_lit(out, ",\"amount\":");
            proof {
                lemma_concat_associative(start, acc, lit(",\"amount\":"));
                acc = acc + lit(",\"amount\":");
            }
            push_dec(out, amount.0 as u128);
            proof {
                lemma_concat_associative(start, acc, dec(amount.0 as nat));
                acc = acc + dec(amount.0 as nat);
            }
            push_lit(out, ",\"shares\":");
            proof {
                lemma_concat_associative(start, acc, lit(",\"shares\":"));
                acc = acc + lit(",\"shares\":");
            }
            push_dec(out, shares.0 as u128);
            proof {
                lemma_concat_associative(start, acc, dec(shares.0 as nat));
                acc = acc + dec(shares.0 as nat);
            }
            push_lit(out, "}");
            proof {
                lemma_concat_associative(start, acc, lit("}"));
                acc = acc + lit("}");
            }
            assert(out@ == start + acc);
        },
        EventKind::AccountRedeemed { vault, owner, amount, shares } => {
            push_lit(out, "{\"type\":\"account_redeemed\",\"vault\":");
            let ghost mut acc: Seq<u8> = lit("{\"type\":\"account_redeemed\",\"vault\":");
            push_json_hex(out, &vault.0.0);
            proof {
                lemma_concat_associative(start, acc, json_hex(vault.0.0@));
                acc = acc + json_hex(vault.0.0@);
            }
            push_lit(out, ",\"owner\":");
            proof {
                lemma_concat_associative(start, acc, lit(",\"owner\":"));
                acc = acc + lit(",\"owner\":");
            }
            push_json_hex(out, &owner.0.0);
            proof {
                lemma_concat_associative(start, acc, json_hex(owner.0.0@));
                acc = acc + json_hex(owner.0.0@);
            }
            push_lit(out, ",\"amount\":");
            proof {
                lemma_concat_associative(start, acc, lit(",\"amount\":"));
                acc = acc + lit(",\"amount\":");
            }
            push_dec(out, amount.0 as u128);
            proof {
                lemma_concat_associative(start, acc, dec(amount.0 as nat));
                acc = acc + dec(amount.0 as nat);
            }
            push_lit(out, ",\"shares\":");
            proof {
                lemma_concat_associative(start, acc, lit(",\"shares\":"));
                acc = acc + lit(",\"shares\":");
            }
            push_dec(out, shares.0 as u128);
            proof {
                lemma_concat_associative(start, acc, dec(shares.0 as nat));
                acc = acc + dec(shares.0 as nat);
            }
            push_lit(out, "}");
            proof {
                lemma_concat_associative(start, acc, lit("}"));
                acc = acc + lit("}");
            }
            assert(out@ == start + acc);
        },
        EventKind::LoanOpened { loan, lender, borrower, principal, projected_interest } => {
            push_lit(out, "{\"type\":\"loan_opened\",\"loan\":");
            let ghost mut acc: Seq<u8> = lit("{\"type\":\"loan_opened\",\"loan\":");
            push_json_hex(out, &loan.0.0);
            proof {
                lemma_concat_associative(start, acc, json_hex(loan.0.0@));
                acc = acc + json_hex(loan.0.0@);
            }
            push_lit(out, ",\"lender\":");
            proof {
                lemma_concat_associative(start, acc, lit(",\"lender\":"));
                acc = acc + lit(",\"lender\":");
            }
            push_json_hex(out, &lender.0.0);
            proof {
                lemma_concat_associative(start, acc, json_hex(lender.0.0@));
                acc = acc + json_hex(lender.0.0@);
            }
            push_lit(out, ",\"borrower\":");
            proof {
                lemma_concat_associative(start, acc, lit(",\"borrower\":"));
                acc = acc + lit(",\"borrower\":");
            }
            push_json_hex(out, &borrower.0.0);
            proof {
                lemma_concat_associative(start, acc, json_hex(borrower.0.0@));
                acc = acc + json_hex(borrower.0.0@);
            }
            push_lit(out, ",\"principal\":");
            proof {
                lemma_concat_associative(start, acc, lit(",\"principal\":"));
                acc = acc + lit(",\"principal\":");
            }
            push_dec(out, principal.0 as u128);
            proof {
                lemma_concat_associative(start, acc, dec(principal.0 as nat));
                acc = acc + dec(principal.0 as nat);
            }
            push_lit(out, ",\"projected_interest\":");
            proof {
                lemma_concat_associative(start, acc, lit(",\"projected_interest\":"));
                acc = acc + lit(",\"projected_interest\":");
            }
            push_dec(out, projected_interest.0 as u128);
            proof {
                lemma_concat_associative(start, acc, dec(projected_interest.0 as nat));
                acc = acc + dec(projected_interest.0 as nat);
            }
            push_lit(out, "}");
            proof {
                lemma_concat_associative(start, acc, lit("}"));
                acc = acc + lit("}");
            }
            assert(out@ == start + acc);
        },
        EventKind::LoanRepaid { loan, payer, principal, interest, mode } => {
            push_lit(out, "{\"type\":\"loan_repaid\",\"loan\":");
            let ghost mut acc: Seq<u8> = lit("{\"type\":\"loan_repaid\",\"loan\":");
            push_json_hex(out, &loan.0.0);
            proof {
                lemma_concat_associative(start, acc, json_hex(loan.0.0@));
                acc = acc + json_hex(loan.0.0@);
            }
            push_lit(out, ",\"payer\":");
            proof {
                lemma_concat_associative(start, acc, lit(",\"payer\":"));
                acc = acc + lit(",\"payer\":");
            }
            push_json_hex(out, &payer.0.0);
            proof {
                lemma_concat_associative(start, acc, json_hex(payer.0.0@));
                acc = acc + json_hex(payer.0.0@);
            }
            push_lit(out, ",\"principal\":");
            proof {
                lemma_concat_associative(start, acc, lit(",\"principal\":"));
                acc = acc + lit(",\"principal\":");
            }
            push_dec(out, principal.0 as u128);
            proof {
                lemma_concat_associative(start, acc, dec(principal.0 as nat));
                acc = acc + dec(principal.0 as nat);
            }
            push_lit(out, ",\"interest\":");
            proof {
                lemma_concat_associative(start, acc, lit(",\"interest\":"));
                acc = acc + lit(",\"interest\":");
            }
            push_dec(out, interest.0 as u128);
            proof {
                lemma_concat_associative(start, acc, dec(interest.0 as nat));
                acc = acc + dec(interest.0 as nat);
            }
            push_lit(out, ",\"mode\":");
            proof {
                lemma_concat_associative(start, acc, lit(",\"mode\":"));
                acc = acc + lit(",\"mode\":");
            }
            push_json_str(out, mode.as_str());
            proof {
                lemma_concat_associative(start, acc, json_text(mode@));
                acc = acc + json_text(mode@);
            }
            push_lit(out, "}");
            proof {
                lemma_concat_associative(start, acc, lit("}"));
                acc = acc + lit("}");
            }
            assert(out@ == start + acc);
        },
        EventKind::CollateralReleased { loan, borrower, amount } => {
            push_lit(out, "{\"type\":\"collateral_released\",\"loan\":");
            let ghost mut acc: Seq<u8> = lit("{\"type\":\"collateral_released\",\"loan\":");
            push_json_hex(out, &loan.0.0);
            proof {
                lemma_concat_associative(start, acc, json_hex(loan.0.0@));
                acc = acc + json_hex(loan.0.0@);
            }
            push_lit(out, ",\"borrower\":");
            proof {
                lemma_concat_associative(start, acc, lit(",\"borrower\":"));
                acc = acc + lit(",\"borrower\":");
            }
            push_json_hex(out, &borrower.0.0);
            proof {
                lemma_concat_associative(start, acc, json_hex(borrower.0.0@));
                acc = acc + json_hex(borrower.0.0@);
            }
            push_lit(out, ",\"amount\":");
            proof {
                lemma_concat_associative(start, acc, lit(",\"amount\":"));
                acc = acc + lit(",\"amount\":");
            }
            push_dec(out, amount.0 as u128);
            proof {
                lemma_concat_associative(start, acc, dec(amount.0 as nat));
                acc = acc + dec(amount.0 as nat);
            }
            push_lit(out, "}");
            proof {
                lemma_concat_associative(start, acc, lit("}"));
                acc = acc + lit("}");
            }
            assert(out@ == start + acc);
        },
        EventKind::LoanDefaulted { loan, overdue_epochs } => {
            push_lit(out, "{\"type\":\"loan_defaulted\",\"loan\":");
            let ghost mut acc: Seq<u8> = lit("{\"type\":\"loan_defaulted\",\"loan\":");
            push_json_hex(out, &loan.0.0);
            proof {
                lemma_concat_associative(start, acc, json_hex(loan.0.0@));
                acc = acc + json_hex(loan.0.0@);
            }
            push_lit(out, ",\"overdue_epochs\":");
            proof {
                lemma_concat_associative(start, acc, lit(",\"overdue_epochs\":"));
                acc = acc + lit(",\"overdue_epochs\":");
            }
            push_dec(out, *overdue_epochs as u128);
            proof {
                lemma_concat_associative(start, acc, dec(*overdue_epochs as nat));
                acc = acc + dec(*overdue_epochs as nat);
            }
            push_lit(out, "}");
            proof {
                lemma_concat_associative(start, acc, lit("}"));
                acc = acc + lit("}");
            }
            assert(out@ == start + acc);
        },
        EventKind::LoanLiquidated { loan, seized, shortfall } => {
            push_lit(out, "{\"type\":\"loan_liquidated\",\"loan\":");
            let ghost mut acc: Seq<u8> = lit("{\"type\":\"loan_liquidated\",\"loan\":");
            push_json_hex(out, &loan.0.0);
            proof {
                lemma_concat_associative(start, acc, json_hex(loan.0.0@));
                acc = acc + json_hex(loan.0.0@);
            }
            push_lit(out, ",\"seized\":");
            proof {
                lemma_concat_associative(start, acc, lit(",\"seized\":"));
                acc = acc + lit(",\"seized\":");
            }
            push_dec(out, seized.0 as u128);
            proof {
                lemma_concat_associative(start, acc, dec(seized.0 as nat));
                acc = acc + dec(seized.0 as nat);
            }
            push_lit(out, ",\"shortfall\":");
            proof {
                lemma_concat_associative(start, acc, lit(",\"shortfall\":"));
                acc = acc + lit(",\"shortfall\":");
            }
            push_dec(out, shortfall.0 as u128);
            proof {
                lemma_concat_associative(start, acc, dec(shortfall.0 as nat));
                acc = acc + dec(shortfall.0 as nat);
            }
            push_lit(out, "}");
            proof {
                lemma_concat_associative(start, acc, lit("}"));
                acc = acc + lit("}");
            }
            assert(out@ == start + acc);
        },
        EventKind::InterestDistributed { vault, amount, recipients } => {
            push_lit(out, "{\"type\":\"interest_distributed\",\"vault\":");
            let ghost mut acc: Seq<u8> = lit("{\"type\":\"interest_distributed\",\"vault\":");
            push_json_hex(out, &vault.0.0);
            proof {
                lemma_concat_associative(start, acc, json_hex(vault.0.0@));
                acc = acc + json_hex(vault.0.0@);
            }
            push_lit(out, ",\"amount\":");
            proof {
                lemma_concat_associative(start, acc, lit(",\"amount\":"));
                acc = acc + lit(",\"amount\":");
            }
            push_dec(out, amount.0 as u128);
            proof {
                lemma_concat_associative(start, acc, dec(amount.0 as nat));
                acc = acc + dec(amount.0 as nat);
            }
            push_lit(out, ",\"recipients\":");
            proof {
                lemma_concat_associative(start, acc, lit(",\"recipients\":"));
                acc = acc + lit(",\"recipients\":");
            }
            push_dec(out, *recipients as u128);
            proof {
                lemma_concat_associative(start, acc, dec(*recipients as nat));
                acc = acc + dec(*recipients as nat);
            }
            push_lit(out, "}");
            proof {
                lemma_concat_associative(start, acc, lit("}"));
                acc = acc + lit("}");
            }
            assert(out@ == start + acc);
        },
        EventKind::EpochAdvanced { from, to } => {
            push_lit(out, "{\"type\":\"epoch_advanced\",\"from\":");
            let ghost mut acc: Seq<u8> = lit("{\"type\":\"epoch_advanced\",\"from\":");
            push_dec(out, from.0 as u128);
            proof {
                lemma_concat_associative(start, acc, dec(from.0 as nat));
                acc = acc + dec(from.0 as nat);
            }
            push_lit(out, ",\"to\":");
            proof {
                lemma_concat_associative(start, acc, lit(",\"to\":"));
                acc = acc + lit(",\"to\":");
            }
            push_dec(out, to.0 as u128);
            proof {
                lemma_concat_associative(start, acc, dec(to.0 as nat));
                acc = acc + dec(to.0 as nat);
            }
            push_lit(out, "}");
            proof {
                lemma_concat_associative(start, acc, lit("}"));
                acc = acc + lit("}");
            }
            assert(out@ == start + acc);
        },
        EventKind::PolicyUpdated { digest } => {
            push_lit(out, "{\"type\":\"policy_updated\",\"digest\":");
            let ghost mut acc: Seq<u8> = lit("{\"type\":\"policy_updated\",\"digest\":");
            push_json_hex(out, &digest.0);
            proof {
                lemma_concat_associative(start, acc, json_hex(digest.0@));
                acc = acc + json_hex(digest.0@);
            }
            push_lit(out, "}");
            proof {
                lemma_concat_associative(start, acc, lit("}"));
                acc = acc + lit("}");
            }
            assert(out@ == start + acc);
        },
        EventKind::InvariantChecked { digest } => {
            push_lit(out, "{\"type\":\"invariant_checked\",\"digest\":");
            let ghost mut acc: Seq<u8> = lit("{\"type\":\"invariant_checked\",\"digest\":");
            push_json_hex(out, &digest.0);
            proof {
                lemma_concat_associative(start, acc, json_hex(digest.0@));
                acc = acc + json_hex(digest.0@);
            }
            push_lit(out, "}");
            proof {
                lemma_concat_associative(start, acc, lit("}"));
                acc = acc + lit("}");
            }
            assert(out@ == start + acc);
        },
    }
}

/// One journal entry: its place, transaction identity, epoch, the state digest it leads to and
/// what happened.
#[derive(Clone, Debug, PartialEq, Eq)]
pub struct Event {
    pub sequence: u64,
    pub tx: TxId,
    pub epoch: Epoch,
    pub state_digest: Digest,
    pub kind: EventKind,
}

/// The state digest after an event: the previous digest chained with the event's sequence
/// number, epoch and the JSON text of its kind.
pub open spec fn event_digest(previous: Digest, sequence: u64, epoch: Epoch, kind: EventKind) -> Digest {
    parts_digest(
        EVENT_STATE_DOMAIN,
        seq![previous.0@, u64_be(sequence as int), u64_be(epoch.0 as int), json_event_kind(kind)],
    )
}

/// The transaction identity of the event with a sequence number and state digest.
pub open spec fn event_tx(sequence: u64, state_digest: Digest) -> TxId {
    TxId(parts_digest(TX_DOMAIN, seq![EVENT_TX_KIND.spec_bytes(), u64_be(sequence as int), state_digest.0@]))
}

/// The event that follows a state digest.
pub open spec fn event_after(previous: Digest, sequence: u64, epoch: Epoch, kind: EventKind) -> Event {
    let state_digest = event_digest(previous, sequence, epoch, kind);
    Event { sequence, tx: event_tx(sequence, state_digest), epoch, state_digest, kind }
}

/// The digest a journal starts from, before its first event.
pub open spec fn genesis_digest(network_id: u32, epoch: Epoch) -> Digest {
    parts_digest(JOURNAL_GENESIS_DOMAIN, seq![u32_be(network_id as int), u64_be(epoch.0 as int)])
}

/// The digest reached by chaining the events, one after another, onto `start`.
pub open spec fn chain_of(start: Digest, events: Seq<Event>) -> Digest
    decreases events.len(),
{
    if events.len() == 0 {
        start
    } else {
        let last = events.last();
        event_digest(chain_of(start, events.drop_last()), last.sequence, last.epoch, last.kind)
    }
}

/// Whether an event names a loan.
pub open spec fn names_loan(kind: EventKind, loan: LoanId) -> bool {
    match kind {
        EventKind::LoanOpened { loan: id, .. } => id == loan,
        EventKind::LoanRepaid { loan: id, .. } => id == loan,
        EventKind::CollateralReleased { loan: id, .. } => id == loan,
        EventKind::LoanDefaulted { loan: id, .. } => id == loan,
        EventKind::LoanLiquidated { loan: id, .. } => id == loan,
        _ => false,
    }
}

/// Whether an event names a vault: as the vault of an account or registration, a party of an
/// opened loan, the payer of a repayment or the borrower receiving collateral back.
pub open spec fn names_vault(kind: EventKind, vault: VaultId) -> bool {
    match kind {
        EventKind::VaultRegistered { vault: id, .. } => id == vault,
        EventKind::AccountDeposited { vault: id, .. } => id == vault,
        EventKind::AccountRedeemed { vault: id, .. } => id == vault,
        EventKind::InterestDistributed { vault: id, .. } => id == vault,
        EventKind::LoanOpened { lender, borrower, .. } => lender == vault || borrower == vault,
        EventKind::LoanRepaid { payer, .. } => payer == vault,
        EventKind::CollateralReleased { borrower, .. } => borrower == vault,
        _ => false,
    }
}

/// The events, in order, that name a loan.
pub open spec fn events_of_loan(events: Seq<Event>, loan: LoanId) -> Seq<Event>
    decreases events.len(),
{
    if events.len() == 0 {
        Seq::empty()
    } else {
        let prev = events_of_loan(events.drop_last(), loan);
        if names_loan(events.last().kind, loan) {
            prev.push(events.last())
        } else {
            prev
        }
    }
}

/// The events, in order, that name a vault.
pub open spec fn events_of_vault(events: Seq<Event>, vault: VaultId) -> Seq<Event>
    decreases events.len(),
{
    if events.len() == 0 {
        Seq::empty()
    } else {
        let prev = events_of_vault(events.drop_last(), vault);
        if names_vault(events.last().kind, vault) {
            prev.push(events.last())
        } else {
            prev
        }
    }
}

fn loan_named(kind: &EventKind, loan: LoanId) -> (r: bool)
    ensures
        r == names_loan(*kind, loan),
{
    match kind {
        EventKind::LoanOpened { loan: id, .. } => *id == loan,
        EventKind::LoanRepaid { loan: id, .. } => *id == loan,
        EventKind::CollateralReleased { loan: id, .. } => *id == loan,
        EventKind::LoanDefaulted { loan: id, .. } => *id == loan,
        EventKind::LoanLiquidated { loan: id, .. } => *id == loan,
        _ => false,
    }
}

fn vault_named(kind: &EventKind, vault: VaultId) -> (r: bool)
    ensures
        r == names_vault(*kind, vault),
{
    match kind {
        EventKind::VaultRegistered { vault: id, .. } => *id == vault,
        EventKind::AccountDeposited { vault: id, .. } => *id == vault,
        EventKind::AccountRedeemed { vault: id, .. } => *id == vault,
        EventKind::InterestDistributed { vault: id, .. } => *id == vault,
        EventKind::LoanOpened { lender, borrower, .. } => *lender == vault || *borrower == vault,
        EventKind::LoanRepaid { payer, .. } => *payer == vault,
        EventKind::CollateralReleased { borrower, .. } => *borrower == vault,
        _ => false,
    }
}

/// The state digest that follows `previous` after an event.
fn next_digest(previous: Digest, sequence: u64, epoch: Epoch, kind: &EventKind) -> (r: Digest)
    ensures
        r == event_digest(previous, sequence, epoch, *kind),
{
    let mut kind_bytes: Vec<u8> = Vec::new();
    write_event_kind(&mut kind_bytes, kind);
    assert(kind_bytes@ =~= json_event_kind(*kind));
    let s = u64_be_vec(sequence);
    let e = u64_be_vec(epoch.0);
    let p0 = s.as_slice();
    let p1 = e.as_slice();
    let p2 = kind_bytes.as_slice();
    let arr = [p0, p1, p2];
    assert(arr@ =~= seq![p0, p1, p2]);
    let r = previous.chain(EVENT_STATE_DOMAIN, arr.as_slice());
    assert(seq![previous.0@] + parts_view(seq![p0, p1, p2])
        =~= seq![previous.0@, u64_be(sequence as int), u64_be(epoch.0 as int), json_event_kind(*kind)]);
    r
}

impl Event {
    pub fn new(sequence: u64, epoch: Epoch, previous_digest: Digest, kind: EventKind) -> (r: KeystoneResult<Self>)
        ensures
            r == Ok::<Event, crate::error::KeystoneError>(event_after(previous_digest, sequence, epoch, kind)),
    {
        let state_digest = next_digest(previous_digest, sequence, epoch, &kind);
        let tx = TxId::derive(EVENT_TX_KIND, sequence, state_digest);
        Ok(Self { sequence, tx, epoch, state_digest, kind })
    }
}

/// The engine's append-only log of events, with the digest that chains them.
#[derive(Clone, Debug)]
pub struct Journal {
    events: Vec<Event>,
    digest: Digest,
}

impl Journal {
    pub closed spec fn spec_events(&self) -> Seq<Event> {
        self.events@
    }

    pub closed spec fn spec_digest(&self) -> Digest {
        self.digest
    }

    /// Each event carries its position as its sequence number.
    pub open spec fn wf(&self) -> bool {
        forall|i: int| 0 <= i < self.spec_events().len() ==> (#[trigger] self.spec_events()[i]).sequence == i
    }

    /// The journal's digest is what its events chain to from the genesis of a network and epoch.
    pub open spec fn replays_to(&self, network_id: u32, epoch: Epoch) -> bool {
        chain_of(genesis_digest(network_id, epoch), self.spec_events()) == self.spec_digest()
    }

    pub fn new(network_id: u32, epoch: Epoch) -> (r: KeystoneResult<Self>)
        ensures
            r matches Ok(j) && j.wf() && j.replays_to(network_id, epoch) && j.spec_events() == seq![
                event_after(genesis_digest(network_id, epoch), 0, epoch, EventKind::EngineInitialized { network_id, epoch }),
            ] && j.spec_digest() == j.spec_events()[0].state_digest,
    {
        let n = u32_be_vec(network_id);
        let e = u64_be_vec(epoch.0);
        let p0 = n.as_slice();
        let p1 = e.as_slice();
        let arr = [p0, p1];
        assert(arr@ =~= seq![p0, p1]);
        let initial = Digest::from_parts(JOURNAL_GENESIS_DOMAIN, arr.as_slice());
        assert(parts_view(seq![p0, p1]) =~= seq![u32_be(network_id as int), u64_be(epoch.0 as int)]);
        let mut journal = Self { events: Vec::new(), digest: initial };
        assert(journal.replays_to(network_id, epoch));
        journal.push(epoch, EventKind::EngineInitialized { network_id, epoch })?;
        assert(journal.spec_events() =~= seq![
            event_after(genesis_digest(network_id, epoch), 0, epoch, EventKind::EngineInitialized { network_id, epoch }),
        ]);
        Ok(journal)
    }

    pub fn push(&mut self, epoch: Epoch, kind: EventKind) -> (r: KeystoneResult<TxId>)
        ensures
            ({
                let event = event_after(old(self).spec_digest(), old(self).spec_events().len() as u64, epoch, kind);
                &&& final(self).spec_events() == old(self).spec_events().push(event)
                &&& final(self).spec_digest() == event.state_digest
                &&& r == Ok::<TxId, crate::error::KeystoneError>(event.tx)
            }),
            old(self).wf() ==> final(self).wf(),
            forall|network_id: u32, start: Epoch| #[trigger]
                old(self).replays_to(network_id, start) ==> final(self).replays_to(network_id, start),
    {
        let sequence = self.events.len() as u64;
        let event = Event::new(sequence, epoch, self.digest, kind)?;
        self.digest = event.state_digest;
        let tx = event.tx;
        let ghost before = self.events@;
        self.events.push(event);
        proof {
            assert(self.events@.drop_last() =~= before);
            assert forall|network_id: u32, start: Epoch| #[trigger]
                old(self).replays_to(network_id, start) implies self.replays_to(network_id, start) by {
                assert(self.spec_events().drop_last() =~= old(self).spec_events());
            }
        }
        Ok(tx)
    }

    pub fn len(&self) -> (r: usize)
        ensures
            r == self.spec_events().len(),
    {
        self.events.len()
    }

    pub fn is_empty(&self) -> (r: bool)
        ensures
            r == (self.spec_events().len() == 0),
    {
        self.events.len() == 0
    }

    pub fn digest(&self) -> (r: Digest)
        ensures
            r == self.spec_digest(),
    {
        self.digest
    }

    pub fn events(&self) -> (r: &[Event])
        ensures
            r@ == self.spec_events(),
    {
        self.events.as_slice()
    }

    pub fn last(&self) -> (r: Option<&Event>)
        ensures
            self.spec_events().len() == 0 ==> r is None,
            self.spec_events().len() > 0 ==> (r matches Some(e) && *e == self.spec_events().last()),
    {
        if self.events.len() == 0 {
            None
        } else {
            Some(&self.events[self.events.len() - 1])
        }
    }

    pub fn by_loan(&self, loan: LoanId) -> (r: Vec<&Event>)
        ensures
            r@.len() == events_of_loan(self.spec_events(), loan).len(),
            forall|i: int| 0 <= i < r@.len() ==> *(#[trigger] r@[i]) == events_of_loan(self.spec_events(), loan)[i],
    {
        let mut out: Vec<&Event> = Vec::new();
        let mut i: usize = 0;
        while i < self.events.len()
            invariant
                0 <= i <= self.events@.len(),
                out@.len() == events_of_loan(self.events@.take(i as int), loan).len(),
                forall|j: int| 0 <= j < out@.len() ==> *(#[trigger] out@[j]) == events_of_loan(self.events@.take(i as int), loan)[j],
            decreases self.events@.len() - i,
        {
            assert(self.events@.take(i as int + 1).drop_last() =~= self.events@.take(i as int));
            let event = &self.events[i];
            if loan_named(&event.kind, loan) {
                out.push(event);
            }
            i = i + 1;
        }
        assert(self.events@.take(self.events@.len() as int) =~= self.events@);
        out
    }

    pub fn by_vault(&self, vault: VaultId) -> (r: Vec<&Event>)
        ensures
            r@.len() == events_of_vault(self.spec_events(), vault).len(),
            forall|i: int| 0 <= i < r@.len() ==> *(#[trigger] r@[i]) == events_of_vault(self.spec_events(), vault)[i],
    {
        let mut out: Vec<&Event> = Vec::new();
        let mut i: usize = 0;
        while i < self.events.len()
            invariant
                0 <= i <= self.events@.len(),
                out@.len() == events_of_vault(self.events@.take(i as int), vault).len(),
                forall|j: int| 0 <= j < out@.len() ==> *(#[trigger] out@[j]) == events_of_vault(self.events@.take(i as int), vault)[j],
            decreases self.events@.len() - i,
        {
            assert(self.events@.take(i as int + 1).drop_last() =~= self.events@.take(i as int));
            let event = &self.events[i];
            if vault_named(&event.kind, vault) {
                out.push(event);
            }
            i = i + 1;
        }
        assert(self.events@.take(self.events@.len() as int) =~= self.events@);
        out
    }

    /// Recomputes the journal's digest from the genesis of a network and epoch by chaining each
    /// event's sequence number, epoch and kind; a journal built by `new` with the same network and
    /// epoch and then only pushed to replays to its own digest.
    pub fn replay_digest(&self, network_id: u32, epoch: Epoch) -> (r: KeystoneResult<Digest>)
        ensures
            r == Ok::<Digest, crate::error::KeystoneError>(chain_of(genesis_digest(network_id, epoch), self.spec_events())),
            self.replays_to(network_id, epoch) ==> r == Ok::<Digest, crate::error::KeystoneError>(self.spec_digest()),
    {
        let n = u32_be_vec(network_id);
        let e = u64_be_vec(epoch.0);
        let p0 = n.as_slice();
        let p1 = e.as_slice();
        let arr = [p0, p1];
        assert(arr@ =~= seq![p0, p1]);
        let mut digest = Digest::from_parts(JOURNAL_GENESIS_DOMAIN, arr.as_slice());
        assert(parts_view(seq![p0, p1]) =~= seq![u32_be(network_id as int), u64_be(epoch.0 as int)]);
        let ghost genesis = genesis_digest(network_id, epoch);
        let mut i: usize = 0;
        while i < self.events.len()
            invariant
                0 <= i <= self.events@.len(),
                digest == chain_of(genesis, self.events@.take(i as int)),
            decreases self.events@.len() - i,
        {
            assert(self.events@.take(i as int + 1).drop_last() =~= self.events@.take(i as int));
            let event = &self.events[i];
            digest = next_digest(digest, event.sequence, event.epoch, &event.kind);
            i = i + 1;
        }
        assert(self.events@.take(self.events@.len() as int) =~= self.events@);
        Ok(digest)
    }
}

} // verus!
