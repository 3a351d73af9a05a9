use vstd::prelude::*;

use vstd::seq_lib::lemma_concat_associative;

use crate::canon::{dec, json_hex, json_text, lit, push_dec, push_json_hex, push_json_str, push_lit};
use crate::loan::{status_name, LoanSnapshot, LoanStatus, LoanTerms};
use crate::policy::{tier_name, CollateralPolicy, InterestModel, LimitPolicy, ProtocolPolicy, RiskTier};
use crate::time::Schedule;
use crate::vault::{role_name, VaultSnapshot};
use crate::oracle::Price;

verus! {

fn tier_str(t: RiskTier) -> (r: &'static str)
    ensures
        r == tier_name(t),
{
    match t {
        RiskTier::Prime => "prime",
        RiskTier::Standard => "standard",
        RiskTier::Watch => "watch",
        RiskTier::Restricted => "restricted",
    }
}

fn status_str(s: LoanStatus) -> (r: &'static str)
    ensures
        r == status_name(s),
{
    match s {
        LoanStatus::Proposed => "proposed",
        LoanStatus::Active => "active",
        LoanStatus::Paid => "paid",
        LoanStatus::Defaulted => "defaulted",
        LoanStatus::Liquidating => "liquidating",
        LoanStatus::Liquidated => "liquidated",
        LoanStatus::WrittenOff => "written_off",
    }
}

/// The canonical JSON text of a `Schedule`.
pub open spec fn json_schedule(x: Schedule) -> Seq<u8> {
    lit("{\"start\":") + dec(x.start.0 as nat) + lit(",\"maturity\":") + dec(x.maturity.0 as nat) + lit(",\"grace_epochs\":") + dec(x.grace_epochs as nat) + lit(",\"epochs_per_year\":") + dec(x.epochs_per_year as nat) + lit("}")
}

pub fn write_schedule(out: &mut Vec<u8>, x: &Schedule)
    ensures
        final(out)@ == old(out)@ + json_schedule(*x),
{
    let ghost start = out@;
    push_lit(out, "{\"start\":");
    let ghost mut acc: Seq<u8> = lit("{\"start\":");
    push_dec(out, x.start.0 as u128);
    proof {
        lemma_concat_associative(start, acc, dec(x.start.0 as nat));
        acc = acc + dec(x.start.0 as nat);
    }
    push_lit(out, ",\"maturity\":");
    proof {
        lemma_concat_associative(start, acc, lit(",\"maturity\":"));
        acc = acc + lit(",\"maturity\":");
    }
    push_dec(out, x.maturity.0 as u128);
    proof {
        lemma_concat_associative(start, acc, dec(x.maturity.0 as nat));
        acc = acc + dec(x.maturity.0 as nat);
    }
    push_lit(out, ",\"grace_epochs\":");
    proof {
        lemma_concat_associative(start, acc, lit(",\"grace_epochs\":"));
        acc = acc + lit(",\"grace_epochs\":");
    }
    push_dec(out, x.grace_epochs as u128);
    proof {
        lemma_concat_associative(start, acc, dec(x.grace_epochs as nat));
        acc = acc + dec(x.grace_epochs as nat);
    }
    push_lit(out, ",\"epochs_per_year\":");
    proof {
        lemma_concat_associative(start, acc, lit(",\"epochs_per_year\":"));
        acc = acc + lit(",\"epochs_per_year\":");
    }
    push_dec(out, x.epochs_per_year as u128);
    proof {
        lemma_concat_associative(start, acc, dec(x.epochs_per_year as nat));
        acc = acc + dec(x.epochs_per_year as nat);
    }
    push_lit(out, "}");
    proof {
        lemma_concat_associative(start, acc, lit("}"));
        acc = acc + lit("}");
    }
}

/// The canonical JSON text of a `LoanTerms`.
pub open spec fn json_loan_terms(x: LoanTerms) -> Seq<u8> {
    lit("{\"network_id\":") + dec(x.network_id as nat) + lit(",\"lender\":") + json_hex(x.lender.0.0@) + lit(",\"borrower\":") + json_hex(x.borrower.0.0@) + lit(",\"principal\":") + dec(x.principal.0 as nat) + lit(",\"collateral\":") + dec(x.collateral.0 as nat) + lit(",\"annual_rate_bps\":") + dec(x.annual_rate_bps.0 as nat) + lit(",\"schedule\":") + json_schedule(x.schedule) + lit(",\"policy_digest\":") + json_hex(x.policy_digest.0@) + lit(",\"nonce\":") + dec(x.nonce as nat) + lit("}")
}

pub fn write_loan_terms(out: &mut Vec<u8>, x: &LoanTerms)
    ensures
        final(out)@ == old(out)@ + json_loan_terms(*x),
{
    let ghost start = out@;
    push_lit(out, "{\"network_id\":");
    let ghost mut acc: Seq<u8> = lit("{\"network_id\":");
    push_dec(out, x.network_id as u128);
    proof {
        lemma_concat_associative(start, acc, dec(x.network_id as nat));
        acc = acc + dec(x.network_id as nat);
    }
    push_lit(out, ",\"lender\":");
    proof {
        lemma_concat_associative(start, acc, lit(",\"lender\":"));
        acc = acc + lit(",\"lender\":");
    }
    push_json_hex(out, &x.lender.0.0);
    proof {
        lemma_concat_associative(start, acc, json_hex(x.lender.0.0@));
        acc = acc + json_hex(x.lender.0.0@);
    }
    push_lit(out, ",\"borrower\":");
    proof {
        lemma_concat_associative(start, acc, lit(",\"borrower\":"));
        acc = acc + lit(",\"borrower\":");
    }
    push_json_hex(out, &x.borrower.0.0);
    proof {
        lemma_concat_associative(start, acc, json_hex(x.borrower.0.0@));
        acc = acc + json_hex(x.borrower.0.0@);
    }
    push_lit(out, ",\"principal\":");
    proof {
        lemma_concat_associative(start, acc, lit(",\"principal\":"));
        acc = acc + lit(",\"principal\":");
    }
    push_dec(out, x.principal.0 as u128);
    proof {
        lemma_concat_associative(start, acc, dec(x.principal.0 as nat));
        acc = acc + dec(x.principal.0 as nat);
    }
    push_lit(out, ",\"collateral\":");
    proof {
        lemma_concat_associative(start, acc, lit(",\"collateral\":"));
        acc = acc + lit(",\"collateral\":");
    }
    push_dec(out, x.collateral.0 as u128);
    proof {
        lemma_concat_associative(start, acc, dec(x.collateral.0 as nat));
        acc = acc + dec(x.collateral.0 as nat);
    }
    push_lit(out, ",\"annual_rate_bps\":");
    proof {
        lemma_concat_associative(start, acc, lit(",\"annual_rate_bps\":"));
        acc = acc + lit(",\"annual_rate_bps\":");
    }
    push_dec(out, x.annual_rate_bps.0 as u128);
    proof {
        lemma_concat_associative(start, acc, dec(x.annual_rate_bps.0 as nat));
        acc = acc + dec(x.annual_rate_bps.0 as nat);
    }
    push_lit(out, ",\"schedule\":");
    proof {
        lemma_concat_associative(start, acc, lit(",\"schedule\":"));
        acc = acc + lit(",\"schedule\":");
    }
    write_schedule(out, &x.schedule);
    proof {
        lemma_concat_associative(start, acc, json_schedule(x.schedule));
        acc = acc + json_schedule(x.schedule);
    }
    push_lit(out, ",\"policy_digest\":");
    proof {
        lemma_concat_associative(start, acc, lit(",\"policy_digest\":"));
        acc = acc + lit(",\"policy_digest\":");
    }
    push_json_hex(out, &x.policy_digest.0);
    proof {
        lemma_concat_associative(start, acc, json_hex(x.policy_digest.0@));
        acc = acc + json_hex(x.policy_digest.0@);
    }
    push_lit(out, ",\"nonce\":");
    proof {
        lemma_concat_associative(start, acc, lit(",\"nonce\":"));
        acc = acc + lit(",\"nonce\":");
    }
    push_dec(out, x.nonce as u128);
    proof {
        lemma_concat_associative(start, acc, dec(x.nonce as nat));
        acc = acc + dec(x.nonce as nat);
    }
    push_lit(out, "}");
    proof {
        lemma_concat_associative(start, acc, lit("}"));
        acc = acc + lit("}");
    }
}

/// The canonical JSON text of a `CollateralPolicy`.
pub open spec fn json_collateral_policy(x: CollateralPolicy) -> Seq<u8> {
    lit("{\"tier\":") + json_text(tier_name(x.tier)@) + lit(",\"min_collateral_bps\":") + dec(x.min_collateral_bps.0 as nat) + lit(",\"maintenance_bps\":") + dec(x.maintenance_bps.0 as nat) + lit(",\"release_buffer_bps\":") + dec(x.release_buffer_bps.0 as nat) + lit(",\"max_single_loan_bps\":") + dec(x.max_single_loan_bps.0 as nat) + lit("}")
}

pub fn write_collateral_policy(out: &mut Vec<u8>, x: &CollateralPolicy)
    ensures
        final(out)@ == old(out)@ + json_collateral_policy(*x),
{
    let ghost start = out@;
    push_lit(out, "{\"tier\":");
    let ghost mut acc: Seq<u8> = lit("{\"tier\":");
    push_json_str(out, tier_str(x.tier));
    proof {
        lemma_concat_associative(start, acc, json_text(tier_name(x.tier)@));
        acc = acc + json_text(tier_name(x.tier)@);
    }
    push_lit(out, ",\"min_collateral_bps\":");
    proof {
        lemma_concat_associative(start, acc, lit(",\"min_collateral_bps\":"));
        acc = acc + lit(",\"min_collateral_bps\":");
    }
    push_dec(out, x.min_collateral_bps.0 as u128);
    proof {
        lemma_concat_associative(start, acc, dec(x.min_collateral_bps.0 as nat));
        acc = acc + dec(x.min_collateral_bps.0 as nat);
    }
    push_lit(out, ",\"maintenance_bps\":");
    proof {
        lemma_concat_associative(start, acc, lit(",\"maintenance_bps\":"));
        acc = acc + lit(",\"maintenance_bps\":");
    }
    push_dec(out, x.maintenance_bps.0 as u128);
    proof {
        lemma_concat_associative(start, acc, dec(x.maintenance_bps.0 as nat));
        acc = acc + dec(x.maintenance_bps.0 as nat);
    }
    push_lit(out, ",\"release_buffer_bps\":");
    proof {
        lemma_concat_associative(start, acc, lit(",\"release_buffer_bps\":"));
        acc = acc + lit(",\"release_buffer_bps\":");
    }
    push_dec(out, x.release_buffer_bps.0 as u128);
    proof {
        lemma_concat_associative(start, acc, dec(x.release_buffer_bps.0 as nat));
        acc = acc + dec(x.release_buffer_bps.0 as nat);
    }
    push_lit(out, ",\"max_single_loan_bps\":");
    proof {
        lemma_concat_associative(start, acc, lit(",\"max_single_loan_bps\":"));
        acc = acc + lit(",\"max_single_loan_bps\":");
    }
    push_dec(out, x.max_single_loan_bps.0 as u128);
    proof {
        lemma_concat_associative(start, acc, dec(x.max_single_loan_bps.0 as nat));
        acc = acc + dec(x.max_single_loan_bps.0 as nat);
    }
    push_lit(out, "}");
    proof {
        lemma_concat_associative(start, acc, lit("}"));
        acc = acc + lit("}");
    }
}

/// The canonical JSON text of a `InterestModel`.
pub open spec fn json_interest_model(x: InterestModel) -> Seq<u8> {
    lit("{\"base_rate_bps\":") + dec(x.base_rate_bps.0 as nat) + lit(",\"utilization_slope_bps\":") + dec(x.utilization_slope_bps.0 as nat) + lit(",\"reserve_factor_bps\":") + dec(x.reserve_factor_bps.0 as nat) + lit(",\"overdue_penalty_bps\":") + dec(x.overdue_penalty_bps.0 as nat) + lit(",\"epochs_per_year\":") + dec(x.epochs_per_year as nat) + lit("}")
}

pub fn write_interest_model(out: &mut Vec<u8>, x: &InterestModel)
    ensures
        final(out)@ == old(out)@ + json_interest_model(*x),
{
    let ghost start = out@;
    push_lit(out, "{\"base_rate_bps\":");
    let ghost mut acc: Seq<u8> = lit("{\"base_rate_bps\":");
    push_dec(out, x.base_rate_bps.0 as u128);
    proof {
        lemma_concat_associative(start, acc, dec(x.base_rate_bps.0 as nat));
        acc = acc + dec(x.base_rate_bps.0 as nat);
    }
    push_lit(out, ",\"utilization_slope_bps\":");
    proof {
        lemma_concat_associative(start, acc, lit(",\"utilization_slope_bps\":"));
        acc = acc + lit(",\"utilization_slope_bps\":");
    }
    push_dec(out, x.utilization_slope_bps.0 as u128);
    proof {
        lemma_concat_associative(start, acc, dec(x.utilization_slope_bps.0 as nat));
        acc = acc + dec(x.utilization_slope_bps.0 as nat);
    }
    push_lit(out, ",\"reserve_factor_bps\":");
    proof {
        lemma_concat_associative(start, acc, lit(",\"reserve_factor_bps\":"));
        acc = acc + lit(",\"reserve_factor_bps\":");
    }
    push_dec(out, x.reserve_factor_bps.0 as u128);
    proof {
        lemma_concat_associative(start, acc, dec(x.reserve_factor_bps.0 as nat));
        acc = acc + dec(x.reserve_factor_bps.0 as nat);
    }
    push_lit(out, ",\"overdue_penalty_bps\":");
    proof {
        lemma_concat_associative(start, acc, lit(",\"overdue_penalty_bps\":"));
        acc = acc + lit(",\"overdue_penalty_bps\":");
    }
    push_dec(out, x.overdue_penalty_bps.0 as u128);
    proof {
        lemma_concat_associative(start, acc, dec(x.overdue_penalty_bps.0 as nat));
        acc = acc + dec(x.overdue_penalty_bps.0 as nat);
    }
    push_lit(out, ",\"epochs_per_year\":");
    proof {
        lemma_concat_associative(start, acc, lit(",\"epochs_per_year\":"));
        acc = acc + lit(",\"epochs_per_year\":");
    }
    push_dec(out, x.epochs_per_year as u128);
    proof {
        lemma_concat_associative(start, acc, dec(x.epochs_per_year as nat));
        acc = acc + dec(x.epochs_per_year as nat);
    }
    push_lit(out, "}");
    proof {
        lemma_concat_associative(start, acc, lit("}"));
        acc = acc + lit("}");
    }
}

/// The canonical JSON text of a `LimitPolicy`.
pub open spec fn json_limit_policy(x: LimitPolicy) -> Seq<u8> {
    lit("{\"max_utilization_bps\":") + dec(x.max_utilization_bps.0 as nat) + lit(",\"max_borrower_debt_bps\":") + dec(x.max_borrower_debt_bps.0 as nat) + lit(",\"max_vaults\":") + dec(x.max_vaults as nat) + lit(",\"max_active_loans\":") + dec(x.max_active_loans as nat) + lit(",\"redemption_liquidity_floor_bps\":") + dec(x.redemption_liquidity_floor_bps.0 as nat) + lit("}")
}

pub fn write_limit_policy(out: &mut Vec<u8>, x: &LimitPolicy)
    ensures
        final(out)@ == old(out)@ + json_limit_policy(*x),
{
    let ghost start = out@;
    push_lit(out, "{\"max_utilization_bps\":");
    let ghost mut acc: Seq<u8> = lit("{\"max_utilization_bps\":");
    push_dec(out, x.max_utilization_bps.0 as u128);
    proof {
        lemma_concat_associative(start, acc, dec(x.max_utilization_bps.0 as nat));
        acc = acc + dec(x.max_utilization_bps.0 as nat);
    }
    push_lit(out, ",\"max_borrower_debt_bps\":");
    proof {
        lemma_concat_associative(start, acc, lit(",\"max_borrower_debt_bps\":"));
        acc = acc + lit(",\"max_borrower_debt_bps\":");
    }
    push_dec(out, x.max_borrower_debt_bps.0 as u128);
    proof {
        lemma_concat_associative(start, acc, dec(x.max_borrower_debt_bps.0 as nat));
        acc = acc + dec(x.max_borrower_debt_bps.0 as nat);
    }
    push_lit(out, ",\"max_vaults\":");
    proof {
        lemma_concat_associative(start, acc, lit(",\"max_vaults\":"));
        acc = acc + lit(",\"max_vaults\":");
    }
    push_dec(out, x.max_vaults as u128);
    proof {
        lemma_concat_associative(start, acc, dec(x.max_vaults as nat));
        acc = acc + dec(x.max_vaults as nat);
    }
    push_lit(out, ",\"max_active_loans\":");
    proof {
        lemma_concat_associative(start, acc, lit(",\"max_active_loans\":"));
        acc = acc + lit(",\"max_active_loans\":");
    }
    push_dec(out, x.max_active_loans as u128);
    proof {
        lemma_concat_associative(start, acc, dec(x.max_active_loans as nat));
        acc = acc + dec(x.max_active_loans as nat);
    }
    push_lit(out, ",\"redemption_liquidity_floor_bps\":");
    proof {
        lemma_concat_associative(start, acc, lit(",\"redemption_liquidity_floor_bps\":"));
        acc = acc + lit(",\"redemption_liquidity_floor_bps\":");
    }
    push_dec(out, x.redemption_liquidity_floor_bps.0 as u128);
    proof {
        lemma_concat_associative(start, acc, dec(x.redemption_liquidity_floor_bps.0 as nat));
        acc = acc + dec(x.redemption_liquidity_floor_bps.0 as nat);
    }
    push_lit(out, "}");
    proof {
        lemma_concat_associative(start, acc, lit("}"));
        acc = acc + lit("}");
    }
}

/// The canonical JSON text of a `ProtocolPolicy`.
pub open spec fn json_protocol_policy(x: ProtocolPolicy) -> Seq<u8> {
    lit("{\"collateral\":") + json_collateral_policy(x.collateral) + lit(",\"interest\":") + json_interest_model(x.interest) + lit(",\"limits\":") + json_limit_policy(x.limits) + lit(",\"liquidation_close_factor_bps\":") + dec(x.liquidation_close_factor_bps.0 as nat) + lit(",\"protocol_fee_bps\":") + dec(x.protocol_fee_bps.0 as nat) + lit("}")
}

pub fn write_protocol_policy(out: &mut Vec<u8>, x: &ProtocolPolicy)
    ensures
        final(out)@ == old(out)@ + json_protocol_policy(*x),
{
    let ghost start = out@;
    push_lit(out, "{\"collateral\":");
    let ghost mut acc: Seq<u8> = lit("{\"collateral\":");
    write_collateral_policy(out, &x.collateral);
    proof {
        lemma_concat_associative(start, acc, json_collateral_policy(x.collateral));
        acc = acc + json_collateral_policy(x.collateral);
    }
    push_lit(out, ",\"interest\":");
    proof {
        lemma_concat_associative(start, acc, lit(",\"interest\":"));
        acc = acc + lit(",\"interest\":");
    }
    write_interest_model(out, &x.interest);
    proof {
        lemma_concat_associative(start, acc, json_interest_model(x.interest));
        acc = acc + json_interest_model(x.interest);
    }
    push_lit(out, ",\"limits\":");
    proof {
        lemma_concat_associative(start, acc, lit(",\"limits\":"));
        acc = acc + lit(",\"limits\":");
    }
    write_limit_policy(out, &x.limits);
    proof {
        lemma_concat_associative(start, acc, json_limit_policy(x.limits));
        acc = acc + json_limit_policy(x.limits);
    }
    push_lit(out, ",\"liquidation_close_factor_bps\":");
    proof {
        lemma_concat_associative(start, acc, lit(",\"liquidation_close_factor_bps\":"));
        acc = acc + lit(",\"liquidation_close_factor_bps\":");
    }
    push_dec(out, x.liquidation_close_factor_bps.0 as u128);
    proof {
        lemma_concat_associative(start, acc, dec(x.liquidation_close_factor_bps.0 as nat));
        acc = acc + dec(x.liquidation_close_factor_bps.0 as nat);
    }
    push_lit(out, ",\"protocol_fee_bps\":");
    proof {
        lemma_concat_associative(start, acc, lit(",\"protocol_fee_bps\":"));
        acc = acc + lit(",\"protocol_fee_bps\":");
    }
    push_dec(out, x.protocol_fee_bps.0 as u128);
    proof {
        lemma_concat_associative(start, acc, dec(x.protocol_fee_bps.0 as nat));
        acc = acc + dec(x.protocol_fee_bps.0 as nat);
    }
    push_lit(out, "}");
    proof {
        lemma_concat_associative(start, acc, lit("}"));
        acc = acc + lit("}");
    }
}

/// The canonical JSON text of a `LoanSnapshot`.
pub open spec fn json_loan_snapshot(x: LoanSnapshot) -> Seq<u8> {
    lit("{\"loan\":") + json_hex(x.loan.0.0@) + lit(",\"lender\":") + json_hex(x.lender.0.0@) + lit(",\"borrower\":") + json_hex(x.borrower.0.0@) + lit(",\"status\":") + json_text(status_name(x.status)@) + lit(",\"principal\":") + dec(x.principal.0 as nat) + lit(",\"remaining_principal\":") + dec(x.remaining_principal.0 as nat) + lit(",\"scheduled_interest\":") + dec(x.scheduled_interest.0 as nat) + lit(",\"interest_paid\":") + dec(x.interest_paid.0 as nat) + lit(",\"borrower_interest_released\":") + dec(x.borrower_interest_released.0 as nat) + lit(",\"collateral_locked\":") + dec(x.collateral_locked.0 as nat) + lit(",\"collateral_released\":") + dec(x.collateral_released.0 as nat) + lit(",\"start_epoch\":") + dec(x.start_epoch.0 as nat) + lit(",\"maturity_epoch\":") + dec(x.maturity_epoch.0 as nat) + lit(",\"due_epoch\":") + dec(x.due_epoch.0 as nat) + lit(",\"annual_rate_bps\":") + dec(x.annual_rate_bps.0 as nat) + lit(",\"terms_digest\":") + json_hex(x.terms_digest.0@) + lit("}")
}

pub fn write_loan_snapshot(out: &mut Vec<u8>, x: &LoanSnapshot)
    ensures
        final(out)@ == old(out)@ + json_loan_snapshot(*x),
{
    let ghost start = out@;
    push_lit(out, "{\"loan\":");
    let ghost mut acc: Seq<u8> = lit("{\"loan\":");
    push_json_hex(out, &x.loan.0.0);
    proof {
        lemma_concat_associative(start, acc, json_hex(x.loan.0.0@));
        acc = acc + json_hex(x.loan.0.0@);
    }
    push_lit(out, ",\"lender\":");
    proof {
        lemma_concat_associative(start, acc, lit(",\"lender\":"));
        acc = acc + lit(",\"lender\":");
    }
    push_json_hex(out, &x.lender.0.0);
    proof {
        lemma_concat_associative(start, acc, json_hex(x.lender.0.0@));
        acc = acc + json_hex(x.lender.0.0@);
    }
    push_lit(out, ",\"borrower\":");
    proof {
        lemma_concat_associative(start, acc, lit(",\"borrower\":"));
        acc = acc + lit(",\"borrower\":");
    }
    push_json_hex(out, &x.borrower.0.0);
    proof {
        lemma_concat_associative(start, acc, json_hex(x.borrower.0.0@));
        acc = acc + json_hex(x.borrower.0.0@);
    }
    push_lit(out, ",\"status\":");
    proof {
        lemma_concat_associative(start, acc, lit(",\"status\":"));
        acc = acc + lit(",\"status\":");
    }
    push_json_str(out, status_str(x.status));
    proof {
        lemma_concat_associative(start, acc, json_text(status_name(x.status)@));
        acc = acc + json_text(status_name(x.status)@);
    }
    push_lit(out, ",\"principal\":");
    proof {
        lemma_concat_associative(start, acc, lit(",\"principal\":"));
        acc = acc + lit(",\"principal\":");
    }
    push_dec(out, x.principal.0 as u128);
    proof {
        lemma_concat_associative(start, acc, dec(x.principal.0 as nat));
        acc = acc + dec(x.principal.0 as nat);
    }
    push_lit(out, ",\"remaining_principal\":");
    proof {
        lemma_concat_associative(start, acc, lit(",\"remaining_principal\":"));
        acc = acc + lit(",\"remaining_principal\":");
    }
    push_dec(out, x.remaining_principal.0 as u128);
    proof {
        lemma_concat_associative(start, acc, dec(x.remaining_principal.0 as nat));
        acc = acc + dec(x.remaining_principal.0 as nat);
    }
    push_lit(out, ",\"scheduled_interest\":");
    proof {
        lemma_concat_associative(start, acc, lit(",\"scheduled_interest\":"));
        acc = acc + lit(",\"scheduled_interest\":");
    }
    push_dec(out, x.scheduled_interest.0 as u128);
    proof {
        lemma_concat_associative(start, acc, dec(x.scheduled_interest.0 as nat));
        acc = acc + dec(x.scheduled_interest.0 as nat);
    }
    push_lit(out, ",\"interest_paid\":");
    proof {
        lemma_concat_associative(start, acc, lit(",\"interest_paid\":"));
        acc = acc + lit(",\"interest_paid\":");
    }
    push_dec(out, x.interest_paid.0 as u128);
    proof {
        lemma_concat_associative(start, acc, dec(x.interest_paid.0 as nat));
        acc = acc + dec(x.interest_paid.0 as nat);
    }
    push_lit(out, ",\"borrower_interest_released\":");
    proof {
        lemma_concat_associative(start, acc, lit(",\"borrower_interest_released\":"));
        acc = acc + lit(",\"borrower_interest_released\":");
    }
    push_dec(out, x.borrower_interest_released.0 as u128);
    proof {
        lemma_concat_associative(start, acc, dec(x.borrower_interest_released.0 as nat));
        acc = acc + dec(x.borrower_interest_released.0 as nat);
    }
    push_lit(out, ",\"collateral_locked\":");
    proof {
        lemma_concat_associative(start, acc, lit(",\"collateral_locked\":"));
        acc = acc + lit(",\"collateral_locked\":");
    }
    push_dec(out, x.collateral_locked.0 as u128);
    proof {
        lemma_concat_associative(start, acc, dec(x.collateral_locked.0 as nat));
        acc = acc + dec(x.collateral_locked.0 as nat);
    }
    push_lit(out, ",\"collateral_released\":");
    proof {
        lemma_concat_associative(start, acc, lit(",\"collateral_released\":"));
        acc = acc + lit(",\"collateral_released\":");
    }
    push_dec(out, x.collateral_released.0 as u128);
    proof {
        lemma_concat_associative(start, acc, dec(x.collateral_released.0 as nat));
        acc = acc + dec(x.collateral_released.0 as nat);
    }
    push_lit(out, ",\"start_epoch\":");
    proof {
        lemma_concat_associative(start, acc, lit(",\"start_epoch\":"));
        acc = acc + lit(",\"start_epoch\":");
    }
    push_dec(out, x.start_epoch.0 as u128);
    proof {
        lemma_concat_associative(start, acc, dec(x.start_epoch.0 as nat));
        acc = acc + dec(x.start_epoch.0 as nat);
    }
    push_lit(out, ",\"maturity_epoch\":");
    proof {
        lemma_concat_associative(start, acc, lit(",\"maturity_epoch\":"));
        acc = acc + lit(",\"maturity_epoch\":");
    }
    push_dec(out, x.maturity_epoch.0 as u128);
    proof {
        lemma_concat_associative(start, acc, dec(x.maturity_epoch.0 as nat));
        acc = acc + dec(x.maturity_epoch.0 as nat);
    }
    push_lit(out, ",\"due_epoch\":");
    proof {
        lemma_concat_associative(start, acc, lit(",\"due_epoch\":"));
        acc = acc + lit(",\"due_epoch\":");
    }
    push_dec(out, x.due_epoch.0 as u128);
    proof {
        lemma_concat_associative(start, acc, dec(x.due_epoch.0 as nat));
        acc = acc + dec(x.due_epoch.0 as nat);
    }
    push_lit(out, ",\"annual_rate_bps\":");
    proof {
        lemma_concat_associative(start, acc, lit(",\"annual_rate_bps\":"));
        acc = acc + lit(",\"annual_rate_bps\":");
    }
    push_dec(out, x.annual_rate_bps.0 as u128);
    proof {
        lemma_concat_associative(start, acc, dec(x.annual_rate_bps.0 as nat));
        acc = acc + dec(x.annual_rate_bps.0 as nat);
    }
    push_lit(out, ",\"terms_digest\":");
    proof {
        lemma_concat_associative(start, acc, lit(",\"terms_digest\":"));
        acc = acc + lit(",\"terms_digest\":");
    }
    push_json_hex(out, &x.terms_digest.0);
    proof {
        lemma_concat_associative(start, acc, json_hex(x.terms_digest.0@));
        acc = acc + json_hex(x.terms_digest.0@);
    }
    push_lit(out, "}");
    proof {
        lemma_concat_associative(start, acc, lit("}"));
        acc = acc + lit("}");
    }
}

/// The canonical JSON text of a `VaultSnapshot`.
pub open spec fn json_vault_snapshot(x: VaultSnapshot) -> Seq<u8> {
    lit("{\"id\":") + json_hex(x.id.0.0@) + lit(",\"name\":") + json_text(x.name@) + lit(",\"role\":") + json_text(role_name(x.role)@) + lit(",\"cash\":") + dec(x.cash.0 as nat) + lit(",\"share_supply\":") + dec(x.share_supply.0 as nat) + lit(",\"gross_assets\":") + dec(x.gross_assets.0 as nat) + lit(",\"liabilities\":") + dec(x.liabilities.0 as nat) + lit(",\"nav\":") + dec(x.nav.0 as nat) + lit(",\"outstanding_principal\":") + dec(x.outstanding_principal.0 as nat) + lit(",\"expected_interest\":") + dec(x.expected_interest.0 as nat) + lit(",\"realized_interest\":") + dec(x.realized_interest.0 as nat) + lit(",\"debt_principal\":") + dec(x.debt_principal.0 as nat) + lit(",\"debt_interest_due\":") + dec(x.debt_interest_due.0 as nat) + lit(",\"locked_collateral\":") + dec(x.locked_collateral.0 as nat) + lit(",\"loss_reserve\":") + dec(x.loss_reserve.0 as nat) + lit(",\"protocol_fees\":") + dec(x.protocol_fees.0 as nat) + lit(",\"distributed_interest\":") + dec(x.distributed_interest.0 as nat) + lit(",\"utilization_bps\":") + dec(x.utilization_bps.0 as nat) + lit(",\"holder_count\":") + dec(x.holder_count as nat) + lit("}")
}

pub fn write_vault_snapshot(out: &mut Vec<u8>, x: &VaultSnapshot)
    ensures
        final(out)@ == old(out)@ + json_vault_snapshot(*x),
{
    let ghost start = out@;
    push_lit(out, "{\"id\":");
    let ghost mut acc: Seq<u8> = lit("{\"id\":");
    push_json_hex(out, &x.id.0.0);
    proof {
        lemma_concat_associative(start, acc, json_hex(x.id.0.0@));
        acc = acc + json_hex(x.id.0.0@);
    }
    push_lit(out, ",\"name\":");
    proof {
        lemma_concat_associative(start, acc, lit(",\"name\":"));
        acc = acc + lit(",\"name\":");
    }
    push_json_str(out, x.name.as_str());
    proof {
        lemma_concat_associative(start, acc, json_text(x.name@));
        acc = acc + json_text(x.name@);
    }
    push_lit(out, ",\"role\":");
    proof {
        lemma_concat_associative(start, acc, lit(",\"role\":"));
        acc = acc + lit(",\"role\":");
    }
    push_json_str(out, x.role.as_str());
    proof {
        lemma_concat_associative(start, acc, json_text(role_name(x.role)@));
        acc = acc + json_text(role_name(x.role)@);
    }
    push_lit(out, ",\"cash\":");
    proof {
        lemma_concat_associative(start, acc, lit(",\"cash\":"));
        acc = acc + lit(",\"cash\":");
    }
    push_dec(out, x.cash.0 as u128);
    proof {
        lemma_concat_associative(start, acc, dec(x.cash.0 as nat));
        acc = acc + dec(x.cash.0 as nat);
    }
    push_lit(out, ",\"share_supply\":");
    proof {
        lemma_concat_associative(start, acc, lit(",\"share_supply\":"));
        acc = acc + lit(",\"share_supply\":");
    }
    push_dec(out, x.share_supply.0 as u128);
    proof {
        lemma_concat_associative(start, acc, dec(x.share_supply.0 as nat));
        acc = acc + dec(x.share_supply.0 as nat);
    }
    push_lit(out, ",\"gross_assets\":");
    proof {
        lemma_concat_associative(start, acc, lit(",\"gross_assets\":"));
        acc = acc + lit(",\"gross_assets\":");
    }
    push_dec(out, x.gross_assets.0 as u128);
    proof {
        lemma_concat_associative(start, acc, dec(x.gross_assets.0 as nat));
        acc = acc + dec(x.gross_assets.0 as nat);
    }
    push_lit(out, ",\"liabilities\":");
    proof {
        lemma_concat_associative(start, acc, lit(",\"liabilities\":"));
        acc = acc + lit(",\"liabilities\":");
    }
    push_dec(out, x.liabilities.0 as u128);
    proof {
        lemma_concat_associative(start, acc, dec(x.liabilities.0 as nat));
        acc = acc + dec(x.liabilities.0 as nat);
    }
    push_lit(out, ",\"nav\":");
    proof {
        lemma_concat_associative(start, acc, lit(",\"nav\":"));
        acc = acc + lit(",\"nav\":");
    }
    push_dec(out, x.nav.0 as u128);
    proof {
        lemma_concat_associative(start, acc, dec(x.nav.0 as nat));
        acc = acc + dec(x.nav.0 as nat);
    }
    push_lit(out, ",\"outstanding_principal\":");
    proof {
        lemma_concat_associative(start, acc, lit(",\"outstanding_principal\":"));
        acc = acc + lit(",\"outstanding_principal\":");
    }
    push_dec(out, x.outstanding_principal.0 as u128);
    proof {
        lemma_concat_associative(start, acc, dec(x.outstanding_principal.0 as nat));
        acc = acc + dec(x.outstanding_principal.0 as nat);
    }
    push_lit(out, ",\"expected_interest\":");
    proof {
        lemma_concat_associative(start, acc, lit(",\"expected_interest\":"));
        acc = acc + lit(",\"expected_interest\":");
    }
    push_dec(out, x.expected_interest.0 as u128);
    proof {
        lemma_concat_associative(start, acc, dec(x.expected_interest.0 as nat));
        acc = acc + dec(x.expected_interest.0 as nat);
    }
    push_lit(out, ",\"realized_interest\":");
    proof {
        lemma_concat_associative(start, acc, lit(",\"realized_interest\":"));
        acc = acc + lit(",\"realized_interest\":");
    }
    push_dec(out, x.realized_interest.0 as u128);
    proof {
        lemma_concat_associative(start, acc, dec(x.realized_interest.0 as nat));
        acc = acc + dec(x.realized_interest.0 as nat);
    }
    push_lit(out, ",\"debt_principal\":");
    proof {
        lemma_concat_associative(start, acc, lit(",\"debt_principal\":"));
        acc = acc + lit(",\"debt_principal\":");
    }
    push_dec(out, x.debt_principal.0 as u128);
    proof {
        lemma_concat_associative(start, acc, dec(x.debt_principal.0 as nat));
        acc = acc + dec(x.debt_principal.0 as nat);
    }
    push_lit(out, ",\"debt_interest_due\":");
    proof {
        lemma_concat_associative(start, acc, lit(",\"debt_interest_due\":"));
        acc = acc + lit(",\"debt_interest_due\":");
    }
    push_dec(out, x.debt_interest_due.0 as u128);
    proof {
        lemma_concat_associative(start, acc, dec(x.debt_interest_due.0 as nat));
        acc = acc + dec(x.debt_interest_due.0 as nat);
    }
    push_lit(out, ",\"locked_collateral\":");
    proof {
        lemma_concat_associative(start, acc, lit(",\"locked_collateral\":"));
        acc = acc + lit(",\"locked_collateral\":");
    }
    push_dec(out, x.locked_collateral.0 as u128);
    proof {
        lemma_concat_associative(start, acc, dec(x.locked_collateral.0 as nat));
        acc = acc + dec(x.locked_collateral.0 as nat);
    }
    push_lit(out, ",\"loss_reserve\":");
    proof {
        lemma_concat_associative(start, acc, lit(",\"loss_reserve\":"));
        acc = acc + lit(",\"loss_reserve\":");
    }
    push_dec(out, x.loss_reserve.0 as u128);
    proof {
        lemma_concat_associative(start, acc, dec(x.loss_reserve.0 as nat));
        acc = acc + dec(x.loss_reserve.0 as nat);
    }
    push_lit(out, ",\"protocol_fees\":");
    proof {
        lemma_concat_associative(start, acc, lit(",\"protocol_fees\":"));
        acc = acc + lit(",\"protocol_fees\":");
    }
    push_dec(out, x.protocol_fees.0 as u128);
    proof {
        lemma_concat_associative(start, acc, dec(x.protocol_fees.0 as nat));
        acc = acc + dec(x.protocol_fees.0 as nat);
    }
    push_lit(out, ",\"distributed_interest\":");
    proof {
        lemma_concat_associative(start, acc, lit(",\"distributed_interest\":"));
        acc = acc + lit(",\"distributed_interest\":");
    }
    push_dec(out, x.distributed_interest.0 as u128);
    proof {
        lemma_concat_associative(start, acc, dec(x.distributed_interest.0 as nat));
        acc = acc + dec(x.distributed_interest.0 as nat);
    }
    push_lit(out, ",\"utilization_bps\":");
    proof {
        lemma_concat_associative(start, acc, lit(",\"utilization_bps\":"));
        acc = acc + lit(",\"utilization_bps\":");
    }
    push_dec(out, x.utilization_bps.0 as u128);
    proof {
        lemma_concat_associative(start, acc, dec(x.utilization_bps.0 as nat));
        acc = acc + dec(x.utilization_bps.0 as nat);
    }
    push_lit(out, ",\"holder_count\":");
    proof {
        lemma_concat_associative(start, acc, lit(",\"holder_count\":"));
        acc = acc + lit(",\"holder_count\":");
    }
    push_dec(out, x.holder_count as u128);
    proof {
        lemma_concat_associative(start, acc, dec(x.holder_count as nat));
        acc = acc + dec(x.holder_count as nat);
    }
    push_lit(out, "}");
    proof {
        lemma_concat_associative(start, acc, lit("}"));
        acc = acc + lit("}");
    }
}

/// The canonical JSON text of a `Price`.
pub open spec fn json_price(x: Price) -> Seq<u8> {
    lit("{\"asset\":") + json_hex(x.asset.0.0@) + lit(",\"quote_asset\":") + json_hex(x.quote_asset.0.0@) + lit(",\"price_e9\":") + dec(x.price_e9 as nat) + lit(",\"confidence_bps\":") + dec(x.confidence_bps.0 as nat) + lit(",\"published_epoch\":") + dec(x.published_epoch.0 as nat) + lit("}")
}

pub fn write_price(out: &mut Vec<u8>, x: &Price)
    ensures
        final(out)@ == old(out)@ + json_price(*x),
{
    let ghost start = out@;
    push_lit(out, "{\"asset\":");
    let ghost mut acc: Seq<u8> = lit("{\"asset\":");
    push_json_hex(out, &x.asset.0.0);
    proof {
        lemma_concat_associative(start, acc, json_hex(x.asset.0.0@));
        acc = acc + json_hex(x.asset.0.0@);
    }
    push_lit(out, ",\"quote_asset\":");
    proof {
        lemma_concat_associative(start, acc, lit(",\"quote_asset\":"));
        acc = acc + lit(",\"quote_asset\":");
    }
    push_json_hex(out, &x.quote_asset.0.0);
    proof {
        lemma_concat_associative(start, acc, json_hex(x.quote_asset.0.0@));
        acc = acc + json_hex(x.quote_asset.0.0@);
    }
    push_lit(out, ",\"price_e9\":");
    proof {
        lemma_concat_associative(start, acc, lit(",\"price_e9\":"));
        acc = acc + lit(",\"price_e9\":");
    }
    push_dec(out, x.price_e9 as u128);
    proof {
        lemma_concat_associative(start, acc, dec(x.price_e9 as nat));
        acc = acc + dec(x.price_e9 as nat);
    }
    push_lit(out, ",\"confidence_bps\":");
    proof {
        lemma_concat_associative(start, acc, lit(",\"confidence_bps\":"));
        acc = acc + lit(",\"confidence_bps\":");
    }
    push_dec(out, x.confidence_bps.0 as u128);
    proof {
        lemma_concat_associative(start, acc, dec(x.confidence_bps.0 as nat));
        acc = acc + dec(x.confidence_bps.0 as nat);
    }
    push_lit(out, ",\"published_epoch\":");
    proof {
        lemma_concat_associative(start, acc, lit(",\"published_epoch\":"));
        acc = acc + lit(",\"published_epoch\":");
    }
    push_dec(out, x.published_epoch.0 as u128);
    proof {
        lemma_concat_associative(start, acc, dec(x.published_epoch.0 as nat));
        acc = acc + dec(x.published_epoch.0 as nat);
    }
    push_lit(out, "}");
    proof {
        lemma_concat_associative(start, acc, lit("}"));
        acc = acc + lit("}");
    }
}

} // verus!
