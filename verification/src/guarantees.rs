//! What holds of the platform in every state it can reach, proved over the
//! same functions in which the operations state what they do.

use vstd::prelude::*;
use crate::contract::LedgerState;
use crate::error::LendingError;
use crate::fixed_point::BPS_DENOMINATOR;
use crate::ledger::{
    is_distribution, ledger_total, lemma_credit, lemma_distribution_residual,
    lemma_share_covers_contribution, payout_total, Payout,
};
use crate::loan::{
    lemma_bps_share_bounds, lemma_repayment_fits, LoanRequest, LoanState, MAX_DURATION_DAYS,
    MAX_INTEREST_RATE, MIN_DURATION_DAYS, MIN_INTEREST_RATE, SECONDS_PER_DAY,
};
use crate::party::Party;

verus! {

/// No loan is ever funded beyond what was requested, and what a loan is
/// funded with is exactly the sum of what its lenders contributed.
pub proof fn lemma_funds_are_accounted(state: LedgerState, loan_id: u32)
    requires
        state.wf(),
        state.has_loan(loan_id),
    ensures
        0 <= state.loan(loan_id).record.amount_funded <= state.loan(
            loan_id,
        ).record.amount_requested,
        ledger_total(state.loan(loan_id).ledger) == state.loan(loan_id).record.amount_funded,
{
    assert(state.loans[loan_id - 1].wf());
}

/// A request that is not refused leaves the platform in order.
pub proof fn lemma_request_keeps_order(
    state: LedgerState,
    borrower: Party,
    amount: i128,
    interest_rate: u32,
    duration_days: u32,
    purpose: String,
)
    requires
        state.wf(),
        state.request_refusal(amount, interest_rate, duration_days) is None,
    ensures
        state.with_new_loan(
            LoanRequest::fresh(borrower, amount, interest_rate, duration_days, purpose),
        ).wf(),
{
    let record = LoanRequest::fresh(borrower, amount, interest_rate, duration_days, purpose);
    let after = state.with_new_loan(record);
    assert forall|i: int| 0 <= i < after.loans.len() implies (#[trigger] after.loans[i]).wf() by {
        if i < state.loans.len() {
            assert(state.loans[i].wf());
        }
    }
}

/// Identifiers are given out in order, from 1 on and without gaps: a request
/// that is not refused takes the next one, and every loan filed before stays
/// what it was under the identifier it had.
pub proof fn lemma_identifiers_are_dense(state: LedgerState, record: LoanRequest, loan_id: u32)
    requires
        state.wf(),
        state.loans.len() < u32::MAX,
    ensures
        state.with_new_loan(record).has_loan(loan_id) <==> 1 <= loan_id <= state.loans.len() + 1,
        state.has_loan(loan_id) ==> state.with_new_loan(record).loan(loan_id) == state.loan(
            loan_id,
        ),
        loan_id == state.loans.len() + 1 ==> state.with_new_loan(record).loan(loan_id)
            == LoanState::fresh(record),
{
}

/// A loan is closed by its repayment and by nothing else: a contribution
/// leaves it open, and leaves its borrower and its terms as they were.
pub proof fn lemma_only_repayment_closes(loan: LoanState, lender: Party, accepted: int, now: u64)
    ensures
        ({
            let after = loan.credited(lender, accepted, now).record;
            &&& after.is_active == loan.record.is_active
            &&& after.borrower == loan.record.borrower
            &&& after.amount_requested == loan.record.amount_requested
            &&& after.interest_rate == loan.record.interest_rate
            &&& after.duration_days == loan.record.duration_days
            &&& after.purpose == loan.record.purpose
        }),
        !loan.repaid().record.is_active,
        loan.repaid().ledger == loan.ledger,
        loan.repaid().record.amount_funded == loan.record.amount_funded,
        loan.repaid().record.funded_at == loan.record.funded_at,
        loan.repaid().record.due_at == loan.record.due_at,
{
}

/// A contribution that is not refused leaves the loan in order: funded no
/// further than requested, and with exactly what its ledger sums up to.
pub proof fn lemma_contribution_keeps_order(loan: LoanState, lender: Party, offered: i128, now: u64)
    requires
        loan.wf(),
        loan.contribution_refusal(offered, now) is None,
    ensures
        loan.credited(lender, loan.accepted(offered), now).wf(),
{
    lemma_credit(loan.ledger, lender, loan.accepted(offered));
}

/// A repayment that is not refused leaves the loan in order.
pub proof fn lemma_repayment_keeps_order(loan: LoanState, payer: Party)
    requires
        loan.wf(),
        loan.repayment_refusal(payer) is None,
    ensures
        loan.repaid().wf(),
{
}

/// Replacing a loan by one that is in order leaves the platform in order.
pub proof fn lemma_replacement_keeps_order(state: LedgerState, loan_id: u32, loan: LoanState)
    requires
        state.wf(),
        state.has_loan(loan_id),
        loan.wf(),
    ensures
        state.with_loan(loan_id, loan).wf(),
{
    let after = state.with_loan(loan_id, loan);
    assert forall|i: int| 0 <= i < after.loans.len() implies (#[trigger] after.loans[i]).wf() by {
        if i != loan_id - 1 {
            assert(state.loans[i].wf());
        }
    }
}

/// What is taken of a contribution is never more than was offered and never
/// more than the loan still needs; an offer that covers the need is cut down
/// to exactly the need.
pub proof fn lemma_contribution_is_clamped(loan: LoanState, offered: i128, now: u64)
    requires
        loan.wf(),
        loan.contribution_refusal(offered, now) is None,
    ensures
        0 < loan.accepted(offered) <= offered,
        loan.accepted(offered) <= loan.record.remaining(),
        offered >= loan.record.remaining() ==> loan.accepted(offered) == loan.record.remaining(),
        offered < loan.record.remaining() ==> loan.accepted(offered) == offered,
{
}

/// The principal goes out to the borrower once: on the contribution that
/// first brings the loan to its target, which is also the one that sets the
/// times of funding and of repayment. A loan that has reached its target
/// takes no further contribution, so that neither can happen again.
pub proof fn lemma_funding_completes_once(
    loan: LoanState,
    lender: Party,
    offered: i128,
    fee_rate: u32,
    now: u64,
)
    requires
        loan.wf(),
    ensures
        loan.record.funded() ==> loan.contribution_refusal(offered, now) is Some,
        loan.contribution_refusal(offered, now) is None ==> {
            let after = loan.credited(lender, loan.accepted(offered), now);
            &&& !loan.record.funded()
            &&& loan.disbursement(offered, fee_rate) is Some <==> after.record.funded()
            &&& after.record.funded() ==> after.record.funded_at == now && after.record.due_at
                == now + loan.record.duration_days * SECONDS_PER_DAY
            &&& !after.record.funded() ==> after.record.funded_at == 0 && after.record.due_at == 0
        },
{
}

/// The platform fee is part of the principal: what goes out to the borrower
/// is neither negative nor more than was requested.
pub proof fn lemma_disbursement_within_principal(loan: LoanState, offered: i128, fee_rate: u32)
    requires
        loan.wf(),
        fee_rate <= BPS_DENOMINATOR,
        loan.disbursement(offered, fee_rate) is Some,
    ensures
        0 <= loan.disbursement(offered, fee_rate).unwrap().amount <= loan.record.amount_requested,
        loan.disbursement(offered, fee_rate).unwrap().amount == loan.record.amount_requested - (
        loan.record.amount_requested * fee_rate) / 10000,
{
    lemma_bps_share_bounds(loan.record.amount_requested as int, fee_rate as int);
}

/// The borrower owes the principal and the interest on it, rounded down to a
/// whole unit, which is never more than one and a half times the principal.
pub proof fn lemma_repayment_total(loan: LoanRequest)
    requires
        loan.terms_valid(),
    ensures
        loan.total_repayment() == loan.amount_requested + (loan.amount_requested
            * loan.interest_rate) / 10000,
        loan.amount_requested <= loan.total_repayment() <= loan.amount_requested
            + loan.amount_requested / 2,
{
    lemma_repayment_fits(loan);
}

/// When a funded loan is repaid, no more goes out to the lenders than came in
/// from the borrower, every lender receives at least what the lender put in,
/// and what the rounding leaves in custody is less than one unit for each lender.
pub proof fn lemma_repayment_is_shared_out(loan: LoanState, payouts: Seq<Payout>)
    requires
        loan.wf(),
        loan.record.funded(),
        is_distribution(
            payouts,
            loan.ledger,
            loan.record.total_repayment(),
            loan.record.amount_requested as int,
        ),
    ensures
        payout_total(payouts) <= loan.record.total_repayment(),
        loan.record.total_repayment() - payout_total(payouts) < loan.ledger.len(),
        forall|i: int|
            0 <= i < payouts.len() ==> (#[trigger] payouts[i]).amount >= loan.ledger[i].amount,
{
    let total = loan.record.total_repayment();
    let requested = loan.record.amount_requested as int;
    lemma_repayment_fits(loan.record);
    assert forall|j: int| 0 <= j < loan.ledger.len() implies (#[trigger] loan.ledger[j]).amount
        >= 0 by {}
    lemma_distribution_residual(payouts, loan.ledger, total, requested);
    assert forall|i: int| 0 <= i < payouts.len() implies (#[trigger] payouts[i]).amount
        >= loan.ledger[i].amount by {
        lemma_share_covers_contribution(total, loan.ledger[i].amount as int, requested);
    }
}

/// The bounds on the principal are part of what is admitted: a request at
/// either bound is taken, a request one unit outside is refused on the amount.
pub proof fn lemma_amount_bounds_are_inclusive(
    state: LedgerState,
    interest_rate: u32,
    duration_days: u32,
)
    requires
        state.wf(),
        state.config is Some,
        state.config.unwrap().min_loan_amount <= state.config.unwrap().max_loan_amount,
        state.loans.len() < u32::MAX,
        MIN_INTEREST_RATE <= interest_rate <= MAX_INTEREST_RATE,
        MIN_DURATION_DAYS <= duration_days <= MAX_DURATION_DAYS,
    ensures
        ({
            let config = state.config.unwrap();
            &&& state.request_refusal(config.min_loan_amount, interest_rate, duration_days) is None
            &&& state.request_refusal(config.max_loan_amount, interest_rate, duration_days) is None
            &&& state.request_refusal(
                (config.min_loan_amount - 1) as i128,
                interest_rate,
                duration_days,
            ) == Some(LendingError::RangeViolation)
            &&& state.request_refusal(
                (config.max_loan_amount + 1) as i128,
                interest_rate,
                duration_days,
            ) == Some(LendingError::RangeViolation)
        }),
{
}

/// The bounds on the interest rate and on the duration are part of what is
/// admitted: 500 and 5000 basis points are taken, 499 and 5001 are refused on
/// the rate; 30 and 365 days are taken, 29 and 366 are refused on the duration.
pub proof fn lemma_term_bounds_are_inclusive(state: LedgerState, amount: i128)
    requires
        state.wf(),
        state.config is Some,
        state.config.unwrap().admits(amount),
        state.loans.len() < u32::MAX,
    ensures
        forall|days: u32|
            MIN_DURATION_DAYS <= days <= MAX_DURATION_DAYS ==> {
                &&& #[trigger] state.request_refusal(amount, 500, days) is None
                &&& state.request_refusal(amount, 5000, days) is None
                &&& state.request_refusal(amount, 499, days) == Some(
                    LendingError::InvalidInterestRate,
                )
                &&& state.request_refusal(amount, 5001, days) == Some(
                    LendingError::InvalidInterestRate,
                )
            },
        forall|rate: u32|
            MIN_INTEREST_RATE <= rate <= MAX_INTEREST_RATE ==> {
                &&& #[trigger] state.request_refusal(amount, rate, 30) is None
                &&& state.request_refusal(amount, rate, 365) is None
                &&& state.request_refusal(amount, rate, 29) == Some(LendingError::InvalidDuration)
                &&& state.request_refusal(amount, rate, 366) == Some(LendingError::InvalidDuration)
            },
{
}

/// A loan can be repaid only by its borrower, only once it is funded, and
/// only once: after its repayment the loan refuses the borrower's repayment
/// as inactive, as it refuses every contribution.
pub proof fn lemma_repayment_happens_once(
    loan: LoanState,
    payer: Party,
    lender: Party,
    offered: i128,
    now: u64,
)
    requires
        loan.wf(),
    ensures
        loan.repayment_refusal(payer) is None ==> {
            &&& payer == loan.record.borrower
            &&& loan.record.funded()
            &&& loan.repaid().repayment_refusal(payer) == Some(LendingError::LoanInactive)
            &&& loan.repaid().contribution_refusal(offered, now) == Some(
                LendingError::LoanInactive,
            )
        },
        payer != loan.record.borrower ==> loan.repayment_refusal(payer) == Some(
            LendingError::WrongBorrower,
        ),
        payer == loan.record.borrower && !loan.record.funded() ==> loan.repayment_refusal(payer)
            == Some(LendingError::LoanNotFunded),
{
}

} // verus!
