//! One loan: its terms, its funding state, and the two steps of its life,
//! contribution and repayment.

use vstd::prelude::*;
use crate::error::LendingError;
use crate::fixed_point::{bps_share, mul_div_floor, BPS_DENOMINATOR};
use crate::ledger::{
    credit, distribute, has_distinct_lenders, is_distribution, ledger_credit, ledger_distinct,
    ledger_positive, ledger_total, lemma_credit, lemma_entry_within_total, total_within,
    LenderContribution, Payout,
};
use crate::party::Party;

verus! {

/// The lowest interest rate a loan may carry, in basis points (5%).
pub const MIN_INTEREST_RATE: u32 = 500;

/// The highest interest rate a loan may carry, in basis points (50%).
pub const MAX_INTEREST_RATE: u32 = 5000;

/// The shortest duration of a loan, in days.
pub const MIN_DURATION_DAYS: u32 = 30;

/// The longest duration of a loan, in days.
pub const MAX_DURATION_DAYS: u32 = 365;

/// Seconds in one day.
pub const SECONDS_PER_DAY: u64 = 86400;

/// The largest principal whose repayment at the highest interest rate still
/// fits the amount type: two thirds of the largest amount.
pub const MAX_PRINCIPAL: i128 = 113427455640312821154458202477256070484;

/// The record of one loan.
#[derive(Clone, PartialEq, Eq, Debug)]
pub struct LoanRequest {
    pub borrower: Party,
    /// The principal asked for.
    pub amount_requested: i128,
    /// Interest on the principal, in basis points.
    pub interest_rate: u32,
    pub duration_days: u32,
    /// A short label; the ledger never reads it.
    pub purpose: String,
    /// True from the request until the repayment.
    pub is_active: bool,
    /// What lenders have put in so far.
    pub amount_funded: i128,
    /// When the target was reached; zero until then.
    pub funded_at: u64,
    /// When repayment falls due; zero until the target is reached.
    pub due_at: u64,
}

/// What a contribution sets in motion.
#[derive(Clone, Copy, PartialEq, Eq, Debug)]
pub struct FundingReceipt {
    /// The amount to take from the lender into custody.
    pub collected: i128,
    /// The principal less the platform fee, to pay out to the borrower: present
    /// exactly when this contribution completed the funding.
    pub disbursement: Option<Payout>,
}

/// What a repayment sets in motion.
#[derive(Clone, PartialEq, Eq, Debug)]
pub struct RepaymentReceipt {
    /// The amount to take from the borrower into custody: principal and interest.
    pub collected: i128,
    /// One payout per lender, in the ledger's order.
    pub payouts: Vec<Payout>,
}

/// Whether a funding completed at `now` can be recorded: the reading is not
/// the zero that marks an unfunded loan, and the due time fits the clock.
pub open spec fn clock_usable(now: u64, duration_days: u32) -> bool {
    0 < now && now + duration_days * SECONDS_PER_DAY <= u64::MAX
}

impl LoanRequest {
    /// The funding target is reached.
    pub open spec fn funded(self) -> bool {
        self.amount_funded >= self.amount_requested
    }

    /// What is still needed to reach the target.
    pub open spec fn remaining(self) -> int {
        if self.funded() {
            0
        } else {
            self.amount_requested - self.amount_funded
        }
    }

    /// Interest on the principal, rounded down.
    pub open spec fn interest(self) -> int {
        bps_share(self.amount_requested as int, self.interest_rate as int)
    }

    /// What the borrower owes: principal and interest.
    pub open spec fn total_repayment(self) -> int {
        self.amount_requested + self.interest()
    }

    /// The fee the platform keeps of the principal at the given rate, rounded down.
    pub open spec fn platform_fee(self, fee_rate: u32) -> int {
        bps_share(self.amount_requested as int, fee_rate as int)
    }

    /// The terms lie within what any loan may have.
    pub open spec fn terms_valid(self) -> bool {
        &&& 0 < self.amount_requested <= MAX_PRINCIPAL
        &&& MIN_INTEREST_RATE <= self.interest_rate <= MAX_INTEREST_RATE
        &&& MIN_DURATION_DAYS <= self.duration_days <= MAX_DURATION_DAYS
    }

    /// The record of a loan as it is filed on request.
    pub open spec fn fresh(
        borrower: Party,
        amount: i128,
        interest_rate: u32,
        duration_days: u32,
        purpose: String,
    ) -> LoanRequest {
        LoanRequest {
            borrower,
            amount_requested: amount,
            interest_rate,
            duration_days,
            purpose,
            is_active: true,
            amount_funded: 0,
            funded_at: 0,
            due_at: 0,
        }
    }
}

/// A copy of the record.
pub(crate) fn copy_record(record: &LoanRequest) -> (copy: LoanRequest)
    ensures
        copy == *record,
{
    LoanRequest {
        borrower: record.borrower,
        amount_requested: record.amount_requested,
        interest_rate: record.interest_rate,
        duration_days: record.duration_days,
        purpose: record.purpose.clone(),
        is_active: record.is_active,
        amount_funded: record.amount_funded,
        funded_at: record.funded_at,
        due_at: record.due_at,
    }
}

/// A loan as the ledger sees it: its record and who has funded it.
pub struct LoanState {
    pub record: LoanRequest,
    pub ledger: Seq<LenderContribution>,
}

impl LoanState {
    /// What must hold of every loan at every moment.
    pub open spec fn wf(self) -> bool {
        &&& self.record.terms_valid()
        &&& 0 <= self.record.amount_funded <= self.record.amount_requested
        &&& ledger_distinct(self.ledger)
        &&& ledger_positive(self.ledger)
        &&& ledger_total(self.ledger) == self.record.amount_funded
        &&& if self.record.funded() {
            &&& 0 < self.record.funded_at
            &&& self.record.due_at == self.record.funded_at + self.record.duration_days
                * SECONDS_PER_DAY
        } else {
            &&& self.record.funded_at == 0
            &&& self.record.due_at == 0
            &&& self.record.is_active
        }
    }

    /// A loan as it stands right after the request.
    pub open spec fn fresh(record: LoanRequest) -> LoanState {
        LoanState { record, ledger: Seq::empty() }
    }

    /// Why a contribution of `offered` at `now` is refused, if it is.
    pub open spec fn contribution_refusal(self, offered: i128, now: u64) -> Option<LendingError> {
        if !self.record.is_active {
            Some(LendingError::LoanInactive)
        } else if offered <= 0 {
            Some(LendingError::InvalidAmount)
        } else if self.record.funded() {
            Some(LendingError::LoanFullyFunded)
        } else if offered >= self.record.remaining() && !clock_usable(
            now,
            self.record.duration_days,
        ) {
            Some(LendingError::InvalidTimestamp)
        } else {
            None
        }
    }

    /// What is taken of an offered contribution: no more than is still needed.
    pub open spec fn accepted(self, offered: i128) -> int {
        if offered >= self.record.remaining() {
            self.record.remaining()
        } else {
            offered as int
        }
    }

    /// The loan after `accepted` has been taken from the lender at `now`.
    pub open spec fn credited(self, lender: Party, accepted: int, now: u64) -> LoanState {
        let completes = accepted >= self.record.remaining();
        LoanState {
            record: LoanRequest {
                amount_funded: (self.record.amount_funded + accepted) as i128,
                funded_at: if completes {
                    now
                } else {
                    self.record.funded_at
                },
                due_at: if completes {
                    (now + self.record.duration_days * SECONDS_PER_DAY) as u64
                } else {
                    self.record.due_at
                },
                ..self.record
            },
            ledger: ledger_credit(self.ledger, lender, accepted),
        }
    }

    /// What goes out to the borrower on a contribution of `offered`: the
    /// principal less the platform fee if the contribution reaches the target,
    /// nothing otherwise.
    pub open spec fn disbursement(self, offered: i128, fee_rate: u32) -> Option<Payout> {
        if offered >= self.record.remaining() {
            Some(
                Payout {
                    to: self.record.borrower,
                    amount: (self.record.amount_requested - self.record.platform_fee(fee_rate)) as i128,
                },
            )
        } else {
            None
        }
    }

    /// Why a repayment offered by `payer` is refused, if it is.
    pub open spec fn repayment_refusal(self, payer: Party) -> Option<LendingError> {
        if self.record.borrower != payer {
            Some(LendingError::WrongBorrower)
        } else if !self.record.funded() {
            Some(LendingError::LoanNotFunded)
        } else if !self.record.is_active {
            Some(LendingError::LoanInactive)
        } else {
            None
        }
    }

    /// The loan after its repayment: closed, and otherwise as it was.
    pub open spec fn repaid(self) -> LoanState {
        LoanState { record: LoanRequest { is_active: false, ..self.record }, ledger: self.ledger }
    }
}

/// A loan record together with its contribution ledger.
pub(crate) struct LoanAccount {
    record: LoanRequest,
    ledger: Vec<LenderContribution>,
}

impl View for LoanAccount {
    type V = LoanState;

    closed spec fn view(&self) -> LoanState {
        LoanState { record: self.record, ledger: self.ledger@ }
    }
}

/// Interest and fee never exceed the principal they are taken of.
pub proof fn lemma_bps_share_bounds(amount: int, rate_bps: int)
    requires
        0 <= amount,
        0 <= rate_bps <= BPS_DENOMINATOR,
    ensures
        0 <= bps_share(amount, rate_bps) <= amount,
{
    assert(0 <= amount * rate_bps <= amount * 10000) by (nonlinear_arith)
        requires
            0 <= amount,
            0 <= rate_bps <= 10000,
    ;
    vstd::arithmetic::div_mod::lemma_div_is_ordered(amount * rate_bps, amount * 10000, 10000);
    vstd::arithmetic::div_mod::lemma_div_pos_is_pos(amount * rate_bps, 10000);
    vstd::arithmetic::div_mod::lemma_div_multiples_vanish(amount, 10000);
    assert(amount * 10000 == 10000 * amount);
}

/// At no permitted rate does the interest exceed half the principal, so the
/// repayment of a permitted principal fits the amount type.
pub proof fn lemma_repayment_fits(loan: LoanRequest)
    requires
        loan.terms_valid(),
    ensures
        0 <= loan.interest() <= loan.amount_requested / 2,
        loan.amount_requested <= loan.total_repayment() <= i128::MAX,
{
    let a = loan.amount_requested as int;
    let r = loan.interest_rate as int;
    assert(0 <= a * r <= a * 5000) by (nonlinear_arith)
        requires
            0 <= a,
            0 <= r <= 5000,
    ;
    vstd::arithmetic::div_mod::lemma_div_is_ordered(a * r, a * 5000, 10000);
    vstd::arithmetic::div_mod::lemma_div_pos_is_pos(a * r, 10000);
    assert((a * 5000) / 10000 == a / 2);
}

impl LoanAccount {
    /// Opens the account of a loan just requested.
    pub(crate) fn open(record: LoanRequest) -> (account: LoanAccount)
        ensures
            account@ == LoanState::fresh(record),
    {
        LoanAccount { record, ledger: Vec::new() }
    }

    /// Puts an account together from a record and a ledger, if the two are in
    /// order and agree with each other.
    pub(crate) fn restore(record: LoanRequest, ledger: Vec<LenderContribution>) -> (account: Option<
        LoanAccount,
    >)
        ensures
            match account {
                Some(account) => account@ == (LoanState { record, ledger: ledger@ }) && account@.wf(),
                None => !(LoanState { record, ledger: ledger@ }).wf(),
            },
    {
        if record.amount_requested <= 0 || record.amount_requested > MAX_PRINCIPAL {
            return None;
        }
        if record.interest_rate < MIN_INTEREST_RATE || record.interest_rate > MAX_INTEREST_RATE {
            return None;
        }
        if record.duration_days < MIN_DURATION_DAYS || record.duration_days > MAX_DURATION_DAYS {
            return None;
        }
        if record.amount_funded < 0 || record.amount_funded > record.amount_requested {
            return None;
        }
        if record.amount_funded >= record.amount_requested {
            let span: u64 = record.duration_days as u64 * SECONDS_PER_DAY;
            if record.funded_at == 0 || record.funded_at > u64::MAX - span || record.due_at
                != record.funded_at + span {
                return None;
            }
        } else if record.funded_at != 0 || record.due_at != 0 || !record.is_active {
            return None;
        }
        if !has_distinct_lenders(&ledger) {
            return None;
        }
        match total_within(&ledger, record.amount_funded) {
            Some(total) => {
                if total != record.amount_funded {
                    return None;
                }
            },
            None => {
                return None;
            },
        }
        Some(LoanAccount { record, ledger })
    }

    pub(crate) fn record(&self) -> (record: &LoanRequest)
        ensures
            *record == self@.record,
    {
        &self.record
    }

    pub(crate) fn ledger(&self) -> (ledger: &Vec<LenderContribution>)
        ensures
            ledger@ == self@.ledger,
    {
        &self.ledger
    }

    /// Takes a contribution: no more than is still needed, and with the last
    /// of it the funding is complete and the principal, less the platform
    /// fee, goes out to the borrower.
    pub(crate) fn contribute(&mut self, lender: Party, offered: i128, fee_rate: u32, now: u64) -> (res:
        Result<FundingReceipt, LendingError>)
        requires
            old(self)@.wf(),
            fee_rate <= BPS_DENOMINATOR,
        ensures
            final(self)@.wf(),
            match res {
                Err(e) => {
                    &&& old(self)@.contribution_refusal(offered, now) == Some(e)
                    &&& final(self)@ == old(self)@
                },
                Ok(receipt) => {
                    &&& old(self)@.contribution_refusal(offered, now) is None
                    &&& receipt.collected == old(self)@.accepted(offered)
                    &&& receipt.disbursement == old(self)@.disbursement(offered, fee_rate)
                    &&& final(self)@ == old(self)@.credited(lender, receipt.collected as int, now)
                },
            },
    {
        if !self.record.is_active {
            return Err(LendingError::LoanInactive);
        }
        if offered <= 0 {
            return Err(LendingError::InvalidAmount);
        }
        if self.record.amount_funded >= self.record.amount_requested {
            return Err(LendingError::LoanFullyFunded);
        }
        let remaining: i128 = self.record.amount_requested - self.record.amount_funded;
        let completes: bool = offered >= remaining;
        let accepted: i128 = if completes {
            remaining
        } else {
            offered
        };
        let mut disbursement: Option<Payout> = None;
        if completes {
            let span: u64 = self.record.duration_days as u64 * SECONDS_PER_DAY;
            if now == 0 || now > u64::MAX - span {
                return Err(LendingError::InvalidTimestamp);
            }
            let fee: i128 = mul_div_floor(
                self.record.amount_requested,
                fee_rate as i128,
                BPS_DENOMINATOR as i128,
            );
            disbursement =
            Some(Payout { to: self.record.borrower, amount: self.record.amount_requested - fee });
            self.record.funded_at = now;
            self.record.due_at = now + span;
        }
        proof {
            lemma_credit(self.ledger@, lender, accepted as int);
        }
        credit(&mut self.ledger, lender, accepted);
        self.record.amount_funded = self.record.amount_funded + accepted;
        Ok(FundingReceipt { collected: accepted, disbursement })
    }

    /// Takes the repayment of a funded loan from its borrower: principal and
    /// interest come in, every lender's share goes out, and the loan is closed.
    pub(crate) fn repay(&mut self, payer: Party) -> (res: Result<RepaymentReceipt, LendingError>)
        requires
            old(self)@.wf(),
        ensures
            final(self)@.wf(),
            match res {
                Err(e) => {
                    &&& old(self)@.repayment_refusal(payer) == Some(e)
                    &&& final(self)@ == old(self)@
                },
                Ok(receipt) => {
                    &&& old(self)@.repayment_refusal(payer) is None
                    &&& receipt.collected == old(self)@.record.total_repayment()
                    &&& is_distribution(
                        receipt.payouts@,
                        old(self)@.ledger,
                        receipt.collected as int,
                        old(self)@.record.amount_requested as int,
                    )
                    &&& final(self)@ == old(self)@.repaid()
                },
            },
    {
        if self.record.borrower != payer {
            return Err(LendingError::WrongBorrower);
        }
        if self.record.amount_funded < self.record.amount_requested {
            return Err(LendingError::LoanNotFunded);
        }
        if !self.record.is_active {
            return Err(LendingError::LoanInactive);
        }
        proof {
            lemma_repayment_fits(self.record);
        }
        let interest: i128 = mul_div_floor(
            self.record.amount_requested,
            self.record.interest_rate as i128,
            BPS_DENOMINATOR as i128,
        );
        let total: i128 = self.record.amount_requested + interest;
        proof {
            assert forall|i: int| 0 <= i < self.ledger@.len() implies 0 <= (
            #[trigger] self.ledger@[i]).amount <= self.record.amount_requested by {
                assert forall|j: int| 0 <= j < self.ledger@.len() implies (
                #[trigger] self.ledger@[j]).amount >= 0 by {}
                lemma_entry_within_total(self.ledger@, i);
            }
        }
        let payouts: Vec<Payout> = distribute(&self.ledger, total, self.record.amount_requested);
        self.record.is_active = false;
        Ok(RepaymentReceipt { collected: total, payouts })
    }
}

} // verus!
