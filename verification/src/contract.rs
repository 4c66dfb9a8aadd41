//! The lending platform: its configuration, the registry of its loans, and
//! the operations that borrowers and lenders carry out on them.

use vstd::prelude::*;
use crate::error::LendingError;
use crate::fixed_point::BPS_DENOMINATOR;
use crate::ledger::{is_distribution, LenderContribution};
use crate::loan::{
    copy_record, FundingReceipt, LoanAccount, LoanRequest, LoanState, RepaymentReceipt, MAX_DURATION_DAYS,
    MAX_INTEREST_RATE, MAX_PRINCIPAL, MIN_DURATION_DAYS, MIN_INTEREST_RATE,
};
use crate::party::Party;

verus! {

/// What the platform is set up with, once and for all.
#[derive(Clone, Copy, PartialEq, Eq, Debug)]
pub struct PlatformConfig {
    /// The asset that all amounts are counted in.
    pub asset: Party,
    pub min_loan_amount: i128,
    pub max_loan_amount: i128,
    /// The fee kept of every principal paid out, in basis points.
    pub platform_fee_rate: u32,
}

impl PlatformConfig {
    /// Every principal that the configuration admits is positive and can be
    /// repaid with interest, and the fee is no more than the whole.
    pub open spec fn valid(self) -> bool {
        &&& 0 < self.min_loan_amount
        &&& self.max_loan_amount <= MAX_PRINCIPAL
        &&& self.platform_fee_rate <= BPS_DENOMINATOR
    }

    /// The amount lies within the configured bounds, both included.
    pub open spec fn admits(self, amount: i128) -> bool {
        self.min_loan_amount <= amount <= self.max_loan_amount
    }
}

/// The platform as a value: its configuration, if set, and its loans in the
/// order of their identifiers, the first of which is 1.
pub struct LedgerState {
    pub config: Option<PlatformConfig>,
    pub loans: Seq<LoanState>,
}

impl LedgerState {
    /// What must hold of the platform at every moment.
    pub open spec fn wf(self) -> bool {
        &&& self.loans.len() <= u32::MAX
        &&& match self.config {
            Some(config) => config.valid(),
            None => self.loans.len() == 0,
        }
        &&& forall|i: int| 0 <= i < self.loans.len() ==> (#[trigger] self.loans[i]).wf()
    }

    /// A loan carries this identifier.
    pub open spec fn has_loan(self, loan_id: u32) -> bool {
        1 <= loan_id <= self.loans.len()
    }

    /// The loan with this identifier.
    pub open spec fn loan(self, loan_id: u32) -> LoanState {
        self.loans[loan_id - 1]
    }

    /// The platform with one loan replaced.
    pub open spec fn with_loan(self, loan_id: u32, loan: LoanState) -> LedgerState {
        LedgerState { loans: self.loans.update(loan_id - 1, loan), ..self }
    }

    /// The platform with one more loan, filed under the next identifier.
    pub open spec fn with_new_loan(self, record: LoanRequest) -> LedgerState {
        LedgerState { loans: self.loans.push(LoanState::fresh(record)), ..self }
    }

    /// Why the configuration cannot be set to `candidate`, if it cannot.
    pub open spec fn initialization_refusal(self, candidate: PlatformConfig) -> Option<
        LendingError,
    > {
        if self.config is Some {
            Some(LendingError::AlreadyInitialized)
        } else if !candidate.valid() {
            Some(LendingError::InvalidConfig)
        } else {
            None
        }
    }

    /// Why a loan on these terms cannot be requested, if it cannot.
    pub open spec fn request_refusal(
        self,
        amount: i128,
        interest_rate: u32,
        duration_days: u32,
    ) -> Option<LendingError> {
        match self.config {
            None => Some(LendingError::NotInitialized),
            Some(config) => if !config.admits(amount) {
                Some(LendingError::RangeViolation)
            } else if !(MIN_INTEREST_RATE <= interest_rate <= MAX_INTEREST_RATE) {
                Some(LendingError::InvalidInterestRate)
            } else if !(MIN_DURATION_DAYS <= duration_days <= MAX_DURATION_DAYS) {
                Some(LendingError::InvalidDuration)
            } else if self.loans.len() >= u32::MAX {
                Some(LendingError::RegistryFull)
            } else {
                None
            },
        }
    }

    /// Why a contribution of `offered` to the loan at `now` is refused, if it is.
    pub open spec fn contribution_refusal(self, loan_id: u32, offered: i128, now: u64) -> Option<
        LendingError,
    > {
        if !self.has_loan(loan_id) {
            Some(LendingError::NotFound)
        } else {
            self.loan(loan_id).contribution_refusal(offered, now)
        }
    }

    /// Why a repayment of the loan offered by `payer` is refused, if it is.
    pub open spec fn repayment_refusal(self, payer: Party, loan_id: u32) -> Option<LendingError> {
        if !self.has_loan(loan_id) {
            Some(LendingError::NotFound)
        } else {
            self.loan(loan_id).repayment_refusal(payer)
        }
    }

    /// The fee rate in force: zero while the platform is not set up.
    pub open spec fn fee_rate(self) -> u32 {
        match self.config {
            Some(config) => config.platform_fee_rate,
            None => 0,
        }
    }
}

/// The platform that a configuration, the records of its loans and their
/// ledgers, each in the order of the loans' identifiers, stand for.
pub open spec fn assembled(
    config: Option<PlatformConfig>,
    records: Seq<LoanRequest>,
    ledgers: Seq<Vec<LenderContribution>>,
) -> LedgerState {
    LedgerState {
        config,
        loans: Seq::new(
            records.len(),
            |i: int| LoanState { record: records[i], ledger: ledgers[i]@ },
        ),
    }
}

/// The lending platform.
pub struct MicrolendingContract {
    config: Option<PlatformConfig>,
    accounts: Vec<LoanAccount>,
}

impl View for MicrolendingContract {
    type V = LedgerState;

    closed spec fn view(&self) -> LedgerState {
        LedgerState {
            config: self.config,
            loans: Seq::new(self.accounts@.len(), |i: int| self.accounts@[i]@),
        }
    }
}

impl MicrolendingContract {
    #[verifier::type_invariant]
    spec fn inv(self) -> bool {
        self@.wf()
    }

    /// A platform that is not set up yet and has no loans.
    pub fn new() -> (contract: MicrolendingContract)
        ensures
            contract@.wf(),
            contract@.config is None,
            contract@.loans.len() == 0,
    {
        MicrolendingContract { config: None, accounts: Vec::new() }
    }

    /// Puts a platform together from what was kept of it: its configuration,
    /// the records of its loans and their ledgers. Nothing comes of parts that
    /// do not fit together or are not in order.
    pub fn restore(
        config: Option<PlatformConfig>,
        records: &Vec<LoanRequest>,
        ledgers: &Vec<Vec<LenderContribution>>,
    ) -> (contract: Option<MicrolendingContract>)
        ensures
            contract is Some <==> records.len() == ledgers.len() && assembled(
                config,
                records@,
                ledgers@,
            ).wf(),
            contract matches Some(contract) ==> contract@ == assembled(
                config,
                records@,
                ledgers@,
            ),
    {
        let ghost whole = assembled(config, records@, ledgers@);
        if records.len() != ledgers.len() || records.len() > u32::MAX as usize {
            return None;
        }
        match config {
            Some(config) => {
                if config.min_loan_amount <= 0 || config.max_loan_amount > MAX_PRINCIPAL
                    || config.platform_fee_rate > BPS_DENOMINATOR {
                    return None;
                }
            },
            None => {
                if records.len() != 0 {
                    return None;
                }
            },
        }
        let mut accounts: Vec<LoanAccount> = Vec::new();
        let mut i: usize = 0;
        while i < records.len()
            invariant
                i <= records.len(),
                records.len() == ledgers.len(),
                whole == assembled(config, records@, ledgers@),
                accounts.len() == i,
                forall|k: int| 0 <= k < i ==> (#[trigger] accounts@[k])@ == whole.loans[k],
                forall|k: int| 0 <= k < i ==> (#[trigger] whole.loans[k]).wf(),
            decreases records.len() - i,
        {
            match LoanAccount::restore(copy_record(&records[i]), ledgers[i].clone()) {
                Some(account) => {
                    accounts.push(account);
                },
                None => {
                    assert(!whole.loans[i as int].wf());
                    return None;
                },
            }
            i += 1;
        }
        let contract = MicrolendingContract { config, accounts };
        assert(contract@.loans =~= whole.loans);
        Some(contract)
    }

    /// Sets the platform up. This can be done once, and only with a
    /// configuration under which every admitted loan can run its course.
    pub fn initialize(
        &mut self,
        asset: Party,
        min_loan_amount: i128,
        max_loan_amount: i128,
        platform_fee_rate: u32,
    ) -> (res: Result<(), LendingError>)
        ensures
            final(self)@.wf(),
            ({
                let candidate = PlatformConfig {
                    asset,
                    min_loan_amount,
                    max_loan_amount,
                    platform_fee_rate,
                };
                match res {
                    Err(e) => {
                        &&& old(self)@.initialization_refusal(candidate) == Some(e)
                        &&& final(self)@ == old(self)@
                    },
                    Ok(_) => {
                        &&& old(self)@.initialization_refusal(candidate) is None
                        &&& final(self)@ == LedgerState { config: Some(candidate), ..old(self)@ }
                    },
                }
            }),
    {
        proof {
            use_type_invariant(&*self);
        }
        if self.config.is_some() {
            return Err(LendingError::AlreadyInitialized);
        }
        if min_loan_amount <= 0 || max_loan_amount > MAX_PRINCIPAL || platform_fee_rate
            > BPS_DENOMINATOR {
            return Err(LendingError::InvalidConfig);
        }
        self.config =
        Some(PlatformConfig { asset, min_loan_amount, max_loan_amount, platform_fee_rate });
        Ok(())
    }

    /// Files a loan request and returns its identifier: one more than the
    /// number of loans filed before.
    pub fn request_loan(
        &mut self,
        borrower: Party,
        amount: i128,
        interest_rate: u32,
        duration_days: u32,
        purpose: String,
    ) -> (res: Result<u32, LendingError>)
        ensures
            final(self)@.wf(),
            match res {
                Err(e) => {
                    &&& old(self)@.request_refusal(amount, interest_rate, duration_days) == Some(e)
                    &&& final(self)@ == old(self)@
                },
                Ok(loan_id) => {
                    &&& old(self)@.request_refusal(amount, interest_rate, duration_days) is None
                    &&& loan_id == old(self)@.loans.len() + 1
                    &&& final(self)@ == old(self)@.with_new_loan(
                        LoanRequest::fresh(borrower, amount, interest_rate, duration_days, purpose),
                    )
                },
            },
    {
        proof {
            use_type_invariant(&*self);
        }
        let config: PlatformConfig = match self.config {
            Some(config) => config,
            None => {
                return Err(LendingError::NotInitialized);
            },
        };
        if amount < config.min_loan_amount || amount > config.max_loan_amount {
            return Err(LendingError::RangeViolation);
        }
        if interest_rate < MIN_INTEREST_RATE || interest_rate > MAX_INTEREST_RATE {
            return Err(LendingError::InvalidInterestRate);
        }
        if duration_days < MIN_DURATION_DAYS || duration_days > MAX_DURATION_DAYS {
            return Err(LendingError::InvalidDuration);
        }
        if self.accounts.len() >= u32::MAX as usize {
            return Err(LendingError::RegistryFull);
        }
        let record = LoanRequest {
            borrower,
            amount_requested: amount,
            interest_rate,
            duration_days,
            purpose,
            is_active: true,
            amount_funded: 0,
            funded_at: 0,
            due_at: 0,
        };
        let ghost before = self@;
        let mut accounts: Vec<LoanAccount> = Vec::new();
        core::mem::swap(&mut self.accounts, &mut accounts);
        accounts.push(LoanAccount::open(record));
        let loan_id: u32 = accounts.len() as u32;
        proof {
            assert forall|i: int| 0 <= i < accounts@.len() implies (#[trigger] accounts@[i])@.wf() by {
                if i < before.loans.len() {
                    assert(before.loans[i].wf());
                }
            }
        }
        self.accounts = accounts;
        proof {
            assert(self@.loans =~= before.with_new_loan(record).loans);
        }
        Ok(loan_id)
    }

    /// Takes a lender's contribution to a loan at the clock reading `now`.
    ///
    /// No more is taken than the loan still needs. The contribution that
    /// reaches the target is the one, and the only one, on which the
    /// principal less the platform fee goes out to the borrower and the
    /// times of funding and of repayment are set.
    pub fn contribute_to_loan(
        &mut self,
        lender: Party,
        loan_id: u32,
        contribution_amount: i128,
        now: u64,
    ) -> (res: Result<FundingReceipt, LendingError>)
        ensures
            final(self)@.wf(),
            match res {
                Err(e) => {
                    &&& old(self)@.contribution_refusal(loan_id, contribution_amount, now) == Some(
                        e,
                    )
                    &&& final(self)@ == old(self)@
                },
                Ok(receipt) => {
                    &&& old(self)@.contribution_refusal(loan_id, contribution_amount, now) is None
                    &&& receipt.collected == old(self)@.loan(loan_id).accepted(contribution_amount)
                    &&& receipt.disbursement == old(self)@.loan(loan_id).disbursement(
                        contribution_amount,
                        old(self)@.fee_rate(),
                    )
                    &&& final(self)@ == old(self)@.with_loan(
                        loan_id,
                        old(self)@.loan(loan_id).credited(lender, receipt.collected as int, now),
                    )
                },
            },
    {
        proof {
            use_type_invariant(&*self);
        }
        if loan_id == 0 || loan_id as usize > self.accounts.len() {
            return Err(LendingError::NotFound);
        }
        let fee_rate: u32 = match self.config {
            Some(config) => config.platform_fee_rate,
            None => 0,
        };
        let at: usize = (loan_id - 1) as usize;
        let ghost before = self@;
        assert(before.loans[at as int].wf());
        let mut accounts: Vec<LoanAccount> = Vec::new();
        core::mem::swap(&mut self.accounts, &mut accounts);
        let res = accounts[at].contribute(lender, contribution_amount, fee_rate, now);
        proof {
            assert forall|i: int| 0 <= i < accounts@.len() implies (#[trigger] accounts@[i])@.wf() by {
                if i != at {
                    assert(before.loans[i].wf());
                }
            }
        }
        self.accounts = accounts;
        proof {
            match res {
                Err(_) => {
                    assert(self@.loans =~= before.loans);
                },
                Ok(receipt) => {
                    assert(self@.loans =~= before.with_loan(
                        loan_id,
                        before.loan(loan_id).credited(lender, receipt.collected as int, now),
                    ).loans);
                },
            }
        }
        res
    }

    /// Takes the repayment of a loan from its borrower.
    ///
    /// The borrower owes the principal and the interest on it. Every lender
    /// receives of that total the part that matches the lender's part of the
    /// principal, rounded down; what the rounding leaves stays in custody.
    pub fn repay_loan(&mut self, borrower: Party, loan_id: u32) -> (res: Result<
        RepaymentReceipt,
        LendingError,
    >)
        ensures
            final(self)@.wf(),
            match res {
                Err(e) => {
                    &&& old(self)@.repayment_refusal(borrower, loan_id) == Some(e)
                    &&& final(self)@ == old(self)@
                },
                Ok(receipt) => {
                    &&& old(self)@.repayment_refusal(borrower, loan_id) is None
                    &&& receipt.collected == old(self)@.loan(loan_id).record.total_repayment()
                    &&& is_distribution(
                        receipt.payouts@,
                        old(self)@.loan(loan_id).ledger,
                        receipt.collected as int,
                        old(self)@.loan(loan_id).record.amount_requested as int,
                    )
                    &&& final(self)@ == old(self)@.with_loan(
                        loan_id,
                        old(self)@.loan(loan_id).repaid(),
                    )
                },
            },
    {
        proof {
            use_type_invariant(&*self);
        }
        if loan_id == 0 || loan_id as usize > self.accounts.len() {
            return Err(LendingError::NotFound);
        }
        let at: usize = (loan_id - 1) as usize;
        let ghost before = self@;
        assert(before.loans[at as int].wf());
        let mut accounts: Vec<LoanAccount> = Vec::new();
        core::mem::swap(&mut self.accounts, &mut accounts);
        let res = accounts[at].repay(borrower);
        proof {
            assert forall|i: int| 0 <= i < accounts@.len() implies (#[trigger] accounts@[i])@.wf() by {
                if i != at {
                    assert(before.loans[i].wf());
                }
            }
        }
        self.accounts = accounts;
        proof {
            match res {
                Err(_) => {
                    assert(self@.loans =~= before.loans);
                },
                Ok(_) => {
                    assert(self@.loans =~= before.with_loan(
                        loan_id,
                        before.loan(loan_id).repaid(),
                    ).loans);
                },
            }
        }
        res
    }

    /// The record of a loan.
    pub fn get_loan(&self, loan_id: u32) -> (res: Result<LoanRequest, LendingError>)
        ensures
            res == if self@.has_loan(loan_id) {
                Ok::<LoanRequest, LendingError>(self@.loan(loan_id).record)
            } else {
                Err(LendingError::NotFound)
            },
    {
        if loan_id == 0 || loan_id as usize > self.accounts.len() {
            return Err(LendingError::NotFound);
        }
        Ok(copy_record(self.accounts[(loan_id - 1) as usize].record()))
    }

    /// Who has contributed what to a loan: nothing for an identifier that no
    /// loan carries.
    pub fn get_loan_contributions(&self, loan_id: u32) -> (entries: Vec<LenderContribution>)
        ensures
            entries@ == if self@.has_loan(loan_id) {
                self@.loan(loan_id).ledger
            } else {
                Seq::<LenderContribution>::empty()
            },
    {
        if loan_id == 0 || loan_id as usize > self.accounts.len() {
            return Vec::new();
        }
        self.accounts[(loan_id - 1) as usize].ledger().clone()
    }

    /// The number of loans filed, which is also the latest identifier given out.
    pub fn get_loan_count(&self) -> (count: u32)
        ensures
            count == self@.loans.len(),
    {
        proof {
            use_type_invariant(self);
        }
        self.accounts.len() as u32
    }

    /// Whether a loan has reached its funding target.
    pub fn is_loan_funded(&self, loan_id: u32) -> (res: Result<bool, LendingError>)
        ensures
            res == if self@.has_loan(loan_id) {
                Ok::<bool, LendingError>(self@.loan(loan_id).record.funded())
            } else {
                Err(LendingError::NotFound)
            },
    {
        if loan_id == 0 || loan_id as usize > self.accounts.len() {
            return Err(LendingError::NotFound);
        }
        let record: &LoanRequest = self.accounts[(loan_id - 1) as usize].record();
        Ok(record.amount_funded >= record.amount_requested)
    }

    /// What a loan still needs to reach its funding target.
    pub fn get_remaining_amount(&self, loan_id: u32) -> (res: Result<i128, LendingError>)
        ensures
            match res {
                Ok(amount) => self@.has_loan(loan_id) && amount == self@.loan(
                    loan_id,
                ).record.remaining(),
                Err(e) => !self@.has_loan(loan_id) && e == LendingError::NotFound,
            },
    {
        proof {
            use_type_invariant(self);
        }
        if loan_id == 0 || loan_id as usize > self.accounts.len() {
            return Err(LendingError::NotFound);
        }
        let at: usize = (loan_id - 1) as usize;
        assert(self@.loans[at as int].wf());
        let record: &LoanRequest = self.accounts[at].record();
        if record.amount_funded >= record.amount_requested {
            Ok(0)
        } else {
            Ok(record.amount_requested - record.amount_funded)
        }
    }

    /// The configuration, once the platform is set up.
    pub fn config(&self) -> (config: Option<PlatformConfig>)
        ensures
            config == self@.config,
    {
        self.config
    }
}

} // verus!
