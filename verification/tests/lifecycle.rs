use microlending::{
    LenderContribution, LendingError, MicrolendingContract, Party, PartyKind, Payout,
};

const NOON: u64 = 1_700_000_000;

fn account(tag: u8) -> Party {
    Party { kind: PartyKind::Account, key: [tag; 32] }
}

fn asset() -> Party {
    Party { kind: PartyKind::Contract, key: [0xaa; 32] }
}

fn platform(min: i128, max: i128, fee_bps: u32) -> MicrolendingContract {
    let mut platform = MicrolendingContract::new();
    assert_eq!(platform.initialize(asset(), min, max, fee_bps), Ok(()));
    platform
}

fn sum(entries: &[LenderContribution]) -> i128 {
    entries.iter().map(|entry| entry.amount).sum()
}

#[test]
fn two_lenders_fund_and_are_repaid() {
    let borrower = account(1);
    let first = account(2);
    let second = account(3);
    let mut platform = platform(100, 10000, 250);
    let id = platform.request_loan(borrower, 1000, 1000, 90, String::from("tools")).unwrap();
    assert_eq!(id, 1);
    assert_eq!(platform.get_loan(1).unwrap().amount_funded, 0);

    let receipt = platform.contribute_to_loan(first, 1, 600, NOON).unwrap();
    assert_eq!(receipt.collected, 600);
    assert_eq!(receipt.disbursement, None);
    assert_eq!(platform.get_loan(1).unwrap().amount_funded, 600);

    let receipt = platform.contribute_to_loan(second, 1, 600, NOON + 500).unwrap();
    assert_eq!(receipt.collected, 400);
    assert_eq!(receipt.disbursement, Some(Payout { to: borrower, amount: 975 }));
    let loan = platform.get_loan(1).unwrap();
    assert_eq!(loan.amount_funded, 1000);
    assert_eq!(loan.funded_at, NOON + 500);
    assert_eq!(loan.due_at, NOON + 500 + 90 * 86400);

    let repayment = platform.repay_loan(borrower, 1).unwrap();
    assert_eq!(repayment.collected, 1100);
    assert_eq!(
        repayment.payouts,
        vec![Payout { to: first, amount: 660 }, Payout { to: second, amount: 440 }]
    );
    assert!(!platform.get_loan(1).unwrap().is_active);
}

#[test]
fn request_files_a_fresh_record() {
    let borrower = account(1);
    let mut platform = platform(100, 10000, 0);
    assert_eq!(platform.get_loan_count(), 0);
    let id = platform.request_loan(borrower, 2500, 750, 120, String::from("seeds")).unwrap();
    assert_eq!(id, 1);
    let loan = platform.get_loan(id).unwrap();
    assert_eq!(loan.borrower, borrower);
    assert_eq!(loan.amount_requested, 2500);
    assert_eq!(loan.interest_rate, 750);
    assert_eq!(loan.duration_days, 120);
    assert_eq!(loan.purpose, "seeds");
    assert!(loan.is_active);
    assert_eq!(loan.amount_funded, 0);
    assert_eq!(loan.funded_at, 0);
    assert_eq!(loan.due_at, 0);
    assert_eq!(platform.get_loan_contributions(id), vec![]);
    assert_eq!(platform.get_loan_count(), 1);
}

#[test]
fn identifiers_count_up_from_one() {
    let mut platform = platform(1, 1000, 0);
    for expected in 1..=5u32 {
        let id = platform
            .request_loan(account(expected as u8), 10, 500, 30, String::from("stock"))
            .unwrap();
        assert_eq!(id, expected);
        assert_eq!(platform.get_loan_count(), expected);
    }
    assert_eq!(platform.get_loan(3).unwrap().borrower, account(3));
    assert_eq!(platform.get_loan(6), Err(LendingError::NotFound));
    assert_eq!(platform.get_loan(0), Err(LendingError::NotFound));
}

#[test]
fn a_refused_request_files_nothing() {
    let mut platform = platform(100, 10000, 0);
    assert_eq!(
        platform.request_loan(account(1), 99, 1000, 90, String::from("tools")),
        Err(LendingError::RangeViolation)
    );
    assert_eq!(platform.get_loan_count(), 0);
    assert_eq!(platform.request_loan(account(1), 100, 1000, 90, String::from("tools")), Ok(1));
}

#[test]
fn funded_amount_is_the_sum_of_contributions_throughout() {
    let borrower = account(1);
    let mut platform = platform(1, 100_000, 300);
    let id = platform.request_loan(borrower, 5000, 1200, 60, String::from("loom")).unwrap();
    let offers: [(u8, i128); 6] = [(2, 1200), (3, 1), (2, 799), (4, 2500), (3, 499), (5, 700)];
    for (tag, amount) in offers {
        platform.contribute_to_loan(account(tag), id, amount, NOON).unwrap();
        let loan = platform.get_loan(id).unwrap();
        let entries = platform.get_loan_contributions(id);
        assert_eq!(sum(&entries), loan.amount_funded);
        assert!(loan.amount_funded <= loan.amount_requested);
        assert_eq!(platform.get_remaining_amount(id).unwrap(), 5000 - loan.amount_funded);
    }
    assert_eq!(platform.get_loan(id).unwrap().amount_funded, 5000);
    assert_eq!(
        platform.get_loan_contributions(id),
        vec![
            LenderContribution { lender: account(2), amount: 1999 },
            LenderContribution { lender: account(3), amount: 500 },
            LenderContribution { lender: account(4), amount: 2500 },
            LenderContribution { lender: account(5), amount: 1 },
        ]
    );
    platform.repay_loan(borrower, id).unwrap();
    assert_eq!(sum(&platform.get_loan_contributions(id)), 5000);
}

#[test]
fn a_lender_who_returns_keeps_one_entry() {
    let mut platform = platform(1, 1000, 0);
    let id = platform.request_loan(account(1), 900, 500, 30, String::from("boat")).unwrap();
    platform.contribute_to_loan(account(2), id, 100, NOON).unwrap();
    platform.contribute_to_loan(account(3), id, 200, NOON).unwrap();
    platform.contribute_to_loan(account(2), id, 300, NOON).unwrap();
    assert_eq!(
        platform.get_loan_contributions(id),
        vec![
            LenderContribution { lender: account(2), amount: 400 },
            LenderContribution { lender: account(3), amount: 200 },
        ]
    );
}

#[test]
fn parties_differ_by_kind_and_by_any_byte() {
    let mut other_key = [7u8; 32];
    other_key[31] = 8;
    let a = Party { kind: PartyKind::Account, key: [7; 32] };
    assert_eq!(a, Party { kind: PartyKind::Account, key: [7; 32] });
    assert_ne!(a, Party { kind: PartyKind::Contract, key: [7; 32] });
    assert_ne!(a, Party { kind: PartyKind::Account, key: other_key });

    let mut platform = platform(1, 1000, 0);
    let id = platform.request_loan(account(1), 900, 500, 30, String::from("boat")).unwrap();
    platform.contribute_to_loan(a, id, 100, NOON).unwrap();
    platform
        .contribute_to_loan(Party { kind: PartyKind::Account, key: other_key }, id, 100, NOON)
        .unwrap();
    platform
        .contribute_to_loan(Party { kind: PartyKind::Contract, key: [7; 32] }, id, 100, NOON)
        .unwrap();
    assert_eq!(platform.get_loan_contributions(id).len(), 3);
}

#[test]
fn an_offer_beyond_the_need_is_cut_down_to_the_need() {
    let mut platform = platform(1, 1000, 0);
    let id = platform.request_loan(account(1), 1000, 500, 30, String::from("boat")).unwrap();
    let receipt = platform.contribute_to_loan(account(2), id, 999, NOON).unwrap();
    assert_eq!(receipt.collected, 999);
    assert_eq!(platform.get_remaining_amount(id), Ok(1));
    let receipt = platform.contribute_to_loan(account(3), id, i128::MAX, NOON).unwrap();
    assert_eq!(receipt.collected, 1);
    assert_eq!(platform.get_remaining_amount(id), Ok(0));
    assert_eq!(platform.get_loan(id).unwrap().amount_funded, 1000);
    assert_eq!(
        platform.get_loan_contributions(id),
        vec![
            LenderContribution { lender: account(2), amount: 999 },
            LenderContribution { lender: account(3), amount: 1 },
        ]
    );
}

#[test]
fn an_offer_of_exactly_the_need_completes_the_funding() {
    let mut platform = platform(1, 1000, 1000);
    let id = platform.request_loan(account(1), 1000, 500, 30, String::from("boat")).unwrap();
    let receipt = platform.contribute_to_loan(account(2), id, 1000, NOON).unwrap();
    assert_eq!(receipt.collected, 1000);
    assert_eq!(receipt.disbursement, Some(Payout { to: account(1), amount: 900 }));
    assert_eq!(platform.is_loan_funded(id), Ok(true));
}

#[test]
fn the_principal_goes_out_once() {
    let borrower = account(1);
    let mut platform = platform(1, 1000, 200);
    let id = platform.request_loan(borrower, 500, 500, 45, String::from("cart")).unwrap();
    let first = platform.contribute_to_loan(account(2), id, 499, NOON).unwrap();
    assert_eq!(first.disbursement, None);
    assert_eq!(platform.is_loan_funded(id), Ok(false));
    let loan = platform.get_loan(id).unwrap();
    assert_eq!((loan.funded_at, loan.due_at), (0, 0));

    let last = platform.contribute_to_loan(account(3), id, 1, NOON + 10).unwrap();
    assert_eq!(last.disbursement, Some(Payout { to: borrower, amount: 490 }));
    assert_eq!(platform.is_loan_funded(id), Ok(true));
    let funded = platform.get_loan(id).unwrap();
    assert_eq!(funded.funded_at, NOON + 10);
    assert_eq!(funded.due_at, NOON + 10 + 45 * 86400);
    let entries = platform.get_loan_contributions(id);

    for (tag, amount) in [(2u8, 1i128), (4, 500), (3, i128::MAX)] {
        assert_eq!(
            platform.contribute_to_loan(account(tag), id, amount, NOON + 99),
            Err(LendingError::LoanFullyFunded)
        );
        assert_eq!(platform.get_loan(id).unwrap(), funded);
        assert_eq!(platform.get_loan_contributions(id), entries);
    }
}

#[test]
fn the_fee_is_rounded_down() {
    let mut platform = platform(1, 1000, 333);
    let id = platform.request_loan(account(1), 999, 500, 30, String::from("boat")).unwrap();
    // 999 * 333 / 10000 = 33.2667
    let receipt = platform.contribute_to_loan(account(2), id, 999, NOON).unwrap();
    assert_eq!(receipt.disbursement, Some(Payout { to: account(1), amount: 966 }));
}

#[test]
fn the_whole_principal_may_be_the_fee() {
    let mut platform = platform(1, 1000, 10000);
    let id = platform.request_loan(account(1), 999, 500, 30, String::from("boat")).unwrap();
    let receipt = platform.contribute_to_loan(account(2), id, 999, NOON).unwrap();
    assert_eq!(receipt.disbursement, Some(Payout { to: account(1), amount: 0 }));
}

#[test]
fn repayment_is_principal_and_interest_rounded_down() {
    let borrower = account(1);
    let mut platform = platform(1, 100_000, 0);
    let id = platform.request_loan(borrower, 10000, 500, 30, String::from("boat")).unwrap();
    platform.contribute_to_loan(account(2), id, 10000, NOON).unwrap();
    assert_eq!(platform.repay_loan(borrower, id).unwrap().collected, 10500);

    // 3333 * 777 / 10000 = 258.9741
    let id = platform.request_loan(borrower, 3333, 777, 30, String::from("boat")).unwrap();
    platform.contribute_to_loan(account(2), id, 3333, NOON).unwrap();
    assert_eq!(platform.repay_loan(borrower, id).unwrap().collected, 3333 + 258);

    // 1 * 5000 / 10000 = 0.5
    let id = platform.request_loan(borrower, 1, 5000, 30, String::from("boat")).unwrap();
    platform.contribute_to_loan(account(2), id, 1, NOON).unwrap();
    assert_eq!(platform.repay_loan(borrower, id).unwrap().collected, 1);
}

#[test]
fn shares_follow_contributions() {
    let borrower = account(1);
    let mut platform = platform(1, 10000, 0);
    let id = platform.request_loan(borrower, 1000, 500, 30, String::from("boat")).unwrap();
    platform.contribute_to_loan(account(2), id, 600, NOON).unwrap();
    platform.contribute_to_loan(account(3), id, 400, NOON).unwrap();
    let repayment = platform.repay_loan(borrower, id).unwrap();
    assert_eq!(repayment.collected, 1050);
    assert_eq!(
        repayment.payouts,
        vec![Payout { to: account(2), amount: 630 }, Payout { to: account(3), amount: 420 }]
    );
    let paid: i128 = repayment.payouts.iter().map(|payout| payout.amount).sum();
    assert_eq!(paid, 1050);
}

#[test]
fn what_rounding_leaves_stays_in_custody() {
    let borrower = account(1);
    let mut platform = platform(1, 10000, 0);
    // 3 * 4000 / 10000 = 1.2, so that 4 is owed
    let id = platform.request_loan(borrower, 3, 4000, 30, String::from("boat")).unwrap();
    for tag in 2..=4u8 {
        platform.contribute_to_loan(account(tag), id, 1, NOON).unwrap();
    }
    let repayment = platform.repay_loan(borrower, id).unwrap();
    assert_eq!(repayment.collected, 4);
    assert_eq!(
        repayment.payouts,
        vec![
            Payout { to: account(2), amount: 1 },
            Payout { to: account(3), amount: 1 },
            Payout { to: account(4), amount: 1 },
        ]
    );
    let paid: i128 = repayment.payouts.iter().map(|payout| payout.amount).sum();
    assert_eq!(repayment.collected - paid, 1);
}

#[test]
fn the_shortfall_is_less_than_one_unit_for_each_lender() {
    let borrower = account(1);
    let mut platform = platform(1, 1_000_000, 0);
    let id = platform.request_loan(borrower, 100_003, 1234, 30, String::from("boat")).unwrap();
    for tag in 2..=8u8 {
        platform.contribute_to_loan(account(tag), id, 12_000 + tag as i128, NOON).unwrap();
    }
    let left = platform.get_remaining_amount(id).unwrap();
    platform.contribute_to_loan(account(9), id, left, NOON).unwrap();
    let entries = platform.get_loan_contributions(id);
    let repayment = platform.repay_loan(borrower, id).unwrap();
    assert_eq!(repayment.payouts.len(), entries.len());
    for (payout, entry) in repayment.payouts.iter().zip(entries.iter()) {
        assert_eq!(payout.to, entry.lender);
        assert_eq!(payout.amount, repayment.collected * entry.amount / 100_003);
        assert!(payout.amount >= entry.amount);
    }
    let paid: i128 = repayment.payouts.iter().map(|payout| payout.amount).sum();
    assert!(paid <= repayment.collected);
    assert!(repayment.collected - paid < entries.len() as i128);
}

#[test]
fn the_largest_principal_is_shared_out_exactly() {
    let largest: i128 = 113427455640312821154458202477256070484;
    let borrower = account(1);
    let mut platform = platform(1, largest, 250);
    let id = platform.request_loan(borrower, largest, 5000, 365, String::from("fleet")).unwrap();
    platform
        .contribute_to_loan(account(2), id, 37809151880104273718152734159085356828, NOON)
        .unwrap();
    platform
        .contribute_to_loan(account(3), id, 37809151880104273718152734159085356827, NOON)
        .unwrap();
    let last = platform.contribute_to_loan(account(4), id, i128::MAX, NOON).unwrap();
    assert_eq!(last.collected, 37809151880104273718152734159085356829);
    assert_eq!(
        last.disbursement,
        Some(Payout { to: borrower, amount: 110591769249305000625596747415324668722 })
    );
    let repayment = platform.repay_loan(borrower, id).unwrap();
    assert_eq!(repayment.collected, 170141183460469231731687303715884105726);
    assert_eq!(
        repayment.payouts,
        vec![
            Payout { to: account(2), amount: 56713727820156410577229101238628035242 },
            Payout { to: account(3), amount: 56713727820156410577229101238628035240 },
            Payout { to: account(4), amount: 56713727820156410577229101238628035243 },
        ]
    );
}

#[test]
fn a_large_principal_at_an_odd_rate() {
    let principal: i128 = 1_000_000_000_000_000_000_000_000_000_007;
    let third: i128 = 333_333_333_333_333_333_333_333_333_335;
    let borrower = account(1);
    let mut platform = platform(1, principal, 0);
    let id = platform.request_loan(borrower, principal, 777, 30, String::from("fleet")).unwrap();
    platform.contribute_to_loan(account(2), id, third, NOON).unwrap();
    platform.contribute_to_loan(account(3), id, third, NOON).unwrap();
    platform.contribute_to_loan(account(4), id, principal, NOON).unwrap();
    let repayment = platform.repay_loan(borrower, id).unwrap();
    assert_eq!(repayment.collected, 1_077_700_000_000_000_000_000_000_000_007);
    assert_eq!(
        repayment.payouts,
        vec![
            Payout { to: account(2), amount: 359_233_333_333_333_333_333_333_333_334 },
            Payout { to: account(3), amount: 359_233_333_333_333_333_333_333_333_334 },
            Payout { to: account(4), amount: 359_233_333_333_333_333_333_333_333_337 },
        ]
    );
}

#[test]
fn queries_on_an_unknown_loan() {
    let mut platform = platform(1, 1000, 0);
    assert_eq!(platform.get_loan_count(), 0);
    assert_eq!(platform.get_loan(1), Err(LendingError::NotFound));
    assert_eq!(platform.is_loan_funded(1), Err(LendingError::NotFound));
    assert_eq!(platform.get_remaining_amount(1), Err(LendingError::NotFound));
    assert_eq!(platform.get_loan_contributions(1), vec![]);
    platform.request_loan(account(1), 10, 500, 30, String::from("boat")).unwrap();
    assert_eq!(platform.get_loan(2), Err(LendingError::NotFound));
    assert_eq!(platform.is_loan_funded(0), Err(LendingError::NotFound));
    assert_eq!(platform.get_remaining_amount(u32::MAX), Err(LendingError::NotFound));
    assert_eq!(platform.get_loan_contributions(2), vec![]);
    assert_eq!(platform.get_loan_contributions(0), vec![]);
}

#[test]
fn queries_leave_the_platform_alone() {
    let mut platform = platform(1, 1000, 0);
    let id = platform.request_loan(account(1), 10, 500, 30, String::from("boat")).unwrap();
    platform.contribute_to_loan(account(2), id, 4, NOON).unwrap();
    let loan = platform.get_loan(id).unwrap();
    assert_eq!(platform.is_loan_funded(id), Ok(false));
    assert_eq!(platform.get_remaining_amount(id), Ok(6));
    assert_eq!(platform.get_loan_count(), 1);
    assert_eq!(platform.get_loan(id).unwrap(), loan);
    assert_eq!(
        platform.get_loan_contributions(id),
        vec![LenderContribution { lender: account(2), amount: 4 }]
    );
}
