use microlending::fixed_point::mul_div_floor;
use microlending::{
    DataKey, LenderContribution, LendingError, LoanRequest, MicrolendingContract, Party,
    PartyKind, PlatformConfig, StorageScope,
};

const NOON: u64 = 1_700_000_000;

fn party(tag: u8) -> Party {
    Party { kind: PartyKind::Account, key: [tag; 32] }
}

fn config() -> PlatformConfig {
    PlatformConfig {
        asset: Party { kind: PartyKind::Contract, key: [0xaa; 32] },
        min_loan_amount: 100,
        max_loan_amount: 10000,
        platform_fee_rate: 250,
    }
}

fn open_record(funded: i128) -> LoanRequest {
    LoanRequest {
        borrower: party(1),
        amount_requested: 1000,
        interest_rate: 1000,
        duration_days: 90,
        purpose: String::from("well"),
        is_active: true,
        amount_funded: funded,
        funded_at: 0,
        due_at: 0,
    }
}

fn funded_record() -> LoanRequest {
    LoanRequest {
        amount_funded: 1000,
        funded_at: NOON,
        due_at: NOON + 90 * 86400,
        ..open_record(0)
    }
}

fn entry(tag: u8, amount: i128) -> LenderContribution {
    LenderContribution { lender: party(tag), amount }
}

fn restores(record: LoanRequest, ledger: Vec<LenderContribution>) -> bool {
    MicrolendingContract::restore(Some(config()), &vec![record], &vec![ledger]).is_some()
}

#[test]
fn keys_fall_into_two_tiers() {
    assert_eq!(DataKey::LoanCounter.scope(), StorageScope::Config);
    assert_eq!(DataKey::Token.scope(), StorageScope::Config);
    assert_eq!(DataKey::MinLoanAmount.scope(), StorageScope::Config);
    assert_eq!(DataKey::MaxLoanAmount.scope(), StorageScope::Config);
    assert_eq!(DataKey::PlatformFee.scope(), StorageScope::Config);
    assert_eq!(DataKey::Loan(7).scope(), StorageScope::Record);
    assert_eq!(DataKey::LoanContributions(7).scope(), StorageScope::Record);
}

#[test]
fn keys_have_codes_of_their_own() {
    assert_eq!(DataKey::LoanCounter.encode(), (0, 0));
    assert_eq!(DataKey::Loan(7).encode(), (1, 7));
    assert_eq!(DataKey::LoanContributions(7).encode(), (2, 7));
    assert_eq!(DataKey::Token.encode(), (3, 0));
    assert_eq!(DataKey::MinLoanAmount.encode(), (4, 0));
    assert_eq!(DataKey::MaxLoanAmount.encode(), (5, 0));
    assert_eq!(DataKey::PlatformFee.encode(), (6, 0));
    assert_eq!(DataKey::Loan(0).encode(), (1, 0));
    assert_eq!(DataKey::Loan(u32::MAX).encode(), (1, u32::MAX));
    assert_ne!(DataKey::Loan(7).encode(), DataKey::LoanContributions(7).encode());
    assert_ne!(DataKey::Loan(7).encode(), DataKey::Loan(8).encode());
}

#[test]
fn a_platform_comes_back_as_it_was_kept() {
    let mut platform = MicrolendingContract::new();
    platform.initialize(config().asset, 100, 10000, 250).unwrap();
    platform.request_loan(party(1), 1000, 1000, 90, String::from("well")).unwrap();
    platform.request_loan(party(2), 500, 500, 30, String::from("pump")).unwrap();
    platform.contribute_to_loan(party(3), 1, 600, NOON).unwrap();
    platform.contribute_to_loan(party(4), 1, 400, NOON).unwrap();
    platform.contribute_to_loan(party(3), 2, 123, NOON).unwrap();

    let records = vec![platform.get_loan(1).unwrap(), platform.get_loan(2).unwrap()];
    let ledgers = vec![platform.get_loan_contributions(1), platform.get_loan_contributions(2)];
    let mut back = MicrolendingContract::restore(platform.config(), &records, &ledgers).unwrap();
    assert_eq!(back.config(), platform.config());
    assert_eq!(back.get_loan_count(), 2);
    assert_eq!(back.get_loan(1), platform.get_loan(1));
    assert_eq!(back.get_loan(2), platform.get_loan(2));
    assert_eq!(back.get_loan_contributions(1), platform.get_loan_contributions(1));
    assert_eq!(back.get_loan_contributions(2), platform.get_loan_contributions(2));

    assert_eq!(back.repay_loan(party(1), 1), platform.repay_loan(party(1), 1));
    assert_eq!(
        back.contribute_to_loan(party(5), 2, 1000, NOON),
        platform.contribute_to_loan(party(5), 2, 1000, NOON)
    );
    assert_eq!(back.request_loan(party(6), 100, 500, 30, String::from("net")), Ok(3));
}

#[test]
fn an_empty_platform_comes_back_with_or_without_its_set_up() {
    let blank = MicrolendingContract::restore(None, &vec![], &vec![]).unwrap();
    assert_eq!(blank.config(), None);
    assert_eq!(blank.get_loan_count(), 0);
    let ready = MicrolendingContract::restore(Some(config()), &vec![], &vec![]).unwrap();
    assert_eq!(ready.config(), Some(config()));
}

#[test]
fn loans_do_not_come_back_without_a_set_up() {
    assert!(MicrolendingContract::restore(None, &vec![open_record(0)], &vec![vec![]]).is_none());
}

#[test]
fn a_set_up_that_cannot_work_does_not_come_back() {
    for broken in [
        PlatformConfig { min_loan_amount: 0, ..config() },
        PlatformConfig { max_loan_amount: i128::MAX, ..config() },
        PlatformConfig { platform_fee_rate: 10001, ..config() },
    ] {
        assert!(MicrolendingContract::restore(Some(broken), &vec![], &vec![]).is_none());
    }
}

#[test]
fn records_and_ledgers_come_in_pairs() {
    assert!(MicrolendingContract::restore(Some(config()), &vec![open_record(0)], &vec![]).is_none());
    assert!(MicrolendingContract::restore(Some(config()), &vec![], &vec![vec![]]).is_none());
}

#[test]
fn a_loan_comes_back_only_in_order() {
    assert!(restores(open_record(0), vec![]));
    assert!(restores(open_record(700), vec![entry(2, 300), entry(3, 400)]));
    assert!(restores(funded_record(), vec![entry(2, 1000)]));
    assert!(restores(LoanRequest { is_active: false, ..funded_record() }, vec![entry(2, 1000)]));

    // what the ledger sums up to is not what the record says
    assert!(!restores(open_record(700), vec![entry(2, 300), entry(3, 399)]));
    assert!(!restores(open_record(700), vec![entry(2, 300), entry(3, 401)]));
    assert!(!restores(open_record(700), vec![]));
    assert!(!restores(open_record(0), vec![entry(2, 1)]));
    assert!(!restores(open_record(700), vec![entry(2, i128::MAX), entry(3, i128::MAX)]));
    // a lender stands twice
    assert!(!restores(open_record(700), vec![entry(2, 300), entry(2, 400)]));
    // an entry holds nothing, or less
    assert!(!restores(open_record(700), vec![entry(2, 700), entry(3, 0)]));
    assert!(!restores(open_record(700), vec![entry(2, 800), entry(3, -100)]));
    // funded beyond the request, or below nothing
    assert!(!restores(open_record(1001), vec![entry(2, 1001)]));
    assert!(!restores(open_record(-1), vec![]));
    // an open loan with a time of funding, a funded one without
    assert!(!restores(LoanRequest { funded_at: NOON, ..open_record(700) }, vec![entry(2, 700)]));
    assert!(!restores(LoanRequest { due_at: NOON, ..open_record(700) }, vec![entry(2, 700)]));
    assert!(!restores(LoanRequest { funded_at: 0, ..funded_record() }, vec![entry(2, 1000)]));
    assert!(!restores(LoanRequest { due_at: NOON, ..funded_record() }, vec![entry(2, 1000)]));
    // closed before it was funded
    assert!(!restores(LoanRequest { is_active: false, ..open_record(700) }, vec![entry(2, 700)]));
    // terms that no loan may have
    assert!(!restores(LoanRequest { interest_rate: 499, ..open_record(0) }, vec![]));
    assert!(!restores(LoanRequest { interest_rate: 5001, ..open_record(0) }, vec![]));
    assert!(!restores(LoanRequest { duration_days: 29, ..open_record(0) }, vec![]));
    assert!(!restores(LoanRequest { duration_days: 366, ..open_record(0) }, vec![]));
    assert!(!restores(LoanRequest { amount_requested: 0, ..open_record(0) }, vec![]));
    assert!(!restores(LoanRequest { amount_requested: i128::MAX, ..open_record(0) }, vec![]));
}

#[test]
fn what_came_back_closed_stays_closed() {
    let mut back = MicrolendingContract::restore(
        Some(config()),
        &vec![LoanRequest { is_active: false, ..funded_record() }],
        &vec![vec![entry(2, 1000)]],
    )
    .unwrap();
    assert_eq!(back.repay_loan(party(1), 1), Err(LendingError::LoanInactive));
    assert_eq!(back.initialize(party(1), 1, 2, 3), Err(LendingError::AlreadyInitialized));
}

#[test]
fn products_beyond_the_machine_are_divided_exactly() {
    assert_eq!(mul_div_floor(0, 0, 1), 0);
    assert_eq!(mul_div_floor(10, 0, 3), 0);
    assert_eq!(mul_div_floor(10, 3, 3), 10);
    assert_eq!(mul_div_floor(10, 1, 3), 3);
    assert_eq!(mul_div_floor(10, 2, 3), 6);
    assert_eq!(mul_div_floor(1050, 600, 1000), 630);
    assert_eq!(mul_div_floor(4, 1, 3), 1);
    assert_eq!(
        mul_div_floor(i128::MAX, 9999, 10000),
        170124169342123184808514134985512517316
    );
    assert_eq!(
        mul_div_floor(i128::MAX, 123456789, 987654321),
        21267647738757212183442696717398171530
    );
    assert_eq!(mul_div_floor(i128::MAX, i128::MAX, i128::MAX), i128::MAX);
    assert_eq!(mul_div_floor(i128::MAX, i128::MAX - 1, i128::MAX), i128::MAX - 1);
}
