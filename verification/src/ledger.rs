//! The contribution ledger of one loan: who lent how much, and how a
//! repayment is shared out among them.

use vstd::prelude::*;
use crate::fixed_point::{mul_div, mul_div_floor};
use crate::party::Party;

verus! {

/// What one lender has put into one loan so far.
#[derive(Clone, Copy, PartialEq, Eq, Debug)]
pub struct LenderContribution {
    pub lender: Party,
    pub amount: i128,
}

/// An amount that leaves custody for the named party.
#[derive(Clone, Copy, PartialEq, Eq, Debug)]
pub struct Payout {
    pub to: Party,
    pub amount: i128,
}

/// The sum of all amounts in a ledger.
pub open spec fn ledger_total(entries: Seq<LenderContribution>) -> int
    decreases entries.len(),
{
    if entries.len() == 0 {
        0
    } else {
        ledger_total(entries.drop_last()) + entries.last().amount
    }
}

/// Whether the lender has an entry in the ledger.
pub open spec fn ledger_has(entries: Seq<LenderContribution>, lender: Party) -> bool {
    exists|i: int| 0 <= i < entries.len() && (#[trigger] entries[i]).lender == lender
}

/// Where the lender's entry stands, if the ledger has one.
pub open spec fn ledger_index(entries: Seq<LenderContribution>, lender: Party) -> int {
    choose|i: int| 0 <= i < entries.len() && (#[trigger] entries[i]).lender == lender
}

/// What the lender has contributed: zero without an entry.
pub open spec fn ledger_amount(entries: Seq<LenderContribution>, lender: Party) -> int {
    if ledger_has(entries, lender) {
        entries[ledger_index(entries, lender)].amount as int
    } else {
        0
    }
}

/// No lender has two entries.
pub open spec fn ledger_distinct(entries: Seq<LenderContribution>) -> bool {
    forall|i: int, j: int|
        0 <= i < j < entries.len() ==> (#[trigger] entries[i]).lender != (#[trigger] entries[j]).lender
}

/// Every entry holds a positive amount.
pub open spec fn ledger_positive(entries: Seq<LenderContribution>) -> bool {
    forall|i: int| 0 <= i < entries.len() ==> (#[trigger] entries[i]).amount > 0
}

/// The ledger after `amount` is added to what the lender has contributed: the
/// lender's entry grows where it stands, or a new entry joins at the end.
pub open spec fn ledger_credit(
    entries: Seq<LenderContribution>,
    lender: Party,
    amount: int,
) -> Seq<LenderContribution> {
    if ledger_has(entries, lender) {
        let i = ledger_index(entries, lender);
        entries.update(
            i,
            LenderContribution { lender, amount: (entries[i].amount + amount) as i128 },
        )
    } else {
        entries.push(LenderContribution { lender, amount: amount as i128 })
    }
}

/// The sum of all amounts paid out.
pub open spec fn payout_total(payouts: Seq<Payout>) -> int
    decreases payouts.len(),
{
    if payouts.len() == 0 {
        0
    } else {
        payout_total(payouts.drop_last()) + payouts.last().amount
    }
}

/// What a lender receives of a repayment of `total` on a loan of `requested`,
/// having contributed `contribution`: the proportional part, rounded down.
pub open spec fn lender_share(total: int, contribution: int, requested: int) -> int {
    mul_div(total, contribution, requested)
}

/// `payouts` shares `total` out over the ledger: one payout per entry, in the
/// ledger's order, each to the entry's lender and of that lender's share.
pub open spec fn is_distribution(
    payouts: Seq<Payout>,
    entries: Seq<LenderContribution>,
    total: int,
    requested: int,
) -> bool {
    &&& payouts.len() == entries.len()
    &&& forall|i: int|
        0 <= i < entries.len() ==> {
            &&& (#[trigger] payouts[i]).to == entries[i].lender
            &&& payouts[i].amount == lender_share(total, entries[i].amount as int, requested)
        }
}

/// A new entry raises the total by what it holds.
pub proof fn lemma_total_push(entries: Seq<LenderContribution>, entry: LenderContribution)
    ensures
        ledger_total(entries.push(entry)) == ledger_total(entries) + entry.amount,
{
    assert(entries.push(entry).drop_last() =~= entries);
}

/// Replacing an entry changes the total by the difference of the two.
pub proof fn lemma_total_update(entries: Seq<LenderContribution>, i: int, entry: LenderContribution)
    requires
        0 <= i < entries.len(),
    ensures
        ledger_total(entries.update(i, entry)) == ledger_total(entries) - entries[i].amount
            + entry.amount,
    decreases entries.len(),
{
    let after = entries.update(i, entry);
    if i == entries.len() - 1 {
        assert(after.drop_last() =~= entries.drop_last());
    } else {
        lemma_total_update(entries.drop_last(), i, entry);
        assert(after.drop_last() =~= entries.drop_last().update(i, entry));
    }
}

/// In a ledger without negative amounts no entry exceeds the total.
pub proof fn lemma_entry_within_total(entries: Seq<LenderContribution>, i: int)
    requires
        0 <= i < entries.len(),
        forall|j: int| 0 <= j < entries.len() ==> (#[trigger] entries[j]).amount >= 0,
    ensures
        entries[i].amount <= ledger_total(entries),
        0 <= ledger_total(entries),
    decreases entries.len(),
{
    lemma_total_nonnegative(entries.drop_last());
    if i < entries.len() - 1 {
        lemma_entry_within_total(entries.drop_last(), i);
    }
}

/// A ledger without negative amounts has no negative total.
pub proof fn lemma_total_nonnegative(entries: Seq<LenderContribution>)
    requires
        forall|j: int| 0 <= j < entries.len() ==> (#[trigger] entries[j]).amount >= 0,
    ensures
        0 <= ledger_total(entries),
    decreases entries.len(),
{
    if entries.len() > 0 {
        lemma_total_nonnegative(entries.drop_last());
    }
}

/// In a ledger without double entries the lender's entry is found at one place only.
pub proof fn lemma_index_unique(entries: Seq<LenderContribution>, lender: Party, i: int)
    requires
        ledger_distinct(entries),
        0 <= i < entries.len(),
        entries[i].lender == lender,
    ensures
        ledger_has(entries, lender),
        ledger_index(entries, lender) == i,
{
    let k = ledger_index(entries, lender);
    if k < i {
        assert(entries[k].lender != entries[i].lender);
    } else if i < k {
        assert(entries[i].lender != entries[k].lender);
    }
}

/// Crediting a lender raises the total by the amount credited and that
/// lender's holding by the same, leaves every other holding alone, and keeps
/// the ledger free of double and of empty entries.
pub proof fn lemma_credit(entries: Seq<LenderContribution>, lender: Party, amount: int)
    requires
        ledger_distinct(entries),
        ledger_positive(entries),
        0 < amount,
        ledger_total(entries) + amount <= i128::MAX,
    ensures
        ledger_total(ledger_credit(entries, lender, amount)) == ledger_total(entries) + amount,
        ledger_distinct(ledger_credit(entries, lender, amount)),
        ledger_positive(ledger_credit(entries, lender, amount)),
        ledger_amount(ledger_credit(entries, lender, amount), lender) == ledger_amount(
            entries,
            lender,
        ) + amount,
        forall|other: Party|
            other != lender ==> ledger_amount(ledger_credit(entries, lender, amount), other)
                == ledger_amount(entries, other),
{
    let after = ledger_credit(entries, lender, amount);
    assert forall|j: int| 0 <= j < entries.len() implies (#[trigger] entries[j]).amount >= 0 by {}
    if ledger_has(entries, lender) {
        let i = ledger_index(entries, lender);
        lemma_entry_within_total(entries, i);
        let grown = LenderContribution { lender, amount: (entries[i].amount + amount) as i128 };
        lemma_total_update(entries, i, grown);
        assert(ledger_distinct(after)) by {
            assert forall|a: int, b: int| 0 <= a < b < after.len() implies (#[trigger] after[a]).lender
                != (#[trigger] after[b]).lender by {
                assert(entries[a].lender != entries[b].lender);
            }
        }
        lemma_index_unique(after, lender, i);
        assert forall|other: Party| other != lender implies ledger_amount(after, other)
            == ledger_amount(entries, other) by {
            lemma_amount_elsewhere(entries, after, other);
        }
    } else {
        let fresh = LenderContribution { lender, amount: amount as i128 };
        lemma_total_push(entries, fresh);
        lemma_total_nonnegative(entries);
        assert(ledger_distinct(after)) by {
            assert forall|a: int, b: int| 0 <= a < b < after.len() implies (#[trigger] after[a]).lender
                != (#[trigger] after[b]).lender by {
                if b < entries.len() {
                    assert(entries[a].lender != entries[b].lender);
                } else {
                    assert(entries[a].lender != lender);
                }
            }
        }
        lemma_index_unique(after, lender, entries.len() as int);
        assert forall|other: Party| other != lender implies ledger_amount(after, other)
            == ledger_amount(entries, other) by {
            lemma_amount_elsewhere(entries, after, other);
        }
    }
}

/// Two ledgers that agree wherever `other` could stand hold the same for `other`.
proof fn lemma_amount_elsewhere(
    before: Seq<LenderContribution>,
    after: Seq<LenderContribution>,
    other: Party,
)
    requires
        ledger_distinct(before),
        ledger_distinct(after),
        before.len() <= after.len(),
        forall|j: int|
            0 <= j < before.len() ==> (#[trigger] after[j]).lender == before[j].lender && (
            before[j].lender == other ==> after[j] == before[j]),
        forall|j: int| before.len() <= j < after.len() ==> (#[trigger] after[j]).lender != other,
    ensures
        ledger_amount(after, other) == ledger_amount(before, other),
{
    if ledger_has(before, other) {
        let i = ledger_index(before, other);
        assert(after[i].lender == other);
        lemma_index_unique(after, other, i);
    } else {
        if ledger_has(after, other) {
            let k = ledger_index(after, other);
            assert(after[k].lender == other);
            assert(before[k].lender == other);
        }
    }
}

/// How far a sharing-out can fall short: `requested` times what is paid out,
/// against `total` times what the ledger holds, lags by less than `requested`
/// for each entry.
proof fn lemma_distribution_lag(
    payouts: Seq<Payout>,
    entries: Seq<LenderContribution>,
    total: int,
    requested: int,
)
    requires
        0 <= total,
        0 < requested,
        forall|j: int| 0 <= j < entries.len() ==> (#[trigger] entries[j]).amount >= 0,
        is_distribution(payouts, entries, total, requested),
    ensures
        requested * payout_total(payouts) <= total * ledger_total(entries),
        total * ledger_total(entries) <= requested * payout_total(payouts) + entries.len() * (
        requested - 1),
    decreases entries.len(),
{
    if entries.len() == 0 {
        assert(total * 0 == 0);
        assert(requested * 0 == 0);
    } else {
        let head_entries = entries.drop_last();
        let head_payouts = payouts.drop_last();
        assert(is_distribution(head_payouts, head_entries, total, requested)) by {
            assert forall|i: int| 0 <= i < head_entries.len() implies {
                &&& (#[trigger] head_payouts[i]).to == head_entries[i].lender
                &&& head_payouts[i].amount == lender_share(
                    total,
                    head_entries[i].amount as int,
                    requested,
                )
            } by {
                assert(payouts[i].to == entries[i].lender);
            }
        }
        lemma_distribution_lag(head_payouts, head_entries, total, requested);
        let c = entries.last().amount as int;
        let f = payouts.last().amount as int;
        assert(payouts[entries.len() - 1].to == entries[entries.len() - 1].lender);
        assert(f == (total * c) / requested);
        vstd::arithmetic::div_mod::lemma_fundamental_div_mod(total * c, requested);
        vstd::arithmetic::div_mod::lemma_mod_pos_bound(total * c, requested);
        let rest = (total * c) % requested;
        let held = ledger_total(head_entries);
        let paid = payout_total(head_payouts);
        let n = head_entries.len() as int;
        assert(requested * (paid + f) <= total * (held + c) && total * (held + c) <= requested * (
        paid + f) + (n + 1) * (requested - 1)) by (nonlinear_arith)
            requires
                total * c == requested * f + rest,
                0 <= rest < requested,
                requested * paid <= total * held,
                total * held <= requested * paid + n * (requested - 1),
        ;
    }
}

/// A repayment shared out over the ledger of a funded loan is never overpaid,
/// and what the rounding leaves in custody is less than one unit for each lender.
pub proof fn lemma_distribution_residual(
    payouts: Seq<Payout>,
    entries: Seq<LenderContribution>,
    total: int,
    requested: int,
)
    requires
        0 <= total,
        0 < requested,
        forall|j: int| 0 <= j < entries.len() ==> (#[trigger] entries[j]).amount >= 0,
        ledger_total(entries) == requested,
        is_distribution(payouts, entries, total, requested),
    ensures
        payout_total(payouts) <= total,
        total - payout_total(payouts) < entries.len(),
{
    lemma_distribution_lag(payouts, entries, total, requested);
    let paid = payout_total(payouts);
    let n = entries.len() as int;
    assert(n >= 1);
    assert(paid <= total) by (nonlinear_arith)
        requires
            0 < requested,
            requested * paid <= total * requested,
    ;
    assert(total - paid < n) by (nonlinear_arith)
        requires
            0 < requested,
            1 <= n,
            total * requested <= requested * paid + n * (requested - 1),
    ;
}

/// Of a repayment that is no less than the principal, every lender's share
/// is no less than what the lender contributed.
pub proof fn lemma_share_covers_contribution(total: int, contribution: int, requested: int)
    requires
        0 <= contribution,
        0 < requested <= total,
    ensures
        contribution <= lender_share(total, contribution, requested),
{
    assert(requested * contribution <= total * contribution) by (nonlinear_arith)
        requires
            0 <= contribution,
            requested <= total,
    ;
    vstd::arithmetic::div_mod::lemma_div_is_ordered(
        requested * contribution,
        total * contribution,
        requested,
    );
    vstd::arithmetic::div_mod::lemma_div_multiples_vanish(contribution, requested);
}

/// The total of the first `k + 1` entries is that of the first `k` and the next one.
proof fn lemma_total_take_next(entries: Seq<LenderContribution>, k: int)
    requires
        0 <= k < entries.len(),
    ensures
        ledger_total(entries.take(k + 1)) == ledger_total(entries.take(k)) + entries[k].amount,
{
    assert(entries.take(k + 1).drop_last() =~= entries.take(k));
}

/// In a ledger without negative amounts no beginning of it exceeds the whole.
proof fn lemma_total_take_within(entries: Seq<LenderContribution>, k: int)
    requires
        0 <= k <= entries.len(),
        forall|j: int| 0 <= j < entries.len() ==> (#[trigger] entries[j]).amount >= 0,
    ensures
        ledger_total(entries.take(k)) <= ledger_total(entries),
    decreases entries.len(),
{
    if k == entries.len() {
        assert(entries.take(k) =~= entries);
    } else {
        lemma_total_take_within(entries.drop_last(), k);
        assert(entries.drop_last().take(k) =~= entries.take(k));
    }
}

/// Finds the lender's entry.
pub(crate) fn position_of(ledger: &Vec<LenderContribution>, lender: &Party) -> (found: Option<usize>)
    ensures
        match found {
            Some(i) => i < ledger.len() && ledger[i as int].lender == *lender,
            None => !ledger_has(ledger@, *lender),
        },
{
    let mut i: usize = 0;
    while i < ledger.len()
        invariant
            i <= ledger.len(),
            forall|j: int| 0 <= j < i ==> (#[trigger] ledger@[j]).lender != *lender,
        decreases ledger.len() - i,
    {
        if ledger[i].lender == *lender {
            return Some(i);
        }
        i += 1;
    }
    None
}

/// Adds `amount` to what the lender has contributed.
pub(crate) fn credit(ledger: &mut Vec<LenderContribution>, lender: Party, amount: i128)
    requires
        ledger_distinct(old(ledger)@),
        ledger_positive(old(ledger)@),
        0 < amount,
        ledger_total(old(ledger)@) + amount <= i128::MAX,
    ensures
        final(ledger)@ == ledger_credit(old(ledger)@, lender, amount as int),
{
    match position_of(ledger, &lender) {
        Some(i) => {
            proof {
                lemma_index_unique(ledger@, lender, i as int);
                assert forall|j: int| 0 <= j < ledger@.len() implies (#[trigger] ledger@[j]).amount
                    >= 0 by {}
                lemma_entry_within_total(ledger@, i as int);
            }
            let held: i128 = ledger[i].amount;
            ledger[i] = LenderContribution { lender, amount: held + amount };
        },
        None => {
            ledger.push(LenderContribution { lender, amount });
        },
    }
}

/// Shares a repayment of `total` out over the ledger of a loan of `requested`.
pub(crate) fn distribute(ledger: &Vec<LenderContribution>, total: i128, requested: i128) -> (payouts: Vec<
    Payout,
>)
    requires
        0 <= total,
        0 < requested,
        forall|i: int| 0 <= i < ledger.len() ==> 0 <= (#[trigger] ledger@[i]).amount <= requested,
    ensures
        is_distribution(payouts@, ledger@, total as int, requested as int),
{
    let mut payouts: Vec<Payout> = Vec::new();
    let mut i: usize = 0;
    while i < ledger.len()
        invariant
            i <= ledger.len(),
            0 <= total,
            0 < requested,
            forall|k: int|
                0 <= k < ledger.len() ==> 0 <= (#[trigger] ledger@[k]).amount <= requested,
            payouts.len() == i,
            forall|k: int|
                0 <= k < i ==> {
                    &&& (#[trigger] payouts@[k]).to == ledger@[k].lender
                    &&& payouts@[k].amount == lender_share(
                        total as int,
                        ledger@[k].amount as int,
                        requested as int,
                    )
                },
        decreases ledger.len() - i,
    {
        let entry: LenderContribution = ledger[i];
        let share: i128 = mul_div_floor(total, entry.amount, requested);
        payouts.push(Payout { to: entry.lender, amount: share });
        i += 1;
    }
    payouts
}

/// Whether no lender has two entries.
pub(crate) fn has_distinct_lenders(ledger: &Vec<LenderContribution>) -> (distinct: bool)
    ensures
        distinct == ledger_distinct(ledger@),
{
    let mut j: usize = 0;
    while j < ledger.len()
        invariant
            j <= ledger.len(),
            forall|a: int, b: int|
                0 <= a < b < j ==> (#[trigger] ledger@[a]).lender != (#[trigger] ledger@[b]).lender,
        decreases ledger.len() - j,
    {
        let mut i: usize = 0;
        while i < j
            invariant
                i <= j < ledger.len(),
                forall|a: int| 0 <= a < i ==> (#[trigger] ledger@[a]).lender != ledger@[j as int].lender,
            decreases j - i,
        {
            if ledger[i].lender == ledger[j].lender {
                return false;
            }
            i += 1;
        }
        j += 1;
    }
    true
}

/// The total of a ledger of positive amounts, as far as it stays within `cap`.
pub(crate) fn total_within(ledger: &Vec<LenderContribution>, cap: i128) -> (total: Option<i128>)
    requires
        0 <= cap,
    ensures
        match total {
            Some(sum) => ledger_positive(ledger@) && sum == ledger_total(ledger@) && sum <= cap,
            None => !(ledger_positive(ledger@) && ledger_total(ledger@) <= cap),
        },
{
    let mut sum: i128 = 0;
    let mut i: usize = 0;
    while i < ledger.len()
        invariant
            i <= ledger.len(),
            0 <= sum <= cap,
            sum == ledger_total(ledger@.take(i as int)),
            forall|k: int| 0 <= k < i ==> (#[trigger] ledger@[k]).amount > 0,
        decreases ledger.len() - i,
    {
        let amount: i128 = ledger[i].amount;
        proof {
            lemma_total_take_next(ledger@, i as int);
        }
        if amount <= 0 {
            return None;
        }
        if amount > cap - sum {
            proof {
                if ledger_positive(ledger@) {
                    assert forall|j: int| 0 <= j < ledger@.len() implies (#[trigger] ledger@[j]).amount
                        >= 0 by {}
                    lemma_total_take_within(ledger@, i + 1);
                }
            }
            return None;
        }
        sum = sum + amount;
        i += 1;
    }
    proof {
        assert(ledger@.take(i as int) =~= ledger@);
    }
    Some(sum)
}

} // verus!
