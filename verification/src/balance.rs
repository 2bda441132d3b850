//! The off-chain balance: the spendable units folded into a pending and a
//! confirmed total.

use crate::client::Client;
use crate::clock::now;
use crate::error::ClientError;
use crate::spendable::{
    any_needs_clock, is_reconciliation, keeps, spendable_units, AddressFacts,
};
use crate::types::{amount_sum, Amount, VtxoOutPoint};
use crate::vtxo::{DefaultVtxo, EpochDuration, Timestamp};
use vstd::prelude::*;

verus! {

/// The satoshis of the units in `units` that await a round.
pub open spec fn pending_sum(units: Seq<VtxoOutPoint>) -> int
    decreases units.len(),
{
    if units.len() == 0 {
        0
    } else if units.last().is_pending {
        pending_sum(units.drop_last()) + units.last().amount.sat
    } else {
        pending_sum(units.drop_last())
    }
}

/// The satoshis of the units in `units` that a round has confirmed.
pub open spec fn confirmed_sum(units: Seq<VtxoOutPoint>) -> int
    decreases units.len(),
{
    if units.len() == 0 {
        0
    } else if units.last().is_pending {
        confirmed_sum(units.drop_last())
    } else {
        confirmed_sum(units.drop_last()) + units.last().amount.sat
    }
}

/// The pending satoshis over all groups.
pub open spec fn groups_pending(groups: Seq<(Vec<VtxoOutPoint>, DefaultVtxo)>) -> int
    decreases groups.len(),
{
    if groups.len() == 0 {
        0
    } else {
        groups_pending(groups.drop_last()) + pending_sum(groups.last().0@)
    }
}

/// The confirmed satoshis over all groups.
pub open spec fn groups_confirmed(groups: Seq<(Vec<VtxoOutPoint>, DefaultVtxo)>) -> int
    decreases groups.len(),
{
    if groups.len() == 0 {
        0
    } else {
        groups_confirmed(groups.drop_last()) + confirmed_sum(groups.last().0@)
    }
}

/// Every unit counts towards exactly one of the two totals.
pub proof fn lemma_pending_and_confirmed(units: Seq<VtxoOutPoint>)
    ensures
        pending_sum(units) + confirmed_sum(units) == amount_sum(units),
        pending_sum(units) >= 0,
        confirmed_sum(units) >= 0,
    decreases units.len(),
{
    if units.len() > 0 {
        lemma_pending_and_confirmed(units.drop_last());
    }
}

proof fn lemma_groups_nonnegative(groups: Seq<(Vec<VtxoOutPoint>, DefaultVtxo)>)
    ensures
        groups_pending(groups) >= 0,
        groups_confirmed(groups) >= 0,
    decreases groups.len(),
{
    if groups.len() > 0 {
        lemma_groups_nonnegative(groups.drop_last());
        lemma_pending_and_confirmed(groups.last().0@);
    }
}

/// The wallet's off-chain balance in two totals, whose sum fits an amount.
#[derive(Clone, Copy, Debug, PartialEq, Eq)]
pub struct OffChainBalance {
    pending: Amount,
    confirmed: Amount,
}

impl OffChainBalance {
    #[verifier::type_invariant]
    spec fn fits(self) -> bool {
        self.pending.sat + self.confirmed.sat <= u64::MAX
    }

    pub closed spec fn spec_pending(&self) -> Amount {
        self.pending
    }

    pub closed spec fn spec_confirmed(&self) -> Amount {
        self.confirmed
    }

    /// The total of the units that await a round.
    #[verifier::when_used_as_spec(spec_pending)]
    pub fn pending(&self) -> (r: Amount)
        ensures
            r == self.spec_pending(),
    {
        self.pending
    }

    /// The total of the units that a round has confirmed.
    #[verifier::when_used_as_spec(spec_confirmed)]
    pub fn confirmed(&self) -> (r: Amount)
        ensures
            r == self.spec_confirmed(),
    {
        self.confirmed
    }

    /// Both totals together.
    pub fn total(&self) -> (r: Amount)
        ensures
            r.sat == self.spec_pending().sat + self.spec_confirmed().sat,
    {
        proof {
            use_type_invariant(self);
        }
        Amount { sat: self.pending.sat + self.confirmed.sat }
    }

    /// Folds one list of units into its two totals.
    fn sum_units(units: &Vec<VtxoOutPoint>) -> (r: (u64, u64))
        requires
            amount_sum(units@) <= u64::MAX,
        ensures
            r.0 == pending_sum(units@),
            r.1 == confirmed_sum(units@),
    {
        let mut pending: u64 = 0;
        let mut confirmed: u64 = 0;
        let mut i: usize = 0;
        proof {
            assert(units@.skip(0) =~= units@);
        }
        while i < units.len()
            invariant
                i <= units.len(),
                amount_sum(units@) <= u64::MAX,
                pending == pending_sum(units@.take(i as int)),
                confirmed == confirmed_sum(units@.take(i as int)),
                pending + confirmed + amount_sum(units@.skip(i as int)) == amount_sum(units@),
            decreases units.len() - i,
        {
            proof {
                assert(units@.take(i + 1).drop_last() =~= units@.take(i as int));
                lemma_amount_sum_skip(units@, i as int);
                lemma_pending_and_confirmed(units@.skip(i + 1));
            }
            if units[i].is_pending {
                pending = pending + units[i].amount.sat;
            } else {
                confirmed = confirmed + units[i].amount.sat;
            }
            i += 1;
        }
        proof {
            assert(units@.take(units.len() as int) =~= units@);
        }
        (pending, confirmed)
    }

    /// Folds the spendable units of all addresses into a balance: a unit
    /// counts as pending if its flag says so, and as confirmed otherwise.
    pub fn of(groups: &Vec<(Vec<VtxoOutPoint>, DefaultVtxo)>) -> (r: OffChainBalance)
        requires
            groups_pending(groups@) + groups_confirmed(groups@) <= u64::MAX,
        ensures
            r.spec_pending().sat == groups_pending(groups@),
            r.spec_confirmed().sat == groups_confirmed(groups@),
    {
        let mut pending: u64 = 0;
        let mut confirmed: u64 = 0;
        let mut g: usize = 0;
        while g < groups.len()
            invariant
                g <= groups.len(),
                groups_pending(groups@) + groups_confirmed(groups@) <= u64::MAX,
                pending == groups_pending(groups@.take(g as int)),
                confirmed == groups_confirmed(groups@.take(g as int)),
            decreases groups.len() - g,
        {
            proof {
                assert(groups@.take(g + 1).drop_last() =~= groups@.take(g as int));
                lemma_groups_prefix(groups@, g + 1);
                lemma_groups_nonnegative(groups@.take(g as int));
                lemma_pending_and_confirmed(groups@[g as int].0@);
            }
            let (p, c) = Self::sum_units(&groups[g].0);
            pending = pending + p;
            confirmed = confirmed + c;
            g += 1;
        }
        proof {
            assert(groups@.take(groups.len() as int) =~= groups@);
        }
        OffChainBalance { pending: Amount { sat: pending }, confirmed: Amount { sat: confirmed } }
    }
}

impl Default for OffChainBalance {
    /// The balance of a wallet without spendable units.
    fn default() -> (r: OffChainBalance)
        ensures
            r.spec_pending().sat == 0,
            r.spec_confirmed().sat == 0,
    {
        OffChainBalance { pending: Amount { sat: 0 }, confirmed: Amount { sat: 0 } }
    }
}

proof fn lemma_amount_sum_skip(units: Seq<VtxoOutPoint>, i: int)
    requires
        0 <= i < units.len(),
    ensures
        amount_sum(units.skip(i)) == units[i].amount.sat + amount_sum(units.skip(i + 1)),
        amount_sum(units.skip(i + 1)) >= 0,
    decreases units.len() - i,
{
    let tail = units.skip(i);
    if i == units.len() - 1 {
        assert(tail.drop_last() =~= units.skip(i + 1));
        assert(amount_sum(tail.drop_last()) == 0);
    } else {
        lemma_amount_sum_skip(units.drop_last(), i);
        assert(tail.drop_last() =~= units.drop_last().skip(i));
        assert(units.skip(i + 1).drop_last() =~= units.drop_last().skip(i + 1));
    }
}

proof fn lemma_groups_prefix(groups: Seq<(Vec<VtxoOutPoint>, DefaultVtxo)>, n: int)
    requires
        0 <= n <= groups.len(),
    ensures
        groups_pending(groups.take(n)) <= groups_pending(groups),
        groups_confirmed(groups.take(n)) <= groups_confirmed(groups),
    decreases groups.len(),
{
    if n == groups.len() {
        assert(groups.take(n) =~= groups);
    } else {
        lemma_groups_prefix(groups.drop_last(), n);
        assert(groups.drop_last().take(n) =~= groups.take(n));
        lemma_pending_and_confirmed(groups.last().0@);
    }
}

/// The satoshis of all units listed as unspent, spendable or not.
pub open spec fn fetched_total(fetched: Seq<AddressFacts>) -> int
    decreases fetched.len(),
{
    if fetched.len() == 0 {
        0
    } else {
        fetched_total(fetched.drop_last()) + amount_sum(fetched.last().spendable@)
    }
}

/// The pending satoshis among the units that are spendable at `now`.
pub open spec fn reconciled_pending(now: EpochDuration, fetched: Seq<AddressFacts>) -> int
    decreases fetched.len(),
{
    if fetched.len() == 0 {
        0
    } else {
        let last = fetched.last();
        reconciled_pending(now, fetched.drop_last()) + pending_sum(
            spendable_units(last.vtxo, now, last.explorer_utxos@, last.spendable@),
        )
    }
}

/// The confirmed satoshis among the units that are spendable at `now`.
pub open spec fn reconciled_confirmed(now: EpochDuration, fetched: Seq<AddressFacts>) -> int
    decreases fetched.len(),
{
    if fetched.len() == 0 {
        0
    } else {
        let last = fetched.last();
        reconciled_confirmed(now, fetched.drop_last()) + confirmed_sum(
            spendable_units(last.vtxo, now, last.explorer_utxos@, last.spendable@),
        )
    }
}

/// The satoshis of the units that are spendable at `now`.
pub open spec fn spendable_total(now: EpochDuration, fetched: Seq<AddressFacts>) -> int
    decreases fetched.len(),
{
    if fetched.len() == 0 {
        0
    } else {
        let last = fetched.last();
        spendable_total(now, fetched.drop_last()) + amount_sum(
            spendable_units(last.vtxo, now, last.explorer_utxos@, last.spendable@),
        )
    }
}

/// `r` is the balance of `fetched` at the clock reading `now`.
pub open spec fn balances(
    r: Result<OffChainBalance, ClientError>,
    now: Timestamp,
    fetched: Seq<AddressFacts>,
) -> bool {
    &&& r is Err <==> now.is_negative() && any_needs_clock(fetched)
    &&& r is Err ==> r->Err_0 is TimeBeforeEpoch
    &&& r is Ok ==> {
        &&& r->Ok_0.spec_pending().sat == reconciled_pending(now.spec_as_duration(), fetched)
        &&& r->Ok_0.spec_confirmed().sat == reconciled_confirmed(now.spec_as_duration(), fetched)
    }
}

proof fn lemma_filter_amount(units: Seq<VtxoOutPoint>, pred: spec_fn(VtxoOutPoint) -> bool)
    ensures
        0 <= amount_sum(units.filter(pred)) <= amount_sum(units),
    decreases units.len(),
{
    reveal(Seq::filter);
    if units.len() > 0 {
        lemma_filter_amount(units.drop_last(), pred);
        if pred(units.last()) {
            assert(units.drop_last().filter(pred).push(units.last()).drop_last()
                =~= units.drop_last().filter(pred));
        }
    }
}

proof fn lemma_reconciled_sums(
    groups: Seq<(Vec<VtxoOutPoint>, DefaultVtxo)>,
    now: EpochDuration,
    fetched: Seq<AddressFacts>,
)
    requires
        is_reconciliation(groups, now, fetched),
    ensures
        groups_pending(groups) == reconciled_pending(now, fetched),
        groups_confirmed(groups) == reconciled_confirmed(now, fetched),
    decreases fetched.len(),
{
    if fetched.len() > 0 {
        let last = fetched.last();
        assert(groups.last() == groups[fetched.len() - 1]);
        assert(is_reconciliation(groups.drop_last(), now, fetched.drop_last())) by {
            assert forall|a: int| 0 <= a < fetched.drop_last().len() implies {
                &&& (#[trigger] groups.drop_last()[a]).1 == fetched.drop_last()[a].vtxo
                &&& groups.drop_last()[a].0@ == spendable_units(
                    fetched.drop_last()[a].vtxo,
                    now,
                    fetched.drop_last()[a].explorer_utxos@,
                    fetched.drop_last()[a].spendable@,
                )
            } by {
                assert(groups.drop_last()[a] == groups[a]);
            }
        }
        lemma_reconciled_sums(groups.drop_last(), now, fetched.drop_last());
    }
}

/// The spendable units never hold more than all listed units do.
pub proof fn lemma_spendable_total_bound(now: EpochDuration, fetched: Seq<AddressFacts>)
    ensures
        0 <= spendable_total(now, fetched) <= fetched_total(fetched),
    decreases fetched.len(),
{
    if fetched.len() > 0 {
        let last = fetched.last();
        lemma_spendable_total_bound(now, fetched.drop_last());
        lemma_filter_amount(last.spendable@, keeps(last.vtxo, now, last.explorer_utxos@));
    }
}

impl Client {
    /// The balance of the units that are spendable at the clock reading `now`.
    /// Their amounts together must fit an amount.
    pub fn offchain_balance_at(&self, now: Timestamp, fetched: &Vec<AddressFacts>) -> (r: Result<
        OffChainBalance,
        ClientError,
    >)
        requires
            spendable_total(now.spec_as_duration(), fetched@) <= u64::MAX,
        ensures
            balances(r, now, fetched@),
    {
        match self.spendable_vtxos_at(now, fetched) {
            Ok(groups) => {
                proof {
                    lemma_reconciled_sums(groups@, now.spec_as_duration(), fetched@);
                    lemma_balance_total(now.spec_as_duration(), fetched@);
                }
                Ok(OffChainBalance::of(&groups))
            },
            Err(e) => Err(e),
        }
    }

    /// The balance of the units that are spendable at the present moment.
    ///
    /// The outcome is that of [`Client::offchain_balance_at`] for the time
    /// the system clock showed. Where the clock cannot be read, there still
    /// is a balance if no unit takes the time to be decided, and the call
    /// fails with `ClockOutOfRange` otherwise. Since any of the listed units
    /// may be spendable, the amounts of all of them together must fit an
    /// amount.
    pub fn offchain_balance(&self, fetched: &Vec<AddressFacts>) -> (r: Result<
        OffChainBalance,
        ClientError,
    >)
        requires
            fetched_total(fetched@) <= u64::MAX,
        ensures
            balances_now(r, fetched@),
            !any_needs_clock(fetched@) ==> r is Ok,
    {
        match now() {
            Some(now) => {
                proof {
                    lemma_spendable_total_bound(now.spec_as_duration(), fetched@);
                }
                let r = self.offchain_balance_at(now, fetched);
                proof {
                    assert(balances_at_some_time(r, fetched@)) by {
                        assert(-999_999_999 <= now.nanosecond <= 999_999_999 && balances(
                            r,
                            now,
                            fetched@,
                        ));
                    }
                }
                r
            },
            None => {
                let before_epoch = Timestamp { second: -1, nanosecond: 0 };
                proof {
                    lemma_spendable_total_bound(before_epoch.spec_as_duration(), fetched@);
                }
                match self.offchain_balance_at(before_epoch, fetched) {
                    Ok(balance) => {
                        proof {
                            assert(balances(Ok(balance), before_epoch, fetched@));
                        }
                        Ok(balance)
                    },
                    Err(_) => Err(ClientError::ClockOutOfRange),
                }
            },
        }
    }
}

/// `r` is the balance of `fetched` at some reading of the clock.
pub open spec fn balances_at_some_time(
    r: Result<OffChainBalance, ClientError>,
    fetched: Seq<AddressFacts>,
) -> bool {
    exists|now: Timestamp|
        -999_999_999 <= now.nanosecond <= 999_999_999 && #[trigger] balances(r, now, fetched)
}

/// `r` is the balance of `fetched` at the present moment: the balance at
/// some reading of the clock, or `ClockOutOfRange` where the time was needed
/// and the clock could not be read.
pub open spec fn balances_now(
    r: Result<OffChainBalance, ClientError>,
    fetched: Seq<AddressFacts>,
) -> bool {
    ||| balances_at_some_time(r, fetched)
    ||| r is Err && r->Err_0 is ClockOutOfRange && any_needs_clock(fetched)
}

/// A unit adds its amount to the pending total if it is pending and to the
/// confirmed total if it is not, and leaves the other total as it was.
pub proof fn lemma_unit_contribution(units: Seq<VtxoOutPoint>, unit: VtxoOutPoint)
    ensures
        unit.is_pending ==> {
            &&& pending_sum(units.push(unit)) == pending_sum(units) + unit.amount.sat
            &&& confirmed_sum(units.push(unit)) == confirmed_sum(units)
        },
        !unit.is_pending ==> {
            &&& pending_sum(units.push(unit)) == pending_sum(units)
            &&& confirmed_sum(units.push(unit)) == confirmed_sum(units) + unit.amount.sat
        },
{
    assert(units.push(unit).drop_last() =~= units);
}

/// The two totals of a balance add up to the amounts of all spendable
/// units, and so does what [`OffChainBalance::total`] returns.
pub proof fn lemma_balance_total(now: EpochDuration, fetched: Seq<AddressFacts>)
    ensures
        reconciled_pending(now, fetched) + reconciled_confirmed(now, fetched) == spendable_total(
            now,
            fetched,
        ),
    decreases fetched.len(),
{
    if fetched.len() > 0 {
        let last = fetched.last();
        lemma_balance_total(now, fetched.drop_last());
        lemma_pending_and_confirmed(
            spendable_units(last.vtxo, now, last.explorer_utxos@, last.spendable@),
        );
    }
}

} // verus!
