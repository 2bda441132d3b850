//! Reconciliation: which of the outputs the coordinator lists as unspent may
//! be counted as spendable, given what the chain says about them.

use crate::client::Client;
use crate::clock::now;
use crate::error::ClientError;
use crate::types::{ExplorerUtxo, OutPoint, VtxoOutPoint};
use crate::vtxo::{DefaultVtxo, EpochDuration, Timestamp};
use vstd::prelude::*;

verus! {

/// What was fetched for one off-chain address: the outputs the coordinator
/// lists as unspent and the explorer's view of the address on chain.
#[derive(Clone, Debug, PartialEq, Eq)]
pub struct AddressFacts {
    pub vtxo: DefaultVtxo,
    pub spendable: Vec<VtxoOutPoint>,
    pub explorer_utxos: Vec<ExplorerUtxo>,
}

/// The first of `utxos` that names the output `outpoint`.
pub open spec fn first_match(utxos: Seq<ExplorerUtxo>, outpoint: OutPoint) -> Option<ExplorerUtxo>
    decreases utxos.len(),
{
    if utxos.len() == 0 {
        None
    } else if utxos.first().outpoint@ == outpoint@ {
        Some(utxos.first())
    } else {
        first_match(utxos.drop_first(), outpoint)
    }
}

/// The block time at which the chain confirmed `unit`, if the explorer
/// knows the output and it is confirmed.
pub open spec fn confirmation_of(utxos: Seq<ExplorerUtxo>, unit: VtxoOutPoint) -> Option<u64> {
    match first_match(utxos, unit.outpoint) {
        Some(utxo) => utxo.confirmation_blocktime,
        None => None,
    }
}

/// Whether `unit` counts as spendable at `now`: it does unless the chain has
/// confirmed it and the owner could by now leave with it alone.
pub open spec fn unit_spendable(
    vtxo: DefaultVtxo,
    now: EpochDuration,
    utxos: Seq<ExplorerUtxo>,
    unit: VtxoOutPoint,
) -> bool {
    match confirmation_of(utxos, unit) {
        Some(confirmed_at) => !vtxo.claimable(now, confirmed_at),
        None => true,
    }
}

/// [`unit_spendable`] as a predicate on units.
pub open spec fn keeps(vtxo: DefaultVtxo, now: EpochDuration, utxos: Seq<ExplorerUtxo>) -> spec_fn(
    VtxoOutPoint,
) -> bool {
    |unit: VtxoOutPoint| unit_spendable(vtxo, now, utxos, unit)
}

/// The spendable ones among `units`, in their order.
pub open spec fn spendable_units(
    vtxo: DefaultVtxo,
    now: EpochDuration,
    utxos: Seq<ExplorerUtxo>,
    units: Seq<VtxoOutPoint>,
) -> Seq<VtxoOutPoint> {
    units.filter(keeps(vtxo, now, utxos))
}

/// Whether deciding about `units` takes the current time: it does as soon as
/// one of them is confirmed on chain.
pub open spec fn needs_clock(utxos: Seq<ExplorerUtxo>, units: Seq<VtxoOutPoint>) -> bool {
    exists|i: int| 0 <= i < units.len() && (#[trigger] confirmation_of(utxos, units[i])) is Some
}

/// Looks up the explorer's record of an output.
pub fn find_explorer_utxo(utxos: &Vec<ExplorerUtxo>, outpoint: &OutPoint) -> (r: Option<
    ExplorerUtxo,
>)
    ensures
        r == first_match(utxos@, *outpoint),
{
    let mut i: usize = 0;
    proof {
        assert(utxos@.skip(0) =~= utxos@);
    }
    while i < utxos.len()
        invariant
            i <= utxos.len(),
            first_match(utxos@, *outpoint) == first_match(utxos@.skip(i as int), *outpoint),
        decreases utxos.len() - i,
    {
        proof {
            assert(utxos@.skip(i as int).drop_first() =~= utxos@.skip(i + 1));
        }
        if utxos[i].outpoint.same(outpoint) {
            return Some(utxos[i]);
        }
        i += 1;
    }
    None
}

/// Decides whether one unit counts as spendable at `now`.
///
/// A unit that the chain has not confirmed is spendable whatever the time,
/// and the clock is not even consulted. For a confirmed unit the clock must
/// read a time since the epoch.
pub fn is_spendable(
    vtxo: &DefaultVtxo,
    now: Timestamp,
    utxos: &Vec<ExplorerUtxo>,
    unit: &VtxoOutPoint,
) -> (r: Result<bool, ClientError>)
    ensures
        r is Err <==> now.is_negative() && confirmation_of(utxos@, *unit) is Some,
        r is Err ==> r->Err_0 is TimeBeforeEpoch,
        r is Ok ==> r->Ok_0 == unit_spendable(*vtxo, now.spec_as_duration(), utxos@, *unit),
{
    match find_explorer_utxo(utxos, &unit.outpoint) {
        Some(utxo) => match utxo.confirmation_blocktime {
            Some(confirmed_at) => match now.as_duration() {
                Ok(now) => Ok(!vtxo.can_be_claimed_unilaterally_by_owner(now, confirmed_at)),
                Err(e) => Err(e),
            },
            None => Ok(true),
        },
        None => Ok(true),
    }
}

proof fn lemma_filter_take_next(units: Seq<VtxoOutPoint>, i: int, pred: spec_fn(VtxoOutPoint) -> bool)
    requires
        0 <= i < units.len(),
    ensures
        units.take(i + 1).filter(pred) == if pred(units[i]) {
            units.take(i).filter(pred).push(units[i])
        } else {
            units.take(i).filter(pred)
        },
{
    reveal(Seq::filter);
    assert(units.take(i + 1).drop_last() =~= units.take(i));
}

/// Reconciles the units of one address with the chain at `now`.
///
/// Every unit is decided on its own. The result keeps the order of `units`.
/// It fails only if the clock reads a time before the epoch and some unit
/// needs the time to be decided.
pub fn spendable_at(
    vtxo: &DefaultVtxo,
    now: Timestamp,
    utxos: &Vec<ExplorerUtxo>,
    units: &Vec<VtxoOutPoint>,
) -> (r: Result<Vec<VtxoOutPoint>, ClientError>)
    ensures
        r is Err <==> now.is_negative() && needs_clock(utxos@, units@),
        r is Err ==> r->Err_0 is TimeBeforeEpoch,
        r is Ok ==> r->Ok_0@ == spendable_units(*vtxo, now.spec_as_duration(), utxos@, units@),
{
    let mut kept: Vec<VtxoOutPoint> = Vec::new();
    let ghost pred = keeps(*vtxo, now.spec_as_duration(), utxos@);
    let mut i: usize = 0;
    while i < units.len()
        invariant
            i <= units.len(),
            pred == keeps(*vtxo, now.spec_as_duration(), utxos@),
            kept@ == units@.take(i as int).filter(pred),
            now.is_negative() ==> forall|k: int|
                0 <= k < i ==> (#[trigger] confirmation_of(utxos@, units@[k])) is None,
        decreases units.len() - i,
    {
        proof {
            lemma_filter_take_next(units@, i as int, pred);
        }
        match is_spendable(vtxo, now, utxos, &units[i]) {
            Ok(true) => {
                kept.push(units[i]);
            },
            Ok(false) => {},
            Err(e) => {
                return Err(e);
            },
        }
        i += 1;
    }
    proof {
        assert(units@.take(units.len() as int) =~= units@);
    }
    Ok(kept)
}

/// `groups` is the reconciliation of `fetched` at `now`: one group per
/// address, in order, holding that address's identity and its spendable units.
pub open spec fn is_reconciliation(
    groups: Seq<(Vec<VtxoOutPoint>, DefaultVtxo)>,
    now: EpochDuration,
    fetched: Seq<AddressFacts>,
) -> bool {
    &&& groups.len() == fetched.len()
    &&& forall|a: int|
        0 <= a < fetched.len() ==> {
            &&& (#[trigger] groups[a]).1 == fetched[a].vtxo
            &&& groups[a].0@ == spendable_units(
                fetched[a].vtxo,
                now,
                fetched[a].explorer_utxos@,
                fetched[a].spendable@,
            )
        }
}

/// Whether reconciling `fetched` takes the current time.
pub open spec fn any_needs_clock(fetched: Seq<AddressFacts>) -> bool {
    exists|a: int|
        0 <= a < fetched.len() && needs_clock(
            (#[trigger] fetched[a]).explorer_utxos@,
            fetched[a].spendable@,
        )
}

/// `r` is what reconciling `fetched` at the clock reading `now` yields.
pub open spec fn reconciles(
    r: Result<Vec<(Vec<VtxoOutPoint>, DefaultVtxo)>, ClientError>,
    now: Timestamp,
    fetched: Seq<AddressFacts>,
) -> bool {
    &&& r is Err <==> now.is_negative() && any_needs_clock(fetched)
    &&& r is Err ==> r->Err_0 is TimeBeforeEpoch
    &&& r is Ok ==> is_reconciliation(r->Ok_0@, now.spec_as_duration(), fetched)
}

impl Client {
    /// Reconciles every address with the chain at the clock reading `now`.
    pub fn spendable_vtxos_at(&self, now: Timestamp, fetched: &Vec<AddressFacts>) -> (r: Result<
        Vec<(Vec<VtxoOutPoint>, DefaultVtxo)>,
        ClientError,
    >)
        ensures
            reconciles(r, now, fetched@),
    {
        let mut groups: Vec<(Vec<VtxoOutPoint>, DefaultVtxo)> = Vec::new();
        let mut a: usize = 0;
        while a < fetched.len()
            invariant
                a <= fetched.len(),
                is_reconciliation(groups@, now.spec_as_duration(), fetched@.take(a as int)),
                now.is_negative() ==> !any_needs_clock(fetched@.take(a as int)),
            decreases fetched.len() - a,
        {
            let facts = &fetched[a];
            match spendable_at(&facts.vtxo, now, &facts.explorer_utxos, &facts.spendable) {
                Ok(kept) => {
                    groups.push((kept, facts.vtxo));
                },
                Err(e) => {
                    assert(fetched@[a as int] == facts);
                    return Err(e);
                },
            }
            a += 1;
        }
        proof {
            assert(fetched@.take(fetched.len() as int) =~= fetched@);
        }
        Ok(groups)
    }

    /// Reconciles every address with the chain at the present moment.
    ///
    /// The outcome is that of [`Client::spendable_vtxos_at`] for the time the
    /// system clock showed. Where the clock cannot be read, reconciliation
    /// still succeeds if no unit takes the time to be decided, and fails
    /// with `ClockOutOfRange` otherwise.
    pub fn spendable_vtxos(&self, fetched: &Vec<AddressFacts>) -> (r: Result<
        Vec<(Vec<VtxoOutPoint>, DefaultVtxo)>,
        ClientError,
    >)
        ensures
            reconciles_now(r, fetched@),
            !any_needs_clock(fetched@) ==> r is Ok,
    {
        match now() {
            Some(now) => {
                let r = self.spendable_vtxos_at(now, fetched);
                proof {
                    assert(reconciles_at_some_time(r, fetched@)) by {
                        assert(-999_999_999 <= now.nanosecond <= 999_999_999 && reconciles(
                            r,
                            now,
                            fetched@,
                        ));
                    }
                }
                r
            },
            None => {
                let before_epoch = Timestamp { second: -1, nanosecond: 0 };
                match self.spendable_vtxos_at(before_epoch, fetched) {
                    Ok(groups) => {
                        proof {
                            assert(reconciles(Ok(groups), before_epoch, fetched@));
                        }
                        Ok(groups)
                    },
                    Err(_) => Err(ClientError::ClockOutOfRange),
                }
            },
        }
    }
}

/// `r` is what reconciling `fetched` yields at some reading of the clock.
pub open spec fn reconciles_at_some_time(
    r: Result<Vec<(Vec<VtxoOutPoint>, DefaultVtxo)>, ClientError>,
    fetched: Seq<AddressFacts>,
) -> bool {
    exists|now: Timestamp|
        -999_999_999 <= now.nanosecond <= 999_999_999 && #[trigger] reconciles(r, now, fetched)
}

/// `r` is what reconciling `fetched` yields at the present moment: the
/// reconciliation at some reading of the clock, or `ClockOutOfRange` where
/// the time was needed and the clock could not be read.
pub open spec fn reconciles_now(
    r: Result<Vec<(Vec<VtxoOutPoint>, DefaultVtxo)>, ClientError>,
    fetched: Seq<AddressFacts>,
) -> bool {
    ||| reconciles_at_some_time(r, fetched)
    ||| r is Err && r->Err_0 is ClockOutOfRange && any_needs_clock(fetched)
}

/// A unit that the chain has not confirmed, because the explorer does not
/// know it or knows it as unconfirmed, is spendable whatever the time, the
/// exit delay and the other units, and so it is part of the spendable set.
pub proof fn lemma_unconfirmed_is_spendable(
    vtxo: DefaultVtxo,
    now: EpochDuration,
    utxos: Seq<ExplorerUtxo>,
    units: Seq<VtxoOutPoint>,
    i: int,
)
    requires
        0 <= i < units.len(),
        confirmation_of(utxos, units[i]) is None,
    ensures
        unit_spendable(vtxo, now, utxos, units[i]),
        spendable_units(vtxo, now, utxos, units).contains(units[i]),
{
    units.lemma_filter_contains(keeps(vtxo, now, utxos), i);
}

/// A confirmed unit is spendable up to and including the moment at which
/// the exit delay has passed since its confirmation, and no longer after it.
pub proof fn lemma_exit_delay_boundary(
    vtxo: DefaultVtxo,
    now: EpochDuration,
    utxos: Seq<ExplorerUtxo>,
    unit: VtxoOutPoint,
    confirmed_at: u64,
)
    requires
        confirmation_of(utxos, unit) == Some(confirmed_at),
    ensures
        now.secs < confirmed_at + vtxo.spec_exit_delay_seconds() ==> unit_spendable(
            vtxo,
            now,
            utxos,
            unit,
        ),
        now.secs == confirmed_at + vtxo.spec_exit_delay_seconds() ==> (unit_spendable(
            vtxo,
            now,
            utxos,
            unit,
        ) <==> now.nanos == 0),
        now.secs > confirmed_at + vtxo.spec_exit_delay_seconds() ==> !unit_spendable(
            vtxo,
            now,
            utxos,
            unit,
        ),
{
}

/// A unit is in the spendable set exactly if it was listed and is
/// spendable by itself: no unit decides about another.
pub proof fn lemma_units_decided_alone(
    vtxo: DefaultVtxo,
    now: EpochDuration,
    utxos: Seq<ExplorerUtxo>,
    units: Seq<VtxoOutPoint>,
    unit: VtxoOutPoint,
)
    ensures
        spendable_units(vtxo, now, utxos, units).contains(unit) <==> units.contains(unit)
            && unit_spendable(vtxo, now, utxos, unit),
{
    let pred = keeps(vtxo, now, utxos);
    let kept = spendable_units(vtxo, now, utxos, units);
    if kept.contains(unit) {
        let k = choose|k: int| 0 <= k < kept.len() && kept[k] == unit;
        units.lemma_filter_pred(pred, k);
        units.lemma_filter_contains_rev(pred, unit);
    }
    if units.contains(unit) && unit_spendable(vtxo, now, utxos, unit) {
        let i = choose|i: int| 0 <= i < units.len() && units[i] == unit;
        units.lemma_filter_contains(pred, i);
    }
}

/// Reconciliation is a function of the clock reading and of what was
/// fetched: two runs on the same input fail alike or agree on every group.
pub proof fn lemma_reconciliation_is_function(
    first: Result<Vec<(Vec<VtxoOutPoint>, DefaultVtxo)>, ClientError>,
    second: Result<Vec<(Vec<VtxoOutPoint>, DefaultVtxo)>, ClientError>,
    now: Timestamp,
    fetched: Seq<AddressFacts>,
)
    requires
        reconciles(first, now, fetched),
        reconciles(second, now, fetched),
    ensures
        first is Err <==> second is Err,
        first is Ok ==> {
            &&& first->Ok_0@.len() == second->Ok_0@.len()
            &&& forall|a: int|
                0 <= a < first->Ok_0@.len() ==> {
                    &&& (#[trigger] first->Ok_0@[a]).0@ == second->Ok_0@[a].0@
                    &&& first->Ok_0@[a].1 == second->Ok_0@[a].1
                }
        },
{
}

} // verus!
