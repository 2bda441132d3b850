//! Transaction history: deposits, incoming and outgoing transfers merged into
//! one list ordered by creation time.

use crate::arkcore::{generate_incoming, generate_outgoing, incoming_history, no_deposit};
use crate::client::Client;
use crate::error::ClientError;
use crate::types::{
    amount_sum, ExplorerUtxo, HistoryRecord, ListVtxo, SpendStatus, Txid, VtxoOutPoint,
};
use vstd::prelude::*;

verus! {

/// The records of `s` appear in ascending order of creation time.
pub open spec fn is_sorted(s: Seq<HistoryRecord>) -> bool {
    forall|i: int, j: int|
        0 <= i <= j < s.len() ==> s[i].spec_created_at() <= s[j].spec_created_at()
}

/// The predicate that holds of the records created at time `t`.
pub open spec fn created_at_time(t: i64) -> spec_fn(HistoryRecord) -> bool {
    |r: HistoryRecord| r.spec_created_at() == t
}

/// `r` holds the records of `s` in ascending order of creation time, and the
/// records that share a creation time stand in `r` in the order they have in `s`.
pub open spec fn is_stable_sort_of(r: Seq<HistoryRecord>, s: Seq<HistoryRecord>) -> bool {
    &&& is_sorted(r)
    &&& forall|t: i64| #[trigger]
        r.filter(created_at_time(t)) == s.filter(created_at_time(t))
}

/// `s` with `x` placed behind every record that is not younger than `x`.
pub open spec fn insert_by_time(s: Seq<HistoryRecord>, x: HistoryRecord) -> Seq<HistoryRecord>
    decreases s.len(),
{
    if s.len() == 0 || s.last().spec_created_at() <= x.spec_created_at() {
        s.push(x)
    } else {
        insert_by_time(s.drop_last(), x).push(s.last())
    }
}

/// The records of `s` sorted by creation time, ties kept in their order.
pub open spec fn sort_by_time(s: Seq<HistoryRecord>) -> Seq<HistoryRecord>
    decreases s.len(),
{
    if s.len() == 0 {
        s
    } else {
        insert_by_time(sort_by_time(s.drop_last()), s.last())
    }
}

proof fn lemma_filter_push(s: Seq<HistoryRecord>, x: HistoryRecord, pred: spec_fn(HistoryRecord) -> bool)
    ensures
        s.push(x).filter(pred) == if pred(x) {
            s.filter(pred).push(x)
        } else {
            s.filter(pred)
        },
{
    reveal(Seq::filter);
    assert(s.push(x).drop_last() =~= s);
}

proof fn lemma_insert_by_time(s: Seq<HistoryRecord>, x: HistoryRecord)
    requires
        is_sorted(s),
    ensures
        is_sorted(insert_by_time(s, x)),
        insert_by_time(s, x).len() == s.len() + 1,
        forall|i: int|
            0 <= i < insert_by_time(s, x).len() ==> {
                ||| #[trigger] insert_by_time(s, x)[i] == x
                ||| s.contains(insert_by_time(s, x)[i])
            },
        forall|t: i64| #[trigger]
            insert_by_time(s, x).filter(created_at_time(t)) == if x.spec_created_at() == t {
                s.filter(created_at_time(t)).push(x)
            } else {
                s.filter(created_at_time(t))
            },
    decreases s.len(),
{
    let r = insert_by_time(s, x);
    if s.len() == 0 || s.last().spec_created_at() <= x.spec_created_at() {
        assert forall|i: int| 0 <= i < r.len() implies #[trigger] r[i] == x || s.contains(r[i]) by {
            if i < s.len() {
                assert(s[i] == r[i]);
            }
        }
        assert forall|t: i64| #[trigger]
            r.filter(created_at_time(t)) == if x.spec_created_at() == t {
                s.filter(created_at_time(t)).push(x)
            } else {
                s.filter(created_at_time(t))
            } by {
            lemma_filter_push(s, x, created_at_time(t));
        }
    } else {
        let front = s.drop_last();
        let last = s.last();
        let inner = insert_by_time(front, x);
        lemma_insert_by_time(front, x);
        assert(s =~= front.push(last));
        assert forall|i: int, j: int| 0 <= i <= j < r.len() implies r[i].spec_created_at()
            <= r[j].spec_created_at() by {
            if j == r.len() - 1 && i < j {
                if inner[i] != x {
                    assert(front.contains(inner[i]));
                    let k = choose|k: int| 0 <= k < front.len() && front[k] == inner[i];
                    assert(s[k] == inner[i]);
                }
            }
        }
        assert forall|i: int| 0 <= i < r.len() implies #[trigger] r[i] == x || s.contains(r[i]) by {
            if i < inner.len() {
                if inner[i] != x {
                    let k = choose|k: int| 0 <= k < front.len() && front[k] == inner[i];
                    assert(s[k] == r[i]);
                }
            } else {
                assert(s[s.len() - 1] == r[i]);
            }
        }
        assert forall|t: i64| #[trigger]
            r.filter(created_at_time(t)) == if x.spec_created_at() == t {
                s.filter(created_at_time(t)).push(x)
            } else {
                s.filter(created_at_time(t))
            } by {
            lemma_filter_push(inner, last, created_at_time(t));
            lemma_filter_push(front, last, created_at_time(t));
        }
    }
}

/// Sorting by creation time yields a stable sort.
pub proof fn lemma_sort_by_time(s: Seq<HistoryRecord>)
    ensures
        is_stable_sort_of(sort_by_time(s), s),
        sort_by_time(s).len() == s.len(),
    decreases s.len(),
{
    if s.len() == 0 {
    } else {
        let front = s.drop_last();
        lemma_sort_by_time(front);
        lemma_insert_by_time(sort_by_time(front), s.last());
        assert(s =~= front.push(s.last()));
        assert forall|t: i64| #[trigger]
            sort_by_time(s).filter(created_at_time(t)) == s.filter(created_at_time(t)) by {
            lemma_filter_push(front, s.last(), created_at_time(t));
        }
    }
}

proof fn lemma_insert_position(s: Seq<HistoryRecord>, x: HistoryRecord, p: int)
    requires
        0 <= p <= s.len(),
        forall|k: int| p <= k < s.len() ==> s[k].spec_created_at() > x.spec_created_at(),
        p == 0 || s[p - 1].spec_created_at() <= x.spec_created_at(),
    ensures
        insert_by_time(s, x) == s.insert(p, x),
    decreases s.len(),
{
    if s.len() == 0 || s.last().spec_created_at() <= x.spec_created_at() {
        assert(p == s.len());
        assert(s.push(x) =~= s.insert(p, x));
    } else {
        assert(p < s.len());
        lemma_insert_position(s.drop_last(), x, p);
        assert(s.drop_last().insert(p, x).push(s.last()) =~= s.insert(p, x));
    }
}

/// Sorts history records by creation time, oldest first. Records with the
/// same creation time keep their relative order.
pub fn sort_by_created_at(records: &Vec<HistoryRecord>) -> (sorted: Vec<HistoryRecord>)
    ensures
        sorted@ == sort_by_time(records@),
        is_stable_sort_of(sorted@, records@),
        sorted@.len() == records@.len(),
{
    let mut sorted: Vec<HistoryRecord> = Vec::new();
    let mut i: usize = 0;
    while i < records.len()
        invariant
            i <= records.len(),
            sorted@ == sort_by_time(records@.take(i as int)),
        decreases records.len() - i,
    {
        let x = records[i];
        let mut p: usize = sorted.len();
        while p > 0 && sorted[p - 1].created_at() > x.created_at()
            invariant
                p <= sorted.len(),
                forall|k: int|
                    p <= k < sorted.len() ==> sorted@[k].spec_created_at() > x.spec_created_at(),
            decreases p,
        {
            p -= 1;
        }
        proof {
            lemma_insert_position(sorted@, x, p as int);
            assert(records@.take(i + 1).drop_last() =~= records@.take(i as int));
        }
        sorted.insert(p, x);
        i += 1;
    }
    proof {
        assert(records@.take(records.len() as int) =~= records@);
        lemma_sort_by_time(records@);
    }
    sorted
}

/// The history made of deposits, incoming and outgoing transfers: all three
/// lists in that order, then sorted by creation time with ties left in place.
pub open spec fn history_of(
    boarding: Seq<HistoryRecord>,
    incoming: Seq<HistoryRecord>,
    outgoing: Seq<HistoryRecord>,
) -> Seq<HistoryRecord> {
    sort_by_time(boarding + incoming + outgoing)
}

/// Merges the three sources of history into one chronological list.
pub fn assemble_history(
    boarding: Vec<HistoryRecord>,
    incoming: Vec<HistoryRecord>,
    outgoing: Vec<HistoryRecord>,
) -> (history: Vec<HistoryRecord>)
    ensures
        history@ == history_of(boarding@, incoming@, outgoing@),
        is_stable_sort_of(history@, boarding@ + incoming@ + outgoing@),
        history@.len() == boarding@.len() + incoming@.len() + outgoing@.len(),
{
    let mut all = boarding;
    let mut incoming = incoming;
    let mut outgoing = outgoing;
    all.append(&mut incoming);
    all.append(&mut outgoing);
    sort_by_created_at(&all)
}

/// An explorer's block time read as a signed number, the way a cast between
/// the two 64-bit types reads it.
pub open spec fn blocktime_as_signed(t: u64) -> i64 {
    if t <= i64::MAX {
        t as i64
    } else {
        (t - 0x1_0000_0000_0000_0000) as i64
    }
}

/// The history record of one deposit: its transaction, its amount and its
/// confirmation time, absent while it is unconfirmed.
pub open spec fn boarding_record(utxo: ExplorerUtxo) -> HistoryRecord {
    HistoryRecord::Boarding {
        txid: utxo.outpoint.txid,
        amount: utxo.amount,
        confirmed_at: match utxo.confirmation_blocktime {
            Some(t) => Some(blocktime_as_signed(t)),
            None => None,
        },
    }
}

/// One deposit record per boarding output, in the order given.
pub open spec fn boarding_records(outputs: Seq<(ExplorerUtxo, SpendStatus)>) -> Seq<HistoryRecord> {
    Seq::new(outputs.len(), |i: int| boarding_record(outputs[i].0))
}

/// The transactions that spent a boarding output, in the order of the outputs.
pub open spec fn boarding_round_txids(outputs: Seq<(ExplorerUtxo, SpendStatus)>) -> Seq<Txid>
    decreases outputs.len(),
{
    if outputs.len() == 0 {
        Seq::empty()
    } else {
        match outputs.last().1.spend_txid {
            Some(txid) => boarding_round_txids(outputs.drop_last()).push(txid),
            None => boarding_round_txids(outputs.drop_last()),
        }
    }
}

fn signed_blocktime(t: u64) -> (r: i64)
    ensures
        r == blocktime_as_signed(t),
{
    if t <= 0x7fff_ffff_ffff_ffff {
        t as i64
    } else {
        let below: u64 = u64::MAX - t;
        -(below as i64) - 1
    }
}

/// Turns the boarding outputs found on chain into deposit records, and
/// collects the transactions that moved a deposit into a round.
pub fn boarding_transactions(outputs: &Vec<(ExplorerUtxo, SpendStatus)>) -> (r: (
    Vec<HistoryRecord>,
    Vec<Txid>,
))
    ensures
        r.0@ == boarding_records(outputs@),
        r.1@ == boarding_round_txids(outputs@),
{
    let mut records: Vec<HistoryRecord> = Vec::new();
    let mut round_txids: Vec<Txid> = Vec::new();
    let mut i: usize = 0;
    while i < outputs.len()
        invariant
            i <= outputs.len(),
            records@ == boarding_records(outputs@.take(i as int)),
            round_txids@ == boarding_round_txids(outputs@.take(i as int)),
        decreases outputs.len() - i,
    {
        let utxo = outputs[i].0;
        let confirmed_at = match utxo.confirmation_blocktime {
            Some(t) => Some(signed_blocktime(t)),
            None => None,
        };
        records.push(HistoryRecord::Boarding { txid: utxo.outpoint.txid, amount: utxo.amount, confirmed_at });
        if let Some(spend_txid) = outputs[i].1.spend_txid {
            round_txids.push(spend_txid);
        }
        proof {
            assert(outputs@.take(i + 1).drop_last() =~= outputs@.take(i as int));
            assert(records@ =~= boarding_records(outputs@.take(i + 1)));
        }
        i += 1;
    }
    proof {
        assert(outputs@.take(outputs.len() as int) =~= outputs@);
    }
    (records, round_txids)
}

proof fn lemma_amount_sum_nonnegative(s: Seq<VtxoOutPoint>)
    ensures
        amount_sum(s) >= 0,
    decreases s.len(),
{
    if s.len() > 0 {
        lemma_amount_sum_nonnegative(s.drop_last());
    }
}

impl Client {
    /// Reconstructs the wallet's history from what the chain explorer found
    /// at the boarding addresses and what the coordinator lists for the
    /// wallet's off-chain addresses.
    ///
    /// Every boarding output yields one deposit record, whether it was spent
    /// or not. The incoming and the outgoing records are generated by
    /// `ark_core` from the whole listing; the incoming side is told which
    /// transactions spent a boarding output. The three lists are joined in
    /// that order and sorted by creation time, ties left in place. If either
    /// generator fails, so does the whole reconstruction, with the
    /// generator's error and no history; neither fails while all listed
    /// amounts together fit a signed amount.
    pub fn transaction_history(
        &self,
        boarding_outputs: &Vec<(ExplorerUtxo, SpendStatus)>,
        vtxos: &ListVtxo,
    ) -> (r: Result<Vec<HistoryRecord>, ClientError>)
        requires
            amount_sum(vtxos.spent@) + amount_sum(vtxos.spendable@) <= u64::MAX,
        ensures
            amount_sum(vtxos.spent@) + amount_sum(vtxos.spendable@) <= i64::MAX ==> r is Ok,
            match r {
                Ok(history) => {
                    &&& incoming_of(boarding_outputs@, *vtxos) is Some
                    &&& exists|outgoing: Seq<HistoryRecord>|
                        is_history_with(history@, boarding_outputs@, *vtxos, outgoing)
                    &&& history@.filter(is_deposit()).len() == boarding_outputs@.len()
                },
                Err(e) => {
                    &&& e is IncomingHistory || e is OutgoingHistory
                    &&& e is IncomingHistory <==> incoming_of(boarding_outputs@, *vtxos) is None
                },
            },
    {
        proof {
            lemma_amount_sum_nonnegative(vtxos.spent@);
            lemma_amount_sum_nonnegative(vtxos.spendable@);
        }
        let (boarding, boarding_round_txids) = boarding_transactions(boarding_outputs);
        let incoming = match generate_incoming(&vtxos.spent, &vtxos.spendable, &boarding_round_txids) {
            Ok(records) => records,
            Err(e) => {
                return Err(ClientError::IncomingHistory(e));
            },
        };
        let outgoing = match generate_outgoing(&vtxos.spent, &vtxos.spendable) {
            Ok(records) => records,
            Err(e) => {
                return Err(ClientError::OutgoingHistory(e));
            },
        };
        let ghost incoming_records = incoming@;
        let ghost outgoing_records = outgoing@;
        let history = assemble_history(boarding, incoming, outgoing);
        proof {
            lemma_history_keeps_records(boarding_outputs@, incoming_records, outgoing_records);
            lemma_no_deposit(incoming_records);
            lemma_no_deposit(outgoing_records);
            assert(incoming_of(boarding_outputs@, *vtxos) == Some(incoming_records));
            assert(is_history_with(history@, boarding_outputs@, *vtxos, outgoing_records));
        }
        Ok(history)
    }
}

/// The incoming records that `ark_core` generates from the listing `vtxos`,
/// told which transactions spent one of `boarding_outputs`.
pub open spec fn incoming_of(
    boarding_outputs: Seq<(ExplorerUtxo, SpendStatus)>,
    vtxos: ListVtxo,
) -> Option<Seq<HistoryRecord>> {
    incoming_history(vtxos.spent@, vtxos.spendable@, boarding_round_txids(boarding_outputs))
}

/// `history` is the history of the deposits at `boarding_outputs`, of the
/// incoming records that follow from the listing `vtxos`, and of the
/// outgoing records `outgoing`, of which there is at most one for each spent
/// output and none that is a deposit.
pub open spec fn is_history_with(
    history: Seq<HistoryRecord>,
    boarding_outputs: Seq<(ExplorerUtxo, SpendStatus)>,
    vtxos: ListVtxo,
    outgoing: Seq<HistoryRecord>,
) -> bool {
    &&& history == history_of(
        boarding_records(boarding_outputs),
        incoming_of(boarding_outputs, vtxos)->Some_0,
        outgoing,
    )
    &&& outgoing.len() <= vtxos.spent@.len()
    &&& no_deposit(outgoing)
}

proof fn lemma_no_deposit(records: Seq<HistoryRecord>)
    requires
        no_deposit(records),
    ensures
        records.filter(is_deposit()).len() == 0,
{
    lemma_filter_none(records, is_deposit());
}

/// The predicate that holds of deposit records.
pub open spec fn is_deposit() -> spec_fn(HistoryRecord) -> bool {
    |r: HistoryRecord| r is Boarding
}

proof fn lemma_insert_keeps_records(s: Seq<HistoryRecord>, x: HistoryRecord, pred: spec_fn(HistoryRecord) -> bool)
    ensures
        insert_by_time(s, x).filter(pred).len() == s.filter(pred).len() + if pred(x) {
            1int
        } else {
            0int
        },
        insert_by_time(s, x).to_multiset() == s.to_multiset().insert(x),
    decreases s.len(),
{
    broadcast use vstd::seq_lib::to_multiset_build;

    if s.len() == 0 || s.last().spec_created_at() <= x.spec_created_at() {
        lemma_filter_push(s, x, pred);
    } else {
        let front = s.drop_last();
        let last = s.last();
        lemma_insert_keeps_records(front, x, pred);
        lemma_filter_push(insert_by_time(front, x), last, pred);
        lemma_filter_push(front, last, pred);
        assert(s =~= front.push(last));
        assert(front.to_multiset().insert(x).insert(last) =~= front.to_multiset().insert(
            last,
        ).insert(x));
    }
}

proof fn lemma_sort_keeps_records(s: Seq<HistoryRecord>, pred: spec_fn(HistoryRecord) -> bool)
    ensures
        sort_by_time(s).filter(pred).len() == s.filter(pred).len(),
        sort_by_time(s).to_multiset() == s.to_multiset(),
    decreases s.len(),
{
    broadcast use vstd::seq_lib::to_multiset_build;

    if s.len() > 0 {
        let front = s.drop_last();
        lemma_sort_keeps_records(front, pred);
        lemma_insert_keeps_records(sort_by_time(front), s.last(), pred);
        lemma_filter_push(front, s.last(), pred);
        assert(s =~= front.push(s.last()));
    }
}

proof fn lemma_deposits_only(outputs: Seq<(ExplorerUtxo, SpendStatus)>)
    ensures
        boarding_records(outputs).filter(is_deposit()) == boarding_records(outputs),
    decreases outputs.len(),
{
    reveal(Seq::filter);
    let records = boarding_records(outputs);
    if outputs.len() > 0 {
        lemma_deposits_only(outputs.drop_last());
        assert(records.drop_last() =~= boarding_records(outputs.drop_last()));
        assert(records.drop_last().push(records.last()) =~= records);
    } else {
        assert(records =~= Seq::empty());
    }
}

/// The history is in ascending order of creation time, and among the
/// records created at one time the deposits come first, then the incoming
/// transfers, then the outgoing ones, each group in the order it was given.
pub proof fn lemma_history_order(
    boarding: Seq<HistoryRecord>,
    incoming: Seq<HistoryRecord>,
    outgoing: Seq<HistoryRecord>,
    t: i64,
)
    ensures
        is_sorted(history_of(boarding, incoming, outgoing)),
        history_of(boarding, incoming, outgoing).filter(created_at_time(t)) == boarding.filter(
            created_at_time(t),
        ) + incoming.filter(created_at_time(t)) + outgoing.filter(created_at_time(t)),
{
    let all = boarding + incoming + outgoing;
    lemma_sort_by_time(all);
    assert(sort_by_time(all).filter(created_at_time(t)) == all.filter(created_at_time(t)));
    Seq::filter_distributes_over_add(boarding + incoming, outgoing, created_at_time(t));
    Seq::filter_distributes_over_add(boarding, incoming, created_at_time(t));
}

/// The history holds every record it was given exactly as often as it was
/// given: none is lost and none is repeated. In particular it holds one
/// deposit record for each boarding output, whether spent or not, beside the
/// deposit records that the other two lists bring.
pub proof fn lemma_history_keeps_records(
    outputs: Seq<(ExplorerUtxo, SpendStatus)>,
    incoming: Seq<HistoryRecord>,
    outgoing: Seq<HistoryRecord>,
)
    ensures
        history_of(boarding_records(outputs), incoming, outgoing).to_multiset()
            == boarding_records(outputs).to_multiset().add(incoming.to_multiset()).add(
            outgoing.to_multiset(),
        ),
        history_of(boarding_records(outputs), incoming, outgoing).filter(is_deposit()).len()
            == outputs.len() + incoming.filter(is_deposit()).len() + outgoing.filter(
            is_deposit(),
        ).len(),
{
    let boarding = boarding_records(outputs);
    let all = boarding + incoming + outgoing;
    lemma_sort_keeps_records(all, is_deposit());
    Seq::filter_distributes_over_add(boarding + incoming, outgoing, is_deposit());
    Seq::filter_distributes_over_add(boarding, incoming, is_deposit());
    lemma_deposits_only(outputs);
    vstd::seq_lib::lemma_multiset_commutative(boarding + incoming, outgoing);
    vstd::seq_lib::lemma_multiset_commutative(boarding, incoming);
}

proof fn lemma_filter_none(s: Seq<HistoryRecord>, pred: spec_fn(HistoryRecord) -> bool)
    requires
        forall|i: int| 0 <= i < s.len() ==> !pred(#[trigger] s[i]),
    ensures
        s.filter(pred).len() == 0,
    decreases s.len(),
{
    reveal(Seq::filter);
    if s.len() > 0 {
        assert(!pred(s[s.len() - 1]));
        assert forall|i: int| 0 <= i < s.drop_last().len() implies !pred(
            #[trigger] s.drop_last()[i],
        ) by {
            assert(s.drop_last()[i] == s[i]);
        }
        lemma_filter_none(s.drop_last(), pred);
    }
}

proof fn lemma_filter_last(s: Seq<HistoryRecord>, t: i64)
    requires
        s.len() > 0,
    ensures
        s.filter(created_at_time(t)) == if s.last().spec_created_at() == t {
            s.drop_last().filter(created_at_time(t)).push(s.last())
        } else {
            s.drop_last().filter(created_at_time(t))
        },
{
    lemma_filter_push(s.drop_last(), s.last(), created_at_time(t));
    assert(s.drop_last().push(s.last()) =~= s);
}

proof fn lemma_sorted_same_filters(a: Seq<HistoryRecord>, b: Seq<HistoryRecord>)
    requires
        is_sorted(a),
        is_sorted(b),
        forall|t: i64| #[trigger] a.filter(created_at_time(t)) == b.filter(created_at_time(t)),
    ensures
        a == b,
    decreases a.len(),
{
    if a.len() == 0 {
        if b.len() > 0 {
            let u = b.last().spec_created_at();
            lemma_filter_last(b, u);
            lemma_filter_none(a, created_at_time(u));
            assert(a.filter(created_at_time(u)) == b.filter(created_at_time(u)));
        }
        assert(a =~= b);
    } else {
        let x = a.last();
        let t = x.spec_created_at();
        lemma_filter_last(a, t);
        assert(a.filter(created_at_time(t)) == b.filter(created_at_time(t)));
        if b.len() == 0 {
            lemma_filter_none(b, created_at_time(t));
        }
        let y = b.last();
        let u = y.spec_created_at();
        lemma_filter_last(b, u);
        assert(a.filter(created_at_time(u)) == b.filter(created_at_time(u)));
        if u > t {
            assert forall|i: int| 0 <= i < a.len() implies !created_at_time(u)(#[trigger] a[i]) by {
                assert(a[i].spec_created_at() <= a[a.len() - 1].spec_created_at());
            }
            lemma_filter_none(a, created_at_time(u));
        }
        if t > u {
            assert forall|i: int| 0 <= i < b.len() implies !created_at_time(t)(#[trigger] b[i]) by {
                assert(b[i].spec_created_at() <= b[b.len() - 1].spec_created_at());
            }
            lemma_filter_none(b, created_at_time(t));
        }
        assert(t == u);
        let fa = a.drop_last().filter(created_at_time(t));
        let fb = b.drop_last().filter(created_at_time(t));
        assert(fa.push(x) == fb.push(y));
        assert(fa.push(x).last() == x);
        assert(fb.push(y).last() == y);
        assert(fa.push(x).drop_last() =~= fa);
        assert(fb.push(y).drop_last() =~= fb);
        assert forall|w: i64| #[trigger]
            a.drop_last().filter(created_at_time(w)) == b.drop_last().filter(
                created_at_time(w),
            ) by {
            lemma_filter_last(a, w);
            lemma_filter_last(b, w);
            assert(a.filter(created_at_time(w)) == b.filter(created_at_time(w)));
        }
        assert(is_sorted(a.drop_last())) by {
            assert forall|i: int, j: int| 0 <= i <= j < a.drop_last().len() implies a.drop_last()[i].spec_created_at()
                <= a.drop_last()[j].spec_created_at() by {
                assert(a[i].spec_created_at() <= a[j].spec_created_at());
            }
        }
        assert(is_sorted(b.drop_last())) by {
            assert forall|i: int, j: int| 0 <= i <= j < b.drop_last().len() implies b.drop_last()[i].spec_created_at()
                <= b.drop_last()[j].spec_created_at() by {
                assert(b[i].spec_created_at() <= b[j].spec_created_at());
            }
        }
        lemma_sorted_same_filters(a.drop_last(), b.drop_last());
        assert(a =~= a.drop_last().push(x));
        assert(b =~= b.drop_last().push(y));
    }
}

/// A list of records has one stable sort by creation time and no other:
/// the same records give the same history, whenever and however often it is
/// reconstructed.
pub proof fn lemma_stable_sort_unique(
    a: Seq<HistoryRecord>,
    b: Seq<HistoryRecord>,
    s: Seq<HistoryRecord>,
)
    requires
        is_stable_sort_of(a, s),
        is_stable_sort_of(b, s),
    ensures
        a == b,
        a == sort_by_time(s),
{
    lemma_sort_by_time(s);
    assert forall|t: i64| #[trigger]
        a.filter(created_at_time(t)) == b.filter(created_at_time(t)) by {
        assert(a.filter(created_at_time(t)) == s.filter(created_at_time(t)));
        assert(b.filter(created_at_time(t)) == s.filter(created_at_time(t)));
    }
    lemma_sorted_same_filters(a, b);
    assert forall|t: i64| #[trigger]
        a.filter(created_at_time(t)) == sort_by_time(s).filter(created_at_time(t)) by {
        assert(a.filter(created_at_time(t)) == s.filter(created_at_time(t)));
        assert(sort_by_time(s).filter(created_at_time(t)) == s.filter(created_at_time(t)));
    }
    lemma_sorted_same_filters(a, sort_by_time(s));
}

} // verus!
