//! Plain-value models of the chain and coordinator data the wallet reasons about.

use vstd::prelude::*;

verus! {

/// A transaction id: the 32 bytes of the double SHA-256 of a transaction.
#[derive(Clone, Copy, Debug, PartialEq, Eq, Hash)]
pub struct Txid {
    pub bytes: [u8; 32],
}

impl View for Txid {
    type V = Seq<u8>;

    open spec fn view(&self) -> Seq<u8> {
        self.bytes@
    }
}

impl Txid {
    pub fn from_byte_array(bytes: [u8; 32]) -> (r: Txid)
        ensures
            r.bytes == bytes,
    {
        Txid { bytes }
    }

    /// Byte-wise equality of two transaction ids.
    pub fn same(&self, other: &Txid) -> (r: bool)
        ensures
            r == (self@ == other@),
    {
        let mut i: usize = 0;
        while i < 32
            invariant
                i <= 32,
                forall|j: int| 0 <= j < i ==> self.bytes@[j] == other.bytes@[j],
            decreases 32 - i,
        {
            if self.bytes[i] != other.bytes[i] {
                return false;
            }
            i += 1;
        }
        assert(self@ =~= other@);
        true
    }
}

/// A reference to one output of a transaction.
#[derive(Clone, Copy, Debug, PartialEq, Eq, Hash)]
pub struct OutPoint {
    pub txid: Txid,
    pub vout: u32,
}

impl View for OutPoint {
    type V = (Seq<u8>, u32);

    open spec fn view(&self) -> (Seq<u8>, u32) {
        (self.txid@, self.vout)
    }
}

impl OutPoint {
    pub fn new(txid: Txid, vout: u32) -> (r: OutPoint)
        ensures
            r.txid == txid,
            r.vout == vout,
    {
        OutPoint { txid, vout }
    }

    /// Whether both references name the same output.
    pub fn same(&self, other: &OutPoint) -> (r: bool)
        ensures
            r == (self@ == other@),
    {
        self.vout == other.vout && self.txid.same(&other.txid)
    }
}

/// An unsigned number of satoshis.
#[derive(Clone, Copy, Debug, PartialEq, Eq, Structural)]
pub struct Amount {
    pub sat: u64,
}

impl Amount {
    pub fn from_sat(sat: u64) -> (r: Amount)
        ensures
            r.sat == sat,
    {
        Amount { sat }
    }

    pub fn to_sat(self) -> (r: u64)
        ensures
            r == self.sat,
    {
        self.sat
    }
}

/// A signed number of satoshis: positive when received, negative when sent.
#[derive(Clone, Copy, Debug, PartialEq, Eq, Structural)]
pub struct SignedAmount {
    pub sat: i64,
}

impl SignedAmount {
    pub fn from_sat(sat: i64) -> (r: SignedAmount)
        ensures
            r.sat == sat,
    {
        SignedAmount { sat }
    }

    pub fn to_sat(self) -> (r: i64)
        ensures
            r == self.sat,
    {
        self.sat
    }
}

/// What a chain explorer reports about one output paying to an address.
#[derive(Clone, Copy, Debug, PartialEq, Eq)]
pub struct ExplorerUtxo {
    pub outpoint: OutPoint,
    pub amount: Amount,
    /// Block time of the confirming block in seconds since the epoch, absent
    /// while the transaction is unconfirmed.
    pub confirmation_blocktime: Option<u64>,
    pub is_spent: bool,
}

/// Whether an output has been spent, and by which transaction.
#[derive(Clone, Copy, Debug, PartialEq, Eq)]
pub struct SpendStatus {
    pub spend_txid: Option<Txid>,
}

/// An off-chain output as the coordinator reports it.
#[derive(Clone, Copy, Debug, PartialEq, Eq)]
pub struct VtxoOutPoint {
    pub outpoint: OutPoint,
    pub spent: bool,
    /// The round transaction that anchors this output on chain.
    pub round_txid: Txid,
    pub spent_by: Option<Txid>,
    pub expire_at: i64,
    pub swept: bool,
    /// Set while the output awaits confirmation in a round.
    pub is_pending: bool,
    pub amount: Amount,
    pub created_at: i64,
}

/// The coordinator's answer for one address: the outputs already spent and
/// those still unspent.
#[derive(Clone, Debug, PartialEq, Eq)]
pub struct ListVtxo {
    pub spent: Vec<VtxoOutPoint>,
    pub spendable: Vec<VtxoOutPoint>,
}

/// One entry of the wallet's transaction history.
#[derive(Clone, Copy, Debug, PartialEq, Eq)]
#[allow(inconsistent_fields)]
pub enum HistoryRecord {
    /// An on-chain deposit into a boarding output.
    Boarding { txid: Txid, amount: Amount, confirmed_at: Option<i64> },
    /// A round transaction that confirmed off-chain outputs.
    Round { txid: Txid, amount: SignedAmount, created_at: i64 },
    /// An off-chain transfer outside a round.
    Redeem { txid: Txid, amount: SignedAmount, is_settled: bool, created_at: i64 },
}

impl HistoryRecord {
    /// The timestamp by which history is ordered. An unconfirmed deposit has
    /// not been created yet and sorts after everything else.
    pub open spec fn spec_created_at(&self) -> i64 {
        match *self {
            HistoryRecord::Boarding { confirmed_at, .. } => match confirmed_at {
                Some(t) => t,
                None => i64::MAX,
            },
            HistoryRecord::Round { created_at, .. } => created_at,
            HistoryRecord::Redeem { created_at, .. } => created_at,
        }
    }

    #[verifier::when_used_as_spec(spec_created_at)]
    pub fn created_at(&self) -> (r: i64)
        ensures
            r == self.spec_created_at(),
    {
        match *self {
            HistoryRecord::Boarding { confirmed_at, .. } => match confirmed_at {
                Some(t) => t,
                None => i64::MAX,
            },
            HistoryRecord::Round { created_at, .. } => created_at,
            HistoryRecord::Redeem { created_at, .. } => created_at,
        }
    }
}

/// The sum of the amounts of `s`, in satoshis.
pub open spec fn amount_sum(s: Seq<VtxoOutPoint>) -> int
    decreases s.len(),
{
    if s.len() == 0 {
        0
    } else {
        amount_sum(s.drop_last()) + s.last().amount.sat
    }
}

} // verus!
