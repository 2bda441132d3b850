//! The calls this crate makes into `ark_core`, each behind a contract that
//! is taken on trust.

use crate::client::{Network, Sequence, XOnlyPublicKey};
use crate::types::{amount_sum, Amount, HistoryRecord, SignedAmount, Txid, VtxoOutPoint};
use ark_core::generate_incoming_vtxo_transaction_history;
use ark_core::generate_outgoing_vtxo_transaction_history;
use ark_core::server::VtxoOutPoint as CoreVtxo;
use bitcoin::hashes::Hash as _;
use bitcoin::Amount as ChainAmount;
use bitcoin::OutPoint as ChainOutPoint;
use bitcoin::Txid as ChainTxid;
use vstd::prelude::*;

verus! {

/// `ark_core::Error`, carried through unread.
#[verifier::external_type_specification]
#[verifier::external_body]
pub struct ExError(ark_core::Error);

/// `ark_core::ArkTransaction`, read only by [`record_of`].
#[verifier::external_type_specification]
#[verifier::external_body]
pub struct ExArkTransaction(ark_core::ArkTransaction);

/// What `ark_core::generate_incoming_vtxo_transaction_history` makes of the
/// two listings and of the transactions that spent a boarding output: the
/// records of the incoming transfers, or nothing where it fails.
pub uninterp spec fn incoming_history(
    spent: Seq<VtxoOutPoint>,
    spendable: Seq<VtxoOutPoint>,
    boarding_round_txs: Seq<Txid>,
) -> Option<Seq<HistoryRecord>>;

/// No record of `records` is a deposit.
pub open spec fn no_deposit(records: Seq<HistoryRecord>) -> bool {
    forall|i: int| 0 <= i < records.len() ==> !((#[trigger] records[i]) is Boarding)
}

/// Calls `ark_core::generate_incoming_vtxo_transaction_history` on the two
/// listings and on the transactions that spent a boarding output, and reads
/// the records that come back with [`record_of`].
///
/// The generator is a function of its arguments, which [`incoming_history`]
/// names. Beside that the contract claims what the source shows: the
/// generator looks at every listed output once and adds at most one record
/// for it, a round or a redeem record and never a deposit; and it fails only
/// where an amount, or a sum of amounts of spent outputs, does not fit a
/// signed amount. It adds up amounts of spent outputs with
/// `bitcoin::Amount`, whose addition panics when the sum leaves 64 bits; the
/// precondition keeps every such sum in range. Of an output it reads the
/// outpoint, the round transaction, the spending transaction, the pending
/// flag, the amount and the creation time; the redeem transaction and the
/// public key that it does not read are handed over empty.
#[verifier::external_body]
pub(crate) fn generate_incoming(
    spent: &Vec<VtxoOutPoint>,
    spendable: &Vec<VtxoOutPoint>,
    boarding_round_txs: &Vec<Txid>,
) -> (r: Result<Vec<HistoryRecord>, ark_core::Error>)
    requires
        amount_sum(spent@) <= u64::MAX,
    ensures
        match r {
            Ok(records) => {
                &&& incoming_history(spent@, spendable@, boarding_round_txs@) == Some(records@)
                &&& records@.len() <= spent@.len() + spendable@.len()
                &&& no_deposit(records@)
            },
            Err(_) => incoming_history(spent@, spendable@, boarding_round_txs@) is None,
        },
        amount_sum(spent@) + amount_sum(spendable@) <= i64::MAX ==> r is Ok,
{
    let id = |t: Txid| ChainTxid::from_byte_array(t.bytes);
    let conv = |&VtxoOutPoint { outpoint, spent, round_txid, spent_by, expire_at, swept, is_pending, amount, created_at }| CoreVtxo {
        outpoint: ChainOutPoint::new(id(outpoint.txid), outpoint.vout), round_txid: id(round_txid),
        spent_by: spent_by.map(id), amount: ChainAmount::from_sat(amount.sat), redeem_tx: None,
        pubkey: String::new(), spent, expire_at, swept, is_pending, created_at
    };
    Ok(generate_incoming_vtxo_transaction_history(
        &Vec::from_iter(spent.iter().map(conv)),
        &Vec::from_iter(spendable.iter().map(conv)),
        &Vec::from_iter(boarding_round_txs.iter().map(|t| id(*t)))
    )?.iter().map(record_of).collect())
}

/// Calls `ark_core::generate_outgoing_vtxo_transaction_history` on the two
/// listings, and reads the records that come back with [`record_of`].
///
/// The contract claims what the source shows of every outcome: the
/// generator groups the spent outputs by the transaction that spent them
/// and adds at most one record for each group, a round or a redeem record
/// and never a deposit; and it fails only where a sum of amounts does not
/// fit a signed amount. In which order the records stand is not stated: the
/// generator walks a hash map. It adds up the amounts of each group and of
/// the listed outputs that the group's transaction produced with
/// `bitcoin::Amount`, whose addition panics when the sum leaves 64 bits; the
/// precondition keeps every such sum in range. Outputs are handed over as
/// for [`generate_incoming`].
#[verifier::external_body]
pub(crate) fn generate_outgoing(
    spent: &Vec<VtxoOutPoint>,
    spendable: &Vec<VtxoOutPoint>,
) -> (r: Result<Vec<HistoryRecord>, ark_core::Error>)
    requires
        amount_sum(spent@) + amount_sum(spendable@) <= u64::MAX,
    ensures
        r is Ok ==> r->Ok_0@.len() <= spent@.len() && no_deposit(r->Ok_0@),
        amount_sum(spent@) + amount_sum(spendable@) <= i64::MAX ==> r is Ok,
{
    let id = |t: Txid| ChainTxid::from_byte_array(t.bytes);
    let conv = |&VtxoOutPoint { outpoint, spent, round_txid, spent_by, expire_at, swept, is_pending, amount, created_at }| CoreVtxo {
        outpoint: ChainOutPoint::new(id(outpoint.txid), outpoint.vout), round_txid: id(round_txid),
        spent_by: spent_by.map(id), amount: ChainAmount::from_sat(amount.sat), redeem_tx: None,
        pubkey: String::new(), spent, expire_at, swept, is_pending, created_at
    };
    Ok(generate_outgoing_vtxo_transaction_history(
        &Vec::from_iter(spent.iter().map(conv)),
        &Vec::from_iter(spendable.iter().map(conv))
    )?.iter().map(record_of).collect())
}

/// Reads one `ark_core::ArkTransaction` into a [`HistoryRecord`]: the same
/// variant with the same fields, the transaction id as its 32 bytes
/// (`to_byte_array`) and the amount in satoshis (`to_sat`). The two
/// generators above read their records with it. Nothing is claimed of the
/// record by itself, since nothing is known of the value it is read from.
#[verifier::external_body]
fn record_of(tx: &ark_core::ArkTransaction) -> (r: HistoryRecord) {
    let id = |t: &ChainTxid| Txid { bytes: t.to_byte_array() };
    match tx {
        ark_core::ArkTransaction::Boarding { txid, amount, confirmed_at } => HistoryRecord::Boarding {
            txid: id(txid), amount: Amount { sat: amount.to_sat() }, confirmed_at: *confirmed_at,
        },
        ark_core::ArkTransaction::Round { txid, amount, created_at } => HistoryRecord::Round {
            txid: id(txid), amount: SignedAmount { sat: amount.to_sat() }, created_at: *created_at,
        },
        ark_core::ArkTransaction::Redeem { txid, amount, is_settled, created_at } => HistoryRecord::Redeem {
            txid: id(txid), amount: SignedAmount { sat: amount.to_sat() },
            is_settled: *is_settled, created_at: *created_at,
        },
    }
}

/// The encoding of the off-chain address of the default output that
/// `ark_core` derives for an owner at a coordinator, where both keys are
/// points on the curve.
pub uninterp spec fn default_vtxo_address(
    server: Seq<u8>,
    owner: Seq<u8>,
    exit_delay: u32,
    network: Network,
) -> Option<Seq<char>>;

/// Builds the default output with `ark_core::DefaultVtxo::new` and encodes
/// its off-chain address with `to_ark_address` and `ArkAddress::encode`.
///
/// The claim is that the address is a function of the four arguments
/// alone, which [`default_vtxo_address`] names. `None` stands for a key that
/// `bitcoin::XOnlyPublicKey::from_slice` refuses. `ark_core` panics on an
/// exit delay that counts blocks, and it multiplies the lock value by 512 in
/// 16 bits, which leaves room for values below 128; the precondition admits
/// no other exit delay.
#[verifier::external_body]
pub(crate) fn encode_default_vtxo_address(
    server: &XOnlyPublicKey,
    owner: &XOnlyPublicKey,
    exit_delay: Sequence,
    network: Network,
) -> (r: Option<String>)
    requires
        exit_delay.spec_is_time_locked(),
        exit_delay.spec_lock_value() < 128,
    ensures
        match r {
            Some(encoded) => default_vtxo_address(server@, owner@, exit_delay.consensus, network)
                == Some(encoded@),
            None => default_vtxo_address(server@, owner@, exit_delay.consensus, network) is None,
        },
{
    let server = bitcoin::XOnlyPublicKey::from_slice(&server.bytes).ok()?;
    let owner = bitcoin::XOnlyPublicKey::from_slice(&owner.bytes).ok()?;
    let network = match network {
        Network::Bitcoin => bitcoin::Network::Bitcoin,
        Network::Testnet => bitcoin::Network::Testnet,
        Network::Testnet4 => bitcoin::Network::Testnet4,
        Network::Signet => bitcoin::Network::Signet,
        Network::Regtest => bitcoin::Network::Regtest,
    };
    let exit_delay = bitcoin::Sequence::from_consensus(exit_delay.consensus);
    let secp = bitcoin::key::Secp256k1::verification_only();
    let vtxo = ark_core::DefaultVtxo::new(&secp, server, owner, exit_delay, network);
    Some(vtxo.to_ark_address().encode())
}

} // verus!
