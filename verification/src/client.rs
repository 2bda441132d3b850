//! The wallet session: a configuration that becomes a connected client once
//! the coordinator has told its parameters.

use crate::types::{ListVtxo, VtxoOutPoint};
use vstd::prelude::*;

verus! {

/// The Bitcoin network a coordinator operates on.
#[derive(Clone, Copy, Debug, PartialEq, Eq, Structural)]
pub enum Network {
    Bitcoin,
    Testnet,
    Testnet4,
    Signet,
    Regtest,
}

/// The 32-byte serialization of an x-only public key.
#[derive(Clone, Copy, Debug, PartialEq, Eq, Hash)]
pub struct XOnlyPublicKey {
    pub bytes: [u8; 32],
}

impl View for XOnlyPublicKey {
    type V = Seq<u8>;

    open spec fn view(&self) -> Seq<u8> {
        self.bytes@
    }
}

/// A transaction input sequence number, as it is encoded on chain.
#[derive(Clone, Copy, Debug, PartialEq, Eq, Structural)]
pub struct Sequence {
    pub consensus: u32,
}

/// The parameters a coordinator announces in the handshake.
#[derive(Clone, Debug, PartialEq, Eq)]
pub struct Info {
    pub pk: XOnlyPublicKey,
    pub unilateral_exit_delay: Sequence,
    pub network: Network,
    pub boarding_descriptor_template: String,
}

/// A wallet that has not yet spoken to its coordinator.
#[derive(Clone, Debug, PartialEq, Eq)]
pub struct OfflineClient {
    pub name: String,
    /// The x-only public key of the wallet's key pair.
    pub owner_pk: XOnlyPublicKey,
    pub ark_server_url: String,
}

/// A wallet that knows its coordinator's parameters.
#[derive(Clone, Debug, PartialEq, Eq)]
pub struct Client {
    pub inner: OfflineClient,
    pub server_info: Info,
}

impl OfflineClient {
    pub fn new(name: String, owner_pk: XOnlyPublicKey, ark_server_url: String) -> (r: OfflineClient)
        ensures
            r.name == name,
            r.owner_pk == owner_pk,
            r.ark_server_url == ark_server_url,
    {
        OfflineClient { name, owner_pk, ark_server_url }
    }

    /// Completes the handshake with the parameters the coordinator sent.
    pub fn connect(self, server_info: Info) -> (r: Client)
        ensures
            r.inner == self,
            r.server_info == server_info,
    {
        Client { inner: self, server_info }
    }
}

impl Client {
    /// The x-only public key of the wallet's key pair.
    pub fn owner_pk(&self) -> (r: XOnlyPublicKey)
        ensures
            r == self.inner.owner_pk,
    {
        self.inner.owner_pk
    }

    /// Joins the coordinator's answers for each address into one listing:
    /// all spent outputs in the order of the addresses, and likewise all
    /// spendable ones.
    pub fn list_vtxos(&self, per_address: Vec<ListVtxo>) -> (r: ListVtxo)
        ensures
            r.spent@ == joined_spent(per_address@),
            r.spendable@ == joined_spendable(per_address@),
    {
        let mut per_address = per_address;
        let mut vtxos = ListVtxo { spent: Vec::new(), spendable: Vec::new() };
        let ghost all = per_address@;
        let mut i: usize = 0;
        while i < per_address.len()
            invariant
                i <= per_address.len(),
                per_address@.len() == all.len(),
                forall|k: int| i <= k < all.len() ==> per_address@[k] == all[k],
                vtxos.spent@ == joined_spent(all.take(i as int)),
                vtxos.spendable@ == joined_spendable(all.take(i as int)),
            decreases per_address.len() - i,
        {
            let mut list = ListVtxo { spent: Vec::new(), spendable: Vec::new() };
            std::mem::swap(&mut per_address[i], &mut list);
            proof {
                assert(all.take(i + 1).drop_last() =~= all.take(i as int));
            }
            vtxos.spendable.append(&mut list.spendable);
            vtxos.spent.append(&mut list.spent);
            i += 1;
        }
        proof {
            assert(all.take(all.len() as int) =~= all);
        }
        vtxos
    }
}

/// The spent outputs of all listings, one listing after the other.
pub open spec fn joined_spent(lists: Seq<ListVtxo>) -> Seq<VtxoOutPoint>
    decreases lists.len(),
{
    if lists.len() == 0 {
        Seq::empty()
    } else {
        joined_spent(lists.drop_last()) + lists.last().spent@
    }
}

/// The spendable outputs of all listings, one listing after the other.
pub open spec fn joined_spendable(lists: Seq<ListVtxo>) -> Seq<VtxoOutPoint>
    decreases lists.len(),
{
    if lists.len() == 0 {
        Seq::empty()
    } else {
        joined_spendable(lists.drop_last()) + lists.last().spendable@
    }
}

} // verus!
