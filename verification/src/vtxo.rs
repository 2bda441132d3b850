//! The wallet's off-chain identity and the rule that decides when an owner
//! may leave without the coordinator.

use crate::arkcore::{default_vtxo_address, encode_default_vtxo_address};
use crate::client::{Client, Network, Sequence, XOnlyPublicKey};
use crate::error::ClientError;
use vstd::prelude::*;

verus! {

/// A reading of the clock: seconds and nanoseconds relative to the Unix
/// epoch, both negative before it.
#[derive(Clone, Copy, Debug, PartialEq, Eq, Structural)]
pub struct Timestamp {
    pub second: i64,
    pub nanosecond: i32,
}

/// A span of time since the Unix epoch.
#[derive(Clone, Copy, Debug, PartialEq, Eq, Structural)]
pub struct EpochDuration {
    pub secs: u64,
    pub nanos: u32,
}

impl Timestamp {
    /// Whether the reading lies before the epoch.
    pub open spec fn is_negative(&self) -> bool {
        self.second < 0 || self.nanosecond < 0
    }

    /// The time since the epoch, where the reading does not lie before it.
    pub open spec fn spec_as_duration(&self) -> EpochDuration {
        EpochDuration { secs: self.second as u64, nanos: self.nanosecond as u32 }
    }

    /// The time that has passed since the epoch. A reading before the epoch
    /// has no such duration.
    pub fn as_duration(&self) -> (r: Result<EpochDuration, ClientError>)
        ensures
            self.is_negative() <==> r is Err,
            r is Err ==> r->Err_0 is TimeBeforeEpoch,
            r is Ok ==> r->Ok_0 == self.spec_as_duration(),
            r is Ok ==> r->Ok_0.secs == self.second && r->Ok_0.nanos == self.nanosecond,
    {
        if self.second < 0 || self.nanosecond < 0 {
            Err(ClientError::TimeBeforeEpoch)
        } else {
            Ok(EpochDuration { secs: self.second as u64, nanos: self.nanosecond as u32 })
        }
    }
}

impl Sequence {
    /// Whether the number encodes a relative lock time that counts time
    /// rather than blocks: the disable flag is clear and the type flag is set.
    pub open spec fn spec_is_time_locked(&self) -> bool {
        self.consensus & 0x8000_0000u32 == 0 && self.consensus & 0x0040_0000u32 != 0
    }

    #[verifier::when_used_as_spec(spec_is_time_locked)]
    pub fn is_time_locked(&self) -> (r: bool)
        ensures
            r == self.spec_is_time_locked(),
    {
        self.consensus & 0x8000_0000u32 == 0 && self.consensus & 0x0040_0000u32 != 0
    }

    /// The lock value: the low 16 bits, which count intervals of 512 seconds
    /// in a time lock.
    pub open spec fn spec_lock_value(&self) -> u32 {
        self.consensus & 0xffffu32
    }

    #[verifier::when_used_as_spec(spec_lock_value)]
    pub fn lock_value(&self) -> (r: u32)
        ensures
            r == self.spec_lock_value(),
            r <= 0xffff,
    {
        let c = self.consensus;
        assert(c & 0xffffu32 <= 0xffffu32) by (bit_vector);
        c & 0xffffu32
    }
}

/// The default off-chain output of an owner: spendable by owner and
/// coordinator together, or by the owner alone once the exit delay has passed
/// since confirmation.
#[derive(Clone, Copy, Debug, PartialEq, Eq)]
pub struct DefaultVtxo {
    pub server: XOnlyPublicKey,
    pub owner: XOnlyPublicKey,
    pub exit_delay: Sequence,
    pub network: Network,
}

impl DefaultVtxo {
    /// The exit delay must count time, not blocks.
    pub open spec fn wf(&self) -> bool {
        self.exit_delay.spec_is_time_locked()
    }

    /// Describes the default output of `owner` at the coordinator `server`.
    /// There is none for an exit delay that does not count time.
    pub fn new(
        server: XOnlyPublicKey,
        owner: XOnlyPublicKey,
        exit_delay: Sequence,
        network: Network,
    ) -> (r: Option<DefaultVtxo>)
        ensures
            r is Some <==> exit_delay.spec_is_time_locked(),
            r is Some ==> r->Some_0 == (DefaultVtxo { server, owner, exit_delay, network }),
            r is Some ==> r->Some_0.wf(),
    {
        if exit_delay.is_time_locked() {
            Some(DefaultVtxo { server, owner, exit_delay, network })
        } else {
            None
        }
    }

    /// The exit delay in seconds.
    pub open spec fn spec_exit_delay_seconds(&self) -> u64 {
        (self.exit_delay.spec_lock_value() * 512) as u64
    }

    #[verifier::when_used_as_spec(spec_exit_delay_seconds)]
    pub fn exit_delay_seconds(&self) -> (r: u64)
        ensures
            r == self.spec_exit_delay_seconds(),
            r == self.exit_delay.spec_lock_value() * 512,
    {
        let value: u64 = self.exit_delay.lock_value() as u64;
        value * 512
    }

    /// Whether the owner may claim the output alone at `now`, given the
    /// block time at which it was confirmed: the exit delay must have passed
    /// in full, so at the very end of the delay the answer is still no.
    pub open spec fn claimable(&self, now: EpochDuration, confirmation_blocktime: u64) -> bool {
        let exit_path_time = confirmation_blocktime + self.spec_exit_delay_seconds();
        now.secs > exit_path_time || (now.secs == exit_path_time && now.nanos > 0)
    }

    /// Whether the owner may claim the output alone at `now`.
    pub fn can_be_claimed_unilaterally_by_owner(
        &self,
        now: EpochDuration,
        confirmation_blocktime: u64,
    ) -> (r: bool)
        ensures
            r == self.claimable(now, confirmation_blocktime),
    {
        let delay = self.exit_delay_seconds();
        match confirmation_blocktime.checked_add(delay) {
            Some(exit_path_time) => now.secs > exit_path_time || (now.secs == exit_path_time
                && now.nanos > 0),
            None => false,
        }
    }
}

/// An off-chain receiving address in its text form.
#[derive(Clone, Debug, PartialEq, Eq)]
pub struct ArkAddress {
    pub encoded: String,
}

impl Sequence {
    /// Whether an off-chain address can be derived for this exit delay: it
    /// counts time, and less than 128 intervals of 512 seconds.
    pub open spec fn spec_is_derivable(&self) -> bool {
        self.spec_is_time_locked() && self.spec_lock_value() < 128
    }

    #[verifier::when_used_as_spec(spec_is_derivable)]
    pub fn is_derivable(&self) -> (r: bool)
        ensures
            r == self.spec_is_derivable(),
    {
        self.is_time_locked() && self.lock_value() < 128
    }
}

impl DefaultVtxo {
    /// The off-chain address that pays to this output.
    ///
    /// The address depends on the two keys, the exit delay and the network
    /// and on nothing else.
    pub fn to_ark_address(&self) -> (r: Result<ArkAddress, ClientError>)
        ensures
            match r {
                Ok(address) => {
                    &&& self.exit_delay.spec_is_derivable()
                    &&& default_vtxo_address(
                        self.server@,
                        self.owner@,
                        self.exit_delay.consensus,
                        self.network,
                    ) == Some(address.encoded@)
                },
                Err(e) => {
                    &&& e is UnsupportedExitDelay || e is InvalidKey
                    &&& e is UnsupportedExitDelay <==> !self.exit_delay.spec_is_derivable()
                    &&& e is InvalidKey ==> default_vtxo_address(
                        self.server@,
                        self.owner@,
                        self.exit_delay.consensus,
                        self.network,
                    ) is None
                },
            },
    {
        if !self.exit_delay.is_derivable() {
            return Err(ClientError::UnsupportedExitDelay);
        }
        match encode_default_vtxo_address(&self.server, &self.owner, self.exit_delay, self.network) {
            Some(encoded) => Ok(ArkAddress { encoded }),
            None => Err(ClientError::InvalidKey),
        }
    }
}

impl Client {
    /// The default output of this wallet at its coordinator.
    pub open spec fn default_vtxo(&self) -> DefaultVtxo {
        DefaultVtxo {
            server: self.server_info.pk,
            owner: self.inner.owner_pk,
            exit_delay: self.server_info.unilateral_exit_delay,
            network: self.server_info.network,
        }
    }

    /// Whether `address` and `vtxo` are the wallet's off-chain identity.
    pub open spec fn is_offchain_identity(&self, address: ArkAddress, vtxo: DefaultVtxo) -> bool {
        &&& vtxo == self.default_vtxo()
        &&& vtxo.exit_delay.spec_is_derivable()
        &&& default_vtxo_address(vtxo.server@, vtxo.owner@, vtxo.exit_delay.consensus, vtxo.network)
            == Some(address.encoded@)
    }

    /// Whether `e` is the reason why the wallet has no off-chain identity.
    pub open spec fn is_identity_failure(&self, e: ClientError) -> bool {
        let vtxo = self.default_vtxo();
        &&& e is UnsupportedExitDelay || e is InvalidKey
        &&& e is UnsupportedExitDelay <==> !vtxo.exit_delay.spec_is_derivable()
        &&& e is InvalidKey ==> default_vtxo_address(
            vtxo.server@,
            vtxo.owner@,
            vtxo.exit_delay.consensus,
            vtxo.network,
        ) is None
    }

    /// The wallet's off-chain receiving address together with the output
    /// it pays to. Both follow from the wallet's key and the coordinator's
    /// parameters, so every call returns the same.
    pub fn get_offchain_address(&self) -> (r: Result<(ArkAddress, DefaultVtxo), ClientError>)
        ensures
            match r {
                Ok((address, vtxo)) => self.is_offchain_identity(address, vtxo),
                Err(e) => self.is_identity_failure(e),
            },
    {
        let vtxo = DefaultVtxo {
            server: self.server_info.pk,
            owner: self.inner.owner_pk,
            exit_delay: self.server_info.unilateral_exit_delay,
            network: self.server_info.network,
        };
        match vtxo.to_ark_address() {
            Ok(address) => Ok((address, vtxo)),
            Err(e) => Err(e),
        }
    }

    /// All off-chain identities of the wallet: for now the single one of
    /// [`Client::get_offchain_address`].
    pub fn get_offchain_addresses(&self) -> (r: Result<Vec<(ArkAddress, DefaultVtxo)>, ClientError>)
        ensures
            match r {
                Ok(identities) => identities@.len() == 1 && self.is_offchain_identity(
                    identities@[0].0,
                    identities@[0].1,
                ),
                Err(e) => self.is_identity_failure(e),
            },
    {
        match self.get_offchain_address() {
            Ok(identity) => {
                let mut identities: Vec<(ArkAddress, DefaultVtxo)> = Vec::new();
                identities.push(identity);
                Ok(identities)
            },
            Err(e) => Err(e),
        }
    }
}

} // verus!
