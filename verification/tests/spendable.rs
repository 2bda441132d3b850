use ark_client::balance::OffChainBalance;
use ark_client::client::{Client, Info, Network, OfflineClient, Sequence, XOnlyPublicKey};
use ark_client::error::ClientError;
use ark_client::spendable::{find_explorer_utxo, is_spendable, spendable_at, AddressFacts};
use ark_client::types::{Amount, ExplorerUtxo, ListVtxo, OutPoint, Txid, VtxoOutPoint};
use ark_client::vtxo::{DefaultVtxo, EpochDuration, Timestamp};

const CONFIRMED_AT: u64 = 1_000_000;
const EXIT_DELAY: u64 = 1_024;

fn id(n: u8) -> Txid {
    Txid { bytes: [n; 32] }
}

fn wallet() -> Client {
    let offline = OfflineClient::new(
        "alice".to_string(),
        XOnlyPublicKey { bytes: [2; 32] },
        "http://localhost:7070".to_string(),
    );
    offline.connect(Info {
        pk: XOnlyPublicKey { bytes: [3; 32] },
        unilateral_exit_delay: Sequence { consensus: 0x0040_0002 },
        network: Network::Regtest,
        boarding_descriptor_template: String::new(),
    })
}

fn identity() -> DefaultVtxo {
    DefaultVtxo::new(
        XOnlyPublicKey { bytes: [3; 32] },
        XOnlyPublicKey { bytes: [2; 32] },
        Sequence { consensus: 0x0040_0002 },
        Network::Regtest,
    )
    .unwrap()
}

fn unit(n: u8, sat: u64, is_pending: bool) -> VtxoOutPoint {
    VtxoOutPoint {
        outpoint: OutPoint { txid: id(n), vout: 0 },
        spent: false,
        round_txid: id(0xf0),
        spent_by: None,
        expire_at: 0,
        swept: false,
        is_pending,
        amount: Amount { sat },
        created_at: 0,
    }
}

fn on_chain(n: u8, confirmed: Option<u64>) -> ExplorerUtxo {
    ExplorerUtxo {
        outpoint: OutPoint { txid: id(n), vout: 0 },
        amount: Amount { sat: 1 },
        confirmation_blocktime: confirmed,
        is_spent: false,
    }
}

fn at(second: i64) -> Timestamp {
    Timestamp { second, nanosecond: 0 }
}

#[test]
fn unit_unknown_to_the_chain_is_spendable() {
    let utxos = vec![on_chain(9, Some(0))];
    for now in [at(0), at(i64::MAX), at(-5), Timestamp { second: 0, nanosecond: -1 }] {
        assert_eq!(is_spendable(&identity(), now, &utxos, &unit(1, 10, false)).unwrap(), true);
    }
}

#[test]
fn unconfirmed_unit_is_spendable_and_counts_as_confirmed_balance() {
    let fetched = vec![AddressFacts {
        vtxo: identity(),
        spendable: vec![unit(1, 5_000, false)],
        explorer_utxos: vec![on_chain(1, None)],
    }];

    let groups = wallet().spendable_vtxos_at(at(i64::MAX), &fetched).unwrap();
    let balance = wallet().offchain_balance_at(at(i64::MAX), &fetched).unwrap();

    assert_eq!(groups, vec![(vec![unit(1, 5_000, false)], identity())]);
    assert_eq!(balance.confirmed(), Amount { sat: 5_000 });
    assert_eq!(balance.pending(), Amount { sat: 0 });
    assert_eq!(balance.total(), Amount { sat: 5_000 });
}

#[test]
fn unit_is_spendable_until_the_exit_delay_has_passed() {
    let utxos = vec![on_chain(1, Some(CONFIRMED_AT))];
    let u = unit(1, 10, false);
    let boundary = (CONFIRMED_AT + EXIT_DELAY) as i64;

    assert_eq!(is_spendable(&identity(), at(boundary - 1), &utxos, &u).unwrap(), true);
    assert_eq!(is_spendable(&identity(), at(boundary), &utxos, &u).unwrap(), true);
    assert_eq!(
        is_spendable(&identity(), Timestamp { second: boundary, nanosecond: 1 }, &utxos, &u).unwrap(),
        false
    );
    assert_eq!(is_spendable(&identity(), at(boundary + 1), &utxos, &u).unwrap(), false);
    assert_eq!(is_spendable(&identity(), at(0), &utxos, &u).unwrap(), true);
    assert_eq!(is_spendable(&identity(), at(i64::MAX), &utxos, &u).unwrap(), false);
}

#[test]
fn exit_predicate_compares_with_confirmation_plus_delay() {
    let vtxo = identity();
    assert_eq!(vtxo.exit_delay_seconds(), EXIT_DELAY);
    let now = |secs, nanos| EpochDuration { secs, nanos };

    assert!(!vtxo.can_be_claimed_unilaterally_by_owner(now(2_023, 999_999_999), 1_000));
    assert!(!vtxo.can_be_claimed_unilaterally_by_owner(now(2_024, 0), 1_000));
    assert!(vtxo.can_be_claimed_unilaterally_by_owner(now(2_024, 1), 1_000));
    assert!(vtxo.can_be_claimed_unilaterally_by_owner(now(2_025, 0), 1_000));
    assert!(!vtxo.can_be_claimed_unilaterally_by_owner(now(u64::MAX, 999_999_999), u64::MAX - 1_023));
    assert!(!vtxo.can_be_claimed_unilaterally_by_owner(now(u64::MAX, 0), u64::MAX - 1_024));
    assert!(vtxo.can_be_claimed_unilaterally_by_owner(now(u64::MAX, 1), u64::MAX - 1_024));
}

#[test]
fn longest_exit_delay_in_seconds() {
    let vtxo = DefaultVtxo::new(
        XOnlyPublicKey { bytes: [3; 32] },
        XOnlyPublicKey { bytes: [2; 32] },
        Sequence { consensus: 0x0040_ffff },
        Network::Bitcoin,
    )
    .unwrap();

    assert_eq!(vtxo.exit_delay_seconds(), 65_535 * 512);
}

#[test]
fn time_before_the_epoch_fails_once_a_unit_is_confirmed() {
    let utxos = vec![on_chain(1, Some(CONFIRMED_AT))];
    let before = Timestamp { second: -1, nanosecond: 0 };
    let just_before = Timestamp { second: 0, nanosecond: -1 };

    assert!(matches!(
        is_spendable(&identity(), before, &utxos, &unit(1, 10, false)),
        Err(ClientError::TimeBeforeEpoch)
    ));
    assert!(matches!(
        spendable_at(&identity(), just_before, &utxos, &vec![unit(2, 1, false), unit(1, 10, false)]),
        Err(ClientError::TimeBeforeEpoch)
    ));
    assert_eq!(
        spendable_at(&identity(), before, &utxos, &vec![unit(2, 1, false), unit(3, 10, true)]).unwrap(),
        vec![unit(2, 1, false), unit(3, 10, true)]
    );
    assert!(matches!(before.as_duration(), Err(ClientError::TimeBeforeEpoch)));
    assert_eq!(
        Timestamp { second: 5, nanosecond: 6 }.as_duration().unwrap(),
        EpochDuration { secs: 5, nanos: 6 }
    );
}

#[test]
fn first_explorer_record_of_an_output_decides() {
    let unconfirmed_first = vec![on_chain(1, None), on_chain(1, Some(0))];
    let confirmed_first = vec![on_chain(1, Some(0)), on_chain(1, None)];
    let u = unit(1, 10, false);

    assert_eq!(find_explorer_utxo(&unconfirmed_first, &u.outpoint), Some(on_chain(1, None)));
    assert_eq!(is_spendable(&identity(), at(i64::MAX), &unconfirmed_first, &u).unwrap(), true);
    assert_eq!(is_spendable(&identity(), at(i64::MAX), &confirmed_first, &u).unwrap(), false);
}

#[test]
fn outputs_of_one_transaction_are_told_apart() {
    let mut other_output = on_chain(1, Some(0));
    other_output.outpoint.vout = 1;
    let u = unit(1, 10, false);

    assert_eq!(find_explorer_utxo(&vec![other_output], &u.outpoint), None);
    assert_eq!(is_spendable(&identity(), at(i64::MAX), &vec![other_output], &u).unwrap(), true);
    assert!(u.outpoint.same(&OutPoint::new(id(1), 0)));
    assert!(!u.outpoint.same(&other_output.outpoint));
    assert!(!id(1).same(&id(2)));
    let mut almost = id(1);
    almost.bytes[31] = 0;
    assert!(!id(1).same(&almost));
}

#[test]
fn confirmation_at_the_end_of_time_never_expires() {
    let utxos = vec![on_chain(1, Some(u64::MAX))];

    assert_eq!(is_spendable(&identity(), at(i64::MAX), &utxos, &unit(1, 10, false)).unwrap(), true);
}

#[test]
fn expired_units_are_left_out_and_the_rest_keeps_its_order() {
    let utxos = vec![
        on_chain(1, Some(CONFIRMED_AT)),
        on_chain(2, None),
        on_chain(3, Some(CONFIRMED_AT + 10)),
        on_chain(4, Some(CONFIRMED_AT - 10)),
    ];
    let units = vec![unit(4, 40, false), unit(3, 30, true), unit(2, 20, false), unit(1, 10, true), unit(5, 50, true)];
    let now = at((CONFIRMED_AT + EXIT_DELAY + 5) as i64);

    let kept = spendable_at(&identity(), now, &utxos, &units).unwrap();

    assert_eq!(kept, vec![unit(3, 30, true), unit(2, 20, false), unit(5, 50, true)]);
}

#[test]
fn every_address_is_reconciled_on_its_own() {
    let long_delay = DefaultVtxo::new(
        XOnlyPublicKey { bytes: [3; 32] },
        XOnlyPublicKey { bytes: [2; 32] },
        Sequence { consensus: 0x0040_0064 },
        Network::Regtest,
    )
    .unwrap();
    let fetched = vec![
        AddressFacts {
            vtxo: identity(),
            spendable: vec![unit(1, 10, true), unit(2, 20, false)],
            explorer_utxos: vec![on_chain(1, Some(CONFIRMED_AT))],
        },
        AddressFacts {
            vtxo: long_delay,
            spendable: vec![unit(1, 100, true), unit(3, 300, false)],
            explorer_utxos: vec![on_chain(1, Some(CONFIRMED_AT))],
        },
        AddressFacts { vtxo: identity(), spendable: vec![], explorer_utxos: vec![] },
    ];
    let now = at((CONFIRMED_AT + EXIT_DELAY + 1) as i64);

    let groups = wallet().spendable_vtxos_at(now, &fetched).unwrap();
    let balance = wallet().offchain_balance_at(now, &fetched).unwrap();

    assert_eq!(
        groups,
        vec![
            (vec![unit(2, 20, false)], identity()),
            (vec![unit(1, 100, true), unit(3, 300, false)], long_delay),
            (vec![], identity()),
        ]
    );
    assert_eq!(balance.pending(), Amount { sat: 100 });
    assert_eq!(balance.confirmed(), Amount { sat: 320 });
    assert_eq!(balance.total(), Amount { sat: 420 });
}

#[test]
fn reconciliation_twice_gives_the_same() {
    let fetched = vec![AddressFacts {
        vtxo: identity(),
        spendable: vec![unit(1, 10, true), unit(2, 20, false)],
        explorer_utxos: vec![on_chain(1, Some(CONFIRMED_AT)), on_chain(2, Some(5))],
    }];
    let now = at(CONFIRMED_AT as i64);

    let first = wallet().spendable_vtxos_at(now, &fetched).unwrap();
    let second = wallet().spendable_vtxos_at(now, &fetched).unwrap();

    assert_eq!(first, vec![(vec![unit(1, 10, true)], identity())]);
    assert_eq!(first, second);
}

#[test]
fn failure_in_one_address_fails_the_whole() {
    let fetched = vec![
        AddressFacts { vtxo: identity(), spendable: vec![unit(2, 20, false)], explorer_utxos: vec![] },
        AddressFacts {
            vtxo: identity(),
            spendable: vec![unit(1, 10, true)],
            explorer_utxos: vec![on_chain(1, Some(CONFIRMED_AT))],
        },
    ];

    assert!(matches!(wallet().spendable_vtxos_at(at(-1), &fetched), Err(ClientError::TimeBeforeEpoch)));
    assert!(matches!(wallet().offchain_balance_at(at(-1), &fetched), Err(ClientError::TimeBeforeEpoch)));
}

#[test]
fn the_system_clock_lies_between_the_past_and_the_far_future() {
    let fetched = vec![AddressFacts {
        vtxo: identity(),
        spendable: vec![unit(1, 10, true), unit(2, 20, false), unit(3, 30, false)],
        explorer_utxos: vec![on_chain(1, Some(1_000_000_000)), on_chain(2, Some(40_000_000_000))],
    }];

    let groups = wallet().spendable_vtxos(&fetched).unwrap();
    let balance = wallet().offchain_balance(&fetched).unwrap();

    assert_eq!(groups, vec![(vec![unit(2, 20, false), unit(3, 30, false)], identity())]);
    assert_eq!(balance.pending(), Amount { sat: 0 });
    assert_eq!(balance.confirmed(), Amount { sat: 50 });
}

#[test]
fn balance_sorts_units_by_their_pending_flag_only() {
    let groups = vec![
        (vec![unit(1, 1, true), unit(2, 20, false), unit(3, 300, true)], identity()),
        (vec![], identity()),
        (vec![unit(4, 4_000, false)], identity()),
    ];

    let balance = OffChainBalance::of(&groups);

    assert_eq!(balance.pending().to_sat(), 301);
    assert_eq!(balance.confirmed().to_sat(), 4_020);
    assert_eq!(balance.total().to_sat(), 4_321);
}

#[test]
fn balance_may_fill_the_whole_range_of_an_amount() {
    let groups = vec![(vec![unit(1, u64::MAX - 7, true), unit(2, 7, false)], identity())];

    let balance = OffChainBalance::of(&groups);

    assert_eq!(balance.pending(), Amount::from_sat(u64::MAX - 7));
    assert_eq!(balance.confirmed(), Amount::from_sat(7));
    assert_eq!(balance.total(), Amount::from_sat(u64::MAX));
}

#[test]
fn empty_wallet_has_no_balance() {
    let balance = OffChainBalance::of(&vec![]);

    assert_eq!(balance, OffChainBalance::default());
    assert_eq!(balance.total(), Amount { sat: 0 });
    assert_eq!(wallet().offchain_balance_at(at(0), &vec![]).unwrap(), OffChainBalance::default());
}

#[test]
fn listings_of_all_addresses_are_joined_in_order() {
    let first = ListVtxo { spent: vec![unit(1, 1, false)], spendable: vec![unit(2, 2, false), unit(3, 3, true)] };
    let second = ListVtxo { spent: vec![], spendable: vec![unit(4, 4, false)] };
    let third = ListVtxo { spent: vec![unit(5, 5, false), unit(6, 6, false)], spendable: vec![] };

    let joined = wallet().list_vtxos(vec![first, second, third]);

    assert_eq!(joined.spent, vec![unit(1, 1, false), unit(5, 5, false), unit(6, 6, false)]);
    assert_eq!(joined.spendable, vec![unit(2, 2, false), unit(3, 3, true), unit(4, 4, false)]);
    assert_eq!(wallet().list_vtxos(vec![]), ListVtxo { spent: vec![], spendable: vec![] });
}
