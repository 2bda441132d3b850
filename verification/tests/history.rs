use ark_client::client::{Client, Info, Network, OfflineClient, Sequence, XOnlyPublicKey};
use ark_client::error::ClientError;
use ark_client::history::{assemble_history, boarding_transactions, sort_by_created_at};
use ark_client::types::{
    Amount, ExplorerUtxo, HistoryRecord, ListVtxo, OutPoint, SignedAmount, SpendStatus, Txid,
    VtxoOutPoint,
};

fn txid(n: u8) -> Txid {
    Txid { bytes: [n; 32] }
}

fn client() -> Client {
    let offline = OfflineClient::new(
        "alice".to_string(),
        XOnlyPublicKey { bytes: [2; 32] },
        "http://localhost:7070".to_string(),
    );
    offline.connect(Info {
        pk: XOnlyPublicKey { bytes: [3; 32] },
        unilateral_exit_delay: Sequence { consensus: 0x0040_0002 },
        network: Network::Regtest,
        boarding_descriptor_template: "tr(UNSPENDABLE_KEY,{USER,SERVER})".to_string(),
    })
}

fn deposit(id: u8, sat: u64, confirmed: Option<u64>, spent_by: Option<Txid>) -> (ExplorerUtxo, SpendStatus) {
    (
        ExplorerUtxo {
            outpoint: OutPoint { txid: txid(id), vout: 0 },
            amount: Amount { sat },
            confirmation_blocktime: confirmed,
            is_spent: spent_by.is_some(),
        },
        SpendStatus { spend_txid: spent_by },
    )
}

fn vtxo(id: u8, round: u8, sat: u64, is_pending: bool, spent_by: Option<Txid>, created_at: i64) -> VtxoOutPoint {
    VtxoOutPoint {
        outpoint: OutPoint { txid: txid(id), vout: 0 },
        spent: spent_by.is_some(),
        round_txid: txid(round),
        spent_by,
        expire_at: created_at + 1_000_000,
        swept: false,
        is_pending,
        amount: Amount { sat },
        created_at,
    }
}

fn round(id: u8, sat: i64, created_at: i64) -> HistoryRecord {
    HistoryRecord::Round { txid: txid(id), amount: SignedAmount { sat }, created_at }
}

fn redeem(id: u8, sat: i64, created_at: i64) -> HistoryRecord {
    HistoryRecord::Redeem { txid: txid(id), amount: SignedAmount { sat }, is_settled: true, created_at }
}

fn boarding(id: u8, sat: u64, confirmed_at: Option<i64>) -> HistoryRecord {
    HistoryRecord::Boarding { txid: txid(id), amount: Amount { sat }, confirmed_at }
}

#[test]
fn single_confirmed_deposit_is_the_whole_history() {
    let outputs = vec![deposit(0xaa, 100_000_000, Some(1_700_000_000), None)];
    let vtxos = ListVtxo { spent: vec![], spendable: vec![] };

    let history = client().transaction_history(&outputs, &vtxos).unwrap();
    let balance = client().offchain_balance(&vec![]).unwrap();

    assert_eq!(history, vec![boarding(0xaa, 100_000_000, Some(1_700_000_000))]);
    assert_eq!(balance.pending(), Amount { sat: 0 });
    assert_eq!(balance.confirmed(), Amount { sat: 0 });
    assert_eq!(balance.total(), Amount { sat: 0 });
}

#[test]
fn deposit_absorbed_by_a_round_is_not_counted_again() {
    let outputs = vec![deposit(0xaa, 100_000_000, Some(1_700_000_000), Some(txid(0xb0)))];
    let vtxos = ListVtxo {
        spent: vec![],
        spendable: vec![vtxo(0xc0, 0xb0, 100_000_000, false, None, 1_700_000_100)],
    };

    let history = client().transaction_history(&outputs, &vtxos).unwrap();

    assert_eq!(history, vec![boarding(0xaa, 100_000_000, Some(1_700_000_000))]);
}

#[test]
fn unspent_deposit_leaves_a_round_payment_incoming() {
    let outputs = vec![deposit(0xaa, 100_000_000, Some(1_700_000_000), None)];
    let vtxos = ListVtxo {
        spent: vec![],
        spendable: vec![vtxo(0xc0, 0xb0, 5_000, false, None, 1_700_000_050)],
    };

    let history = client().transaction_history(&outputs, &vtxos).unwrap();

    assert_eq!(
        history,
        vec![boarding(0xaa, 100_000_000, Some(1_700_000_000)), round(0xc0, 5_000, 1_700_000_050)]
    );
}

#[test]
fn payment_with_change_is_one_incoming_and_one_outgoing_record() {
    let vtxos = ListVtxo {
        spent: vec![vtxo(0x01, 0xb0, 10_000, false, Some(txid(0x02)), 100)],
        spendable: vec![vtxo(0x02, 0xb1, 4_000, true, None, 200)],
    };

    let history = client().transaction_history(&vec![], &vtxos).unwrap();

    assert_eq!(history, vec![round(0x01, 10_000, 100), redeem(0x02, -6_000, 200)]);
}

#[test]
fn pending_payment_is_an_unsettled_redeem_record() {
    let vtxos = ListVtxo { spent: vec![], spendable: vec![vtxo(0x07, 0xb0, 700, true, None, 42)] };

    let history = client().transaction_history(&vec![], &vtxos).unwrap();

    assert_eq!(
        history,
        vec![HistoryRecord::Redeem {
            txid: txid(0x07),
            amount: SignedAmount { sat: 700 },
            is_settled: false,
            created_at: 42,
        }]
    );
}

#[test]
fn history_is_sorted_across_sources() {
    let outputs = vec![
        deposit(0xa1, 1_000, Some(300), None),
        deposit(0xa2, 2_000, None, None),
        deposit(0xa3, 3_000, Some(50), None),
    ];
    let vtxos = ListVtxo {
        spent: vec![vtxo(0x01, 0xb0, 10_000, false, Some(txid(0x02)), 100)],
        spendable: vec![vtxo(0x02, 0xb1, 4_000, true, None, 200)],
    };

    let history = client().transaction_history(&outputs, &vtxos).unwrap();

    assert_eq!(
        history,
        vec![
            boarding(0xa3, 3_000, Some(50)),
            round(0x01, 10_000, 100),
            redeem(0x02, -6_000, 200),
            boarding(0xa1, 1_000, Some(300)),
            boarding(0xa2, 2_000, None),
        ]
    );
}

#[test]
fn amount_beyond_signed_range_fails_the_incoming_history() {
    let outputs = vec![deposit(0xaa, 100_000_000, Some(1_700_000_000), None)];
    let vtxos = ListVtxo {
        spent: vec![],
        spendable: vec![vtxo(0x01, 0xb0, u64::MAX, false, None, 100)],
    };

    let result = client().transaction_history(&outputs, &vtxos);

    assert!(matches!(result, Err(ClientError::IncomingHistory(_))));
}

#[test]
fn amounts_that_fill_the_signed_range_still_give_a_history() {
    let outputs = vec![deposit(0xaa, 100_000_000, Some(50), Some(txid(0xb7)))];
    let vtxos = ListVtxo {
        spent: vec![vtxo(0x01, 0xb0, (1u64 << 62) - 1, false, Some(txid(0x09)), 100)],
        spendable: vec![vtxo(0x02, 0xb1, 1u64 << 62, false, None, 200)],
    };

    let history = client().transaction_history(&outputs, &vtxos).unwrap();

    assert_eq!(
        history,
        vec![
            boarding(0xaa, 100_000_000, Some(50)),
            round(0x01, (1i64 << 62) - 1, 100),
            round(0x09, -((1i64 << 62) - 1), 100),
            round(0x02, 1i64 << 62, 200),
        ]
    );
}

#[test]
fn history_does_not_depend_on_the_session() {
    let outputs = vec![deposit(0xa1, 1_000, Some(300), Some(txid(0xb0)))];
    let vtxos = ListVtxo {
        spent: vec![vtxo(0x01, 0xb0, 10_000, false, Some(txid(0x02)), 100)],
        spendable: vec![vtxo(0x02, 0xb1, 4_000, true, None, 200)],
    };
    let other = OfflineClient::new("bob".to_string(), XOnlyPublicKey { bytes: [9; 32] }, String::new())
        .connect(Info {
            pk: XOnlyPublicKey { bytes: [8; 32] },
            unilateral_exit_delay: Sequence { consensus: 7 },
            network: Network::Bitcoin,
            boarding_descriptor_template: String::new(),
        });

    let first = client().transaction_history(&outputs, &vtxos).unwrap();
    let second = other.transaction_history(&outputs, &vtxos).unwrap();

    assert_eq!(first, vec![redeem(0x02, -6_000, 200), boarding(0xa1, 1_000, Some(300))]);
    assert_eq!(first, second);
}

#[test]
fn spent_sum_beyond_signed_range_fails_the_outgoing_history() {
    let half = (1u64 << 62) + 1;
    let vtxos = ListVtxo {
        spent: vec![
            vtxo(0x01, 0xb0, half, false, Some(txid(0x09)), 100),
            vtxo(0x02, 0xb1, half, false, Some(txid(0x09)), 100),
        ],
        spendable: vec![],
    };
    let outputs = vec![deposit(0xaa, 100_000_000, Some(1_700_000_000), None)];

    let result = client().transaction_history(&outputs, &vtxos);

    assert!(matches!(result, Err(ClientError::OutgoingHistory(_))));
}

#[test]
fn boarding_transactions_lists_deposits_and_round_transitions() {
    let outputs = vec![
        deposit(0xa1, 1_000, Some(300), Some(txid(0xb1))),
        deposit(0xa2, 2_000, None, None),
        deposit(0xa3, 3_000, Some(50), Some(txid(0xb3))),
    ];

    let (records, round_txids) = boarding_transactions(&outputs);

    assert_eq!(
        records,
        vec![
            boarding(0xa1, 1_000, Some(300)),
            boarding(0xa2, 2_000, None),
            boarding(0xa3, 3_000, Some(50)),
        ]
    );
    assert_eq!(round_txids, vec![txid(0xb1), txid(0xb3)]);
}

#[test]
fn block_time_beyond_signed_range_wraps_like_a_cast() {
    let outputs = vec![
        deposit(0xa1, 1, Some(u64::MAX), None),
        deposit(0xa2, 1, Some(1u64 << 63), None),
        deposit(0xa3, 1, Some(i64::MAX as u64), None),
    ];

    let (records, _) = boarding_transactions(&outputs);

    assert_eq!(
        records,
        vec![
            boarding(0xa1, 1, Some(-1)),
            boarding(0xa2, 1, Some(i64::MIN)),
            boarding(0xa3, 1, Some(i64::MAX)),
        ]
    );
}

#[test]
fn equal_timestamps_keep_boarding_then_incoming_then_outgoing() {
    let history = assemble_history(
        vec![boarding(0xa1, 1, Some(7)), boarding(0xa2, 2, Some(5))],
        vec![round(0x11, 3, 7), round(0x12, 4, 5), round(0x13, 5, 7)],
        vec![redeem(0x21, -6, 5), redeem(0x22, -7, 7)],
    );

    assert_eq!(
        history,
        vec![
            boarding(0xa2, 2, Some(5)),
            round(0x12, 4, 5),
            redeem(0x21, -6, 5),
            boarding(0xa1, 1, Some(7)),
            round(0x11, 3, 7),
            round(0x13, 5, 7),
            redeem(0x22, -7, 7),
        ]
    );
}

#[test]
fn unconfirmed_deposit_sorts_last_and_ties_with_the_far_future() {
    let far = round(0x11, 1, i64::MAX);
    let sorted = sort_by_created_at(&vec![far, boarding(0xa1, 1, None), round(0x12, 2, i64::MIN)]);

    assert_eq!(sorted, vec![round(0x12, 2, i64::MIN), far, boarding(0xa1, 1, None)]);
}

#[test]
fn sorting_twice_changes_nothing() {
    let records = vec![round(0x03, 1, 3), round(0x01, 1, 1), round(0x02, 1, 3), round(0x04, 1, 0)];

    let once = sort_by_created_at(&records);
    let twice = sort_by_created_at(&once);

    assert_eq!(once, vec![round(0x04, 1, 0), round(0x01, 1, 1), round(0x03, 1, 3), round(0x02, 1, 3)]);
    assert_eq!(once, twice);
}

#[test]
fn empty_history() {
    assert_eq!(assemble_history(vec![], vec![], vec![]), vec![]);
    assert_eq!(client().transaction_history(&vec![], &ListVtxo { spent: vec![], spendable: vec![] }).unwrap(), vec![]);
}

#[test]
fn created_at_of_each_kind() {
    assert_eq!(boarding(1, 1, Some(9)).created_at(), 9);
    assert_eq!(boarding(1, 1, None).created_at(), i64::MAX);
    assert_eq!(round(1, 1, -4).created_at(), -4);
    assert_eq!(redeem(1, 1, 11).created_at(), 11);
}
