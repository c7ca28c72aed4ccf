use fifo_mempool::config::HostMempoolConfig;
use fifo_mempool::error::MempoolError;
use fifo_mempool::host_app::{AppError, TestCheckTxOutcome, TestMempoolApp, TestTx, TestTxHash};
use fifo_mempool::mempool::{Mempool, MempoolConfig, ReapCursor, State};
use fifo_mempool::network::{
    same_bytes, GossipEvent, MempoolNetwork, NetworkAction, NetworkInput, PeerSet,
    State as NetworkState,
};
use fifo_mempool::rpc::{add_tx_outcome, RpcError, RpcState};
use fifo_mempool::tx::{RawTx, TxHash};
use fifo_mempool::{CheckTxOutcome, MempoolApp};
use prost::bytes::Bytes;

fn pool_with(mempool: &Mempool, ids: &[u64]) -> State {
    let mut state = State::new();
    for id in ids {
        let tx = TestTx(*id).serialize();
        let result = TestMempoolApp.check_tx(&tx);
        let d = mempool.handle_check_tx_result(tx, result, &mut state);
        assert!(d.reply.is_ok());
    }
    state
}

fn ids(txs: &[RawTx]) -> Vec<u64> {
    txs.iter()
        .map(|t| TestTx::deserialize(&t.to_vec()).unwrap().0)
        .collect()
}

#[test]
fn raw_tx_accessors() {
    let tx = RawTx(Bytes::from(vec![7u8, 8, 9]));
    assert_eq!(tx.len(), 3);
    assert!(!tx.is_empty());
    assert_eq!(tx.to_vec(), vec![7, 8, 9]);
    let empty = RawTx::from_vec(vec![]);
    assert_eq!(empty.len(), 0);
    assert!(empty.is_empty());
    assert_eq!(tx.clone().to_vec(), vec![7, 8, 9]);
}

#[test]
fn tx_hash_display_and_equality() {
    let h = TestTxHash(1001).to_tx_hash();
    assert_eq!(h.0.to_vec(), 1001u64.to_le_bytes().to_vec());
    assert_eq!(h.display_text(), "TxHash(b\"\\xe9\\x03\\0\\0\\0\\0\\0\\0\")");
    assert!(h.same_as(&TxHash::from_vec(1001u64.to_le_bytes().to_vec())));
    assert!(!h.same_as(&TestTxHash(1002).to_tx_hash()));
    assert_eq!(h.clone().0, h.0);
}

#[test]
fn test_tx_serialization_round_trip() {
    for id in [0u64, 1, 1001, 9999, u64::MAX] {
        let raw = TestTx(id).serialize();
        assert_eq!(raw.to_vec(), id.to_le_bytes().to_vec());
        assert_eq!(TestTx::deserialize(&raw.to_vec()).unwrap(), TestTx(id));
    }
    assert_eq!(TestTx(42).hash(), TestTxHash(42));
}

#[test]
fn test_tx_deserialize_wrong_length() {
    for bytes in [vec![], vec![1u8; 7], vec![1u8; 9]] {
        match TestTx::deserialize(&bytes) {
            Err(AppError::DeserializationFailed(reason)) => {
                assert_eq!(reason, "Expected 8 bytes for TestTx deserialization")
            }
            Ok(_) => panic!("only eight bytes make a transaction"),
        }
    }
    let e = AppError::deserialization_failed("why");
    assert_eq!(e.message(), "Deserialization failed: why");
}

#[test]
fn check_tx_verdicts() {
    let app = TestMempoolApp;
    assert_eq!(
        app.check_tx(&TestTx(5).serialize()),
        Ok(TestCheckTxOutcome::Success(TestTxHash(5)))
    );
    assert_eq!(
        app.check_tx(&TestTx(9999).serialize()),
        Ok(TestCheckTxOutcome::Error(
            TestTxHash(9999),
            "Transaction 9999 is not allowed".to_string()
        ))
    );
    let ok = TestCheckTxOutcome::Success(TestTxHash(3));
    let bad = TestCheckTxOutcome::Error(TestTxHash(4), "no".to_string());
    assert!(ok.is_valid());
    assert!(!bad.is_valid());
    assert_eq!(ok.hash().0.to_vec(), 3u64.to_le_bytes().to_vec());
    assert_eq!(bad.hash().0.to_vec(), 4u64.to_le_bytes().to_vec());
    assert_eq!(bad.clone(), bad);
}

#[test]
fn duplicate_is_refused_and_pool_unchanged() {
    let mempool = Mempool::new(MempoolConfig::default(), true);
    let mut state = pool_with(&mempool, &[1, 2]);
    let tx = TestTx(1).serialize();
    let result = TestMempoolApp.check_tx(&tx);
    let d = mempool.handle_check_tx_result(tx, result, &mut state);
    assert!(d.gossip.is_none());
    match d.reply {
        Err(MempoolError::TxAlreadyExists(h)) => {
            assert_eq!(h.0.to_vec(), 1u64.to_le_bytes().to_vec());
            assert_eq!(
                MempoolError::TxAlreadyExists(h).message(),
                "Transaction already exists in mempool: TxHash(b\"\\x01\\0\\0\\0\\0\\0\\0\\0\")"
            );
        }
        _ => panic!("a second submission of a pooled hash is a duplicate"),
    }
    assert_eq!(state.len(), 2);
    assert!(state.tx_exists(&TestTxHash(2).to_tx_hash()));
    assert!(!state.tx_exists(&TestTxHash(3).to_tx_hash()));
}

#[test]
fn invalid_tx_is_answered_but_not_pooled() {
    let mempool = Mempool::new(MempoolConfig::default(), true);
    let mut state = State::new();
    let tx = TestTx(9999).serialize();
    let result = TestMempoolApp.check_tx(&tx);
    let d = mempool.handle_check_tx_result(tx, result, &mut state);
    assert!(d.gossip.is_none());
    assert_eq!(
        d.reply.unwrap(),
        TestCheckTxOutcome::Error(TestTxHash(9999), "Transaction 9999 is not allowed".to_string())
    );
    assert_eq!(state.len(), 0);
}

#[test]
fn accepted_tx_is_gossiped_with_its_bytes() {
    let mempool = Mempool::new(MempoolConfig::default(), true);
    let mut state = State::new();
    let tx = TestTx(77).serialize();
    let result = TestMempoolApp.check_tx(&tx);
    let d = mempool.handle_check_tx_result(tx, result, &mut state);
    let g = d.gossip.expect("an accepted transaction is gossiped");
    let batch = mempool.gossip_tx(&g);
    assert_eq!(batch.type_url, "mempool.transaction");
    assert_eq!(batch.value, 77u64.to_le_bytes().to_vec());
    assert_eq!(ids(&state.txs()), vec![77]);
}

#[test]
fn take_respects_the_byte_limit_and_keeps_the_cursor() {
    let mempool = Mempool::new(MempoolConfig { max_txs_bytes: 20, max_txs_per_block: 1 }, true);
    let mut state = pool_with(&mempool, &[1, 2, 3]);
    // 8 + 8 = 16 fits in 20; a third would make 24.
    assert_eq!(ids(&mempool.take(&state)), vec![1, 2]);
    assert_eq!(ids(&mempool.reap(&mut state, ReapCursor::Resume)), vec![1, 2]);
    assert_eq!(state.cursor(), 2);
    assert_eq!(ids(&mempool.take(&state)), vec![1, 2]);
    assert_eq!(ids(&mempool.reap(&mut state, ReapCursor::Resume)), vec![3]);
    assert_eq!(ids(&mempool.reap(&mut state, ReapCursor::Resume)), Vec::<u64>::new());
    assert_eq!(state.cursor(), 3);
}

#[test]
fn reap_stops_at_first_tx_that_does_not_fit() {
    let mempool = Mempool::new(MempoolConfig { max_txs_bytes: 10, max_txs_per_block: 1 }, true);
    let mut state = State::new();
    for (i, size) in [4usize, 9, 1].iter().enumerate() {
        let tx = RawTx::from_vec(vec![i as u8; *size]);
        let outcome: Result<TestCheckTxOutcome, String> =
            Ok(TestCheckTxOutcome::Success(TestTxHash(i as u64)));
        mempool.handle_check_tx_result(tx, outcome, &mut state);
    }
    let v = mempool.reap(&mut state, ReapCursor::Fresh);
    assert_eq!(v.len(), 1);
    assert_eq!(v[0].len(), 4);
    let empty = Mempool::new(MempoolConfig { max_txs_bytes: 0, max_txs_per_block: 1 }, true);
    assert!(empty.take(&state).is_empty());
}

#[test]
fn removal_keeps_order_and_moves_the_cursor() {
    let mempool = Mempool::new(MempoolConfig { max_txs_bytes: 24, max_txs_per_block: 3 }, true);
    let mut state = pool_with(&mempool, &[1, 2, 3, 4, 5]);
    assert_eq!(ids(&mempool.reap(&mut state, ReapCursor::Fresh)), vec![1, 2, 3]);
    let hashes = TestTxHash::to_tx_hashes(&vec![TestTxHash(2), TestTxHash(4), TestTxHash(42)]);
    mempool.remove(hashes, &mut state);
    assert_eq!(ids(&state.txs()), vec![1, 3, 5]);
    // Two of the three reaped transactions are left before the cursor.
    assert_eq!(state.cursor(), 2);
    assert_eq!(ids(&mempool.reap(&mut state, ReapCursor::Resume)), vec![5]);
    assert!(!state.tx_exists(&TestTxHash(2).to_tx_hash()));
    state.check_wf();
}

#[test]
fn gossiped_batch_is_submitted() {
    let mempool = Mempool::new(MempoolConfig::default(), true);
    match mempool.handle_network_event(&GossipEvent::TransactionBatch(vec![1, 2])) {
        Some(fifo_mempool::mempool::AddTxAction::CheckTx(tx)) => assert_eq!(tx.to_vec(), vec![1, 2]),
        _ => panic!("a gossiped transaction goes to the application"),
    }
    assert!(mempool.handle_network_event(&GossipEvent::PeerConnected(vec![1])).is_none());
    assert!(mempool.handle_network_event(&GossipEvent::Other).is_none());
}

#[test]
fn mempool_config_default() {
    let c = MempoolConfig::default();
    assert_eq!(c.max_txs_bytes, 4 * 1024 * 1024);
    assert_eq!(c.max_txs_per_block, 100);
}

#[test]
fn host_config_defaults_and_derived_limits() {
    let host = HostMempoolConfig::default();
    assert_eq!(host.idle_connection_timeout_secs, 30);
    assert_eq!(host.max_txs_bytes(), 4_000_000);
    assert_eq!(host.avg_tx_bytes(), 100_000);
    let c = host.mempool_config();
    assert_eq!(c.max_txs_bytes, 4_000_000);
    assert_eq!(c.max_txs_per_block, 40);
    let small = HostMempoolConfig::from_bytes(5, 16, 100_000).mempool_config();
    assert_eq!(small.max_txs_bytes, 16);
    assert_eq!(small.max_txs_per_block, 0);
}

#[test]
fn rpc_outcomes_and_errors() {
    let ok: Result<TestCheckTxOutcome, MempoolError> = Ok(TestCheckTxOutcome::Success(TestTxHash(1)));
    assert_eq!(add_tx_outcome(TestTxHash(1), ok), TestCheckTxOutcome::Success(TestTxHash(1)));
    let refused: Result<TestCheckTxOutcome, MempoolError> =
        Ok(TestCheckTxOutcome::Error(TestTxHash(2), "x".to_string()));
    assert_eq!(
        add_tx_outcome(TestTxHash(2), refused),
        TestCheckTxOutcome::Error(TestTxHash(2), "Transaction validation failed".to_string())
    );
    let failed: Result<TestCheckTxOutcome, MempoolError> = Err(MempoolError::App("boom".to_string()));
    assert_eq!(
        add_tx_outcome(TestTxHash(3), failed),
        TestCheckTxOutcome::Error(TestTxHash(3), "Application error: boom".to_string())
    );

    let mut state = RpcState::new();
    assert_eq!(state.last(), None);
    state.record(TestCheckTxOutcome::Success(TestTxHash(1)));
    state.record(TestCheckTxOutcome::Success(TestTxHash(2)));
    assert_eq!(state.last(), Some(TestCheckTxOutcome::Success(TestTxHash(2))));

    let e: RpcError = MempoolError::App("boom".to_string()).into();
    assert_eq!(e.message(), "Mempool operation failed: Application error: boom");
    let a = RpcError::ActorError { details: "gone".to_string() };
    assert_eq!(a.message(), "Actor communication failed: gone");
}

#[test]
fn peer_set_tracks_connections() {
    let mut peers = PeerSet::new();
    peers.insert(vec![1, 2]);
    peers.insert(vec![3]);
    peers.insert(vec![1, 2]);
    assert_eq!(peers.len(), 2);
    assert!(peers.contains(&vec![1, 2]));
    peers.remove(&vec![1, 2]);
    assert!(!peers.contains(&vec![1, 2]));
    assert!(peers.contains(&vec![3]));
    peers.remove(&vec![9]);
    assert_eq!(peers.len(), 1);
    assert!(same_bytes(&vec![1, 2], &vec![1, 2]));
    assert!(!same_bytes(&vec![1, 2], &vec![1]));
}

#[test]
fn network_actor_decisions() {
    let network = MempoolNetwork;
    let mut state = network.started();
    assert!(matches!(
        network.handle(&mut state, NetworkInput::NewEvent(GossipEvent::PeerConnected(vec![5]))),
        NetworkAction::Publish
    ));
    assert!(matches!(
        network.handle(&mut state, NetworkInput::NewEvent(GossipEvent::PeerConnected(vec![6]))),
        NetworkAction::Publish
    ));
    assert!(matches!(
        network.handle(&mut state, NetworkInput::NewEvent(GossipEvent::PeerDisconnected(vec![5]))),
        NetworkAction::Publish
    ));
    match &state {
        NetworkState::Running { peers } => {
            assert_eq!(peers.len(), 1);
            assert!(peers.contains(&vec![6]));
        }
        NetworkState::Stopped => panic!("the network still runs"),
    }
    assert!(matches!(network.handle(&mut state, NetworkInput::Subscribe), NetworkAction::Subscribe));
    assert!(network.stop(&mut state));
    assert!(matches!(network.handle(&mut state, NetworkInput::Subscribe), NetworkAction::Ignore));
    assert!(!network.stop(&mut state));
}

#[test]
fn config_from_limits_and_zero_average() {
    let c = MempoolConfig::from_limits(1000, 300);
    assert_eq!(c.max_txs_bytes, 1000);
    assert_eq!(c.max_txs_per_block, 3);
    assert!(HostMempoolConfig::from_bytes(1, 10, 0).try_mempool_config().is_none());
    assert_eq!(
        HostMempoolConfig::from_bytes(1, 10, 5).try_mempool_config(),
        Some(MempoolConfig { max_txs_bytes: 10, max_txs_per_block: 2 })
    );
    assert_eq!(TxHash::text_from_debug("abc"), "TxHash(abc)");
}
