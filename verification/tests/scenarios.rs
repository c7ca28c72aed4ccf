// The host's end-to-end scenarios, run through the library's decision
// functions: each node is a mempool state with the test application and the
// RPC front end, and gossip is handed from node to node.

use fifo_mempool::config::HostMempoolConfig;
use fifo_mempool::error::MempoolError;
use fifo_mempool::host_app::{TestCheckTxOutcome, TestMempoolApp, TestTx, TestTxHash};
use fifo_mempool::mempool::{AddTxAction, Mempool, MempoolConfig, ReapCursor, State};
use fifo_mempool::network::GossipEvent;
use fifo_mempool::rpc::{add_tx_outcome, RpcState};
use fifo_mempool::tx::RawTx;
use fifo_mempool::MempoolApp;

struct Node {
    mempool: Mempool,
    state: State,
    app: TestMempoolApp,
    rpc: RpcState,
}

impl Node {
    fn new(config: MempoolConfig) -> Node {
        Node {
            mempool: Mempool::new(config, true),
            state: State::new(),
            app: TestMempoolApp,
            rpc: RpcState::new(),
        }
    }

    /// Submits a transaction to the mempool; returns what should be gossiped.
    fn submit(&mut self, tx: RawTx, rpc_hash: Option<TestTxHash>) -> Option<RawTx> {
        match self.mempool.add_tx(tx) {
            AddTxAction::CheckTx(tx) => {
                let result = self.app.check_tx(&tx);
                let decision = self.mempool.handle_check_tx_result(tx, result, &mut self.state);
                if let Some(hash) = rpc_hash {
                    let outcome = add_tx_outcome(hash, decision.reply);
                    self.rpc.record(outcome);
                }
                decision.gossip
            }
            AddTxAction::Reject(err) => {
                if let Some(hash) = rpc_hash {
                    let outcome = add_tx_outcome::<TestCheckTxOutcome>(hash, Err(err));
                    self.rpc.record(outcome);
                }
                None
            }
        }
    }

    fn rpc_add_tx(&mut self, tx: &TestTx) -> Option<RawTx> {
        self.submit(tx.serialize(), Some(tx.hash()))
    }

    fn receive_gossip(&mut self, tx: &RawTx) {
        let event = GossipEvent::TransactionBatch(self.mempool.gossip_tx(tx).value);
        if let Some(AddTxAction::CheckTx(tx)) = self.mempool.handle_network_event(&event) {
            let result = self.app.check_tx(&tx);
            let _ = self.mempool.handle_check_tx_result(tx, result, &mut self.state);
        }
    }

    fn get_state(&self) -> Option<TestCheckTxOutcome> {
        self.rpc.last()
    }

    fn reap_transactions(&mut self, cursor: ReapCursor) -> Vec<RawTx> {
        self.mempool.reap(&mut self.state, cursor)
    }

    fn get_transactions(&mut self) -> Vec<RawTx> {
        self.reap_transactions(ReapCursor::Fresh)
    }

    fn remove_tx(&mut self, tx: &TestTx) {
        let hashes = TestTxHash::to_tx_hashes(&vec![tx.hash()]);
        self.mempool.remove(hashes, &mut self.state);
    }
}

fn create_nodes(count: usize, max_txs_bytes: u64) -> Vec<Node> {
    let host = HostMempoolConfig::from_bytes(30, max_txs_bytes, 100_000);
    (0..count).map(|_| Node::new(host.mempool_config())).collect()
}

fn assert_eq_transactions(expected_txs: Vec<TestTx>, actual_txs: Vec<RawTx>) {
    assert_eq!(expected_txs.len(), actual_txs.len());
    for (expected, actual) in expected_txs.iter().zip(actual_txs.iter()) {
        assert_eq!(expected.0.to_le_bytes().to_vec(), actual.to_vec());
    }
}

#[test]
fn test_mempool_error_handling() {
    let mut nodes = create_nodes(1, 4_000_000);
    let node = &mut nodes[0];

    let good_tx = TestTx(1001);
    let bad_tx = TestTx(9999);

    node.rpc_add_tx(&good_tx);
    assert_eq!(node.get_state(), Some(TestCheckTxOutcome::Success(good_tx.hash())));

    node.rpc_add_tx(&bad_tx);
    assert_eq!(
        node.get_state(),
        Some(TestCheckTxOutcome::Error(
            bad_tx.hash(),
            "Transaction validation failed".to_string()
        ))
    );
}

#[test]
fn test_duplicate_transaction_handling() {
    let mut nodes = create_nodes(1, 4_000_000);
    let node = &mut nodes[0];

    let tx = TestTx(2001);

    node.rpc_add_tx(&tx);
    assert_eq!(node.get_state(), Some(TestCheckTxOutcome::Success(tx.hash())));

    let txs = node.get_transactions();
    assert_eq!(txs.len(), 1, "Mempool should contain 1 transaction");

    node.rpc_add_tx(&tx);
    match node.get_state() {
        Some(TestCheckTxOutcome::Error(hash, error_msg)) => {
            assert_eq!(hash, tx.hash());
            assert!(
                error_msg.contains("Transaction already exists"),
                "Error message should indicate duplicate transaction, got: {}",
                error_msg
            );
        }
        other => panic!("Expected duplicate error, got: {:?}", other),
    }

    let txs = node.get_transactions();
    assert_eq!(
        txs.len(),
        1,
        "Mempool should still contain only 1 transaction after duplicate attempt"
    );
}

#[test]
fn test_three_node_gossip_and_removal() {
    let mut nodes = create_nodes(3, 4_000_000);

    let tx1 = TestTx(1001);
    let tx2 = TestTx(1002);
    let tx3 = TestTx(1003);

    for (i, tx) in [tx1, tx2, tx3].iter().enumerate() {
        let gossip = nodes[i].rpc_add_tx(tx).expect("a new transaction is gossiped");
        for (j, node) in nodes.iter_mut().enumerate() {
            if j != i {
                node.receive_gossip(&gossip);
            }
        }
    }

    for (i, node) in nodes.iter_mut().enumerate() {
        let txs = node.get_transactions();
        assert_eq!(txs.len(), 3, "Node {i} should have exactly 3 transactions initially");
    }

    for node in nodes.iter_mut() {
        node.remove_tx(&tx1);
    }

    for (i, node) in nodes.iter_mut().enumerate() {
        let txs = node.get_transactions();
        assert_eq!(txs.len(), 2, "Node {i} should have exactly 2 transactions initially");
    }
}

#[test]
fn test_reap_transactions() {
    let tx_size = std::mem::size_of::<u64>();
    let max_txs_in_a_block = 2;
    let max_txs_size = max_txs_in_a_block * tx_size;

    let mut nodes = create_nodes(1, max_txs_size as u64);
    let node = &mut nodes[0];

    let txs = vec![TestTx(1001), TestTx(1002), TestTx(1003), TestTx(1004), TestTx(1005)];

    for tx in &txs {
        node.rpc_add_tx(tx);
        assert_eq!(node.get_state(), Some(TestCheckTxOutcome::Success(tx.hash())));
    }

    let reaped_txs = node.reap_transactions(ReapCursor::Fresh);
    assert_eq_transactions(vec![txs[0].clone(), txs[1].clone()], reaped_txs);

    let reaped_txs = node.reap_transactions(ReapCursor::Fresh);
    assert_eq_transactions(vec![txs[0].clone(), txs[1].clone()], reaped_txs);

    let reaped_txs = node.reap_transactions(ReapCursor::Resume);
    assert_eq_transactions(vec![txs[2].clone(), txs[3].clone()], reaped_txs);

    let reaped_txs = node.reap_transactions(ReapCursor::Resume);
    assert_eq_transactions(vec![txs[4].clone()], reaped_txs);

    node.remove_tx(&txs[0]);
    let reaped_txs = node.reap_transactions(ReapCursor::Fresh);
    assert_eq_transactions(vec![txs[1].clone(), txs[2].clone()], reaped_txs);
}

#[test]
fn no_app_configured_rejects_transactions() {
    let mempool = Mempool::new(MempoolConfig::default(), false);
    match mempool.add_tx(TestTx(5).serialize()) {
        AddTxAction::Reject(MempoolError::App(reason)) => {
            assert_eq!(reason, "No app configured to provide transaction hash")
        }
        _ => panic!("a mempool without an application must refuse transactions"),
    }
}

#[test]
fn failed_check_is_answered_with_application_error() {
    let mempool = Mempool::new(MempoolConfig::default(), true);
    let mut state = State::new();
    let tx = RawTx::from_vec(vec![1, 2, 3]);
    let result = TestMempoolApp.check_tx(&tx);
    assert_eq!(
        result,
        Err("Deserialization failed: Expected 8 bytes for TestTx deserialization".to_string())
    );
    let decision = mempool.handle_check_tx_result(tx, result, &mut state);
    assert!(decision.gossip.is_none());
    match decision.reply {
        Err(e) => assert_eq!(
            e.message(),
            "Application error: Deserialization failed: Expected 8 bytes for TestTx deserialization"
        ),
        Ok(_) => panic!("a failed check must be answered with an error"),
    }
    assert_eq!(state.len(), 0);
}
