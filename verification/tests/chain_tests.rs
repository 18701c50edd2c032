//! The chain model and the transaction path through the mempool.

use stegos_node::block::{hash_block, BaseBlockHeader, Block, Coinbase, MacroBlock, MicroBlock};
use stegos_node::chain::Blockchain;
use stegos_node::config::{ChainConfig, PAYMENT_FEE, VERSION};
use stegos_node::crypto::{Digest, Pk, Sig, Sk};
use stegos_node::error::{BlockError, NodeError, TransactionError};
use stegos_node::node::{NodeAction, NodeService};
use stegos_node::tx::{hash_output, make_account_keys, Output, PaymentOutput, Transaction};

fn validators() -> Vec<(Pk, i64)> {
    vec![(Pk { val: 1 }, 1), (Pk { val: 2 }, 1), (Pk { val: 3 }, 1)]
}

fn genesis_chain() -> Blockchain {
    let base = BaseBlockHeader::new(VERSION, Digest { bits: 0 }, 0, 0, 0, 12345);
    Blockchain::new(MacroBlock::empty(base, Pk { val: 1 }), validators())
}

fn micro_at(chain: &Blockchain, view: u32, ts: u64, leader: u64) -> MicroBlock {
    let base = BaseBlockHeader::new(
        VERSION,
        chain.last_block_hash(),
        chain.height(),
        view,
        ts,
        777,
    );
    let mut b = MicroBlock {
        base,
        view_change_proof: None,
        coinbase: Coinbase { block_reward: 0 },
        transactions: Vec::new(),
        pkey: Pk { val: leader },
        sig: Sig { val: 0 },
    };
    b.sign(&Sk { val: leader }, &Pk { val: leader });
    b
}

#[test]
fn chain_links_and_rejects() {
    let mut chain = genesis_chain();
    assert_eq!(chain.height(), 1);
    assert_eq!(chain.epoch(), 1);
    // a block pointing elsewhere is rejected and nothing changes
    let mut wrong = micro_at(&chain, 0, 10, 1);
    wrong.base.previous = Digest { bits: 99 };
    wrong.sign(&Sk { val: 1 }, &Pk { val: 1 });
    match chain.push_micro_block(wrong) {
        Err(NodeError::Block(BlockError::InvalidPreviousHash(h, _, _))) => assert_eq!(h, 1),
        _ => panic!(),
    }
    assert_eq!(chain.height(), 1);
    // a proper block extends the tip and resets the view
    let good = micro_at(&chain, 0, 10, 1);
    let good_hash = hash_block(&Block::MicroBlock(micro_at(&chain, 0, 10, 1)));
    chain.push_micro_block(good).unwrap();
    assert_eq!(chain.height(), 2);
    assert_eq!(chain.view_change(), 0);
    assert_eq!(chain.last_block_hash(), good_hash);
    // a block with an outdated view is rejected
    let mut chain2 = genesis_chain();
    let stale = micro_at(&chain2, 0, 11, 1);
    chain2.view_change = 2;
    match chain2.push_micro_block(stale) {
        Err(NodeError::Block(BlockError::InvalidViewChange(_, got, have))) => {
            assert_eq!(got, 0);
            assert_eq!(have, 2);
        }
        _ => panic!(),
    }
    // popping undoes the tip but never crosses the macro boundary
    let (inputs, outputs) = chain.pop_micro_block().unwrap();
    assert_eq!(inputs.len(), 0);
    assert_eq!(outputs.len(), 0);
    assert_eq!(chain.height(), 1);
    assert!(chain.pop_micro_block().is_err());
}

fn config() -> ChainConfig {
    ChainConfig {
        blocks_in_epoch: 5,
        block_reward: 0,
        tx_wait_timeout: 1000,
        micro_block_timeout: 1000,
        macro_block_timeout: 1000,
        max_utxo_in_tx: 4,
        max_utxo_in_mempool: 6,
        max_utxo_in_block: 100,
    }
}

fn funded_node(seed: u64, outputs: &Vec<Output>) -> NodeService {
    let mut chain = genesis_chain();
    for o in outputs {
        chain.utxo.push((hash_output(o), *o));
    }
    let mut node = NodeService::new(config(), chain, Sk { val: seed }, Pk { val: seed });
    node.init(0).unwrap();
    node
}

#[test]
fn transaction_lifecycle() {
    let (skey, pkey) = make_account_keys(31);
    let (_rk, recipient) = make_account_keys(32);
    let o1 = Output::PaymentOutput(PaymentOutput {
        recipient: pkey,
        timestamp: 4,
        amount: 30,
        gamma: 5,
    });
    let funds = vec![o1];
    // fund the validator that leads at view zero, so it can pack the block
    let leader = genesis_chain().leader();
    let mut node = funded_node(leader.val, &funds);
    for _ in std::mem::take(&mut node.outbox) {}

    // a balanced transaction paying the fee enters the pool
    let (out1, g1) = Output::new_payment(9, &skey, &recipient, 30 - PAYMENT_FEE).unwrap();
    let tx = Transaction::new(&skey, &funds, &vec![out1], g1, PAYMENT_FEE).unwrap();
    let tx_hash = stegos_node::tx::hash_transaction(&tx);
    node.handle_transaction(tx).unwrap();
    assert_eq!(node.mempool.len(), 1);
    assert!(node.mempool.contains(&tx_hash));

    // an unknown input is rejected
    let phantom = Output::PaymentOutput(PaymentOutput {
        recipient: pkey,
        timestamp: 5,
        amount: 10,
        gamma: 1,
    });
    let (out2, g2) = Output::new_payment(9, &skey, &recipient, 10 - PAYMENT_FEE).unwrap();
    let bad = Transaction::new(&skey, &vec![phantom], &vec![out2], g2, PAYMENT_FEE).unwrap();
    match node.handle_transaction(bad) {
        Err(NodeError::Transaction(TransactionError::MissingUtxo(_))) => {}
        _ => panic!(),
    }

    // an oversized transaction is rejected before anything else
    let mut many = Vec::new();
    for k in 0..5 {
        let (o, _g) = Output::new_payment(20 + k, &skey, &recipient, 1).unwrap();
        many.push(o);
    }
    let big = Transaction::new(&skey, &funds, &many, 0, 25).unwrap();
    match node.handle_transaction(big) {
        Err(NodeError::Transaction(TransactionError::TooLarge(_, got, max))) => {
            assert_eq!(got, 6);
            assert_eq!(max, 4);
        }
        _ => panic!(),
    }

    // the leader packs the pool into the next block and the pool drains
    assert_eq!(node.chain.leader(), node.pkey);
    node.create_micro_block(50).unwrap();
    assert_eq!(node.chain.height(), 2);
    assert_eq!(node.mempool.len(), 0);
    let mut saw_outputs = false;
    for a in std::mem::take(&mut node.outbox) {
        if let NodeAction::NotifyOutputsChanged(ev) = a {
            assert_eq!(ev.inputs.len(), 1);
            assert_eq!(ev.outputs.len(), 1);
            saw_outputs = true;
        }
    }
    assert!(saw_outputs);
}

#[test]
fn mempool_capacity_is_enforced() {
    let (skey, pkey) = make_account_keys(41);
    let (_rk, recipient) = make_account_keys(42);
    let mut funds = Vec::new();
    for k in 0..5u64 {
        funds.push(Output::PaymentOutput(PaymentOutput {
            recipient: pkey,
            timestamp: k,
            amount: 30,
            gamma: k,
        }));
    }
    let mut node = funded_node(1, &funds);
    // the pool accepts transactions until it holds more than its budget of
    // six UTXOs: four two-UTXO transactions go in, the fifth is refused
    for k in 0..4usize {
        let (out, g) = Output::new_payment(100 + k as u64, &skey, &recipient, 30 - PAYMENT_FEE)
            .unwrap();
        let tx = Transaction::new(&skey, &vec![funds[k]], &vec![out], g, PAYMENT_FEE).unwrap();
        node.handle_transaction(tx).unwrap();
    }
    let (out, g) = Output::new_payment(200, &skey, &recipient, 30 - PAYMENT_FEE).unwrap();
    let tx = Transaction::new(&skey, &vec![funds[4]], &vec![out], g, PAYMENT_FEE).unwrap();
    match node.handle_transaction(tx) {
        Err(NodeError::Transaction(TransactionError::MempoolIsFull(_))) => {}
        other => panic!("unexpected: {:?}", other),
    }
    assert_eq!(node.mempool.len(), 4);
}
