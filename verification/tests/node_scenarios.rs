//! End-to-end scenarios: a three-validator network driven by hand.

use stegos_node::block::{clone_block, hash_block, BaseBlockHeader, Block, Coinbase, MacroBlock,
    MicroBlock};
use stegos_node::chain::Blockchain;
use stegos_node::config::{ChainConfig, VERSION};
use stegos_node::crypto::{Digest, Pk, Sk};
use stegos_node::message::clone_message;
use stegos_node::node::{NodeAction, NodeService, Validation};
use stegos_node::view_change::{clone_sealed_proof, ViewChangeCollector};

fn config() -> ChainConfig {
    ChainConfig {
        blocks_in_epoch: 5,
        block_reward: 0,
        tx_wait_timeout: 1000,
        micro_block_timeout: 1000,
        macro_block_timeout: 1000,
        max_utxo_in_tx: 10,
        max_utxo_in_mempool: 1000,
        max_utxo_in_block: 100,
    }
}

fn validators() -> Vec<(Pk, i64)> {
    vec![(Pk { val: 1 }, 1), (Pk { val: 2 }, 1), (Pk { val: 3 }, 1)]
}

fn genesis() -> MacroBlock {
    let base = BaseBlockHeader::new(VERSION, Digest { bits: 0 }, 0, 0, 0, 12345);
    MacroBlock::empty(base, Pk { val: 1 })
}

fn make_node(seed: u64) -> NodeService {
    let chain = Blockchain::new(genesis(), validators());
    let mut node = NodeService::new(config(), chain, Sk { val: seed }, Pk { val: seed });
    node.init(0).unwrap();
    node
}

fn world() -> Vec<NodeService> {
    vec![make_node(1), make_node(2), make_node(3)]
}

fn take_actions(node: &mut NodeService) -> Vec<NodeAction> {
    std::mem::take(&mut node.outbox)
}

fn leader_index(nodes: &Vec<NodeService>) -> usize {
    let leader = nodes[0].chain.leader();
    (leader.val - 1) as usize
}

/// Deliver every pending action of every node to every other node, over and
/// over, until the network goes quiet.  Returns the block-added heights
/// observed per node.
fn pump(nodes: &mut Vec<NodeService>, now: u64) -> Vec<(u64, u64)> {
    let mut added: Vec<(u64, u64)> = Vec::new();
    let mut rounds = 0;
    loop {
        rounds += 1;
        assert!(rounds < 50, "the network should go quiet");
        let mut all: Vec<(usize, NodeAction)> = Vec::new();
        for i in 0..nodes.len() {
            for a in take_actions(&mut nodes[i]) {
                all.push((i, a));
            }
        }
        if all.is_empty() {
            return added;
        }
        for (from, action) in all {
            match action {
                NodeAction::PublishBlock(b) => {
                    for i in 0..nodes.len() {
                        if i != from {
                            nodes[i].handle_sealed_block(clone_block(&b), now).unwrap();
                        }
                    }
                }
                NodeAction::PublishConsensus(m) => {
                    for i in 0..nodes.len() {
                        if i != from {
                            nodes[i].handle_consensus_message(clone_message(&m), now).unwrap();
                        }
                    }
                }
                NodeAction::PublishViewChange(m) => {
                    for i in 0..nodes.len() {
                        if i != from {
                            let _ = nodes[i].handle_view_change_message(m);
                        }
                    }
                }
                NodeAction::SendViewChangeProof(to, sealed) => {
                    for i in 0..nodes.len() {
                        if nodes[i].pkey == to {
                            let from_pk = nodes[from].pkey;
                            let _ = nodes[i].handle_view_change_direct(
                                from_pk,
                                clone_sealed_proof(&sealed),
                                now,
                            );
                        }
                    }
                }
                NodeAction::SendBlocks(to, blocks) => {
                    for i in 0..nodes.len() {
                        if nodes[i].pkey == to {
                            for b in &blocks {
                                let _ = nodes[i].handle_sealed_block(clone_block(b), now);
                            }
                        }
                    }
                }
                NodeAction::NotifyBlockAdded(ev) => {
                    added.push((nodes[from].pkey.val, ev.height));
                }
                NodeAction::RequestHistory(_)
                | NodeAction::NotifyEpochChanged(_)
                | NodeAction::NotifyOutputsChanged(_) => {}
            }
        }
    }
}

/// One micro block: the leader packs and publishes, everyone applies.
fn advance_one_micro(nodes: &mut Vec<NodeService>, now: u64) {
    let li = leader_index(nodes);
    nodes[li].create_micro_block(now).unwrap();
    pump(nodes, now);
}

#[test]
fn happy_micro_block() {
    let mut nodes = world();
    let li = leader_index(&nodes);
    for n in nodes.iter_mut() {
        take_actions(n);
    }
    nodes[li].create_micro_block(10_000).unwrap();
    let added = pump(&mut nodes, 10_000);
    // all three applied the block at height 1 and stayed at view 0
    for n in nodes.iter() {
        assert_eq!(n.chain.height(), 2);
        assert_eq!(n.chain.view_change(), 0);
        assert_eq!(n.mempool.len(), 0);
    }
    // every node, the leader included, observed the added block
    for pk in 1..=3u64 {
        assert!(added.iter().any(|(who, h)| *who == pk && *h == 1));
    }
    // all tips agree
    let h0 = nodes[0].chain.last_block_hash();
    assert_eq!(nodes[1].chain.last_block_hash(), h0);
    assert_eq!(nodes[2].chain.last_block_hash(), h0);
}

#[test]
fn micro_view_change() {
    let mut nodes = world();
    let li = leader_index(&nodes);
    for n in nodes.iter_mut() {
        take_actions(n);
    }
    // the leader stays silent; the other two time out and vote
    let mut votes = Vec::new();
    for i in 0..3 {
        if i != li {
            nodes[i].handle_micro_block_viewchange_timer().unwrap();
            for a in take_actions(&mut nodes[i]) {
                if let NodeAction::PublishViewChange(m) = a {
                    votes.push((i, m));
                }
            }
        }
    }
    assert_eq!(votes.len(), 2);
    // exchange the votes between the two live validators
    for (from, m) in votes {
        for i in 0..3 {
            if i != li && i != from {
                nodes[i].handle_view_change_message(m).unwrap();
            }
        }
    }
    // two of three equal stakes seal the skip: the view advanced
    for i in 0..3 {
        if i != li {
            assert_eq!(nodes[i].chain.view_change(), 1, "view advanced on node {}", i + 1);
        }
    }
    // both live nodes agree on the new leader
    let mut leaders = Vec::new();
    for i in 0..3 {
        if i != li {
            leaders.push(nodes[i].chain.leader());
        }
    }
    assert_eq!(leaders[0], leaders[1]);
}

#[test]
fn fork_at_equal_view_counts_a_cheat() {
    let mut nodes = world();
    let li = leader_index(&nodes);
    advance_one_micro(&mut nodes, 10_000);
    // the same leader forges a second, different block at height 1, view 0
    let genesis_hash = hash_block(nodes[0].chain.block_by_height(0));
    let genesis_random = nodes[0].chain.block_by_height(0).base_header().random;
    let base = BaseBlockHeader::new(VERSION, genesis_hash, 1, 0, 99_999, genesis_random);
    let mut forged = MicroBlock {
        base,
        view_change_proof: None,
        coinbase: Coinbase { block_reward: 0 },
        transactions: Vec::new(),
        pkey: nodes[li].pkey,
        sig: stegos_node::crypto::Sig { val: 0 },
    };
    let leader_skey = Sk { val: nodes[li].pkey.val };
    let leader_pkey = nodes[li].pkey;
    forged.sign(&leader_skey, &leader_pkey);
    // a follower sees the double block: canceled, cheat counted, no rollback
    let victim = (li + 1) % 3;
    nodes[victim]
        .handle_sealed_block(Block::MicroBlock(forged), 10_001)
        .unwrap();
    assert_eq!(nodes[victim].cheats, 1);
    assert_eq!(nodes[victim].chain.height(), 2);
}

#[test]
fn fork_at_higher_view_rolls_back() {
    let mut nodes = world();
    advance_one_micro(&mut nodes, 10_000);
    // a remote partition skipped view 0 at height 1 and built its own block
    let remote_chain = Blockchain::new(genesis(), validators());
    let tip = remote_chain.chain_info();
    let next_leader = remote_chain.select_leader(1);
    // the next leader votes, plus one more validator
    let mut second: u64 = 0;
    for k in 1..=3u64 {
        if k != next_leader.val {
            second = k;
            break;
        }
    }
    let mut collector = ViewChangeCollector::new(
        &remote_chain,
        next_leader,
        Sk { val: next_leader.val },
    );
    let helper = ViewChangeCollector::new(&remote_chain, Pk { val: second }, Sk { val: second });
    let v1 = collector.handle_timeout(tip);
    let v2 = helper.handle_timeout(tip);
    collector.handle_message(&remote_chain, v1).unwrap();
    let sealed = collector.handle_message(&remote_chain, v2).unwrap().unwrap();
    // the new leader produces the competing block at height 1, view 1
    let genesis_hash = hash_block(remote_chain.block_by_height(0));
    let base = BaseBlockHeader::new(VERSION, genesis_hash, 1, 1, 20_000, 777);
    let mut remote_block = MicroBlock {
        base,
        view_change_proof: Some(sealed.proof),
        coinbase: Coinbase { block_reward: 0 },
        transactions: Vec::new(),
        pkey: next_leader,
        sig: stegos_node::crypto::Sig { val: 0 },
    };
    remote_block.sign(&Sk { val: next_leader.val }, &next_leader);
    // a node holding the view-0 block rolls back and adopts the remote
    let victim = 0;
    take_actions(&mut nodes[victim]);
    nodes[victim]
        .handle_sealed_block(Block::MicroBlock(remote_block), 20_001)
        .unwrap();
    assert_eq!(nodes[victim].forks, 1);
    assert_eq!(nodes[victim].chain.height(), 2);
    // outputs changed twice: once for the rollback, once for the new block
    let mut outputs_changed = 0;
    let mut block_added = 0;
    for a in take_actions(&mut nodes[victim]) {
        match a {
            NodeAction::NotifyOutputsChanged(_) => outputs_changed += 1,
            NodeAction::NotifyBlockAdded(ev) => {
                block_added += 1;
                assert_eq!(ev.height, 1);
                assert_eq!(ev.view_change, 1);
            }
            _ => {}
        }
    }
    assert_eq!(outputs_changed, 2);
    assert_eq!(block_added, 1);
}

#[test]
fn macro_commit_with_silent_leader() {
    let mut nodes = world();
    // fill the epoch with micro blocks until the macro cadence begins;
    // hold all consensus traffic back so the round stays open
    for _ in 0..3 {
        advance_one_micro(&mut nodes, 10_000);
    }
    let li4 = leader_index(&nodes);
    nodes[li4].create_micro_block(10_000).unwrap();
    let mut pending = Vec::new();
    for a in take_actions(&mut nodes[li4]) {
        match a {
            NodeAction::PublishBlock(b) => {
                for i in 0..3 {
                    if i != li4 {
                        nodes[i].handle_sealed_block(clone_block(&b), 10_000).unwrap();
                    }
                }
            }
            NodeAction::PublishConsensus(m) => pending.push(m),
            _ => {}
        }
    }
    for i in 0..3 {
        if i != li4 {
            for a in take_actions(&mut nodes[i]) {
                if let NodeAction::PublishConsensus(m) = a {
                    pending.push(m);
                }
            }
        }
    }
    for n in nodes.iter() {
        assert_eq!(n.chain.height(), 5);
        assert!(matches!(n.validation, Validation::MacroBlockValidator { .. }));
    }
    // the round leader proposed on entry; find it
    let mut li = 9;
    for i in 0..3 {
        if let Validation::MacroBlockValidator { ref consensus, .. } = nodes[i].validation {
            if consensus.is_leader() {
                li = i;
            }
        }
    }
    assert!(li < 3);
    // deliver the leader's proposal and prevote, then let the followers
    // talk only to each other: the leader goes silent
    for m in pending {
        for i in 0..3 {
            if i != li {
                nodes[i].handle_consensus_message(clone_message(&m), 20_000).unwrap();
            }
        }
    }
    let mut rounds = 0;
    loop {
        rounds += 1;
        assert!(rounds < 10);
        let mut msgs = Vec::new();
        for i in 0..3 {
            if i != li {
                for a in take_actions(&mut nodes[i]) {
                    if let NodeAction::PublishConsensus(m) = a {
                        msgs.push((i, m));
                    }
                }
            }
        }
        if msgs.is_empty() {
            break;
        }
        for (from, m) in msgs {
            for i in 0..3 {
                if i != li && i != from {
                    nodes[i].handle_consensus_message(clone_message(&m), 20_000).unwrap();
                }
            }
        }
    }
    // every follower saw enough precommits but no sealed block: time out
    for i in 0..3 {
        if i != li {
            if let Validation::MacroBlockValidator { ref consensus, .. } = nodes[i].validation {
                assert!(consensus.should_commit());
            } else {
                panic!();
            }
            nodes[i].handle_macro_block_viewchange_timer(30_000).unwrap();
            assert_eq!(nodes[i].autocommits, 1);
        }
    }
    // the followers sealed identical macro blocks and moved to the next
    // epoch
    let mut sealed_hashes = Vec::new();
    for i in 0..3 {
        if i != li {
            assert_eq!(nodes[i].chain.epoch(), 2);
            assert_eq!(nodes[i].chain.height(), 6);
            sealed_hashes.push(nodes[i].chain.last_block_hash());
        }
    }
    assert_eq!(sealed_hashes[0], sealed_hashes[1]);
}

#[test]
fn orphan_drain() {
    let mut nodes = world();
    // everyone applies the first micro block
    advance_one_micro(&mut nodes, 10_000);
    // capture the next two blocks as they are published
    let mut caught: Vec<Block> = Vec::new();
    for _ in 0..2 {
        let li = leader_index(&nodes);
        nodes[li].create_micro_block(10_000).unwrap();
        let mut republish = Vec::new();
        for a in take_actions(&mut nodes[li]) {
            if let NodeAction::PublishBlock(b) = a {
                caught.push(clone_block(&b));
                republish.push(b);
            }
        }
        for b in republish {
            for i in 0..3 {
                if i != li {
                    nodes[i].handle_sealed_block(clone_block(&b), 10_000).unwrap();
                }
            }
        }
        for n in nodes.iter_mut() {
            take_actions(n);
        }
    }
    assert_eq!(caught.len(), 2);
    // a lagging auditor receives them out of order
    let mut z = make_node(4);
    let first = hash_block(nodes[0].chain.block_by_height(1));
    let b1 = clone_block(nodes[0].chain.block_by_height(1));
    z.handle_sealed_block(b1, 11_000).unwrap();
    assert_eq!(z.chain.height(), 2);
    assert_eq!(hash_block(z.chain.block_by_height(1)), first);
    take_actions(&mut z);
    // height 3 arrives first: it is buffered, and history is requested
    z.handle_sealed_block(clone_block(&caught[1]), 11_001).unwrap();
    assert_eq!(z.chain.height(), 2);
    let mut asked = false;
    for a in take_actions(&mut z) {
        if matches!(a, NodeAction::RequestHistory(_)) {
            asked = true;
        }
    }
    assert!(asked);
    // height 2 arrives: it applies and the orphan drains after it
    z.handle_sealed_block(clone_block(&caught[0]), 11_002).unwrap();
    assert_eq!(z.chain.height(), 4);
    // the drain satisfied the queue: no further history request
    for a in take_actions(&mut z) {
        assert!(!matches!(a, NodeAction::RequestHistory(_)));
    }
}
