//! The round engine in isolation, and the driver's block rejections.

use stegos_node::block::{hash_block, hash_macro_block, BaseBlockHeader, Block, Coinbase,
    MacroBlock, MicroBlock, ViewChangeProof};
use stegos_node::chain::Blockchain;
use stegos_node::config::{ChainConfig, VERSION};
use stegos_node::consensus::BlockConsensus;
use stegos_node::crypto::{sign_hash, Digest, Pk, Sig, Sk};
use stegos_node::error::{BlockError, ConsensusError, NodeError};
use stegos_node::message::{clone_message, ConsensusMessage, ConsensusMessageBody};
use stegos_node::node::{NodeAction, NodeService};
use stegos_node::tx::copy_vec;

fn validators() -> Vec<(Pk, i64)> {
    vec![(Pk { val: 1 }, 1), (Pk { val: 2 }, 1), (Pk { val: 3 }, 1)]
}

fn genesis_chain() -> Blockchain {
    let base = BaseBlockHeader::new(VERSION, Digest { bits: 0 }, 0, 0, 0, 12345);
    Blockchain::new(MacroBlock::empty(base, Pk { val: 1 }), validators())
}

fn engine_for(seed: u64, random: u64) -> BlockConsensus {
    BlockConsensus::new(1, 2, Sk { val: seed }, Pk { val: seed }, random, copy_vec(&validators()))
}

#[test]
fn engine_agrees_and_seals() {
    let chain = genesis_chain();
    let random = chain.last_random();
    let mut engines = vec![engine_for(1, random), engine_for(2, random), engine_for(3, random)];
    let mut li = 9;
    for (i, e) in engines.iter().enumerate() {
        if e.is_leader() {
            li = i;
        }
    }
    assert!(li < 3);
    // the leader proposes; the proposal and its prevote reach the others
    let block = NodeService::create_macro_block(
        &chain,
        0,
        &Sk { val: (li + 1) as u64 },
        &Pk { val: (li + 1) as u64 },
        777,
    );
    engines[li].propose(block);
    let mut queue: Vec<ConsensusMessage> = std::mem::take(&mut engines[li].outbox);
    let mut rounds = 0;
    while let Some(m) = queue.pop() {
        rounds += 1;
        assert!(rounds < 40);
        for i in 0..3 {
            if engines[i].pkey != m.pkey {
                engines[i].feed_message(clone_message(&m)).unwrap();
                queue.append(&mut std::mem::take(&mut engines[i].outbox));
            }
        }
    }
    // everyone reached a commit on the same request
    for e in engines.iter() {
        assert!(e.should_commit());
    }
    // the sealed block passes full validation against the chain, with the
    // round leader's bit set
    let (sealed, multisig, multisigmap) = engines[li].sign_and_commit();
    let mut block = sealed;
    block.body.multisig = multisig;
    block.body.multisigmap = multisigmap;
    chain.validate_macro_block(&block, false).unwrap();
    // the followers seal the very same block
    let (other, _, _) = engines[(li + 1) % 3].sign_and_commit();
    assert_eq!(hash_macro_block(&other), hash_macro_block(&block));
}

#[test]
fn engine_rejects_bad_messages() {
    let chain = genesis_chain();
    let random = chain.last_random();
    let mut engine = engine_for(1, random);
    let leader = engine.leader();
    let mut non_leader = 0u64;
    for k in 1..=3u64 {
        if k != leader.val {
            non_leader = k;
            break;
        }
    }
    // a message for another height is out of scope
    let stray = ConsensusMessage::new(
        7,
        0,
        Digest { bits: 0 },
        &Sk { val: 2 },
        &Pk { val: 2 },
        ConsensusMessageBody::Prevote,
    );
    assert_eq!(engine.feed_message(stray), Err(ConsensusError::OutOfScopeMessage));
    // a proposal from a non-leader is rejected
    let block = NodeService::create_macro_block(
        &chain,
        0,
        &Sk { val: non_leader },
        &Pk { val: non_leader },
        777,
    );
    let request_hash = hash_macro_block(&block);
    let bad_proposal = ConsensusMessage::new(
        1,
        0,
        request_hash,
        &Sk { val: non_leader },
        &Pk { val: non_leader },
        ConsensusMessageBody::Proposal { request: block },
    );
    assert_eq!(engine.feed_message(bad_proposal), Err(ConsensusError::ProposalFromNonLeader));
    // a precommit before any proposal is premature
    let early = ConsensusMessage::new(
        1,
        0,
        request_hash,
        &Sk { val: non_leader },
        &Pk { val: non_leader },
        ConsensusMessageBody::Precommit { request_hash_sig: Sig { val: 5 } },
    );
    assert_eq!(engine.feed_message(early), Err(ConsensusError::MissingProposal));
    // a stranger is not a validator
    let stranger = ConsensusMessage::new(
        1,
        0,
        request_hash,
        &Sk { val: 9 },
        &Pk { val: 9 },
        ConsensusMessageBody::Prevote,
    );
    assert_eq!(engine.feed_message(stranger), Err(ConsensusError::UnknownMessageSender));
    // a tampered envelope fails validation at the driver's boundary
    let mut forged = ConsensusMessage::new(
        1,
        0,
        request_hash,
        &Sk { val: 2 },
        &Pk { val: 2 },
        ConsensusMessageBody::Prevote,
    );
    forged.sig = Sig { val: 123 };
    assert_eq!(forged.validate(), Err(ConsensusError::InvalidMessageSignature));
}

fn config() -> ChainConfig {
    ChainConfig {
        blocks_in_epoch: 5,
        block_reward: 0,
        tx_wait_timeout: 1000,
        micro_block_timeout: 1000,
        macro_block_timeout: 1000,
        max_utxo_in_tx: 10,
        max_utxo_in_mempool: 100,
        max_utxo_in_block: 100,
    }
}

fn fresh_node() -> NodeService {
    let mut node = NodeService::new(config(), genesis_chain(), Sk { val: 1 }, Pk { val: 1 });
    node.init(0).unwrap();
    node.outbox = Vec::new();
    node
}

fn unsigned_micro(chain: &Blockchain, leader: u64, ts: u64) -> MicroBlock {
    MicroBlock {
        base: BaseBlockHeader::new(VERSION, chain.last_block_hash(), chain.height(), 0, ts, 7),
        view_change_proof: None,
        coinbase: Coinbase { block_reward: 0 },
        transactions: Vec::new(),
        pkey: Pk { val: leader },
        sig: Sig { val: 0 },
    }
}

#[test]
fn sealed_block_rejections() {
    let mut node = fresh_node();
    let leader = node.chain.leader();

    // a micro block whose leader signature does not verify
    let unsigned = unsigned_micro(&node.chain, leader.val, 10);
    match node.handle_sealed_block(Block::MicroBlock(unsigned), 10) {
        Err(NodeError::Block(BlockError::InvalidLeaderSignature(h, _))) => assert_eq!(h, 1),
        other => panic!("unexpected: {:?}", other),
    }

    // a micro block signed by a stranger
    let mut foreign = unsigned_micro(&node.chain, 9, 11);
    foreign.sign(&Sk { val: 9 }, &Pk { val: 9 });
    match node.handle_sealed_block(Block::MicroBlock(foreign), 11) {
        Err(NodeError::Block(BlockError::LeaderIsNotValidator(_, _))) => {}
        other => panic!("unexpected: {:?}", other),
    }

    // a macro block without a supermajority signature
    let base = BaseBlockHeader::new(VERSION, node.chain.last_block_hash(), 1, 0, 12, 7);
    let unsound = MacroBlock::empty(base, leader);
    match node.handle_sealed_block(Block::MacroBlock(unsound), 12) {
        Err(NodeError::Block(BlockError::InvalidBlockSignature(_, _))) => {}
        other => panic!("unexpected: {:?}", other),
    }

    // a micro block claiming a reward the configuration does not pay
    let mut greedy = unsigned_micro(&node.chain, leader.val, 13);
    greedy.coinbase = Coinbase { block_reward: 5 };
    greedy.sign(&Sk { val: leader.val }, &leader);
    match node.apply_new_block(Block::MicroBlock(greedy), 13) {
        Err(NodeError::Block(BlockError::InvalidBlockReward(_, _, got, want))) => {
            assert_eq!(got, 5);
            assert_eq!(want, 0);
        }
        other => panic!("unexpected: {:?}", other),
    }
}

#[test]
fn fork_rejections() {
    let mut node = fresh_node();
    let leader = node.chain.leader();
    // apply a first block so a height-1 competitor is a fork
    let mut good = unsigned_micro(&node.chain, leader.val, 20);
    good.sign(&Sk { val: leader.val }, &leader);
    node.handle_sealed_block(Block::MicroBlock(good), 20).unwrap();
    assert_eq!(node.chain.height(), 2);
    let genesis_hash = hash_block(node.chain.block_by_height(0));
    let genesis_random = node.chain.block_by_height(0).base_header().random;

    // a competing block whose producer is not its view's leader
    let mut wrong_leader = 0u64;
    for k in 1..=3u64 {
        if k != leader.val {
            wrong_leader = k;
            break;
        }
    }
    let mut imposter = MicroBlock {
        base: BaseBlockHeader::new(VERSION, genesis_hash, 1, 0, 21, genesis_random),
        view_change_proof: None,
        coinbase: Coinbase { block_reward: 0 },
        transactions: Vec::new(),
        pkey: Pk { val: wrong_leader },
        sig: Sig { val: 0 },
    };
    imposter.sign(&Sk { val: wrong_leader }, &Pk { val: wrong_leader });
    match node.handle_sealed_block(Block::MicroBlock(imposter), 21) {
        Err(NodeError::Block(BlockError::DifferentPublicKey(_, _))) => {}
        other => panic!("unexpected: {:?}", other),
    }

    // a competing block at a newer view without the proof of its skip
    let next_leader = stegos_node::election::select_leader(
        node.chain.validators(),
        genesis_random,
        1,
    );
    let mut unproven = MicroBlock {
        base: BaseBlockHeader::new(VERSION, genesis_hash, 1, 1, 22, genesis_random),
        view_change_proof: None,
        coinbase: Coinbase { block_reward: 0 },
        transactions: Vec::new(),
        pkey: next_leader,
        sig: Sig { val: 0 },
    };
    unproven.sign(&Sk { val: next_leader.val }, &next_leader);
    match node.handle_sealed_block(Block::MicroBlock(unproven), 22) {
        Err(NodeError::Block(BlockError::NoProofWasFound(_, _, view, _))) => assert_eq!(view, 1),
        other => panic!("unexpected: {:?}", other),
    }

    // a competing block whose proof does not verify
    let fake_proof = ViewChangeProof {
        multisig: Sig { val: 4 },
        multimap: stegos_node::block::MacroBlock::empty(
            BaseBlockHeader::new(VERSION, Digest { bits: 0 }, 0, 0, 0, 0),
            Pk { val: 1 },
        ).body.multisigmap,
    };
    let mut sham = MicroBlock {
        base: BaseBlockHeader::new(VERSION, genesis_hash, 1, 1, 23, genesis_random),
        view_change_proof: Some(fake_proof),
        coinbase: Coinbase { block_reward: 0 },
        transactions: Vec::new(),
        pkey: next_leader,
        sig: Sig { val: 0 },
    };
    sham.sign(&Sk { val: next_leader.val }, &next_leader);
    match node.handle_sealed_block(Block::MicroBlock(sham), 23) {
        Err(NodeError::Block(BlockError::InvalidViewChangeProof(h))) => assert_eq!(h, 1),
        other => panic!("unexpected: {:?}", other),
    }
    // through it all the local chain never moved
    assert_eq!(node.chain.height(), 2);
}
