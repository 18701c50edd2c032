//! Multi-signature aggregation and view-change proofs on concrete values.

use stegos_node::block::{BaseBlockHeader, MacroBlock};
use stegos_node::chain::Blockchain;
use stegos_node::config::VERSION;
use stegos_node::crypto::{check_hash, make_keys, sign_hash, Digest, Pk, Sig, Sk};
use stegos_node::multisignature::{check_multi_signature, create_multi_signature,
    merge_multi_signature};
use stegos_node::view_change::{validate_view_change_proof, ViewChangeCollector};

fn three_validators() -> Vec<(Pk, i64)> {
    vec![(Pk { val: 1 }, 1), (Pk { val: 2 }, 1), (Pk { val: 3 }, 1)]
}

#[test]
fn signature_round_trip() {
    let (sk, pk) = make_keys(5);
    let h = Digest::digest_u64(42);
    let sig = sign_hash(&h, &sk);
    assert!(check_hash(&h, &sig, &pk));
    let other = Digest::digest_u64(43);
    assert!(!check_hash(&other, &sig, &pk));
}

#[test]
fn multi_signature_round_trip() {
    let validators = three_validators();
    let h = Digest::digest_u64(7);
    let s1 = sign_hash(&h, &Sk { val: 1 });
    let s2 = sign_hash(&h, &Sk { val: 2 });
    let sigs = vec![(Pk { val: 1 }, s1), (Pk { val: 2 }, s2)];
    let (multisig, multisigmap) = create_multi_signature(&validators, &sigs);

    // two of three equal stakes form a supermajority with a signing leader
    assert!(check_multi_signature(&h, &multisig, &multisigmap, &validators, &Pk { val: 1 }, 3));
    assert!(check_multi_signature(&h, &multisig, &multisigmap, &validators, &Pk { val: 2 }, 3));
    // the leader's bit must be set: a non-signer as leader fails
    assert!(!check_multi_signature(&h, &multisig, &multisigmap, &validators, &Pk { val: 3 }, 3));
    // a wrong digest fails the pairing
    let other = Digest::digest_u64(8);
    assert!(!check_multi_signature(&other, &multisig, &multisigmap, &validators, &Pk { val: 1 }, 3));
}

#[test]
fn single_signer_is_no_supermajority() {
    let validators = three_validators();
    let h = Digest::digest_u64(7);
    let s1 = sign_hash(&h, &Sk { val: 1 });
    let sigs = vec![(Pk { val: 1 }, s1)];
    let (multisig, multisigmap) = create_multi_signature(&validators, &sigs);
    assert!(!check_multi_signature(&h, &multisig, &multisigmap, &validators, &Pk { val: 1 }, 3));
}

#[test]
fn merge_folds_a_missing_signer_in() {
    let validators = three_validators();
    let h = Digest::digest_u64(9);
    let s1 = sign_hash(&h, &Sk { val: 1 });
    let s2 = sign_hash(&h, &Sk { val: 2 });
    // a quorum without the leader, and the leader's own signature
    let (mut quorum_sig, mut quorum_map) =
        create_multi_signature(&validators, &vec![(Pk { val: 2 }, s2)]);
    let (leader_sig, leader_map) =
        create_multi_signature(&validators, &vec![(Pk { val: 1 }, s1)]);
    // neither alone verifies with leader 1
    assert!(!check_multi_signature(&h, &quorum_sig, &quorum_map, &validators, &Pk { val: 1 }, 3));
    merge_multi_signature(&mut quorum_sig, &mut quorum_map, &leader_sig, &leader_map);
    // merged, the pair verifies exactly like a jointly created one
    assert!(check_multi_signature(&h, &quorum_sig, &quorum_map, &validators, &Pk { val: 1 }, 3));
    let both = vec![(Pk { val: 1 }, s1), (Pk { val: 2 }, s2)];
    let (joint_sig, joint_map) = create_multi_signature(&validators, &both);
    assert_eq!(quorum_sig.val, joint_sig.val);
    assert!(check_multi_signature(&h, &joint_sig, &joint_map, &validators, &Pk { val: 1 }, 3));
    // merging the same signer again changes nothing
    let before = quorum_sig.val;
    merge_multi_signature(&mut quorum_sig, &mut quorum_map, &leader_sig, &leader_map);
    assert_eq!(quorum_sig.val, before);
}

fn genesis_chain() -> Blockchain {
    let base = BaseBlockHeader::new(VERSION, Digest { bits: 0 }, 0, 0, 0, 12345);
    let genesis = MacroBlock::empty(base, Pk { val: 1 });
    Blockchain::new(genesis, three_validators())
}

#[test]
fn view_change_proof_round_trip() {
    let chain = genesis_chain();
    // the next view's leader must be among the voters, so pick the other
    // two validators around the one silent at view zero
    let next_leader = chain.select_leader(1);
    let mut voters: Vec<u64> = Vec::new();
    let mut k: u64 = 1;
    while k <= 3 {
        if k == next_leader.val || voters.len() == 1 {
            voters.push(k);
        }
        k += 1;
    }
    assert_eq!(voters.len(), 2);
    assert!(voters.contains(&next_leader.val));

    let tip = chain.chain_info();
    let mut collector =
        ViewChangeCollector::new(&chain, Pk { val: voters[0] }, Sk { val: voters[0] });
    let other = ViewChangeCollector::new(&chain, Pk { val: voters[1] }, Sk { val: voters[1] });
    let own_vote = collector.handle_timeout(tip);
    let other_vote = other.handle_timeout(tip);
    let first = collector.handle_message(&chain, own_vote).unwrap();
    assert!(first.is_none());
    let sealed = collector
        .handle_message(&chain, other_vote)
        .unwrap()
        .expect("two of three equal stakes seal the proof");
    assert_eq!(sealed.chain, tip);
    // the sealed proof verifies against the tip it was collected at
    let random = chain.last_random();
    assert!(validate_view_change_proof(&sealed.proof, &sealed.chain, &chain, random));
    // a witness for another tip does not verify
    let mut wrong = sealed.chain;
    wrong.height = wrong.height + 1;
    assert!(!validate_view_change_proof(&sealed.proof, &wrong, &chain, random));
}

#[test]
fn view_change_votes_are_checked() {
    let chain = genesis_chain();
    let tip = chain.chain_info();
    let mut collector = ViewChangeCollector::new(&chain, Pk { val: 1 }, Sk { val: 1 });
    // a stranger's vote is rejected
    let stranger = ViewChangeCollector::new(&chain, Pk { val: 9 }, Sk { val: 9 });
    let bad = stranger.handle_timeout(tip);
    assert!(collector.handle_message(&chain, bad).is_err());
    // a vote about another tip is dropped quietly
    let other = ViewChangeCollector::new(&chain, Pk { val: 2 }, Sk { val: 2 });
    let mut stale_tip = tip;
    stale_tip.view_change = 5;
    let stale = other.handle_timeout(stale_tip);
    assert!(collector.handle_message(&chain, stale).unwrap().is_none());
    // a duplicate vote is a no-op
    let vote = other.handle_timeout(tip);
    assert!(collector.handle_message(&chain, vote).unwrap().is_none());
    assert!(collector.handle_message(&chain, vote).unwrap().is_none());
}
