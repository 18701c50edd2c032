//! Coin selection and wallet transaction builders.

use stegos_node::change::find_utxo;
use stegos_node::config::{DATA_UNIT, ESCROW_FEE, PAYMENT_FEE};
use stegos_node::crypto::{make_keys, Digest};
use stegos_node::error::WalletError;
use stegos_node::tx::{make_account_keys, EscrowOutput, Output, PaymentOutput};
use stegos_node::wallet::{create_payment_transaction, create_staking_transaction,
    create_unstaking_transaction, data_fee};

#[test]
fn test_find_utxo() {
    let mut unspent: Vec<(Digest, i64)> = Vec::new();
    let amounts: [i64; 5] = [100, 50, 10, 2, 1];
    for amount in amounts.iter() {
        let hash = Digest::digest_i64(*amount);
        unspent.push((hash, *amount));
    }

    let fee: i64 = 1;
    let fee_change: i64 = 2 * fee;

    // Without change.
    let (spent, used, change) = find_utxo(&unspent, 49, fee, fee_change).unwrap();
    assert_eq!(spent, vec![Digest::digest_i64(50)]);
    assert_eq!(used, fee);
    assert_eq!(change, 0);

    // Without change.
    let (spent, used, change) = find_utxo(&unspent, 13 - fee, fee, fee_change).unwrap();
    assert_eq!(
        spent,
        vec![
            Digest::digest_i64(1),
            Digest::digest_i64(2),
            Digest::digest_i64(10)
        ]
    );
    assert_eq!(used, fee);
    assert_eq!(change, 0);

    // Without change.
    let (spent, used, change) = find_utxo(&unspent, 163 - fee, fee, fee_change).unwrap();
    assert_eq!(
        spent,
        vec![
            Digest::digest_i64(1),
            Digest::digest_i64(2),
            Digest::digest_i64(10),
            Digest::digest_i64(50),
            Digest::digest_i64(100),
        ]
    );
    assert_eq!(used, fee);
    assert_eq!(change, 0);

    // With change.
    let (spent, used, change) = find_utxo(&unspent, 5, fee, fee_change).unwrap();
    assert_eq!(
        spent,
        vec![
            Digest::digest_i64(1),
            Digest::digest_i64(2),
            Digest::digest_i64(10),
        ]
    );
    assert_eq!(used, fee_change);
    assert_eq!(change, 6);

    // With zero change.
    let (spent, used, change) = find_utxo(&unspent, 161, fee, fee_change).unwrap();
    assert_eq!(
        spent,
        vec![
            Digest::digest_i64(1),
            Digest::digest_i64(2),
            Digest::digest_i64(10),
            Digest::digest_i64(50),
            Digest::digest_i64(100),
        ]
    );
    assert_eq!(used, fee_change);
    assert_eq!(change, 0);

    // NotEnoughMoney
    match find_utxo(&unspent, 164, fee, fee_change) {
        Err(WalletError::NotEnoughMoney) => {}
        _ => panic!(),
    };
}

#[test]
fn unstaking_transactions() {
    assert!(PAYMENT_FEE > 0 && ESCROW_FEE > 0);

    let (skey, pkey) = make_account_keys(7);
    let (_validator_skey, validator_pkey) = make_keys(9);

    let timestamp: u64 = 100_000;
    let stake: i64 = 100;

    // Stake money.
    let escrow = EscrowOutput {
        recipient: pkey,
        validator: validator_pkey,
        timestamp,
        amount: stake,
    };
    let inputs = vec![Output::EscrowOutput(escrow)];
    let unspent: Vec<EscrowOutput> = vec![escrow];

    // Unstake all of the money.
    let tx = create_unstaking_transaction(&skey, &pkey, &validator_pkey, &unspent, stake)
        .expect("tx is created");
    tx.validate(&inputs).expect("tx is valid");
    assert_eq!(tx.body.fee, PAYMENT_FEE);
    assert_eq!(tx.body.txouts.len(), 1);
    match &tx.body.txouts[0] {
        Output::PaymentOutput(o) => {
            let (_, _, amount) = o.decrypt_payload(&skey).expect("key is valid");
            assert_eq!(amount, stake - PAYMENT_FEE);
        }
        _ => panic!("invalid tx"),
    }

    // Unstake part of the money.
    let unstake = stake / 2;
    let tx = create_unstaking_transaction(&skey, &pkey, &validator_pkey, &unspent, unstake)
        .expect("tx is created");
    tx.validate(&inputs).expect("tx is valid");
    assert_eq!(tx.body.fee, PAYMENT_FEE + ESCROW_FEE);
    assert_eq!(tx.body.txouts.len(), 2);
    match &tx.body.txouts[0] {
        Output::PaymentOutput(o) => {
            let (_, _, amount) = o.decrypt_payload(&skey).expect("key is valid");
            assert_eq!(amount, unstake - PAYMENT_FEE);
        }
        _ => panic!("invalid tx"),
    }
    match &tx.body.txouts[1] {
        Output::EscrowOutput(o) => {
            assert_eq!(o.amount, stake - unstake - ESCROW_FEE);
        }
        _ => panic!("invalid tx"),
    }

    // Try to unstake less than PAYMENT_FEE.
    let e = create_unstaking_transaction(&skey, &pkey, &validator_pkey, &unspent, PAYMENT_FEE - 1)
        .unwrap_err();
    match e {
        WalletError::ZeroOrNegativeAmount => {}
        _ => panic!(),
    }

    // Try to unstake PAYMENT_FEE.
    let e = create_unstaking_transaction(&skey, &pkey, &validator_pkey, &unspent, PAYMENT_FEE)
        .unwrap_err();
    match e {
        WalletError::ZeroOrNegativeAmount => {}
        _ => panic!(),
    }

    // Try to re-stake zero.
    let unstake = stake - ESCROW_FEE;
    let e = create_unstaking_transaction(&skey, &pkey, &validator_pkey, &unspent, unstake)
        .unwrap_err();
    match e {
        WalletError::InsufficientStake(min, got) => {
            assert_eq!(min, PAYMENT_FEE + 1);
            assert_eq!(got, 0);
        }
        _ => panic!(),
    }

    // Try to re-stake PAYMENT_FEE.
    let unstake = stake - PAYMENT_FEE - ESCROW_FEE;
    let e = create_unstaking_transaction(&skey, &pkey, &validator_pkey, &unspent, unstake)
        .unwrap_err();
    match e {
        WalletError::InsufficientStake(min, got) => {
            assert_eq!(min, PAYMENT_FEE + 1);
            assert_eq!(got, PAYMENT_FEE);
        }
        _ => panic!(),
    }
}

#[test]
fn payment_transaction_balances() {
    let (skey, pkey) = make_account_keys(11);
    let (_rskey, recipient) = make_account_keys(12);
    let o1 = PaymentOutput { recipient: pkey, timestamp: 5, amount: 40, gamma: 17 };
    let o2 = PaymentOutput { recipient: pkey, timestamp: 6, amount: 80, gamma: 23 };
    let unspent: Vec<(PaymentOutput, i64)> = vec![(o1, 40), (o2, 80)];

    // amount 50 cannot be covered exactly: the change-bearing fee applies
    let tx = create_payment_transaction(&skey, &pkey, &recipient, &unspent, 50).unwrap();
    // greedy over [40, 80]: 40 + 80 = 120 covers 50 + 2; change = 68
    assert_eq!(tx.body.fee, 2 * PAYMENT_FEE);
    assert_eq!(tx.body.txouts.len(), 2);
    match &tx.body.txouts[0] {
        Output::PaymentOutput(o) => {
            assert_eq!(o.amount, 50);
            assert_eq!(o.recipient, recipient);
        }
        _ => panic!(),
    }
    match &tx.body.txouts[1] {
        Output::PaymentOutput(o) => {
            assert_eq!(o.amount, 120 - 50 - 2 * PAYMENT_FEE);
            assert_eq!(o.recipient, pkey);
        }
        _ => panic!(),
    }
    // the built transaction validates against the outputs it spends
    let inputs = vec![Output::PaymentOutput(o1), Output::PaymentOutput(o2)];
    tx.validate(&inputs).expect("tx is valid");

    // a zero amount is rejected
    match create_payment_transaction(&skey, &pkey, &recipient, &unspent, 0) {
        Err(WalletError::ZeroOrNegativeAmount) => {}
        _ => panic!(),
    }
    // an amount beyond all funds is rejected
    match create_payment_transaction(&skey, &pkey, &recipient, &unspent, 1000) {
        Err(WalletError::NotEnoughMoney) => {}
        _ => panic!(),
    }
}

#[test]
fn staking_transaction_thresholds() {
    let (skey, pkey) = make_account_keys(21);
    let (_vskey, vpkey) = make_keys(22);
    let o1 = PaymentOutput { recipient: pkey, timestamp: 5, amount: 100, gamma: 3 };
    let unspent: Vec<(PaymentOutput, i64)> = vec![(o1, 100)];

    // a stake at the payment fee is too small
    match create_staking_transaction(&skey, &pkey, &vpkey, &unspent, PAYMENT_FEE) {
        Err(WalletError::InsufficientStake(min, got)) => {
            assert_eq!(min, PAYMENT_FEE + 1);
            assert_eq!(got, PAYMENT_FEE);
        }
        _ => panic!(),
    }
    // a proper stake binds the amount to the validator
    let tx = create_staking_transaction(&skey, &pkey, &vpkey, &unspent, 50).unwrap();
    match &tx.body.txouts[0] {
        Output::EscrowOutput(o) => {
            assert_eq!(o.amount, 50);
            assert_eq!(o.validator, vpkey);
        }
        _ => panic!(),
    }
}

#[test]
fn data_fee_formula() {
    // one unit for one period
    assert_eq!(data_fee(1, 1), 1);
    assert_eq!(data_fee(DATA_UNIT, 1), 1);
    // a started second unit is billed whole
    assert_eq!(data_fee(DATA_UNIT + 1, 1), 2);
    // periods multiply
    assert_eq!(data_fee(DATA_UNIT + 1, 3), 6);
}
