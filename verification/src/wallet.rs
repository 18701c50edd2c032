//! The wallet's transaction builders.
//!
//! Each builder selects unspent outputs with `find_utxo`, creates the
//! payment, data or escrow outputs plus a change output when the selection
//! overshoots, and signs the transaction.  The current time stamps the new
//! outputs; everything else is a pure function of the arguments.

use vstd::prelude::*;
use crate::change::{find_utxo, find_utxo_ok, find_utxo_err, amounts_of, sort_asc, greedy_take,
    sum_of, find_amount, nonneg};
use crate::config::{DATA_UNIT, DATA_UNIT_FEE, ESCROW_FEE, PAYMENT_FEE};
use crate::crypto::{spec_mix, spec_check_hash, Digest, Pk};
use crate::error::WalletError;
use crate::tx::{AccountPk, AccountSk, EscrowOutput, Output, PaymentOutput, Transaction,
    spec_mix_bytes, spec_hash_tx_body, outputs_hashes};

verus! {

/// Relies on chrono's conversion from the system clock: the current
/// wall-clock time in seconds since the epoch.  Nothing is promised of the
/// value; callers treat it as arbitrary.  The conversion handles a clock
/// before the epoch without panicking; only a clock beyond chrono's
/// representable years would still abort.
#[verifier::external_body]
fn now_timestamp() -> i64 {
    chrono::DateTime::<chrono::Utc>::from(std::time::SystemTime::now()).timestamp()
}

/// Fee for keeping `size` bytes of data alive for `ttl` periods: one unit
/// fee per started data unit and period.
pub open spec fn spec_data_fee(size: int, ttl: int) -> int {
    let units = size / (DATA_UNIT as int) + if size % (DATA_UNIT as int) == 0 {
        0int
    } else {
        1int
    };
    units * ttl * DATA_UNIT_FEE
}

/// Calculate the fee for a data transaction.
pub fn data_fee(size: usize, ttl: u64) -> (r: i64)
    requires
        size > 0,
        spec_data_fee(size as int, ttl as int) <= i64::MAX,
    ensures
        r == spec_data_fee(size as int, ttl as int),
        r >= 0,
{
    let units: usize = (size / DATA_UNIT) + (if size % DATA_UNIT == 0 { 0 } else { 1 });
    proof {
        assert(units * ttl * DATA_UNIT_FEE <= i64::MAX);
        vstd::arithmetic::mul::lemma_mul_nonnegative(units as int, ttl as int);
        vstd::arithmetic::mul::lemma_mul_nonnegative((units * ttl) as int, DATA_UNIT_FEE as int);
    }
    let wide: i128 = (units as i128) * (ttl as i128) * (DATA_UNIT_FEE as i128);
    wide as i64
}

/// The fee actually charged and the change returned for a selection over
/// `u` covering `sum`: the low fee with no change when a single output or
/// the greedy cover lands exactly, else the change-bearing fee with the
/// overshoot.
pub open spec fn fee_and_change<T>(u: Seq<(T, i64)>, sum: int, fee: int, fee_change: int) -> (
    int,
    int,
) {
    let t1 = sum + fee;
    let srt = sort_asc(amounts_of(u));
    if find_amount(u, t1) >= 0 {
        (fee, 0int)
    } else if sum_of(srt.take(greedy_take(srt, t1))) == t1 {
        (fee, 0int)
    } else {
        let t2 = sum + fee_change;
        (fee_change, sum_of(srt.take(greedy_take(srt, t2))) - t2)
    }
}

/// A payment output created by a builder.
pub open spec fn built_payment(skey: AccountSk, to: AccountPk, amount: i64, ts: u64) -> Output {
    Output::PaymentOutput(
        PaymentOutput {
            recipient: to,
            timestamp: ts,
            amount,
            gamma: spec_mix(spec_mix(skey.val, ts), amount as u64),
        },
    )
}

/// What a successful payment build guarantees: the fee and change follow
/// the selection rule, the first output pays the recipient the requested
/// amount, a second output returns positive change to the sender, the
/// inputs are the digests of selected unspent outputs, and the signature
/// opens under the sender's key.
pub open spec fn payment_tx_ok(
    skey: AccountSk,
    sender: AccountPk,
    recipient: AccountPk,
    u: Seq<(PaymentOutput, i64)>,
    amount: int,
    ts: u64,
    tx: Transaction,
) -> bool {
    let fc = fee_and_change(u, amount, PAYMENT_FEE as int, 2 * PAYMENT_FEE as int);
    &&& tx.body.fee == fc.0
    &&& tx.body.txouts@ == if fc.1 > 0 {
        seq![
            built_payment(skey, recipient, amount as i64, ts),
            built_payment(skey, sender, fc.1 as i64, ts),
        ]
    } else {
        seq![built_payment(skey, recipient, amount as i64, ts)]
    }
    &&& (exists|spent: Seq<PaymentOutput>|
        #[trigger] find_utxo_ok(u, amount, PAYMENT_FEE as int, 2 * PAYMENT_FEE as int, spent, fc.0, fc.1)
            && tx.body.txins@ == outputs_hashes(
            spent.map_values(|p: PaymentOutput| Output::PaymentOutput(p)),
        ))
    &&& tx.pkey == skey.spec_pk()
    &&& spec_check_hash(spec_hash_tx_body(tx.body), tx.sig, Pk { val: skey.val })
}

/// When a payment build fails, and how: a non-positive amount is rejected,
/// and a selection shortfall surfaces as not enough money.
pub open spec fn payment_tx_err(
    u: Seq<(PaymentOutput, i64)>,
    amount: int,
    e: WalletError,
) -> bool {
    if amount <= 0 {
        e == WalletError::ZeroOrNegativeAmount
    } else {
        e == WalletError::NotEnoughMoney && find_utxo_err(
            u,
            amount,
            PAYMENT_FEE as int,
            2 * PAYMENT_FEE as int,
        )
    }
}

/// Map selected payment outputs into transaction inputs.
#[verifier::loop_isolation(false)]
fn payments_to_outputs(spent: &Vec<PaymentOutput>) -> (r: Vec<Output>)
    ensures
        r@ == spent@.map_values(|p: PaymentOutput| Output::PaymentOutput(p)),
{
    let mut r: Vec<Output> = Vec::new();
    let mut i: usize = 0;
    proof {
        assert(r@ =~= spent@.map_values(|p: PaymentOutput| Output::PaymentOutput(p)).take(0));
    }
    while i < spent.len()
        invariant
            0 <= i <= spent@.len(),
            r@ == spent@.map_values(|p: PaymentOutput| Output::PaymentOutput(p)).take(i as int),
        decreases spent@.len() - i,
    {
        r.push(Output::PaymentOutput(spent[i]));
        proof {
            assert(r@ =~= spent@.map_values(|p: PaymentOutput| Output::PaymentOutput(p)).take(
                i + 1,
            ));
        }
        i += 1;
    }
    proof {
        let m = spent@.map_values(|p: PaymentOutput| Output::PaymentOutput(p));
        assert(m.take(m.len() as int) =~= m);
    }
    r
}

/// Map selected escrow outputs into transaction inputs.
#[verifier::loop_isolation(false)]
fn escrows_to_outputs(spent: &Vec<EscrowOutput>) -> (r: Vec<Output>)
    ensures
        r@ == spent@.map_values(|p: EscrowOutput| Output::EscrowOutput(p)),
{
    let mut r: Vec<Output> = Vec::new();
    let mut i: usize = 0;
    proof {
        assert(r@ =~= spent@.map_values(|p: EscrowOutput| Output::EscrowOutput(p)).take(0));
    }
    while i < spent.len()
        invariant
            0 <= i <= spent@.len(),
            r@ == spent@.map_values(|p: EscrowOutput| Output::EscrowOutput(p)).take(i as int),
        decreases spent@.len() - i,
    {
        r.push(Output::EscrowOutput(spent[i]));
        proof {
            assert(r@ =~= spent@.map_values(|p: EscrowOutput| Output::EscrowOutput(p)).take(
                i + 1,
            ));
        }
        i += 1;
    }
    proof {
        let m = spent@.map_values(|p: EscrowOutput| Output::EscrowOutput(p));
        assert(m.take(m.len() as int) =~= m);
    }
    r
}

/// Create a payment transaction at a given time.
pub fn create_payment_transaction_with_timestamp(
    sender_skey: &AccountSk,
    sender_pkey: &AccountPk,
    recipient: &AccountPk,
    unspent: &Vec<(PaymentOutput, i64)>,
    amount: i64,
    timestamp: u64,
) -> (r: Result<Transaction, WalletError>)
    requires
        nonneg(amounts_of(unspent@)),
        sum_of(amounts_of(unspent@)) <= i64::MAX,
        amount <= i64::MAX - 2 * PAYMENT_FEE,
    ensures
        match r {
            Ok(tx) => amount > 0 && payment_tx_ok(
                *sender_skey,
                *sender_pkey,
                *recipient,
                unspent@,
                amount as int,
                timestamp,
                tx,
            ),
            Err(e) => payment_tx_err(unspent@, amount as int, e),
        },
{
    if amount <= 0 {
        return Err(WalletError::ZeroOrNegativeAmount);
    }
    let fee = PAYMENT_FEE;
    let fee_change = fee + PAYMENT_FEE;
    let (spent, fee, change) = match find_utxo(unspent, amount, fee, fee_change) {
        Ok(v) => v,
        Err(e) => {
            return Err(e);
        },
    };
    let inputs = payments_to_outputs(&spent);
    let mut outputs: Vec<Output> = Vec::new();
    let (output1, gamma1) = match Output::new_payment(timestamp, sender_skey, recipient, amount) {
        Ok(v) => v,
        Err(e) => {
            proof {
                assert(false);
            }
            return Err(e);
        },
    };
    outputs.push(output1);
    let mut gamma = gamma1;
    if change > 0 {
        let (output2, gamma2) = match Output::new_payment(
            timestamp,
            sender_skey,
            sender_pkey,
            change,
        ) {
            Ok(v) => v,
            Err(e) => {
                proof {
                    assert(false);
                }
                return Err(e);
            },
        };
        outputs.push(output2);
        let s = crate::crypto::sig_add(
            &crate::crypto::Sig { val: gamma },
            &crate::crypto::Sig { val: gamma2 },
        );
        gamma = s.val;
    }
    let tx = match Transaction::new(sender_skey, &inputs, &outputs, gamma, fee) {
        Ok(tx) => tx,
        Err(e) => {
            proof {
                assert(false);
            }
            return Err(e);
        },
    };
    proof {
        if change > 0 {
            assert(outputs@ =~= seq![
                built_payment(*sender_skey, *recipient, amount, timestamp),
                built_payment(*sender_skey, *sender_pkey, change, timestamp),
            ]);
        } else {
            assert(outputs@ =~= seq![built_payment(*sender_skey, *recipient, amount, timestamp)]);
        }
        assert(find_utxo_ok(
            unspent@,
            amount as int,
            PAYMENT_FEE as int,
            2 * PAYMENT_FEE as int,
            spent@,
            fee as int,
            change as int,
        ));
        assert(tx.body.txins@ == outputs_hashes(
            spent@.map_values(|p: PaymentOutput| Output::PaymentOutput(p)),
        ));
        assert(payment_tx_ok(
            *sender_skey,
            *sender_pkey,
            *recipient,
            unspent@,
            amount as int,
            timestamp,
            tx,
        ));
    }
    Ok(tx)
}

/// Create a payment transaction stamped with the current time.
pub fn create_payment_transaction(
    sender_skey: &AccountSk,
    sender_pkey: &AccountPk,
    recipient: &AccountPk,
    unspent: &Vec<(PaymentOutput, i64)>,
    amount: i64,
) -> (r: Result<Transaction, WalletError>)
    requires
        nonneg(amounts_of(unspent@)),
        sum_of(amounts_of(unspent@)) <= i64::MAX,
        amount <= i64::MAX - 2 * PAYMENT_FEE,
    ensures
        match r {
            Ok(tx) => amount > 0 && exists|ts: u64|
                payment_tx_ok(
                    *sender_skey,
                    *sender_pkey,
                    *recipient,
                    unspent@,
                    amount as int,
                    ts,
                    tx,
                ),
            Err(e) => payment_tx_err(unspent@, amount as int, e),
        },
{
    let now = now_timestamp();
    let ts = now as u64;
    create_payment_transaction_with_timestamp(
        sender_skey,
        sender_pkey,
        recipient,
        unspent,
        amount,
        ts,
    )
}

/// A data output created by a builder.
pub open spec fn built_data(to: AccountPk, ttl: u64, data: Seq<u8>, ts: u64) -> Output {
    Output::DataOutput(
        crate::tx::DataOutput {
            recipient: to,
            timestamp: ts,
            ttl,
            data_hash: Digest { bits: spec_mix_bytes(0, data) },
            data_len: data.len() as u64,
        },
    )
}

/// What a successful data build guarantees: the fee covers the payload for
/// its lifetime, the first output carries the payload's digest, and change
/// returns to the sender.
pub open spec fn data_tx_ok(
    skey: AccountSk,
    sender: AccountPk,
    recipient: AccountPk,
    u: Seq<(PaymentOutput, i64)>,
    ttl: u64,
    data: Seq<u8>,
    ts: u64,
    tx: Transaction,
) -> bool {
    let dfee = spec_data_fee(data.len() as int, ttl as int);
    let fc = fee_and_change(u, 0, dfee, dfee + PAYMENT_FEE);
    &&& tx.body.fee == fc.0
    &&& tx.body.txouts@ == if fc.1 > 0 {
        seq![built_data(recipient, ttl, data, ts), built_payment(skey, sender, fc.1 as i64, ts)]
    } else {
        seq![built_data(recipient, ttl, data, ts)]
    }
    &&& (exists|spent: Seq<PaymentOutput>|
        #[trigger] find_utxo_ok(u, 0, dfee, dfee + PAYMENT_FEE, spent, fc.0, fc.1)
            && tx.body.txins@ == outputs_hashes(
            spent.map_values(|p: PaymentOutput| Output::PaymentOutput(p)),
        ))
    &&& tx.pkey == skey.spec_pk()
    &&& spec_check_hash(spec_hash_tx_body(tx.body), tx.sig, Pk { val: skey.val })
}

/// Create a data transaction at a given time.
pub fn create_data_transaction_with_timestamp(
    sender_skey: &AccountSk,
    sender_pkey: &AccountPk,
    recipient: &AccountPk,
    unspent: &Vec<(PaymentOutput, i64)>,
    ttl: u64,
    data: Vec<u8>,
    timestamp: u64,
) -> (r: Result<Transaction, WalletError>)
    requires
        nonneg(amounts_of(unspent@)),
        sum_of(amounts_of(unspent@)) <= i64::MAX,
        data@.len() > 0,
        data@.len() <= u64::MAX,
        spec_data_fee(data@.len() as int, ttl as int) <= i64::MAX - PAYMENT_FEE,
    ensures
        match r {
            Ok(tx) => data_tx_ok(
                *sender_skey,
                *sender_pkey,
                *recipient,
                unspent@,
                ttl,
                data@,
                timestamp,
                tx,
            ),
            Err(e) => e == WalletError::NotEnoughMoney && find_utxo_err(
                unspent@,
                0,
                spec_data_fee(data@.len() as int, ttl as int),
                spec_data_fee(data@.len() as int, ttl as int) + PAYMENT_FEE,
            ),
        },
{
    let fee = data_fee(data.len(), ttl);
    let fee_change = fee + PAYMENT_FEE;
    let (spent, fee, change) = match find_utxo(unspent, 0, fee, fee_change) {
        Ok(v) => v,
        Err(e) => {
            return Err(e);
        },
    };
    let inputs = payments_to_outputs(&spent);
    let mut outputs: Vec<Output> = Vec::new();
    let (output1, gamma1) = match Output::new_data(timestamp, sender_skey, recipient, ttl, &data) {
        Ok(v) => v,
        Err(e) => {
            proof {
                assert(false);
            }
            return Err(e);
        },
    };
    outputs.push(output1);
    let mut gamma = gamma1;
    if change > 0 {
        let (output2, gamma2) = match Output::new_payment(
            timestamp,
            sender_skey,
            sender_pkey,
            change,
        ) {
            Ok(v) => v,
            Err(e) => {
                proof {
                    assert(false);
                }
                return Err(e);
            },
        };
        outputs.push(output2);
        let s = crate::crypto::sig_add(
            &crate::crypto::Sig { val: gamma },
            &crate::crypto::Sig { val: gamma2 },
        );
        gamma = s.val;
    }
    let tx = match Transaction::new(sender_skey, &inputs, &outputs, gamma, fee) {
        Ok(tx) => tx,
        Err(e) => {
            proof {
                assert(false);
            }
            return Err(e);
        },
    };
    proof {
        if change > 0 {
            assert(outputs@ =~= seq![
                built_data(*recipient, ttl, data@, timestamp),
                built_payment(*sender_skey, *sender_pkey, change, timestamp),
            ]);
        } else {
            assert(outputs@ =~= seq![built_data(*recipient, ttl, data@, timestamp)]);
        }
        assert(find_utxo_ok(
            unspent@,
            0,
            spec_data_fee(data@.len() as int, ttl as int),
            spec_data_fee(data@.len() as int, ttl as int) + PAYMENT_FEE,
            spent@,
            fee as int,
            change as int,
        ));
        assert(tx.body.txins@ == outputs_hashes(
            spent@.map_values(|p: PaymentOutput| Output::PaymentOutput(p)),
        ));
        assert(data_tx_ok(
            *sender_skey,
            *sender_pkey,
            *recipient,
            unspent@,
            ttl,
            data@,
            timestamp,
            tx,
        ));
    }
    Ok(tx)
}

/// Create a data transaction stamped with the current time.
pub fn create_data_transaction(
    sender_skey: &AccountSk,
    sender_pkey: &AccountPk,
    recipient: &AccountPk,
    unspent: &Vec<(PaymentOutput, i64)>,
    ttl: u64,
    data: Vec<u8>,
) -> (r: Result<Transaction, WalletError>)
    requires
        nonneg(amounts_of(unspent@)),
        sum_of(amounts_of(unspent@)) <= i64::MAX,
        data@.len() > 0,
        data@.len() <= u64::MAX,
        spec_data_fee(data@.len() as int, ttl as int) <= i64::MAX - PAYMENT_FEE,
    ensures
        match r {
            Ok(tx) => exists|ts: u64|
                data_tx_ok(
                    *sender_skey,
                    *sender_pkey,
                    *recipient,
                    unspent@,
                    ttl,
                    data@,
                    ts,
                    tx,
                ),
            Err(e) => e == WalletError::NotEnoughMoney && find_utxo_err(
                unspent@,
                0,
                spec_data_fee(data@.len() as int, ttl as int),
                spec_data_fee(data@.len() as int, ttl as int) + PAYMENT_FEE,
            ),
        },
{
    let now = now_timestamp();
    let ts = now as u64;
    create_data_transaction_with_timestamp(
        sender_skey,
        sender_pkey,
        recipient,
        unspent,
        ttl,
        data,
        ts,
    )
}

/// An escrow output created by a builder.
pub open spec fn built_escrow(to: AccountPk, validator: Pk, amount: i64, ts: u64) -> Output {
    Output::EscrowOutput(
        EscrowOutput { recipient: to, validator, timestamp: ts, amount },
    )
}

/// What a successful staking build guarantees: the escrow output binds the
/// amount to the validator, and change returns to the sender.
pub open spec fn staking_tx_ok(
    skey: AccountSk,
    sender: AccountPk,
    validator: Pk,
    u: Seq<(PaymentOutput, i64)>,
    amount: int,
    ts: u64,
    tx: Transaction,
) -> bool {
    let fc = fee_and_change(u, amount, ESCROW_FEE as int, (ESCROW_FEE + PAYMENT_FEE) as int);
    &&& tx.body.fee == fc.0
    &&& tx.body.txouts@ == if fc.1 > 0 {
        seq![
            built_escrow(sender, validator, amount as i64, ts),
            built_payment(skey, sender, fc.1 as i64, ts),
        ]
    } else {
        seq![built_escrow(sender, validator, amount as i64, ts)]
    }
    &&& (exists|spent: Seq<PaymentOutput>|
        #[trigger] find_utxo_ok(
            u,
            amount,
            ESCROW_FEE as int,
            (ESCROW_FEE + PAYMENT_FEE) as int,
            spent,
            fc.0,
            fc.1,
        ) && tx.body.txins@ == outputs_hashes(
            spent.map_values(|p: PaymentOutput| Output::PaymentOutput(p)),
        ))
    &&& tx.pkey == skey.spec_pk()
    &&& spec_check_hash(spec_hash_tx_body(tx.body), tx.sig, Pk { val: skey.val })
}

/// When a staking build fails, and how: the stake must exceed the payment
/// fee, and a selection shortfall surfaces as not enough money.
pub open spec fn staking_tx_err(u: Seq<(PaymentOutput, i64)>, amount: int, e: WalletError) -> bool {
    if amount <= 0 {
        e == WalletError::ZeroOrNegativeAmount
    } else if amount <= PAYMENT_FEE {
        e == WalletError::InsufficientStake((PAYMENT_FEE + 1) as i64, amount as i64)
    } else {
        e == WalletError::NotEnoughMoney && find_utxo_err(
            u,
            amount,
            ESCROW_FEE as int,
            (ESCROW_FEE + PAYMENT_FEE) as int,
        )
    }
}

/// Create a staking transaction at a given time.
pub fn create_staking_transaction_with_timestamp(
    sender_skey: &AccountSk,
    sender_pkey: &AccountPk,
    validator_pkey: &Pk,
    unspent: &Vec<(PaymentOutput, i64)>,
    amount: i64,
    timestamp: u64,
) -> (r: Result<Transaction, WalletError>)
    requires
        nonneg(amounts_of(unspent@)),
        sum_of(amounts_of(unspent@)) <= i64::MAX,
        amount <= i64::MAX - ESCROW_FEE - PAYMENT_FEE,
    ensures
        match r {
            Ok(tx) => amount > PAYMENT_FEE && staking_tx_ok(
                *sender_skey,
                *sender_pkey,
                *validator_pkey,
                unspent@,
                amount as int,
                timestamp,
                tx,
            ),
            Err(e) => staking_tx_err(unspent@, amount as int, e),
        },
{
    if amount <= 0 {
        return Err(WalletError::ZeroOrNegativeAmount);
    }
    if amount <= PAYMENT_FEE {
        // the stake must stay above the payment fee
        return Err(WalletError::InsufficientStake(PAYMENT_FEE + 1, amount));
    }
    let fee = ESCROW_FEE;
    let fee_change = fee + PAYMENT_FEE;
    let (spent, fee, change) = match find_utxo(unspent, amount, fee, fee_change) {
        Ok(v) => v,
        Err(e) => {
            return Err(e);
        },
    };
    let inputs = payments_to_outputs(&spent);
    let mut outputs: Vec<Output> = Vec::new();
    let output1 = match Output::new_escrow(
        timestamp,
        sender_skey,
        sender_pkey,
        validator_pkey,
        amount,
    ) {
        Ok(v) => v,
        Err(e) => {
            proof {
                assert(false);
            }
            return Err(e);
        },
    };
    outputs.push(output1);
    let mut gamma: u64 = 0;
    if change > 0 {
        let (output2, gamma2) = match Output::new_payment(
            timestamp,
            sender_skey,
            sender_pkey,
            change,
        ) {
            Ok(v) => v,
            Err(e) => {
                proof {
                    assert(false);
                }
                return Err(e);
            },
        };
        outputs.push(output2);
        let s = crate::crypto::sig_add(
            &crate::crypto::Sig { val: gamma },
            &crate::crypto::Sig { val: gamma2 },
        );
        gamma = s.val;
    }
    let tx = match Transaction::new(sender_skey, &inputs, &outputs, gamma, fee) {
        Ok(tx) => tx,
        Err(e) => {
            proof {
                assert(false);
            }
            return Err(e);
        },
    };
    proof {
        if change > 0 {
            assert(outputs@ =~= seq![
                built_escrow(*sender_pkey, *validator_pkey, amount, timestamp),
                built_payment(*sender_skey, *sender_pkey, change, timestamp),
            ]);
        } else {
            assert(outputs@ =~= seq![
                built_escrow(*sender_pkey, *validator_pkey, amount, timestamp),
            ]);
        }
        assert(find_utxo_ok(
            unspent@,
            amount as int,
            ESCROW_FEE as int,
            (ESCROW_FEE + PAYMENT_FEE) as int,
            spent@,
            fee as int,
            change as int,
        ));
        assert(tx.body.txins@ == outputs_hashes(
            spent@.map_values(|p: PaymentOutput| Output::PaymentOutput(p)),
        ));
        assert(staking_tx_ok(
            *sender_skey,
            *sender_pkey,
            *validator_pkey,
            unspent@,
            amount as int,
            timestamp,
            tx,
        ));
    }
    Ok(tx)
}

/// Create a staking transaction stamped with the current time.
pub fn create_staking_transaction(
    sender_skey: &AccountSk,
    sender_pkey: &AccountPk,
    validator_pkey: &Pk,
    unspent: &Vec<(PaymentOutput, i64)>,
    amount: i64,
) -> (r: Result<Transaction, WalletError>)
    requires
        nonneg(amounts_of(unspent@)),
        sum_of(amounts_of(unspent@)) <= i64::MAX,
        amount <= i64::MAX - ESCROW_FEE - PAYMENT_FEE,
    ensures
        match r {
            Ok(tx) => amount > PAYMENT_FEE && exists|ts: u64|
                staking_tx_ok(
                    *sender_skey,
                    *sender_pkey,
                    *validator_pkey,
                    unspent@,
                    amount as int,
                    ts,
                    tx,
                ),
            Err(e) => staking_tx_err(unspent@, amount as int, e),
        },
{
    let now = now_timestamp();
    let ts = now as u64;
    create_staking_transaction_with_timestamp(
        sender_skey,
        sender_pkey,
        validator_pkey,
        unspent,
        amount,
        ts,
    )
}

/// What a successful unstaking build guarantees: the payment output returns
/// the unstaked amount minus the payment fee to the sender, and any change
/// is staked back to the validator.
pub open spec fn unstaking_tx_ok(
    skey: AccountSk,
    sender: AccountPk,
    validator: Pk,
    u: Seq<(EscrowOutput, i64)>,
    amount: int,
    ts: u64,
    tx: Transaction,
) -> bool {
    let amount2 = amount - PAYMENT_FEE;
    let fc = fee_and_change(u, amount2, PAYMENT_FEE as int, (PAYMENT_FEE + ESCROW_FEE) as int);
    &&& tx.body.fee == fc.0
    &&& tx.body.txouts@ == if fc.1 > 0 {
        seq![
            built_payment(skey, sender, amount2 as i64, ts),
            built_escrow(sender, validator, fc.1 as i64, ts),
        ]
    } else {
        seq![built_payment(skey, sender, amount2 as i64, ts)]
    }
    &&& (exists|spent: Seq<EscrowOutput>|
        #[trigger] find_utxo_ok(
            u,
            amount2,
            PAYMENT_FEE as int,
            (PAYMENT_FEE + ESCROW_FEE) as int,
            spent,
            fc.0,
            fc.1,
        ) && tx.body.txins@ == outputs_hashes(
            spent.map_values(|p: EscrowOutput| Output::EscrowOutput(p)),
        ))
    // the stake left behind, when any, stays above the payment fee
    &&& (fc.0 == PAYMENT_FEE || fc.1 > PAYMENT_FEE)
    &&& tx.pkey == skey.spec_pk()
    &&& spec_check_hash(spec_hash_tx_body(tx.body), tx.sig, Pk { val: skey.val })
}

/// When an unstaking build fails, and how: the amount must exceed the
/// payment fee; a stake left behind at or below the payment fee is
/// insufficient; and a selection shortfall surfaces as not enough money.
pub open spec fn unstaking_tx_err(u: Seq<(EscrowOutput, i64)>, amount: int, e: WalletError) -> bool {
    let amount2 = amount - PAYMENT_FEE;
    let fc = fee_and_change(u, amount2, PAYMENT_FEE as int, (PAYMENT_FEE + ESCROW_FEE) as int);
    if amount <= PAYMENT_FEE {
        e == WalletError::ZeroOrNegativeAmount
    } else if find_utxo_err(u, amount2, PAYMENT_FEE as int, (PAYMENT_FEE + ESCROW_FEE) as int) {
        e == WalletError::NotEnoughMoney
    } else {
        e == WalletError::InsufficientStake((PAYMENT_FEE + 1) as i64, fc.1 as i64) && fc.0 > PAYMENT_FEE
            && fc.1 <= PAYMENT_FEE
    }
}

/// Create an unstaking transaction at a given time.  The amount includes
/// the payment fee.
#[verifier::rlimit(60)]
#[verifier::spinoff_prover]
pub fn create_unstaking_transaction_with_timestamp(
    sender_skey: &AccountSk,
    sender_pkey: &AccountPk,
    validator_pkey: &Pk,
    unspent: &Vec<EscrowOutput>,
    amount: i64,
    timestamp: u64,
) -> (r: Result<Transaction, WalletError>)
    requires
        forall|i: int| 0 <= i < unspent@.len() ==> (#[trigger] unspent@[i]).amount >= 0,
        sum_of(amounts_of(unspent@.map_values(|o: EscrowOutput| (o, o.amount)))) <= i64::MAX,
        amount <= i64::MAX - ESCROW_FEE,
    ensures
        ({
            let pairs = unspent@.map_values(|o: EscrowOutput| (o, o.amount));
            match r {
                Ok(tx) => amount > PAYMENT_FEE && unstaking_tx_ok(
                    *sender_skey,
                    *sender_pkey,
                    *validator_pkey,
                    pairs,
                    amount as int,
                    timestamp,
                    tx,
                ),
                Err(e) => unstaking_tx_err(pairs, amount as int, e),
            }
        }),
{
    if amount <= PAYMENT_FEE {
        return Err(WalletError::ZeroOrNegativeAmount);
    }
    let ghost pairs_spec = unspent@.map_values(|o: EscrowOutput| (o, o.amount));
    let mut pairs: Vec<(EscrowOutput, i64)> = Vec::new();
    let mut i: usize = 0;
    proof {
        assert(pairs@ =~= pairs_spec.take(0));
    }
    #[verifier::loop_isolation(false)]
    while i < unspent.len()
        invariant
            0 <= i <= unspent@.len(),
            pairs@ == pairs_spec.take(i as int),
        decreases unspent@.len() - i,
    {
        pairs.push((unspent[i], unspent[i].amount));
        proof {
            assert(pairs@ =~= pairs_spec.take(i + 1));
        }
        i += 1;
    }
    proof {
        assert(pairs_spec.take(pairs_spec.len() as int) =~= pairs_spec);
        assert(nonneg(amounts_of(pairs@))) by {
            assert(forall|k: int|
                0 <= k < pairs@.len() ==> amounts_of(pairs@)[k] == (#[trigger] pairs@[k]).1);
        }
    }
    let amount2 = amount - PAYMENT_FEE;
    let (spent, fee, change) = match find_utxo(
        &pairs,
        amount2,
        PAYMENT_FEE,
        PAYMENT_FEE + ESCROW_FEE,
    ) {
        Ok(v) => v,
        Err(e) => {
            return Err(e);
        },
    };
    if fee > PAYMENT_FEE && change <= PAYMENT_FEE {
        // the stake left behind must stay above the payment fee
        return Err(WalletError::InsufficientStake(PAYMENT_FEE + 1, change));
    }
    let inputs = escrows_to_outputs(&spent);
    let mut outputs: Vec<Output> = Vec::new();
    let (output1, gamma1) = match Output::new_payment(
        timestamp,
        sender_skey,
        sender_pkey,
        amount2,
    ) {
        Ok(v) => v,
        Err(e) => {
            proof {
                assert(false);
            }
            return Err(e);
        },
    };
    outputs.push(output1);
    let gamma = gamma1;
    if change > 0 {
        let output2 = match Output::new_escrow(
            timestamp,
            sender_skey,
            sender_pkey,
            validator_pkey,
            change,
        ) {
            Ok(v) => v,
            Err(e) => {
                proof {
                    assert(false);
                }
                return Err(e);
            },
        };
        outputs.push(output2);
    }
    let tx = match Transaction::new(sender_skey, &inputs, &outputs, gamma, fee) {
        Ok(tx) => tx,
        Err(e) => {
            proof {
                assert(false);
            }
            return Err(e);
        },
    };
    proof {
        if change > 0 {
            assert(outputs@ =~= seq![
                built_payment(*sender_skey, *sender_pkey, amount2, timestamp),
                built_escrow(*sender_pkey, *validator_pkey, change, timestamp),
            ]);
        } else {
            assert(outputs@ =~= seq![
                built_payment(*sender_skey, *sender_pkey, amount2, timestamp),
            ]);
        }
        assert(find_utxo_ok(
            pairs_spec,
            amount2 as int,
            PAYMENT_FEE as int,
            (PAYMENT_FEE + ESCROW_FEE) as int,
            spent@,
            fee as int,
            change as int,
        ));
        assert(tx.body.txins@ == outputs_hashes(
            spent@.map_values(|p: EscrowOutput| Output::EscrowOutput(p)),
        ));
        assert(unstaking_tx_ok(
            *sender_skey,
            *sender_pkey,
            *validator_pkey,
            pairs_spec,
            amount as int,
            timestamp,
            tx,
        ));
    }
    Ok(tx)
}

/// Create an unstaking transaction stamped with the current time.  The
/// amount includes the payment fee.
pub fn create_unstaking_transaction(
    sender_skey: &AccountSk,
    sender_pkey: &AccountPk,
    validator_pkey: &Pk,
    unspent: &Vec<EscrowOutput>,
    amount: i64,
) -> (r: Result<Transaction, WalletError>)
    requires
        forall|i: int| 0 <= i < unspent@.len() ==> (#[trigger] unspent@[i]).amount >= 0,
        sum_of(amounts_of(unspent@.map_values(|o: EscrowOutput| (o, o.amount)))) <= i64::MAX,
        amount <= i64::MAX - ESCROW_FEE,
    ensures
        ({
            let pairs = unspent@.map_values(|o: EscrowOutput| (o, o.amount));
            match r {
                Ok(tx) => amount > PAYMENT_FEE && exists|ts: u64|
                    unstaking_tx_ok(
                        *sender_skey,
                        *sender_pkey,
                        *validator_pkey,
                        pairs,
                        amount as int,
                        ts,
                        tx,
                    ),
                Err(e) => unstaking_tx_err(pairs, amount as int, e),
            }
        }),
{
    let now = now_timestamp();
    let ts = now as u64;
    create_unstaking_transaction_with_timestamp(
        sender_skey,
        sender_pkey,
        validator_pkey,
        unspent,
        amount,
        ts,
    )
}

/// Create a transaction that prunes an expired data output: it spends the
/// output into nothing, with no fee and no adjustment.
pub fn create_data_pruning_transaction(
    sender_skey: &AccountSk,
    output: crate::tx::DataOutput,
) -> (r: Result<Transaction, WalletError>)
    ensures
        match r {
            Ok(tx) => {
                &&& tx.body.txins@ == outputs_hashes(seq![Output::DataOutput(output)])
                &&& tx.body.txouts@.len() == 0
                &&& tx.body.fee == 0
                &&& tx.body.gamma == 0
                &&& tx.pkey == sender_skey.spec_pk()
            },
            Err(_) => false,
        },
{
    let mut inputs: Vec<Output> = Vec::new();
    inputs.push(Output::DataOutput(output));
    let outputs: Vec<Output> = Vec::new();
    proof {
        assert(inputs@ =~= seq![Output::DataOutput(output)]);
        assert(crate::tx::outputs_gamma(inputs@) == 0) by {
            assert(inputs@.drop_last() =~= Seq::<Output>::empty());
            assert(crate::tx::outputs_gamma(Seq::<Output>::empty()) == 0);
            assert(inputs@.last().spec_gamma() == 0);
            reveal(crate::crypto::add_mod);
        }
        assert(crate::crypto::sub_mod(0, 0) == 0) by {
            reveal(crate::crypto::sub_mod);
        }
    }
    match Transaction::new(sender_skey, &inputs, &outputs, 0u64, 0i64) {
        Ok(tx) => Ok(tx),
        Err(e) => {
            proof {
                assert(false);
            }
            Err(e)
        },
    }
}

} // verus!
