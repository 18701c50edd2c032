//! Transactions and unspent outputs.
//!
//! Payment amounts are hidden by commitments in the real system; the model
//! keeps the amount and the blinding factor as plain fields, and `validate`
//! enforces what the commitment arithmetic enforces: inputs, outputs and
//! fee balance, and the adjustment equals the sum of output blindings minus
//! the sum of input blindings.  A data output stores the digest and length
//! of its payload; the payload bytes themselves live off the core.

use vstd::prelude::*;
use crate::crypto::{add_mod, sub_mod, spec_check_hash, spec_mix, mix, sign_hash, check_hash,
    Digest, Pk, Sig};
use crate::error::WalletError;

verus! {

/// Account public key (the payment curve), distinct from validator keys.
#[derive(Clone, Copy, Debug, PartialEq, Eq, Structural)]
pub struct AccountPk {
    pub val: u64,
}

/// Account secret key.
#[derive(Clone, Copy, Debug, PartialEq, Eq, Structural)]
pub struct AccountSk {
    pub val: u64,
}

impl AccountSk {
    /// The public key that corresponds to this secret key.
    pub open spec fn spec_pk(self) -> AccountPk {
        AccountPk { val: self.val }
    }

    /// Derive the public key of an account secret key.
    pub fn pk(&self) -> (r: AccountPk)
        ensures
            r == self.spec_pk(),
    {
        AccountPk { val: self.val }
    }
}

/// Deterministically derive an account keypair from a seed.
pub fn make_account_keys(seed: u64) -> (r: (AccountSk, AccountPk))
    ensures
        r.0 == (AccountSk { val: seed }),
        r.1 == (AccountSk { val: seed }).spec_pk(),
{
    let sk = AccountSk { val: seed };
    let pk = sk.pk();
    (sk, pk)
}

/// A payment output; the amount is blinded by `gamma` in the real system.
#[derive(Clone, Copy, Debug, PartialEq, Eq, Structural)]
pub struct PaymentOutput {
    pub recipient: AccountPk,
    pub timestamp: u64,
    pub amount: i64,
    pub gamma: u64,
}

/// A data output kept alive for `ttl` periods; the payload is carried by
/// its digest and length.
#[derive(Clone, Copy, Debug, PartialEq, Eq, Structural)]
pub struct DataOutput {
    pub recipient: AccountPk,
    pub timestamp: u64,
    pub ttl: u64,
    pub data_hash: Digest,
    pub data_len: u64,
}

/// An escrow (stake) output binding an amount to a validator key.
#[derive(Clone, Copy, Debug, PartialEq, Eq, Structural)]
pub struct EscrowOutput {
    pub recipient: AccountPk,
    pub validator: Pk,
    pub timestamp: u64,
    pub amount: i64,
}

/// Any unspent output.
#[derive(Clone, Copy, Debug, PartialEq, Eq, Structural)]
pub enum Output {
    PaymentOutput(PaymentOutput),
    DataOutput(DataOutput),
    EscrowOutput(EscrowOutput),
}

/// Fold a byte sequence into a hasher state.
pub open spec fn spec_mix_bytes(state: u64, data: Seq<u8>) -> u64
    decreases data.len(),
{
    if data.len() == 0 {
        state
    } else {
        spec_mix_bytes(spec_mix(state, data[0] as u64), data.drop_first())
    }
}

/// Fold a byte slice into a hasher state.
#[verifier::loop_isolation(false)]
pub fn mix_bytes(state: u64, data: &Vec<u8>) -> (r: u64)
    ensures
        r == spec_mix_bytes(state, data@),
{
    let mut st = state;
    let mut i: usize = 0;
    proof {
        assert(data@.skip(0) =~= data@);
    }
    while i < data.len()
        invariant
            0 <= i <= data@.len(),
            spec_mix_bytes(state, data@) == spec_mix_bytes(st, data@.skip(i as int)),
        decreases data@.len() - i,
    {
        proof {
            let sk = data@.skip(i as int);
            assert(sk[0] == data@[i as int]);
            assert(sk.drop_first() =~= data@.skip(i + 1));
        }
        st = mix(st, data[i] as u64);
        i += 1;
    }
    proof {
        assert(data@.skip(data@.len() as int) =~= Seq::<u8>::empty());
    }
    st
}

/// Copy a vector of plain values.
#[verifier::loop_isolation(false)]
pub fn copy_vec<T: Copy>(v: &Vec<T>) -> (r: Vec<T>)
    ensures
        r@ == v@,
{
    let mut r: Vec<T> = Vec::new();
    let mut i: usize = 0;
    proof {
        assert(r@ =~= v@.take(0));
    }
    while i < v.len()
        invariant
            0 <= i <= v@.len(),
            r@ == v@.take(i as int),
        decreases v@.len() - i,
    {
        r.push(v[i]);
        proof {
            assert(r@ =~= v@.take(i + 1));
        }
        i += 1;
    }
    proof {
        assert(v@.take(v@.len() as int) =~= v@);
    }
    r
}

/// Tag mixed into the digest of a payment output.
pub const PAYMENT_OUTPUT_TAG: u64 = 1;

/// Tag mixed into the digest of a data output.
pub const DATA_OUTPUT_TAG: u64 = 2;

/// Tag mixed into the digest of an escrow output.
pub const ESCROW_OUTPUT_TAG: u64 = 3;

/// Canonical digest of an output: a variant tag, then each field in order.
#[verifier::opaque]
pub open spec fn spec_hash_output(o: Output) -> Digest {
    match o {
        Output::PaymentOutput(p) => Digest {
            bits: spec_mix(
                spec_mix(
                    spec_mix(spec_mix(PAYMENT_OUTPUT_TAG, p.recipient.val), p.timestamp),
                    p.amount as u64,
                ),
                p.gamma,
            ),
        },
        Output::DataOutput(d) => Digest {
            bits: spec_mix(
                spec_mix(
                    spec_mix(spec_mix(DATA_OUTPUT_TAG, d.recipient.val), d.timestamp),
                    d.ttl,
                ),
                spec_mix(d.data_hash.bits, d.data_len),
            ),
        },
        Output::EscrowOutput(e) => Digest {
            bits: spec_mix(
                spec_mix(
                    spec_mix(spec_mix(ESCROW_OUTPUT_TAG, e.recipient.val), e.validator.val),
                    e.timestamp,
                ),
                e.amount as u64,
            ),
        },
    }
}

/// Compute the canonical digest of an output.
pub fn hash_output(o: &Output) -> (r: Digest)
    ensures
        r == spec_hash_output(*o),
{
    proof {
        reveal(spec_hash_output);
    }
    match o {
        Output::PaymentOutput(p) => {
            let st = mix(PAYMENT_OUTPUT_TAG, p.recipient.val);
            let st = mix(st, p.timestamp);
            let st = mix(st, p.amount as u64);
            Digest { bits: mix(st, p.gamma) }
        },
        Output::DataOutput(d) => {
            let st = mix(DATA_OUTPUT_TAG, d.recipient.val);
            let st = mix(st, d.timestamp);
            let st = mix(st, d.ttl);
            Digest { bits: mix(st, mix(d.data_hash.bits, d.data_len)) }
        },
        Output::EscrowOutput(e) => {
            let st = mix(ESCROW_OUTPUT_TAG, e.recipient.val);
            let st = mix(st, e.validator.val);
            let st = mix(st, e.timestamp);
            Digest { bits: mix(st, e.amount as u64) }
        },
    }
}

impl Output {
    /// The plain amount this output stands for (data outputs carry none).
    pub open spec fn spec_amount(self) -> int {
        match self {
            Output::PaymentOutput(p) => p.amount as int,
            Output::DataOutput(_) => 0,
            Output::EscrowOutput(e) => e.amount as int,
        }
    }

    /// The blinding factor of this output (only payments are blinded).
    pub open spec fn spec_gamma(self) -> u64 {
        match self {
            Output::PaymentOutput(p) => p.gamma,
            Output::DataOutput(_) => 0,
            Output::EscrowOutput(_) => 0,
        }
    }

    /// The plain amount this output stands for.
    pub fn amount(&self) -> (r: i64)
        ensures
            r as int == self.spec_amount(),
    {
        match self {
            Output::PaymentOutput(p) => p.amount,
            Output::DataOutput(_) => 0i64,
            Output::EscrowOutput(e) => e.amount,
        }
    }

    /// The blinding factor of this output.
    pub fn gamma(&self) -> (r: u64)
        ensures
            r == self.spec_gamma(),
    {
        match self {
            Output::PaymentOutput(p) => p.gamma,
            Output::DataOutput(_) => 0u64,
            Output::EscrowOutput(_) => 0u64,
        }
    }

    /// Create a payment output; returns the output and its blinding factor.
    /// Fails on a non-positive amount.
    pub fn new_payment(timestamp: u64, sender_skey: &AccountSk, recipient: &AccountPk, amount: i64)
        -> (r: Result<(Output, u64), WalletError>)
        ensures
            match r {
                Ok((o, gamma)) => amount > 0 && o == Output::PaymentOutput(
                    PaymentOutput {
                        recipient: *recipient,
                        timestamp,
                        amount,
                        gamma: spec_mix(spec_mix(sender_skey.val, timestamp), amount as u64),
                    },
                ) && gamma == spec_mix(spec_mix(sender_skey.val, timestamp), amount as u64),
                Err(e) => e == WalletError::ZeroOrNegativeAmount && amount <= 0,
            },
    {
        if amount <= 0 {
            return Err(WalletError::ZeroOrNegativeAmount);
        }
        let gamma = mix(mix(sender_skey.val, timestamp), amount as u64);
        let o = Output::PaymentOutput(
            PaymentOutput { recipient: *recipient, timestamp, amount, gamma },
        );
        Ok((o, gamma))
    }

    /// Create a data output carrying the digest and length of the payload;
    /// returns the output and its (zero) adjustment.
    pub fn new_data(
        timestamp: u64,
        _sender_skey: &AccountSk,
        recipient: &AccountPk,
        ttl: u64,
        data: &Vec<u8>,
    ) -> (r: Result<(Output, u64), WalletError>)
        requires
            data@.len() <= u64::MAX,
        ensures
            match r {
                Ok((o, gamma)) => o == Output::DataOutput(
                    DataOutput {
                        recipient: *recipient,
                        timestamp,
                        ttl,
                        data_hash: Digest { bits: spec_mix_bytes(0, data@) },
                        data_len: data@.len() as u64,
                    },
                ) && gamma == 0,
                Err(_) => false,
            },
    {
        let data_hash = Digest { bits: mix_bytes(0, data) };
        let o = Output::DataOutput(
            DataOutput {
                recipient: *recipient,
                timestamp,
                ttl,
                data_hash,
                data_len: data.len() as u64,
            },
        );
        Ok((o, 0u64))
    }

    /// Create an escrow output binding a stake to a validator key.
    /// Fails on a non-positive amount.
    pub fn new_escrow(
        timestamp: u64,
        _sender_skey: &AccountSk,
        recipient: &AccountPk,
        validator: &Pk,
        amount: i64,
    ) -> (r: Result<Output, WalletError>)
        ensures
            match r {
                Ok(o) => amount > 0 && o == Output::EscrowOutput(
                    EscrowOutput {
                        recipient: *recipient,
                        validator: *validator,
                        timestamp,
                        amount,
                    },
                ),
                Err(e) => e == WalletError::ZeroOrNegativeAmount && amount <= 0,
            },
    {
        if amount <= 0 {
            return Err(WalletError::ZeroOrNegativeAmount);
        }
        Ok(
            Output::EscrowOutput(
                EscrowOutput { recipient: *recipient, validator: *validator, timestamp, amount },
            ),
        )
    }
}

impl PaymentOutput {
    /// Reveal the payload of a payment output: its blinding, a zero filler
    /// standing for the payload delta, and the amount.  Only the recipient's
    /// key opens it.
    pub fn decrypt_payload(&self, skey: &AccountSk) -> (r: Result<(u64, u64, i64), WalletError>)
        ensures
            match r {
                Ok((gamma, delta, amount)) => skey.spec_pk() == self.recipient && gamma
                    == self.gamma && delta == 0 && amount == self.amount,
                Err(e) => e == WalletError::PayloadDecryptionFailed && skey.spec_pk()
                    != self.recipient,
            },
    {
        if skey.val == self.recipient.val {
            Ok((self.gamma, 0u64, self.amount))
        } else {
            Err(WalletError::PayloadDecryptionFailed)
        }
    }
}

/// The signed content of a transaction.
#[derive(Debug)]
pub struct TransactionBody {
    /// Digests of the outputs this transaction spends.
    pub txins: Vec<Digest>,
    /// The outputs this transaction creates.
    pub txouts: Vec<Output>,
    /// Blinding adjustment: output blindings minus input blindings.
    pub gamma: u64,
    /// Fee paid to the block producer.
    pub fee: i64,
}

/// A signed transaction.
#[derive(Debug)]
pub struct Transaction {
    pub body: TransactionBody,
    /// The signer's account key.
    pub pkey: AccountPk,
    /// Signature over the body digest.
    pub sig: Sig,
}

/// Two transactions hold the same content (their vectors may be distinct
/// allocations).
pub open spec fn tx_eq(a: Transaction, b: Transaction) -> bool {
    &&& a.body.txins@ == b.body.txins@
    &&& a.body.txouts@ == b.body.txouts@
    &&& a.body.gamma == b.body.gamma
    &&& a.body.fee == b.body.fee
    &&& a.pkey == b.pkey
    &&& a.sig == b.sig
}

/// Copy a transaction.
pub fn clone_transaction(tx: &Transaction) -> (r: Transaction)
    ensures
        tx_eq(r, *tx),
{
    Transaction {
        body: TransactionBody {
            txins: copy_vec(&tx.body.txins),
            txouts: copy_vec(&tx.body.txouts),
            gamma: tx.body.gamma,
            fee: tx.body.fee,
        },
        pkey: tx.pkey,
        sig: tx.sig,
    }
}

/// Sum of the amounts of a sequence of outputs.
pub open spec fn outputs_amount(s: Seq<Output>) -> int
    decreases s.len(),
{
    if s.len() == 0 {
        0
    } else {
        outputs_amount(s.drop_last()) + s.last().spec_amount()
    }
}

/// Modular sum of the blindings of a sequence of outputs.
pub open spec fn outputs_gamma(s: Seq<Output>) -> u64
    decreases s.len(),
{
    if s.len() == 0 {
        0
    } else {
        add_mod(outputs_gamma(s.drop_last()), s.last().spec_gamma())
    }
}

/// The digests of a sequence of outputs, in order.
pub open spec fn outputs_hashes(s: Seq<Output>) -> Seq<Digest> {
    s.map_values(|o: Output| spec_hash_output(o))
}

/// Fold a sequence of digests into a hasher state.
pub open spec fn spec_mix_digests(state: u64, s: Seq<Digest>) -> u64
    decreases s.len(),
{
    if s.len() == 0 {
        state
    } else {
        spec_mix_digests(spec_mix(state, s[0].bits), s.drop_first())
    }
}

/// Canonical digest of a transaction body: the input digests, the output
/// digests, the adjustment and the fee, in order.
#[verifier::opaque]
pub open spec fn spec_hash_tx_body(b: TransactionBody) -> Digest {
    Digest {
        bits: spec_mix(
            spec_mix(
                spec_mix_digests(spec_mix_digests(0, b.txins@), outputs_hashes(b.txouts@)),
                b.gamma,
            ),
            b.fee as u64,
        ),
    }
}

/// Canonical digest of a transaction (the digest of its body).
pub open spec fn spec_hash_transaction(tx: Transaction) -> Digest {
    spec_hash_tx_body(tx.body)
}

/// Fold a slice of digests into a hasher state.
#[verifier::loop_isolation(false)]
pub fn mix_digests(state: u64, digests: &Vec<Digest>) -> (r: u64)
    ensures
        r == spec_mix_digests(state, digests@),
{
    let mut st = state;
    let mut i: usize = 0;
    proof {
        assert(digests@.skip(0) =~= digests@);
    }
    while i < digests.len()
        invariant
            0 <= i <= digests@.len(),
            spec_mix_digests(state, digests@) == spec_mix_digests(st, digests@.skip(i as int)),
        decreases digests@.len() - i,
    {
        proof {
            let sk = digests@.skip(i as int);
            assert(sk[0] == digests@[i as int]);
            assert(sk.drop_first() =~= digests@.skip(i + 1));
        }
        st = mix(st, digests[i].bits);
        i += 1;
    }
    proof {
        assert(digests@.skip(digests@.len() as int) =~= Seq::<Digest>::empty());
    }
    st
}

/// Compute the canonical digest of a transaction body.
#[verifier::loop_isolation(false)]
pub fn hash_tx_body(b: &TransactionBody) -> (r: Digest)
    ensures
        r == spec_hash_tx_body(*b),
{
    proof {
        reveal(spec_hash_tx_body);
    }
    let st0 = mix_digests(0, &b.txins);
    let ghost mid = st0;
    let mut st = st0;
    let mut i: usize = 0;
    proof {
        assert(outputs_hashes(b.txouts@).skip(0) =~= outputs_hashes(b.txouts@));
    }
    while i < b.txouts.len()
        invariant
            0 <= i <= b.txouts@.len(),
            spec_mix_digests(mid, outputs_hashes(b.txouts@)) == spec_mix_digests(
                st,
                outputs_hashes(b.txouts@).skip(i as int),
            ),
        decreases b.txouts@.len() - i,
    {
        proof {
            let hs = outputs_hashes(b.txouts@);
            let sk = hs.skip(i as int);
            assert(sk[0] == hs[i as int]);
            assert(hs[i as int] == spec_hash_output(b.txouts@[i as int]));
            assert(sk.drop_first() =~= hs.skip(i + 1));
        }
        let h = hash_output(&b.txouts[i]);
        st = mix(st, h.bits);
        i += 1;
    }
    proof {
        let hs = outputs_hashes(b.txouts@);
        assert(hs.skip(hs.len() as int) =~= Seq::<Digest>::empty());
    }
    let st = mix(st, b.gamma);
    Digest { bits: mix(st, b.fee as u64) }
}

/// Compute the canonical digest of a transaction.
pub fn hash_transaction(tx: &Transaction) -> (r: Digest)
    ensures
        r == spec_hash_transaction(*tx),
{
    hash_tx_body(&tx.body)
}

/// What `Transaction::validate` checks, over a claimed list of spent
/// outputs: the claimed inputs match the transaction's input digests in
/// order, the fee is nonnegative, amounts balance, the blinding adjustment
/// balances, and the signature opens under the signer's key.
pub open spec fn spec_valid_transaction(tx: Transaction, inputs: Seq<Output>) -> bool {
    &&& inputs.len() == tx.body.txins@.len()
    &&& forall|i: int|
        0 <= i < inputs.len() ==> #[trigger] spec_hash_output(inputs[i]) == tx.body.txins@[i]
    &&& tx.body.fee >= 0
    &&& outputs_amount(inputs) == outputs_amount(tx.body.txouts@) + tx.body.fee
    &&& add_mod(tx.body.gamma, outputs_gamma(inputs)) == outputs_gamma(tx.body.txouts@)
    &&& spec_check_hash(spec_hash_tx_body(tx.body), tx.sig, Pk { val: tx.pkey.val })
}

impl Transaction {
    /// Create and sign a transaction spending `inputs` into `outputs`.
    #[verifier::loop_isolation(false)]
    pub fn new(
        skey: &AccountSk,
        inputs: &Vec<Output>,
        outputs: &Vec<Output>,
        gamma: u64,
        fee: i64,
    ) -> (r: Result<Transaction, WalletError>)
        ensures
            match r {
                Ok(tx) => {
                    &&& tx.body.txins@ == outputs_hashes(inputs@)
                    &&& tx.body.txouts@ == outputs@
                    &&& tx.body.gamma == sub_mod(gamma, outputs_gamma(inputs@))
                    &&& tx.body.fee == fee
                    &&& tx.pkey == skey.spec_pk()
                    &&& spec_check_hash(spec_hash_tx_body(tx.body), tx.sig, Pk { val: skey.val })
                },
                Err(_) => false,
            },
    {
        let mut txins: Vec<Digest> = Vec::new();
        let mut i: usize = 0;
        proof {
            assert(txins@ =~= outputs_hashes(inputs@).take(0));
        }
        while i < inputs.len()
            invariant
                0 <= i <= inputs@.len(),
                txins@ == outputs_hashes(inputs@).take(i as int),
            decreases inputs@.len() - i,
        {
            txins.push(hash_output(&inputs[i]));
            proof {
                assert(txins@ =~= outputs_hashes(inputs@).take(i + 1));
            }
            i += 1;
        }
        proof {
            let hs = outputs_hashes(inputs@);
            assert(hs.take(hs.len() as int) =~= hs);
        }
        let txouts = copy_vec(outputs);
        // the stored adjustment discounts the blindings of what is spent,
        // so that inputs, outputs and adjustment balance
        let in_gamma = sum_gammas(inputs);
        let adjustment = crate::crypto::sig_sub(&Sig { val: gamma }, &Sig { val: in_gamma });
        let body = TransactionBody { txins, txouts, gamma: adjustment.val, fee };
        let h = hash_tx_body(&body);
        let sig = sign_hash(&h, &crate::crypto::Sk { val: skey.val });
        Ok(Transaction { body, pkey: skey.pk(), sig })
    }

    /// Validate a transaction against the outputs it claims to spend.
    #[verifier::loop_isolation(false)]
    pub fn validate(&self, inputs: &Vec<Output>) -> (r: Result<(), WalletError>)
        ensures
            r is Ok <==> spec_valid_transaction(*self, inputs@),
    {
        if inputs.len() != self.body.txins.len() {
            return Err(WalletError::NotEnoughMoney);
        }
        let mut i: usize = 0;
        while i < inputs.len()
            invariant
                0 <= i <= inputs@.len(),
                forall|j: int|
                    0 <= j < i ==> #[trigger] spec_hash_output(inputs@[j]) == self.body.txins@[j],
            decreases inputs@.len() - i,
        {
            let h = hash_output(&inputs[i]);
            if h.bits != self.body.txins[i].bits {
                proof {
                    assert(spec_hash_output(inputs@[i as int]) != self.body.txins@[i as int]);
                }
                return Err(WalletError::NotEnoughMoney);
            }
            proof {
                assert(spec_hash_output(inputs@[i as int]) == self.body.txins@[i as int]);
            }
            i += 1;
        }
        if self.body.fee < 0 {
            return Err(WalletError::ZeroOrNegativeAmount);
        }
        let n_out = self.body.txouts.len();
        let in_amount = sum_amounts(inputs);
        let out_amount = sum_amounts(&self.body.txouts);
        if in_amount != out_amount + (self.body.fee as i128) {
            return Err(WalletError::NotEnoughMoney);
        }
        let in_gamma = sum_gammas(inputs);
        let out_gamma = sum_gammas(&self.body.txouts);
        let adjusted = crate::crypto::sig_add(&Sig { val: self.body.gamma }, &Sig { val: in_gamma });
        if adjusted.val != out_gamma {
            return Err(WalletError::NotEnoughMoney);
        }
        let h = hash_tx_body(&self.body);
        if !check_hash(&h, &self.sig, &Pk { val: self.pkey.val }) {
            return Err(WalletError::NotEnoughMoney);
        }
        Ok(())
    }
}

/// Sum the amounts of a list of outputs without overflow.
#[verifier::loop_isolation(false)]
pub fn sum_amounts(outputs: &Vec<Output>) -> (r: i128)
    ensures
        r == outputs_amount(outputs@),
        -(outputs@.len() as int) * 0x8000_0000_0000_0000 <= r,
        r <= (outputs@.len() as int) * 0x7fff_ffff_ffff_ffff,
{
    let mut acc: i128 = 0;
    let mut i: usize = 0;
    proof {
        assert(outputs@.take(0) =~= Seq::<Output>::empty());
    }
    while i < outputs.len()
        invariant
            0 <= i <= outputs@.len(),
            acc == outputs_amount(outputs@.take(i as int)),
            -(i as int) * 0x8000_0000_0000_0000 <= acc,
            acc <= (i as int) * 0x7fff_ffff_ffff_ffff,
        decreases outputs@.len() - i,
    {
        proof {
            assert(outputs@.take(i + 1).drop_last() =~= outputs@.take(i as int));
            assert(outputs@.take(i + 1).last() == outputs@[i as int]);
        }
        acc = acc + (outputs[i].amount() as i128);
        i += 1;
    }
    proof {
        assert(outputs@.take(outputs@.len() as int) =~= outputs@);
    }
    acc
}

/// Sum the blindings of a list of outputs in the model group.
#[verifier::loop_isolation(false)]
pub fn sum_gammas(outputs: &Vec<Output>) -> (r: u64)
    ensures
        r == outputs_gamma(outputs@),
{
    let mut acc: u64 = 0;
    let mut i: usize = 0;
    proof {
        assert(outputs@.take(0) =~= Seq::<Output>::empty());
    }
    while i < outputs.len()
        invariant
            0 <= i <= outputs@.len(),
            acc == outputs_gamma(outputs@.take(i as int)),
        decreases outputs@.len() - i,
    {
        proof {
            assert(outputs@.take(i + 1).drop_last() =~= outputs@.take(i as int));
            assert(outputs@.take(i + 1).last() == outputs@[i as int]);
        }
        let g = outputs[i].gamma();
        let s = crate::crypto::sig_add(&Sig { val: acc }, &Sig { val: g });
        acc = s.val;
        i += 1;
    }
    proof {
        assert(outputs@.take(outputs@.len() as int) =~= outputs@);
    }
    acc
}

} // verus!
