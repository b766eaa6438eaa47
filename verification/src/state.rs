//! The rollup ledger: the account map, transaction application, and the
//! chained state commitment.

use vstd::prelude::*;
use vstd::bytes::{spec_u128_to_le_bytes, spec_u32_to_le_bytes, spec_u64_to_le_bytes};
use crate::RollupVM;
use crate::accounts::{
    find_account, has_key, lemma_balance_le_sum, lemma_map_domain, lemma_map_values,
    lemma_sorted_distinct, lemma_sum_map_insert, lemma_sum_nonneg, lemma_sorted_canonical,
    lemma_sum_update, lemma_update_entry, seq_to_map, sorted, sum_balances, upsert_account,
};
use crate::address::Address;
use crate::commitment::{
    append_commitment, append_u128, append_u32, append_u64, commit_bytes, commitment_enc,
    commitment_of, Commitment,
};
use crate::block::{leaves_view, nmt_commit_spec, NamespaceProof, NmtRoot};
use crate::error::RollupError;
use crate::prover::Proof;
use crate::transaction::{recover_spec, stx_dec, SignedTransaction, Transaction};

pub use crate::accounts::Account;

verus! {

/// The rollup's ledger: the account map (sorted by address, so that its
/// serialization is canonical), the commitment to the latest applied block's
/// transaction root, the previous state commitment (chaining the states),
/// and the rollup's namespace id.
#[derive(Debug, Clone)]
pub struct State {
    accounts: Vec<(Address, Account)>,
    nmt_comm: Option<Commitment>,
    prev_state_commitment: Option<Commitment>,
    pub vm: RollupVM,
}

/// The next nonce an account expects. It saturates at the maximum, where no
/// further transaction from the account can be valid.
pub open spec fn spec_next_nonce(n: u64) -> u64 {
    if n < u64::MAX {
        (n + 1) as u64
    } else {
        u64::MAX
    }
}

/// The exact ledger transition for one authenticated transaction: which
/// error it is rejected with, or the updated account map. A transaction is
/// valid iff the sender exists, the nonce is exactly one more than the
/// sender's, and the balance covers the amount; then the sender is debited,
/// its nonce advances, and the destination is credited (created with nonce 0
/// if absent).
pub open spec fn apply_spec(m: Map<Address, Account>, sender: Address, t: Transaction) -> Result<
    Map<Address, Account>,
    RollupError,
> {
    if !m.contains_key(sender) {
        Err(RollupError::InsufficientBalance { address: sender })
    } else if t.nonce != m[sender].nonce + 1 {
        Err(
            RollupError::InvalidNonce {
                address: sender,
                expected: spec_next_nonce(m[sender].nonce),
                actual: t.nonce,
            },
        )
    } else if t.amount > m[sender].balance {
        Err(RollupError::InsufficientBalance { address: sender })
    } else {
        let debited = m.insert(
            sender,
            Account { balance: (m[sender].balance - t.amount) as u64, nonce: t.nonce },
        );
        let dest = if debited.contains_key(t.destination) {
            debited[t.destination]
        } else {
            Account { balance: 0, nonce: 0 }
        };
        Ok(
            debited.insert(
                t.destination,
                Account { balance: (dest.balance + t.amount) as u64, nonce: dest.nonce },
            ),
        )
    }
}

/// The ledger transition for a signed transaction: recover the sender from
/// the signature, then apply; recovery failure rejects the transaction.
pub open spec fn apply_signed_spec(m: Map<Address, Account>, s: SignedTransaction) -> Result<
    Map<Address, Account>,
    RollupError,
> {
    match recover_spec(s) {
        Some(sender) => apply_spec(m, sender, s.transaction),
        None => Err(RollupError::SignatureError),
    }
}

/// The effect of one block payload on the account map: decode it as a
/// signed transaction and apply it; a malformed or invalid payload leaves
/// the map unchanged (best-effort block execution).
pub open spec fn apply_leaf_spec(m: Map<Address, Account>, leaf: Seq<u8>) -> Map<Address, Account> {
    match stx_dec(leaf) {
        Some(stx) => match apply_signed_spec(m, stx) {
            Ok(m2) => m2,
            Err(_) => m,
        },
        None => m,
    }
}

/// The effect of an ordered run of block payloads, applied best-effort.
pub open spec fn apply_leaves_spec(m: Map<Address, Account>, leaves: Seq<Seq<u8>>) -> Map<
    Address,
    Account,
>
    decreases leaves.len(),
{
    if leaves.len() == 0 {
        m
    } else {
        apply_leaf_spec(apply_leaves_spec(m, leaves.drop_last()), leaves.last())
    }
}

/// The sum of a genesis allocation.
pub open spec fn sum_amounts(s: Seq<(Address, u64)>) -> int
    decreases s.len(),
{
    if s.len() == 0 {
        0
    } else {
        sum_amounts(s.drop_last()) + s.last().1
    }
}

/// The genesis account map: every listed address with its balance and nonce
/// 0; a repeated address keeps the balance listed last.
pub open spec fn genesis_map(s: Seq<(Address, u64)>) -> Map<Address, Account>
    decreases s.len(),
{
    if s.len() == 0 {
        Map::empty()
    } else {
        genesis_map(s.drop_last()).insert(s.last().0, Account { balance: s.last().1, nonce: 0 })
    }
}

/// The canonical encoding of an optional commitment: a presence tag, then
/// the commitment.
pub open spec fn opt_commitment_enc(oc: Option<Commitment>) -> Seq<u8> {
    match oc {
        None => seq![0u8],
        Some(c) => seq![1u8] + commitment_enc(c),
    }
}

/// The canonical encoding of one account entry.
pub open spec fn account_enc(e: (Address, Account)) -> Seq<u8> {
    spec_u32_to_le_bytes(e.0.hi) + spec_u128_to_le_bytes(e.0.lo) + spec_u64_to_le_bytes(
        e.1.balance,
    ) + spec_u64_to_le_bytes(e.1.nonce)
}

/// The canonical encoding of the account store, in sorted order.
pub open spec fn accounts_enc(s: Seq<(Address, Account)>) -> Seq<u8>
    decreases s.len(),
{
    if s.len() == 0 {
        Seq::empty()
    } else {
        accounts_enc(s.drop_last()) + account_enc(s.last())
    }
}

/// The canonical encoding of a whole ledger state: the chain pointers, the
/// namespace id, then the sorted accounts.
pub open spec fn state_enc(s: State) -> Seq<u8> {
    opt_commitment_enc(s.nmt_commitment()) + opt_commitment_enc(s.prev_commitment())
        + spec_u64_to_le_bytes(s.vm_spec().0) + accounts_enc(s.repr())
}

/// The state commitment: the digest of the canonical encoding.
pub open spec fn commit_spec(s: State) -> Commitment {
    commitment_of(state_enc(s))
}

/// Append the canonical encoding of an optional commitment.
fn append_opt_commitment(out: &mut Vec<u8>, oc: &Option<Commitment>)
    ensures
        final(out)@ == old(out)@ + opt_commitment_enc(*oc),
{
    match oc {
        None => {
            out.push(0u8);
            assert(out@ =~= old(out)@ + opt_commitment_enc(None));
        },
        Some(c) => {
            out.push(1u8);
            append_commitment(out, c);
            assert(out@ =~= old(out)@ + opt_commitment_enc(Some(*c)));
        },
    }
}

impl State {
    /// The entry sequence of the account store, sorted by address.
    pub closed spec fn repr(self) -> Seq<(Address, Account)> {
        self.accounts@
    }

    /// The logical account map.
    pub open spec fn accounts_map(self) -> Map<Address, Account> {
        seq_to_map(self.repr())
    }

    /// The rollup instance this ledger belongs to.
    pub closed spec fn vm_spec(self) -> RollupVM {
        self.vm
    }

    /// The commitment to the latest applied block's transaction root.
    pub closed spec fn nmt_commitment(self) -> Option<Commitment> {
        self.nmt_comm
    }

    /// The previous state commitment in the chain.
    pub closed spec fn prev_commitment(self) -> Option<Commitment> {
        self.prev_state_commitment
    }

    /// The rollup instance this ledger belongs to.
    pub fn vm(&self) -> (r: RollupVM)
        ensures
            r == self.vm_spec(),
    {
        self.vm
    }

    /// Well-formed: the store is sorted (hence canonical) and the total
    /// supply fits a `u64`, which rules overflow out of every credit.
    pub open spec fn wf(self) -> bool {
        sorted(self.repr()) && sum_balances(self.repr()) <= u64::MAX
    }

    /// Create a ledger seeded with some initial balances, all nonces 0 and
    /// no chain pointers yet. The total supply must fit a `u64`.
    pub fn from_initial_balances(initial_balances: Vec<(Address, u64)>, vm: RollupVM) -> (r: State)
        requires
            sum_amounts(initial_balances@) <= u64::MAX,
        ensures
            r.wf(),
            r.accounts_map() == genesis_map(initial_balances@),
            r.nmt_commitment() is None,
            r.prev_commitment() is None,
            r.vm_spec() == vm,
    {
        let mut accounts: Vec<(Address, Account)> = Vec::new();
        assert(accounts@.len() == 0);
        let mut i: usize = 0;
        proof {
            assert(initial_balances@.subrange(0, 0) =~= Seq::<(Address, u64)>::empty());
        }
        while i < initial_balances.len()
            invariant
                i <= initial_balances@.len(),
                sorted(accounts@),
                seq_to_map(accounts@) == genesis_map(initial_balances@.subrange(0, i as int)),
                sum_balances(accounts@) <= sum_amounts(initial_balances@.subrange(0, i as int)),
                sum_amounts(initial_balances@) <= u64::MAX,
            decreases initial_balances@.len() - i,
        {
            let (addr, amount) = initial_balances[i];
            proof {
                lemma_sum_nonneg(accounts@);
            }
            let ghost pre = accounts@;
            upsert_account(&mut accounts, addr, Account { balance: amount, nonce: 0 });
            proof {
                let whole = initial_balances@;
                assert(whole.subrange(0, i + 1).drop_last() =~= whole.subrange(0, i as int));
                assert(whole.subrange(0, i + 1).last() == whole[i as int]);
                if seq_to_map(pre).contains_key(addr) {
                    lemma_sorted_distinct(pre);
                    lemma_map_domain(pre);
                    let w = choose|w: int| 0 <= w < pre.len() && (#[trigger] pre[w]).0 == addr;
                    lemma_map_values(pre);
                    lemma_balance_le_sum(pre, w);
                }
            }
            i += 1;
        }
        proof {
            assert(initial_balances@.subrange(0, initial_balances@.len() as int)
                =~= initial_balances@);
        }
        State { accounts, nmt_comm: None, prev_state_commitment: None, vm }
    }

    /// Fetch the balance of an address; an unknown address holds 0.
    pub fn get_balance(&self, address: &Address) -> (r: u64)
        requires
            self.wf(),
        ensures
            r == (if self.accounts_map().contains_key(*address) {
                self.accounts_map()[*address].balance
            } else {
                0
            }),
    {
        proof {
            lemma_sorted_distinct(self.accounts@);
            lemma_map_domain(self.accounts@);
            lemma_map_values(self.accounts@);
        }
        match find_account(&self.accounts, address) {
            Some(i) => self.accounts[i].1.balance,
            None => 0,
        }
    }

    /// Fetch the nonce of an address; an unknown address is at 0.
    pub fn get_nonce(&self, address: &Address) -> (r: u64)
        requires
            self.wf(),
        ensures
            r == (if self.accounts_map().contains_key(*address) {
                self.accounts_map()[*address].nonce
            } else {
                0
            }),
    {
        proof {
            lemma_sorted_distinct(self.accounts@);
            lemma_map_domain(self.accounts@);
            lemma_map_values(self.accounts@);
        }
        match find_account(&self.accounts, address) {
            Some(i) => self.accounts[i].1.nonce,
            None => 0,
        }
    }

    /// Apply one transaction on behalf of an already-authenticated sender:
    /// exactly the transition `apply_spec`. Failure leaves the ledger
    /// untouched; success moves the amount and advances the sender's nonce.
    /// Either way the total supply is conserved.
    pub fn apply_from(&mut self, sender: Address, t: &Transaction) -> (r: Result<(), RollupError>)
        requires
            old(self).wf(),
        ensures
            final(self).wf(),
            final(self).vm_spec() == old(self).vm_spec(),
            final(self).nmt_commitment() == old(self).nmt_commitment(),
            final(self).prev_commitment() == old(self).prev_commitment(),
            sum_balances(final(self).repr()) == sum_balances(old(self).repr()),
            (match r {
                Ok(_) => apply_spec(old(self).accounts_map(), sender, *t) == Ok::<
                    Map<Address, Account>,
                    RollupError,
                >(final(self).accounts_map()),
                Err(e) => apply_spec(old(self).accounts_map(), sender, *t) == Err::<
                    Map<Address, Account>,
                    RollupError,
                >(e) && *final(self) == *old(self),
            }),
    {
        let ghost s0 = self.accounts@;
        proof {
            lemma_sorted_distinct(s0);
            lemma_map_domain(s0);
            lemma_map_values(s0);
        }
        let idx = match find_account(&self.accounts, &sender) {
            Some(i) => i,
            None => {
                return Err(RollupError::InsufficientBalance { address: sender });
            },
        };
        let acct = self.accounts[idx].1;
        assert(seq_to_map(s0)[sender] == acct);
        if !(acct.nonce < u64::MAX && t.nonce == acct.nonce + 1) {
            let expected = if acct.nonce < u64::MAX {
                acct.nonce + 1
            } else {
                u64::MAX
            };
            return Err(RollupError::InvalidNonce { address: sender, expected, actual: t.nonce });
        }
        if t.amount > acct.balance {
            return Err(RollupError::InsufficientBalance { address: sender });
        }
        proof {
            lemma_balance_le_sum(s0, idx as int);
            lemma_sum_nonneg(s0);
        }
        let debited = Account { balance: acct.balance - t.amount, nonce: t.nonce };
        upsert_account(&mut self.accounts, sender, debited);
        let ghost s1 = self.accounts@;
        proof {
            lemma_sorted_distinct(s1);
            lemma_map_domain(s1);
            lemma_map_values(s1);
        }
        let destination = t.destination;
        let found = find_account(&self.accounts, &destination);
        let dest_acct = match found {
            Some(i) => self.accounts[i].1,
            None => Account { balance: 0, nonce: 0 },
        };
        proof {
            if found is Some {
                let i = found->0;
                assert(seq_to_map(s1)[destination] == s1[i as int].1);
                lemma_balance_le_sum(s1, i as int);
            } else {
                if seq_to_map(s1).contains_key(destination) {
                    assert(has_key(s1, destination));
                }
            }
            lemma_sum_nonneg(s1);
        }
        let credited = Account { balance: dest_acct.balance + t.amount, nonce: dest_acct.nonce };
        upsert_account(&mut self.accounts, destination, credited);
        proof {
            assert(seq_to_map(self.accounts@) == seq_to_map(s1).insert(destination, credited));
        }
        Ok(())
    }

    /// Apply one signed transaction: recover the sender from the signature
    /// over the canonical encoding, then apply. Exactly the transition
    /// `apply_signed_spec`; any failure leaves the ledger untouched, and the
    /// total supply is conserved in every case.
    pub fn apply_transaction(&mut self, transaction: &SignedTransaction) -> (r: Result<
        (),
        RollupError,
    >)
        requires
            old(self).wf(),
        ensures
            final(self).wf(),
            final(self).vm_spec() == old(self).vm_spec(),
            final(self).nmt_commitment() == old(self).nmt_commitment(),
            final(self).prev_commitment() == old(self).prev_commitment(),
            sum_balances(final(self).repr()) == sum_balances(old(self).repr()),
            (match r {
                Ok(_) => apply_signed_spec(old(self).accounts_map(), *transaction) == Ok::<
                    Map<Address, Account>,
                    RollupError,
                >(final(self).accounts_map()),
                Err(e) => apply_signed_spec(old(self).accounts_map(), *transaction) == Err::<
                    Map<Address, Account>,
                    RollupError,
                >(e) && *final(self) == *old(self),
            }),
    {
        let sender = match transaction.recover() {
            Ok(a) => a,
            Err(e) => {
                return Err(e);
            },
        };
        self.apply_from(sender, &transaction.transaction)
    }

    /// Commit to the current state: the digest of the canonical
    /// serialization covering the sorted accounts, the chain pointers, and
    /// the namespace id. Deterministic: see `lemma_commit_deterministic`.
    pub fn commit(&self) -> (r: Commitment)
        ensures
            r == commit_spec(*self),
    {
        let mut bytes: Vec<u8> = Vec::new();
        append_opt_commitment(&mut bytes, &self.nmt_comm);
        append_opt_commitment(&mut bytes, &self.prev_state_commitment);
        append_u64(&mut bytes, self.vm.0);
        let ghost prefix = bytes@;
        let mut i: usize = 0;
        proof {
            assert(bytes@ =~= prefix + accounts_enc(self.accounts@.subrange(0, 0)));
        }
        while i < self.accounts.len()
            invariant
                i <= self.accounts@.len(),
                bytes@ == prefix + accounts_enc(self.accounts@.subrange(0, i as int)),
            decreases self.accounts@.len() - i,
        {
            let e = self.accounts[i];
            append_u32(&mut bytes, e.0.hi);
            append_u128(&mut bytes, e.0.lo);
            append_u64(&mut bytes, e.1.balance);
            append_u64(&mut bytes, e.1.nonce);
            proof {
                let s = self.accounts@;
                assert(s.subrange(0, i + 1).drop_last() =~= s.subrange(0, i as int));
                assert(s.subrange(0, i + 1).last() == s[i as int]);
                assert(bytes@ =~= prefix + accounts_enc(s.subrange(0, i + 1)));
            }
            i += 1;
        }
        proof {
            assert(self.accounts@.subrange(0, self.accounts@.len() as int) =~= self.accounts@);
            assert(bytes@ =~= state_enc(*self));
        }
        commit_bytes(&bytes)
    }

    /// Execute one block: apply the namespace's transactions in order with
    /// best-effort semantics (an invalid or malformed transaction is logged
    /// off and skipped; it does not abort the block), update the chain
    /// pointers, and generate the block's proof. `None` means the namespace
    /// proof did not verify against the block root and this rollup's
    /// namespace id, which is fatal for the pipeline.
    pub fn execute_block(&mut self, nmt_root: &NmtRoot, namespace_proof: &NamespaceProof) -> (r:
        Option<Proof>)
        requires
            old(self).wf(),
        ensures
            final(self).wf(),
            final(self).vm_spec() == old(self).vm_spec(),
            final(self).accounts_map() == apply_leaves_spec(
                old(self).accounts_map(),
                leaves_view(*namespace_proof),
            ),
            final(self).nmt_commitment() == Some(nmt_commit_spec(*nmt_root)),
            final(self).prev_commitment() == Some(commit_spec(*old(self))),
            sum_balances(final(self).repr()) == sum_balances(old(self).repr()),
            (match r {
                Some(p) => namespace_proof.root == nmt_root.root && namespace_proof.namespace
                    == old(self).vm_spec().0 && p == (Proof {
                    block: nmt_commit_spec(*nmt_root),
                    old_state: commit_spec(*old(self)),
                    new_state: commit_spec(*final(self)),
                }),
                None => !(namespace_proof.root == nmt_root.root && namespace_proof.namespace
                    == old(self).vm_spec().0),
            }),
    {
        let state_commitment = self.commit();
        let ghost m0 = self.accounts_map();
        let ghost lv = leaves_view(*namespace_proof);
        proof {
            assert(lv.subrange(0, 0) =~= Seq::<Seq<u8>>::empty());
        }
        let n = namespace_proof.leaves.len();
        let mut i: usize = 0;
        while i < n
            invariant
                i <= lv.len(),
                n == lv.len(),
                lv == leaves_view(*namespace_proof),
                self.wf(),
                self.vm_spec() == old(self).vm_spec(),
                self.nmt_commitment() == old(self).nmt_commitment(),
                self.prev_commitment() == old(self).prev_commitment(),
                sum_balances(self.repr()) == sum_balances(old(self).repr()),
                self.accounts_map() == apply_leaves_spec(m0, lv.subrange(0, i as int)),
            decreases lv.len() - i,
        {
            let ghost pre = self.accounts_map();
            let leaf = &namespace_proof.leaves[i];
            assert(leaf@ == lv[i as int]);
            match SignedTransaction::decode(leaf.as_slice()) {
                Some(stx) => {
                    let _ = self.apply_transaction(&stx);
                },
                None => {},
            }
            proof {
                assert(lv.subrange(0, i + 1).drop_last() =~= lv.subrange(0, i as int));
                assert(lv.subrange(0, i + 1).last() == lv[i as int]);
                assert(self.accounts_map() == apply_leaf_spec(pre, lv[i as int]));
            }
            i += 1;
        }
        proof {
            assert(lv.subrange(0, lv.len() as int) =~= lv);
        }
        self.nmt_comm = Some(nmt_root.commit());
        self.prev_state_commitment = Some(state_commitment);
        let new_commitment = self.commit();
        Proof::generate(nmt_root, new_commitment, state_commitment, namespace_proof, &self.vm)
    }
}

/// Determinism of the commitment: two well-formed ledgers with equal logical
/// accounts (however their stores were built), equal chain pointers and
/// equal namespace ids commit identically.
pub proof fn lemma_commit_deterministic(s1: State, s2: State)
    requires
        s1.wf(),
        s2.wf(),
        s1.accounts_map() == s2.accounts_map(),
        s1.nmt_commitment() == s2.nmt_commitment(),
        s1.prev_commitment() == s2.prev_commitment(),
        s1.vm_spec() == s2.vm_spec(),
    ensures
        commit_spec(s1) == commit_spec(s2),
{
    lemma_sorted_canonical(s1.repr(), s2.repr());
}

/// Non-negativity: no balance is ever negative, and neither is the total
/// supply; balances are unsigned and every debit is covered.
pub proof fn lemma_balances_nonnegative(s: State)
    requires
        s.wf(),
    ensures
        forall|a: Address|
            s.accounts_map().contains_key(a) ==> s.accounts_map()[a].balance >= 0,
        sum_balances(s.repr()) >= 0,
{
    lemma_sum_nonneg(s.repr());
}

/// Conservation: a successful ledger transition moves balance between
/// accounts but never changes the total supply. Stated over any sorted
/// stores holding the account maps before and after the transition, with a
/// total supply that fits a `u64`, as every well-formed ledger has.
/// (Failed transitions return the error and leave the map untouched, so any
/// sequence of `apply_transaction` calls keeps the sum invariant.)
pub proof fn lemma_conservation(
    v1: Seq<(Address, Account)>,
    v2: Seq<(Address, Account)>,
    sender: Address,
    t: Transaction,
)
    requires
        sorted(v1),
        sorted(v2),
        sum_balances(v1) <= u64::MAX,
        apply_spec(seq_to_map(v1), sender, t) == Ok::<Map<Address, Account>, RollupError>(
            seq_to_map(v2),
        ),
    ensures
        sum_balances(v2) == sum_balances(v1),
{
    let m1 = seq_to_map(v1);
    lemma_sorted_distinct(v1);
    lemma_map_domain(v1);
    lemma_map_values(v1);
    let a1 = m1[sender];
    let debited = Account { balance: (a1.balance - t.amount) as u64, nonce: t.nonce };
    let i = choose|i: int| 0 <= i < v1.len() && (#[trigger] v1[i]).0 == sender;
    lemma_update_entry(v1, i, sender, debited);
    let vmid = v1.update(i, (sender, debited));
    lemma_sum_update(v1, i, (sender, debited));
    assert(sum_balances(vmid) == sum_balances(v1) - t.amount);
    let mmid = seq_to_map(vmid);
    lemma_sorted_distinct(vmid);
    lemma_map_domain(vmid);
    lemma_map_values(vmid);
    let dest_old = if mmid.contains_key(t.destination) {
        mmid[t.destination]
    } else {
        Account { balance: 0, nonce: 0 }
    };
    if mmid.contains_key(t.destination) {
        let k = choose|k: int| 0 <= k < vmid.len() && (#[trigger] vmid[k]).0 == t.destination;
        lemma_balance_le_sum(vmid, k);
    }
    assert(dest_old.balance + t.amount <= u64::MAX);
    let credited = Account { balance: (dest_old.balance + t.amount) as u64, nonce: dest_old.nonce };
    assert(seq_to_map(v2) == mmid.insert(t.destination, credited));
    lemma_sum_map_insert(vmid, v2, t.destination, credited);
}

/// Nonce monotonicity: a transaction applies successfully only when its
/// nonce is exactly one more than the sender's, and then the sender's nonce
/// becomes the transaction's. (Failures leave the ledger untouched: see the
/// contracts of `apply_from` and `apply_transaction`.)
pub proof fn lemma_nonce_monotonic(m: Map<Address, Account>, sender: Address, t: Transaction)
    ensures
        apply_spec(m, sender, t) is Ok ==> m.contains_key(sender) && t.nonce == m[sender].nonce
            + 1,
        apply_spec(m, sender, t) is Ok ==> apply_spec(m, sender, t)->Ok_0.contains_key(sender)
            && apply_spec(m, sender, t)->Ok_0[sender].nonce == t.nonce,
{
}

} // verus!
