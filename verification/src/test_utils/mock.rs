//! Mock transactions, a factory that skips real validation, and a state
//! provider backed by a plain table of accounts.
use vstd::prelude::*;

use crate::identifier::{SenderIdentifiers, TransactionId};
use crate::maps::{has_key, keys_unique, lemma_map_of_is, lemma_map_of_push, lemma_map_of_update_at, map_of};
use crate::ordering::PintOrdering;
use crate::primitives::account::Account;
use crate::primitives::types::{Address, ChainId, TxHash, B256, U256};
use crate::primitives::utils::now_millis;
use crate::storage::{ProviderError, StateProvider, StateProviderFactory};
use crate::traits::{PintPooledTransaction, TransactionOrigin};
use crate::validate::ValidPoolTransaction;

verus! {

/// A mock transaction validated without looking at any state.
pub type MockValidTx = ValidPoolTransaction;

/// The ordering the mock pool uses: the real one.
pub type MockOrdering = PintOrdering;

/// A hand-built transaction for tests.
#[derive(Clone, Copy, Debug)]
pub enum MockTransaction {
    Pint {
        chain_id: ChainId,
        hash: TxHash,
        sender: Address,
        fee: u128,
        nonce: u64,
        to: Address,
        value: U256,
    },
}

impl MockTransaction {
    pub open spec fn spec_hash(self) -> TxHash {
        match self {
            MockTransaction::Pint { hash, .. } => hash,
        }
    }

    pub open spec fn spec_sender(self) -> Address {
        match self {
            MockTransaction::Pint { sender, .. } => sender,
        }
    }

    pub open spec fn spec_fee(self) -> u128 {
        match self {
            MockTransaction::Pint { fee, .. } => fee,
        }
    }

    pub open spec fn spec_nonce(self) -> u64 {
        match self {
            MockTransaction::Pint { nonce, .. } => nonce,
        }
    }

    pub open spec fn spec_value(self) -> U256 {
        match self {
            MockTransaction::Pint { value, .. } => value,
        }
    }

    pub open spec fn spec_chain_id(self) -> ChainId {
        match self {
            MockTransaction::Pint { chain_id, .. } => chain_id,
        }
    }

    pub open spec fn spec_to(self) -> Address {
        match self {
            MockTransaction::Pint { to, .. } => to,
        }
    }

    /// A fresh mock transaction: random hash and addresses, everything
    /// else at its floor.
    pub fn pint_tx() -> MockTransaction {
        MockTransaction::Pint {
            chain_id: 1,
            hash: B256::random(),
            fee: 0,
            nonce: 0,
            sender: Address::random(),
            to: Address::random(),
            value: U256::zero(),
        }
    }

    /// The sender's next transaction: same fields, fresh hash, next
    /// nonce.
    pub fn next(&self) -> (r: MockTransaction)
        requires
            self.spec_nonce() < u64::MAX,
        ensures
            r.spec_nonce() == self.spec_nonce() + 1,
            r.spec_sender() == self.spec_sender(),
            r.spec_fee() == self.spec_fee(),
    {
        let mut next = *self;
        next.set_hash(B256::random());
        let n = self.get_nonce();
        next.set_nonce(n + 1);
        next
    }

    pub fn set_chain_id(&mut self, chain_id: ChainId)
        ensures
            final(self).spec_chain_id() == chain_id,
            final(self).spec_hash() == old(self).spec_hash(),
    {
        match self {
            MockTransaction::Pint { chain_id: c, .. } => {
                *c = chain_id;
            },
        }
    }

    pub fn get_chain_id(&self) -> (r: ChainId)
        ensures
            r == self.spec_chain_id(),
    {
        match self {
            MockTransaction::Pint { chain_id, .. } => *chain_id,
        }
    }

    pub fn set_hash(&mut self, hash: TxHash)
        ensures
            final(self).spec_hash() == hash,
            final(self).spec_nonce() == old(self).spec_nonce(),
            final(self).spec_sender() == old(self).spec_sender(),
            final(self).spec_fee() == old(self).spec_fee(),
            final(self).spec_value() == old(self).spec_value(),
    {
        match self {
            MockTransaction::Pint { hash: h, .. } => {
                *h = hash;
            },
        }
    }

    pub fn get_hash(&self) -> (r: TxHash)
        ensures
            r == self.spec_hash(),
    {
        match self {
            MockTransaction::Pint { hash, .. } => *hash,
        }
    }

    pub fn set_sender(&mut self, sender: Address)
        ensures
            final(self).spec_sender() == sender,
    {
        match self {
            MockTransaction::Pint { sender: s, .. } => {
                *s = sender;
            },
        }
    }

    pub fn get_sender(&self) -> (r: Address)
        ensures
            r == self.spec_sender(),
    {
        match self {
            MockTransaction::Pint { sender, .. } => *sender,
        }
    }

    pub fn set_fee(&mut self, fee: u128)
        ensures
            final(self).spec_fee() == fee,
            final(self).spec_hash() == old(self).spec_hash(),
            final(self).spec_nonce() == old(self).spec_nonce(),
            final(self).spec_sender() == old(self).spec_sender(),
            final(self).spec_value() == old(self).spec_value(),
    {
        match self {
            MockTransaction::Pint { fee: f, .. } => {
                *f = fee;
            },
        }
    }

    pub fn get_fee(&self) -> (r: u128)
        ensures
            r == self.spec_fee(),
    {
        match self {
            MockTransaction::Pint { fee, .. } => *fee,
        }
    }

    pub fn set_nonce(&mut self, nonce: u64)
        ensures
            final(self).spec_nonce() == nonce,
            final(self).spec_hash() == old(self).spec_hash(),
            final(self).spec_sender() == old(self).spec_sender(),
            final(self).spec_fee() == old(self).spec_fee(),
            final(self).spec_value() == old(self).spec_value(),
    {
        match self {
            MockTransaction::Pint { nonce: n, .. } => {
                *n = nonce;
            },
        }
    }

    pub fn get_nonce(&self) -> (r: u64)
        ensures
            r == self.spec_nonce(),
    {
        match self {
            MockTransaction::Pint { nonce, .. } => *nonce,
        }
    }

    pub fn set_to(&mut self, to: Address)
        ensures
            final(self).spec_to() == to,
            final(self).spec_hash() == old(self).spec_hash(),
    {
        match self {
            MockTransaction::Pint { to: t, .. } => {
                *t = to;
            },
        }
    }

    pub fn get_to(&self) -> (r: Address)
        ensures
            r == self.spec_to(),
    {
        match self {
            MockTransaction::Pint { to, .. } => *to,
        }
    }

    pub fn set_value(&mut self, value: U256)
        ensures
            final(self).spec_value() == value,
            final(self).spec_hash() == old(self).spec_hash(),
            final(self).spec_nonce() == old(self).spec_nonce(),
            final(self).spec_sender() == old(self).spec_sender(),
            final(self).spec_fee() == old(self).spec_fee(),
    {
        match self {
            MockTransaction::Pint { value: v, .. } => {
                *v = value;
            },
        }
    }

    pub fn get_value(&self) -> (r: U256)
        ensures
            r == self.spec_value(),
    {
        match self {
            MockTransaction::Pint { value, .. } => *value,
        }
    }

    pub fn sender(&self) -> (r: Address)
        ensures
            r == self.spec_sender(),
    {
        self.get_sender()
    }

    /// The pool-facing reading of this mock: the supported type, its bid
    /// equal to its fee.
    pub fn to_pooled(&self) -> (r: PintPooledTransaction)
        ensures
            r == (PintPooledTransaction {
                tx_type: 0,
                chain_id: self.spec_chain_id(),
                hash: self.spec_hash(),
                sender: self.spec_sender(),
                fee: self.spec_fee(),
                nonce: self.spec_nonce(),
                value: self.spec_value(),
            }),
    {
        match self {
            MockTransaction::Pint { chain_id, hash, sender, fee, nonce, to: _, value } => {
                PintPooledTransaction {
                    tx_type: 0,
                    chain_id: *chain_id,
                    hash: *hash,
                    sender: *sender,
                    fee: *fee,
                    nonce: *nonce,
                    value: *value,
                }
            },
        }
    }
}

/// Turns mocks into validated pool transactions with no validation at
/// all, interning senders along the way.
pub struct MockTransactionFactory {
    pub ids: SenderIdentifiers,
}

impl MockTransactionFactory {
    /// The id the registry assigns this mock's sender and nonce: the
    /// interned sender id, so two mocks of one sender share their slot.
    pub fn tx_id(&mut self, tx: &MockTransaction) -> (r: TransactionId)
        requires
            old(self).ids.wf(),
            old(self).ids.id < u64::MAX,
        ensures
            final(self).ids.wf(),
            r == (TransactionId {
                sender: crate::interned_id(old(self).ids, tx.spec_sender()),
                nonce: tx.spec_nonce(),
            }),
            final(self).ids.addr_map().dom().contains(tx.spec_sender()) && final(self).ids.addr_map()[tx.spec_sender()] == r.sender,
    {
        let sender = self.ids.sender_id_or_create(tx.sender());
        TransactionId::new(sender, tx.get_nonce())
    }

    /// A mock validated as if it came from a peer.
    pub fn validate(&mut self, transaction: MockTransaction) -> (r: MockValidTx)
        requires
            old(self).ids.wf(),
            old(self).ids.id < u64::MAX,
        ensures
            final(self).ids.wf(),
            r.wf(),
            r.transaction == transaction.to_pooled_spec(),
            r.transaction_id == (TransactionId {
                sender: crate::interned_id(old(self).ids, transaction.spec_sender()),
                nonce: transaction.spec_nonce(),
            }),
            final(self).ids.addr_map().dom().contains(transaction.spec_sender()) && final(self).ids.addr_map()[transaction.spec_sender()] == r.transaction_id.sender,
            r.origin == TransactionOrigin::External,
    {
        self.validated_with_origin(TransactionOrigin::External, transaction)
    }

    /// A mock validated under the given origin: keyed and stamped, with
    /// no checks made.
    pub fn validated_with_origin(
        &mut self,
        origin: TransactionOrigin,
        transaction: MockTransaction,
    ) -> (r: MockValidTx)
        requires
            old(self).ids.wf(),
            old(self).ids.id < u64::MAX,
        ensures
            final(self).ids.wf(),
            r.wf(),
            r.transaction == transaction.to_pooled_spec(),
            r.transaction_id == (TransactionId {
                sender: crate::interned_id(old(self).ids, transaction.spec_sender()),
                nonce: transaction.spec_nonce(),
            }),
            final(self).ids.addr_map().dom().contains(transaction.spec_sender()) && final(self).ids.addr_map()[transaction.spec_sender()] == r.transaction_id.sender,
            r.origin == origin,
    {
        let transaction_id = self.tx_id(&transaction);
        MockValidTx {
            transaction: transaction.to_pooled(),
            transaction_id,
            origin,
            timestamp: now_millis(),
        }
    }
}

impl MockTransaction {
    /// The spec-level counterpart of [`MockTransaction::to_pooled`].
    pub open spec fn to_pooled_spec(self) -> PintPooledTransaction {
        PintPooledTransaction {
            tx_type: 0,
            chain_id: self.spec_chain_id(),
            hash: self.spec_hash(),
            sender: self.spec_sender(),
            fee: self.spec_fee(),
            nonce: self.spec_nonce(),
            value: self.spec_value(),
        }
    }
}

impl Default for MockTransactionFactory {
    fn default() -> (r: MockTransactionFactory)
        ensures
            r.ids.wf(),
            r.ids.id == 0,
    {
        MockTransactionFactory { ids: SenderIdentifiers::new() }
    }
}

/// An account a test seeds the provider with.
pub struct ExtendedAccount {
    pub account: Account,
}

impl ExtendedAccount {
    pub fn new(nonce: u64, balance: U256) -> (r: ExtendedAccount)
        ensures
            r.account == (Account { nonce, balance }),
    {
        ExtendedAccount { account: Account { nonce, balance } }
    }
}

/// A state provider over a plain table of accounts.
pub struct MockPintProvider {
    pub accounts: Vec<(Address, Account)>,
}

impl MockPintProvider {
    /// Seeds or overwrites one account.
    #[verifier::loop_isolation(false)]
    pub fn add_account(&mut self, address: Address, account: ExtendedAccount)
        requires
            keys_unique(old(self).accounts@),
        ensures
            keys_unique(final(self).accounts@),
            map_of(final(self).accounts@) == map_of(old(self).accounts@).insert(
                address,
                account.account,
            ),
    {
        let n: usize = self.accounts.len();
        let mut i: usize = 0;
        while i < n
            invariant
                n == self.accounts@.len(),
                i <= n,
                *self == *old(self),
                forall|j: int| 0 <= j < i ==> (#[trigger] self.accounts@[j]).0 != address,
            decreases n - i,
        {
            let p = self.accounts[i];
            if p.0 == address {
                proof {
                    assert((self.accounts@[i as int]).0 == address);
                    lemma_map_of_update_at(self.accounts@, i as int, account.account);
                }
                self.accounts[i] = (address, account.account);
                return ;
            }
            i += 1;
        }
        proof {
            assert(!has_key(self.accounts@, address));
            lemma_map_of_push(self.accounts@, (address, account.account));
        }
        self.accounts.push((address, account.account));
    }
}

impl Default for MockPintProvider {
    fn default() -> (r: MockPintProvider)
        ensures
            keys_unique(r.accounts@),
            map_of(r.accounts@) == Map::<Address, Account>::empty(),
    {
        MockPintProvider { accounts: Vec::new() }
    }
}

impl StateProvider for MockPintProvider {
    open spec fn spec_accounts(&self) -> Map<Address, Account> {
        map_of(self.accounts@)
    }

    open spec fn wf(&self) -> bool {
        keys_unique(self.accounts@)
    }

    #[verifier::loop_isolation(false)]
    fn basic_account(&self, address: &Address) -> (r: Result<Option<Account>, ProviderError>) {
        proof {
            lemma_map_of_is(self.accounts@);
        }
        let n: usize = self.accounts.len();
        let mut i: usize = 0;
        while i < n
            invariant
                n == self.accounts@.len(),
                i <= n,
                forall|j: int| 0 <= j < i ==> (#[trigger] self.accounts@[j]).0 != *address,
            decreases n - i,
        {
            let p = self.accounts[i];
            if p.0 == *address {
                proof {
                    assert((self.accounts@[i as int]).0 == *address);
                }
                return Ok(Some(p.1));
            }
            i += 1;
        }
        proof {
            assert(!has_key(self.accounts@, *address));
        }
        Ok(None)
    }
}

/// A state provider whose snapshot source is down: every request fails,
/// so admissions end in a transient import error.
pub struct UnreachableProvider;

impl StateProvider for UnreachableProvider {
    open spec fn spec_accounts(&self) -> Map<Address, Account> {
        Map::empty()
    }

    open spec fn wf(&self) -> bool {
        true
    }

    fn basic_account(&self, address: &Address) -> (r: Result<Option<Account>, ProviderError>) {
        Err(ProviderError::InvalidSomething)
    }
}

impl StateProviderFactory for UnreachableProvider {
    type Provider = UnreachableProvider;

    open spec fn spec_latest_accounts(&self) -> Map<Address, Account> {
        Map::empty()
    }

    open spec fn wf(&self) -> bool {
        true
    }

    fn latest(&self) -> (r: Result<UnreachableProvider, ProviderError>) {
        Err(ProviderError::InvalidSomething)
    }
}

impl StateProviderFactory for MockPintProvider {
    type Provider = MockPintProvider;

    open spec fn spec_latest_accounts(&self) -> Map<Address, Account> {
        map_of(self.accounts@)
    }

    open spec fn wf(&self) -> bool {
        keys_unique(self.accounts@)
    }

    #[verifier::loop_isolation(false)]
    fn latest(&self) -> (r: Result<MockPintProvider, ProviderError>) {
        let n: usize = self.accounts.len();
        let mut out: Vec<(Address, Account)> = Vec::new();
        let mut i: usize = 0;
        while i < n
            invariant
                n == self.accounts@.len(),
                i <= n,
                out@ == self.accounts@.take(i as int),
            decreases n - i,
        {
            proof {
                assert(self.accounts@.take(i as int + 1) =~= self.accounts@.take(i as int).push(
                    self.accounts@[i as int],
                ));
            }
            out.push(self.accounts[i]);
            i += 1;
        }
        proof {
            assert(out@ =~= self.accounts@);
        }
        Ok(MockPintProvider { accounts: out })
    }
}

} // verus!
