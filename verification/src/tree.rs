//! The account-tree arena: this library's model of the sparse Merkle account
//! tree. Each account leaf owns a balance sub-tree keyed by token id and an
//! obsolete-nonce signal sub-tree keyed by nonce value.
//!
//! The arena holds the leaf contents and exposes one atomic
//! read-audit-path / mutate-leaf / return-before-and-after primitive. The
//! Merkle hashing itself (root digests, sibling hashes) belongs to an
//! outside collaborator: two arenas with equal leaf contents hash to equal
//! roots, so equality of observable contents stands for equality of roots
//! throughout this crate.

use vstd::prelude::*;
use crate::params::MAX_ACCOUNT_ID;
use crate::tx::{Address, PubKeyHash};

verus! {

/// One token balance held by an account.
#[derive(Clone, Copy, PartialEq, Eq, Structural, Debug)]
pub struct Balance {
    pub token: u32,
    pub amount: u128,
}

/// A nonce value being marked obsolete.
#[derive(Clone, Copy, PartialEq, Eq, Structural, Debug)]
pub struct Obsolete {
    pub nonce: u32,
}

impl Obsolete {
    pub fn new(nonce: u32) -> (r: Self)
        ensures
            r == (Obsolete { nonce }),
    {
        Obsolete { nonce }
    }
}

/// The balance recorded for `token`: the first entry that names it, or zero
/// when none does.
pub open spec fn balance_in(s: Seq<Balance>, token: u32) -> u128
    decreases s.len(),
{
    if s.len() == 0 {
        0
    } else if s[0].token == token {
        s[0].amount
    } else {
        balance_in(s.skip(1), token)
    }
}

/// One account leaf: signing-key hash, address, token balances and the set
/// of revoked (obsolete) nonce values.
#[derive(Clone, PartialEq, Eq, Debug)]
pub struct Account {
    pub pub_key_hash: PubKeyHash,
    pub address: Address,
    pub balances: Vec<Balance>,
    pub obsoletes: Vec<u32>,
}

impl Account {
    /// Each token appears at most once in the balance list.
    pub open spec fn wf(self) -> bool {
        forall|i: int, j: int|
            0 <= i < j < self.balances@.len() ==> self.balances@[i].token
                != self.balances@[j].token
    }

    /// The balance held in `token`; zero when the token was never touched.
    pub open spec fn balance_of(self, token: u32) -> u128 {
        balance_in(self.balances@, token)
    }

    /// Whether `nonce` is already a member of the obsolete set.
    pub open spec fn obsolete_contains(self, nonce: u32) -> bool {
        self.obsoletes@.contains(nonce)
    }

    /// A fresh account with no balances and no obsolete nonces.
    pub fn new(pub_key_hash: PubKeyHash, address: Address) -> (r: Account)
        ensures
            r.wf(),
            r.pub_key_hash == pub_key_hash,
            r.address == address,
            forall|t: u32| r.balance_of(t) == 0,
            forall|n: u32| !r.obsolete_contains(n),
    {
        let r = Account { pub_key_hash, address, balances: Vec::new(), obsoletes: Vec::new() };
        proof {
            assert(forall|t: u32| balance_in(r.balances@, t) == 0);
        }
        r
    }

    /// The balance held in `token`.
    pub fn get_balance(&self, token: u32) -> (r: u128)
        ensures
            r == self.balance_of(token),
    {
        let mut i: usize = 0;
        while i < self.balances.len()
            invariant
                i <= self.balances@.len(),
                forall|j: int| 0 <= j < i ==> self.balances@[j].token != token,
            decreases self.balances@.len() - i,
        {
            if self.balances[i].token == token {
                proof {
                    lemma_balance_in_first(self.balances@, token, i as int);
                }
                return self.balances[i].amount;
            }
            i = i + 1;
        }
        proof {
            lemma_balance_in_none(self.balances@, token);
        }
        0
    }

    /// Overwrite the balance held in `token`; every other token keeps its
    /// balance, and the metadata and obsolete set stay untouched.
    pub fn set_balance(&mut self, token: u32, amount: u128)
        requires
            old(self).wf(),
        ensures
            final(self).wf(),
            final(self).balance_of(token) == amount,
            forall|t: u32| t != token ==> final(self).balance_of(t) == old(self).balance_of(t),
            final(self).pub_key_hash == old(self).pub_key_hash,
            final(self).address == old(self).address,
            final(self).obsoletes == old(self).obsoletes,
    {
        let ghost s0 = self.balances@;
        let mut i: usize = 0;
        while i < self.balances.len()
            invariant
                *self == *old(self),
                old(self).wf(),
                s0 == old(self).balances@,
                i <= self.balances@.len(),
                forall|j: int| 0 <= j < i ==> s0[j].token != token,
            decreases self.balances@.len() - i,
        {
            if self.balances[i].token == token {
                self.balances[i] = Balance { token, amount };
                proof {
                    let s1 = self.balances@;
                    assert(s1 == s0.update(i as int, Balance { token, amount }));
                    lemma_balance_in_first(s1, token, i as int);
                    assert forall|t: u32| t != token implies balance_in(s1, t) == balance_in(
                        s0,
                        t,
                    ) by {
                        lemma_balance_in_update_other(
                            s0,
                            i as int,
                            Balance { token, amount },
                            t,
                        );
                    }
                }
                return ;
            }
            i = i + 1;
        }
        self.balances.push(Balance { token, amount });
        proof {
            let s1 = self.balances@;
            assert(s1 == s0.push(Balance { token, amount }));
            lemma_balance_in_first(s1, token, s0.len() as int);
            assert forall|t: u32| t != token implies balance_in(s1, t) == balance_in(s0, t) by {
                lemma_balance_in_push_other(s0, Balance { token, amount }, t);
            }
        }
    }

    /// Whether `nonce` is already a member of the obsolete set.
    pub fn has_obsolete(&self, nonce: u32) -> (r: bool)
        ensures
            r == self.obsolete_contains(nonce),
    {
        let mut i: usize = 0;
        while i < self.obsoletes.len()
            invariant
                i <= self.obsoletes@.len(),
                forall|j: int| 0 <= j < i ==> self.obsoletes@[j] != nonce,
            decreases self.obsoletes@.len() - i,
        {
            if self.obsoletes[i] == nonce {
                return true;
            }
            i = i + 1;
        }
        false
    }

    /// Mark a nonce obsolete. The obsolete set gains exactly this nonce (a
    /// nonce already present stays present: the set only grows); balances
    /// and metadata stay untouched.
    pub fn apply_obsolete(&mut self, obsolete: Obsolete)
        requires
            old(self).wf(),
        ensures
            final(self).wf(),
            forall|n: u32|
                final(self).obsolete_contains(n) == (old(self).obsolete_contains(n) || n
                    == obsolete.nonce),
            final(self).pub_key_hash == old(self).pub_key_hash,
            final(self).address == old(self).address,
            final(self).balances == old(self).balances,
    {
        let ghost s0 = self.obsoletes@;
        if !self.has_obsolete(obsolete.nonce) {
            self.obsoletes.push(obsolete.nonce);
            proof {
                let s1 = self.obsoletes@;
                assert forall|n: u32| s1.contains(n) == (s0.contains(n) || n
                    == obsolete.nonce) by {
                    if s0.contains(n) {
                        let j = choose|j: int| 0 <= j < s0.len() && s0[j] == n;
                        assert(s1[j] == n);
                    }
                    if n == obsolete.nonce {
                        assert(s1[s0.len() as int] == n);
                    }
                    if s1.contains(n) {
                        let j = choose|j: int| 0 <= j < s1.len() && s1[j] == n;
                        if j < s0.len() {
                            assert(s0[j] == n);
                        }
                    }
                }
            }
        }
    }
}

/// One slot of the arena: an account leaf and the id it sits under.
#[derive(Clone, PartialEq, Eq, Debug)]
pub struct TreeEntry {
    pub id: u32,
    pub account: Account,
}

/// Whether some slot holds `id`.
pub open spec fn seq_has(s: Seq<TreeEntry>, id: u32) -> bool {
    exists|j: int| 0 <= j < s.len() && s[j].id == id
}

/// The slot holding `id`.
pub open spec fn seq_idx(s: Seq<TreeEntry>, id: u32) -> int {
    choose|j: int| 0 <= j < s.len() && s[j].id == id
}

/// No two slots hold the same id.
pub open spec fn seq_ids_unique(s: Seq<TreeEntry>) -> bool {
    forall|i: int, j: int| 0 <= i < j < s.len() ==> s[i].id != s[j].id
}

/// A slot that holds `id` is the slot of `id`.
pub proof fn lemma_seq_idx(s: Seq<TreeEntry>, i: int, id: u32)
    requires
        seq_ids_unique(s),
        0 <= i < s.len(),
        s[i].id == id,
    ensures
        seq_has(s, id),
        seq_idx(s, id) == i,
{
    assert(seq_has(s, id));
    let j = seq_idx(s, id);
    assert(0 <= j < s.len() && s[j].id == id);
    if i < j {
        assert(s[i].id != s[j].id);
    }
    if j < i {
        assert(s[j].id != s[i].id);
    }
}

/// What one atomic leaf update may do to the balance slot.
#[derive(Clone, Copy, PartialEq, Eq, Structural, Debug)]
pub enum BalanceUpdate {
    Add(u128),
    Sub(u128),
}

/// The balance after an update.
pub open spec fn updated_amount(before: u128, update: BalanceUpdate) -> u128 {
    match update {
        BalanceUpdate::Add(a) => (before + a) as u128,
        BalanceUpdate::Sub(a) => (before - a) as u128,
    }
}

/// Whether an update stays within the machine bounds of a balance.
pub open spec fn update_fits(before: u128, update: BalanceUpdate) -> bool {
    match update {
        BalanceUpdate::Add(a) => before + a <= u128::MAX,
        BalanceUpdate::Sub(a) => a <= before,
    }
}

/// Bit `k` of a leaf key: the turn its route takes at level `k`, counted
/// from the bottom of the tree.
pub open spec fn route_bit(key: u32, k: int) -> bool {
    (key >> (k as u32)) & 1 == 1
}

/// The account-leaf metadata captured for the circuit.
#[derive(Clone, Copy, PartialEq, Eq, Structural, Debug)]
pub struct AccountWitness {
    pub pub_key_hash: PubKeyHash,
    pub address: Address,
}

/// Before/after leaf values captured by one atomic leaf update.
#[derive(Clone, Copy, PartialEq, Eq, Structural, Debug)]
pub struct LeafOperation {
    pub witness_before: AccountWitness,
    pub witness_after: AccountWitness,
    pub balance_before: u128,
    pub balance_after: u128,
    pub signal_before: bool,
    pub signal_after: bool,
}

/// The account-tree arena.
#[derive(Clone, PartialEq, Eq, Debug)]
pub struct AccountTree {
    pub accounts: Vec<TreeEntry>,
}

/// The one observable change an erase makes to the tree: the target
/// account's fee-token balance drops by the fee, its obsolete set gains the
/// nonce, and nothing else — no other account, balance, signal or piece of
/// metadata moves. The Merkle root is a function of these observations, so
/// two transitions relating equal pre-trees end in trees of equal root.
pub open spec fn erase_transition(
    pre: AccountTree,
    post: AccountTree,
    id: u32,
    token: u32,
    fee: u128,
    nonce: u32,
) -> bool {
    &&& forall|i: u32| post.has_account(i) == pre.has_account(i)
    &&& forall|i: u32|
        pre.has_account(i) ==> (#[trigger] post.spec_account(i)).pub_key_hash
            == pre.spec_account(i).pub_key_hash && post.spec_account(i).address
            == pre.spec_account(i).address
    &&& post.balance_of(id, token) == pre.balance_of(id, token) - fee
    &&& forall|i: u32, t: u32|
        !(i == id && t == token) ==> #[trigger] post.balance_of(i, t) == pre.balance_of(i, t)
    &&& post.is_obsolete(id, nonce)
    &&& forall|i: u32, m: u32|
        !(i == id && m == nonce) ==> #[trigger] post.is_obsolete(i, m) == pre.is_obsolete(i, m)
}

/// Observable equality of two trees: same accounts, same metadata, same
/// balances, same obsolete signals. The Merkle collaborator hashes equal
/// contents to equal roots.
pub open spec fn trees_equiv(a: AccountTree, b: AccountTree) -> bool {
    &&& forall|i: u32| a.has_account(i) == b.has_account(i)
    &&& forall|i: u32|
        a.has_account(i) ==> (#[trigger] a.spec_account(i)).pub_key_hash == b.spec_account(
            i,
        ).pub_key_hash && a.spec_account(i).address == b.spec_account(i).address
    &&& forall|i: u32, t: u32| #[trigger] a.balance_of(i, t) == b.balance_of(i, t)
    &&& forall|i: u32, n: u32| #[trigger] a.is_obsolete(i, n) == b.is_obsolete(i, n)
}

impl AccountTree {
    /// Whether an account leaf exists under `id`.
    pub open spec fn has_account(self, id: u32) -> bool {
        seq_has(self.accounts@, id)
    }

    /// The account leaf under `id`.
    pub open spec fn spec_account(self, id: u32) -> Account {
        self.accounts@[seq_idx(self.accounts@, id)].account
    }

    /// Ids are unique, every leaf is well formed, every id addressable.
    pub open spec fn wf(self) -> bool {
        &&& seq_ids_unique(self.accounts@)
        &&& forall|j: int|
            0 <= j < self.accounts@.len() ==> (#[trigger] self.accounts@[j]).account.wf()
                && self.accounts@[j].id <= MAX_ACCOUNT_ID
    }

    /// The balance of `(id, token)`; zero for an absent account or token.
    pub open spec fn balance_of(self, id: u32, token: u32) -> u128 {
        if self.has_account(id) {
            self.spec_account(id).balance_of(token)
        } else {
            0
        }
    }

    /// Whether the obsolete-signal leaf of `(id, nonce)` is raised.
    pub open spec fn is_obsolete(self, id: u32, nonce: u32) -> bool {
        self.has_account(id) && self.spec_account(id).obsolete_contains(nonce)
    }

    /// An empty tree.
    pub fn new() -> (r: AccountTree)
        ensures
            r.wf(),
            forall|i: u32| !r.has_account(i),
    {
        AccountTree { accounts: Vec::new() }
    }

    /// The slot index of `id`, when one exists.
    fn find_index(&self, id: u32) -> (r: Option<usize>)
        ensures
            r matches Some(i) ==> i < self.accounts@.len() && self.accounts@[i as int].id == id,
            r is None ==> !self.has_account(id),
    {
        let mut i: usize = 0;
        while i < self.accounts.len()
            invariant
                i <= self.accounts@.len(),
                forall|j: int| 0 <= j < i ==> self.accounts@[j].id != id,
            decreases self.accounts@.len() - i,
        {
            if self.accounts[i].id == id {
                return Some(i);
            }
            i = i + 1;
        }
        None
    }

    /// Read the account leaf under `id`.
    pub fn get_account(&self, id: u32) -> (r: Option<&Account>)
        requires
            seq_ids_unique(self.accounts@),
        ensures
            self.has_account(id) ==> (r matches Some(a) && *a == self.spec_account(id)),
            !self.has_account(id) ==> r is None,
    {
        match self.find_index(id) {
            Some(i) => {
                proof {
                    lemma_seq_idx(self.accounts@, i as int, id);
                }
                Some(&self.accounts[i].account)
            },
            None => None,
        }
    }

    /// Register a fresh account leaf under `id`. Every other leaf stays as
    /// it was.
    pub fn insert_account(&mut self, id: u32, account: Account)
        requires
            old(self).wf(),
            !old(self).has_account(id),
            id <= MAX_ACCOUNT_ID,
            account.wf(),
        ensures
            final(self).wf(),
            final(self).has_account(id),
            final(self).spec_account(id) == account,
            forall|i: u32| i != id ==> final(self).has_account(i) == old(self).has_account(i),
            forall|i: u32|
                i != id && old(self).has_account(i) ==> #[trigger] final(self).spec_account(i)
                    == old(self).spec_account(i),
    {
        let ghost s0 = self.accounts@;
        self.accounts.push(TreeEntry { id, account });
        proof {
            let s1 = self.accounts@;
            let n = s0.len() as int;
            assert(s1[n].id == id);
            assert forall|a: int, b: int| 0 <= a < b < s1.len() implies s1[a].id != s1[b].id by {
                if b < n {
                    assert(s0[a].id != s0[b].id);
                } else {
                    assert(s1[b].id == id);
                    if s0[a].id == id {
                        assert(seq_has(s0, id));
                    }
                }
            }
            lemma_seq_idx(s1, n, id);
            assert forall|i: u32| i != id implies seq_has(s1, i) == seq_has(s0, i) by {
                if seq_has(s0, i) {
                    let j = seq_idx(s0, i);
                    assert(s1[j].id == i);
                }
                if seq_has(s1, i) {
                    let j = choose|j: int| 0 <= j < s1.len() && s1[j].id == i;
                    assert(j < n);
                    assert(s0[j].id == i);
                }
            }
            assert forall|i: u32| i != id && seq_has(s0, i) implies self.spec_account(i)
                == old(self).spec_account(i) by {
                let j = seq_idx(s0, i);
                assert(0 <= j < s0.len() && s0[j].id == i);
                lemma_seq_idx(s1, j, i);
            }
        }
    }

    /// The audit-path location bits for one `(account, token, nonce)`
    /// triple: the route of each leaf through its tree, least significant
    /// key bit first. The sibling digests along these routes come from the
    /// Merkle collaborator; the arena fixes where the leaves sit.
    pub fn get_audits(&self, account_id: u32, token: u32, nonce: u32) -> (r: (
        Vec<bool>,
        Vec<bool>,
        Vec<bool>,
    ))
        ensures
            r.0@.len() == crate::params::ACCOUNT_TREE_DEPTH,
            forall|k: int| 0 <= k < r.0@.len() ==> r.0@[k] == route_bit(account_id, k),
            r.1@.len() == crate::params::BALANCE_TREE_DEPTH,
            forall|k: int| 0 <= k < r.1@.len() ==> r.1@[k] == route_bit(token, k),
            r.2@.len() == crate::params::SIGNAL_TREE_DEPTH,
            forall|k: int| 0 <= k < r.2@.len() ==> r.2@[k] == route_bit(nonce, k),
    {
        let account_path = key_bits(account_id, crate::params::ACCOUNT_TREE_DEPTH);
        let balance_path = key_bits(token, crate::params::BALANCE_TREE_DEPTH);
        let signal_path = key_bits(nonce, crate::params::SIGNAL_TREE_DEPTH);
        (account_path, balance_path, signal_path)
    }

    /// The atomic tree primitive: mutate the three leaves of one account —
    /// metadata (untouched), the `token` balance (by `update`) and the
    /// `nonce` obsolete signal (raised when `raise_signal`) — against a
    /// single snapshot, and hand back every before/after leaf value. No
    /// other leaf of the tree moves.
    pub fn apply_leaf_operation(
        &mut self,
        account_id: u32,
        token: u32,
        nonce: u32,
        update: BalanceUpdate,
        raise_signal: bool,
    ) -> (r: LeafOperation)
        requires
            old(self).wf(),
            old(self).has_account(account_id),
            update_fits(old(self).balance_of(account_id, token), update),
        ensures
            final(self).wf(),
            forall|i: u32| final(self).has_account(i) == old(self).has_account(i),
            forall|i: u32|
                old(self).has_account(i)
                    ==> (#[trigger] final(self).spec_account(i)).pub_key_hash
                        == old(self).spec_account(i).pub_key_hash
                    && final(self).spec_account(i).address == old(self).spec_account(i).address,
            final(self).balance_of(account_id, token) == updated_amount(
                old(self).balance_of(account_id, token),
                update,
            ),
            forall|i: u32, t: u32|
                !(i == account_id && t == token) ==> #[trigger] final(self).balance_of(i, t)
                    == old(self).balance_of(i, t),
            final(self).is_obsolete(account_id, nonce) == (old(self).is_obsolete(
                account_id,
                nonce,
            ) || raise_signal),
            forall|i: u32, m: u32|
                !(i == account_id && m == nonce) ==> #[trigger] final(self).is_obsolete(i, m)
                    == old(self).is_obsolete(i, m),
            r.witness_before.pub_key_hash == old(self).spec_account(account_id).pub_key_hash,
            r.witness_before.address == old(self).spec_account(account_id).address,
            r.witness_after == r.witness_before,
            r.balance_before == old(self).balance_of(account_id, token),
            r.balance_after == final(self).balance_of(account_id, token),
            r.signal_before == old(self).is_obsolete(account_id, nonce),
            r.signal_after == final(self).is_obsolete(account_id, nonce),
    {
        let ghost s0 = self.accounts@;
        let i = self.find_index(account_id).unwrap();
        proof {
            lemma_seq_idx(s0, i as int, account_id);
        }
        let mut entry = self.accounts.remove(i);
        let witness_before = AccountWitness {
            pub_key_hash: entry.account.pub_key_hash,
            address: entry.account.address,
        };
        let balance_before = entry.account.get_balance(token);
        let signal_before = entry.account.has_obsolete(nonce);
        let new_amount = match update {
            BalanceUpdate::Add(a) => balance_before + a,
            BalanceUpdate::Sub(a) => balance_before - a,
        };
        entry.account.set_balance(token, new_amount);
        if raise_signal {
            entry.account.apply_obsolete(Obsolete::new(nonce));
        }
        let balance_after = entry.account.get_balance(token);
        let signal_after = entry.account.has_obsolete(nonce);
        let witness_after = AccountWitness {
            pub_key_hash: entry.account.pub_key_hash,
            address: entry.account.address,
        };
        let ghost e2 = entry;
        self.accounts.insert(i, entry);
        proof {
            let s1 = self.accounts@;
            assert(s1 =~= s0.update(i as int, e2));
            assert(e2.id == account_id);
            assert forall|a: int, b: int| 0 <= a < b < s1.len() implies s1[a].id != s1[b].id by {
                assert(s0[a].id != s0[b].id);
            }
            assert forall|i2: u32| seq_has(s1, i2) == seq_has(s0, i2) by {
                if seq_has(s0, i2) {
                    let j = seq_idx(s0, i2);
                    assert(s1[j].id == i2);
                }
                if seq_has(s1, i2) {
                    let j = choose|j: int| 0 <= j < s1.len() && s1[j].id == i2;
                    assert(s0[j].id == i2);
                }
            }
            lemma_seq_idx(s1, i as int, account_id);
            assert forall|i2: u32|
                i2 != account_id && seq_has(s0, i2) implies self.spec_account(i2)
                == old(self).spec_account(i2) by {
                let j = seq_idx(s0, i2);
                assert(0 <= j < s0.len() && s0[j].id == i2);
                assert(j != i);
                lemma_seq_idx(s1, j, i2);
            }
            assert(self.spec_account(account_id) == e2.account);
            assert(old(self).spec_account(account_id) == s0[i as int].account);
        }
        LeafOperation {
            witness_before,
            witness_after,
            balance_before,
            balance_after,
            signal_before,
            signal_after,
        }
    }
}

/// The low `depth` bits of a key, least significant first: the route of its
/// leaf from the bottom of the tree.
fn key_bits(key: u32, depth: usize) -> (r: Vec<bool>)
    requires
        depth <= 32,
    ensures
        r@.len() == depth,
        forall|k: int| 0 <= k < depth ==> r@[k] == route_bit(key, k),
{
    let mut out: Vec<bool> = Vec::new();
    let mut k: usize = 0;
    while k < depth
        invariant
            k <= depth,
            depth <= 32,
            out@.len() == k,
            forall|j: int| 0 <= j < k ==> out@[j] == route_bit(key, j),
        decreases depth - k,
    {
        out.push((key >> (k as u32)) & 1 == 1);
        k = k + 1;
    }
    out
}

/// Value of the balance entry at the first index naming `token`, given that
/// no earlier index names it.
proof fn lemma_balance_in_first(s: Seq<Balance>, token: u32, i: int)
    requires
        0 <= i < s.len(),
        s[i].token == token,
        forall|j: int| 0 <= j < i ==> s[j].token != token,
    ensures
        balance_in(s, token) == s[i].amount,
    decreases i,
{
    if i > 0 {
        lemma_balance_in_first(s.skip(1), token, i - 1);
    }
}

/// A token named by no entry has balance zero.
proof fn lemma_balance_in_none(s: Seq<Balance>, token: u32)
    requires
        forall|j: int| 0 <= j < s.len() ==> s[j].token != token,
    ensures
        balance_in(s, token) == 0,
    decreases s.len(),
{
    if s.len() > 0 {
        lemma_balance_in_none(s.skip(1), token);
    }
}

/// Updating an entry that does not name `t` with one that does not name `t`
/// leaves the balance in `t` unchanged.
proof fn lemma_balance_in_update_other(s: Seq<Balance>, i: int, b: Balance, t: u32)
    requires
        0 <= i < s.len(),
        s[i].token != t,
        b.token != t,
    ensures
        balance_in(s.update(i, b), t) == balance_in(s, t),
    decreases s.len(),
{
    let s1 = s.update(i, b);
    if i == 0 {
        assert(s1.skip(1) =~= s.skip(1));
    } else {
        if s[0].token != t {
            assert(s1.skip(1) =~= s.skip(1).update(i - 1, b));
            lemma_balance_in_update_other(s.skip(1), i - 1, b, t);
        }
    }
}

/// Appending an entry that does not name `t` leaves the balance in `t`
/// unchanged.
proof fn lemma_balance_in_push_other(s: Seq<Balance>, b: Balance, t: u32)
    requires
        b.token != t,
    ensures
        balance_in(s.push(b), t) == balance_in(s, t),
    decreases s.len(),
{
    let s1 = s.push(b);
    if s.len() == 0 {
        assert(s1.len() == 1 && s1[0] == b);
        assert(s1.skip(1) =~= Seq::<Balance>::empty());
        assert(balance_in(s1, t) == balance_in(s1.skip(1), t));
    } else {
        assert(s1[0] == s[0]);
        assert(s1.skip(1) =~= s.skip(1).push(b));
        lemma_balance_in_push_other(s.skip(1), b, t);
    }
}

} // verus!
