use vstd::prelude::*;

use crate::account::AccountId;
use crate::rates::fits;

verus! {

/// One account's balance in a [`Ledger`].
#[derive(Clone, Copy, Debug, PartialEq, Eq, Structural)]
pub struct LedgerEntry {
    pub account: AccountId,
    pub amount: u128,
}

/// The amount that `m` records for `a`, zero when `a` has no entry.
pub open spec fn amount_of(m: Map<AccountId, nat>, a: AccountId) -> int {
    if m.contains_key(a) {
        m[a] as int
    } else {
        0
    }
}

/// The mapping that a sequence of entries describes (a later entry wins).
pub open spec fn map_of(s: Seq<LedgerEntry>) -> Map<AccountId, nat>
    decreases s.len(),
{
    if s.len() == 0 {
        Map::empty()
    } else {
        map_of(s.drop_last()).insert(s.last().account, s.last().amount as nat)
    }
}

/// No account appears twice.
pub open spec fn keys_unique(s: Seq<LedgerEntry>) -> bool {
    forall|i: int, j: int| 0 <= i < j < s.len() ==> s[i].account != s[j].account
}

/// The sum of all amounts recorded in a finite mapping.
pub open spec fn map_sum(m: Map<AccountId, nat>) -> int
    decreases m.dom().len(),
{
    if m.dom().finite() && m.dom().len() > 0 {
        let k = m.dom().choose();
        m[k] + map_sum(m.remove(k))
    } else {
        0
    }
}

pub proof fn lemma_map_of_finite(s: Seq<LedgerEntry>)
    ensures
        map_of(s).dom().finite(),
    decreases s.len(),
{
    if s.len() > 0 {
        lemma_map_of_finite(s.drop_last());
    }
}

pub proof fn lemma_map_of_contains(s: Seq<LedgerEntry>, k: AccountId)
    ensures
        map_of(s).contains_key(k) <==> exists|i: int| 0 <= i < s.len() && s[i].account == k,
    decreases s.len(),
{
    if s.len() > 0 {
        let t = s.drop_last();
        lemma_map_of_contains(t, k);
        if map_of(s).contains_key(k) && s.last().account != k {
            let i = choose|i: int| 0 <= i < t.len() && t[i].account == k;
            assert(s[i].account == k);
        }
        if exists|i: int| 0 <= i < s.len() && s[i].account == k {
            let i = choose|i: int| 0 <= i < s.len() && s[i].account == k;
            if i < s.len() - 1 {
                assert(t[i].account == k);
            }
        }
    }
}

pub proof fn lemma_map_of_at(s: Seq<LedgerEntry>, i: int)
    requires
        keys_unique(s),
        0 <= i < s.len(),
    ensures
        map_of(s).contains_key(s[i].account),
        map_of(s)[s[i].account] == s[i].amount as nat,
    decreases s.len(),
{
    if i < s.len() - 1 {
        let t = s.drop_last();
        assert(keys_unique(t));
        assert(t[i] == s[i]);
        lemma_map_of_at(t, i);
        assert(s[i].account != s.last().account);
    }
}

pub proof fn lemma_map_of_update(s: Seq<LedgerEntry>, i: int, v: u128)
    requires
        keys_unique(s),
        0 <= i < s.len(),
    ensures
        keys_unique(s.update(i, LedgerEntry { account: s[i].account, amount: v })),
        map_of(s.update(i, LedgerEntry { account: s[i].account, amount: v })) =~= map_of(s).insert(
            s[i].account,
            v as nat,
        ),
{
    let k = s[i].account;
    let t = s.update(i, LedgerEntry { account: k, amount: v });
    assert(keys_unique(t));
    let m = map_of(s).insert(k, v as nat);
    assert forall|x: AccountId| #[trigger] map_of(t).contains_key(x) <==> m.contains_key(x) by {
        lemma_map_of_contains(t, x);
        lemma_map_of_contains(s, x);
        if map_of(t).contains_key(x) {
            let j = choose|j: int| 0 <= j < t.len() && t[j].account == x;
            assert(s[j].account == x);
        }
        if map_of(s).contains_key(x) {
            let j = choose|j: int| 0 <= j < s.len() && s[j].account == x;
            assert(t[j].account == x);
        }
    }
    assert forall|x: AccountId| #[trigger] map_of(t).contains_key(x) implies map_of(t)[x] == m[x] by {
        lemma_map_of_contains(t, x);
        let j = choose|j: int| 0 <= j < t.len() && t[j].account == x;
        lemma_map_of_at(t, j);
        if j != i {
            lemma_map_of_at(s, j);
        }
    }
}

pub proof fn lemma_map_of_remove(s: Seq<LedgerEntry>, i: int)
    requires
        keys_unique(s),
        0 <= i < s.len(),
    ensures
        keys_unique(s.remove(i)),
        map_of(s.remove(i)) =~= map_of(s).remove(s[i].account),
{
    let k = s[i].account;
    let t = s.remove(i);
    assert(keys_unique(t)) by {
        assert forall|a: int, b: int| 0 <= a < b < t.len() implies t[a].account != t[b].account by {
            let a2 = if a < i { a } else { a + 1 };
            let b2 = if b < i { b } else { b + 1 };
            assert(t[a] == s[a2]);
            assert(t[b] == s[b2]);
        }
    }
    let m = map_of(s).remove(k);
    assert forall|x: AccountId| #[trigger] map_of(t).contains_key(x) <==> m.contains_key(x) by {
        lemma_map_of_contains(t, x);
        lemma_map_of_contains(s, x);
        if map_of(t).contains_key(x) {
            let j = choose|j: int| 0 <= j < t.len() && t[j].account == x;
            let j2 = if j < i { j } else { j + 1 };
            assert(s[j2].account == x);
            assert(x != k);
        }
        if m.contains_key(x) {
            let j = choose|j: int| 0 <= j < s.len() && s[j].account == x;
            assert(j != i);
            let j2 = if j < i { j } else { j - 1 };
            assert(t[j2].account == x);
        }
    }
    assert forall|x: AccountId| #[trigger] map_of(t).contains_key(x) implies map_of(t)[x] == m[x] by {
        lemma_map_of_contains(t, x);
        let j = choose|j: int| 0 <= j < t.len() && t[j].account == x;
        let j2 = if j < i { j } else { j + 1 };
        lemma_map_of_at(t, j);
        lemma_map_of_at(s, j2);
    }
}

/// Every mapping described by entries is finite and holds `u128` amounts.
pub proof fn lemma_map_of_bounded(s: Seq<LedgerEntry>)
    ensures
        map_of(s).dom().finite(),
        forall|k: AccountId| #[trigger] map_of(s).contains_key(k) ==> map_of(s)[k] <= u128::MAX,
    decreases s.len(),
{
    if s.len() > 0 {
        lemma_map_of_bounded(s.drop_last());
    }
}

/// Taking any one key out of a finite mapping takes its amount out of the sum.
pub proof fn lemma_map_sum_remove(m: Map<AccountId, nat>, k: AccountId)
    requires
        m.dom().finite(),
        m.contains_key(k),
    ensures
        map_sum(m) == m[k] + map_sum(m.remove(k)),
    decreases m.dom().len(),
{
    let c = m.dom().choose();
    if c != k {
        let mc = m.remove(c);
        let mk = m.remove(k);
        lemma_map_sum_remove(mc, k);
        lemma_map_sum_remove(mk, c);
        assert(mc.remove(k) =~= mk.remove(c));
    }
}

/// Setting one key of a finite mapping moves the sum by the change of its amount.
pub proof fn lemma_map_sum_insert(m: Map<AccountId, nat>, k: AccountId, v: nat)
    requires
        m.dom().finite(),
    ensures
        m.insert(k, v).dom().finite(),
        map_sum(m.insert(k, v)) == map_sum(m) - amount_of(m, k) + v,
{
    let n = m.insert(k, v);
    lemma_map_sum_remove(n, k);
    if m.contains_key(k) {
        lemma_map_sum_remove(m, k);
        assert(n.remove(k) =~= m.remove(k));
    } else {
        assert(n.remove(k) =~= m);
    }
}

/// Removing a key (present or not) takes its amount out of the sum.
pub proof fn lemma_map_sum_erase(m: Map<AccountId, nat>, k: AccountId)
    requires
        m.dom().finite(),
    ensures
        m.remove(k).dom().finite(),
        map_sum(m.remove(k)) == map_sum(m) - amount_of(m, k),
{
    if m.contains_key(k) {
        lemma_map_sum_remove(m, k);
    } else {
        assert(m.remove(k) =~= m);
    }
}

/// A sum over a finite mapping is never negative.
pub proof fn lemma_map_sum_nonneg(m: Map<AccountId, nat>)
    ensures
        map_sum(m) >= 0,
    decreases m.dom().len(),
{
    if m.dom().finite() && m.dom().len() > 0 {
        lemma_map_sum_nonneg(m.remove(m.dom().choose()));
    }
}

/// Every single amount is bounded by the sum.
pub proof fn lemma_map_sum_bounds(m: Map<AccountId, nat>, k: AccountId)
    requires
        m.dom().finite(),
    ensures
        amount_of(m, k) <= map_sum(m),
{
    if m.contains_key(k) {
        lemma_map_sum_remove(m, k);
        lemma_map_sum_nonneg(m.remove(k));
    } else {
        lemma_map_sum_nonneg(m);
    }
}

/// Extending a prefix of distinct entries by one adds that entry's amount to the sum.
pub proof fn lemma_prefix_step(s: Seq<LedgerEntry>, i: int)
    requires
        keys_unique(s),
        0 <= i < s.len(),
    ensures
        !map_of(s.take(i)).contains_key(s[i].account),
        map_of(s.take(i)).dom().finite(),
        map_of(s.take(i + 1)) == map_of(s.take(i)).insert(s[i].account, s[i].amount as nat),
        map_sum(map_of(s.take(i + 1))) == map_sum(map_of(s.take(i))) + s[i].amount,
{
    let t = s.take(i + 1);
    assert(t.drop_last() =~= s.take(i));
    assert(t.last() == s[i]);
    lemma_map_of_finite(s.take(i));
    lemma_map_of_contains(s.take(i), s[i].account);
    if map_of(s.take(i)).contains_key(s[i].account) {
        let j = choose|j: int| 0 <= j < s.take(i).len() && s.take(i)[j].account == s[i].account;
        assert(s[j].account == s[i].account);
    }
    lemma_map_sum_insert(map_of(s.take(i)), s[i].account, s[i].amount as nat);
}

/// Sums over longer prefixes are no smaller.
pub proof fn lemma_prefix_mono(s: Seq<LedgerEntry>, i: int, j: int)
    requires
        keys_unique(s),
        0 <= i <= j <= s.len(),
    ensures
        map_sum(map_of(s.take(i))) <= map_sum(map_of(s.take(j))),
    decreases j - i,
{
    if i < j {
        lemma_prefix_mono(s, i, j - 1);
        lemma_prefix_step(s, j - 1);
    }
}

/// A balance per account, stored as a list of entries without repeated accounts.
#[derive(Clone, Debug)]
pub struct Ledger {
    pub entries: Vec<LedgerEntry>,
}

impl View for Ledger {
    type V = Map<AccountId, nat>;

    open spec fn view(&self) -> Map<AccountId, nat> {
        map_of(self.entries@)
    }
}

impl Ledger {
    pub open spec fn wf(&self) -> bool {
        keys_unique(self.entries@)
    }

    /// The sum of all balances.
    pub open spec fn total(&self) -> int {
        map_sum(self@)
    }

    pub fn new() -> (r: Ledger)
        ensures
            r.wf(),
            r@ == Map::<AccountId, nat>::empty(),
    {
        Ledger { entries: Vec::new() }
    }

    /// A copy that holds the same entries in the same order.
    pub fn duplicate(&self) -> (r: Ledger)
        ensures
            r.entries@ == self.entries@,
    {
        let mut entries: Vec<LedgerEntry> = Vec::new();
        let mut i: usize = 0;
        while i < self.entries.len()
            invariant
                i <= self.entries@.len(),
                entries@ == self.entries@.take(i as int),
            decreases self.entries@.len() - i,
        {
            entries.push(self.entries[i]);
            i = i + 1;
            assert(entries@ =~= self.entries@.take(i as int));
        }
        assert(entries@ =~= self.entries@);
        Ledger { entries }
    }

    fn find(&self, a: AccountId) -> (r: Option<usize>)
        requires
            self.wf(),
        ensures
            match r {
                Some(i) => i < self.entries@.len() && self.entries@[i as int].account == a,
                None => !self@.contains_key(a),
            },
    {
        let mut i: usize = 0;
        while i < self.entries.len()
            invariant
                i <= self.entries@.len(),
                forall|j: int| 0 <= j < i ==> self.entries@[j].account != a,
            decreases self.entries@.len() - i,
        {
            if self.entries[i].account == a {
                return Some(i);
            }
            i = i + 1;
        }
        proof {
            lemma_map_of_contains(self.entries@, a);
        }
        None
    }

    pub fn contains(&self, a: AccountId) -> (r: bool)
        requires
            self.wf(),
        ensures
            r == self@.contains_key(a),
    {
        match self.find(a) {
            Some(i) => {
                proof {
                    lemma_map_of_at(self.entries@, i as int);
                }
                true
            },
            None => false,
        }
    }

    /// The balance of `a`, zero when it has none.
    pub fn get(&self, a: AccountId) -> (r: u128)
        requires
            self.wf(),
        ensures
            r == amount_of(self@, a),
    {
        match self.find(a) {
            Some(i) => {
                proof {
                    lemma_map_of_at(self.entries@, i as int);
                }
                self.entries[i].amount
            },
            None => 0,
        }
    }

    /// The sum of all balances; `None` when it does not fit in `u128`.
    pub fn checked_total(&self) -> (r: Option<u128>)
        requires
            self.wf(),
        ensures
            r == (if fits(self.total()) {
                Some(self.total() as u128)
            } else {
                None
            }),
    {
        let ghost s = self.entries@;
        let mut acc: u128 = 0;
        let mut i: usize = 0;
        assert(s.take(0) =~= Seq::<LedgerEntry>::empty());
        assert(map_of(s.take(0)) =~= Map::<AccountId, nat>::empty());
        assert(map_sum(map_of(s.take(0))) == 0);
        while i < self.entries.len()
            invariant
                s == self.entries@,
                keys_unique(s),
                i <= s.len(),
                acc == map_sum(map_of(s.take(i as int))),
            decreases s.len() - i,
        {
            proof {
                lemma_prefix_step(s, i as int);
            }
            let e = self.entries[i];
            match acc.checked_add(e.amount) {
                Some(v) => {
                    acc = v;
                },
                None => {
                    proof {
                        lemma_prefix_mono(s, i + 1, s.len() as int);
                        assert(s.take(s.len() as int) =~= s);
                    }
                    return None;
                },
            }
            i = i + 1;
        }
        assert(s.take(s.len() as int) =~= s);
        Some(acc)
    }

    /// Gives `a` the balance `v`, adding an entry when it has none.
    pub fn set(&mut self, a: AccountId, v: u128)
        requires
            old(self).wf(),
        ensures
            final(self).wf(),
            final(self)@ == old(self)@.insert(a, v as nat),
    {
        match self.find(a) {
            Some(i) => {
                proof {
                    lemma_map_of_update(self.entries@, i as int, v);
                }
                self.entries.set(i, LedgerEntry { account: a, amount: v });
            },
            None => {
                proof {
                    lemma_map_of_contains(self.entries@, a);
                }
                self.entries.push(LedgerEntry { account: a, amount: v });
                assert(self.entries@.drop_last() =~= old(self).entries@);
            },
        }
    }

    /// Removes the entry of `a`, if there is one.
    pub fn remove(&mut self, a: AccountId)
        requires
            old(self).wf(),
        ensures
            final(self).wf(),
            final(self)@ == old(self)@.remove(a),
    {
        match self.find(a) {
            Some(i) => {
                proof {
                    lemma_map_of_remove(self.entries@, i as int);
                }
                self.entries.remove(i);
            },
            None => {
                assert(self@ =~= self@.remove(a));
            },
        }
    }
}

} // verus!
