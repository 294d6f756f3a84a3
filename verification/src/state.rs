//! The ledger: a mapping from account identifier to account state, mutated
//! only by committing the delta set a run returned.

use vstd::prelude::*;
use crate::outcome::{AccountDelta, AccountDeltaView, DeltaChange, DeltaChangeView, deltas_view};

verus! {

/// The state of one account.
#[derive(Clone, Debug, PartialEq, Eq)]
pub struct Account {
    /// Spendable balance.
    pub balance: u128,
    /// Number of transactions the account has sent.
    pub nonce: u64,
    /// Code installed at the account, empty for plain accounts.
    pub code: Vec<u8>,
    /// Storage slots, each key held at most once.
    pub storage: Vec<(u128, u128)>,
}

/// Mathematical view of an account: its storage read as a mapping.
pub ghost struct AccountView {
    pub balance: u128,
    pub nonce: u64,
    pub code: Seq<u8>,
    pub storage: Map<u128, u128>,
}

/// A ledger's content, as one mathematical value: what an engine's run is
/// a function of.
pub ghost struct LedgerSnapshot {
    pub accounts: Map<Seq<u8>, AccountView>,
}

/// No key occurs twice among the pairs.
pub open spec fn keys_unique<K, V>(s: Seq<(K, V)>) -> bool {
    forall|i: int, j: int| 0 <= i < j < s.len() ==> (#[trigger] s[i]).0 != (#[trigger] s[j]).0
}

/// The mapping a sequence of key/value pairs denotes; a later pair wins.
pub open spec fn pairs_map<K, V>(s: Seq<(K, V)>) -> Map<K, V>
    decreases s.len(),
{
    if s.len() == 0 {
        Map::empty()
    } else {
        pairs_map(s.drop_last()).insert(s.last().0, s.last().1)
    }
}

impl View for Account {
    type V = AccountView;

    open spec fn view(&self) -> AccountView {
        AccountView {
            balance: self.balance,
            nonce: self.nonce,
            code: self.code@,
            storage: pairs_map(self.storage@),
        }
    }
}

/// One account of the ledger's backing store.
struct LedgerEntry {
    id: Vec<u8>,
    account: Account,
}

/// The persistent key/value ledger.  In-memory for this crate's purposes;
/// its only mutation paths are [`Ledger::set_account`] (to seed state) and
/// [`Ledger::commit`] (to land the delta set of a finished run).
pub struct Ledger {
    entries: Vec<LedgerEntry>,
}

impl View for Ledger {
    type V = Map<Seq<u8>, AccountView>;

    closed spec fn view(&self) -> Map<Seq<u8>, AccountView> {
        pairs_map(entry_pairs(self.entries@))
    }
}

spec fn entry_pairs(s: Seq<LedgerEntry>) -> Seq<(Seq<u8>, AccountView)> {
    s.map_values(|e: LedgerEntry| (e.id@, e.account@))
}

/// The slot writes of one delta landed on an account's prior storage.
pub open spec fn merge_slots(base: Map<u128, u128>, writes: Seq<(u128, u128)>) -> Map<u128, u128>
    decreases writes.len(),
{
    if writes.len() == 0 {
        base
    } else {
        merge_slots(base, writes.drop_last()).insert(writes.last().0, writes.last().1)
    }
}

/// One delta landed on a ledger: a destruction removes the account; an
/// update installs the carried balance, nonce and code and lands the slot
/// writes on the account's prior storage (an account not present starts
/// from empty storage).
pub open spec fn apply_delta(
    m: Map<Seq<u8>, AccountView>,
    d: AccountDeltaView,
) -> Map<Seq<u8>, AccountView> {
    match d.change {
        DeltaChangeView::Destroyed => m.remove(d.id),
        DeltaChangeView::Updated { balance, nonce, code, slots } => {
            let base = if m.dom().contains(d.id) {
                m[d.id].storage
            } else {
                Map::empty()
            };
            m.insert(d.id, AccountView { balance, nonce, code, storage: merge_slots(base, slots) })
        },
    }
}

/// A whole delta set landed on a ledger, in order.
pub open spec fn apply_deltas(
    m: Map<Seq<u8>, AccountView>,
    ds: Seq<AccountDeltaView>,
) -> Map<Seq<u8>, AccountView>
    decreases ds.len(),
{
    if ds.len() == 0 {
        m
    } else {
        apply_delta(apply_deltas(m, ds.drop_last()), ds.last())
    }
}

proof fn lemma_pairs_map_index<K, V>(s: Seq<(K, V)>, i: int)
    requires
        keys_unique(s),
        0 <= i < s.len(),
    ensures
        pairs_map(s).dom().contains(s[i].0),
        pairs_map(s)[s[i].0] == s[i].1,
    decreases s.len(),
{
    if i < s.len() - 1 {
        assert(s.drop_last()[i] == s[i]);
        lemma_pairs_map_index(s.drop_last(), i);
        assert(s[i].0 != s.last().0);
    }
}

proof fn lemma_pairs_map_dom<K, V>(s: Seq<(K, V)>)
    ensures
        forall|k: K|
            pairs_map(s).dom().contains(k) <==> exists|i: int| 0 <= i < s.len() && (#[trigger] s[i]).0 == k,
    decreases s.len(),
{
    if s.len() > 0 {
        let t = s.drop_last();
        lemma_pairs_map_dom(t);
        assert forall|k: K| pairs_map(s).dom().contains(k) implies exists|i: int|
            0 <= i < s.len() && (#[trigger] s[i]).0 == k by {
            if k == s.last().0 {
                assert(s[s.len() - 1].0 == k);
            } else {
                assert(pairs_map(t).dom().contains(k));
                let i = choose|i: int| 0 <= i < t.len() && (#[trigger] t[i]).0 == k;
                assert(t[i] == s[i]);
                assert(s[i].0 == k);
            }
        }
        assert forall|k: K| (exists|i: int| 0 <= i < s.len() && (#[trigger] s[i]).0 == k) implies
            pairs_map(s).dom().contains(k) by {
            let i = choose|i: int| 0 <= i < s.len() && (#[trigger] s[i]).0 == k;
            if i < s.len() - 1 {
                assert(t[i] == s[i]);
                assert(t[i].0 == k);
                assert(pairs_map(t).dom().contains(k));
            }
        }
    }
}

proof fn lemma_pairs_map_push<K, V>(s: Seq<(K, V)>, k: K, v: V)
    ensures
        pairs_map(s.push((k, v))) == pairs_map(s).insert(k, v),
{
    assert(s.push((k, v)).drop_last() =~= s);
    assert(s.push((k, v)).last() == (k, v));
}

proof fn lemma_pairs_map_remove<K, V>(s: Seq<(K, V)>, i: int)
    requires
        keys_unique(s),
        0 <= i < s.len(),
    ensures
        keys_unique(s.remove(i)),
        pairs_map(s.remove(i)) == pairs_map(s).remove(s[i].0),
    decreases s.len(),
{
    s.remove_ensures(i);
    assert(keys_unique(s.remove(i))) by {
        assert forall|a: int, b: int| 0 <= a < b < s.remove(i).len() implies
            (#[trigger] s.remove(i)[a]).0 != (#[trigger] s.remove(i)[b]).0 by {
            let a0 = if a < i { a } else { a + 1 };
            let b0 = if b < i { b } else { b + 1 };
            assert(s.remove(i)[a] == s[a0]);
            assert(s.remove(i)[b] == s[b0]);
        }
    }
    let k = s[i].0;
    if i == s.len() - 1 {
        assert(s.remove(i) =~= s.drop_last());
        lemma_pairs_map_dom(s.drop_last());
        assert forall|j: int| 0 <= j < s.drop_last().len() implies (#[trigger] s.drop_last()[j]).0 != k by {
            assert(s[j] == s.drop_last()[j]);
        }
        assert(!pairs_map(s.drop_last()).dom().contains(k));
        assert(pairs_map(s) == pairs_map(s.drop_last()).insert(k, s[i].1));
        assert(pairs_map(s).remove(k) =~= pairs_map(s.drop_last()));
    } else {
        let t = s.drop_last();
        assert(keys_unique(t)) by {
            assert forall|a: int, b: int| 0 <= a < b < t.len() implies
                (#[trigger] t[a]).0 != (#[trigger] t[b]).0 by {
                assert(t[a] == s[a]);
                assert(t[b] == s[b]);
            }
        }
        assert(t[i] == s[i]);
        lemma_pairs_map_remove(t, i);
        assert(s.remove(i).drop_last() =~= t.remove(i)) by {
            t.remove_ensures(i);
        }
        assert(s.remove(i).last() == s.last());
        assert(pairs_map(s.remove(i)) == pairs_map(t.remove(i)).insert(s.last().0, s.last().1));
        assert(k != s.last().0);
        assert(pairs_map(t).remove(k).insert(s.last().0, s.last().1) =~= pairs_map(t).insert(
            s.last().0,
            s.last().1,
        ).remove(k));
        assert(pairs_map(s) == pairs_map(t).insert(s.last().0, s.last().1));
    }
}

proof fn lemma_apply_deltas_push(m: Map<Seq<u8>, AccountView>, ds: Seq<AccountDeltaView>, d: AccountDeltaView)
    ensures
        apply_deltas(m, ds.push(d)) == apply_delta(apply_deltas(m, ds), d),
{
    assert(ds.push(d).drop_last() =~= ds);
    assert(ds.push(d).last() == d);
}

fn bytes_eq(a: &Vec<u8>, b: &Vec<u8>) -> (r: bool)
    ensures
        r == (a@ == b@),
{
    if a.len() != b.len() {
        return false;
    }
    let mut i: usize = 0;
    while i < a.len()
        invariant
            a@.len() == b@.len(),
            i <= a@.len(),
            forall|j: int| 0 <= j < i ==> a@[j] == b@[j],
        decreases a@.len() - i,
    {
        if a[i] != b[i] {
            return false;
        }
        i = i + 1;
    }
    proof {
        assert(a@ =~= b@);
    }
    true
}

fn copy_bytes(v: &Vec<u8>) -> (r: Vec<u8>)
    ensures
        r@ == v@,
{
    let mut r: Vec<u8> = Vec::new();
    let mut i: usize = 0;
    while i < v.len()
        invariant
            i <= v@.len(),
            r@ == v@.subrange(0, i as int),
        decreases v@.len() - i,
    {
        r.push(v[i]);
        proof {
            assert(r@ =~= v@.subrange(0, i + 1 as int));
        }
        i = i + 1;
    }
    proof {
        assert(v@.subrange(0, v@.len() as int) =~= v@);
    }
    r
}

fn find_slot(storage: &Vec<(u128, u128)>, k: u128) -> (r: Option<usize>)
    ensures
        match r {
            Some(i) => i < storage@.len() && storage@[i as int].0 == k,
            None => forall|j: int| 0 <= j < storage@.len() ==> (#[trigger] storage@[j]).0 != k,
        },
{
    let mut i: usize = 0;
    while i < storage.len()
        invariant
            i <= storage@.len(),
            forall|j: int| 0 <= j < i ==> (#[trigger] storage@[j]).0 != k,
        decreases storage@.len() - i,
    {
        if storage[i].0 == k {
            return Some(i);
        }
        i = i + 1;
    }
    None
}

/// Writes `(k, v)` into `storage`, replacing the slot if the key is already
/// held and appending it otherwise.
fn upsert_slot(storage: &mut Vec<(u128, u128)>, k: u128, v: u128)
    requires
        keys_unique(old(storage)@),
    ensures
        keys_unique(final(storage)@),
        pairs_map(final(storage)@) == pairs_map(old(storage)@).insert(k, v),
{
    let ghost s0 = storage@;
    match find_slot(storage, k) {
        Some(i) => {
            storage.remove(i);
            storage.push((k, v));
            proof {
                lemma_pairs_map_remove(s0, i as int);
                lemma_pairs_map_push(s0.remove(i as int), k, v);
                assert(pairs_map(s0).remove(k).insert(k, v) =~= pairs_map(s0).insert(k, v));
                assert(keys_unique(final(storage)@)) by {
                    lemma_pairs_map_dom(s0.remove(i as int));
                    assert forall|a: int, b: int| 0 <= a < b < final(storage)@.len() implies
                        (#[trigger] final(storage)@[a]).0 != (#[trigger] final(storage)@[b]).0 by {
                        if b == final(storage)@.len() - 1 {
                            s0.remove_ensures(i as int);
                            let a0 = if a < i as int { a } else { a + 1 };
                            assert(s0.remove(i as int)[a] == s0[a0]);
                            assert(a0 != i as int);
                            assert(s0[a0].0 != s0[i as int].0);
                        }
                    }
                }
            }
        },
        None => {
            storage.push((k, v));
            proof {
                lemma_pairs_map_push(s0, k, v);
                assert forall|a: int, b: int| 0 <= a < b < final(storage)@.len() implies
                    (#[trigger] final(storage)@[a]).0 != (#[trigger] final(storage)@[b]).0 by {
                    if b == final(storage)@.len() - 1 {
                        assert(final(storage)@[a] == s0[a]);
                    }
                }
            }
        },
    }
}

/// Lands every write of `writes` on `storage`, in order.
fn upsert_slots(storage: &mut Vec<(u128, u128)>, writes: &Vec<(u128, u128)>)
    requires
        keys_unique(old(storage)@),
    ensures
        keys_unique(final(storage)@),
        pairs_map(final(storage)@) == merge_slots(pairs_map(old(storage)@), writes@),
{
    let ghost base = pairs_map(old(storage)@);
    let mut i: usize = 0;
    while i < writes.len()
        invariant
            i <= writes@.len(),
            keys_unique(storage@),
            pairs_map(storage@) == merge_slots(base, writes@.subrange(0, i as int)),
        decreases writes@.len() - i,
    {
        let (k, v) = writes[i];
        upsert_slot(storage, k, v);
        proof {
            let w = writes@.subrange(0, i + 1 as int);
            assert(w.drop_last() =~= writes@.subrange(0, i as int));
            assert(w.last() == writes@[i as int]);
        }
        i = i + 1;
    }
    proof {
        assert(writes@.subrange(0, writes@.len() as int) =~= writes@);
    }
}

impl Ledger {
    /// Every account identifier is held at most once, and every account's
    /// storage holds every key at most once.
    pub closed spec fn wf(&self) -> bool {
        &&& keys_unique(entry_pairs(self.entries@))
        &&& forall|i: int|
            0 <= i < self.entries@.len() ==> keys_unique(
                (#[trigger] self.entries@[i]).account.storage@,
            )
    }

    /// An empty ledger.
    pub fn new() -> (r: Ledger)
        ensures
            r.wf(),
            r@ == Map::<Seq<u8>, AccountView>::empty(),
    {
        let r = Ledger { entries: Vec::new() };
        proof {
            assert(entry_pairs(r.entries@) =~= Seq::<(Seq<u8>, AccountView)>::empty());
        }
        r
    }

    fn find(&self, id: &Vec<u8>) -> (r: Option<usize>)
        ensures
            match r {
                Some(i) => i < self.entries@.len() && self.entries@[i as int].id@ == id@,
                None => forall|j: int|
                    0 <= j < self.entries@.len() ==> (#[trigger] self.entries@[j]).id@ != id@,
            },
    {
        let mut i: usize = 0;
        while i < self.entries.len()
            invariant
                i <= self.entries@.len(),
                forall|j: int| 0 <= j < i ==> (#[trigger] self.entries@[j]).id@ != id@,
            decreases self.entries@.len() - i,
        {
            if bytes_eq(&self.entries[i].id, id) {
                return Some(i);
            }
            i = i + 1;
        }
        None
    }

    /// Whether an account with this identifier is held.
    pub fn contains_account(&self, id: &Vec<u8>) -> (r: bool)
        requires
            self.wf(),
        ensures
            r == self@.dom().contains(id@),
    {
        proof {
            lemma_pairs_map_dom(entry_pairs(self.entries@));
        }
        match self.find(id) {
            Some(i) => {
                proof {
                    assert(entry_pairs(self.entries@)[i as int].0 == id@);
                }
                true
            },
            None => {
                proof {
                    assert forall|j: int| 0 <= j < entry_pairs(self.entries@).len() implies
                        (#[trigger] entry_pairs(self.entries@)[j]).0 != id@ by {
                        assert(entry_pairs(self.entries@)[j].0 == self.entries@[j].id@);
                    }
                }
                false
            },
        }
    }

    /// The account held under this identifier, if any.
    pub fn get_account(&self, id: &Vec<u8>) -> (r: Option<&Account>)
        requires
            self.wf(),
        ensures
            match r {
                Some(a) => self@.dom().contains(id@) && a@ == self@[id@],
                None => !self@.dom().contains(id@),
            },
    {
        proof {
            lemma_pairs_map_dom(entry_pairs(self.entries@));
        }
        match self.find(id) {
            Some(i) => {
                proof {
                    assert(entry_pairs(self.entries@)[i as int].0 == id@);
                    lemma_pairs_map_index(entry_pairs(self.entries@), i as int);
                }
                Some(&self.entries[i].account)
            },
            None => {
                proof {
                    assert forall|j: int| 0 <= j < entry_pairs(self.entries@).len() implies
                        (#[trigger] entry_pairs(self.entries@)[j]).0 != id@ by {
                        assert(entry_pairs(self.entries@)[j].0 == self.entries@[j].id@);
                    }
                }
                None
            },
        }
    }

    /// How many accounts the ledger holds.
    pub fn account_count(&self) -> (r: usize)
        requires
            self.wf(),
        ensures
            r == self@.dom().len(),
    {
        proof {
            lemma_pairs_map_card(entry_pairs(self.entries@));
        }
        self.entries.len()
    }

    /// The identifier and account at position `i` of the ledger's backing
    /// store: lets an engine seed its database and a test read state back,
    /// together with [`Ledger::account_count`], without a mutation path.
    pub fn account_at(&self, i: usize) -> (r: (&Vec<u8>, &Account))
        requires
            self.wf(),
            i < self@.dom().len(),
        ensures
            self@.dom().contains(r.0@),
            self@[r.0@] == r.1@,
    {
        proof {
            lemma_pairs_map_card(entry_pairs(self.entries@));
            lemma_pairs_map_index(entry_pairs(self.entries@), i as int);
            assert(entry_pairs(self.entries@)[i as int].0 == self.entries@[i as int].id@);
        }
        let e = &self.entries[i];
        (&e.id, &e.account)
    }

    /// Places `account` under `id`, replacing what was held there.
    /// Seeds state for tests and callers; runs themselves change the ledger
    /// only through [`Ledger::commit`].
    pub fn set_account(&mut self, id: Vec<u8>, account: Account)
        requires
            old(self).wf(),
            keys_unique(account.storage@),
        ensures
            final(self).wf(),
            final(self)@ == old(self)@.insert(id@, account@),
    {
        let ghost s0 = self.entries@;
        match self.find(&id) {
            Some(i) => {
                proof {
                    lemma_entry_pairs_remove(s0, i as int);
                    lemma_pairs_map_remove(entry_pairs(s0), i as int);
                }
                self.entries.remove(i);
                let ghost s1 = self.entries@;
                self.entries.push(LedgerEntry { id, account });
                proof {
                    lemma_entry_pairs_push(s1, final(self).entries@.last());
                    lemma_pairs_map_push(entry_pairs(s1), id@, account@);
                    assert(pairs_map(entry_pairs(s0)).remove(id@).insert(id@, account@)
                        =~= pairs_map(entry_pairs(s0)).insert(id@, account@));
                    lemma_unique_after_replace(s0, i as int, id@);
                    assert(final(self).wf()) by {
                        s0.remove_ensures(i as int);
                        assert forall|j: int| 0 <= j < final(self).entries@.len() implies keys_unique(
                            (#[trigger] final(self).entries@[j]).account.storage@,
                        ) by {
                            if j < final(self).entries@.len() - 1 {
                                let j0 = if j < i as int { j } else { j + 1 };
                                assert(final(self).entries@[j] == s0[j0]);
                            }
                        }
                    }
                }
            },
            None => {
                self.entries.push(LedgerEntry { id, account });
                proof {
                    lemma_entry_pairs_push(s0, final(self).entries@.last());
                    lemma_pairs_map_push(entry_pairs(s0), id@, account@);
                    assert(final(self).wf()) by {
                        assert forall|a: int, b: int| 0 <= a < b < entry_pairs(final(self).entries@).len()
                            implies (#[trigger] entry_pairs(final(self).entries@)[a]).0
                                != (#[trigger] entry_pairs(final(self).entries@)[b]).0 by {
                            assert(entry_pairs(final(self).entries@)[a] == entry_pairs(s0).push(
                                (id@, account@),
                            )[a]);
                            if b == entry_pairs(final(self).entries@).len() - 1 {
                                assert(entry_pairs(s0)[a].0 == s0[a].id@);
                                assert(s0[a].id@ != id@);
                            }
                        }
                        assert forall|j: int| 0 <= j < final(self).entries@.len() implies keys_unique(
                            (#[trigger] final(self).entries@[j]).account.storage@,
                        ) by {
                            if j < final(self).entries@.len() - 1 {
                                assert(final(self).entries@[j] == s0[j]);
                            }
                        }
                    }
                }
            },
        }
    }

    /// Lands one delta set on the ledger, in order: the whole set lands
    /// atomically from the caller's point of view, since this function
    /// cannot fail.
    pub fn commit(&mut self, deltas: &Vec<AccountDelta>)
        requires
            old(self).wf(),
        ensures
            final(self).wf(),
            final(self)@ == apply_deltas(old(self)@, deltas_view(deltas@)),
    {
        let ghost m0 = self@;
        let mut i: usize = 0;
        while i < deltas.len()
            invariant
                i <= deltas@.len(),
                self.wf(),
                self@ == apply_deltas(m0, deltas_view(deltas@).subrange(0, i as int)),
            decreases deltas@.len() - i,
        {
            let ghost prefix = deltas_view(deltas@).subrange(0, i as int);
            match &deltas[i].change {
                DeltaChange::Destroyed => {
                    self.remove_account(&deltas[i].id);
                },
                DeltaChange::Updated { balance, nonce, code, slots } => {
                    self.apply_update(&deltas[i].id, *balance, *nonce, code, slots);
                },
            }
            proof {
                let dv = deltas_view(deltas@);
                assert(dv.subrange(0, i + 1 as int) =~= prefix.push(dv[i as int]));
                lemma_apply_deltas_push(m0, prefix, dv[i as int]);
            }
            i = i + 1;
        }
        proof {
            assert(deltas_view(deltas@).subrange(0, deltas@.len() as int) =~= deltas_view(deltas@));
        }
    }

    fn remove_account(&mut self, id: &Vec<u8>)
        requires
            old(self).wf(),
        ensures
            final(self).wf(),
            final(self)@ == old(self)@.remove(id@),
    {
        let ghost s0 = self.entries@;
        proof {
            lemma_pairs_map_dom(entry_pairs(s0));
        }
        match self.find(id) {
            Some(i) => {
                proof {
                    lemma_entry_pairs_remove(s0, i as int);
                    lemma_pairs_map_remove(entry_pairs(s0), i as int);
                    assert(entry_pairs(s0)[i as int].0 == id@);
                }
                self.entries.remove(i);
                proof {
                    assert(final(self).wf()) by {
                        s0.remove_ensures(i as int);
                        assert forall|j: int| 0 <= j < final(self).entries@.len() implies keys_unique(
                            (#[trigger] final(self).entries@[j]).account.storage@,
                        ) by {
                            let j0 = if j < i as int { j } else { j + 1 };
                            assert(final(self).entries@[j] == s0[j0]);
                        }
                    }
                }
            },
            None => {
                proof {
                    assert forall|j: int| 0 <= j < entry_pairs(s0).len() implies
                        (#[trigger] entry_pairs(s0)[j]).0 != id@ by {
                        assert(entry_pairs(s0)[j].0 == s0[j].id@);
                    }
                    assert(!self@.dom().contains(id@));
                    assert(self@.remove(id@) =~= self@);
                }
            },
        }
    }

    fn apply_update(
        &mut self,
        id: &Vec<u8>,
        balance: u128,
        nonce: u64,
        code: &Vec<u8>,
        slots: &Vec<(u128, u128)>,
    )
        requires
            old(self).wf(),
        ensures
            final(self).wf(),
            final(self)@ == apply_delta(
                old(self)@,
                AccountDeltaView {
                    id: id@,
                    change: DeltaChangeView::Updated {
                        balance,
                        nonce,
                        code: code@,
                        slots: slots@,
                    },
                },
            ),
    {
        let ghost s0 = self.entries@;
        proof {
            lemma_pairs_map_dom(entry_pairs(s0));
        }
        match self.find(id) {
            Some(i) => {
                proof {
                    assert(entry_pairs(s0)[i as int].0 == id@);
                    lemma_pairs_map_index(entry_pairs(s0), i as int);
                    assert(self@[id@] == s0[i as int].account@);
                }
                let mut e = self.entries.remove(i);
                let ghost s1 = self.entries@;
                upsert_slots(&mut e.account.storage, slots);
                let account = Account {
                    balance,
                    nonce,
                    code: copy_bytes(code),
                    storage: e.account.storage,
                };
                self.entries.push(LedgerEntry { id: e.id, account });
                proof {
                    lemma_entry_pairs_remove(s0, i as int);
                    lemma_pairs_map_remove(entry_pairs(s0), i as int);
                    lemma_entry_pairs_push(s1, final(self).entries@.last());
                    lemma_pairs_map_push(entry_pairs(s1), id@, final(self).entries@.last().account@);
                    assert(pairs_map(entry_pairs(s0)).remove(id@).insert(
                        id@,
                        final(self).entries@.last().account@,
                    ) =~= pairs_map(entry_pairs(s0)).insert(
                        id@,
                        final(self).entries@.last().account@,
                    ));
                    lemma_unique_after_replace(s0, i as int, id@);
                    assert(final(self).wf()) by {
                        s0.remove_ensures(i as int);
                        assert forall|j: int| 0 <= j < final(self).entries@.len() implies keys_unique(
                            (#[trigger] final(self).entries@[j]).account.storage@,
                        ) by {
                            if j < final(self).entries@.len() - 1 {
                                let j0 = if j < i as int { j } else { j + 1 };
                                assert(final(self).entries@[j] == s0[j0]);
                            }
                        }
                    }
                }
            },
            None => {
                proof {
                    assert forall|j: int| 0 <= j < entry_pairs(s0).len() implies
                        (#[trigger] entry_pairs(s0)[j]).0 != id@ by {
                        assert(entry_pairs(s0)[j].0 == s0[j].id@);
                    }
                    assert(!self@.dom().contains(id@));
                }
                let mut storage: Vec<(u128, u128)> = Vec::new();
                upsert_slots(&mut storage, slots);
                let account = Account { balance, nonce, code: copy_bytes(code), storage };
                self.entries.push(LedgerEntry { id: copy_bytes(id), account });
                proof {
                    lemma_entry_pairs_push(s0, final(self).entries@.last());
                    lemma_pairs_map_push(entry_pairs(s0), id@, final(self).entries@.last().account@);
                    assert(final(self).wf()) by {
                        assert forall|a: int, b: int| 0 <= a < b < entry_pairs(final(self).entries@).len()
                            implies (#[trigger] entry_pairs(final(self).entries@)[a]).0
                                != (#[trigger] entry_pairs(final(self).entries@)[b]).0 by {
                            if b == entry_pairs(final(self).entries@).len() - 1 {
                                assert(entry_pairs(s0)[a].0 == s0[a].id@);
                                assert(s0[a].id@ != id@);
                            } else {
                                assert(entry_pairs(final(self).entries@)[a] == entry_pairs(s0)[a]);
                                assert(entry_pairs(final(self).entries@)[b] == entry_pairs(s0)[b]);
                            }
                        }
                        assert forall|j: int| 0 <= j < final(self).entries@.len() implies keys_unique(
                            (#[trigger] final(self).entries@[j]).account.storage@,
                        ) by {
                            if j < final(self).entries@.len() - 1 {
                                assert(final(self).entries@[j] == s0[j]);
                            }
                        }
                    }
                }
            },
        }
    }
}

proof fn lemma_entry_pairs_remove(s: Seq<LedgerEntry>, i: int)
    requires
        0 <= i < s.len(),
    ensures
        entry_pairs(s.remove(i)) =~= entry_pairs(s).remove(i),
{
    s.remove_ensures(i);
    entry_pairs(s).remove_ensures(i);
}

proof fn lemma_entry_pairs_push(s: Seq<LedgerEntry>, e: LedgerEntry)
    ensures
        entry_pairs(s.push(e)) =~= entry_pairs(s).push((e.id@, e.account@)),
{
}

/// Removing index `i` (whose key is `k`) and pushing a fresh entry with the
/// same key keeps the ledger's keys unique.
proof fn lemma_unique_after_replace(s0: Seq<LedgerEntry>, i: int, k: Seq<u8>)
    requires
        keys_unique(entry_pairs(s0)),
        0 <= i < s0.len(),
        s0[i].id@ == k,
    ensures
        forall|e: LedgerEntry|
            e.id@ == k ==> keys_unique(entry_pairs(#[trigger] s0.remove(i).push(e))),
{
    assert forall|e: LedgerEntry| e.id@ == k implies keys_unique(
        entry_pairs(#[trigger] s0.remove(i).push(e)),
    ) by {
        let p = entry_pairs(s0.remove(i).push(e));
        lemma_entry_pairs_remove(s0, i);
        s0.remove_ensures(i);
        assert forall|a: int, b: int| 0 <= a < b < p.len() implies
            (#[trigger] p[a]).0 != (#[trigger] p[b]).0 by {
            let a0 = if a < i { a } else { a + 1 };
            if b == p.len() - 1 {
                assert(p[a] == entry_pairs(s0)[a0]);
                assert(entry_pairs(s0)[a0].0 == s0[a0].id@);
                assert(entry_pairs(s0)[i].0 == k);
                assert(s0[a0].id@ != k);
                assert(p[b].0 == k);
            } else {
                let b0 = if b < i { b } else { b + 1 };
                assert(p[a] == entry_pairs(s0)[a0]);
                assert(p[b] == entry_pairs(s0)[b0]);
            }
        }
    }
}

proof fn lemma_pairs_map_card<K, V>(s: Seq<(K, V)>)
    requires
        keys_unique(s),
    ensures
        pairs_map(s).dom().finite(),
        pairs_map(s).dom().len() == s.len(),
    decreases s.len(),
{
    if s.len() == 0 {
        assert(pairs_map(s).dom() =~= Set::<K>::empty());
    } else {
        let t = s.drop_last();
        assert(keys_unique(t)) by {
            assert forall|a: int, b: int| 0 <= a < b < t.len() implies
                (#[trigger] t[a]).0 != (#[trigger] t[b]).0 by {
                assert(t[a] == s[a]);
                assert(t[b] == s[b]);
            }
        }
        lemma_pairs_map_card(t);
        lemma_pairs_map_dom(t);
        assert forall|j: int| 0 <= j < t.len() implies (#[trigger] t[j]).0 != s.last().0 by {
            assert(t[j] == s[j]);
        }
        assert(!pairs_map(t).dom().contains(s.last().0));
        assert(pairs_map(s).dom() =~= pairs_map(t).dom().insert(s.last().0));
    }
}

} // verus!
