//! A table from addresses to amounts, held as entries with distinct addresses.
use vstd::prelude::*;

verus! {

/// One address and the amount recorded for it.
pub struct Entry {
    pub address: String,
    pub value: u64,
}

/// Entries with distinct addresses; an address that has no entry stands for 0.
pub struct AccountTable {
    pub entries: Vec<Entry>,
}

/// No two entries have the same address.
pub open spec fn keys_unique(s: Seq<Entry>) -> bool {
    forall|i: int, j: int|
        0 <= i < s.len() && 0 <= j < s.len() && i != j ==> (#[trigger] s[i]).address@ != (
        #[trigger] s[j]).address@
}

pub open spec fn has_key(s: Seq<Entry>, k: Seq<char>) -> bool {
    exists|i: int| 0 <= i < s.len() && (#[trigger] s[i]).address@ == k
}

/// The entries as a map from address to amount.
pub open spec fn entries_map(s: Seq<Entry>) -> Map<Seq<char>, u64> {
    Map::new(
        |k: Seq<char>| has_key(s, k),
        |k: Seq<char>| s[choose|i: int| 0 <= i < s.len() && (#[trigger] s[i]).address@ == k].value,
    )
}

/// The amount recorded for `a`, 0 where there is none.
pub open spec fn amount_of(m: Map<Seq<char>, u64>, a: Seq<char>) -> u64 {
    if m.dom().contains(a) {
        m[a]
    } else {
        0
    }
}

proof fn lemma_entry_in_map(s: Seq<Entry>, i: int)
    requires
        keys_unique(s),
        0 <= i < s.len(),
    ensures
        entries_map(s).dom().contains(s[i].address@),
        entries_map(s)[s[i].address@] == s[i].value,
{
    let k = s[i].address@;
    assert(has_key(s, k));
    let j = choose|j: int| 0 <= j < s.len() && (#[trigger] s[j]).address@ == k;
    assert(j == i);
}

impl View for AccountTable {
    type V = Map<Seq<char>, u64>;

    open spec fn view(&self) -> Map<Seq<char>, u64> {
        entries_map(self.entries@)
    }
}

impl AccountTable {
    pub open spec fn wf(&self) -> bool {
        keys_unique(self.entries@)
    }

    /// An empty table.
    pub fn new() -> (r: AccountTable)
        ensures
            r.wf(),
            r@ == Map::<Seq<char>, u64>::empty(),
    {
        let r = AccountTable { entries: Vec::new() };
        assert(r@ =~= Map::<Seq<char>, u64>::empty());
        r
    }

    fn find(&self, address: &String) -> (r: Option<usize>)
        requires
            self.wf(),
        ensures
            r is Some ==> r->Some_0 < self.entries.len() && self.entries@[r->Some_0 as int].address@
                == address@,
            r is None ==> !self@.dom().contains(address@),
    {
        let mut i: usize = 0;
        while i < self.entries.len()
            invariant
                i <= self.entries.len(),
                forall|j: int| 0 <= j < i ==> (#[trigger] self.entries@[j]).address@ != address@,
            decreases self.entries.len() - i,
        {
            if self.entries[i].address == *address {
                return Some(i);
            }
            i = i + 1;
        }
        None
    }

    /// The amount recorded for `address`, 0 where there is none.
    pub fn get(&self, address: &String) -> (r: u64)
        requires
            self.wf(),
        ensures
            r == amount_of(self@, address@),
    {
        match self.find(address) {
            Some(i) => {
                proof {
                    lemma_entry_in_map(self.entries@, i as int);
                }
                self.entries[i].value
            },
            None => 0,
        }
    }

    /// Records `value` for `address`.
    pub fn set(&mut self, address: &String, value: u64)
        requires
            old(self).wf(),
        ensures
            final(self).wf(),
            final(self)@ == old(self)@.insert(address@, value),
    {
        let ghost s0 = self.entries@;
        match self.find(address) {
            Some(i) => {
                self.entries.set(i, Entry { address: address.clone(), value });
                let ghost s1 = self.entries@;
                assert(keys_unique(s1)) by {
                    assert forall|a: int, b: int|
                        0 <= a < s1.len() && 0 <= b < s1.len() && a != b implies (
                        #[trigger] s1[a]).address@ != (#[trigger] s1[b]).address@ by {
                        assert(s1[a].address@ == s0[a].address@);
                        assert(s1[b].address@ == s0[b].address@);
                    }
                }
                assert forall|k: Seq<char>| #[trigger]
                    entries_map(s1).dom().contains(k) == entries_map(s0).insert(
                        address@,
                        value,
                    ).dom().contains(k) by {
                    if has_key(s1, k) {
                        let j = choose|j: int| 0 <= j < s1.len() && (#[trigger] s1[j]).address@ == k;
                        assert(s0[j].address@ == k);
                    }
                    if has_key(s0, k) {
                        let j = choose|j: int| 0 <= j < s0.len() && (#[trigger] s0[j]).address@ == k;
                        assert(s1[j].address@ == k);
                    }
                }
                assert forall|k: Seq<char>| #[trigger]
                    entries_map(s1).dom().contains(k) implies entries_map(s1)[k] == entries_map(
                    s0,
                ).insert(address@, value)[k] by {
                    let j = choose|j: int| 0 <= j < s1.len() && (#[trigger] s1[j]).address@ == k;
                    lemma_entry_in_map(s1, j);
                    if j != i {
                        lemma_entry_in_map(s0, j);
                    }
                }
                assert(entries_map(s1) =~= entries_map(s0).insert(address@, value));
            },
            None => {
                self.entries.push(Entry { address: address.clone(), value });
                let ghost s1 = self.entries@;
                assert(keys_unique(s1)) by {
                    assert forall|a: int, b: int|
                        0 <= a < s1.len() && 0 <= b < s1.len() && a != b implies (
                        #[trigger] s1[a]).address@ != (#[trigger] s1[b]).address@ by {
                        if a == s0.len() {
                            assert(!has_key(s0, address@));
                            assert(s0[b] == s1[b]);
                        } else if b == s0.len() {
                            assert(!has_key(s0, address@));
                            assert(s0[a] == s1[a]);
                        } else {
                            assert(s0[a] == s1[a]);
                            assert(s0[b] == s1[b]);
                        }
                    }
                }
                assert forall|k: Seq<char>| #[trigger]
                    entries_map(s1).dom().contains(k) == entries_map(s0).insert(
                        address@,
                        value,
                    ).dom().contains(k) by {
                    if has_key(s1, k) {
                        let j = choose|j: int| 0 <= j < s1.len() && (#[trigger] s1[j]).address@ == k;
                        if j < s0.len() {
                            assert(s0[j] == s1[j]);
                        }
                    }
                    if has_key(s0, k) {
                        let j = choose|j: int| 0 <= j < s0.len() && (#[trigger] s0[j]).address@ == k;
                        assert(s1[j] == s0[j]);
                    }
                    if k == address@ {
                        assert(s1[s0.len() as int].address@ == k);
                    }
                }
                assert forall|k: Seq<char>| #[trigger]
                    entries_map(s1).dom().contains(k) implies entries_map(s1)[k] == entries_map(
                    s0,
                ).insert(address@, value)[k] by {
                    let j = choose|j: int| 0 <= j < s1.len() && (#[trigger] s1[j]).address@ == k;
                    lemma_entry_in_map(s1, j);
                    if j < s0.len() {
                        assert(s0[j] == s1[j]);
                        lemma_entry_in_map(s0, j);
                    }
                }
                assert(entries_map(s1) =~= entries_map(s0).insert(address@, value));
            },
        }
    }
}

} // verus!
