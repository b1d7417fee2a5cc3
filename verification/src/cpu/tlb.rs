use vstd::prelude::*;

verus! {

/// A cached translation: the page-table root's physical page number, the address-space
/// identifier, the virtual page number, and the physical page number it maps to.
pub type TlbEntry = (u64, u64, u64, u64);

/// The physical page cached for key `(root, asid, vpage)`: the first entry of `s` with that key.
pub open spec fn find_entry(s: Seq<TlbEntry>, root: u64, asid: u64, vpage: u64) -> Option<u64>
    decreases s.len(),
{
    if s.len() == 0 {
        None
    } else if s[0].0 == root && s[0].1 == asid && s[0].2 == vpage {
        Some(s[0].3)
    } else {
        find_entry(s.drop_first(), root, asid, vpage)
    }
}

/// The cache as a map from `(root, asid, vpage)` to the cached physical page.
pub open spec fn entries_map(s: Seq<TlbEntry>) -> Map<(u64, u64, u64), u64> {
    Map::new(
        |k: (u64, u64, u64)| find_entry(s, k.0, k.1, k.2) is Some,
        |k: (u64, u64, u64)| find_entry(s, k.0, k.1, k.2)->0,
    )
}

/// Index of the first entry of `s` with key `(root, asid, vpage)`, or the length of `s`.
pub open spec fn first_index(s: Seq<TlbEntry>, root: u64, asid: u64, vpage: u64) -> int
    decreases s.len(),
{
    if s.len() == 0 {
        0
    } else if s[0].0 == root && s[0].1 == asid && s[0].2 == vpage {
        0
    } else {
        1 + first_index(s.drop_first(), root, asid, vpage)
    }
}

proof fn lemma_first_index(s: Seq<TlbEntry>, root: u64, asid: u64, vpage: u64)
    ensures
        0 <= first_index(s, root, asid, vpage) <= s.len(),
        forall|j: int|
            0 <= j < first_index(s, root, asid, vpage) ==> !(#[trigger] s[j].0 == root && s[j].1
                == asid && s[j].2 == vpage),
        first_index(s, root, asid, vpage) < s.len() ==> {
            let i = first_index(s, root, asid, vpage);
            &&& s[i].0 == root
            &&& s[i].1 == asid
            &&& s[i].2 == vpage
            &&& find_entry(s, root, asid, vpage) == Some(s[i].3)
        },
        first_index(s, root, asid, vpage) == s.len() ==> find_entry(s, root, asid, vpage) is None,
    decreases s.len(),
{
    if s.len() > 0 {
        lemma_first_index(s.drop_first(), root, asid, vpage);
        assert forall|j: int| 0 <= j < first_index(s, root, asid, vpage) implies !(#[trigger] s[j].0
            == root && s[j].1 == asid && s[j].2 == vpage) by {
            if j > 0 {
                assert(s[j] == s.drop_first()[j - 1]);
            }
        }
    }
}

proof fn lemma_find_after_update(s: Seq<TlbEntry>, i: int, e: TlbEntry, root: u64, asid: u64, vpage: u64)
    requires
        0 <= i < s.len(),
        i == first_index(s, e.0, e.1, e.2),
    ensures
        find_entry(s.update(i, e), root, asid, vpage) == if root == e.0 && asid == e.1 && vpage
            == e.2 {
            Some(e.3)
        } else {
            find_entry(s, root, asid, vpage)
        },
    decreases s.len(),
{
    lemma_first_index(s, e.0, e.1, e.2);
    if i == 0 {
        assert(s.update(i, e).drop_first() =~= s.drop_first());
    } else {
        assert(s.update(i, e).drop_first() =~= s.drop_first().update(i - 1, e));
        lemma_find_after_update(s.drop_first(), i - 1, e, root, asid, vpage);
    }
}

proof fn lemma_find_after_push(s: Seq<TlbEntry>, e: TlbEntry, root: u64, asid: u64, vpage: u64)
    requires
        find_entry(s, e.0, e.1, e.2) is None,
    ensures
        find_entry(s.push(e), root, asid, vpage) == if root == e.0 && asid == e.1 && vpage
            == e.2 {
            Some(e.3)
        } else {
            find_entry(s, root, asid, vpage)
        },
    decreases s.len(),
{
    let t = s.push(e);
    if s.len() == 0 {
        assert(t[0] == e);
        assert(t.drop_first() =~= Seq::<TlbEntry>::empty());
        assert(find_entry(t.drop_first(), root, asid, vpage) is None);
    } else {
        assert(t[0] == s[0]);
        assert(t.drop_first() =~= s.drop_first().push(e));
        if !(s[0].0 == root && s[0].1 == asid && s[0].2 == vpage) {
            assert(!(s[0].0 == e.0 && s[0].1 == e.1 && s[0].2 == e.2));
            lemma_find_after_push(s.drop_first(), e, root, asid, vpage);
        }
    }
}

/// The translation cache, keyed by page-table root, address-space identifier and virtual page.
pub struct Tlb {
    pub entries: Vec<TlbEntry>,
}

impl View for Tlb {
    type V = Map<(u64, u64, u64), u64>;

    open spec fn view(&self) -> Map<(u64, u64, u64), u64> {
        entries_map(self.entries@)
    }
}

impl Tlb {
    /// An empty cache.
    pub fn new() -> (t: Tlb)
        ensures
            t@ == Map::<(u64, u64, u64), u64>::empty(),
    {
        let t = Tlb { entries: Vec::new() };
        assert(t@ =~= Map::<(u64, u64, u64), u64>::empty());
        t
    }

    /// The cached physical page for `key`.
    pub fn get(&self, key: (u64, u64, u64)) -> (r: Option<u64>)
        ensures
            r == (if self@.contains_key(key) {
                Some(self@[key])
            } else {
                None
            }),
    {
        let mut i: usize = 0;
        assert(self.entries@.subrange(0, self.entries@.len() as int) =~= self.entries@);
        while i < self.entries.len()
            invariant
                i <= self.entries@.len(),
                find_entry(self.entries@, key.0, key.1, key.2) == find_entry(
                    self.entries@.subrange(i as int, self.entries@.len() as int),
                    key.0,
                    key.1,
                    key.2,
                ),
            decreases self.entries@.len() - i,
        {
            let e = self.entries[i];
            let ghost rest = self.entries@.subrange(i as int, self.entries@.len() as int);
            assert(rest[0] == e);
            if e.0 == key.0 && e.1 == key.1 && e.2 == key.2 {
                return Some(e.3);
            }
            assert(rest.drop_first() =~= self.entries@.subrange(i + 1, self.entries@.len() as int));
            i = i + 1;
        }
        None
    }

    /// Caches `page` for `key`, replacing what was cached for it.
    pub fn insert(&mut self, key: (u64, u64, u64), page: u64)
        ensures
            final(self)@ == old(self)@.insert(key, page),
    {
        let e: TlbEntry = (key.0, key.1, key.2, page);
        let mut i: usize = 0;
        proof {
            lemma_first_index(self.entries@, key.0, key.1, key.2);
        }
        while i < self.entries.len()
            invariant
                i <= self.entries@.len(),
                self.entries@ == old(self).entries@,
                e == (key.0, key.1, key.2, page),
                i <= first_index(self.entries@, key.0, key.1, key.2),
                0 <= first_index(self.entries@, key.0, key.1, key.2) <= self.entries@.len(),
                forall|j: int|
                    0 <= j < first_index(self.entries@, key.0, key.1, key.2) ==> !(
                    #[trigger] self.entries@[j].0 == key.0 && self.entries@[j].1 == key.1
                        && self.entries@[j].2 == key.2),
                first_index(self.entries@, key.0, key.1, key.2) < self.entries@.len() ==> {
                    let k = first_index(self.entries@, key.0, key.1, key.2);
                    &&& self.entries@[k].0 == key.0
                    &&& self.entries@[k].1 == key.1
                    &&& self.entries@[k].2 == key.2
                },
            decreases self.entries@.len() - i,
        {
            let cur = self.entries[i];
            if cur.0 == key.0 && cur.1 == key.1 && cur.2 == key.2 {
                let ghost s = self.entries@;
                assert(s[i as int].0 == key.0);
                assert(i == first_index(s, key.0, key.1, key.2));
                assert(e.0 == key.0 && e.1 == key.1 && e.2 == key.2 && e.3 == page);
                self.entries.set(i, e);
                proof {
                    assert forall|k: (u64, u64, u64)| true implies find_entry(
                        self.entries@,
                        k.0,
                        k.1,
                        k.2,
                    ) == (if k == key {
                        Some(page)
                    } else {
                        find_entry(s, k.0, k.1, k.2)
                    }) by {
                        lemma_find_after_update(s, i as int, e, k.0, k.1, k.2);
                    }
                    assert(self@ =~= old(self)@.insert(key, page));
                }
                return;
            }
            i = i + 1;
        }
        let ghost s = self.entries@;
        self.entries.push(e);
        proof {
            assert forall|k: (u64, u64, u64)| true implies find_entry(
                self.entries@,
                k.0,
                k.1,
                k.2,
            ) == (if k == key {
                Some(page)
            } else {
                find_entry(s, k.0, k.1, k.2)
            }) by {
                lemma_find_after_push(s, e, k.0, k.1, k.2);
            }
            assert(self@ =~= old(self)@.insert(key, page));
        }
    }

    /// Drops every cached translation.
    pub fn clear(&mut self)
        ensures
            final(self)@ == Map::<(u64, u64, u64), u64>::empty(),
    {
        self.entries.clear();
        assert(self@ =~= Map::<(u64, u64, u64), u64>::empty());
    }

    /// The cached translations, each key once.
    pub fn to_entries(&self) -> (v: Vec<TlbEntry>)
        ensures
            entries_map(v@) == self@,
    {
        let mut v: Vec<TlbEntry> = Vec::new();
        let mut i: usize = 0;
        while i < self.entries.len()
            invariant
                i <= self.entries@.len(),
                v@ == self.entries@.subrange(0, i as int),
            decreases self.entries@.len() - i,
        {
            v.push(self.entries[i]);
            assert(v@ =~= self.entries@.subrange(0, i + 1));
            i = i + 1;
        }
        assert(v@ =~= self.entries@);
        v
    }

    /// The cache holding `entries`; of two entries with the same key the first one counts.
    pub fn from_entries(entries: &[TlbEntry]) -> (t: Tlb)
        ensures
            t@ == entries_map(entries@),
    {
        let mut v: Vec<TlbEntry> = Vec::new();
        let mut i: usize = 0;
        while i < entries.len()
            invariant
                i <= entries@.len(),
                v@ == entries@.subrange(0, i as int),
            decreases entries@.len() - i,
        {
            v.push(entries[i]);
            assert(v@ =~= entries@.subrange(0, i + 1));
            i = i + 1;
        }
        assert(v@ =~= entries@);
        Tlb { entries: v }
    }
}

} // verus!
