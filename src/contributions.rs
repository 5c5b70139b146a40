use vstd::prelude::*;
use crate::party::Party;

verus! {

/// One contributor's running total.
#[derive(Debug)]
pub struct Contribution {
    pub contributor: Party,
    pub amount: i128,
}

/// What each contributor has put in, one entry per contributor.
#[derive(Debug)]
pub struct Contributions {
    entries: Vec<Contribution>,
}

/// The map that a list of entries stands for: a later entry for a key
/// overrides an earlier one (with unique keys no entry is overridden).
pub open spec fn entries_map(s: Seq<Contribution>) -> Map<Seq<char>, i128>
    decreases s.len(),
{
    if s.len() == 0 {
        Map::empty()
    } else {
        entries_map(s.drop_last()).insert(s.last().contributor@, s.last().amount)
    }
}

/// No two entries share a contributor.
pub open spec fn unique_keys(s: Seq<Contribution>) -> bool {
    forall|i: int, j: int|
        0 <= i < s.len() && 0 <= j < s.len() && i != j ==> s[i].contributor@ != s[j].contributor@
}

proof fn lemma_entry_in_map(s: Seq<Contribution>, k: int)
    requires
        unique_keys(s),
        0 <= k < s.len(),
    ensures
        entries_map(s).contains_key(s[k].contributor@),
        entries_map(s)[s[k].contributor@] == s[k].amount,
    decreases s.len(),
{
    if k < s.len() - 1 {
        let t = s.drop_last();
        assert(t[k] == s[k]);
        lemma_entry_in_map(t, k);
    }
}

proof fn lemma_absent_from_map(s: Seq<Contribution>, key: Seq<char>)
    requires
        forall|i: int| 0 <= i < s.len() ==> s[i].contributor@ != key,
    ensures
        !entries_map(s).contains_key(key),
    decreases s.len(),
{
    if s.len() > 0 {
        let t = s.drop_last();
        assert forall|i: int| 0 <= i < t.len() implies t[i].contributor@ != key by {
            assert(t[i] == s[i]);
        }
        lemma_absent_from_map(t, key);
    }
}

proof fn lemma_update_map(s: Seq<Contribution>, k: int, c: Contribution)
    requires
        unique_keys(s),
        0 <= k < s.len(),
        c.contributor@ == s[k].contributor@,
    ensures
        entries_map(s.update(k, c)) == entries_map(s).insert(c.contributor@, c.amount),
    decreases s.len(),
{
    let u = s.update(k, c);
    if k == s.len() - 1 {
        assert(u.drop_last() =~= s.drop_last());
        let t = s.drop_last();
        assert forall|i: int| 0 <= i < t.len() implies t[i].contributor@ != c.contributor@ by {
            assert(t[i] == s[i]);
        }
        lemma_absent_from_map(t, c.contributor@);
        assert(entries_map(u) =~= entries_map(s).insert(c.contributor@, c.amount));
    } else {
        let t = s.drop_last();
        assert(u.drop_last() =~= t.update(k, c));
        assert(unique_keys(t)) by {
            assert forall|i: int, j: int|
                0 <= i < t.len() && 0 <= j < t.len() && i != j implies t[i].contributor@
                != t[j].contributor@ by {
                assert(t[i] == s[i] && t[j] == s[j]);
            }
        }
        lemma_update_map(t, k, c);
        assert(s.last().contributor@ != c.contributor@);
        assert(entries_map(u) =~= entries_map(s).insert(c.contributor@, c.amount));
    }
}

impl View for Contributions {
    type V = Map<Seq<char>, i128>;

    closed spec fn view(&self) -> Map<Seq<char>, i128> {
        entries_map(self.entries@)
    }
}

impl Contributions {
    pub closed spec fn wf(&self) -> bool {
        unique_keys(self.entries@)
    }

    /// No contributor yet.
    pub fn new() -> (r: Contributions)
        ensures
            r.wf(),
            r@ == Map::<Seq<char>, i128>::empty(),
    {
        Contributions { entries: Vec::new() }
    }

    /// The position of `who`'s entry, if there is one.
    fn position(&self, who: &Party) -> (r: Option<usize>)
        ensures
            match r {
                Some(k) => k < self.entries@.len() && self.entries@[k as int].contributor@ == who@,
                None => forall|i: int|
                    0 <= i < self.entries@.len() ==> self.entries@[i].contributor@ != who@,
            },
    {
        let mut i: usize = 0;
        while i < self.entries.len()
            invariant
                i <= self.entries@.len(),
                forall|j: int| 0 <= j < i ==> self.entries@[j].contributor@ != who@,
            decreases self.entries@.len() - i,
        {
            if self.entries[i].contributor.same(who) {
                return Some(i);
            }
            i = i + 1;
        }
        None
    }

    /// `who`'s recorded amount, or `None` where `who` has no entry.
    pub fn get(&self, who: &Party) -> (r: Option<i128>)
        requires
            self.wf(),
        ensures
            r == (if self@.contains_key(who@) { Some(self@[who@]) } else { None::<i128> }),
    {
        match self.position(who) {
            Some(k) => {
                proof {
                    lemma_entry_in_map(self.entries@, k as int);
                }
                Some(self.entries[k].amount)
            },
            None => {
                proof {
                    lemma_absent_from_map(self.entries@, who@);
                }
                None
            },
        }
    }

    /// Records `amount` as `who`'s entry, replacing any earlier one.
    pub fn set(&mut self, who: &Party, amount: i128)
        requires
            old(self).wf(),
        ensures
            final(self).wf(),
            final(self)@ == old(self)@.insert(who@, amount),
    {
        let entry = Contribution { contributor: who.clone(), amount };
        match self.position(who) {
            Some(k) => {
                proof {
                    lemma_update_map(self.entries@, k as int, entry);
                }
                self.entries.set(k, entry);
                assert(unique_keys(self.entries@)) by {
                    assert forall|i: int, j: int|
                        0 <= i < self.entries@.len() && 0 <= j < self.entries@.len() && i != j
                        implies self.entries@[i].contributor@ != self.entries@[j].contributor@ by {
                        assert(old(self).entries@[k as int].contributor@ == who@);
                    }
                }
            },
            None => {
                let ghost s = self.entries@;
                self.entries.push(entry);
                assert(self.entries@.drop_last() =~= s);
                assert(unique_keys(self.entries@)) by {
                    assert forall|i: int, j: int|
                        0 <= i < self.entries@.len() && 0 <= j < self.entries@.len() && i != j
                        implies self.entries@[i].contributor@ != self.entries@[j].contributor@ by {
                        if i < s.len() && j < s.len() {
                            assert(self.entries@[i] == s[i] && self.entries@[j] == s[j]);
                        } else if i < s.len() {
                            assert(self.entries@[i] == s[i]);
                        } else {
                            assert(self.entries@[j] == s[j]);
                        }
                    }
                }
            },
        }
    }
    /// The contributions listed in `entries`; where a contributor is listed
    /// twice, the later entry counts.
    pub fn from_entries(entries: &Vec<Contribution>) -> (r: Contributions)
        ensures
            r.wf(),
            r@ == entries_map(entries@),
    {
        let mut out = Contributions::new();
        let mut i: usize = 0;
        proof {
            assert(entries@.subrange(0, 0) =~= Seq::<Contribution>::empty());
        }
        while i < entries.len()
            invariant
                i <= entries@.len(),
                out.wf(),
                out@ == entries_map(entries@.subrange(0, i as int)),
            decreases entries@.len() - i,
        {
            out.set(&entries[i].contributor, entries[i].amount);
            proof {
                assert(entries@.subrange(0, i + 1).drop_last() =~= entries@.subrange(0, i as int));
            }
            i = i + 1;
        }
        assert(entries@.subrange(0, entries@.len() as int) =~= entries@);
        out
    }

    /// The entries, one per contributor.
    pub fn to_entries(&self) -> (r: Vec<Contribution>)
        requires
            self.wf(),
        ensures
            entries_map(r@) == self@,
            unique_keys(r@),
    {
        let mut out: Vec<Contribution> = Vec::new();
        let mut i: usize = 0;
        while i < self.entries.len()
            invariant
                i <= self.entries@.len(),
                out@ == self.entries@.subrange(0, i as int),
            decreases self.entries@.len() - i,
        {
            let e = &self.entries[i];
            out.push(Contribution { contributor: e.contributor.clone(), amount: e.amount });
            i = i + 1;
            assert(out@ =~= self.entries@.subrange(0, i as int));
        }
        assert(out@ =~= self.entries@);
        out
    }
}

} // verus!
