use vstd::prelude::*;

verus! {

/// A unit of work whose completion releases `amount`.
#[derive(Debug)]
pub struct Milestone {
    pub id: u32,
    pub description: String,
    pub amount: i128,
    pub completed: bool,
    pub completed_at: u64,
}

impl Clone for Milestone {
    fn clone(&self) -> (r: Self)
        ensures
            r == *self,
    {
        Milestone {
            id: self.id,
            description: self.description.clone(),
            amount: self.amount,
            completed: self.completed,
            completed_at: self.completed_at,
        }
    }
}

/// A slot of a release schedule: `amount` becomes releasable once the ledger
/// time reaches `release_date`.
#[derive(Clone, Copy, Debug, PartialEq, Eq, Structural)]
pub struct TimeRelease {
    pub release_date: u64,
    pub amount: i128,
    pub released: bool,
}

/// The sum of all milestone amounts.
pub open spec fn milestone_sum(s: Seq<Milestone>) -> int
    decreases s.len(),
{
    if s.len() == 0 {
        0
    } else {
        milestone_sum(s.drop_last()) + s.last().amount
    }
}

/// The sum of the amounts of completed milestones.
pub open spec fn completed_sum(s: Seq<Milestone>) -> int
    decreases s.len(),
{
    if s.len() == 0 {
        0
    } else {
        completed_sum(s.drop_last()) + if s.last().completed {
            s.last().amount as int
        } else {
            0
        }
    }
}

/// The sum of all slot amounts of a schedule.
pub open spec fn schedule_sum(s: Seq<TimeRelease>) -> int
    decreases s.len(),
{
    if s.len() == 0 {
        0
    } else {
        schedule_sum(s.drop_last()) + s.last().amount
    }
}

/// The sum of the amounts of released slots.
pub open spec fn released_sum(s: Seq<TimeRelease>) -> int
    decreases s.len(),
{
    if s.len() == 0 {
        0
    } else {
        released_sum(s.drop_last()) + if s.last().released {
            s.last().amount as int
        } else {
            0
        }
    }
}

/// A slot is due at `now` when it is unreleased and its date has come.
pub open spec fn is_due(t: TimeRelease, now: u64) -> bool {
    !t.released && now >= t.release_date
}

/// The sum of the amounts of the slots due at `now`.
pub open spec fn due_sum(s: Seq<TimeRelease>, now: u64) -> int
    decreases s.len(),
{
    if s.len() == 0 {
        0
    } else {
        due_sum(s.drop_last(), now) + if is_due(s.last(), now) {
            s.last().amount as int
        } else {
            0
        }
    }
}

/// The slot marked released.
pub open spec fn mark_released(t: TimeRelease) -> TimeRelease {
    TimeRelease { release_date: t.release_date, amount: t.amount, released: true }
}

/// The schedule with every slot due at `now` marked released.
pub open spec fn release_due(s: Seq<TimeRelease>, now: u64) -> Seq<TimeRelease> {
    Seq::new(s.len(), |i: int| if is_due(s[i], now) { mark_released(s[i]) } else { s[i] })
}

/// The milestone marked completed at `now`.
pub open spec fn mark_completed(m: Milestone, now: u64) -> Milestone {
    Milestone {
        id: m.id,
        description: m.description,
        amount: m.amount,
        completed: true,
        completed_at: now,
    }
}

/// `k` is the first position holding a milestone with identifier `id`.
pub open spec fn first_with_id(s: Seq<Milestone>, id: u32, k: int) -> bool {
    &&& 0 <= k < s.len()
    &&& s[k].id == id
    &&& forall|j: int| 0 <= j < k ==> s[j].id != id
}

pub proof fn lemma_first_with_id_unique(s: Seq<Milestone>, id: u32, k1: int, k2: int)
    requires
        first_with_id(s, id, k1),
        first_with_id(s, id, k2),
    ensures
        k1 == k2,
{
}

pub proof fn lemma_milestone_sums_bounded(s: Seq<Milestone>)
    requires
        forall|i: int| 0 <= i < s.len() ==> s[i].amount > 0,
    ensures
        0 <= completed_sum(s) <= milestone_sum(s),
    decreases s.len(),
{
    if s.len() > 0 {
        let t = s.drop_last();
        assert forall|i: int| 0 <= i < t.len() implies t[i].amount > 0 by {
            assert(t[i] == s[i]);
        }
        lemma_milestone_sums_bounded(t);
    }
}

pub proof fn lemma_schedule_sums_bounded(s: Seq<TimeRelease>)
    requires
        forall|i: int| 0 <= i < s.len() ==> s[i].amount > 0,
    ensures
        0 <= released_sum(s) <= schedule_sum(s),
    decreases s.len(),
{
    if s.len() > 0 {
        let t = s.drop_last();
        assert forall|i: int| 0 <= i < t.len() implies t[i].amount > 0 by {
            assert(t[i] == s[i]);
        }
        lemma_schedule_sums_bounded(t);
    }
}

pub proof fn lemma_milestone_push(s: Seq<Milestone>, m: Milestone)
    ensures
        milestone_sum(s.push(m)) == milestone_sum(s) + m.amount,
        completed_sum(s.push(m)) == completed_sum(s) + if m.completed {
            m.amount as int
        } else {
            0
        },
{
    assert(s.push(m).drop_last() =~= s);
}

pub proof fn lemma_schedule_push(s: Seq<TimeRelease>, t: TimeRelease)
    ensures
        schedule_sum(s.push(t)) == schedule_sum(s) + t.amount,
        released_sum(s.push(t)) == released_sum(s) + if t.released {
            t.amount as int
        } else {
            0
        },
{
    assert(s.push(t).drop_last() =~= s);
}

/// Completing an uncompleted milestone adds its amount to the completed sum.
pub proof fn lemma_complete_update(s: Seq<Milestone>, k: int, m: Milestone)
    requires
        0 <= k < s.len(),
        !s[k].completed,
        m.completed,
        m.amount == s[k].amount,
    ensures
        milestone_sum(s.update(k, m)) == milestone_sum(s),
        completed_sum(s.update(k, m)) == completed_sum(s) + m.amount,
    decreases s.len(),
{
    let u = s.update(k, m);
    if k == s.len() - 1 {
        assert(u.drop_last() =~= s.drop_last());
    } else {
        assert(u.drop_last() =~= s.drop_last().update(k, m));
        lemma_complete_update(s.drop_last(), k, m);
    }
}

/// Releasing an unreleased slot adds its amount to the released sum.
pub proof fn lemma_release_update(s: Seq<TimeRelease>, k: int, t: TimeRelease)
    requires
        0 <= k < s.len(),
        !s[k].released,
        t.released,
        t.amount == s[k].amount,
    ensures
        schedule_sum(s.update(k, t)) == schedule_sum(s),
        released_sum(s.update(k, t)) == released_sum(s) + t.amount,
    decreases s.len(),
{
    let u = s.update(k, t);
    if k == s.len() - 1 {
        assert(u.drop_last() =~= s.drop_last());
    } else {
        assert(u.drop_last() =~= s.drop_last().update(k, t));
        lemma_release_update(s.drop_last(), k, t);
    }
}

/// Releasing every due slot adds exactly the due sum to the released sum.
pub proof fn lemma_release_due_sums(s: Seq<TimeRelease>, now: u64)
    ensures
        schedule_sum(release_due(s, now)) == schedule_sum(s),
        released_sum(release_due(s, now)) == released_sum(s) + due_sum(s, now),
    decreases s.len(),
{
    if s.len() > 0 {
        assert(release_due(s, now).drop_last() =~= release_due(s.drop_last(), now));
        lemma_release_due_sums(s.drop_last(), now);
    }
}

pub proof fn lemma_due_sum_nonneg(s: Seq<TimeRelease>, now: u64)
    requires
        forall|i: int| 0 <= i < s.len() ==> s[i].amount > 0,
    ensures
        0 <= due_sum(s, now),
    decreases s.len(),
{
    if s.len() > 0 {
        let t = s.drop_last();
        assert forall|i: int| 0 <= i < t.len() implies t[i].amount > 0 by {
            assert(t[i] == s[i]);
        }
        lemma_due_sum_nonneg(t, now);
    }
}

/// With positive amounts, a prefix sums to no more than the whole.
pub proof fn lemma_milestone_prefix(s: Seq<Milestone>, i: int)
    requires
        0 <= i <= s.len(),
        forall|j: int| 0 <= j < s.len() ==> s[j].amount > 0,
    ensures
        milestone_sum(s.subrange(0, i)) <= milestone_sum(s),
    decreases s.len(),
{
    if i < s.len() {
        let t = s.drop_last();
        assert(t.subrange(0, i) =~= s.subrange(0, i));
        assert forall|j: int| 0 <= j < t.len() implies t[j].amount > 0 by {
            assert(t[j] == s[j]);
        }
        lemma_milestone_prefix(t, i);
    } else {
        assert(s.subrange(0, i) =~= s);
    }
}

/// With positive amounts, a prefix of a schedule sums to no more than the
/// whole.
pub proof fn lemma_schedule_prefix(s: Seq<TimeRelease>, i: int)
    requires
        0 <= i <= s.len(),
        forall|j: int| 0 <= j < s.len() ==> s[j].amount > 0,
    ensures
        schedule_sum(s.subrange(0, i)) <= schedule_sum(s),
    decreases s.len(),
{
    if i < s.len() {
        let t = s.drop_last();
        assert(t.subrange(0, i) =~= s.subrange(0, i));
        assert forall|j: int| 0 <= j < t.len() implies t[j].amount > 0 by {
            assert(t[j] == s[j]);
        }
        lemma_schedule_prefix(t, i);
    } else {
        assert(s.subrange(0, i) =~= s);
    }
}

} // verus!
