use vstd::prelude::*;
use crate::contributions::{entries_map, Contribution, Contributions};
use crate::party::Party;

verus! {

/// Why a pool operation was rejected.
#[derive(Clone, Copy, Debug, PartialEq, Eq, Structural)]
pub enum Error {
    AlreadyInitialized,
    NotInitialized,
    InvalidAmount,
    InvalidDeadline,
    Unauthorized,
    PoolNotFunding,
    DeadlineNotReached,
    GoalNotMet,
    GoalAlreadyMet,
    NoContribution,
    PoolNotFailed,
}

/// Where a pool stands: collecting until its deadline, then funded or failed.
#[derive(Clone, Copy, Debug, PartialEq, Eq, Structural)]
pub enum PoolStatus {
    Funding,
    Funded,
    Failed,
}

/// What a pool instance holds, as mathematical values.
pub struct PoolState {
    pub initialized: bool,
    pub project_owner: Seq<char>,
    pub funding_goal: i128,
    pub deadline: u64,
    pub total_raised: i128,
    pub contributions: Map<Seq<char>, i128>,
    pub status: PoolStatus,
    pub created_at: u64,
}

impl PoolState {
    /// Every recorded contribution lies between zero and the total raised.
    pub open spec fn wf(self) -> bool {
        &&& 0 <= self.total_raised
        &&& forall|k: Seq<char>| #[trigger]
            self.contributions.contains_key(k) ==> 0 <= self.contributions[k]
                <= self.total_raised
    }

    /// What `who` has contributed so far (zero where nothing is recorded).
    pub open spec fn contribution_of(self, who: Seq<char>) -> i128 {
        if self.contributions.contains_key(who) {
            self.contributions[who]
        } else {
            0
        }
    }

    pub open spec fn initialize_spec(
        self,
        project_owner: Seq<char>,
        funding_goal: i128,
        deadline: u64,
        now: u64,
    ) -> (Result<(), Error>, PoolState) {
        if self.initialized {
            (Err(Error::AlreadyInitialized), self)
        } else if funding_goal <= 0 {
            (Err(Error::InvalidAmount), self)
        } else if deadline <= now {
            (Err(Error::InvalidDeadline), self)
        } else {
            (
                Ok(()),
                PoolState {
                    initialized: true,
                    project_owner,
                    funding_goal,
                    deadline,
                    total_raised: 0,
                    contributions: Map::empty(),
                    status: PoolStatus::Funding,
                    created_at: now,
                },
            )
        }
    }

    pub open spec fn contribute_spec(self, who: Seq<char>, amount: i128, now: u64) -> (
        Result<(), Error>,
        PoolState,
    ) {
        if amount <= 0 {
            (Err(Error::InvalidAmount), self)
        } else if !self.initialized {
            (Err(Error::NotInitialized), self)
        } else if self.status != PoolStatus::Funding {
            (Err(Error::PoolNotFunding), self)
        } else if now >= self.deadline {
            (Err(Error::DeadlineNotReached), self)
        } else {
            (
                Ok(()),
                PoolState {
                    total_raised: (self.total_raised + amount) as i128,
                    contributions: self.contributions.insert(
                        who,
                        (self.contribution_of(who) + amount) as i128,
                    ),
                    ..self
                },
            )
        }
    }

    pub open spec fn finalize_spec(self, now: u64) -> (Result<(), Error>, PoolState) {
        if !self.initialized {
            (Err(Error::NotInitialized), self)
        } else if self.status != PoolStatus::Funding {
            (Err(Error::PoolNotFunding), self)
        } else if now < self.deadline {
            (Err(Error::DeadlineNotReached), self)
        } else {
            (
                Ok(()),
                PoolState {
                    status: if self.total_raised >= self.funding_goal {
                        PoolStatus::Funded
                    } else {
                        PoolStatus::Failed
                    },
                    ..self
                },
            )
        }
    }

    pub open spec fn refund_spec(self, who: Seq<char>) -> (Result<i128, Error>, PoolState) {
        if !self.initialized {
            (Err(Error::NotInitialized), self)
        } else if self.status != PoolStatus::Failed {
            (Err(Error::PoolNotFailed), self)
        } else if self.contribution_of(who) == 0 {
            (Err(Error::NoContribution), self)
        } else {
            (
                Ok(self.contribution_of(who)),
                PoolState { contributions: self.contributions.insert(who, 0), ..self },
            )
        }
    }
}

/// A pool that is already initialized refuses every further `initialize`,
/// whatever its arguments, and keeps its state.
pub proof fn pool_initialize_once(
    s: PoolState,
    project_owner: Seq<char>,
    funding_goal: i128,
    deadline: u64,
    now: u64,
)
    requires
        s.initialized,
    ensures
        s.initialize_spec(project_owner, funding_goal, deadline, now) == (
            Err::<(), Error>(Error::AlreadyInitialized),
            s,
        ),
{
}

/// A goal or a contribution that is zero or negative is rejected with
/// `InvalidAmount` and changes nothing.
pub proof fn pool_rejects_nonpositive_amounts(
    s: PoolState,
    who: Seq<char>,
    amount: i128,
    deadline: u64,
    now: u64,
)
    requires
        amount <= 0,
    ensures
        s.contribute_spec(who, amount, now) == (Err::<(), Error>(Error::InvalidAmount), s),
        !s.initialized ==> s.initialize_spec(who, amount, deadline, now) == (
            Err::<(), Error>(Error::InvalidAmount),
            s,
        ),
{
}

/// Before the deadline a funding pool cannot be finalized; at or after it,
/// it becomes funded exactly when the amount raised reaches the goal, and
/// failed otherwise.
pub proof fn pool_deadline_gating(s: PoolState, now: u64)
    requires
        s.initialized,
        s.status == PoolStatus::Funding,
    ensures
        now < s.deadline ==> s.finalize_spec(now) == (
            Err::<(), Error>(Error::DeadlineNotReached),
            s,
        ),
        now >= s.deadline ==> {
            let (r, t) = s.finalize_spec(now);
            &&& r == Ok::<(), Error>(())
            &&& t.status == (if s.total_raised >= s.funding_goal {
                PoolStatus::Funded
            } else {
                PoolStatus::Failed
            })
        },
{
}

/// In a failed pool, a contributor who put in `c > 0` gets exactly `c` back
/// once; a second refund to the same contributor fails with `NoContribution`.
pub proof fn pool_refund_exact(s: PoolState, who: Seq<char>)
    requires
        s.initialized,
        s.status == PoolStatus::Failed,
        s.contribution_of(who) > 0,
    ensures
        s.refund_spec(who).0 == Ok::<i128, Error>(s.contribution_of(who)),
        s.refund_spec(who).1.refund_spec(who).0 == Err::<i128, Error>(Error::NoContribution),
{
}

/// A crowdfunding pool: contributors fund a goal until a deadline; at or
/// after the deadline the pool is finalized as funded (goal reached) or
/// failed, and contributors of a failed pool may take their money back.
#[derive(Debug)]
pub struct PoolContract {
    initialized: bool,
    project_owner: Party,
    funding_goal: i128,
    deadline: u64,
    total_raised: i128,
    contributors: Contributions,
    status: PoolStatus,
    created_at: u64,
}

impl View for PoolContract {
    type V = PoolState;

    closed spec fn view(&self) -> PoolState {
        PoolState {
            initialized: self.initialized,
            project_owner: self.project_owner@,
            funding_goal: self.funding_goal,
            deadline: self.deadline,
            total_raised: self.total_raised,
            contributions: self.contributors@,
            status: self.status,
            created_at: self.created_at,
        }
    }
}

impl PoolContract {
    pub closed spec fn wf(&self) -> bool {
        self.contributors.wf() && self@.wf()
    }

    /// An instance that has not been initialized yet.
    pub fn new() -> (r: PoolContract)
        ensures
            r.wf(),
            !r@.initialized,
    {
        PoolContract {
            initialized: false,
            project_owner: Party::new(String::new()),
            funding_goal: 0,
            deadline: 0,
            total_raised: 0,
            contributors: Contributions::new(),
            status: PoolStatus::Funding,
            created_at: 0,
        }
    }

    /// Opens the pool for `project_owner` with a positive goal and a
    /// deadline after `now`.
    pub fn initialize(&mut self, project_owner: Party, funding_goal: i128, deadline: u64, now: u64) -> (r:
        Result<(), Error>)
        requires
            old(self).wf(),
        ensures
            final(self).wf(),
            (r, final(self)@) == old(self)@.initialize_spec(
                project_owner@,
                funding_goal,
                deadline,
                now,
            ),
    {
        if self.initialized {
            return Err(Error::AlreadyInitialized);
        }
        if funding_goal <= 0 {
            return Err(Error::InvalidAmount);
        }
        if deadline <= now {
            return Err(Error::InvalidDeadline);
        }
        self.project_owner = project_owner;
        self.funding_goal = funding_goal;
        self.deadline = deadline;
        self.total_raised = 0;
        self.contributors = Contributions::new();
        self.status = PoolStatus::Funding;
        self.created_at = now;
        self.initialized = true;
        Ok(())
    }

    /// Adds `amount` to `contributor`'s total and to the amount raised,
    /// while the pool is funding and its deadline has not passed (a
    /// contribution at or after the deadline fails with `DeadlineNotReached`,
    /// the pool's code for a call on the wrong side of its deadline).
    pub fn contribute(&mut self, contributor: &Party, amount: i128, now: u64) -> (r: Result<
        (),
        Error,
    >)
        requires
            old(self).wf(),
            old(self)@.total_raised + amount <= i128::MAX,
        ensures
            final(self).wf(),
            (r, final(self)@) == old(self)@.contribute_spec(contributor@, amount, now),
    {
        if amount <= 0 {
            return Err(Error::InvalidAmount);
        }
        if !self.initialized {
            return Err(Error::NotInitialized);
        }
        if self.status != PoolStatus::Funding {
            return Err(Error::PoolNotFunding);
        }
        if now >= self.deadline {
            return Err(Error::DeadlineNotReached);
        }
        let current = match self.contributors.get(contributor) {
            Some(c) => c,
            None => 0,
        };
        proof {
            if self@.contributions.contains_key(contributor@) {
                assert(0 <= self@.contributions[contributor@] <= self@.total_raised);
            }
        }
        let ghost before = self@;
        self.contributors.set(contributor, current + amount);
        self.total_raised = self.total_raised + amount;
        assert forall|k: Seq<char>| #[trigger] self@.contributions.contains_key(k) implies 0
            <= self@.contributions[k] <= self@.total_raised by {
            if k != contributor@ {
                assert(before.contributions.contains_key(k));
            }
        }
        Ok(())
    }

    /// At or after the deadline, settles the pool: funded where the goal is
    /// reached, failed otherwise.
    pub fn finalize(&mut self, now: u64) -> (r: Result<(), Error>)
        requires
            old(self).wf(),
        ensures
            final(self).wf(),
            (r, final(self)@) == old(self)@.finalize_spec(now),
    {
        if !self.initialized {
            return Err(Error::NotInitialized);
        }
        if self.status != PoolStatus::Funding {
            return Err(Error::PoolNotFunding);
        }
        if now < self.deadline {
            return Err(Error::DeadlineNotReached);
        }
        self.status = if self.total_raised >= self.funding_goal {
            PoolStatus::Funded
        } else {
            PoolStatus::Failed
        };
        Ok(())
    }

    /// In a failed pool, zeroes `contributor`'s record and returns what it
    /// held, the amount owed back.
    pub fn refund(&mut self, contributor: &Party) -> (r: Result<i128, Error>)
        requires
            old(self).wf(),
        ensures
            final(self).wf(),
            (r, final(self)@) == old(self)@.refund_spec(contributor@),
    {
        if !self.initialized {
            return Err(Error::NotInitialized);
        }
        if self.status != PoolStatus::Failed {
            return Err(Error::PoolNotFailed);
        }
        let contribution = match self.contributors.get(contributor) {
            Some(c) => c,
            None => 0,
        };
        if contribution == 0 {
            return Err(Error::NoContribution);
        }
        self.contributors.set(contributor, 0);
        Ok(contribution)
    }

    pub fn get_status(&self) -> (r: Result<PoolStatus, Error>)
        ensures
            r == (if self@.initialized {
                Ok(self@.status)
            } else {
                Err(Error::NotInitialized)
            }),
    {
        if self.initialized {
            Ok(self.status)
        } else {
            Err(Error::NotInitialized)
        }
    }

    pub fn get_total_raised(&self) -> (r: Result<i128, Error>)
        ensures
            r == (if self@.initialized {
                Ok(self@.total_raised)
            } else {
                Err(Error::NotInitialized)
            }),
    {
        if self.initialized {
            Ok(self.total_raised)
        } else {
            Err(Error::NotInitialized)
        }
    }

    pub fn get_funding_goal(&self) -> (r: Result<i128, Error>)
        ensures
            r == (if self@.initialized {
                Ok(self@.funding_goal)
            } else {
                Err(Error::NotInitialized)
            }),
    {
        if self.initialized {
            Ok(self.funding_goal)
        } else {
            Err(Error::NotInitialized)
        }
    }

    pub fn get_deadline(&self) -> (r: Result<u64, Error>)
        ensures
            r == (if self@.initialized {
                Ok(self@.deadline)
            } else {
                Err(Error::NotInitialized)
            }),
    {
        if self.initialized {
            Ok(self.deadline)
        } else {
            Err(Error::NotInitialized)
        }
    }

    /// What `contributor` has put in, zero where nothing is recorded.
    pub fn get_contribution(&self, contributor: &Party) -> (r: Result<i128, Error>)
        requires
            self.wf(),
        ensures
            r == (if self@.initialized {
                Ok(self@.contribution_of(contributor@))
            } else {
                Err(Error::NotInitialized)
            }),
    {
        if !self.initialized {
            return Err(Error::NotInitialized);
        }
        match self.contributors.get(contributor) {
            Some(c) => Ok(c),
            None => Ok(0),
        }
    }

    pub fn get_project_owner(&self) -> (r: Result<Party, Error>)
        ensures
            match r {
                Ok(p) => self@.initialized && p@ == self@.project_owner,
                Err(e) => !self@.initialized && e == Error::NotInitialized,
            },
    {
        if self.initialized {
            Ok(self.project_owner.clone())
        } else {
            Err(Error::NotInitialized)
        }
    }
    /// Rebuilds an initialized pool from its persisted fields; `None` where
    /// they break the pool's invariant (a negative total raised, or a
    /// contribution below zero or above the total raised). Where a
    /// contributor is listed twice, the later entry counts.
    pub fn restore(
        project_owner: Party,
        funding_goal: i128,
        deadline: u64,
        total_raised: i128,
        contributions: &Vec<Contribution>,
        status: PoolStatus,
        created_at: u64,
    ) -> (r: Option<PoolContract>)
        ensures
            r is Some <==> 0 <= total_raised && forall|i: int|
                0 <= i < contributions@.len() ==> 0 <= #[trigger] contributions@[i].amount
                    <= total_raised,
            r matches Some(p) ==> p.wf() && p@ == (PoolState {
                initialized: true,
                project_owner: project_owner@,
                funding_goal,
                deadline,
                total_raised,
                contributions: entries_map(contributions@),
                status,
                created_at,
            }),
    {
        if total_raised < 0 {
            return None;
        }
        let mut i: usize = 0;
        while i < contributions.len()
            invariant
                i <= contributions@.len(),
                forall|j: int|
                    0 <= j < i ==> 0 <= #[trigger] contributions@[j].amount <= total_raised,
            decreases contributions@.len() - i,
        {
            let a = contributions[i].amount;
            if a < 0 || a > total_raised {
                return None;
            }
            i = i + 1;
        }
        let contributors = Contributions::from_entries(contributions);
        proof {
            lemma_entries_bounded(contributions@, total_raised);
        }
        Some(
            PoolContract {
                initialized: true,
                project_owner,
                funding_goal,
                deadline,
                total_raised,
                contributors,
                status,
                created_at,
            },
        )
    }

    /// Every contributor's entry, one per contributor, for persisting.
    pub fn get_contributions(&self) -> (r: Result<Vec<Contribution>, Error>)
        requires
            self.wf(),
        ensures
            match r {
                Ok(v) => self@.initialized && entries_map(v@) == self@.contributions,
                Err(e) => !self@.initialized && e == Error::NotInitialized,
            },
    {
        if !self.initialized {
            return Err(Error::NotInitialized);
        }
        Ok(self.contributors.to_entries())
    }
}

/// Where every listed amount lies in `[0, bound]`, so does every amount of
/// the map they stand for.
proof fn lemma_entries_bounded(s: Seq<Contribution>, bound: i128)
    requires
        forall|i: int| 0 <= i < s.len() ==> 0 <= #[trigger] s[i].amount <= bound,
    ensures
        forall|k: Seq<char>| #[trigger]
            entries_map(s).contains_key(k) ==> 0 <= entries_map(s)[k] <= bound,
    decreases s.len(),
{
    if s.len() > 0 {
        let t = s.drop_last();
        assert forall|i: int| 0 <= i < t.len() implies 0 <= #[trigger] t[i].amount <= bound by {
            assert(t[i] == s[i]);
        }
        lemma_entries_bounded(t, bound);
        assert(entries_map(s) == entries_map(t).insert(s.last().contributor@, s.last().amount));
        assert(0 <= s[s.len() - 1].amount <= bound);
        assert forall|k: Seq<char>| #[trigger] entries_map(s).contains_key(k) implies 0
            <= entries_map(s)[k] <= bound by {
            if k != s.last().contributor@ {
                assert(entries_map(t).contains_key(k));
            }
        }
    }
}

} // verus!
