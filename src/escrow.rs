use vstd::prelude::*;
use crate::ledger::{
    completed_sum, due_sum, first_with_id, is_due, lemma_complete_update, lemma_due_sum_nonneg, lemma_first_with_id_unique,
    lemma_milestone_prefix, lemma_milestone_push, lemma_milestone_sums_bounded, lemma_release_due_sums, lemma_release_update, lemma_schedule_prefix, lemma_schedule_push,
    lemma_schedule_sums_bounded, mark_completed, mark_released, milestone_sum, release_due,
    released_sum, schedule_sum, Milestone, TimeRelease,
};
use crate::party::Party;

verus! {

/// Why an escrow operation was rejected.
#[derive(Clone, Copy, Debug, PartialEq, Eq, Structural)]
pub enum Error {
    AlreadyInitialized,
    NotInitialized,
    InvalidAmount,
    Unauthorized,
    NotMilestoneBased,
    NotTimeBased,
    ContractNotActive,
    NoMilestones,
    MilestoneAlreadyCompleted,
    MilestoneNotFound,
    NoSchedule,
    NoReleasesDue,
    InsufficientFunds,
    NotDisputed,
    InvalidResolution,
    TimeNotReached,
}

/// Where an escrow stands.
#[derive(Clone, Copy, Debug, PartialEq, Eq, Structural)]
pub enum ContractStatus {
    Active,
    Completed,
    Disputed,
}

/// How an escrow releases its funds: by schedule or by milestone.
#[derive(Clone, Copy, Debug, PartialEq, Eq, Structural)]
pub enum ReleaseType {
    TimeBased,
    MilestoneBased,
}

/// What an escrow instance holds, as mathematical values.
pub struct EscrowState {
    pub initialized: bool,
    pub client: Seq<char>,
    pub provider: Seq<char>,
    pub total_amount: i128,
    pub released_amount: i128,
    pub release_type: ReleaseType,
    pub milestones: Seq<Milestone>,
    pub time_schedule: Seq<TimeRelease>,
    pub status: ContractStatus,
    pub created_at: u64,
}

impl EscrowState {
    /// The sum of the amounts of every condition, released or not.
    pub open spec fn scheduled(self) -> int {
        milestone_sum(self.milestones) + schedule_sum(self.time_schedule)
    }

    /// The sum of the amounts of every completed milestone and released slot.
    pub open spec fn settled(self) -> int {
        completed_sum(self.milestones) + released_sum(self.time_schedule)
    }

    /// Every condition has a positive amount, all of them together fit in an
    /// `i128`, and the released balance never exceeds what was settled.
    pub open spec fn wf(self) -> bool {
        &&& forall|i: int| 0 <= i < self.milestones.len() ==> #[trigger] self.milestones[i].amount > 0
        &&& forall|i: int|
            0 <= i < self.time_schedule.len() ==> #[trigger] self.time_schedule[i].amount > 0
        &&& self.scheduled() <= i128::MAX
        &&& 0 <= self.released_amount <= self.settled()
    }

    pub open spec fn initialize_spec(
        self,
        client: Seq<char>,
        provider: Seq<char>,
        total_amount: i128,
        release_type: ReleaseType,
        now: u64,
    ) -> (Result<(), Error>, EscrowState) {
        if self.initialized {
            (Err(Error::AlreadyInitialized), self)
        } else if total_amount <= 0 {
            (Err(Error::InvalidAmount), self)
        } else {
            (
                Ok(()),
                EscrowState {
                    initialized: true,
                    client,
                    provider,
                    total_amount,
                    released_amount: 0,
                    release_type,
                    milestones: Seq::empty(),
                    time_schedule: Seq::empty(),
                    status: ContractStatus::Active,
                    created_at: now,
                },
            )
        }
    }

    pub open spec fn add_milestone_spec(
        self,
        caller: Seq<char>,
        id: u32,
        description: String,
        amount: i128,
    ) -> (Result<(), Error>, EscrowState) {
        if !self.initialized {
            (Err(Error::NotInitialized), self)
        } else if caller != self.client {
            (Err(Error::Unauthorized), self)
        } else if amount <= 0 {
            (Err(Error::InvalidAmount), self)
        } else if self.release_type != ReleaseType::MilestoneBased {
            (Err(Error::NotMilestoneBased), self)
        } else if self.status != ContractStatus::Active {
            (Err(Error::ContractNotActive), self)
        } else {
            (
                Ok(()),
                EscrowState {
                    milestones: self.milestones.push(
                        Milestone { id, description, amount, completed: false, completed_at: 0 },
                    ),
                    ..self
                },
            )
        }
    }

    pub open spec fn add_time_release_spec(
        self,
        caller: Seq<char>,
        release_date: u64,
        amount: i128,
    ) -> (Result<(), Error>, EscrowState) {
        if !self.initialized {
            (Err(Error::NotInitialized), self)
        } else if caller != self.client {
            (Err(Error::Unauthorized), self)
        } else if amount <= 0 {
            (Err(Error::InvalidAmount), self)
        } else if self.release_type != ReleaseType::TimeBased {
            (Err(Error::NotTimeBased), self)
        } else if self.status != ContractStatus::Active {
            (Err(Error::ContractNotActive), self)
        } else {
            (
                Ok(()),
                EscrowState {
                    time_schedule: self.time_schedule.push(
                        TimeRelease { release_date, amount, released: false },
                    ),
                    ..self
                },
            )
        }
    }

    pub open spec fn complete_milestone_spec(self, caller: Seq<char>, id: u32, now: u64) -> (
        Result<(), Error>,
        EscrowState,
    ) {
        if !self.initialized {
            (Err(Error::NotInitialized), self)
        } else if caller != self.client {
            (Err(Error::Unauthorized), self)
        } else if self.status != ContractStatus::Active {
            (Err(Error::ContractNotActive), self)
        } else if !(exists|k: int| first_with_id(self.milestones, id, k)) {
            (Err(Error::MilestoneNotFound), self)
        } else {
            let k = choose|k: int| first_with_id(self.milestones, id, k);
            if self.milestones[k].completed {
                (Err(Error::MilestoneAlreadyCompleted), self)
            } else {
                (
                    Ok(()),
                    EscrowState {
                        milestones: self.milestones.update(
                            k,
                            mark_completed(self.milestones[k], now),
                        ),
                        released_amount: (self.released_amount + self.milestones[k].amount) as i128,
                        ..self
                    },
                )
            }
        }
    }

    pub open spec fn release_time_based_spec(self, now: u64) -> (Result<(), Error>, EscrowState) {
        if !self.initialized {
            (Err(Error::NotInitialized), self)
        } else if self.status != ContractStatus::Active {
            (Err(Error::ContractNotActive), self)
        } else if !(exists|i: int|
            0 <= i < self.time_schedule.len() && is_due(#[trigger] self.time_schedule[i], now)) {
            (Err(Error::NoReleasesDue), self)
        } else {
            (
                Ok(()),
                EscrowState {
                    time_schedule: release_due(self.time_schedule, now),
                    released_amount: (self.released_amount + due_sum(self.time_schedule, now)) as i128,
                    ..self
                },
            )
        }
    }

    pub open spec fn release_time_slot_spec(self, index: u32, now: u64) -> (
        Result<i128, Error>,
        EscrowState,
    ) {
        if !self.initialized {
            (Err(Error::NotInitialized), self)
        } else if self.status != ContractStatus::Active {
            (Err(Error::ContractNotActive), self)
        } else if index >= self.time_schedule.len() {
            (Err(Error::NoSchedule), self)
        } else if self.time_schedule[index as int].released {
            (Err(Error::NoReleasesDue), self)
        } else if now < self.time_schedule[index as int].release_date {
            (Err(Error::TimeNotReached), self)
        } else {
            let t = self.time_schedule[index as int];
            (
                Ok(t.amount),
                EscrowState {
                    time_schedule: self.time_schedule.update(index as int, mark_released(t)),
                    released_amount: (self.released_amount + t.amount) as i128,
                    ..self
                },
            )
        }
    }

    pub open spec fn withdraw_spec(self, caller: Seq<char>, amount: i128) -> (
        Result<(), Error>,
        EscrowState,
    ) {
        if !self.initialized {
            (Err(Error::NotInitialized), self)
        } else if caller != self.provider {
            (Err(Error::Unauthorized), self)
        } else if amount <= 0 {
            (Err(Error::InvalidAmount), self)
        } else if amount > self.released_amount {
            (Err(Error::InsufficientFunds), self)
        } else {
            (
                Ok(()),
                EscrowState { released_amount: (self.released_amount - amount) as i128, ..self },
            )
        }
    }

    pub open spec fn withdraw_all_spec(self, caller: Seq<char>) -> (
        Result<i128, Error>,
        EscrowState,
    ) {
        if !self.initialized {
            (Err(Error::NotInitialized), self)
        } else if caller != self.provider {
            (Err(Error::Unauthorized), self)
        } else {
            (Ok(self.released_amount), EscrowState { released_amount: 0, ..self })
        }
    }

    pub open spec fn dispute_spec(self, caller: Seq<char>) -> (Result<(), Error>, EscrowState) {
        if !self.initialized {
            (Err(Error::NotInitialized), self)
        } else if caller != self.client && caller != self.provider {
            (Err(Error::Unauthorized), self)
        } else if self.status != ContractStatus::Active {
            (Err(Error::ContractNotActive), self)
        } else {
            (Ok(()), EscrowState { status: ContractStatus::Disputed, ..self })
        }
    }

    pub open spec fn resolve_dispute_spec(self, caller: Seq<char>, resolution: ContractStatus) -> (
        Result<(), Error>,
        EscrowState,
    ) {
        if !self.initialized {
            (Err(Error::NotInitialized), self)
        } else if caller != self.client {
            (Err(Error::Unauthorized), self)
        } else if self.status != ContractStatus::Disputed {
            (Err(Error::NotDisputed), self)
        } else if resolution != ContractStatus::Active && resolution != ContractStatus::Completed {
            (Err(Error::InvalidResolution), self)
        } else {
            (Ok(()), EscrowState { status: resolution, ..self })
        }
    }
}

/// `b` follows `a` by release operations alone: the settled sum does not
/// shrink, and the released balance grows by exactly what was settled.
pub open spec fn release_step(a: EscrowState, b: EscrowState) -> bool {
    &&& a.settled() <= b.settled()
    &&& b.released_amount - a.released_amount == b.settled() - a.settled()
}

/// Completing a milestone, releasing all due slots and releasing one slot
/// are release steps, whether they succeed or fail.
pub proof fn release_operations_are_steps(
    s: EscrowState,
    caller: Seq<char>,
    id: u32,
    index: u32,
    now: u64,
)
    requires
        s.wf(),
    ensures
        release_step(s, s.complete_milestone_spec(caller, id, now).1),
        release_step(s, s.release_time_based_spec(now).1),
        release_step(s, s.release_time_slot_spec(index, now).1),
{
    lemma_milestone_sums_bounded(s.milestones);
    lemma_schedule_sums_bounded(s.time_schedule);
    if exists|k: int| first_with_id(s.milestones, id, k) {
        let k = choose|k: int| first_with_id(s.milestones, id, k);
        if !s.milestones[k].completed {
            let u = s.milestones.update(k, mark_completed(s.milestones[k], now));
            lemma_complete_update(s.milestones, k, mark_completed(s.milestones[k], now));
            assert forall|i: int| 0 <= i < u.len() implies u[i].amount > 0 by {
                assert(s.milestones[i].amount > 0);
            }
            lemma_milestone_sums_bounded(u);
        }
    }
    let due = release_due(s.time_schedule, now);
    lemma_release_due_sums(s.time_schedule, now);
    assert forall|i: int| 0 <= i < due.len() implies due[i].amount > 0 by {
        assert(s.time_schedule[i].amount > 0);
    }
    lemma_schedule_sums_bounded(due);
    lemma_due_sum_nonneg(s.time_schedule, now);
    if index < s.time_schedule.len() && !s.time_schedule[index as int].released {
        let t = s.time_schedule[index as int];
        let u = s.time_schedule.update(index as int, mark_released(t));
        lemma_release_update(s.time_schedule, index as int, mark_released(t));
        assert forall|i: int| 0 <= i < u.len() implies u[i].amount > 0 by {
            assert(s.time_schedule[i].amount > 0);
        }
        lemma_schedule_sums_bounded(u);
    }
}

/// Over any run of release steps that starts with the released balance equal
/// to the settled sum, the released balance never decreases and always
/// equals the sum of the amounts of completed milestones and released slots.
pub proof fn released_tracks_settled(run: Seq<EscrowState>)
    requires
        run.len() > 0,
        run[0].released_amount == run[0].settled(),
        forall|i: int| 0 <= i < run.len() - 1 ==> release_step(#[trigger] run[i], run[i + 1]),
    ensures
        forall|i: int| 0 <= i < run.len() ==> #[trigger] run[i].released_amount == run[i].settled(),
        forall|i: int, j: int|
            0 <= i <= j < run.len() ==> #[trigger] run[i].released_amount <= #[trigger] run[j].released_amount,
    decreases run.len(),
{
    if run.len() > 1 {
        let prefix = run.drop_last();
        assert forall|i: int| 0 <= i < prefix.len() - 1 implies release_step(
            #[trigger] prefix[i],
            prefix[i + 1],
        ) by {
            assert(prefix[i] == run[i] && prefix[i + 1] == run[i + 1]);
            assert(release_step(run[i], run[i + 1]));
        }
        released_tracks_settled(prefix);
        let n = run.len() - 1;
        assert(release_step(run[n - 1], run[n]));
        assert(prefix[n - 1] == run[n - 1]);
        assert forall|i: int| 0 <= i < run.len() implies #[trigger] run[i].released_amount
            == run[i].settled() by {
            if i < n {
                assert(prefix[i] == run[i]);
            }
        }
        assert forall|i: int, j: int| 0 <= i <= j < run.len() implies #[trigger] run[i].released_amount
            <= #[trigger] run[j].released_amount by {
            if j < n {
                assert(prefix[i] == run[i] && prefix[j] == run[j]);
            } else if i < n {
                assert(prefix[i] == run[i]);
                assert(prefix[i].released_amount <= prefix[n - 1].released_amount);
            }
        }
    }
}

/// Completing a milestone a second time fails with
/// `MilestoneAlreadyCompleted` and leaves the state as the first completion
/// left it.
pub proof fn complete_milestone_idempotent(
    s: EscrowState,
    caller: Seq<char>,
    id: u32,
    now: u64,
    later: u64,
)
    requires
        s.complete_milestone_spec(caller, id, now).0 == Ok::<(), Error>(()),
    ensures
        ({
            let t = s.complete_milestone_spec(caller, id, now).1;
            t.complete_milestone_spec(caller, id, later) == (
                Err::<(), Error>(Error::MilestoneAlreadyCompleted),
                t,
            )
        }),
{
    let k = choose|k: int| first_with_id(s.milestones, id, k);
    let t = s.complete_milestone_spec(caller, id, now).1;
    assert(first_with_id(t.milestones, id, k));
    let k2 = choose|k: int| first_with_id(t.milestones, id, k);
    lemma_first_with_id_unique(t.milestones, id, k, k2);
}

/// An escrow that is already initialized refuses every further
/// `initialize`, whatever its arguments, and keeps its state.
pub proof fn escrow_initialize_once(
    s: EscrowState,
    client: Seq<char>,
    provider: Seq<char>,
    total_amount: i128,
    release_type: ReleaseType,
    now: u64,
)
    requires
        s.initialized,
    ensures
        s.initialize_spec(client, provider, total_amount, release_type, now) == (
            Err::<(), Error>(Error::AlreadyInitialized),
            s,
        ),
{
}

/// A total, a condition amount or a withdrawal that is zero or negative is
/// rejected with `InvalidAmount` and changes nothing, once the caller has
/// been accepted.
pub proof fn escrow_rejects_nonpositive_amounts(
    s: EscrowState,
    amount: i128,
    id: u32,
    description: String,
    release_date: u64,
    release_type: ReleaseType,
    now: u64,
)
    requires
        amount <= 0,
    ensures
        !s.initialized ==> s.initialize_spec(s.client, s.provider, amount, release_type, now) == (
            Err::<(), Error>(Error::InvalidAmount),
            s,
        ),
        s.initialized ==> s.add_milestone_spec(s.client, id, description, amount) == (
            Err::<(), Error>(Error::InvalidAmount),
            s,
        ),
        s.initialized ==> s.add_time_release_spec(s.client, release_date, amount) == (
            Err::<(), Error>(Error::InvalidAmount),
            s,
        ),
        s.initialized ==> s.withdraw_spec(s.provider, amount) == (
            Err::<(), Error>(Error::InvalidAmount),
            s,
        ),
{
}

/// On an initialized escrow, a caller other than the role an operation
/// requires is refused with `Unauthorized` and nothing changes.
pub proof fn escrow_authorization_boundary(
    s: EscrowState,
    caller: Seq<char>,
    id: u32,
    description: String,
    amount: i128,
    release_date: u64,
    resolution: ContractStatus,
    now: u64,
)
    requires
        s.initialized,
    ensures
        caller != s.client ==> s.add_milestone_spec(caller, id, description, amount) == (
            Err::<(), Error>(Error::Unauthorized),
            s,
        ),
        caller != s.client ==> s.add_time_release_spec(caller, release_date, amount) == (
            Err::<(), Error>(Error::Unauthorized),
            s,
        ),
        caller != s.client ==> s.complete_milestone_spec(caller, id, now) == (
            Err::<(), Error>(Error::Unauthorized),
            s,
        ),
        caller != s.client ==> s.resolve_dispute_spec(caller, resolution) == (
            Err::<(), Error>(Error::Unauthorized),
            s,
        ),
        caller != s.provider ==> s.withdraw_spec(caller, amount) == (
            Err::<(), Error>(Error::Unauthorized),
            s,
        ),
        caller != s.provider ==> s.withdraw_all_spec(caller) == (
            Err::<i128, Error>(Error::Unauthorized),
            s,
        ),
        caller != s.client && caller != s.provider ==> s.dispute_spec(caller) == (
            Err::<(), Error>(Error::Unauthorized),
            s,
        ),
{
}

/// The initialized escrow state made of these persisted fields.
pub open spec fn restored_state(
    client: &Party,
    provider: &Party,
    total_amount: i128,
    released_amount: i128,
    release_type: ReleaseType,
    milestones: Seq<Milestone>,
    time_schedule: Seq<TimeRelease>,
    status: ContractStatus,
    created_at: u64,
) -> EscrowState {
    EscrowState {
        initialized: true,
        client: client@,
        provider: provider@,
        total_amount,
        released_amount,
        release_type,
        milestones,
        time_schedule,
        status,
        created_at,
    }
}

/// An escrow between a client and a provider: the client stages milestones
/// or a release schedule, completed milestones and elapsed slots move funds
/// into the released balance, and the provider withdraws from it.
#[derive(Debug)]
pub struct EscrowContract {
    initialized: bool,
    client: Party,
    provider: Party,
    total_amount: i128,
    released_amount: i128,
    release_type: ReleaseType,
    milestones: Vec<Milestone>,
    time_schedule: Vec<TimeRelease>,
    status: ContractStatus,
    created_at: u64,
    scheduled_amount: i128,
}

impl View for EscrowContract {
    type V = EscrowState;

    closed spec fn view(&self) -> EscrowState {
        EscrowState {
            initialized: self.initialized,
            client: self.client@,
            provider: self.provider@,
            total_amount: self.total_amount,
            released_amount: self.released_amount,
            release_type: self.release_type,
            milestones: self.milestones@,
            time_schedule: self.time_schedule@,
            status: self.status,
            created_at: self.created_at,
        }
    }
}

impl EscrowContract {
    pub closed spec fn wf(&self) -> bool {
        self@.wf() && self.scheduled_amount == self@.scheduled()
    }

    /// An instance that has not been initialized yet.
    pub fn new() -> (r: EscrowContract)
        ensures
            r.wf(),
            !r@.initialized,
    {
        EscrowContract {
            initialized: false,
            client: Party::new(String::new()),
            provider: Party::new(String::new()),
            total_amount: 0,
            released_amount: 0,
            release_type: ReleaseType::MilestoneBased,
            milestones: Vec::new(),
            time_schedule: Vec::new(),
            status: ContractStatus::Active,
            created_at: 0,
            scheduled_amount: 0,
        }
    }

    /// Opens the escrow between `client` and `provider` for a positive total.
    pub fn initialize(
        &mut self,
        client: Party,
        provider: Party,
        total_amount: i128,
        release_type: ReleaseType,
        now: u64,
    ) -> (r: Result<(), Error>)
        requires
            old(self).wf(),
        ensures
            final(self).wf(),
            (r, final(self)@) == old(self)@.initialize_spec(
                client@,
                provider@,
                total_amount,
                release_type,
                now,
            ),
            r is Ok ==> final(self)@.scheduled() == 0,
    {
        if self.initialized {
            return Err(Error::AlreadyInitialized);
        }
        if total_amount <= 0 {
            return Err(Error::InvalidAmount);
        }
        self.client = client;
        self.provider = provider;
        self.total_amount = total_amount;
        self.released_amount = 0;
        self.release_type = release_type;
        self.milestones = Vec::new();
        self.time_schedule = Vec::new();
        self.status = ContractStatus::Active;
        self.created_at = now;
        self.scheduled_amount = 0;
        self.initialized = true;
        assert(self@.milestones =~= Seq::<Milestone>::empty());
        assert(self@.time_schedule =~= Seq::<TimeRelease>::empty());
        Ok(())
    }

    /// Appends a milestone worth `amount`; only the client may, while a
    /// milestone-based escrow is active. Identifiers need not be unique: a
    /// milestone whose identifier is already staged is accepted, and
    /// completion acts on the first one staged.
    pub fn add_milestone(&mut self, caller: &Party, id: u32, description: String, amount: i128) -> (r:
        Result<(), Error>)
        requires
            old(self).wf(),
            old(self)@.scheduled() + amount <= i128::MAX,
        ensures
            final(self).wf(),
            (r, final(self)@) == old(self)@.add_milestone_spec(caller@, id, description, amount),
            final(self)@.scheduled() == old(self)@.scheduled() + if r is Ok {
                amount as int
            } else {
                0
            },
    {
        if !self.initialized {
            return Err(Error::NotInitialized);
        }
        if !caller.same(&self.client) {
            return Err(Error::Unauthorized);
        }
        if amount <= 0 {
            return Err(Error::InvalidAmount);
        }
        if self.release_type != ReleaseType::MilestoneBased {
            return Err(Error::NotMilestoneBased);
        }
        if self.status != ContractStatus::Active {
            return Err(Error::ContractNotActive);
        }
        let m = Milestone { id, description, amount, completed: false, completed_at: 0 };
        proof {
            lemma_milestone_push(self.milestones@, m);
        }
        self.milestones.push(m);
        self.scheduled_amount = self.scheduled_amount + amount;
        Ok(())
    }

    /// Appends a schedule slot worth `amount` that opens at `release_date`;
    /// only the client may, while a time-based escrow is active.
    pub fn add_time_release(&mut self, caller: &Party, release_date: u64, amount: i128) -> (r:
        Result<(), Error>)
        requires
            old(self).wf(),
            old(self)@.scheduled() + amount <= i128::MAX,
        ensures
            final(self).wf(),
            (r, final(self)@) == old(self)@.add_time_release_spec(caller@, release_date, amount),
            final(self)@.scheduled() == old(self)@.scheduled() + if r is Ok {
                amount as int
            } else {
                0
            },
    {
        if !self.initialized {
            return Err(Error::NotInitialized);
        }
        if !caller.same(&self.client) {
            return Err(Error::Unauthorized);
        }
        if amount <= 0 {
            return Err(Error::InvalidAmount);
        }
        if self.release_type != ReleaseType::TimeBased {
            return Err(Error::NotTimeBased);
        }
        if self.status != ContractStatus::Active {
            return Err(Error::ContractNotActive);
        }
        let t = TimeRelease { release_date, amount, released: false };
        proof {
            lemma_schedule_push(self.time_schedule@, t);
        }
        self.time_schedule.push(t);
        self.scheduled_amount = self.scheduled_amount + amount;
        Ok(())
    }
    /// Marks the first milestone with identifier `milestone_id` completed at
    /// `now` and adds its amount to the released balance; only the client
    /// may, while the escrow is active.
    pub fn complete_milestone(&mut self, caller: &Party, milestone_id: u32, now: u64) -> (r:
        Result<(), Error>)
        requires
            old(self).wf(),
        ensures
            final(self).wf(),
            (r, final(self)@) == old(self)@.complete_milestone_spec(caller@, milestone_id, now),
            final(self)@.scheduled() == old(self)@.scheduled(),
    {
        if !self.initialized {
            return Err(Error::NotInitialized);
        }
        if !caller.same(&self.client) {
            return Err(Error::Unauthorized);
        }
        if self.status != ContractStatus::Active {
            return Err(Error::ContractNotActive);
        }
        let mut i: usize = 0;
        while i < self.milestones.len()
            invariant
                self.wf(),
                self@ == old(self)@,
                self.scheduled_amount == old(self).scheduled_amount,
                self.initialized,
                caller@ == self.client@,
                self.status == ContractStatus::Active,
                i <= self.milestones@.len(),
                forall|j: int| 0 <= j < i ==> self.milestones@[j].id != milestone_id,
            decreases self.milestones@.len() - i,
        {
            if self.milestones[i].id == milestone_id {
                proof {
                    let ms = old(self)@.milestones;
                    assert(ms == self.milestones@);
                    assert(first_with_id(ms, milestone_id, i as int));
                    let k = choose|k: int| first_with_id(ms, milestone_id, k);
                    lemma_first_with_id_unique(ms, milestone_id, i as int, k);
                }
                if self.milestones[i].completed {
                    return Err(Error::MilestoneAlreadyCompleted);
                }
                let current = &self.milestones[i];
                let amount = current.amount;
                let done = Milestone {
                    id: current.id,
                    description: current.description.clone(),
                    amount,
                    completed: true,
                    completed_at: now,
                };
                proof {
                    lemma_complete_update(self.milestones@, i as int, done);
                    lemma_milestone_sums_bounded(self.milestones@.update(i as int, done));
                    lemma_schedule_sums_bounded(self.time_schedule@);
                }
                self.milestones.set(i, done);
                self.released_amount = self.released_amount + amount;
                assert(self.milestones@ =~= old(self).milestones@.update(i as int, done));
                return Ok(());
            }
            i = i + 1;
        }
        Err(Error::MilestoneNotFound)
    }

    /// Releases every slot of the schedule whose date has come, adding their
    /// amounts to the released balance; anyone may call it while the escrow
    /// is active, and it fails where no slot is due.
    pub fn release_time_based(&mut self, now: u64) -> (r: Result<(), Error>)
        requires
            old(self).wf(),
        ensures
            final(self).wf(),
            (r, final(self)@) == old(self)@.release_time_based_spec(now),
            final(self)@.scheduled() == old(self)@.scheduled(),
    {
        if !self.initialized {
            return Err(Error::NotInitialized);
        }
        if self.status != ContractStatus::Active {
            return Err(Error::ContractNotActive);
        }
        let ghost start = self.time_schedule@;
        let mut total_released: i128 = 0;
        let mut updated = false;
        let mut i: usize = 0;
        proof {
            lemma_milestone_sums_bounded(self.milestones@);
            lemma_schedule_sums_bounded(start);
            assert(start.subrange(0, 0) =~= Seq::<TimeRelease>::empty());
        }
        while i < self.time_schedule.len()
            invariant
                self.initialized == old(self).initialized,
                self.status == ContractStatus::Active,
                self.milestones@ == old(self).milestones@,
                self.released_amount == old(self).released_amount,
                self.client == old(self).client,
                self.provider == old(self).provider,
                self.total_amount == old(self).total_amount,
                self.release_type == old(self).release_type,
                self.created_at == old(self).created_at,
                self.scheduled_amount == old(self).scheduled_amount,
                old(self).wf(),
                start == old(self).time_schedule@,
                i <= start.len(),
                self.time_schedule@.len() == start.len(),
                forall|j: int|
                    0 <= j < i ==> #[trigger] self.time_schedule@[j] == (if is_due(start[j], now) {
                        mark_released(start[j])
                    } else {
                        start[j]
                    }),
                forall|j: int| i <= j < start.len() ==> #[trigger] self.time_schedule@[j] == start[j],
                total_released == due_sum(start.subrange(0, i as int), now),
                schedule_sum(self.time_schedule@) == schedule_sum(start),
                released_sum(self.time_schedule@) == released_sum(start) + total_released,
                0 <= total_released,
                updated == (exists|j: int| 0 <= j < i && is_due(#[trigger] start[j], now)),
                completed_sum(self.milestones@) <= milestone_sum(self.milestones@),
                released_sum(self.time_schedule@) <= schedule_sum(self.time_schedule@),
            decreases start.len() - i,
        {
            let slot = self.time_schedule[i];
            assert(start.subrange(0, i + 1).drop_last() =~= start.subrange(0, i as int));
            if !slot.released && now >= slot.release_date {
                let done = TimeRelease {
                    release_date: slot.release_date,
                    amount: slot.amount,
                    released: true,
                };
                proof {
                    assert(slot == start[i as int]);
                    assert(slot.amount > 0);
                    lemma_release_update(self.time_schedule@, i as int, done);
                    lemma_schedule_sums_bounded(self.time_schedule@.update(i as int, done));
                }
                self.time_schedule.set(i, done);
                total_released = total_released + slot.amount;
                updated = true;
            }
            i = i + 1;
        }
        assert(start.subrange(0, start.len() as int) =~= start);
        if !updated {
            assert(self.time_schedule@ =~= start);
            return Err(Error::NoReleasesDue);
        }
        self.released_amount = self.released_amount + total_released;
        assert(self.time_schedule@ =~= release_due(start, now));
        Ok(())
    }

    /// Releases the slot at `index` once its date has come, adding its
    /// amount to the released balance and returning that amount; anyone may
    /// call it while the escrow is active. Unlike `release_time_based`, it
    /// fails with `TimeNotReached` where that one slot is not yet due.
    pub fn release_time_slot(&mut self, index: u32, now: u64) -> (r: Result<i128, Error>)
        requires
            old(self).wf(),
        ensures
            final(self).wf(),
            (r, final(self)@) == old(self)@.release_time_slot_spec(index, now),
            final(self)@.scheduled() == old(self)@.scheduled(),
    {
        if !self.initialized {
            return Err(Error::NotInitialized);
        }
        if self.status != ContractStatus::Active {
            return Err(Error::ContractNotActive);
        }
        let k = index as usize;
        if k >= self.time_schedule.len() {
            return Err(Error::NoSchedule);
        }
        let slot = self.time_schedule[k];
        if slot.released {
            return Err(Error::NoReleasesDue);
        }
        if now < slot.release_date {
            return Err(Error::TimeNotReached);
        }
        let done = TimeRelease { release_date: slot.release_date, amount: slot.amount, released: true };
        proof {
            lemma_release_update(self.time_schedule@, k as int, done);
            lemma_schedule_sums_bounded(self.time_schedule@.update(k as int, done));
            lemma_milestone_sums_bounded(self.milestones@);
        }
        self.time_schedule.set(k, done);
        self.released_amount = self.released_amount + slot.amount;
        Ok(slot.amount)
    }
    /// Takes `amount` out of the released balance; only the provider may.
    /// Funds already released stay claimable whatever the status: a dispute
    /// freezes further releases, not the balance released before it.
    pub fn withdraw(&mut self, caller: &Party, amount: i128) -> (r: Result<(), Error>)
        requires
            old(self).wf(),
        ensures
            final(self).wf(),
            (r, final(self)@) == old(self)@.withdraw_spec(caller@, amount),
            final(self)@.scheduled() == old(self)@.scheduled(),
    {
        if !self.initialized {
            return Err(Error::NotInitialized);
        }
        if !caller.same(&self.provider) {
            return Err(Error::Unauthorized);
        }
        if amount <= 0 {
            return Err(Error::InvalidAmount);
        }
        if amount > self.released_amount {
            return Err(Error::InsufficientFunds);
        }
        self.released_amount = self.released_amount - amount;
        Ok(())
    }

    /// Takes the whole released balance, leaving it at zero, and returns
    /// what it held; only the provider may.
    pub fn withdraw_all(&mut self, caller: &Party) -> (r: Result<i128, Error>)
        requires
            old(self).wf(),
        ensures
            final(self).wf(),
            (r, final(self)@) == old(self)@.withdraw_all_spec(caller@),
            final(self)@.scheduled() == old(self)@.scheduled(),
    {
        if !self.initialized {
            return Err(Error::NotInitialized);
        }
        if !caller.same(&self.provider) {
            return Err(Error::Unauthorized);
        }
        let amount = self.released_amount;
        self.released_amount = 0;
        Ok(amount)
    }

    /// Freezes an active escrow; the client or the provider may.
    pub fn dispute(&mut self, caller: &Party) -> (r: Result<(), Error>)
        requires
            old(self).wf(),
        ensures
            final(self).wf(),
            (r, final(self)@) == old(self)@.dispute_spec(caller@),
            final(self)@.scheduled() == old(self)@.scheduled(),
    {
        if !self.initialized {
            return Err(Error::NotInitialized);
        }
        if !caller.same(&self.client) && !caller.same(&self.provider) {
            return Err(Error::Unauthorized);
        }
        if self.status != ContractStatus::Active {
            return Err(Error::ContractNotActive);
        }
        self.status = ContractStatus::Disputed;
        Ok(())
    }

    /// Ends a dispute by setting the escrow `Active` again or `Completed`;
    /// only the client may.
    pub fn resolve_dispute(&mut self, caller: &Party, resolution: ContractStatus) -> (r: Result<
        (),
        Error,
    >)
        requires
            old(self).wf(),
        ensures
            final(self).wf(),
            (r, final(self)@) == old(self)@.resolve_dispute_spec(caller@, resolution),
            final(self)@.scheduled() == old(self)@.scheduled(),
    {
        if !self.initialized {
            return Err(Error::NotInitialized);
        }
        if !caller.same(&self.client) {
            return Err(Error::Unauthorized);
        }
        if self.status != ContractStatus::Disputed {
            return Err(Error::NotDisputed);
        }
        if resolution != ContractStatus::Active && resolution != ContractStatus::Completed {
            return Err(Error::InvalidResolution);
        }
        self.status = resolution;
        Ok(())
    }

    pub fn get_status(&self) -> (r: Result<ContractStatus, Error>)
        ensures
            r == (if self@.initialized {
                Ok(self@.status)
            } else {
                Err(Error::NotInitialized)
            }),
    {
        if self.initialized {
            Ok(self.status)
        } else {
            Err(Error::NotInitialized)
        }
    }

    /// The balance released and not yet withdrawn.
    pub fn get_released_amount(&self) -> (r: Result<i128, Error>)
        ensures
            r == (if self@.initialized {
                Ok(self@.released_amount)
            } else {
                Err(Error::NotInitialized)
            }),
    {
        if self.initialized {
            Ok(self.released_amount)
        } else {
            Err(Error::NotInitialized)
        }
    }

    pub fn get_total_amount(&self) -> (r: Result<i128, Error>)
        ensures
            r == (if self@.initialized {
                Ok(self@.total_amount)
            } else {
                Err(Error::NotInitialized)
            }),
    {
        if self.initialized {
            Ok(self.total_amount)
        } else {
            Err(Error::NotInitialized)
        }
    }

    /// The sum of the amounts of every milestone and schedule slot staged so
    /// far; a new condition fits while this sum plus its amount fits in an
    /// `i128`.
    pub fn get_scheduled_amount(&self) -> (r: Result<i128, Error>)
        requires
            self.wf(),
        ensures
            r == (if self@.initialized {
                Ok(self@.scheduled() as i128)
            } else {
                Err(Error::NotInitialized)
            }),
    {
        if self.initialized {
            Ok(self.scheduled_amount)
        } else {
            Err(Error::NotInitialized)
        }
    }

    pub fn get_milestones(&self) -> (r: Result<Vec<Milestone>, Error>)
        ensures
            match r {
                Ok(v) => self@.initialized && v@ == self@.milestones,
                Err(e) => !self@.initialized && e == Error::NotInitialized,
            },
    {
        if !self.initialized {
            return Err(Error::NotInitialized);
        }
        let mut out: Vec<Milestone> = Vec::new();
        let mut i: usize = 0;
        while i < self.milestones.len()
            invariant
                i <= self.milestones@.len(),
                out@ == self.milestones@.subrange(0, i as int),
            decreases self.milestones@.len() - i,
        {
            out.push(self.milestones[i].clone());
            i = i + 1;
            assert(out@ =~= self.milestones@.subrange(0, i as int));
        }
        assert(out@ =~= self.milestones@);
        Ok(out)
    }

    pub fn get_time_schedule(&self) -> (r: Result<Vec<TimeRelease>, Error>)
        ensures
            match r {
                Ok(v) => self@.initialized && v@ == self@.time_schedule,
                Err(e) => !self@.initialized && e == Error::NotInitialized,
            },
    {
        if !self.initialized {
            return Err(Error::NotInitialized);
        }
        let mut out: Vec<TimeRelease> = Vec::new();
        let mut i: usize = 0;
        while i < self.time_schedule.len()
            invariant
                i <= self.time_schedule@.len(),
                out@ == self.time_schedule@.subrange(0, i as int),
            decreases self.time_schedule@.len() - i,
        {
            out.push(self.time_schedule[i]);
            i = i + 1;
            assert(out@ =~= self.time_schedule@.subrange(0, i as int));
        }
        assert(out@ =~= self.time_schedule@);
        Ok(out)
    }
    /// Rebuilds an initialized escrow from its persisted fields; `None` where
    /// they break the escrow's invariant.
    pub fn restore(
        client: Party,
        provider: Party,
        total_amount: i128,
        released_amount: i128,
        release_type: ReleaseType,
        milestones: Vec<Milestone>,
        time_schedule: Vec<TimeRelease>,
        status: ContractStatus,
        created_at: u64,
    ) -> (r: Option<EscrowContract>)
        ensures
            ({
                let s = restored_state(
                    &client,
                    &provider,
                    total_amount,
                    released_amount,
                    release_type,
                    milestones@,
                    time_schedule@,
                    status,
                    created_at,
                );
                &&& r is Some <==> s.wf()
                &&& r matches Some(p) ==> p.wf() && p@ == s
            }),
    {
        let ghost ms = milestones@;
        let ghost ts = time_schedule@;
        let mut i: usize = 0;
        while i < milestones.len()
            invariant
                i <= ms.len(),
                milestones@ == ms,
                time_schedule@ == ts,
                forall|j: int| 0 <= j < i ==> #[trigger] ms[j].amount > 0,
            decreases ms.len() - i,
        {
            if milestones[i].amount <= 0 {
                return None;
            }
            i = i + 1;
        }
        i = 0;
        while i < time_schedule.len()
            invariant
                i <= ts.len(),
                time_schedule@ == ts,
                milestones@ == ms,
                forall|j: int| 0 <= j < i ==> #[trigger] ts[j].amount > 0,
            decreases ts.len() - i,
        {
            if time_schedule[i].amount <= 0 {
                return None;
            }
            i = i + 1;
        }
        let mut scheduled: i128 = 0;
        let mut settled: i128 = 0;
        i = 0;
        proof {
            assert(ms.subrange(0, 0) =~= Seq::<Milestone>::empty());
        }
        while i < milestones.len()
            invariant
                i <= ms.len(),
                milestones@ == ms,
                time_schedule@ == ts,
                forall|j: int| 0 <= j < ms.len() ==> #[trigger] ms[j].amount > 0,
                forall|j: int| 0 <= j < ts.len() ==> #[trigger] ts[j].amount > 0,
                scheduled == milestone_sum(ms.subrange(0, i as int)),
                settled == completed_sum(ms.subrange(0, i as int)),
                0 <= settled <= scheduled,
            decreases ms.len() - i,
        {
            let m = &milestones[i];
            proof {
                assert(ms.subrange(0, i + 1).drop_last() =~= ms.subrange(0, i as int));
                assert(ms.subrange(0, i + 1).last() == *m);
                lemma_milestone_prefix(ms, i + 1);
                lemma_schedule_sums_bounded(ts);
            }
            if scheduled > i128::MAX - m.amount {
                return None;
            }
            scheduled = scheduled + m.amount;
            if m.completed {
                settled = settled + m.amount;
            }
            i = i + 1;
        }
        proof {
            assert(ms.subrange(0, ms.len() as int) =~= ms);
            assert(ts.subrange(0, 0) =~= Seq::<TimeRelease>::empty());
        }
        let ghost base = scheduled as int;
        let ghost base_settled = settled as int;
        i = 0;
        while i < time_schedule.len()
            invariant
                i <= ts.len(),
                time_schedule@ == ts,
                milestones@ == ms,
                forall|j: int| 0 <= j < ms.len() ==> #[trigger] ms[j].amount > 0,
                forall|j: int| 0 <= j < ts.len() ==> #[trigger] ts[j].amount > 0,
                base == milestone_sum(ms),
                base_settled == completed_sum(ms),
                scheduled == base + schedule_sum(ts.subrange(0, i as int)),
                settled == base_settled + released_sum(ts.subrange(0, i as int)),
                0 <= settled <= scheduled,
            decreases ts.len() - i,
        {
            let t = time_schedule[i];
            proof {
                assert(t == ts[i as int]);
                assert(ts.subrange(0, i + 1).drop_last() =~= ts.subrange(0, i as int));
                assert(ts.subrange(0, i + 1).last() == t);
                lemma_schedule_prefix(ts, i + 1);
            }
            if scheduled > i128::MAX - t.amount {
                return None;
            }
            scheduled = scheduled + t.amount;
            if t.released {
                settled = settled + t.amount;
            }
            i = i + 1;
        }
        proof {
            assert(ts.subrange(0, ts.len() as int) =~= ts);
        }
        if released_amount < 0 || released_amount > settled {
            return None;
        }
        Some(
            EscrowContract {
                initialized: true,
                client,
                provider,
                total_amount,
                released_amount,
                release_type,
                milestones,
                time_schedule,
                status,
                created_at,
                scheduled_amount: scheduled,
            },
        )
    }
}

} // verus!
