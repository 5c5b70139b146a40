use custody::escrow::{ContractStatus, Error, EscrowContract, ReleaseType};
use custody::ledger::{Milestone, TimeRelease};
use custody::Party;

fn party(name: &str) -> Party {
    Party::new(name.to_string())
}

fn open(total: i128, release_type: ReleaseType) -> EscrowContract {
    let mut e = EscrowContract::new();
    assert_eq!(e.initialize(party("client"), party("provider"), total, release_type, 10), Ok(()));
    e
}

fn client() -> Party {
    party("client")
}

fn provider() -> Party {
    party("provider")
}

#[test]
fn escrow_milestone_end_to_end() {
    let mut e = open(1000, ReleaseType::MilestoneBased);
    assert_eq!(e.add_milestone(&client(), 1, "design".to_string(), 400), Ok(()));
    assert_eq!(e.add_milestone(&client(), 2, "build".to_string(), 600), Ok(()));
    assert_eq!(e.complete_milestone(&client(), 1, 20), Ok(()));
    assert_eq!(e.get_released_amount(), Ok(400));
    assert_eq!(
        e.complete_milestone(&client(), 1, 21),
        Err(Error::MilestoneAlreadyCompleted)
    );
    assert_eq!(e.get_released_amount(), Ok(400));
    assert_eq!(e.complete_milestone(&client(), 2, 30), Ok(()));
    assert_eq!(e.get_released_amount(), Ok(1000));
    assert_eq!(e.withdraw_all(&provider()), Ok(1000));
    assert_eq!(e.get_released_amount(), Ok(0));
}

#[test]
fn withdraw_of_full_balance_empties_it() {
    let mut e = open(1000, ReleaseType::MilestoneBased);
    assert_eq!(e.add_milestone(&client(), 1, "all".to_string(), 1000), Ok(()));
    assert_eq!(e.complete_milestone(&client(), 1, 20), Ok(()));
    assert_eq!(e.withdraw(&provider(), 1000), Ok(()));
    assert_eq!(e.get_released_amount(), Ok(0));
}

#[test]
fn initialize_stores_the_escrow() {
    let e = open(1000, ReleaseType::TimeBased);
    assert_eq!(e.get_status(), Ok(ContractStatus::Active));
    assert_eq!(e.get_total_amount(), Ok(1000));
    assert_eq!(e.get_released_amount(), Ok(0));
    assert_eq!(e.get_milestones().map(|m| m.len()), Ok(0));
    assert_eq!(e.get_time_schedule().map(|s| s.len()), Ok(0));
    assert_eq!(e.get_scheduled_amount(), Ok(0));
}

#[test]
fn second_initialize_is_refused() {
    let mut e = open(1000, ReleaseType::MilestoneBased);
    assert_eq!(
        e.initialize(party("x"), party("y"), 5, ReleaseType::TimeBased, 11),
        Err(Error::AlreadyInitialized)
    );
    assert_eq!(e.get_total_amount(), Ok(1000));
    assert_eq!(e.add_milestone(&client(), 1, "m".to_string(), 5), Ok(()));
}

#[test]
fn nonpositive_amounts_are_refused() {
    for amount in [0, -1, i128::MIN] {
        let mut fresh = EscrowContract::new();
        assert_eq!(
            fresh.initialize(client(), provider(), amount, ReleaseType::MilestoneBased, 1),
            Err(Error::InvalidAmount)
        );
        assert_eq!(fresh.get_status(), Err(Error::NotInitialized));

        let mut m = open(1000, ReleaseType::MilestoneBased);
        assert_eq!(m.add_milestone(&client(), 1, "m".to_string(), amount), Err(Error::InvalidAmount));
        assert_eq!(m.get_milestones().map(|v| v.len()), Ok(0));
        assert_eq!(m.withdraw(&provider(), amount), Err(Error::InvalidAmount));

        let mut t = open(1000, ReleaseType::TimeBased);
        assert_eq!(t.add_time_release(&client(), 5, amount), Err(Error::InvalidAmount));
        assert_eq!(t.get_time_schedule().map(|v| v.len()), Ok(0));
    }
}

#[test]
fn milestones_are_recorded_in_order() {
    let mut e = open(1000, ReleaseType::MilestoneBased);
    assert_eq!(e.add_milestone(&client(), 7, "first".to_string(), 300), Ok(()));
    assert_eq!(e.add_milestone(&client(), 3, "second".to_string(), 200), Ok(()));
    assert_eq!(e.complete_milestone(&client(), 3, 55), Ok(()));
    let ms = e.get_milestones().unwrap();
    assert_eq!(ms.len(), 2);
    assert_eq!((ms[0].id, ms[0].amount, ms[0].completed, ms[0].completed_at), (7, 300, false, 0));
    assert_eq!(ms[0].description, "first");
    assert_eq!((ms[1].id, ms[1].amount, ms[1].completed, ms[1].completed_at), (3, 200, true, 55));
    assert_eq!(e.get_scheduled_amount(), Ok(500));
}

#[test]
fn duplicate_ids_complete_the_first_match() {
    let mut e = open(1000, ReleaseType::MilestoneBased);
    assert_eq!(e.add_milestone(&client(), 1, "a".to_string(), 100), Ok(()));
    assert_eq!(e.add_milestone(&client(), 1, "b".to_string(), 200), Ok(()));
    assert_eq!(e.complete_milestone(&client(), 1, 20), Ok(()));
    assert_eq!(e.get_released_amount(), Ok(100));
    assert_eq!(
        e.complete_milestone(&client(), 1, 21),
        Err(Error::MilestoneAlreadyCompleted)
    );
    assert_eq!(e.get_released_amount(), Ok(100));
}

#[test]
fn unknown_milestone_is_not_found() {
    let mut e = open(1000, ReleaseType::MilestoneBased);
    assert_eq!(e.complete_milestone(&client(), 1, 20), Err(Error::MilestoneNotFound));
    assert_eq!(e.add_milestone(&client(), 1, "a".to_string(), 100), Ok(()));
    assert_eq!(e.complete_milestone(&client(), 2, 20), Err(Error::MilestoneNotFound));
}

#[test]
fn release_type_decides_which_conditions_are_accepted() {
    let mut m = open(1000, ReleaseType::MilestoneBased);
    assert_eq!(m.add_time_release(&client(), 5, 10), Err(Error::NotTimeBased));
    let mut t = open(1000, ReleaseType::TimeBased);
    assert_eq!(t.add_milestone(&client(), 1, "a".to_string(), 10), Err(Error::NotMilestoneBased));
}

#[test]
fn released_total_follows_completed_conditions() {
    let mut e = open(1000, ReleaseType::MilestoneBased);
    let amounts: [i128; 3] = [100, 250, 50];
    for (i, a) in amounts.iter().enumerate() {
        assert_eq!(e.add_milestone(&client(), i as u32, "m".to_string(), *a), Ok(()));
    }
    let mut expected: i128 = 0;
    for (i, a) in amounts.iter().enumerate() {
        let before = e.get_released_amount().unwrap();
        assert_eq!(e.complete_milestone(&client(), i as u32, 20), Ok(()));
        expected += *a;
        let after = e.get_released_amount().unwrap();
        assert!(after >= before);
        assert_eq!(after, expected);
    }
}

#[test]
fn time_based_release_takes_every_due_slot() {
    let mut e = open(1000, ReleaseType::TimeBased);
    assert_eq!(e.add_time_release(&client(), 100, 300), Ok(()));
    assert_eq!(e.add_time_release(&client(), 200, 300), Ok(()));
    assert_eq!(e.add_time_release(&client(), 300, 400), Ok(()));
    assert_eq!(e.release_time_based(99), Err(Error::NoReleasesDue));
    assert_eq!(e.get_released_amount(), Ok(0));
    assert_eq!(e.release_time_based(200), Ok(()));
    assert_eq!(e.get_released_amount(), Ok(600));
    assert_eq!(e.release_time_based(250), Err(Error::NoReleasesDue));
    assert_eq!(e.release_time_based(300), Ok(()));
    assert_eq!(e.get_released_amount(), Ok(1000));
    let released: Vec<bool> = e.get_time_schedule().unwrap().iter().map(|t| t.released).collect();
    assert_eq!(released, vec![true, true, true]);
}

#[test]
fn time_based_release_with_empty_schedule_has_nothing_due() {
    let mut e = open(1000, ReleaseType::TimeBased);
    assert_eq!(e.release_time_based(1_000_000), Err(Error::NoReleasesDue));
}

#[test]
fn single_slot_release() {
    let mut e = open(1000, ReleaseType::TimeBased);
    assert_eq!(e.add_time_release(&client(), 100, 300), Ok(()));
    assert_eq!(e.add_time_release(&client(), 200, 700), Ok(()));
    assert_eq!(e.release_time_slot(1, 150), Err(Error::TimeNotReached));
    assert_eq!(e.release_time_slot(2, 150), Err(Error::NoSchedule));
    assert_eq!(e.release_time_slot(0, 150), Ok(300));
    assert_eq!(e.release_time_slot(0, 150), Err(Error::NoReleasesDue));
    assert_eq!(e.get_released_amount(), Ok(300));
    assert_eq!(e.release_time_slot(1, 200), Ok(700));
    assert_eq!(e.get_released_amount(), Ok(1000));
}

#[test]
fn partial_withdraw_and_insufficient_funds() {
    let mut e = open(1000, ReleaseType::MilestoneBased);
    assert_eq!(e.add_milestone(&client(), 1, "a".to_string(), 400), Ok(()));
    assert_eq!(e.complete_milestone(&client(), 1, 20), Ok(()));
    assert_eq!(e.withdraw(&provider(), 401), Err(Error::InsufficientFunds));
    assert_eq!(e.withdraw(&provider(), 150), Ok(()));
    assert_eq!(e.get_released_amount(), Ok(250));
    assert_eq!(e.withdraw_all(&provider()), Ok(250));
    assert_eq!(e.withdraw_all(&provider()), Ok(0));
}

#[test]
fn wrong_role_is_unauthorized() {
    let mut e = open(1000, ReleaseType::MilestoneBased);
    let stranger = party("stranger");
    assert_eq!(e.add_milestone(&provider(), 1, "a".to_string(), 10), Err(Error::Unauthorized));
    assert_eq!(e.add_milestone(&client(), 1, "a".to_string(), 10), Ok(()));
    assert_eq!(e.complete_milestone(&provider(), 1, 20), Err(Error::Unauthorized));
    assert_eq!(e.complete_milestone(&stranger, 1, 20), Err(Error::Unauthorized));
    assert_eq!(e.get_released_amount(), Ok(0));
    assert_eq!(e.complete_milestone(&client(), 1, 20), Ok(()));
    assert_eq!(e.withdraw(&client(), 5), Err(Error::Unauthorized));
    assert_eq!(e.withdraw_all(&stranger), Err(Error::Unauthorized));
    assert_eq!(e.get_released_amount(), Ok(10));
    assert_eq!(e.dispute(&stranger), Err(Error::Unauthorized));
    assert_eq!(e.get_status(), Ok(ContractStatus::Active));
    assert_eq!(e.dispute(&provider()), Ok(()));
    assert_eq!(
        e.resolve_dispute(&provider(), ContractStatus::Active),
        Err(Error::Unauthorized)
    );
    assert_eq!(e.get_status(), Ok(ContractStatus::Disputed));
    let mut t = open(1000, ReleaseType::TimeBased);
    assert_eq!(t.add_time_release(&stranger, 5, 10), Err(Error::Unauthorized));
}

#[test]
fn dispute_freezes_releases_until_resolved() {
    let mut e = open(1000, ReleaseType::MilestoneBased);
    assert_eq!(e.add_milestone(&client(), 1, "a".to_string(), 400), Ok(()));
    assert_eq!(e.resolve_dispute(&client(), ContractStatus::Active), Err(Error::NotDisputed));
    assert_eq!(e.dispute(&client()), Ok(()));
    assert_eq!(e.dispute(&provider()), Err(Error::ContractNotActive));
    assert_eq!(e.complete_milestone(&client(), 1, 20), Err(Error::ContractNotActive));
    assert_eq!(e.add_milestone(&client(), 2, "b".to_string(), 1), Err(Error::ContractNotActive));
    assert_eq!(
        e.resolve_dispute(&client(), ContractStatus::Disputed),
        Err(Error::InvalidResolution)
    );
    assert_eq!(e.resolve_dispute(&client(), ContractStatus::Active), Ok(()));
    assert_eq!(e.complete_milestone(&client(), 1, 20), Ok(()));
    assert_eq!(e.dispute(&provider()), Ok(()));
    assert_eq!(e.resolve_dispute(&client(), ContractStatus::Completed), Ok(()));
    assert_eq!(e.get_status(), Ok(ContractStatus::Completed));
    assert_eq!(e.release_time_based(100), Err(Error::ContractNotActive));
}

#[test]
fn uninitialized_escrow_reports_not_initialized() {
    let mut e = EscrowContract::new();
    let c = client();
    assert_eq!(e.add_milestone(&c, 1, "a".to_string(), 10), Err(Error::NotInitialized));
    assert_eq!(e.add_time_release(&c, 1, 10), Err(Error::NotInitialized));
    assert_eq!(e.complete_milestone(&c, 1, 1), Err(Error::NotInitialized));
    assert_eq!(e.release_time_based(1), Err(Error::NotInitialized));
    assert_eq!(e.release_time_slot(0, 1), Err(Error::NotInitialized));
    assert_eq!(e.withdraw(&provider(), 1), Err(Error::NotInitialized));
    assert_eq!(e.withdraw_all(&provider()), Err(Error::NotInitialized));
    assert_eq!(e.dispute(&c), Err(Error::NotInitialized));
    assert_eq!(e.resolve_dispute(&c, ContractStatus::Active), Err(Error::NotInitialized));
    assert_eq!(e.get_status(), Err(Error::NotInitialized));
    assert_eq!(e.get_released_amount(), Err(Error::NotInitialized));
    assert_eq!(e.get_total_amount(), Err(Error::NotInitialized));
    assert_eq!(e.get_scheduled_amount(), Err(Error::NotInitialized));
    assert!(e.get_milestones().is_err());
    assert!(e.get_time_schedule().is_err());
}

#[test]
fn second_completion_leaves_state_as_first_left_it() {
    let mut e = open(1000, ReleaseType::MilestoneBased);
    assert_eq!(e.add_milestone(&client(), 4, "m".to_string(), 250), Ok(()));
    assert_eq!(e.complete_milestone(&client(), 4, 40), Ok(()));
    let first = e.get_milestones().unwrap();
    assert_eq!(
        e.complete_milestone(&client(), 4, 90),
        Err(Error::MilestoneAlreadyCompleted)
    );
    let second = e.get_milestones().unwrap();
    assert_eq!(second[0].completed_at, 40);
    assert_eq!(first[0].completed_at, second[0].completed_at);
    assert_eq!(first[0].completed, second[0].completed);
    assert_eq!(e.get_released_amount(), Ok(250));
}

fn milestone(id: u32, amount: i128, completed: bool) -> Milestone {
    Milestone { id, description: "m".to_string(), amount, completed, completed_at: 0 }
}

#[test]
fn restore_rebuilds_a_consistent_record() {
    let milestones = vec![milestone(1, 400, true), milestone(2, 600, false)];
    let restored = EscrowContract::restore(
        client(),
        provider(),
        1000,
        400,
        ReleaseType::MilestoneBased,
        milestones,
        vec![],
        ContractStatus::Active,
        10,
    );
    let mut e = restored.expect("consistent record");
    assert_eq!(e.get_scheduled_amount(), Ok(1000));
    assert_eq!(e.get_released_amount(), Ok(400));
    assert_eq!(e.complete_milestone(&client(), 2, 20), Ok(()));
    assert_eq!(e.get_released_amount(), Ok(1000));
}

#[test]
fn restore_refuses_an_inconsistent_record() {
    let over_released = EscrowContract::restore(
        client(),
        provider(),
        1000,
        401,
        ReleaseType::MilestoneBased,
        vec![milestone(1, 400, true), milestone(2, 600, false)],
        vec![],
        ContractStatus::Active,
        10,
    );
    assert!(over_released.is_none());
    let nonpositive = EscrowContract::restore(
        client(),
        provider(),
        1000,
        0,
        ReleaseType::TimeBased,
        vec![],
        vec![TimeRelease { release_date: 5, amount: 0, released: false }],
        ContractStatus::Active,
        10,
    );
    assert!(nonpositive.is_none());
    let overflowing = EscrowContract::restore(
        client(),
        provider(),
        1000,
        0,
        ReleaseType::TimeBased,
        vec![],
        vec![
            TimeRelease { release_date: 5, amount: i128::MAX, released: false },
            TimeRelease { release_date: 6, amount: 1, released: false },
        ],
        ContractStatus::Active,
        10,
    );
    assert!(overflowing.is_none());
    let negative_released = EscrowContract::restore(
        client(),
        provider(),
        1000,
        -1,
        ReleaseType::TimeBased,
        vec![],
        vec![],
        ContractStatus::Active,
        10,
    );
    assert!(negative_released.is_none());
}
