use custody::contributions::Contribution;
use custody::crowdfunding::{Error, PoolContract, PoolStatus};
use custody::Party;

fn party(name: &str) -> Party {
    Party::new(name.to_string())
}

fn open_pool(goal: i128, deadline: u64) -> PoolContract {
    let mut pool = PoolContract::new();
    assert_eq!(pool.initialize(party("owner"), goal, deadline, 100), Ok(()));
    pool
}

#[test]
fn crowdfunding_end_to_end_funded() {
    let mut pool = open_pool(1000, 500);
    assert_eq!(pool.contribute(&party("a"), 400, 200), Ok(()));
    assert_eq!(pool.contribute(&party("b"), 700, 300), Ok(()));
    assert_eq!(pool.get_total_raised(), Ok(1100));
    assert_eq!(pool.finalize(500), Ok(()));
    assert_eq!(pool.get_status(), Ok(PoolStatus::Funded));
}

#[test]
fn initialize_stores_the_pool() {
    let pool = open_pool(1000, 500);
    assert_eq!(pool.get_funding_goal(), Ok(1000));
    assert_eq!(pool.get_deadline(), Ok(500));
    assert_eq!(pool.get_total_raised(), Ok(0));
    assert_eq!(pool.get_status(), Ok(PoolStatus::Funding));
    assert_eq!(pool.get_project_owner(), Ok(party("owner")));
}

#[test]
fn second_initialize_is_refused_and_keeps_state() {
    let mut pool = open_pool(1000, 500);
    assert_eq!(pool.contribute(&party("a"), 10, 200), Ok(()));
    assert_eq!(pool.initialize(party("other"), 5, 900, 100), Err(Error::AlreadyInitialized));
    assert_eq!(pool.initialize(party("other"), -5, 0, 100), Err(Error::AlreadyInitialized));
    assert_eq!(pool.get_funding_goal(), Ok(1000));
    assert_eq!(pool.get_total_raised(), Ok(10));
    assert_eq!(pool.get_project_owner(), Ok(party("owner")));
}

#[test]
fn nonpositive_goal_is_refused() {
    for goal in [0, -1, i128::MIN] {
        let mut pool = PoolContract::new();
        assert_eq!(pool.initialize(party("owner"), goal, 500, 100), Err(Error::InvalidAmount));
        assert_eq!(pool.get_status(), Err(Error::NotInitialized));
    }
}

#[test]
fn deadline_must_be_after_now() {
    let mut pool = PoolContract::new();
    assert_eq!(pool.initialize(party("owner"), 10, 100, 100), Err(Error::InvalidDeadline));
    assert_eq!(pool.initialize(party("owner"), 10, 99, 100), Err(Error::InvalidDeadline));
    assert_eq!(pool.initialize(party("owner"), 10, 101, 100), Ok(()));
}

#[test]
fn nonpositive_contribution_is_refused() {
    let mut pool = open_pool(1000, 500);
    for amount in [0, -1, i128::MIN] {
        assert_eq!(pool.contribute(&party("a"), amount, 200), Err(Error::InvalidAmount));
    }
    assert_eq!(pool.get_total_raised(), Ok(0));
    assert_eq!(pool.get_contribution(&party("a")), Ok(0));
}

#[test]
fn contributions_accumulate_per_contributor() {
    let mut pool = open_pool(1000, 500);
    assert_eq!(pool.contribute(&party("a"), 100, 200), Ok(()));
    assert_eq!(pool.contribute(&party("b"), 50, 200), Ok(()));
    assert_eq!(pool.contribute(&party("a"), 25, 200), Ok(()));
    assert_eq!(pool.get_contribution(&party("a")), Ok(125));
    assert_eq!(pool.get_contribution(&party("b")), Ok(50));
    assert_eq!(pool.get_contribution(&party("c")), Ok(0));
    assert_eq!(pool.get_total_raised(), Ok(175));
}

#[test]
fn contribution_at_or_after_deadline_is_refused() {
    let mut pool = open_pool(1000, 500);
    assert_eq!(pool.contribute(&party("a"), 10, 500), Err(Error::DeadlineNotReached));
    assert_eq!(pool.contribute(&party("a"), 10, 499), Ok(()));
}

#[test]
fn uninitialized_pool_reports_not_initialized() {
    let mut pool = PoolContract::new();
    assert_eq!(pool.contribute(&party("a"), 10, 0), Err(Error::NotInitialized));
    assert_eq!(pool.finalize(0), Err(Error::NotInitialized));
    assert_eq!(pool.refund(&party("a")), Err(Error::NotInitialized));
    assert_eq!(pool.get_status(), Err(Error::NotInitialized));
    assert_eq!(pool.get_total_raised(), Err(Error::NotInitialized));
    assert_eq!(pool.get_funding_goal(), Err(Error::NotInitialized));
    assert_eq!(pool.get_deadline(), Err(Error::NotInitialized));
    assert_eq!(pool.get_contribution(&party("a")), Err(Error::NotInitialized));
    assert_eq!(pool.get_project_owner(), Err(Error::NotInitialized));
}

#[test]
fn finalize_before_deadline_is_refused() {
    let mut pool = open_pool(1000, 500);
    assert_eq!(pool.contribute(&party("a"), 1000, 200), Ok(()));
    assert_eq!(pool.finalize(499), Err(Error::DeadlineNotReached));
    assert_eq!(pool.get_status(), Ok(PoolStatus::Funding));
}

#[test]
fn finalize_one_short_of_goal_fails() {
    let mut pool = open_pool(1000, 500);
    assert_eq!(pool.contribute(&party("a"), 999, 200), Ok(()));
    assert_eq!(pool.finalize(500), Ok(()));
    assert_eq!(pool.get_status(), Ok(PoolStatus::Failed));
}

#[test]
fn finalize_exactly_at_goal_funds() {
    let mut pool = open_pool(1000, 500);
    assert_eq!(pool.contribute(&party("a"), 1000, 200), Ok(()));
    assert_eq!(pool.finalize(700), Ok(()));
    assert_eq!(pool.get_status(), Ok(PoolStatus::Funded));
}

#[test]
fn finalized_pool_refuses_contributions_and_refinalize() {
    let mut pool = open_pool(1000, 500);
    assert_eq!(pool.finalize(500), Ok(()));
    assert_eq!(pool.finalize(600), Err(Error::PoolNotFunding));
    assert_eq!(pool.contribute(&party("a"), 10, 200), Err(Error::PoolNotFunding));
}

#[test]
fn refund_returns_contribution_once() {
    let mut pool = open_pool(1000, 500);
    assert_eq!(pool.contribute(&party("a"), 300, 200), Ok(()));
    assert_eq!(pool.contribute(&party("b"), 200, 200), Ok(()));
    assert_eq!(pool.finalize(500), Ok(()));
    assert_eq!(pool.refund(&party("a")), Ok(300));
    assert_eq!(pool.refund(&party("a")), Err(Error::NoContribution));
    assert_eq!(pool.get_contribution(&party("a")), Ok(0));
    assert_eq!(pool.get_contribution(&party("b")), Ok(200));
    assert_eq!(pool.refund(&party("b")), Ok(200));
}

#[test]
fn refund_by_stranger_is_refused() {
    let mut pool = open_pool(1000, 500);
    assert_eq!(pool.contribute(&party("a"), 300, 200), Ok(()));
    assert_eq!(pool.finalize(500), Ok(()));
    assert_eq!(pool.refund(&party("z")), Err(Error::NoContribution));
}

#[test]
fn refund_needs_a_failed_pool() {
    let mut pool = open_pool(100, 500);
    assert_eq!(pool.contribute(&party("a"), 300, 200), Ok(()));
    assert_eq!(pool.refund(&party("a")), Err(Error::PoolNotFailed));
    assert_eq!(pool.finalize(500), Ok(()));
    assert_eq!(pool.refund(&party("a")), Err(Error::PoolNotFailed));
    assert_eq!(pool.get_contribution(&party("a")), Ok(300));
}

#[test]
fn restore_rebuilds_a_pool() {
    let entries = vec![
        Contribution { contributor: party("a"), amount: 300 },
        Contribution { contributor: party("b"), amount: 200 },
    ];
    let mut pool = PoolContract::restore(party("owner"), 1000, 500, 500, &entries, PoolStatus::Failed, 100)
        .expect("consistent record");
    assert_eq!(pool.get_contribution(&party("a")), Ok(300));
    assert_eq!(pool.refund(&party("b")), Ok(200));
    let saved = pool.get_contributions().unwrap();
    assert_eq!(saved.len(), 2);
    let b = saved.iter().find(|c| c.contributor == party("b")).unwrap();
    assert_eq!(b.amount, 0);
}

#[test]
fn restore_later_entry_wins() {
    let entries = vec![
        Contribution { contributor: party("a"), amount: 300 },
        Contribution { contributor: party("a"), amount: 100 },
    ];
    let pool = PoolContract::restore(party("owner"), 1000, 500, 500, &entries, PoolStatus::Funding, 100)
        .expect("consistent record");
    assert_eq!(pool.get_contribution(&party("a")), Ok(100));
    assert_eq!(pool.get_contributions().unwrap().len(), 1);
}

#[test]
fn restore_refuses_an_inconsistent_pool() {
    let above = vec![Contribution { contributor: party("a"), amount: 501 }];
    assert!(PoolContract::restore(party("o"), 1000, 500, 500, &above, PoolStatus::Funding, 1).is_none());
    let negative = vec![Contribution { contributor: party("a"), amount: -1 }];
    assert!(PoolContract::restore(party("o"), 1000, 500, 500, &negative, PoolStatus::Funding, 1).is_none());
    assert!(PoolContract::restore(party("o"), 1000, 500, -1, &vec![], PoolStatus::Funding, 1).is_none());
}
