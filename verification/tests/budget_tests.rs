use terrain_erosion::budget::DropBudget;
use terrain_erosion::budget::DEFAULT_DROPS_PER_CYCLE;
use terrain_erosion::budget::DEFAULT_MAX_DROPS;
use terrain_erosion::budget::MAX_DROPS_PER_CYCLE;
use terrain_erosion::budget::MAX_DROP_CEILING;

#[test]
fn default_budget() {
    let budget = DropBudget::default();
    assert_eq!(budget.drops_per_cycle(), 1000);
    assert_eq!(budget.drop_count(), 0);
    assert_eq!(budget.max_drops(), 200_000);
    assert_eq!(DEFAULT_DROPS_PER_CYCLE, 1000);
    assert_eq!(DEFAULT_MAX_DROPS, 200_000);
    assert!(!budget.exhausted());
}

#[test]
fn new_limits_its_arguments() {
    assert_eq!(MAX_DROPS_PER_CYCLE, 2048);
    assert_eq!(MAX_DROP_CEILING, 400_000);
    let budget = DropBudget::new(2048, 400_000);
    assert_eq!(budget.drops_per_cycle(), 2048);
    assert_eq!(budget.max_drops(), 400_000);
    let budget = DropBudget::new(2049, 400_001);
    assert_eq!(budget.drops_per_cycle(), 2048);
    assert_eq!(budget.max_drops(), 400_000);
    let budget = DropBudget::new(u32::MAX, u32::MAX);
    assert_eq!(budget.drops_per_cycle(), 2048);
    assert_eq!(budget.max_drops(), 400_000);
    assert_eq!(budget.drop_count(), 0);
}

#[test]
fn setters_limit_and_leave_the_rest() {
    let mut budget = DropBudget::new(10, 100);
    assert_eq!(budget.begin_pass(), Some(10));
    budget.set_drops_per_cycle(5000);
    assert_eq!(budget.drops_per_cycle(), 2048);
    assert_eq!(budget.drop_count(), 10);
    assert_eq!(budget.max_drops(), 100);
    budget.set_max_drops(1_000_000);
    assert_eq!(budget.drops_per_cycle(), 2048);
    assert_eq!(budget.drop_count(), 10);
    assert_eq!(budget.max_drops(), 400_000);
    budget.set_drops_per_cycle(0);
    budget.set_max_drops(0);
    assert_eq!(budget.drops_per_cycle(), 0);
    assert_eq!(budget.max_drops(), 0);
    assert_eq!(budget.drop_count(), 10);
}

#[test]
fn reset_gives_the_defaults() {
    let mut budget = DropBudget::new(7, 9);
    assert_eq!(budget.begin_pass(), Some(7));
    budget.reset();
    assert_eq!(budget.drops_per_cycle(), 1000);
    assert_eq!(budget.drop_count(), 0);
    assert_eq!(budget.max_drops(), 200_000);
}

#[test]
fn pass_counts_the_whole_batch() {
    let mut budget = DropBudget::default();
    assert_eq!(budget.begin_pass(), Some(1000));
    assert_eq!(budget.drop_count(), 1000);
    assert_eq!(budget.begin_pass(), Some(1000));
    assert_eq!(budget.drop_count(), 2000);
}

#[test]
fn last_pass_may_overshoot_the_ceiling() {
    let mut budget = DropBudget::new(1000, 2500);
    assert_eq!(budget.begin_pass(), Some(1000));
    assert_eq!(budget.begin_pass(), Some(1000));
    assert_eq!(budget.begin_pass(), Some(1000));
    assert_eq!(budget.drop_count(), 3000);
    assert!(budget.exhausted());
    assert_eq!(budget.begin_pass(), None);
    assert_eq!(budget.drop_count(), 3000);
}

#[test]
fn budget_equal_to_batch_is_spent_by_one_pass() {
    let mut budget = DropBudget::new(50, 50);
    assert_eq!(budget.begin_pass(), Some(50));
    assert_eq!(budget.drop_count(), 50);
    assert!(budget.exhausted());
    assert_eq!(budget.begin_pass(), None);
    assert_eq!(budget.drop_count(), 50);
}

#[test]
fn zero_ceiling_grants_nothing() {
    for drops in [0u32, 1, 50, 2048] {
        let mut budget = DropBudget::new(drops, 0);
        assert!(budget.exhausted());
        assert_eq!(budget.begin_pass(), None);
        assert_eq!(budget.drop_count(), 0);
        assert_eq!(budget.drops_per_cycle(), drops);
    }
}

#[test]
fn empty_batch_is_granted_but_counts_nothing() {
    let mut budget = DropBudget::new(0, 10);
    assert_eq!(budget.begin_pass(), Some(0));
    assert_eq!(budget.drop_count(), 0);
    assert!(!budget.exhausted());
}

#[test]
fn count_stays_in_range_at_the_largest_settings() {
    let mut budget = DropBudget::new(2048, 400_000);
    let mut passes = 0u32;
    while let Some(batch) = budget.begin_pass() {
        assert_eq!(batch, 2048);
        passes += 1;
    }
    // 195 passes bring the count to 399_360, the 196th to 401_408.
    assert_eq!(passes, 196);
    assert_eq!(budget.drop_count(), 401_408);
}
