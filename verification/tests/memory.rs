use mofa_engine::memory::MemoryManager;

const MB: u64 = 1024 * 1024;

#[test]
fn allocate_and_track() {
    let mut mm = MemoryManager::new(Some(100));
    assert_eq!(mm.budget_bytes(), 100 * MB);
    assert_eq!(mm.used_bytes(), 0);

    mm.allocate("model-a", 10 * MB);
    assert_eq!(mm.used_bytes(), 10 * MB);

    mm.allocate("model-b", 20 * MB);
    assert_eq!(mm.used_bytes(), 30 * MB);

    mm.deallocate("model-a");
    assert_eq!(mm.used_bytes(), 20 * MB);
}

#[test]
fn try_reserve_respects_budget() {
    let mut mm = MemoryManager::new(Some(100));
    assert!(mm.try_reserve("a", 60 * MB));
    // 60 used, only 40 left: a 50 MB reservation must fail.
    assert!(!mm.try_reserve("b", 50 * MB));
    assert!(mm.try_reserve("b", 40 * MB));
    assert_eq!(mm.used_bytes(), 100 * MB);
}

#[test]
fn try_reserve_same_model_accounts_delta_not_sum() {
    let mut mm = MemoryManager::new(Some(100));
    assert!(mm.try_reserve("a", 60 * MB));
    // Re-reserving the same model at 80 MB replaces, not adds: it fits.
    assert!(mm.try_reserve("a", 80 * MB));
    assert_eq!(mm.used_bytes(), 80 * MB);
}

#[test]
fn reconcile_raises_reservation_to_observed() {
    let mut mm = MemoryManager::new(Some(100));
    mm.allocate("a", 10 * MB);
    mm.reconcile("a", 25 * MB);
    assert_eq!(mm.used_bytes(), 25 * MB);
    // A lower observed value does not shrink the conservative reservation.
    mm.reconcile("a", 5 * MB);
    assert_eq!(mm.used_bytes(), 25 * MB);
}

#[test]
fn can_fit_check() {
    let mut mm = MemoryManager::new(Some(100));
    mm.allocate("m1", 90 * MB);
    assert!(!mm.can_fit(20 * MB));
    assert!(mm.can_fit(10 * MB));
}

#[test]
fn lru_eviction_order() {
    let mut mm = MemoryManager::new(Some(100));
    mm.allocate("old", 10 * MB);
    mm.allocate("new", 10 * MB);
    assert_eq!(mm.lru_candidate(&[]).unwrap(), "old");
}

#[test]
fn lru_respects_protected() {
    let mut mm = MemoryManager::new(Some(100));
    mm.allocate("protected", 10 * MB);
    mm.allocate("evictable", 10 * MB);
    assert_eq!(mm.lru_candidate(&["protected".to_string()]).unwrap(), "evictable");
}

#[test]
fn leased_models_are_never_lru_candidates() {
    let mut mm = MemoryManager::new(Some(100));
    mm.allocate("leased", 10 * MB);
    mm.allocate("free", 10 * MB);
    mm.lease("leased");
    // "leased" is older but is protected by its lease.
    assert_eq!(mm.lru_candidate(&[]).unwrap(), "free");
    mm.release_lease("leased");
    assert_eq!(mm.lease_count("leased"), 0);
}

#[test]
fn touch_updates_access_time() {
    let mut mm = MemoryManager::new(Some(100));
    mm.allocate("a", 10 * MB);
    mm.allocate("b", 10 * MB);
    mm.touch("a");
    assert_eq!(mm.lru_candidate(&[]).unwrap(), "b");
}

#[test]
fn idle_candidates_at_reports_only_stale_unleased() {
    let mut mm = MemoryManager::new(Some(100));
    mm.allocate("stale", 10 * MB);
    mm.allocate("leased_stale", 10 * MB);
    mm.lease("leased_stale");
    // Far in the future with a zero idle window, every unleased model is idle.
    let idle = mm.idle_candidates_at(u64::MAX, 0, &[]);
    assert_eq!(idle, vec!["stale".to_string()]);
    // Protected models are never reported.
    let none = mm.idle_candidates_at(u64::MAX, 0, &["stale".to_string()]);
    assert!(none.is_empty());
}

#[test]
fn snapshot_is_sorted_and_complete() {
    let mut mm = MemoryManager::new(Some(100));
    mm.allocate("b", 20 * MB);
    mm.allocate("a", 10 * MB);
    mm.reconcile("a", 15 * MB);
    let snap = mm.snapshot();
    assert_eq!(snap.len(), 2);
    assert_eq!(snap[0].model_id, "a");
    assert_eq!(snap[0].observed_bytes, Some(15 * MB));
    assert_eq!(snap[1].model_id, "b");
}

#[test]
fn admission_within_budget_law_on_values() {
    // Whatever is admitted, the used total stays within the budget.
    let mut mm = MemoryManager::new(Some(1));
    assert!(mm.try_reserve("x", MB));
    assert!(!mm.try_reserve("y", 1));
    assert!(mm.used_bytes() <= mm.budget_bytes());
    assert_eq!(mm.available_bytes(), 0);
}

#[test]
fn deallocate_frees_exactly_the_reservation() {
    let mut mm = MemoryManager::new(Some(100));
    mm.allocate("a", 30 * MB);
    mm.allocate("b", 20 * MB);
    mm.deallocate("a");
    assert_eq!(mm.used_bytes(), 20 * MB);
    assert_eq!(mm.available_bytes(), 80 * MB);
    // Deallocating an unknown model changes nothing.
    mm.deallocate("zzz");
    assert_eq!(mm.used_bytes(), 20 * MB);
}

#[test]
fn lease_round_trip_restores_count() {
    let mut mm = MemoryManager::new(Some(100));
    mm.allocate("a", MB);
    mm.lease("a");
    mm.lease("a");
    assert_eq!(mm.lease_count("a"), 2);
    mm.release_lease("a");
    mm.release_lease("a");
    assert_eq!(mm.lease_count("a"), 0);
    // Releasing below zero saturates.
    mm.release_lease("a");
    assert_eq!(mm.lease_count("a"), 0);
}

#[test]
fn seventy_percent_rounds_down() {
    assert_eq!(mofa_engine::memory::seventy_percent(10), 7);
    assert_eq!(mofa_engine::memory::seventy_percent(15), 10);
    assert_eq!(mofa_engine::memory::seventy_percent(u64::MAX), u64::MAX / 10 * 7 + 3);
}

#[test]
fn huge_budget_saturates() {
    let mm = MemoryManager::new(Some(u64::MAX));
    assert_eq!(mm.budget_bytes(), u64::MAX);
}
