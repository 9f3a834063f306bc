use solarance::construction::{compute_construction_progress, ConstructionProgress};

/// The percentage a player sees: the mean of the completion ratios, times 100.
fn percent_of(progress: &ConstructionProgress) -> f32 {
    if progress.ratios.is_empty() {
        return 0.0;
    }
    let mut total = 0.0f32;
    for &(done, needed) in &progress.ratios {
        total += done as f32 / needed as f32;
    }
    total / progress.ratios.len() as f32 * 100.0
}

fn pct(reqs: &[(u32, u32)], given: &[(u32, u32)]) -> f32 {
    percent_of(&compute_construction_progress(reqs, given))
}

fn close(got: f32, want: f32) -> bool {
    (got - want).abs() < 0.001
}

#[test]
fn empty_requirements_returns_zero() {
    assert!(close(pct(&[], &[]), 0.0));
    assert!(close(pct(&[], &[(1, 50)]), 0.0));
}

#[test]
fn single_resource_zero_percent() {
    assert!(close(pct(&[(1, 100)], &[]), 0.0));
}

#[test]
fn single_resource_fifty_percent() {
    assert!(close(pct(&[(1, 100)], &[(1, 50)]), 50.0));
}

#[test]
fn single_resource_one_hundred_percent() {
    assert!(close(pct(&[(1, 100)], &[(1, 100)]), 100.0));
}

#[test]
fn over_contribution_capped_at_one_hundred() {
    assert!(close(pct(&[(1, 100)], &[(1, 500)]), 100.0));
}

#[test]
fn multi_resource_partial_average() {
    // one resource complete, the other a quarter done
    assert!(close(pct(&[(1, 100), (2, 200)], &[(1, 100), (2, 50)]), 62.5));
}

#[test]
fn multi_resource_over_one_cannot_mask_under_another() {
    assert!(close(pct(&[(1, 100), (2, 200)], &[(1, 1000), (2, 0)]), 50.0));
}

#[test]
fn aggregated_contributions_are_summed_by_caller() {
    assert!(close(pct(&[(1, 100)], &[(1, 25), (1, 25), (1, 50)]), 100.0));
}

#[test]
fn unrequired_contributions_are_ignored() {
    assert!(close(pct(&[(1, 100)], &[(1, 50), (99, 10_000)]), 50.0));
}

#[test]
fn zero_required_counts_complete() {
    assert!(close(pct(&[(1, 100), (2, 0)], &[(1, 100)]), 100.0));
}
