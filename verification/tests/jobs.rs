use riggen_app::jobs::{InFlight, JobKey};

#[test]
fn requests_deduplicate_by_key_while_in_flight() {
    let mut jobs = InFlight::new();
    let key = JobKey { mesh: 1, params: 0 };
    let other = JobKey { mesh: 1, params: 3 };
    let elsewhere = JobKey { mesh: 2, params: 0 };
    assert!(jobs.request(key));
    assert!(!jobs.request(key), "already in flight");
    assert!(jobs.request(other), "different parameters");
    assert!(jobs.request(elsewhere), "different mesh");
    assert!(jobs.is_pending(key) && jobs.is_pending(other) && jobs.is_pending(elsewhere));
    for done in [key, other, elsewhere] {
        jobs.drained(done);
    }
    assert!(!jobs.is_pending(key));
    // Drained, so the first key can be asked for again.
    assert!(jobs.request(key));
}

#[test]
fn draining_an_unknown_key_changes_nothing() {
    let mut jobs = InFlight::new();
    let key = JobKey { mesh: 5, params: 1 };
    jobs.request(key);
    jobs.drained(JobKey { mesh: 6, params: 1 });
    assert!(jobs.is_pending(key));
}
