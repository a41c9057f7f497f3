use fesghel::metrics::register_metrics;

#[test]
fn workers_gauge_can_be_set() {
    let mut m = register_metrics();
    m.set_workers(12);
    assert_eq!(m.workers as usize, 12);
}

#[test]
fn urls_counter_increments() {
    let mut m = register_metrics();
    let before = m.urls_created;
    m.inc_urls_created();
    assert_eq!(m.urls_created, before + 1);
}

#[test]
fn error_counter_increments_by_type() {
    let mut m = register_metrics();
    let before = m.error_count("test_error");
    m.inc_error("test_error");
    assert_eq!(m.error_count("test_error"), before + 1);
}

#[test]
fn error_counters_are_independent() {
    let mut m = register_metrics();
    m.inc_error("duplicate_key");
    m.inc_error("database");
    m.inc_error("duplicate_key");
    assert_eq!(m.error_count("duplicate_key"), 2);
    assert_eq!(m.error_count("database"), 1);
    assert_eq!(m.error_count("validation"), 0);
}

#[test]
fn registration_starts_clean() {
    let m = register_metrics();
    assert_eq!(m.workers, 0);
    assert_eq!(m.urls_created, 0);
    assert_eq!(m.app_info, 1);
    assert_eq!(m.error_count("database"), 0);
}
