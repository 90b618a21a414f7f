use relativity::performance_counter::PerformanceCounter;

#[test]
fn report_on_empty_counter_is_none() {
    let counter = PerformanceCounter::new();
    assert!(counter.report().is_none());
}

#[test]
fn report_gives_mean_slowest_and_fastest() {
    let mut counter = PerformanceCounter::new();
    counter.push_time(100);
    counter.push_time(300);
    counter.push_time(200);
    let report = counter.report().unwrap();
    assert_eq!(report.mean, 200);
    assert_eq!(report.slowest, 300);
    assert_eq!(report.fastest, 100);
}

#[test]
fn mean_rounds_down() {
    let mut counter = PerformanceCounter::new();
    counter.push_time(1);
    counter.push_time(2);
    let report = counter.report().unwrap();
    assert_eq!(report.mean, 1);
}

#[test]
fn report_of_one_sample_is_that_sample() {
    let mut counter = PerformanceCounter::new();
    counter.push_time(42);
    let report = counter.report().unwrap();
    assert_eq!(report.mean, 42);
    assert_eq!(report.slowest, 42);
    assert_eq!(report.fastest, 42);
}

#[test]
fn flush_reports_then_clears() {
    let mut counter = PerformanceCounter::new();
    counter.push_time(10);
    counter.push_time(30);
    let report = counter.flush().unwrap();
    assert_eq!(report.mean, 20);
    assert!(counter.report().is_none());
    assert!(counter.flush().is_none());
}

#[test]
fn tick_records_clock_samples() {
    let mut counter = PerformanceCounter::new();
    counter.tick();
    counter.tick();
    let report = counter.report().unwrap();
    assert!(report.fastest <= report.mean);
    assert!(report.mean <= report.slowest);
    assert!(report.start <= report.end);
}
