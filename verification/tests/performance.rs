use image_sort::performance::{average_millis, PerformanceMetrics, Timer};

#[test]
fn new_metrics_are_zero() {
    let m = PerformanceMetrics::new();
    assert_eq!(m.exif_reads, 0);
    assert_eq!(m.total_exif_time, 0);
    assert_eq!(m.total_bytes_copied, 0);
    let d = PerformanceMetrics::default();
    assert_eq!(d.file_copies, 0);
}

#[test]
fn each_record_counts_and_adds() {
    let mut m = PerformanceMetrics::new();
    m.record_exif_read(5_000_000);
    m.record_exif_read(7_000_000);
    assert_eq!((m.exif_reads, m.total_exif_time), (2, 12_000_000));
    m.record_geocoding(1_000, true);
    m.record_geocoding(2_000, false);
    assert_eq!(
        (m.geocoding_lookups, m.geocoding_cache_hits, m.total_geocoding_time),
        (2, 1, 3_000)
    );
    m.record_file_copy(9_000_000, 1024);
    m.record_file_copy(1_000_000, 1);
    assert_eq!(
        (m.file_copies, m.total_file_copy_time, m.total_bytes_copied),
        (2, 10_000_000, 1025)
    );
    m.record_directory_creation(42);
    assert_eq!((m.directory_creations, m.total_directory_creation_time), (1, 42));
    assert_eq!(m.total_measured(), Some(12_000_000 + 3_000 + 10_000_000 + 42));
}

#[test]
fn averages_are_whole_milliseconds() {
    assert_eq!(average_millis(12_000_000, 2), Some(6));
    assert_eq!(average_millis(12_999_999, 5), Some(2));
    assert_eq!(average_millis(999_999, 1), Some(0));
    assert_eq!(average_millis(5, 0), None);
}

#[test]
fn summary_gives_the_average_of_each_step() {
    let mut m = PerformanceMetrics::new();
    m.record_exif_read(5_000_000);
    m.record_exif_read(8_000_000);
    m.record_file_copy(9_000_000, 1024);
    let s = m.summary();
    assert_eq!(s.exif_average, Some(6));
    assert_eq!(s.file_copy_average, Some(9));
    assert_eq!(s.geocoding_average, None);
    assert_eq!(s.directory_creation_average, None);
}

#[test]
fn total_measured_is_none_beyond_u128() {
    let mut m = PerformanceMetrics::new();
    m.record_exif_read(u128::MAX);
    m.record_directory_creation(1);
    assert_eq!(m.total_measured(), None);
}

#[test]
fn reset_forgets_all_metrics() {
    let mut m = PerformanceMetrics::new();
    m.record_file_copy(9_000_000, 1024);
    m._reset();
    assert_eq!(m.file_copies, 0);
    assert_eq!(m.total_file_copy_time, 0);
    assert_eq!(m.total_bytes_copied, 0);
}

#[test]
fn timer_goes_forward() {
    let timer = Timer::new();
    let first = timer.elapsed();
    let second = timer.elapsed();
    assert!(first <= second);
    let other = Timer::default();
    assert!(other.elapsed() <= timer.elapsed() + 1_000_000_000);
}
