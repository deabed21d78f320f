use vxug_scraper::stats::{ScrapingStats, StatsSnapshot};

#[test]
fn counters_start_at_zero() {
    let zero =
        StatsSnapshot { pages_scraped: 0, files_downloaded: 0, bytes_downloaded: 0, errors: 0 };
    assert_eq!(ScrapingStats::new().snapshot(), zero);
    assert_eq!(ScrapingStats::default().snapshot(), zero);
}

#[test]
fn each_counter_moves_alone() {
    let mut stats = ScrapingStats::new();
    stats.increment_pages();
    stats.increment_pages();
    stats.increment_files();
    stats.add_bytes(1500);
    stats.add_bytes(0);
    stats.add_bytes(500);
    stats.increment_errors();
    stats.increment_errors();
    stats.increment_errors();
    assert_eq!(
        stats.snapshot(),
        StatsSnapshot { pages_scraped: 2, files_downloaded: 1, bytes_downloaded: 2000, errors: 3 }
    );
}

#[test]
fn a_full_counter_stays_full() {
    let mut stats = ScrapingStats::new();
    stats.add_bytes(usize::MAX - 1);
    stats.add_bytes(1);
    assert_eq!(stats.snapshot().bytes_downloaded, usize::MAX);
    stats.add_bytes(7);
    assert_eq!(stats.snapshot().bytes_downloaded, usize::MAX);
    assert_eq!(stats.snapshot().files_downloaded, 0);
}

#[test]
fn megabytes_are_rounded_down() {
    let mut stats = ScrapingStats::new();
    assert_eq!(stats.snapshot().megabytes_downloaded(), 0);
    stats.add_bytes(1_048_575);
    assert_eq!(stats.snapshot().megabytes_downloaded(), 0);
    stats.add_bytes(1);
    assert_eq!(stats.snapshot().megabytes_downloaded(), 1);
    stats.add_bytes(5 * 1_048_576 + 3);
    assert_eq!(stats.snapshot().megabytes_downloaded(), 6);
}

#[test]
fn a_report_is_due_after_every_tenth_page() {
    let mut stats = ScrapingStats::new();
    let mut due = Vec::new();
    for page in 1..=25 {
        stats.increment_pages();
        if stats.report_due() {
            due.push(page);
        }
    }
    assert_eq!(due, vec![10, 20]);
}
