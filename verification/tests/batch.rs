use vxug_scraper::batch::Batch;
use vxug_scraper::download::{DownloadTask, TaskOutcome};
use vxug_scraper::stats::ScrapingStats;

fn tasks(n: usize) -> Vec<DownloadTask> {
    (0..n)
        .map(|i| DownloadTask {
            url: format!("http://x/{}.zip", i),
            file_path: format!("d/{}.zip", i),
            file_name: format!("{}.zip", i),
        })
        .collect()
}

#[test]
fn no_more_run_than_the_limit_allows() {
    let mut batch = Batch::new(tasks(5), 2);
    assert_eq!(batch.start_next(), Some(0));
    assert_eq!(batch.start_next(), Some(1));
    assert_eq!(batch.start_next(), None);
    assert_eq!(batch.running(), 2);
    assert!(batch.finish(TaskOutcome::Downloaded { bytes: 1 }));
    assert_eq!(batch.running(), 1);
    assert_eq!(batch.start_next(), Some(2));
    assert_eq!(batch.start_next(), None);
    assert!(!batch.is_complete());
}

#[test]
fn a_limit_of_zero_lets_all_run() {
    let mut batch = Batch::new(tasks(4), 0);
    assert_eq!(batch.start_next(), Some(0));
    assert_eq!(batch.start_next(), Some(1));
    assert_eq!(batch.start_next(), Some(2));
    assert_eq!(batch.start_next(), Some(3));
    assert_eq!(batch.start_next(), None);
    assert_eq!(batch.running(), 4);
}

#[test]
fn an_empty_batch_is_complete_at_once() {
    let mut batch = Batch::new(Vec::new(), 3);
    assert!(batch.is_complete());
    assert_eq!(batch.start_next(), None);
    assert!(!batch.finish(TaskOutcome::Failed));
    assert!(batch.task(0).is_none());
}

#[test]
fn nothing_ends_that_did_not_begin() {
    let mut batch = Batch::new(tasks(2), 1);
    assert!(!batch.finish(TaskOutcome::Downloaded { bytes: 5 }));
    assert_eq!(batch.start_next(), Some(0));
    assert!(batch.finish(TaskOutcome::Downloaded { bytes: 5 }));
    assert!(!batch.finish(TaskOutcome::Downloaded { bytes: 5 }));
    let mut stats = ScrapingStats::new();
    batch.settle(&mut stats);
    assert_eq!(stats.snapshot().files_downloaded, 1);
    assert_eq!(stats.snapshot().bytes_downloaded, 5);
}

#[test]
fn tasks_are_handed_out_by_position() {
    let batch = Batch::new(tasks(3), 1);
    assert_eq!(batch.task(0).unwrap().file_name, "0.zip");
    assert_eq!(batch.task(2).unwrap().url, "http://x/2.zip");
    assert!(batch.task(3).is_none());
}

#[test]
fn one_failing_download_does_not_keep_the_others_from_completing() {
    let total = 6;
    let mut batch = Batch::new(tasks(total), 2);
    let mut started = Vec::new();
    let mut running = std::collections::VecDeque::new();
    loop {
        while let Some(position) = batch.start_next() {
            started.push(position);
            running.push_back(position);
        }
        match running.pop_front() {
            Some(position) => {
                let outcome = if position == 1 {
                    TaskOutcome::Failed
                } else {
                    TaskOutcome::Downloaded { bytes: 10 }
                };
                assert!(batch.finish(outcome));
            }
            None => break,
        }
    }
    assert!(batch.is_complete());
    assert_eq!(started, vec![0, 1, 2, 3, 4, 5]);
    let mut stats = ScrapingStats::new();
    batch.settle(&mut stats);
    assert_eq!(stats.snapshot().files_downloaded, total - 1);
    assert_eq!(stats.snapshot().bytes_downloaded, 10 * (total - 1));
    assert_eq!(stats.snapshot().errors, 1);
    assert_eq!(stats.snapshot().pages_scraped, 0);
}

#[test]
fn a_batch_of_failures_still_runs_to_its_end() {
    let mut batch = Batch::new(tasks(3), 1);
    let mut rounds = 0;
    while let Some(_) = batch.start_next() {
        assert!(batch.finish(TaskOutcome::Failed));
        rounds += 1;
    }
    assert_eq!(rounds, 3);
    assert!(batch.is_complete());
    let mut stats = ScrapingStats::new();
    batch.settle(&mut stats);
    assert_eq!(stats.snapshot().files_downloaded, 0);
    assert_eq!(stats.snapshot().errors, 3);
}
