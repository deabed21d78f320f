use std::collections::HashMap;
use vxug_scraper::download::TaskOutcome;
use vxug_scraper::engine::{Action, AdvancedScraper, Decision, Event};
use vxug_scraper::frontier::{Frontier, FrontierNode};
use vxug_scraper::ledger::VisitedLedger;

const BASE: &str = "https://site.org";

fn collection(names: &[&str]) -> String {
    names
        .iter()
        .map(|name| {
            format!(
                "<div class=\"cursor-pointer\"><span class=\"text-white text-xs truncate\">{}</span></div>",
                name
            )
        })
        .collect()
}

fn files(targets: &[&str]) -> String {
    targets.iter().map(|target| format!("<a href=\"{}\">file</a>", target)).collect()
}

fn scraper() -> AdvancedScraper {
    AdvancedScraper::new(BASE, Vec::new(), 12, 8).unwrap()
}

/// Runs the traversal against a site given as a map from address to page
/// text; an address that the map lacks cannot be fetched. Returns the
/// addresses fetched and the addresses of the files transferred, in order.
fn crawl(
    scraper: &mut AdvancedScraper,
    site: &HashMap<String, String>,
    failing_files: &[&str],
) -> (Vec<String>, Vec<String>) {
    let mut fetched = Vec::new();
    let mut transferred = Vec::new();
    let mut decision =
        scraper.step(Event::Start { start_url: format!("{}/", BASE), root_dir: "out".into() });
    loop {
        decision = match decision.action {
            Action::FetchPage { node } => {
                fetched.push(node.remote_address.clone());
                match site.get(&node.remote_address) {
                    Some(body) => scraper.step(Event::PageFetched { body: body.clone() }),
                    None => scraper.step(Event::PageFailed),
                }
            }
            Action::CreateDirectories { nodes } => {
                scraper.step(Event::DirectoriesCreated { created: vec![true; nodes.len()] })
            }
            Action::RunBatch { tasks, concurrency } => {
                assert_eq!(concurrency, 12);
                let outcomes = tasks
                    .iter()
                    .map(|task| {
                        if failing_files.contains(&task.file_name.as_str()) {
                            TaskOutcome::Failed
                        } else {
                            transferred.push(task.url.clone());
                            TaskOutcome::Downloaded { bytes: 100 }
                        }
                    })
                    .collect();
                scraper.step(Event::BatchFinished { outcomes })
            }
            Action::Finish => break,
            Action::Ignore => panic!("an answer was ignored"),
        };
    }
    (fetched, transferred)
}

fn diamond() -> HashMap<String, String> {
    let mut site = HashMap::new();
    site.insert(format!("{}/", BASE), collection(&["A", "B"]));
    site.insert(format!("{}/A", BASE), collection(&["C"]));
    site.insert(format!("{}/B", BASE), collection(&["C"]));
    site.insert(format!("{}/A/C", BASE), files(&["/files/c.zip"]));
    site.insert(format!("{}/B/C", BASE), files(&["/files/c.zip"]));
    site
}

#[test]
fn a_child_of_two_parents_is_processed_once() {
    let mut scraper = scraper();
    let (fetched, transferred) = crawl(&mut scraper, &diamond(), &[]);
    assert_eq!(
        fetched,
        vec![
            "https://site.org/".to_string(),
            "https://site.org/A".to_string(),
            "https://site.org/B".to_string(),
            "https://site.org/A/C".to_string(),
        ]
    );
    assert_eq!(transferred, vec!["https://site.org/files/c.zip".to_string()]);
    let stats = scraper.stats();
    assert_eq!(stats.pages_scraped, 4);
    assert_eq!(stats.files_downloaded, 1);
    assert_eq!(stats.bytes_downloaded, 100);
    assert_eq!(stats.errors, 0);
    assert!(scraper.is_finished());
}

#[test]
fn pages_are_visited_breadth_first() {
    let mut site = HashMap::new();
    site.insert(format!("{}/", BASE), collection(&["A", "B"]));
    site.insert(format!("{}/A", BASE), collection(&["A1", "A2"]));
    site.insert(format!("{}/B", BASE), collection(&["B1"]));
    site.insert(format!("{}/A/A1", BASE), String::new());
    site.insert(format!("{}/A/A2", BASE), String::new());
    site.insert(format!("{}/B/B1", BASE), String::new());
    let mut scraper = scraper();
    let (fetched, _) = crawl(&mut scraper, &site, &[]);
    let order: Vec<&str> = fetched.iter().map(|a| &a[BASE.len()..]).collect();
    assert_eq!(order, vec!["/", "/A", "/B", "/A/A1", "/A/A2", "/B/B1"]);
}

#[test]
fn a_page_that_cannot_be_had_is_a_dead_end_and_the_run_goes_on() {
    let mut site = diamond();
    site.remove(&format!("{}/A", BASE));
    let mut scraper = scraper();
    let (fetched, transferred) = crawl(&mut scraper, &site, &[]);
    assert_eq!(
        fetched,
        vec![
            "https://site.org/".to_string(),
            "https://site.org/A".to_string(),
            "https://site.org/B".to_string(),
            "https://site.org/B/C".to_string(),
        ]
    );
    assert_eq!(transferred.len(), 1);
    let stats = scraper.stats();
    assert_eq!(stats.pages_scraped, 4);
    assert_eq!(stats.errors, 1);
}

#[test]
fn a_failed_file_is_counted_and_the_rest_of_the_batch_too() {
    let mut site = HashMap::new();
    site.insert(
        format!("{}/", BASE),
        files(&["/f/one.zip", "/f/two.pdf", "http://mirror/three.7z", "/f/fo:ur.rar"]),
    );
    let mut scraper = scraper();
    let (_, transferred) = crawl(&mut scraper, &site, &["two.pdf"]);
    assert_eq!(
        transferred,
        vec![
            "https://site.org/f/one.zip".to_string(),
            "http://mirror/three.7z".to_string(),
            "https://site.org/f/fo:ur.rar".to_string(),
        ]
    );
    let stats = scraper.stats();
    assert_eq!(stats.files_downloaded, 3);
    assert_eq!(stats.bytes_downloaded, 300);
    assert_eq!(stats.errors, 1);
    assert_eq!(stats.pages_scraped, 1);
}

#[test]
fn a_node_does_not_lead_back_to_itself_or_to_skipped_segments() {
    let mut site = HashMap::new();
    site.insert(format!("{}/Papers", BASE), collection(&["Papers", "Top", "New"]));
    site.insert(format!("{}/Papers/New", BASE), collection(&["Papers", "New"]));
    let mut scraper = AdvancedScraper::new(BASE, vec!["Top".to_string()], 1, 1).unwrap();
    let mut fetched = Vec::new();
    let mut decision = scraper.scrape_with_bfs("https://site.org/Papers", "out/Papers");
    loop {
        decision = match decision.action {
            Action::FetchPage { node } => {
                fetched.push((node.remote_address.clone(), node.local_path.clone()));
                match site.get(&node.remote_address) {
                    Some(body) => scraper.process_page(body.clone()),
                    None => scraper.page_failed(),
                }
            }
            Action::CreateDirectories { nodes } => {
                scraper.directories_created(&vec![true; nodes.len()])
            }
            Action::Finish => break,
            _ => panic!(),
        };
    }
    assert_eq!(
        fetched,
        vec![
            ("https://site.org/Papers".to_string(), "out/Papers".to_string()),
            ("https://site.org/Papers/New".to_string(), "out/Papers/New".to_string()),
        ]
    );
}

#[test]
fn a_sub_collection_without_its_directory_is_left_out() {
    let mut scraper = scraper();
    let decision = scraper.scrape_with_bfs("https://site.org/", "out");
    assert!(matches!(decision.action, Action::FetchPage { .. }));
    let decision = scraper.process_page(collection(&["A", "B", "C"]));
    match &decision.action {
        Action::CreateDirectories { nodes } => {
            let paths: Vec<&str> = nodes.iter().map(|n| n.local_path.as_str()).collect();
            assert_eq!(paths, vec!["out/A", "out/B", "out/C"]);
        }
        _ => panic!(),
    }
    let decision = scraper.directories_created(&vec![true, false]);
    match &decision.action {
        Action::FetchPage { node } => assert_eq!(node.remote_address, "https://site.org/A"),
        _ => panic!(),
    }
    let decision = scraper.process_page(String::new());
    assert!(matches!(decision.action, Action::Finish));
    assert_eq!(scraper.stats().pages_scraped, 2);
}

#[test]
fn an_answer_that_was_not_asked_for_changes_nothing() {
    let mut scraper = scraper();
    assert!(matches!(scraper.process_page(files(&["/a.zip"])).action, Action::Ignore));
    assert!(matches!(scraper.page_failed().action, Action::Ignore));
    assert!(matches!(scraper.directories_created(&vec![true]).action, Action::Ignore));
    assert!(matches!(
        scraper.batch_finished(&vec![TaskOutcome::Failed]).action,
        Action::Ignore
    ));
    assert_eq!(scraper.stats().errors, 0);
    assert_eq!(scraper.stats().pages_scraped, 0);
    let decision = scraper.scrape_with_bfs("https://site.org/", "out");
    assert!(matches!(decision.action, Action::FetchPage { .. }));
    assert!(matches!(scraper.scrape_with_bfs("https://site.org/x", "out").action, Action::Ignore));
    assert!(matches!(scraper.directories_created(&vec![true]).action, Action::Ignore));
    let decision = scraper.process_page(files(&["/a.zip"]));
    assert!(matches!(decision.action, Action::RunBatch { .. }));
    assert!(matches!(scraper.page_failed().action, Action::Ignore));
    assert!(!scraper.is_finished());
}

#[test]
fn a_report_comes_with_every_tenth_page() {
    let names: Vec<String> = (0..24).map(|i| format!("n{}", i)).collect();
    let refs: Vec<&str> = names.iter().map(|n| n.as_str()).collect();
    let mut scraper = scraper();
    let mut reports = Vec::new();
    let mut note = |decision: &Decision| {
        if let Some(snapshot) = decision.report {
            reports.push(snapshot.pages_scraped);
        }
    };
    let mut decision = scraper.scrape_with_bfs("https://site.org/", "out");
    note(&decision);
    decision = scraper.process_page(collection(&refs));
    note(&decision);
    if let Action::CreateDirectories { nodes } = &decision.action {
        decision = scraper.directories_created(&vec![true; nodes.len()]);
        note(&decision);
    }
    while let Action::FetchPage { .. } = decision.action {
        decision = scraper.page_failed();
        note(&decision);
    }
    assert_eq!(reports, vec![10, 20]);
    assert_eq!(scraper.stats().pages_scraped, 25);
    assert_eq!(scraper.stats().errors, 24);
    assert_eq!(scraper.max_concurrent_scrapes(), 8);
}

#[test]
fn the_frontier_hands_out_each_identity_once() {
    let mut frontier = Frontier::new();
    let mut ledger = VisitedLedger::new();
    assert!(frontier.is_empty());
    for address in ["s/A/C", "s/B/C/", "s/B", "s/A//", "s/D"] {
        frontier.push(FrontierNode {
            remote_address: address.to_string(),
            local_path: "out".to_string(),
        });
    }
    assert_eq!(frontier.len(), 5);
    assert!(ledger.claim("A"));
    let mut taken = Vec::new();
    while let Some(node) = frontier.claim_next(&mut ledger) {
        taken.push(node.remote_address);
    }
    assert_eq!(taken, vec!["s/A/C", "s/B", "s/D"]);
    assert!(frontier.is_empty());
    assert!(ledger.is_claimed("C") && ledger.is_claimed("B") && ledger.is_claimed("D"));
    assert!(frontier.pop().is_none());
}

#[test]
fn a_page_that_is_too_long_is_a_dead_end() {
    let mut scraper = scraper();
    let decision = scraper.scrape_with_bfs("https://site.org/", "out");
    assert!(matches!(decision.action, Action::FetchPage { .. }));
    let body = files(&["/f/a.zip"]) + &" ".repeat(vxug_scraper::page::MAX_PAGE_LENGTH);
    let decision = scraper.process_page(body);
    assert!(matches!(decision.action, Action::Finish));
    assert_eq!(scraper.stats().pages_scraped, 1);
    assert_eq!(scraper.stats().errors, 1);
    assert_eq!(scraper.stats().files_downloaded, 0);
}
