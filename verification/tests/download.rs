use vxug_scraper::download::{
    choose_transport, control_record_uri, effective_concurrency, external_download_args,
    external_resume_args, is_control_file, plan_transfer, record_batch, record_outcome,
    resume_request, shows_progress, Plan, TaskOutcome, TransferSettings, Transport,
};
use vxug_scraper::stats::{ScrapingStats, StatsSnapshot};

const DIRECT: TransferSettings = TransferSettings { use_external: false, external_threshold: 0 };
const EXTERNAL: TransferSettings = TransferSettings { use_external: true, external_threshold: 0 };
const ABOVE_1000: TransferSettings =
    TransferSettings { use_external: true, external_threshold: 1000 };

#[test]
fn an_existing_file_without_control_record_is_skipped() {
    assert_eq!(plan_transfer(DIRECT, true, false), Plan::Skip);
    assert_eq!(plan_transfer(EXTERNAL, true, false), Plan::Skip);
    assert_eq!(plan_transfer(ABOVE_1000, true, false), Plan::Skip);
}

#[test]
fn a_control_record_counts_only_with_the_external_manager() {
    assert_eq!(plan_transfer(DIRECT, true, true), Plan::Skip);
    assert_eq!(plan_transfer(DIRECT, false, true), Plan::Transfer { transport: Transport::Direct, resuming: false });
    assert_eq!(plan_transfer(EXTERNAL, true, true), Plan::Transfer { transport: Transport::External, resuming: true });
    assert_eq!(plan_transfer(EXTERNAL, false, true), Plan::Transfer { transport: Transport::External, resuming: true });
    assert_eq!(plan_transfer(ABOVE_1000, false, true), Plan::Transfer { transport: Transport::External, resuming: true });
}

#[test]
fn a_missing_file_is_fetched() {
    assert_eq!(plan_transfer(DIRECT, false, false), Plan::Transfer { transport: Transport::Direct, resuming: false });
    assert_eq!(plan_transfer(EXTERNAL, false, false), Plan::Transfer { transport: Transport::External, resuming: false });
    assert_eq!(plan_transfer(ABOVE_1000, false, false), Plan::ProbeSize);
}

#[test]
fn the_external_manager_gets_what_is_above_the_threshold() {
    assert_eq!(choose_transport(1000, Some("1001")), Transport::External);
    assert_eq!(choose_transport(1000, Some("1000")), Transport::Direct);
    assert_eq!(choose_transport(1000, Some("0")), Transport::Direct);
    assert_eq!(choose_transport(1000, Some("many")), Transport::Direct);
    assert_eq!(choose_transport(1000, Some("")), Transport::Direct);
    assert_eq!(choose_transport(1000, Some("99999999999999999999999")), Transport::Direct);
    assert_eq!(choose_transport(1000, None), Transport::Direct);
    assert_eq!(choose_transport(u64::MAX, Some("18446744073709551615")), Transport::Direct);
}

#[test]
fn progress_is_shown_above_fifty_mebibytes() {
    assert!(!shows_progress(None));
    assert!(!shows_progress(Some(0)));
    assert!(!shows_progress(Some(50 * 1024 * 1024)));
    assert!(shows_progress(Some(50 * 1024 * 1024 + 1)));
}

#[test]
fn zero_concurrency_means_all_at_once() {
    assert_eq!(effective_concurrency(0, 7), 7);
    assert_eq!(effective_concurrency(0, 0), 0);
    assert_eq!(effective_concurrency(3, 7), 3);
    assert_eq!(effective_concurrency(12, 7), 12);
}

#[test]
fn download_arguments_end_with_the_address() {
    assert_eq!(
        external_download_args("Downloads/Papers", "a.zip", "http://x/a.zip", None),
        vec![
            "-c", "--auto-file-renaming=false", "-d", "Downloads/Papers", "-o", "a.zip", "-x",
            "4", "-s", "4", "http://x/a.zip"
        ]
    );
    assert_eq!(
        external_download_args("d", "n", "u", Some("  --max-tries=2\t-q ")),
        vec!["-c", "--auto-file-renaming=false", "-d", "d", "-o", "n", "--max-tries=2", "-q", "u"]
    );
    assert_eq!(
        external_download_args("d", "n", "u", Some("")),
        vec!["-c", "--auto-file-renaming=false", "-d", "d", "-o", "n", "u"]
    );
}

#[test]
fn resume_arguments_put_the_options_last() {
    assert_eq!(
        external_resume_args("d", "n", "u", None),
        vec!["-c", "--auto-file-renaming=false", "-d", "d", "-o", "n", "u"]
    );
    assert_eq!(
        external_resume_args("d", "n", "u", Some("-x 8")),
        vec!["-c", "--auto-file-renaming=false", "-d", "d", "-o", "n", "u", "-x", "8"]
    );
}

#[test]
fn the_first_uri_line_names_the_source() {
    assert_eq!(control_record_uri("uri=http://x/y.zip"), Some("http://x/y.zip".to_string()));
    assert_eq!(
        control_record_uri("version=1\r\nuri=http://x/y.zip\r\nuri=http://other\r\n"),
        Some("http://x/y.zip".to_string())
    );
    assert_eq!(control_record_uri("uri="), Some(String::new()));
    assert_eq!(control_record_uri(" uri=http://x"), None);
    assert_eq!(control_record_uri("URI=http://x"), None);
    assert_eq!(control_record_uri("ur\ni=http://x"), None);
    assert_eq!(control_record_uri(""), None);
}

#[test]
fn control_records_are_known_by_their_extension() {
    assert!(is_control_file("Downloads/Papers/a.zip.aria2"));
    assert!(is_control_file("a.aria2"));
    assert!(is_control_file("..aria2"));
    assert!(!is_control_file(".aria2"));
    assert!(!is_control_file("dir/.aria2"));
    assert!(!is_control_file("a.aria2/b.zip"));
    assert!(!is_control_file("a.aria"));
    assert!(!is_control_file("a.ARIA2"));
    assert!(!is_control_file(""));
    for path in ["x/y.aria2", "y.zip", ".aria2", "a.b.aria2", "aria2", "d.aria2/f"] {
        let expected =
            std::path::Path::new(path).extension().map(|e| e == "aria2").unwrap_or(false);
        assert_eq!(is_control_file(path), expected, "{}", path);
    }
}

#[test]
fn a_control_record_alone_gives_the_request_to_resume() {
    let request =
        resume_request("Downloads/Papers/y.zip.aria2", "uri=http://x/y.zip\n", None).unwrap();
    assert_eq!(request.url, "http://x/y.zip");
    assert_eq!(request.file_name, "y.zip");
    assert_eq!(request.directory, "Downloads/Papers");
    assert_eq!(
        request.args,
        vec![
            "-c", "--auto-file-renaming=false", "-d", "Downloads/Papers", "-o", "y.zip",
            "http://x/y.zip"
        ]
    );
}

#[test]
fn the_directory_of_a_resumed_file_is_what_stands_before_its_name() {
    let request = resume_request("y.zip.aria2", "uri=u", Some("-x 2")).unwrap();
    assert_eq!(request.directory, "");
    assert_eq!(request.file_name, "y.zip");
    assert_eq!(request.args.last().unwrap(), "2");
    let request = resume_request("/y.zip.aria2", "uri=u", None).unwrap();
    assert_eq!(request.directory, "/");
    let request = resume_request("a//y.aria2", "uri=u", None).unwrap();
    assert_eq!(request.directory, "a");
    assert_eq!(request.file_name, "y");
    for path in ["d/e/f.bin.aria2", "f.aria2", "/f.aria2", "/d/f.aria2", "a//f.x.aria2"] {
        let request = resume_request(path, "uri=u", None).unwrap();
        let mut target = std::path::PathBuf::from(path);
        target.set_extension("");
        assert_eq!(request.file_name, target.file_name().unwrap().to_str().unwrap());
        assert_eq!(request.directory, target.parent().unwrap().to_str().unwrap());
    }
}

#[test]
fn there_is_no_request_without_an_address_or_a_control_record() {
    assert!(resume_request("d/y.zip.aria2", "version=1\n", None).is_none());
    assert!(resume_request("d/y.zip.aria2", "", None).is_none());
    assert!(resume_request("d/y.zip", "uri=http://x/y.zip", None).is_none());
}

#[test]
fn each_outcome_is_counted_for_what_it_is() {
    let mut stats = ScrapingStats::new();
    record_outcome(&mut stats, TaskOutcome::Downloaded { bytes: 10 });
    record_outcome(&mut stats, TaskOutcome::Skipped);
    record_outcome(&mut stats, TaskOutcome::Failed);
    assert_eq!(
        stats.snapshot(),
        StatsSnapshot { pages_scraped: 0, files_downloaded: 1, bytes_downloaded: 10, errors: 1 }
    );
}

#[test]
fn one_failure_in_a_batch_leaves_the_others_counted() {
    let mut stats = ScrapingStats::new();
    let outcomes = vec![
        TaskOutcome::Downloaded { bytes: 100 },
        TaskOutcome::Failed,
        TaskOutcome::Downloaded { bytes: 20 },
        TaskOutcome::Downloaded { bytes: 3 },
        TaskOutcome::Skipped,
    ];
    record_batch(&mut stats, &outcomes);
    assert_eq!(
        stats.snapshot(),
        StatsSnapshot { pages_scraped: 0, files_downloaded: 3, bytes_downloaded: 123, errors: 1 }
    );
    record_batch(&mut stats, &Vec::new());
    assert_eq!(stats.snapshot().files_downloaded, 3);
}
