use dirble::orchestrator::ErrorBudget;
use dirble::orchestrator::ScanState;
use dirble::orchestrator::generate_jobs;
use dirble::orchestrator::should_expand;
use dirble::orchestrator::should_report;
use dirble::request::fabricate_request_response;
use dirble::scrape::extract_links;
use dirble::scrape::extract_targets;
use dirble::scrape::is_listing_body;
use dirble::validator_thread::TargetValidator;

#[test]
fn jobs_are_the_cartesian_combination() {
    let wordlist = vec![String::from("admin"), String::from("backup")];
    let prefixes = vec![String::from(""), String::from(".")];
    let extensions = vec![String::from(""), String::from(".php")];
    let jobs = generate_jobs("http://host", &wordlist, &prefixes, &extensions);
    let expected = vec![
        "http://host/admin",
        "http://host/admin.php",
        "http://host/.admin",
        "http://host/.admin.php",
        "http://host/backup",
        "http://host/backup.php",
        "http://host/.backup",
        "http://host/.backup.php",
    ];
    assert_eq!(jobs, expected);
}

#[test]
fn jobs_reuse_an_existing_separator() {
    let wordlist = vec![String::from("w")];
    let prefixes = vec![String::from("")];
    let extensions = vec![String::from("")];
    let jobs = generate_jobs("http://host/dir/", &wordlist, &prefixes, &extensions);
    assert_eq!(jobs, vec!["http://host/dir/w"]);
}

#[test]
fn empty_wordlist_generates_no_jobs() {
    let wordlist: Vec<String> = Vec::new();
    let prefixes = vec![String::from("")];
    let extensions = vec![String::from("")];
    let jobs = generate_jobs("http://host", &wordlist, &prefixes, &extensions);
    assert!(jobs.is_empty());
}

#[test]
fn expansion_respects_the_depth_bound() {
    assert!(should_expand(0, &None));
    assert!(should_expand(1000, &None));
    assert!(should_expand(0, &Some(2)));
    assert!(should_expand(1, &Some(2)));
    assert!(!should_expand(2, &Some(2)));
    assert!(!should_expand(7, &Some(2)));
}

#[test]
fn unfiltered_directories_report_everything() {
    let mut r = fabricate_request_response(String::from("http://h/x"), false, false);
    r.code = 404;
    assert!(should_report(&None, &r));
}

#[test]
fn baseline_filters_matching_outcomes_only() {
    let baseline = Some(TargetValidator::new(404, None));
    let mut not_found = fabricate_request_response(String::from("http://h/x"), false, false);
    not_found.code = 404;
    let mut found = fabricate_request_response(String::from("http://h/y"), false, false);
    found.code = 200;
    assert!(!should_report(&baseline, &not_found));
    assert!(should_report(&baseline, &found));
}

#[test]
fn error_budget_abandons_after_the_limit() {
    let mut budget = ErrorBudget::new(2);
    assert!(!budget.record_failure());
    assert!(!budget.record_failure());
    assert!(budget.record_failure());
    budget.record_success();
    assert!(!budget.record_failure());
}

#[test]
fn scan_completes_when_workers_and_validations_drain() {
    let mut state = ScanState::new(2);
    assert!(!state.scan_complete());
    state.validation_requested();
    state.worker_done();
    state.worker_done();
    assert!(!state.scan_complete());
    state.validation_answered();
    assert!(state.scan_complete());
}

#[test]
fn listing_markers_are_recognised() {
    assert!(is_listing_body(" parent directory <a href=\"x\">"));
    assert!(is_listing_body("<title>Index of /files</title>"));
    assert!(!is_listing_body("no match"));
    assert!(!is_listing_body(""));
}

#[test]
fn targets_are_extracted_in_order() {
    let body = "<a href=\"one\"> text <a href=\"two/\"><img src=x>";
    let targets = extract_targets(body);
    assert_eq!(targets, vec!["one", "two/"]);
}

#[test]
fn unterminated_target_is_dropped() {
    let body = "<a href=\"one\"> tail href=\"never-closed";
    let targets = extract_targets(body);
    assert_eq!(targets, vec!["one"]);
}

#[test]
fn only_direct_descendants_are_kept() {
    let base = "http://h:1/dir/";
    // the second link names another host and is discarded even though
    // its path would extend the base's path
    let body = "<a href=\"http://h:1/dir/child/\">\
        <a href=\"http://other:9/dir/kid/\">\
        <a href=\"http://h:1/dir/deep/er/\">\
        <a href=\"/dir/leaf\">\
        <a href=\"/otherdir/x\">\
        <a href=\"plain\">\
        <a href=\"sub/dir\">\
        <a href=\"../\">\
        <a href=\"./\">\
        <a href=\"..\">\
        <a href=\"\">";
    let links = extract_links(body, base);
    assert_eq!(
        links,
        vec!["http://h:1/dir/child/", "http://h:1/dir/leaf", "http://h:1/dir/plain"]
    );
}
