use dirble::arg_parse::create_globalopts;
use dirble::orchestrator::generate_jobs;
use dirble::request::RawFetch;
use dirble::request::classify_response;
use dirble::orchestrator::should_expand;
use dirble::orchestrator::should_report;
use dirble::request::fabricate_request_response;
use dirble::request::generate_easy;
use dirble::request::make_request;
use dirble::scrape::extract_links;
use dirble::scrape::is_listing_body;
use dirble::scrape::listable_check;
use dirble::validator_thread::ValidatorReply;
use dirble::validator_thread::determine_not_found;
use dirble::validator_thread::validator_step;

// Nothing listens on this port; every probe against it is a transport
// failure, which the pipeline treats as ordinary data.
const DEAD_HOST: &str = "http://127.0.0.1:1";

#[test]
fn transport_failure_is_a_normal_outcome() {
    let options = create_globalopts();
    let mut handle = generate_easy(&options);

    let url = String::from(DEAD_HOST) + "/somewhere";
    let outcome = make_request(&mut handle, url.clone());

    assert_eq!(outcome.code, 0);
    assert_eq!(outcome.content_len, 0);
    assert!(!outcome.is_directory);
    assert!(!outcome.is_listable);
    assert_eq!(outcome.redirect_url, "");
    assert_eq!(outcome.url, url);
    assert!(!outcome.found_from_listable);
}

#[test]
fn scrape_of_unreachable_directory_degrades_to_one_outcome() {
    let options = create_globalopts();
    let mut handle = generate_easy(&options);

    let url = String::from(DEAD_HOST) + "/dir";
    let outcomes = listable_check(&mut handle, url.clone(), Some(2), 0, true);

    assert_eq!(outcomes.len(), 1);
    assert_eq!(outcomes[0].url, url + "/");
    assert_eq!(outcomes[0].code, 0);
    assert!(outcomes[0].is_directory);
    assert!(!outcomes[0].is_listable);
    assert!(!outcomes[0].found_from_listable);
}

#[test]
fn validator_skips_a_directory_that_only_fails() {
    let options = create_globalopts();
    let mut handle = generate_easy(&options);

    let mut dir = fabricate_request_response(String::from(DEAD_HOST) + "/dir/", true, false);
    dir.code = 200;

    // all three samples fail at the transport level: the directory is
    // abandoned, not approved
    let reply = validator_step(&mut handle, dir, &options);
    assert!(matches!(reply, ValidatorReply::SendSkip));
}

#[test]
fn classification_of_a_missing_result_is_the_failure_shape() {
    let outcome = classify_response(String::from("http://host/a"), &None);
    assert_eq!(outcome.url, "http://host/a");
    assert_eq!(outcome.code, 0);
    assert_eq!(outcome.content_len, 0);
    assert!(!outcome.is_directory);
    assert!(!outcome.is_listable);
    assert_eq!(outcome.redirect_url, "");
    assert!(!outcome.found_from_listable);
}

#[test]
fn classification_treats_code_zero_as_failure() {
    let raw = Some(RawFetch { code: 0, body: vec![1, 2, 3], redirect: String::from("x") });
    let outcome = classify_response(String::from("http://host/a"), &raw);
    assert_eq!(outcome.code, 0);
    assert_eq!(outcome.content_len, 0);
    assert!(!outcome.is_directory);
    assert_eq!(outcome.redirect_url, "");
}

#[test]
fn classification_keeps_code_length_and_redirect() {
    let raw = Some(RawFetch { code: 200, body: vec![7; 42], redirect: String::new() });
    let outcome = classify_response(String::from("http://host/a"), &raw);
    assert_eq!(outcome.code, 200);
    assert_eq!(outcome.content_len, 42);
    assert!(!outcome.is_directory);
    assert_eq!(outcome.redirect_url, "");
}

#[test]
fn classification_marks_the_canonical_redirect_as_a_directory() {
    let raw = Some(RawFetch {
        code: 301,
        body: Vec::new(),
        redirect: String::from("http://host/a/"),
    });
    let outcome = classify_response(String::from("http://host/a"), &raw);
    assert_eq!(outcome.code, 301);
    assert!(outcome.is_directory);
    assert_eq!(outcome.redirect_url, "http://host/a/");
}

#[test]
fn classification_ignores_redirects_to_other_places() {
    let raw = Some(RawFetch {
        code: 302,
        body: Vec::new(),
        redirect: String::from("http://elsewhere/b"),
    });
    let outcome = classify_response(String::from("http://host/a"), &raw);
    assert_eq!(outcome.code, 302);
    assert!(!outcome.is_directory);

    // a URL already in canonical form is not re-marked
    let raw = Some(RawFetch {
        code: 301,
        body: Vec::new(),
        redirect: String::from("http://host/a/"),
    });
    let outcome = classify_response(String::from("http://host/a/"), &raw);
    assert!(!outcome.is_directory);
}

#[test]
fn end_to_end_soft_404_filtering_finds_the_hidden_directory() {
    // a wordlist of one entry against a server that answers 404 for
    // everything except /admin/, whose listing links to /admin/secret/;
    // the transport exchanges are played back here as data
    let server = "http://host";
    let wordlist = vec![String::from("admin")];
    let prefixes = vec![String::from("")];
    let extensions = vec![String::from("")];

    let jobs = generate_jobs(server, &wordlist, &prefixes, &extensions);
    assert_eq!(jobs, vec!["http://host/admin"]);

    // the probe for /admin redirects to its canonical form: a directory
    let mut admin = fabricate_request_response(jobs[0].clone(), true, false);
    admin.code = 301;
    admin.found_from_listable = false;

    // the validator's three samples under /admin/ all land on the soft
    // 404 page of this server, with the protocol-level 404 code
    let sample = |len: usize| {
        let mut r = fabricate_request_response(String::from("http://host/admin/x"), false, false);
        r.code = 404;
        r.content_len = len;
        r
    };
    let baseline = determine_not_found(vec![sample(9), sample(9), sample(9)]).unwrap();
    assert_eq!(baseline.response_code, 404);
    assert_eq!(baseline.response_len, None);
    let baseline = Some(baseline);

    // recursion into the validated directory is within the bound
    assert!(should_expand(admin.parent_depth, &Some(2)));

    // the directory's body is an auto-generated listing naming secret/
    let listing = " parent directory <a href=\"/admin/secret/\">";
    assert!(is_listing_body(listing));
    let children = extract_links(listing, "http://host/admin/");
    assert_eq!(children, vec!["http://host/admin/secret/"]);

    // what the scan forwards: the opened directory, its child, and the
    // baseline-matching wordlist probe under it
    let mut secret = fabricate_request_response(children[0].clone(), true, false);
    secret.code = 200;
    secret.content_len = 15;

    let mut child_probe = fabricate_request_response(String::from("http://host/admin/admin"),
        false, false);
    child_probe.code = 404;
    child_probe.content_len = 9;

    let mut findings: Vec<String> = Vec::new();
    for outcome in [&admin, &secret, &child_probe] {
        if should_report(&baseline, outcome) {
            findings.push(outcome.url.clone());
        }
    }

    // the hidden directory is found; the soft-404 noise is not
    assert_eq!(findings, vec!["http://host/admin", "http://host/admin/secret/"]);
}
