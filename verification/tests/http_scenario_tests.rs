use mockito::Matcher;
use mockito::mock;

use dirble::arg_parse::create_globalopts;
use dirble::orchestrator::generate_jobs;
use dirble::orchestrator::should_expand;
use dirble::orchestrator::should_report;
use dirble::request::generate_easy;
use dirble::request::make_request;
use dirble::scrape::listable_check;
use dirble::validator_thread::ValidatorReply;
use dirble::validator_thread::validator_step;

/// Some environments forbid binding a local socket, so the mock server
/// cannot start and nothing HTTP-backed can be observed; such a test
/// has nothing to check. Everywhere else the probe reaches the server
/// and the tests run in full.
fn mock_server_unreachable() -> bool {
    let options = create_globalopts();
    let mut handle = generate_easy(&options);
    let probe = make_request(&mut handle, mockito::server_url());
    if probe.code == 0 {
        println!("skipping: the mock server is unreachable in this environment");
        true
    } else {
        false
    }
}

#[test]
fn scrape_depth_bound_over_http() {
    if mock_server_unreachable() {
        return;
    }

    let url: String = mockito::server_url().clone() + "/chain/";

    let body1 = " parent directory <a href=\"/chain/dir1/\">";
    let body2 = " parent directory <a href=\"/chain/dir1/dir2/\">";
    let body3 = " parent directory <a href=\"/chain/dir1/dir2/file\">";

    let m1 = mock("GET", "/chain/").with_status(200).with_body(body1).create();
    let m2 = mock("GET", "/chain/dir1/").with_status(200).with_body(body2).create();
    let m3 = mock("GET", "/chain/dir1/dir2/").with_status(200).with_body(body3).create();
    let m4 = mock("GET", "/chain/dir1/dir2/file").with_status(200).expect(0).create();

    let options = create_globalopts();
    let mut handle = generate_easy(&options);

    let result = listable_check(&mut handle, url.clone(), Some(2), 0, true);

    // the chain's head and dir1 are fetched and scraped; dir2 is fetched
    // but returned unexpanded, so the probe for dir2/file never occurs
    m1.assert();
    m2.assert();
    m3.assert();
    m4.assert();

    assert_eq!(result.len(), 3);
    assert_eq!(result[0].url, url.clone());
    assert_eq!(result[1].url, url.clone() + "dir1/");
    assert_eq!(result[2].url, url.clone() + "dir1/dir2/");
    assert!(result[2].is_directory);
    assert_eq!(result[0].parent_depth, 0);
    assert_eq!(result[1].parent_depth, 1);
    assert!(!result[0].found_from_listable);
    assert!(result[1].found_from_listable);
    assert!(result[2].found_from_listable);
}

#[test]
fn redirect_refetch_over_http() {
    if mock_server_unreachable() {
        return;
    }

    let mut url: String = mockito::server_url().clone();
    url.push_str("/reddir");
    let canonical = url.clone() + "/";

    let m1 = mock("GET", "/reddir")
        .with_status(301)
        .with_header("Location", &canonical)
        .create();
    let m2 = mock("GET", "/reddir/").with_status(200).with_body("hello body").create();

    let options = create_globalopts();
    let mut handle = generate_easy(&options);

    let result = make_request(&mut handle, url.clone());

    m1.assert();
    m2.assert();

    // outer redirect code kept, re-fetched body length surfaced
    assert_eq!(result.code, 301);
    assert!(result.is_directory);
    assert_eq!(result.content_len, "hello body".len());
    assert_eq!(result.redirect_url, canonical);
    assert_eq!(result.url, url);
}

#[test]
fn soft_404_end_to_end_over_http() {
    if mock_server_unreachable() {
        return;
    }

    let server: String = mockito::server_url().clone();
    let admin_dir = server.clone() + "/admin/";

    let listing = " parent directory <a href=\"/admin/secret/\">";

    // specific mocks first: among matching mocks that still expect hits,
    // the earliest created one answers
    let m_admin = mock("GET", "/admin")
        .with_status(301)
        .with_header("Location", &admin_dir)
        .expect_at_least(1)
        .expect_at_most(1000)
        .create();
    let m_dir = mock("GET", "/admin/")
        .with_status(200)
        .with_body(listing)
        .expect_at_least(1)
        .expect_at_most(1000)
        .create();
    let m_secret = mock("GET", "/admin/secret/")
        .with_status(200)
        .with_body("files live here")
        .expect_at_least(1)
        .expect_at_most(1000)
        .create();
    // everything else on this server is a plain 404
    let _m_rest = mock("GET", Matcher::Any)
        .with_status(404)
        .with_body("not found")
        .expect_at_most(100000)
        .create();

    let options = create_globalopts();
    let mut handle = generate_easy(&options);

    // one wordlist entry against the target
    let wordlist = vec![String::from("admin")];
    let prefixes = vec![String::from("")];
    let extensions = vec![String::from("")];
    let jobs = generate_jobs(&server, &wordlist, &prefixes, &extensions);
    assert_eq!(jobs.len(), 1);

    let probe = make_request(&mut handle, jobs[0].clone());
    assert_eq!(probe.code, 301);
    assert!(probe.is_directory);

    // the validator samples three nonexistent paths, which land on 404
    let reply = validator_step(&mut handle, probe.clone(), &options);
    let info = match reply {
        ValidatorReply::Send(d) => d,
        _ => panic!("the directory should have been validated"),
    };
    let baseline = info.validator.clone().expect("a baseline should have been derived");
    assert_eq!(baseline.response_code, 404);
    assert_eq!(baseline.response_len, None);

    // recursion into the validated directory
    assert!(should_expand(info.parent_depth, &options.max_recursion_depth));

    let mut findings: Vec<String> = Vec::new();

    // the directory itself is listable and is scraped
    let outcomes = listable_check(&mut handle, info.url.clone(), Some(2), 1, true);
    for outcome in &outcomes {
        if should_report(&info.validator, outcome) {
            findings.push(outcome.url.clone());
        }
    }

    // a fresh wordlist pass under the directory only hits the baseline
    let child_jobs = generate_jobs(&info.url, &wordlist, &prefixes, &extensions);
    for job in &child_jobs {
        let outcome = make_request(&mut handle, job.clone());
        assert_eq!(outcome.code, 404);
        assert!(!should_report(&info.validator, &outcome));
    }

    m_admin.assert();
    m_dir.assert();
    m_secret.assert();

    let secret_url = server.clone() + "/admin/secret/";
    assert!(findings.iter().any(|u| u == &secret_url));
    assert!(findings.iter().all(|u| !u.ends_with("/admin/admin")));
}
