//! The shared scan configuration.
//!
//! Constructed once before scanning starts and then only read, by every
//! worker and by the validator.

use vstd::prelude::*;

verus! {

/// The HTTP method every probe is issued with.
#[derive(Clone, Copy, Debug, PartialEq, Eq, Structural)]
pub enum HttpVerb {
    Get,
    Head,
    Post,
}

/// Which inconclusive status codes still get scanned as directories.
#[derive(Clone, Copy, Debug, PartialEq, Eq, Structural)]
pub struct ScanOpts {
    pub scan_401: bool,
    pub scan_403: bool,
}

/// Immutable scan-wide settings, shared read-only by all workers.
#[derive(Debug)]
pub struct GlobalOpts {
    pub hostnames: Vec<String>,
    pub wordlist_files: Vec<String>,
    pub prefixes: Vec<String>,
    pub extensions: Vec<String>,
    pub max_threads: u32,
    pub proxy_enabled: bool,
    pub proxy_address: String,
    pub proxy_auth_enabled: bool,
    pub ignore_cert: bool,
    pub show_htaccess: bool,
    pub throttle: u32,
    pub max_recursion_depth: Option<u32>,
    pub user_agent: Option<String>,
    pub username: Option<String>,
    pub password: Option<String>,
    pub output_file: Option<String>,
    pub json_file: Option<String>,
    pub xml_file: Option<String>,
    pub verbose: bool,
    pub silent: bool,
    pub timeout: u32,
    pub max_errors: u32,
    pub wordlist_split: u32,
    pub scan_listable: bool,
    pub cookies: Option<String>,
    pub headers: Option<Vec<String>>,
    pub scrape_listable: bool,
    pub whitelist: bool,
    pub code_list: Vec<u32>,
    pub is_terminal: bool,
    pub no_color: bool,
    pub disable_validator: bool,
    pub http_verb: HttpVerb,
    pub scan_opts: ScanOpts,
}

/// Builds the default configuration: one worker, a five second timeout,
/// an error budget of five, recursion bounded at two levels, every
/// optional transport setting off.
pub fn create_globalopts() -> (r: GlobalOpts)
    ensures
        r.hostnames@ == Seq::<String>::empty(),
        r.wordlist_files@ == Seq::<String>::empty(),
        r.prefixes@ == Seq::<String>::empty(),
        r.extensions@ == Seq::<String>::empty(),
        r.max_threads == 1,
        r.proxy_enabled == false,
        r.proxy_address@ == Seq::<char>::empty(),
        r.proxy_auth_enabled == false,
        r.ignore_cert == false,
        r.show_htaccess == false,
        r.throttle == 0,
        r.max_recursion_depth == Some(2u32),
        r.user_agent is None,
        r.username is None,
        r.password is None,
        r.output_file is None,
        r.json_file is None,
        r.xml_file is None,
        r.verbose == false,
        r.silent == false,
        r.timeout == 5,
        r.max_errors == 5,
        r.wordlist_split == 3,
        r.scan_listable == false,
        r.cookies is None,
        r.headers is None,
        r.scrape_listable == false,
        r.whitelist == false,
        r.code_list@ == Seq::<u32>::empty(),
        r.is_terminal == false,
        r.no_color == false,
        r.disable_validator == false,
        r.http_verb == HttpVerb::Get,
        r.scan_opts == (ScanOpts { scan_401: false, scan_403: false }),
{
    GlobalOpts {
        hostnames: Vec::new(),
        wordlist_files: Vec::new(),
        prefixes: Vec::new(),
        extensions: Vec::new(),
        max_threads: 1,
        proxy_enabled: false,
        proxy_address: String::new(),
        proxy_auth_enabled: false,
        ignore_cert: false,
        show_htaccess: false,
        throttle: 0,
        max_recursion_depth: Some(2),
        user_agent: None,
        username: None,
        password: None,
        output_file: None,
        json_file: None,
        xml_file: None,
        verbose: false,
        silent: false,
        timeout: 5,
        max_errors: 5,
        wordlist_split: 3,
        scan_listable: false,
        cookies: None,
        headers: None,
        scrape_listable: false,
        whitelist: false,
        code_list: Vec::new(),
        is_terminal: false,
        no_color: false,
        disable_validator: false,
        http_verb: HttpVerb::Get,
        scan_opts: ScanOpts { scan_401: false, scan_403: false },
    }
}

} // verus!
