//! Probe outcomes and the per-worker response buffer.
//!
//! A `RequestResponse` is the classified result of one HTTP probe; a
//! `Collector` is the accumulating byte sink that one transport handle
//! reuses across probes.

use vstd::prelude::*;

use crate::strutil::ends_with_slash;
use crate::strutil::spec_with_slash;
use crate::strutil::with_trailing_slash;

verus! {

/// The classified result of one HTTP probe.
///
/// Status code `0` is a reserved sentinel meaning "transport-level
/// failure", never a real HTTP code. `content_len` always reflects the
/// bytes actually received, even on non-2xx codes.
#[derive(Debug, Clone)]
pub struct RequestResponse {
    pub url: String,
    pub code: u32,
    pub content_len: usize,
    pub is_directory: bool,
    pub is_listable: bool,
    pub redirect_url: String,
    pub found_from_listable: bool,
    pub parent_depth: u32,
}

impl RequestResponse {
    /// A listable outcome must be a directory.
    pub open spec fn wf(&self) -> bool {
        self.is_listable ==> self.is_directory
    }
}

impl PartialEq for RequestResponse {
    fn eq(&self, other: &RequestResponse) -> (r: bool) {
        self.url == other.url && self.code == other.code
            && self.content_len == other.content_len
            && self.is_directory == other.is_directory
            && self.is_listable == other.is_listable
            && self.redirect_url == other.redirect_url
            && self.found_from_listable == other.found_from_listable
            && self.parent_depth == other.parent_depth
    }
}

impl vstd::std_specs::cmp::PartialEqSpecImpl for RequestResponse {
    open spec fn obeys_eq_spec() -> bool {
        true
    }

    open spec fn eq_spec(&self, other: &RequestResponse) -> bool {
        self.url@ == other.url@ && self.code == other.code
            && self.content_len == other.content_len
            && self.is_directory == other.is_directory
            && self.is_listable == other.is_listable
            && self.redirect_url@ == other.redirect_url@
            && self.found_from_listable == other.found_from_listable
            && self.parent_depth == other.parent_depth
    }
}

/// Builds the zero-value outcome for a URL: the shape every transport
/// failure takes, and the template the scraper fills in for directory
/// results. `found_from_listable` defaults to true; callers set it
/// explicitly once the outcome is classified.
pub fn fabricate_request_response(url: String, is_directory: bool, is_listable: bool) -> (r:
    RequestResponse)
    ensures
        r.url == url,
        r.code == 0,
        r.content_len == 0,
        r.is_directory == is_directory,
        r.is_listable == is_listable,
        r.redirect_url@ == Seq::<char>::empty(),
        r.found_from_listable == true,
        r.parent_depth == 0,
{
    RequestResponse {
        url,
        code: 0,
        content_len: 0,
        is_directory,
        is_listable,
        redirect_url: String::new(),
        found_from_listable: true,
        parent_depth: 0,
    }
}

/// The accumulating response buffer bound to one transport handle and
/// reused across many probes on the same worker.
pub struct Collector {
    pub contents: Vec<u8>,
    pub content_len: usize,
}

impl Collector {
    /// The recorded length always equals the bytes held since the last
    /// reset.
    pub open spec fn wf(&self) -> bool {
        self.content_len == self.contents@.len()
    }

    pub fn new() -> (r: Collector)
        ensures
            r.wf(),
            r.contents@ == Seq::<u8>::empty(),
    {
        Collector { contents: Vec::new(), content_len: 0 }
    }

    /// Appends one chunk of received bytes; the buffer grows by exactly
    /// the chunk handed in.
    pub fn write(&mut self, data: &[u8]) -> (r: Result<usize, ()>)
        ensures
            final(self).wf(),
            final(self).contents@ == old(self).contents@ + data@,
            r == Ok::<usize, ()>(data@.len() as usize),
    {
        let mut i: usize = 0;
        while i < data.len()
            invariant
                i <= data@.len(),
                self.contents@ == old(self).contents@ + data@.subrange(0, i as int),
            decreases data@.len() - i,
        {
            self.contents.push(data[i]);
            i = i + 1;
            proof {
                assert(self.contents@ == old(self).contents@ + data@.subrange(0, i as int));
            }
        }
        proof {
            assert(data@.subrange(0, data@.len() as int) == data@);
        }
        self.content_len = self.contents.len();
        Ok(data.len())
    }

    /// Resets the buffer for the next probe on this handle.
    pub fn clear_buffer(&mut self)
        ensures
            final(self).wf(),
            final(self).contents@ == Seq::<u8>::empty(),
    {
        self.contents.clear();
        self.content_len = 0;
    }
}

#[verifier::external_type_specification]
#[verifier::external_body]
pub struct ExEasy(curl::easy::Easy);

#[verifier::external_type_specification]
#[verifier::external_body]
pub struct ExList(curl::easy::List);

/// What one transport attempt handed back: the status code, the raw
/// body bytes, and the redirect target (empty when there is none).
pub struct RawFetch {
    pub code: u32,
    pub body: Vec<u8>,
    pub redirect: String,
}

/// Appends a received chunk to a buffer; used as the transport's write
/// callback.
pub(crate) fn push_bytes(dst: &mut Vec<u8>, src: &[u8]) -> (n: usize)
    ensures
        final(dst)@ == old(dst)@ + src@,
        n == src@.len(),
{
    let mut i: usize = 0;
    while i < src.len()
        invariant
            i <= src@.len(),
            dst@ == old(dst)@ + src@.subrange(0, i as int),
        decreases src@.len() - i,
    {
        dst.push(src[i]);
        i = i + 1;
        proof {
            assert(dst@ == old(dst)@ + src@.subrange(0, i as int));
        }
    }
    proof {
        assert(src@.subrange(0, src@.len() as int) == src@);
    }
    src.len()
}

/// Relies on curl::easy::Easy::new: a fresh transport handle.
#[verifier::external_body]
fn easy_new() -> curl::easy::Easy {
    curl::easy::Easy::new()
}

/// Relies on curl::easy::Easy::timeout: caps how long one probe may
/// block.
#[verifier::external_body]
fn set_timeout_secs(easy: &mut curl::easy::Easy, secs: u32) {
    let _ = easy.timeout(std::time::Duration::from_secs(secs as u64));
}

/// Relies on curl::easy::Easy::ssl_verify_peer: disables peer
/// certificate checking.
#[verifier::external_body]
fn ssl_peer_off(easy: &mut curl::easy::Easy) {
    let _ = easy.ssl_verify_peer(false);
}

/// Relies on curl::easy::Easy::ssl_verify_host: disables host name
/// certificate checking.
#[verifier::external_body]
fn ssl_host_off(easy: &mut curl::easy::Easy) {
    let _ = easy.ssl_verify_host(false);
}

/// Relies on curl::easy::Easy::useragent.
#[verifier::external_body]
fn set_useragent(easy: &mut curl::easy::Easy, ua: &str) {
    let _ = easy.useragent(ua);
}

/// Relies on curl::easy::Easy::username.
#[verifier::external_body]
fn set_username(easy: &mut curl::easy::Easy, user: &str) {
    let _ = easy.username(user);
}

/// Relies on curl::easy::Easy::password.
#[verifier::external_body]
fn set_password(easy: &mut curl::easy::Easy, pass: &str) {
    let _ = easy.password(pass);
}

/// Relies on curl::easy::Easy::cookie.
#[verifier::external_body]
fn set_cookie(easy: &mut curl::easy::Easy, cookie: &str) {
    let _ = easy.cookie(cookie);
}

/// Relies on curl::easy::Easy::proxy.
#[verifier::external_body]
fn set_proxy(easy: &mut curl::easy::Easy, proxy: &str) {
    let _ = easy.proxy(proxy);
}

/// Relies on curl::easy::Easy::nobody: issue HEAD requests.
#[verifier::external_body]
fn set_head_method(easy: &mut curl::easy::Easy) {
    let _ = easy.nobody(true);
}

/// Relies on curl::easy::Easy::post: issue POST requests.
#[verifier::external_body]
fn set_post_method(easy: &mut curl::easy::Easy) {
    let _ = easy.post(true);
}

/// Relies on curl::easy::List::new: an empty header list.
#[verifier::external_body]
fn header_list_new() -> curl::easy::List {
    curl::easy::List::new()
}

/// Relies on curl::easy::List::append.
#[verifier::external_body]
fn header_list_append(list: &mut curl::easy::List, header: &str) {
    let _ = list.append(header);
}

/// Relies on curl::easy::Easy::http_headers.
#[verifier::external_body]
fn set_http_headers(easy: &mut curl::easy::Easy, list: curl::easy::List) {
    let _ = easy.http_headers(list);
}

/// Relies on curl::easy::Easy: url, transfer, write_function, perform,
/// response_code and redirect_url, together one transport attempt.
/// `None` is a transport-level failure (DNS, connect, TLS, timeout);
/// otherwise the body bytes were gathered by the write callback and the
/// redirect target is curl's resolved redirect location, if any. What
/// comes back depends on the network, so nothing more is assumed of it.
#[verifier::external_body]
fn transport_fetch(easy: &mut curl::easy::Easy, url: &str) -> (r: Option<RawFetch>) {
    let mut buf: Vec<u8> = Vec::new();
    if easy.url(url).is_err() {
        return None;
    }
    let mut transfer = easy.transfer();
    let ok = transfer.write_function(|d| Ok(push_bytes(&mut buf, d))).is_ok()
        && transfer.perform().is_ok();
    drop(transfer);
    let code = match easy.response_code() {
        Ok(c) if ok => c,
        _ => return None,
    };
    let redirect = easy.redirect_url().ok().flatten().map(String::from).unwrap_or_default();
    Some(RawFetch { code, body: buf, redirect })
}

/// The text a response body decodes to.
pub uninterp spec fn text_of(bytes: Seq<u8>) -> Seq<char>;

/// Relies on String::from_utf8_lossy: the decoded text depends on the
/// bytes alone.
#[verifier::external_body]
pub fn body_text(bytes: &Vec<u8>) -> (r: String)
    ensures
        r@ == text_of(bytes@),
{
    String::from_utf8_lossy(bytes.as_slice()).into_owned()
}

/// One worker's reusable probe state: the configured transport handle
/// and the response buffer bound to it.
pub struct ProbeHandle {
    pub easy: curl::easy::Easy,
    pub collector: Collector,
}

/// Builds one worker's transport handle from the shared configuration:
/// method, timeout, TLS, auth, cookie, header and proxy settings are
/// baked in once and reused for every probe the worker issues.
pub fn generate_easy(opts: &crate::arg_parse::GlobalOpts) -> (r: ProbeHandle)
    ensures
        r.collector.wf(),
        r.collector.contents@ == Seq::<u8>::empty(),
{
    let mut easy = easy_new();
    set_timeout_secs(&mut easy, opts.timeout);
    if opts.ignore_cert {
        ssl_peer_off(&mut easy);
        ssl_host_off(&mut easy);
    }
    match opts.http_verb {
        crate::arg_parse::HttpVerb::Get => {},
        crate::arg_parse::HttpVerb::Head => set_head_method(&mut easy),
        crate::arg_parse::HttpVerb::Post => set_post_method(&mut easy),
    }
    if let Some(ua) = &opts.user_agent {
        set_useragent(&mut easy, ua.as_str());
    }
    if let Some(user) = &opts.username {
        set_username(&mut easy, user.as_str());
    }
    if let Some(pass) = &opts.password {
        set_password(&mut easy, pass.as_str());
    }
    if let Some(cookie) = &opts.cookies {
        set_cookie(&mut easy, cookie.as_str());
    }
    if let Some(headers) = &opts.headers {
        let mut list = header_list_new();
        let mut i: usize = 0;
        while i < headers.len()
            invariant
                i <= headers@.len(),
            decreases headers@.len() - i,
        {
            header_list_append(&mut list, headers[i].as_str());
            i = i + 1;
        }
        set_http_headers(&mut easy, list);
    }
    if opts.proxy_enabled {
        set_proxy(&mut easy, opts.proxy_address.as_str());
    }
    ProbeHandle { easy, collector: Collector::new() }
}

/// A successful fetch that redirects a separator-less URL to its own
/// trailing-slash form announces a directory.
pub open spec fn spec_is_dir_redirect(url: Seq<char>, code: u32, redirect: Seq<char>) -> bool {
    300 <= code < 400 && !(url.len() > 0 && url.last() == '/') && redirect == spec_with_slash(url)
}

/// Turns one raw transport result into the classified outcome: a
/// missing result, and the reserved code 0, are the failure shape;
/// anything else keeps the status and the redirect target, reports the
/// body's length, and is a directory exactly when it redirects the
/// separator-less URL to its canonical trailing-slash form.
pub fn classify_response(url: String, raw: &Option<RawFetch>) -> (r: RequestResponse)
    ensures
        r.url == url,
        r.found_from_listable == false,
        r.is_listable == false,
        r.parent_depth == 0,
        r.wf(),
        raw matches Some(f) ==> (f.code != 0 ==> r.code == f.code && r.redirect_url@ == f.redirect@
            && r.content_len == f.body@.len() && r.is_directory == spec_is_dir_redirect(
            url@,
            f.code,
            f.redirect@,
        )),
        raw matches Some(f) ==> (f.code == 0 ==> r.code == 0 && r.content_len == 0
            && !r.is_directory && r.redirect_url@ == Seq::<char>::empty()),
        raw is None ==> r.code == 0 && r.content_len == 0 && !r.is_directory && r.redirect_url@
            == Seq::<char>::empty(),
{
    match raw {
        None => {
            let mut rr = fabricate_request_response(url, false, false);
            rr.found_from_listable = false;
            rr
        },
        Some(f) => {
            if f.code == 0 {
                let mut rr = fabricate_request_response(url, false, false);
                rr.found_from_listable = false;
                return rr;
            }
            let mut is_directory = false;
            if f.code >= 300 && f.code < 400 && !ends_with_slash(url.as_str()) {
                let canonical = with_trailing_slash(url.as_str());
                if f.redirect == canonical {
                    is_directory = true;
                }
            }
            let content_len = f.body.len();
            RequestResponse {
                url,
                code: f.code,
                content_len,
                is_directory,
                is_listable: false,
                redirect_url: f.redirect.clone(),
                found_from_listable: false,
                parent_depth: 0,
            }
        },
    }
}

/// Issues one probe and classifies the raw result.
///
/// A transport failure comes back as ordinary data: code 0, length 0,
/// no directory or listable flag, no redirect — never a raised fault.
/// On success the buffer holds exactly the received body, and the
/// reported length is the buffered byte count. A response that
/// redirects a separator-less URL to its trailing-slash form marks the
/// outcome as a directory and re-fetches the canonical form, surfacing
/// the re-fetch's body length while keeping the outer redirect code.
pub fn make_request(handle: &mut ProbeHandle, url: String) -> (r: RequestResponse)
    ensures
        final(handle).collector.wf(),
        r.url == url,
        r.found_from_listable == false,
        r.is_listable == false,
        r.parent_depth == 0,
        r.content_len == final(handle).collector.contents@.len(),
        r.code == 0 ==> r.content_len == 0 && !r.is_directory && !r.is_listable
            && r.redirect_url@ == Seq::<char>::empty(),
        r.is_directory ==> 300 <= r.code < 400 && r.redirect_url@ == spec_with_slash(url@) && !(
        url@.len() > 0 && url@.last() == '/'),
        r.wf(),
{
    handle.collector.clear_buffer();
    let raw = transport_fetch(&mut handle.easy, url.as_str());
    let mut outcome = classify_response(url, &raw);
    if let Some(f) = &raw {
        if f.code != 0 {
            let _ = handle.collector.write(f.body.as_slice());
        }
    }
    if outcome.is_directory {
        let canonical = with_trailing_slash(outcome.url.as_str());
        handle.collector.clear_buffer();
        match transport_fetch(&mut handle.easy, canonical.as_str()) {
            Some(raw2) => {
                let _ = handle.collector.write(raw2.body.as_slice());
                outcome.content_len = handle.collector.content_len;
            },
            None => {
                outcome.content_len = 0;
            },
        }
    }
    outcome
}

} // verus!
