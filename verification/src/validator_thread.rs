//! The soft-404 validator.
//!
//! Servers that answer every nonexistent path with the same page would
//! pollute results; the validator samples a few random paths under each
//! discovered directory, derives the directory's "not found" baseline,
//! and outcomes matching that baseline are filtered out downstream.

use vstd::prelude::*;

use rand::Rng;

use crate::arg_parse::GlobalOpts;
use crate::request::ProbeHandle;
use crate::request::RequestResponse;
use crate::request::make_request;
use crate::strutil::spec_decimal;
use crate::strutil::spec_with_slash;
use crate::strutil::decimal_string;
use crate::strutil::with_trailing_slash;

verus! {

/// Message from the validator back to the orchestrator: a directory to
/// scan, with its baseline (`None` means scan unfiltered).
pub struct DirectoryInfo {
    pub url: String,
    pub validator: Option<TargetValidator>,
    pub parent_depth: u32,
}

impl DirectoryInfo {
    pub fn new(url: String, validator: Option<TargetValidator>, parent_depth: u32) -> (r:
        DirectoryInfo)
        ensures
            r.url == url,
            r.validator == validator,
            r.parent_depth == parent_depth,
    {
        DirectoryInfo { url, validator, parent_depth }
    }

    /// The distinguished value that tells the orchestrator one request
    /// worker completed normally.
    pub fn generate_end() -> (r: DirectoryInfo)
        ensures
            r.url@ == "END"@,
            r.validator is None,
            r.parent_depth == 0,
    {
        DirectoryInfo { url: String::from_str("END"), validator: None, parent_depth: 0 }
    }
}

/// A directory's "not found" baseline: the status code, and optionally
/// the body length, that nonexistent paths under it are expected to
/// produce.
#[derive(Clone)]
pub struct TargetValidator {
    pub response_code: u32,
    pub response_len: Option<usize>,
}

/// An outcome matches the baseline when its code matches and, if the
/// baseline fixes a length, the lengths match too.
pub open spec fn spec_is_not_found(v: TargetValidator, response: RequestResponse) -> bool {
    v.response_code == response.code && match v.response_len {
        Some(size) => size == response.content_len,
        None => true,
    }
}

/// The compact rendering of a baseline, `(CODE:404)` or
/// `(CODE:200|SIZE:1234)`.
pub open spec fn spec_summary(v: TargetValidator) -> Seq<char> {
    match v.response_len {
        Some(size) => "(CODE:"@ + spec_decimal(v.response_code as nat) + "|SIZE:"@ + spec_decimal(
            size as nat,
        ) + ")"@,
        None => "(CODE:"@ + spec_decimal(v.response_code as nat) + ")"@,
    }
}

impl TargetValidator {
    pub fn new(response_code: u32, response_len: Option<usize>) -> (r: TargetValidator)
        ensures
            r.response_code == response_code,
            r.response_len == response_len,
    {
        TargetValidator { response_code, response_len }
    }

    /// True exactly when the given outcome matches this baseline, i.e.
    /// when the probed path should be treated as not found.
    pub fn is_not_found(&self, response: &RequestResponse) -> (r: bool)
        ensures
            r == spec_is_not_found(*self, *response),
    {
        if !(self.response_code == response.code) {
            return false;
        }
        match self.response_len {
            Some(size) => size == response.content_len,
            None => true,
        }
    }

    /// A human-readable summary of this baseline.
    pub fn summary_text(&self) -> (r: String)
        ensures
            r@ == spec_summary(*self),
    {
        let code_text = decimal_string(self.response_code as u64);
        let open_text = String::from_str("(CODE:");
        let head = open_text.concat(code_text.as_str());
        match self.response_len {
            Some(size) => {
                let size_text = decimal_string(size as u64);
                let mid = head.concat("|SIZE:");
                let with_size = mid.concat(size_text.as_str());
                let r = with_size.concat(")");
                proof {
                    assert(r@ =~= spec_summary(*self));
                }
                r
            },
            None => {
                let r = head.concat(")");
                proof {
                    assert(r@ =~= spec_summary(*self));
                }
                r
            },
        }
    }
}

/// The baseline status code the three sampled probes agree on: the
/// majority code, checked in pair order, with 404 as the tie-break
/// default.
pub open spec fn spec_derived_code(rs: Seq<RequestResponse>) -> u32
    recommends
        rs.len() >= 3,
{
    if rs[0].code == rs[1].code || rs[0].code == rs[2].code {
        rs[0].code
    } else if rs[1].code == rs[2].code {
        rs[1].code
    } else {
        404
    }
}

/// The baseline content length the three sampled probes agree on, if
/// any pair does; `None` is the most permissive match.
pub open spec fn spec_derived_len(rs: Seq<RequestResponse>) -> Option<usize>
    recommends
        rs.len() >= 3,
{
    if rs[0].content_len == rs[1].content_len || rs[0].content_len == rs[2].content_len {
        Some(rs[0].content_len)
    } else if rs[1].content_len == rs[2].content_len {
        Some(rs[1].content_len)
    } else {
        None
    }
}

/// Derives a directory's baseline from its sampled probes.
///
/// Fewer than three completed probes fall back to the conservative
/// `{404, any length}` baseline. A derived code of 0 (transport
/// failure) yields `None`: the directory is skipped entirely. A derived
/// 404 needs no length constraint; any other code is paired with the
/// majority length, if one exists.
pub fn determine_not_found(responses: Vec<RequestResponse>) -> (r: Option<TargetValidator>)
    ensures
        responses@.len() < 3 ==> r == Some(
            TargetValidator { response_code: 404u32, response_len: None::<usize> },
        ),
        responses@.len() >= 3 && spec_derived_code(responses@) == 0 ==> r is None,
        responses@.len() >= 3 && spec_derived_code(responses@) == 404 ==> r == Some(
            TargetValidator { response_code: 404u32, response_len: None::<usize> },
        ),
        responses@.len() >= 3 && spec_derived_code(responses@) != 0 && spec_derived_code(
            responses@,
        ) != 404 ==> r == Some(
            TargetValidator {
                response_code: spec_derived_code(responses@),
                response_len: spec_derived_len(responses@),
            },
        ),
{
    if responses.len() < 3 {
        return Some(TargetValidator::new(404, None));
    }
    let mut code: u32 = 404;
    if responses[0].code == responses[1].code || responses[0].code == responses[2].code {
        code = responses[0].code;
    } else if responses[1].code == responses[2].code {
        code = responses[1].code;
    }
    if code == 0 {
        return None;
    } else if code == 404 {
        return Some(TargetValidator::new(code, None));
    }
    let mut response_size: Option<usize> = None;
    if responses[0].content_len == responses[1].content_len || responses[0].content_len
        == responses[2].content_len {
        response_size = Some(responses[0].content_len);
    } else if responses[1].content_len == responses[2].content_len {
        response_size = Some(responses[1].content_len);
    }
    Some(TargetValidator::new(code, response_size))
}

/// What the validator does with one inbound message.
#[derive(Clone, Copy, Debug, PartialEq, Eq, Structural)]
pub enum ValidatorAction {
    /// A worker-completion marker: forward it to the orchestrator.
    ForwardEnd,
    /// The whole scan is terminating: stop the validator loop.
    Shutdown,
    /// Not a directory, or listable while listable scanning is off:
    /// nothing to do.
    Ignore,
    /// Approve the directory for unfiltered scanning (validation
    /// disabled, or whitelist mode makes the baseline unused).
    ApproveUnfiltered,
    /// Sample the directory to derive its baseline.
    Sample,
}

/// The decision the validator takes for one inbound outcome.
pub open spec fn spec_validator_action(response: RequestResponse, opts: GlobalOpts)
    -> ValidatorAction {
    if response.url@ == "END"@ {
        ValidatorAction::ForwardEnd
    } else if response.url@ == "MAIN ENDING"@ {
        ValidatorAction::Shutdown
    } else if !response.is_directory || (response.is_listable && !opts.scan_listable) {
        ValidatorAction::Ignore
    } else if opts.disable_validator || opts.whitelist {
        ValidatorAction::ApproveUnfiltered
    } else {
        ValidatorAction::Sample
    }
}

/// Classifies one inbound message; the validator's receive loop only
/// carries out what this decides.
pub fn validator_action(response: &RequestResponse, opts: &GlobalOpts) -> (r: ValidatorAction)
    ensures
        r == spec_validator_action(*response, *opts),
{
    if response.url == String::from_str("END") {
        ValidatorAction::ForwardEnd
    } else if response.url == String::from_str("MAIN ENDING") {
        ValidatorAction::Shutdown
    } else if !response.is_directory || (response.is_listable && !opts.scan_listable) {
        ValidatorAction::Ignore
    } else if opts.disable_validator || opts.whitelist {
        ValidatorAction::ApproveUnfiltered
    } else {
        ValidatorAction::Sample
    }
}

/// An ASCII letter or digit.
pub open spec fn is_ascii_alnum(c: char) -> bool {
    ('0' <= c && c <= '9') || ('a' <= c && c <= 'z') || ('A' <= c && c <= 'Z')
}

/// Relies on rand's Alphanumeric distribution: sampling it yields ASCII
/// letters and digits only, and taking `length` of them yields exactly
/// `length` characters.
#[verifier::external_body]
fn rand_string(length: usize) -> (r: String)
    ensures
        r@.len() == length,
        forall|i: int| 0 <= i < r@.len() ==> is_ascii_alnum(r@[i]),
{
    rand::thread_rng().sample_iter(&rand::distributions::Alphanumeric).take(length).map(
        char::from,
    ).collect()
}

/// A sampled probe URL: the directory (with its separator) followed by
/// one alphanumeric segment of the given length — a direct child, never
/// a nested or pre-existing path.
pub open spec fn spec_sampled_url(base: Seq<char>, u: Seq<char>, n: int) -> bool {
    exists|s: Seq<char>|
        u == spec_with_slash(base) + s && s.len() == n && (forall|j: int|
            0 <= j < s.len() ==> #[trigger] is_ascii_alnum(s[j]))
}

/// Samples three random nonexistent paths under the given folder, with
/// distinct name lengths per probe index to avoid colliding with real
/// content: each probed URL is the directory plus one fresh alphanumeric
/// segment of length 10, 20 and 30, and each outcome carries its URL.
pub fn make_requests(base_url: String, handle: &mut ProbeHandle) -> (r: Vec<RequestResponse>)
    requires
        old(handle).collector.wf(),
    ensures
        final(handle).collector.wf(),
        r@.len() == 3,
        forall|i: int|
            #![trigger r@[i]]
            0 <= i < 3 ==> spec_sampled_url(base_url@, r@[i].url@, 10 * (i + 1)),
{
    let mut responses: Vec<RequestResponse> = Vec::new();
    let base = with_trailing_slash(base_url.as_str());
    let mut i: usize = 1;
    while i <= 3
        invariant
            1 <= i <= 4,
            responses@.len() == i - 1,
            handle.collector.wf(),
            base@ == spec_with_slash(base_url@),
            forall|k: int|
                #![trigger responses@[k]]
                0 <= k < i - 1 ==> spec_sampled_url(base_url@, responses@[k].url@, 10 * (k + 1)),
        decreases 4 - i,
    {
        let suffix = rand_string(10 * i);
        let url = base.clone().concat(suffix.as_str());
        let ghost sv = suffix@;
        let rr = make_request(handle, url);
        responses.push(rr);
        proof {
            assert(rr.url@ == spec_with_slash(base_url@) + sv);
            assert(spec_sampled_url(base_url@, rr.url@, 10 * (i as int)));
        }
        i = i + 1;
    }
    responses
}

/// Samples a directory and derives its baseline. `None` means the
/// directory errored too often during validation and is skipped; a
/// returned baseline never carries the transport-failure code.
pub fn validate_directory(handle: &mut ProbeHandle, base_url: String) -> (r: Option<
    TargetValidator,
>)
    requires
        old(handle).collector.wf(),
    ensures
        final(handle).collector.wf(),
        r matches Some(v) ==> v.response_code != 0,
{
    let responses = make_requests(base_url, handle);
    determine_not_found(responses)
}

/// What the validator's receive loop sends on for one inbound message.
pub enum ValidatorReply {
    /// The scan is terminating: exit the loop.
    Stop,
    /// Nothing to send.
    Nothing,
    /// A directory to scan, with its baseline (or none for unfiltered).
    Send(DirectoryInfo),
    /// The directory is abandoned entirely: send the skip marker.
    SendSkip,
}

/// Handles one inbound message end to end: classifies it and, when the
/// directory needs sampling, derives its baseline.
pub fn validator_step(handle: &mut ProbeHandle, response: RequestResponse, opts: &GlobalOpts) -> (r:
    ValidatorReply)
    requires
        old(handle).collector.wf(),
    ensures
        final(handle).collector.wf(),
        spec_validator_action(response, *opts) == ValidatorAction::ForwardEnd ==> (r matches
            ValidatorReply::Send(d) && d.url@ == "END"@ && d.validator is None && d.parent_depth
            == 0),
        spec_validator_action(response, *opts) == ValidatorAction::Shutdown ==> r is Stop,
        spec_validator_action(response, *opts) == ValidatorAction::Ignore ==> r is Nothing,
        spec_validator_action(response, *opts) == ValidatorAction::ApproveUnfiltered ==> (r matches
            ValidatorReply::Send(d) && d.url == response.url && d.validator is None
            && d.parent_depth == response.parent_depth),
        spec_validator_action(response, *opts) == ValidatorAction::Sample ==> ((r matches
            ValidatorReply::Send(d) && d.url == response.url && d.parent_depth
            == response.parent_depth && (d.validator matches Some(v) && v.response_code != 0)) || r
            is SendSkip),
{
    match validator_action(&response, opts) {
        ValidatorAction::ForwardEnd => ValidatorReply::Send(DirectoryInfo::generate_end()),
        ValidatorAction::Shutdown => ValidatorReply::Stop,
        ValidatorAction::Ignore => ValidatorReply::Nothing,
        ValidatorAction::ApproveUnfiltered => ValidatorReply::Send(
            DirectoryInfo::new(response.url, None, response.parent_depth),
        ),
        ValidatorAction::Sample => {
            match validate_directory(handle, response.url.clone()) {
                Some(validator) => ValidatorReply::Send(
                    DirectoryInfo::new(response.url, Some(validator), response.parent_depth),
                ),
                None => ValidatorReply::SendSkip,
            }
        },
    }
}

} // verus!
