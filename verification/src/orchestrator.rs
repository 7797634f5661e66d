//! The scan orchestrator's decision logic.
//!
//! Job generation, recursion expansion, baseline filtering, the error
//! budget and shutdown tracking are all pure decisions; the surrounding
//! process (worker threads, channels) only carries out what these
//! functions decide.

use vstd::prelude::*;

use crate::request::RequestResponse;
use crate::strutil::spec_with_slash;
use crate::strutil::with_trailing_slash;
use crate::validator_thread::TargetValidator;
use crate::validator_thread::spec_is_not_found;

verus! {

/// The URLs probed for one target, word and prefix: one per extension,
/// in extension order.
pub open spec fn spec_jobs_for_prefix(target: Seq<char>, word: Seq<char>, prefix: Seq<char>,
    es: Seq<Seq<char>>) -> Seq<Seq<char>>
    decreases es.len(),
{
    if es.len() == 0 {
        Seq::empty()
    } else {
        seq![spec_with_slash(target) + prefix + word + es.first()] + spec_jobs_for_prefix(
            target,
            word,
            prefix,
            es.drop_first(),
        )
    }
}

/// The URLs probed for one target and word: every prefix crossed with
/// every extension, prefixes outermost.
pub open spec fn spec_jobs_for_word(target: Seq<char>, word: Seq<char>, ps: Seq<Seq<char>>,
    es: Seq<Seq<char>>) -> Seq<Seq<char>>
    decreases ps.len(),
{
    if ps.len() == 0 {
        Seq::empty()
    } else {
        spec_jobs_for_prefix(target, word, ps.first(), es) + spec_jobs_for_word(
            target,
            word,
            ps.drop_first(),
            es,
        )
    }
}

/// The full initial job set for one target: the cartesian combination
/// of prefixes, wordlist entries and extensions, wordlist entries
/// outermost.
pub open spec fn spec_jobs(target: Seq<char>, ws: Seq<Seq<char>>, ps: Seq<Seq<char>>,
    es: Seq<Seq<char>>) -> Seq<Seq<char>>
    decreases ws.len(),
{
    if ws.len() == 0 {
        Seq::empty()
    } else {
        spec_jobs_for_word(target, ws.first(), ps, es) + spec_jobs(target, ws.drop_first(), ps, es)
    }
}

/// Generates the initial job set for one target host: for every
/// wordlist entry, every configured prefix and extension variant of it,
/// scoped under the target.
pub fn generate_jobs(target: &str, wordlist: &Vec<String>, prefixes: &Vec<String>, extensions: &Vec<
    String,
>) -> (r: Vec<String>)
    ensures
        r.deep_view() == spec_jobs(
            target@,
            wordlist.deep_view(),
            prefixes.deep_view(),
            extensions.deep_view(),
        ),
{
    let ghost ws = wordlist.deep_view();
    let ghost ps = prefixes.deep_view();
    let ghost es = extensions.deep_view();
    let base = with_trailing_slash(target);
    let mut out: Vec<String> = Vec::new();
    let mut i: usize = 0;
    proof {
        assert(ws.skip(0) =~= ws);
        assert(out.deep_view() + spec_jobs(target@, ws, ps, es) =~= spec_jobs(target@, ws, ps, es));
    }
    while i < wordlist.len()
        invariant
            i <= wordlist@.len(),
            ws == wordlist.deep_view(),
            ps == prefixes.deep_view(),
            es == extensions.deep_view(),
            wordlist@.len() == ws.len(),
            prefixes@.len() == ps.len(),
            extensions@.len() == es.len(),
            base@ == spec_with_slash(target@),
            out.deep_view() + spec_jobs(target@, ws.skip(i as int), ps, es) == spec_jobs(
                target@,
                ws,
                ps,
                es,
            ),
        decreases wordlist@.len() - i,
    {
        let ghost w = ws[i as int];
        proof {
            assert(ws.skip(i as int).first() == ws[i as int]);
            assert(ws.skip(i as int).drop_first() =~= ws.skip(i + 1));
            assert(spec_jobs(target@, ws.skip(i as int), ps, es) == spec_jobs_for_word(
                target@,
                w,
                ps,
                es,
            ) + spec_jobs(target@, ws.skip(i + 1), ps, es));
        }
        let mut j: usize = 0;
        proof {
            assert(ps.skip(0) =~= ps);
        }
        while j < prefixes.len()
            invariant
                j <= prefixes@.len(),
                i < wordlist@.len(),
                ws == wordlist.deep_view(),
                ps == prefixes.deep_view(),
                es == extensions.deep_view(),
                wordlist@.len() == ws.len(),
                prefixes@.len() == ps.len(),
                extensions@.len() == es.len(),
                base@ == spec_with_slash(target@),
                w == ws[i as int],
                out.deep_view() + spec_jobs_for_word(target@, w, ps.skip(j as int), es)
                    + spec_jobs(target@, ws.skip(i + 1), ps, es) == spec_jobs(target@, ws, ps, es),
            decreases prefixes@.len() - j,
        {
            let ghost p = ps[j as int];
            proof {
                assert(ps.skip(j as int).first() == ps[j as int]);
                assert(ps.skip(j as int).drop_first() =~= ps.skip(j + 1));
                assert(spec_jobs_for_word(target@, w, ps.skip(j as int), es)
                    == spec_jobs_for_prefix(target@, w, p, es) + spec_jobs_for_word(
                    target@,
                    w,
                    ps.skip(j + 1),
                    es,
                ));
            }
            let stem = base.clone().concat(prefixes[j].as_str()).concat(wordlist[i].as_str());
            proof {
                assert(stem@ == spec_with_slash(target@) + p + w);
            }
            let mut k: usize = 0;
            proof {
                assert(es.skip(0) =~= es);
            }
            while k < extensions.len()
                invariant
                    k <= extensions@.len(),
                    i < wordlist@.len(),
                    j < prefixes@.len(),
                    ws == wordlist.deep_view(),
                    ps == prefixes.deep_view(),
                    es == extensions.deep_view(),
                    wordlist@.len() == ws.len(),
                    prefixes@.len() == ps.len(),
                    extensions@.len() == es.len(),
                    base@ == spec_with_slash(target@),
                    w == ws[i as int],
                    p == ps[j as int],
                    stem@ == spec_with_slash(target@) + p + w,
                    out.deep_view() + spec_jobs_for_prefix(target@, w, p, es.skip(k as int))
                        + spec_jobs_for_word(target@, w, ps.skip(j + 1), es) + spec_jobs(
                        target@,
                        ws.skip(i + 1),
                        ps,
                        es,
                    ) == spec_jobs(target@, ws, ps, es),
                decreases extensions@.len() - k,
            {
                let ghost prev = out.deep_view();
                proof {
                    assert(es.skip(k as int).first() == es[k as int]);
                    assert(es.skip(k as int).drop_first() =~= es.skip(k + 1));
                    assert(spec_jobs_for_prefix(target@, w, p, es.skip(k as int)) == seq![
                        spec_with_slash(target@) + p + w + es[k as int],
                    ] + spec_jobs_for_prefix(target@, w, p, es.skip(k + 1)));
                }
                let job = stem.clone().concat(extensions[k].as_str());
                out.push(job);
                proof {
                    assert(out.deep_view() =~= prev.push(
                        spec_with_slash(target@) + p + w + es[k as int],
                    ));
                    assert(out.deep_view() + spec_jobs_for_prefix(target@, w, p, es.skip(k + 1))
                        + spec_jobs_for_word(target@, w, ps.skip(j + 1), es) + spec_jobs(
                        target@,
                        ws.skip(i + 1),
                        ps,
                        es,
                    ) =~= spec_jobs(target@, ws, ps, es));
                }
                k = k + 1;
            }
            proof {
                assert(es.skip(es.len() as int) =~= Seq::<Seq<char>>::empty());
                assert(spec_jobs_for_prefix(target@, w, p, es.skip(es.len() as int))
                    =~= Seq::<Seq<char>>::empty());
                assert(out.deep_view() + spec_jobs_for_word(target@, w, ps.skip(j + 1), es)
                    + spec_jobs(target@, ws.skip(i + 1), ps, es) =~= spec_jobs(
                    target@,
                    ws,
                    ps,
                    es,
                ));
            }
            j = j + 1;
        }
        proof {
            assert(ps.skip(ps.len() as int) =~= Seq::<Seq<char>>::empty());
            assert(spec_jobs_for_word(target@, w, ps.skip(ps.len() as int), es)
                =~= Seq::<Seq<char>>::empty());
            assert(out.deep_view() + spec_jobs(target@, ws.skip(i + 1), ps, es) =~= spec_jobs(
                target@,
                ws,
                ps,
                es,
            ));
        }
        i = i + 1;
    }
    proof {
        assert(ws.skip(ws.len() as int) =~= Seq::<Seq<char>>::empty());
        assert(spec_jobs(target@, ws.skip(ws.len() as int), ps, es) =~= Seq::<Seq<char>>::empty());
        assert(out.deep_view() + Seq::<Seq<char>>::empty() =~= out.deep_view());
    }
    out
}

/// Whether a validated directory at the given parent depth is expanded
/// into a fresh wordlist pass one level deeper: always when no bound is
/// configured, otherwise only while the next depth stays within it.
pub fn should_expand(parent_depth: u32, max_recursion_depth: &Option<u32>) -> (r: bool)
    requires
        parent_depth < u32::MAX,
    ensures
        r == match *max_recursion_depth {
            None => true,
            Some(m) => parent_depth + 1 <= m,
        },
{
    match max_recursion_depth {
        None => true,
        Some(m) => parent_depth + 1 <= *m,
    }
}

/// Whether an outcome is forwarded to output: everything passes an
/// unfiltered directory; under a baseline, exactly the outcomes that do
/// not match it are findings.
pub fn should_report(validator: &Option<TargetValidator>, response: &RequestResponse) -> (r: bool)
    ensures
        r == match *validator {
            None => true,
            Some(v) => !spec_is_not_found(v, *response),
        },
{
    match validator {
        None => true,
        Some(v) => !v.is_not_found(response),
    }
}

/// One worker's transport-failure budget against a host: too many
/// consecutive failures abandon the worker's remaining jobs for it
/// instead of retrying indefinitely.
pub struct ErrorBudget {
    pub consecutive: u32,
    pub limit: u32,
}

impl ErrorBudget {
    pub fn new(limit: u32) -> (r: ErrorBudget)
        ensures
            r.consecutive == 0,
            r.limit == limit,
    {
        ErrorBudget { consecutive: 0, limit }
    }

    /// Records one more transport failure; true means the budget is
    /// exhausted and the host is abandoned.
    pub fn record_failure(&mut self) -> (r: bool)
        ensures
            final(self).limit == old(self).limit,
            final(self).consecutive == if old(self).consecutive < u32::MAX {
                old(self).consecutive + 1
            } else {
                old(self).consecutive as int
            },
            r == (final(self).consecutive > final(self).limit),
    {
        if self.consecutive < u32::MAX {
            self.consecutive = self.consecutive + 1;
        }
        self.consecutive > self.limit
    }

    /// A successful probe resets the consecutive-failure count.
    pub fn record_success(&mut self)
        ensures
            final(self).limit == old(self).limit,
            final(self).consecutive == 0,
    {
        self.consecutive = 0;
    }
}

/// What the orchestrator still waits for before it may shut the scan
/// down: running workers and directories awaiting validation.
pub struct ScanState {
    pub workers_running: u32,
    pub pending_validations: u32,
}

impl ScanState {
    pub fn new(workers: u32) -> (r: ScanState)
        ensures
            r.workers_running == workers,
            r.pending_validations == 0,
    {
        ScanState { workers_running: workers, pending_validations: 0 }
    }

    /// One worker signalled completion of its job partition.
    pub fn worker_done(&mut self)
        requires
            old(self).workers_running > 0,
        ensures
            final(self).workers_running == old(self).workers_running - 1,
            final(self).pending_validations == old(self).pending_validations,
    {
        self.workers_running = self.workers_running - 1;
    }

    /// A directory was forwarded to the validator.
    pub fn validation_requested(&mut self)
        requires
            old(self).pending_validations < u32::MAX,
        ensures
            final(self).workers_running == old(self).workers_running,
            final(self).pending_validations == old(self).pending_validations + 1,
    {
        self.pending_validations = self.pending_validations + 1;
    }

    /// The validator answered (with a baseline, unfiltered, or a skip).
    pub fn validation_answered(&mut self)
        requires
            old(self).pending_validations > 0,
        ensures
            final(self).workers_running == old(self).workers_running,
            final(self).pending_validations == old(self).pending_validations - 1,
    {
        self.pending_validations = self.pending_validations - 1;
    }

    /// The scan may terminate exactly when every worker has signalled
    /// completion and no directory awaits validation.
    pub fn scan_complete(&self) -> (r: bool)
        ensures
            r == (self.workers_running == 0 && self.pending_validations == 0),
    {
        self.workers_running == 0 && self.pending_validations == 0
    }
}

} // verus!
