//! The listing scraper.
//!
//! An auto-generated directory index is recognised by a small set of
//! textual markers; its hyperlink targets are extracted, and those that
//! resolve to a direct descendant of the scraped directory are followed,
//! depth first, up to the configured recursion bound.

use vstd::prelude::*;

use crate::request::ProbeHandle;
use crate::request::RequestResponse;
use crate::request::body_text;
use crate::request::make_request;
use crate::strutil::spec_matches_at;
use crate::strutil::spec_contains;
use crate::strutil::spec_find;
use crate::strutil::spec_with_slash;
use crate::strutil::str_matches_at;
use crate::strutil::str_contains_sub;
use crate::strutil::str_has_prefix;
use crate::strutil::find_char_from;
use crate::strutil::ends_with_slash;
use crate::strutil::with_trailing_slash;
use crate::strutil::lemma_find_bounds;
use crate::strutil::lemma_find_first;

verus! {

/// The attribute that introduces a hyperlink target.
pub open spec fn href_pat() -> Seq<char> {
    "href=\""@
}

/// The hyperlink targets of a body, in order, from position `i` on:
/// the text between each `href="` and its closing quote.
pub open spec fn link_targets_from(s: Seq<char>, i: int) -> Seq<Seq<char>>
    decreases s.len() - i,
    via link_targets_from_dec
{
    if i < 0 || i + href_pat().len() > s.len() {
        Seq::empty()
    } else if spec_matches_at(s, href_pat(), i) && spec_find(s, '"', i + href_pat().len()) >= 0 {
        let q = spec_find(s, '"', i + href_pat().len());
        seq![s.subrange(i + href_pat().len(), q)] + link_targets_from(s, q + 1)
    } else {
        link_targets_from(s, i + 1)
    }
}

#[via_fn]
proof fn link_targets_from_dec(s: Seq<char>, i: int) {
    reveal_strlit("href=\"");
    if !(i < 0 || i + href_pat().len() > s.len()) {
        lemma_find_bounds(s, '"', i + href_pat().len());
    }
}

/// The markers that identify an auto-generated directory index.
pub open spec fn spec_is_listing(text: Seq<char>) -> bool {
    spec_contains(text, "parent directory"@) || spec_contains(text, "Parent Directory"@)
        || spec_contains(text, "Index of"@) || spec_contains(text, "[To Parent Directory]"@)
}

/// Whether a body looks like an auto-generated directory index.
pub fn is_listing_body(text: &str) -> (r: bool)
    ensures
        r == spec_is_listing(text@),
{
    str_contains_sub(text, "parent directory") || str_contains_sub(text, "Parent Directory")
        || str_contains_sub(text, "Index of") || str_contains_sub(text, "[To Parent Directory]")
}

/// Every hyperlink target of the body, in order.
pub fn extract_targets(body: &str) -> (r: Vec<String>)
    ensures
        r.deep_view() == link_targets_from(body@, 0),
{
    proof {
        reveal_strlit("href=\"");
    }
    let len = body.unicode_len();
    let mut out: Vec<String> = Vec::new();
    let mut i: usize = 0;
    proof {
        assert(out.deep_view() + link_targets_from(body@, 0) =~= link_targets_from(body@, 0));
    }
    while i < len && len - i >= 6
        invariant
            i <= len,
            len == body@.len(),
            out.deep_view() + link_targets_from(body@, i as int) == link_targets_from(body@, 0),
        decreases len - i,
    {
        if str_matches_at(body, "href=\"", i) {
            match find_char_from(body, '"', i + 6) {
                Some(q) => {
                    proof {
                        reveal_strlit("href=\"");
                        lemma_find_bounds(body@, '"', i + 6);
                    }
                    let target = String::from_str(body.substring_char(i + 6, q));
                    let ghost prev = out.deep_view();
                    out.push(target);
                    proof {
                        assert(out.deep_view() =~= prev.push(target@));
                        assert(link_targets_from(body@, i as int) == seq![
                            body@.subrange(i + 6, q as int),
                        ] + link_targets_from(body@, q + 1));
                        assert(out.deep_view() + link_targets_from(body@, q + 1)
                            =~= link_targets_from(body@, 0));
                    }
                    i = q + 1;
                },
                None => {
                    proof {
                        reveal_strlit("href=\"");
                        lemma_find_bounds(body@, '"', i + 6);
                        assert(link_targets_from(body@, i as int) == link_targets_from(
                            body@,
                            i + 1,
                        ));
                    }
                    i = i + 1;
                },
            }
        } else {
            proof {
                reveal_strlit("href=\"");
                assert(link_targets_from(body@, i as int) == link_targets_from(body@, i + 1));
            }
            i = i + 1;
        }
    }
    proof {
        reveal_strlit("href=\"");
        assert(link_targets_from(body@, i as int) =~= Seq::<Seq<char>>::empty());
        assert(out.deep_view() =~= link_targets_from(body@, 0));
    }
    out
}

/// Where the path part of a URL begins: at the first separator after
/// the scheme and host, or at the start for a bare path. A scheme-form
/// URL with no separator after its host has no path (the URL's end).
pub open spec fn spec_path_start(u: Seq<char>) -> int {
    if spec_matches_at(u, "http://"@, 0) {
        if spec_find(u, '/', "http://"@.len() as int) >= 0 {
            spec_find(u, '/', "http://"@.len() as int)
        } else {
            u.len() as int
        }
    } else if spec_matches_at(u, "https://"@, 0) {
        if spec_find(u, '/', "https://"@.len() as int) >= 0 {
            spec_find(u, '/', "https://"@.len() as int)
        } else {
            u.len() as int
        }
    } else {
        0
    }
}

fn path_start(u: &str) -> (r: usize)
    ensures
        r == spec_path_start(u@),
        r <= u@.len(),
{
    proof {
        reveal_strlit("http://");
        reveal_strlit("https://");
    }
    let len = u.unicode_len();
    if str_has_prefix(u, "http://") {
        proof {
            lemma_find_bounds(u@, '/', 7);
        }
        match find_char_from(u, '/', 7) {
            Some(p) => p,
            None => len,
        }
    } else if str_has_prefix(u, "https://") {
        proof {
            lemma_find_bounds(u@, '/', 8);
        }
        match find_char_from(u, '/', 8) {
            Some(p) => p,
            None => len,
        }
    } else {
        0
    }
}

/// A remainder without its trailing separator, if it carries one.
pub open spec fn spec_stem(rem: Seq<char>) -> Seq<char> {
    if rem.len() > 0 && rem.last() == '/' {
        rem.drop_last()
    } else {
        rem
    }
}

/// A relative remainder that names exactly one child: a nonempty single
/// segment, optionally with a trailing separator, and not a current- or
/// parent-directory reference.
pub open spec fn spec_direct_segment(rem: Seq<char>) -> bool {
    spec_stem(rem).len() > 0 && (forall|j: int|
        0 <= j < spec_stem(rem).len() ==> spec_stem(rem)[j] != '/') && spec_stem(rem) != seq!['.']
        && spec_stem(rem) != seq!['.', '.']
}

fn is_direct_segment(rem: &str) -> (r: bool)
    ensures
        r == spec_direct_segment(rem@),
{
    let len = rem.unicode_len();
    let stem_end = if ends_with_slash(rem) {
        len - 1
    } else {
        len
    };
    proof {
        assert(spec_stem(rem@) =~= rem@.subrange(0, stem_end as int));
    }
    if stem_end == 0 {
        return false;
    }
    proof {
        lemma_find_bounds(rem@, '/', 0);
        lemma_find_first(rem@, '/', 0);
    }
    let found = find_char_from(rem, '/', 0);
    match found {
        Some(p) => {
            if p < stem_end {
                proof {
                    assert(spec_stem(rem@)[p as int] == rem@[p as int]);
                    assert(rem@[p as int] == '/');
                    assert(!spec_direct_segment(rem@));
                }
                return false;
            }
        },
        None => {},
    }
    proof {
        assert forall|j: int| 0 <= j < spec_stem(rem@).len() implies spec_stem(rem@)[j] != '/' by {
            assert(spec_stem(rem@)[j] == rem@[j]);
            if found is Some {
                assert(j < spec_find(rem@, '/', 0));
            } else {
                assert(spec_find(rem@, '/', 0) == -1);
            }
        }
    }
    if stem_end == 1 && rem.get_char(0) == '.' {
        proof {
            assert(spec_stem(rem@) =~= seq!['.']);
        }
        return false;
    }
    if stem_end == 2 && rem.get_char(0) == '.' && rem.get_char(1) == '.' {
        proof {
            assert(spec_stem(rem@) =~= seq!['.', '.']);
        }
        return false;
    }
    proof {
        if spec_stem(rem@) == seq!['.'] {
            assert(spec_stem(rem@).len() == 1 && spec_stem(rem@)[0] == '.');
            assert(rem@[0] == '.');
        }
        if spec_stem(rem@) == seq!['.', '.'] {
            assert(spec_stem(rem@).len() == 2 && spec_stem(rem@)[0] == '.' && spec_stem(rem@)[1]
                == '.');
            assert(rem@[0] == '.' && rem@[1] == '.');
        }
    }
    true
}

/// The child URL a target path names under the base, if the target path
/// extends the base's path by exactly one segment.
pub open spec fn spec_child_from_path(base: Seq<char>, tp: Seq<char>) -> Option<Seq<char>> {
    let bp = base.subrange(spec_path_start(base), base.len() as int);
    if tp.len() > bp.len() && tp.subrange(0, bp.len() as int) == bp && spec_direct_segment(
        tp.skip(bp.len() as int),
    ) {
        Some(base + tp.skip(bp.len() as int))
    } else {
        None
    }
}

/// The child URL a hyperlink target resolves to under the base, if the
/// target is a direct descendant of it: a scheme-form target must name
/// the base's own scheme and host and extend the base's path by one
/// segment; a rooted target must extend the base's path by one segment;
/// a relative target must itself be a single segment. Anything else
/// (other hosts, parents, siblings, deeper descendants) is discarded.
pub open spec fn spec_child_of(base: Seq<char>, t: Seq<char>) -> Option<Seq<char>> {
    if spec_matches_at(t, "http://"@, 0) {
        let p = spec_find(t, '/', "http://"@.len() as int);
        if p >= 0 && t.subrange(0, p) == base.subrange(0, spec_path_start(base)) {
            spec_child_from_path(base, t.subrange(p, t.len() as int))
        } else {
            None
        }
    } else if spec_matches_at(t, "https://"@, 0) {
        let p = spec_find(t, '/', "https://"@.len() as int);
        if p >= 0 && t.subrange(0, p) == base.subrange(0, spec_path_start(base)) {
            spec_child_from_path(base, t.subrange(p, t.len() as int))
        } else {
            None
        }
    } else if t.len() > 0 && t[0] == '/' {
        spec_child_from_path(base, t)
    } else {
        if spec_direct_segment(t) {
            Some(base + t)
        } else {
            None
        }
    }
}

fn child_from_path(base: &str, tp: &str) -> (r: Option<String>)
    ensures
        r matches Some(u) ==> spec_child_from_path(base@, tp@) == Some(u@),
        r is None ==> spec_child_from_path(base@, tp@) is None,
{
    let blen = base.unicode_len();
    let bp_start = path_start(base);
    let bp = base.substring_char(bp_start, blen);
    let tlen = tp.unicode_len();
    if tlen <= blen - bp_start {
        return None;
    }
    if !str_has_prefix(tp, bp) {
        return None;
    }
    let rem = tp.substring_char(blen - bp_start, tlen);
    proof {
        assert(rem@ =~= tp@.skip(bp@.len() as int));
    }
    if is_direct_segment(rem) {
        let child = String::from_str(base).concat(rem);
        Some(child)
    } else {
        None
    }
}

/// Whether a scheme-form target whose path begins at `p` names the
/// base's own scheme and host.
fn same_origin(base: &str, target: &str, p: usize) -> (r: bool)
    requires
        p <= target@.len(),
    ensures
        r == (target@.subrange(0, p as int) == base@.subrange(0, spec_path_start(base@))),
{
    let bp_start = path_start(base);
    let prefix = base.substring_char(0, bp_start);
    let r = p == bp_start && str_matches_at(target, prefix, 0);
    proof {
        if r {
            assert(target@.subrange(0, p as int) == base@.subrange(0, spec_path_start(base@)));
        } else {
            if target@.subrange(0, p as int) == base@.subrange(0, spec_path_start(base@)) {
                assert(target@.subrange(0, p as int).len() == p);
                assert(base@.subrange(0, spec_path_start(base@)).len() == spec_path_start(base@));
                assert(crate::strutil::spec_matches_at(target@, prefix@, 0)) by {
                    assert(target@.subrange(0, prefix@.len() as int) =~= prefix@);
                }
                assert(false);
            }
        }
    }
    r
}

fn child_of(base: &str, target: &str) -> (r: Option<String>)
    ensures
        r matches Some(u) ==> spec_child_of(base@, target@) == Some(u@),
        r is None ==> spec_child_of(base@, target@) is None,
{
    proof {
        reveal_strlit("http://");
        reveal_strlit("https://");
    }
    let tlen = target.unicode_len();
    if str_has_prefix(target, "http://") {
        proof {
            lemma_find_bounds(target@, '/', 7);
        }
        match find_char_from(target, '/', 7) {
            Some(p) => {
                if same_origin(base, target, p) {
                    child_from_path(base, target.substring_char(p, tlen))
                } else {
                    None
                }
            },
            None => None,
        }
    } else if str_has_prefix(target, "https://") {
        proof {
            lemma_find_bounds(target@, '/', 8);
        }
        match find_char_from(target, '/', 8) {
            Some(p) => {
                if same_origin(base, target, p) {
                    child_from_path(base, target.substring_char(p, tlen))
                } else {
                    None
                }
            },
            None => None,
        }
    } else if tlen > 0 && target.get_char(0) == '/' {
        child_from_path(base, target)
    } else {
        if is_direct_segment(target) {
            Some(String::from_str(base).concat(target))
        } else {
            None
        }
    }
}

/// The targets that resolve to direct descendants of the base, mapped
/// to their child URLs, in order.
pub open spec fn spec_kept_children(base: Seq<char>, ts: Seq<Seq<char>>) -> Seq<Seq<char>>
    decreases ts.len(),
{
    if ts.len() == 0 {
        Seq::empty()
    } else {
        match spec_child_of(base, ts.first()) {
            Some(u) => seq![u] + spec_kept_children(base, ts.drop_first()),
            None => spec_kept_children(base, ts.drop_first()),
        }
    }
}

/// Extracts from a listing body every link that names a direct
/// descendant of the base directory, as absolute child URLs in
/// discovery order.
pub fn extract_links(body: &str, base: &str) -> (r: Vec<String>)
    ensures
        r.deep_view() == spec_kept_children(base@, link_targets_from(body@, 0)),
{
    let targets = extract_targets(body);
    let ghost all = targets.deep_view();
    let mut out: Vec<String> = Vec::new();
    let mut i: usize = 0;
    proof {
        assert(all.skip(0) =~= all);
    }
    while i < targets.len()
        invariant
            i <= targets@.len(),
            all == targets.deep_view(),
            all == link_targets_from(body@, 0),
            targets@.len() == all.len(),
            out.deep_view() + spec_kept_children(base@, all.skip(i as int)) == spec_kept_children(
                base@,
                all,
            ),
        decreases targets@.len() - i,
    {
        let ghost prev = out.deep_view();
        proof {
            assert(all.skip(i as int).first() == all[i as int]);
            assert(all.skip(i as int).drop_first() =~= all.skip(i + 1));
            assert(all[i as int] == targets@[i as int]@);
        }
        match child_of(base, targets[i].as_str()) {
            Some(u) => {
                let ghost uv = u@;
                out.push(u);
                proof {
                    assert(out.deep_view() =~= prev.push(uv));
                    assert(seq![uv] + spec_kept_children(base@, all.skip(i + 1))
                        =~= spec_kept_children(base@, all.skip(i as int)));
                    assert(out.deep_view() + spec_kept_children(base@, all.skip(i + 1))
                        =~= spec_kept_children(base@, all));
                }
            },
            None => {},
        }
        i = i + 1;
    }
    proof {
        assert(all.skip(all.len() as int) =~= Seq::<Seq<char>>::empty());
        assert(out.deep_view() + Seq::<Seq<char>>::empty() =~= out.deep_view());
    }
    out
}

/// A generous cap on how many listings one scrape may expand, so that a
/// pathological server cannot pin a worker in an endless directory tree.
pub const SCRAPE_EXPANSION_LIMIT: usize = 1000000;

/// One pending node of the scrape tree: a URL to visit, the recursion
/// depth its outcomes carry, and whether it is still to be expanded or
/// only probed.
struct ScrapeTask {
    url: String,
    depth: u32,
    expand: bool,
}

/// The largest recursion depth any outcome of a scrape rooted at depth
/// `c` can carry under the bound `m`.
pub open spec fn spec_depth_bound(c: u32, m: u32) -> int {
    if m > 0 && m - 1 > c {
        m - 1
    } else {
        c as int
    }
}

/// Turns the kept links of a directory at `depth` into pending tasks,
/// pushed in reverse so the traversal visits them in discovery order.
/// A link that is itself directory-shaped descends one level, unless
/// the bound forbids it, in which case it is only probed.
fn push_children(stack: &mut Vec<ScrapeTask>, links: Vec<String>, depth: u32, max_depth: &Option<
    u32,
>)
    ensures
        final(stack)@.len() >= old(stack)@.len(),
        forall|k: int| 0 <= k < old(stack)@.len() ==> final(stack)@[k] == old(stack)@[k],
        forall|k: int|
            #![trigger final(stack)@[k]]
            old(stack)@.len() <= k < final(stack)@.len() ==> (final(stack)@[k].depth == depth || (
            final(stack)@[k].depth == depth + 1 && ((*max_depth) matches Some(m)
                ==> final(stack)@[k].depth < m))),
{
    let mut links = links;
    loop
        invariant
            stack@.len() >= old(stack)@.len(),
            forall|k: int| 0 <= k < old(stack)@.len() ==> stack@[k] == old(stack)@[k],
            forall|k: int|
                #![trigger stack@[k]]
                old(stack)@.len() <= k < stack@.len() ==> (stack@[k].depth == depth || (
                stack@[k].depth == depth + 1 && ((*max_depth) matches Some(m) ==> stack@[k].depth
                    < m))),
        decreases links@.len(),
    {
        let link = match links.pop() {
            None => {
                break ;
            },
            Some(l) => l,
        };
        let next_depth = if depth < u32::MAX {
            depth + 1
        } else {
            depth
        };
        let shaped = ends_with_slash(link.as_str());
        let descend = shaped && match max_depth {
            Some(m) => next_depth < *m,
            None => true,
        };
        if descend {
            stack.push(ScrapeTask { url: link, depth: next_depth, expand: true });
        } else {
            stack.push(ScrapeTask { url: link, depth, expand: false });
        }
    }
}

/// Scrapes one directory into a flat, depth-first ordered set of
/// outcomes.
///
/// The directory itself is fetched first; a body that does not look
/// like an auto-generated index yields just that one outcome. Otherwise
/// every kept link is visited in discovery order: sub-directories are
/// scraped recursively one level deeper, until the depth bound stops
/// descent, at which point a directory link is probed but not expanded;
/// leaf links are probed as they are. A fetch failure on a link only
/// degrades that branch to its failed outcome. Every outcome other than
/// the root is marked found-from-listable, and no outcome carries a
/// depth beyond the bound.
pub fn listable_check(handle: &mut ProbeHandle, url: String, max_depth: Option<u32>,
    current_depth: u32, is_root: bool) -> (r: Vec<RequestResponse>)
    requires
        old(handle).collector.wf(),
    ensures
        final(handle).collector.wf(),
        r@.len() >= 1,
        r@[0].url@ == spec_with_slash(url@),
        r@[0].is_directory,
        r@[0].parent_depth == current_depth,
        r@[0].found_from_listable == !is_root,
        forall|k: int| 0 < k < r@.len() ==> r@[k].found_from_listable,
        forall|k: int| 0 <= k < r@.len() ==> r@[k].wf() && r@[k].parent_depth >= current_depth,
        forall|k: int|
            #![trigger r@[k]]
            0 <= k < r@.len() ==> (max_depth matches Some(m) ==> r@[k].parent_depth
                <= spec_depth_bound(current_depth, m)),
{
    let base = with_trailing_slash(url.as_str());
    let rr = make_request(handle, base.clone());
    let text = body_text(&handle.collector.contents);
    let listable = is_listing_body(text.as_str());
    let root = RequestResponse {
        url: base.clone(),
        code: rr.code,
        content_len: rr.content_len,
        is_directory: true,
        is_listable: listable,
        redirect_url: String::new(),
        found_from_listable: !is_root,
        parent_depth: current_depth,
    };
    let mut out: Vec<RequestResponse> = Vec::new();
    out.push(root);
    if !listable {
        return out;
    }
    let links = extract_links(text.as_str(), base.as_str());
    let mut stack: Vec<ScrapeTask> = Vec::new();
    push_children(&mut stack, links, current_depth, &max_depth);
    let mut fuel: usize = SCRAPE_EXPANSION_LIMIT;
    loop
        invariant
            handle.collector.wf(),
            out@.len() >= 1,
            out@[0].url@ == spec_with_slash(url@),
            out@[0].is_directory,
            out@[0].parent_depth == current_depth,
            out@[0].found_from_listable == !is_root,
            forall|k: int| 0 < k < out@.len() ==> out@[k].found_from_listable,
            forall|k: int|
                0 <= k < out@.len() ==> out@[k].wf() && out@[k].parent_depth >= current_depth,
            forall|k: int|
                #![trigger out@[k]]
                0 <= k < out@.len() ==> (max_depth matches Some(m) ==> out@[k].parent_depth
                    <= spec_depth_bound(current_depth, m)),
            forall|k: int|
                #![trigger stack@[k]]
                0 <= k < stack@.len() ==> stack@[k].depth >= current_depth && (max_depth matches
                Some(m) ==> stack@[k].depth <= spec_depth_bound(current_depth, m)),
        decreases fuel, stack@.len(),
    {
        let task = match stack.pop() {
            None => {
                break ;
            },
            Some(t) => t,
        };
        if task.expand {
            let rr2 = make_request(handle, task.url.clone());
            let text2 = body_text(&handle.collector.contents);
            let listable2 = is_listing_body(text2.as_str());
            let outcome = RequestResponse {
                url: task.url.clone(),
                code: rr2.code,
                content_len: rr2.content_len,
                is_directory: true,
                is_listable: listable2,
                redirect_url: String::new(),
                found_from_listable: true,
                parent_depth: task.depth,
            };
            out.push(outcome);
            if listable2 && fuel > 0 {
                fuel = fuel - 1;
                let links2 = extract_links(text2.as_str(), task.url.as_str());
                push_children(&mut stack, links2, task.depth, &max_depth);
            }
        } else {
            let shaped = ends_with_slash(task.url.as_str());
            let mut rr2 = make_request(handle, task.url);
            rr2.found_from_listable = true;
            rr2.parent_depth = task.depth;
            if shaped {
                rr2.is_directory = true;
            }
            out.push(rr2);
        }
    }
    out
}

} // verus!
