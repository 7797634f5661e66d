//! Helpers for the output collaborator.
//!
//! Rendering itself (console, file, JSON, XML) is outside the core; the
//! library only computes which directory an outcome belongs to.

use vstd::prelude::*;

use crate::request::RequestResponse;
use crate::strutil::spec_rfind;
use crate::strutil::rfind_char;
use crate::strutil::ends_with_slash;

verus! {

/// The directory an outcome belongs to: the URL itself without its
/// trailing separator for a directory, otherwise the URL up to its last
/// separator. A URL with no separator at all is returned unchanged.
pub open spec fn spec_directory_name(response: RequestResponse) -> Seq<char> {
    let u = response.url@;
    if response.is_directory {
        if u.len() > 0 && u.last() == '/' {
            u.subrange(0, u.len() - 1)
        } else {
            u
        }
    } else {
        if spec_rfind(u, '/', u.len() - 1) >= 0 {
            u.subrange(0, spec_rfind(u, '/', u.len() - 1))
        } else {
            u
        }
    }
}

pub fn directory_name(response: &RequestResponse) -> (r: String)
    ensures
        r@ == spec_directory_name(*response),
{
    let url = response.url.as_str();
    let len = url.unicode_len();
    if response.is_directory {
        if ends_with_slash(url) {
            String::from_str(url.substring_char(0, len - 1))
        } else {
            String::from_str(url)
        }
    } else {
        proof {
            crate::strutil::lemma_rfind_bounds(url@, '/', url@.len() - 1);
        }
        match rfind_char(url, '/') {
            Some(p) => String::from_str(url.substring_char(0, p)),
            None => String::from_str(url),
        }
    }
}

} // verus!
