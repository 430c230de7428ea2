//! Pure helpers behind the request metrics: which paths are ignored and
//! how labels are bucketed to keep their cardinality bounded.

use vstd::prelude::*;

verus! {

use crate::strutil::{str_has_prefix, str_trim, trim_spec};
use vstd::string::StrSliceExecFns;
use vstd::string::StringExecFns;

/// Whether the metrics middleware skips a request path: the health and
/// metrics endpoints are not recorded.
pub fn should_ignore(path: &str) -> (r: bool)
    ensures
        r == ("/health"@.is_prefix_of(path@) || "/metrics"@.is_prefix_of(path@)),
{
    str_has_prefix(path, "/health") || str_has_prefix(path, "/metrics")
}

/// Bucket a slug length into a small fixed label set, so that user input
/// cannot create unbounded label cardinality.
pub fn bucket_slug_len(len: usize) -> (r: &'static str)
    ensures
        len == 0 ==> r@ == "len_0"@,
        1 <= len <= 4 ==> r@ == "len_1_4"@,
        5 <= len <= 8 ==> r@ == "len_5_8"@,
        9 <= len <= 12 ==> r@ == "len_9_12"@,
        13 <= len <= 20 ==> r@ == "len_13_20"@,
        len > 20 ==> r@ == "len_over_20"@,
{
    if len == 0 {
        "len_0"
    } else if len <= 4 {
        "len_1_4"
    } else if len <= 8 {
        "len_5_8"
    } else if len <= 12 {
        "len_9_12"
    } else if len <= 20 {
        "len_13_20"
    } else {
        "len_over_20"
    }
}

/// Distance from position `i` to the next comma — or to the end, if none
/// follows.
pub open spec fn comma_dist(s: Seq<char>, i: int) -> nat
    decreases s.len() - i,
{
    if i < 0 || i >= s.len() {
        0
    } else if s[i] == ',' {
        0
    } else {
        1 + comma_dist(s, i + 1)
    }
}

proof fn lemma_comma_dist(s: Seq<char>, i: int, j: int)
    requires
        0 <= i <= j <= s.len(),
        forall|k: int| i <= k < j ==> s[k] != ',',
        j < s.len() ==> s[j] == ',',
    ensures
        comma_dist(s, i) == j - i,
    decreases j - i,
{
    if i < j {
        lemma_comma_dist(s, i + 1, j);
    }
}

/// The client address a forwarding header names: its first
/// comma-separated item, trimmed — or nothing when the header is absent
/// or that item is blank.
pub open spec fn forwarded_ip_spec(forwarded_for: Option<Seq<char>>) -> Option<Seq<char>> {
    match forwarded_for {
        Some(s) => {
            let seg = s.subrange(0, comma_dist(s, 0) as int);
            if trim_spec(seg).len() > 0 {
                Some(trim_spec(seg))
            } else {
                None
            }
        },
        None => None,
    }
}

/// The client address a request is attributed to: the first entry of the
/// forwarding header when it names one, else the peer address, else the
/// text `unknown`.
pub fn forwarded_client_ip(forwarded_for: &Option<String>, peer: &Option<String>) -> (r: String)
    ensures
        r@ == match forwarded_ip_spec(crate::auth::opt_str_view(*forwarded_for)) {
            Some(ip) => ip,
            None => match *peer {
                Some(p) => p@,
                None => "unknown"@,
            },
        },
{
    match forwarded_for {
        Some(h) => {
            let hs = h.as_str();
            let n: usize = hs.unicode_len();
            let mut j: usize = 0;
            while j < n && hs.get_char(j) != ','
                invariant
                    n == hs@.len(),
                    j <= n,
                    forall|k: int| 0 <= k < j ==> hs@[k] != ',',
                decreases n - j,
            {
                j = j + 1;
            }
            proof {
                lemma_comma_dist(hs@, 0, j as int);
            }
            let seg = hs.substring_char(0, j);
            let t = str_trim(seg);
            if t.unicode_len() > 0 {
                String::from_str(t)
            } else {
                peer_or_unknown(peer)
            }
        },
        None => peer_or_unknown(peer),
    }
}

fn peer_or_unknown(peer: &Option<String>) -> (r: String)
    ensures
        r@ == match *peer {
            Some(p) => p@,
            None => "unknown"@,
        },
{
    match peer {
        Some(p) => p.clone(),
        None => String::from_str("unknown"),
    }
}

/// The user-agent label a request is recorded under: the header trimmed,
/// or the text `unknown` when it is absent or blank.
pub fn normalized_user_agent(user_agent: &Option<String>) -> (r: String)
    ensures
        r@ == match crate::auth::opt_str_view(*user_agent) {
            Some(ua) => if trim_spec(ua).len() > 0 {
                trim_spec(ua)
            } else {
                "unknown"@
            },
            None => "unknown"@,
        },
{
    match user_agent {
        Some(ua) => {
            let t = str_trim(ua.as_str());
            if t.unicode_len() > 0 {
                String::from_str(t)
            } else {
                String::from_str("unknown")
            }
        },
        None => String::from_str("unknown"),
    }
}

/// The error class of a status code: client errors, server errors, or
/// neither.
pub fn status_class(status: u16) -> (r: &'static str)
    ensures
        400 <= status <= 499 ==> r@ == "4xx"@,
        500 <= status <= 599 ==> r@ == "5xx"@,
        (status < 400 || status > 599) ==> r@ == "other"@,
{
    if status >= 400 && status <= 499 {
        "4xx"
    } else if status >= 500 && status <= 599 {
        "5xx"
    } else {
        "other"
    }
}

} // verus!
