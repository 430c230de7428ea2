//! Translation of list-request parameters into HTTP query parameters, as
//! the clients of the service send them.

use vstd::prelude::*;

verus! {

use crate::links::{trimmed_filter, ListLinksQuery};
use crate::strutil::{bool_str, bool_to_string, dec_str, str_trim, trim_spec, u32_to_string};
use vstd::string::StrSliceExecFns;
use vstd::string::StringExecFns;

/// A value a query parameter can carry.
#[derive(Debug, Clone, Copy, PartialEq, Eq, Structural)]
pub enum QueryValue {
    Number(u32),
    Flag(bool),
}

/// The text a query value renders to.
pub open spec fn query_value_str(v: QueryValue) -> Seq<char> {
    match v {
        QueryValue::Number(n) => dec_str(n as int),
        QueryValue::Flag(b) => bool_str(b),
    }
}

/// Collects `(key, value)` query parameters, skipping absent and blank
/// values.
#[derive(Debug)]
pub struct QueryParamsBuilder {
    params: Vec<(String, String)>,
}

impl View for QueryParamsBuilder {
    type V = Seq<(String, String)>;

    closed spec fn view(&self) -> Seq<(String, String)> {
        self.params@
    }
}

impl QueryParamsBuilder {
    pub fn new() -> (r: Self)
        ensures
            r@ =~= Seq::<(String, String)>::empty(),
    {
        QueryParamsBuilder { params: Vec::new() }
    }

    /// Append the key with the value's rendering, when a value is
    /// present.
    pub fn push_value(&mut self, key: &str, value: Option<QueryValue>)
        ensures
            match value {
                Some(v) => {
                    &&& final(self)@.len() == old(self)@.len() + 1
                    &&& final(self)@.subrange(0, old(self)@.len() as int) == old(self)@
                    &&& final(self)@.last().0@ == key@
                    &&& final(self)@.last().1@ == query_value_str(v)
                },
                None => final(self)@ == old(self)@,
            },
    {
        match value {
            Some(QueryValue::Number(n)) => {
                self.params.push((String::from_str(key), u32_to_string(n)));
                proof {
                    assert(final(self)@.subrange(0, old(self)@.len() as int) =~= old(self)@);
                }
            },
            Some(QueryValue::Flag(b)) => {
                self.params.push((String::from_str(key), bool_to_string(b)));
                proof {
                    assert(final(self)@.subrange(0, old(self)@.len() as int) =~= old(self)@);
                }
            },
            None => {},
        }
    }

    /// Append the trimmed string when it is present and not blank.
    pub fn push_trimmed(&mut self, key: &str, value: &Option<String>)
        ensures
            match trimmed_filter(*value) {
                Some(t) => {
                    &&& final(self)@.len() == old(self)@.len() + 1
                    &&& final(self)@.subrange(0, old(self)@.len() as int) == old(self)@
                    &&& final(self)@.last().0@ == key@
                    &&& final(self)@.last().1@ == t
                },
                None => final(self)@ == old(self)@,
            },
    {
        match value {
            Some(s) => {
                let t = str_trim(s.as_str());
                if t.unicode_len() > 0 {
                    self.params.push((String::from_str(key), String::from_str(t)));
                    proof {
                        assert(final(self)@.subrange(0, old(self)@.len() as int) =~= old(self)@);
                    }
                }
            },
            None => {},
        }
    }

    /// Hand the collected parameters out.
    pub fn into_vec(self) -> (r: Vec<(String, String)>)
        ensures
            r@ == self@,
    {
        self.params
    }
}

/// The emitted pairs carry exactly these key and value texts, in order.
pub open spec fn pairs_match(ps: Seq<(String, String)>, views: Seq<(Seq<char>, Seq<char>)>) -> bool {
    &&& ps.len() == views.len()
    &&& forall|i: int|
        0 <= i < ps.len() ==> (#[trigger] ps[i]).0@ == views[i].0 && ps[i].1@ == views[i].1
}

/// The pair a numeric parameter emits: one entry when present, none
/// otherwise.
pub open spec fn num_param(key: Seq<char>, v: Option<u32>) -> Seq<(Seq<char>, Seq<char>)> {
    match v {
        Some(n) => seq![(key, dec_str(n as int))],
        None => Seq::empty(),
    }
}

/// The pair a boolean parameter emits.
pub open spec fn flag_param(key: Seq<char>, v: Option<bool>) -> Seq<(Seq<char>, Seq<char>)> {
    match v {
        Some(b) => seq![(key, bool_str(b))],
        None => Seq::empty(),
    }
}

/// The pair a string parameter emits: its trimmed text when not blank.
pub open spec fn trimmed_param(key: Seq<char>, v: Option<String>) -> Seq<(Seq<char>, Seq<char>)> {
    match trimmed_filter(v) {
        Some(t) => seq![(key, t)],
        None => Seq::empty(),
    }
}

proof fn lemma_pairs_match_extend(
    ps: Seq<(String, String)>,
    qs: Seq<(String, String)>,
    views: Seq<(Seq<char>, Seq<char>)>,
    kv: (Seq<char>, Seq<char>),
)
    requires
        pairs_match(ps, views),
        qs.len() == ps.len() + 1,
        qs.subrange(0, ps.len() as int) == ps,
        qs.last().0@ == kv.0,
        qs.last().1@ == kv.1,
    ensures
        pairs_match(qs, views + seq![kv]),
{
    assert forall|i: int|
        0 <= i < qs.len() implies (#[trigger] qs[i]).0@ == (views + seq![kv])[i].0 && qs[i].1@ == (
    views + seq![kv])[i].1 by {
        if i < ps.len() {
            assert(qs.subrange(0, ps.len() as int)[i] == qs[i]);
        }
    }
}

/// Adapter contract for translating link list inputs into HTTP query
/// parameters: the adapter names the key/value texts it emits, and
/// `to_query_params` emits exactly those, in order.
pub trait LinkListQueryAdapter {
    /// The key/value texts the adapter emits, in order.
    spec fn query_params_view(&self) -> Seq<(Seq<char>, Seq<char>)>;

    fn to_query_params(&self) -> (r: Vec<(String, String)>)
        ensures
            pairs_match(r@, self.query_params_view()),
    ;
}

impl LinkListQueryAdapter for ListLinksQuery {
    open spec fn query_params_view(&self) -> Seq<(Seq<char>, Seq<char>)> {
        num_param("page"@, self.page) + num_param("per_page"@, self.per_page) + trimmed_param(
            "slug"@,
            self.slug,
        ) + trimmed_param("target_contains"@, self.target_contains) + flag_param(
            "active"@,
            self.active,
        ) + trimmed_param("created_before"@, self.created_before) + trimmed_param(
            "created_after"@,
            self.created_after,
        ) + trimmed_param("expires_before"@, self.expires_before) + trimmed_param(
            "expires_after"@,
            self.expires_after,
        )
    }

    fn to_query_params(&self) -> (r: Vec<(String, String)>) {
        let mut builder = QueryParamsBuilder::new();

        let ghost mut v: Seq<(Seq<char>, Seq<char>)> = Seq::empty();
        let ghost pre = builder@;
        let page_v = match self.page {
            Some(p) => Some(QueryValue::Number(p)),
            None => None,
        };
        builder.push_value("page", page_v);
        proof {
            extend_step(pre, builder@, v, num_param("page"@, self.page));
            v = v + num_param("page"@, self.page);
            assert(Seq::empty() + num_param("page"@, self.page) =~= num_param(
                "page"@,
                self.page,
            ));
        }

        let ghost pre = builder@;
        let per_page_v = match self.per_page {
            Some(p) => Some(QueryValue::Number(p)),
            None => None,
        };
        builder.push_value("per_page", per_page_v);
        proof {
            extend_step(pre, builder@, v, num_param("per_page"@, self.per_page));
            v = v + num_param("per_page"@, self.per_page);
        }

        let ghost pre = builder@;
        builder.push_trimmed("slug", &self.slug);
        proof {
            extend_step(pre, builder@, v, trimmed_param("slug"@, self.slug));
            v = v + trimmed_param("slug"@, self.slug);
        }

        let ghost pre = builder@;
        builder.push_trimmed("target_contains", &self.target_contains);
        proof {
            extend_step(pre, builder@, v, trimmed_param("target_contains"@, self.target_contains));
            v = v + trimmed_param("target_contains"@, self.target_contains);
        }

        let ghost pre = builder@;
        let active_v = match self.active {
            Some(b) => Some(QueryValue::Flag(b)),
            None => None,
        };
        builder.push_value("active", active_v);
        proof {
            extend_step(pre, builder@, v, flag_param("active"@, self.active));
            v = v + flag_param("active"@, self.active);
        }

        let ghost pre = builder@;
        builder.push_trimmed("created_before", &self.created_before);
        proof {
            extend_step(pre, builder@, v, trimmed_param("created_before"@, self.created_before));
            v = v + trimmed_param("created_before"@, self.created_before);
        }

        let ghost pre = builder@;
        builder.push_trimmed("created_after", &self.created_after);
        proof {
            extend_step(pre, builder@, v, trimmed_param("created_after"@, self.created_after));
            v = v + trimmed_param("created_after"@, self.created_after);
        }

        let ghost pre = builder@;
        builder.push_trimmed("expires_before", &self.expires_before);
        proof {
            extend_step(pre, builder@, v, trimmed_param("expires_before"@, self.expires_before));
            v = v + trimmed_param("expires_before"@, self.expires_before);
        }

        let ghost pre = builder@;
        builder.push_trimmed("expires_after", &self.expires_after);
        proof {
            extend_step(pre, builder@, v, trimmed_param("expires_after"@, self.expires_after));
            v = v + trimmed_param("expires_after"@, self.expires_after);
        }

        proof {
            assert(v == self.query_params_view());
        }
        builder.into_vec()
    }
}

/// One builder step appended the given segment (one pair, or nothing):
/// the matched view extends by that segment.
proof fn extend_step(
    pre: Seq<(String, String)>,
    post: Seq<(String, String)>,
    v: Seq<(Seq<char>, Seq<char>)>,
    seg: Seq<(Seq<char>, Seq<char>)>,
)
    requires
        pairs_match(pre, v),
        seg.len() <= 1,
        seg.len() == 0 ==> post == pre,
        seg.len() == 1 ==> post.len() == pre.len() + 1 && post.subrange(0, pre.len() as int) == pre
            && post.last().0@ == seg[0].0 && post.last().1@ == seg[0].1,
    ensures
        pairs_match(post, v + seg),
{
    if seg.len() == 0 {
        assert(v + seg =~= v);
    } else {
        lemma_pairs_match_extend(pre, post, v, seg[0]);
        assert(v + seq![seg[0]] =~= v + seg);
    }
}

} // verus!
