//! Link creation and listing on top of the store: strategy selection
//! between a caller-provided and a generated slug, the creation flow, and
//! the scoped, filtered, paginated listing.

use vstd::prelude::*;

verus! {

use crate::auth::{opt_str_view, ApiKeyAuth};
use crate::models::{AppError, TenantId};
use crate::store::{
    find_slug, fresh_record, generated_slug_shape, has_slug, overwritten_record, LinkRecord,
    LinkStore,
};
use crate::strutil::{contains_ci, str_contains_ci, str_eq, str_trim, trim_spec};
use crate::time::{parse_rfc3339_epoch, rfc3339_epoch};
use vstd::string::StrSliceExecFns;
use vstd::string::StringExecFns;
use vstd::utf8::encode_utf8;

/// Body of a creation request: an optional slug (absent or blank means a
/// generated one) and the target URL.
#[derive(Debug)]
pub struct CreateLinkRequest {
    pub slug: Option<String>,
    pub target_url: String,
}

/// What a creation or listing reports for one link.
#[derive(Debug)]
pub struct LinkResponse {
    pub slug: String,
    pub target_url: String,
    pub active: bool,
}

/// Strategy that upserts a caller-provided slug.
#[derive(Debug)]
pub struct ProvidedSlugStrategy {
    pub slug: String,
}

impl ProvidedSlugStrategy {
    pub fn new(slug: String) -> (r: Self)
        ensures
            r.slug == slug,
    {
        ProvidedSlugStrategy { slug }
    }

    pub fn label(&self) -> (r: &'static str)
        ensures
            r@ == "provided_slug"@,
    {
        "provided_slug"
    }
}

/// Strategy that inserts under a generated slug with a length floor.
#[derive(Debug)]
pub struct GeneratedSlugStrategy {
    pub min_len: usize,
}

impl GeneratedSlugStrategy {
    pub fn new(min_len: usize) -> (r: Self)
        ensures
            r.min_len == min_len,
    {
        GeneratedSlugStrategy { min_len }
    }

    pub fn label(&self) -> (r: &'static str)
        ensures
            r@ == "generated_slug"@,
    {
        "generated_slug"
    }
}

/// The two creation strategies, as a tagged choice.
#[derive(Debug)]
pub enum LinkCreationStrategy {
    Provided(ProvidedSlugStrategy),
    Generated(GeneratedSlugStrategy),
}

/// Length floor for generated slugs.
pub const DEFAULT_MIN_SLUG_LEN: usize = 6;

/// The slug a request effectively provides: its slug after trimming, or
/// nothing when the field is absent or blank.
pub open spec fn provided_slug_view(slug: Option<String>) -> Option<Seq<char>> {
    match slug {
        Some(s) => if trim_spec(s@).len() > 0 {
            Some(trim_spec(s@))
        } else {
            None
        },
        None => None,
    }
}

/// Pick the creation strategy: a non-blank provided slug selects the
/// provided-slug strategy on its trimmed form, anything else the
/// generated-slug strategy at the default floor.
pub fn select_strategy(slug: &Option<String>) -> (r: LinkCreationStrategy)
    ensures
        match provided_slug_view(*slug) {
            Some(ps) => r matches LinkCreationStrategy::Provided(p) && p.slug@ == ps,
            None => r matches LinkCreationStrategy::Generated(g) && g.min_len
                == DEFAULT_MIN_SLUG_LEN,
        },
{
    match slug {
        Some(s) => {
            let t = str_trim(s.as_str());
            if t.unicode_len() > 0 {
                LinkCreationStrategy::Provided(ProvidedSlugStrategy::new(String::from_str(t)))
            } else {
                LinkCreationStrategy::Generated(GeneratedSlugStrategy::new(DEFAULT_MIN_SLUG_LEN))
            }
        },
        None => LinkCreationStrategy::Generated(GeneratedSlugStrategy::new(DEFAULT_MIN_SLUG_LEN)),
    }
}

/// The response reports this slug and target, active.
pub open spec fn response_is(a: LinkResponse, slug: Seq<char>, target: Seq<char>) -> bool {
    &&& a.slug@ == slug
    &&& a.target_url@ == target
    &&& a.active == true
}

/// What the provided-slug path does to the store: create a missing slug,
/// overwrite the tenant's own, refuse another tenant's with `Conflict`.
pub open spec fn upsert_outcome(
    pre: Seq<LinkRecord>,
    post: Seq<LinkRecord>,
    r: Result<LinkResponse, AppError>,
    slug: Seq<char>,
    target: Seq<char>,
    tenant: Seq<char>,
    now: i64,
) -> bool {
    match find_slug(pre, slug) {
        None => {
            &&& r matches Ok(a) && response_is(a, slug, target)
            &&& post.len() == pre.len() + 1
            &&& post.subrange(0, pre.len() as int) == pre
            &&& fresh_record(post.last(), slug, target, tenant, now)
        },
        Some(i) => (if pre[i].tenant_id.0@ == tenant {
            &&& r matches Ok(a) && response_is(a, slug, target)
            &&& post.len() == pre.len()
            &&& (forall|k: int| 0 <= k < pre.len() && k != i ==> post[k] == pre[k])
            &&& overwritten_record(post[i], pre[i], target)
        } else {
            &&& r matches Err(e) && e == AppError::Conflict
            &&& post == pre
        }),
    }
}

/// What the generated-slug path does to the store: append one row under a
/// fresh slug of the generated shape, or report `Exhausted` and leave the
/// store unchanged.
pub open spec fn generated_outcome(
    pre: Seq<LinkRecord>,
    post: Seq<LinkRecord>,
    r: Result<LinkResponse, AppError>,
    target: Seq<char>,
    tenant: Seq<char>,
    now: i64,
) -> bool {
    match r {
        Ok(a) => {
            &&& a.target_url@ == target && a.active == true
            &&& generated_slug_shape(a.slug@)
            &&& !has_slug(pre, a.slug@)
            &&& post.len() == pre.len() + 1
            &&& post.subrange(0, pre.len() as int) == pre
            &&& fresh_record(post.last(), a.slug@, target, tenant, now)
        },
        Err(e) => {
            &&& e == AppError::Exhausted
            &&& post == pre
        },
    }
}

/// Create a short link for the authenticated caller.
///
/// A caller without a tenant scope — including a master caller — is
/// refused with `Forbidden`. Otherwise a non-blank provided slug is
/// upserted for the tenant, and an absent or blank slug selects the
/// generated-slug strategy with its bounded collision retry; that path
/// owes success whenever no stored slug even has the generated length.
pub fn create_link(store: &mut LinkStore, auth: &ApiKeyAuth, req: &CreateLinkRequest, now: i64) -> (r:
    Result<LinkResponse, AppError>)
    requires
        old(store).wf(),
    ensures
        final(store).wf(),
        (auth.tenant_id is Some && provided_slug_view(req.slug) is None && (forall|i: int|
            0 <= i < old(store)@.len() ==> (#[trigger] old(store)@[i]).slug@.len()
                != crate::slug::generated_len(DEFAULT_MIN_SLUG_LEN as int))) ==> r is Ok,
        match auth.tenant_id {
            None => r matches Err(e) && e == AppError::Forbidden && final(store)@ == old(store)@,
            Some(t) => match provided_slug_view(req.slug) {
                Some(ps) => upsert_outcome(
                    old(store)@,
                    final(store)@,
                    r,
                    ps,
                    req.target_url@,
                    t.0@,
                    now,
                ),
                None => generated_outcome(
                    old(store)@,
                    final(store)@,
                    r,
                    req.target_url@,
                    t.0@,
                    now,
                ),
            },
        },
{
    let tenant = match &auth.tenant_id {
        Some(t) => t,
        None => {
            return Err(AppError::Forbidden);
        },
    };
    match select_strategy(&req.slug) {
        LinkCreationStrategy::Provided(p) => {
            match store.upsert(p.slug.as_str(), req.target_url.as_str(), tenant, now) {
                Ok(t3) => Ok(LinkResponse { slug: t3.0, target_url: t3.1, active: t3.2 }),
                Err(e) => Err(e),
            }
        },
        LinkCreationStrategy::Generated(g) => {
            match store.create_with_generated_slug(
                req.target_url.as_str(),
                g.min_len,
                tenant,
                now,
            ) {
                Ok(t3) => Ok(LinkResponse { slug: t3.0, target_url: t3.1, active: t3.2 }),
                Err(e) => Err(e),
            }
        },
    }
}

/// What the redirect endpoint answers for a resolution outcome: the
/// status code, the redirect target if any, and whether the response may
/// be cached briefly (a hit) or must not be (a miss or a failure).
pub fn redirect_decision(resolved: Result<Option<String>, AppError>) -> (r: (
    u16,
    Option<String>,
    bool,
))
    ensures
        match resolved {
            Ok(Some(target)) => r.0 == 307 && (r.1 matches Some(t) && t@ == target@) && r.2 == true,
            Ok(None) => r.0 == 404 && r.1 is None && r.2 == false,
            Err(_) => r.0 == 500 && r.1 is None && r.2 == false,
        },
{
    match resolved {
        Ok(Some(target)) => (307, Some(target), true),
        Ok(None) => (404, None, false),
        Err(_) => (500, None, false),
    }
}

/// The scope a list request runs under.
#[derive(Debug)]
pub enum ListScope {
    Master,
    Tenant(TenantId),
}

/// Whether a row is visible under a scope: the master scope sees every
/// tenant's rows, a tenant scope only its own.
pub open spec fn scope_allows(scope: ListScope, r: LinkRecord) -> bool {
    match scope {
        ListScope::Master => true,
        ListScope::Tenant(t) => r.tenant_id.0@ == t.0@,
    }
}

/// The scope of an authenticated caller: master sees everything, a tenant
/// itself; a caller with neither is refused.
pub fn list_scope(auth: &ApiKeyAuth) -> (r: Result<ListScope, AppError>)
    ensures
        if auth.is_master {
            r matches Ok(s) && s matches ListScope::Master
        } else {
            match auth.tenant_id {
                Some(t) => r matches Ok(s) && (s matches ListScope::Tenant(st) && st.0@ == t.0@),
                None => r matches Err(e) && e == AppError::Forbidden,
            }
        },
{
    if auth.is_master {
        Ok(ListScope::Master)
    } else {
        match &auth.tenant_id {
            Some(t) => Ok(ListScope::Tenant(TenantId(t.0.clone()))),
            None => Err(AppError::Forbidden),
        }
    }
}

/// Normalized filters of a list request. Timestamps are epoch seconds.
#[derive(Debug)]
pub struct LinkFilters {
    pub slug: Option<String>,
    pub target_contains: Option<String>,
    pub active: Option<bool>,
    pub created_before: Option<i64>,
    pub created_after: Option<i64>,
    pub expires_before: Option<i64>,
    pub expires_after: Option<i64>,
}

/// Whether a row passes every present filter. A row without an expiry
/// fails either expiry filter, as a null comparison would.
pub open spec fn filters_allow(f: LinkFilters, r: LinkRecord) -> bool {
    &&& (f.slug matches Some(s) ==> r.slug@ == s@)
    &&& (f.target_contains matches Some(c) ==> contains_ci(
        encode_utf8(r.target_url@),
        encode_utf8(c@),
    ))
    &&& (f.active matches Some(a) ==> r.is_active == a)
    &&& (f.created_before matches Some(t) ==> r.created_at < t)
    &&& (f.created_after matches Some(t) ==> r.created_at > t)
    &&& (f.expires_before matches Some(t) ==> r.expires_at matches Some(e) && e < t)
    &&& (f.expires_after matches Some(t) ==> r.expires_at matches Some(e) && e > t)
}

fn record_passes(rec: &LinkRecord, scope: &ListScope, f: &LinkFilters) -> (r: bool)
    ensures
        r == (scope_allows(*scope, *rec) && filters_allow(*f, *rec)),
{
    let scope_ok = match scope {
        ListScope::Master => true,
        ListScope::Tenant(t) => str_eq(rec.tenant_id.0.as_str(), t.0.as_str()),
    };
    if !scope_ok {
        return false;
    }
    match &f.slug {
        Some(s) => if !str_eq(rec.slug.as_str(), s.as_str()) {
            return false;
        },
        None => {},
    }
    match &f.target_contains {
        Some(c) => if !str_contains_ci(rec.target_url.as_str(), c.as_str()) {
            return false;
        },
        None => {},
    }
    match f.active {
        Some(a) => if rec.is_active != a {
            return false;
        },
        None => {},
    }
    match f.created_before {
        Some(t) => if rec.created_at >= t {
            return false;
        },
        None => {},
    }
    match f.created_after {
        Some(t) => if rec.created_at <= t {
            return false;
        },
        None => {},
    }
    match f.expires_before {
        Some(t) => match rec.expires_at {
            Some(e) => if e >= t {
                return false;
            },
            None => {
                return false;
            },
        },
        None => {},
    }
    match f.expires_after {
        Some(t) => match rec.expires_at {
            Some(e) => if e <= t {
                return false;
            },
            None => {
                return false;
            },
        },
        None => {},
    }
    true
}

/// The rows among positions `j` and up that the scope and filters admit,
/// newest (highest position) first.
pub open spec fn matching_desc(
    s: Seq<LinkRecord>,
    scope: ListScope,
    f: LinkFilters,
    j: int,
) -> Seq<LinkRecord>
    decreases s.len() - j,
{
    if j < 0 || j >= s.len() {
        Seq::empty()
    } else {
        let rest = matching_desc(s, scope, f, j + 1);
        if scope_allows(scope, s[j]) && filters_allow(f, s[j]) {
            rest.push(s[j])
        } else {
            rest
        }
    }
}

/// The page number a request resolves to: one-based, floored at one.
pub open spec fn page_num(page: Option<u32>) -> u32 {
    match page {
        None => 1u32,
        Some(p) => if p < 1 {
            1u32
        } else {
            p
        },
    }
}

/// The page size a request resolves to: twenty by default, clamped into
/// `[1, 100]`.
pub open spec fn page_size(per_page: Option<u32>) -> u32 {
    match per_page {
        None => 20u32,
        Some(p) => if p < 1 {
            1u32
        } else if p > 100 {
            100u32
        } else {
            p
        },
    }
}

/// Resolve the raw pagination parameters to the effective page number and
/// page size.
pub fn page_window(page: Option<u32>, per_page: Option<u32>) -> (r: (u32, u32))
    ensures
        r.0 == page_num(page),
        r.1 == page_size(per_page),
        r.0 >= 1,
        1 <= r.1 <= 100,
{
    let pg = match page {
        None => 1,
        Some(p) => if p < 1 {
            1
        } else {
            p
        },
    };
    let pp = match per_page {
        None => 20,
        Some(p) => if p < 1 {
            1
        } else if p > 100 {
            100
        } else {
            p
        },
    };
    (pg, pp)
}

pub open spec fn spec_min(a: int, b: int) -> int {
    if a <= b {
        a
    } else {
        b
    }
}

/// The window a list request returns: the requested page of the matching
/// rows, newest first.
pub open spec fn list_window(
    s: Seq<LinkRecord>,
    scope: ListScope,
    f: LinkFilters,
    page: Option<u32>,
    per_page: Option<u32>,
) -> Seq<LinkRecord> {
    let all = matching_desc(s, scope, f, 0);
    let pp = page_size(per_page) as int;
    let off = (page_num(page) - 1) * pp;
    all.subrange(spec_min(off, all.len() as int), spec_min(off + pp, all.len() as int))
}

/// The reported triples carry exactly these rows' slug, target and
/// active flag, in order.
pub open spec fn triples_of(acc: Seq<(String, String, bool)>, recs: Seq<LinkRecord>) -> bool {
    &&& acc.len() == recs.len()
    &&& forall|i: int|
        0 <= i < recs.len() ==> (#[trigger] acc[i]).0@ == recs[i].slug@ && acc[i].1@
            == recs[i].target_url@ && acc[i].2 == recs[i].is_active
}

/// List the rows a scope may see, under the given filters, as the
/// requested page of `(slug, target_url, is_active)` triples, newest row
/// first.
pub fn list_links(
    store: &LinkStore,
    scope: &ListScope,
    filters: &LinkFilters,
    page: Option<u32>,
    per_page: Option<u32>,
) -> (r: Vec<(String, String, bool)>)
    ensures
        triples_of(r@, list_window(store@, *scope, *filters, page, per_page)),
{
    let n: usize = store.len();
    let mut acc: Vec<(String, String, bool)> = Vec::new();
    let mut j: usize = n;
    while j > 0
        invariant
            n == store@.len(),
            j <= n,
            triples_of(acc@, matching_desc(store@, *scope, *filters, j as int)),
        decreases j,
    {
        j = j - 1;
        let rec = store.get(j);
        if record_passes(rec, scope, filters) {
            acc.push((rec.slug.clone(), rec.target_url.clone(), rec.is_active));
        }
    }
    let (pg, pp) = page_window(page, per_page);
    proof {
        vstd::arithmetic::mul::lemma_mul_upper_bound(
            pg as int - 1,
            0xFFFF_FFFEint,
            pp as int,
            100,
        );
    }
    let off64: u64 = ((pg - 1) as u64) * (pp as u64);
    let total: usize = acc.len();
    let lo: usize = if off64 >= total as u64 {
        total
    } else {
        off64 as usize
    };
    let hi64: u64 = off64 + (pp as u64);
    let hi: usize = if hi64 >= total as u64 {
        total
    } else {
        hi64 as usize
    };
    let ghost all = matching_desc(store@, *scope, *filters, 0);
    proof {
        assert(lo == spec_min(off64 as int, all.len() as int));
        assert(hi == spec_min(off64 as int + pp as int, all.len() as int));
    }
    let mut out: Vec<(String, String, bool)> = Vec::new();
    let mut t: usize = lo;
    while t < hi
        invariant
            lo <= t <= hi,
            hi <= acc@.len(),
            out@.len() == t - lo,
            triples_of(acc@, all),
            forall|i: int|
                0 <= i < out@.len() ==> (#[trigger] out@[i]).0@ == acc@[lo + i].0@ && out@[i].1@
                    == acc@[lo + i].1@ && out@[i].2 == acc@[lo + i].2,
        decreases hi - t,
    {
        let item = &acc[t];
        out.push((item.0.clone(), item.1.clone(), item.2));
        t = t + 1;
    }
    proof {
        let w = list_window(store@, *scope, *filters, page, per_page);
        assert(w =~= all.subrange(lo as int, hi as int));
        assert(triples_of(out@, w));
    }
    out
}

proof fn lemma_matching_desc_sound(s: Seq<LinkRecord>, scope: ListScope, f: LinkFilters, j: int)
    requires
        0 <= j <= s.len(),
    ensures
        forall|i: int|
            0 <= i < matching_desc(s, scope, f, j).len() ==> {
                let rec = #[trigger] matching_desc(s, scope, f, j)[i];
                scope_allows(scope, rec) && filters_allow(f, rec) && s.contains(rec)
            },
    decreases s.len() - j,
{
    if 0 <= j < s.len() {
        lemma_matching_desc_sound(s, scope, f, j + 1);
    }
}

/// Listing law: every row of a listed page passed the scope and the
/// filters — a tenant-scoped page holds only that tenant's rows — and the
/// page never exceeds the clamped page size, which lies in `[1, 100]`;
/// the page number is floored at one.
pub proof fn lemma_list_scoped_and_bounded(
    s: Seq<LinkRecord>,
    scope: ListScope,
    f: LinkFilters,
    page: Option<u32>,
    per_page: Option<u32>,
)
    ensures
        list_window(s, scope, f, page, per_page).len() <= page_size(per_page),
        1 <= page_size(per_page) <= 100,
        page_num(page) >= 1,
        forall|i: int|
            0 <= i < list_window(s, scope, f, page, per_page).len() ==> {
                let rec = #[trigger] list_window(s, scope, f, page, per_page)[i];
                scope_allows(scope, rec) && filters_allow(f, rec) && s.contains(rec)
            },
{
    lemma_matching_desc_sound(s, scope, f, 0);
}

/// The rows carry non-decreasing creation stamps along their positions —
/// which holds whenever the store only ever grew under a non-decreasing
/// clock, since every creation appends.
pub open spec fn created_sorted(s: Seq<LinkRecord>) -> bool {
    forall|i: int, j: int| 0 <= i <= j < s.len() ==> s[i].created_at <= s[j].created_at
}

proof fn lemma_matching_desc_ordered(s: Seq<LinkRecord>, scope: ListScope, f: LinkFilters, j: int)
    requires
        0 <= j <= s.len(),
        created_sorted(s),
    ensures
        forall|a: int, b: int|
            0 <= a <= b < matching_desc(s, scope, f, j).len() ==> matching_desc(
                s,
                scope,
                f,
                j,
            )[a].created_at >= matching_desc(s, scope, f, j)[b].created_at,
        j < s.len() ==> forall|a: int|
            0 <= a < matching_desc(s, scope, f, j).len() ==> (#[trigger] matching_desc(
                s,
                scope,
                f,
                j,
            )[a]).created_at >= s[j].created_at,
    decreases s.len() - j,
{
    if 0 <= j < s.len() {
        lemma_matching_desc_ordered(s, scope, f, j + 1);
    }
}

/// Listing law, order side: when the store's rows carry non-decreasing
/// creation stamps — every creation appends, so a non-decreasing clock
/// keeps them that way — a listed page runs newest first.
pub proof fn lemma_list_newest_first(
    s: Seq<LinkRecord>,
    scope: ListScope,
    f: LinkFilters,
    page: Option<u32>,
    per_page: Option<u32>,
)
    requires
        created_sorted(s),
    ensures
        forall|a: int, b: int|
            0 <= a <= b < list_window(s, scope, f, page, per_page).len() ==> list_window(
                s,
                scope,
                f,
                page,
                per_page,
            )[a].created_at >= list_window(s, scope, f, page, per_page)[b].created_at,
{
    lemma_matching_desc_ordered(s, scope, f, 0);
}

/// No filter is present.
pub open spec fn no_filters(f: LinkFilters) -> bool {
    &&& f.slug is None
    &&& f.target_contains is None
    &&& f.active is None
    &&& f.created_before is None
    &&& f.created_after is None
    &&& f.expires_before is None
    &&& f.expires_after is None
}

proof fn lemma_matching_desc_unfiltered(s: Seq<LinkRecord>, f: LinkFilters, j: int)
    requires
        0 <= j <= s.len(),
        no_filters(f),
    ensures
        matching_desc(s, ListScope::Master, f, j) == s.subrange(j, s.len() as int).reverse(),
    decreases s.len() - j,
{
    if j < s.len() {
        lemma_matching_desc_unfiltered(s, f, j + 1);
        assert(matching_desc(s, ListScope::Master, f, j) =~= s.subrange(
            j,
            s.len() as int,
        ).reverse());
    } else {
        assert(matching_desc(s, ListScope::Master, f, j) =~= s.subrange(
            j,
            s.len() as int,
        ).reverse());
    }
}

/// Listing law, master side: under the master scope with no filters,
/// the matching rows are every tenant's rows — the whole store, newest
/// first — before pagination cuts its page.
pub proof fn lemma_master_unfiltered_sees_all(s: Seq<LinkRecord>, f: LinkFilters)
    requires
        no_filters(f),
    ensures
        matching_desc(s, ListScope::Master, f, 0) == s.reverse(),
{
    lemma_matching_desc_unfiltered(s, f, 0);
    assert(s.subrange(0, s.len() as int) =~= s);
}

/// The classification a raw timestamp filter falls under: absent or blank
/// is no filter, a valid timestamp is its epoch second, anything else is
/// invalid (the outer `None`).
pub open spec fn ts_filter_spec(v: Option<String>) -> Option<Option<i64>> {
    match v {
        None => Some(None),
        Some(s) => if trim_spec(s@).len() == 0 {
            Some(None)
        } else {
            match rfc3339_epoch(trim_spec(s@)) {
                Some(t) => Some(Some(t)),
                None => None,
            }
        },
    }
}

fn parse_ts_filter(v: &Option<String>) -> (r: Result<Option<i64>, AppError>)
    ensures
        match ts_filter_spec(*v) {
            Some(x) => r == Ok::<Option<i64>, AppError>(x),
            None => r == Err::<Option<i64>, AppError>(AppError::InvalidTimestamp),
        },
{
    match v {
        None => Ok(None),
        Some(s) => {
            let t = str_trim(s.as_str());
            if t.unicode_len() == 0 {
                Ok(None)
            } else {
                match parse_rfc3339_epoch(t) {
                    Some(e) => Ok(Some(e)),
                    None => Err(AppError::InvalidTimestamp),
                }
            }
        },
    }
}

/// A trimmed, non-blank string filter, or nothing.
pub open spec fn trimmed_filter(v: Option<String>) -> Option<Seq<char>> {
    match v {
        Some(s) => if trim_spec(s@).len() > 0 {
            Some(trim_spec(s@))
        } else {
            None
        },
        None => None,
    }
}

fn trim_filter(v: &Option<String>) -> (r: Option<String>)
    ensures
        opt_str_view(r) == trimmed_filter(*v),
{
    match v {
        Some(s) => {
            let t = str_trim(s.as_str());
            if t.unicode_len() > 0 {
                Some(String::from_str(t))
            } else {
                None
            }
        },
        None => None,
    }
}

/// Raw query parameters of a list request, as they arrive on the wire.
#[derive(Debug)]
pub struct ListLinksQuery {
    pub page: Option<u32>,
    pub per_page: Option<u32>,
    pub slug: Option<String>,
    pub target_contains: Option<String>,
    pub active: Option<bool>,
    pub created_before: Option<String>,
    pub created_after: Option<String>,
    pub expires_before: Option<String>,
    pub expires_after: Option<String>,
}

impl ListLinksQuery {
    /// Normalize the raw query into filters: trim the string filters away
    /// when blank, and parse each timestamp — any invalid timestamp
    /// refuses the whole request.
    pub fn to_filters(&self) -> (r: Result<LinkFilters, AppError>)
        ensures
            (r is Ok) == (ts_filter_spec(self.created_before) is Some && ts_filter_spec(
                self.created_after,
            ) is Some && ts_filter_spec(self.expires_before) is Some && ts_filter_spec(
                self.expires_after,
            ) is Some),
            r matches Ok(f) ==> {
                &&& opt_str_view(f.slug) == trimmed_filter(self.slug)
                &&& opt_str_view(f.target_contains) == trimmed_filter(self.target_contains)
                &&& f.active == self.active
                &&& Some(f.created_before) == ts_filter_spec(self.created_before)
                &&& Some(f.created_after) == ts_filter_spec(self.created_after)
                &&& Some(f.expires_before) == ts_filter_spec(self.expires_before)
                &&& Some(f.expires_after) == ts_filter_spec(self.expires_after)
            },
            r matches Err(e) ==> e == AppError::InvalidTimestamp,
    {
        let created_before = match parse_ts_filter(&self.created_before) {
            Ok(x) => x,
            Err(e) => {
                return Err(e);
            },
        };
        let created_after = match parse_ts_filter(&self.created_after) {
            Ok(x) => x,
            Err(e) => {
                return Err(e);
            },
        };
        let expires_before = match parse_ts_filter(&self.expires_before) {
            Ok(x) => x,
            Err(e) => {
                return Err(e);
            },
        };
        let expires_after = match parse_ts_filter(&self.expires_after) {
            Ok(x) => x,
            Err(e) => {
                return Err(e);
            },
        };
        Ok(
            LinkFilters {
                slug: trim_filter(&self.slug),
                target_contains: trim_filter(&self.target_contains),
                active: self.active,
                created_before,
                created_after,
                expires_before,
                expires_after,
            },
        )
    }
}

} // verus!
