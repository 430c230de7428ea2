//! In-memory model of the link store: short-link rows keyed by a globally
//! unique slug, with the upsert and the generated-slug insert the creation
//! strategies build on.

use vstd::prelude::*;

verus! {

use crate::models::{AppError, TenantId};
use crate::slug::{generate_slug, generated_len, is_lower_hex};
use crate::strutil::str_eq;
use vstd::string::StringExecFns;

/// One persisted short-link row.
#[derive(Debug)]
pub struct LinkRecord {
    pub slug: String,
    pub target_url: String,
    pub is_active: bool,
    pub tenant_id: TenantId,
    pub created_at: i64,
    pub expires_at: Option<i64>,
}

/// The link store: rows in creation order, slugs globally unique.
pub struct LinkStore {
    links: Vec<LinkRecord>,
}

impl View for LinkStore {
    type V = Seq<LinkRecord>;

    closed spec fn view(&self) -> Seq<LinkRecord> {
        self.links@
    }
}

/// No two rows share a slug, whatever their tenants.
pub open spec fn slugs_unique(s: Seq<LinkRecord>) -> bool {
    forall|i: int, j: int| 0 <= i < j < s.len() ==> s[i].slug@ != s[j].slug@
}

/// Index of the first row from position `i` on holding `slug`, if any.
pub open spec fn find_slug_from(s: Seq<LinkRecord>, slug: Seq<char>, i: int) -> Option<int>
    decreases s.len() - i,
{
    if i < 0 || i >= s.len() {
        None
    } else if s[i].slug@ == slug {
        Some(i)
    } else {
        find_slug_from(s, slug, i + 1)
    }
}

/// Index of the row holding `slug`, if any.
pub open spec fn find_slug(s: Seq<LinkRecord>, slug: Seq<char>) -> Option<int> {
    find_slug_from(s, slug, 0)
}

/// Some row holds `slug`.
pub open spec fn has_slug(s: Seq<LinkRecord>, slug: Seq<char>) -> bool {
    find_slug(s, slug) is Some
}

/// A row freshly created by this call: the requested slug and target,
/// active, owned by the caller, stamped `now`, with no expiry.
pub open spec fn fresh_record(
    r: LinkRecord,
    slug: Seq<char>,
    target: Seq<char>,
    tenant: Seq<char>,
    now: i64,
) -> bool {
    &&& r.slug@ == slug
    &&& r.target_url@ == target
    &&& r.is_active == true
    &&& r.tenant_id.0@ == tenant
    &&& r.created_at == now
    &&& r.expires_at is None
}

/// A row overwritten in place: the new target, re-activated, everything
/// else as it was.
pub open spec fn overwritten_record(r: LinkRecord, prev: LinkRecord, target: Seq<char>) -> bool {
    &&& r.slug@ == prev.slug@
    &&& r.target_url@ == target
    &&& r.is_active == true
    &&& r.tenant_id.0@ == prev.tenant_id.0@
    &&& r.created_at == prev.created_at
    &&& r.expires_at == prev.expires_at
}

/// The `(slug, target_url, is_active)` triple a successful creation
/// reports.
pub open spec fn created_triple(t: (String, String, bool), slug: Seq<char>, target: Seq<char>) -> bool {
    &&& t.0@ == slug
    &&& t.1@ == target
    &&& t.2 == true
}

proof fn lemma_find_slug_characterized(s: Seq<LinkRecord>, slug: Seq<char>, i: int)
    requires
        0 <= i <= s.len(),
    ensures
        match find_slug_from(s, slug, i) {
            Some(j) => i <= j < s.len() && s[j].slug@ == slug,
            None => forall|k: int| i <= k < s.len() ==> s[k].slug@ != slug,
        },
    decreases s.len() - i,
{
    if i < s.len() && s[i].slug@ != slug {
        lemma_find_slug_characterized(s, slug, i + 1);
    }
}

impl LinkStore {
    /// All invariants of the store: slugs are globally unique.
    pub open spec fn wf(&self) -> bool {
        slugs_unique(self@)
    }

    /// An empty store.
    pub fn new() -> (r: LinkStore)
        ensures
            r@ =~= Seq::<LinkRecord>::empty(),
            r.wf(),
    {
        LinkStore { links: Vec::new() }
    }

    /// Number of rows.
    pub fn len(&self) -> (r: usize)
        ensures
            r == self@.len(),
    {
        self.links.len()
    }

    /// The row at position `i`.
    pub fn get(&self, i: usize) -> (r: &LinkRecord)
        requires
            i < self@.len(),
        ensures
            *r == self@[i as int],
    {
        &self.links[i]
    }

    /// Find the row holding `slug`.
    fn find_index(&self, slug: &str) -> (r: Option<usize>)
        ensures
            match r {
                Some(i) => i < self@.len() && find_slug(self@, slug@) == Some(i as int),
                None => find_slug(self@, slug@) is None,
            },
    {
        let n: usize = self.links.len();
        let mut i: usize = 0;
        while i < n
            invariant
                n == self@.len(),
                i <= n,
                find_slug(self@, slug@) == find_slug_from(self@, slug@, i as int),
            decreases n - i,
        {
            if str_eq(self.links[i].slug.as_str(), slug) {
                return Some(i);
            }
            i = i + 1;
        }
        None
    }

    /// Create or overwrite the row of `slug` for the requesting tenant.
    ///
    /// A missing slug is created for the tenant; the tenant's own slug is
    /// overwritten in place (new target, re-activated); a slug owned by a
    /// different tenant is refused with `Conflict` and nothing changes.
    pub fn upsert(&mut self, slug: &str, target_url: &str, tenant_id: &TenantId, now: i64) -> (r:
        Result<(String, String, bool), AppError>)
        requires
            old(self).wf(),
        ensures
            final(self).wf(),
            match find_slug(old(self)@, slug@) {
                None => {
                    &&& r matches Ok(t) && created_triple(t, slug@, target_url@)
                    &&& final(self)@.len() == old(self)@.len() + 1
                    &&& final(self)@.subrange(0, old(self)@.len() as int) == old(self)@
                    &&& fresh_record(final(self)@.last(), slug@, target_url@, tenant_id.0@, now)
                },
                Some(i) => (if old(self)@[i].tenant_id.0@ == tenant_id.0@ {
                    &&& r matches Ok(t) && created_triple(t, slug@, target_url@)
                    &&& final(self)@.len() == old(self)@.len()
                    &&& (forall|k: int|
                        0 <= k < old(self)@.len() && k != i ==> final(self)@[k] == old(self)@[k])
                    &&& overwritten_record(final(self)@[i], old(self)@[i], target_url@)
                } else {
                    &&& r == Err::<(String, String, bool), AppError>(AppError::Conflict)
                    &&& final(self)@ == old(self)@
                }),
            },
    {
        match self.find_index(slug) {
            None => {
                proof {
                    lemma_find_slug_characterized(self@, slug@, 0);
                }
                let rec = LinkRecord {
                    slug: String::from_str(slug),
                    target_url: String::from_str(target_url),
                    is_active: true,
                    tenant_id: TenantId(tenant_id.0.clone()),
                    created_at: now,
                    expires_at: None,
                };
                self.links.push(rec);
                proof {
                    assert(final(self)@.subrange(0, old(self)@.len() as int) =~= old(self)@);
                }
                Ok((String::from_str(slug), String::from_str(target_url), true))
            },
            Some(i) => {
                if str_eq(self.links[i].tenant_id.0.as_str(), tenant_id.0.as_str()) {
                    let prev = &self.links[i];
                    let rec = LinkRecord {
                        slug: prev.slug.clone(),
                        target_url: String::from_str(target_url),
                        is_active: true,
                        tenant_id: TenantId(prev.tenant_id.0.clone()),
                        created_at: prev.created_at,
                        expires_at: prev.expires_at,
                    };
                    self.links[i] = rec;
                    Ok((String::from_str(slug), String::from_str(target_url), true))
                } else {
                    Err(AppError::Conflict)
                }
            },
        }
    }

    /// Insert the row only if its slug is not taken; report whether it was
    /// inserted. An existing slug — whoever owns it — leaves the store
    /// unchanged.
    pub fn insert_new(&mut self, slug: &str, target_url: &str, tenant_id: &TenantId, now: i64) -> (r:
        bool)
        requires
            old(self).wf(),
        ensures
            final(self).wf(),
            if has_slug(old(self)@, slug@) {
                &&& r == false
                &&& final(self)@ == old(self)@
            } else {
                &&& r == true
                &&& final(self)@.len() == old(self)@.len() + 1
                &&& final(self)@.subrange(0, old(self)@.len() as int) == old(self)@
                &&& fresh_record(final(self)@.last(), slug@, target_url@, tenant_id.0@, now)
            },
    {
        match self.find_index(slug) {
            Some(_) => false,
            None => {
                proof {
                    lemma_find_slug_characterized(self@, slug@, 0);
                }
                let rec = LinkRecord {
                    slug: String::from_str(slug),
                    target_url: String::from_str(target_url),
                    is_active: true,
                    tenant_id: TenantId(tenant_id.0.clone()),
                    created_at: now,
                    expires_at: None,
                };
                self.links.push(rec);
                proof {
                    assert(final(self)@.subrange(0, old(self)@.len() as int) =~= old(self)@);
                }
                true
            },
        }
    }

    /// Look a slug up for redirecting: the target of an active, unexpired
    /// row, if the slug has one.
    pub fn resolve(&self, slug: &str, now: i64) -> (r: Option<String>)
        ensures
            match find_slug(self@, slug@) {
                Some(i) => (if self@[i].is_active && (self@[i].expires_at is None
                    || self@[i].expires_at->0 > now) {
                    r matches Some(t) && t@ == self@[i].target_url@
                } else {
                    r is None
                }),
                None => r is None,
            },
    {
        match self.find_index(slug) {
            Some(i) => {
                let rec = &self.links[i];
                let live = match rec.expires_at {
                    None => true,
                    Some(e) => e > now,
                };
                if rec.is_active && live {
                    Some(rec.target_url.clone())
                } else {
                    None
                }
            },
            None => None,
        }
    }
}

/// Index of the first candidate from position `i` on whose slug is not in
/// the store, if any.
pub open spec fn first_fresh(s: Seq<LinkRecord>, cands: Seq<String>, i: int) -> Option<int>
    decreases cands.len() - i,
{
    if i < 0 || i >= cands.len() {
        None
    } else if !has_slug(s, cands[i]@) {
        Some(i)
    } else {
        first_fresh(s, cands, i + 1)
    }
}

impl LinkStore {
    /// Try each candidate slug in order, inserting the first one that is
    /// free.
    ///
    /// If every candidate collides with an existing row, the attempt is
    /// exhausted: the result is `Exhausted` and the store is unchanged —
    /// no partial state is left behind.
    pub fn create_with_candidates(
        &mut self,
        candidates: &Vec<String>,
        target_url: &str,
        tenant_id: &TenantId,
        now: i64,
    ) -> (r: Result<(String, String, bool), AppError>)
        requires
            old(self).wf(),
        ensures
            final(self).wf(),
            match first_fresh(old(self)@, candidates@, 0) {
                Some(i) => {
                    &&& r matches Ok(t) && created_triple(t, candidates@[i]@, target_url@)
                    &&& final(self)@.len() == old(self)@.len() + 1
                    &&& final(self)@.subrange(0, old(self)@.len() as int) == old(self)@
                    &&& fresh_record(
                        final(self)@.last(),
                        candidates@[i]@,
                        target_url@,
                        tenant_id.0@,
                        now,
                    )
                },
                None => {
                    &&& r == Err::<(String, String, bool), AppError>(AppError::Exhausted)
                    &&& final(self)@ == old(self)@
                },
            },
    {
        let n: usize = candidates.len();
        let mut k: usize = 0;
        while k < n
            invariant
                old(self).wf(),
                n == candidates@.len(),
                k <= n,
                self@ == old(self)@,
                first_fresh(old(self)@, candidates@, 0) == first_fresh(
                    old(self)@,
                    candidates@,
                    k as int,
                ),
            decreases n - k,
        {
            let cand = &candidates[k];
            if self.insert_new(cand.as_str(), target_url, tenant_id, now) {
                return Ok((cand.clone(), String::from_str(target_url), true));
            }
            k = k + 1;
        }
        Err(AppError::Exhausted)
    }
}

/// How many candidate slugs a generated-slug creation tries before it
/// reports exhaustion.
pub const MAX_SLUG_ATTEMPTS: usize = 5;

/// The shape every generated slug has: even length of at least six,
/// lowercase hexadecimal throughout.
pub open spec fn generated_slug_shape(s: Seq<char>) -> bool {
    &&& s.len() % 2 == 0
    &&& s.len() >= 6
    &&& forall|i: int| 0 <= i < s.len() ==> is_lower_hex(s[i])
}

impl LinkStore {
    /// Create a row under a freshly generated slug, retrying on collision
    /// up to [`MAX_SLUG_ATTEMPTS`] times.
    ///
    /// On success the new row carries a slug of the generated shape that
    /// was free beforehand; when every attempt collides the result is
    /// `Exhausted` and the store is unchanged. Success is owed whenever no
    /// stored slug even has the generated length — in particular on an
    /// empty store — since no draw can then collide.
    pub fn create_with_generated_slug(
        &mut self,
        target_url: &str,
        min_len: usize,
        tenant_id: &TenantId,
        now: i64,
    ) -> (r: Result<(String, String, bool), AppError>)
        requires
            old(self).wf(),
        ensures
            final(self).wf(),
            (forall|i: int|
                0 <= i < old(self)@.len() ==> (#[trigger] old(self)@[i]).slug@.len()
                    != generated_len(min_len as int)) ==> r is Ok,
            match r {
                Ok(t) => {
                    &&& t.1@ == target_url@ && t.2 == true
                    &&& generated_slug_shape(t.0@)
                    &&& t.0@.len() >= min_len
                    &&& !has_slug(old(self)@, t.0@)
                    &&& final(self)@.len() == old(self)@.len() + 1
                    &&& final(self)@.subrange(0, old(self)@.len() as int) == old(self)@
                    &&& fresh_record(final(self)@.last(), t.0@, target_url@, tenant_id.0@, now)
                },
                Err(e) => {
                    &&& e == AppError::Exhausted
                    &&& final(self)@ == old(self)@
                },
            },
    {
        let mut candidates: Vec<String> = Vec::new();
        let mut k: usize = 0;
        while k < MAX_SLUG_ATTEMPTS
            invariant
                k <= MAX_SLUG_ATTEMPTS,
                candidates@.len() == k,
                forall|i: int|
                    0 <= i < k ==> generated_slug_shape(#[trigger] candidates@[i]@)
                        && candidates@[i]@.len() >= min_len && candidates@[i]@.len()
                        == generated_len(min_len as int),
            decreases MAX_SLUG_ATTEMPTS - k,
        {
            candidates.push(generate_slug(min_len));
            k = k + 1;
        }
        proof {
            lemma_first_fresh_characterized(old(self)@, candidates@, 0);
            if forall|i: int|
                0 <= i < old(self)@.len() ==> (#[trigger] old(self)@[i]).slug@.len()
                    != generated_len(min_len as int) {
                lemma_find_slug_characterized(old(self)@, candidates@[0]@, 0);
                if has_slug(old(self)@, candidates@[0]@) {
                    let j = find_slug(old(self)@, candidates@[0]@)->0;
                    assert(old(self)@[j].slug@.len() == generated_len(min_len as int));
                }
                assert(first_fresh(old(self)@, candidates@, 0) == Some(0int));
            }
        }
        self.create_with_candidates(&candidates, target_url, tenant_id, now)
    }
}

proof fn lemma_first_fresh_characterized(s: Seq<LinkRecord>, cands: Seq<String>, i: int)
    requires
        0 <= i <= cands.len(),
    ensures
        match first_fresh(s, cands, i) {
            Some(j) => i <= j < cands.len() && !has_slug(s, cands[j]@),
            None => forall|k: int| i <= k < cands.len() ==> has_slug(s, cands[k]@),
        },
    decreases cands.len() - i,
{
    if i < cands.len() && has_slug(s, cands[i]@) {
        lemma_first_fresh_characterized(s, cands, i + 1);
    }
}

} // verus!
