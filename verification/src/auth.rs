//! Tenant-scoped API-key authentication: resolving a presented key and
//! optional client id against the in-memory key bindings.
//!
//! A matching master key is honoured before any per-tenant key and works
//! with or without a client id; a per-tenant key is honoured only together
//! with its configured client id.

use vstd::prelude::*;

verus! {

use crate::ct::constant_time_eq;
use crate::models::{AppError, Role, TenantId};
use crate::strutil::str_eq;
use vstd::string::StrSliceExecFns;
use vstd::string::StringExecFns;

/// In-memory association of a resolved secret with a tenant scope (or the
/// master scope).
#[derive(Debug)]
pub struct ApiKeyBinding {
    pub key: String,
    pub client_id: Option<String>,
    pub tenant_id: Option<TenantId>,
    pub role: Option<Role>,
    pub is_master: bool,
}

/// What a request's credentials resolved to: the caller's scope.
#[derive(Debug)]
pub struct ApiKeyAuth {
    pub client_id: Option<String>,
    pub tenant_id: Option<TenantId>,
    pub role: Option<Role>,
    pub is_master: bool,
}

/// View of an optional string as an optional character sequence.
pub open spec fn opt_str_view(o: Option<String>) -> Option<Seq<char>> {
    match o {
        Some(s) => Some(s@),
        None => None,
    }
}

/// View of an optional tenant id as an optional character sequence.
pub open spec fn opt_tenant_view(o: Option<TenantId>) -> Option<Seq<char>> {
    match o {
        Some(t) => Some(t.0@),
        None => None,
    }
}

/// The binding's key equals the presented key — the exact meaning of the
/// constant-time comparison the lookup runs.
pub open spec fn key_matches(b: ApiKeyBinding, key: Seq<char>) -> bool {
    b.key@ == key
}

/// The binding is the master binding and its key matches.
pub open spec fn is_master_match(b: ApiKeyBinding, key: Seq<char>) -> bool {
    b.is_master && key_matches(b, key)
}

/// The binding belongs to the supplied client id and its key matches.
pub open spec fn is_tenant_match(b: ApiKeyBinding, key: Seq<char>, cid: Seq<char>) -> bool {
    &&& !b.is_master
    &&& b.client_id matches Some(c) && c@ == cid
    &&& key_matches(b, key)
}

/// Index of the first master binding from position `i` on whose key
/// matches, if any.
pub open spec fn first_master_from(bs: Seq<ApiKeyBinding>, key: Seq<char>, i: int) -> Option<int>
    decreases bs.len() - i,
{
    if i < 0 || i >= bs.len() {
        None
    } else if is_master_match(bs[i], key) {
        Some(i)
    } else {
        first_master_from(bs, key, i + 1)
    }
}

/// Index of the first binding from position `i` on that matches the
/// supplied client id and key, if any.
pub open spec fn first_tenant_from(
    bs: Seq<ApiKeyBinding>,
    key: Seq<char>,
    cid: Seq<char>,
    i: int,
) -> Option<int>
    decreases bs.len() - i,
{
    if i < 0 || i >= bs.len() {
        None
    } else if is_tenant_match(bs[i], key, cid) {
        Some(i)
    } else {
        first_tenant_from(bs, key, cid, i + 1)
    }
}

/// Which binding, if any, a presented key and optional client id resolve
/// to: the first matching master binding, else — only when a client id was
/// supplied — the first binding of that client whose key matches.
pub open spec fn spec_find_binding(
    bs: Seq<ApiKeyBinding>,
    key: Seq<char>,
    cid: Option<Seq<char>>,
) -> Option<int> {
    match first_master_from(bs, key, 0) {
        Some(i) => Some(i),
        None => match cid {
            Some(c) => first_tenant_from(bs, key, c, 0),
            None => None,
        },
    }
}

/// Find the binding a presented key and optional client id resolve to.
pub fn find_binding(bindings: &Vec<ApiKeyBinding>, key: &str, client_id: &Option<String>) -> (r:
    Option<usize>)
    ensures
        match r {
            Some(i) => i < bindings@.len() && spec_find_binding(
                bindings@,
                key@,
                opt_str_view(*client_id),
            ) == Some(i as int),
            None => spec_find_binding(bindings@, key@, opt_str_view(*client_id)) is None,
        },
{
    let n: usize = bindings.len();
    let mut i: usize = 0;
    while i < n
        invariant
            n == bindings@.len(),
            i <= n,
            first_master_from(bindings@, key@, 0) == first_master_from(bindings@, key@, i as int),
        decreases n - i,
    {
        let b = &bindings[i];
        if b.is_master && constant_time_eq(b.key.as_str(), key) {
            return Some(i);
        }
        i = i + 1;
    }
    match client_id {
        Some(cid) => {
            let mut j: usize = 0;
            while j < n
                invariant
                    n == bindings@.len(),
                    j <= n,
                    opt_str_view(*client_id) == Some(cid@),
                    first_master_from(bindings@, key@, 0) is None,
                    first_tenant_from(bindings@, key@, cid@, 0) == first_tenant_from(
                        bindings@,
                        key@,
                        cid@,
                        j as int,
                    ),
                decreases n - j,
            {
                let b = &bindings[j];
                if !b.is_master {
                    let cid_ok = match &b.client_id {
                        Some(c) => str_eq(c.as_str(), cid.as_str()),
                        None => false,
                    };
                    if cid_ok && constant_time_eq(b.key.as_str(), key) {
                        proof {
                            assert(is_tenant_match(bindings@[j as int], key@, cid@));
                        }
                        return Some(j);
                    }
                }
                proof {
                    assert(!is_tenant_match(bindings@[j as int], key@, cid@));
                }
                j = j + 1;
            }
            None
        },
        None => None,
    }
}

/// The authorization context agrees field by field with the binding it
/// was built from.
pub open spec fn auth_matches(a: ApiKeyAuth, b: ApiKeyBinding) -> bool {
    &&& opt_str_view(a.client_id) == opt_str_view(b.client_id)
    &&& opt_tenant_view(a.tenant_id) == opt_tenant_view(b.tenant_id)
    &&& a.role == b.role
    &&& a.is_master == b.is_master
}

fn clone_opt_string(o: &Option<String>) -> (r: Option<String>)
    ensures
        opt_str_view(r) == opt_str_view(*o),
{
    match o {
        Some(s) => Some(s.clone()),
        None => None,
    }
}

fn clone_opt_tenant(o: &Option<TenantId>) -> (r: Option<TenantId>)
    ensures
        opt_tenant_view(r) == opt_tenant_view(*o),
{
    match o {
        Some(t) => Some(TenantId(t.0.clone())),
        None => None,
    }
}

/// Resolve a request's credentials to an authorization context.
///
/// A missing key is `Unauthenticated`; a presented key that no binding
/// accepts — including a per-tenant key presented without its client id —
/// is `Forbidden`.
pub fn authenticate(
    bindings: &Vec<ApiKeyBinding>,
    api_key: &Option<String>,
    client_id: &Option<String>,
) -> (r: Result<ApiKeyAuth, AppError>)
    ensures
        match *api_key {
            None => r == Err::<ApiKeyAuth, AppError>(AppError::Unauthenticated),
            Some(k) => match spec_find_binding(bindings@, k@, opt_str_view(*client_id)) {
                Some(i) => r matches Ok(a) && auth_matches(a, bindings@[i]),
                None => r == Err::<ApiKeyAuth, AppError>(AppError::Forbidden),
            },
        },
{
    match api_key {
        None => Err(AppError::Unauthenticated),
        Some(k) => match find_binding(bindings, k.as_str(), client_id) {
            Some(i) => {
                let b = &bindings[i];
                Ok(
                    ApiKeyAuth {
                        client_id: clone_opt_string(&b.client_id),
                        tenant_id: clone_opt_tenant(&b.tenant_id),
                        role: b.role,
                        is_master: b.is_master,
                    },
                )
            },
            None => Err(AppError::Forbidden),
        },
    }
}

/// The header shape a bearer-style key arrives in.
pub open spec fn api_key_prefix() -> Seq<char> {
    seq!['A', 'p', 'i', 'K', 'e', 'y', ' ']
}

/// Which key, if any, a pair of headers carries: the dedicated key header
/// wins, else the token of a bearer-style authorization header.
pub open spec fn spec_header_api_key(
    x_api_key: Option<Seq<char>>,
    authorization: Option<Seq<char>>,
) -> Option<Seq<char>> {
    match x_api_key {
        Some(k) => Some(k),
        None => match authorization {
            Some(h) => if api_key_prefix().is_prefix_of(h) {
                Some(h.subrange(api_key_prefix().len() as int, h.len() as int))
            } else {
                None
            },
            None => None,
        },
    }
}

/// Extract the presented API key from the dedicated key header or from a
/// bearer-style authorization header.
pub fn api_key_from_headers(x_api_key: &Option<String>, authorization: &Option<String>) -> (r:
    Option<String>)
    ensures
        opt_str_view(r) == spec_header_api_key(
            opt_str_view(*x_api_key),
            opt_str_view(*authorization),
        ),
{
    match x_api_key {
        Some(k) => Some(k.clone()),
        None => match authorization {
            Some(h) => {
                let hs = h.as_str();
                proof {
                    reveal_strlit("ApiKey ");
                    assert("ApiKey "@ =~= api_key_prefix());
                }
                if crate::strutil::str_has_prefix(hs, "ApiKey ") {
                    let n = hs.unicode_len();
                    let rest = hs.substring_char(7, n);
                    Some(String::from_str(rest))
                } else {
                    None
                }
            },
            None => None,
        },
    }
}

proof fn lemma_first_master_characterized(bs: Seq<ApiKeyBinding>, key: Seq<char>, i: int)
    requires
        0 <= i <= bs.len(),
    ensures
        match first_master_from(bs, key, i) {
            Some(j) => i <= j < bs.len() && is_master_match(bs[j], key) && forall|k: int|
                i <= k < j ==> !is_master_match(bs[k], key),
            None => forall|k: int| i <= k < bs.len() ==> !is_master_match(bs[k], key),
        },
    decreases bs.len() - i,
{
    if i < bs.len() && !is_master_match(bs[i], key) {
        lemma_first_master_characterized(bs, key, i + 1);
    }
}

proof fn lemma_first_tenant_characterized(
    bs: Seq<ApiKeyBinding>,
    key: Seq<char>,
    cid: Seq<char>,
    i: int,
)
    requires
        0 <= i <= bs.len(),
    ensures
        match first_tenant_from(bs, key, cid, i) {
            Some(j) => i <= j < bs.len() && is_tenant_match(bs[j], key, cid) && forall|k: int|
                i <= k < j ==> !is_tenant_match(bs[k], key, cid),
            None => forall|k: int| i <= k < bs.len() ==> !is_tenant_match(bs[k], key, cid),
        },
    decreases bs.len() - i,
{
    if i < bs.len() && !is_tenant_match(bs[i], key, cid) {
        lemma_first_tenant_characterized(bs, key, cid, i + 1);
    }
}

/// A master key works regardless of the client id: if some master binding
/// matches the presented key, lookup grants a master binding whatever
/// client id the caller supplies — or none at all.
pub proof fn lemma_master_key_ignores_client_id(
    bs: Seq<ApiKeyBinding>,
    key: Seq<char>,
    cid: Option<Seq<char>>,
)
    requires
        exists|i: int| 0 <= i < bs.len() && is_master_match(bs[i], key),
    ensures
        spec_find_binding(bs, key, cid) matches Some(j) && is_master_match(bs[j], key),
        spec_find_binding(bs, key, cid) == spec_find_binding(bs, key, None::<Seq<char>>),
{
    lemma_first_master_characterized(bs, key, 0);
    if first_master_from(bs, key, 0) is None {
        let i = choose|i: int| 0 <= i < bs.len() && is_master_match(bs[i], key);
        assert(!is_master_match(bs[i], key));
    }
}

/// A per-tenant key never works without a client id: when the caller
/// supplies none, only a master binding can be granted.
pub proof fn lemma_tenant_key_requires_client_id(bs: Seq<ApiKeyBinding>, key: Seq<char>)
    ensures
        spec_find_binding(bs, key, None::<Seq<char>>) matches Some(j) ==> bs[j].is_master,
{
    lemma_first_master_characterized(bs, key, 0);
}

/// Whatever binding lookup grants is justified: its key matches, and it is
/// either the master binding or the binding of exactly the supplied
/// client id.
pub proof fn lemma_granted_binding_is_justified(
    bs: Seq<ApiKeyBinding>,
    key: Seq<char>,
    cid: Option<Seq<char>>,
)
    ensures
        spec_find_binding(bs, key, cid) matches Some(j) ==> {
            &&& 0 <= j < bs.len()
            &&& key_matches(bs[j], key)
            &&& bs[j].is_master || (cid matches Some(c) && is_tenant_match(bs[j], key, c))
        },
{
    lemma_first_master_characterized(bs, key, 0);
    if first_master_from(bs, key, 0) is None && cid is Some {
        lemma_first_tenant_characterized(bs, key, cid->0, 0);
    }
}

} // verus!
