//! Building the in-memory key store at startup: one binding per
//! configured client, resolved against the environment and the persisted
//! tenant ids, plus the optional master binding — and the plan for
//! synchronizing declared tenant names with the persisted rows.

use vstd::prelude::*;

verus! {

use crate::auth::{opt_str_view, ApiKeyBinding};
use crate::config::{master_resolution, resolve_env_placeholders, resolve_spec, EnvVars};
use crate::models::{AppError, ClientConfig, ClientEntry, Role, TenantId};
use crate::strutil::str_eq;

/// Index of the first mapping entry for the given tenant name, if any.
pub open spec fn tenant_lookup_from(m: Seq<(String, TenantId)>, name: Seq<char>, i: int) -> Option<
    int,
>
    decreases m.len() - i,
{
    if i < 0 || i >= m.len() {
        None
    } else if m[i].0@ == name {
        Some(i)
    } else {
        tenant_lookup_from(m, name, i + 1)
    }
}

fn lookup_tenant(map: &Vec<(String, TenantId)>, name: &str) -> (r: Option<TenantId>)
    ensures
        match tenant_lookup_from(map@, name@, 0) {
            Some(i) => r matches Some(t) && t.0@ == map@[i].1.0@,
            None => r is None,
        },
{
    let n: usize = map.len();
    let mut i: usize = 0;
    while i < n
        invariant
            n == map@.len(),
            i <= n,
            tenant_lookup_from(map@, name@, 0) == tenant_lookup_from(map@, name@, i as int),
        decreases n - i,
    {
        let pair = &map[i];
        if str_eq(pair.0.as_str(), name) {
            return Some(TenantId(pair.1.0.clone()));
        }
        i = i + 1;
    }
    None
}

/// The binding built for one configured client: not master, carrying the
/// client's id, its resolved key, its role, and the tenant id the mapping
/// knows for it, if any.
pub open spec fn binding_from_client(
    b: ApiKeyBinding,
    client: (String, ClientEntry),
    m: Seq<(String, TenantId)>,
    env: Map<Seq<char>, Seq<char>>,
) -> bool {
    &&& b.is_master == false
    &&& b.client_id matches Some(c) && c@ == client.0@
    &&& resolve_spec(client.1.api_key@, env) == Ok::<Seq<char>, Seq<char>>(b.key@)
    &&& b.role == client.1.role
    &&& match tenant_lookup_from(m, client.0@, 0) {
        Some(k) => b.tenant_id matches Some(t) && t.0@ == m[k].1.0@,
        None => b.tenant_id is None,
    }
}

/// The master binding: no client, no tenant scope, the admin role, and
/// the resolved master key.
pub open spec fn master_binding(b: ApiKeyBinding, key: Seq<char>) -> bool {
    &&& b.is_master == true
    &&& b.client_id is None
    &&& b.tenant_id is None
    &&& b.role == Some(Role::Admin)
    &&& b.key@ == key
}

/// First unbound placeholder among the clients' keys, in client order.
pub open spec fn first_client_failure_from(
    clients: Seq<(String, ClientEntry)>,
    env: Map<Seq<char>, Seq<char>>,
    i: int,
) -> Option<Seq<char>>
    decreases clients.len() - i,
{
    if i < 0 || i >= clients.len() {
        None
    } else {
        match resolve_spec(clients[i].1.api_key@, env) {
            Err(n) => Some(n),
            Ok(_) => first_client_failure_from(clients, env, i + 1),
        }
    }
}

/// First unbound placeholder the whole build hits: the clients' keys in
/// order, then the master key.
pub open spec fn build_failure(
    clients: Seq<(String, ClientEntry)>,
    master: Option<String>,
    env: Map<Seq<char>, Seq<char>>,
) -> Option<Seq<char>> {
    match first_client_failure_from(clients, env, 0) {
        Some(n) => Some(n),
        None => match master_resolution(master, env) {
            Err(n) => Some(n),
            Ok(_) => None,
        },
    }
}

/// The key-store invariant: client ids are unique among non-master
/// bindings, and at most one binding is master.
pub open spec fn bindings_wf(bs: Seq<ApiKeyBinding>) -> bool {
    &&& forall|i: int, j: int|
        0 <= i < j < bs.len() && !bs[i].is_master && !bs[j].is_master ==> opt_str_view(
            bs[i].client_id,
        ) != opt_str_view(bs[j].client_id)
    &&& forall|i: int, j: int| 0 <= i < j < bs.len() ==> !(bs[i].is_master && bs[j].is_master)
}

/// Build the in-memory key bindings: one per configured client, in
/// configuration order, then the optional master binding.
///
/// The first unbound placeholder fails the whole build with
/// `MissingEnvVar`: the process must not start serving with a partial key
/// store. A well-formed configuration yields a well-formed store.
pub fn build_api_key_bindings(
    config: &ClientConfig,
    tenant_map: &Vec<(String, TenantId)>,
    env: &EnvVars,
) -> (r: Result<Vec<ApiKeyBinding>, AppError>)
    ensures
        match build_failure(config.clients@, config.server.master_api_key, env@) {
            Some(name) => r matches Err(e) && (e matches AppError::MissingEnvVar { name: n } && n@
                == name),
            None => r matches Ok(bs) && {
                let nc = config.clients@.len() as int;
                &&& bs@.len() == nc + (match config.server.master_api_key {
                    Some(_) => 1int,
                    None => 0int,
                })
                &&& forall|i: int|
                    0 <= i < nc ==> binding_from_client(
                        #[trigger] bs@[i],
                        config.clients@[i],
                        tenant_map@,
                        env@,
                    )
                &&& match config.server.master_api_key {
                    Some(mk) => resolve_spec(mk@, env@) matches Ok(v) && master_binding(
                        bs@[nc],
                        v,
                    ),
                    None => true,
                }
            },
        },
        config.wf() ==> (r matches Ok(bs) ==> bindings_wf(bs@)),
{
    let mut bindings: Vec<ApiKeyBinding> = Vec::new();
    let nc: usize = config.clients.len();
    let mut i: usize = 0;
    while i < nc
        invariant
            nc == config.clients@.len(),
            i <= nc,
            bindings@.len() == i,
            forall|k: int|
                0 <= k < i ==> binding_from_client(
                    #[trigger] bindings@[k],
                    config.clients@[k],
                    tenant_map@,
                    env@,
                ),
            first_client_failure_from(config.clients@, env@, 0) == first_client_failure_from(
                config.clients@,
                env@,
                i as int,
            ),
        decreases nc - i,
    {
        let pair = &config.clients[i];
        let resolved = match resolve_env_placeholders(pair.1.api_key.as_str(), env) {
            Ok(v) => v,
            Err(e) => {
                return Err(e);
            },
        };
        let tenant_id = lookup_tenant(tenant_map, pair.0.as_str());
        bindings.push(
            ApiKeyBinding {
                key: resolved,
                client_id: Some(pair.0.clone()),
                tenant_id,
                role: pair.1.role,
                is_master: false,
            },
        );
        i = i + 1;
    }
    match &config.server.master_api_key {
        Some(mk) => {
            let resolved = match resolve_env_placeholders(mk.as_str(), env) {
                Ok(v) => v,
                Err(e) => {
                    return Err(e);
                },
            };
            bindings.push(
                ApiKeyBinding {
                    key: resolved,
                    client_id: None,
                    tenant_id: None,
                    role: Some(Role::Admin),
                    is_master: true,
                },
            );
        },
        None => {},
    }
    proof {
        if config.wf() {
            assert forall|i2: int, j2: int|
                0 <= i2 < j2 < bindings@.len() && !bindings@[i2].is_master
                    && !bindings@[j2].is_master implies opt_str_view(bindings@[i2].client_id)
                != opt_str_view(bindings@[j2].client_id) by {
                assert(binding_from_client(
                    bindings@[i2],
                    config.clients@[i2],
                    tenant_map@,
                    env@,
                ));
                assert(binding_from_client(
                    bindings@[j2],
                    config.clients@[j2],
                    tenant_map@,
                    env@,
                ));
            }
        }
    }
    Ok(bindings)
}

/// A binding of the given client id with a tenant scope, if the store
/// holds one.
pub open spec fn first_client_binding_from(
    bs: Seq<ApiKeyBinding>,
    cid: Seq<char>,
    i: int,
) -> Option<int>
    decreases bs.len() - i,
{
    if i < 0 || i >= bs.len() {
        None
    } else if (bs[i].client_id matches Some(c) && c@ == cid) && bs[i].tenant_id is Some {
        Some(i)
    } else {
        first_client_binding_from(bs, cid, i + 1)
    }
}

/// The tenant id bound to a client id, if the key store knows one.
pub fn tenant_id_for_client(bindings: &Vec<ApiKeyBinding>, client_id: &str) -> (r: Option<TenantId>)
    ensures
        match first_client_binding_from(bindings@, client_id@, 0) {
            Some(i) => r matches Some(t) && (bindings@[i].tenant_id matches Some(bt) && t.0@
                == bt.0@),
            None => r is None,
        },
{
    let n: usize = bindings.len();
    let mut i: usize = 0;
    while i < n
        invariant
            n == bindings@.len(),
            i <= n,
            first_client_binding_from(bindings@, client_id@, 0) == first_client_binding_from(
                bindings@,
                client_id@,
                i as int,
            ),
        decreases n - i,
    {
        let b = &bindings[i];
        let cid_ok = match &b.client_id {
            Some(c) => str_eq(c.as_str(), client_id),
            None => false,
        };
        if cid_ok {
            match &b.tenant_id {
                Some(t) => {
                    return Some(TenantId(t.0.clone()));
                },
                None => {},
            }
        }
        i = i + 1;
    }
    None
}

/// A name among the declared tenant names.
pub open spec fn names_contain(s: Seq<String>, n: Seq<char>) -> bool {
    exists|i: int| 0 <= i < s.len() && s[i]@ == n
}

/// A name among the persisted tenant rows.
pub open spec fn rows_contain(s: Seq<(TenantId, String)>, n: Seq<char>) -> bool {
    exists|i: int| 0 <= i < s.len() && s[i].1@ == n
}

fn names_contain_exec(v: &Vec<String>, n: &str) -> (r: bool)
    ensures
        r == names_contain(v@, n@),
{
    let len: usize = v.len();
    let mut i: usize = 0;
    while i < len
        invariant
            len == v@.len(),
            i <= len,
            forall|k: int| 0 <= k < i ==> v@[k]@ != n@,
        decreases len - i,
    {
        if str_eq(v[i].as_str(), n) {
            return true;
        }
        i = i + 1;
    }
    false
}

fn rows_contain_exec(v: &Vec<(TenantId, String)>, n: &str) -> (r: bool)
    ensures
        r == rows_contain(v@, n@),
{
    let len: usize = v.len();
    let mut i: usize = 0;
    while i < len
        invariant
            len == v@.len(),
            i <= len,
            forall|k: int| 0 <= k < i ==> v@[k].1@ != n@,
        decreases len - i,
    {
        if str_eq(v[i].1.as_str(), n) {
            return true;
        }
        i = i + 1;
    }
    false
}

/// The synchronization a startup performs: which declared tenants to
/// create, and which persisted tenants to delete.
#[derive(Debug)]
pub struct TenantSyncPlan {
    pub to_create: Vec<String>,
    pub to_delete: Vec<String>,
}

/// Plan the tenant synchronization: create each declared name missing
/// among the persisted rows, and delete each persisted name that is no
/// longer declared — each side once per name, in first-occurrence order.
pub fn sync_tenants_plan(declared: &Vec<String>, existing: &Vec<(TenantId, String)>) -> (p:
    TenantSyncPlan)
    ensures
        forall|i: int|
            0 <= i < p.to_create@.len() ==> names_contain(
                declared@,
                (#[trigger] p.to_create@[i])@,
            ) && !rows_contain(existing@, p.to_create@[i]@),
        forall|n: Seq<char>|
            #[trigger] names_contain(declared@, n) && !rows_contain(existing@, n)
                ==> names_contain(p.to_create@, n),
        forall|i: int, j: int| 0 <= i < j < p.to_create@.len() ==> p.to_create@[i]@
            != p.to_create@[j]@,
        forall|i: int|
            0 <= i < p.to_delete@.len() ==> rows_contain(existing@, (#[trigger] p.to_delete@[i])@)
                && !names_contain(declared@, p.to_delete@[i]@),
        forall|n: Seq<char>|
            #[trigger] rows_contain(existing@, n) && !names_contain(declared@, n)
                ==> names_contain(p.to_delete@, n),
        forall|i: int, j: int| 0 <= i < j < p.to_delete@.len() ==> p.to_delete@[i]@
            != p.to_delete@[j]@,
{
    let nd: usize = declared.len();
    let mut to_create: Vec<String> = Vec::new();
    let mut i: usize = 0;
    while i < nd
        invariant
            nd == declared@.len(),
            i <= nd,
            forall|k: int|
                0 <= k < to_create@.len() ==> names_contain(
                    declared@,
                    (#[trigger] to_create@[k])@,
                ) && !rows_contain(existing@, to_create@[k]@),
            forall|k: int, l: int| 0 <= k < l < to_create@.len() ==> to_create@[k]@
                != to_create@[l]@,
            forall|k: int|
                0 <= k < i && !rows_contain(existing@, (#[trigger] declared@[k])@)
                    ==> names_contain(to_create@, declared@[k]@),
        decreases nd - i,
    {
        let name = &declared[i];
        if !rows_contain_exec(existing, name.as_str()) && !names_contain_exec(
            &to_create,
            name.as_str(),
        ) {
            let ghost pre = to_create@;
            to_create.push(name.clone());
            proof {
                assert forall|n: Seq<char>| names_contain(pre, n) implies names_contain(
                    to_create@,
                    n,
                ) by {
                    let w = choose|w: int| 0 <= w < pre.len() && pre[w]@ == n;
                    assert(to_create@[w]@ == n);
                }
                assert(to_create@[to_create@.len() - 1]@ == declared@[i as int]@);
            }
        }
        i = i + 1;
    }
    let ne: usize = existing.len();
    let mut to_delete: Vec<String> = Vec::new();
    let mut j: usize = 0;
    while j < ne
        invariant
            ne == existing@.len(),
            j <= ne,
            forall|k: int|
                0 <= k < to_delete@.len() ==> rows_contain(
                    existing@,
                    (#[trigger] to_delete@[k])@,
                ) && !names_contain(declared@, to_delete@[k]@),
            forall|k: int, l: int| 0 <= k < l < to_delete@.len() ==> to_delete@[k]@
                != to_delete@[l]@,
            forall|k: int|
                0 <= k < j && !names_contain(declared@, (#[trigger] existing@[k]).1@)
                    ==> names_contain(to_delete@, existing@[k].1@),
        decreases ne - j,
    {
        let row = &existing[j];
        if !names_contain_exec(declared, row.1.as_str()) && !names_contain_exec(
            &to_delete,
            row.1.as_str(),
        ) {
            let ghost pre = to_delete@;
            to_delete.push(row.1.clone());
            proof {
                assert forall|n: Seq<char>| names_contain(pre, n) implies names_contain(
                    to_delete@,
                    n,
                ) by {
                    let w = choose|w: int| 0 <= w < pre.len() && pre[w]@ == n;
                    assert(to_delete@[w]@ == n);
                }
                assert(to_delete@[to_delete@.len() - 1]@ == existing@[j as int].1@);
            }
        }
        j = j + 1;
    }
    TenantSyncPlan { to_create, to_delete }
}

} // verus!
