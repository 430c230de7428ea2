//! Client configuration handling: environment-placeholder resolution and
//! per-client resolution of the configured secrets.
//!
//! A secret in the configuration may embed `$(NAME)` placeholders; each
//! is replaced by the value bound to `NAME`, and an unbound name fails
//! the whole resolution.

use vstd::prelude::*;

verus! {

use crate::models::{AppError, ClientConfig, ClientEntry};
use crate::strutil::str_eq;
use vstd::string::StrSliceExecFns;
use vstd::string::StringExecFns;

/// The name-to-value bindings placeholder resolution draws from,
/// viewed as a map. A later binding of a name overrides an earlier one.
#[derive(Debug)]
pub struct EnvVars {
    entries: Vec<(String, String)>,
}

/// The map a binding list denotes: entries nearer the front win.
pub open spec fn env_map(entries: Seq<(String, String)>) -> Map<Seq<char>, Seq<char>>
    decreases entries.len(),
{
    if entries.len() == 0 {
        Map::empty()
    } else {
        env_map(entries.drop_first()).insert(entries[0].0@, entries[0].1@)
    }
}

/// First-match lookup over a binding list.
pub open spec fn env_lookup(entries: Seq<(String, String)>, name: Seq<char>) -> Option<Seq<char>>
    decreases entries.len(),
{
    if entries.len() == 0 {
        None
    } else if entries[0].0@ == name {
        Some(entries[0].1@)
    } else {
        env_lookup(entries.drop_first(), name)
    }
}

proof fn lemma_env_map_is_lookup(entries: Seq<(String, String)>, name: Seq<char>)
    ensures
        match env_lookup(entries, name) {
            Some(v) => env_map(entries).contains_key(name) && env_map(entries)[name] == v,
            None => !env_map(entries).contains_key(name),
        },
    decreases entries.len(),
{
    if entries.len() > 0 {
        lemma_env_map_is_lookup(entries.drop_first(), name);
    }
}

impl View for EnvVars {
    type V = Map<Seq<char>, Seq<char>>;

    closed spec fn view(&self) -> Map<Seq<char>, Seq<char>> {
        env_map(self.entries@)
    }
}

impl EnvVars {
    /// No bindings.
    pub fn new() -> (r: EnvVars)
        ensures
            r@ =~= Map::<Seq<char>, Seq<char>>::empty(),
    {
        EnvVars { entries: Vec::new() }
    }

    /// Bind a name to a value, overriding any earlier binding.
    pub fn insert(&mut self, name: String, value: String)
        ensures
            final(self)@ == old(self)@.insert(name@, value@),
    {
        let ghost pre = self.entries@;
        self.entries.insert(0, (name, value));
        proof {
            assert(self.entries@.drop_first() =~= pre);
        }
    }

    /// Look a name up.
    pub fn get(&self, name: &str) -> (r: Option<String>)
        ensures
            match r {
                Some(v) => self@.contains_key(name@) && self@[name@] == v@,
                None => !self@.contains_key(name@),
            },
    {
        let n: usize = self.entries.len();
        let mut i: usize = 0;
        proof {
            assert(self.entries@.skip(0) =~= self.entries@);
        }
        while i < n
            invariant
                n == self.entries@.len(),
                i <= n,
                env_lookup(self.entries@, name@) == env_lookup(
                    self.entries@.skip(i as int),
                    name@,
                ),
            decreases n - i,
        {
            proof {
                assert(self.entries@.skip(i as int).drop_first() =~= self.entries@.skip(
                    i as int + 1,
                ));
                assert(self.entries@.skip(i as int)[0] == self.entries@[i as int]);
            }
            let pair = &self.entries[i];
            if str_eq(pair.0.as_str(), name) {
                proof {
                    lemma_env_map_is_lookup(self.entries@, name@);
                }
                return Some(pair.1.clone());
            }
            i = i + 1;
        }
        proof {
            lemma_env_map_is_lookup(self.entries@, name@);
        }
        None
    }
}

/// Distance from position `i` to the next `)` — or to the end, if none
/// follows.
pub open spec fn close_dist(s: Seq<char>, i: int) -> nat
    decreases s.len() - i,
{
    if i < 0 || i >= s.len() {
        0
    } else if s[i] == ')' {
        0
    } else {
        1 + close_dist(s, i + 1)
    }
}

proof fn lemma_close_dist(s: Seq<char>, i2: int, j: int)
    requires
        0 <= i2 <= j <= s.len(),
        forall|k: int| i2 <= k < j ==> s[k] != ')',
        j < s.len() ==> s[j] == ')',
    ensures
        close_dist(s, i2) == j - i2,
    decreases j - i2,
{
    if i2 < j {
        lemma_close_dist(s, i2 + 1, j);
    }
}

/// What placeholder resolution makes of the input from position `i` on:
/// the resolved text, or the first unbound placeholder name. A `$(` with
/// no later `)` leaves the rest of the input literal.
pub open spec fn resolve_from(s: Seq<char>, env: Map<Seq<char>, Seq<char>>, i: int) -> Result<
    Seq<char>,
    Seq<char>,
>
    decreases s.len() - i,
{
    if i < 0 || i >= s.len() {
        Ok(Seq::empty())
    } else if s[i] == '$' && i + 1 < s.len() && s[i + 1] == '(' {
        let close = i + 2 + close_dist(s, i + 2);
        if close >= s.len() {
            Ok(s.subrange(i, s.len() as int))
        } else {
            let name = s.subrange(i + 2, close);
            if env.contains_key(name) {
                match resolve_from(s, env, close + 1) {
                    Ok(rest) => Ok(env[name] + rest),
                    Err(e) => Err(e),
                }
            } else {
                Err(name)
            }
        }
    } else {
        match resolve_from(s, env, i + 1) {
            Ok(rest) => Ok(seq![s[i]] + rest),
            Err(e) => Err(e),
        }
    }
}

/// What placeholder resolution makes of the whole input.
pub open spec fn resolve_spec(s: Seq<char>, env: Map<Seq<char>, Seq<char>>) -> Result<
    Seq<char>,
    Seq<char>,
> {
    resolve_from(s, env, 0)
}

/// Resolve `$(NAME)` placeholders inside a string against the given
/// bindings. The first unbound name fails the resolution with
/// `MissingEnvVar`.
pub fn resolve_env_placeholders(input: &str, env: &EnvVars) -> (r: Result<String, AppError>)
    ensures
        match resolve_spec(input@, env@) {
            Ok(out) => r matches Ok(o) && o@ == out,
            Err(name) => r matches Err(e) && (e matches AppError::MissingEnvVar { name: n } && n@
                == name),
        },
{
    let n: usize = input.unicode_len();
    let mut out = String::new();
    let mut i: usize = 0;
    while i < n
        invariant
            n == input@.len(),
            i <= n,
            match resolve_from(input@, env@, i as int) {
                Ok(rest) => resolve_spec(input@, env@) == Ok::<Seq<char>, Seq<char>>(out@ + rest),
                Err(e) => resolve_spec(input@, env@) == Err::<Seq<char>, Seq<char>>(e),
            },
        decreases n - i,
    {
        let ghost out_pre = out@;
        let c = input.get_char(i);
        if c == '$' && i + 1 < n && input.get_char(i + 1) == '(' {
            let mut j: usize = i + 2;
            while j < n && input.get_char(j) != ')'
                invariant
                    n == input@.len(),
                    i + 2 <= j <= n,
                    forall|k: int| i + 2 <= k < j ==> input@[k] != ')',
                decreases n - j,
            {
                j = j + 1;
            }
            proof {
                lemma_close_dist(input@, i + 2, j as int);
            }
            if j >= n {
                let rest = input.substring_char(i, n);
                out.append(rest);
                proof {
                    assert(out@ =~= out_pre + input@.subrange(i as int, n as int));
                    assert(out@ + Seq::<char>::empty() =~= out@);
                }
                i = n;
            } else {
                let name = input.substring_char(i + 2, j);
                match env.get(name) {
                    Some(v) => {
                        out.append(v.as_str());
                        proof {
                            let ghost nm = input@.subrange(i + 2, j as int);
                            match resolve_from(input@, env@, j + 1) {
                                Ok(rest2) => {
                                    assert(out_pre + (env@[nm] + rest2) =~= out@ + rest2);
                                },
                                Err(_) => {},
                            }
                        }
                        i = j + 1;
                    },
                    None => {
                        return Err(AppError::MissingEnvVar { name: String::from_str(name) });
                    },
                }
            }
        } else {
            let piece = input.substring_char(i, i + 1);
            out.append(piece);
            proof {
                match resolve_from(input@, env@, i + 1) {
                    Ok(rest2) => {
                        assert(out_pre + (seq![input@[i as int]] + rest2) =~= out@ + rest2);
                    },
                    Err(_) => {},
                }
            }
            i = i + 1;
        }
    }
    proof {
        assert(out@ + Seq::<char>::empty() =~= out@);
    }
    Ok(out)
}

/// A client configuration with its secrets resolved.
#[derive(Debug)]
pub struct ResolvedClient {
    pub id: String,
    pub base_url: String,
    pub entry: ClientEntry,
    /// The resolved master API key, when the server section declares one.
    pub master_api_key: Option<String>,
}

/// The API key a client uses for a call: the master key when requested
/// and available, its own key otherwise.
pub fn select_api_key<'a>(client: &'a ResolvedClient, use_master: bool) -> (r: &'a String)
    ensures
        r@ == (if use_master {
            match client.master_api_key {
                Some(m) => m@,
                None => client.entry.api_key@,
            }
        } else {
            client.entry.api_key@
        }),
{
    if use_master {
        match &client.master_api_key {
            Some(m) => m,
            None => &client.entry.api_key,
        }
    } else {
        &client.entry.api_key
    }
}

/// Index of the first configured client with the given id, if any.
pub open spec fn first_client_from(
    clients: Seq<(String, ClientEntry)>,
    id: Seq<char>,
    i: int,
) -> Option<int>
    decreases clients.len() - i,
{
    if i < 0 || i >= clients.len() {
        None
    } else if clients[i].0@ == id {
        Some(i)
    } else {
        first_client_from(clients, id, i + 1)
    }
}

fn find_client(config: &ClientConfig, client_id: &str) -> (r: Option<usize>)
    ensures
        match r {
            Some(i) => i < config.clients@.len() && first_client_from(
                config.clients@,
                client_id@,
                0,
            ) == Some(i as int),
            None => first_client_from(config.clients@, client_id@, 0) is None,
        },
{
    let n: usize = config.clients.len();
    let mut i: usize = 0;
    while i < n
        invariant
            n == config.clients@.len(),
            i <= n,
            first_client_from(config.clients@, client_id@, 0) == first_client_from(
                config.clients@,
                client_id@,
                i as int,
            ),
        decreases n - i,
    {
        if str_eq(config.clients[i].0.as_str(), client_id) {
            return Some(i);
        }
        i = i + 1;
    }
    None
}

/// The master key's resolution, or nothing when none is declared — the
/// error being the first unbound name inside it.
pub open spec fn master_resolution(
    master: Option<String>,
    env: Map<Seq<char>, Seq<char>>,
) -> Result<Option<Seq<char>>, Seq<char>> {
    match master {
        None => Ok(None),
        Some(mk) => match resolve_spec(mk@, env) {
            Ok(v) => Ok(Some(v)),
            Err(name) => Err(name),
        },
    }
}

fn resolve_master(master: &Option<String>, env: &EnvVars) -> (r: Result<Option<String>, AppError>)
    ensures
        match master_resolution(*master, env@) {
            Ok(v) => r matches Ok(o) && crate::auth::opt_str_view(o) == v,
            Err(name) => r matches Err(e) && (e matches AppError::MissingEnvVar { name: n } && n@
                == name),
        },
{
    match master {
        None => Ok(None),
        Some(mk) => match resolve_env_placeholders(mk.as_str(), env) {
            Ok(v) => Ok(Some(v)),
            Err(e) => Err(e),
        },
    }
}

/// Resolve one client entry by id, applying placeholder substitution to
/// its key and to the optional master key.
///
/// An unknown id is a configuration error; an unbound placeholder in the
/// client's key, then in the master key, is `MissingEnvVar`.
pub fn resolve_client(config: &ClientConfig, client_id: &str, env: &EnvVars) -> (r: Result<
    ResolvedClient,
    AppError,
>)
    ensures
        match first_client_from(config.clients@, client_id@, 0) {
            None => r matches Err(e) && e matches AppError::Config(_),
            Some(k) => {
                let entry = config.clients@[k].1;
                match resolve_spec(entry.api_key@, env@) {
                    Err(name) => r matches Err(e) && (e matches AppError::MissingEnvVar {
                        name: n,
                    } && n@ == name),
                    Ok(key) => match master_resolution(config.server.master_api_key, env@) {
                        Err(name) => r matches Err(e) && (e matches AppError::MissingEnvVar {
                            name: n,
                        } && n@ == name),
                        Ok(mv) => r matches Ok(rc) && {
                            &&& rc.id@ == client_id@
                            &&& rc.base_url@ == config.server.base_url@
                            &&& rc.entry.name@ == entry.name@
                            &&& rc.entry.api_key@ == key
                            &&& rc.entry.role == entry.role
                            &&& crate::auth::opt_str_view(rc.master_api_key) == mv
                        },
                    },
                }
            },
        },
{
    let k = match find_client(config, client_id) {
        Some(k) => k,
        None => {
            return Err(AppError::Config(String::from_str("unknown client id")));
        },
    };
    let entry = &config.clients[k].1;
    let resolved_key = match resolve_env_placeholders(entry.api_key.as_str(), env) {
        Ok(v) => v,
        Err(e) => {
            return Err(e);
        },
    };
    let master_api_key = match resolve_master(&config.server.master_api_key, env) {
        Ok(v) => v,
        Err(e) => {
            return Err(e);
        },
    };
    Ok(
        ResolvedClient {
            id: String::from_str(client_id),
            base_url: config.server.base_url.clone(),
            entry: ClientEntry {
                name: entry.name.clone(),
                api_key: resolved_key,
                role: entry.role,
            },
            master_api_key,
        },
    )
}

} // verus!
