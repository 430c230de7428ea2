//! Domain model of the URL shortener: identifiers, tenants, API keys,
//! short links, the client configuration file shape, and the error
//! taxonomy the core surfaces.

use vstd::prelude::*;

verus! {

/// Identifier for a tenant (logical client).
#[derive(Debug, Clone, Eq, Hash)]
pub struct TenantId(pub String);

impl PartialEq for TenantId {
    fn eq(&self, other: &TenantId) -> (r: bool) {
        self.0 == other.0
    }
}

impl vstd::std_specs::cmp::PartialEqSpecImpl for TenantId {
    open spec fn obeys_eq_spec() -> bool {
        true
    }

    open spec fn eq_spec(&self, other: &TenantId) -> bool {
        self.0@ == other.0@
    }
}

/// Identifier for a short link.
#[derive(Debug, Clone, PartialEq, Eq, Hash)]
pub struct ShortLinkId(pub String);

/// Identifier for an API key (database-level id, not the secret).
#[derive(Debug, Clone, PartialEq, Eq, Hash)]
pub struct ApiKeyId(pub String);

/// Role associated with an API key.
#[derive(Debug, Clone, Copy, PartialEq, Eq, Structural)]
pub enum Role {
    Admin,
    Url,
}

/// Tenant represents an isolated client of the system.
#[derive(Debug, Clone)]
pub struct Tenant {
    pub id: TenantId,
    pub name: String,
    pub status: TenantStatus,
}

#[derive(Debug, Clone, Copy, PartialEq, Eq, Structural)]
pub enum TenantStatus {
    Active,
    Suspended,
}

/// ApiKey represents a hashed API key bound to a tenant and role.
#[derive(Debug, Clone)]
pub struct ApiKey {
    pub id: ApiKeyId,
    pub tenant_id: TenantId,
    /// Human-readable name for the key.
    pub name: String,
    /// Hash of the API key secret.
    pub key_hash: String,
    pub role: Role,
}

/// ShortLink maps a slug to a target URL within a tenant.
#[derive(Debug, Clone)]
pub struct ShortLink {
    pub id: ShortLinkId,
    pub tenant_id: TenantId,
    pub slug: String,
    pub target_url: String,
    pub is_active: bool,
}

/// Configuration file structure: one server section and the declared
/// clients, each client id bound to one entry.
#[derive(Debug, Clone)]
pub struct ClientConfig {
    pub server: ServerSection,
    pub clients: Vec<(String, ClientEntry)>,
}

impl ClientConfig {
    /// Each client id is declared at most once.
    pub open spec fn wf(&self) -> bool {
        forall|i: int, j: int|
            0 <= i < j < self.clients@.len() ==> self.clients@[i].0@ != self.clients@[j].0@
    }
}

#[derive(Debug, Clone)]
pub struct ServerSection {
    pub base_url: String,
    /// Optional master API key, possibly containing an environment
    /// placeholder; it carries no tenant scope.
    pub master_api_key: Option<String>,
}

#[derive(Debug, Clone)]
pub struct ClientEntry {
    /// Display name for this client configuration.
    pub name: String,
    /// API key value, possibly containing environment placeholders.
    pub api_key: String,
    /// Optional role information.
    pub role: Option<Role>,
}

/// Errors the core surfaces, one variant per failure the authentication
/// and link-creation paths can reach.
#[derive(Debug, Clone, PartialEq, Eq)]
pub enum AppError {
    /// No credential was presented.
    Unauthenticated,
    /// A credential was presented but is not recognized or not authorized.
    Forbidden,
    /// The requested slug already belongs to a different tenant.
    Conflict,
    /// Every generated slug candidate collided; the bounded retry gave up.
    Exhausted,
    /// The persistence collaborator failed.
    StorageUnavailable,
    /// A request filter carried a timestamp that does not parse.
    InvalidTimestamp,
    /// A placeholder referenced an environment variable that is not set.
    MissingEnvVar { name: String },
    /// The configuration is unusable for some other reason.
    Config(String),
}

/// HTTP status code each error maps to at the response boundary.
pub fn status_code(e: &AppError) -> (c: u16)
    ensures
        c == match e {
            AppError::Unauthenticated => 401u16,
            AppError::Forbidden => 403u16,
            AppError::Conflict => 409u16,
            AppError::InvalidTimestamp => 400u16,
            _ => 500u16,
        },
{
    match e {
        AppError::Unauthenticated => 401,
        AppError::Forbidden => 403,
        AppError::Conflict => 409,
        AppError::InvalidTimestamp => 400,
        AppError::Exhausted => 500,
        AppError::StorageUnavailable => 500,
        AppError::MissingEnvVar { .. } => 500,
        AppError::Config(_) => 500,
    }
}

} // verus!
