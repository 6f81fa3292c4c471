pub mod text;
pub mod entries;
pub mod subject;
pub mod document;
pub mod tenant;
pub mod resolve;

pub use document::{create_webfinger, resolve_alias, Link, WebFinger};
pub use resolve::NotFound;
pub use subject::{extract_domain_from_resource, normalize_subject, ValidationError};
pub use tenant::{compile_tenant, merge_tenant_source, process_tenants, Config, TenantConfig, TenantData};
