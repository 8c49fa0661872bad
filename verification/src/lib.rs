//! Argument validation for Ansible-style modules.
//!
//! A caller hands the engine a declarative argument spec, a raw input
//! document, optional cross-argument constraint groups and an environment
//! snapshot; the engine answers with a typed, constraint-checked parameter
//! set or a single descriptive failure.  The whole pipeline — spec parsing,
//! the constraint groups, per-argument reconciliation with fallbacks and
//! defaults, type checking, unknown-key rejection, and the masking of secret
//! values in output — is specified and verified, down to the exact text of
//! every failure message and output document.
pub mod ansible_module;
pub mod builder;
pub mod json;
pub mod laws;
pub mod render;

pub use ansible_module::AnsibleModule;
pub use builder::AnsibleModuleBuilder;
pub use json::JsonValue;
