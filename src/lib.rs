//! Model Context Protocol server core: envelopes, the tool registry, method
//! dispatch and the transports' decisions. Beside it stand the domain value
//! objects, the field-definition parser, language handling and translations,
//! project detection and the template cache's records.
pub mod text;
pub mod json;
pub mod types;
pub mod tools;
pub mod protocol;
pub mod transport;
pub mod server;
pub mod ddd;
pub mod value_object;
pub mod i18n;
pub mod field;
pub mod template_cache;
pub mod project;
pub mod calc;
