//! OpenAPI documentation support for server functions: route-macro planning,
//! path-parameter extraction, document assembly and the interactive reference page.

pub mod text;
pub mod path_params;
pub mod scalar;
pub mod route;
pub mod api_args;
pub mod signature;
pub mod expand;
pub mod schemas;
pub mod openapi;

pub use openapi::{append_tagged_path, build_openapi, SpecOptions, TagMeta};
pub use path_params::parse_path_params;
pub use scalar::{scalar_html, ScalarOptions};
