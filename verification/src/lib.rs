//! Verified core of a SQL data-access toolkit: dynamic query parameters
//! (filters, search, sorting, pagination), the pagination responses built
//! from fetched rows, the values bound to queries, and what is decided when
//! repository methods are expanded: the SQL text processing (scopes, named
//! parameters, type-override syntax), the analysis of their types, and the
//! plan of each generated query call.
mod text;
mod text_laws;

pub mod sort;
pub mod paging;
pub mod filter;
pub mod cursor;
pub mod params;
pub mod response;
pub mod builder;
pub mod regex_scan;
pub mod sqlx_syntax;
pub mod syntax;
pub mod error;
pub mod database;
pub mod analysis;
pub mod named_params;
pub mod dml;
pub mod scope;
pub mod scope_laws;
pub mod sql_ast;
pub mod scope_sql;
pub mod variants;
pub mod codegen;
pub mod plans;
pub mod placeholders;
pub mod dynamic_sql;
pub mod query_calls;
pub mod scope_attrs;
pub mod repo;
pub mod binding;
