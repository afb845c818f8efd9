//! Compile-time analysis of PostgreSQL queries and schema migrations.

pub mod aggregate_laws;
pub mod ast;
pub mod catalog;
pub mod catalog_laws;
pub mod coerce;
pub mod coerce_laws;
pub mod ddl;
pub mod diagnostic;
pub mod diagnostic_laws;
pub mod encoding;
pub mod error;
pub mod export;
pub mod export_laws;
pub mod expr;
pub mod expr_laws;
pub mod expr_param_laws;
pub mod expr_type;
pub mod failure;
pub mod function_laws;
pub mod functions;
pub mod grouping;
pub mod grouping_laws;
pub mod infer;
pub mod infer_laws;
pub mod introspect;
pub mod introspect_laws;
pub mod lexer;
pub mod lexer_laws;
pub mod lookup;
pub mod lookup_laws;
pub mod migrate;
pub mod migrate_laws;
pub mod nullability;
pub mod oid;
pub mod param;
pub mod param_collector;
pub mod param_laws;
pub mod params;
pub mod pg_catalog;
pub mod query;
pub mod query_laws;
pub mod row_copy;
pub mod sanity;
pub mod sanity_laws;
pub mod scope;
pub mod seed;
pub mod seed_laws;
pub mod table;
pub mod template_laws;
pub mod text;
pub mod type_map;
pub mod values;
