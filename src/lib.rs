//! Loads JSON documents into a relational table: each document is flattened
//! into one level of underscore-joined column names, and a parameterised
//! `INSERT` statement is built from the result.

pub mod etl;
pub mod flatten;
pub mod json;
pub mod logging;
pub mod models;
pub mod sql;
pub mod text;

pub use etl::{
    find_schema, insert_document, is_json_file_name, prepare_insert, DirectoryScan,
    ETLPipelineError,
};
pub use flatten::{flatten, FlatRecord};
pub use json::{parse_document, JsonNode};
pub use logging::LogLevel;
pub use models::{
    CreateJob, CreateUser, ETLMetrics, Status, TokenClaims, TokenResponse, UpdateJob, UpdateUser,
    UserInfo,
};
pub use sql::{build_insert, contains_name, is_sql_identifier, InsertStatement, TableSchema};
