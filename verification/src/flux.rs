//! Functions and data types to construct Flux queries and to read their
//! results.

pub mod blocks;
pub mod client;
pub mod error;
pub mod query;
pub mod querybuilder;
pub mod response;
pub mod rows;
pub mod types;

pub use self::client::ClientError;
pub use self::error::{ResponseError, ResponseErrorView};
pub use self::query::Query;
pub use self::querybuilder::QueryBuilder;
pub use self::response::from_str;
pub use self::types::{ResponseResult, TaggedDataframe, TagsMap};
