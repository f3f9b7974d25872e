//! Functions and data types to construct InfluxQL queries and to read their
//! results.

pub mod client;
pub mod envelope;
pub mod error;
pub mod laws;
pub mod query;
pub mod querybuilder;
pub mod response;
pub mod series;
pub mod types;

pub use self::client::{
    dataframes_by_tag, request_parameters, single_dataframe, ClientError, ClientErrorView,
};
pub use self::error::{ResponseError, ResponseErrorView};
pub use self::query::Query;
pub use self::querybuilder::QueryBuilder;
pub use self::response::from_str;
pub use self::types::{ResponseResult, StatementResult, TaggedDataframe, TagsMap};
