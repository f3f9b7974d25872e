//! Data types for the line protocol, the text format in which points are
//! written to the database.

pub mod client;
pub mod escape;
pub mod field_name;
pub mod field_value;
pub mod line;
pub mod line_builder;
pub mod measurement;
pub mod tag_name;
pub mod tag_value;

pub use self::client::{parse_error, payload, write_query, ClientError};
pub use self::field_name::FieldName;
pub use self::field_value::FieldValue;
pub use self::line::Line;
pub use self::line_builder::LineBuilder;
pub use self::measurement::Measurement;
pub use self::tag_name::TagName;
pub use self::tag_value::TagValue;
