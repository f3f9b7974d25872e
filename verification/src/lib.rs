//! Client-side data model, query construction and response parsing for a
//! time-series database.
//!
//! The library builds queries in two query languages, writes points in the
//! line protocol, and reads the responses of the server into time-indexed
//! tables. It does no input or output of its own: texts come in, values go
//! out.

pub mod dataframe;
pub mod flux;
pub mod influxql;
pub mod json;
pub mod line_protocol;
pub mod sorting;
pub mod text;
pub mod types;
