//! Types used by the other modules.

pub mod duration;
pub mod error;
pub mod float;
pub mod instant;
pub mod name_map;
pub mod results;
pub mod value;

pub use self::duration::{Duration, InstantOrDuration};
pub use self::error::DataFrameError;
pub use self::float::Float64;
pub use self::instant::Instant;
pub use self::name_map::{flatten_map, NameMap};
pub use self::value::{Value, ValueView};
