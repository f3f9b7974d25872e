//! The shapes in which results are handed out.

use vstd::prelude::*;

use super::error::ResponseError;
use crate::types::NameMap;

verus! {

/// A set of tags and tag values
pub type TagsMap = NameMap<String>;

/// A dataframe accompanied by a set of tags and tag values
pub type TaggedDataframe<DF> = (DF, Option<TagsMap>);

/// The result of an entire Flux query
pub type ResponseResult<DF> = Result<Vec<TaggedDataframe<DF>>, ResponseError>;

} // verus!
