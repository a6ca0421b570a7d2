//! Conversion between the JSON value model and the attribute values of a
//! DynamoDB item, with both directions proved against mathematical models.
pub mod dynamodb;
pub mod laws;
pub mod numeric;
pub mod value;
