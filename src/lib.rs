//! Verified core of a house-price prediction pipeline: the fixed column
//! schema, an in-memory table, the train/test split, the projection into
//! features and target, the dense row-major matrices handed to the boosting
//! engine, and the request decisions of the prediction service.

pub mod schema;
pub mod table;
pub mod split;
pub mod matrix;
pub mod service;
