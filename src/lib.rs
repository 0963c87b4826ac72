//! House-price prediction pipeline: reading the dataset's comma-separated
//! text into a table, reproducible train/test splitting, selecting feature
//! and target columns, training-set checks, transfer error classification and
//! the prediction service's request handling.

pub mod csv;
pub mod error;
pub mod features;
pub mod service;
pub mod split;
pub mod table;
pub mod training;
pub mod transfer;
