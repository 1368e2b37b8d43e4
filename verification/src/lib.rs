//! Client-side logic for the HTTP statement protocol of a distributed SQL
//! engine: connection settings, the requests to send, the pagination state
//! machine that follows continuation links, and the classification of
//! failures.

pub mod completion;
pub mod context;
pub mod display;
pub mod json;
pub mod presto;
pub mod sequence;
pub mod shell;
pub mod text;
