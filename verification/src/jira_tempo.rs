//! The worklog source: the remote time-logging service's data model and the
//! computed parts of its client — endpoint texts, query parameters and the
//! authentication pre-check. The HTTP transport itself lives outside the
//! library.

pub mod client;
pub mod model;
