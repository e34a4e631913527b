//! The activity ledger: the time-tracking service's data model and the
//! computed parts of its client — endpoint texts, query parameters, the
//! authentication pre-check and the user lookup. The HTTP transport itself
//! lives outside the library.

pub mod client;
pub mod model;
