//! Request routing: path templates compiled into matchers, parameter
//! extraction, and the dispatch decision of a single route.

pub mod matcher;
pub mod error;
pub mod template;
pub mod pattern;
pub mod params;
pub mod method;
pub mod route;
