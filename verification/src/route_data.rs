//! The data of the route collector: places, requests for routes between
//! them, and the waypoints it queries often.
pub mod api_interceptor;
pub mod cache;
pub mod data_types;
