//! A small static web server's verified core.
//!
//! `pool` is a fixed-size worker pool, modelled as a scheduler: it decides
//! which worker takes which job, when a worker goes back to waiting and when
//! it may exit. The threads, the closures and the blocking waits are driven by
//! the caller, which performs each decision it is handed.
//!
//! `http` decides how a request line is answered and frames the response.
pub mod http;
pub mod pool;
