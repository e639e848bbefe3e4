//! A minimal request-handling pipeline for a subscription service.
//!
//! The library covers route dispatch, typed request decoding (URL-encoded
//! form bodies and named path segments), and the decision logic of the
//! handlers.  Listening on a socket, the async runtime and the database
//! connection live outside the library and exchange plain values with it.
#![verifier::loop_isolation(false)]

pub mod http;
pub mod urlencoded;
pub mod routes;
pub mod startup;
pub mod store;

