//! The handlers, one module each.

pub mod greets;
pub mod health_check;
pub mod subscriptions;

pub use greets::greet;
pub use health_check::health_check;
pub use subscriptions::FormData;
pub use subscriptions::parse_form;
