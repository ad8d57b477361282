//! A small newsletter-subscription library: form and query parsing for the
//! subscription endpoints, an in-memory model of the subscriptions store,
//! JSON response bodies, and the mapping from repository outcomes to HTTP
//! replies. The surrounding HTTP server and database plumbing live outside
//! this crate and hand plain strings in and out.

pub mod form;
pub mod json;
pub mod routes;
pub mod store;
pub mod text;

pub use form::FormData;
pub use form::Info;
pub use store::Store;
pub use store::Subscription;
