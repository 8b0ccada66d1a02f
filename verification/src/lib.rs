//! A minimal subscription-intake backend, verified.
//!
//! The library holds the request-handling logic of the service: parsing a
//! form-url-encoded body, validating a subscription, routing a request, and
//! the append-only model of the `subscriptions` relation. The surrounding
//! process (the HTTP listener, the connection pool, logging) lives outside
//! the library and hands it plain byte strings.

pub mod form;
pub mod routes;
pub mod subscriptions;
