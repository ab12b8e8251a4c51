//! Per-day download counts of a package, as a service would report them.
//!
//! The crate holds the rules of a small read-only endpoint: what a request
//! must look like, which query is sent to the store, what the store's answer
//! must look like before it is handed to a client, and which status each
//! outcome carries. Sockets, the connection pool and the worker threads are
//! left to the program that embeds the crate; it drives [`handler::Handler`]
//! with what happened and performs what the handler asks for.
//!
//! - [`date`]: days of the calendar and their order.
//! - [`fault`]: the client's faults and the service's, and their statuses.
//! - [`request`]: the request and the ceiling on a body's length.
//! - [`query`]: the query text and the values bound to it.
//! - [`rows`]: the rows of the store's answer, as they were read.
//! - [`series`]: daily totals in ascending order.
//! - [`totals`]: what the query means, counter by counter.
//! - [`response`]: the answer and the reply that carries it.
//! - [`handler`]: the handling of one request, stage by stage.
//! - [`laws`]: what holds of every request.
//! - [`landing`]: the landing page, from what the template engine gave back.

pub mod date;
pub mod fault;
pub mod handler;
pub mod landing;
pub mod laws;
pub mod query;
pub mod request;
pub mod response;
pub mod rows;
pub mod series;
pub mod totals;
