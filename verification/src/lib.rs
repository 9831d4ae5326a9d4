/// The exponential backoff policy: delay as a function of attempt count.
pub mod backoff;
/// The byte format under which job records are persisted, with its
/// round-trip guarantee.
pub mod codec;
/// Application and store configuration data, and the URLs derived from it.
pub mod config;
/// The queue's error taxonomy and API error codes.
pub mod errors;
/// The job record: a payload with its retry and timing metadata, and the
/// state transitions it goes through.
pub mod job;
/// What the queue guarantees: scheduling exclusivity and the outcome of
/// whole retry histories, proved over the store transitions.
pub mod laws;
/// The envelope of a successful API response.
pub mod response;
/// The per-queue service: enqueue, claim, settle, introspect; and the
/// registry that builds queues from one configuration.
pub mod service;
/// The store the queue runs against: list and keyed-record primitives,
/// realized in memory.
pub mod store;
/// Decimal rendering of numbers for derived addresses and URLs.
pub mod text;
