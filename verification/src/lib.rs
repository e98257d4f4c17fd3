//! An in-memory cache of string values under string keys, each value
//! optionally bound to an absolute expiration instant. Expired entries are
//! detected lazily on read and eagerly by a periodic sweep. A small JSON
//! protocol layer renders read/write results and parses write requests.

pub mod clock;
pub mod json;
pub mod protocol;
pub mod store;
