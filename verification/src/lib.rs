//! A directory of short-lived, self-replicating workers.
//!
//! A registry keeps track of the workers that are live, by name. A worker
//! registers when it is started, lives for a fixed time, then unregisters and
//! leaves zero, one or two children behind, named after itself.
//!
//! The crate holds the decisions of that system and none of its plumbing:
//! what the registry stores and reports ([`registry`], [`request`]), how a
//! worker moves through its life ([`worker`]), how many children it leaves
//! and what they are called ([`fanout`], [`name`]). A runtime delivers the
//! events and carries out the actions. What holds of whole runs of requests
//! and of whole lives is proved in [`history`] and [`lifecycle`].

pub mod decimal;
pub mod fanout;
pub mod history;
pub mod lifecycle;
pub mod name;
pub mod registry;
pub mod request;
pub mod worker;
