//! Shared-task synchronization engine: eventually consistent replication of
//! task records between local replicas and an authoritative remote store,
//! convergent under disconnection, reordering and concurrent edits, without
//! a distributed transaction.
//!
//! The pieces, in dependency order: [`model`] holds the task and event data
//! model; [`store`] is the authoritative store with its per-organization
//! activity log and optimistic-concurrency versioning; [`broker`] fans new
//! events out to live sessions, best effort; [`session`] re-validates a
//! streaming session's credential and filters what it forwards; [`replica`]
//! folds events and bulk snapshots into a local replica, idempotently;
//! [`catchup`] pages a replica forward and falls back to one bulk snapshot
//! when the backlog gap exceeds the threshold; [`client`] is the reconnect
//! loop with its backoff; [`publisher`] turns local mutations into remote
//! calls and folds the answers back; [`routes`] guards the task endpoints;
//! [`laws`] states and proves the replication laws; [`remote_api`],
//! [`identity`], [`orgs`], [`crypto`] and [`proxy`] cover the API client's
//! retry policy, identity derivations, membership rules, the handoff digest
//! and the preview port.

pub mod broker;
pub mod catchup;
pub mod client;
pub mod crypto;
pub mod identity;
pub mod laws;
pub mod model;
pub mod orgs;
pub mod proxy;
pub mod publisher;
pub mod remote_api;
pub mod replica;
pub mod routes;
pub mod session;
pub mod store;
