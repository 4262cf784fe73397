//! Cluster-coordination core of a distributed log-ingestion system: a
//! coordinating node keeps a loosely-consistent view of ingestion-node
//! membership from blobs in shared object storage, broadcasts stream
//! creation to every known node with compensating rollback on partial
//! failure, aggregates per-node counters and metrics into cluster-wide
//! views, and manages node lifecycle.
//!
//! Everything that decides is here, verified; the storage and network
//! calls themselves are performed by a thin driver that hands this crate
//! plain values and follows its verdicts.

pub mod descriptor;
pub mod lifecycle;
pub mod metrics;
pub mod num;
pub mod registry;
pub mod stats;
pub mod sync;
pub mod text;
