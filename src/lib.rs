//! A bounded pool of long-lived worker processes, keyed by fingerprint.
//!
//! The library holds the pool's decisions: which slot is reused, which dead
//! slots are pruned, which idle slot is evicted, when a borrow frees its slot,
//! and how a worker's advertised port is read from its first line of output.
//! Spawning, killing and the filesystem are left to the caller, which hands
//! the library what it observed and performs the actions it is handed back.
pub mod fingerprint;
pub mod laws;
pub mod pool;
pub mod port;

pub use fingerprint::NailgunProcessFingerprint;
pub use pool::{BorrowedNailgunProcess, LocalAddress, NailgunPool, NailgunProcess, Plan, Step};
pub use port::{read_port, ExitReport, StartError};
