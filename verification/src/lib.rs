//! Building blocks for witness generation ahead of zero-knowledge proving:
//! a content-addressed preimage store filled from a directory listing, and
//! the decisions of a supervisor that runs the witness generator as a
//! separate, time-limited process.
//!
//! Everything here works on plain values. Reading directories, spawning
//! processes and waiting on timers is left to the caller, which feeds what it
//! observed into the functions of this crate and carries out what they return.

pub mod decimal;
pub mod encoding;
pub mod request;
pub mod supervisor;
pub mod store;
pub mod loader;

pub use loader::{
    get_file_count, load_kv_store, parse_preimage_key, DirectoryEntry, LoadError,
};
pub use request::{convert_host_cli_to_args, HostCli};
pub use store::PreimageStore;
pub use supervisor::{
    run_native_host, ExitStatus, HostError, SupervisorAction, SupervisorEvent, SupervisorState,
    TimeLimit,
};
