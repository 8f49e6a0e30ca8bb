pub mod config;
pub mod game;
pub mod latency;
pub mod machine;
pub mod mapper;
pub mod paths;
pub mod session;
pub mod setup;
pub mod residue;
pub mod resolve;
pub mod run;
pub mod slot_cli;
pub mod slots;
pub mod stage;
pub mod stage_cli;
pub mod studio_launch;
pub mod supervise;
pub mod supervisor;
pub mod text;
pub mod winusb;
pub mod wiring;

use vstd::prelude::*;

verus! {

/// The config/driver problem exit code: 2 always means "this cannot start".
pub const EXIT_CANNOT_START: i32 = 2;

/// Started, then torn down by a runtime failure (keyboards were released).
pub const EXIT_RUNTIME_FAILURE: i32 = 3;

} // verus!
