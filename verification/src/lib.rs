//! A frontend runtime for dynamically loaded "cores": native plugins that
//! implement the fixed, versioned libretro plugin ABI.
//!
//! The crate models the frontend half of the protocol on plain values: the
//! lifecycle state machine that drives a core through
//! init / load_game / run / reset / unload / deinit, the environment
//! dispatcher that answers the core's capability requests, the option
//! manager that tracks the core's declared settings, and the registry of
//! live contexts.  The embedding application owns the actual shared-library
//! handle and the raw C traffic; it converts sentinel-terminated C data into
//! the plain record types declared here and lets the verified logic decide
//! every transition.
//!
//! Because the classic I/O callbacks of the ABI carry no per-call user
//! data, only one core may be actively executing per process at a time:
//! the embedder keeps a single "currently targeted context" reference,
//! configures it before every entry-point call into a core, and must
//! never interleave entry-point calls into two loaded cores without
//! reconfiguring it in between.  Several cores may be loaded — and
//! registered — simultaneously all the same.

pub mod args_manager;
pub mod av_info;
pub mod controller_info;
pub mod environment;
pub mod erro_handle;
pub mod game_tools;
pub mod graphic_api;
pub mod option_manager;
pub mod paths;
pub mod retro_context;
pub mod retro_core;
pub mod retro_perf;
pub mod retro_sys;
pub mod system;
pub mod test_tools;
pub mod tools;
