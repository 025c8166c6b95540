//! Network-condition emulation: validation of netem parameters, construction
//! of `tc` argument lists, preset management and the application state.

pub mod text;
pub mod helpers;
pub mod tc;
pub mod presets;
pub mod error;
pub mod parameter_entries;
pub mod state;
pub mod commands;
