//! Command protocol, process bookkeeping and window-clip decisions of the
//! UWP Roblox helper.
pub mod text;
pub mod number;
pub mod commands;
pub mod wire;
pub mod ws;
pub mod uwp;
pub mod args;
pub use args::Args;
