//! A single front end over several package managers: which backends take
//! part in a command, how their results are gathered into one container per
//! command, how one flat choice is mapped back to a backend and a package,
//! and what the live display shows while the backends work.

pub mod args;
pub mod commands;
pub mod constants;
pub mod hooks;
pub mod macros;
pub mod managers;
pub mod style;
pub mod text;
pub mod utils;
