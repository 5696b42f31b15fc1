pub mod cli;
pub mod text;
pub mod sort;
pub mod profile;
pub mod utilities;
pub mod yaml;
pub mod paths;
pub mod daemon;
pub mod tui;
pub mod kernel;
pub mod network;
pub mod overwrite;
