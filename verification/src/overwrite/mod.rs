//! Overwrite plugins: Python scripts, each in its own directory, that
//! rewrite the kernel configuration at fixed hooks.

pub mod bridge;
pub mod crud;
pub mod git;
