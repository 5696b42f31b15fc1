//! The mihomo kernel: which release fits this machine, how an archive is
//! unpacked, and which installed version is active.

pub mod download;
pub mod manage;
