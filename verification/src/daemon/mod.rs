//! The daemon: the kernel's supervisor, the control socket's requests, the
//! PID file, the TUN device it holds and its traffic samples.

pub mod ipc;
pub mod lifecycle;
pub mod paths;
pub mod supervisor;
pub mod traffic_monitor;
pub mod tun_state;
