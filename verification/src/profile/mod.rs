pub mod crud;
pub mod diff;
pub mod merge;
pub mod sync;
pub mod view;
