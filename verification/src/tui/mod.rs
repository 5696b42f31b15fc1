pub mod app;
pub mod event;
pub mod log_reader;
pub mod view;
