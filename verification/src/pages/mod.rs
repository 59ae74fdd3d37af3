//! What each page of the dashboard works out before it is drawn.

pub mod management;
pub mod process;
pub mod service;
pub mod software;
pub mod system;
pub mod template;
pub mod terminal;
