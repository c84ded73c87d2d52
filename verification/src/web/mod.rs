//! The decisions of the web service.

pub mod assets;
pub mod handlers;
pub mod laws;
pub mod page_laws;
pub mod serve;
pub mod state;
pub mod ws;
