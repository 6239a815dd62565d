//! What the gateway promises, told over the plain fields of what goes in and what comes out.
pub mod links;
pub mod models;
pub mod requests;
pub mod settings;
pub mod steps;
pub mod texts;
pub mod ticks;
