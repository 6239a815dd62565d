//! A guest-invite gateway for a live broadcast: signed links, the seats behind them, what a guest
//! may do with one, and the loop that keeps weave's streams in step with the seats.
pub mod assets;
pub mod clock;
pub mod config;
pub mod decimal;
pub mod invite;
pub mod laws;
pub mod live;
pub mod names;
pub mod reconcile;
pub mod routes;
pub mod seat;
pub mod snapshot;
pub mod text;
pub mod weave;
