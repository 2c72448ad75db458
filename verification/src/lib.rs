//! Core logic of the TechnoAfandi FC 26 activation tool: version lookup,
//! time and log formatting, download planning and the activation sequence,
//! each stated and proved with Verus.
pub mod text;
pub mod timefmt;
pub mod activation;
pub mod digest;
pub mod config;
pub mod download;
pub mod smart;
pub mod files;
pub mod versions;
pub mod http;
pub mod watch;
pub mod update;
pub mod locate;
