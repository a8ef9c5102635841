//! Verified core of a tool that drives several git repositories at once:
//! configuration reading, repository selection, the text it reports and the
//! plans of git work that the command-line front end carries out.

pub mod text;
pub mod status;
pub mod oid;
pub mod progress;
pub mod config;
pub mod selection;
pub mod plan;
