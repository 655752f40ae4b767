//! Installs a shelf script and its icons into every local installation of Maya.
//!
//! The library holds the decisions of the installer: which documents to
//! fetch, which directories to look into and which files to write. It makes
//! no request and writes no file itself: a driver performs the action that
//! the [`workflow::Installer`] asks for and hands back what happened.

pub mod decimal;
pub mod icons;
pub mod locate;
pub mod manifest;
pub mod paths;
pub mod run;
pub mod text;
pub mod workflow;
