//! Resolving and applying an update to an installed application: which
//! packaging the installation has, which release asset fits it, how versions
//! compare, how a downloaded archive is unpacked layer by layer, and how the
//! installed files are backed up and replaced.
//!
//! Nothing here touches the file system or the network. Work of that kind is
//! commanded: [`unpack::Extraction`] and [`backup::MoveBatch`] say what is to
//! be done next and take a report of how it went.

pub mod backup;
pub mod cli;
pub mod download;
pub mod manifest;
pub mod number;
pub mod paths;
pub mod release;
pub mod select;
pub mod system;
pub mod text;
pub mod unpack;
pub mod update;
pub mod version;
