//! Core of a C/C++ package-manager CLI: the registry indexing and
//! version-resolution engine, together with the path helpers and the
//! command argument types that drive it.

pub mod cli;
pub mod cmake;
pub mod config;
pub mod util;
pub mod vcpkg;
