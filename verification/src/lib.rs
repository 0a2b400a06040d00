//! The installation core of a package manager.
//!
//! An artifact is unpacked into a staging location, its metadata is checked
//! against the metadata store, its files are copied into place, the package
//! is recorded, and the staging location is removed. The library decides and
//! keeps the books; whoever drives it reads the disk and talks to the
//! database.
//!
//! - [`version`]: version identifiers and their order.
//! - [`staging`]: staging locations, keyed by the stem of the artifact's name.
//! - [`document`], [`config`]: structured documents and the configuration.
//! - [`package`], [`table`], [`store`]: packages, and the store that records them.
//! - [`batch`], [`kinds`]: transactions of several rows; package kinds in bulk.
//! - [`validation`]: the checks that a package's metadata must pass.
//! - [`pipeline`], [`install`]: the stages of an installation and their order.

pub mod batch;
pub mod config;
pub mod decimal;
pub mod document;
pub mod install;
pub mod kinds;
pub mod package;
pub mod pipeline;
pub mod staging;
pub mod store;
pub mod table;
pub mod text;
pub mod validation;
pub mod version;
