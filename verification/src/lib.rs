//! Core of a desktop application launcher: discovers installed applications,
//! normalizes their metadata into one record shape, resolves display icons
//! through an ordered fallback search, and avoids redoing the discovery on
//! every start through a change-fingerprint cache.
//!
//! Everything that decides or computes lives here, verified; the thin shell
//! that reads files, the environment or a registry hands plain values in and
//! takes plain values back.

pub mod config;
pub mod desktop;
pub mod fingerprint;
pub mod icons;
pub mod index;
pub mod locator;
pub mod model;
pub mod registry;
pub mod text;
