//! Core of a desktop wallpaper-rotation utility.
//!
//! The library keeps a list of candidate wallpapers (single image files or
//! directories of images), tracks which image is current, and computes the
//! next, previous and reset positions of the cycle.  All navigation works on
//! plain values: the caller loads the persisted configuration, takes a
//! snapshot of the relevant directory listings, and hands both to the
//! functions here; the operating-system work (reading directories, writing
//! the configuration file, invoking the desktop environment) stays outside.

pub mod cycle_laws;
pub mod listing;
pub mod models;
pub mod navigator;
pub mod operations;
pub mod platform;
pub mod schedule;
pub mod text;
