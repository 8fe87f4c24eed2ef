//! Battery state-of-charge trend estimation and status-icon compositing.
//!
//! The crate has two halves. `battery_monitor` turns raw charge samples into a
//! percentage, a discharge rate and a charging flag. `icon_builder` renders such
//! a snapshot into a small RGBA raster. Every function carries a contract, and
//! Verus proves it of all but the six in `image_ops`: those call the `image`
//! crate, and their contracts are believed on the strength of that crate's
//! source.

pub mod battery_monitor;
pub mod battery_tray_app;
pub mod battery_tray_icon;
pub mod debug_util;
pub mod icon_builder;
pub mod icon_image;
pub mod image_ops;
pub mod small_icon;
