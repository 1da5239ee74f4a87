//! Finds the font list of a video editor among its combo boxes.
//!
//! The crate decides; the plugin around it talks to the window system. Window
//! events go through [`events`] and [`history`], each window is read by
//! [`scan`] into a [`candidate`], [`rank`] and [`probe`] conclude, [`retry`]
//! plans what follows, and [`hook`] runs the thread that all this happens on.
//! Window handles are held as addresses, times as nanoseconds.

pub mod bits;
pub mod candidate;
pub mod events;
pub mod history;
pub mod hook;
pub mod plugin;
pub mod probe;
pub mod rank;
pub mod retry;
pub mod scan;
pub mod text;
pub mod wide;
