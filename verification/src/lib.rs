//! The decision core of a pop-up desktop clock.
//!
//! Once per tick the host hands the wall-clock time and any pending user
//! events to this library. The library decides whether an alarm pattern
//! fires, drives the slide-in / dwell / slide-out cycle of the widget, and
//! answers with the commands the host has to apply to its window.

pub mod animation;
pub mod config;
pub mod parse;
pub mod trigger;
pub mod widget;
