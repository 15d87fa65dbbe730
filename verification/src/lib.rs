//! Verified core of a tiling terminal-pane multiplexer.
//!
//! The crate models the stateful heart of a GPU-rendered terminal emulator:
//! converting pixel positions to grid cells, resolving key and mouse bindings
//! against terminal mode flags, tracking per-pane interaction state (clicks,
//! drags, scroll accumulation), resolving colors, emitting draw primitives for
//! a cell grid, and managing a tiling tree of panes (split, close, resize,
//! focus). All of it is executable Rust with contracts checked by Verus; the
//! host GUI shell, the pseudo-terminal backend and file I/O live outside.

pub mod actions;
pub mod bindings;
pub mod color;
pub mod commands;
pub mod config;
pub mod content;
pub mod geometry;
pub mod input;
pub mod modes;
pub mod multiplexer;
pub mod renderer;
pub mod style;
pub mod subscription;
pub mod widget_theme;
