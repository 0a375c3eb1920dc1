//! Verified core of a Lua-configured Wayland shell: widget configuration
//! rules, compositor state reduction, notification bookkeeping, data
//! provider logic and the text and wire formats they read.
use vstd::prelude::*;

pub mod battery;
pub mod bluetooth;
pub mod bridge;
pub mod commands;
pub mod compositor;
pub mod compositor_data;
pub mod fields;
pub mod hyprland;
pub mod json;
pub mod keyed;
pub mod locate;
pub mod lua;
pub mod mpris;
pub mod network;
pub mod notify;
pub mod order;
pub mod parser;
pub mod provider;
pub mod river;
pub mod selector;
pub mod sway;
pub mod seqs;
pub mod text;
pub mod toplevel_list;
pub mod validator;
pub mod variant;
pub mod widget;
pub mod wlr;

verus! {

} // verus!
