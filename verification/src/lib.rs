//! Verified core of the AethelGUI runtime: retained buffers, frame scratch
//! pools, the redraw scheduler, typed signals, command queues and the small
//! state machines that the widgets build on.

pub mod alloc_ops;
pub mod app_config;
pub mod binding;
pub mod bits;
pub mod clip;
pub mod combo;
pub mod color_text;
pub mod command;
pub mod controller;
pub mod frame_stats;
pub mod gpu_plan;
pub mod input;
pub mod interaction;
pub mod layout;
pub mod reuse;
pub mod scratch;
pub mod runtime;
pub mod scheduler;
pub mod sync_ops;
pub mod style;
pub mod text_cache;
pub mod ui;
pub mod widget_state;
pub mod z_order;
pub mod text_field;
