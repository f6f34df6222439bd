//! Verified core of the Prism engine: timers, UI scheduling, input handling and
//! the planning side of the Vulkan renderer and its baking tools.

pub mod acceleration_structure;
pub mod asset_decoders;
pub mod bake;
pub mod batch;
pub mod bindless;
pub mod buffer;
pub mod capabilities;
pub mod config;
pub mod context;
pub mod descriptor;
pub mod egui_overlay;
pub mod external_overlay;
pub mod float_order;
pub mod forward_pass;
pub mod gi;
pub mod gizmo;
pub mod gpu;
pub mod graph_renderer;
pub mod gtao;
pub mod hdr;
pub mod hdr_laws;
pub mod input;
pub mod launcher;
pub mod pt_scene;
pub mod renderer;
pub mod scene_manifest;
pub mod slot_map;
pub mod text;
pub mod timer;
pub mod timer_laws;
pub mod transfer;
pub mod ui;
