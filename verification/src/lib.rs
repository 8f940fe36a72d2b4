//! Gaussian-splatting Wang-tile scenes: archive layout, motion assets, graph playback and the
//! buffers handed to the GPU.
//!
//! Single-precision numbers appear in this library as their IEEE 754 bit patterns (`u32`).
//! Everything that compares, orders, checks, copies or packs them is verified here; arithmetic
//! on them belongs to the caller.

pub mod archive_laws;
pub mod bank_laws;
pub mod basis_bank_edit;
pub mod basis_bank_messages;
pub mod basis_bank_motion;
pub mod basis_bank_motion_gpu;
pub mod basis_bank_sampling;
pub mod basis_branch_regions;
pub mod basis_graph_authoring;
pub mod basis_graph_laws;
pub mod basis_graph_nodes;
pub mod basis_graph_packing;
pub mod basis_graph_playback;
pub mod basis_graph_steps;
pub mod basis_laws;
pub mod basis_motion_graph;
pub mod batch_selection;
pub mod bytes;
pub mod catmull_rom_files;
pub mod catmull_rom_laws;
pub mod catmull_rom_loading;
pub mod catmull_rom_motion;
pub mod catmull_rom_motion_gpu;
pub mod deformation;
pub mod deformation_errors;
pub mod deformation_eval;
pub mod deformation_extent;
pub mod deformation_gpu;
pub mod deformation_laws;
pub mod deformation_packing;
pub mod float_bits;
pub mod gui;
pub mod gui_forms;
pub mod gui_labels;
pub mod gui_laws;
pub mod gui_plot;
pub mod motion;
pub mod motion_graph_laws;
pub mod name_match;
pub mod ordering;
pub mod ordering_laws;
pub mod pickle;
pub mod pickle_laws;
pub mod playback_laws;
pub mod ply;
pub mod ply_laws;
pub mod renderer;
pub mod renderer_laws;
pub mod scene;
pub mod scene_archive;
pub mod scene_archive_networks;
pub mod scene_files;
pub mod scene_laws;
pub mod text;
pub mod text_laws;
pub mod torch_archive;
pub mod zip_file;
