//! The verified core of Astera, an infinite-canvas Wayland compositor.

pub mod actions;
pub mod argument_laws;
pub mod assurance;
pub mod backend;
pub mod binding_laws;
pub mod bindings;
pub mod client;
pub mod command_laws;
pub mod compositor;
pub mod compositor_laws;
pub mod config;
pub mod config_laws;
pub mod connection;
pub mod connection_laws;
pub mod connectors;
pub mod counting;
pub mod desktop;
pub mod desktop_laws;
pub mod device_laws;
pub mod devices;
pub mod directional_focus;
pub mod document;
pub mod edit_laws;
pub mod effect_laws;
pub mod entry_laws;
pub mod event_queue;
pub mod focus_laws;
pub mod geometry;
pub mod geometry_laws;
pub mod homecoming;
pub mod id_map;
pub mod ipc;
pub mod launch;
pub mod layout;
pub mod layout_laws;
pub mod listing;
pub mod location;
pub mod loop_laws;
pub mod messages;
pub mod mode_laws;
pub mod model;
pub mod native_laws;
pub mod native_policy;
pub mod nested;
pub mod output_laws;
pub mod outputs;
pub mod overview;
pub mod presentation;
pub mod presentation_laws;
pub mod push;
pub mod push_laws;
pub mod ranking;
pub mod reading_laws;
pub mod relocation_laws;
pub mod removal_laws;
pub mod rounding;
pub mod runtime;
pub mod runtime_laws;
pub mod scan;
pub mod scene;
pub mod scene_laws;
pub mod schedule_laws;
pub mod sending_laws;
pub mod server;
pub mod server_laws;
pub mod settings;
pub mod snapshot;
pub mod socket;
pub mod stability;
pub mod stacking;
pub mod steadiness;
pub mod suggestions;
pub mod summary;
pub mod survival;
pub mod text;
pub mod tidiness;
pub mod transaction_laws;
pub mod transactions;
pub mod viewport;
pub mod viewport_laws;
pub mod wire;
pub mod workspace;
