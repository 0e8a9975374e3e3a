//! Verified core of the AIPet desktop pet: atlas layout, pet packages,
//! image slicing, creation pipeline decisions and the task server's state.
pub mod text;
pub mod types;
pub mod pipeline;
pub mod order;
pub mod creation;
pub mod image_ops;
pub mod codec;
pub mod package;
pub mod state_config;
pub mod ai_config;
pub mod remote;
pub mod server_state;
pub mod audit;
pub mod server_api;
pub mod monitor;
pub mod layout_guides;
pub mod ai_reply;
pub mod window_place;
pub mod provider_size;
pub mod run_schedule;
