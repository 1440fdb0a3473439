pub mod decimal;
pub mod sync_service;
pub mod address;
pub mod config;
pub mod call_executor;
pub mod call_laws;
pub mod wait;
pub mod net;
pub mod net_laws;
pub mod topology;
pub mod topology_laws;
pub mod scenario;
pub mod scenario_laws;
pub mod step_laws;
pub mod playback;
pub mod playback_laws;
pub mod play_laws;
