//! The command router of a Roblox Studio control server.

pub mod binary64;
pub mod capture_call_laws;
pub mod command_laws;
pub mod commands;
pub mod deliveries;
pub mod encoding;
pub mod instances;
pub mod laws;
pub mod os_capture;
pub mod os_window;
pub mod picture;
pub mod polling;
pub mod proxy;
pub mod role;
pub mod router_call_laws;
pub mod routing;
pub mod runs;
pub mod screenshot;
pub mod seconds;
pub mod server;
pub mod server_call_laws;
pub mod state;
pub mod text;
pub mod text_laws;
pub mod timing;
pub mod tool_laws;
pub mod tools;
pub mod window_laws;
