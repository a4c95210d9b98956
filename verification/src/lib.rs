//! Rules, protocols and state machines for controlling and capturing terminal applications.

pub mod capture;
pub mod cli;
pub mod environment;
pub mod frame;
pub mod input;
pub mod mcp;
pub mod recording;
pub mod render;
pub mod replay;
pub mod runtime;
pub mod semantic;
pub mod session;
pub mod shot;
pub mod terminal_core;
pub mod terminal_theme;
pub mod text;
pub mod workspace;
