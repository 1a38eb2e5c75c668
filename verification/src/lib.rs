//! Zed for iPadOS: connecting to a remote host over SSH, and the screens around a remote
//! workspace.
//!
//! The modules hold what the app decides and computes: what is shown, what is sent and what is
//! saved. Each function states in its contract what it does.
pub mod connect_form;
pub mod connect_view;
pub mod demos;
pub mod digest;
pub mod dispatcher;
pub mod display;
pub mod font_registry;
pub mod host_key;
pub mod instance_buffer;
pub mod ios_app;
pub mod ios_lifecycle;
pub mod ios_platform;
pub mod key_input;
pub mod line_layout;
pub mod mobile_settings;
pub mod mobile_workspace_chrome;
pub mod numbers;
pub mod open_type;
pub mod persistence;
pub mod port_forward_manager;
pub mod process_mode;
pub mod remote_connection;
pub mod remote_delegate;
pub mod remote_platform;
pub mod root_view;
pub mod russh_helper;
pub mod session_recovery;
pub mod ssh_channel;
pub mod ssh_options;
pub mod ssh_port_forward;
pub mod text;
pub mod text_index;
pub mod text_input;
pub mod text_range;
pub mod text_system;
pub mod tutorial_view;
pub mod welcome_view;
pub mod workspace_view;
