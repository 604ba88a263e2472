//! Decisions of a bridge between a gRPC robot server and WebRTC clients.
pub mod bridge_args;
pub mod channels;
pub mod commands;
pub mod grpc_client;
pub mod json;
pub mod listener;
pub mod lossy;
pub mod messages;
pub mod motion;
pub mod negotiation;
pub mod recording;
pub mod reliable;
pub mod ros2_publisher;
pub mod session;
pub mod session_table;
pub mod simulator;
pub mod simulator_args;
pub mod stats;
pub mod text;
pub mod webrtc_bridge;
