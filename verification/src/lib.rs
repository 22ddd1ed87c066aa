pub mod text;
pub mod types;
pub mod errors;
pub mod fan_curve;
pub mod fan_daemon;
pub mod tuxedo_io;
pub mod battery_control;
pub mod hardware_control;
pub mod hardware_detection;
pub mod app_state;
