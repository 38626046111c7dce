//! Decision core of a single-user SSH daemon.
pub mod admission;
pub mod authorized_keys;
pub mod bytes;
pub mod config;
pub mod directive;
pub mod env;
pub mod executor;
pub mod log_limiter;
pub mod logging;
pub mod metrics;
pub mod native_paths;
pub mod net;
pub mod paths;
pub mod platform_paths;
pub mod preauth;
pub mod process;
pub mod sample;
pub mod sandbox;
pub mod session;
pub mod sftp;
pub mod sshd;
pub mod text;
pub mod time;
pub mod values;
pub mod windows_paths;
pub mod windows_service_runtime;
