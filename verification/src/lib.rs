//! Cross-target test-run configuration.
//!
//! The library turns a test request into a fully configured child-process
//! description: it forwards the request's test-selection flags onto a base
//! command, injects an emulation runner and a diagnostic-suppression
//! variable for every MSVC target triple whose variables the ambient
//! environment does not already define, and decides how a finished child
//! process's outcome maps to this process's own termination code.
pub mod command;
pub mod laws;
pub mod request;
pub mod strings;

pub use command::CommandDescription;
pub use command::EnvVar;
pub use request::termination_code;
pub use request::ExitOutcome;
pub use request::Test;
pub use strings::runner_env_key;
pub use strings::str_has_substring;
