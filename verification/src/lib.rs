//! Embedded scripting-engine integration: lifecycle management, request
//! execution with captured output, and parsing of the engine's raw output
//! into a structured response.
//!
//! The foreign engine itself is a black box linked by the embedding host;
//! this library holds the logic around it: the process-wide lifecycle state
//! machine, the decisions of the request executor, the output-capture and
//! exclusivity models, and the response parser.

pub mod capture;
pub mod engine;
pub mod executor;
pub mod exclusivity;
pub mod lifecycle;
pub mod response;

pub use engine::is_embed_available;
pub use engine::zval;
pub use executor::ExecError;
pub use executor::ExecutionRequest;
pub use executor::ScriptSource;
pub use lifecycle::InitError;
pub use lifecycle::PhpSapi;
pub use lifecycle::RuntimeState;
pub use response::HeaderMap;
pub use response::PhpResponse;
