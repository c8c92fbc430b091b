//! Execution engines: the interface the beacon node uses to have payloads
//! checked, with a mock for tests, the standard engine, and a stateless one.
pub mod engine;
pub mod mock_engine;
pub mod standard_engine;
pub mod stateless_engine;

pub use engine::{EngineCapabilities, EngineError, ExecutionEngine, PayloadStatus};
pub use mock_engine::{MockEngineConfig, MockExecutionEngine};
pub use standard_engine::StandardExecutionEngine;
pub use stateless_engine::{StatelessEngineConfig, StatelessExecutionEngine};
