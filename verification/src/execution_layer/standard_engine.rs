//! The standard execution engine: a handle on an engine reached over
//! JSON-RPC.
use std::sync::Arc;
use vstd::prelude::*;

verus! {

/// Standard execution engine that communicates with execution clients.
pub struct StandardExecutionEngine<Engine> {
    /// The underlying engine that handles JSON-RPC communication.
    engine: Arc<Engine>,
}

impl<Engine> StandardExecutionEngine<Engine> {
    /// A standard engine over `engine`.
    pub fn new(engine: Arc<Engine>) -> (r: Self)
        ensures
            r.spec_engine() == engine,
    {
        StandardExecutionEngine { engine }
    }

    /// The underlying engine.
    pub closed spec fn spec_engine(&self) -> Arc<Engine> {
        self.engine
    }

    /// The underlying engine.
    pub fn engine(&self) -> (r: &Arc<Engine>)
        ensures
            *r == self.spec_engine(),
    {
        &self.engine
    }
}

} // verus!
