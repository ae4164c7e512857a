use vstd::prelude::*;

verus! {

/// A sink for non-fatal diagnostics. It never fails and never blocks
/// processing.
pub trait Logger {
    fn error(&self, message: String);
}

/// A logger that drops every message.
#[derive(Default)]
pub struct NoopLogger;

impl Logger for NoopLogger {
    fn error(&self, message: String) {
    }
}

} // verus!
