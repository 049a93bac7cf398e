//! Diagnostic messages handed to the host's log sink.

use vstd::prelude::*;

verus! {

/// Severity of a diagnostic message, from most to least severe.
#[derive(Clone, Copy, Debug, PartialEq, Eq)]
pub enum Level {
    Error,
    Warn,
    Info,
    Debug,
    Trace,
}

/// The mathematical value of a [`Diagnostic`].
pub struct DiagnosticView {
    pub level: Level,
    pub message: Seq<char>,
}

/// One message for the log sink. Delivery is fire-and-forget: producing a
/// diagnostic never fails.
#[derive(Clone, Debug, PartialEq, Eq)]
pub struct Diagnostic {
    pub level: Level,
    pub message: String,
}

impl View for Diagnostic {
    type V = DiagnosticView;

    open spec fn view(&self) -> DiagnosticView {
        DiagnosticView { level: self.level, message: self.message@ }
    }
}

/// The values of a sequence of diagnostics, in the same order.
pub open spec fn diagnostic_views(log: Seq<Diagnostic>) -> Seq<DiagnosticView> {
    log.map_values(|d: Diagnostic| d@)
}

} // verus!
