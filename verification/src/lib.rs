//! A registry of people: one table of `Person` records with automatically
//! assigned identifiers, and the two operations that act on it.
//!
//! Every operation takes an explicit [`Context`], which bundles the table store
//! and the sink for diagnostic messages. The table is described by a small
//! mathematical model, [`TableState`], and each operation states its effect as
//! a step of that model.

pub mod diagnostic;
pub mod person;
pub mod registry;
pub mod table;

pub use diagnostic::{Diagnostic, DiagnosticView, Level};
pub use person::{Person, PersonView};
pub use registry::{add_person, say_hello, Context, ContextState, GREETING};
pub use table::{InsertError, PersonTable, TableState};
