//! The execution context and the two operations of the registry.

use vstd::prelude::*;
use vstd::string::StringExecFns;
use crate::diagnostic::{Diagnostic, DiagnosticView, Level, diagnostic_views};
use crate::person::Person;
use crate::table::{InsertError, PersonTable, TableState};

verus! {

/// The text of the greeting that [`say_hello`] emits.
pub const GREETING: &'static str = "Hello from SpacetimeDB!";

/// Mathematical model of a [`Context`]: the table, and the diagnostics
/// emitted so far, oldest first.
pub struct ContextState {
    pub db: TableState,
    pub diagnostics: Seq<DiagnosticView>,
}

impl ContextState {
    /// The one message that a greeting emits.
    pub open spec fn greeting() -> DiagnosticView {
        DiagnosticView { level: Level::Info, message: GREETING@ }
    }

    /// The context after `add_person`: the table takes the insertion, the
    /// diagnostics stay.
    pub open spec fn add_person(self, name: Seq<char>, age: nat) -> ContextState {
        ContextState { db: self.db.insert(name, age), diagnostics: self.diagnostics }
    }

    /// The context after `say_hello`: one more diagnostic, the same table.
    pub open spec fn say_hello(self) -> ContextState {
        ContextState { db: self.db, diagnostics: self.diagnostics.push(ContextState::greeting()) }
    }

    /// The context after `n` greetings in a row.
    pub open spec fn say_hello_times(self, n: nat) -> ContextState
        decreases n,
    {
        if n == 0 {
            self
        } else {
            self.say_hello_times((n - 1) as nat).say_hello()
        }
    }
}

/// What an operation is given to work with: the table store and the sink for
/// diagnostic messages.
///
/// Messages pile up in `diagnostics` in the order in which they were emitted;
/// whoever runs the operations forwards them to the log.
pub struct Context {
    pub db: PersonTable,
    pub diagnostics: Vec<Diagnostic>,
}

impl View for Context {
    type V = ContextState;

    open spec fn view(&self) -> ContextState {
        ContextState { db: self.db@, diagnostics: diagnostic_views(self.diagnostics@) }
    }
}

impl Context {
    /// A context over an empty table, with nothing emitted yet.
    pub fn new() -> (ctx: Context)
        ensures
            ctx@ == (ContextState { db: TableState::empty(), diagnostics: Seq::empty() }),
            ctx.db.wf(),
            ctx.diagnostics@.len() == 0,
    {
        let ctx = Context { db: PersonTable::new(), diagnostics: Vec::new() };
        assert(ctx@.diagnostics =~= Seq::<DiagnosticView>::empty());
        ctx
    }
}

/// Adds one person to the table.
///
/// The record is stored with the given `name` and `age` under an identifier
/// that the table assigns; no name or age is rejected, and duplicates are
/// allowed. The operation fails exactly when the table has no identifier
/// left, and then changes nothing. It emits no diagnostic.
pub fn add_person(ctx: &mut Context, name: String, age: u32) -> (result: Result<(), InsertError>)
    ensures
        final(ctx)@ == old(ctx)@.add_person(name@, age as nat),
        final(ctx).diagnostics == old(ctx).diagnostics,
        old(ctx).db.wf() ==> final(ctx).db.wf(),
        result is Ok <==> !old(ctx).db@.exhausted(),
        result is Ok ==> final(ctx).db@.rows.len() == old(ctx).db@.rows.len() + 1,
        result is Err ==> result == Err::<(), InsertError>(InsertError::AutoIncOverflow)
            && *final(ctx) == *old(ctx),
{
    match ctx.db.insert(Person { id: 0, name, age }) {
        Ok(_) => Ok(()),
        Err(e) => Err(e),
    }
}

/// Emits the greeting: one informational message, [`GREETING`], is appended
/// to the context's diagnostics.
///
/// The operation asks nothing of the context, cannot fail, and neither reads
/// nor changes the table.
pub fn say_hello(ctx: &mut Context)
    ensures
        final(ctx)@ == old(ctx)@.say_hello(),
        final(ctx).db == old(ctx).db,
        final(ctx).diagnostics@.len() == old(ctx).diagnostics@.len() + 1,
        final(ctx).diagnostics@.drop_last() == old(ctx).diagnostics@,
{
    let greeting = Diagnostic { level: Level::Info, message: String::from_str(GREETING) };
    ctx.diagnostics.push(greeting);
    assert(ctx.diagnostics@.drop_last() =~= old(ctx).diagnostics@);
    assert(diagnostic_views(ctx.diagnostics@) =~= diagnostic_views(old(ctx).diagnostics@).push(
        greeting@,
    ));
}

/// However often the greeting is emitted, the table is the one it was: the
/// same rows, the same next identifier. Only the diagnostics grow, by one
/// greeting per call.
pub proof fn lemma_say_hello_keeps_table(s: ContextState, n: nat)
    ensures
        s.say_hello_times(n).db == s.db,
        s.say_hello_times(n).db.rows.len() == s.db.rows.len(),
        s.say_hello_times(n).diagnostics.len() == s.diagnostics.len() + n,
        s.say_hello_times(n).diagnostics.subrange(0, s.diagnostics.len() as int) == s.diagnostics,
        forall|k: int|
            s.diagnostics.len() <= k < s.diagnostics.len() + n
                ==> #[trigger] s.say_hello_times(n).diagnostics[k] == ContextState::greeting(),
    decreases n,
{
    let t = s.say_hello_times(n);
    let len = s.diagnostics.len() as int;
    if n == 0 {
        assert(t.diagnostics.subrange(0, len) =~= s.diagnostics);
    } else {
        let u = s.say_hello_times((n - 1) as nat);
        lemma_say_hello_keeps_table(s, (n - 1) as nat);
        assert(t.diagnostics.subrange(0, len) =~= u.diagnostics.subrange(0, len));
    }
}

/// Adding a person where an identifier is left grows the table by exactly one
/// row, which holds the given name and age, and leaves the diagnostics alone.
pub proof fn lemma_add_person_adds_one_row(s: ContextState, name: Seq<char>, age: nat)
    requires
        !s.db.exhausted(),
    ensures
        s.add_person(name, age).db.rows.len() == s.db.rows.len() + 1,
        s.add_person(name, age).db.rows.drop_last() == s.db.rows,
        s.add_person(name, age).db.rows.last().name == name,
        s.add_person(name, age).db.rows.last().age == age,
        s.add_person(name, age).diagnostics == s.diagnostics,
{
    crate::table::lemma_insert_adds_one_row(s.db, name, age);
}

} // verus!
