//! Generation-time diagnostics. Every failure of the generator is reported as
//! a diagnostic anchored to the offending item's name; independent errors from
//! one pass are collected rather than aborting at the first.

use vstd::prelude::*;

verus! {

/// One generation-time error report.
#[derive(Clone, Debug)]
pub struct Diagnostic {
    /// What went wrong.
    pub message: String,
    /// The name of the item the report is anchored to.
    pub origin: String,
    /// An optional cross-reference, such as the first of two clashing items.
    pub note: Option<String>,
}

impl Diagnostic {
    /// Builds a report without a cross-reference.
    pub fn new(message: &str, origin: &String) -> (r: Diagnostic)
        ensures
            r.message@ == message@,
            r.origin@ == origin@,
            r.note is None,
    {
        let mut m = String::new();
        m.append(message);
        assert(m@ =~= message@);
        Diagnostic { message: m, origin: origin.clone(), note: None }
    }

    /// Builds a report that points back at an earlier item.
    pub fn with_note(message: &str, origin: &String, note: &String) -> (r: Diagnostic)
        ensures
            r.message@ == message@,
            r.origin@ == origin@,
            r.note matches Some(n) && n@ == note@,
    {
        let mut m = String::new();
        m.append(message);
        assert(m@ =~= message@);
        Diagnostic { message: m, origin: origin.clone(), note: Some(note.clone()) }
    }
}

} // verus!
