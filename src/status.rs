use vstd::prelude::*;

verus! {

/// Where the most recently started element stands.
#[derive(Clone, Copy, Debug, PartialEq, Eq, Structural)]
pub enum Status {
    /// No start tag is pending.
    Closed,
    /// A start tag has been written without its closing `>`; attributes may follow.
    Open,
    /// The start tag has been terminated and text was written inside the element.
    Inside,
}

} // verus!
