//! The `Report` trait: anything that can describe itself in a line of text.
use vstd::prelude::*;

verus! {

/// Something that renders a human-readable report of itself.
pub trait Report {
    /// The text that `report` produces.
    spec fn report_text(&self) -> Seq<char>;

    /// Renders the report.
    fn report(&self) -> (r: String)
        ensures
            r@ == self.report_text(),
    ;
}

} // verus!
