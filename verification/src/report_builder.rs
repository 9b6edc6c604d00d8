//! Collects the reports of several items, in the order they are added.
use vstd::prelude::*;
use vstd::string::*;
use crate::report::Report;

verus! {

/// The text printed for `reports`: each report on a line of its own.
pub open spec fn report_lines(reports: Seq<Seq<char>>) -> Seq<char>
    decreases reports.len(),
{
    if reports.len() == 0 {
        Seq::empty()
    } else {
        report_lines(reports.drop_last()) + reports.last() + "\n"@
    }
}

/// A collector of reports.
pub struct ReportBuilder {
    reports: Vec<String>,
}

impl ReportBuilder {
    /// The reports collected, in order.
    pub closed spec fn reports_view(&self) -> Seq<Seq<char>> {
        self.reports@.map_values(|s: String| s@)
    }

    /// A collector with no reports.
    pub fn new() -> (r: Self)
        ensures
            r.reports_view() == Seq::<Seq<char>>::empty(),
    {
        let r = ReportBuilder { reports: Vec::new() };
        assert(r.reports_view() =~= Seq::<Seq<char>>::empty());
        r
    }

    /// Adds the report of `item`.
    pub fn add_report<T: Report>(self, item: &T) -> (r: Self)
        ensures
            r.reports_view() == self.reports_view().push(item.report_text()),
    {
        let mut reports = self.reports;
        let ghost old = reports@;
        reports.push(item.report());
        let r = ReportBuilder { reports };
        assert(r.reports_view() =~= old.map_values(|s: String| s@).push(item.report_text()));
        r
    }

    /// The reports collected, in order.
    pub fn reports(&self) -> (r: &Vec<String>)
        ensures
            r@.map_values(|s: String| s@) == self.reports_view(),
    {
        &self.reports
    }

    /// The text that printing the collected reports shows: each report
    /// followed by a line break.
    pub fn output(&self) -> (r: String)
        ensures
            r@ == report_lines(self.reports_view()),
    {
        let ghost all = self.reports_view();
        let mut r = String::new();
        let mut i: usize = 0;
        assert(all.take(0) =~= Seq::<Seq<char>>::empty());
        while i < self.reports.len()
            invariant
                all == self.reports_view(),
                all.len() == self.reports@.len(),
                i <= all.len(),
                r@ == report_lines(all.take(i as int)),
            decreases all.len() - i,
        {
            r.append(self.reports[i].as_str());
            r.append("\n");
            proof {
                assert(all.take(i + 1).drop_last() =~= all.take(i as int));
            }
            i = i + 1;
        }
        assert(all.take(i as int) =~= all);
        r
    }
}

impl Default for ReportBuilder {
    fn default() -> (r: Self)
        ensures
            r.reports_view() == Seq::<Seq<char>>::empty(),
    {
        Self::new()
    }
}

} // verus!
