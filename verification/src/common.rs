use vstd::prelude::*;

verus! {

/// The mathematical content of a fallible textual report: the text on
/// success, or the error text on failure.
pub open spec fn report_view(r: Result<String, String>) -> Result<Seq<char>, Seq<char>> {
    match r {
        Ok(s) => Ok(s@),
        Err(e) => Err(e@),
    }
}

/// An entity that can render itself into a textual status report.
///
/// The report may fail; failure carries a human-readable description.
pub trait IReporter {
    /// What `create_report` returns, as a function of the entity alone.
    spec fn report(&self) -> Result<Seq<char>, Seq<char>>;

    fn create_report(&self) -> (r: Result<String, String>)
        ensures
            report_view(r) == self.report(),
    ;
}

/// Reports are repeatable: an entity whose `create_report` is pinned to a
/// single specified result returns byte-identical text on every call, so
/// invoking it twice on the same immutable object yields the same output.
pub proof fn lemma_report_repeatable(
    spec_report: Result<Seq<char>, Seq<char>>,
    r1: Result<String, String>,
    r2: Result<String, String>,
)
    requires
        report_view(r1) == spec_report,
        report_view(r2) == spec_report,
    ensures
        report_view(r1) == report_view(r2),
{
}

} // verus!
