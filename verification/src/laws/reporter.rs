//! What holds of [`crate::reporter`].

use std::time::Instant;

use vstd::prelude::*;

use crate::reporter::ReporterView;

verus! {

/// Something that happens to a reporter.
pub enum Occurrence {
    /// Some more bytes went over the stream.
    Push { n: usize },
    /// A report is made.
    Report { now: Instant },
}

impl ReporterView {
    /// The state once something happened.
    pub open spec fn after(self, occurrence: Occurrence) -> ReporterView {
        match occurrence {
            Occurrence::Push { n } => self.pushed(n),
            Occurrence::Report { now } => self.reported(now),
        }
    }

    /// The state once several things happened, one after the other.
    pub open spec fn after_all(self, occurrences: Seq<Occurrence>) -> ReporterView
        decreases occurrences.len(),
    {
        if occurrences.len() == 0 {
            self
        } else {
            self.after_all(occurrences.drop_last()).after(occurrences.last())
        }
    }

    /// The bytes since the last report in all reports made meanwhile, added up.
    pub open spec fn reported_bytes(self, occurrences: Seq<Occurrence>) -> nat
        decreases occurrences.len(),
    {
        if occurrences.len() == 0 {
            0
        } else {
            let before = self.after_all(occurrences.drop_last());
            self.reported_bytes(occurrences.drop_last()) + match occurrences.last() {
                Occurrence::Push { .. } => 0,
                Occurrence::Report { .. } => before.current as nat,
            }
        }
    }
}

/// The bytes that went over the stream, added up.
pub open spec fn pushed_bytes(occurrences: Seq<Occurrence>) -> nat
    decreases occurrences.len(),
{
    if occurrences.len() == 0 {
        0
    } else {
        pushed_bytes(occurrences.drop_last()) + match occurrences.last() {
            Occurrence::Push { n } => n as nat,
            Occurrence::Report { .. } => 0,
        }
    }
}

/// No byte is lost and none is counted twice: the total grows by the bytes that went over the
/// stream, and each of them is in one report, or among those since the last report.
pub proof fn law_bytes_add_up(reporter: ReporterView, occurrences: Seq<Occurrence>)
    requires
        reporter.inv(),
        reporter.total + pushed_bytes(occurrences) <= usize::MAX,
    ensures
        reporter.after_all(occurrences).inv(),
        reporter.after_all(occurrences).total == reporter.total + pushed_bytes(occurrences),
        reporter.reported_bytes(occurrences) + reporter.after_all(occurrences).current
            == reporter.current + pushed_bytes(occurrences),
    decreases occurrences.len(),
{
    if occurrences.len() > 0 {
        law_bytes_add_up(reporter, occurrences.drop_last());
    }
}

} // verus!
