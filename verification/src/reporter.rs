//! Reports on how many bytes go over a stream, and how fast.

use std::time::{Duration, Instant};

use vstd::prelude::*;

verus! {

/// `std::time::Instant`: a point in time. Trusted: nothing is known here of what it holds.
#[verifier::external_type_specification]
#[verifier::external_body]
pub struct ExInstant(Instant);

/// `std::time::Instant::now`: the present. Trusted: nothing is claimed of it, as it depends on
/// the clock alone.
pub assume_specification[ Instant::now ]() -> (now: Instant)
;

/// `std::time::Instant::elapsed`: the time since then. Trusted: nothing is claimed of it, as it
/// depends on the clock.
pub assume_specification[ Instant::elapsed ](since: &Instant) -> (elapsed: Duration)
;

/// `std::time::Duration::as_nanos`: a span of time in nanoseconds. Trusted: nothing is
/// claimed of it, as the spans here are ones that a clock gave.
pub assume_specification[ Duration::as_nanos ](span: &Duration) -> (nanos: u128)
;

/// Whether the clock measured this many nanoseconds since a point in time.
pub open spec fn measures(since: Instant, nanos: u128) -> bool {
    exists|span: Duration| #[trigger]
        call_ensures(Instant::elapsed, (&since,), span) && call_ensures(
            Duration::as_nanos,
            (&span,),
            nanos,
        )
}

/// Whether the clock gave this point in time as the present.
pub open spec fn is_now(now: Instant) -> bool {
    call_ensures(Instant::now, (), now)
}

/// Calls a function, and tells what it was called for.
fn called<A, B, F: FnOnce(&A) -> B>(f: F, a: &A) -> (b: B)
    requires
        f.requires((a,)),
    ensures
        f.ensures((a,), b),
{
    f(a)
}

/// Asks the clock for the present.
fn present<F: FnOnce() -> Instant>(now: F) -> (instant: Instant)
    requires
        now.requires(()),
    ensures
        now.ensures((), instant),
{
    now()
}

/// The nanoseconds since a point in time, by the clock.
fn nanos_since(since: &Instant) -> (nanos: u128)
    ensures
        measures(*since, nanos),
{
    let span = called(Instant::elapsed, since);
    called(Duration::as_nanos, &span)
}

/// How long a reporter waits between reports, in nanoseconds.
pub const REPORT_INTERVAL: u128 = 1_000_000_000;

/// What there is to say of a stream. The spans of time are in nanoseconds.
#[derive(Debug)]
pub struct Report {
    pub name: String,
    /// The time since the reporter was made.
    pub elapsed: u128,
    /// The bytes since the reporter was made.
    pub total: usize,
    /// The bytes since the last report.
    pub current: usize,
    /// The time since the last report.
    pub since_last: u128,
}

/// What a [`Report`] says.
pub struct ReportView {
    pub name: Seq<char>,
    pub elapsed: u128,
    pub total: usize,
    pub current: usize,
    pub since_last: u128,
}

impl View for Report {
    type V = ReportView;

    open spec fn view(&self) -> ReportView {
        ReportView {
            name: self.name@,
            elapsed: self.elapsed,
            total: self.total,
            current: self.current,
            since_last: self.since_last,
        }
    }
}

/// The state of a [`Reporter`].
pub struct ReporterView {
    pub name: Seq<char>,
    pub total: usize,
    pub start: Instant,
    pub report_interval: u128,
    pub last_report: Instant,
    pub current: usize,
}

impl ReporterView {
    /// The bytes since the last report are among all bytes.
    pub open spec fn inv(self) -> bool {
        self.current <= self.total
    }

    /// What the reporter is when it is made.
    pub open spec fn initial(name: Seq<char>, start: Instant, last_report: Instant) -> ReporterView {
        ReporterView {
            name,
            total: 0,
            start,
            report_interval: REPORT_INTERVAL,
            last_report,
            current: 0,
        }
    }

    /// The state once some more bytes went over the stream.
    pub open spec fn pushed(self, n: usize) -> ReporterView {
        ReporterView {
            total: (self.total + n) as usize,
            current: (self.current + n) as usize,
            ..self
        }
    }

    /// Whether a report is due, so long after the last one.
    pub open spec fn due(self, since_last: u128) -> bool {
        since_last > self.report_interval
    }

    /// What there is to say.
    pub open spec fn report(self, elapsed: u128, since_last: u128) -> ReportView {
        ReportView {
            name: self.name,
            elapsed,
            total: self.total,
            current: self.current,
            since_last,
        }
    }

    /// The state once a report was made.
    pub open spec fn reported(self, now: Instant) -> ReporterView {
        ReporterView { last_report: now, current: 0, ..self }
    }
}

/// Whether a report was made: of the times that the clock measured since the start and since
/// the last report.
pub open spec fn made(before: ReporterView, after: ReporterView, report: Report) -> bool {
    &&& report@ == before.report(report.elapsed, report.since_last)
    &&& measures(before.start, report.elapsed)
    &&& measures(before.last_report, report.since_last)
    &&& after == before.reported(after.last_report)
    &&& is_now(after.last_report)
}

/// Whether some more bytes were counted, and a report made just if one was due by the time
/// that the clock measured since the last report.
pub open spec fn counted(
    before: ReporterView,
    after: ReporterView,
    n: usize,
    report: Option<Report>,
) -> bool {
    exists|span: u128| #[trigger]
        measures(before.last_report, span) && match report {
            None => !before.due(span) && after == before.pushed(n),
            Some(report) => before.due(span) && made(before.pushed(n), after, report),
        }
}

/// Counts the bytes that go over a stream.
pub struct Reporter {
    name: String,
    total: usize,
    start: Instant,
    report_interval: u128,
    last_report: Instant,
    current: usize,
}

impl View for Reporter {
    type V = ReporterView;

    closed spec fn view(&self) -> ReporterView {
        ReporterView {
            name: self.name@,
            total: self.total,
            start: self.start,
            report_interval: self.report_interval,
            last_report: self.last_report,
            current: self.current,
        }
    }
}

impl Reporter {
    /// A reporter that starts to count now.
    pub fn new(name: String) -> (reporter: Reporter)
        ensures
            reporter@.inv(),
            reporter@ == ReporterView::initial(
                name@,
                reporter@.start,
                reporter@.last_report,
            ),
            is_now(reporter@.start),
            is_now(reporter@.last_report),
    {
        Reporter {
            name,
            total: 0,
            start: present(Instant::now),
            report_interval: REPORT_INTERVAL,
            last_report: present(Instant::now),
            current: 0,
        }
    }

    /// The bytes since the reporter was made.
    pub fn total(&self) -> (total: usize)
        ensures
            total == self@.total,
    {
        self.total
    }

    /// Counts some more bytes, and makes a report if one is due.
    pub fn push(&mut self, n: usize) -> (report: Option<Report>)
        requires
            old(self)@.inv(),
            old(self)@.total + n <= usize::MAX,
        ensures
            final(self)@.inv(),
            counted(old(self)@, final(self)@, n, report),
    {
        let since_last: u128 = nanos_since(&self.last_report);
        if self.push_after(n, since_last) {
            Some(self.report())
        } else {
            None
        }
    }

    /// Counts some more bytes, and tells whether a report is due, so long after the last
    /// one.
    pub fn push_after(&mut self, n: usize, since_last: u128) -> (due: bool)
        requires
            old(self)@.inv(),
            old(self)@.total + n <= usize::MAX,
        ensures
            final(self)@.inv(),
            final(self)@ == old(self)@.pushed(n),
            due == old(self)@.due(since_last),
    {
        self.total += n;
        self.current += n;
        since_last > self.report_interval
    }

    /// Makes a report.
    pub fn report(&mut self) -> (report: Report)
        ensures
            old(self)@.inv() ==> final(self)@.inv(),
            made(old(self)@, final(self)@, report),
    {
        let elapsed: u128 = nanos_since(&self.start);
        let since_last: u128 = nanos_since(&self.last_report);
        let now = present(Instant::now);
        self.report_after(elapsed, since_last, now)
    }

    /// Makes a report, so long after the start and after the last report.
    pub fn report_after(&mut self, elapsed: u128, since_last: u128, now: Instant) -> (report: Report)
        ensures
            old(self)@.inv() ==> final(self)@.inv(),
            report@ == old(self)@.report(elapsed, since_last),
            final(self)@ == old(self)@.reported(now),
    {
        let report = Report {
            name: self.name.clone(),
            elapsed,
            total: self.total,
            current: self.current,
            since_last,
        };
        self.last_report = now;
        self.current = 0;
        report
    }
}

} // verus!
