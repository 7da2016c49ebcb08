//! A test of how fast a stream is: both sides write as much as they can, and read what
//! the other side writes.

use vstd::prelude::*;
use vstd::string::*;

use crate::reporter::{counted, is_now, Report, Reporter, ReporterView};
use crate::stream::BiStream;

verus! {

/// How many bytes are read at a time, at most.
pub const READ_BUFFER_SIZE: usize = 65536;

/// How many bytes are written at a time.
pub const MESSAGE_SIZE: usize = 65536;

/// The byte that is written.
pub const MESSAGE_BYTE: u8 = 8;

/// What is written each time.
pub fn message() -> (bytes: Vec<u8>)
    ensures
        bytes@ == Seq::new(MESSAGE_SIZE as nat, |i: int| MESSAGE_BYTE),
{
    let mut bytes: Vec<u8> = Vec::new();
    while bytes.len() < MESSAGE_SIZE
        invariant
            bytes@.len() <= MESSAGE_SIZE,
            forall|i: int| 0 <= i < bytes@.len() ==> bytes@[i] == MESSAGE_BYTE,
        decreases MESSAGE_SIZE - bytes@.len(),
    {
        bytes.push(MESSAGE_BYTE);
    }
    assert(bytes@ =~= Seq::new(MESSAGE_SIZE as nat, |i: int| MESSAGE_BYTE));
    bytes
}

/// How the test goes on.
#[derive(Debug)]
pub enum Step {
    /// It goes on, with a report if one is due.
    Continue(Option<Report>),
    /// It goes on, after a complaint.
    Complain(String),
    /// It ends, with a last word.
    Stop(String),
}

/// The state of a [`BenchLoop`].
pub struct BenchLoopView {
    pub name: Seq<char>,
    pub read_report: ReporterView,
    pub write_report: ReporterView,
}

impl BenchLoopView {
    pub open spec fn inv(self) -> bool {
        &&& self.read_report.inv()
        &&& self.write_report.inv()
    }
}

/// The test of one stream.
pub struct BenchLoop {
    name: String,
    read_report: Reporter,
    write_report: Reporter,
}

impl View for BenchLoop {
    type V = BenchLoopView;

    closed spec fn view(&self) -> BenchLoopView {
        BenchLoopView {
            name: self.name@,
            read_report: self.read_report@,
            write_report: self.write_report@,
        }
    }
}

impl BenchLoop {
    /// A test that starts now.
    pub fn new(name: String) -> (bench: BenchLoop)
        ensures
            bench@.inv(),
            bench@.name == name@,
            bench@.read_report == ReporterView::initial(
                name@ + ":read"@,
                bench@.read_report.start,
                bench@.read_report.last_report,
            ),
            bench@.write_report == ReporterView::initial(
                name@ + ":write"@,
                bench@.write_report.start,
                bench@.write_report.last_report,
            ),
            is_now(bench@.read_report.start),
            is_now(bench@.read_report.last_report),
            is_now(bench@.write_report.start),
            is_now(bench@.write_report.last_report),
    {
        let read_report = Reporter::new(name.clone().concat(":read"));
        let write_report = Reporter::new(name.clone().concat(":write"));
        BenchLoop { name, read_report, write_report }
    }

    /// The bytes that were read and written so far.
    pub fn totals(&self) -> (totals: (usize, usize))
        ensures
            totals == (self@.read_report.total, self@.write_report.total),
    {
        (self.read_report.total(), self.write_report.total())
    }

    /// Takes note of the result of reading. To read nothing is to reach the end. After an
    /// error the test goes on.
    pub fn on_read(&mut self, result: Result<usize, String>) -> (step: Step)
        requires
            old(self)@.inv(),
            result matches Ok(n) ==> old(self)@.read_report.total + n <= usize::MAX,
        ensures
            final(self)@.inv(),
            match result {
                Err(err) => {
                    &&& step matches Step::Complain(text)
                    &&& text@ == "READ ERROR on "@ + old(self)@.name + ": "@ + err@
                    &&& final(self)@ == old(self)@
                },
                Ok(n) => if n == 0 {
                    &&& step matches Step::Stop(text)
                    &&& text@ == "READ "@ + old(self)@.name + ": EOF"@
                    &&& final(self)@ == old(self)@
                } else {
                    &&& step matches Step::Continue(report)
                    &&& counted(
                        old(self)@.read_report,
                        final(self)@.read_report,
                        n,
                        report,
                    )
                    &&& final(self)@ == (BenchLoopView {
                        read_report: final(self)@.read_report,
                        ..old(self)@
                    })
                },
            },
    {
        match result {
            Err(err) => Step::Complain(
                "READ ERROR on ".to_owned().concat(self.name.as_str()).concat(": ").concat(
                    err.as_str(),
                ),
            ),
            Ok(n) => {
                if n == 0 {
                    Step::Stop("READ ".to_owned().concat(self.name.as_str()).concat(": EOF"))
                } else {
                    Step::Continue(self.read_report.push(n))
                }
            },
        }
    }

    /// Takes note of the result of writing one message. After an error the test ends.
    pub fn on_write(&mut self, result: Result<(), String>) -> (step: Step)
        requires
            old(self)@.inv(),
            result is Ok ==> old(self)@.write_report.total + MESSAGE_SIZE <= usize::MAX,
        ensures
            final(self)@.inv(),
            match result {
                Err(err) => {
                    &&& step matches Step::Stop(text)
                    &&& text@ == "WRITE ERROR on "@ + old(self)@.name + ": "@ + err@
                    &&& final(self)@ == old(self)@
                },
                Ok(_) => {
                    &&& step matches Step::Continue(report)
                    &&& counted(
                        old(self)@.write_report,
                        final(self)@.write_report,
                        MESSAGE_SIZE,
                        report,
                    )
                    &&& final(self)@ == (BenchLoopView {
                        write_report: final(self)@.write_report,
                        ..old(self)@
                    })
                },
            },
    {
        match result {
            Err(err) => Step::Stop(
                "WRITE ERROR on ".to_owned().concat(self.name.as_str()).concat(": ").concat(
                    err.as_str(),
                ),
            ),
            Ok(_) => Step::Continue(self.write_report.push(MESSAGE_SIZE)),
        }
    }
}

/// What a node tells.
#[derive(Debug)]
pub enum NodeEvent<S> {
    /// The addresses under which the node may be reached.
    TicketReady(Vec<String>),
    /// A peer opened a stream.
    IncomingStream(BiStream<S>),
    /// The node cannot go on.
    NodeError(String),
}

/// What is done when a node tells something.
#[derive(Debug)]
pub enum EventStep<S> {
    /// The lines are shown.
    Show(Vec<String>),
    /// The stream is tested, under a name.
    Bench { stream: BiStream<S>, name: String },
    /// The program ends, with a last word.
    Stop(String),
}

/// The lines that are shown for a ticket.
pub open spec fn ticket_lines(addrs: Seq<Seq<char>>) -> Seq<Seq<char>> {
    seq!["Ticket ready!"@] + addrs.map_values(|addr: Seq<char>| "  addr "@ + addr)
}

/// The texts in a list of them.
pub open spec fn texts(list: Seq<String>) -> Seq<Seq<char>> {
    list.map_values(|text: String| text@)
}

/// Says what is done when a node tells something.
pub fn event_step<S>(event: NodeEvent<S>) -> (step: EventStep<S>)
    requires
        event matches NodeEvent::IncomingStream(stream) ==> stream.peer_id@ != seq![0u8, 0u8],
    ensures
        match event {
            NodeEvent::TicketReady(addrs) => {
                &&& step matches EventStep::Show(lines)
                &&& texts(lines@) == ticket_lines(texts(addrs@))
            },
            NodeEvent::IncomingStream(stream) => {
                &&& step matches EventStep::Bench { stream: tested, name }
                &&& tested == stream
                &&& name@ == stream@.label()
            },
            NodeEvent::NodeError(err) => {
                &&& step matches EventStep::Stop(text)
                &&& text@ == "ERROR "@ + err@
            },
        },
{
    match event {
        NodeEvent::TicketReady(addrs) => {
            let mut lines: Vec<String> = Vec::new();
            lines.push("Ticket ready!".to_owned());
            let mut i: usize = 0;
            assert(texts(lines@) =~= ticket_lines(texts(addrs@).take(0)));
            while i < addrs.len()
                invariant
                    i <= addrs@.len(),
                    texts(lines@) == ticket_lines(texts(addrs@).take(i as int)),
                decreases addrs@.len() - i,
            {
                let ghost before = texts(lines@);
                lines.push("  addr ".to_owned().concat(addrs[i].as_str()));
                assert(texts(lines@) =~= before.push("  addr "@ + addrs@[i as int]@));
                i += 1;
                assert(texts(lines@) =~= ticket_lines(texts(addrs@).take(i as int)));
            }
            assert(texts(addrs@).take(i as int) =~= texts(addrs@));
            EventStep::Show(lines)
        },
        NodeEvent::IncomingStream(stream) => {
            let name = stream.to_string();
            EventStep::Bench { stream, name }
        },
        NodeEvent::NodeError(err) => EventStep::Stop("ERROR ".to_owned().concat(err.as_str())),
    }
}

} // verus!
