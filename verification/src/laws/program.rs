//! What holds of the program that tests how fast streams are: [`crate::cli`],
//! [`crate::bench`] and [`crate::reporter`], and of the names of peers that it reads.

use std::time::{Duration, Instant};

use vstd::prelude::*;

use crate::base58::base58;
use crate::bench::{texts, ticket_lines, BenchLoopView};
use crate::cli::{addrs_of_texts, attempts_of, collected, key_of_seed, KEY_LENGTH};
use crate::peer::{
    is_peer_id, multiaddr_of_text, peer_id_of_text, reads_back, Multiaddr, IDENTITY_CODE,
    MAX_DIGEST_LENGTH, MAX_INLINE_KEY_LENGTH, SHA256_CODE,
};
use crate::reporter::{counted, is_now, made, measures, Report, ReporterView, REPORT_INTERVAL};

verus! {

/// A reporter starts without bytes, and reports once an interval has passed.
pub proof fn law_new_reporter(name: Seq<char>, start: Instant, last_report: Instant)
    ensures
        ({
            let reporter = ReporterView::initial(name, start, last_report);
            &&& reporter.name == name
            &&& reporter.total == 0
            &&& reporter.current == 0
            &&& reporter.start == start
            &&& reporter.last_report == last_report
            &&& reporter.report_interval == REPORT_INTERVAL
            &&& reporter.inv()
        }),
{
}

/// A report is due just if more than the interval has passed since the last one.
pub proof fn law_when_a_report_is_due(reporter: ReporterView, since_last: u128)
    ensures
        reporter.due(since_last) <==> since_last > reporter.report_interval,
        reporter.inv() <==> reporter.current <= reporter.total,
{
}

/// Bytes are added to all bytes and to those since the last report, however many they are.
/// Nothing else changes.
pub proof fn law_bytes_are_counted(reporter: ReporterView, n: usize)
    requires
        reporter.current + n <= usize::MAX,
        reporter.total + n <= usize::MAX,
    ensures
        reporter.pushed(n).total == reporter.total + n,
        reporter.pushed(n).current == reporter.current + n,
        reporter.pushed(n).name == reporter.name,
        reporter.pushed(n).start == reporter.start,
        reporter.pushed(n).last_report == reporter.last_report,
        reporter.pushed(n).report_interval == reporter.report_interval,
{
}

/// A report tells the name, the bytes and the times, and starts a new count of the bytes since
/// the last report.
pub proof fn law_what_is_reported(
    reporter: ReporterView,
    elapsed: u128,
    since_last: u128,
    now: Instant,
)
    ensures
        reporter.report(elapsed, since_last).name == reporter.name,
        reporter.report(elapsed, since_last).elapsed == elapsed,
        reporter.report(elapsed, since_last).since_last == since_last,
        reporter.report(elapsed, since_last).total == reporter.total,
        reporter.report(elapsed, since_last).current == reporter.current,
        reporter.reported(now).last_report == now,
        reporter.reported(now).current == 0,
        reporter.reported(now).total == reporter.total,
        reporter.reported(now).name == reporter.name,
        reporter.reported(now).start == reporter.start,
        reporter.reported(now).report_interval == reporter.report_interval,
{
}

/// A span is measured only by the clock, since the point in time that is asked for, and the
/// present is given only by the clock.
pub proof fn law_clock_measures(since: Instant, nanos: u128, now: Instant)
    ensures
        measures(since, nanos) ==> exists|span: Duration|
            call_ensures(Instant::elapsed, (&since,), span) && #[trigger] call_ensures(
                Duration::as_nanos,
                (&span,),
                nanos,
            ),
        is_now(now) ==> call_ensures(Instant::now, (), now),
{
}

/// A report that was made tells the bytes, and the times that the clock measured since the
/// start and since the last report. After it there are no bytes since the last report.
pub proof fn law_made_report(before: ReporterView, after: ReporterView, report: Report)
    requires
        made(before, after, report),
    ensures
        report.name@ == before.name,
        report.total == before.total,
        report.current == before.current,
        measures(before.start, report.elapsed),
        measures(before.last_report, report.since_last),
        after.total == before.total,
        after.current == 0,
        after.name == before.name,
        after.start == before.start,
        after.report_interval == before.report_interval,
        is_now(after.last_report),
{
}

/// When bytes are counted, a report is made just if the clock measured more than the interval
/// since the last one. All bytes are in the total, and each is in the report or among those
/// since the last report.
pub proof fn law_counted_bytes(
    before: ReporterView,
    after: ReporterView,
    n: usize,
    report: Option<Report>,
)
    requires
        before.current <= before.total,
        before.total + n <= usize::MAX,
        counted(before, after, n, report),
    ensures
        exists|span: u128| #[trigger]
            measures(before.last_report, span) && (report is Some <==> span
                > before.report_interval),
        after.total == before.total + n,
        after.name == before.name,
        after.start == before.start,
        after.report_interval == before.report_interval,
        report is None ==> after.current == before.current + n && after.last_report
            == before.last_report,
        report matches Some(made) ==> {
            &&& made.name@ == before.name
            &&& made.total == before.total + n
            &&& made.current == before.current + n
            &&& measures(before.start, made.elapsed)
            &&& measures(before.last_report, made.since_last)
            &&& after.current == 0
            &&& is_now(after.last_report)
        },
{
    let span = choose|span: u128| #[trigger]
        measures(before.last_report, span) && match report {
            None => !before.due(span) && after == before.pushed(n),
            Some(report) => before.due(span) && made(before.pushed(n), after, report),
        };
    assert(measures(before.last_report, span) && (report is Some <==> span
        > before.report_interval));
}

/// The counts of a test are in order just if those of reading and of writing are.
pub proof fn law_counts_of_a_test(bench: BenchLoopView)
    ensures
        bench.inv() <==> bench.read_report.current <= bench.read_report.total
            && bench.write_report.current <= bench.write_report.total,
{
}

/// For a ticket one line says that it is ready, and one line shows each of its addresses, in
/// their order.
pub proof fn law_ticket_lines(addrs: Seq<Seq<char>>, list: Seq<String>)
    ensures
        ticket_lines(addrs).len() == addrs.len() + 1,
        ticket_lines(addrs)[0] == "Ticket ready!"@,
        forall|i: int|
            0 < i <= addrs.len() ==> #[trigger] ticket_lines(addrs)[i] == "  addr "@ + addrs[i
                - 1],
        texts(list).len() == list.len(),
        forall|i: int| 0 <= i < list.len() ==> #[trigger] texts(list)[i] == list[i]@,
{
}

/// A key has its full length. It is the start of the seed, and zero from where the seed ends.
pub proof fn law_key_of_seed(seed: Seq<u8>)
    ensures
        key_of_seed(seed).len() == KEY_LENGTH,
        forall|i: int|
            0 <= i < KEY_LENGTH && i < seed.len() ==> #[trigger] key_of_seed(seed)[i] == seed[i],
        forall|i: int|
            seed.len() <= i < KEY_LENGTH ==> #[trigger] key_of_seed(seed)[i] == 0,
{
}

/// Attempts to read addresses come to all addresses, in their order, if each succeeds, and
/// else to the complaint of the first that fails.
pub proof fn law_first_complaint_counts(attempts: Seq<Result<Seq<u8>, Seq<char>>>)
    ensures
        match collected(attempts) {
            Ok(addrs) => {
                &&& addrs.len() == attempts.len()
                &&& forall|i: int|
                    0 <= i < attempts.len() ==> #[trigger] attempts[i] == Ok::<
                        Seq<u8>,
                        Seq<char>,
                    >(addrs[i])
            },
            Err(complaint) => exists|i: int|
                {
                    &&& 0 <= i < attempts.len()
                    &&& #[trigger] attempts[i] == Err::<Seq<u8>, Seq<char>>(complaint)
                    &&& forall|j: int| 0 <= j < i ==> #[trigger] attempts[j] is Ok
                },
        },
    decreases attempts.len(),
{
    if attempts.len() > 0 {
        let fewer = attempts.drop_last();
        law_first_complaint_counts(fewer);
        match collected(fewer) {
            Ok(addrs) => {
                assert forall|i: int| 0 <= i < fewer.len() implies #[trigger] attempts[i] == Ok::<
                    Seq<u8>,
                    Seq<char>,
                >(addrs[i]) by {
                    assert(attempts[i] == fewer[i]);
                }
                match attempts.last() {
                    Ok(_) => {},
                    Err(_) => {
                        assert(attempts[attempts.len() - 1] is Err);
                    },
                }
            },
            Err(complaint) => {
                let i = choose|i: int|
                    {
                        &&& 0 <= i < fewer.len()
                        &&& #[trigger] fewer[i] == Err::<Seq<u8>, Seq<char>>(complaint)
                        &&& forall|j: int| 0 <= j < i ==> #[trigger] fewer[j] is Ok
                    };
                assert(attempts[i] == Err::<Seq<u8>, Seq<char>>(complaint));
                assert forall|j: int| 0 <= j < i implies #[trigger] attempts[j] is Ok by {
                    assert(fewer[j] is Ok);
                }
            },
        }
    }
}

/// Each text of a list is read as an address by itself.
pub proof fn law_addresses_are_read_one_by_one(
    list: Seq<String>,
    attempts: Seq<Result<Multiaddr, String>>,
)
    ensures
        attempts_of(attempts).len() == attempts.len(),
        forall|i: int|
            0 <= i < attempts.len() ==> #[trigger] attempts_of(attempts)[i] == match attempts[i] {
                Ok(addr) => Ok::<Seq<u8>, Seq<char>>(addr.bytes@),
                Err(complaint) => Err(complaint@),
            },
        match addrs_of_texts(list) {
            Ok(addrs) => {
                &&& addrs.len() == list.len()
                &&& forall|i: int|
                    0 <= i < list.len() ==> multiaddr_of_text((#[trigger] list[i])@) == Ok::<
                        Seq<u8>,
                        Seq<char>,
                    >(addrs[i])
            },
            Err(complaint) => exists|i: int|
                {
                    &&& 0 <= i < list.len()
                    &&& multiaddr_of_text((#[trigger] list[i])@) == Err::<Seq<u8>, Seq<char>>(
                        complaint,
                    )
                    &&& forall|j: int|
                        0 <= j < i ==> multiaddr_of_text((#[trigger] list[j])@) is Ok
                },
        },
{
    let read = list.map_values(|text: String| multiaddr_of_text(text@));
    law_first_complaint_counts(read);
    match addrs_of_texts(list) {
        Ok(addrs) => {
            assert forall|i: int| 0 <= i < list.len() implies multiaddr_of_text(
                (#[trigger] list[i])@,
            ) == Ok::<Seq<u8>, Seq<char>>(addrs[i]) by {
                assert(read[i] == Ok::<Seq<u8>, Seq<char>>(addrs[i]));
            }
        },
        Err(complaint) => {
            let i = choose|i: int|
                {
                    &&& 0 <= i < read.len()
                    &&& #[trigger] read[i] == Err::<Seq<u8>, Seq<char>>(complaint)
                    &&& forall|j: int| 0 <= j < i ==> #[trigger] read[j] is Ok
                };
            assert(multiaddr_of_text(list[i]@) == Err::<Seq<u8>, Seq<char>>(complaint));
            assert forall|j: int| 0 <= j < i implies multiaddr_of_text(
                (#[trigger] list[j])@,
            ) is Ok by {
                assert(read[j] is Ok);
            }
        },
    }
}

/// A text that is read back names each identity whose base 58 text it is.
pub proof fn law_names_are_read_back(bytes: Seq<u8>)
    requires
        is_peer_id(bytes),
        reads_back(base58(bytes)),
    ensures
        peer_id_of_text(base58(bytes)) == Ok::<Seq<u8>, Seq<char>>(bytes),
{
}

/// The identities of peers are the hashes of up to 64 bytes, and the keys of up to 42 bytes,
/// each after its code and its length. There are no others.
pub proof fn law_form_of_an_identity(bytes: Seq<u8>, digest: Seq<u8>)
    ensures
        digest.len() <= 255 ==> {
            &&& is_peer_id(seq![SHA256_CODE, digest.len() as u8] + digest) <==> digest.len()
                <= MAX_DIGEST_LENGTH
            &&& is_peer_id(seq![IDENTITY_CODE, digest.len() as u8] + digest) <==> digest.len()
                <= MAX_INLINE_KEY_LENGTH
        },
        is_peer_id(bytes) ==> {
            &&& bytes.len() >= 2
            &&& bytes[0] == SHA256_CODE || bytes[0] == IDENTITY_CODE
            &&& bytes[1] == bytes.len() - 2
        },
{
}

} // verus!
