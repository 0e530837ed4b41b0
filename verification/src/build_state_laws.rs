//! What holds of the journal's files over whole operations.

use crate::build_state::{
    claimed, is_identity, is_identity_char, next_generation, receipt_of, time_of, Action, Event,
    Facts, Failure, Job, Next, Record, Request, Requested, State, Status, DIRECTORY_ENV, RECEIPTS,
    REPLACED, REQUEST_FILE, STATE_FILE, VERSION,
};
use crate::publication::Attempt;
use crate::text::decimal;
use vstd::prelude::*;
use vstd::string::*;

verus! {

/// The journal's files.
pub struct Directory {
    /// What reading the request file gives.
    pub request: Requested,
    /// The receipts by the names of their files, where their directory exists.
    pub receipts: Option<Map<Seq<char>, Facts>>,
    /// What the state file says, where it exists.
    pub state: Option<Facts>,
}

/// The name of the file that holds the receipt of `request`.
pub open spec fn receipt_name(request: Seq<char>) -> Seq<char> {
    request + ".json"@
}

impl Directory {
    /// What comes of an operation that does not fail, at the time `now`.
    pub open spec fn event(self, action: Action, now: u64) -> Event {
        match action {
            Action::ReadRequest => Event::Requested(self.request),
            Action::ReadClock => Event::Clock(Some(now as u128)),
            _ => Event::Attempted(Attempt::Done),
        }
    }

    /// The receipts. There are none without their directory.
    pub open spec fn all_receipts(self) -> Map<Seq<char>, Facts> {
        match self.receipts {
            Some(receipts) => receipts,
            None => Map::empty(),
        }
    }

    /// The files once the operation that is due is done.
    pub open spec fn after(self, record: Record) -> Self {
        match record.job.action() {
            Action::ClearReceipts => Directory { receipts: None, ..self },
            Action::RemoveRequest => Directory { request: Requested::Absent, ..self },
            Action::CreateReceipts => Directory { receipts: Some(self.all_receipts()), ..self },
            Action::WriteReceipt => Directory {
                receipts: Some(
                    self.all_receipts().insert(
                        receipt_name(record.state.request->0),
                        record.state,
                    ),
                ),
                ..self
            },
            Action::WriteState => Directory { state: Some(record.state), ..self },
            _ => self,
        }
    }
}

/// The number behind `generation`, as far as numbers go.
pub open spec fn number_behind(generation: u64) -> u64 {
    if generation < 0xffff_ffff_ffff_ffff {
        (generation + 1) as u64
    } else {
        generation
    }
}

/// What a state says once its generation settles: what it said before of a generation that was
/// announced, and a number of its own for one that was not.
pub open spec fn settlement(
    before: Facts,
    announced: bool,
    status: Status,
    detail: Option<Seq<char>>,
    now: u64,
) -> Facts {
    Facts {
        version: before.version,
        instance: before.instance,
        pid: before.pid,
        generation: if announced {
            before.generation
        } else {
            number_behind(before.generation)
        },
        request: if announced {
            before.request
        } else {
            None
        },
        status,
        started_at_ms: if announced {
            before.started_at_ms
        } else {
            now
        },
        settled_at_ms: Some(now),
        detail,
    }
}

/// What a state says once a generation is announced.
pub open spec fn announcement(before: Facts, request: Option<Seq<char>>, now: u64) -> Facts {
    Facts {
        version: before.version,
        instance: before.instance,
        pid: before.pid,
        generation: number_behind(before.generation),
        request,
        status: Status::Building,
        started_at_ms: now,
        settled_at_ms: None,
        detail: None,
    }
}

/// How many operations can still be due.
pub open spec fn left(job: Job) -> nat {
    match job {
        Job::Idle => 0,
        Job::PublishBegun | Job::OpenPublish => 1,
        Job::Begin(_) | Job::OpenDiscard => 2,
        Job::Reap(_) | Job::OpenReap => 3,
        Job::PublishSettled(_) | Job::OpenDirectory => 4,
        Job::Receipt(_) => 5,
        Job::OpenReceipts(_) => 6,
        Job::Settle { .. } => 7,
        Job::Discard(_) => 8,
        Job::Claim => 9,
    }
}

/// The journal and its files once nothing is due any more, when no operation fails. Each reading of
/// the clock takes the next of `times`.
pub open spec fn run(record: Record, files: Directory, times: Seq<u64>) -> (Record, Directory)
    decreases left(record.job),
{
    let event = files.event(record.job.action(), times[0]);
    if record.job == Job::Idle {
        (record, files)
    } else if record.answer(event) is Err {
        (record.after(event), files)
    } else {
        run(
            record.after(event),
            files.after(record),
            if record.job.action() == Action::ReadClock {
                times.skip(1)
            } else {
                times
            },
        )
    }
}

/// Every operation of the journal ends: each event that is due leaves fewer operations.
pub proof fn law_operations_end(record: Record, event: Event)
    requires
        record.expects(event),
    ensures
        left(record.after(event).job) < left(record.job),
{
}

/// A new instance reaps what an earlier one left: the receipts and the request. It publishes that it
/// is starting.
pub proof fn law_opening_reaps(files: Directory, times: Seq<u64>, now: u64, pid: u32)
    ensures
        ({
            let (record, after) = run(Record::opened(true, now, pid), files, times);
            &&& record == Record::opened(true, now, pid).about(Job::Idle)
            &&& after.receipts is None
            &&& after.request is Absent
            &&& after.state == Some(Facts::starting(now, pid))
            &&& after.state == Some(
                Facts {
                    version: 1,
                    instance: decimal(now as nat) + "-"@ + decimal(pid as nat),
                    pid,
                    generation: 0,
                    request: None,
                    status: Status::Starting,
                    started_at_ms: now,
                    settled_at_ms: None,
                    detail: None,
                },
            )
            &&& record.state == after.state->0
            &&& !record.active
            &&& record.in_directory
        }),
{
    reveal_with_fuel(run, 6);
}

/// The state that the next generation is announced from: of a generation that is announced and not
/// settled it says that it is superseded.
pub open spec fn replaced(record: Record, now: u64) -> Facts {
    if record.active {
        record.state.settled(true, Status::Superseded, Some(REPLACED@), now)
    } else {
        record.state
    }
}

/// When the next generation is announced. A generation that it supersedes takes the first of `times`.
pub open spec fn announced_at(record: Record, times: Seq<u64>) -> u64 {
    if record.active {
        times[1]
    } else {
        times[0]
    }
}

/// The files once a generation is settled.
spec fn settled_files(files: Directory, settled: Facts) -> Directory {
    Directory {
        receipts: if settled.request is Some {
            Some(files.all_receipts().insert(receipt_name(settled.request->0), settled))
        } else {
            files.receipts
        },
        state: Some(settled),
        ..files
    }
}

/// Settling, up to what follows it.
proof fn lemma_settle(
    record: Record,
    files: Directory,
    times: Seq<u64>,
    status: Status,
    detail: Option<Seq<char>>,
    next: Next,
)
    requires
        record.in_directory,
    ensures
        ({
            let settled = record.state.settled(record.active, status, detail, times[0]);
            run(record.about(Job::Settle { status, detail, next }), files, times) == run(
                (Record { state: settled, active: false, ..record }).going_on(next),
                settled_files(files, settled),
                times.skip(1),
            )
        }),
{
    let settled = record.state.settled(record.active, status, detail, times[0]);
    let first = record.about(Job::Settle { status, detail, next });
    let known = Record { state: settled, ..record };
    let closed = Record { state: settled, active: false, ..record };
    let rest = times.skip(1);
    if settled.request is Some {
        let second = known.about(Job::OpenReceipts(next));
        let third = known.about(Job::Receipt(next));
        let fourth = closed.about(Job::PublishSettled(next));
        let opened = files.after(second);
        let written = opened.after(third);
        assert(run(first, files, times) == run(second, files, rest));
        assert(run(second, files, rest) == run(third, opened, rest));
        assert(run(third, opened, rest) == run(fourth, written, rest));
        assert(written.after(fourth) == settled_files(files, settled));
        assert(run(fourth, written, rest) == run(
            closed.going_on(next),
            settled_files(files, settled),
            rest,
        ));
    } else {
        let second = closed.about(Job::PublishSettled(next));
        assert(run(first, files, times) == run(second, files, rest));
        assert(files.after(second) == settled_files(files, settled));
    }
}

/// Announcing the next generation, after what it supersedes is settled.
proof fn lemma_begin(record: Record, files: Directory, times: Seq<u64>, request: Option<Seq<char>>)
    requires
        record.in_directory,
    ensures
        ({
            let begun = record.state.begun(request, times[0]);
            run(record.going_on(Next::Begin(request)), files, times) == (
                Record { state: begun, active: true, job: Job::Idle, ..record },
                Directory {
                    receipts: if request is Some {
                        None
                    } else {
                        files.receipts
                    },
                    state: Some(begun),
                    ..files
                },
            )
        }),
{
    let begun = record.state.begun(request, times[0]);
    let announce = record.about(Job::Begin(request));
    let publish = Record { state: begun, active: true, job: Job::PublishBegun, ..record };
    let reaped = if request is Some {
        Directory { receipts: None, ..files }
    } else {
        files
    };
    if request is Some {
        let reap = record.about(Job::Reap(request->0));
        assert(files.after(reap) == reaped);
        assert(run(reap, files, times) == run(announce, reaped, times));
    }
    assert(run(announce, reaped, times) == run(publish, reaped, times.skip(1)));
    let done = publish.about(Job::Idle);
    assert(run(publish, reaped, times.skip(1)) == run(
        done,
        reaped.after(publish),
        times.skip(1),
    ));
}

/// A rebuild, once it is known for whom.
proof fn lemma_replace(
    record: Record,
    files: Directory,
    times: Seq<u64>,
    request: Option<Seq<char>>,
)
    requires
        record.in_directory,
        times.len() >= 2,
    ensures
        ({
            let begun = replaced(record, times[0]).begun(request, announced_at(record, times));
            let settled = settled_files(files, replaced(record, times[0]));
            run(record.replacing(request), files, times) == (
                Record { state: begun, active: true, job: Job::Idle, ..record },
                Directory {
                    receipts: if request is Some {
                        None
                    } else if record.active {
                        settled.receipts
                    } else {
                        files.receipts
                    },
                    state: Some(begun),
                    ..files
                },
            )
        }),
{
    if record.active {
        let old_state = replaced(record, times[0]);
        lemma_settle(
            record,
            files,
            times,
            Status::Superseded,
            Some(REPLACED@),
            Next::Begin(request),
        );
        lemma_begin(
            Record { state: old_state, active: false, ..record },
            settled_files(files, old_state),
            times.skip(1),
            request,
        );
    } else {
        lemma_begin(record, files, times, request);
    }
}

/// A manual rebuild serves the request that is waiting: it is announced under the request's
/// identity, in the next generation, and the request file is gone. No receipt of an earlier request
/// is left, the superseded one's neither.
pub proof fn law_rebuild_serves_the_request(
    record: Record,
    files: Directory,
    times: Seq<u64>,
    request: Seq<char>,
)
    requires
        record.in_directory,
        claimed(files.request) == Ok::<Option<Seq<char>>, Failure>(Some(request)),
        times.len() >= 2,
    ensures
        ({
            let (begun, after) = run(record.beginning(), files, times);
            &&& begun.state == replaced(record, times[0]).begun(
                Some(request),
                announced_at(record, times),
            )
            &&& begun.state == announcement(
                record.state,
                Some(request),
                if record.active {
                    times[1]
                } else {
                    times[0]
                },
            )
            &&& begun.state.request == Some(request)
            &&& begun.state.status == Status::Building
            &&& begun.state.generation == next_generation(record.state.generation)
            &&& begun.active
            &&& begun.in_directory
            &&& begun.job == Job::Idle
            &&& after.request is Absent
            &&& after.receipts is None
            &&& after.state == Some(begun.state)
        }),
{
    let claim = record.about(Job::Claim);
    let discard = record.about(Job::Discard(request));
    let cleared = Directory { request: Requested::Absent, ..files };
    assert(run(claim, files, times) == run(discard, files, times));
    assert(files.after(discard) == cleared);
    assert(run(discard, files, times) == run(record.replacing(Some(request)), cleared, times));
    lemma_replace(record, cleared, times, Some(request));
}

/// A human's rebuild supersedes an identified one and keeps its receipt: where no request is waiting,
/// the generation that was announced settles as superseded in the receipt of its request, every
/// other receipt stays, and the next generation is announced for nobody.
pub proof fn law_supersession_keeps_the_receipt(
    record: Record,
    files: Directory,
    times: Seq<u64>,
)
    requires
        record.in_directory,
        files.request is Absent,
        times.len() >= 2,
    ensures
        ({
            let (begun, after) = run(record.beginning(), files, times);
            &&& begun.state == replaced(record, times[0]).begun(None, announced_at(record, times))
            &&& begun.state == announcement(
                record.state,
                None,
                if record.active {
                    times[1]
                } else {
                    times[0]
                },
            )
            &&& begun.state.request is None
            &&& begun.state.generation == next_generation(record.state.generation)
            &&& begun.active
            &&& begun.in_directory
            &&& begun.job == Job::Idle
            &&& record.active && record.state.request is Some ==> {
                let name = record.state.request->0 + ".json"@;
                &&& after.all_receipts().contains_key(name)
                &&& after.all_receipts()[name] == settlement(
                    record.state,
                    true,
                    Status::Superseded,
                    Some("a newer manual rebuild replaced this generation"@),
                    times[0],
                )
            }
            &&& after.request is Absent
            &&& after.all_receipts() == (if record.active && record.state.request is Some {
                files.all_receipts().insert(
                    receipt_name(record.state.request->0),
                    replaced(record, times[0]),
                )
            } else {
                files.all_receipts()
            })
            &&& after.state == Some(begun.state)
        }),
{
    let claim = record.about(Job::Claim);
    assert(run(claim, files, times) == run(record.replacing(None), files, times));
    lemma_replace(record, files, times, None);
}

/// A generation settles under its own number and request, in the state file and in the receipt of
/// its request. One that nobody announced gets a number of its own and no receipt.
pub proof fn law_settles_the_generation(
    record: Record,
    files: Directory,
    times: Seq<u64>,
    status: Status,
    detail: Option<Seq<char>>,
)
    requires
        record.in_directory,
        times.len() >= 1,
    ensures
        ({
            let (settled, after) = run(record.settling(status, detail), files, times);
            &&& settled.state == record.state.settled(record.active, status, detail, times[0])
            &&& settled.state == settlement(
                record.state,
                record.active,
                status,
                detail,
                times[0],
            )
            &&& settled.state.status == status
            &&& settled.state.settled_at_ms == Some(times[0])
            &&& record.active ==> settled.state.generation == record.state.generation
            &&& record.active ==> settled.state.request == record.state.request
            &&& !record.active ==> settled.state.generation == next_generation(
                record.state.generation,
            )
            &&& !record.active ==> settled.state.request is None
            &&& !settled.active
            &&& settled.in_directory == record.in_directory
            &&& settled.job == Job::Idle
            &&& after.request == files.request
            &&& after.all_receipts() == (if record.active && record.state.request is Some {
                files.all_receipts().insert(
                    receipt_name(record.state.request->0),
                    settled.state,
                )
            } else {
                files.all_receipts()
            })
            &&& after.state == Some(settled.state)
        }),
{
    lemma_settle(record, files, times, status, detail, Next::Stop);
}

/// A request is settled once: a second settlement with no rebuild between leaves every receipt as it
/// was, that of the request among them. It is a generation of its own, with the next number and for
/// nobody, that starts as it settles.
pub proof fn law_request_is_settled_once(
    record: Record,
    files: Directory,
    times: Seq<u64>,
    status: Status,
    detail: Option<Seq<char>>,
    later: Seq<u64>,
    later_status: Status,
    later_detail: Option<Seq<char>>,
)
    requires
        record.in_directory,
        times.len() >= 1,
        later.len() >= 1,
    ensures
        ({
            let (first, once) = run(record.settling(status, detail), files, times);
            let (second, twice) = run(first.settling(later_status, later_detail), once, later);
            &&& twice.all_receipts() == once.all_receipts()
            &&& record.active && record.state.request is Some ==> {
                let name = receipt_name(record.state.request->0);
                &&& twice.all_receipts().contains_key(name)
                &&& twice.all_receipts()[name] == first.state
                &&& first.state.generation == record.state.generation
                &&& first.state.status == status
                &&& first.state.detail == detail
            }
            &&& second.state.generation == next_generation(first.state.generation)
            &&& second.state.request is None
            &&& second.state.status == later_status
            &&& second.state.detail == later_detail
            &&& second.state.started_at_ms == later[0]
            &&& second.state.settled_at_ms == Some(later[0])
            &&& twice.state == Some(second.state)
            &&& twice.request == files.request
        }),
{
    law_settles_the_generation(record, files, times, status, detail);
    let (first, once) = run(record.settling(status, detail), files, times);
    law_settles_the_generation(first, once, later, later_status, later_detail);
}

/// Whether a generation with this status is settled.
pub open spec fn is_settlement(status: Status) -> bool {
    status == Status::Served || status == Status::Failed || status == Status::Superseded || status
        == Status::Exited
}

/// Whether something is said of a generation with this status beside the status.
pub open spec fn is_explained(status: Status) -> bool {
    status == Status::Failed || status == Status::Superseded
}

/// Whether what a state says fits together.
pub open spec fn fits_together(state: Facts) -> bool {
    &&& state.version == 1
    &&& state.settled_at_ms is Some <==> is_settlement(state.status)
    &&& state.status == Status::Starting <==> state.generation == 0
    &&& state.detail is Some <==> is_explained(state.status)
}

/// Whether the journal's state fits together, and will once what is due is done.
pub open spec fn is_sound(record: Record) -> bool {
    &&& fits_together(record.state)
    &&& record.active ==> record.state.generation > 0
    &&& record.job matches Job::Settle { status, detail, .. } ==> is_settlement(status) && (
    detail is Some <==> is_explained(status))
}

/// Whether two states are of one instance.
pub open spec fn same_instance(a: Facts, b: Facts) -> bool {
    a.instance == b.instance && a.pid == b.pid
}

/// The state of a journal that is opened fits together.
pub proof fn law_opens_sound(in_directory: bool, now: u64, pid: u32)
    ensures
        is_sound(Record::opened(in_directory, now, pid)),
{
}

/// Every state fits together, and is of the instance that opened the journal, whatever is called and
/// whatever comes of an operation: the version is that of the format, a time of settlement is there
/// exactly for a settled generation, starting is generation zero and no other, and a detail is there
/// exactly for a failed or superseded generation.
pub proof fn law_states_stay_sound(record: Record, event: Event, detail: Seq<char>)
    requires
        is_sound(record),
    ensures
        is_sound(record.after(event)),
        is_sound(record.beginning()),
        is_sound(record.settling(Status::Served, None)),
        is_sound(record.settling(Status::Failed, Some(detail))),
        is_sound(record.settling(Status::Exited, None)),
        same_instance(record.after(event).state, record.state),
        same_instance(record.beginning().state, record.state),
        forall|status: Status, said: Option<Seq<char>>|
            same_instance((#[trigger] record.settling(status, said)).state, record.state),
{
}

/// What is published fits together: so does each state that is written to the state file or to a
/// receipt, and it is of the journal's own instance.
pub proof fn law_published_states_are_sound(record: Record, files: Directory)
    requires
        is_sound(record),
    ensures
        record.job.action() == Action::WriteState ==> {
            &&& files.after(record).state is Some
            &&& fits_together(files.after(record).state->0)
            &&& same_instance(files.after(record).state->0, record.state)
        },
        record.job.action() == Action::WriteReceipt ==> {
            let name = receipt_name(record.state.request->0);
            &&& files.after(record).all_receipts().contains_key(name)
            &&& fits_together(files.after(record).all_receipts()[name])
            &&& same_instance(files.after(record).all_receipts()[name], record.state)
        },
        record.job.action() != Action::WriteState ==> files.after(record).state == files.state,
{
}

/// The state file settles the exact request that was waiting, under the generation that was announced
/// for it, and the receipt of that request says the same. No other receipt is left.
pub proof fn law_request_is_settled(
    record: Record,
    files: Directory,
    times: Seq<u64>,
    request: Seq<char>,
    status: Status,
    detail: Option<Seq<char>>,
    later: Seq<u64>,
)
    requires
        record.in_directory,
        claimed(files.request) == Ok::<Option<Seq<char>>, Failure>(Some(request)),
        times.len() >= 2,
        later.len() >= 1,
    ensures
        ({
            let (begun, announced) = run(record.beginning(), files, times);
            let (settled, after) = run(begun.settling(status, detail), announced, later);
            &&& settled.state.request == Some(request)
            &&& settled.state.generation == begun.state.generation
            &&& settled.state.status == status
            &&& settled.state.settled_at_ms == Some(later[0])
            &&& after.state == Some(settled.state)
            &&& after.all_receipts() == Map::<Seq<char>, Facts>::empty().insert(
                receipt_name(request),
                settled.state,
            )
            &&& after.request is Absent
        }),
{
    law_rebuild_serves_the_request(record, files, times, request);
    let (begun, announced) = run(record.beginning(), files, times);
    law_settles_the_generation(begun, announced, later, status, detail);
}

/// A refused request changes nothing: it stays where it is, and so do the state, the receipts and
/// the generation that is announced.
pub proof fn law_refused_request_changes_nothing(
    record: Record,
    files: Directory,
    times: Seq<u64>,
)
    requires
        record.in_directory,
        claimed(files.request) is Err,
    ensures
        run(record.beginning(), files, times) == (record.about(Job::Idle), files),
{
    reveal_with_fuel(run, 2);
}

/// A request that is served has an identity, and a rebuild is for nobody only where no request waits.
pub proof fn law_requests_are_checked(requested: Requested)
    ensures
        claimed(requested) matches Ok(Some(request)) ==> is_identity(request),
        claimed(requested) matches Ok(None) ==> requested is Absent,
{
}

/// Once the state file says that a request is settled, its receipt says so too.
pub proof fn law_receipt_precedes_state(record: Record, files: Directory, event: Event)
    requires
        record.in_directory,
        record.expects(event),
        record.answer(event) is Ok,
        record.after(event).job is PublishSettled,
        record.after(event).state.request is Some,
    ensures
        ({
            let receipts = files.after(record).all_receipts();
            let name = receipt_name(record.after(event).state.request->0);
            receipts.contains_key(name) && receipts[name] == record.after(event).state
        }),
{
}

/// Without a directory no file is read or written: the clock is all that is asked for.
pub proof fn law_no_directory_no_files(record: Record, event: Event)
    requires
        !record.in_directory,
        record.job.action() == Action::Nothing || record.job.action() == Action::ReadClock,
    ensures
        ({
            let action = record.after(event).job.action();
            action == Action::Nothing || action == Action::ReadClock
        }),
        record.beginning().job.action() == Action::ReadClock,
        !record.after(event).in_directory,
{
}

/// Generations are numbered in order: no event lowers the number, and none raises it by more than
/// one.
pub proof fn law_generations_are_in_order(record: Record, event: Event)
    ensures
        record.after(event).state.generation == record.state.generation || record.after(
            event,
        ).state.generation == next_generation(record.state.generation),
        record.after(event).state.generation >= record.state.generation,
{
}

/// The receipts of two requests are two files.
pub proof fn law_receipts_are_apart(a: Seq<char>, b: Seq<char>)
    requires
        receipt_name(a) == receipt_name(b),
    ensures
        a == b,
{
    assert(receipt_name(a).len() == a.len() + ".json"@.len());
    assert(receipt_name(a).take(a.len() as int) =~= a);
    assert(receipt_name(b).take(b.len() as int) =~= b);
}

/// The receipt of a request that is served lies in the directory of the receipts: its name neither
/// leads anywhere else nor stands for a directory.
pub proof fn law_receipt_stays_in_its_directory(request: Seq<char>)
    requires
        is_identity(request),
    ensures
        forall|i: int|
            0 <= i < receipt_name(request).len() ==> is_identity_char(
                #[trigger] receipt_name(request)[i],
            ),
        !receipt_name(request).contains('/'),
        receipt_name(request).len() > 2,
{
    reveal_strlit(".json");
    let name = receipt_name(request);
    assert forall|i: int| 0 <= i < name.len() implies is_identity_char(#[trigger] name[i]) by {
        if i < request.len() {
            assert(name[i] == request[i]);
        } else {
            assert(name[i] == ".json"@[i - request.len()]);
        }
    }
    if name.contains('/') {
        let i = choose|i: int| 0 <= i < name.len() && name[i] == '/';
        assert(is_identity_char(name[i]));
    }
}

/// The names that the journal's files go by, and what is said of a generation that was replaced.
pub proof fn law_names_of_the_files()
    ensures
        DIRECTORY_ENV@ == "DX_DEVLOOP_DIR"@,
        REQUEST_FILE@ == "request.json"@,
        STATE_FILE@ == "state.json"@,
        RECEIPTS@ == "receipts"@,
        VERSION == 1,
        REPLACED@ == "a newer manual rebuild replaced this generation"@,
{
}

/// The receipt of a request is named by the request, with `.json` behind it.
pub proof fn law_receipt_is_named_by_the_request(request: Seq<char>)
    ensures
        receipt_of(request) == request + ".json"@,
        receipt_of(request) == receipt_name(request),
{
}

/// What a state says is what stands in it, field by field.
pub proof fn law_state_by_its_fields(state: State)
    ensures
        state@.version == state.version,
        state@.instance == state.instance@,
        state@.pid == state.pid,
        state@.generation == state.generation,
        state.request is None <==> state@.request is None,
        state.request is Some ==> state@.request == Some(state.request->0@),
        state@.status == state.status,
        state@.started_at_ms == state.started_at_ms,
        state@.settled_at_ms == state.settled_at_ms,
        state.detail is None <==> state@.detail is None,
        state.detail is Some ==> state@.detail == Some(state.detail->0@),
{
}

/// Whether a character is an ASCII letter or digit, a hyphen, an underscore or a dot, by its code.
pub open spec fn is_plain(c: char) -> bool {
    let code = c as u32;
    ||| 48 <= code <= 57
    ||| 65 <= code <= 90
    ||| 97 <= code <= 122
    ||| code == 45
    ||| code == 46
    ||| code == 95
}

/// Whether `text` is not empty and holds ASCII letters and digits, hyphens, underscores and dots, and
/// nothing else.
pub open spec fn names_a_file(text: Seq<char>) -> bool {
    text.len() > 0 && forall|i: int| 0 <= i < text.len() ==> is_plain(#[trigger] text[i])
}

proof fn lemma_identity(text: Seq<char>)
    ensures
        is_identity(text) <==> names_a_file(text),
{
    assert forall|i: int| 0 <= i < text.len() implies is_plain(#[trigger] text[i])
        == is_identity_char(text[i]) by {
        lemma_plain(text[i]);
    }
}

proof fn lemma_plain(c: char)
    ensures
        is_plain(c) == is_identity_char(c),
{
}

/// A request is claimed under its identity where its version is the format's and its identity can name
/// a file, whenever it was made. The version is looked at first.
pub proof fn law_good_requests_are_claimed(request: Request)
    ensures
        request.version == 1 && names_a_file(request.request@) ==> claimed(
            Requested::Decoded(request),
        ) == Ok::<Option<Seq<char>>, Failure>(Some(request.request@)),
        request.version == 1 && !names_a_file(request.request@) ==> claimed(
            Requested::Decoded(request),
        ) == Err::<Option<Seq<char>>, Failure>(Failure::InvalidIdentity),
        request.version != 1 ==> claimed(Requested::Decoded(request)) == Err::<
            Option<Seq<char>>,
            Failure,
        >(Failure::UnsupportedVersion(request.version)),
        is_identity(request.request@) <==> names_a_file(request.request@),
{
    lemma_identity(request.request@);
}

/// When a request was made has no bearing on whether it is claimed.
pub proof fn law_claimed_whenever_made(a: Request, b: Request)
    requires
        a.version == b.version,
        a.request@ == b.request@,
    ensures
        claimed(Requested::Decoded(a)) == claimed(Requested::Decoded(b)),
{
    law_good_requests_are_claimed(a);
    law_good_requests_are_claimed(b);
}

/// Without a request file there is nothing to claim, which is no failure; one that cannot be read or
/// decoded is.
pub proof fn law_absent_is_no_failure()
    ensures
        claimed(Requested::Absent) == Ok::<Option<Seq<char>>, Failure>(None),
        claimed(Requested::Unreadable) == Err::<Option<Seq<char>>, Failure>(Failure::Unreadable),
        claimed(Requested::Undecodable) == Err::<Option<Seq<char>>, Failure>(Failure::Undecodable),
{
}

/// A good request is announced under its identity, whatever was announced before it.
pub proof fn law_good_request_is_announced(
    record: Record,
    files: Directory,
    times: Seq<u64>,
    request: Request,
)
    requires
        record.in_directory,
        files.request == Requested::Decoded(request),
        request.version == 1,
        names_a_file(request.request@),
        times.len() >= 2,
    ensures
        ({
            let (begun, after) = run(record.beginning(), files, times);
            &&& begun.state.request == Some(request.request@)
            &&& begun.state.status == Status::Building
            &&& begun.active
            &&& after.state == Some(begun.state)
            &&& after.request is Absent
        }),
{
    law_good_requests_are_claimed(request);
    law_rebuild_serves_the_request(record, files, times, request.request@);
}

/// A time that fits is taken as it is; there is none before the epoch, nor beyond what fits.
pub proof fn law_times_are_taken_as_they_are(millis: u128)
    ensures
        millis <= 0xffff_ffff_ffff_ffff ==> time_of(Some(millis)) is Ok && time_of(
            Some(millis),
        )->Ok_0 == millis,
        millis > 0xffff_ffff_ffff_ffff ==> time_of(Some(millis)) == Err::<u64, Failure>(
            Failure::ClockOverflow,
        ),
        time_of(None) == Err::<u64, Failure>(Failure::ClockBeforeEpoch),
{
}

/// Generations are numbered one by one, up to the last number, which then stays.
pub proof fn law_numbers_one_by_one(generation: u64)
    ensures
        generation < 0xffff_ffff_ffff_ffff ==> next_generation(generation) == generation + 1,
        generation == 0xffff_ffff_ffff_ffff ==> next_generation(generation) == generation,
{
}

/// What is answered is of the operation that is due, or it changes nothing.
pub proof fn law_events_in_turn(record: Record, event: Event)
    ensures
        record.expects(event) <==> match record.job.action() {
            Action::Nothing => false,
            Action::ReadClock => event is Clock,
            Action::ReadRequest => event is Requested,
            _ => event is Attempted,
        },
        !record.expects(event) ==> record.after(event) == record && record.answer(event) == Err::<
            (),
            Failure,
        >(Failure::OutOfTurn),
{
}

/// An operation that failed is named in the answer, and nothing more is due. What was to be removed and
/// is not there counts as removed; what was to be made and is not there does not count as made.
pub proof fn law_failures_are_named(record: Record, attempt: Attempt, millis: u128)
    ensures
        ({
            let action = record.job.action();
            let event = Event::Attempted(attempt);
            let removal = action == Action::ClearReceipts || action == Action::RemoveRequest;
            let making = action == Action::CreateDirectory || action == Action::CreateReceipts
                || action == Action::WriteReceipt || action == Action::WriteState;
            let ended = Record {
                in_directory: record.in_directory,
                state: record.state,
                active: record.active,
                job: Job::Idle,
            };
            let refused = Err::<(), Failure>(Failure::Refused(action));
            &&& (removal && attempt is Failed) || (making && !(attempt is Done)) ==> record.answer(
                event,
            ) == refused && record.after(event) == ended
            &&& removal && attempt is Missing ==> record.answer(event) is Ok && record.after(event)
                == record.after(Event::Attempted(Attempt::Done))
            &&& (removal || making) && attempt is Done ==> record.answer(event) is Ok
            &&& action == Action::ReadClock ==> {
                &&& record.answer(Event::Clock(None)) == Err::<(), Failure>(
                    Failure::ClockBeforeEpoch,
                )
                &&& record.after(Event::Clock(None)) == ended
                &&& millis > 0xffff_ffff_ffff_ffff ==> record.answer(Event::Clock(Some(millis)))
                    == Err::<(), Failure>(Failure::ClockOverflow) && record.after(
                    Event::Clock(Some(millis)),
                ) == ended
                &&& millis <= 0xffff_ffff_ffff_ffff ==> record.answer(Event::Clock(Some(millis)))
                    is Ok
            }
        }),
{
}

/// The answer to what was read of the request file is the claim's.
pub proof fn law_claims_are_answered(record: Record, requested: Requested)
    requires
        record.job.action() == Action::ReadRequest,
    ensures
        claimed(requested) matches Err(failure) ==> record.answer(Event::Requested(requested))
            == Err::<(), Failure>(failure),
        claimed(requested) is Ok ==> record.answer(Event::Requested(requested)) is Ok,
{
}

/// Without a directory a settlement and an announcement are known to the journal all the same, and no
/// file changes.
pub proof fn law_known_without_a_directory(
    record: Record,
    files: Directory,
    times: Seq<u64>,
    status: Status,
    detail: Option<Seq<char>>,
)
    requires
        !record.in_directory,
        times.len() >= 2,
    ensures
        run(record.settling(status, detail), files, times) == (
            Record {
                in_directory: false,
                state: settlement(record.state, record.active, status, detail, times[0]),
                active: false,
                job: Job::Idle,
            },
            files,
        ),
        run(record.beginning(), files, times) == (
            Record {
                in_directory: false,
                state: announcement(
                    record.state,
                    None,
                    if record.active {
                        times[1]
                    } else {
                        times[0]
                    },
                ),
                active: true,
                job: Job::Idle,
            },
            files,
        ),
{
    let settling = record.settling(status, detail);
    let settled = settling.at_time(times[0]);
    assert(run(settling, files, times) == run(settled, files, times.skip(1)));
    assert(run(settled, files, times.skip(1)) == (settled, files));
    let first = record.beginning();
    let second = first.at_time(times[0]);
    assert(run(first, files, times) == run(second, files, times.skip(1)));
    if record.active {
        let rest = times.skip(1);
        let third = second.at_time(rest[0]);
        assert(run(second, files, rest) == run(third, files, rest.skip(1)));
        assert(run(third, files, rest.skip(1)) == (third, files));
    } else {
        assert(run(second, files, times.skip(1)) == (second, files));
    }
}

/// The operations that are due until none is, when none fails.
pub open spec fn trace(record: Record, files: Directory, times: Seq<u64>) -> Seq<Action>
    decreases left(record.job),
{
    let event = files.event(record.job.action(), times[0]);
    if record.job == Job::Idle {
        seq![]
    } else if record.answer(event) is Err {
        seq![record.job.action()]
    } else {
        seq![record.job.action()] + trace(
            record.after(event),
            files.after(record),
            if record.job.action() == Action::ReadClock {
                times.skip(1)
            } else {
                times
            },
        )
    }
}

/// A journal is opened in order: its directory is made, then what an earlier instance left goes, then
/// the state is written.
pub proof fn law_opens_in_order(
    in_directory: bool,
    files: Directory,
    times: Seq<u64>,
    now: u64,
    pid: u32,
)
    ensures
        trace(Record::opened(in_directory, now, pid), files, times) == (if in_directory {
            seq![
                Action::CreateDirectory,
                Action::ClearReceipts,
                Action::RemoveRequest,
                Action::WriteState,
            ]
        } else {
            seq![]
        }),
{
    reveal_with_fuel(trace, 6);
}

/// The operations of a settlement: the time is read, then the receipt is written where a request was
/// announced, then the state.
pub open spec fn settling_actions(record: Record) -> Seq<Action> {
    if !record.in_directory {
        seq![Action::ReadClock]
    } else if record.active && record.state.request is Some {
        seq![
            Action::ReadClock,
            Action::CreateReceipts,
            Action::WriteReceipt,
            Action::WriteState,
        ]
    } else {
        seq![Action::ReadClock, Action::WriteState]
    }
}

proof fn lemma_trace_settle(
    record: Record,
    files: Directory,
    times: Seq<u64>,
    status: Status,
    detail: Option<Seq<char>>,
    next: Next,
)
    ensures
        ({
            let settled = record.state.settled(record.active, status, detail, times[0]);
            trace(record.about(Job::Settle { status, detail, next }), files, times)
                == settling_actions(record) + trace(
                (Record { state: settled, active: false, ..record }).going_on(next),
                if record.in_directory {
                    settled_files(files, settled)
                } else {
                    files
                },
                times.skip(1),
            )
        }),
{
    let settled = record.state.settled(record.active, status, detail, times[0]);
    let first = record.about(Job::Settle { status, detail, next });
    let known = Record { state: settled, ..record };
    let closed = Record { state: settled, active: false, ..record };
    let rest = times.skip(1);
    let last = trace(
        closed.going_on(next),
        if record.in_directory {
            settled_files(files, settled)
        } else {
            files
        },
        rest,
    );
    if !record.in_directory {
        assert(trace(first, files, times) == seq![Action::ReadClock] + last);
    } else if settled.request is Some {
        let second = known.about(Job::OpenReceipts(next));
        let third = known.about(Job::Receipt(next));
        let fourth = closed.about(Job::PublishSettled(next));
        let opened = files.after(second);
        let written = opened.after(third);
        assert(written.after(fourth) == settled_files(files, settled));
        assert(trace(fourth, written, rest) == seq![Action::WriteState] + last);
        assert(trace(third, opened, rest) == seq![Action::WriteReceipt] + trace(
            fourth,
            written,
            rest,
        ));
        assert(trace(second, files, rest) == seq![Action::CreateReceipts] + trace(
            third,
            opened,
            rest,
        ));
        assert(trace(first, files, times) == seq![Action::ReadClock] + trace(second, files, rest));
        assert(trace(first, files, times) =~= settling_actions(record) + last);
    } else {
        let second = closed.about(Job::PublishSettled(next));
        assert(files.after(second) == settled_files(files, settled));
        assert(trace(second, files, rest) == seq![Action::WriteState] + last);
        assert(trace(first, files, times) == seq![Action::ReadClock] + trace(second, files, rest));
        assert(trace(first, files, times) =~= settling_actions(record) + last);
    }
}

proof fn lemma_trace_begin(
    record: Record,
    files: Directory,
    times: Seq<u64>,
    request: Option<Seq<char>>,
)
    ensures
        trace(record.going_on(Next::Begin(request)), files, times) == (if !record.in_directory {
            seq![Action::ReadClock]
        } else if request is Some {
            seq![Action::ClearReceipts, Action::ReadClock, Action::WriteState]
        } else {
            seq![Action::ReadClock, Action::WriteState]
        }),
{
    reveal_with_fuel(trace, 4);
}

/// A generation is settled in order, its receipt before the state.
pub proof fn law_settles_in_order(
    record: Record,
    files: Directory,
    times: Seq<u64>,
    status: Status,
    detail: Option<Seq<char>>,
)
    ensures
        trace(record.settling(status, detail), files, times) == settling_actions(record),
{
    lemma_trace_settle(record, files, times, status, detail, Next::Stop);
    assert(settling_actions(record) + Seq::<Action>::empty() =~= settling_actions(record));
}

/// A rebuild is announced in order: the request is read and removed, what it replaces is settled, the
/// receipts of earlier requests go where an identified one is served, and then the state is written.
pub proof fn law_rebuilds_in_order(record: Record, files: Directory, times: Seq<u64>)
    requires
        record.in_directory,
        claimed(files.request) is Ok,
    ensures
        ({
            let served = claimed(files.request)->Ok_0 is Some;
            let claiming = if served {
                seq![Action::ReadRequest, Action::RemoveRequest]
            } else {
                seq![Action::ReadRequest]
            };
            let replacing = if record.active {
                settling_actions(record)
            } else {
                seq![]
            };
            let announcing = if served {
                seq![Action::ClearReceipts, Action::ReadClock, Action::WriteState]
            } else {
                seq![Action::ReadClock, Action::WriteState]
            };
            trace(record.beginning(), files, times) == claiming + replacing + announcing
        }),
{
    let request = claimed(files.request)->Ok_0;
    let claim = record.about(Job::Claim);
    let ready = if request is Some {
        Directory { request: Requested::Absent, ..files }
    } else {
        files
    };
    let replacing = record.replacing(request);
    let tail = trace(replacing, ready, times);
    if record.active {
        let settled = record.state.settled(true, Status::Superseded, Some(REPLACED@), times[0]);
        lemma_trace_settle(
            record,
            ready,
            times,
            Status::Superseded,
            Some(REPLACED@),
            Next::Begin(request),
        );
        lemma_trace_begin(
            Record { state: settled, active: false, ..record },
            settled_files(ready, settled),
            times.skip(1),
            request,
        );
    } else {
        lemma_trace_begin(record, ready, times, request);
    }
    if request is Some {
        let discard = record.about(Job::Discard(request->0));
        assert(files.after(discard) == ready);
        assert(trace(discard, files, times) == seq![Action::RemoveRequest] + tail);
        assert(trace(claim, files, times) == seq![Action::ReadRequest] + trace(
            discard,
            files,
            times,
        ));
    } else {
        assert(trace(claim, files, times) == seq![Action::ReadRequest] + tail);
    }
    let claiming = if request is Some {
        seq![Action::ReadRequest, Action::RemoveRequest]
    } else {
        seq![Action::ReadRequest]
    };
    assert(trace(claim, files, times) =~= claiming + tail);
    let done = if record.active {
        settling_actions(record)
    } else {
        seq![]
    };
    let announcing = if request is Some {
        seq![Action::ClearReceipts, Action::ReadClock, Action::WriteState]
    } else {
        seq![Action::ReadClock, Action::WriteState]
    };
    assert(tail =~= done + announcing);
    assert(claiming + tail =~= claiming + done + announcing);
}

/// A generation settles as what became of it is called, and of one that failed the whole detail is
/// said, in the state file and in the receipt of its request.
pub proof fn law_settles_as_it_is_called(
    record: Record,
    files: Directory,
    times: Seq<u64>,
    detail: Seq<char>,
)
    requires
        record.in_directory,
        times.len() >= 1,
    ensures
        ({
            let (served, first) = run(record.serving(), files, times);
            let (failed, second) = run(record.failing(detail), files, times);
            let (exited, third) = run(record.exiting(), files, times);
            let state = |status: Status, detail: Option<Seq<char>>|
                settlement(record.state, record.active, status, detail, times[0]);
            &&& first.state == Some(state(Status::Served, None))
            &&& second.state == Some(state(Status::Failed, Some(detail)))
            &&& third.state == Some(state(Status::Exited, None))
            &&& record.active && record.state.request is Some ==> {
                let name = record.state.request->0 + ".json"@;
                &&& first.all_receipts()[name] == state(Status::Served, None)
                &&& second.all_receipts()[name] == state(Status::Failed, Some(detail))
                &&& third.all_receipts()[name] == state(Status::Exited, None)
            }
            &&& !served.active && !failed.active && !exited.active
        }),
{
    law_settles_the_generation(record, files, times, Status::Served, None);
    law_settles_the_generation(record, files, times, Status::Failed, Some(detail));
    law_settles_the_generation(record, files, times, Status::Exited, None);
}

/// A journal starts with the state of an instance that starts, with a directory or without.
pub proof fn law_starts_as_an_instance(in_directory: bool, now: u64, pid: u32)
    ensures
        ({
            let record = Record::opened(in_directory, now, pid);
            &&& record.in_directory == in_directory
            &&& !record.active
            &&& record.state == Facts {
                version: 1,
                instance: decimal(now as nat) + "-"@ + decimal(pid as nat),
                pid,
                generation: 0,
                request: None,
                status: Status::Starting,
                started_at_ms: now,
                settled_at_ms: None,
                detail: None,
            }
        }),
{
}

} // verus!
