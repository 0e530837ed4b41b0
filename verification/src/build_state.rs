//! Renderer build state for an external development loop.
//!
//! A controller writes one request to the request file, sends the ordinary manual rebuild input, and
//! waits for the state file to settle that exact request. The journal says what is to be read and
//! written, one operation after the other, and takes what came of each.

use crate::publication::Attempt;
use crate::text::{chars_of, decimal, push_decimal, text_of};
use vstd::prelude::*;
use vstd::string::*;

verus! {

/// The environment variable that names the directory of the files.
pub const DIRECTORY_ENV: &'static str = "DX_DEVLOOP_DIR";

/// The file that a controller writes its request to.
pub const REQUEST_FILE: &'static str = "request.json";

/// The file that the state is published in.
pub const STATE_FILE: &'static str = "state.json";

/// The directory of the receipts.
pub const RECEIPTS: &'static str = "receipts";

/// The version of the files' format.
pub const VERSION: u8 = 1;

/// What is said of a generation that a newer one replaced.
pub const REPLACED: &'static str = "a newer manual rebuild replaced this generation";

/// A controller's request for a rebuild.
#[derive(Clone, Debug)]
pub struct Request {
    pub version: u8,
    pub request: String,
    pub created_at_ms: u64,
}

/// What became of a generation.
#[derive(Clone, Copy, Debug, PartialEq, Eq, Structural)]
pub enum Status {
    Starting,
    Building,
    Served,
    Failed,
    Superseded,
    Exited,
}

/// The state of the build, as it is published.
#[derive(Clone, Debug)]
pub struct State {
    pub version: u8,
    pub instance: String,
    pub pid: u32,
    pub generation: u64,
    /// The request that the generation serves, where a controller asked for it.
    pub request: Option<String>,
    pub status: Status,
    pub started_at_ms: u64,
    pub settled_at_ms: Option<u64>,
    pub detail: Option<String>,
}

/// What a state says.
#[verifier::ext_equal]
pub struct Facts {
    pub version: u8,
    pub instance: Seq<char>,
    pub pid: u32,
    pub generation: u64,
    pub request: Option<Seq<char>>,
    pub status: Status,
    pub started_at_ms: u64,
    pub settled_at_ms: Option<u64>,
    pub detail: Option<Seq<char>>,
}

impl View for State {
    type V = Facts;

    open spec fn view(&self) -> Facts {
        Facts {
            version: self.version,
            instance: self.instance@,
            pid: self.pid,
            generation: self.generation,
            request: text_of(self.request),
            status: self.status,
            started_at_ms: self.started_at_ms,
            settled_at_ms: self.settled_at_ms,
            detail: text_of(self.detail),
        }
    }
}

/// The number of the generation behind `generation`. The last number stands for all that follow.
pub open spec fn next_generation(generation: u64) -> u64 {
    if generation == u64::MAX {
        generation
    } else {
        (generation + 1) as u64
    }
}

impl Facts {
    /// The state of an instance that starts.
    pub open spec fn starting(now: u64, pid: u32) -> Self {
        Facts {
            version: VERSION,
            instance: decimal(now as nat) + "-"@ + decimal(pid as nat),
            pid,
            generation: 0,
            request: None,
            status: Status::Starting,
            started_at_ms: now,
            settled_at_ms: None,
            detail: None,
        }
    }

    /// The state once a generation settles. One that was not announced starts as it settles.
    pub open spec fn settled(
        self,
        announced: bool,
        status: Status,
        detail: Option<Seq<char>>,
        now: u64,
    ) -> Self {
        let current = if announced {
            self
        } else {
            Facts {
                generation: next_generation(self.generation),
                request: None,
                started_at_ms: now,
                ..self
            }
        };
        Facts { status, settled_at_ms: Some(now), detail, ..current }
    }

    /// The state once the next generation is announced.
    pub open spec fn begun(self, request: Option<Seq<char>>, now: u64) -> Self {
        Facts {
            generation: next_generation(self.generation),
            request,
            status: Status::Building,
            started_at_ms: now,
            settled_at_ms: None,
            detail: None,
            ..self
        }
    }
}

/// What came of reading the request file.
pub enum Requested {
    /// There is no such file.
    Absent,
    /// The file could not be read.
    Unreadable,
    /// The file does not hold a request.
    Undecodable,
    Decoded(Request),
}

/// What came of the operation that was due.
pub enum Event {
    /// Of reading the clock: the milliseconds since the Unix epoch, where it is not before that.
    Clock(Option<u128>),
    /// Of reading the request file.
    Requested(Requested),
    /// Of any other.
    Attempted(Attempt),
}

/// The operation that is due.
#[derive(Clone, Copy, Debug, PartialEq, Eq, Structural)]
pub enum Action {
    Nothing,
    /// Create the directory of the files.
    CreateDirectory,
    /// Remove the directory of the receipts with all that is in it.
    ClearReceipts,
    /// Remove the request file.
    RemoveRequest,
    /// Read the request file.
    ReadRequest,
    /// Read the clock.
    ReadClock,
    /// Create the directory of the receipts.
    CreateReceipts,
    /// Write the state to the receipt of its request.
    WriteReceipt,
    /// Write the state to the state file.
    WriteState,
}

/// Why an operation of the journal ends early.
#[derive(Clone, Copy, Debug, PartialEq, Eq, Structural)]
pub enum Failure {
    /// The operation that was due failed.
    Refused(Action),
    /// The clock is before the Unix epoch.
    ClockBeforeEpoch,
    /// The clock does not fit the state.
    ClockOverflow,
    /// The request file could not be read.
    Unreadable,
    /// The request file does not hold a request.
    Undecodable,
    /// The request has another version of the format.
    UnsupportedVersion(u8),
    /// The request's identity is empty or cannot name a file.
    InvalidIdentity,
    /// No such event was due.
    OutOfTurn,
}

/// A character that an identity can hold.
pub open spec fn is_identity_char(c: char) -> bool {
    ||| 'a' <= c <= 'z'
    ||| 'A' <= c <= 'Z'
    ||| '0' <= c <= '9'
    ||| c == '-'
    ||| c == '_'
    ||| c == '.'
}

/// Whether a request can be told apart, and its receipt be named, by `identity`.
pub open spec fn is_identity(identity: Seq<char>) -> bool {
    &&& identity.len() > 0
    &&& forall|i: int| 0 <= i < identity.len() ==> is_identity_char(#[trigger] identity[i])
}

/// The identity of the request that was read, or why there is none to serve.
pub open spec fn claimed(requested: Requested) -> Result<Option<Seq<char>>, Failure> {
    match requested {
        Requested::Absent => Ok(None),
        Requested::Unreadable => Err(Failure::Unreadable),
        Requested::Undecodable => Err(Failure::Undecodable),
        Requested::Decoded(request) => if request.version != VERSION {
            Err(Failure::UnsupportedVersion(request.version))
        } else if !is_identity(request.request@) {
            Err(Failure::InvalidIdentity)
        } else {
            Ok(Some(request.request@))
        },
    }
}

/// The time that the clock shows.
pub open spec fn time_of(millis: Option<u128>) -> Result<u64, Failure> {
    match millis {
        None => Err(Failure::ClockBeforeEpoch),
        Some(millis) => if millis > u64::MAX {
            Err(Failure::ClockOverflow)
        } else {
            Ok(millis as u64)
        },
    }
}

/// What follows once a generation is settled.
#[verifier::ext_equal]
pub enum Next {
    Stop,
    /// Announce the next generation, for a request where there is one.
    Begin(Option<Seq<char>>),
}

/// What the journal is about, by the operation that is due.
#[verifier::ext_equal]
pub enum Job {
    Idle,
    OpenDirectory,
    OpenReap,
    OpenDiscard,
    OpenPublish,
    Claim,
    Discard(Seq<char>),
    Settle { status: Status, detail: Option<Seq<char>>, next: Next },
    OpenReceipts(Next),
    Receipt(Next),
    PublishSettled(Next),
    Reap(Seq<char>),
    Begin(Option<Seq<char>>),
    PublishBegun,
}

impl Job {
    /// The operation that is due.
    pub open spec fn action(self) -> Action {
        match self {
            Job::Idle => Action::Nothing,
            Job::OpenDirectory => Action::CreateDirectory,
            Job::OpenReap | Job::Reap(_) => Action::ClearReceipts,
            Job::OpenDiscard | Job::Discard(_) => Action::RemoveRequest,
            Job::Claim => Action::ReadRequest,
            Job::Settle { .. } | Job::Begin(_) => Action::ReadClock,
            Job::OpenReceipts(_) => Action::CreateReceipts,
            Job::Receipt(_) => Action::WriteReceipt,
            Job::OpenPublish | Job::PublishSettled(_) | Job::PublishBegun => Action::WriteState,
        }
    }
}

/// What the journal knows.
#[verifier::ext_equal]
pub struct Record {
    /// Whether there is a directory for the files. Without one none is read or written.
    pub in_directory: bool,
    pub state: Facts,
    /// Whether a generation is announced that has not settled.
    pub active: bool,
    pub job: Job,
}

impl Record {
    /// A journal that is opened.
    pub open spec fn opened(in_directory: bool, now: u64, pid: u32) -> Self {
        Record {
            in_directory,
            state: Facts::starting(now, pid),
            active: false,
            job: if in_directory {
                Job::OpenDirectory
            } else {
                Job::Idle
            },
        }
    }

    pub open spec fn about(self, job: Job) -> Self {
        Record { job, ..self }
    }

    /// A manual rebuild is asked for: the request file says by whom.
    pub open spec fn beginning(self) -> Self {
        if self.in_directory {
            self.about(Job::Claim)
        } else {
            self.replacing(None)
        }
    }

    /// The generation that is announced, if any, settles as superseded; then the next is announced.
    pub open spec fn replacing(self, request: Option<Seq<char>>) -> Self {
        if self.active {
            self.about(
                Job::Settle {
                    status: Status::Superseded,
                    detail: Some(REPLACED@),
                    next: Next::Begin(request),
                },
            )
        } else {
            self.going_on(Next::Begin(request))
        }
    }

    /// A generation settles.
    pub open spec fn settling(self, status: Status, detail: Option<Seq<char>>) -> Self {
        self.about(Job::Settle { status, detail, next: Next::Stop })
    }

    /// The generation is served.
    pub open spec fn serving(self) -> Self {
        self.settling(Status::Served, None)
    }

    /// The generation failed.
    pub open spec fn failing(self, detail: Seq<char>) -> Self {
        self.settling(Status::Failed, Some(detail))
    }

    /// The process exits.
    pub open spec fn exiting(self) -> Self {
        self.settling(Status::Exited, None)
    }

    /// What follows once a generation is settled. A newer identified request is proof that no
    /// earlier controller remains entitled to its receipt.
    pub open spec fn going_on(self, next: Next) -> Self {
        match next {
            Next::Stop => self.about(Job::Idle),
            Next::Begin(Some(request)) if self.in_directory => self.about(Job::Reap(request)),
            Next::Begin(request) => self.about(Job::Begin(request)),
        }
    }

    /// The generation is settled, its receipt written where it has one.
    pub open spec fn closing(self, next: Next) -> Self {
        let closed = Record { active: false, ..self };
        if self.in_directory {
            closed.about(Job::PublishSettled(next))
        } else {
            closed.going_on(next)
        }
    }

    /// Where the time `now` leads, when the clock was to be read.
    pub open spec fn at_time(self, now: u64) -> Self {
        match self.job {
            Job::Settle { status, detail, next } => {
                let state = self.state.settled(self.active, status, detail, now);
                let settled = Record { state, ..self };
                if self.in_directory && state.request is Some {
                    settled.about(Job::OpenReceipts(next))
                } else {
                    settled.closing(next)
                }
            },
            Job::Begin(request) => {
                let begun = Record { state: self.state.begun(request, now), active: true, ..self };
                begun.about(
                    if self.in_directory {
                        Job::PublishBegun
                    } else {
                        Job::Idle
                    },
                )
            },
            _ => self,
        }
    }

    /// Whether an attempt did what it was for. What is to be removed may as well not be there.
    pub open spec fn succeeds(self, attempt: Attempt) -> bool {
        match self.job {
            Job::OpenReap | Job::OpenDiscard | Job::Discard(_) | Job::Reap(_) =>
                attempt.leaves_nothing(),
            _ => attempt == Attempt::Done,
        }
    }

    /// Where the operation that was due leads, once it is done.
    pub open spec fn done(self) -> Self {
        match self.job {
            Job::OpenDirectory => self.about(Job::OpenReap),
            Job::OpenReap => self.about(Job::OpenDiscard),
            Job::OpenDiscard => self.about(Job::OpenPublish),
            Job::OpenPublish => self.about(Job::Idle),
            Job::Discard(request) => self.replacing(Some(request)),
            Job::OpenReceipts(next) => self.about(Job::Receipt(next)),
            Job::Receipt(next) => self.closing(next),
            Job::PublishSettled(next) => self.going_on(next),
            Job::Reap(request) => self.about(Job::Begin(Some(request))),
            Job::PublishBegun => self.about(Job::Idle),
            _ => self,
        }
    }

    /// Whether `event` is of the operation that is due.
    pub open spec fn expects(self, event: Event) -> bool {
        match self.job.action() {
            Action::Nothing => false,
            Action::ReadClock => event is Clock,
            Action::ReadRequest => event is Requested,
            _ => event is Attempted,
        }
    }

    /// What `event`, which is of the operation that is due, comes to: where it leads, or why
    /// nothing follows.
    pub open spec fn outcome(self, event: Event) -> Result<Record, Failure> {
        match event {
            Event::Clock(millis) => match time_of(millis) {
                Ok(now) => Ok(self.at_time(now)),
                Err(failure) => Err(failure),
            },
            Event::Requested(requested) => match claimed(requested) {
                Ok(Some(request)) => Ok(self.about(Job::Discard(request))),
                Ok(None) => Ok(self.replacing(None)),
                Err(failure) => Err(failure),
            },
            Event::Attempted(attempt) => if self.succeeds(attempt) {
                Ok(self.done())
            } else {
                Err(Failure::Refused(self.job.action()))
            },
        }
    }

    /// Where `event` leads. After a failure nothing more is due.
    pub open spec fn after(self, event: Event) -> Self {
        if !self.expects(event) {
            self
        } else {
            match self.outcome(event) {
                Ok(record) => record,
                Err(_) => self.about(Job::Idle),
            }
        }
    }

    /// What is answered to `event`.
    pub open spec fn answer(self, event: Event) -> Result<(), Failure> {
        if !self.expects(event) {
            Err(Failure::OutOfTurn)
        } else {
            match self.outcome(event) {
                Ok(_) => Ok(()),
                Err(failure) => Err(failure),
            }
        }
    }
}

/// What follows once a generation is settled.
enum Then {
    Stop,
    Begin(Option<String>),
}

/// What the journal is about, by the operation that is due.
enum Task {
    Idle,
    OpenDirectory,
    OpenReap,
    OpenDiscard,
    OpenPublish,
    Claim,
    Discard(String),
    Settle { status: Status, detail: Option<String>, then: Then },
    OpenReceipts(Then),
    Receipt(Then),
    PublishSettled(Then),
    Reap(String),
    Begin(Option<String>),
    PublishBegun,
}

impl View for Then {
    type V = Next;

    closed spec fn view(&self) -> Next {
        match self {
            Then::Stop => Next::Stop,
            Then::Begin(request) => Next::Begin(text_of(*request)),
        }
    }
}

impl View for Task {
    type V = Job;

    closed spec fn view(&self) -> Job {
        match self {
            Task::Idle => Job::Idle,
            Task::OpenDirectory => Job::OpenDirectory,
            Task::OpenReap => Job::OpenReap,
            Task::OpenDiscard => Job::OpenDiscard,
            Task::OpenPublish => Job::OpenPublish,
            Task::Claim => Job::Claim,
            Task::Discard(request) => Job::Discard(request@),
            Task::Settle { status, detail, then } => Job::Settle {
                status: *status,
                detail: text_of(*detail),
                next: then@,
            },
            Task::OpenReceipts(then) => Job::OpenReceipts(then@),
            Task::Receipt(then) => Job::Receipt(then@),
            Task::PublishSettled(then) => Job::PublishSettled(then@),
            Task::Reap(request) => Job::Reap(request@),
            Task::Begin(request) => Job::Begin(text_of(*request)),
            Task::PublishBegun => Job::PublishBegun,
        }
    }
}

/// The time that the clock shows.
pub fn now_ms(millis: Option<u128>) -> (r: Result<u64, Failure>)
    ensures
        r == time_of(millis),
{
    match millis {
        None => Err(Failure::ClockBeforeEpoch),
        Some(millis) => if millis > 0xffff_ffff_ffff_ffff {
            Err(Failure::ClockOverflow)
        } else {
            Ok(millis as u64)
        },
    }
}

/// Whether a request can be told apart, and its receipt be named, by `identity`.
pub fn valid_identity(identity: &str) -> (r: bool)
    ensures
        r == is_identity(identity@),
{
    let all = chars_of(identity);
    let mut i: usize = 0;
    while i < all.len()
        invariant
            i <= all@.len(),
            all@ == identity@,
            forall|j: int| 0 <= j < i ==> is_identity_char(#[trigger] all@[j]),
        decreases all@.len() - i,
    {
        let c: char = all[i];
        if !(('a' <= c && c <= 'z') || ('A' <= c && c <= 'Z') || ('0' <= c && c <= '9') || c == '-'
            || c == '_' || c == '.') {
            assert(!is_identity_char(identity@[i as int]));
            return false;
        }
        i = i + 1;
    }
    all.len() > 0
}

/// The identity of the request that was read, or why there is none to serve.
pub fn claim_request(requested: Requested) -> (r: Result<Option<String>, Failure>)
    ensures
        match r {
            Ok(request) => claimed(requested) == Ok::<Option<Seq<char>>, Failure>(text_of(request)),
            Err(failure) => claimed(requested) == Err::<Option<Seq<char>>, Failure>(failure),
        },
{
    match requested {
        Requested::Absent => Ok(None),
        Requested::Unreadable => Err(Failure::Unreadable),
        Requested::Undecodable => Err(Failure::Undecodable),
        Requested::Decoded(request) => {
            if request.version != VERSION {
                return Err(Failure::UnsupportedVersion(request.version));
            }
            if !valid_identity(request.request.as_str()) {
                return Err(Failure::InvalidIdentity);
            }
            Ok(Some(request.request))
        },
    }
}

/// The name of the file that holds the receipt of `request`.
pub open spec fn receipt_of(request: Seq<char>) -> Seq<char> {
    request + ".json"@
}

/// The name of the file that holds the receipt of `request`.
pub fn receipt_file(request: &str) -> (r: String)
    ensures
        r@ == request@ + ".json"@,
        r@ == receipt_of(request@),
{
    let mut name = request.to_owned();
    name.append(".json");
    name
}

/// Atomic, process-addressed renderer build state for an external development loop.
pub struct Journal {
    in_directory: bool,
    state: State,
    active: bool,
    task: Task,
}

impl View for Journal {
    type V = Record;

    closed spec fn view(&self) -> Record {
        Record {
            in_directory: self.in_directory,
            state: self.state@,
            active: self.active,
            job: self.task@,
        }
    }
}

impl Journal {
    /// A journal that is opened by the process `pid`, with a directory for the files or without.
    /// It is open once nothing is due any more.
    pub fn at(in_directory: bool, millis: Option<u128>, pid: u32) -> (r: Result<Self, Failure>)
        ensures
            match r {
                Ok(journal) => time_of(millis) is Ok && journal@ == Record::opened(
                    in_directory,
                    time_of(millis)->Ok_0,
                    pid,
                ),
                Err(failure) => time_of(millis) == Err::<u64, Failure>(failure),
            },
    {
        let started_at_ms: u64 = match now_ms(millis) {
            Ok(now) => now,
            Err(failure) => {
                return Err(failure);
            },
        };
        let mut instance = String::new();
        push_decimal(&mut instance, started_at_ms);
        instance.append("-");
        push_decimal(&mut instance, pid as u64);
        assert(instance@ =~= decimal(started_at_ms as nat) + "-"@ + decimal(pid as nat));
        Ok(
            Journal {
                in_directory,
                state: State {
                    version: VERSION,
                    instance,
                    pid,
                    generation: 0,
                    request: None,
                    status: Status::Starting,
                    started_at_ms,
                    settled_at_ms: None,
                    detail: None,
                },
                active: false,
                task: if in_directory {
                    Task::OpenDirectory
                } else {
                    Task::Idle
                },
            },
        )
    }

    /// The state, as it is to be published.
    pub fn state(&self) -> (r: &State)
        ensures
            r@ == self@.state,
    {
        &self.state
    }

    /// Whether a generation is announced that has not settled.
    pub fn is_active(&self) -> (r: bool)
        ensures
            r == self@.active,
    {
        self.active
    }

    /// The operation that is due.
    pub fn action(&self) -> (r: Action)
        ensures
            r == self@.job.action(),
    {
        match &self.task {
            Task::Idle => Action::Nothing,
            Task::OpenDirectory => Action::CreateDirectory,
            Task::OpenReap => Action::ClearReceipts,
            Task::Reap(_) => Action::ClearReceipts,
            Task::OpenDiscard => Action::RemoveRequest,
            Task::Discard(_) => Action::RemoveRequest,
            Task::Claim => Action::ReadRequest,
            Task::Settle { .. } => Action::ReadClock,
            Task::Begin(_) => Action::ReadClock,
            Task::OpenReceipts(_) => Action::CreateReceipts,
            Task::Receipt(_) => Action::WriteReceipt,
            Task::OpenPublish => Action::WriteState,
            Task::PublishSettled(_) => Action::WriteState,
            Task::PublishBegun => Action::WriteState,
        }
    }

    /// A manual rebuild is asked for.
    pub fn begin_manual(&mut self)
        ensures
            final(self)@ == old(self)@.beginning(),
    {
        if self.in_directory {
            self.task = Task::Claim;
        } else {
            self.replace(None);
        }
    }

    /// The generation is served.
    pub fn served(&mut self)
        ensures
            final(self)@ == old(self)@.settling(Status::Served, None),
            final(self)@ == old(self)@.serving(),
    {
        self.settle(Status::Served, None);
    }

    /// The generation failed.
    pub fn failed(&mut self, detail: String)
        ensures
            final(self)@ == old(self)@.settling(Status::Failed, Some(detail@)),
            final(self)@ == old(self)@.failing(detail@),
    {
        self.settle(Status::Failed, Some(detail));
    }

    /// The process exits.
    pub fn exited(&mut self)
        ensures
            final(self)@ == old(self)@.settling(Status::Exited, None),
            final(self)@ == old(self)@.exiting(),
    {
        self.settle(Status::Exited, None);
    }

    /// A generation settles.
    fn settle(&mut self, status: Status, detail: Option<String>)
        ensures
            final(self)@ == old(self)@.settling(status, text_of(detail)),
    {
        self.task = Task::Settle { status, detail, then: Then::Stop };
    }

    /// The generation that is announced, if any, settles as superseded; then the next is announced.
    fn replace(&mut self, request: Option<String>)
        ensures
            final(self)@ == old(self)@.replacing(text_of(request)),
    {
        if self.active {
            self.task = Task::Settle {
                status: Status::Superseded,
                detail: Some(REPLACED.to_owned()),
                then: Then::Begin(request),
            };
        } else {
            self.go_on(Then::Begin(request));
        }
    }

    /// What follows once a generation is settled.
    fn go_on(&mut self, then: Then)
        ensures
            final(self)@ == old(self)@.going_on(then@),
    {
        self.task = match then {
            Then::Stop => Task::Idle,
            Then::Begin(Some(request)) => if self.in_directory {
                Task::Reap(request)
            } else {
                Task::Begin(Some(request))
            },
            Then::Begin(None) => Task::Begin(None),
        };
    }

    /// The generation is settled, its receipt written where it has one.
    fn close(&mut self, then: Then)
        ensures
            final(self)@ == old(self)@.closing(then@),
    {
        self.active = false;
        if self.in_directory {
            self.task = Task::PublishSettled(then);
        } else {
            self.go_on(then);
        }
    }

    /// The state once a generation settles.
    fn settle_at(&mut self, status: Status, detail: Option<String>, then: Then, now: u64)
        ensures
            final(self)@ == (Record {
                job: Job::Settle { status, detail: text_of(detail), next: then@ },
                ..old(self)@
            }).at_time(now),
    {
        if !self.active {
            self.state.generation = self.state.generation.saturating_add(1);
            self.state.request = None;
            self.state.started_at_ms = now;
        }
        self.state.status = status;
        self.state.settled_at_ms = Some(now);
        self.state.detail = detail;
        if self.in_directory && self.state.request.is_some() {
            self.task = Task::OpenReceipts(then);
        } else {
            self.close(then);
        }
    }

    /// The state once the next generation is announced.
    fn begin_at(&mut self, request: Option<String>, now: u64)
        ensures
            final(self)@ == (Record { job: Job::Begin(text_of(request)), ..old(self)@ }).at_time(
                now,
            ),
    {
        self.state.generation = self.state.generation.saturating_add(1);
        self.state.request = request;
        self.state.status = Status::Building;
        self.state.started_at_ms = now;
        self.state.settled_at_ms = None;
        self.state.detail = None;
        self.active = true;
        self.task = if self.in_directory {
            Task::PublishBegun
        } else {
            Task::Idle
        };
    }

    /// Takes what came of the operation that was due.
    pub fn resume(&mut self, event: Event) -> (r: Result<(), Failure>)
        ensures
            final(self)@ == old(self)@.after(event),
            r == old(self)@.answer(event),
    {
        let due: Action = self.action();
        match event {
            Event::Clock(millis) => {
                if due != Action::ReadClock {
                    return Err(Failure::OutOfTurn);
                }
                let mut task = Task::Idle;
                std::mem::swap(&mut task, &mut self.task);
                let now: u64 = match now_ms(millis) {
                    Ok(now) => now,
                    Err(failure) => {
                        return Err(failure);
                    },
                };
                match task {
                    Task::Settle { status, detail, then } => {
                        self.settle_at(status, detail, then, now);
                    },
                    Task::Begin(request) => {
                        self.begin_at(request, now);
                    },
                    _ => {},
                }
                Ok(())
            },
            Event::Requested(requested) => {
                if due != Action::ReadRequest {
                    return Err(Failure::OutOfTurn);
                }
                match claim_request(requested) {
                    Ok(Some(request)) => {
                        self.task = Task::Discard(request);
                        Ok(())
                    },
                    Ok(None) => {
                        self.replace(None);
                        Ok(())
                    },
                    Err(failure) => {
                        self.task = Task::Idle;
                        Err(failure)
                    },
                }
            },
            Event::Attempted(attempt) => {
                if due == Action::Nothing || due == Action::ReadClock || due
                    == Action::ReadRequest {
                    return Err(Failure::OutOfTurn);
                }
                let removal: bool = due == Action::ClearReceipts || due == Action::RemoveRequest;
                let mut task = Task::Idle;
                std::mem::swap(&mut task, &mut self.task);
                if !(attempt == Attempt::Done || (removal && attempt.removed())) {
                    return Err(Failure::Refused(due));
                }
                match task {
                    Task::OpenDirectory => {
                        self.task = Task::OpenReap;
                    },
                    Task::OpenReap => {
                        self.task = Task::OpenDiscard;
                    },
                    Task::OpenDiscard => {
                        self.task = Task::OpenPublish;
                    },
                    Task::Discard(request) => {
                        self.replace(Some(request));
                    },
                    Task::OpenReceipts(then) => {
                        self.task = Task::Receipt(then);
                    },
                    Task::Receipt(then) => {
                        self.close(then);
                    },
                    Task::PublishSettled(then) => {
                        self.go_on(then);
                    },
                    Task::Reap(request) => {
                        self.task = Task::Begin(Some(request));
                    },
                    _ => {},
                }
                Ok(())
            },
        }
    }
}

} // verus!
