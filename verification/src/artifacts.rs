//! The marker around one cancellable build generation.
//!
//! Ordinary completion removes the marker. Task cancellation or process death leaves it behind; the
//! next generation acquires Cargo's build and artifact locks and invalidates every unit or output
//! touched since the marker was published.

use crate::paths::{same_path, same_way};
use crate::publication::{Attempt, Event as Written, Progress, Publication, Refusal, Stage};
use crate::scrub::{BUILD_LOCK, TARGET_LOCK};
use crate::text::{decimal, push_decimal};
use vstd::prelude::*;
use vstd::string::*;

verus! {

/// The directories that a build generation writes to.
pub struct Marker {
    pub build: String,
    /// The artifact directory, where it is another than the build directory.
    pub target: Option<String>,
}

/// The paths that a marker names.
#[verifier::ext_equal]
pub struct Paths {
    pub build: Seq<char>,
    pub target: Option<Seq<char>>,
}

impl Paths {
    /// The paths of a generation that writes to `build` and `target`.
    pub open spec fn of(build: Seq<char>, target: Seq<char>) -> Self {
        Paths {
            build,
            target: if same_way(target, build) {
                None
            } else {
                Some(target)
            },
        }
    }
}

impl View for Marker {
    type V = Paths;

    open spec fn view(&self) -> Paths {
        Paths {
            build: self.build@,
            target: match self.target {
                Some(target) => Some(target@),
                None => None,
            },
        }
    }
}

impl Marker {
    /// The marker of a generation that writes to `build` and `target`.
    pub fn new(build: String, target: String) -> (r: Self)
        ensures
            r.build == build,
            r.target == (if same_way(target@, build@) {
                None
            } else {
                Some(target)
            }),
            r@ == Paths::of(build@, target@),
    {
        if same_path(target.as_str(), build.as_str()) {
            Marker { build, target: None }
        } else {
            Marker { build, target: Some(target) }
        }
    }
}

/// How far the start of a generation has come, by the operation that is due.
#[derive(Clone, Copy, Debug, PartialEq, Eq, Structural)]
pub enum Step {
    /// Read the marker that an earlier generation may have left.
    ReadMarker,
    /// Read when that marker was published.
    ReadTime,
    /// Decode it.
    Decode,
    /// Take Cargo's lock on its build directory.
    LockBuild,
    /// Take Cargo's lock on its artifact directory.
    LockTarget,
    /// Remove what was touched in its build directory since.
    ScrubBuild,
    /// Remove what was touched in its artifact directory since.
    ScrubTarget,
    /// Remove it.
    RemoveMarker,
    /// Release the locks.
    Unlock,
    /// Publish the own marker.
    Publish,
    /// Nothing: the generation is started.
    Started,
    /// Nothing: an operation failed.
    Abandoned,
}

/// What came of the operation that was due.
pub enum Event {
    /// Of reading when the marker was published, in nanoseconds from the Unix epoch.
    Time(Option<i128>),
    /// Of decoding the marker.
    Decoded(Option<Marker>),
    /// Of an operation within the publication of the own marker.
    Written(Written),
    /// Of any other.
    Attempted(Attempt),
}

/// Why the start of a generation does not go on.
#[derive(Clone, Copy, Debug, PartialEq, Eq, Structural)]
pub enum Failure {
    /// The operation that was due failed.
    Failed(Step),
    /// Publishing the own marker failed.
    Unpublished(Stage),
    /// The own marker has no directory to be published in.
    NoParent,
    /// No such event was due.
    OutOfTurn,
}

/// The operation that is due.
pub enum Action<'a> {
    ReadMarker,
    ReadTime,
    DecodeMarker,
    /// Take Cargo's lock in a directory, which is created if need be.
    Lock { dir: &'a str, lock: &'static str },
    /// Remove what was touched in a directory.
    Scrub { dir: &'a str, since: i128 },
    RemoveMarker,
    Unlock,
    Publish(Stage),
    Nothing,
}

/// The operation that is due, by what it is about.
#[verifier::ext_equal]
pub enum Due {
    ReadMarker,
    ReadTime,
    DecodeMarker,
    Lock { dir: Seq<char>, lock: Seq<char> },
    Scrub { dir: Seq<char>, since: i128 },
    RemoveMarker,
    Unlock,
    Publish(Stage),
    Nothing,
}

impl<'a> View for Action<'a> {
    type V = Due;

    open spec fn view(&self) -> Due {
        match *self {
            Action::ReadMarker => Due::ReadMarker,
            Action::ReadTime => Due::ReadTime,
            Action::DecodeMarker => Due::DecodeMarker,
            Action::Lock { dir, lock } => Due::Lock { dir: dir@, lock: lock@ },
            Action::Scrub { dir, since } => Due::Scrub { dir: dir@, since },
            Action::RemoveMarker => Due::RemoveMarker,
            Action::Unlock => Due::Unlock,
            Action::Publish(stage) => Due::Publish(stage),
            Action::Nothing => Due::Nothing,
        }
    }
}

/// How far the start of a generation has come, with what it knows.
#[verifier::ext_equal]
pub struct Start {
    /// What the own marker names.
    pub own: Paths,
    /// Whether the marker's path has a directory to it.
    pub has_parent: bool,
    /// What the marker that was left names, once it is decoded.
    pub left: Option<Paths>,
    /// When that marker was published, once that is read.
    pub since: i128,
    pub step: Step,
    pub publication: Progress,
}

impl Start {
    /// At the start.
    pub open spec fn new(own: Paths, has_parent: bool) -> Self {
        Start {
            own,
            has_parent,
            left: None,
            since: 0,
            step: Step::ReadMarker,
            publication: Progress::start(false),
        }
    }

    /// The operation that is due.
    pub open spec fn due(self) -> Due {
        match self.step {
            Step::ReadMarker => Due::ReadMarker,
            Step::ReadTime => Due::ReadTime,
            Step::Decode => Due::DecodeMarker,
            Step::LockBuild => Due::Lock { dir: self.left->0.build, lock: BUILD_LOCK@ },
            Step::LockTarget => Due::Lock { dir: self.left->0.target->0, lock: TARGET_LOCK@ },
            Step::ScrubBuild => Due::Scrub { dir: self.left->0.build, since: self.since },
            Step::ScrubTarget => Due::Scrub { dir: self.left->0.target->0, since: self.since },
            Step::RemoveMarker => Due::RemoveMarker,
            Step::Unlock => Due::Unlock,
            Step::Publish => Due::Publish(self.publication.stage),
            Step::Started | Step::Abandoned => Due::Nothing,
        }
    }

    /// Whether `event` is of the operation that is due.
    pub open spec fn expects(self, event: Event) -> bool {
        match self.step {
            Step::ReadTime => event is Time,
            Step::Decode => event is Decoded,
            Step::Publish => event matches Event::Written(written) && self.publication.expects(
                written,
            ),
            Step::Started | Step::Abandoned => false,
            _ => event is Attempted,
        }
    }

    /// Whether the operation that is due did what it is for, by `event`. What is to be read or
    /// removed may as well not be there.
    pub open spec fn succeeds(self, event: Event) -> bool {
        match event {
            Event::Time(time) => time is Some,
            Event::Decoded(marker) => marker is Some,
            Event::Written(written) => self.publication.answer(written) is Ok,
            Event::Attempted(attempt) => match self.step {
                Step::ReadMarker | Step::RemoveMarker => attempt.leaves_nothing(),
                Step::Unlock => true,
                _ => attempt == Attempt::Done,
            },
        }
    }

    /// Where a recovery that is done leads: to the publication of the own marker.
    pub open spec fn recovered(self) -> Self {
        if self.has_parent {
            Start { step: Step::Publish, ..self }
        } else {
            Start { step: Step::Abandoned, ..self }
        }
    }

    /// Where a step that succeeded leads.
    pub open spec fn passed(self, event: Event) -> Self {
        match self.step {
            Step::ReadMarker => if event == Event::Attempted(Attempt::Missing) {
                self.recovered()
            } else {
                Start { step: Step::ReadTime, ..self }
            },
            Step::ReadTime => Start {
                step: Step::Decode,
                since: event->Time_0->0,
                ..self
            },
            Step::Decode => Start {
                step: Step::LockBuild,
                left: Some(event->Decoded_0->0@),
                ..self
            },
            Step::LockBuild => Start {
                step: if self.left->0.target is Some {
                    Step::LockTarget
                } else {
                    Step::ScrubBuild
                },
                ..self
            },
            Step::LockTarget => Start { step: Step::ScrubBuild, ..self },
            Step::ScrubBuild => Start {
                step: if self.left->0.target is Some {
                    Step::ScrubTarget
                } else {
                    Step::RemoveMarker
                },
                ..self
            },
            Step::ScrubTarget => Start { step: Step::RemoveMarker, ..self },
            Step::RemoveMarker => Start { step: Step::Unlock, ..self },
            Step::Unlock => self.recovered(),
            Step::Publish => {
                let publication = self.publication.after(event->Written_0);
                Start {
                    step: if publication.stage == Stage::Published {
                        Step::Started
                    } else {
                        Step::Publish
                    },
                    publication,
                    ..self
                }
            },
            _ => self,
        }
    }

    /// Where `event` leads.
    pub open spec fn after(self, event: Event) -> Self {
        if !self.expects(event) {
            self
        } else if self.succeeds(event) {
            self.passed(event)
        } else {
            Start {
                step: Step::Abandoned,
                publication: match event {
                    Event::Written(written) => self.publication.after(written),
                    _ => self.publication,
                },
                ..self
            }
        }
    }

    /// What is answered to `event`.
    pub open spec fn answer(self, event: Event) -> Result<(), Failure> {
        if !self.expects(event) {
            Err(Failure::OutOfTurn)
        } else if !self.succeeds(event) {
            if event is Written {
                Err(Failure::Unpublished(self.publication.stage))
            } else {
                Err(Failure::Failed(self.step))
            }
        } else if self.passed(event).step == Step::Abandoned {
            Err(Failure::NoParent)
        } else {
            Ok(())
        }
    }

    /// What the ordinary end of a generation comes to, when `attempt` came of removing its marker.
    pub open spec fn finished(self, attempt: Attempt) -> Result<(), Failure> {
        if self.step != Step::Started {
            Err(Failure::OutOfTurn)
        } else if attempt.leaves_nothing() {
            Ok(())
        } else {
            Err(Failure::Failed(Step::RemoveMarker))
        }
    }

    /// Whether the marker that was left is known wherever it is worked on.
    pub open spec fn wf(self) -> bool {
        match self.step {
            Step::LockBuild | Step::ScrubBuild | Step::RemoveMarker => self.left is Some,
            Step::LockTarget | Step::ScrubTarget => self.left is Some && self.left->0.target is Some,
            _ => true,
        }
    }
}

/// A durable marker around one cancellable build generation.
pub struct Artifacts {
    marker: Marker,
    has_parent: bool,
    left: Option<Marker>,
    since: i128,
    step: Step,
    publication: Publication,
}

impl View for Artifacts {
    type V = Start;

    closed spec fn view(&self) -> Start {
        Start {
            own: self.marker@,
            has_parent: self.has_parent,
            left: match self.left {
                Some(left) => Some(left@),
                None => None,
            },
            since: self.since,
            step: self.step,
            publication: self.publication@,
        }
    }
}

impl Artifacts {
    /// Whether the marker that was left is known wherever it is worked on.
    #[verifier::type_invariant]
    spec fn inv(self) -> bool {
        self@.wf()
    }

    /// The start of a generation that writes to `build` and `target`. Whether the marker's path has
    /// a directory to it is `has_parent`.
    pub fn start(has_parent: bool, build: String, target: String) -> (r: Self)
        ensures
            r@ == Start::new(
                Paths {
                    build: build@,
                    target: if same_way(target@, build@) {
                        None
                    } else {
                        Some(target@)
                    },
                },
                has_parent,
            ),
            r@ == Start::new(Paths::of(build@, target@), has_parent),
    {
        Artifacts {
            marker: Marker::new(build, target),
            has_parent,
            left: None,
            since: 0,
            step: Step::ReadMarker,
            publication: Publication::new(false),
        }
    }

    /// The own marker.
    pub fn marker(&self) -> (r: &Marker)
        ensures
            r@ == self@.own,
    {
        &self.marker
    }

    /// What the own marker's file is to hold.
    pub fn payload(&self) -> (r: &Vec<u8>)
        ensures
            r@ == self@.publication.payload,
    {
        self.publication.payload()
    }

    /// The operation that is due.
    pub fn action<'a>(&'a self) -> (r: Action<'a>)
        ensures
            match self@.step {
                Step::ReadMarker => r == Action::ReadMarker,
                Step::ReadTime => r == Action::ReadTime,
                Step::Decode => r == Action::DecodeMarker,
                Step::LockBuild => r matches Action::Lock { dir, lock } && dir@
                    == self@.left->0.build && lock@ == BUILD_LOCK@,
                Step::LockTarget => r matches Action::Lock { dir, lock } && Some(dir@)
                    == self@.left->0.target && lock@ == TARGET_LOCK@,
                Step::ScrubBuild => r matches Action::Scrub { dir, since } && dir@
                    == self@.left->0.build && since == self@.since,
                Step::ScrubTarget => r matches Action::Scrub { dir, since } && Some(dir@)
                    == self@.left->0.target && since == self@.since,
                Step::RemoveMarker => r == Action::RemoveMarker,
                Step::Unlock => r == Action::Unlock,
                Step::Publish => r == Action::Publish(self@.publication.stage),
                Step::Started | Step::Abandoned => r == Action::Nothing,
            },
            r@ == self@.due(),
    {
        proof {
            use_type_invariant(self);
        }
        match self.step {
            Step::ReadMarker => Action::ReadMarker,
            Step::ReadTime => Action::ReadTime,
            Step::Decode => Action::DecodeMarker,
            Step::LockBuild => match &self.left {
                Some(left) => Action::Lock { dir: left.build.as_str(), lock: BUILD_LOCK },
                None => Action::Nothing,
            },
            Step::LockTarget => match &self.left {
                Some(Marker { target: Some(target), .. }) => Action::Lock {
                    dir: target.as_str(),
                    lock: TARGET_LOCK,
                },
                _ => Action::Nothing,
            },
            Step::ScrubBuild => match &self.left {
                Some(left) => Action::Scrub { dir: left.build.as_str(), since: self.since },
                None => Action::Nothing,
            },
            Step::ScrubTarget => match &self.left {
                Some(Marker { target: Some(target), .. }) => Action::Scrub {
                    dir: target.as_str(),
                    since: self.since,
                },
                _ => Action::Nothing,
            },
            Step::RemoveMarker => Action::RemoveMarker,
            Step::Unlock => Action::Unlock,
            Step::Publish => Action::Publish(self.publication.stage()),
            Step::Started => Action::Nothing,
            Step::Abandoned => Action::Nothing,
        }
    }

    /// Goes on to the publication of the own marker.
    fn go_on(&mut self) -> (r: Result<(), Failure>)
        ensures
            final(self)@ == old(self)@.recovered(),
            r == (if old(self)@.has_parent {
                Ok(())
            } else {
                Err(Failure::NoParent)
            }),
    {
        if self.has_parent {
            self.step = Step::Publish;
            Ok(())
        } else {
            self.step = Step::Abandoned;
            Err(Failure::NoParent)
        }
    }

    /// Takes what came of the operation that was due.
    pub fn resume(&mut self, event: Event) -> (r: Result<(), Failure>)
        ensures
            final(self)@ == old(self)@.after(event),
            r == old(self)@.answer(event),
    {
        proof {
            use_type_invariant(&*self);
        }
        let due: Step = self.step;
        match event {
            Event::Time(time) => {
                if due != Step::ReadTime {
                    return Err(Failure::OutOfTurn);
                }
                match time {
                    Some(since) => {
                        self.since = since;
                        self.step = Step::Decode;
                        Ok(())
                    },
                    None => {
                        self.step = Step::Abandoned;
                        Err(Failure::Failed(due))
                    },
                }
            },
            Event::Decoded(marker) => {
                if due != Step::Decode {
                    return Err(Failure::OutOfTurn);
                }
                match marker {
                    Some(marker) => {
                        self.left = Some(marker);
                        self.step = Step::LockBuild;
                        Ok(())
                    },
                    None => {
                        self.step = Step::Abandoned;
                        Err(Failure::Failed(due))
                    },
                }
            },
            Event::Written(written) => {
                if due != Step::Publish {
                    return Err(Failure::OutOfTurn);
                }
                let stage: Stage = self.publication.stage();
                let mut publication = Publication::new(false);
                std::mem::swap(&mut publication, &mut self.publication);
                let answer = publication.resume(written);
                self.publication = publication;
                match answer {
                    Ok(()) => {
                        if self.publication.stage() == Stage::Published {
                            self.step = Step::Started;
                        }
                        Ok(())
                    },
                    Err(Refusal::OutOfTurn) => Err(Failure::OutOfTurn),
                    Err(Refusal::Failed(_)) => {
                        self.step = Step::Abandoned;
                        Err(Failure::Unpublished(stage))
                    },
                }
            },
            Event::Attempted(attempt) => {
                match due {
                    Step::ReadTime | Step::Decode | Step::Publish | Step::Started
                    | Step::Abandoned => {
                        return Err(Failure::OutOfTurn);
                    },
                    Step::ReadMarker => {
                        if attempt == Attempt::Missing {
                            return self.go_on();
                        }
                        if attempt == Attempt::Done {
                            self.step = Step::ReadTime;
                            return Ok(());
                        }
                    },
                    Step::RemoveMarker => {
                        if attempt.removed() {
                            self.step = Step::Unlock;
                            return Ok(());
                        }
                    },
                    Step::Unlock => {
                        return self.go_on();
                    },
                    Step::LockBuild => {
                        if attempt == Attempt::Done {
                            let both: bool = self.has_left_target();
                            self.step = if both {
                                Step::LockTarget
                            } else {
                                Step::ScrubBuild
                            };
                            return Ok(());
                        }
                    },
                    Step::LockTarget => {
                        if attempt == Attempt::Done {
                            self.step = Step::ScrubBuild;
                            return Ok(());
                        }
                    },
                    Step::ScrubBuild => {
                        if attempt == Attempt::Done {
                            let both: bool = self.has_left_target();
                            self.step = if both {
                                Step::ScrubTarget
                            } else {
                                Step::RemoveMarker
                            };
                            return Ok(());
                        }
                    },
                    Step::ScrubTarget => {
                        if attempt == Attempt::Done {
                            self.step = Step::RemoveMarker;
                            return Ok(());
                        }
                    },
                }
                self.step = Step::Abandoned;
                Err(Failure::Failed(due))
            },
        }
    }

    /// Whether the marker that was left names an artifact directory.
    fn has_left_target(&self) -> (r: bool)
        ensures
            r == (self@.left is Some && self@.left->0.target is Some),
    {
        match &self.left {
            Some(left) => left.target.is_some(),
            None => false,
        }
    }

    /// The ordinary end of a generation that is started, whose marker was to be removed.
    pub fn finish(self, attempt: Attempt) -> (r: Result<(), Failure>)
        ensures
            r == self@.finished(attempt),
    {
        if self.step != Step::Started {
            Err(Failure::OutOfTurn)
        } else if attempt.removed() {
            Ok(())
        } else {
            Err(Failure::Failed(Step::RemoveMarker))
        }
    }
}

/// The extension of the temporary file that the process `pid` publishes the marker from.
pub open spec fn extension_of(pid: u32) -> Seq<char> {
    "json."@ + decimal(pid as nat) + ".tmp"@
}

/// The extension of the temporary file that the process `pid` publishes the marker from.
pub fn temporary_extension(pid: u32) -> (r: String)
    ensures
        r@ == "json."@ + decimal(pid as nat) + ".tmp"@,
        r@ == extension_of(pid),
{
    let mut extension = "json.".to_owned();
    push_decimal(&mut extension, pid as u64);
    extension.append(".tmp");
    extension
}

/// What a call for a lock comes to.
#[derive(Clone, Copy, Debug, PartialEq, Eq, Structural)]
pub enum Turn {
    /// The lock is held.
    Held,
    /// The call was interrupted: it has to be made again.
    Again,
    Refused,
}

/// What a call for a lock comes to, by its result and by whether it was interrupted.
pub open spec fn turn_of(result: i32, interrupted: bool) -> Turn {
    if result == 0 {
        Turn::Held
    } else if interrupted {
        Turn::Again
    } else {
        Turn::Refused
    }
}

/// What a call for a lock comes to, by its result and by whether it was interrupted.
pub fn flock(result: i32, interrupted: bool) -> (r: Turn)
    ensures
        r == (if result == 0 {
            Turn::Held
        } else if interrupted {
            Turn::Again
        } else {
            Turn::Refused
        }),
        r == turn_of(result, interrupted),
{
    if result == 0 {
        Turn::Held
    } else if interrupted {
        Turn::Again
    } else {
        Turn::Refused
    }
}

} // verus!
