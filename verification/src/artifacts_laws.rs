//! What holds of the disk as a generation starts.

use crate::artifacts::{
    extension_of, turn_of, Due, Event, Failure, Marker, Paths, Start, Step, Turn,
};
use crate::paths::same_way;
use crate::publication::{Attempt, Event as Written, Progress, Stage};
use crate::text::decimal;
use crate::text_laws::law_decimals_are_apart;
use vstd::prelude::*;
use vstd::string::*;

verus! {

/// A marker that is published.
#[verifier::ext_equal]
pub struct Published {
    pub paths: Paths,
    /// When it was published.
    pub time: i128,
}

/// What the start of a generation finds and leaves.
#[verifier::ext_equal]
pub struct Disk {
    /// The marker that is published.
    pub marker: Option<Published>,
    /// The locks that are held, each by its directory and by its name there.
    pub held: Set<(Seq<char>, Seq<char>)>,
    /// The directories that were scrubbed, with the time that they were scrubbed back to.
    pub scrubbed: Map<Seq<char>, i128>,
}

/// Whether an operation did what it is for, by what came of it. To remove what is not there is no
/// failure, and the locks are released in any case.
pub open spec fn did(due: Due, event: Event) -> bool {
    match event {
        Event::Time(time) => time is Some,
        Event::Decoded(marker) => marker is Some,
        Event::Written(Written::Encoded(bytes)) => bytes is Some,
        Event::Written(Written::Attempted(attempt)) => attempt is Done,
        Event::Attempted(Attempt::Done) => true,
        Event::Attempted(Attempt::Missing) => due is RemoveMarker || due is Unlock,
        Event::Attempted(Attempt::Failed) => due is Unlock,
    }
}

impl Disk {
    /// A disk with this marker, before a generation starts.
    pub open spec fn with(marker: Option<Published>) -> Self {
        Disk { marker, held: Set::empty(), scrubbed: Map::empty() }
    }

    /// Whether `event` tells of this disk.
    pub open spec fn tells(self, start: Start, event: Event) -> bool {
        match event {
            Event::Attempted(attempt) => start.step == Step::ReadMarker ==> {
                &&& attempt == Attempt::Done ==> self.marker is Some
                &&& attempt == Attempt::Missing ==> self.marker is None
            },
            Event::Time(Some(time)) => self.marker is Some && time == self.marker->0.time,
            Event::Decoded(Some(left)) => self.marker is Some && left@ == self.marker->0.paths,
            _ => true,
        }
    }

    /// This disk after the operation that is due, when `event` came of it at the time `now`.
    pub open spec fn after(self, start: Start, event: Event, now: i128) -> Self {
        if !did(start.due(), event) {
            self
        } else {
            match start.due() {
                Due::Lock { dir, lock } => Disk { held: self.held.insert((dir, lock)), ..self },
                Due::Scrub { dir, since } => Disk {
                    scrubbed: self.scrubbed.insert(dir, since),
                    ..self
                },
                Due::RemoveMarker => Disk { marker: None, ..self },
                Due::Unlock => Disk { held: Set::empty(), ..self },
                Due::Publish(Stage::Replace) => Disk {
                    marker: Some(Published { paths: start.own, time: now }),
                    ..self
                },
                _ => self,
            }
        }
    }

    /// This disk after the marker was to be removed at the end of a generation.
    pub open spec fn after_end(self, attempt: Attempt) -> Self {
        if attempt.leaves_nothing() {
            Disk { marker: None, ..self }
        } else {
            self
        }
    }

    /// Whether Cargo's locks are held in every directory that `paths` names.
    pub open spec fn locks(self, paths: Paths) -> bool {
        &&& self.held.contains((paths.build, ".cargo-build-lock"@))
        &&& paths.target is Some ==> self.held.contains(
            (paths.target->0, ".cargo-artifact-lock"@),
        )
    }

    /// Whether `dir` was scrubbed back to `since`.
    pub open spec fn is_scrubbed(self, dir: Seq<char>, since: i128) -> bool {
        self.scrubbed.contains_key(dir) && self.scrubbed[dir] == since
    }

    /// Whether every directory that a marker names was scrubbed back to its publication.
    pub open spec fn recovers(self, marker: Published) -> bool {
        &&& self.is_scrubbed(marker.paths.build, marker.time)
        &&& marker.paths.target is Some ==> self.is_scrubbed(marker.paths.target->0, marker.time)
    }
}

/// How the disk stands to the start of a generation.
pub open spec fn in_step(start: Start, disk: Disk) -> bool {
    let left = Published { paths: start.left->0, time: start.since };
    &&& start.wf()
    &&& match start.step {
        Step::ReadMarker => {
            &&& disk.held == Set::<(Seq<char>, Seq<char>)>::empty()
            &&& start.publication == Progress::start(false)
        },
        Step::ReadTime => {
            &&& disk.marker is Some
            &&& start.publication == Progress::start(false)
        },
        Step::Decode => {
            &&& disk.marker is Some
            &&& disk.marker->0.time == start.since
            &&& start.publication == Progress::start(false)
        },
        Step::LockBuild => {
            &&& disk.marker == Some(left)
            &&& start.publication == Progress::start(false)
        },
        Step::LockTarget => {
            &&& disk.marker == Some(left)
            &&& disk.held.contains((left.paths.build, ".cargo-build-lock"@))
            &&& start.publication == Progress::start(false)
        },
        Step::ScrubBuild => {
            &&& disk.marker == Some(left)
            &&& disk.locks(left.paths)
            &&& start.publication == Progress::start(false)
        },
        Step::ScrubTarget => {
            &&& disk.marker == Some(left)
            &&& disk.locks(left.paths)
            &&& disk.is_scrubbed(left.paths.build, left.time)
            &&& start.publication == Progress::start(false)
        },
        Step::RemoveMarker => {
            &&& disk.marker == Some(left)
            &&& disk.locks(left.paths)
            &&& disk.recovers(left)
            &&& start.publication == Progress::start(false)
        },
        Step::Unlock => {
            &&& disk.marker is None
            &&& start.publication == Progress::start(false)
        },
        Step::Publish => {
            &&& disk.held == Set::<(Seq<char>, Seq<char>)>::empty()
            &&& disk.marker is None
            &&& !start.publication.stage.ended()
            &&& start.publication.stage != Stage::SyncParent
            &&& !start.publication.sync_parent
        },
        Step::Started => {
            &&& disk.held == Set::<(Seq<char>, Seq<char>)>::empty()
            &&& disk.marker is Some
            &&& disk.marker->0.paths == start.own
        },
        Step::Abandoned => true,
    }
}

/// A generation starts in step with any disk on which no lock is held yet.
pub proof fn law_starts_in_step(own: Paths, has_parent: bool, marker: Option<Published>)
    ensures
        in_step(Start::new(own, has_parent), Disk::with(marker)),
{
}

/// Whatever comes of an operation, the start of a generation stays in step with the disk.
pub proof fn law_stays_in_step(start: Start, disk: Disk, event: Event, now: i128)
    requires
        in_step(start, disk),
        start.expects(event),
        disk.tells(start, event),
    ensures
        in_step(start.after(event), disk.after(start, event, now)),
{
}

/// The marker outlives an unfinished recovery: it goes only once every directory that it names was
/// scrubbed back to its publication, under Cargo's locks. So wherever a recovery is cut off, the
/// next generation recovers again.
pub proof fn law_marker_outlives_unfinished_recovery(
    start: Start,
    disk: Disk,
    event: Event,
    now: i128,
)
    requires
        in_step(start, disk),
        start.expects(event),
        disk.tells(start, event),
        disk.marker is Some,
        disk.after(start, event, now).marker != disk.marker,
    ensures
        start.step == Step::RemoveMarker,
        disk.recovers(disk.marker->0),
        disk.locks(disk.marker->0.paths),
{
}

/// Nothing is scrubbed but what the marker that was left names, back to its publication, and with
/// every one of Cargo's locks held.
pub proof fn law_scrubs_under_locks(start: Start, disk: Disk)
    requires
        in_step(start, disk),
        start.step == Step::ScrubBuild || start.step == Step::ScrubTarget,
    ensures
        disk.marker == Some(Published { paths: start.left->0, time: start.since }),
        disk.locks(start.left->0),
{
}

/// An ordinary completion is not recovered: where no marker was left, nothing is locked or
/// scrubbed, and the own marker is published next.
pub proof fn law_no_marker_no_recovery(start: Start, disk: Disk, event: Event, now: i128)
    requires
        in_step(start, disk),
        start.step == Step::ReadMarker,
        disk.marker is None,
        start.expects(event),
        disk.tells(start, event),
    ensures
        start.after(event).step == Step::Publish || start.after(event).step == Step::Abandoned,
        start.succeeds(event) && start.has_parent ==> start.after(event).step == Step::Publish,
        disk.after(start, event, now) == disk,
{
}

/// A generation that is started has published its own marker and holds none of Cargo's locks.
pub proof fn law_started_is_marked(start: Start, disk: Disk)
    requires
        in_step(start, disk),
        start.step == Step::Started,
    ensures
        disk.marker is Some,
        disk.marker->0.paths == start.own,
        disk.held == Set::<(Seq<char>, Seq<char>)>::empty(),
{
}

/// Ordinary completion removes the marker, so the next generation recovers nothing: whatever comes
/// of its first operation, it goes on to publish its own marker or gives up.
pub proof fn law_completion_is_not_recovered(
    start: Start,
    disk: Disk,
    attempt: Attempt,
    next: Start,
    event: Event,
)
    requires
        in_step(start, disk),
        start.finished(attempt) is Ok,
        next == Start::new(next.own, next.has_parent),
        next.expects(event),
        disk.after_end(attempt).tells(next, event),
    ensures
        disk.after_end(attempt).marker is None,
        in_step(next, disk.after_end(attempt)),
        next.after(event).step == Step::Publish || next.after(event).step == Step::Abandoned,
        next.succeeds(event) && next.has_parent ==> next.after(event).step == Step::Publish,
{
}

/// How many operations can still be due.
pub open spec fn left(start: Start) -> nat {
    match start.step {
        Step::ReadMarker => 18,
        Step::ReadTime => 17,
        Step::Decode => 16,
        Step::LockBuild => 15,
        Step::LockTarget => 14,
        Step::ScrubBuild => 13,
        Step::ScrubTarget => 12,
        Step::RemoveMarker => 11,
        Step::Unlock => 10,
        Step::Publish => 1 + start.publication.stage.left(),
        Step::Started | Step::Abandoned => 0,
    }
}

/// The start of a generation ends: each event that is due leaves fewer operations.
pub proof fn law_start_ends(start: Start, disk: Disk, event: Event)
    requires
        in_step(start, disk),
        start.expects(event),
    ensures
        left(start.after(event)) < left(start),
{
}

/// What is answered is of the operation that is due, or it changes nothing.
pub proof fn law_events_in_turn(start: Start, event: Event)
    ensures
        start.expects(event) <==> match start.due() {
            Due::ReadTime => event is Time,
            Due::DecodeMarker => event is Decoded,
            Due::Publish(stage) => event is Written && match event->Written_0 {
                Written::Encoded(_) => stage == Stage::Encode,
                Written::Attempted(_) => stage != Stage::Encode && stage != Stage::Published && stage
                    != Stage::Abandoned,
            },
            Due::Nothing => false,
            _ => event is Attempted,
        },
        !start.expects(event) ==> start.after(event) == start && start.answer(event) == Err::<
            (),
            Failure,
        >(Failure::OutOfTurn),
{
}

/// An operation that did what it is for is followed by the next; where nothing is left to recover and
/// the marker has no directory, the start ends. A marker that is not there leaves nothing to recover.
pub proof fn law_success_goes_on(start: Start, event: Event)
    requires
        start.expects(event),
        did(start.due(), event) || (start.due() is ReadMarker && event == Event::Attempted(
            Attempt::Missing,
        )),
    ensures
        start.has_parent ==> start.answer(event) is Ok && start.after(event).step
            != Step::Abandoned,
        !start.has_parent && !(start.due() is Unlock) && event != Event::Attempted(
            Attempt::Missing,
        ) ==> start.answer(event) is Ok,
        !start.has_parent && (start.due() is Unlock || (start.due() is ReadMarker && event
            == Event::Attempted(Attempt::Missing))) ==> {
            &&& start.answer(event) == Err::<(), Failure>(Failure::NoParent)
            &&& start.after(event).step == Step::Abandoned
        },
        start.after(event).own == start.own,
        start.after(event).has_parent == start.has_parent,
{
}

/// An operation that failed ends the start, and the answer names it.
pub proof fn law_failure_ends_the_start(start: Start, event: Event)
    requires
        start.expects(event),
        !did(start.due(), event),
        !(start.due() is ReadMarker && event == Event::Attempted(Attempt::Missing)),
    ensures
        start.after(event).step == Step::Abandoned,
        start.due() matches Due::Publish(stage) ==> start.answer(event) == Err::<(), Failure>(
            Failure::Unpublished(stage),
        ),
        !(start.due() is Publish) ==> start.answer(event) == Err::<(), Failure>(
            Failure::Failed(start.step),
        ),
{
}

/// The start of a generation behind one that was interrupted: the marker that was left is read, with
/// its time, Cargo's lock is taken in each directory that it names, each is scrubbed back to that
/// time, the marker goes, the locks are released, and then the own marker is published.
pub proof fn law_recovers_in_order(own: Paths, has_parent: bool, left: Marker, time: i128)
    ensures
        ({
            let done = Event::Attempted(Attempt::Done);
            let first = Start::new(own, has_parent);
            let second = first.after(done);
            let third = second.after(Event::Time(Some(time)));
            let fourth = third.after(Event::Decoded(Some(left)));
            let fifth = fourth.after(done);
            let build = left.build@;
            &&& first.due() == Due::ReadMarker
            &&& second.due() == Due::ReadTime
            &&& third.due() == Due::DecodeMarker
            &&& fourth.due() == Due::Lock { dir: build, lock: ".cargo-build-lock"@ }
            &&& left.target is None ==> {
                let sixth = fifth.after(done);
                let seventh = sixth.after(done);
                &&& fifth.due() == Due::Scrub { dir: build, since: time }
                &&& sixth.due() == Due::RemoveMarker
                &&& seventh.due() == Due::Unlock
                &&& has_parent ==> seventh.after(done).due() == Due::Publish(Stage::CreateParent)
            }
            &&& left.target is Some ==> {
                let target = left.target->0@;
                let sixth = fifth.after(done);
                let seventh = sixth.after(done);
                let eighth = seventh.after(done);
                let ninth = eighth.after(done);
                &&& fifth.due() == Due::Lock { dir: target, lock: ".cargo-artifact-lock"@ }
                &&& sixth.due() == Due::Scrub { dir: build, since: time }
                &&& seventh.due() == Due::Scrub { dir: target, since: time }
                &&& eighth.due() == Due::RemoveMarker
                &&& ninth.due() == Due::Unlock
                &&& has_parent ==> ninth.after(done).due() == Due::Publish(Stage::CreateParent)
            }
        }),
{
}

/// The start of a generation behind one that ended in the ordinary way goes straight to its own
/// marker, and is started once that is published.
pub proof fn law_publishes_in_order(own: Paths, bytes: Vec<u8>)
    ensures
        ({
            let done = Event::Written(Written::Attempted(Attempt::Done));
            let first = Start::new(own, true).after(Event::Attempted(Attempt::Missing));
            let second = first.after(done);
            let third = second.after(Event::Written(Written::Encoded(Some(bytes))));
            let fourth = third.after(done);
            let fifth = fourth.after(done);
            let sixth = fifth.after(done);
            let last = sixth.after(done);
            &&& first.due() == Due::Publish(Stage::CreateParent)
            &&& second.due() == Due::Publish(Stage::Encode)
            &&& third.due() == Due::Publish(Stage::CreateTemporary)
            &&& fourth.due() == Due::Publish(Stage::Write)
            &&& fourth.publication.payload == bytes@ + seq![0x0au8]
            &&& fifth.due() == Due::Publish(Stage::Sync)
            &&& sixth.due() == Due::Publish(Stage::Replace)
            &&& last.due() == Due::Nothing
            &&& last.step == Step::Started
            &&& last.own == own
        }),
{
    assert(bytes@.push(0x0a) =~= bytes@ + seq![0x0au8]);
}

/// A generation that is started ends in the ordinary way where its marker is not there any more. One
/// that is not started has no such end.
pub proof fn law_ends_without_its_marker(start: Start, attempt: Attempt)
    ensures
        start.step == Step::Started ==> (start.finished(attempt) is Ok <==> attempt is Done
            || attempt is Missing),
        start.step == Step::Started && attempt is Failed ==> start.finished(attempt) == Err::<
            (),
            Failure,
        >(Failure::Failed(Step::RemoveMarker)),
        start.step != Step::Started ==> start.finished(attempt) == Err::<(), Failure>(
            Failure::OutOfTurn,
        ),
{
}

/// A marker names the build directory as it is given, and the artifact directory where that leads
/// another way.
pub proof fn law_marker_names_both_directories(
    build: Seq<char>,
    target: Seq<char>,
    has_parent: bool,
)
    ensures
        Paths::of(build, target).build == build,
        same_way(target, build) ==> Paths::of(build, target).target is None,
        !same_way(target, build) ==> Paths::of(build, target).target == Some(target),
        Start::new(Paths::of(build, target), has_parent).own == Paths::of(build, target),
        Start::new(Paths::of(build, target), has_parent).has_parent == has_parent,
{
}

/// What a marker names is what stands in it.
pub proof fn law_marker_by_its_fields(marker: Marker)
    ensures
        marker@.build == marker.build@,
        marker.target is None <==> marker@.target is None,
        marker.target is Some ==> marker@.target == Some(marker.target->0@),
{
}

/// Two processes publish their markers from two temporary files, whose names end in `.tmp`.
pub proof fn law_temporary_files_are_apart(a: u32, b: u32)
    ensures
        extension_of(a) == extension_of(b) ==> a == b,
        extension_of(a) == "json."@ + decimal(a as nat) + ".tmp"@,
{
    let first = decimal(a as nat);
    let second = decimal(b as nat);
    if extension_of(a) == extension_of(b) {
        reveal_strlit("json.");
        reveal_strlit(".tmp");
        let name = extension_of(a);
        assert(extension_of(a).len() == 9 + first.len());
        assert(extension_of(b).len() == 9 + second.len());
        assert(name.subrange(5, 5 + first.len() as int) =~= first);
        assert(name.subrange(5, 5 + second.len() as int) =~= second);
        law_decimals_are_apart(a as nat, b as nat);
    }
}

/// A lock is held exactly where the call for it returned zero. Any other result is final unless the
/// call was interrupted.
pub proof fn law_locks_by_the_calls_result(result: i32, interrupted: bool)
    ensures
        turn_of(result, interrupted) == Turn::Held <==> result == 0,
        turn_of(result, interrupted) == Turn::Again <==> result != 0 && interrupted,
        turn_of(result, interrupted) == Turn::Refused <==> result != 0 && !interrupted,
{
}

} // verus!
