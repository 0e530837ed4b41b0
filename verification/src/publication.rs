//! Publishing a file so that a reader finds the old text or the whole new one.

use vstd::prelude::*;

verus! {

/// What came of an operation on the file system.
#[derive(Clone, Copy, Debug, PartialEq, Eq, Structural)]
pub enum Attempt {
    Done,
    /// What it was to work on is not there.
    Missing,
    Failed,
}

impl Attempt {
    /// Whether what was to be removed is not there any more.
    pub open spec fn leaves_nothing(self) -> bool {
        self != Attempt::Failed
    }

    /// Whether what was to be removed is not there any more.
    pub fn removed(&self) -> (r: bool)
        ensures
            r == self.leaves_nothing(),
    {
        match self {
            Attempt::Failed => false,
            _ => true,
        }
    }
}

/// How far the publication of a file has come, by the operation that is due.
#[derive(Clone, Copy, Debug, PartialEq, Eq, Structural)]
pub enum Stage {
    /// Create the directory of the file.
    CreateParent,
    /// Encode the value to publish.
    Encode,
    /// Create a temporary file in that directory.
    CreateTemporary,
    /// Write the payload to the temporary file.
    Write,
    /// Bring the temporary file's contents to the disk.
    Sync,
    /// Rename the temporary file to the file.
    Replace,
    /// Bring the directory to the disk.
    SyncParent,
    /// Nothing: the file is published.
    Published,
    /// Nothing: an operation failed.
    Abandoned,
}

/// What came of the operation that was due.
pub enum Event {
    /// Of encoding: the bytes, where the value has an encoding.
    Encoded(Option<Vec<u8>>),
    /// Of any other.
    Attempted(Attempt),
}

/// Why a publication does not go on.
#[derive(Clone, Copy, Debug, PartialEq, Eq, Structural)]
pub enum Refusal {
    /// The operation that was due failed.
    Failed(Stage),
    /// No such event was due.
    OutOfTurn,
}

/// How far a publication has come, with what it publishes.
#[verifier::ext_equal]
pub struct Progress {
    pub stage: Stage,
    /// What the temporary file is to hold. Empty until the value is encoded.
    pub payload: Seq<u8>,
    /// Whether the directory is brought to the disk as well.
    pub sync_parent: bool,
}

/// The text of a file: the encoded value as one line.
pub open spec fn framed(bytes: Seq<u8>) -> Seq<u8> {
    bytes.push(0x0a)
}

impl Stage {
    /// The stage behind this one, whose operation was done.
    pub open spec fn next(self, sync_parent: bool) -> Stage {
        match self {
            Stage::CreateParent => Stage::Encode,
            Stage::Encode => Stage::CreateTemporary,
            Stage::CreateTemporary => Stage::Write,
            Stage::Write => Stage::Sync,
            Stage::Sync => Stage::Replace,
            Stage::Replace => if sync_parent {
                Stage::SyncParent
            } else {
                Stage::Published
            },
            Stage::SyncParent => Stage::Published,
            ended => ended,
        }
    }

    /// Whether no operation is due.
    pub open spec fn ended(self) -> bool {
        self == Stage::Published || self == Stage::Abandoned
    }

    /// How many operations can still be due.
    pub open spec fn left(self) -> nat {
        match self {
            Stage::CreateParent => 7,
            Stage::Encode => 6,
            Stage::CreateTemporary => 5,
            Stage::Write => 4,
            Stage::Sync => 3,
            Stage::Replace => 2,
            Stage::SyncParent => 1,
            _ => 0,
        }
    }

    fn advance(self, sync_parent: bool) -> (r: Stage)
        ensures
            r == self.next(sync_parent),
    {
        match self {
            Stage::CreateParent => Stage::Encode,
            Stage::Encode => Stage::CreateTemporary,
            Stage::CreateTemporary => Stage::Write,
            Stage::Write => Stage::Sync,
            Stage::Sync => Stage::Replace,
            Stage::Replace => if sync_parent {
                Stage::SyncParent
            } else {
                Stage::Published
            },
            Stage::SyncParent => Stage::Published,
            ended => ended,
        }
    }
}

impl Progress {
    /// At the start.
    pub open spec fn start(sync_parent: bool) -> Self {
        Progress { stage: Stage::CreateParent, payload: Seq::empty(), sync_parent }
    }

    /// Whether `event` is of the operation that is due.
    pub open spec fn expects(self, event: Event) -> bool {
        match event {
            Event::Encoded(_) => self.stage == Stage::Encode,
            Event::Attempted(_) => self.stage != Stage::Encode && !self.stage.ended(),
        }
    }

    /// Where `event` leads.
    pub open spec fn after(self, event: Event) -> Self {
        if !self.expects(event) {
            self
        } else {
            match event {
                Event::Encoded(Some(bytes)) => Progress {
                    stage: self.stage.next(self.sync_parent),
                    payload: framed(bytes@),
                    ..self
                },
                Event::Attempted(Attempt::Done) => Progress {
                    stage: self.stage.next(self.sync_parent),
                    ..self
                },
                _ => Progress { stage: Stage::Abandoned, ..self },
            }
        }
    }

    /// What is answered to `event`.
    pub open spec fn answer(self, event: Event) -> Result<(), Refusal> {
        if !self.expects(event) {
            Err(Refusal::OutOfTurn)
        } else if event is Encoded && event->Encoded_0 is Some || event == Event::Attempted(
            Attempt::Done,
        ) {
            Ok(())
        } else {
            Err(Refusal::Failed(self.stage))
        }
    }
}

/// The publication of one file.
pub struct Publication {
    stage: Stage,
    payload: Vec<u8>,
    sync_parent: bool,
}

impl View for Publication {
    type V = Progress;

    closed spec fn view(&self) -> Progress {
        Progress { stage: self.stage, payload: self.payload@, sync_parent: self.sync_parent }
    }
}

impl Publication {
    /// A publication at its start.
    pub fn new(sync_parent: bool) -> (r: Self)
        ensures
            r@ == Progress::start(sync_parent),
    {
        Publication { stage: Stage::CreateParent, payload: Vec::new(), sync_parent }
    }

    /// The stage, which says what operation is due.
    pub fn stage(&self) -> (r: Stage)
        ensures
            r == self@.stage,
    {
        self.stage
    }

    /// What the temporary file is to hold.
    pub fn payload(&self) -> (r: &Vec<u8>)
        ensures
            r@ == self@.payload,
    {
        &self.payload
    }

    /// Takes what came of the operation that was due.
    pub fn resume(&mut self, event: Event) -> (r: Result<(), Refusal>)
        ensures
            final(self)@ == old(self)@.after(event),
            r == old(self)@.answer(event),
    {
        let due: Stage = self.stage;
        match event {
            Event::Encoded(encoded) => {
                if due != Stage::Encode {
                    return Err(Refusal::OutOfTurn);
                }
                match encoded {
                    Some(bytes) => {
                        let mut text = bytes;
                        text.push(0x0a);
                        self.payload = text;
                        self.stage = due.advance(self.sync_parent);
                        Ok(())
                    },
                    None => {
                        self.stage = Stage::Abandoned;
                        Err(Refusal::Failed(due))
                    },
                }
            },
            Event::Attempted(attempt) => {
                if due == Stage::Encode || due == Stage::Published || due == Stage::Abandoned {
                    return Err(Refusal::OutOfTurn);
                }
                if attempt == Attempt::Done {
                    self.stage = due.advance(self.sync_parent);
                    Ok(())
                } else {
                    self.stage = Stage::Abandoned;
                    Err(Refusal::Failed(due))
                }
            },
        }
    }
}

/// What the files hold, as a publication goes on.
pub struct Files {
    /// The file that is published.
    pub target: Option<Seq<u8>>,
    /// The temporary file.
    pub temporary: Option<Seq<u8>>,
    /// Whether the temporary file's contents are on the disk.
    pub synced: bool,
}

impl Files {
    /// Whether `after` is what the operation due at `progress` can leave, when `event` came of it.
    /// A failed operation leaves the temporary file in any state; nothing but the renaming touches
    /// the file that is published, and a renaming that fails does not.
    pub open spec fn leads_to(self, progress: Progress, event: Event, after: Files) -> bool {
        if event == Event::Attempted(Attempt::Done) {
            match progress.stage {
                Stage::CreateTemporary => after == (Files {
                    temporary: Some(Seq::empty()),
                    synced: false,
                    ..self
                }),
                Stage::Write => after == (Files {
                    temporary: Some(progress.payload),
                    synced: false,
                    ..self
                }),
                Stage::Sync => after == (Files { synced: true, ..self }),
                Stage::Replace => after == (Files {
                    target: self.temporary,
                    temporary: None,
                    synced: false,
                }),
                _ => after == self,
            }
        } else {
            after.target == self.target
        }
    }
}

/// How the files stand to a publication that replaces `old`.
pub open spec fn in_step(progress: Progress, files: Files, old_text: Option<Seq<u8>>) -> bool {
    match progress.stage {
        Stage::CreateParent | Stage::Encode | Stage::CreateTemporary | Stage::Write => files.target
            == old_text,
        Stage::Sync => files.target == old_text && files.temporary == Some(progress.payload),
        Stage::Replace => files.target == old_text && files.temporary == Some(progress.payload)
            && files.synced,
        Stage::SyncParent | Stage::Published => files.target == Some(progress.payload),
        Stage::Abandoned => files.target == old_text || files.target == Some(progress.payload),
    }
}

/// A reader finds the old text or the whole new one, at every moment and wherever the publication
/// is cut off; the new one only once it is on the disk.
pub proof fn law_old_text_or_whole_new_one(
    progress: Progress,
    files: Files,
    old_text: Option<Seq<u8>>,
    event: Event,
    after: Files,
)
    requires
        in_step(progress, files, old_text),
        progress.expects(event),
        files.leads_to(progress, event, after),
    ensures
        in_step(progress.after(event), after, old_text),
        after.target == old_text || after.target == Some(progress.after(event).payload),
        after.target != files.target ==> files.synced && files.temporary == Some(progress.payload),
{
}

/// A publication ends: each event that is due leaves fewer operations.
pub proof fn law_publication_ends(progress: Progress, event: Event)
    requires
        progress.expects(event),
    ensures
        progress.after(event).stage.left() < progress.stage.left(),
        progress.stage.left() == 0 <==> progress.stage.ended(),
{
}

/// What was to be removed is not there any more where the removal was done, or where there was nothing
/// to remove; only a failure leaves it.
pub proof fn law_removed_or_never_there(attempt: Attempt)
    ensures
        attempt.leaves_nothing() <==> attempt is Done || attempt is Missing,
{
}

/// A publication goes through every operation once and in order, and what it publishes is the encoded
/// value with a line feed behind it. The directory is brought to the disk last, where that is asked
/// for.
pub proof fn law_published_in_order(bytes: Vec<u8>, sync_parent: bool)
    ensures
        ({
            let done = Event::Attempted(Attempt::Done);
            let first = Progress::start(sync_parent);
            let second = first.after(done);
            let third = second.after(Event::Encoded(Some(bytes)));
            let fourth = third.after(done);
            let fifth = fourth.after(done);
            let sixth = fifth.after(done);
            let seventh = sixth.after(done);
            &&& first.stage == Stage::CreateParent
            &&& first.payload.len() == 0
            &&& second.stage == Stage::Encode
            &&& third.stage == Stage::CreateTemporary
            &&& fourth.stage == Stage::Write
            &&& fifth.stage == Stage::Sync
            &&& sixth.stage == Stage::Replace
            &&& sync_parent ==> seventh.stage == Stage::SyncParent && seventh.after(done).stage
                == Stage::Published
            &&& !sync_parent ==> seventh.stage == Stage::Published
            &&& fourth.payload.len() == bytes@.len() + 1
            &&& forall|i: int| 0 <= i < bytes@.len() ==> #[trigger] fourth.payload[i] == bytes@[i]
            &&& fourth.payload.last() == 0x0a
            &&& seventh.payload == fourth.payload
            &&& first.answer(done) is Ok
            &&& second.answer(Event::Encoded(Some(bytes))) is Ok
            &&& third.answer(done) is Ok
            &&& fourth.answer(done) is Ok
            &&& fifth.answer(done) is Ok
            &&& sixth.answer(done) is Ok
            &&& sync_parent ==> seventh.answer(done) is Ok
        }),
{
}

/// An operation that was not done ends a publication at the stage where it stood, and the answer names
/// that stage. An event that was not due changes nothing.
pub proof fn law_failures_end_a_publication(progress: Progress, attempt: Attempt, bytes: Vec<u8>)
    ensures
        ({
            let over = progress.stage == Stage::Published || progress.stage == Stage::Abandoned;
            let event = Event::Attempted(attempt);
            &&& !over && progress.stage != Stage::Encode && attempt != Attempt::Done
                ==> progress.after(event).stage == Stage::Abandoned && progress.answer(event)
                == Err::<(), Refusal>(Refusal::Failed(progress.stage))
            &&& over || progress.stage == Stage::Encode ==> progress.after(event) == progress
                && progress.answer(event) == Err::<(), Refusal>(Refusal::OutOfTurn)
            &&& progress.stage == Stage::Encode ==> progress.after(Event::Encoded(None)).stage
                == Stage::Abandoned && progress.answer(Event::Encoded(None)) == Err::<(), Refusal>(
                Refusal::Failed(Stage::Encode),
            )
            &&& progress.stage != Stage::Encode ==> {
                &&& progress.after(Event::Encoded(Some(bytes))) == progress
                &&& progress.after(Event::Encoded(None)) == progress
                &&& progress.answer(Event::Encoded(Some(bytes))) == Err::<(), Refusal>(
                    Refusal::OutOfTurn,
                )
                &&& progress.answer(Event::Encoded(None)) == Err::<(), Refusal>(
                    Refusal::OutOfTurn,
                )
            }
            &&& progress.after(event).payload == progress.payload
            &&& progress.after(event).sync_parent == progress.sync_parent
        }),
{
}

} // verus!
