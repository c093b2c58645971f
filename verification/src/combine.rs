//! The combiner: a state machine that makes sure that the destination is not
//! there yet, locates the parts, copies them in order into a new destination
//! file, checks the byte counts and deletes the parts unless it is told to
//! keep them. The caller performs each action on the
//! file system and reports back what happened.

use crate::locate::{lemma_locate_step, LocateAction, LocateError, LocateView, Locator};
use crate::split::MAX_BUFFER_SIZE;
use vstd::prelude::*;

verus! {

/// What the caller has to do next.
#[derive(Clone, Copy, Debug, PartialEq, Eq, Structural)]
pub enum CombineAction {
    /// Find out whether the destination file is there.
    ProbeDestination,
    /// Find out whether the file of part `index` is there.
    Probe { index: u64 },
    /// Create the destination file, empty.
    CreateDestination,
    /// Open the file of part `index` for reading from its start.
    OpenPart { index: u64 },
    /// Read at most `max_len` bytes from part `index`, from where the last
    /// read ended, and append them to the destination.
    Transfer { index: u64, max_len: u64 },
    /// Delete the file of part `index`.
    DeletePart { index: u64 },
    /// Nothing more: the outcome is ready.
    Finish,
}

/// What the caller reports after an action.
#[derive(Clone, Copy, Debug, PartialEq, Eq, Structural)]
pub enum CombineEvent {
    /// The probed file is there, or is not.
    Probed { exists: bool },
    /// The destination file was created.
    Created,
    /// The part file was opened.
    Opened,
    /// The read gave `bytes_read` bytes, none at the end of the part, and
    /// `bytes_written` of them reached the destination.
    Transferred { bytes_read: u64, bytes_written: u64 },
    /// The part file was deleted.
    Deleted,
    /// The action failed.
    Fault,
}

/// Why a combine was refused or failed.
#[derive(Clone, Copy, Debug, PartialEq, Eq, Structural)]
pub enum CombineError {
    /// The destination file is already there.
    DestinationExists,
    /// The parts cannot be used.
    Parts(LocateError),
    /// Not every byte that was read from the parts reached the destination.
    Mismatch { bytes_read: u64, bytes_written: u64 },
    /// This action failed, or was answered with a report that no run of it
    /// can give.
    Io { action: CombineAction },
}

/// Whether an error is a refusal: the request itself was found unacceptable.
pub open spec fn refused(error: CombineError) -> bool {
    error is DestinationExists || error is Parts
}

/// What the machine is waiting for.
#[derive(Clone, Copy, Debug, PartialEq, Eq, Structural)]
pub enum CombineStatus {
    /// The report on the probe for the destination.
    AwaitDestination,
    /// The report on a probe for a part.
    Locating,
    /// The report on the creation of the destination.
    AwaitCreate,
    /// The report on the opening of the current part.
    AwaitOpen,
    /// The report on a transfer from the current part.
    AwaitTransfer,
    /// The report on the deletion of the current part.
    AwaitDelete,
    /// Nothing: the destination is complete.
    Done,
    /// Nothing: the combine was given up.
    Failed(CombineError),
}

/// The state of a combine as a mathematical value.
pub struct CombineView {
    /// Whether the parts are kept after a combine that succeeds.
    pub no_cleanup: bool,
    /// The state of the search for the parts.
    pub locate: LocateView,
    /// The number of parts, once they are located.
    pub parts: nat,
    /// Whether the destination file was created.
    pub created: bool,
    /// The number of parts copied to the end; the next is being copied.
    pub copied: nat,
    /// The number of parts deleted; the next is being deleted.
    pub deleted: nat,
    /// The bytes read from the parts so far.
    pub bytes_read: nat,
    /// The bytes written to the destination so far.
    pub bytes_written: nat,
    /// What the machine is waiting for.
    pub status: CombineStatus,
}

impl CombineView {
    /// The state in which a combine begins.
    pub open spec fn start(no_cleanup: bool) -> CombineView {
        CombineView {
            no_cleanup,
            locate: LocateView::start(),
            parts: 0,
            created: false,
            copied: 0,
            deleted: 0,
            bytes_read: 0,
            bytes_written: 0,
            status: CombineStatus::AwaitDestination,
        }
    }

    /// What the caller has to do in this state.
    pub open spec fn action(self) -> CombineAction {
        match self.status {
            CombineStatus::AwaitDestination => CombineAction::ProbeDestination,
            CombineStatus::Locating => CombineAction::Probe { index: self.locate.probe as u64 },
            CombineStatus::AwaitCreate => CombineAction::CreateDestination,
            CombineStatus::AwaitOpen => CombineAction::OpenPart { index: self.copied as u64 },
            CombineStatus::AwaitTransfer => CombineAction::Transfer {
                index: self.copied as u64,
                max_len: MAX_BUFFER_SIZE,
            },
            CombineStatus::AwaitDelete => CombineAction::DeletePart {
                index: self.deleted as u64,
            },
            CombineStatus::Done => CombineAction::Finish,
            CombineStatus::Failed(_) => CombineAction::Finish,
        }
    }

    /// The state after the pending action failed.
    pub open spec fn fail(self) -> CombineView {
        CombineView {
            status: CombineStatus::Failed(CombineError::Io { action: self.action() }),
            ..self
        }
    }

    /// The state after the search for the parts has moved on to `locate`:
    /// still searching, or about to create the destination for the parts
    /// found, or given up for the reason that the search gives.
    pub open spec fn located(self, locate: LocateView) -> CombineView {
        match locate.outcome() {
            None => CombineView { locate, ..self },
            Some(Ok(parts)) => CombineView {
                locate,
                parts: parts as nat,
                status: CombineStatus::AwaitCreate,
                ..self
            },
            Some(Err(e)) => CombineView {
                locate,
                status: CombineStatus::Failed(CombineError::Parts(e)),
                ..self
            },
        }
    }

    /// The state after the last part is copied: given up if the byte counts
    /// differ, else complete, or about to delete the parts from part 0 on.
    pub open spec fn checked(self) -> CombineView {
        if self.bytes_written != self.bytes_read {
            CombineView {
                status: CombineStatus::Failed(
                    CombineError::Mismatch {
                        bytes_read: self.bytes_read as u64,
                        bytes_written: self.bytes_written as u64,
                    },
                ),
                ..self
            }
        } else if self.no_cleanup {
            CombineView { status: CombineStatus::Done, ..self }
        } else {
            CombineView { status: CombineStatus::AwaitDelete, ..self }
        }
    }

    /// The state after `event` is reported.
    ///
    /// A destination that is there ends the combine at once. Probes drive the
    /// search for the parts. Then the destination is created, and each part
    /// in ascending order is opened and read until a read gives nothing. Then
    /// the byte counts are compared, and the parts are deleted in ascending
    /// order unless they are to be kept. A fault, a report that does not
    /// answer the pending action, a read of more than was asked for, a write
    /// of more than was read and a total beyond the largest size that a file
    /// can have all end the combine as failed. Once the combine has ended,
    /// reports change nothing.
    pub open spec fn step(self, event: CombineEvent) -> CombineView {
        match self.status {
            CombineStatus::AwaitDestination => match event {
                CombineEvent::Probed { exists } => if exists {
                    CombineView {
                        status: CombineStatus::Failed(CombineError::DestinationExists),
                        ..self
                    }
                } else {
                    CombineView { status: CombineStatus::Locating, ..self }
                },
                _ => self.fail(),
            },
            CombineStatus::Locating => match event {
                CombineEvent::Probed { exists } => self.located(self.locate.step(exists)),
                _ => self.fail(),
            },
            CombineStatus::AwaitCreate => match event {
                CombineEvent::Created => CombineView {
                    created: true,
                    status: CombineStatus::AwaitOpen,
                    ..self
                },
                _ => self.fail(),
            },
            CombineStatus::AwaitOpen => match event {
                CombineEvent::Opened => CombineView {
                    status: CombineStatus::AwaitTransfer,
                    ..self
                },
                _ => self.fail(),
            },
            CombineStatus::AwaitTransfer => match event {
                CombineEvent::Transferred { bytes_read, bytes_written } => {
                    if bytes_read > MAX_BUFFER_SIZE || bytes_written > bytes_read
                        || self.bytes_read + bytes_read > u64::MAX {
                        self.fail()
                    } else if bytes_read > 0 {
                        CombineView {
                            bytes_read: (self.bytes_read + bytes_read) as nat,
                            bytes_written: (self.bytes_written + bytes_written) as nat,
                            ..self
                        }
                    } else if self.copied + 1 < self.parts {
                        CombineView {
                            copied: self.copied + 1,
                            status: CombineStatus::AwaitOpen,
                            ..self
                        }
                    } else {
                        (CombineView { copied: self.copied + 1, ..self }).checked()
                    }
                },
                _ => self.fail(),
            },
            CombineStatus::AwaitDelete => match event {
                CombineEvent::Deleted => if self.deleted + 1 < self.parts {
                    CombineView { deleted: self.deleted + 1, ..self }
                } else {
                    CombineView { deleted: self.deleted + 1, status: CombineStatus::Done, ..self }
                },
                _ => self.fail(),
            },
            CombineStatus::Done => self,
            CombineStatus::Failed(_) => self,
        }
    }

    /// The state after the reports `events`, in order.
    pub open spec fn run(self, events: Seq<CombineEvent>) -> CombineView
        decreases events.len(),
    {
        if events.len() == 0 {
            self
        } else {
            self.run(events.drop_last()).step(events.last())
        }
    }

    /// The outcome, once the combine has ended: the number of bytes combined.
    pub open spec fn outcome(self) -> Option<Result<u64, CombineError>> {
        match self.status {
            CombineStatus::Done => Some(Ok(self.bytes_written as u64)),
            CombineStatus::Failed(e) => Some(Err(e)),
            _ => None,
        }
    }

    /// What holds of every state that a combine can reach.
    pub open spec fn inv(self) -> bool {
        &&& self.locate.inv()
        &&& self.bytes_written <= self.bytes_read <= u64::MAX
        &&& self.parts <= u64::MAX
        &&& self.copied <= self.parts
        &&& self.deleted <= self.copied
        &&& self.no_cleanup ==> self.deleted == 0
        &&& !self.created ==> self.copied == 0 && self.bytes_read == 0
        &&& self.deleted > 0 ==> self.located_parts() && self.copied == self.parts
            && self.bytes_written == self.bytes_read
        &&& match self.status {
            CombineStatus::AwaitDestination => self.locate == LocateView::start() && self.parts
                == 0 && !self.created,
            CombineStatus::Locating => self.locate.outcome() is None && self.parts == 0
                && !self.created,
            CombineStatus::AwaitCreate => self.located_parts() && !self.created,
            CombineStatus::AwaitOpen => self.located_parts() && self.copied < self.parts
                && self.deleted == 0 && self.created,
            CombineStatus::AwaitTransfer => self.located_parts() && self.copied < self.parts
                && self.deleted == 0 && self.created,
            CombineStatus::AwaitDelete => self.located_parts() && self.copied == self.parts
                && self.deleted < self.parts && !self.no_cleanup && self.bytes_written
                == self.bytes_read,
            CombineStatus::Done => self.located_parts() && self.copied == self.parts
                && self.bytes_written == self.bytes_read && (self.no_cleanup || self.deleted
                == self.parts),
            CombineStatus::Failed(e) => (refused(e) ==> !self.created) && (e is Mismatch
                ==> self.deleted == 0),
        }
    }

    /// The number of parts, once they are located.
    pub open spec fn part_count(self) -> Option<u64> {
        match self.locate.outcome() {
            Some(Ok(parts)) => Some(parts),
            _ => None,
        }
    }

    /// Whether the search has ended and found the `parts` parts of this state.
    pub open spec fn located_parts(self) -> bool {
        self.parts > 0 && self.locate.outcome() == Some(
            Ok::<u64, LocateError>(self.parts as u64),
        )
    }

    /// The stages that a combine still has before it: searching, creating,
    /// copying, deleting.
    pub open spec fn stages_left(self) -> nat {
        match self.status {
            CombineStatus::AwaitDestination => 5,
            CombineStatus::Locating => 4,
            CombineStatus::AwaitCreate => 3,
            CombineStatus::AwaitOpen => 2,
            CombineStatus::AwaitTransfer => 2,
            CombineStatus::AwaitDelete => 1,
            CombineStatus::Done => 0,
            CombineStatus::Failed(_) => 0,
        }
    }

    /// The parts that the current stage still has before it.
    pub open spec fn parts_left(self) -> nat {
        match self.status {
            CombineStatus::AwaitOpen => (self.parts - self.copied) as nat,
            CombineStatus::AwaitTransfer => (self.parts - self.copied) as nat,
            CombineStatus::AwaitDelete => (self.parts - self.deleted) as nat,
            _ => 0,
        }
    }

    /// A bound on the reports that the current part, or the search, still
    /// takes.
    pub open spec fn reports_left(self) -> nat {
        match self.status {
            CombineStatus::Locating => self.locate.steps_left(),
            CombineStatus::AwaitOpen => (u64::MAX - self.bytes_read + 2) as nat,
            CombineStatus::AwaitTransfer => (u64::MAX - self.bytes_read + 1) as nat,
            _ => 0,
        }
    }
}

/// A combine begins in a state that satisfies the invariant.
pub proof fn lemma_combine_start_inv(no_cleanup: bool)
    ensures
        CombineView::start(no_cleanup).inv(),
{
}

/// A combine is refused when the destination is already there: it ends with
/// the first report, having asked for nothing but that probe, and asks for
/// nothing more.
pub proof fn lemma_existing_destination_refused(no_cleanup: bool)
    ensures
        CombineView::start(no_cleanup).action() == CombineAction::ProbeDestination,
        CombineView::start(no_cleanup).step(CombineEvent::Probed { exists: true }).outcome()
            == Some(Err::<u64, CombineError>(CombineError::DestinationExists)),
        CombineView::start(no_cleanup).step(CombineEvent::Probed { exists: true }).action()
            == CombineAction::Finish,
{
}

/// Whatever is reported, the invariant is kept.
pub proof fn lemma_combine_step_inv(s: CombineView, event: CombineEvent)
    requires
        s.inv(),
    ensures
        s.step(event).inv(),
{
    if let CombineEvent::Probed { exists } = event {
        lemma_locate_step(s.locate, exists);
    }
}

/// Every state that a combine reaches satisfies the invariant, whatever is
/// reported to it.
pub proof fn lemma_combine_run_inv(no_cleanup: bool, events: Seq<CombineEvent>)
    ensures
        CombineView::start(no_cleanup).run(events).inv(),
    decreases events.len(),
{
    if events.len() == 0 {
        lemma_combine_start_inv(no_cleanup);
    } else {
        lemma_combine_run_inv(no_cleanup, events.drop_last());
        lemma_combine_step_inv(
            CombineView::start(no_cleanup).run(events.drop_last()),
            events.last(),
        );
    }
}

/// Every report brings a running combine nearer to its end: a stage is over,
/// or a part is, or the bound on the reports still to come is lower. So a
/// combine ends after finitely many reports, whatever they are.
pub proof fn lemma_combine_step_progress(s: CombineView, event: CombineEvent)
    requires
        s.inv(),
        s.outcome() is None,
    ensures
        s.step(event).stages_left() < s.stages_left() || (s.step(event).stages_left()
            == s.stages_left() && (s.step(event).parts_left() < s.parts_left() || (s.step(
            event,
        ).parts_left() == s.parts_left() && s.step(event).reports_left() < s.reports_left()))),
{
    if let CombineEvent::Probed { exists } = event {
        lemma_locate_step(s.locate, exists);
    }
}

/// A combine that is refused has left the file system as it was: it has not
/// created the destination, moved no byte and deleted no part. And whatever
/// happens, parts are deleted only after the destination is complete: every
/// located part was copied to its end, and every byte read was written.
pub proof fn lemma_refusal_changes_nothing(s: CombineView)
    requires
        s.inv(),
    ensures
        s.outcome() is Some && s.outcome()->Some_0 is Err && refused(s.outcome()->Some_0->Err_0)
            ==> !s.created && s.bytes_written == 0 && s.copied == 0 && s.deleted == 0,
        s.action() is DeletePart || s.deleted > 0 ==> s.created && s.copied == s.parts
            && s.bytes_written == s.bytes_read && s.part_count() == Some(s.parts as u64),
        s.outcome() is Some && s.outcome()->Some_0 is Err && s.outcome()->Some_0->Err_0
            is Mismatch ==> s.deleted == 0,
{
}

/// A combine that succeeds has copied every part that was located and
/// written every byte that it read. It has then deleted every part, unless
/// the parts were to be kept: then it has deleted none, nor ever asks to.
pub proof fn lemma_combine_success(s: CombineView)
    requires
        s.inv(),
    ensures
        s.no_cleanup ==> s.deleted == 0 && !(s.action() is DeletePart),
        s.outcome() is Some && s.outcome()->Some_0 is Ok ==> {
            &&& s.locate.outcome() == Some(Ok::<u64, LocateError>(s.parts as u64))
            &&& s.copied == s.parts
            &&& s.bytes_written == s.bytes_read
            &&& s.outcome()->Some_0->Ok_0 == s.bytes_written
            &&& !s.no_cleanup ==> s.deleted == s.parts
        },
{
}

/// A combine under way: the executable state machine.
///
/// It is made by `begin`, asked for the pending action with `action`, and
/// moved on with `advance` after the caller has performed that action. When
/// the action is `Finish`, `outcome` gives the result.
pub struct Combiner {
    no_cleanup: bool,
    locator: Locator,
    parts: u64,
    created: bool,
    copied: u64,
    deleted: u64,
    bytes_read: u64,
    bytes_written: u64,
    status: CombineStatus,
}

impl View for Combiner {
    type V = CombineView;

    closed spec fn view(&self) -> CombineView {
        CombineView {
            no_cleanup: self.no_cleanup,
            locate: self.locator@,
            parts: self.parts as nat,
            created: self.created,
            copied: self.copied as nat,
            deleted: self.deleted as nat,
            bytes_read: self.bytes_read as nat,
            bytes_written: self.bytes_written as nat,
            status: self.status,
        }
    }
}

impl Combiner {
    #[verifier::type_invariant]
    spec fn wf(&self) -> bool {
        self@.inv()
    }

    /// Begins a combine; `no_cleanup` says whether the parts are to be kept.
    /// Nothing has been asked of the file system when this returns.
    pub fn begin(no_cleanup: bool) -> (begun: Combiner)
        ensures
            begun@ == CombineView::start(no_cleanup),
            begun@.inv(),
    {
        Combiner {
            no_cleanup,
            locator: Locator::begin(),
            parts: 0,
            created: false,
            copied: 0,
            deleted: 0,
            bytes_read: 0,
            bytes_written: 0,
            status: CombineStatus::AwaitDestination,
        }
    }

    /// The action that the caller has to perform now.
    pub fn action(&self) -> (act: CombineAction)
        ensures
            act == self@.action(),
    {
        match self.status {
            CombineStatus::AwaitDestination => CombineAction::ProbeDestination,
            CombineStatus::Locating => {
                proof {
                    use_type_invariant(self);
                }
                match self.locator.action() {
                    LocateAction::Probe { index } => CombineAction::Probe { index },
                    LocateAction::Finish => unreached(),
                }
            },
            CombineStatus::AwaitCreate => CombineAction::CreateDestination,
            CombineStatus::AwaitOpen => CombineAction::OpenPart { index: self.copied },
            CombineStatus::AwaitTransfer => CombineAction::Transfer {
                index: self.copied,
                max_len: MAX_BUFFER_SIZE,
            },
            CombineStatus::AwaitDelete => CombineAction::DeletePart { index: self.deleted },
            CombineStatus::Done => CombineAction::Finish,
            CombineStatus::Failed(_) => CombineAction::Finish,
        }
    }

    /// This state with another status and other counts of parts.
    fn with(self, status: CombineStatus, copied: u64, deleted: u64) -> (next: Combiner)
        requires
            (CombineView { status, copied: copied as nat, deleted: deleted as nat, ..self@ }).inv(),
        ensures
            next@ == (CombineView {
                status,
                copied: copied as nat,
                deleted: deleted as nat,
                ..self@
            }),
    {
        Combiner {
            no_cleanup: self.no_cleanup,
            locator: self.locator,
            parts: self.parts,
            created: self.created,
            copied,
            deleted,
            bytes_read: self.bytes_read,
            bytes_written: self.bytes_written,
            status,
        }
    }

    /// The state after the pending action failed.
    fn fail(self) -> (next: Combiner)
        requires
            self@.fail().inv(),
        ensures
            next@ == self@.fail(),
    {
        let action = self.action();
        let copied = self.copied;
        let deleted = self.deleted;
        self.with(CombineStatus::Failed(CombineError::Io { action }), copied, deleted)
    }

    /// Moves on after the caller has performed the pending action and reports
    /// what happened.
    pub fn advance(self, event: CombineEvent) -> (next: Combiner)
        ensures
            next@ == self@.step(event),
            next@.inv(),
    {
        proof {
            use_type_invariant(&self);
            lemma_combine_step_inv(self@, event);
        }
        let copied = self.copied;
        let deleted = self.deleted;
        match self.status {
            CombineStatus::AwaitDestination => match event {
                CombineEvent::Probed { exists } => {
                    if exists {
                        let refused = CombineStatus::Failed(CombineError::DestinationExists);
                        self.with(refused, copied, deleted)
                    } else {
                        self.with(CombineStatus::Locating, copied, deleted)
                    }
                },
                _ => self.fail(),
            },
            CombineStatus::Locating => match event {
                CombineEvent::Probed { exists } => {
                    let locator = self.locator.advance(exists);
                    let (parts, status) = match locator.outcome() {
                        None => (self.parts, self.status),
                        Some(Ok(parts)) => (parts, CombineStatus::AwaitCreate),
                        Some(Err(e)) => (self.parts, CombineStatus::Failed(CombineError::Parts(e))),
                    };
                    Combiner {
                        no_cleanup: self.no_cleanup,
                        locator,
                        parts,
                        created: self.created,
                        copied: self.copied,
                        deleted: self.deleted,
                        bytes_read: self.bytes_read,
                        bytes_written: self.bytes_written,
                        status,
                    }
                },
                _ => self.fail(),
            },
            CombineStatus::AwaitCreate => match event {
                CombineEvent::Created => Combiner {
                    no_cleanup: self.no_cleanup,
                    locator: self.locator,
                    parts: self.parts,
                    created: true,
                    copied: self.copied,
                    deleted: self.deleted,
                    bytes_read: self.bytes_read,
                    bytes_written: self.bytes_written,
                    status: CombineStatus::AwaitOpen,
                },
                _ => self.fail(),
            },
            CombineStatus::AwaitOpen => match event {
                CombineEvent::Opened => self.with(CombineStatus::AwaitTransfer, copied, deleted),
                _ => self.fail(),
            },
            CombineStatus::AwaitTransfer => match event {
                CombineEvent::Transferred { bytes_read, bytes_written } => {
                    if bytes_read > MAX_BUFFER_SIZE || bytes_written > bytes_read || bytes_read
                        > u64::MAX - self.bytes_read {
                        self.fail()
                    } else if bytes_read > 0 {
                        Combiner {
                            no_cleanup: self.no_cleanup,
                            locator: self.locator,
                            parts: self.parts,
                            created: self.created,
                            copied: self.copied,
                            deleted: self.deleted,
                            bytes_read: self.bytes_read + bytes_read,
                            bytes_written: self.bytes_written + bytes_written,
                            status: self.status,
                        }
                    } else if self.copied + 1 < self.parts {
                        self.with(CombineStatus::AwaitOpen, copied + 1, deleted)
                    } else if self.bytes_written != self.bytes_read {
                        let mismatch = CombineError::Mismatch {
                            bytes_read: self.bytes_read,
                            bytes_written: self.bytes_written,
                        };
                        self.with(CombineStatus::Failed(mismatch), copied + 1, deleted)
                    } else if self.no_cleanup {
                        self.with(CombineStatus::Done, copied + 1, deleted)
                    } else {
                        self.with(CombineStatus::AwaitDelete, copied + 1, deleted)
                    }
                },
                _ => self.fail(),
            },
            CombineStatus::AwaitDelete => match event {
                CombineEvent::Deleted => {
                    if self.deleted + 1 < self.parts {
                        self.with(CombineStatus::AwaitDelete, copied, deleted + 1)
                    } else {
                        self.with(CombineStatus::Done, copied, deleted + 1)
                    }
                },
                _ => self.fail(),
            },
            CombineStatus::Done => self,
            CombineStatus::Failed(_) => self,
        }
    }

    /// The number of parts that are combined: `None` until they are located.
    pub fn part_count(&self) -> (count: Option<u64>)
        ensures
            count == self@.part_count(),
    {
        match self.locator.outcome() {
            Some(Ok(parts)) => Some(parts),
            _ => None,
        }
    }

    /// The outcome of the combine: `None` while actions are pending, then the
    /// number of bytes combined, or the reason of the failure.
    pub fn outcome(&self) -> (out: Option<Result<u64, CombineError>>)
        ensures
            out == self@.outcome(),
    {
        match self.status {
            CombineStatus::Done => Some(Ok(self.bytes_written)),
            CombineStatus::Failed(e) => Some(Err(e)),
            _ => None,
        }
    }
}

} // verus!
