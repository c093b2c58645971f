//! The splitter: a state machine that decides, step by step, what a split
//! asks of the file system: the size of the source, whether the file has been
//! split before, which part file to create and how many bytes to move into
//! it. The caller performs each action and reports back what happened.

use crate::planner::{lemma_ceil_div_bounded, plan_part_size, plan_spec, PlanError};
use vstd::prelude::*;

verus! {

/// The largest number of bytes moved by one transfer.
pub const MAX_BUFFER_SIZE: u64 = 1_048_576;

/// What the caller has to do next.
#[derive(Clone, Copy, Debug, PartialEq, Eq, Structural)]
pub enum SplitAction {
    /// Find out the size of the source in bytes.
    MeasureSource,
    /// Find out whether the file of part `index` is there.
    Probe { index: u64 },
    /// Open the source for reading from its start.
    OpenSource,
    /// Create the file of part `index`, empty.
    CreatePart { index: u64 },
    /// Read at most `max_len` bytes from the source, from where the last read
    /// ended, and append them to part `index`.
    Transfer { index: u64, max_len: u64 },
    /// Nothing more: the outcome is ready.
    Finish,
}

/// What the caller reports after an action.
#[derive(Clone, Copy, Debug, PartialEq, Eq, Structural)]
pub enum SplitEvent {
    /// The source holds `file_size` bytes.
    Measured { file_size: u64 },
    /// The probed part is there, or is not.
    Probed { exists: bool },
    /// The source was opened.
    Opened,
    /// The part file was created.
    Created,
    /// The read gave `bytes_read` bytes, none at the end of the source, and
    /// `bytes_written` of them reached the part file.
    Transferred { bytes_read: u64, bytes_written: u64 },
    /// The action failed.
    Fault,
}

/// Why a split was refused or failed.
#[derive(Clone, Copy, Debug, PartialEq, Eq, Structural)]
pub enum SplitError {
    /// The requested number of parts is below two.
    InvalidCount,
    /// The parts would be smaller than the minimum; holds the size they would have.
    PartTooSmall { part_size: u64 },
    /// The first part file is already there.
    AlreadySplit,
    /// The bytes read do not add up to the size of the source.
    ReadMismatch { bytes_read: u64, file_size: u64 },
    /// The bytes written do not add up to the size of the source.
    WriteMismatch { bytes_written: u64, file_size: u64 },
    /// This action failed, or was answered with a report that no run of it
    /// can give.
    Io { action: SplitAction },
}

/// What the machine is waiting for.
#[derive(Clone, Copy, Debug, PartialEq, Eq, Structural)]
pub enum SplitPhase {
    /// The size of the source.
    AwaitSize,
    /// The report on the probe for part 0.
    AwaitProbe,
    /// The report on the opening of the source.
    AwaitOpen,
    /// The report on the creation of the current part.
    AwaitCreate,
    /// The report on a transfer into the current part.
    AwaitTransfer,
    /// Nothing: every part was written, and the byte counts are right.
    Done,
    /// Nothing: the split was given up.
    Failed(SplitError),
}

/// Whether an error is a refusal: the request itself was found unacceptable.
pub open spec fn refused(error: SplitError) -> bool {
    error is InvalidCount || error is PartTooSmall || error is AlreadySplit
}

/// The sum of the given sizes.
pub open spec fn sum_sizes(sizes: Seq<u64>) -> nat
    decreases sizes.len(),
{
    if sizes.len() == 0 {
        0
    } else {
        sum_sizes(sizes.drop_last()) + sizes.last() as nat
    }
}

/// The state of a split as a mathematical value.
pub struct SplitView {
    /// The number of parts asked for.
    pub count: nat,
    /// The size of the source, once it is measured.
    pub file_size: nat,
    /// The planned size of a part, once the source is measured.
    pub part_size: nat,
    /// The number of part files created so far.
    pub created: nat,
    /// The index of the current part; `count` when all are written.
    pub part: nat,
    /// The bytes that the current part may still take.
    pub remaining: nat,
    /// The bytes written to the current part so far.
    pub current: nat,
    /// The bytes written to each part before the current one.
    pub sizes: Seq<u64>,
    /// The bytes read from the source so far.
    pub bytes_read: nat,
    /// The bytes written to all parts so far.
    pub bytes_written: nat,
    /// What the machine is waiting for.
    pub phase: SplitPhase,
}

impl SplitView {
    /// The state in which a split into `count` parts begins: given up at
    /// once if the count is below two, else waiting for the size of the
    /// source.
    pub open spec fn start(count: nat) -> SplitView {
        SplitView {
            count,
            file_size: 0,
            part_size: 0,
            created: 0,
            part: 0,
            remaining: 0,
            current: 0,
            sizes: Seq::empty(),
            bytes_read: 0,
            bytes_written: 0,
            phase: if count <= 1 {
                SplitPhase::Failed(SplitError::InvalidCount)
            } else {
                SplitPhase::AwaitSize
            },
        }
    }

    /// The most that the next transfer may move: what the current part may
    /// still take, but no more than one buffer.
    pub open spec fn chunk(self) -> nat {
        if self.remaining <= MAX_BUFFER_SIZE {
            self.remaining
        } else {
            MAX_BUFFER_SIZE as nat
        }
    }

    /// What the caller has to do in this state.
    pub open spec fn action(self) -> SplitAction {
        match self.phase {
            SplitPhase::AwaitSize => SplitAction::MeasureSource,
            SplitPhase::AwaitProbe => SplitAction::Probe { index: 0 },
            SplitPhase::AwaitOpen => SplitAction::OpenSource,
            SplitPhase::AwaitCreate => SplitAction::CreatePart { index: self.part as u64 },
            SplitPhase::AwaitTransfer => SplitAction::Transfer {
                index: self.part as u64,
                max_len: self.chunk() as u64,
            },
            SplitPhase::Done => SplitAction::Finish,
            SplitPhase::Failed(_) => SplitAction::Finish,
        }
    }

    /// The state after the split is given up for the reason `error`.
    pub open spec fn give_up(self, error: SplitError) -> SplitView {
        SplitView { phase: SplitPhase::Failed(error), ..self }
    }

    /// The state after the pending action failed.
    pub open spec fn fail(self) -> SplitView {
        self.give_up(SplitError::Io { action: self.action() })
    }

    /// The state after the source is measured: the split is planned, and
    /// given up if the parts would be too small.
    pub open spec fn measured(self, file_size: nat) -> SplitView {
        match plan_spec(file_size, self.count) {
            Ok(part_size) => SplitView {
                file_size,
                part_size,
                phase: SplitPhase::AwaitProbe,
                ..self
            },
            Err(PlanError::InvalidCount) => self.give_up(SplitError::InvalidCount),
            Err(PlanError::PartTooSmall { part_size }) => self.give_up(
                SplitError::PartTooSmall { part_size },
            ),
        }
    }

    /// The state after the last part is closed: complete if the bytes read
    /// and the bytes written both add up to the size of the source. A
    /// mismatch of the bytes read is reported before one of the bytes
    /// written.
    pub open spec fn checked(self) -> SplitView {
        if self.bytes_read != self.file_size {
            self.give_up(
                SplitError::ReadMismatch {
                    bytes_read: self.bytes_read as u64,
                    file_size: self.file_size as u64,
                },
            )
        } else if self.bytes_written != self.file_size {
            self.give_up(
                SplitError::WriteMismatch {
                    bytes_written: self.bytes_written as u64,
                    file_size: self.file_size as u64,
                },
            )
        } else {
            SplitView { phase: SplitPhase::Done, ..self }
        }
    }

    /// The state after the current part is closed: its size is recorded, and
    /// the next part is due, or the byte counts are checked if this was the
    /// last.
    pub open spec fn close_part(self) -> SplitView {
        let closed = SplitView {
            part: self.part + 1,
            remaining: 0,
            current: 0,
            sizes: self.sizes.push(self.current as u64),
            phase: SplitPhase::AwaitCreate,
            ..self
        };
        if closed.part == closed.count {
            closed.checked()
        } else {
            closed
        }
    }

    /// The state after `event` is reported.
    ///
    /// The size of the source decides the plan. A part 0 that is there ends
    /// the split as already done. Then the source is opened, and each part
    /// in turn is created and filled: a created part may take `part_size`
    /// bytes; a transfer that read nothing closes the current part, however
    /// much it holds; one that read something is counted, and closes the part
    /// when it is full. A fault, a report that does not answer the pending
    /// action, a read of more than was asked for, a write of more than was
    /// read and a total beyond the largest size that a file can have all end
    /// the split as failed. Once the split has ended, reports change nothing.
    pub open spec fn step(self, event: SplitEvent) -> SplitView {
        match self.phase {
            SplitPhase::AwaitSize => match event {
                SplitEvent::Measured { file_size } => self.measured(file_size as nat),
                _ => self.fail(),
            },
            SplitPhase::AwaitProbe => match event {
                SplitEvent::Probed { exists } => if exists {
                    self.give_up(SplitError::AlreadySplit)
                } else {
                    SplitView { phase: SplitPhase::AwaitOpen, ..self }
                },
                _ => self.fail(),
            },
            SplitPhase::AwaitOpen => match event {
                SplitEvent::Opened => SplitView { phase: SplitPhase::AwaitCreate, ..self },
                _ => self.fail(),
            },
            SplitPhase::AwaitCreate => match event {
                SplitEvent::Created => SplitView {
                    created: self.created + 1,
                    remaining: self.part_size,
                    current: 0,
                    phase: SplitPhase::AwaitTransfer,
                    ..self
                },
                _ => self.fail(),
            },
            SplitPhase::AwaitTransfer => match event {
                SplitEvent::Transferred { bytes_read, bytes_written } => {
                    if bytes_read > self.chunk() || bytes_written > bytes_read
                        || self.bytes_read + bytes_read > u64::MAX {
                        self.fail()
                    } else if bytes_read == 0 {
                        self.close_part()
                    } else {
                        let moved = SplitView {
                            remaining: (self.remaining - bytes_read) as nat,
                            current: (self.current + bytes_written) as nat,
                            bytes_read: (self.bytes_read + bytes_read) as nat,
                            bytes_written: (self.bytes_written + bytes_written) as nat,
                            ..self
                        };
                        if moved.remaining == 0 {
                            moved.close_part()
                        } else {
                            moved
                        }
                    }
                },
                _ => self.fail(),
            },
            SplitPhase::Done => self,
            SplitPhase::Failed(_) => self,
        }
    }

    /// The state after the reports `events`, in order.
    pub open spec fn run(self, events: Seq<SplitEvent>) -> SplitView
        decreases events.len(),
    {
        if events.len() == 0 {
            self
        } else {
            self.run(events.drop_last()).step(events.last())
        }
    }

    /// The outcome, once the split has ended: the sizes of the parts written,
    /// in order, or the reason why it was given up.
    pub open spec fn outcome(self) -> Option<Result<Seq<u64>, SplitError>> {
        match self.phase {
            SplitPhase::Done => Some(Ok(self.sizes)),
            SplitPhase::Failed(e) => Some(Err(e)),
            _ => None,
        }
    }

    /// Whether the source is measured and the split planned.
    pub open spec fn planned(self) -> bool {
        plan_spec(self.file_size, self.count) == Ok::<nat, PlanError>(self.part_size)
    }

    /// What holds of every state that a split can reach.
    pub open spec fn inv(self) -> bool {
        &&& self.file_size <= u64::MAX
        &&& self.count <= u64::MAX
        &&& self.part_size <= u64::MAX
        &&& self.part <= self.count
        &&& self.sizes.len() == self.part
        &&& forall|i: int| 0 <= i < self.sizes.len() ==> self.sizes[i] <= self.part_size
        &&& sum_sizes(self.sizes) + self.current == self.bytes_written
        &&& self.bytes_written <= self.bytes_read <= u64::MAX
        &&& self.current + self.remaining <= self.part_size
        &&& self.bytes_read + self.remaining <= self.part * self.part_size + (if self.remaining
            > 0 {
            self.part_size
        } else {
            0
        })
        &&& self.part <= self.created <= self.part + 1
        &&& self.created <= self.count
        &&& self.created == 0 ==> self.bytes_read == 0
        &&& match self.phase {
            SplitPhase::AwaitSize => self.count > 1 && self.created == 0 && self.part_size == 0,
            SplitPhase::AwaitProbe => self.planned() && self.created == 0 && self.remaining == 0
                && self.current == 0,
            SplitPhase::AwaitOpen => self.planned() && self.created == 0 && self.remaining == 0
                && self.current == 0,
            SplitPhase::AwaitCreate => self.planned() && self.part < self.count
                && self.remaining == 0 && self.current == 0 && self.created == self.part,
            SplitPhase::AwaitTransfer => self.planned() && self.part < self.count
                && self.remaining > 0 && self.created == self.part + 1,
            SplitPhase::Done => self.planned() && self.part == self.count && self.remaining == 0
                && self.current == 0 && self.bytes_read == self.file_size && self.bytes_written
                == self.file_size,
            SplitPhase::Failed(e) => refused(e) ==> self.created == 0,
        }
    }

    /// The steps that a split still has before it creates its first part:
    /// measuring, probing, opening.
    pub open spec fn preliminaries_left(self) -> nat {
        match self.phase {
            SplitPhase::AwaitSize => 3,
            SplitPhase::AwaitProbe => 2,
            SplitPhase::AwaitOpen => 1,
            _ => 0,
        }
    }

    /// The number of parts that are still to be closed.
    pub open spec fn parts_left(self) -> nat {
        match self.phase {
            SplitPhase::AwaitCreate => (self.count - self.part) as nat,
            SplitPhase::AwaitTransfer => (self.count - self.part) as nat,
            _ => 0,
        }
    }

    /// One while a part is to be created, zero otherwise.
    pub open spec fn creation_due(self) -> nat {
        if self.phase == SplitPhase::AwaitCreate {
            1
        } else {
            0
        }
    }
}

/// A split is refused whenever part 0 is already there, whatever the source
/// and the count. If the plan itself is acceptable, the refusal says that the
/// file has already been split; the split has then asked for the size of the
/// source and for that one probe, and asks for nothing more. So a second
/// split never creates or writes anything.
pub proof fn lemma_already_split_refused(count: nat, file_size: u64)
    ensures
        ({
            let measured = SplitView::start(count).step(SplitEvent::Measured { file_size });
            let probed = measured.step(SplitEvent::Probed { exists: true });
            &&& probed.outcome() is Some
            &&& probed.outcome()->Some_0 is Err
            &&& probed.action() == SplitAction::Finish
            &&& plan_spec(file_size as nat, count) is Ok ==> {
                &&& SplitView::start(count).action() == SplitAction::MeasureSource
                &&& measured.action() == SplitAction::Probe { index: 0 }
                &&& probed.outcome() == Some(
                    Err::<Seq<u64>, SplitError>(SplitError::AlreadySplit),
                )
            }
        }),
{
}

/// A split begins in a state that satisfies the invariant.
pub proof fn lemma_start_inv(count: nat)
    requires
        count <= u64::MAX,
    ensures
        SplitView::start(count).inv(),
{
    assert(0 * 0 == 0) by (nonlinear_arith);
}

/// Whatever is reported, the invariant is kept.
pub proof fn lemma_step_inv(s: SplitView, event: SplitEvent)
    requires
        s.inv(),
    ensures
        s.step(event).inv(),
{
    let t = s.step(event);
    assert((s.part + 1) * s.part_size == s.part * s.part_size + s.part_size)
        by (nonlinear_arith);
    if t.sizes.len() == s.sizes.len() + 1 {
        assert(t.sizes.drop_last() =~= s.sizes);
    }
    if let SplitEvent::Measured { file_size } = event {
        if s.count > 0 {
            lemma_ceil_div_bounded(file_size as nat, s.count);
        }
        assert(0 * t.part_size == 0) by (nonlinear_arith);
        assert(0 * s.part_size == 0) by (nonlinear_arith);
    }
}

/// Every state that a split reaches satisfies the invariant, whatever is
/// reported to it.
pub proof fn lemma_run_inv(count: nat, events: Seq<SplitEvent>)
    requires
        count <= u64::MAX,
    ensures
        SplitView::start(count).run(events).inv(),
    decreases events.len(),
{
    if events.len() == 0 {
        lemma_start_inv(count);
    } else {
        lemma_run_inv(count, events.drop_last());
        lemma_step_inv(SplitView::start(count).run(events.drop_last()), events.last());
    }
}

/// Every report brings a running split nearer to its end: a preliminary step
/// is over, or a part is closed, or the part that was due is created, or the
/// current part has less room. So a split ends after finitely many reports,
/// whatever they are.
pub proof fn lemma_step_progress(s: SplitView, event: SplitEvent)
    requires
        s.inv(),
        s.outcome() is None,
    ensures
        ({
            let t = s.step(event);
            ||| t.preliminaries_left() < s.preliminaries_left()
            ||| (t.preliminaries_left() == s.preliminaries_left() && t.parts_left()
                < s.parts_left())
            ||| (t.preliminaries_left() == s.preliminaries_left() && t.parts_left()
                == s.parts_left() && t.creation_due() < s.creation_due())
            ||| (t.preliminaries_left() == s.preliminaries_left() && t.parts_left()
                == s.parts_left() && t.creation_due() == s.creation_due() && t.remaining
                < s.remaining)
        }),
{
}

/// A split that is refused has left the file system as it was: it has
/// created no part and moved no byte. And no split creates more parts than it
/// was asked for, nor a part before the one that precedes it is closed.
pub proof fn lemma_refusal_changes_nothing(s: SplitView)
    requires
        s.inv(),
    ensures
        s.created <= s.count,
        s.part <= s.created <= s.part + 1,
        s.action() is CreatePart ==> s.action()->CreatePart_index == s.created,
        s.outcome() is Some && s.outcome()->Some_0 is Err && refused(s.outcome()->Some_0->Err_0)
            ==> s.created == 0 && s.bytes_read == 0 && s.bytes_written == 0,
{
}

/// A split that succeeds has created and written every part, and the sizes of
/// the parts add up to the size of the source, as do the bytes read and the
/// bytes written.
pub proof fn lemma_success_is_complete(s: SplitView)
    requires
        s.inv(),
        s.outcome() is Some,
        s.outcome()->Some_0 is Ok,
    ensures
        s.created == s.count,
        s.outcome()->Some_0->Ok_0.len() == s.count,
        sum_sizes(s.outcome()->Some_0->Ok_0) == s.file_size,
        s.bytes_read == s.file_size,
        s.bytes_written == s.file_size,
{
}

/// A split under way: the executable state machine.
///
/// It is made by `begin`, asked for the pending action with `action`, and
/// moved on with `advance` after the caller has performed that action. When
/// the action is `Finish`, `outcome` gives the result.
pub struct Splitter {
    count: u64,
    file_size: u64,
    part_size: u64,
    created: u64,
    part: u64,
    remaining: u64,
    current: u64,
    sizes: Vec<u64>,
    bytes_read: u64,
    bytes_written: u64,
    phase: SplitPhase,
}

impl View for Splitter {
    type V = SplitView;

    closed spec fn view(&self) -> SplitView {
        SplitView {
            count: self.count as nat,
            file_size: self.file_size as nat,
            part_size: self.part_size as nat,
            created: self.created as nat,
            part: self.part as nat,
            remaining: self.remaining as nat,
            current: self.current as nat,
            sizes: self.sizes@,
            bytes_read: self.bytes_read as nat,
            bytes_written: self.bytes_written as nat,
            phase: self.phase,
        }
    }
}

impl Splitter {
    #[verifier::type_invariant]
    spec fn wf(&self) -> bool {
        self@.inv()
    }

    /// Begins a split into `count` parts. Nothing has been asked of the file
    /// system when this returns.
    pub fn begin(count: u64) -> (begun: Splitter)
        ensures
            begun@ == SplitView::start(count as nat),
            begun@.inv(),
    {
        proof {
            lemma_start_inv(count as nat);
        }
        Splitter {
            count,
            file_size: 0,
            part_size: 0,
            created: 0,
            part: 0,
            remaining: 0,
            current: 0,
            sizes: Vec::new(),
            bytes_read: 0,
            bytes_written: 0,
            phase: if count <= 1 {
                SplitPhase::Failed(SplitError::InvalidCount)
            } else {
                SplitPhase::AwaitSize
            },
        }
    }

    /// The most that the next transfer may move.
    fn chunk(&self) -> (len: u64)
        ensures
            len == self@.chunk(),
    {
        if self.remaining <= MAX_BUFFER_SIZE {
            self.remaining
        } else {
            MAX_BUFFER_SIZE
        }
    }

    /// The action that the caller has to perform now.
    pub fn action(&self) -> (act: SplitAction)
        ensures
            act == self@.action(),
    {
        match self.phase {
            SplitPhase::AwaitSize => SplitAction::MeasureSource,
            SplitPhase::AwaitProbe => SplitAction::Probe { index: 0 },
            SplitPhase::AwaitOpen => SplitAction::OpenSource,
            SplitPhase::AwaitCreate => SplitAction::CreatePart { index: self.part },
            SplitPhase::AwaitTransfer => SplitAction::Transfer {
                index: self.part,
                max_len: self.chunk(),
            },
            SplitPhase::Done => SplitAction::Finish,
            SplitPhase::Failed(_) => SplitAction::Finish,
        }
    }

    /// This state in another phase.
    fn enter(self, phase: SplitPhase) -> (next: Splitter)
        requires
            (SplitView { phase, ..self@ }).inv(),
        ensures
            next@ == (SplitView { phase, ..self@ }),
    {
        Splitter {
            count: self.count,
            file_size: self.file_size,
            part_size: self.part_size,
            created: self.created,
            part: self.part,
            remaining: self.remaining,
            current: self.current,
            sizes: self.sizes,
            bytes_read: self.bytes_read,
            bytes_written: self.bytes_written,
            phase,
        }
    }

    /// The state after the pending action failed.
    fn fail(self) -> (next: Splitter)
        ensures
            next@ == self@.fail(),
    {
        proof {
            use_type_invariant(&self);
        }
        let action = self.action();
        self.enter(SplitPhase::Failed(SplitError::Io { action }))
    }

    /// The state after the source is measured.
    fn measured(self, file_size: u64) -> (next: Splitter)
        requires
            self@.phase == SplitPhase::AwaitSize,
            self@.measured(file_size as nat).inv(),
        ensures
            next@ == self@.measured(file_size as nat),
    {
        proof {
            use_type_invariant(&self);
        }
        match plan_part_size(file_size, self.count) {
            Ok(part_size) => Splitter {
                count: self.count,
                file_size,
                part_size,
                created: self.created,
                part: self.part,
                remaining: self.remaining,
                current: self.current,
                sizes: self.sizes,
                bytes_read: self.bytes_read,
                bytes_written: self.bytes_written,
                phase: SplitPhase::AwaitProbe,
            },
            Err(PlanError::InvalidCount) => self.enter(
                SplitPhase::Failed(SplitError::InvalidCount),
            ),
            Err(PlanError::PartTooSmall { part_size }) => self.enter(
                SplitPhase::Failed(SplitError::PartTooSmall { part_size }),
            ),
        }
    }

    /// The state after a last transfer into the current part, which leaves
    /// the part with `current` bytes and the totals as given, and closes it.
    fn close_part(self, current: u64, bytes_read: u64, bytes_written: u64) -> (next: Splitter)
        requires
            self@.phase == SplitPhase::AwaitTransfer,
            (SplitView {
                remaining: 0,
                current: current as nat,
                bytes_read: bytes_read as nat,
                bytes_written: bytes_written as nat,
                ..self@
            }).close_part().inv(),
        ensures
            next@ == (SplitView {
                remaining: 0,
                current: current as nat,
                bytes_read: bytes_read as nat,
                bytes_written: bytes_written as nat,
                ..self@
            }).close_part(),
    {
        proof {
            use_type_invariant(&self);
        }
        let mut sizes = self.sizes;
        sizes.push(current);
        let part = self.part + 1;
        let phase = if part != self.count {
            SplitPhase::AwaitCreate
        } else if bytes_read != self.file_size {
            SplitPhase::Failed(
                SplitError::ReadMismatch { bytes_read, file_size: self.file_size },
            )
        } else if bytes_written != self.file_size {
            SplitPhase::Failed(
                SplitError::WriteMismatch { bytes_written, file_size: self.file_size },
            )
        } else {
            SplitPhase::Done
        };
        Splitter {
            count: self.count,
            file_size: self.file_size,
            part_size: self.part_size,
            created: self.created,
            part,
            remaining: 0,
            current: 0,
            sizes,
            bytes_read,
            bytes_written,
            phase,
        }
    }

    /// Moves on after the caller has performed the pending action and reports
    /// what happened.
    pub fn advance(self, event: SplitEvent) -> (next: Splitter)
        ensures
            next@ == self@.step(event),
            next@.inv(),
    {
        proof {
            use_type_invariant(&self);
            lemma_step_inv(self@, event);
        }
        match self.phase {
            SplitPhase::AwaitSize => match event {
                SplitEvent::Measured { file_size } => self.measured(file_size),
                _ => self.fail(),
            },
            SplitPhase::AwaitProbe => match event {
                SplitEvent::Probed { exists } => {
                    if exists {
                        self.enter(SplitPhase::Failed(SplitError::AlreadySplit))
                    } else {
                        self.enter(SplitPhase::AwaitOpen)
                    }
                },
                _ => self.fail(),
            },
            SplitPhase::AwaitOpen => match event {
                SplitEvent::Opened => self.enter(SplitPhase::AwaitCreate),
                _ => self.fail(),
            },
            SplitPhase::AwaitCreate => match event {
                SplitEvent::Created => Splitter {
                    count: self.count,
                    file_size: self.file_size,
                    part_size: self.part_size,
                    created: self.created + 1,
                    part: self.part,
                    remaining: self.part_size,
                    current: 0,
                    sizes: self.sizes,
                    bytes_read: self.bytes_read,
                    bytes_written: self.bytes_written,
                    phase: SplitPhase::AwaitTransfer,
                },
                _ => self.fail(),
            },
            SplitPhase::AwaitTransfer => match event {
                SplitEvent::Transferred { bytes_read, bytes_written } => {
                    if bytes_read > self.chunk() || bytes_written > bytes_read || bytes_read
                        > u64::MAX - self.bytes_read {
                        self.fail()
                    } else if bytes_read == 0 {
                        let current = self.current;
                        let total_read = self.bytes_read;
                        let total_written = self.bytes_written;
                        self.close_part(current, total_read, total_written)
                    } else {
                        let remaining = self.remaining - bytes_read;
                        let current = self.current + bytes_written;
                        let total_read = self.bytes_read + bytes_read;
                        let total_written = self.bytes_written + bytes_written;
                        if remaining == 0 {
                            self.close_part(current, total_read, total_written)
                        } else {
                            Splitter {
                                count: self.count,
                                file_size: self.file_size,
                                part_size: self.part_size,
                                created: self.created,
                                part: self.part,
                                remaining,
                                current,
                                sizes: self.sizes,
                                bytes_read: total_read,
                                bytes_written: total_written,
                                phase: self.phase,
                            }
                        }
                    }
                },
                _ => self.fail(),
            },
            SplitPhase::Done => self,
            SplitPhase::Failed(_) => self,
        }
    }

    /// The outcome of the split: `None` while actions are pending, then the
    /// sizes of the parts written, in order, or the reason of the failure.
    pub fn outcome(&self) -> (out: Option<Result<Vec<u64>, SplitError>>)
        ensures
            match out {
                None => self@.outcome() is None,
                Some(Ok(sizes)) => self@.outcome() == Some(
                    Ok::<Seq<u64>, SplitError>(sizes@),
                ),
                Some(Err(e)) => self@.outcome() == Some(Err::<Seq<u64>, SplitError>(e)),
            },
    {
        match self.phase {
            SplitPhase::Done => Some(Ok(self.sizes.clone())),
            SplitPhase::Failed(e) => Some(Err(e)),
            _ => None,
        }
    }
}

} // verus!
