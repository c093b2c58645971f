//! The part locator: finds out how many numbered parts there are, from part 0
//! on without a break, and looks a little further for parts that would show
//! that some are missing.

use vstd::prelude::*;

verus! {

/// The number of indices past the last part of the run that are probed for
/// stray parts.
pub const GAP_WINDOW: u64 = 9;

/// Why no usable set of parts was found.
#[derive(Clone, Copy, Debug, PartialEq, Eq, Structural)]
pub enum LocateError {
    /// There is no part 0.
    NoPartsFound,
    /// The run of parts ends before `first_missing`, yet part `found` is
    /// there: the parts from `first_missing` up to, not including, `found`
    /// are missing.
    MissingParts { first_missing: u64, found: u64 },
    /// Every index that can be written has a part.
    TooManyParts,
}

/// What the caller has to do next.
#[derive(Clone, Copy, Debug, PartialEq, Eq, Structural)]
pub enum LocateAction {
    /// Find out whether the file of part `index` is there.
    Probe { index: u64 },
    /// Nothing more: the outcome is ready.
    Finish,
}

/// How far the search has come.
#[derive(Clone, Copy, Debug, PartialEq, Eq, Structural)]
pub enum LocateStatus {
    /// Following the run of parts from part 0.
    Scanning,
    /// Past the end of the run, looking for stray parts.
    Checking,
    /// Over: the parts of the run are all there are.
    Located,
    /// Over: the parts cannot be used.
    Refused(LocateError),
}

/// Whether a listing says that part `index` is there. A listing says of each
/// index below its length whether that part exists; no part exists beyond it.
pub open spec fn is_present(present: Seq<bool>, index: nat) -> bool {
    index < present.len() && present[index as int]
}

/// The first index from `start` on whose part is not there.
pub open spec fn run_end(present: Seq<bool>, start: nat) -> nat
    decreases present.len() - start,
{
    if is_present(present, start) {
        run_end(present, start + 1)
    } else {
        start
    }
}

/// The first index from `from` on, below `limit`, whose part is there.
pub open spec fn first_present(present: Seq<bool>, from: nat, limit: nat) -> Option<nat>
    decreases limit - from,
{
    if from >= limit {
        None
    } else if is_present(present, from) {
        Some(from)
    } else {
        first_present(present, from + 1, limit)
    }
}

/// The index at which the search for stray parts past a run of `next_part`
/// parts ends.
pub open spec fn window_end(next_part: nat) -> nat {
    next_part + GAP_WINDOW as nat
}

/// What locating the parts of a listing gives: the length of the run of parts
/// from part 0, unless that run is empty, or a part is there at one of the
/// `GAP_WINDOW` indices that follow the run.
pub open spec fn locate_spec(present: Seq<bool>) -> Result<u64, LocateError> {
    let next_part = run_end(present, 0);
    if next_part == 0 {
        Err(LocateError::NoPartsFound)
    } else {
        match first_present(present, next_part, window_end(next_part)) {
            Some(found) => Err(
                LocateError::MissingParts {
                    first_missing: next_part as u64,
                    found: found as u64,
                },
            ),
            None => Ok(next_part as u64),
        }
    }
}

/// The run that `run_end` measures is a run, and it ends where it says: every
/// part from `start` up to `run_end` is there, and the part at `run_end` is
/// not.
pub proof fn lemma_run_end(present: Seq<bool>, start: nat)
    ensures
        start <= run_end(present, start),
        start <= present.len() ==> run_end(present, start) <= present.len(),
        !is_present(present, run_end(present, start)),
        forall|i: nat| start <= i < run_end(present, start) ==> is_present(present, i),
    decreases present.len() - start,
{
    if is_present(present, start) {
        lemma_run_end(present, start + 1);
    }
}

/// `first_present` gives the first part that is there in its range, or `None`
/// exactly if there is none.
pub proof fn lemma_first_present(present: Seq<bool>, from: nat, limit: nat)
    ensures
        match first_present(present, from, limit) {
            Some(found) => from <= found < limit && is_present(present, found) && forall|i: nat|
                from <= i < found ==> !is_present(present, i),
            None => forall|i: nat| from <= i < limit ==> !is_present(present, i),
        },
    decreases limit - from,
{
    if from < limit && !is_present(present, from) {
        lemma_first_present(present, from + 1, limit);
    }
}

/// The parts that an error of the kind `MissingParts` reports as missing, in
/// ascending order.
pub open spec fn missing_spec(first_missing: u64, found: u64) -> Seq<u64> {
    Seq::new(
        if found >= first_missing {
            (found - first_missing) as nat
        } else {
            0
        },
        |i: int| (first_missing + i) as u64,
    )
}

/// Lists the parts that an error of the kind `MissingParts` reports as
/// missing, in ascending order.
pub fn missing_parts(first_missing: u64, found: u64) -> (missing: Vec<u64>)
    ensures
        missing@ == missing_spec(first_missing, found),
{
    let mut missing: Vec<u64> = Vec::new();
    let mut index: u64 = first_missing;
    while index < found
        invariant
            first_missing <= index,
            index <= found || found < first_missing,
            missing@ == missing_spec(first_missing, if index <= found { index } else { first_missing }),
        decreases found - index,
    {
        missing.push(index);
        index = index + 1;
        assert(missing@ =~= missing_spec(first_missing, index));
    }
    assert(missing@ =~= missing_spec(first_missing, found));
    missing
}

/// If parts 0 to `k` are there, the four that follow are not, and part
/// `k + 5` is there again, the parts are refused, and parts `k + 1` to
/// `k + 4` are the ones reported as missing.
pub proof fn lemma_gap_is_reported(present: Seq<bool>, k: nat)
    requires
        k + 5 <= u64::MAX,
        forall|i: nat| i <= k ==> is_present(present, i),
        forall|i: nat| k < i < k + 5 ==> !is_present(present, i),
        is_present(present, k + 5),
    ensures
        locate_spec(present) == Err::<u64, LocateError>(
            LocateError::MissingParts { first_missing: (k + 1) as u64, found: (k + 5) as u64 },
        ),
        missing_spec((k + 1) as u64, (k + 5) as u64) == seq![
            (k + 1) as u64,
            (k + 2) as u64,
            (k + 3) as u64,
            (k + 4) as u64,
        ],
{
    lemma_run_end(present, 0);
    let next_part = run_end(present, 0);
    assert(next_part == k + 1) by {
        if next_part <= k {
            assert(is_present(present, next_part));
        }
        if next_part > k + 1 {
            assert(is_present(present, k + 1));
        }
    }
    lemma_first_present(present, next_part, window_end(next_part));
    let found = first_present(present, next_part, window_end(next_part));
    assert(found == Some((k + 5) as nat)) by {
        match found {
            Some(f) => {
                if f < k + 5 {
                    assert(!is_present(present, f));
                }
                if f > k + 5 {
                    assert(!is_present(present, k + 5));
                }
            },
            None => {
                assert(!is_present(present, k + 5));
            },
        }
    }
    assert(missing_spec((k + 1) as u64, (k + 5) as u64) =~= seq![
        (k + 1) as u64,
        (k + 2) as u64,
        (k + 3) as u64,
        (k + 4) as u64,
    ]);
}

/// The state of a search for parts as a mathematical value.
pub struct LocateView {
    /// The number of parts found in the run from part 0 so far.
    pub next_part: nat,
    /// The index that is being probed.
    pub probe: nat,
    /// How far the search has come.
    pub status: LocateStatus,
}

impl LocateView {
    /// The state in which a search begins.
    pub open spec fn start() -> LocateView {
        LocateView { next_part: 0, probe: 0, status: LocateStatus::Scanning }
    }

    /// What the caller has to do in this state.
    pub open spec fn action(self) -> LocateAction {
        match self.status {
            LocateStatus::Scanning => LocateAction::Probe { index: self.probe as u64 },
            LocateStatus::Checking => LocateAction::Probe { index: self.probe as u64 },
            _ => LocateAction::Finish,
        }
    }

    /// The state after the caller reports whether the probed part exists.
    ///
    /// While the run is followed, a part that is there extends it, and the
    /// first that is not ends it: with no part at all the search is over, else
    /// the indices from the end of the run on are probed. There a part that
    /// is there shows a gap, and the search is over when the window, or the
    /// range of indices, is used up.
    pub open spec fn step(self, exists: bool) -> LocateView {
        match self.status {
            LocateStatus::Scanning => if exists {
                if self.next_part >= u64::MAX {
                    LocateView {
                        status: LocateStatus::Refused(LocateError::TooManyParts),
                        ..self
                    }
                } else {
                    LocateView { next_part: self.next_part + 1, probe: self.probe + 1, ..self }
                }
            } else if self.next_part == 0 {
                LocateView { status: LocateStatus::Refused(LocateError::NoPartsFound), ..self }
            } else {
                LocateView { status: LocateStatus::Checking, ..self }
            },
            LocateStatus::Checking => if exists {
                LocateView {
                    status: LocateStatus::Refused(
                        LocateError::MissingParts {
                            first_missing: self.next_part as u64,
                            found: self.probe as u64,
                        },
                    ),
                    ..self
                }
            } else if self.probe + 1 >= window_end(self.next_part) || self.probe >= u64::MAX {
                LocateView { status: LocateStatus::Located, ..self }
            } else {
                LocateView { probe: self.probe + 1, ..self }
            },
            _ => self,
        }
    }

    /// The state after the reports `reports`, in order.
    pub open spec fn run(self, reports: Seq<bool>) -> LocateView
        decreases reports.len(),
    {
        if reports.len() == 0 {
            self
        } else {
            self.run(reports.drop_last()).step(reports.last())
        }
    }

    /// The outcome, once the search is over: the number of parts.
    pub open spec fn outcome(self) -> Option<Result<u64, LocateError>> {
        match self.status {
            LocateStatus::Located => Some(Ok(self.next_part as u64)),
            LocateStatus::Refused(e) => Some(Err(e)),
            _ => None,
        }
    }

    /// What holds of every state that a search can reach.
    pub open spec fn inv(self) -> bool {
        &&& self.probe <= u64::MAX
        &&& self.next_part <= self.probe
        &&& match self.status {
            LocateStatus::Scanning => self.probe == self.next_part,
            LocateStatus::Checking => 0 < self.next_part && self.probe < window_end(
                self.next_part,
            ),
            LocateStatus::Located => 0 < self.next_part,
            LocateStatus::Refused(_) => true,
        }
    }

    /// A bound on the number of reports that the search still takes.
    pub open spec fn steps_left(self) -> nat {
        match self.status {
            LocateStatus::Scanning => (u64::MAX - self.next_part + GAP_WINDOW + 1) as nat,
            LocateStatus::Checking => (window_end(self.next_part) - self.probe) as nat,
            _ => 0,
        }
    }

    /// Whether this state is one that a search of the listing `present` can
    /// be in: what it has found is what the listing says, and once it is
    /// over, its outcome is what locating the parts of the listing gives.
    pub open spec fn agrees(self, present: Seq<bool>) -> bool {
        match self.status {
            LocateStatus::Scanning => run_end(present, 0) == run_end(present, self.next_part),
            LocateStatus::Checking => run_end(present, 0) == self.next_part && first_present(
                present,
                self.next_part,
                window_end(self.next_part),
            ) == first_present(present, self.probe, window_end(self.next_part)),
            _ => self.outcome() == Some(locate_spec(present)),
        }
    }
}

/// Whatever is reported, the invariant is kept, and a search that is not over
/// comes nearer to its end: it ends after finitely many reports.
pub proof fn lemma_locate_step(s: LocateView, exists: bool)
    requires
        s.inv(),
    ensures
        s.step(exists).inv(),
        s.outcome() is None ==> s.step(exists).steps_left() < s.steps_left(),
{
}

/// Every state that a search reaches satisfies the invariant, whatever is
/// reported to it.
pub proof fn lemma_locate_run_inv(reports: Seq<bool>)
    ensures
        LocateView::start().run(reports).inv(),
    decreases reports.len(),
{
    if reports.len() > 0 {
        lemma_locate_run_inv(reports.drop_last());
        lemma_locate_step(LocateView::start().run(reports.drop_last()), reports.last());
    }
}

/// A search that is told what a listing says stays in agreement with the
/// listing: when it is over, its outcome is `locate_spec` of the listing.
pub proof fn lemma_locate_step_agrees(s: LocateView, present: Seq<bool>)
    requires
        s.inv(),
        s.agrees(present),
        present.len() <= u64::MAX,
    ensures
        s.step(is_present(present, s.probe)).agrees(present),
{
    lemma_run_end(present, 0);
    match s.status {
        LocateStatus::Scanning => {
            if !is_present(present, s.probe) && s.next_part > 0 {
                assert(first_present(present, s.next_part, window_end(s.next_part))
                    == first_present(present, s.probe, window_end(s.next_part)));
            }
        },
        LocateStatus::Checking => {
            lemma_first_present(present, s.probe, window_end(s.next_part));
            if !is_present(present, s.probe) && s.probe >= u64::MAX {
                lemma_first_present(present, s.probe + 1, window_end(s.next_part));
            }
        },
        _ => {},
    }
}

/// A search for parts under way: the executable state machine.
///
/// It is made by `begin`, asked for the pending action with `action`, and
/// moved on with `advance` after the caller has probed the file system. When
/// the action is `Finish`, `outcome` gives the result.
pub struct Locator {
    next_part: u64,
    probe: u64,
    status: LocateStatus,
}

impl View for Locator {
    type V = LocateView;

    closed spec fn view(&self) -> LocateView {
        LocateView {
            next_part: self.next_part as nat,
            probe: self.probe as nat,
            status: self.status,
        }
    }
}

impl Locator {
    #[verifier::type_invariant]
    spec fn wf(&self) -> bool {
        self@.inv()
    }

    /// Begins a search for parts.
    pub fn begin() -> (begun: Locator)
        ensures
            begun@ == LocateView::start(),
            begun@.inv(),
    {
        Locator { next_part: 0, probe: 0, status: LocateStatus::Scanning }
    }

    /// The action that the caller has to perform now.
    pub fn action(&self) -> (act: LocateAction)
        ensures
            act == self@.action(),
    {
        match self.status {
            LocateStatus::Scanning => LocateAction::Probe { index: self.probe },
            LocateStatus::Checking => LocateAction::Probe { index: self.probe },
            _ => LocateAction::Finish,
        }
    }

    /// Moves on after the caller has probed the part that `action` named and
    /// reports whether it exists.
    pub fn advance(self, exists: bool) -> (next: Locator)
        ensures
            next@ == self@.step(exists),
            next@.inv(),
    {
        proof {
            use_type_invariant(&self);
            lemma_locate_step(self@, exists);
        }
        match self.status {
            LocateStatus::Scanning => {
                if exists {
                    if self.next_part == u64::MAX {
                        Locator {
                            next_part: self.next_part,
                            probe: self.probe,
                            status: LocateStatus::Refused(LocateError::TooManyParts),
                        }
                    } else {
                        Locator {
                            next_part: self.next_part + 1,
                            probe: self.probe + 1,
                            status: self.status,
                        }
                    }
                } else if self.next_part == 0 {
                    Locator {
                        next_part: self.next_part,
                        probe: self.probe,
                        status: LocateStatus::Refused(LocateError::NoPartsFound),
                    }
                } else {
                    Locator {
                        next_part: self.next_part,
                        probe: self.probe,
                        status: LocateStatus::Checking,
                    }
                }
            },
            LocateStatus::Checking => {
                if exists {
                    Locator {
                        next_part: self.next_part,
                        probe: self.probe,
                        status: LocateStatus::Refused(
                            LocateError::MissingParts {
                                first_missing: self.next_part,
                                found: self.probe,
                            },
                        ),
                    }
                } else if self.probe - self.next_part >= GAP_WINDOW - 1 || self.probe == u64::MAX {
                    Locator {
                        next_part: self.next_part,
                        probe: self.probe,
                        status: LocateStatus::Located,
                    }
                } else {
                    Locator {
                        next_part: self.next_part,
                        probe: self.probe + 1,
                        status: self.status,
                    }
                }
            },
            _ => self,
        }
    }

    /// The outcome of the search: `None` while probes are pending, then the
    /// number of parts, or the reason why the parts cannot be used.
    pub fn outcome(&self) -> (out: Option<Result<u64, LocateError>>)
        ensures
            out == self@.outcome(),
    {
        match self.status {
            LocateStatus::Located => Some(Ok(self.next_part)),
            LocateStatus::Refused(e) => Some(Err(e)),
            _ => None,
        }
    }
}

/// Locates the parts of a listing: `present[i]` says whether part `i` exists,
/// and no part exists beyond the listing.
pub fn locate_in(present: &Vec<bool>) -> (located: Result<u64, LocateError>)
    ensures
        located == locate_spec(present@),
{
    let mut locator = Locator::begin();
    let len: usize = present.len();
    loop
        invariant
            locator@.inv(),
            locator@.agrees(present@),
            present@.len() == len,
        ensures
            locator@.outcome() == Some(locate_spec(present@)),
        decreases locator@.steps_left(),
    {
        match locator.action() {
            LocateAction::Probe { index } => {
                let exists = index < len as u64 && present[index as usize];
                proof {
                    lemma_locate_step(locator@, exists);
                    lemma_locate_step_agrees(locator@, present@);
                }
                locator = locator.advance(exists);
            },
            LocateAction::Finish => {
                break ;
            },
        }
    }
    match locator.outcome() {
        Some(located) => located,
        None => unreached(),
    }
}

} // verus!
