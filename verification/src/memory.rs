//! Splitting and combining in memory: the state machines driven over byte
//! vectors in place of files, with every read and write carried out in full.
//! What they give is what the layout says.

use crate::combine::{
    lemma_combine_step_progress, CombineAction, CombineError, CombineEvent, CombineStatus,
    CombineView, Combiner,
};
use crate::layout::{
    lemma_part_start_ordered, lemma_round_trip, part_bytes, part_start, parts_of,
};
use crate::locate::{
    is_present, lemma_first_present, lemma_gap_is_reported, lemma_locate_step_agrees,
    lemma_run_end, locate_spec, missing_spec, run_end, window_end, LocateError,
};
use crate::planner::{lemma_ceil_div_covers, plan_spec, PlanError};
use crate::split::{
    lemma_step_progress, SplitAction, SplitError, SplitEvent, SplitPhase, SplitView, Splitter,
};
use vstd::prelude::*;

verus! {

/// The contents of the given byte vectors, in order.
pub open spec fn contents(parts: Seq<Vec<u8>>) -> Seq<Seq<u8>> {
    Seq::new(parts.len(), |i: int| parts[i]@)
}

/// What splitting `data` into `count` parts gives: the planned parts, or the
/// reason why the split is refused: an unacceptable count first, then parts
/// that are too small, then a part 0 that is already there.
pub open spec fn split_spec(data: Seq<u8>, count: nat, part_zero_exists: bool) -> Result<
    Seq<Seq<u8>>,
    SplitError,
> {
    match plan_spec(data.len(), count) {
        Err(PlanError::InvalidCount) => Err(SplitError::InvalidCount),
        Err(PlanError::PartTooSmall { part_size }) => Err(SplitError::PartTooSmall { part_size }),
        Ok(part_size) => if part_zero_exists {
            Err(SplitError::AlreadySplit)
        } else {
            Ok(parts_of(data, part_size, count))
        },
    }
}

/// Whether a split of `data` that is in state `s`, having taken `pos` bytes
/// from it, has put the right bytes into the parts `closed` that it has
/// closed and into the part `open` that it is filling or has just filled.
spec fn on_track(
    s: SplitView,
    data: Seq<u8>,
    part_zero_exists: bool,
    pos: nat,
    closed: Seq<Seq<u8>>,
    open: Seq<u8>,
) -> bool {
    let len = data.len();
    let size = s.part_size;
    &&& pos <= len
    &&& s.bytes_read == pos
    &&& s.bytes_written == pos
    &&& closed == parts_of(data, size, closed.len())
    &&& match s.phase {
        SplitPhase::AwaitSize => pos == 0 && closed.len() == 0,
        SplitPhase::AwaitProbe => s.file_size == len && pos == 0 && closed.len() == 0,
        SplitPhase::AwaitOpen => s.file_size == len && pos == 0 && closed.len() == 0
            && !part_zero_exists,
        SplitPhase::AwaitCreate => s.file_size == len && !part_zero_exists && pos == part_start(
            len,
            size,
            s.part,
        ) && if s.part == 0 {
            closed.len() == 0
        } else {
            closed.len() == s.part - 1 && open == part_bytes(data, size, (s.part - 1) as nat)
        },
        SplitPhase::AwaitTransfer => s.file_size == len && !part_zero_exists && closed.len()
            == s.part && pos == part_start(len, size, s.part) + s.current && s.current
            + s.remaining == size && open == data.subrange(
            part_start(len, size, s.part) as int,
            pos as int,
        ),
        SplitPhase::Done => s.file_size == len && !part_zero_exists && closed.len() == s.part
            - 1 && open == part_bytes(data, size, (s.part - 1) as nat),
        SplitPhase::Failed(e) => split_spec(data, s.count, part_zero_exists) == Err::<
            Seq<Seq<u8>>,
            SplitError,
        >(e),
    }
}

/// A transfer that is carried out in full keeps the split on track: the bytes
/// that it moves are the next bytes of the part that is being filled, and a
/// part is closed exactly when it holds what the layout gives it.
proof fn lemma_transfer_on_track(
    s: SplitView,
    data: Seq<u8>,
    part_zero_exists: bool,
    pos: nat,
    closed: Seq<Seq<u8>>,
    open: Seq<u8>,
    moved: nat,
)
    requires
        s.inv(),
        s.phase == SplitPhase::AwaitTransfer,
        on_track(s, data, part_zero_exists, pos, closed, open),
        pos + moved <= data.len(),
        moved <= s.chunk(),
        moved == 0 ==> pos == data.len(),
    ensures
        on_track(
            s.step(SplitEvent::Transferred { bytes_read: moved as u64, bytes_written: moved as u64 }),
            data,
            part_zero_exists,
            pos + moved,
            closed,
            open + data.subrange(pos as int, (pos + moved) as int),
        ),
{
    let len = data.len();
    let size = s.part_size;
    let t = s.step(SplitEvent::Transferred { bytes_read: moved as u64, bytes_written: moved as u64 });
    let filled = open + data.subrange(pos as int, (pos + moved) as int);
    let from = part_start(len, size, s.part);
    lemma_part_start_ordered(len, size, s.part);
    assert((s.part + 1) * size == s.part * size + size) by (nonlinear_arith);
    assert(filled =~= data.subrange(from as int, (pos + moved) as int));
    if t.phase != SplitPhase::AwaitTransfer {
        assert(pos + moved == part_start(len, size, s.part + 1));
        assert(filled == part_bytes(data, size, s.part));
        if s.part + 1 == s.count {
            lemma_ceil_div_covers(len, s.count);
            assert(s.count * size == size * s.count) by (nonlinear_arith);
        }
    }
}

/// Splits `data` into `count` parts in memory. `part_zero_exists` says
/// whether a part 0 is taken to be there already.
pub fn split_bytes(data: &Vec<u8>, count: u64, part_zero_exists: bool) -> (split: Result<
    Vec<Vec<u8>>,
    SplitError,
>)
    ensures
        match split {
            Ok(parts) => split_spec(data@, count as nat, part_zero_exists) == Ok::<
                Seq<Seq<u8>>,
                SplitError,
            >(contents(parts@)),
            Err(e) => split_spec(data@, count as nat, part_zero_exists) == Err::<
                Seq<Seq<u8>>,
                SplitError,
            >(e),
        },
{
    let len: usize = data.len();
    let mut splitter = Splitter::begin(count);
    let mut parts: Vec<Vec<u8>> = Vec::new();
    let mut open: Vec<u8> = Vec::new();
    let mut pos: usize = 0;
    proof {
        assert(contents(parts@) =~= parts_of(data@, 0, 0));
    }
    loop
        invariant
            len == data@.len(),
            splitter@.inv(),
            splitter@.count == count,
            on_track(splitter@, data@, part_zero_exists, pos as nat, contents(parts@), open@),
        ensures
            splitter@.outcome() is Some,
        decreases
                splitter@.preliminaries_left(),
                splitter@.parts_left(),
                splitter@.creation_due(),
                splitter@.remaining,
    {
        let ghost before = splitter@;
        let ghost size = before.part_size;
        match splitter.action() {
            SplitAction::MeasureSource => {
                let event = SplitEvent::Measured { file_size: len as u64 };
                proof {
                    lemma_step_progress(before, event);
                    assert(contents(parts@) =~= parts_of(data@, before.step(event).part_size, 0));
                }
                splitter = splitter.advance(event);
            },
            SplitAction::Probe { index } => {
                let event = SplitEvent::Probed { exists: part_zero_exists };
                proof {
                    lemma_step_progress(before, event);
                }
                splitter = splitter.advance(event);
            },
            SplitAction::OpenSource => {
                proof {
                    lemma_step_progress(before, SplitEvent::Opened);
                    lemma_part_start_ordered(len as nat, size, 0);
                }
                splitter = splitter.advance(SplitEvent::Opened);
            },
            SplitAction::CreatePart { index } => {
                proof {
                    lemma_step_progress(before, SplitEvent::Created);
                }
                if index > 0 {
                    let ghost closed = contents(parts@);
                    parts.push(open);
                    assert(contents(parts@) =~= closed.push(open@));
                    assert(closed.push(open@) =~= parts_of(data@, size, index as nat));
                }
                open = Vec::new();
                splitter = splitter.advance(SplitEvent::Created);
                assert(open@ =~= data@.subrange(pos as int, pos as int));
            },
            SplitAction::Transfer { index, max_len } => {
                let left: usize = len - pos;
                let moved: usize = if max_len < left as u64 {
                    max_len as usize
                } else {
                    left
                };
                let ghost filled = open@;
                let mut copied: usize = 0;
                while copied < moved
                    invariant
                        copied <= moved,
                        pos + moved <= len,
                        len == data@.len(),
                        open@ == filled + data@.subrange(pos as int, pos + copied),
                    decreases moved - copied,
                {
                    open.push(data[pos + copied]);
                    copied = copied + 1;
                    assert(open@ =~= filled + data@.subrange(pos as int, pos + copied));
                }
                let event = SplitEvent::Transferred {
                    bytes_read: moved as u64,
                    bytes_written: moved as u64,
                };
                proof {
                    lemma_step_progress(before, event);
                    lemma_transfer_on_track(
                        before,
                        data@,
                        part_zero_exists,
                        pos as nat,
                        contents(parts@),
                        filled,
                        moved as nat,
                    );
                }
                pos = pos + moved;
                splitter = splitter.advance(event);
            },
            SplitAction::Finish => {
                break ;
            },
        }
    }
    match splitter.outcome() {
        Some(Ok(_)) => {
            let ghost closed = contents(parts@);
            let ghost size = splitter@.part_size;
            parts.push(open);
            proof {
                assert(contents(parts@) =~= closed.push(open@));
                assert(closed.push(open@) =~= parts_of(data@, size, count as nat));
            }
            Ok(parts)
        },
        Some(Err(e)) => Err(e),
        None => unreached(),
    }
}

/// What a listing of part files says of each index: whether the part exists.
pub open spec fn listing(parts: Seq<Option<Vec<u8>>>) -> Seq<bool> {
    Seq::new(parts.len(), |i: int| parts[i] is Some)
}

/// The first `count` parts of a listing, put together in order.
pub open spec fn joined(parts: Seq<Option<Vec<u8>>>, count: nat) -> Seq<u8> {
    Seq::new(count, |i: int| parts[i]->Some_0@).flatten()
}

/// What a combine in memory leaves behind.
pub struct Combined {
    /// The contents of the destination.
    pub data: Vec<u8>,
    /// The number of parts deleted, from part 0 on.
    pub deleted: u64,
}

/// What combining the parts of a listing gives: the contents of the
/// destination and the number of parts deleted, from part 0 on; or the reason
/// why the combine is refused. A destination that is already there is
/// refused first, then parts that cannot be used.
pub open spec fn combine_spec(
    parts: Seq<Option<Vec<u8>>>,
    destination_exists: bool,
    no_cleanup: bool,
) -> Result<(Seq<u8>, nat), CombineError> {
    if destination_exists {
        Err(CombineError::DestinationExists)
    } else {
        match locate_spec(listing(parts)) {
            Err(e) => Err(CombineError::Parts(e)),
            Ok(count) => Ok(
                (
                    joined(parts, count as nat),
                    if no_cleanup {
                        0
                    } else {
                        count as nat
                    },
                ),
            ),
        }
    }
}

/// Whether the parts of the listing were located as the `count` parts of the
/// state: they are what locating gives, and each of them is there.
spec fn located(parts: Seq<Option<Vec<u8>>>, count: nat) -> bool {
    &&& locate_spec(listing(parts)) == Ok::<u64, LocateError>(count as u64)
    &&& count <= parts.len()
    &&& count <= u64::MAX
    &&& forall|i: int| 0 <= i < count ==> parts[i] is Some
}

/// Whether a combine of the listing `parts` that is in state `c` has put the
/// right bytes into the destination `data`, having taken `offset` bytes from
/// the part that it is copying.
spec fn in_step(
    c: CombineView,
    parts: Seq<Option<Vec<u8>>>,
    destination_exists: bool,
    data: Seq<u8>,
    offset: nat,
) -> bool {
    &&& c.bytes_read == data.len()
    &&& c.bytes_written == data.len()
    &&& c.status != CombineStatus::AwaitDestination && !(c.status is Failed)
        ==> !destination_exists
    &&& match c.status {
        CombineStatus::AwaitDestination => data.len() == 0,
        CombineStatus::Locating => c.locate.agrees(listing(parts)) && data.len() == 0,
        CombineStatus::AwaitCreate => located(parts, c.parts) && data.len() == 0,
        CombineStatus::AwaitOpen => located(parts, c.parts) && data == joined(parts, c.copied),
        CombineStatus::AwaitTransfer => located(parts, c.parts) && offset
            <= parts[c.copied as int]->Some_0@.len() && data == joined(parts, c.copied)
            + parts[c.copied as int]->Some_0@.subrange(0, offset as int),
        CombineStatus::AwaitDelete => located(parts, c.parts) && data == joined(parts, c.parts),
        CombineStatus::Done => located(parts, c.parts) && data == joined(parts, c.parts),
        CombineStatus::Failed(e) => combine_spec(parts, destination_exists, c.no_cleanup)
            == Err::<(Seq<u8>, nat), CombineError>(e),
    }
}

/// A probe that is answered as the listing says keeps the combine in step.
proof fn lemma_probe_in_step(c: CombineView, parts: Seq<Option<Vec<u8>>>, data: Seq<u8>)
    requires
        c.inv(),
        c.status == CombineStatus::Locating,
        in_step(c, parts, false, data, 0),
        parts.len() <= u64::MAX,
    ensures
        in_step(
            c.step(CombineEvent::Probed { exists: is_present(listing(parts), c.locate.probe) }),
            parts,
            false,
            data,
            0,
        ),
{
    let present = listing(parts);
    let next = c.step(CombineEvent::Probed { exists: is_present(present, c.locate.probe) });
    lemma_locate_step_agrees(c.locate, present);
    lemma_run_end(present, 0);
    if next.status == CombineStatus::AwaitCreate {
        assert forall|i: int| 0 <= i < next.parts implies parts[i] is Some by {
            assert(is_present(present, i as nat));
        }
    }
}

/// A part that is copied to its end extends what is joined by that part.
proof fn lemma_joined_next(parts: Seq<Option<Vec<u8>>>, count: nat)
    ensures
        joined(parts, count + 1) == joined(parts, count) + parts[count as int]->Some_0@,
{
    let head = Seq::new(count, |i: int| parts[i]->Some_0@);
    let next = parts[count as int]->Some_0@;
    assert(Seq::new(count + 1, |i: int| parts[i]->Some_0@) =~= head.push(next));
    head.lemma_flatten_push(next);
}

/// Combines the parts of a listing in memory: `parts[i]` holds the contents
/// of part `i` if that part exists, and no part exists beyond the listing.
/// `destination_exists` says whether a destination is taken to be there
/// already; `no_cleanup`, whether the parts are to be kept.
pub fn combine_parts(
    parts: &Vec<Option<Vec<u8>>>,
    destination_exists: bool,
    no_cleanup: bool,
) -> (combined: Result<Combined, CombineError>)
    ensures
        match combined {
            Ok(made) => combine_spec(parts@, destination_exists, no_cleanup) == Ok::<
                (Seq<u8>, nat),
                CombineError,
            >((made.data@, made.deleted as nat)),
            Err(e) => combine_spec(parts@, destination_exists, no_cleanup) == Err::<
                (Seq<u8>, nat),
                CombineError,
            >(e),
        },
{
    let mut combiner = Combiner::begin(no_cleanup);
    let len: usize = parts.len();
    let mut data: Vec<u8> = Vec::new();
    let mut offset: usize = 0;
    let mut deleted: u64 = 0;
    proof {
        assert(joined(parts@, 0) =~= Seq::<u8>::empty());
    }
    loop
        invariant
            len == parts@.len(),
            combiner@.inv(),
            combiner@.no_cleanup == no_cleanup,
            combiner@.deleted == deleted,
            in_step(combiner@, parts@, destination_exists, data@, offset as nat),
        ensures
            combiner@.outcome() is Some,
        decreases combiner@.stages_left(), combiner@.parts_left(), combiner@.reports_left(),
    {
        let ghost before = combiner@;
        match combiner.action() {
            CombineAction::ProbeDestination => {
                let event = CombineEvent::Probed { exists: destination_exists };
                proof {
                    lemma_combine_step_progress(before, event);
                }
                combiner = combiner.advance(event);
            },
            CombineAction::Probe { index } => {
                let exists = index < len as u64 && parts[index as usize].is_some();
                let event = CombineEvent::Probed { exists };
                proof {
                    lemma_combine_step_progress(before, event);
                    lemma_probe_in_step(before, parts@, data@);
                }
                combiner = combiner.advance(event);
                offset = 0;
            },
            CombineAction::CreateDestination => {
                proof {
                    lemma_combine_step_progress(before, CombineEvent::Created);
                    assert(joined(parts@, 0) =~= Seq::<u8>::empty());
                    assert(data@ =~= Seq::<u8>::empty());
                }
                combiner = combiner.advance(CombineEvent::Created);
            },
            CombineAction::OpenPart { index } => {
                proof {
                    lemma_combine_step_progress(before, CombineEvent::Opened);
                    assert(data@ =~= data@ + parts@[index as int]->Some_0@.subrange(0, 0));
                }
                offset = 0;
                combiner = combiner.advance(CombineEvent::Opened);
            },
            CombineAction::Transfer { index, max_len } => {
                let moved: usize = match &parts[index as usize] {
                    Some(part) => {
                        let part_len: usize = part.len();
                        let left: usize = part_len - offset;
                        let moved: usize = if max_len < left as u64 {
                            max_len as usize
                        } else {
                            left
                        };
                        let ghost filled = data@;
                        let mut copied: usize = 0;
                        while copied < moved
                            invariant
                                copied <= moved,
                                offset + moved <= part_len,
                                part_len == part@.len(),
                                data@ == filled + part@.subrange(
                                    offset as int,
                                    offset + copied,
                                ),
                            decreases moved - copied,
                        {
                            data.push(part[offset + copied]);
                            copied = copied + 1;
                            assert(data@ =~= filled + part@.subrange(
                                offset as int,
                                offset + copied,
                            ));
                        }
                        proof {
                            assert(data@ =~= joined(parts@, index as nat) + part@.subrange(
                                0,
                                offset + moved,
                            ));
                            if moved == 0 {
                                lemma_joined_next(parts@, index as nat);
                                assert(part@.subrange(0, offset as int) =~= part@);
                            }
                        }
                        moved
                    },
                    None => 0,
                };
                let total: usize = data.len();
                let event = CombineEvent::Transferred {
                    bytes_read: moved as u64,
                    bytes_written: moved as u64,
                };
                proof {
                    lemma_combine_step_progress(before, event);
                }
                offset = offset + moved;
                combiner = combiner.advance(event);
            },
            CombineAction::DeletePart { index } => {
                proof {
                    lemma_combine_step_progress(before, CombineEvent::Deleted);
                }
                deleted = deleted + 1;
                combiner = combiner.advance(CombineEvent::Deleted);
            },
            CombineAction::Finish => {
                break ;
            },
        }
    }
    match combiner.outcome() {
        Some(Ok(_)) => Ok(Combined { data, deleted }),
        Some(Err(e)) => Err(e),
        None => unreached(),
    }
}

/// A combine is refused, whatever else is asked of it, when the destination
/// is not there yet but the parts show a gap: if parts 0 to `k` are there,
/// the four that follow are not, and part `k + 5` is there again, the refusal
/// names parts `k + 1` to `k + 4` as missing.
pub proof fn lemma_gap_refuses_combine(parts: Seq<Option<Vec<u8>>>, k: nat, no_cleanup: bool)
    requires
        k + 5 < parts.len() <= u64::MAX,
        forall|i: int| 0 <= i <= k ==> parts[i] is Some,
        forall|i: int| k < i < k + 5 ==> parts[i] is None,
        parts[(k + 5) as int] is Some,
    ensures
        combine_spec(parts, false, no_cleanup) == Err::<(Seq<u8>, nat), CombineError>(
            CombineError::Parts(
                LocateError::MissingParts { first_missing: (k + 1) as u64, found: (k + 5) as u64 },
            ),
        ),
        missing_spec((k + 1) as u64, (k + 5) as u64) == seq![
            (k + 1) as u64,
            (k + 2) as u64,
            (k + 3) as u64,
            (k + 4) as u64,
        ],
{
    let present = listing(parts);
    assert forall|i: nat| i <= k implies is_present(present, i) by {
        assert(parts[i as int] is Some);
    }
    assert forall|i: nat| k < i < k + 5 implies !is_present(present, i) by {
        assert(parts[i as int] is None);
    }
    lemma_gap_is_reported(present, k);
}

/// In a listing in which every part is there, the run of parts from any index
/// ends where the listing ends.
proof fn lemma_full_listing_run(present: Seq<bool>, start: nat)
    requires
        start <= present.len(),
        forall|i: int| 0 <= i < present.len() ==> present[i],
    ensures
        run_end(present, start) == present.len(),
    decreases present.len() - start,
{
    if start < present.len() {
        assert(is_present(present, start));
        lemma_full_listing_run(present, start + 1);
    }
}

/// Combining undoes splitting. If a split of `data` into `count` parts is
/// accepted, and `parts` lists the parts that it gives and nothing else, then
/// a combine of `parts` into a destination that is not yet there gives
/// `data` back, byte for byte. It deletes all `count` parts, or none if they
/// are to be kept.
pub proof fn lemma_combine_inverts_split(
    data: Seq<u8>,
    count: nat,
    parts: Seq<Option<Vec<u8>>>,
    no_cleanup: bool,
)
    requires
        count <= u64::MAX,
        split_spec(data, count, false) is Ok,
        parts.len() == count,
        forall|i: int|
            0 <= i < count ==> parts[i] is Some && (#[trigger] parts[i])->Some_0@ == split_spec(
                data,
                count,
                false,
            )->Ok_0[i],
    ensures
        combine_spec(parts, false, no_cleanup) == Ok::<(Seq<u8>, nat), CombineError>(
            (
                data,
                if no_cleanup {
                    0
                } else {
                    count
                },
            ),
        ),
{
    let present = listing(parts);
    lemma_full_listing_run(present, 0);
    lemma_first_present(present, count, window_end(count));
    let made = split_spec(data, count, false)->Ok_0;
    assert(Seq::new(count, |i: int| parts[i]->Some_0@) =~= made);
    lemma_round_trip(data, count);
}

} // verus!
