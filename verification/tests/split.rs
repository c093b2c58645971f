use split_file::split::{
    SplitAction, SplitError, SplitEvent, Splitter, MAX_BUFFER_SIZE,
};

/// Drives a split of a source that holds `available` bytes, each read giving
/// at most `read_limit` bytes. Returns the actions taken and the outcome.
fn run(
    file_size: u64,
    count: u64,
    available: u64,
    read_limit: u64,
) -> (Vec<SplitAction>, Result<Vec<u64>, SplitError>) {
    let mut splitter = Splitter::begin(count);
    let mut actions = Vec::new();
    let mut left = available;
    loop {
        let action = splitter.action();
        actions.push(action);
        match action {
            SplitAction::MeasureSource => {
                splitter = splitter.advance(SplitEvent::Measured { file_size });
            }
            SplitAction::Probe { index } => {
                assert_eq!(index, 0);
                splitter = splitter.advance(SplitEvent::Probed { exists: false });
            }
            SplitAction::OpenSource => {
                splitter = splitter.advance(SplitEvent::Opened);
            }
            SplitAction::CreatePart { .. } => {
                assert_eq!(splitter.outcome(), None);
                splitter = splitter.advance(SplitEvent::Created);
            }
            SplitAction::Transfer { max_len, .. } => {
                let n = max_len.min(left).min(read_limit);
                left -= n;
                splitter =
                    splitter.advance(SplitEvent::Transferred { bytes_read: n, bytes_written: n });
            }
            SplitAction::Finish => break,
        }
    }
    (actions, splitter.outcome().unwrap())
}

/// A split of `file_size` bytes into `count` parts that is about to create
/// its first part.
fn opened(file_size: u64, count: u64) -> Splitter {
    let splitter = Splitter::begin(count)
        .advance(SplitEvent::Measured { file_size })
        .advance(SplitEvent::Probed { exists: false })
        .advance(SplitEvent::Opened);
    assert_eq!(splitter.action(), SplitAction::CreatePart { index: 0 });
    splitter
}

/// The outcome of a split of `file_size` bytes into `count` parts after the
/// probe for part 0, and the actions up to there.
fn probed(file_size: u64, count: u64, exists: bool) -> (Vec<SplitAction>, Option<SplitError>) {
    let mut splitter = Splitter::begin(count);
    let mut actions = Vec::new();
    loop {
        let action = splitter.action();
        actions.push(action);
        splitter = match action {
            SplitAction::MeasureSource => splitter.advance(SplitEvent::Measured { file_size }),
            SplitAction::Probe { .. } => splitter.advance(SplitEvent::Probed { exists }),
            _ => break,
        };
    }
    (actions, splitter.outcome().and_then(|out| out.err()))
}

#[test]
fn split_10000_into_4_parts_of_2500() {
    let (actions, out) = run(10000, 4, 10000, u64::MAX);
    assert_eq!(out, Ok(vec![2500, 2500, 2500, 2500]));
    assert_eq!(
        actions,
        vec![
            SplitAction::MeasureSource,
            SplitAction::Probe { index: 0 },
            SplitAction::OpenSource,
            SplitAction::CreatePart { index: 0 },
            SplitAction::Transfer { index: 0, max_len: 2500 },
            SplitAction::CreatePart { index: 1 },
            SplitAction::Transfer { index: 1, max_len: 2500 },
            SplitAction::CreatePart { index: 2 },
            SplitAction::Transfer { index: 2, max_len: 2500 },
            SplitAction::CreatePart { index: 3 },
            SplitAction::Transfer { index: 3, max_len: 2500 },
            SplitAction::Finish,
        ]
    );
}

#[test]
fn split_10001_into_4_leaves_the_rest_for_the_last() {
    let (actions, out) = run(10001, 4, 10001, u64::MAX);
    assert_eq!(out, Ok(vec![2501, 2501, 2501, 2498]));
    assert_eq!(
        &actions[9..],
        &[
            SplitAction::CreatePart { index: 3 },
            SplitAction::Transfer { index: 3, max_len: 2501 },
            SplitAction::Transfer { index: 3, max_len: 3 },
            SplitAction::Finish,
        ]
    );
}

#[test]
fn sizes_of_parts_add_up_to_the_file_size() {
    for (file_size, count) in [(2048u64, 2u64), (5000, 3), (1_000_003, 7), (3_500_000, 3)] {
        for read_limit in [1u64 << 30, 4096, 1000, 333] {
            let (_, out) = run(file_size, count, file_size, read_limit);
            let sizes = out.unwrap();
            assert_eq!(sizes.len() as u64, count);
            assert_eq!(sizes.iter().sum::<u64>(), file_size);
        }
    }
}

#[test]
fn transfers_are_bounded_by_the_buffer() {
    assert_eq!(MAX_BUFFER_SIZE, 1024 * 1024);
    let (actions, out) = run(3_500_000, 3, 3_500_000, u64::MAX);
    assert_eq!(out, Ok(vec![1_166_667, 1_166_667, 1_166_666]));
    assert_eq!(
        &actions[3..7],
        &[
            SplitAction::CreatePart { index: 0 },
            SplitAction::Transfer { index: 0, max_len: 1_048_576 },
            SplitAction::Transfer { index: 0, max_len: 118_091 },
            SplitAction::CreatePart { index: 1 },
        ]
    );
}

#[test]
fn short_reads_keep_filling_the_same_part() {
    let (actions, out) = run(2048, 2, 2048, 1000);
    assert_eq!(out, Ok(vec![1024, 1024]));
    assert_eq!(
        &actions[3..8],
        &[
            SplitAction::CreatePart { index: 0 },
            SplitAction::Transfer { index: 0, max_len: 1024 },
            SplitAction::Transfer { index: 0, max_len: 24 },
            SplitAction::CreatePart { index: 1 },
            SplitAction::Transfer { index: 1, max_len: 1024 },
        ]
    );
}

#[test]
fn parts_past_the_end_of_the_source_are_created_empty() {
    let file_size = 1023 * 2000 + 1;
    let (actions, out) = run(file_size, 2000, file_size, u64::MAX);
    let sizes = out.unwrap();
    assert_eq!(sizes.len(), 2000);
    assert_eq!(sizes[0], 1024);
    assert_eq!(sizes[1997], 1024);
    assert_eq!(sizes[1998], 49);
    assert_eq!(sizes[1999], 0);
    let created = actions.iter().filter(|a| matches!(a, SplitAction::CreatePart { .. })).count();
    assert_eq!(created, 2000);
}

#[test]
fn source_shorter_than_its_size_is_a_read_mismatch() {
    let (actions, out) = run(10000, 4, 9000, u64::MAX);
    assert_eq!(out, Err(SplitError::ReadMismatch { bytes_read: 9000, file_size: 10000 }));
    let created = actions.iter().filter(|a| matches!(a, SplitAction::CreatePart { .. })).count();
    assert_eq!(created, 4);
}

#[test]
fn source_longer_than_its_size_is_a_read_mismatch() {
    let (_, out) = run(10001, 4, 20000, u64::MAX);
    assert_eq!(out, Err(SplitError::ReadMismatch { bytes_read: 10004, file_size: 10001 }));
}

#[test]
fn bytes_lost_in_writing_are_a_write_mismatch() {
    let mut splitter = opened(2048, 2);
    splitter = splitter.advance(SplitEvent::Created);
    splitter = splitter.advance(SplitEvent::Transferred { bytes_read: 1024, bytes_written: 1000 });
    assert_eq!(splitter.action(), SplitAction::CreatePart { index: 1 });
    splitter = splitter.advance(SplitEvent::Created);
    splitter = splitter.advance(SplitEvent::Transferred { bytes_read: 1024, bytes_written: 1024 });
    assert_eq!(splitter.action(), SplitAction::Finish);
    assert_eq!(
        splitter.outcome(),
        Some(Err(SplitError::WriteMismatch { bytes_written: 2024, file_size: 2048 }))
    );
}

#[test]
fn read_mismatch_is_reported_before_write_mismatch() {
    let mut splitter = opened(2048, 2);
    splitter = splitter.advance(SplitEvent::Created);
    splitter = splitter.advance(SplitEvent::Transferred { bytes_read: 1024, bytes_written: 1000 });
    splitter = splitter.advance(SplitEvent::Created);
    splitter = splitter.advance(SplitEvent::Transferred { bytes_read: 0, bytes_written: 0 });
    assert_eq!(
        splitter.outcome(),
        Some(Err(SplitError::ReadMismatch { bytes_read: 1024, file_size: 2048 }))
    );
}

#[test]
fn second_split_is_refused() {
    let asked = vec![SplitAction::MeasureSource, SplitAction::Probe { index: 0 }, SplitAction::Finish];
    assert_eq!(probed(10000, 4, true), (asked.clone(), Some(SplitError::AlreadySplit)));
    assert_eq!(probed(2048, 2, true), (asked, Some(SplitError::AlreadySplit)));
    let (actions, error) = probed(10000, 4, false);
    assert_eq!(error, None);
    assert_eq!(actions.last(), Some(&SplitAction::OpenSource));
}

#[test]
fn invalid_count_asks_nothing_of_the_file_system() {
    for count in [0, 1] {
        let splitter = Splitter::begin(count);
        assert_eq!(splitter.action(), SplitAction::Finish);
        assert_eq!(splitter.outcome(), Some(Err(SplitError::InvalidCount)));
    }
    assert_eq!(Splitter::begin(2).action(), SplitAction::MeasureSource);
    assert_eq!(Splitter::begin(2).outcome(), None);
}

#[test]
fn plan_is_checked_before_existing_parts() {
    let asked = vec![SplitAction::MeasureSource, SplitAction::Finish];
    assert_eq!(
        probed(10000, 10, true),
        (asked.clone(), Some(SplitError::PartTooSmall { part_size: 1000 }))
    );
    assert_eq!(
        probed(2046, 2, false),
        (asked.clone(), Some(SplitError::PartTooSmall { part_size: 1023 }))
    );
    assert_eq!(probed(0, 2, false), (asked, Some(SplitError::PartTooSmall { part_size: 0 })));
}

#[test]
fn fault_ends_the_split() {
    let mut splitter = Splitter::begin(4);
    splitter = splitter.advance(SplitEvent::Fault);
    assert_eq!(splitter.action(), SplitAction::Finish);
    assert_eq!(
        splitter.outcome(),
        Some(Err(SplitError::Io { action: SplitAction::MeasureSource }))
    );

    let splitter = Splitter::begin(4)
        .advance(SplitEvent::Measured { file_size: 10000 })
        .advance(SplitEvent::Fault);
    assert_eq!(
        splitter.outcome(),
        Some(Err(SplitError::Io { action: SplitAction::Probe { index: 0 } }))
    );

    let splitter = Splitter::begin(4)
        .advance(SplitEvent::Measured { file_size: 10000 })
        .advance(SplitEvent::Probed { exists: false })
        .advance(SplitEvent::Fault);
    assert_eq!(splitter.outcome(), Some(Err(SplitError::Io { action: SplitAction::OpenSource })));

    let mut splitter = opened(10000, 4);
    splitter = splitter.advance(SplitEvent::Created);
    splitter = splitter.advance(SplitEvent::Transferred { bytes_read: 2500, bytes_written: 2500 });
    splitter = splitter.advance(SplitEvent::Created);
    splitter = splitter.advance(SplitEvent::Fault);
    let failed = SplitError::Io { action: SplitAction::Transfer { index: 1, max_len: 2500 } };
    assert_eq!(splitter.outcome(), Some(Err(failed)));
    splitter = splitter.advance(SplitEvent::Created);
    assert_eq!(splitter.outcome(), Some(Err(failed)));
}

#[test]
fn impossible_reports_end_the_split() {
    let create = SplitError::Io { action: SplitAction::CreatePart { index: 0 } };
    let transfer = SplitError::Io { action: SplitAction::Transfer { index: 0, max_len: 2500 } };
    let out = opened(10000, 4)
        .advance(SplitEvent::Transferred { bytes_read: 1, bytes_written: 1 })
        .outcome();
    assert_eq!(out, Some(Err(create)));
    let out = opened(10000, 4).advance(SplitEvent::Opened).outcome();
    assert_eq!(out, Some(Err(create)));
    let out = opened(10000, 4).advance(SplitEvent::Created).advance(SplitEvent::Created).outcome();
    assert_eq!(out, Some(Err(transfer)));
    let out = opened(10000, 4)
        .advance(SplitEvent::Created)
        .advance(SplitEvent::Transferred { bytes_read: 2501, bytes_written: 2501 })
        .outcome();
    assert_eq!(out, Some(Err(transfer)));
    let out = opened(10000, 4)
        .advance(SplitEvent::Created)
        .advance(SplitEvent::Transferred { bytes_read: 10, bytes_written: 11 })
        .outcome();
    assert_eq!(out, Some(Err(transfer)));
    let out = Splitter::begin(4).advance(SplitEvent::Probed { exists: false }).outcome();
    assert_eq!(out, Some(Err(SplitError::Io { action: SplitAction::MeasureSource })));
}

#[test]
fn finished_split_ignores_reports() {
    let mut splitter = opened(2048, 2);
    for _ in 0..2 {
        splitter = splitter.advance(SplitEvent::Created);
        splitter =
            splitter.advance(SplitEvent::Transferred { bytes_read: 1024, bytes_written: 1024 });
    }
    assert_eq!(splitter.outcome(), Some(Ok(vec![1024, 1024])));
    splitter = splitter.advance(SplitEvent::Fault);
    splitter = splitter.advance(SplitEvent::Created);
    assert_eq!(splitter.action(), SplitAction::Finish);
    assert_eq!(splitter.outcome(), Some(Ok(vec![1024, 1024])));
}
