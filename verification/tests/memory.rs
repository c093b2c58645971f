use split_file::combine::CombineError;
use split_file::locate::LocateError;
use split_file::memory::{combine_parts, split_bytes, Combined};
use split_file::split::SplitError;

fn sample(len: usize) -> Vec<u8> {
    (0..len).map(|i| ((i * 31 + i / 251) % 256) as u8).collect()
}

fn store(parts: Vec<Vec<u8>>) -> Vec<Option<Vec<u8>>> {
    parts.into_iter().map(Some).collect()
}

#[test]
fn scenario_10000_bytes_in_4_parts() {
    let data = sample(10000);
    let parts = split_bytes(&data, 4, false).unwrap();
    assert_eq!(parts.iter().map(|p| p.len()).collect::<Vec<_>>(), vec![2500, 2500, 2500, 2500]);
    assert_eq!(parts[0], &data[..2500]);
    assert_eq!(parts[3], &data[7500..]);
    let Combined { data: out, deleted } = combine_parts(&store(parts), false, false).unwrap();
    assert_eq!(out.len(), 10000);
    assert_eq!(out, data);
    assert_eq!(deleted, 4);
}

#[test]
fn scenario_10001_bytes_in_4_parts() {
    let data = sample(10001);
    let parts = split_bytes(&data, 4, false).unwrap();
    assert_eq!(parts.iter().map(|p| p.len()).collect::<Vec<_>>(), vec![2501, 2501, 2501, 2498]);
    assert_eq!(parts[2], &data[5002..7503]);
    assert_eq!(parts[3], &data[7503..]);
    let Combined { data: out, deleted } = combine_parts(&store(parts), false, true).unwrap();
    assert_eq!(out.len(), 10001);
    assert_eq!(out, data);
    assert_eq!(deleted, 0);
}

#[test]
fn combine_after_split_gives_the_source_back() {
    for (len, count) in
        [(2048usize, 2u64), (2049, 2), (5000, 3), (70_000, 9), (3_000_000, 2), (2_046_001, 2000)]
    {
        let data = sample(len);
        let parts = split_bytes(&data, count, false).unwrap();
        assert_eq!(parts.len() as u64, count);
        assert_eq!(parts.iter().map(|p| p.len()).sum::<usize>(), len);
        let made = combine_parts(&store(parts), false, false).unwrap();
        assert_eq!(made.data, data);
        assert_eq!(made.deleted, count);
    }
}

#[test]
fn split_in_memory_refuses_what_the_splitter_refuses() {
    let data = sample(10000);
    assert_eq!(split_bytes(&data, 1, false), Err(SplitError::InvalidCount));
    assert_eq!(split_bytes(&data, 10, false), Err(SplitError::PartTooSmall { part_size: 1000 }));
    assert_eq!(split_bytes(&data, 4, true), Err(SplitError::AlreadySplit));
    assert_eq!(split_bytes(&vec![], 2, false), Err(SplitError::PartTooSmall { part_size: 0 }));
}

#[test]
fn combine_in_memory_refuses_an_existing_destination() {
    let parts = store(vec![vec![1, 2, 3]]);
    assert_eq!(combine_parts(&parts, true, false).err(), Some(CombineError::DestinationExists));
    assert_eq!(combine_parts(&vec![], true, true).err(), Some(CombineError::DestinationExists));
}

#[test]
fn combine_in_memory_refuses_missing_parts() {
    assert_eq!(
        combine_parts(&vec![], false, false).err(),
        Some(CombineError::Parts(LocateError::NoPartsFound))
    );
    let parts = vec![Some(vec![1u8]), Some(vec![2]), None, None, None, None, Some(vec![3])];
    assert_eq!(
        combine_parts(&parts, false, false).err(),
        Some(CombineError::Parts(LocateError::MissingParts { first_missing: 2, found: 6 }))
    );
}

#[test]
fn combine_in_memory_joins_the_run_of_parts() {
    let parts = vec![Some(vec![1u8, 2]), Some(vec![]), Some(vec![3, 4, 5]), None];
    let made = combine_parts(&parts, false, false).unwrap();
    assert_eq!(made.data, vec![1, 2, 3, 4, 5]);
    assert_eq!(made.deleted, 3);
    let kept = combine_parts(&parts, false, true).unwrap();
    assert_eq!(kept.data, vec![1, 2, 3, 4, 5]);
    assert_eq!(kept.deleted, 0);
}
