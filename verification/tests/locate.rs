use split_file::locate::{
    locate_in, missing_parts, LocateAction, LocateError, Locator, GAP_WINDOW,
};

fn listing(present: &[u64], len: usize) -> Vec<bool> {
    let mut out = vec![false; len];
    for &i in present {
        out[i as usize] = true;
    }
    out
}

fn probes(present: &Vec<bool>) -> (Vec<u64>, Result<u64, LocateError>) {
    let mut locator = Locator::begin();
    let mut probed = Vec::new();
    loop {
        match locator.action() {
            LocateAction::Probe { index } => {
                probed.push(index);
                let exists = (index as usize) < present.len() && present[index as usize];
                assert_eq!(locator.outcome(), None);
                locator = locator.advance(exists);
            }
            LocateAction::Finish => break,
        }
    }
    (probed, locator.outcome().unwrap())
}

#[test]
fn no_parts_found_when_part_zero_is_absent() {
    assert_eq!(locate_in(&vec![]), Err(LocateError::NoPartsFound));
    assert_eq!(locate_in(&vec![false]), Err(LocateError::NoPartsFound));
    assert_eq!(locate_in(&listing(&[1, 2, 3], 4)), Err(LocateError::NoPartsFound));
    let (probed, out) = probes(&listing(&[1, 2], 3));
    assert_eq!(probed, vec![0]);
    assert_eq!(out, Err(LocateError::NoPartsFound));
}

#[test]
fn contiguous_parts_are_counted() {
    assert_eq!(locate_in(&vec![true]), Ok(1));
    assert_eq!(locate_in(&vec![true, true, true, true]), Ok(4));
    assert_eq!(locate_in(&listing(&[0, 1, 2], 20)), Ok(3));
}

#[test]
fn the_window_probes_nine_indices_past_the_run() {
    assert_eq!(GAP_WINDOW, 9);
    let (probed, out) = probes(&listing(&[0, 1, 2], 3));
    assert_eq!(probed, vec![0, 1, 2, 3, 3, 4, 5, 6, 7, 8, 9, 10, 11]);
    assert_eq!(out, Ok(3));
}

#[test]
fn gap_of_four_is_reported() {
    for k in 0..6u64 {
        let mut present: Vec<u64> = (0..=k).collect();
        present.push(k + 5);
        let list = listing(&present, (k + 6) as usize);
        assert_eq!(
            locate_in(&list),
            Err(LocateError::MissingParts { first_missing: k + 1, found: k + 5 })
        );
        assert_eq!(missing_parts(k + 1, k + 5), vec![k + 1, k + 2, k + 3, k + 4]);
    }
}

#[test]
fn stray_part_at_the_edge_of_the_window_is_seen() {
    let list = listing(&[0, 1, 10], 11);
    assert_eq!(
        locate_in(&list),
        Err(LocateError::MissingParts { first_missing: 2, found: 10 })
    );
    assert_eq!(missing_parts(2, 10), vec![2, 3, 4, 5, 6, 7, 8, 9]);
}

#[test]
fn stray_part_beyond_the_window_is_not_seen() {
    let list = listing(&[0, 1, 11], 12);
    assert_eq!(locate_in(&list), Ok(2));
}

#[test]
fn interior_gap_ends_the_run() {
    let list = listing(&[0, 1, 3, 4], 5);
    assert_eq!(
        locate_in(&list),
        Err(LocateError::MissingParts { first_missing: 2, found: 3 })
    );
    assert_eq!(missing_parts(2, 3), vec![2]);
}

#[test]
fn missing_parts_of_an_empty_range_is_empty() {
    assert_eq!(missing_parts(5, 5), Vec::<u64>::new());
    assert_eq!(missing_parts(6, 5), Vec::<u64>::new());
    assert_eq!(missing_parts(u64::MAX - 1, u64::MAX), vec![u64::MAX - 1]);
}

#[test]
fn locator_ignores_reports_once_finished() {
    let mut locator = Locator::begin();
    locator = locator.advance(false);
    assert_eq!(locator.action(), LocateAction::Finish);
    assert_eq!(locator.outcome(), Some(Err(LocateError::NoPartsFound)));
    locator = locator.advance(true);
    assert_eq!(locator.action(), LocateAction::Finish);
    assert_eq!(locator.outcome(), Some(Err(LocateError::NoPartsFound)));
}

#[test]
fn machine_and_listing_agree() {
    for bits in 0u32..(1 << 12) {
        let list: Vec<bool> = (0..12).map(|i| bits & (1 << i) != 0).collect();
        let (_, out) = probes(&list);
        assert_eq!(out, locate_in(&list));
        let run = list.iter().take_while(|p| **p).count() as u64;
        let expected = if run == 0 {
            Err(LocateError::NoPartsFound)
        } else {
            match (run..run + 9).find(|i| (*i as usize) < list.len() && list[*i as usize]) {
                Some(found) => Err(LocateError::MissingParts { first_missing: run, found }),
                None => Ok(run),
            }
        };
        assert_eq!(out, expected);
    }
}
