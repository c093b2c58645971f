use split_file::naming::part_name;

#[test]
fn part_names_are_pathname_dot_index() {
    assert_eq!(part_name("archive.bin", 0), "archive.bin.0");
    assert_eq!(part_name("archive.bin", 7), "archive.bin.7");
    assert_eq!(part_name("archive.bin", 10), "archive.bin.10");
    assert_eq!(part_name("dir/file", 123), "dir/file.123");
    assert_eq!(part_name("", 5), ".5");
}

#[test]
fn part_names_are_decimal_and_unpadded() {
    assert_eq!(part_name("f", 9), "f.9");
    assert_eq!(part_name("f", 100), "f.100");
    assert_eq!(part_name("f", 1002003), "f.1002003");
    assert_eq!(part_name("f", u64::MAX), "f.18446744073709551615");
    for index in 0..2000u64 {
        assert_eq!(part_name("data", index), format!("data.{}", index));
    }
}

#[test]
fn part_names_keep_characters_beyond_ascii() {
    assert_eq!(part_name("r\u{e9}sum\u{e9}", 3), "r\u{e9}sum\u{e9}.3");
}

#[test]
fn part_names_differ_with_the_index() {
    let names: std::collections::HashSet<String> =
        (0..5000u64).map(|index| part_name("file", index)).collect();
    assert_eq!(names.len(), 5000);
    assert_ne!(part_name("file", 1), part_name("file", 10));
    assert_ne!(part_name("file", 2), part_name("file", 20));
}

#[test]
fn part_ten_sorts_before_part_two_as_text() {
    assert!(part_name("file", 10) < part_name("file", 2));
}
