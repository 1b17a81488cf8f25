use flint_nfs::change_counter::{
    bump, bump_path, ctime_ns, current, current_of_path, dir_change_after, dir_change_before,
    new_counters, FileStamp,
};

#[test]
fn counter_is_strictly_monotonic_even_with_tied_floors() {
    let mut map = new_counters();
    let (dev, ino) = (7, 777);
    let floor = 1_000_000_000_000;
    assert_eq!(current(&map, dev, ino, floor), floor); // untouched: floor
    bump(&mut map, dev, ino, floor);
    let a = current(&map, dev, ino, floor);
    bump(&mut map, dev, ino, floor); // SAME floor (same clock tick)
    let b = current(&map, dev, ino, floor);
    assert!(b > a, "tied ctime floors must still advance: {} !> {}", b, a);
    // A later, larger floor wins over the counter.
    let big = floor + 10_000_000_000;
    bump(&mut map, dev, ino, big);
    assert!(current(&map, dev, ino, big) > big);
}

#[test]
fn distinct_files_do_not_interfere() {
    let mut map = new_counters();
    bump(&mut map, 1, 1, 100);
    assert_eq!(current(&map, 1, 2, 50), 50);
}

fn stamp(ctime: i64, ctime_nsec: i64) -> FileStamp {
    FileStamp { dev: 3, ino: 9, ctime, ctime_nsec }
}

#[test]
fn a_counter_is_one_past_the_floor_it_was_bumped_at() {
    let mut map = new_counters();
    bump(&mut map, 3, 9, 500);
    assert_eq!(current(&map, 3, 9, 0), 501);
    bump(&mut map, 3, 9, 10);
    assert_eq!(current(&map, 3, 9, 0), 502);
    assert_eq!(current(&map, 3, 9, 9000), 9000);
}

#[test]
fn the_ctime_counts_nanoseconds() {
    assert_eq!(ctime_ns(&stamp(2, 7)), 2_000_000_007);
    assert_eq!(ctime_ns(&stamp(0, 0)), 0);
}

#[test]
fn a_path_that_is_gone_changes_nothing() {
    let mut map = new_counters();
    bump_path(&mut map, None);
    assert_eq!(current_of_path(&map, None), None);
    assert_eq!(current_of_path(&map, Some(stamp(1, 0))), Some(1_000_000_000));
    bump_path(&mut map, Some(stamp(1, 0)));
    assert_eq!(current_of_path(&map, Some(stamp(1, 0))), Some(1_000_000_001));
}

#[test]
fn a_directory_change_is_bracketed() {
    let mut map = new_counters();
    let before = dir_change_before(&map, Some(stamp(1, 0)));
    let after = dir_change_after(&mut map, Some(stamp(1, 0)), Some(stamp(1, 0)));
    assert_eq!((before, after), (1_000_000_000, 1_000_000_001));
    // The next mutation starts from where this one ended.
    assert_eq!(dir_change_before(&map, Some(stamp(1, 0))), after);
    assert_eq!(dir_change_before(&map, None), 0);
    assert_eq!(dir_change_after(&mut map, None, None), 0);
}
