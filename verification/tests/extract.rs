use llauncher::extract::{seek_target, space_needed, worker_count, worker_entries, SeekPos, MAX_EXTRACT_WORKERS};

#[test]
fn a_seek_lands_in_the_right_part() {
    let sizes = [10u64, 20, 5];
    assert_eq!(seek_target(&sizes, 35, 0, SeekPos::Start(0)), (0, 0, 0));
    assert_eq!(seek_target(&sizes, 35, 0, SeekPos::Start(10)), (10, 0, 10));
    assert_eq!(seek_target(&sizes, 35, 0, SeekPos::Start(11)), (11, 1, 1));
    assert_eq!(seek_target(&sizes, 35, 0, SeekPos::End(-2)), (33, 2, 3));
    assert_eq!(seek_target(&sizes, 35, 12, SeekPos::Current(-20)), (0, 0, 0));
    assert_eq!(seek_target(&sizes, 35, 0, SeekPos::Start(40)), (40, 3, 0));
}

#[test]
fn workers_are_bounded_by_cores_cap_and_entries() {
    assert_eq!(worker_count(16, 100), MAX_EXTRACT_WORKERS);
    assert_eq!(worker_count(4, 100), 4);
    assert_eq!(worker_count(16, 3), 3);
    assert_eq!(worker_count(16, 0), 1);
}

#[test]
fn workers_split_the_entries_between_them() {
    let mut all: Vec<usize> = Vec::new();
    for w in 0..3 {
        all.extend(worker_entries(w, 3, 10));
    }
    all.sort();
    assert_eq!(all, (0..10).collect::<Vec<_>>());
    assert_eq!(worker_entries(1, 3, 10), vec![1, 4, 7]);
}

#[test]
fn existing_files_count_against_the_space_needed() {
    assert_eq!(space_needed(100, 30, 999), 70);
    assert_eq!(space_needed(0, 30, 50), 20);
    assert_eq!(space_needed(100, 300, 0), 0);
}

#[test]
fn every_position_lands_on_its_own_byte() {
    let sizes = [4u64, 1, 7, 3];
    let total: u64 = sizes.iter().sum();
    for pos in 0..=total {
        let (p, part, off) = seek_target(&sizes, total, 0, SeekPos::Start(pos));
        assert_eq!(p, pos);
        assert!(part < sizes.len());
        assert!(off <= sizes[part]);
        let before: u64 = sizes[..part].iter().sum();
        assert_eq!(before + off, pos);
    }
    assert_eq!(seek_target(&sizes, total, 0, SeekPos::Start(total + 1)), (total + 1, 4, 0));
}
