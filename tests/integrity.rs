use block_bench::integrity::{contents_match, make_pattern, pattern_len, IntegrityRun, TestStep, Verdict};
use std::io::{Cursor, Read, Seek, SeekFrom, Write};

/// Runs the test with writes into `file` and reads back from the same file.
fn run_on(file: &mut Cursor<Vec<u8>>, block_size: u64, count: u64) -> std::io::Result<Verdict> {
    let mut run = IntegrityRun::new(block_size, count).unwrap();
    let mut block = vec![0u8; block_size as usize];
    file.seek(SeekFrom::Start(0))?;
    let mut reader = Cursor::new(Vec::new());
    let mut reading = false;
    loop {
        match run.next_step() {
            TestStep::WriteBlock { start, end } => {
                file.write_all(&run.sent()[start..end])?;
                run.block_written();
            }
            TestStep::ReadBlock { .. } => {
                if !reading {
                    reader = Cursor::new(file.get_ref().clone());
                    reading = true;
                }
                reader.read_exact(&mut block)?;
                run.block_read(&block);
            }
            TestStep::Compare => return Ok(run.verdict()),
        }
    }
}

#[test]
fn pattern_counts_up_and_wraps() {
    let p = make_pattern(64);
    assert_eq!(p, (0u8..64).collect::<Vec<u8>>());
    let q = make_pattern(300);
    assert_eq!(q[255], 255);
    assert_eq!(q[256], 0);
    assert_eq!(q[299], 43);
    assert!(make_pattern(0).is_empty());
}

#[test]
fn pattern_len_checks_size() {
    assert_eq!(pattern_len(16, 4), Some(64));
    assert_eq!(pattern_len(0, u64::MAX), Some(0));
    assert_eq!(pattern_len(u64::MAX, 2), None);
}

#[test]
fn steps_cover_blocks_in_order() {
    let mut run = IntegrityRun::new(16, 2).unwrap();
    assert_eq!(run.next_step(), TestStep::WriteBlock { start: 0, end: 16 });
    run.block_written();
    assert_eq!(run.next_step(), TestStep::WriteBlock { start: 16, end: 32 });
    run.block_written();
    assert_eq!(run.next_step(), TestStep::ReadBlock { start: 0, end: 16 });
    run.block_read(&make_pattern(16));
    assert_eq!(run.next_step(), TestStep::ReadBlock { start: 16, end: 32 });
    run.block_read(&make_pattern(32)[16..]);
    assert_eq!(run.next_step(), TestStep::Compare);
    assert_eq!(run.verdict(), Verdict::Passed);
}

#[test]
fn test_scenario_sixteen_by_four() {
    let mut file = Cursor::new(vec![0xEEu8; 80]);
    assert_eq!(run_on(&mut file, 16, 4).unwrap(), Verdict::Passed);
    let data = file.into_inner();
    assert_eq!(&data[..64], &(0u8..64).collect::<Vec<u8>>()[..]);
    assert!(data[64..].iter().all(|&b| b == 0xEE));
}

#[test]
fn round_trip_many_shapes() {
    for (bs, count) in [(1u64, 1u64), (7, 3), (256, 2), (100, 5), (0, 4), (32, 0)] {
        let mut file = Cursor::new(vec![0x55u8; 3]);
        assert_eq!(run_on(&mut file, bs, count).unwrap(), Verdict::Passed);
    }
}

#[test]
fn rerun_gives_same_outcome() {
    let mut file = Cursor::new(vec![9u8; 50]);
    assert_eq!(run_on(&mut file, 12, 3).unwrap(), Verdict::Passed);
    let after_first = file.get_ref().clone();
    assert_eq!(run_on(&mut file, 12, 3).unwrap(), Verdict::Passed);
    assert_eq!(file.get_ref(), &after_first);
}

#[test]
fn corrupted_block_is_a_mismatch() {
    let mut run = IntegrityRun::new(4, 2).unwrap();
    run.block_written();
    run.block_written();
    run.block_read(&[0, 1, 2, 3]);
    run.block_read(&[4, 5, 9, 7]);
    assert_eq!(run.verdict(), Verdict::Mismatch);
}

#[test]
fn nothing_read_back_is_a_mismatch() {
    let mut run = IntegrityRun::new(4, 1).unwrap();
    run.block_written();
    run.block_read(&[0, 0, 0, 0]);
    assert_eq!(run.verdict(), Verdict::Mismatch);
}

#[test]
fn oversized_test_is_refused() {
    assert!(IntegrityRun::new(u64::MAX, 2).is_none());
}

#[test]
fn byte_comparison() {
    assert!(contents_match(&[1, 2, 3], &[1, 2, 3]));
    assert!(!contents_match(&[1, 2, 3], &[1, 2]));
    assert!(!contents_match(&[1, 2, 3], &[1, 2, 4]));
    assert!(contents_match(&[], &[]));
}
