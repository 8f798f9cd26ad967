use sis_kernel::ext4_stress::{append_file, workload_ops, FsOp, StressScenario};

fn note_text(op: &FsOp) -> Option<String> {
    match op {
        FsOp::Note(t) => Some(t.clone()),
        _ => None,
    }
}

#[test]
fn directory_workload_runs_twenty_cycles() {
    let ops = workload_ops(StressScenario::DirectoryOperations);
    // banner, opening note, 20 cycles of 4 operations, progress notes at 0, 5, 10, 15, closing note
    assert_eq!(ops.len(), 1 + 1 + 20 * 4 + 4 + 1);
    assert_eq!(note_text(&ops[0]).unwrap(), "Running stress test: directory_operations");
    assert_eq!(note_text(&ops[1]).unwrap(), "Testing directory operations...");
    match &ops[2] {
        FsOp::CreateDirectory { path } => assert_eq!(path, "/incidents/testdir_0"),
        _ => panic!("expected a directory creation"),
    }
    match &ops[3] {
        FsOp::CreateFile { path, data } => {
            assert_eq!(path, "/incidents/testdir_0/file.txt");
            assert_eq!(data.as_slice(), b"test data");
        }
        _ => panic!("expected a file creation"),
    }
    assert_eq!(note_text(&ops[6]).unwrap(), "Completed 0 directory operations...");
    assert_eq!(
        note_text(ops.last().unwrap()).unwrap(),
        "✓ Completed 20 directory create/remove cycles"
    );
}

#[test]
fn journal_commit_workload_writes_one_megabyte_synced() {
    let ops = workload_ops(StressScenario::WriteDuringJournalCommit);
    assert_eq!(ops.len(), 4);
    match &ops[2] {
        FsOp::CreateFileSync { path, data } => {
            assert_eq!(path, "/incidents/bigfile.dat");
            assert_eq!(data.len(), 1024 * 1024);
            assert!(data.iter().all(|b| *b == 0xCD));
        }
        _ => panic!("expected a synced file creation"),
    }
}

#[test]
fn data_write_workload_appends_numbered_chunks() {
    let ops = workload_ops(StressScenario::WriteDuringDataWrite);
    // banner, opening note, empty file, 256 chunks, notes at 0, 64, 128, 192, closing
    assert_eq!(ops.len(), 3 + 256 + 4 + 1);
    let mut chunks = 0usize;
    for op in &ops {
        if let FsOp::AppendFile { path, data } = op {
            assert_eq!(path, "/incidents/chunked.dat");
            assert_eq!(data.len(), 4096);
            assert!(data.iter().all(|b| *b as usize == chunks % 256));
            assert!(append_file(path, data).is_ok());
            chunks += 1;
        }
    }
    assert_eq!(chunks, 256);
}

#[test]
fn allocation_workload_names_files_by_index() {
    let ops = workload_ops(StressScenario::WriteDuringAllocation);
    assert_eq!(ops.len(), 1 + 1 + 100 + 10 + 1);
    match &ops[2] {
        FsOp::CreateFile { path, data } => {
            assert_eq!(path, "/incidents/test_0.dat");
            assert_eq!(data.as_slice(), b"Test file 0");
        }
        _ => panic!("expected a file creation"),
    }
    assert_eq!(note_text(&ops[3]).unwrap(), "Created 0 files...");
}

#[test]
fn truncate_workload_cycles() {
    let ops = workload_ops(StressScenario::TruncateOperations);
    assert_eq!(ops.len(), 1 + 1 + 10 * 5 + 1);
    match &ops[3] {
        FsOp::TruncateFile { path, size } => {
            assert_eq!(path, "/incidents/trunctest_0.dat");
            assert_eq!(*size, 4096);
        }
        _ => panic!("expected a truncation"),
    }
}
