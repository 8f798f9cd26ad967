//! Ext4 stress-test scenarios, their names, and the file-system operations
//! each one performs.
use vstd::prelude::*;
use crate::text::{str_eq, dec_chars, dec_bytes, decimal_bytes, push_decimal};
use crate::scan::chars_of;

verus! {

/// Failures of a stress-test operation.
pub enum StressTestError {
    VfsError(&'static str),
    IoError(&'static str),
    OutOfMemory,
    InvalidScenario,
}

/// The stress-test scenarios.
#[derive(Debug, Clone, Copy, PartialEq, Eq, Structural)]
pub enum StressScenario {
    WriteDuringAllocation,
    WriteDuringInodeCreate,
    WriteDuringJournalCommit,
    WriteDuringDataWrite,
    ConcurrentWrites,
    DirectoryOperations,
    TruncateOperations,
}

/// The name of a scenario.
pub open spec fn scenario_name(s: StressScenario) -> Seq<char> {
    match s {
        StressScenario::WriteDuringAllocation => "write_during_allocation"@,
        StressScenario::WriteDuringInodeCreate => "write_during_inode_create"@,
        StressScenario::WriteDuringJournalCommit => "write_during_journal_commit"@,
        StressScenario::WriteDuringDataWrite => "write_during_data_write"@,
        StressScenario::ConcurrentWrites => "concurrent_writes"@,
        StressScenario::DirectoryOperations => "directory_operations"@,
        StressScenario::TruncateOperations => "truncate_operations"@,
    }
}

impl StressScenario {
    /// The scenario named `s`, if any.
    pub fn from_str(s: &str) -> (r: Option<Self>)
        ensures
            match r {
                Some(x) => s@ == scenario_name(x),
                None => forall|x: StressScenario| s@ != #[trigger] scenario_name(x),
            },
    {
        if str_eq(s, "write_during_allocation") {
            Some(StressScenario::WriteDuringAllocation)
        } else if str_eq(s, "write_during_inode_create") {
            Some(StressScenario::WriteDuringInodeCreate)
        } else if str_eq(s, "write_during_journal_commit") {
            Some(StressScenario::WriteDuringJournalCommit)
        } else if str_eq(s, "write_during_data_write") {
            Some(StressScenario::WriteDuringDataWrite)
        } else if str_eq(s, "concurrent_writes") {
            Some(StressScenario::ConcurrentWrites)
        } else if str_eq(s, "directory_operations") {
            Some(StressScenario::DirectoryOperations)
        } else if str_eq(s, "truncate_operations") {
            Some(StressScenario::TruncateOperations)
        } else {
            None
        }
    }

    /// The scenario's name.
    pub fn as_str(&self) -> (r: &'static str)
        ensures
            r@ == scenario_name(*self),
    {
        match self {
            StressScenario::WriteDuringAllocation => "write_during_allocation",
            StressScenario::WriteDuringInodeCreate => "write_during_inode_create",
            StressScenario::WriteDuringJournalCommit => "write_during_journal_commit",
            StressScenario::WriteDuringDataWrite => "write_during_data_write",
            StressScenario::ConcurrentWrites => "concurrent_writes",
            StressScenario::DirectoryOperations => "directory_operations",
            StressScenario::TruncateOperations => "truncate_operations",
        }
    }
}

/// No two scenarios share a name, so parsing a scenario's name gives the
/// scenario back.
pub proof fn lemma_names_distinct(a: StressScenario, b: StressScenario)
    requires
        scenario_name(a) == scenario_name(b),
    ensures
        a == b,
{
    reveal_strlit("write_during_allocation");
    reveal_strlit("write_during_inode_create");
    reveal_strlit("write_during_journal_commit");
    reveal_strlit("write_during_data_write");
    reveal_strlit("concurrent_writes");
    reveal_strlit("directory_operations");
    reveal_strlit("truncate_operations");
    if a != b {
        let na = scenario_name(a);
        let nb = scenario_name(b);
        assert(na.len() != nb.len() || na[13] != nb[13]);
    }
}

/// A file-system operation of a stress workload, or a progress note to show.
pub enum FsOp {
    Note(String),
    CreateFile { path: String, data: Vec<u8> },
    CreateFileSync { path: String, data: Vec<u8> },
    AppendFile { path: String, data: Vec<u8> },
    CreateDirectory { path: String },
    RemoveFile { path: String },
    RemoveDirectory { path: String },
    TruncateFile { path: String, size: usize },
}

/// A workload operation as values.
pub enum FsOpView {
    Note(Seq<char>),
    CreateFile(Seq<char>, Seq<u8>),
    CreateFileSync(Seq<char>, Seq<u8>),
    AppendFile(Seq<char>, Seq<u8>),
    CreateDirectory(Seq<char>),
    RemoveFile(Seq<char>),
    RemoveDirectory(Seq<char>),
    TruncateFile(Seq<char>, usize),
}

impl View for FsOp {
    type V = FsOpView;

    open spec fn view(&self) -> FsOpView {
        match self {
            FsOp::Note(s) => FsOpView::Note(s@),
            FsOp::CreateFile { path, data } => FsOpView::CreateFile(path@, data@),
            FsOp::CreateFileSync { path, data } => FsOpView::CreateFileSync(path@, data@),
            FsOp::AppendFile { path, data } => FsOpView::AppendFile(path@, data@),
            FsOp::CreateDirectory { path } => FsOpView::CreateDirectory(path@),
            FsOp::RemoveFile { path } => FsOpView::RemoveFile(path@),
            FsOp::RemoveDirectory { path } => FsOpView::RemoveDirectory(path@),
            FsOp::TruncateFile { path, size } => FsOpView::TruncateFile(path@, *size),
        }
    }
}

/// The operations as values.
pub open spec fn op_views(v: Seq<FsOp>) -> Seq<FsOpView> {
    v.map_values(|o: FsOp| o@)
}

/// `n` copies of byte `b`.
pub open spec fn filled(b: u8, n: nat) -> Seq<u8> {
    Seq::new(n, |i: int| b)
}

/// `s` repeated `k` times.
pub open spec fn repeated(s: Seq<u8>, k: nat) -> Seq<u8>
    decreases k,
{
    if k == 0 {
        seq![]
    } else {
        repeated(s, (k - 1) as nat) + s
    }
}

/// "`prefix`N`suffix`" with N the decimal number `n`.
pub open spec fn numbered(prefix: Seq<char>, n: nat, suffix: Seq<char>) -> Seq<char> {
    prefix + dec_chars(n) + suffix
}

/// The operations of iteration `i` of a scenario.
pub open spec fn step_ops(s: StressScenario, i: nat) -> Seq<FsOpView> {
    match s {
        StressScenario::WriteDuringAllocation => seq![
            FsOpView::CreateFile(numbered("/incidents/test_"@, i, ".dat"@), "Test file "@.map_values(|c: char| c as u8) + dec_bytes(i)),
        ] + if i % 10 == 0 { seq![FsOpView::Note(numbered("Created "@, i, " files..."@))] } else { seq![] },
        StressScenario::WriteDuringInodeCreate => seq![
            FsOpView::CreateFile(numbered("/incidents/inode_test_"@, i, ".dat"@), filled(0xAB, (i + 1) * 128)),
        ] + if i % 10 == 0 { seq![FsOpView::Note(numbered("Created "@, i, " files..."@))] } else { seq![] },
        StressScenario::WriteDuringJournalCommit => seq![],
        StressScenario::WriteDuringDataWrite => seq![
            FsOpView::AppendFile("/incidents/chunked.dat"@, filled(i as u8, 4096)),
        ] + if i % 64 == 0 { seq![FsOpView::Note(numbered("Wrote "@, i, " chunks..."@))] } else { seq![] },
        StressScenario::ConcurrentWrites => seq![
            FsOpView::CreateFile(numbered("/incidents/concurrent_"@, i, ".dat"@), repeated(("Task "@ + dec_chars(i) + " data"@).map_values(|c: char| c as u8), 100)),
        ],
        StressScenario::DirectoryOperations => {
            let dir = numbered("/incidents/testdir_"@, i, ""@);
            let file = dir + "/file.txt"@;
            seq![
                FsOpView::CreateDirectory(dir),
                FsOpView::CreateFile(file, "test data"@.map_values(|c: char| c as u8)),
                FsOpView::RemoveFile(file),
                FsOpView::RemoveDirectory(dir),
            ] + if i % 5 == 0 { seq![FsOpView::Note(numbered("Completed "@, i, " directory operations..."@))] } else { seq![] }
        },
        StressScenario::TruncateOperations => {
            let path = numbered("/incidents/trunctest_"@, i, ".dat"@);
            seq![
                FsOpView::CreateFile(path, filled(0xFF, 8192)),
                FsOpView::TruncateFile(path, 4096),
                FsOpView::TruncateFile(path, 0),
                FsOpView::RemoveFile(path),
                FsOpView::Note(numbered("Completed truncate cycle "@, i, ""@)),
            ]
        },
    }
}

/// The operations of the first `k` iterations of a scenario.
pub open spec fn steps_ops(s: StressScenario, k: nat) -> Seq<FsOpView>
    decreases k,
{
    if k == 0 {
        seq![]
    } else {
        steps_ops(s, (k - 1) as nat) + step_ops(s, (k - 1) as nat)
    }
}

/// How many iterations a scenario runs.
pub open spec fn iterations(s: StressScenario) -> nat {
    match s {
        StressScenario::WriteDuringAllocation => 100,
        StressScenario::WriteDuringInodeCreate => 50,
        StressScenario::WriteDuringJournalCommit => 0,
        StressScenario::WriteDuringDataWrite => 256,
        StressScenario::ConcurrentWrites => 10,
        StressScenario::DirectoryOperations => 20,
        StressScenario::TruncateOperations => 10,
    }
}

/// What a scenario does before its iterations.
pub open spec fn opening_ops(s: StressScenario) -> Seq<FsOpView> {
    match s {
        StressScenario::WriteDuringAllocation => seq![FsOpView::Note("Creating 100 small files to stress block allocator..."@)],
        StressScenario::WriteDuringInodeCreate => seq![FsOpView::Note("Creating files with varying sizes..."@)],
        StressScenario::WriteDuringJournalCommit => seq![
            FsOpView::Note("Writing large file to force journal commit..."@),
            FsOpView::CreateFileSync("/incidents/bigfile.dat"@, filled(0xCD, 1048576)),
        ],
        StressScenario::WriteDuringDataWrite => seq![
            FsOpView::Note("Writing data in chunks..."@),
            FsOpView::CreateFile("/incidents/chunked.dat"@, seq![]),
        ],
        StressScenario::ConcurrentWrites => seq![FsOpView::Note("Simulating concurrent writes..."@)],
        StressScenario::DirectoryOperations => seq![FsOpView::Note("Testing directory operations..."@)],
        StressScenario::TruncateOperations => seq![FsOpView::Note("Testing truncate operations..."@)],
    }
}

/// What a scenario reports at the end.
pub open spec fn closing_note(s: StressScenario) -> Seq<char> {
    match s {
        StressScenario::WriteDuringAllocation => "✓ Created 100 files successfully"@,
        StressScenario::WriteDuringInodeCreate => "✓ Created 50 files with varying sizes"@,
        StressScenario::WriteDuringJournalCommit => "✓ Wrote 1MB file with sync"@,
        StressScenario::WriteDuringDataWrite => "✓ Wrote 1MB in 4KB chunks"@,
        StressScenario::ConcurrentWrites => "✓ Created 10 files concurrently"@,
        StressScenario::DirectoryOperations => "✓ Completed 20 directory create/remove cycles"@,
        StressScenario::TruncateOperations => "✓ Completed 10 truncate cycles"@,
    }
}

/// Everything a scenario does, in order: the "Running stress test" note,
/// its opening, its iterations and its closing note.
pub open spec fn workload_spec(s: StressScenario) -> Seq<FsOpView> {
    seq![FsOpView::Note("Running stress test: "@ + scenario_name(s))] + opening_ops(s) + steps_ops(s, iterations(s))
        + seq![FsOpView::Note(closing_note(s))]
}

/// "`prefix`N`suffix`" with N the decimal number `n`.
fn numbered_text(prefix: &str, n: u32, suffix: &str) -> (s: String)
    ensures
        s@ == numbered(prefix@, n as nat, suffix@),
{
    let mut s = prefix.to_owned();
    push_decimal(&mut s, n as u128);
    s.append(suffix);
    s
}

/// `n` copies of byte `b`.
fn filled_bytes(b: u8, n: usize) -> (v: Vec<u8>)
    ensures
        v@ == filled(b, n as nat),
{
    let v = vec![b; n];
    assert(v@ =~= filled(b, n as nat));
    v
}

/// The ASCII bytes of the characters `cs`.
fn ascii_bytes(s: &str) -> (v: Vec<u8>)
    ensures
        v@ == s@.map_values(|c: char| c as u8),
{
    let cs = chars_of(s);
    let mut v: Vec<u8> = Vec::new();
    let mut i: usize = 0;
    while i < cs.len()
        invariant
            cs@ == s@,
            i <= cs@.len(),
            v@ == cs@.subrange(0, i as int).map_values(|c: char| c as u8),
        decreases cs@.len() - i,
    {
        v.push(cs[i] as u8);
        assert(v@ =~= cs@.subrange(0, i + 1).map_values(|c: char| c as u8));
        i = i + 1;
    }
    assert(cs@.subrange(0, cs@.len() as int) =~= cs@);
    v
}

/// The operations of iteration `i` of scenario `s`.
fn step(s: StressScenario, i: u32) -> (ops: Vec<FsOp>)
    requires
        i < 256,
    ensures
        op_views(ops@) == step_ops(s, i as nat),
{
    let mut ops: Vec<FsOp> = Vec::new();
    match s {
        StressScenario::WriteDuringAllocation => {
            let mut data = ascii_bytes("Test file ");
            let mut digits = decimal_bytes(i as u128);
            data.append(&mut digits);
            ops.push(FsOp::CreateFile { path: numbered_text("/incidents/test_", i, ".dat"), data });
            if i % 10 == 0 {
                ops.push(FsOp::Note(numbered_text("Created ", i, " files...")));
            }
        },
        StressScenario::WriteDuringInodeCreate => {
            let size = ((i + 1) * 128) as usize;
            ops.push(FsOp::CreateFile { path: numbered_text("/incidents/inode_test_", i, ".dat"), data: filled_bytes(0xAB, size) });
            if i % 10 == 0 {
                ops.push(FsOp::Note(numbered_text("Created ", i, " files...")));
            }
        },
        StressScenario::WriteDuringJournalCommit => {},
        StressScenario::WriteDuringDataWrite => {
            ops.push(FsOp::AppendFile { path: "/incidents/chunked.dat".to_owned(), data: filled_bytes(i as u8, 4096) });
            if i % 64 == 0 {
                ops.push(FsOp::Note(numbered_text("Wrote ", i, " chunks...")));
            }
        },
        StressScenario::ConcurrentWrites => {
            let unit = ascii_bytes_of_string(&numbered_text("Task ", i, " data"));
            let mut data: Vec<u8> = Vec::new();
            let mut k: usize = 0;
            while k < 100
                invariant
                    k <= 100,
                    data@ == repeated(unit@, k as nat),
                decreases 100 - k,
            {
                let mut copy = copy_vec(&unit);
                data.append(&mut copy);
                k = k + 1;
            }
            ops.push(FsOp::CreateFile { path: numbered_text("/incidents/concurrent_", i, ".dat"), data });
        },
        StressScenario::DirectoryOperations => {
            let dir = numbered_text("/incidents/testdir_", i, "");
            let mut file = dir.clone();
            file.append("/file.txt");
            ops.push(FsOp::CreateDirectory { path: dir.clone() });
            ops.push(FsOp::CreateFile { path: file.clone(), data: ascii_bytes("test data") });
            ops.push(FsOp::RemoveFile { path: file });
            ops.push(FsOp::RemoveDirectory { path: dir });
            if i % 5 == 0 {
                ops.push(FsOp::Note(numbered_text("Completed ", i, " directory operations...")));
            }
        },
        StressScenario::TruncateOperations => {
            let path = numbered_text("/incidents/trunctest_", i, ".dat");
            ops.push(FsOp::CreateFile { path: path.clone(), data: filled_bytes(0xFF, 8192) });
            ops.push(FsOp::TruncateFile { path: path.clone(), size: 4096 });
            ops.push(FsOp::TruncateFile { path: path.clone(), size: 0 });
            ops.push(FsOp::RemoveFile { path });
            ops.push(FsOp::Note(numbered_text("Completed truncate cycle ", i, "")));
        },
    }
    assert(op_views(ops@) =~= step_ops(s, i as nat));
    ops
}

/// The ASCII bytes of a string.
fn ascii_bytes_of_string(s: &String) -> (v: Vec<u8>)
    ensures
        v@ == s@.map_values(|c: char| c as u8),
{
    ascii_bytes(s.as_str())
}

/// A copy of a byte vector.
fn copy_vec(v: &Vec<u8>) -> (r: Vec<u8>)
    ensures
        r@ == v@,
{
    let mut r: Vec<u8> = Vec::new();
    let mut i: usize = 0;
    while i < v.len()
        invariant
            i <= v@.len(),
            r@ == v@.subrange(0, i as int),
        decreases v@.len() - i,
    {
        r.push(v[i]);
        assert(r@ =~= v@.subrange(0, i + 1));
        i = i + 1;
    }
    assert(r@ =~= v@);
    r
}

/// Everything a stress scenario does, in order: a note naming it, its file
/// operations with their progress notes, and its closing note.
pub fn workload_ops(scenario: StressScenario) -> (ops: Vec<FsOp>)
    ensures
        op_views(ops@) == workload_spec(scenario),
{
    let mut ops: Vec<FsOp> = Vec::new();
    let mut first = "Running stress test: ".to_owned();
    first.append(scenario.as_str());
    ops.push(FsOp::Note(first));
    match scenario {
        StressScenario::WriteDuringAllocation => {
            ops.push(FsOp::Note("Creating 100 small files to stress block allocator...".to_owned()));
        },
        StressScenario::WriteDuringInodeCreate => {
            ops.push(FsOp::Note("Creating files with varying sizes...".to_owned()));
        },
        StressScenario::WriteDuringJournalCommit => {
            ops.push(FsOp::Note("Writing large file to force journal commit...".to_owned()));
            ops.push(FsOp::CreateFileSync { path: "/incidents/bigfile.dat".to_owned(), data: filled_bytes(0xCD, 1048576) });
        },
        StressScenario::WriteDuringDataWrite => {
            ops.push(FsOp::Note("Writing data in chunks...".to_owned()));
            ops.push(FsOp::CreateFile { path: "/incidents/chunked.dat".to_owned(), data: Vec::new() });
        },
        StressScenario::ConcurrentWrites => {
            ops.push(FsOp::Note("Simulating concurrent writes...".to_owned()));
        },
        StressScenario::DirectoryOperations => {
            ops.push(FsOp::Note("Testing directory operations...".to_owned()));
        },
        StressScenario::TruncateOperations => {
            ops.push(FsOp::Note("Testing truncate operations...".to_owned()));
        },
    }
    let ghost head = op_views(ops@);
    proof {
        assert(head =~= seq![FsOpView::Note("Running stress test: "@ + scenario_name(scenario))] + opening_ops(scenario));
        assert(op_views(ops@) =~= head + steps_ops(scenario, 0));
    }
    let n: u32 = match scenario {
        StressScenario::WriteDuringAllocation => 100,
        StressScenario::WriteDuringInodeCreate => 50,
        StressScenario::WriteDuringJournalCommit => 0,
        StressScenario::WriteDuringDataWrite => 256,
        StressScenario::ConcurrentWrites => 10,
        StressScenario::DirectoryOperations => 20,
        StressScenario::TruncateOperations => 10,
    };
    let mut i: u32 = 0;
    while i < n
        invariant
            n == iterations(scenario),
            n <= 256,
            i <= n,
            op_views(ops@) == head + steps_ops(scenario, i as nat),
        decreases n - i,
    {
        let mut more = step(scenario, i);
        let ghost before = op_views(ops@);
        let ghost added = op_views(more@);
        ops.append(&mut more);
        proof {
            assert(op_views(ops@) =~= before + added);
            assert(steps_ops(scenario, (i + 1) as nat) == steps_ops(scenario, i as nat) + step_ops(scenario, i as nat));
            assert(head + steps_ops(scenario, (i + 1) as nat) =~= head + steps_ops(scenario, i as nat) + step_ops(scenario, i as nat));
        }
        i = i + 1;
    }
    let last = match scenario {
        StressScenario::WriteDuringAllocation => "✓ Created 100 files successfully",
        StressScenario::WriteDuringInodeCreate => "✓ Created 50 files with varying sizes",
        StressScenario::WriteDuringJournalCommit => "✓ Wrote 1MB file with sync",
        StressScenario::WriteDuringDataWrite => "✓ Wrote 1MB in 4KB chunks",
        StressScenario::ConcurrentWrites => "✓ Created 10 files concurrently",
        StressScenario::DirectoryOperations => "✓ Completed 20 directory create/remove cycles",
        StressScenario::TruncateOperations => "✓ Completed 10 truncate cycles",
    };
    let ghost before = op_views(ops@);
    ops.push(FsOp::Note(last.to_owned()));
    proof {
        assert(op_views(ops@) =~= before.push(FsOpView::Note(closing_note(scenario))));
    }
    ops
}

/// Append data to a file: the stand-in for the VFS call always succeeds.
pub fn append_file(path: &str, data: &[u8]) -> (r: Result<(), StressTestError>)
    ensures
        r is Ok,
{
    Ok(())
}

} // verus!
