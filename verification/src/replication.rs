//! Simplified replicated logs: a PBFT request log with periodic checkpoints,
//! and a Raft log with elections, appends and commits.
use vstd::prelude::*;
use crate::error::TestError;

verus! {

/// Requests between two PBFT checkpoints.
pub const CHECKPOINT_INTERVAL: u64 = 100;

/// Requests a checkpoint keeps in the log.
pub const CHECKPOINT_KEEP: u64 = 50;

/// An entry of the PBFT request log.
pub struct LogEntry {
    pub sequence_number: u64,
    pub view: u32,
    pub operation: Vec<u8>,
    pub digest: Vec<u8>,
}

/// A PBFT log entry as a value.
pub struct LogRecord {
    pub sequence_number: u64,
    pub view: u32,
    pub operation: Seq<u8>,
    pub digest: Seq<u8>,
}

impl View for LogEntry {
    type V = LogRecord;

    open spec fn view(&self) -> LogRecord {
        LogRecord {
            sequence_number: self.sequence_number,
            view: self.view,
            operation: self.operation@,
            digest: self.digest@,
        }
    }
}

/// The entries of a log as values.
pub open spec fn records(log: Seq<LogEntry>) -> Seq<LogRecord> {
    log.map_values(|e: LogEntry| e@)
}

/// The simulated digest of request `data` taken in view `view` at sequence
/// number `seq`: 32 bytes, the request's first byte (0 if empty), the view's
/// and the sequence number's low bytes, then zeros.
pub open spec fn digest_of(data: Seq<u8>, view: u32, seq: u64) -> Seq<u8> {
    Seq::new(
        32,
        |i: int|
            if i == 0 && data.len() > 0 {
                data[0]
            } else if i == 1 {
                view as u8
            } else if i == 2 {
                (seq % 256) as u8
            } else {
                0u8
            },
    )
}

/// The sequence number after which the log starts once `seq` requests were
/// processed: the last checkpoint less the kept requests, or 0 before any.
pub open spec fn log_floor(seq: int) -> int {
    if seq < CHECKPOINT_INTERVAL {
        0
    } else {
        (seq / CHECKPOINT_INTERVAL as int) * CHECKPOINT_INTERVAL - CHECKPOINT_KEEP
    }
}

/// A PBFT log after `seq` requests: it holds exactly the requests numbered
/// `log_floor(seq) + 1` to `seq`, in order, each with its digest.
pub open spec fn pbft_log_ok(log: Seq<LogRecord>, seq: int) -> bool {
    &&& log.len() == seq - log_floor(seq)
    &&& forall|i: int|
        0 <= i < log.len() ==> {
            &&& (#[trigger] log[i]).sequence_number == log_floor(seq) + 1 + i
            &&& log[i].digest == digest_of(log[i].operation, log[i].view, log[i].sequence_number)
        }
}

/// The entry that request `request` gets as number `seq` in view `view`.
pub open spec fn new_record(request: Seq<u8>, view: u32, seq: u64) -> LogRecord {
    LogRecord {
        sequence_number: seq,
        view,
        operation: request,
        digest: digest_of(request, view, seq),
    }
}

/// Whether an entry survives a checkpoint taken at `seq`.
pub open spec fn kept_at(seq: u64) -> spec_fn(LogRecord) -> bool {
    |e: LogRecord| e.sequence_number > seq - CHECKPOINT_KEEP
}

/// A simplified PBFT replica: numbers requests, logs them with a digest and
/// truncates the log at every checkpoint.
pub struct PBFTProtocol {
    view: u32,
    sequence_number: u64,
    log: Vec<LogEntry>,
    checkpoint_interval: u64,
}

impl PBFTProtocol {
    /// The current view.
    pub closed spec fn view_number(&self) -> u32 {
        self.view
    }

    /// The number of requests processed.
    pub closed spec fn seq(&self) -> u64 {
        self.sequence_number
    }

    /// The request log.
    pub closed spec fn log_view(&self) -> Seq<LogRecord> {
        records(self.log@)
    }

    /// The replica's invariant: checkpoints every 100 requests and a log as
    /// `pbft_log_ok` describes.
    pub open spec fn wf(&self) -> bool {
        &&& self.interval() == CHECKPOINT_INTERVAL
        &&& pbft_log_ok(self.log_view(), self.seq() as int)
    }

    /// The number of requests between checkpoints.
    pub closed spec fn interval(&self) -> u64 {
        self.checkpoint_interval
    }

    /// A replica in view 0 with no request processed.
    pub fn new() -> (p: Self)
        ensures
            p.wf(),
            p.view_number() == 0,
            p.seq() == 0,
            p.log_view().len() == 0,
    {
        let p = PBFTProtocol { view: 0, sequence_number: 0, log: Vec::new(), checkpoint_interval: 100 };
        assert(p.log_view() =~= Seq::<LogRecord>::empty());
        p
    }

    /// Number, digest and log a request; at every 100th request take a
    /// checkpoint that keeps only the last 50 requests. Answers 32 bytes of 1.
    pub fn process_request(&mut self, request: Vec<u8>) -> (r: Result<Vec<u8>, TestError>)
        requires
            old(self).wf(),
            old(self).seq() < u64::MAX,
        ensures
            final(self).wf(),
            final(self).seq() == old(self).seq() + 1,
            final(self).view_number() == old(self).view_number(),
            ({
                let s = final(self).seq();
                let pushed = old(self).log_view().push(
                    new_record(request@, old(self).view_number(), s),
                );
                final(self).log_view() == if s % CHECKPOINT_INTERVAL == 0 {
                    pushed.filter(kept_at(s))
                } else {
                    pushed
                }
            }),
            r matches Ok(v) && v@ == Seq::new(32, |i: int| 1u8),
    {
        self.sequence_number = self.sequence_number + 1;
        let digest = self.compute_digest(&request);
        let entry = LogEntry {
            sequence_number: self.sequence_number,
            view: self.view,
            operation: request,
            digest,
        };
        let ghost before = self.log_view();
        self.log.push(entry);
        proof {
            assert(self.log_view() =~= before.push(
                new_record(entry@.operation, self.view, self.sequence_number),
            ));
            lemma_floor_step(old(self).sequence_number as int);
        }
        if self.sequence_number % self.checkpoint_interval == 0 {
            let ghost pushed = self.log_view();
            let ck = self.create_checkpoint();
            proof {
                let s = self.sequence_number;
                lemma_filter_contiguous(pushed, log_floor(s - 1), s - CHECKPOINT_KEEP);
                assert(self.log_view() =~= pushed.subrange(pushed.len() - CHECKPOINT_KEEP, pushed.len() as int));
            }
            match ck {
                Ok(()) => {},
                Err(e) => {
                    return Err(e);
                },
            }
        }
        let v = vec![1u8; 32];
        assert(v@ =~= Seq::new(32, |i: int| 1u8));
        Ok(v)
    }

    /// The simulated digest of `data` at the current view and sequence number.
    fn compute_digest(&self, data: &Vec<u8>) -> (d: Vec<u8>)
        ensures
            d@ == digest_of(data@, self.view, self.sequence_number),
    {
        let mut digest = vec![0u8; 32];
        if data.len() > 0 {
            digest.set(0, data[0]);
        }
        digest.set(1, self.view as u8);
        digest.set(2, (self.sequence_number & 0xFF) as u8);
        proof {
            let s = self.sequence_number;
            assert((s & 0xFF) as u8 == (s % 256) as u8) by (bit_vector);
        }
        assert(digest@ =~= digest_of(data@, self.view, self.sequence_number));
        digest
    }

    /// Keep only the entries numbered above the checkpoint less 50.
    fn create_checkpoint(&mut self) -> (r: Result<(), TestError>)
        requires
            old(self).sequence_number % CHECKPOINT_INTERVAL == 0,
            old(self).sequence_number >= CHECKPOINT_INTERVAL,
            old(self).checkpoint_interval == CHECKPOINT_INTERVAL,
        ensures
            r is Ok,
            final(self).log_view() == old(self).log_view().filter(
                kept_at(old(self).sequence_number),
            ),
            final(self).sequence_number == old(self).sequence_number,
            final(self).view == old(self).view,
            final(self).checkpoint_interval == old(self).checkpoint_interval,
    {
        let checkpoint_seq = self.sequence_number;
        let ghost all = self.log_view();
        let ghost pred = kept_at(checkpoint_seq);
        let mut kept: Vec<LogEntry> = Vec::new();
        let mut old_log: Vec<LogEntry> = Vec::new();
        std::mem::swap(&mut old_log, &mut self.log);
        assert(records(old_log@) =~= all);
        while old_log.len() > 0
            invariant
                old_log@.len() <= all.len(),
                all.subrange(all.len() - old_log@.len(), all.len() as int) =~= records(old_log@),
                records(kept@) == all.subrange(
                    0,
                    all.len() - old_log@.len(),
                ).filter(pred),
                checkpoint_seq >= CHECKPOINT_KEEP,
                pred == kept_at(checkpoint_seq),
            decreases old_log@.len(),
        {
            let ghost done = all.len() - old_log@.len();
            let ghost ol = old_log@;
            proof {
                assert(records(ol)[0] == all.subrange(done, all.len() as int)[0]);
            }
            let entry = old_log.remove(0);
            proof {
                assert(old_log@ =~= ol.subrange(1, ol.len() as int));
                assert(entry@ == all[done]);
                assert forall|k: int| 0 <= k < old_log@.len() implies #[trigger] records(old_log@)[k] == all.subrange(all.len() - old_log@.len(), all.len() as int)[k] by {
                    assert(records(ol)[k + 1] == all.subrange(done, all.len() as int)[k + 1]);
                }
                reveal(Seq::filter);
                assert(all.subrange(0, done + 1).drop_last() =~= all.subrange(0, done));
                assert(all.subrange(0, done + 1).last() == all[done]);
                assert(all.subrange(all.len() - old_log@.len(), all.len() as int)
                    =~= records(old_log@));
            }
            if entry.sequence_number > checkpoint_seq - 50 {
                let ghost prev = records(kept@);
                kept.push(entry);
                proof {
                    assert(records(kept@) =~= prev.push(all[done]));
                }
            }
        }
        self.log = kept;
        Ok(())
    }

    /// The number of entries in the log.
    pub fn log_len(&self) -> (n: usize)
        ensures
            n == self.log_view().len(),
    {
        self.log.len()
    }

    /// The sequence number of the oldest logged request, if any.
    pub fn first_logged(&self) -> (s: Option<u64>)
        ensures
            match s {
                Some(x) => self.log_view().len() > 0 && x == self.log_view()[0].sequence_number,
                None => self.log_view().len() == 0,
            },
    {
        if self.log.len() > 0 {
            Some(self.log[0].sequence_number)
        } else {
            None
        }
    }

    /// Move to view `new_view`.
    pub fn initiate_view_change(&mut self, new_view: u32)
        requires
            old(self).wf(),
        ensures
            final(self).wf(),
            final(self).view_number() == new_view,
            final(self).seq() == old(self).seq(),
            final(self).log_view() == old(self).log_view(),
    {
        self.view = new_view;
    }
}

impl Default for PBFTProtocol {
    /// The same as `PBFTProtocol::new`.
    fn default() -> (p: Self)
        ensures
            p.wf(),
            p.view_number() == 0,
            p.seq() == 0,
            p.log_view().len() == 0,
    {
        PBFTProtocol::new()
    }
}

/// The role of a Raft node.
#[derive(Debug, Clone, Copy, PartialEq, Eq, Structural)]
pub enum RaftState {
    Follower,
    Candidate,
    Leader,
}

/// An entry of the Raft log.
pub struct RaftLogEntry {
    pub term: u64,
    pub index: u64,
    pub command: Vec<u8>,
}

/// A Raft log entry as a value.
pub struct RaftRecord {
    pub term: u64,
    pub index: u64,
    pub command: Seq<u8>,
}

impl View for RaftLogEntry {
    type V = RaftRecord;

    open spec fn view(&self) -> RaftRecord {
        RaftRecord { term: self.term, index: self.index, command: self.command@ }
    }
}

/// The entries of a Raft log as values.
pub open spec fn raft_records(log: Seq<RaftLogEntry>) -> Seq<RaftRecord> {
    log.map_values(|e: RaftLogEntry| e@)
}

/// A Raft node's log and counters agree: every committed entry is applied,
/// the commit index is within the log, entry `i` has index `i + 1`, and the
/// entries' terms never decrease and never pass the current term.
pub open spec fn raft_log_ok(log: Seq<RaftRecord>, term: u64, commit: u64, applied: u64) -> bool {
    &&& applied == commit
    &&& commit <= log.len()
    &&& forall|i: int| 0 <= i < log.len() ==> (#[trigger] log[i]).index == i + 1 && log[i].term <= term
    &&& forall|i: int, j: int| 0 <= i <= j < log.len() ==> log[i].term <= log[j].term
}

/// A simplified Raft node: terms, votes, an append-only log and a commit index.
pub struct RaftConsensus {
    current_term: u64,
    voted_for: Option<u32>,
    log: Vec<RaftLogEntry>,
    commit_index: u64,
    last_applied: u64,
    state: RaftState,
}

impl RaftConsensus {
    /// The current term.
    pub closed spec fn term(&self) -> u64 {
        self.current_term
    }

    /// The node voted for in the current term.
    pub closed spec fn voted(&self) -> Option<u32> {
        self.voted_for
    }

    /// The log.
    pub closed spec fn log_view(&self) -> Seq<RaftRecord> {
        raft_records(self.log@)
    }

    /// The index of the last committed entry (0: none).
    pub closed spec fn commit(&self) -> u64 {
        self.commit_index
    }

    /// The index of the last applied entry (0: none).
    pub closed spec fn applied(&self) -> u64 {
        self.last_applied
    }

    /// The node's role.
    pub closed spec fn role(&self) -> RaftState {
        self.state
    }

    /// The node's invariant, as `raft_log_ok` states it.
    pub open spec fn wf(&self) -> bool {
        raft_log_ok(self.log_view(), self.term(), self.commit(), self.applied())
    }

    /// A follower in term 0 with an empty log and no vote.
    pub fn new() -> (r: Self)
        ensures
            r.wf(),
            r.term() == 0,
            r.voted() is None,
            r.log_view().len() == 0,
            r.commit() == 0,
            r.applied() == 0,
            r.role() == RaftState::Follower,
    {
        let r = RaftConsensus {
            current_term: 0,
            voted_for: None,
            log: Vec::new(),
            commit_index: 0,
            last_applied: 0,
            state: RaftState::Follower,
        };
        assert(r.log_view() =~= Seq::<RaftRecord>::empty());
        r
    }

    /// Become a candidate in the next term, voting for `node_id`; answers true.
    pub fn start_election(&mut self, node_id: u32) -> (r: bool)
        requires
            old(self).wf(),
            old(self).term() < u64::MAX,
        ensures
            final(self).wf(),
            r,
            final(self).term() == old(self).term() + 1,
            final(self).role() == RaftState::Candidate,
            final(self).voted() == Some(node_id),
            final(self).log_view() == old(self).log_view(),
            final(self).commit() == old(self).commit(),
            final(self).applied() == old(self).applied(),
    {
        self.current_term = self.current_term + 1;
        self.state = RaftState::Candidate;
        self.voted_for = Some(node_id);
        true
    }

    /// Become the leader of the current term.
    pub fn become_leader(&mut self)
        requires
            old(self).wf(),
        ensures
            final(self).wf(),
            final(self).role() == RaftState::Leader,
            final(self).term() == old(self).term(),
            final(self).voted() == old(self).voted(),
            final(self).log_view() == old(self).log_view(),
            final(self).commit() == old(self).commit(),
            final(self).applied() == old(self).applied(),
    {
        self.state = RaftState::Leader;
    }

    /// Append `entry` in the current term; answers its index (the new length).
    pub fn append_entry(&mut self, entry: Vec<u8>) -> (index: u64)
        requires
            old(self).wf(),
            old(self).log_view().len() < u64::MAX,
        ensures
            final(self).wf(),
            index == old(self).log_view().len() + 1,
            final(self).log_view() == old(self).log_view().push(
                RaftRecord { term: old(self).term(), index, command: entry@ },
            ),
            final(self).term() == old(self).term(),
            final(self).voted() == old(self).voted(),
            final(self).role() == old(self).role(),
            final(self).commit() == old(self).commit(),
            final(self).applied() == old(self).applied(),
    {
        let index = self.log.len() as u64 + 1;
        let log_entry = RaftLogEntry { term: self.current_term, index, command: entry };
        let ghost before = self.log_view();
        self.log.push(log_entry);
        assert(self.log_view() =~= before.push(
            RaftRecord { term: self.current_term, index, command: entry@ },
        ));
        index
    }

    /// Commit up to `index` when it is past the commit index and within the
    /// log, then apply every committed entry; otherwise nothing changes.
    pub fn commit_entry(&mut self, index: u64)
        requires
            old(self).wf(),
        ensures
            final(self).wf(),
            final(self).commit() == if index > old(self).commit() && index
                <= old(self).log_view().len() {
                index
            } else {
                old(self).commit()
            },
            final(self).commit() >= old(self).commit(),
            final(self).applied() == final(self).commit(),
            final(self).log_view() == old(self).log_view(),
            final(self).term() == old(self).term(),
            final(self).voted() == old(self).voted(),
            final(self).role() == old(self).role(),
    {
        if index > self.commit_index && index <= self.log.len() as u64 {
            self.commit_index = index;
            self.apply_committed_entries();
        }
    }

    /// The index of the last committed entry.
    pub fn commit_index(&self) -> (c: u64)
        ensures
            c == self.commit(),
    {
        self.commit_index
    }

    /// The index of the last applied entry.
    pub fn last_applied(&self) -> (a: u64)
        ensures
            a == self.applied(),
    {
        self.last_applied
    }

    /// The current term.
    pub fn current_term(&self) -> (t: u64)
        ensures
            t == self.term(),
    {
        self.current_term
    }

    /// Apply entries until every committed one is applied.
    fn apply_committed_entries(&mut self)
        requires
            old(self).last_applied <= old(self).commit_index,
        ensures
            final(self).last_applied == old(self).commit_index,
            final(self).commit_index == old(self).commit_index,
            final(self).log@ == old(self).log@,
            final(self).current_term == old(self).current_term,
            final(self).voted_for == old(self).voted_for,
            final(self).state == old(self).state,
    {
        while self.last_applied < self.commit_index
            invariant
                self.last_applied <= self.commit_index,
                self.commit_index == old(self).commit_index,
                self.log@ == old(self).log@,
                self.current_term == old(self).current_term,
                self.voted_for == old(self).voted_for,
                self.state == old(self).state,
            decreases self.commit_index - self.last_applied,
        {
            self.last_applied = self.last_applied + 1;
        }
    }
}

impl Default for RaftConsensus {
    /// The same as `RaftConsensus::new`.
    fn default() -> (r: Self)
        ensures
            r.wf(),
            r.term() == 0,
            r.voted() is None,
            r.log_view().len() == 0,
            r.commit() == 0,
            r.applied() == 0,
            r.role() == RaftState::Follower,
    {
        RaftConsensus::new()
    }
}

/// Filtering a log numbered `c + 1, c + 2, ...` by "numbered above `cut`"
/// keeps exactly its entries from position `cut - c` on.
proof fn lemma_filter_contiguous(l: Seq<LogRecord>, c: int, cut: int)
    requires
        c <= cut <= c + l.len(),
        forall|i: int| 0 <= i < l.len() ==> (#[trigger] l[i]).sequence_number == c + 1 + i,
    ensures
        l.filter(|e: LogRecord| e.sequence_number > cut) == l.subrange(cut - c, l.len() as int),
    decreases l.len(),
{
    reveal(Seq::filter);
    let pred = |e: LogRecord| e.sequence_number > cut;
    if l.len() == 0 {
        assert(l.subrange(0, 0) =~= l);
    } else {
        let t = l.drop_last();
        assert forall|i: int| 0 <= i < t.len() implies (#[trigger] t[i]).sequence_number == c + 1 + i by {
            assert(t[i] == l[i]);
        }
        if cut == c + l.len() {
            assert(!pred(l.last()));
            assert(l.filter(pred) == t.filter(pred));
            lemma_filter_contiguous(t, c, cut - 1);
            lemma_filter_none(t, cut);
            assert(l.subrange(cut - c, l.len() as int) =~= Seq::<LogRecord>::empty());
        } else {
            lemma_filter_contiguous(t, c, cut);
            assert(pred(l.last()));
            assert(l.subrange(cut - c, l.len() as int) =~= t.subrange(cut - c, t.len() as int).push(l.last()));
        }
    }
}

/// Nothing numbered at most `cut` survives the filter "numbered above `cut`".
proof fn lemma_filter_none(l: Seq<LogRecord>, cut: int)
    requires
        forall|i: int| 0 <= i < l.len() ==> (#[trigger] l[i]).sequence_number <= cut,
    ensures
        l.filter(|e: LogRecord| e.sequence_number > cut) == Seq::<LogRecord>::empty(),
    decreases l.len(),
{
    reveal(Seq::filter);
    if l.len() > 0 {
        let t = l.drop_last();
        assert forall|i: int| 0 <= i < t.len() implies (#[trigger] t[i]).sequence_number <= cut by {
            assert(t[i] == l[i]);
        }
        lemma_filter_none(t, cut);
        assert(l.last() == l[l.len() - 1]);
    }
}

/// The log floor moves only at a checkpoint: from `seq` to `seq + 1` it stays
/// unless `seq + 1` is a multiple of the interval, where it becomes
/// `seq + 1 - 50`.
proof fn lemma_floor_step(seq: int)
    requires
        seq >= 0,
    ensures
        (seq + 1) % (CHECKPOINT_INTERVAL as int) != 0 ==> log_floor(seq + 1) == log_floor(seq),
        (seq + 1) % (CHECKPOINT_INTERVAL as int) == 0 ==> log_floor(seq + 1) == seq + 1
            - CHECKPOINT_KEEP,
        (seq + 1) % (CHECKPOINT_INTERVAL as int) == 0 ==> seq + 1 >= CHECKPOINT_INTERVAL,
        log_floor(seq) <= seq,
{
}

/// The checkpoints bound the PBFT log: it never holds more than 149
/// requests, and right after a checkpoint (every 100th request) it holds
/// exactly the last 50, numbered `seq - 49` to `seq`.
pub proof fn lemma_checkpoint_bounds_log(log: Seq<LogRecord>, seq: int)
    requires
        seq >= 0,
        pbft_log_ok(log, seq),
    ensures
        log.len() <= CHECKPOINT_INTERVAL + CHECKPOINT_KEEP - 1,
        seq >= CHECKPOINT_INTERVAL && seq % (CHECKPOINT_INTERVAL as int) == 0 ==> {
            &&& log.len() == CHECKPOINT_KEEP
            &&& log[0].sequence_number == seq - CHECKPOINT_KEEP + 1
        },
{
    let q = seq / (CHECKPOINT_INTERVAL as int);
    let m = seq % (CHECKPOINT_INTERVAL as int);
    assert(seq == q * 100 + m && 0 <= m < 100) by (nonlinear_arith)
        requires
            q == seq / 100,
            m == seq % 100,
            seq >= 0,
    ;
}

} // verus!
