//! The deduplicating node sink: the decisions of the single consumer that
//! persists each distinct named node once, in batches.
//!
//! The consumer receives save requests from a bounded queue. A request for an
//! identifier it has not seen joins the current batch; one it has seen is
//! dropped. A full batch is handed out to be committed as one transaction, and
//! the `Close` request hands out what remains and ends the run. The caller runs
//! the queue and the store; this type decides.
use vstd::prelude::*;
use std::collections::HashSet;
use crate::hashing::NodeId;

verus! {

broadcast use vstd::std_specs::hash::group_hash_axioms;

/// How many requests may wait in the queue before producers block.
pub const QUEUE_CAPACITY: usize = 1000;

/// How many new rows make a full batch.
pub const BATCH_SIZE: usize = 5000;

/// A message to the sink.
pub enum SaveRequest {
    /// Persist this node with its IRI.
    SaveNode(NodeId, String),
    /// No more requests will come.
    Close,
}

/// Where the consumer stands.
#[derive(Debug, PartialEq, Eq, Clone, Copy, Structural)]
pub enum SinkPhase {
    /// Receiving requests.
    Running,
    /// `Close` was received; the last batch is being committed.
    Draining,
    /// The last batch was committed and the count reported.
    Closed,
}

/// What the consumer asks its caller to do after a request.
pub enum SinkAction {
    /// Nothing.
    Idle,
    /// Commit these rows as one transaction, with insert-or-ignore semantics.
    Flush(Vec<(NodeId, String)>),
}

/// The abstract state of the consumer.
pub struct SinkState {
    pub phase: SinkPhase,
    pub seen: Set<NodeId>,
    pub batch: Seq<(NodeId, String)>,
    pub batch_size: nat,
}

/// The consumer at the start of a run.
pub open spec fn initial_state(batch_size: nat) -> SinkState {
    SinkState { phase: SinkPhase::Running, seen: Set::empty(), batch: seq![], batch_size }
}

/// One request: the state afterwards and the rows handed out, if any.
pub open spec fn sink_step(s: SinkState, msg: SaveRequest) -> (SinkState, Option<
    Seq<(NodeId, String)>,
>) {
    if s.phase != SinkPhase::Running {
        (s, None)
    } else {
        match msg {
            SaveRequest::SaveNode(id, iri) => {
                if s.seen.contains(id) {
                    (s, None)
                } else {
                    let batch = s.batch.push((id, iri));
                    if batch.len() >= s.batch_size {
                        (SinkState { seen: s.seen.insert(id), batch: seq![], ..s }, Some(batch))
                    } else {
                        (SinkState { seen: s.seen.insert(id), batch, ..s }, None)
                    }
                }
            },
            SaveRequest::Close => (
                SinkState { phase: SinkPhase::Draining, batch: seq![], ..s },
                Some(s.batch),
            ),
        }
    }
}

/// The rows of an action.
pub open spec fn flushed(out: Option<Seq<(NodeId, String)>>) -> Seq<(NodeId, String)> {
    match out {
        Some(rows) => rows,
        None => seq![],
    }
}

/// Feed the requests one after another: the state afterwards and every row
/// handed out, in order.
pub open spec fn run_sink(s: SinkState, msgs: Seq<SaveRequest>) -> (SinkState, Seq<
    (NodeId, String),
>)
    decreases msgs.len(),
{
    if msgs.len() == 0 {
        (s, seq![])
    } else {
        let (mid, rows) = run_sink(s, msgs.drop_last());
        let (next, out) = sink_step(mid, msgs.last());
        (next, rows + flushed(out))
    }
}

/// Some request among `msgs` is `Close`.
pub open spec fn has_close(msgs: Seq<SaveRequest>) -> bool {
    exists|i: int| 0 <= i < msgs.len() && msgs[i] is Close
}

/// The identifiers that `msgs` asks to save before its first `Close`.
pub open spec fn sent_ids(msgs: Seq<SaveRequest>) -> Set<NodeId>
    decreases msgs.len(),
{
    if msgs.len() == 0 {
        Set::empty()
    } else if has_close(msgs.drop_last()) {
        sent_ids(msgs.drop_last())
    } else {
        match msgs.last() {
            SaveRequest::SaveNode(id, _) => sent_ids(msgs.drop_last()).insert(id),
            SaveRequest::Close => sent_ids(msgs.drop_last()),
        }
    }
}

/// The identifiers of some rows.
pub open spec fn row_ids(rows: Seq<(NodeId, String)>) -> Seq<NodeId> {
    rows.map_values(|r: (NodeId, String)| r.0)
}

/// What holds after any requests: the rows handed out and the batch name each
/// seen identifier once, the batch is empty once `Close` came, and the seen
/// identifiers are those sent before `Close`.
proof fn lemma_run_invariant(batch_size: nat, msgs: Seq<SaveRequest>)
    ensures
        ({
            let (s, rows) = run_sink(initial_state(batch_size), msgs);
            &&& (row_ids(rows) + row_ids(s.batch)).no_duplicates()
            &&& (row_ids(rows) + row_ids(s.batch)).to_set() == s.seen
            &&& s.seen == sent_ids(msgs)
            &&& s.seen.finite()
            &&& s.batch_size == batch_size
            &&& (s.phase == SinkPhase::Running <==> !has_close(msgs))
            &&& s.phase != SinkPhase::Running ==> s.batch.len() == 0
        }),
    decreases msgs.len(),
{
    let (s, rows) = run_sink(initial_state(batch_size), msgs);
    if msgs.len() == 0 {
        assert((row_ids(rows) + row_ids(s.batch)) =~= Seq::<NodeId>::empty());
        assert((row_ids(rows) + row_ids(s.batch)).to_set() =~= Set::empty());
    } else {
        let prev = msgs.drop_last();
        lemma_run_invariant(batch_size, prev);
        let (mid, prev_rows) = run_sink(initial_state(batch_size), prev);
        let (next, out) = sink_step(mid, msgs.last());
        assert(s == next && rows == prev_rows + flushed(out));
        let before = row_ids(prev_rows) + row_ids(mid.batch);
        let after = row_ids(rows) + row_ids(s.batch);
        assert(has_close(msgs) <==> has_close(prev) || msgs.last() is Close) by {
            if has_close(msgs) && !(msgs.last() is Close) {
                let i = choose|i: int| 0 <= i < msgs.len() && msgs[i] is Close;
                assert(prev[i] is Close);
            }
            if has_close(prev) {
                let i = choose|i: int| 0 <= i < prev.len() && prev[i] is Close;
                assert(msgs[i] is Close);
            }
            if msgs.last() is Close {
                assert(msgs[msgs.len() - 1] is Close);
            }
        }
        if mid.phase != SinkPhase::Running {
            assert(after =~= before);
        } else {
            match msgs.last() {
                SaveRequest::SaveNode(id, _) => {
                    if mid.seen.contains(id) {
                        assert(after =~= before);
                    } else {
                        assert(after =~= before.push(id));
                        assert(!before.contains(id));
                        assert forall|a: int, b: int|
                            0 <= a < after.len() && 0 <= b < after.len() && a != b implies after[a]
                            != after[b] by {
                            if a == after.len() - 1 {
                                assert(before[b] == after[b]);
                            } else if b == after.len() - 1 {
                                assert(before[a] == after[a]);
                            }
                        }
                        before.lemma_push_to_set_commute(id);
                    }
                },
                SaveRequest::Close => {
                    assert(after =~= before);
                },
            }
        }
    }
}

/// Deduplication and shutdown completeness: whatever the requests and their
/// repetitions, once `Close` has been received the rows handed out name each
/// identifier sent before `Close` exactly once and no other, so their number
/// is the number of distinct identifiers sent; and nothing is handed out, nor
/// anything changed, after that.
pub proof fn lemma_sink_persists_each_once(
    batch_size: nat,
    msgs: Seq<SaveRequest>,
    later: Seq<SaveRequest>,
)
    requires
        has_close(msgs),
    ensures
        ({
            let (s, rows) = run_sink(initial_state(batch_size), msgs);
            &&& row_ids(rows).no_duplicates()
            &&& row_ids(rows).to_set() == sent_ids(msgs)
            &&& rows.len() == sent_ids(msgs).len()
            &&& s.seen.len() == rows.len()
            &&& run_sink(s, later) == (s, Seq::<(NodeId, String)>::empty())
        }),
{
    lemma_run_invariant(batch_size, msgs);
    let (s, rows) = run_sink(initial_state(batch_size), msgs);
    assert(row_ids(rows) + row_ids(s.batch) =~= row_ids(rows));
    row_ids(rows).unique_seq_to_set();
    lemma_closed_sink_is_still(s, later);
}

/// A sink that is not running ignores every request.
proof fn lemma_closed_sink_is_still(s: SinkState, msgs: Seq<SaveRequest>)
    requires
        s.phase != SinkPhase::Running,
    ensures
        run_sink(s, msgs) == (s, Seq::<(NodeId, String)>::empty()),
    decreases msgs.len(),
{
    if msgs.len() > 0 {
        lemma_closed_sink_is_still(s, msgs.drop_last());
        assert(Seq::<(NodeId, String)>::empty() + flushed(None) =~= Seq::<
            (NodeId, String),
        >::empty());
    }
}

/// The consumer side of the node sink.
pub struct NodePlumber {
    seen: HashSet<NodeId>,
    batch: Vec<(NodeId, String)>,
    phase: SinkPhase,
    batch_size: usize,
}

impl View for NodePlumber {
    type V = SinkState;

    closed spec fn view(&self) -> SinkState {
        SinkState {
            phase: self.phase,
            seen: self.seen@,
            batch: self.batch@,
            batch_size: self.batch_size as nat,
        }
    }
}

/// The rows of an action, as the abstract state speaks of them.
pub open spec fn action_rows(a: SinkAction) -> Option<Seq<(NodeId, String)>> {
    match a {
        SinkAction::Idle => None,
        SinkAction::Flush(rows) => Some(rows@),
    }
}

impl NodePlumber {
    /// A consumer at the start of a run, flushing every `batch_size` new rows.
    pub fn create(batch_size: usize) -> (p: NodePlumber)
        ensures
            p@ == initial_state(batch_size as nat),
    {
        let p = NodePlumber {
            seen: HashSet::new(),
            batch: Vec::new(),
            phase: SinkPhase::Running,
            batch_size,
        };
        assert(p@.batch =~= Seq::<(NodeId, String)>::empty());
        p
    }

    /// Where the consumer stands.
    pub fn phase(&self) -> (phase: SinkPhase)
        ensures
            phase == self@.phase,
    {
        self.phase
    }

    /// Handle one request.
    pub fn receive(&mut self, msg: SaveRequest) -> (action: SinkAction)
        ensures
            (final(self)@, action_rows(action)) == sink_step(old(self)@, msg),
    {
        if self.phase != SinkPhase::Running {
            return SinkAction::Idle;
        }
        match msg {
            SaveRequest::SaveNode(id, iri) => {
                if self.seen.contains(&id) {
                    SinkAction::Idle
                } else {
                    self.seen.insert(id);
                    self.batch.push((id, iri));
                    if self.batch.len() >= self.batch_size {
                        let mut rows: Vec<(NodeId, String)> = Vec::new();
                        std::mem::swap(&mut rows, &mut self.batch);
                        assert(self@.batch =~= Seq::<(NodeId, String)>::empty());
                        SinkAction::Flush(rows)
                    } else {
                        SinkAction::Idle
                    }
                }
            },
            SaveRequest::Close => {
                self.phase = SinkPhase::Draining;
                let mut rows: Vec<(NodeId, String)> = Vec::new();
                std::mem::swap(&mut rows, &mut self.batch);
                assert(self@.batch =~= Seq::<(NodeId, String)>::empty());
                SinkAction::Flush(rows)
            },
        }
    }

    /// After the last batch was committed: end the run and report how many
    /// distinct identifiers it persisted. Gives `None`, and changes nothing,
    /// unless the consumer is draining.
    pub fn finish(&mut self) -> (count: Option<u64>)
        ensures
            old(self)@.phase == SinkPhase::Draining ==> final(self)@ == (SinkState {
                phase: SinkPhase::Closed,
                ..old(self)@
            }) && count == Some(old(self)@.seen.len() as u64),
            old(self)@.phase != SinkPhase::Draining ==> final(self)@ == old(self)@ && count
                is None,
    {
        if self.phase == SinkPhase::Draining {
            self.phase = SinkPhase::Closed;
            Some(self.seen.len() as u64)
        } else {
            None
        }
    }
}

} // verus!
