use crate::handle::{Phase, RenderHandle};
use crate::token::EpochToken;
use crate::unit::ProcessingUnit;
use std::sync::Arc;
use vstd::prelude::*;

verus! {

/// The longest pause, in milliseconds, between two polls of a holder count.
pub const MAX_BACKOFF_MS: u64 = 64;

/// Names one node of the graph; ids are never reused.
#[derive(PartialEq, Eq, Structural, Clone, Copy, Debug)]
pub struct NodeId(pub u64);

/// Where a published generation stands on the control side.
#[derive(PartialEq, Eq, Structural, Clone, Copy, Debug)]
pub enum ReleaseState {
    /// Handles may be issued and rendered.
    Live,
    /// The release flag is set; waiting for the holder count to reach zero.
    Releasing,
    /// A wait timed out with holders left; kept until a later poll sees zero.
    Parked,
}

/// Handed out by `begin_teardown`: the generation whose release is awaited.
#[derive(PartialEq, Eq, Structural, Clone, Copy, Debug)]
pub struct ReleaseTicket {
    generation: u64,
}

impl ReleaseTicket {
    pub closed spec fn spec_generation(&self) -> u64 {
        self.generation
    }

    pub fn generation(&self) -> (r: u64)
        ensures
            r == self.spec_generation(),
    {
        self.generation
    }
}

/// The verdict of one poll of a releasing generation's holder count.
#[derive(PartialEq, Eq, Structural, Clone, Copy, Debug)]
pub enum PollStep {
    /// No holder is left: the generation has been reclaimed.
    Reclaimed,
    /// The deadline has passed with holders left: the generation is parked.
    TimedOut,
    /// Sleep `sleep_ms`, then poll again with `next_delay_ms` as the delay.
    Wait { sleep_ms: u64, next_delay_ms: u64 },
}

pub open spec fn spec_min(a: u64, b: u64) -> u64 {
    if a <= b { a } else { b }
}

/// The poll decision: reclaim at zero holders, time out once the deadline is
/// reached, else sleep for the current delay (at least one millisecond, never
/// past the deadline) and double the delay up to `MAX_BACKOFF_MS`.
pub open spec fn spec_decide_poll(holders: u64, elapsed_ms: u64, timeout_ms: u64, delay_ms: u64) -> PollStep {
    if holders == 0 {
        PollStep::Reclaimed
    } else if elapsed_ms >= timeout_ms {
        PollStep::TimedOut
    } else {
        let d: u64 = if delay_ms == 0 { 1 } else { delay_ms };
        let doubled: u64 = if d >= MAX_BACKOFF_MS { MAX_BACKOFF_MS } else { spec_min((2 * d) as u64, MAX_BACKOFF_MS) };
        PollStep::Wait { sleep_ms: spec_min(d, (timeout_ms - elapsed_ms) as u64), next_delay_ms: doubled }
    }
}

/// Decides one poll of a holder count read at `elapsed_ms` into a wait of
/// `timeout_ms`, with `delay_ms` the current backoff.
pub fn decide_poll(holders: u64, elapsed_ms: u64, timeout_ms: u64, delay_ms: u64) -> (r: PollStep)
    ensures
        r == spec_decide_poll(holders, elapsed_ms, timeout_ms, delay_ms),
{
    if holders == 0 {
        PollStep::Reclaimed
    } else if elapsed_ms >= timeout_ms {
        PollStep::TimedOut
    } else {
        let d: u64 = if delay_ms == 0 { 1 } else { delay_ms };
        let doubled: u64 = if d >= MAX_BACKOFF_MS {
            MAX_BACKOFF_MS
        } else if 2 * d <= MAX_BACKOFF_MS {
            2 * d
        } else {
            MAX_BACKOFF_MS
        };
        let remaining: u64 = timeout_ms - elapsed_ms;
        let sleep_ms: u64 = if d <= remaining { d } else { remaining };
        PollStep::Wait { sleep_ms, next_delay_ms: doubled }
    }
}

/// Relies on `Arc::clone`: a second pointer to the same token.
#[verifier::external_body]
fn share_token(token: &Arc<EpochToken>) -> (r: Arc<EpochToken>)
    ensures
        r == *token,
{
    Arc::clone(token)
}

/// The control side's record of one published generation.
struct GenerationRecord {
    id: u64,
    token: Arc<EpochToken>,
    state: ReleaseState,
    issued: u64,
}

/// The control context's collection of nodes, in insertion order, and its
/// records of the generations published to render contexts.
///
/// The graph owns the units of the current node set. A snapshot hands each
/// render handle its own copy of them, in the state they have at that time,
/// and the copies are what the handle advances: the graph's units never
/// advance, so a node of a later generation starts again from the state it
/// had in the graph. No memory is shared between the two contexts but the
/// generation's token.
///
/// The node set belongs to the current generation until it is published by a
/// snapshot; a later `push` or `remove` starts a new generation, so handles
/// already issued keep the node set they were given. A generation's record
/// stays until a poll sees its holder count at zero.
pub struct Graph<U> {
    units: Vec<U>,
    ids: Vec<u64>,
    next_node_id: u64,
    next_generation: u64,
    published: bool,
    records: Vec<GenerationRecord>,
}

/// A generation's record as the contracts see it: its id, its state, and how
/// many render handles have been issued for it.
pub type RecordView = (u64, ReleaseState, u64);

/// A record with its state replaced.
pub open spec fn with_state(r: RecordView, state: ReleaseState) -> RecordView {
    (r.0, state, r.2)
}

/// A record that has issued one more handle.
pub open spec fn counted(r: RecordView) -> RecordView {
    (r.0, r.1, (r.2 + 1) as u64)
}

/// Whether a retry drops a record in `state` whose holder count read `holders`.
pub open spec fn spec_retry_verdict(state: ReleaseState, holders: u64) -> bool {
    state == ReleaseState::Parked && holders == 0
}

/// The records left after a retry that read `reads[k]` as the holder count
/// of `records[k]`: those the retry verdict drops are gone, the rest stay in
/// order.
pub open spec fn after_retry(records: Seq<RecordView>, reads: Seq<u64>) -> Seq<RecordView>
    decreases records.len(),
{
    if records.len() == 0 || reads.len() == 0 {
        records
    } else {
        let rest = after_retry(records.drop_last(), reads.drop_last());
        if spec_retry_verdict(records.last().1, reads.last()) {
            rest
        } else {
            rest.push(records.last())
        }
    }
}

proof fn lemma_after_retry_len(records: Seq<RecordView>, reads: Seq<u64>)
    ensures
        after_retry(records, reads).len() <= records.len(),
    decreases records.len(),
{
    if records.len() > 0 && reads.len() > 0 {
        lemma_after_retry_len(records.drop_last(), reads.drop_last());
    }
}

/// Decides whether a retry drops a record: only a parked one whose holder
/// count read zero.
pub fn retry_verdict(state: ReleaseState, holders: u64) -> (r: bool)
    ensures
        r == spec_retry_verdict(state, holders),
{
    state == ReleaseState::Parked && holders == 0
}

/// The state a record takes when its release is requested.
pub open spec fn requested(state: ReleaseState) -> ReleaseState {
    match state {
        ReleaseState::Live => ReleaseState::Releasing,
        _ => state,
    }
}

/// The records after a poll that decided `step` on the record at `i`.
pub open spec fn records_after_poll(
    records: Seq<RecordView>,
    i: int,
    step: PollStep,
) -> Seq<RecordView> {
    match step {
        PollStep::Reclaimed => records.remove(i),
        PollStep::TimedOut => records.update(i, with_state(records[i], ReleaseState::Parked)),
        PollStep::Wait { .. } => records.update(i, with_state(records[i], requested(records[i].1))),
    }
}

/// The generation ids of the records.
pub open spec fn record_ids(records: Seq<RecordView>) -> Seq<u64> {
    records.map_values(|r: RecordView| r.0)
}

impl<U: ProcessingUnit> Graph<U> {
    /// The units of the current node set, in insertion order.
    pub closed spec fn spec_units(&self) -> Seq<U> {
        self.units@
    }

    /// The ids of the current node set, in insertion order.
    pub closed spec fn spec_ids(&self) -> Seq<u64> {
        self.ids@
    }

    pub closed spec fn spec_next_node_id(&self) -> u64 {
        self.next_node_id
    }

    pub closed spec fn spec_next_generation(&self) -> u64 {
        self.next_generation
    }

    /// Whether the current node set has been published as a generation.
    pub closed spec fn spec_published(&self) -> bool {
        self.published
    }

    /// The records of unreclaimed generations, oldest first.
    pub closed spec fn spec_records(&self) -> Seq<RecordView> {
        self.records@.map_values(|r: GenerationRecord| (r.id, r.state, r.issued))
    }

    /// The id of the current generation: the last published one while the
    /// node set is unchanged since, else the one the next snapshot publishes.
    pub open spec fn spec_generation(&self) -> u64 {
        if self.spec_published() {
            (self.spec_next_generation() - 1) as u64
        } else {
            self.spec_next_generation()
        }
    }

    pub open spec fn wf(&self) -> bool {
        &&& self.spec_units().len() == self.spec_ids().len()
        &&& forall|i: int, j: int|
            0 <= i < j < self.spec_ids().len() ==> self.spec_ids()[i] < self.spec_ids()[j]
        &&& forall|i: int|
            0 <= i < self.spec_ids().len() ==> self.spec_ids()[i] < self.spec_next_node_id()
        &&& forall|i: int, j: int|
            0 <= i < j < self.spec_records().len() ==> self.spec_records()[i].0
                < self.spec_records()[j].0
        &&& forall|i: int|
            0 <= i < self.spec_records().len() ==> self.spec_records()[i].0
                < self.spec_next_generation()
        &&& self.spec_published() ==> {
            &&& self.spec_records().len() > 0
            &&& self.spec_records().last().0 == (self.spec_next_generation() - 1) as u64
            &&& self.spec_records().last().1 == ReleaseState::Live
        }
    }

    /// Appends a node to the current node set and returns its id. A published
    /// generation keeps its node set: the graph moves on to a new generation.
    pub fn push(&mut self, unit: U) -> (r: NodeId)
        requires
            old(self).wf(),
            old(self).spec_next_node_id() < u64::MAX,
        ensures
            final(self).wf(),
            r.0 == old(self).spec_next_node_id(),
            final(self).spec_next_node_id() == old(self).spec_next_node_id() + 1,
            final(self).spec_units() == old(self).spec_units().push(unit),
            final(self).spec_ids() == old(self).spec_ids().push(r.0),
            !final(self).spec_published(),
            final(self).spec_next_generation() == old(self).spec_next_generation(),
            final(self).spec_records() == old(self).spec_records(),
    {
        let id = self.next_node_id;
        let ghost old_ids = self.ids@;
        let ghost old_records = self.spec_records();
        self.units.push(unit);
        self.ids.push(id);
        self.next_node_id = id + 1;
        self.published = false;
        proof {
            assert forall|a: int, b: int|
                0 <= a < b < self.ids@.len() implies self.ids@[a] < self.ids@[b] by {
                if b < old_ids.len() {
                    assert(self.ids@[a] == old_ids[a]);
                    assert(self.ids@[b] == old_ids[b]);
                } else {
                    assert(self.ids@[a] == old_ids[a]);
                }
            }
            assert forall|a: int| 0 <= a < self.ids@.len() implies self.ids@[a] < self.next_node_id by {
                if a < old_ids.len() {
                    assert(self.ids@[a] == old_ids[a]);
                }
            }
            assert(self.spec_records() =~= old_records);
        }
        NodeId(id)
    }

    /// Takes a node out of the current node set, so that later generations do
    /// not hold it; generations already published keep it. Returns whether
    /// the id was in the current node set.
    pub fn remove(&mut self, id: NodeId) -> (r: bool)
        requires
            old(self).wf(),
        ensures
            final(self).wf(),
            r == old(self).spec_ids().contains(id.0),
            r ==> exists|i: int|
                0 <= i < old(self).spec_ids().len() && old(self).spec_ids()[i] == id.0
                    && final(self).spec_ids() == old(self).spec_ids().remove(i)
                    && final(self).spec_units() == old(self).spec_units().remove(i),
            r ==> !final(self).spec_published(),
            !r ==> final(self).spec_ids() == old(self).spec_ids() && final(self).spec_units()
                == old(self).spec_units() && final(self).spec_published()
                == old(self).spec_published(),
            final(self).spec_next_node_id() == old(self).spec_next_node_id(),
            final(self).spec_next_generation() == old(self).spec_next_generation(),
            final(self).spec_records() == old(self).spec_records(),
    {
        let n = self.ids.len();
        let mut i: usize = 0;
        while i < n
            invariant
                n == self.ids@.len(),
                0 <= i <= n,
                forall|k: int| 0 <= k < i ==> self.ids@[k] != id.0,
                *self == *old(self),
                self.wf(),
            decreases n - i,
        {
            if self.ids[i] == id.0 {
                let ghost old_ids = self.ids@;
                let ghost old_records = self.spec_records();
                self.ids.remove(i);
                self.units.remove(i);
                self.published = false;
                proof {
                    assert(old_ids.contains(id.0)) by {
                        assert(old_ids[i as int] == id.0);
                    }
                    assert forall|a: int, b: int|
                        0 <= a < b < self.ids@.len() implies self.ids@[a] < self.ids@[b] by {
                        let a2 = if a < i { a } else { a + 1 };
                        let b2 = if b < i { b } else { b + 1 };
                        assert(self.ids@[a] == old_ids[a2]);
                        assert(self.ids@[b] == old_ids[b2]);
                    }
                    assert forall|a: int|
                        0 <= a < self.ids@.len() implies self.ids@[a] < self.next_node_id by {
                        let a2 = if a < i { a } else { a + 1 };
                        assert(self.ids@[a] == old_ids[a2]);
                    }
                    assert(self.units@.len() == self.ids@.len());
                    assert(self.spec_records() =~= old_records);
                }
                return true;
            }
            i = i + 1;
        }
        false
    }

    /// Publishes the current node set, if it is not published yet, as a new
    /// generation, and issues a render handle for it: the handle carries a
    /// copy of each unit, in its current state and in insertion order, and is
    /// counted as a holder of the generation. May be called again for the
    /// same generation; each handle is counted, in the record's `issued` and
    /// in the holder count, and gets copies of its own.
    pub fn snapshot(&mut self) -> (r: RenderHandle<U>)
        requires
            old(self).wf(),
            old(self).spec_published() || old(self).spec_next_generation() < u64::MAX,
            old(self).spec_published() ==> old(self).spec_records().last().2 < u64::MAX,
        ensures
            final(self).wf(),
            final(self).spec_published(),
            r.spec_generation() == old(self).spec_generation(),
            final(self).spec_generation() == old(self).spec_generation(),
            r.spec_units() == old(self).spec_units(),
            r.spec_phase() == Phase::Active,
            final(self).spec_units() == old(self).spec_units(),
            final(self).spec_ids() == old(self).spec_ids(),
            final(self).spec_next_node_id() == old(self).spec_next_node_id(),
            old(self).spec_published() ==> final(self).spec_records() == old(self).spec_records().update(
                old(self).spec_records().len() - 1,
                counted(old(self).spec_records().last()),
            ),
            !old(self).spec_published() ==> final(self).spec_records() == old(self).spec_records().push(
                (old(self).spec_generation(), ReleaseState::Live, 1u64),
            ),
    {
        let ghost old_records = self.spec_records();
        if !self.published {
            let id = self.next_generation;
            self.records.push(
                GenerationRecord {
                    id,
                    token: Arc::new(EpochToken::new()),
                    state: ReleaseState::Live,
                    issued: 1,
                },
            );
            self.next_generation = id + 1;
            self.published = true;
            proof {
                assert(self.spec_records() =~= old_records.push((id, ReleaseState::Live, 1u64)));
            }
        } else {
            let last = self.records.len() - 1;
            proof {
                assert(old_records[last as int] == (
                    self.records@[last as int].id,
                    self.records@[last as int].state,
                    self.records@[last as int].issued,
                ));
            }
            self.records[last].issued = self.records[last].issued + 1;
            proof {
                assert(self.spec_records() =~= old_records.update(
                    last as int,
                    counted(old_records.last()),
                ));
            }
        }
        let last = self.records.len() - 1;
        proof {
            assert(self.spec_records()[last as int] == (
                self.records@[last as int].id,
                self.records@[last as int].state,
                self.records@[last as int].issued,
            ));
        }
        let generation = self.records[last].id;
        let token = share_token(&self.records[last].token);
        token.register_holder();
        let n = self.units.len();
        let mut copy: Vec<U> = Vec::new();
        let mut i: usize = 0;
        while i < n
            invariant
                n == self.units@.len(),
                0 <= i <= n,
                copy@ == self.units@.take(i as int),
            decreases n - i,
        {
            let u = self.units[i].duplicate();
            copy.push(u);
            proof {
                assert(copy@ =~= self.units@.take(i as int + 1));
            }
            i = i + 1;
        }
        proof {
            assert(copy@ =~= self.units@);
        }
        RenderHandle::issue(generation, copy, token)
    }

    fn find_record(&self, generation: u64) -> (r: Option<usize>)
        requires
            self.wf(),
        ensures
            r matches Some(i) ==> i < self.spec_records().len() && self.spec_records()[i as int].0
                == generation,
            r is None ==> !record_ids(self.spec_records()).contains(generation),
    {
        let n = self.records.len();
        let mut i: usize = 0;
        while i < n
            invariant
                n == self.records@.len(),
                0 <= i <= n,
                forall|k: int| 0 <= k < i ==> self.records@[k].id != generation,
            decreases n - i,
        {
            if self.records[i].id == generation {
                return Some(i);
            }
            i = i + 1;
        }
        proof {
            if record_ids(self.spec_records()).contains(generation) {
                let k = choose|k: int|
                    0 <= k < record_ids(self.spec_records()).len() && record_ids(
                        self.spec_records(),
                    )[k] == generation;
                assert(self.records@[k].id == generation);
            }
        }
        None
    }

    /// Requests the release of a published generation: sets its release flag,
    /// which every handle of it sees at the start of its next tick, and marks
    /// the record `Releasing` if it was `Live`. A later snapshot publishes a
    /// new generation. `None` if no record of that generation is kept.
    pub fn begin_teardown(&mut self, generation: u64) -> (r: Option<ReleaseTicket>)
        requires
            old(self).wf(),
        ensures
            final(self).wf(),
            r is Some <==> record_ids(old(self).spec_records()).contains(generation),
            r matches Some(t) ==> t.spec_generation() == generation,
            r is Some ==> exists|i: int|
                0 <= i < old(self).spec_records().len() && old(self).spec_records()[i].0
                    == generation && final(self).spec_records() == old(
                    self,
                ).spec_records().update(
                    i,
                    with_state(old(self).spec_records()[i], requested(old(self).spec_records()[i].1)),
                ),
            r is None ==> final(self).spec_records() == old(self).spec_records(),
            final(self).spec_published() == (old(self).spec_published() && (r is None
                || generation != old(self).spec_generation())),
            final(self).spec_units() == old(self).spec_units(),
            final(self).spec_ids() == old(self).spec_ids(),
            final(self).spec_next_node_id() == old(self).spec_next_node_id(),
            final(self).spec_next_generation() == old(self).spec_next_generation(),
    {
        match self.find_record(generation) {
            None => None,
            Some(i) => {
                let ghost old_records = self.spec_records();
                proof {
                    assert(record_ids(old_records)[i as int] == generation);
                }
                self.records[i].token.request_release();
                if self.records[i].state == ReleaseState::Live {
                    self.records[i].state = ReleaseState::Releasing;
                }
                if self.published && generation == self.next_generation - 1 {
                    self.published = false;
                }
                proof {
                    assert(self.spec_records() =~= old_records.update(
                        i as int,
                        with_state(old_records[i as int], requested(old_records[i as int].1)),
                    ));
                }
                Some(ReleaseTicket { generation })
            },
        }
    }

    /// One poll of a release in progress, made `elapsed_ms` into a wait of
    /// `timeout_ms` with `delay_ms` as the current backoff.
    ///
    /// The generation's holder count is read (acquire) and `decide_poll` rules
    /// on it: at zero holders the record is dropped, and with it the
    /// generation; past the deadline the record is parked, never dropped;
    /// otherwise the caller sleeps as told and polls again. A generation whose
    /// release was not yet requested has it requested first. A ticket whose
    /// record is already gone was reclaimed by an earlier poll.
    pub fn poll_release(
        &mut self,
        ticket: &ReleaseTicket,
        elapsed_ms: u64,
        timeout_ms: u64,
        delay_ms: u64,
    ) -> (r: PollStep)
        requires
            old(self).wf(),
        ensures
            final(self).wf(),
            !record_ids(old(self).spec_records()).contains(ticket.spec_generation()) ==> r
                == PollStep::Reclaimed && final(self).spec_records() == old(self).spec_records(),
            record_ids(old(self).spec_records()).contains(ticket.spec_generation()) ==> exists|
                i: int,
                holders: u64,
            |
                0 <= i < old(self).spec_records().len() && old(self).spec_records()[i].0
                    == ticket.spec_generation() && r == spec_decide_poll(
                    holders,
                    elapsed_ms,
                    timeout_ms,
                    delay_ms,
                ) && final(self).spec_records() == records_after_poll(
                    old(self).spec_records(),
                    i,
                    r,
                ),
            final(self).spec_published() == (old(self).spec_published()
                && ticket.spec_generation() != old(self).spec_generation()),
            final(self).spec_units() == old(self).spec_units(),
            final(self).spec_ids() == old(self).spec_ids(),
            final(self).spec_next_node_id() == old(self).spec_next_node_id(),
            final(self).spec_next_generation() == old(self).spec_next_generation(),
    {
        let generation = ticket.generation;
        match self.find_record(generation) {
            None => {
                proof {
                    if self.published {
                        assert(record_ids(self.spec_records())[self.spec_records().len() - 1]
                            == self.next_generation - 1);
                    }
                }
                PollStep::Reclaimed
            },
            Some(i) => {
                let ghost old_records = self.spec_records();
                proof {
                    assert(record_ids(old_records)[i as int] == generation);
                }
                if self.records[i].state == ReleaseState::Live {
                    self.records[i].token.request_release();
                }
                let holders = self.records[i].token.holders();
                let step = decide_poll(holders, elapsed_ms, timeout_ms, delay_ms);
                if self.published && generation == self.next_generation - 1 {
                    self.published = false;
                }
                match step {
                    PollStep::Reclaimed => {
                        self.records.remove(i);
                        proof {
                            assert(self.spec_records() =~= old_records.remove(i as int));
                            assert(self.spec_records() == records_after_poll(old_records, i as int, step));
                        }
                    },
                    PollStep::TimedOut => {
                        self.records[i].state = ReleaseState::Parked;
                        proof {
                            assert(self.spec_records() =~= old_records.update(
                                i as int,
                                with_state(old_records[i as int], ReleaseState::Parked),
                            ));
                            assert(self.spec_records() == records_after_poll(old_records, i as int, step));
                        }
                    },
                    PollStep::Wait { .. } => {
                        if self.records[i].state == ReleaseState::Live {
                            self.records[i].state = ReleaseState::Releasing;
                        }
                        proof {
                            assert(self.spec_records() =~= old_records.update(
                                i as int,
                                with_state(old_records[i as int], requested(old_records[i as int].1)),
                            ));
                            assert(self.spec_records() == records_after_poll(old_records, i as int, step));
                        }
                    },
                }
                step
            },
        }
    }

    /// Retries every parked generation: reads each record's holder count
    /// (acquire) and drops the records that `retry_verdict` rules on, the
    /// parked ones that read zero. Every other record stays, in order.
    /// Returns how many were reclaimed.
    pub fn reclaim_parked(&mut self) -> (r: usize)
        requires
            old(self).wf(),
        ensures
            final(self).wf(),
            exists|reads: Seq<u64>|
                reads.len() == old(self).spec_records().len() && final(self).spec_records()
                    == after_retry(old(self).spec_records(), reads),
            r + final(self).spec_records().len() == old(self).spec_records().len(),
            final(self).spec_published() == old(self).spec_published(),
            final(self).spec_units() == old(self).spec_units(),
            final(self).spec_ids() == old(self).spec_ids(),
            final(self).spec_next_node_id() == old(self).spec_next_node_id(),
            final(self).spec_next_generation() == old(self).spec_next_generation(),
    {
        let ghost start = self.spec_records();
        let ghost mut reads: Seq<u64> = Seq::empty();
        let ghost mut j: int = 0;
        let kept_before = self.records.len();
        let mut i: usize = 0;
        while i < self.records.len()
            invariant
                self.wf(),
                0 <= j <= start.len(),
                reads.len() == j,
                i == after_retry(start.take(j), reads).len(),
                self.spec_records() == after_retry(start.take(j), reads) + start.skip(j),
                kept_before == start.len(),
                self.published == old(self).published,
                self.units == old(self).units,
                self.ids == old(self).ids,
                self.next_node_id == old(self).next_node_id,
                self.next_generation == old(self).next_generation,
            decreases start.len() - j,
        {
            let ghost before = self.spec_records();
            let ghost kept = after_retry(start.take(j), reads);
            proof {
                assert(before[i as int] == (
                    self.records@[i as int].id,
                    self.records@[i as int].state,
                    self.records@[i as int].issued,
                ));
                assert(before[i as int] == start[j]);
                lemma_after_retry_len(start.take(j), reads);
            }
            let holders = self.records[i].token.holders();
            let drop = retry_verdict(self.records[i].state, holders);
            proof {
                let t1 = start.take(j + 1);
                let r1 = reads.push(holders);
                assert(t1.drop_last() =~= start.take(j));
                assert(r1.drop_last() =~= reads);
                assert(t1.last() == start[j]);
            }
            if drop {
                self.records.remove(i);
                proof {
                    let after = self.spec_records();
                    assert(after =~= before.remove(i as int));
                    assert(after =~= kept + start.skip(j + 1));
                    assert forall|a: int, b: int| 0 <= a < b < after.len() implies after[a].0 < after[b].0 by {
                        let a2 = if a < i { a } else { a + 1 };
                        let b2 = if b < i { b } else { b + 1 };
                        assert(after[a] == before[a2]);
                        assert(after[b] == before[b2]);
                    }
                    assert forall|a: int| 0 <= a < after.len() implies after[a].0 < self.next_generation by {
                        let a2 = if a < i { a } else { a + 1 };
                        assert(after[a] == before[a2]);
                    }
                    if self.published {
                        assert(i < before.len() - 1);
                        assert(after.last() == before.last());
                    }
                }
            } else {
                proof {
                    assert(before =~= kept.push(start[j]) + start.skip(j + 1));
                }
                i = i + 1;
            }
            proof {
                reads = reads.push(holders);
                j = j + 1;
            }
        }
        proof {
            lemma_after_retry_len(start.take(j), reads);
            assert(start.take(j) =~= start);
            assert(self.spec_records() =~= after_retry(start, reads));
        }
        kept_before - self.records.len()
    }

    /// The state of a generation's record, if one is kept.
    pub fn release_state(&self, generation: u64) -> (r: Option<ReleaseState>)
        requires
            self.wf(),
        ensures
            r is None <==> !record_ids(self.spec_records()).contains(generation),
            r matches Some(st) ==> exists|i: int|
                0 <= i < self.spec_records().len() && self.spec_records()[i].0 == generation
                    && self.spec_records()[i].1 == st,
    {
        match self.find_record(generation) {
            None => None,
            Some(i) => {
                proof {
                    assert(record_ids(self.spec_records())[i as int] == generation);
                    assert(self.spec_records()[i as int] == (
                        self.records@[i as int].id,
                        self.records@[i as int].state,
                        self.records@[i as int].issued,
                    ));
                }
                Some(self.records[i].state)
            },
        }
    }

    /// How many render handles have been issued for a generation whose record
    /// is kept.
    pub fn issued(&self, generation: u64) -> (r: Option<u64>)
        requires
            self.wf(),
        ensures
            r is None <==> !record_ids(self.spec_records()).contains(generation),
            r matches Some(n) ==> exists|i: int|
                0 <= i < self.spec_records().len() && self.spec_records()[i].0 == generation
                    && self.spec_records()[i].2 == n,
    {
        match self.find_record(generation) {
            None => None,
            Some(i) => {
                proof {
                    assert(record_ids(self.spec_records())[i as int] == generation);
                    assert(self.spec_records()[i as int] == (
                        self.records@[i as int].id,
                        self.records@[i as int].state,
                        self.records@[i as int].issued,
                    ));
                }
                Some(self.records[i].issued)
            },
        }
    }

    /// Reads (acquire) the holder count of a generation whose record is kept.
    /// The value is what the count held at that instant.
    pub fn holders(&self, generation: u64) -> (r: Option<u64>)
        requires
            self.wf(),
        ensures
            r is None <==> !record_ids(self.spec_records()).contains(generation),
    {
        match self.find_record(generation) {
            None => None,
            Some(i) => {
                proof {
                    assert(record_ids(self.spec_records())[i as int] == generation);
                }
                Some(self.records[i].token.holders())
            },
        }
    }

    /// The id of the current generation.
    pub fn generation(&self) -> (r: u64)
        requires
            self.wf(),
        ensures
            r == self.spec_generation(),
    {
        if self.published {
            self.next_generation - 1
        } else {
            self.next_generation
        }
    }

    /// The number of nodes in the current node set.
    pub fn node_count(&self) -> (r: usize)
        requires
            self.wf(),
        ensures
            r == self.spec_units().len(),
    {
        self.units.len()
    }

    /// The number of generations whose records are kept.
    pub fn kept_generations(&self) -> (r: usize)
        ensures
            r == self.spec_records().len(),
    {
        self.records.len()
    }

    /// An empty graph; no generation is published yet.
    pub fn new() -> (r: Self)
        ensures
            r.wf(),
            r.spec_units().len() == 0,
            r.spec_ids().len() == 0,
            r.spec_next_node_id() == 0,
            r.spec_next_generation() == 0,
            r.spec_records().len() == 0,
            !r.spec_published(),
            r.spec_generation() == 0,
    {
        let r = Graph {
            units: Vec::new(),
            ids: Vec::new(),
            next_node_id: 0,
            next_generation: 0,
            published: false,
            records: Vec::new(),
        };
        proof {
            assert(r.spec_records() =~= Seq::<RecordView>::empty());
        }
        r
    }
}

} // verus!
