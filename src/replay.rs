//! The decisions of one replay call, as a state machine.
//!
//! A session holds the records to replay, in order. The caller drives it:
//! it asks for the next envelope, hands the envelope to the projector, reports
//! what came of it, removes the record from the store when the session says
//! so, and reports that too. Records that cannot be rebuilt are counted as
//! failed without ever reaching the projector.
use vstd::prelude::*;

use crate::envelope::{
    reason_text, rebuilt_from, reconstruct, rejection, ReconstructionError, ReplayEnvelope,
};
use crate::plan::{
    aggregate_keys, aggregates_of, group_items, grouped, items_of_aggregate,
    lemma_aggregate_listed, lemma_listed_aggregate_named, lemma_records_of_empty, records_of,
    tagged,
};
use crate::record::DeadLetterRecord;
use crate::summary::{ReplayDeadLetterError, ReplaySummary};
use crate::text::{uuid_string, uuid_text};

verus! {

/// A record scheduled for replay, with the aggregate it is replayed under.
pub struct ReplayItem {
    pub aggregate_id: u128,
    pub record: DeadLetterRecord,
}

/// What became of one scheduled record.
pub enum ItemOutcome {
    /// The record lacked a required field; the projector never saw it.
    Rejected(ReconstructionError),
    /// Decoding or projection failed with this message; the record stays.
    Failed(String),
    /// Projected; removed from the store, or it had no id to remove it by.
    Replayed,
    /// Projected, but removing it from the store failed with this message.
    ReplayedNotRemoved(String),
}

/// Whether the outcome counts as a successful replay.
pub open spec fn is_success(o: ItemOutcome) -> bool {
    o is Replayed || o is ReplayedNotRemoved
}

/// Number of successful replays among the outcomes.
pub open spec fn successes(os: Seq<ItemOutcome>) -> nat
    decreases os.len(),
{
    if os.len() == 0 {
        0
    } else {
        successes(os.drop_last()) + if is_success(os.last()) { 1nat } else { 0nat }
    }
}

/// Number of failed replays among the outcomes.
pub open spec fn failures(os: Seq<ItemOutcome>) -> nat
    decreases os.len(),
{
    if os.len() == 0 {
        0
    } else {
        failures(os.drop_last()) + if is_success(os.last()) { 0nat } else { 1nat }
    }
}

/// The diagnostic line of a record that failed; a bulk replay names the aggregate.
pub open spec fn failure_line(bulk: bool, a: u128, reason: Seq<char>) -> Seq<char> {
    if bulk {
        "Failed to replay event for aggregate "@ + uuid_text(a) + ": "@ + reason
    } else {
        "Failed to replay event: "@ + reason
    }
}

/// The diagnostic line of a projected record that could not be removed.
pub open spec fn removal_line(id: Seq<char>, reason: Seq<char>) -> Seq<char> {
    "Failed to remove dead letter "@ + id + ": "@ + reason
}

/// The lines that one outcome adds to the summary's errors.
pub open spec fn outcome_lines(item: ReplayItem, o: ItemOutcome, bulk: bool) -> Seq<Seq<char>> {
    match o {
        ItemOutcome::Rejected(e) => seq![failure_line(bulk, item.aggregate_id, reason_text(e))],
        ItemOutcome::Failed(m) => seq![failure_line(bulk, item.aggregate_id, m@)],
        ItemOutcome::Replayed => Seq::empty(),
        ItemOutcome::ReplayedNotRemoved(m) => seq![removal_line(item.record.id->0@, m@)],
    }
}

/// The summary's errors after the first `os.len()` items of `plan` had these outcomes.
pub open spec fn error_lines(plan: Seq<ReplayItem>, os: Seq<ItemOutcome>, bulk: bool) -> Seq<
    Seq<char>,
>
    decreases os.len(),
{
    if os.len() == 0 {
        Seq::empty()
    } else {
        error_lines(plan, os.drop_last(), bulk) + outcome_lines(
            plan[os.len() - 1],
            os.last(),
            bulk,
        )
    }
}

/// An outcome that a session can reach for the item.
pub open spec fn admissible(item: ReplayItem, o: ItemOutcome) -> bool {
    match o {
        ItemOutcome::Rejected(e) => rejection(item.record) == Some(e),
        ItemOutcome::Failed(_) => rejection(item.record) is None,
        ItemOutcome::Replayed => rejection(item.record) is None,
        ItemOutcome::ReplayedNotRemoved(_) => rejection(item.record) is None
            && item.record.id is Some,
    }
}

/// Every outcome so far is one the session can reach for its item.
pub open spec fn all_admissible(plan: Seq<ReplayItem>, os: Seq<ItemOutcome>) -> bool {
    forall|k: int| 0 <= k < os.len() && k < plan.len() ==> #[trigger] admissible(plan[k], os[k])
}

/// Successes and failures together are all the outcomes.
pub proof fn lemma_counts_add_up(os: Seq<ItemOutcome>)
    ensures
        successes(os) + failures(os) == os.len(),
    decreases os.len(),
{
    if os.len() > 0 {
        lemma_counts_add_up(os.drop_last());
    }
}

proof fn lemma_push_outcome(plan: Seq<ReplayItem>, os: Seq<ItemOutcome>, o: ItemOutcome, bulk: bool)
    requires
        os.len() < plan.len(),
    ensures
        successes(os.push(o)) == successes(os) + if is_success(o) { 1nat } else { 0nat },
        failures(os.push(o)) == failures(os) + if is_success(o) { 0nat } else { 1nat },
        error_lines(plan, os.push(o), bulk) == error_lines(plan, os, bulk) + outcome_lines(
            plan[os.len() as int],
            o,
            bulk,
        ),
{
    assert(os.push(o).drop_last() =~= os);
}

fn is_success_exec(o: &ItemOutcome) -> (r: bool)
    ensures
        r == is_success(*o),
{
    match o {
        ItemOutcome::Replayed => true,
        ItemOutcome::ReplayedNotRemoved(_) => true,
        _ => false,
    }
}

fn failure_text(bulk: bool, a: u128, reason: &str) -> (r: String)
    ensures
        r@ == failure_line(bulk, a, reason@),
{
    if bulk {
        let mut s = String::from_str("Failed to replay event for aggregate ");
        let id = uuid_string(a);
        s.append(id.as_str());
        s.append(": ");
        s.append(reason);
        s
    } else {
        let mut s = String::from_str("Failed to replay event: ");
        s.append(reason);
        s
    }
}

fn removal_text(id: &str, reason: &str) -> (r: String)
    ensures
        r@ == removal_line(id@, reason@),
{
    let mut s = String::from_str("Failed to remove dead letter ");
    s.append(id);
    s.append(": ");
    s.append(reason);
    s
}

enum Phase {
    /// Nothing handed out is pending.
    Ready,
    /// The envelope of the current item is with the projector.
    Projecting,
    /// The current item was projected; its removal from the store is pending.
    Removing,
}

/// The state of one replay call.
pub struct ReplaySession {
    items: Vec<Option<ReplayItem>>,
    bulk: bool,
    position: usize,
    current: Option<String>,
    aggregate: u128,
    phase: Phase,
    summary: ReplaySummary,
    plan: Ghost<Seq<ReplayItem>>,
    outcomes: Ghost<Seq<ItemOutcome>>,
}

impl ReplaySession {
    /// The records of the call, in the order they are replayed.
    pub closed spec fn plan(self) -> Seq<ReplayItem> {
        self.plan@
    }

    /// The outcomes of the records replayed so far, in order.
    pub closed spec fn outcomes(self) -> Seq<ItemOutcome> {
        self.outcomes@
    }

    /// Whether failure lines name the aggregate (a replay of all aggregates).
    pub closed spec fn is_bulk(self) -> bool {
        self.bulk
    }

    /// The aggregates the call touches.
    pub closed spec fn aggregates(self) -> Seq<u128> {
        self.summary.processed_aggregates@
    }

    /// Nothing handed out is pending.
    pub closed spec fn is_ready(self) -> bool {
        self.phase is Ready
    }

    /// The envelope of the record at `outcomes().len()` is with the projector.
    pub closed spec fn awaiting_projection(self) -> bool {
        self.phase is Projecting
    }

    /// The record at `outcomes().len()` was projected and awaits removal.
    pub closed spec fn awaiting_removal(self) -> bool {
        self.phase is Removing
    }

    /// Every record has an outcome.
    pub open spec fn is_done(self) -> bool {
        self.is_ready() && self.outcomes().len() == self.plan().len()
    }

    /// The internal invariant of a session.
    pub closed spec fn wf(self) -> bool {
        let pos = self.position as int;
        &&& self.wf_core()
        &&& self.phase is Ready && pos < self.plan@.len() ==> self.items@[pos] == Some(
            self.plan@[pos],
        )
    }

    /// The invariant, but for the slot of the current record.
    closed spec fn wf_core(self) -> bool {
        let n = self.plan@.len();
        let pos = self.position as int;
        &&& self.items@.len() == n
        &&& self.outcomes@.len() == pos
        &&& pos <= n
        &&& forall|k: int| pos < k < n ==> self.items@[k] == Some(#[trigger] self.plan@[k])
        &&& !(self.phase is Ready) ==> {
            &&& pos < n
            &&& rejection(self.plan@[pos].record) is None
            &&& self.current == self.plan@[pos].record.id
            &&& self.aggregate == self.plan@[pos].aggregate_id
        }
        &&& self.phase is Removing ==> self.current is Some
        &&& all_admissible(self.plan@, self.outcomes@)
        &&& self.summary.total_events == n
        &&& self.summary.successful_replays == successes(self.outcomes@)
        &&& self.summary.failed_replays == failures(self.outcomes@)
        &&& self.summary.error_texts() == error_lines(self.plan@, self.outcomes@, self.bulk)
    }

    /// Takes the record at the current position out of the session.
    fn take_current(&mut self) -> (item: ReplayItem)
        requires
            old(self).wf(),
            old(self).is_ready(),
            old(self).outcomes().len() < old(self).plan().len(),
        ensures
            item == old(self).plan()[old(self).outcomes().len() as int],
            final(self).plan == old(self).plan,
            final(self).outcomes == old(self).outcomes,
            final(self).position == old(self).position,
            final(self).phase == old(self).phase,
            final(self).current == old(self).current,
            final(self).aggregate == old(self).aggregate,
            final(self).bulk == old(self).bulk,
            final(self).summary == old(self).summary,
            final(self).items@.len() == old(self).items@.len(),
            forall|k: int|
                0 <= k < final(self).items@.len() && k != old(self).position
                    ==> final(self).items@[k] == old(self).items@[k],
    {
        let mut slot: Option<ReplayItem> = None;
        self.items.set_and_swap(self.position, &mut slot);
        slot.unwrap()
    }

    /// Adds an outcome for the current record and moves to the next one.
    fn finish_current(&mut self, o: ItemOutcome, line: Option<String>)
        requires
            old(self).wf_core(),
            old(self).outcomes().len() < old(self).plan().len(),
            admissible(old(self).plan()[old(self).outcomes().len() as int], o),
            match line {
                Some(l) => outcome_lines(
                    old(self).plan()[old(self).outcomes().len() as int],
                    o,
                    old(self).bulk,
                ) == seq![l@],
                None => outcome_lines(
                    old(self).plan()[old(self).outcomes().len() as int],
                    o,
                    old(self).bulk,
                ) == Seq::<Seq<char>>::empty(),
            },
        ensures
            final(self).wf(),
            final(self).is_ready(),
            final(self).plan() == old(self).plan(),
            final(self).outcomes() == old(self).outcomes().push(o),
            final(self).bulk == old(self).bulk,
            final(self).aggregates() == old(self).aggregates(),
    {
        let ghost os = self.outcomes@;
        proof {
            lemma_push_outcome(self.plan@, os, o, self.bulk);
            lemma_counts_add_up(os);
        }
        if is_success_exec(&o) {
            self.summary.successful_replays = self.summary.successful_replays + 1;
        } else {
            self.summary.failed_replays = self.summary.failed_replays + 1;
        }
        let ghost errors_before = self.summary.errors@;
        match line {
            Some(l) => {
                self.summary.errors.push(l);
                assert(self.summary.errors@.map_values(|e: String| e@) =~= errors_before.map_values(
                    |e: String| e@,
                ).push(l@));
            },
            None => {},
        }
        self.outcomes = Ghost(os.push(o));
        self.position = self.position + 1;
        self.phase = Phase::Ready;
        self.current = None;
        assert(self.summary.error_texts() =~= error_lines(self.plan@, self.outcomes@, self.bulk));
    }

    /// Hands out the envelope of the next record that can be rebuilt, counting
    /// every record before it that cannot as failed; `None` once every record
    /// has an outcome.
    pub fn next_envelope(&mut self) -> (r: Option<ReplayEnvelope>)
        requires
            old(self).wf(),
            old(self).is_ready(),
        ensures
            final(self).wf(),
            final(self).plan() == old(self).plan(),
            final(self).is_bulk() == old(self).is_bulk(),
            final(self).aggregates() == old(self).aggregates(),
            old(self).outcomes().len() <= final(self).outcomes().len(),
            final(self).outcomes().take(old(self).outcomes().len() as int) == old(self).outcomes(),
            forall|k: int|
                old(self).outcomes().len() <= k < final(self).outcomes().len() ==> {
                    &&& rejection(#[trigger] final(self).plan()[k].record) is Some
                    &&& final(self).outcomes()[k] == ItemOutcome::Rejected(
                        rejection(final(self).plan()[k].record)->0,
                    )
                },
            match r {
                None => final(self).is_done(),
                Some(env) => {
                    let k = final(self).outcomes().len() as int;
                    &&& final(self).awaiting_projection()
                    &&& k < final(self).plan().len()
                    &&& rebuilt_from(env, final(self).plan()[k].record)
                },
            },
    {
        let ghost start = self.outcomes@;
        while self.position < self.items.len()
            invariant
                self.wf(),
                self.is_ready(),
                self.plan == old(self).plan,
                self.bulk == old(self).bulk,
                self.summary.processed_aggregates@ == old(self).summary.processed_aggregates@,
                start == old(self).outcomes@,
                start.len() <= self.outcomes@.len(),
                self.outcomes@.take(start.len() as int) == start,
                forall|k: int|
                    start.len() <= k < self.outcomes@.len() ==> {
                        &&& rejection(#[trigger] self.plan@[k].record) is Some
                        &&& self.outcomes@[k] == ItemOutcome::Rejected(
                            rejection(self.plan@[k].record)->0,
                        )
                    },
            decreases self.items.len() - self.position,
        {
            let ghost before = self.outcomes@;
            let item = self.take_current();
            let ReplayItem { aggregate_id, record } = item;
            let mut record = record;
            let id = record.id.take();
            match reconstruct(record) {
                Ok(env) => {
                    self.current = id;
                    self.aggregate = aggregate_id;
                    self.phase = Phase::Projecting;
                    return Some(env);
                },
                Err(e) => {
                    let line = failure_text(self.bulk, aggregate_id, e.reason());
                    self.finish_current(ItemOutcome::Rejected(e), Some(line));
                    assert(self.outcomes@.take(start.len() as int) =~= start) by {
                        assert(before.take(start.len() as int) == start);
                    }
                },
            }
        }
        None
    }

    /// Records what came of projecting the envelope last handed out. When the
    /// projection succeeded and the record has an id, returns that id: the
    /// record is to be removed from the store, and the removal reported.
    pub fn record_projection(&mut self, result: Result<(), String>) -> (r: Option<String>)
        requires
            old(self).wf(),
            old(self).awaiting_projection(),
        ensures
            final(self).wf(),
            final(self).plan() == old(self).plan(),
            final(self).is_bulk() == old(self).is_bulk(),
            final(self).aggregates() == old(self).aggregates(),
            ({
                let item = old(self).plan()[old(self).outcomes().len() as int];
                match result {
                    Ok(_) => match item.record.id {
                        Some(id) => {
                            &&& r matches Some(x) && x@ == id@
                            &&& final(self).awaiting_removal()
                            &&& final(self).outcomes() == old(self).outcomes()
                        },
                        None => {
                            &&& r is None
                            &&& final(self).is_ready()
                            &&& final(self).outcomes() == old(self).outcomes().push(
                                ItemOutcome::Replayed,
                            )
                        },
                    },
                    Err(m) => {
                        &&& r is None
                        &&& final(self).is_ready()
                        &&& final(self).outcomes() == old(self).outcomes().push(
                            ItemOutcome::Failed(m),
                        )
                    },
                }
            }),
    {
        match result {
            Ok(()) => {
                match &self.current {
                    Some(id) => {
                        let id = id.clone();
                        self.phase = Phase::Removing;
                        Some(id)
                    },
                    None => {
                        self.finish_current(ItemOutcome::Replayed, None);
                        None
                    },
                }
            },
            Err(m) => {
                let item_aggregate = self.current_aggregate();
                let line = failure_text(self.bulk, item_aggregate, m.as_str());
                self.finish_current(ItemOutcome::Failed(m), Some(line));
                None
            },
        }
    }

    /// Records whether removing the last projected record from the store worked.
    pub fn record_removal(&mut self, result: Result<(), String>)
        requires
            old(self).wf(),
            old(self).awaiting_removal(),
        ensures
            final(self).wf(),
            final(self).is_ready(),
            final(self).plan() == old(self).plan(),
            final(self).is_bulk() == old(self).is_bulk(),
            final(self).aggregates() == old(self).aggregates(),
            final(self).outcomes() == old(self).outcomes().push(
                match result {
                    Ok(_) => ItemOutcome::Replayed,
                    Err(m) => ItemOutcome::ReplayedNotRemoved(m),
                },
            ),
    {
        match result {
            Ok(()) => {
                self.finish_current(ItemOutcome::Replayed, None);
            },
            Err(m) => {
                let line = match &self.current {
                    Some(id) => removal_text(id.as_str(), m.as_str()),
                    None => String::new(),
                };
                self.finish_current(ItemOutcome::ReplayedNotRemoved(m), Some(line));
            },
        }
    }

    /// The aggregate of the record being replayed.
    fn current_aggregate(&self) -> (a: u128)
        requires
            self.wf(),
            !self.is_ready(),
        ensures
            a == self.plan()[self.outcomes().len() as int].aggregate_id,
    {
        self.aggregate
    }

    /// Whether every record has an outcome and nothing is pending.
    pub fn is_finished(&self) -> (r: bool)
        requires
            self.wf(),
        ensures
            r == self.is_done(),
    {
        match self.phase {
            Phase::Ready => self.position == self.items.len(),
            _ => false,
        }
    }

    /// The summary of a finished call.
    pub fn into_summary(self) -> (r: ReplaySummary)
        requires
            self.wf(),
            self.is_done(),
        ensures
            r.total_events == self.plan().len(),
            r.successful_replays == successes(self.outcomes()),
            r.failed_replays == failures(self.outcomes()),
            r.processed_aggregates@ == self.aggregates(),
            r.error_texts() == error_lines(self.plan(), self.outcomes(), self.is_bulk()),
    {
        self.summary
    }

    /// Starts a replay of the records of one aggregate, in store order.
    /// Fails with `NotFound` exactly when no record belongs to it.
    pub fn for_aggregate(records: Vec<DeadLetterRecord>, aggregate_id: u128) -> (r: Result<
        ReplaySession,
        ReplayDeadLetterError,
    >)
        ensures
            r is Err <==> forall|i: int|
                0 <= i < records@.len() ==> !(#[trigger] records@[i]).belongs_to(aggregate_id),
            match r {
                Ok(s) => {
                    &&& s.wf()
                    &&& s.is_ready()
                    &&& s.outcomes().len() == 0
                    &&& s.plan() == tagged(aggregate_id, records_of(records@, aggregate_id))
                    &&& s.aggregates() == seq![aggregate_id]
                    &&& !s.is_bulk()
                },
                Err(e) => e is NotFound,
            },
    {
        let ghost rs = records@;
        proof {
            lemma_records_of_empty(rs, aggregate_id);
        }
        let items = items_of_aggregate(records, aggregate_id);
        if items.len() == 0 {
            return Err(ReplayDeadLetterError::NotFound);
        }
        let aggregates = vec![aggregate_id];
        assert(aggregates@ =~= seq![aggregate_id]);
        Ok(ReplaySession::start(items, aggregates, false))
    }

    /// Starts a replay of every record that names an aggregate, grouped by
    /// aggregate. Fails with `NotFound` exactly when no record names one.
    pub fn for_all(records: Vec<DeadLetterRecord>) -> (r: Result<
        ReplaySession,
        ReplayDeadLetterError,
    >)
        ensures
            r is Err <==> forall|i: int|
                0 <= i < records@.len() ==> (#[trigger] records@[i]).aggregate_id is None,
            match r {
                Ok(s) => {
                    &&& s.wf()
                    &&& s.is_ready()
                    &&& s.outcomes().len() == 0
                    &&& s.plan() == grouped(records@, aggregates_of(records@))
                    &&& s.aggregates() == aggregates_of(records@)
                    &&& s.is_bulk()
                },
                Err(e) => e is NotFound,
            },
    {
        let ghost rs = records@;
        let keys = aggregate_keys(&records);
        if keys.len() == 0 {
            proof {
                assert forall|i: int| 0 <= i < rs.len() implies (#[trigger] rs[i]).aggregate_id is None by {
                    if rs[i].aggregate_id is Some {
                        lemma_aggregate_listed(rs, i);
                    }
                }
            }
            return Err(ReplayDeadLetterError::NotFound);
        }
        proof {
            lemma_listed_aggregate_named(rs, 0);
        }
        let items = group_items(records, &keys);
        Ok(ReplaySession::start(items, keys, true))
    }

    /// A session over `items`, touching `aggregates`, with nothing replayed yet.
    fn start(items: Vec<ReplayItem>, aggregates: Vec<u128>, bulk: bool) -> (s: ReplaySession)
        ensures
            s.wf(),
            s.is_ready(),
            s.plan() == items@,
            s.outcomes().len() == 0,
            s.aggregates() == aggregates@,
            s.is_bulk() == bulk,
    {
        let ghost plan = items@;
        let total = items.len();
        let mut slots: Vec<Option<ReplayItem>> = Vec::new();
        for item in it: items.into_iter()
            invariant
                it.seq() == plan,
                slots@.len() == it.index(),
                forall|k: int| 0 <= k < slots@.len() ==> slots@[k] == Some(#[trigger] plan[k]),
        {
            slots.push(Some(item));
        }
        let summary = ReplaySummary {
            total_events: total,
            successful_replays: 0,
            failed_replays: 0,
            processed_aggregates: aggregates,
            errors: Vec::new(),
        };
        assert(summary.error_texts() =~= Seq::empty());
        ReplaySession {
            items: slots,
            bulk,
            position: 0,
            current: None,
            aggregate: 0,
            phase: Phase::Ready,
            summary,
            plan: Ghost(plan),
            outcomes: Ghost(Seq::empty()),
        }
    }
}

} // verus!
