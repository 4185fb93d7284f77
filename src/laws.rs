//! Properties of replay runs, stated over the model and proved.
use vstd::prelude::*;

use crate::envelope::{reason_text, rebuilt_from, rejection, ReconstructionError, ReplayEnvelope};
use crate::plan::{aggregates_of, grouped, lemma_records_of_push, records_of, tagged};
use crate::record::DeadLetterRecord;
use crate::replay::{
    admissible, failures, is_success, lemma_counts_add_up, outcome_lines,
    successes, ItemOutcome, ReplayItem, ReplaySession,
};

verus! {

/// `w` occurs in `s` as a contiguous run.
pub open spec fn contains_text(s: Seq<char>, w: Seq<char>) -> bool {
    exists|i: int| 0 <= i && i + w.len() <= s.len() && #[trigger] s.subrange(i, i + w.len()) == w
}

/// In a finished replay, the successful and the failed replays together are
/// exactly the records considered.
pub proof fn lemma_finished_counts_add_up(s: ReplaySession)
    requires
        s.wf(),
        s.is_done(),
    ensures
        successes(s.outcomes()) + failures(s.outcomes()) == s.plan().len(),
{
    lemma_counts_add_up(s.outcomes());
}

/// An empty store names no aggregate and holds no record of any aggregate, so
/// both kinds of replay report that nothing was found.
pub proof fn lemma_empty_store_has_nothing(rs: Seq<DeadLetterRecord>, a: u128)
    requires
        rs.len() == 0,
    ensures
        aggregates_of(rs).len() == 0,
        records_of(rs, a).len() == 0,
{
}

/// A record without headers is never rebuilt into an envelope, so it never
/// reaches the projector: its only possible outcome is a rejection, counted
/// as a failed replay, whose error line mentions the headers.
pub proof fn lemma_headerless_record_fails(item: ReplayItem, env: ReplayEnvelope, bulk: bool)
    requires
        item.record.headers is None,
    ensures
        rejection(item.record) == Some(ReconstructionError::MissingHeaders),
        !rebuilt_from(env, item.record),
        forall|o: ItemOutcome|
            #[trigger] admissible(item, o) ==> o == ItemOutcome::Rejected(
                ReconstructionError::MissingHeaders,
            ),
        !is_success(ItemOutcome::Rejected(ReconstructionError::MissingHeaders)),
        outcome_lines(item, ItemOutcome::Rejected(ReconstructionError::MissingHeaders), bulk).len()
            == 1,
        contains_text(
            outcome_lines(item, ItemOutcome::Rejected(ReconstructionError::MissingHeaders), bulk)[0],
            "headers"@,
        ),
{
    reveal_strlit("Event headers are missing");
    reveal_strlit("headers");
    let reason = reason_text(ReconstructionError::MissingHeaders);
    let line = outcome_lines(item, ItemOutcome::Rejected(ReconstructionError::MissingHeaders), bulk)[0];
    let head = line.subrange(0, line.len() - reason.len());
    assert(line =~= head + reason);
    let i = head.len() as int + 6;
    assert(line.subrange(i, i + 7) =~= reason.subrange(6, 13));
    assert(reason.subrange(6, 13) =~= "headers"@);
}

/// No id names two records of the sequence.
pub open spec fn ids_unique(rs: Seq<DeadLetterRecord>) -> bool {
    forall|i: int, j: int|
        0 <= i < rs.len() && 0 <= j < rs.len() && i != j && (#[trigger] rs[i]).id is Some
            ==> rs[i].id != (#[trigger] rs[j]).id
}

/// The records of a plan, in order.
pub open spec fn plan_records(plan: Seq<ReplayItem>) -> Seq<DeadLetterRecord> {
    plan.map_values(|it: ReplayItem| it.record)
}

/// The plan of a replay over `store`: of aggregate `a` for `Some(a)`, of all
/// aggregates for `None`.
pub open spec fn plan_for(store: Seq<DeadLetterRecord>, scope: Option<u128>) -> Seq<ReplayItem> {
    match scope {
        Some(a) => tagged(a, records_of(store, a)),
        None => grouped(store, aggregates_of(store)),
    }
}

/// The run replayed a record with the id of `r` and then removed it from the store.
pub open spec fn removed_by(plan: Seq<ReplayItem>, os: Seq<ItemOutcome>, r: DeadLetterRecord) -> bool {
    &&& r.id is Some
    &&& exists|k: int|
        0 <= k < os.len() && k < plan.len() && #[trigger] os[k] == ItemOutcome::Replayed
            && plan[k].record.id == r.id
}

/// The store after a run whose reported removals went through.
pub open spec fn store_after(
    store: Seq<DeadLetterRecord>,
    plan: Seq<ReplayItem>,
    os: Seq<ItemOutcome>,
) -> Seq<DeadLetterRecord> {
    store.filter(|r: DeadLetterRecord| !removed_by(plan, os, r))
}

/// The records whose outcome (by position in `os`) is not `Replayed`, in order.
pub open spec fn left_over(rs: Seq<DeadLetterRecord>, os: Seq<ItemOutcome>) -> Seq<DeadLetterRecord>
    decreases rs.len(),
{
    if rs.len() == 0 {
        Seq::empty()
    } else if os[rs.len() - 1] == ItemOutcome::Replayed {
        left_over(rs.drop_last(), os)
    } else {
        left_over(rs.drop_last(), os).push(rs.last())
    }
}

proof fn lemma_records_of_drawn(rs: Seq<DeadLetterRecord>, a: u128)
    ensures
        forall|k: int|
            0 <= k < records_of(rs, a).len() ==> rs.contains(#[trigger] records_of(rs, a)[k])
                && records_of(rs, a)[k].belongs_to(a),
    decreases rs.len(),
{
    if rs.len() > 0 {
        let d = rs.drop_last();
        lemma_records_of_drawn(d, a);
        let p = records_of(d, a);
        assert forall|k: int| 0 <= k < records_of(rs, a).len() implies rs.contains(
            #[trigger] records_of(rs, a)[k],
        ) && records_of(rs, a)[k].belongs_to(a) by {
            if k < p.len() {
                assert(records_of(rs, a)[k] == p[k]);
                let x = choose|x: int| 0 <= x < d.len() && d[x] == p[k];
                assert(rs[x] == d[x]);
            } else {
                assert(rs[rs.len() - 1] == rs.last());
            }
        }
    }
}

proof fn lemma_same_id_same_record(rs: Seq<DeadLetterRecord>, r1: DeadLetterRecord, r2: DeadLetterRecord)
    requires
        ids_unique(rs),
        rs.contains(r1),
        rs.contains(r2),
        r1.id is Some,
        r1.id == r2.id,
    ensures
        r1 == r2,
{
    let x = choose|x: int| 0 <= x < rs.len() && rs[x] == r1;
    let y = choose|y: int| 0 <= y < rs.len() && rs[y] == r2;
    if x != y {
        assert(rs[x].id != rs[y].id);
    }
}

proof fn lemma_records_of_ids_unique(rs: Seq<DeadLetterRecord>, a: u128)
    requires
        ids_unique(rs),
    ensures
        ids_unique(records_of(rs, a)),
    decreases rs.len(),
{
    if rs.len() > 0 {
        let d = rs.drop_last();
        assert forall|i: int, j: int|
            0 <= i < d.len() && 0 <= j < d.len() && i != j && (#[trigger] d[i]).id is Some implies d[i].id
            != (#[trigger] d[j]).id by {
            assert(d[i] == rs[i] && d[j] == rs[j]);
        }
        lemma_records_of_ids_unique(d, a);
        lemma_records_of_drawn(d, a);
        let p = records_of(d, a);
        if rs.last().belongs_to(a) {
            let q = p.push(rs.last());
            assert(records_of(rs, a) == q);
            assert forall|i: int, j: int|
                0 <= i < q.len() && 0 <= j < q.len() && i != j && (#[trigger] q[i]).id is Some implies q[i].id
                != (#[trigger] q[j]).id by {
                let l = rs.len() - 1;
                if i < p.len() && j < p.len() {
                    assert(q[i] == p[i] && q[j] == p[j]);
                } else if i < p.len() {
                    assert(q[i] == p[i]);
                    let x = choose|x: int| 0 <= x < d.len() && d[x] == p[i];
                    assert(rs[x] == d[x]);
                    assert(rs[l] == q[j]);
                } else {
                    assert(q[j] == p[j]);
                    let x = choose|x: int| 0 <= x < d.len() && d[x] == p[j];
                    assert(rs[x] == d[x]);
                    assert(rs[l] == q[i]);
                }
            }
        }
    }
}

proof fn lemma_grouped_drawn(rs: Seq<DeadLetterRecord>, keys: Seq<u128>)
    requires
        keys.no_duplicates(),
        ids_unique(rs),
    ensures
        forall|k: int|
            0 <= k < grouped(rs, keys).len() ==> {
                &&& rs.contains((#[trigger] grouped(rs, keys)[k]).record)
                &&& grouped(rs, keys)[k].record.aggregate_id == Some(grouped(rs, keys)[k].aggregate_id)
                &&& keys.contains(grouped(rs, keys)[k].aggregate_id)
            },
        ids_unique(plan_records(grouped(rs, keys))),
    decreases keys.len(),
{
    if keys.len() > 0 {
        let ks = keys.drop_last();
        let last = keys.last();
        assert(ks.no_duplicates());
        lemma_grouped_drawn(rs, ks);
        lemma_records_of_drawn(rs, last);
        lemma_records_of_ids_unique(rs, last);
        let gp = grouped(rs, ks);
        let rl = records_of(rs, last);
        let b = tagged(last, rl);
        let g = grouped(rs, keys);
        assert(g == gp + b);
        assert forall|k: int| 0 <= k < g.len() implies {
            &&& rs.contains((#[trigger] g[k]).record)
            &&& g[k].record.aggregate_id == Some(g[k].aggregate_id)
            &&& keys.contains(g[k].aggregate_id)
        } by {
            if k < gp.len() {
                assert(g[k] == gp[k]);
                let w = choose|w: int| 0 <= w < ks.len() && ks[w] == gp[k].aggregate_id;
                assert(keys[w] == ks[w]);
            } else {
                assert(g[k] == b[k - gp.len()]);
                assert(b[k - gp.len()].record == rl[k - gp.len()]);
                assert(keys[keys.len() - 1] == last);
            }
        }
        let pr = plan_records(g);
        assert forall|i: int, j: int|
            0 <= i < pr.len() && 0 <= j < pr.len() && i != j && (#[trigger] pr[i]).id is Some implies pr[i].id
            != (#[trigger] pr[j]).id by {
            assert(pr[i] == g[i].record && pr[j] == g[j].record);
            if pr[i].id == pr[j].id {
                lemma_same_id_same_record(rs, pr[i], pr[j]);
                if i < gp.len() && j < gp.len() {
                    assert(g[i] == gp[i] && g[j] == gp[j]);
                    assert(plan_records(gp)[i] == gp[i].record);
                    assert(plan_records(gp)[j] == gp[j].record);
                } else if i >= gp.len() && j >= gp.len() {
                    assert(g[i] == b[i - gp.len()] && g[j] == b[j - gp.len()]);
                    assert(rl[i - gp.len()] == pr[i]);
                    assert(rl[j - gp.len()] == pr[j]);
                } else if i < gp.len() {
                    assert(g[i] == gp[i] && g[j] == b[j - gp.len()]);
                    let w = choose|w: int| 0 <= w < ks.len() && ks[w] == gp[i].aggregate_id;
                    assert(ks[w] == last);
                    assert(keys[w] == keys[keys.len() - 1]);
                } else {
                    assert(g[j] == gp[j] && g[i] == b[i - gp.len()]);
                    let w = choose|w: int| 0 <= w < ks.len() && ks[w] == gp[j].aggregate_id;
                    assert(ks[w] == last);
                    assert(keys[w] == keys[keys.len() - 1]);
                }
            }
        }
    }
}

proof fn lemma_plan_drawn(store: Seq<DeadLetterRecord>, scope: Option<u128>)
    requires
        ids_unique(store),
    ensures
        forall|k: int|
            0 <= k < plan_for(store, scope).len() ==> store.contains(
                (#[trigger] plan_for(store, scope)[k]).record,
            ),
        ids_unique(plan_records(plan_for(store, scope))),
{
    match scope {
        Some(a) => {
            lemma_records_of_drawn(store, a);
            lemma_records_of_ids_unique(store, a);
            let rl = records_of(store, a);
            assert(plan_records(tagged(a, rl)) =~= rl);
            assert forall|k: int| 0 <= k < plan_for(store, scope).len() implies store.contains(
                (#[trigger] plan_for(store, scope)[k]).record,
            ) by {
                assert(plan_for(store, scope)[k].record == rl[k]);
            }
        },
        None => {
            crate::plan::lemma_aggregates_distinct(store);
            lemma_grouped_drawn(store, aggregates_of(store));
        },
    }
}

/// After a replay over a store whose ids are unique, and whose reported
/// removals went through, a record that was projected and had an id is gone
/// from the store, and a record whose replay failed is still in it, unchanged.
pub proof fn lemma_store_after_replay(
    store: Seq<DeadLetterRecord>,
    scope: Option<u128>,
    os: Seq<ItemOutcome>,
    k: int,
)
    requires
        ids_unique(store),
        os.len() <= plan_for(store, scope).len(),
        0 <= k < os.len(),
    ensures
        os[k] == ItemOutcome::Replayed && plan_for(store, scope)[k].record.id is Some
            ==> !store_after(store, plan_for(store, scope), os).contains(
            plan_for(store, scope)[k].record,
        ),
        (os[k] is Rejected || os[k] is Failed) ==> store_after(
            store,
            plan_for(store, scope),
            os,
        ).contains(plan_for(store, scope)[k].record),
{
    let plan = plan_for(store, scope);
    let r = plan[k].record;
    let pred = |x: DeadLetterRecord| !removed_by(plan, os, x);
    let after = store.filter(pred);
    lemma_plan_drawn(store, scope);
    if os[k] == ItemOutcome::Replayed && r.id is Some {
        assert(removed_by(plan, os, r));
        if after.contains(r) {
            let i = choose|i: int| 0 <= i < after.len() && after[i] == r;
            store.lemma_filter_pred(pred, i);
        }
    }
    if os[k] is Rejected || os[k] is Failed {
        if removed_by(plan, os, r) {
            let k2 = choose|k2: int|
                0 <= k2 < os.len() && k2 < plan.len() && #[trigger] os[k2] == ItemOutcome::Replayed
                    && plan[k2].record.id == r.id;
            let pr = plan_records(plan);
            assert(pr[k] == r && pr[k2] == plan[k2].record);
        }
        let x = choose|x: int| 0 <= x < store.len() && store[x] == r;
        store.lemma_filter_contains(pred, x);
    }
}

proof fn lemma_records_of_filter(store: Seq<DeadLetterRecord>, a: u128, pred: spec_fn(DeadLetterRecord) -> bool)
    ensures
        records_of(store.filter(pred), a) == records_of(store, a).filter(pred),
    decreases store.len(),
{
    if store.len() == 0 {
        store.lemma_filter_len(pred);
        records_of(store, a).lemma_filter_len(pred);
        assert(store.filter(pred) =~= store);
    } else {
        let d = store.drop_last();
        let last = store.last();
        lemma_records_of_filter(d, a, pred);
        assert(store == d.push(last));
        d.lemma_filter_push(last, pred);
        lemma_records_of_push(d.filter(pred), last, a);
        lemma_records_of_push(d, last, a);
        records_of(d, a).lemma_filter_push(last, pred);
    }
}

proof fn lemma_left_over_prefix(
    rl: Seq<DeadLetterRecord>,
    os: Seq<ItemOutcome>,
    pred: spec_fn(DeadLetterRecord) -> bool,
    m: int,
)
    requires
        0 <= m <= rl.len(),
        os.len() == rl.len(),
        forall|k: int| 0 <= k < rl.len() ==> (pred(#[trigger] rl[k]) <==> os[k] != ItemOutcome::Replayed),
    ensures
        rl.take(m).filter(pred) == left_over(rl.take(m), os),
        left_over(rl.take(m), os).len() == 0 <==> forall|k: int| 0 <= k < m ==> #[trigger] os[k] == ItemOutcome::Replayed,
    decreases m,
{
    if m == 0 {
        rl.take(0).lemma_filter_len(pred);
    } else {
        lemma_left_over_prefix(rl, os, pred, m - 1);
        let t = rl.take(m - 1);
        assert(rl.take(m) == t.push(rl[m - 1]));
        assert(rl.take(m).drop_last() == t);
        t.lemma_filter_push(rl[m - 1], pred);
        assert(rl.take(m).last() == rl[m - 1]);
        if os[m - 1] != ItemOutcome::Replayed {
            assert(!(forall|k: int| 0 <= k < m ==> #[trigger] os[k] == ItemOutcome::Replayed));
        }
    }
}

/// Replaying an aggregate again, after a replay of it over a store whose ids
/// are unique, whose records of that aggregate all have ids, and whose
/// reported removals went through, takes exactly the records that the first
/// replay did not replay and remove, in store order; when it replayed and
/// removed every one, the second replay finds nothing.
pub proof fn lemma_replay_again(store: Seq<DeadLetterRecord>, a: u128, os: Seq<ItemOutcome>)
    requires
        ids_unique(store),
        forall|i: int| 0 <= i < store.len() && (#[trigger] store[i]).belongs_to(a) ==> store[i].id is Some,
        os.len() == records_of(store, a).len(),
    ensures
        records_of(store_after(store, plan_for(store, Some(a)), os), a) == left_over(
            records_of(store, a),
            os,
        ),
        records_of(store_after(store, plan_for(store, Some(a)), os), a).len() == 0 <==> forall|k: int|
            0 <= k < os.len() ==> #[trigger] os[k] == ItemOutcome::Replayed,
{
    let plan = plan_for(store, Some(a));
    let rl = records_of(store, a);
    let pred = |x: DeadLetterRecord| !removed_by(plan, os, x);
    lemma_records_of_filter(store, a, pred);
    lemma_records_of_drawn(store, a);
    lemma_records_of_ids_unique(store, a);
    assert forall|k: int| 0 <= k < rl.len() implies (pred(#[trigger] rl[k]) <==> os[k] != ItemOutcome::Replayed) by {
        assert(plan[k].record == rl[k]);
        let x = choose|x: int| 0 <= x < store.len() && store[x] == rl[k];
        assert(store[x].belongs_to(a));
        if os[k] == ItemOutcome::Replayed {
            assert(removed_by(plan, os, rl[k]));
        }
        if removed_by(plan, os, rl[k]) {
            let k2 = choose|k2: int|
                0 <= k2 < os.len() && k2 < plan.len() && #[trigger] os[k2] == ItemOutcome::Replayed
                    && plan[k2].record.id == rl[k].id;
            assert(plan[k2].record == rl[k2]);
        }
    }
    lemma_left_over_prefix(rl, os, pred, rl.len() as int);
    assert(rl.take(rl.len() as int) == rl);
}

} // verus!
