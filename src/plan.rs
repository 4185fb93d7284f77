//! Which records a replay call takes, and in what order.
//!
//! The store is read whole and filtered here. A call for one aggregate takes
//! that aggregate's records in store order. A call for all aggregates takes
//! every record that names an aggregate, grouped by aggregate: groups come in
//! the order their aggregate first appears, records keep store order within
//! their group.
use vstd::prelude::*;

use crate::record::DeadLetterRecord;
use crate::replay::ReplayItem;

verus! {

/// The records of aggregate `a`, in store order.
pub open spec fn records_of(rs: Seq<DeadLetterRecord>, a: u128) -> Seq<DeadLetterRecord>
    decreases rs.len(),
{
    if rs.len() == 0 {
        Seq::empty()
    } else if rs.last().belongs_to(a) {
        records_of(rs.drop_last(), a).push(rs.last())
    } else {
        records_of(rs.drop_last(), a)
    }
}

/// The aggregates named by the records, each once, in order of first appearance.
pub open spec fn aggregates_of(rs: Seq<DeadLetterRecord>) -> Seq<u128>
    decreases rs.len(),
{
    if rs.len() == 0 {
        Seq::empty()
    } else {
        let earlier = aggregates_of(rs.drop_last());
        match rs.last().aggregate_id {
            Some(a) => if earlier.contains(a) {
                earlier
            } else {
                earlier.push(a)
            },
            None => earlier,
        }
    }
}

/// The records, each scheduled under aggregate `a`.
pub open spec fn tagged(a: u128, rs: Seq<DeadLetterRecord>) -> Seq<ReplayItem> {
    rs.map_values(|r: DeadLetterRecord| ReplayItem { aggregate_id: a, record: r })
}

/// The records of each aggregate of `keys` in turn.
pub open spec fn grouped(rs: Seq<DeadLetterRecord>, keys: Seq<u128>) -> Seq<ReplayItem>
    decreases keys.len(),
{
    if keys.len() == 0 {
        Seq::empty()
    } else {
        grouped(rs, keys.drop_last()) + tagged(keys.last(), records_of(rs, keys.last()))
    }
}

/// An aggregate has records exactly when some record names it.
pub proof fn lemma_records_of_empty(rs: Seq<DeadLetterRecord>, a: u128)
    ensures
        records_of(rs, a).len() == 0 <==> forall|i: int| 0 <= i < rs.len() ==> !(#[trigger] rs[i]).belongs_to(a),
    decreases rs.len(),
{
    if rs.len() > 0 {
        lemma_records_of_empty(rs.drop_last(), a);
        assert forall|i: int| 0 <= i < rs.len() - 1 implies rs.drop_last()[i] == rs[i] by {}
        if records_of(rs, a).len() == 0 {
            assert forall|i: int| 0 <= i < rs.len() implies !(#[trigger] rs[i]).belongs_to(a) by {
                if i < rs.len() - 1 {
                    assert(rs.drop_last()[i] == rs[i]);
                }
            }
        }
    }
}

/// Every aggregate that a record names is listed.
pub proof fn lemma_aggregate_listed(rs: Seq<DeadLetterRecord>, i: int)
    requires
        0 <= i < rs.len(),
        rs[i].aggregate_id is Some,
    ensures
        aggregates_of(rs).contains(rs[i].aggregate_id->0),
    decreases rs.len(),
{
    let a = rs[i].aggregate_id->0;
    let earlier = aggregates_of(rs.drop_last());
    if i < rs.len() - 1 {
        assert(rs.drop_last()[i] == rs[i]);
        lemma_aggregate_listed(rs.drop_last(), i);
        let j = choose|j: int| 0 <= j < earlier.len() && earlier[j] == a;
        match rs.last().aggregate_id {
            Some(b) => if !earlier.contains(b) {
                assert(earlier.push(b)[j] == a);
            },
            None => {},
        }
    } else {
        if !earlier.contains(a) {
            assert(earlier.push(a)[earlier.len() as int] == a);
        }
    }
}

/// Every listed aggregate is named by some record.
pub proof fn lemma_listed_aggregate_named(rs: Seq<DeadLetterRecord>, j: int)
    requires
        0 <= j < aggregates_of(rs).len(),
    ensures
        exists|i: int| 0 <= i < rs.len() && (#[trigger] rs[i]).aggregate_id == Some(aggregates_of(rs)[j]),
    decreases rs.len(),
{
    let earlier = aggregates_of(rs.drop_last());
    if j < earlier.len() {
        lemma_listed_aggregate_named(rs.drop_last(), j);
        let i = choose|i: int| 0 <= i < rs.drop_last().len() && (#[trigger] rs.drop_last()[i]).aggregate_id == Some(earlier[j]);
        assert(rs[i] == rs.drop_last()[i]);
        match rs.last().aggregate_id {
            Some(b) => if !earlier.contains(b) {
                assert(aggregates_of(rs)[j] == earlier[j]);
            },
            None => {},
        }
    } else {
        assert(rs[rs.len() - 1] == rs.last());
    }
}

/// No aggregate is listed twice.
pub proof fn lemma_aggregates_distinct(rs: Seq<DeadLetterRecord>)
    ensures
        aggregates_of(rs).no_duplicates(),
    decreases rs.len(),
{
    if rs.len() > 0 {
        lemma_aggregates_distinct(rs.drop_last());
    }
}

/// Adding a record at the end of the store adds it to its aggregate's records.
pub proof fn lemma_records_of_push(rs: Seq<DeadLetterRecord>, r: DeadLetterRecord, a: u128)
    ensures
        records_of(rs.push(r), a) == if r.belongs_to(a) {
            records_of(rs, a).push(r)
        } else {
            records_of(rs, a)
        },
{
    assert(rs.push(r).drop_last() =~= rs);
}

fn position_of(keys: &Vec<u128>, a: u128) -> (r: Option<usize>)
    ensures
        match r {
            Some(j) => j < keys@.len() && keys@[j as int] == a,
            None => !keys@.contains(a),
        },
{
    let mut j: usize = 0;
    while j < keys.len()
        invariant
            j <= keys@.len(),
            forall|k: int| 0 <= k < j ==> keys@[k] != a,
        decreases keys.len() - j,
    {
        if keys[j] == a {
            return Some(j);
        }
        j = j + 1;
    }
    None
}

/// The records of aggregate `a`, in store order, scheduled under `a`.
pub fn items_of_aggregate(records: Vec<DeadLetterRecord>, a: u128) -> (r: Vec<ReplayItem>)
    ensures
        r@ == tagged(a, records_of(records@, a)),
{
    let ghost rs = records@;
    let mut out: Vec<ReplayItem> = Vec::new();
    for rec in it: records.into_iter()
        invariant
            it.seq() == rs,
            it.index() <= rs.len(),
            out@ == tagged(a, records_of(rs.take(it.index() as int), a)),
    {
        let ghost i = it.index() as int;
        proof {
            assert(rs.take(i + 1) =~= rs.take(i).push(rec));
            lemma_records_of_push(rs.take(i), rec, a);
        }
        if rec.aggregate_id == Some(a) {
            out.push(ReplayItem { aggregate_id: a, record: rec });
            assert(out@ =~= tagged(a, records_of(rs.take(i + 1), a)));
        }
    }
    assert(rs.take(rs.len() as int) =~= rs);
    out
}

/// The aggregates the records name, each once, in order of first appearance.
pub fn aggregate_keys(records: &Vec<DeadLetterRecord>) -> (r: Vec<u128>)
    ensures
        r@ == aggregates_of(records@),
{
    let mut keys: Vec<u128> = Vec::new();
    let mut i: usize = 0;
    while i < records.len()
        invariant
            i <= records@.len(),
            keys@ == aggregates_of(records@.take(i as int)),
        decreases records.len() - i,
    {
        assert(records@.take(i as int + 1).drop_last() =~= records@.take(i as int));
        match records[i].aggregate_id {
            Some(a) => {
                if position_of(&keys, a).is_none() {
                    keys.push(a);
                }
            },
            None => {},
        }
        i = i + 1;
    }
    assert(records@.take(records@.len() as int) =~= records@);
    keys
}

/// The records that name an aggregate of `keys`, grouped by aggregate in the
/// order of `keys`.
pub fn group_items(records: Vec<DeadLetterRecord>, keys: &Vec<u128>) -> (r: Vec<ReplayItem>)
    requires
        keys@ == aggregates_of(records@),
    ensures
        r@ == grouped(records@, keys@),
{
    let ghost rs = records@;
    proof {
        lemma_aggregates_distinct(rs);
    }
    let mut buckets: Vec<Vec<DeadLetterRecord>> = Vec::new();
    let mut j: usize = 0;
    while j < keys.len()
        invariant
            j <= keys@.len(),
            buckets@.len() == j,
            forall|k: int| 0 <= k < j ==> (#[trigger] buckets@[k])@ == Seq::<DeadLetterRecord>::empty(),
        decreases keys.len() - j,
    {
        buckets.push(Vec::new());
        j = j + 1;
    }
    for rec in it: records.into_iter()
        invariant
            it.seq() == rs,
            it.index() <= rs.len(),
            keys@ == aggregates_of(rs),
            keys@.no_duplicates(),
            buckets@.len() == keys@.len(),
            forall|k: int|
                0 <= k < keys@.len() ==> (#[trigger] buckets@[k])@ == records_of(
                    rs.take(it.index() as int),
                    keys@[k],
                ),
    {
        let ghost i = it.index() as int;
        let ghost before = buckets@;
        proof {
            assert(rs.take(i + 1) =~= rs.take(i).push(rec));
            assert forall|k: int| 0 <= k < keys@.len() implies records_of(rs.take(i + 1), keys@[k])
                == if rec.belongs_to(keys@[k]) {
                records_of(rs.take(i), keys@[k]).push(rec)
            } else {
                records_of(rs.take(i), keys@[k])
            } by {
                lemma_records_of_push(rs.take(i), rec, keys@[k]);
            }
        }
        match rec.aggregate_id {
            Some(a) => {
                proof {
                    assert(rs[i] == rec);
                    lemma_aggregate_listed(rs, i);
                }
                match position_of(keys, a) {
                    Some(jj) => {
                        let mut bucket: Vec<DeadLetterRecord> = Vec::new();
                        buckets.set_and_swap(jj, &mut bucket);
                        bucket.push(rec);
                        buckets.set_and_swap(jj, &mut bucket);
                        assert forall|k: int| 0 <= k < keys@.len() implies (#[trigger] buckets@[k])@
                            == records_of(rs.take(i + 1), keys@[k]) by {
                            if k != jj {
                                assert(keys@[k] != a);
                            }
                        }
                    },
                    None => {},
                }
            },
            None => {},
        }
    }
    assert(rs.take(rs.len() as int) =~= rs);
    let mut out: Vec<ReplayItem> = Vec::new();
    let mut n: usize = 0;
    for bucket in bt: buckets.into_iter()
        invariant
            n == bt.index(),
            keys@.len() <= usize::MAX,
            bt.index() <= keys@.len(),
            bt.seq().len() == keys@.len(),
            forall|k: int| 0 <= k < keys@.len() ==> (#[trigger] bt.seq()[k])@ == records_of(rs, keys@[k]),
            out@ == grouped(rs, keys@.take(bt.index() as int)),
    {
        let ghost j = bt.index() as int;
        let key = keys[n];
        let ghost start = out@;
        for rec in rt: bucket.into_iter()
            invariant
                rt.seq() == records_of(rs, key),
                rt.index() <= rt.seq().len(),
                out@ == start + tagged(key, rt.seq().take(rt.index() as int)),
        {
            let ghost i = rt.index() as int;
            out.push(ReplayItem { aggregate_id: key, record: rec });
            assert(out@ =~= start + tagged(key, rt.seq().take(i + 1)));
        }
        proof {
            assert(records_of(rs, key).take(records_of(rs, key).len() as int) =~= records_of(rs, key));
            assert(keys@.take(j + 1).drop_last() =~= keys@.take(j));
        }
        n = n + 1;
    }
    assert(keys@.take(keys@.len() as int) =~= keys@);
    out
}

} // verus!
