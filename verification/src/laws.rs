//! Laws relating several handler operations, proved from their
//! postcondition relations.

use vstd::prelude::*;

use crate::errors::DomainError;
use crate::handle::{has_id, ids_unique, lemma_idx_of, store_wf, StoreView};
use crate::handlers::{create_post, get_post};
use crate::task::{task_from, PayloadView, TaskView};

verus! {

/// Appending a task whose identifier is absent keeps identifiers unique.
pub proof fn lemma_push_fresh_keeps_unique(s: Seq<TaskView>, t: TaskView)
    requires
        ids_unique(s),
        !has_id(s, t.id),
    ensures
        ids_unique(s.push(t)),
{
    assert forall|i: int, j: int| 0 <= i < j < s.push(t).len() implies s.push(t)[i].id != s.push(
        t,
    )[j].id by {
        if j < s.len() {
            assert(s[i].id != s[j].id);
        } else {
            assert(s.push(t)[j] == t);
            if s[i].id == t.id {
                assert(has_id(s, t.id));
            }
        }
    }
}

/// Law: round trip. A task created from a payload and then fetched under
/// the identifier the creation reported comes back exactly as stored: equal
/// to the submitted payload in every field, with only the identifier
/// server-assigned; and the fetch changes nothing.
pub proof fn lemma_create_then_get_round_trip(
    ctx: Map<u64, u64>,
    pre: StoreView,
    p: PayloadView,
    id: u128,
    mid: StoreView,
    t: TaskView,
    post: StoreView,
    g: Result<TaskView, DomainError>,
)
    requires
        store_wf(pre),
        create_post(ctx, pre, p, id, mid, Ok(t)),
        get_post(ctx, mid, t.id, post, g),
    ensures
        g == Ok::<TaskView, DomainError>(t),
        t.title == p.title->Some_0,
        t.description == p.description,
        post == mid,
{
    assert(t == task_from(id, p));
    assert(mid.table == pre.table.push(task_from(id, p)));
    lemma_push_fresh_keeps_unique(pre.table, task_from(id, p));
    assert(mid.table[pre.table.len() as int] == t);
    lemma_idx_of(mid.table, t.id, pre.table.len() as int);
}

/// Law: distinct writes. Two creates that both succeed, one after the
/// other, store two distinct entities: the identifiers differ, both tasks
/// are stored afterwards, and the table grew by exactly two. By induction,
/// any run of successful creates against the serialized handle stores as
/// many distinct entities as there were creates.
pub proof fn lemma_creates_store_distinct(
    ctx: Map<u64, u64>,
    pre: StoreView,
    p1: PayloadView,
    id1: u128,
    mid: StoreView,
    t1: TaskView,
    p2: PayloadView,
    id2: u128,
    post: StoreView,
    t2: TaskView,
)
    requires
        store_wf(pre),
        create_post(ctx, pre, p1, id1, mid, Ok(t1)),
        create_post(ctx, mid, p2, id2, post, Ok(t2)),
    ensures
        t1.id != t2.id,
        post.table.len() == pre.table.len() + 2,
        has_id(post.table, t1.id),
        has_id(post.table, t2.id),
        store_wf(post),
{
    assert(mid.table == pre.table.push(task_from(id1, p1)));
    assert(post.table == mid.table.push(task_from(id2, p2)));
    assert(mid.table[pre.table.len() as int] == t1);
    if t1.id == t2.id {
        assert(has_id(mid.table, id2));
    }
    assert(post.table[pre.table.len() as int] == t1);
    assert(has_id(post.table, t1.id));
    assert(post.table[mid.table.len() as int] == t2);
    assert(has_id(post.table, t2.id));
    lemma_push_fresh_keeps_unique(pre.table, task_from(id1, p1));
    lemma_push_fresh_keeps_unique(mid.table, task_from(id2, p2));
}

/// A run of creates, each one succeeding against the store the previous one
/// left: `states` holds the store before the first and after each create.
pub open spec fn create_chain(
    ctx: Map<u64, u64>,
    states: Seq<StoreView>,
    ps: Seq<PayloadView>,
    ids: Seq<u128>,
    ts: Seq<TaskView>,
) -> bool {
    &&& states.len() == ps.len() + 1
    &&& ids.len() == ps.len()
    &&& ts.len() == ps.len()
    &&& forall|i: int|
        0 <= i < ps.len() ==> #[trigger] create_post(
            ctx,
            states[i],
            ps[i],
            ids[i],
            states[i + 1],
            Ok(ts[i]),
        )
}

/// Law: however many creates succeed in a run against the serialized
/// handle, the store afterwards holds one entity per create, all with
/// pairwise distinct identifiers, and nothing else changed in count.
pub proof fn lemma_create_chain_distinct(
    ctx: Map<u64, u64>,
    states: Seq<StoreView>,
    ps: Seq<PayloadView>,
    ids: Seq<u128>,
    ts: Seq<TaskView>,
)
    requires
        store_wf(states.first()),
        create_chain(ctx, states, ps, ids, ts),
    ensures
        states.last().table.len() == states.first().table.len() + ts.len(),
        forall|i: int, j: int| 0 <= i < j < ts.len() ==> ts[i].id != ts[j].id,
        forall|i: int| 0 <= i < ts.len() ==> has_id(states.last().table, #[trigger] ts[i].id),
        store_wf(states.last()),
    decreases ps.len(),
{
    let n = ps.len() as int;
    if n == 0 {
        assert(states.last() == states.first());
    } else {
        let states2 = states.take(n);
        let ps2 = ps.take(n - 1);
        let ids2 = ids.take(n - 1);
        let ts2 = ts.take(n - 1);
        assert forall|i: int| 0 <= i < ps2.len() implies #[trigger] create_post(
            ctx,
            states2[i],
            ps2[i],
            ids2[i],
            states2[i + 1],
            Ok(ts2[i]),
        ) by {
            assert(create_post(ctx, states[i], ps[i], ids[i], states[i + 1], Ok(ts[i])));
        }
        assert(states2.first() == states.first());
        lemma_create_chain_distinct(ctx, states2, ps2, ids2, ts2);
        assert(states2.last() == states[n - 1]);
        assert(create_post(ctx, states[n - 1], ps[n - 1], ids[n - 1], states[n], Ok(ts[n - 1])));
        assert(states.last() == states[n]);
        assert(states[n].table == states[n - 1].table.push(task_from(ids[n - 1], ps[n - 1])));
        assert(ts[n - 1] == task_from(ids[n - 1], ps[n - 1]));
        lemma_push_fresh_keeps_unique(states[n - 1].table, task_from(ids[n - 1], ps[n - 1]));
        assert forall|i: int| 0 <= i < n implies has_id(states.last().table, #[trigger] ts[i].id) by {
            if i < n - 1 {
                assert(has_id(states[n - 1].table, ts2[i].id));
                let k = choose|k: int|
                    0 <= k < states[n - 1].table.len() && #[trigger] states[n - 1].table[k].id
                        == ts[i].id;
                assert(states.last().table[k].id == ts[i].id);
            } else {
                assert(states.last().table[states[n - 1].table.len() as int] == ts[n - 1]);
            }
        }
        assert forall|i: int, j: int| 0 <= i < j < n implies ts[i].id != ts[j].id by {
            if j < n - 1 {
                assert(ts2[i].id != ts2[j].id);
            } else {
                assert(!has_id(states[n - 1].table, ids[n - 1]));
                if ts[i].id == ts[n - 1].id {
                    assert(has_id(states[n - 1].table, ts2[i].id));
                    let k = choose|k: int|
                        0 <= k < states[n - 1].table.len() && #[trigger] states[n - 1].table[k].id
                            == ts[i].id;
                    assert(states[n - 1].table[k].id == ids[n - 1]);
                    assert(has_id(states[n - 1].table, ids[n - 1]));
                }
            }
        }
    }
}

} // verus!
