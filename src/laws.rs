use vstd::prelude::*;
use crate::account::fits_limits;
use crate::store::{
    create_step, delete_step, open_count_step, stored_entry_ok, update_step, JournalView,
};

verus! {

/// One operation on the store, as mathematical values.
pub ghost enum Op {
    OpenCount { owner: Seq<u8> },
    Create { owner: Seq<u8>, title: Seq<char>, content: Seq<char>, now: i64 },
    Update { owner: Seq<u8>, id: u64, title: Seq<char>, content: Seq<char>, now: i64 },
    Delete { owner: Seq<u8>, id: u64 },
}

/// The store after one operation.
pub open spec fn apply(v: JournalView, op: Op) -> JournalView {
    match op {
        Op::OpenCount { owner } => open_count_step(v, owner),
        Op::Create { owner, title, content, now } => create_step(v, owner, title, content, now).0,
        Op::Update { owner, id, title, content, now } => update_step(
            v,
            owner,
            id,
            title,
            content,
            now,
        ).0,
        Op::Delete { owner, id } => delete_step(v, owner, id).0,
    }
}

/// The store after a sequence of operations, applied in order.
pub open spec fn run(v: JournalView, ops: Seq<Op>) -> JournalView
    decreases ops.len(),
{
    if ops.len() == 0 {
        v
    } else {
        apply(run(v, ops.drop_last()), ops.last())
    }
}

/// The ids that the successful creations for `owner` returned, in order.
pub open spec fn created_ids(v: JournalView, ops: Seq<Op>, owner: Seq<u8>) -> Seq<u64>
    decreases ops.len(),
{
    if ops.len() == 0 {
        Seq::empty()
    } else {
        let before = created_ids(v, ops.drop_last(), owner);
        match ops.last() {
            Op::Create { owner: o, title, content, now } => {
                match create_step(run(v, ops.drop_last()), o, title, content, now).1 {
                    Ok(id) => if o == owner {
                        before.push(id)
                    } else {
                        before
                    },
                    Err(_) => before,
                }
            },
            _ => before,
        }
    }
}

/// The count from which `owner`'s ids continue: its counter, or zero when it
/// has none yet.
pub open spec fn base_count(v: JournalView, owner: Seq<u8>) -> nat {
    if v.counts.contains_key(owner) {
        v.counts[owner] as nat
    } else {
        0
    }
}

/// Every operation keeps each stored entry within the length limits.
pub proof fn lemma_limits_kept(v: JournalView, op: Op)
    requires
        v.wf(),
    ensures
        apply(v, op).wf(),
        forall|k: (u64, Seq<u8>)| #[trigger]
            apply(v, op).entries.contains_key(k) ==> fits_limits(
                apply(v, op).entries[k].title,
                apply(v, op).entries[k].content,
            ),
{
    let w = apply(v, op);
    assert forall|k: (u64, Seq<u8>)| #[trigger] w.entries.contains_key(k) implies stored_entry_ok(
        w,
        k,
    ) by {
        if v.entries.contains_key(k) {
            assert(stored_entry_ok(v, k));
        }
    }
}

/// A creation or update with a title or content over its limit is refused
/// and leaves the store as it was.
pub proof fn lemma_over_limit_refused(
    v: JournalView,
    owner: Seq<u8>,
    id: u64,
    title: Seq<char>,
    content: Seq<char>,
    now: i64,
)
    requires
        !fits_limits(title, content),
    ensures
        create_step(v, owner, title, content, now).1 is Err,
        create_step(v, owner, title, content, now).0 == v,
        update_step(v, owner, id, title, content, now).1 is Err,
        update_step(v, owner, id, title, content, now).0 == v,
{
}

/// Operations in sequence keep the store well formed.
pub proof fn lemma_run_wf(v: JournalView, ops: Seq<Op>)
    requires
        v.wf(),
    ensures
        run(v, ops).wf(),
    decreases ops.len(),
{
    if ops.len() > 0 {
        lemma_run_wf(v, ops.drop_last());
        lemma_limits_kept(run(v, ops.drop_last()), ops.last());
    }
}

/// The ids given to `owner` continue its counter one by one, whatever other
/// operations come between, and the counter ends at the last of them.
pub proof fn lemma_ids_follow_counter(v: JournalView, ops: Seq<Op>, owner: Seq<u8>)
    requires
        v.wf(),
    ensures
        forall|k: int|
            0 <= k < created_ids(v, ops, owner).len() ==> #[trigger] created_ids(v, ops, owner)[k]
                == base_count(v, owner) + k + 1,
        run(v, ops).counts.contains_key(owner) ==> run(v, ops).counts[owner] == base_count(v, owner)
            + created_ids(v, ops, owner).len(),
        !run(v, ops).counts.contains_key(owner) ==> created_ids(v, ops, owner).len() == 0,
        v.counts.contains_key(owner) ==> run(v, ops).counts.contains_key(owner),
    decreases ops.len(),
{
    if ops.len() > 0 {
        lemma_ids_follow_counter(v, ops.drop_last(), owner);
        lemma_run_wf(v, ops.drop_last());
    }
}

/// Starting from a fresh counter for `owner`, the n-th successful creation
/// for `owner` (counting from one) returns id n, and afterwards the counter
/// stands at the number of successful creations.
pub proof fn lemma_nth_create_id(v: JournalView, ops: Seq<Op>, owner: Seq<u8>)
    requires
        v.wf(),
        !v.counts.contains_key(owner) || v.counts[owner] == 0,
    ensures
        forall|k: int|
            0 <= k < created_ids(v, ops, owner).len() ==> #[trigger] created_ids(v, ops, owner)[k]
                == k + 1,
        run(v, ops).counts.contains_key(owner) ==> run(v, ops).counts[owner] == created_ids(
            v,
            ops,
            owner,
        ).len(),
{
    lemma_ids_follow_counter(v, ops, owner);
}

/// Creations for one owner never return the same id twice, nor the id of an
/// entry that the owner already has.
pub proof fn lemma_unique_ids(v: JournalView, ops: Seq<Op>, owner: Seq<u8>)
    requires
        v.wf(),
    ensures
        forall|a: int, b: int|
            0 <= a < b < created_ids(v, ops, owner).len() ==> #[trigger] created_ids(v, ops, owner)[a]
                < #[trigger] created_ids(v, ops, owner)[b],
        forall|a: int, id: u64|
            0 <= a < created_ids(v, ops, owner).len() && #[trigger] v.entries.contains_key((id, owner))
                ==> #[trigger] created_ids(v, ops, owner)[a] != id,
{
    lemma_ids_follow_counter(v, ops, owner);
    assert forall|a: int, id: u64|
        0 <= a < created_ids(v, ops, owner).len() && #[trigger] v.entries.contains_key(
            (id, owner),
        ) implies #[trigger] created_ids(v, ops, owner)[a] != id by {
        assert(stored_entry_ok(v, (id, owner)));
    }
}

/// After a successful deletion the entry is gone, so looking it up finds
/// nothing, and no later creation for the owner returns its id again.
pub proof fn lemma_deleted_id_not_reused(v: JournalView, owner: Seq<u8>, id: u64, ops: Seq<Op>)
    requires
        v.wf(),
    ensures
        delete_step(v, owner, id).1 is Ok ==> !delete_step(v, owner, id).0.entries.contains_key(
            (id, owner),
        ),
        delete_step(v, owner, id).1 is Ok ==> forall|a: int|
            0 <= a < created_ids(delete_step(v, owner, id).0, ops, owner).len() ==> #[trigger] created_ids(
                delete_step(v, owner, id).0,
                ops,
                owner,
            )[a] != id,
{
    let w = delete_step(v, owner, id).0;
    if delete_step(v, owner, id).1 is Ok {
        assert(stored_entry_ok(v, (id, owner)));
        lemma_limits_kept(v, Op::Delete { owner, id });
        lemma_ids_follow_counter(w, ops, owner);
    }
}

/// An update keeps the entry's id, owner and creation time, and sets its
/// update time to `now`; with a clock that does not go back, the update
/// time never decreases. A refused update changes nothing.
pub proof fn lemma_update_keeps_identity(
    v: JournalView,
    owner: Seq<u8>,
    id: u64,
    title: Seq<char>,
    content: Seq<char>,
    now: i64,
)
    requires
        v.wf(),
        v.entries.contains_key((id, owner)) ==> v.entries[(id, owner)].updated_at <= now,
    ensures
        ({
            let (w, r) = update_step(v, owner, id, title, content, now);
            &&& r is Err ==> w == v
            &&& r is Ok ==> {
                let e = v.entries[(id, owner)];
                let f = w.entries[(id, owner)];
                &&& w.entries.contains_key((id, owner))
                &&& f.id == e.id && f.id == id
                &&& f.owner == e.owner && f.owner == owner
                &&& f.created_at == e.created_at
                &&& f.updated_at == now
                &&& f.updated_at >= e.updated_at
                &&& f.title == title && f.content == content
            }
            &&& w.counts == v.counts
        }),
{
    if v.entries.contains_key((id, owner)) {
        assert(stored_entry_ok(v, (id, owner)));
    }
}

} // verus!
