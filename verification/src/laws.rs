//! Store-wide laws: properties that relate several operations, stated and
//! proved over the same spec functions the operations' contracts use.
//!
//! An operation sequence is modelled as a `Seq<Op>`. Each operation's
//! `ensures` pins its whole effect: a create returns the counter's value
//! and advances it by one, a like or delete leaves the counter alone, and
//! the contents step by `step_post` / `step_like` / `step_delete`; the
//! lemmas here quantify over chains of those steps.

use vstd::prelude::*;

verus! {

use crate::store::Tweet;
use crate::store::found;
use crate::store::has_id;
use crate::store::ids_strictly_increasing;
use crate::store::idx_of;
use crate::store::liked;
use crate::store::page;
use crate::store::step_delete;
use crate::store::step_like;
use crate::store::store_wf;

/// One store operation, with the inputs the corresponding exec operation
/// takes.
pub enum Op {
    /// A create: always succeeds, stores a new record.
    Post { author: String, text: String, timestamp: u64 },
    /// A like of the post with this id.
    Like { id: u64 },
    /// A delete of the post with this id, attempted by `caller`.
    Delete { id: u64, caller: String },
}

/// How many of the operations are creates.
pub open spec fn created_count(ops: Seq<Op>) -> nat
    decreases ops.len(),
{
    if ops.len() == 0 {
        0
    } else {
        (match ops[0] {
            Op::Post { .. } => 1 as nat,
            _ => 0 as nat,
        }) + created_count(ops.drop_first())
    }
}

/// The counter after one operation: a create advances it by one, nothing
/// else touches it.
pub open spec fn step_next(next: u64, op: Op) -> u64 {
    match op {
        Op::Post { .. } => (next + 1) as u64,
        _ => next,
    }
}

/// The counter after a chain of operations starting from `next`.
pub open spec fn run_next(next: u64, ops: Seq<Op>) -> u64
    decreases ops.len(),
{
    if ops.len() == 0 {
        next
    } else {
        run_next(step_next(next, ops[0]), ops.drop_first())
    }
}

/// The counter counts creates: any chain of operations advances it by
/// exactly the number of successful creates — so from a fresh store it
/// always equals the number of posts ever created, deletions
/// notwithstanding.
pub proof fn lemma_next_counts_creates(next: u64, ops: Seq<Op>)
    requires
        next + created_count(ops) <= u64::MAX,
    ensures
        run_next(next, ops) == next + created_count(ops),
    decreases ops.len(),
{
    if ops.len() > 0 {
        lemma_next_counts_creates(step_next(next, ops[0]), ops.drop_first());
    }
}

/// The ids the creates in `ops` return, in call order, when the counter
/// starts at `next`. A create returns the counter's current value; likes
/// and deletes leave the counter alone.
pub open spec fn created_ids(next: u64, ops: Seq<Op>) -> Seq<u64>
    decreases ops.len(),
{
    if ops.len() == 0 {
        Seq::empty()
    } else {
        let rest = created_ids(step_next(next, ops[0]), ops.drop_first());
        match ops[0] {
            Op::Post { .. } => seq![next] + rest,
            _ => rest,
        }
    }
}

/// Monotonic ids: with the counter at `next`, any operation sequence
/// hands its successful creates exactly the ids `next, next + 1, …`, in
/// call order, regardless of interleaved likes and deletes.
pub proof fn lemma_monotonic_ids(next: u64, ops: Seq<Op>)
    requires
        next + created_count(ops) <= u64::MAX,
    ensures
        created_ids(next, ops) == Seq::new(created_count(ops), |k: int| (next + k) as u64),
    decreases ops.len(),
{
    let ids = created_ids(next, ops);
    let want = Seq::new(created_count(ops), |k: int| (next + k) as u64);
    if ops.len() == 0 {
        assert(ids =~= want);
    } else {
        lemma_monotonic_ids(step_next(next, ops[0]), ops.drop_first());
        assert(ids =~= want);
    }
}

/// From a fresh store, N successful creates return exactly the ids
/// `0, 1, …, N − 1` in call order.
pub proof fn lemma_monotonic_ids_from_new(ops: Seq<Op>)
    requires
        created_count(ops) <= u64::MAX,
    ensures
        created_ids(0, ops) == Seq::new(created_count(ops), |k: int| k as u64),
{
    lemma_monotonic_ids(0, ops);
    assert(Seq::new(created_count(ops), |k: int| (0 + k) as u64) =~= Seq::new(
        created_count(ops),
        |k: int| k as u64,
    ));
}

/// Id non-reuse: an id stored now — in particular one about to be
/// deleted — sits below the counter, and every future create returns an
/// id at or above it, so a deleted id is never handed out again.
pub proof fn lemma_id_non_reuse(posts: Seq<Tweet>, next: u64, k: u64, ops: Seq<Op>)
    requires
        store_wf(posts, next),
        has_id(posts, k),
        next + created_count(ops) <= u64::MAX,
    ensures
        !created_ids(next, ops).contains(k),
{
    let w = choose|i: int| 0 <= i < posts.len() && posts[i].id == k;
    assert(posts[w].id < next);
    lemma_monotonic_ids(next, ops);
    if created_ids(next, ops).contains(k) {
        let j = choose|j: int|
            0 <= j < created_ids(next, ops).len() && created_ids(next, ops)[j] == k;
        assert(created_ids(next, ops)[j] == (next + j) as u64);
        assert(false);
    }
}

/// Ownership gate: a delete by anyone but the author leaves the store —
/// and so the post, still retrievable unchanged — exactly as it was; a
/// delete by the author removes the post, and no record with its id
/// remains.
pub proof fn lemma_ownership_gate(posts: Seq<Tweet>, id: u64, caller: String)
    requires
        ids_strictly_increasing(posts),
        has_id(posts, id),
    ensures
        found(posts, id).author@ != caller@ ==> step_delete(posts, id, caller) == posts,
        found(posts, id).author@ == caller@ ==> step_delete(posts, id, caller) == posts.remove(
            idx_of(posts, id),
        ) && !has_id(step_delete(posts, id, caller), id),
{
    let i = idx_of(posts, id);
    assert(0 <= i < posts.len() && posts[i].id == id);
    if found(posts, id).author@ == caller@ {
        let rem = posts.remove(i);
        posts.remove_ensures(i);
        if has_id(rem, id) {
            let j = choose|j: int| 0 <= j < rem.len() && rem[j].id == id;
            if j < i {
                assert(rem[j] == posts[j]);
                assert(posts[j].id < posts[i].id);
            } else {
                assert(rem[j] == posts[j + 1]);
                assert(posts[i].id < posts[j + 1].id);
            }
            assert(false);
        }
    }
}

/// The store after `n` sequential likes of the same id.
pub open spec fn run_likes(posts: Seq<Tweet>, id: u64, n: nat) -> Seq<Tweet>
    decreases n,
{
    if n == 0 {
        posts
    } else {
        step_like(run_likes(posts, id, (n - 1) as nat), id)
    }
}

/// Like accumulation: `n` sequential likes of a stored post add exactly
/// `n` to its like counter and change nothing else.
pub proof fn lemma_like_accumulation(posts: Seq<Tweet>, id: u64, n: nat)
    requires
        ids_strictly_increasing(posts),
        has_id(posts, id),
        found(posts, id).likes + n <= u64::MAX,
    ensures
        run_likes(posts, id, n) == posts.update(
            idx_of(posts, id),
            (Tweet { likes: (found(posts, id).likes + n) as u64, ..found(posts, id) }),
        ),
    decreases n,
{
    let i = idx_of(posts, id);
    assert(0 <= i < posts.len() && posts[i].id == id);
    if n == 0 {
        assert(run_likes(posts, id, n) =~= posts.update(
            i,
            (Tweet { likes: (found(posts, id).likes + 0) as u64, ..found(posts, id) }),
        ));
    } else {
        lemma_like_accumulation(posts, id, (n - 1) as nat);
        let mid = run_likes(posts, id, (n - 1) as nat);
        let t_mid = Tweet { likes: (found(posts, id).likes + (n - 1)) as u64, ..found(posts, id) };
        assert(mid == posts.update(i, t_mid));
        assert(mid[i] == t_mid);
        assert(forall|j: int| 0 <= j < mid.len() && j != i ==> mid[j] == posts[j]);
        assert(ids_strictly_increasing(mid));
        crate::store::lemma_idx_of_is(mid, id, i);
        assert(liked(t_mid) == (Tweet {
            likes: (found(posts, id).likes + n) as u64,
            ..found(posts, id)
        }));
        assert(step_like(mid, id) =~= posts.update(
            i,
            (Tweet { likes: (found(posts, id).likes + n) as u64, ..found(posts, id) }),
        ));
    }
}

/// A like of an absent id leaves the store unchanged, however often it is
/// attempted.
pub proof fn lemma_like_absent(posts: Seq<Tweet>, id: u64, n: nat)
    requires
        !has_id(posts, id),
    ensures
        run_likes(posts, id, n) == posts,
    decreases n,
{
    if n > 0 {
        lemma_like_absent(posts, id, (n - 1) as nat);
    }
}

/// Idempotent deletion of an absent id: deleting an id that was never
/// created, or was already deleted, changes nothing, whoever calls.
pub proof fn lemma_delete_absent(posts: Seq<Tweet>, id: u64, caller: String)
    requires
        !has_id(posts, id),
    ensures
        step_delete(posts, id, caller) == posts,
{
}

/// An offset at or past the number of entries yields the empty page.
pub proof fn lemma_page_past_end(s: Seq<Tweet>, start: int, limit: int)
    requires
        s.len() <= start,
        0 <= limit,
    ensures
        page(s, start, limit) == Seq::<Tweet>::empty(),
{
    assert(page(s, start, limit) =~= Seq::<Tweet>::empty());
}

/// With offset 0 and a limit at or above the number of entries, a page is
/// the whole sequence: the author filter's contract over pages therefore
/// equals filtering the full ascending enumeration and slicing it.
pub proof fn lemma_page_whole(s: Seq<Tweet>, limit: int)
    requires
        s.len() <= limit,
    ensures
        page(s, 0, limit) == s,
{
    assert(page(s, 0, limit) =~= s);
}

} // verus!
