//! The order in which a scan writes to the database.
//!
//! Tracks are kept some at a time, each lot in a transaction of its own: a scan that
//! breaks off keeps the lots before. Tidying up comes in one transaction at the end.

use vstd::prelude::*;

use crate::scan::progress::Phase;

verus! {

/// How many tracks are kept in one transaction.
pub const TX_CHUNK: usize = 1000;

/// Something to be done.
#[derive(Debug, Clone, Copy, PartialEq, Eq, Structural)]
pub enum Task {
    /// Count the albums.
    CountAlbums,
    /// Report that a phase begins, with so many steps.
    Enter(Phase, usize),
    /// Begin a transaction.
    Begin,
    /// Keep a track.
    Keep(usize),
    /// Run a statement that tidies up.
    Tidy(usize),
    /// End a transaction, in which so many tracks were kept.
    Commit(usize),
}

/// How many tracks the lot from `from` on holds, of `n` in all.
pub open spec fn lot(from: int, n: int) -> int {
    if n - from > TX_CHUNK {
        TX_CHUNK as int
    } else {
        n - from
    }
}

/// `k` tracks from `from` on.
pub open spec fn keeps(from: int, k: int) -> Seq<Task> {
    Seq::new(k as nat, |i: int| Task::Keep((from + i) as usize))
}

/// The tracks from `from` on, of `n` in all, in lots.
pub open spec fn lots(from: int, n: int) -> Seq<Task>
    decreases n - from,
{
    if from >= n {
        Seq::empty()
    } else {
        let k = lot(from, n);
        seq![Task::Begin] + keeps(from, k) + seq![Task::Commit(k as usize)] + lots(from + k, n)
    }
}

/// `m` statements that tidy up.
pub open spec fn tidying(m: int) -> Seq<Task> {
    Seq::new(m as nat, |i: int| Task::Tidy(i as usize))
}

/// What a scan does with `n` tracks whose tags were read, and with `m` statements
/// that tidy up.
pub open spec fn schedule_of(n: int, m: int) -> Seq<Task> {
    seq![Task::CountAlbums, Task::Enter(Phase::Upsert, n as usize)] + lots(0, n) + seq![
        Task::Enter(Phase::Postprocess, 0),
        Task::Begin,
    ] + tidying(m) + seq![Task::Commit(0), Task::CountAlbums]
}

fn push_lot(out: &mut Vec<Task>, from: usize, k: usize)
    requires
        from + k <= usize::MAX,
    ensures
        final(out)@ == old(out)@ + (seq![Task::Begin] + keeps(from as int, k as int) + seq![
            Task::Commit(k),
        ]),
{
    let ghost before = out@;
    out.push(Task::Begin);
    let mut i: usize = 0;
    assert(out@ =~= before + (seq![Task::Begin] + keeps(from as int, 0)));
    while i < k
        invariant
            i <= k,
            from + k <= usize::MAX,
            out@ == before + (seq![Task::Begin] + keeps(from as int, i as int)),
        decreases k - i,
    {
        out.push(Task::Keep(from + i));
        i = i + 1;
        assert(out@ =~= before + (seq![Task::Begin] + keeps(from as int, i as int)));
    }
    out.push(Task::Commit(k));
    assert(out@ =~= before + (seq![Task::Begin] + keeps(from as int, k as int) + seq![
        Task::Commit(k),
    ]));
}

/// What a scan does once the tags are read, in order.
pub fn schedule(n: usize, m: usize) -> (r: Vec<Task>)
    ensures
        r@ == schedule_of(n as int, m as int),
{
    let mut out: Vec<Task> = Vec::new();
    out.push(Task::CountAlbums);
    out.push(Task::Enter(Phase::Upsert, n));
    let ghost head = seq![Task::CountAlbums, Task::Enter(Phase::Upsert, n)];
    assert(out@ =~= head);
    let mut from: usize = 0;
    assert(out@ + lots(0, n as int) =~= head + lots(0, n as int));
    while from < n
        invariant
            from <= n,
            out@ + lots(from as int, n as int) == head + lots(0, n as int),
        decreases n - from,
    {
        let k: usize = if n - from > TX_CHUNK { TX_CHUNK } else { n - from };
        let ghost before = out@;
        push_lot(&mut out, from, k);
        proof {
            let rest = lots(from + k, n as int);
            let own = seq![Task::Begin] + keeps(from as int, k as int) + seq![Task::Commit(k)];
            assert(lots(from as int, n as int) == own + rest);
            assert(before + own + rest =~= before + (own + rest));
        }
        from = from + k;
    }
    assert(out@ =~= head + lots(0, n as int));
    let ghost kept = out@;
    out.push(Task::Enter(Phase::Postprocess, 0));
    out.push(Task::Begin);
    let ghost opened = out@;
    assert(opened =~= kept + seq![Task::Enter(Phase::Postprocess, 0), Task::Begin]);
    let mut i: usize = 0;
    assert(out@ =~= opened + tidying(0));
    while i < m
        invariant
            i <= m,
            out@ == opened + tidying(i as int),
        decreases m - i,
    {
        out.push(Task::Tidy(i));
        i = i + 1;
        assert(out@ =~= opened + tidying(i as int));
    }
    out.push(Task::Commit(0));
    out.push(Task::CountAlbums);
    assert(out@ =~= schedule_of(n as int, m as int));
    out
}

// ── What holds of every schedule ─────────────────────────────────────────

/// Which tracks are kept, in order.
pub open spec fn kept_tracks(tasks: Seq<Task>) -> Seq<int>
    decreases tasks.len(),
{
    if tasks.len() == 0 {
        Seq::empty()
    } else {
        let before = kept_tracks(tasks.drop_last());
        match tasks.last() {
            Task::Keep(i) => before.push(i as int),
            _ => before,
        }
    }
}

proof fn lemma_kept_concat(a: Seq<Task>, b: Seq<Task>)
    ensures
        kept_tracks(a + b) == kept_tracks(a) + kept_tracks(b),
    decreases b.len(),
{
    if b.len() == 0 {
        assert(a + b =~= a);
        assert(kept_tracks(a) + kept_tracks(b) =~= kept_tracks(a));
    } else {
        lemma_kept_concat(a, b.drop_last());
        assert((a + b).drop_last() =~= a + b.drop_last());
        assert((a + b).last() == b.last());
        assert(kept_tracks(a + b) =~= kept_tracks(a) + kept_tracks(b));
    }
}

proof fn lemma_kept_none(tasks: Seq<Task>)
    requires
        forall|i: int| 0 <= i < tasks.len() ==> !(#[trigger] tasks[i] is Keep),
    ensures
        kept_tracks(tasks) == Seq::<int>::empty(),
    decreases tasks.len(),
{
    if tasks.len() > 0 {
        assert(tasks.last() == tasks[tasks.len() - 1]);
        lemma_kept_none(tasks.drop_last());
    }
}

proof fn lemma_kept_keeps(from: int, k: int)
    requires
        0 <= from,
        0 <= k,
        from + k <= usize::MAX,
    ensures
        kept_tracks(keeps(from, k)) == Seq::new(k as nat, |i: int| from + i),
    decreases k,
{
    if k > 0 {
        lemma_kept_keeps(from, k - 1);
        assert(keeps(from, k).drop_last() =~= keeps(from, k - 1));
        assert(keeps(from, k).last() == Task::Keep((from + k - 1) as usize));
    }
    assert(kept_tracks(keeps(from, k)) =~= Seq::new(k as nat, |i: int| from + i));
}

proof fn lemma_kept_lots(from: int, n: int)
    requires
        0 <= from <= n <= usize::MAX,
    ensures
        kept_tracks(lots(from, n)) == Seq::new((n - from) as nat, |i: int| from + i),
    decreases n - from,
{
    if from < n {
        let k = lot(from, n);
        let rest = lots(from + k, n);
        lemma_kept_lots(from + k, n);
        lemma_kept_keeps(from, k);
        lemma_kept_none(seq![Task::Begin]);
        lemma_kept_none(seq![Task::Commit(k as usize)]);
        lemma_kept_concat(seq![Task::Begin], keeps(from, k));
        lemma_kept_concat(
            seq![Task::Begin] + keeps(from, k),
            seq![Task::Commit(k as usize)],
        );
        lemma_kept_concat(
            seq![Task::Begin] + keeps(from, k) + seq![Task::Commit(k as usize)],
            rest,
        );
    }
    assert(kept_tracks(lots(from, n)) =~= Seq::new((n - from) as nat, |i: int| from + i));
}

/// Every track is kept once, in the order in which the tracks were read.
pub proof fn every_track_is_kept_once(n: int, m: int)
    requires
        0 <= n <= usize::MAX,
        0 <= m <= usize::MAX,
    ensures
        kept_tracks(schedule_of(n, m)) == Seq::new(n as nat, |i: int| i),
{
    let head = seq![Task::CountAlbums, Task::Enter(Phase::Upsert, n as usize)];
    let turn = seq![Task::Enter(Phase::Postprocess, 0), Task::Begin];
    let end = seq![Task::Commit(0), Task::CountAlbums];
    lemma_kept_none(head);
    lemma_kept_none(turn);
    lemma_kept_none(tidying(m));
    lemma_kept_none(end);
    lemma_kept_lots(0, n);
    lemma_kept_concat(head, lots(0, n));
    lemma_kept_concat(head + lots(0, n), turn);
    lemma_kept_concat(head + lots(0, n) + turn, tidying(m));
    lemma_kept_concat(head + lots(0, n) + turn + tidying(m), end);
    assert(kept_tracks(schedule_of(n, m)) =~= Seq::new(n as nat, |i: int| i));
}

/// Whether a transaction is open, and how many tracks it holds.
pub enum Held {
    Outside,
    Inside(nat),
    /// Something was done where it must not be.
    Broken,
}

/// What a task does to the transaction: nothing is written outside one, none holds
/// more than `TX_CHUNK` tracks, and its end says how many it holds.
pub open spec fn after_task(held: Held, t: Task) -> Held {
    match (held, t) {
        (Held::Outside, Task::Begin) => Held::Inside(0),
        (Held::Outside, Task::CountAlbums) => Held::Outside,
        (Held::Outside, Task::Enter(_, _)) => Held::Outside,
        (Held::Inside(j), Task::Keep(_)) => if j < TX_CHUNK {
            Held::Inside(j + 1)
        } else {
            Held::Broken
        },
        (Held::Inside(j), Task::Tidy(_)) => Held::Inside(j),
        (Held::Inside(j), Task::Commit(k)) => if j == k {
            Held::Outside
        } else {
            Held::Broken
        },
        _ => Held::Broken,
    }
}

pub open spec fn after_tasks(held: Held, tasks: Seq<Task>) -> Held
    decreases tasks.len(),
{
    if tasks.len() == 0 {
        held
    } else {
        after_task(after_tasks(held, tasks.drop_last()), tasks.last())
    }
}

proof fn lemma_after_concat(held: Held, a: Seq<Task>, b: Seq<Task>)
    ensures
        after_tasks(held, a + b) == after_tasks(after_tasks(held, a), b),
    decreases b.len(),
{
    if b.len() == 0 {
        assert(a + b =~= a);
    } else {
        lemma_after_concat(held, a, b.drop_last());
        assert((a + b).drop_last() =~= a + b.drop_last());
        assert((a + b).last() == b.last());
    }
}

proof fn lemma_after_one(held: Held, t: Task)
    ensures
        after_tasks(held, seq![t]) == after_task(held, t),
{
    assert(seq![t].drop_last() =~= Seq::empty());
    assert(after_tasks(held, Seq::empty()) == held);
    assert(seq![t].last() == t);
}

proof fn lemma_after_keeps(from: int, k: int)
    requires
        0 <= k <= TX_CHUNK,
    ensures
        after_tasks(Held::Inside(0), keeps(from, k)) == Held::Inside(k as nat),
    decreases k,
{
    if k > 0 {
        lemma_after_keeps(from, k - 1);
        assert(keeps(from, k).drop_last() =~= keeps(from, k - 1));
        assert(keeps(from, k).last() == Task::Keep((from + k - 1) as usize));
    }
}

proof fn lemma_after_lots(from: int, n: int)
    requires
        0 <= from <= n <= usize::MAX,
    ensures
        after_tasks(Held::Outside, lots(from, n)) == Held::Outside,
    decreases n - from,
{
    if from < n {
        let k = lot(from, n);
        let opened = seq![Task::Begin];
        let closed = seq![Task::Commit(k as usize)];
        lemma_after_one(Held::Outside, Task::Begin);
        lemma_after_concat(Held::Outside, opened, keeps(from, k));
        lemma_after_keeps(from, k);
        lemma_after_one(Held::Inside(k as nat), Task::Commit(k as usize));
        lemma_after_concat(Held::Outside, opened + keeps(from, k), closed);
        lemma_after_concat(
            Held::Outside,
            opened + keeps(from, k) + closed,
            lots(from + k, n),
        );
        lemma_after_lots(from + k, n);
    }
}

proof fn lemma_after_tidying(m: int)
    requires
        0 <= m,
    ensures
        after_tasks(Held::Inside(0), tidying(m)) == Held::Inside(0),
    decreases m,
{
    if m > 0 {
        lemma_after_tidying(m - 1);
        assert(tidying(m).drop_last() =~= tidying(m - 1));
        assert(tidying(m).last() == Task::Tidy((m - 1) as usize));
    }
}

/// Everything is written inside a transaction, none of which holds more than
/// `TX_CHUNK` tracks, and every transaction is brought to its end before another
/// begins.
pub proof fn writes_are_in_transactions(n: int, m: int)
    requires
        0 <= n <= usize::MAX,
        0 <= m <= usize::MAX,
    ensures
        after_tasks(Held::Outside, schedule_of(n, m)) == Held::Outside,
{
    let a = seq![Task::CountAlbums];
    let b = seq![Task::Enter(Phase::Upsert, n as usize)];
    let head = seq![Task::CountAlbums, Task::Enter(Phase::Upsert, n as usize)];
    lemma_after_one(Held::Outside, Task::CountAlbums);
    lemma_after_one(Held::Outside, Task::Enter(Phase::Upsert, n as usize));
    lemma_after_concat(Held::Outside, a, b);
    assert(a + b =~= head);
    lemma_after_lots(0, n);
    lemma_after_concat(Held::Outside, head, lots(0, n));
    let c = seq![Task::Enter(Phase::Postprocess, 0)];
    let d = seq![Task::Begin];
    let turn = seq![Task::Enter(Phase::Postprocess, 0), Task::Begin];
    lemma_after_one(Held::Outside, Task::Enter(Phase::Postprocess, 0));
    lemma_after_one(Held::Outside, Task::Begin);
    lemma_after_concat(Held::Outside, c, d);
    assert(c + d =~= turn);
    lemma_after_concat(Held::Outside, head + lots(0, n), turn);
    lemma_after_tidying(m);
    lemma_after_concat(Held::Outside, head + lots(0, n) + turn, tidying(m));
    let e = seq![Task::Commit(0)];
    let end = seq![Task::Commit(0), Task::CountAlbums];
    lemma_after_one(Held::Inside(0), Task::Commit(0));
    lemma_after_concat(Held::Inside(0), e, a);
    assert(e + a =~= end);
    lemma_after_concat(Held::Outside, head + lots(0, n) + turn + tidying(m), end);
}

/// The albums are counted before anything is written and again when all is done. Tidying
/// up comes behind every track, each of its statements once and in order, in a transaction
/// of its own.
pub proof fn tidying_up_comes_last(n: usize, m: usize, r: Vec<Task>)
    requires
        call_ensures(schedule, (n, m), r),
    ensures
        r@.len() >= m + 6,
        r@[0] == Task::CountAlbums,
        r@.last() == Task::CountAlbums,
        r@[r@.len() - 2] == Task::Commit(0),
        r@[r@.len() - m - 3] == Task::Begin,
        forall|i: int|
            0 <= i < m ==> #[trigger] r@[r@.len() - m - 2 + i] == Task::Tidy(i as usize),
        forall|j: int|
            0 <= j < r@.len() && #[trigger] r@[j] is Keep ==> j < r@.len() - m - 2,
        forall|j: int|
            0 <= j < r@.len() - m - 2 ==> !(#[trigger] r@[j] is Tidy),
{
    let all = r@;
    let head = seq![Task::CountAlbums, Task::Enter(Phase::Upsert, n)];
    let kept = lots(0, n as int);
    let turn = seq![Task::Enter(Phase::Postprocess, 0), Task::Begin];
    let end = seq![Task::Commit(0), Task::CountAlbums];
    let tidy = tidying(m as int);
    assert(all =~= head + kept + turn + tidy + end);
    let from = all.len() - m - 2;
    assert(from == head.len() + kept.len() + turn.len());
    assert(all[from - 1] == turn[1]);
    assert forall|i: int| 0 <= i < m implies #[trigger] all[all.len() - m - 2 + i] == Task::Tidy(
        i as usize,
    ) by {
        assert(all[from + i] == tidy[i]);
    }
    assert forall|j: int| 0 <= j < all.len() && #[trigger] all[j] is Keep implies j < from by {
        if from <= j < from + m {
            assert(all[j] == tidy[j - from]);
        } else if j >= from + m {
            assert(all[j] == end[j - from - m]);
        }
    }
    lemma_lots_keep_only(0, n as int);
    assert forall|j: int| 0 <= j < from implies !(#[trigger] all[j] is Tidy) by {
        if j < head.len() {
            assert(all[j] == head[j]);
        } else if j < head.len() + kept.len() {
            assert(all[j] == kept[j - head.len()]);
        } else {
            assert(all[j] == turn[j - head.len() - kept.len()]);
        }
    }
}

proof fn lemma_lots_keep_only(from: int, n: int)
    ensures
        forall|j: int| 0 <= j < lots(from, n).len() ==> !(#[trigger] lots(from, n)[j] is Tidy),
    decreases n - from,
{
    if from < n {
        let k = lot(from, n);
        let rest = lots(from + k, n);
        lemma_lots_keep_only(from + k, n);
        let own = seq![Task::Begin] + keeps(from, k) + seq![Task::Commit(k as usize)];
        let all = lots(from, n);
        assert forall|j: int| 0 <= j < all.len() implies !(#[trigger] all[j] is Tidy) by {
            if j < own.len() {
                assert(all[j] == own[j]);
            } else {
                assert(all[j] == rest[j - own.len()]);
            }
        }
    }
}

} // verus!
