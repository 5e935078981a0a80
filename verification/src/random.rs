//! The order in which the Random Albums view shows albums.

use rand::seq::SliceRandom;
use vstd::prelude::*;

use crate::db::query::{
    answers_view, get_integer, integer_at, plain, plain_stmt, rows_of, rows_view, Answer,
    AnswerView, Cell, Row, Step, StepView,
};
use crate::error::Error;

verus! {

/// A random selection of albums, drawn anew at startup, after a scan and on
/// request. An album that is gone in the meantime does no harm: whoever shows the
/// selection passes it over.
pub struct RandomState {
    album_ids: Vec<i64>,
    shuffled_at: Option<i64>,
}

/// `rand::seq::SliceRandom::shuffle` with the thread's generator: the same ids,
/// each as often as before, in an order that chance decides.
#[verifier::external_body]
fn shuffled(ids: Vec<i64>) -> (r: Vec<i64>)
    ensures
        r@.to_multiset() == ids@.to_multiset(),
{
    let mut order = ids;
    order.shuffle(&mut rand::thread_rng());
    order
}

/// The first `limit` of an order, or all of it.
pub open spec fn capped(order: Seq<i64>, limit: Option<usize>) -> Seq<i64> {
    match limit {
        Some(n) => if n <= order.len() {
            order.take(n as int)
        } else {
            order
        },
        None => order,
    }
}

/// The whole numbers in the first column.
pub open spec fn first_integers(rows: Seq<Seq<Cell>>) -> Seq<i64> {
    rows.filter_map(|row: Seq<Cell>| integer_at(row, 0))
}

pub open spec fn album_ids_stmt() -> crate::db::query::StatementView {
    plain_stmt("SELECT id FROM albums"@)
}

/// The part `[start, start + count)` of a sequence, as far as it reaches.
pub open spec fn page_of<A>(s: Seq<A>, start: int, count: int) -> Seq<A> {
    if start >= s.len() {
        Seq::empty()
    } else if start + count <= s.len() {
        s.subrange(start, start + count)
    } else {
        s.subrange(start, s.len() as int)
    }
}

pub fn integers_of(rows: &Vec<Row>) -> (r: Vec<i64>)
    ensures
        r@ == first_integers(rows_view(rows@)),
{
    let ghost f = |row: Seq<Cell>| integer_at(row, 0);
    let ghost all = rows_view(rows@);
    let mut out: Vec<i64> = Vec::new();
    let mut i: usize = 0;
    assert(all.take(0) =~= Seq::empty());
    proof {
        reveal(Seq::filter_map);
    }
    while i < rows.len()
        invariant
            i <= rows.len(),
            all == rows_view(rows@),
            f == (|row: Seq<Cell>| integer_at(row, 0)),
            out@ == all.take(i as int).filter_map(f),
        decreases rows.len() - i,
    {
        broadcast use Seq::lemma_filter_map_take_succ;

        assert(all[i as int] == crate::db::query::cells(rows@[i as int]@));
        match get_integer(&rows[i], 0) {
            Some(n) => out.push(n),
            None => {},
        }
        i = i + 1;
        assert(out@ =~= all.take(i as int).filter_map(f));
    }
    assert(all.take(i as int) =~= all);
    out
}

impl View for RandomState {
    type V = Seq<i64>;

    closed spec fn view(&self) -> Seq<i64> {
        self.album_ids@
    }
}

impl Default for RandomState {
    fn default() -> (r: Self)
        ensures
            r@ == Seq::<i64>::empty(),
            r.drawn_at() is None,
    {
        RandomState::new()
    }
}

impl RandomState {
    /// When the selection was last drawn, in seconds of Unix time.
    pub closed spec fn drawn_at(self) -> Option<i64> {
        self.shuffled_at
    }

    /// An empty selection.
    pub fn new() -> (r: Self)
        ensures
            r@ == Seq::<i64>::empty(),
            r.drawn_at() is None,
    {
        RandomState { album_ids: Vec::new(), shuffled_at: None }
    }

    /// Take `order` as the selection, cut to `limit`. Returns its length.
    pub fn install(&mut self, order: Vec<i64>, limit: Option<usize>, now_secs: i64) -> (r: usize)
        ensures
            final(self)@ == capped(order@, limit),
            final(self).drawn_at() == Some(now_secs),
            r == final(self)@.len(),
    {
        let mut ids = order;
        if let Some(n) = limit {
            if n < ids.len() {
                ids.truncate(n);
            }
            assert(n == order@.len() ==> order@.take(n as int) =~= order@);
        }
        self.album_ids = ids;
        self.shuffled_at = Some(now_secs);
        self.album_ids.len()
    }

    /// Whether drawing a selection takes `self` to `then` and gives `step`. Every album
    /// is asked for first; they are put in some order, of which `limit` are kept (`None`
    /// keeps all). Where they cannot be had, the selection stays.
    pub open spec fn draws(
        self,
        then: Self,
        limit: Option<usize>,
        now_secs: i64,
        answers: Seq<AnswerView>,
        step: StepView<usize>,
    ) -> bool {
        if answers.len() == 0 {
            then == self && step == StepView::<usize>::Query(album_ids_stmt())
        } else {
            match rows_of(answers[0]) {
                Err(e) => then == self && step == StepView::<usize>::Done(Err(e)),
                Ok(rows) => {
                    &&& step == StepView::<usize>::Done(Ok(then@.len() as usize))
                    &&& then@.len() <= usize::MAX
                    &&& then.drawn_at() == Some(now_secs)
                    &&& exists|order: Seq<i64>|
                        {
                            &&& order.to_multiset() == first_integers(rows).to_multiset()
                            &&& then@ == #[trigger] capped(order, limit)
                        }
                },
            }
        }
    }

    /// Draw a selection. The result is the number of albums in it.
    pub fn reshuffle(
        &mut self,
        limit: Option<usize>,
        now_secs: i64,
        answers: &[Answer],
    ) -> (r: Step<usize>)
        ensures
            old(self).draws(*final(self), limit, now_secs, answers_view(answers@), r@),
    {
        if answers.len() == 0 {
            return Step::Query(plain("SELECT id FROM albums"));
        }
        match &answers[0] {
            Answer::Failed(e) => Step::Done(
                Err(Error::Sqlite(crate::db::query::copy_error(e))),
            ),
            Answer::Rows(rows, _) => {
                let order = shuffled(integers_of(rows));
                let ghost drawn = order@;
                let n: usize = self.install(order, limit, now_secs);
                assert(self@ == capped(drawn, limit));
                Step::Done(Ok(n))
            },
        }
    }

    /// Draw a selection where the present one is older than the given number of hours.
    pub fn maybe_reshuffle(
        &mut self,
        limit: Option<usize>,
        interval_hours: Option<u32>,
        now_secs: i64,
        answers: &[Answer],
    ) -> (r: Option<Step<usize>>)
        ensures
            match r {
                Some(step) => old(self).is_due(interval_hours, now_secs) && old(self).draws(
                    *final(self),
                    limit,
                    now_secs,
                    answers_view(answers@),
                    step@,
                ),
                None => !old(self).is_due(interval_hours, now_secs) && *final(self) == *old(self),
            },
    {
        if self.due(interval_hours, now_secs) {
            Some(self.reshuffle(limit, now_secs, answers))
        } else {
            None
        }
    }

    /// Whether the selection is older than the given number of hours. One that was
    /// never drawn has no age.
    pub open spec fn is_due(self, interval_hours: Option<u32>, now_secs: i64) -> bool {
        match (interval_hours, self.drawn_at()) {
            (Some(h), Some(t)) => now_secs - t >= h * 3600,
            _ => false,
        }
    }

    pub fn due(&self, interval_hours: Option<u32>, now_secs: i64) -> (r: bool)
        ensures
            r == self.is_due(interval_hours, now_secs),
    {
        match (interval_hours, self.shuffled_at) {
            (Some(h), Some(t)) => now_secs as i128 - t as i128 >= h as i128 * 3600,
            _ => false,
        }
    }

    /// The albums `[start, start + count)` of the selection.
    pub fn page(&self, start: usize, count: usize) -> (r: Vec<i64>)
        ensures
            r@ == page_of(self@, start as int, count as int),
    {
        let len: usize = self.album_ids.len();
        let mut out: Vec<i64> = Vec::new();
        if start >= len {
            assert(out@ =~= Seq::empty());
            return out;
        }
        let end: usize = if count < len - start { start + count } else { len };
        let mut i: usize = start;
        while i < end
            invariant
                start <= i <= end <= self.album_ids@.len(),
                out@ == self.album_ids@.subrange(start as int, i as int),
            decreases end - i,
        {
            out.push(self.album_ids[i]);
            i = i + 1;
            assert(out@ =~= self.album_ids@.subrange(start as int, i as int));
        }
        out
    }

    /// How many albums the selection holds.
    pub fn len(&self) -> (r: usize)
        ensures
            r == self@.len(),
    {
        self.album_ids.len()
    }

    pub fn is_empty(&self) -> (r: bool)
        ensures
            r == (self@.len() == 0),
    {
        self.album_ids.len() == 0
    }
}

/// A selection without a limit shows every album as often as it was drawn from,
/// and one with a limit no more than that and never an album from elsewhere.
pub proof fn selection_is_drawn_from_library(ids: Seq<i64>, order: Seq<i64>, limit: Option<usize>)
    requires
        order.to_multiset() == ids.to_multiset(),
    ensures
        limit is None ==> capped(order, limit).to_multiset() == ids.to_multiset(),
        capped(order, limit).len() == match limit {
            Some(n) if n < ids.len() => n as nat,
            _ => ids.len(),
        },
        forall|i: int|
            0 <= i < capped(order, limit).len() ==> ids.contains(#[trigger] capped(order, limit)[i]),
{
    broadcast use vstd::seq_lib::group_to_multiset_ensures;

    assert(order.len() == order.to_multiset().len());
    assert(ids.len() == ids.to_multiset().len());
    let c = capped(order, limit);
    assert forall|i: int| 0 <= i < c.len() implies ids.contains(#[trigger] c[i]) by {
        assert(c[i] == order[i]);
        assert(order.contains(order[i]));
        assert(order.to_multiset().count(order[i]) > 0);
        assert(ids.to_multiset().count(order[i]) > 0);
    }
}

} // verus!
