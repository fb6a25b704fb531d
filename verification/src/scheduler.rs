use vstd::prelude::*;

use crate::cards::Card;
use crate::cards::Rating;
use crate::cards::ReviewLog;
use crate::days::SECS_PER_DAY;
use crate::days::grid_due;
use crate::days::interval_secs;
use crate::days::lemma_grid_due_properties;
use crate::days::midnight_of;
use crate::days::midnight_utc;
use crate::days::next_grid_due;
use crate::days::ts_in_range;

verus! {

/// What happens to a card's box when a review fails.
#[derive(Clone, Copy, Debug, PartialEq, Eq, Structural)]
pub enum OnFail {
    /// The card goes back to box 1.
    ResetToFirstBox,
    /// The card steps down one box, never below box 1.
    StepBackOneBox,
    /// The card stays where it is.
    NoChange,
}

/// The one way building a scheduler can fail.
#[derive(Clone, Copy, Debug, PartialEq, Eq, Structural)]
pub enum ConstructionError {
    /// The interval sequence was empty or its first interval was not 1 day.
    InvalidFirstInterval,
}

/// The one way a review can fail.
#[derive(Clone, Copy, Debug, PartialEq, Eq, Structural)]
pub enum ReviewError {
    /// The review came before the card's due date; nothing was changed.
    NotDueYet,
}

/// The box a card lands in after one review.
pub open spec fn next_box(box_num: int, rating: Rating, on_fail: OnFail, n_boxes: int) -> int {
    match rating {
        Rating::Pass => if box_num < n_boxes {
            box_num + 1
        } else {
            box_num
        },
        Rating::Fail => match on_fail {
            OnFail::ResetToFirstBox => 1,
            OnFail::StepBackOneBox => if box_num > 1 {
                box_num - 1
            } else {
                box_num
            },
            OnFail::NoChange => box_num,
        },
    }
}

/// The box a card lands in after a whole sequence of reviews, applied in
/// order.
pub open spec fn box_after_reviews(
    box_num: int,
    ratings: Seq<Rating>,
    on_fail: OnFail,
    n_boxes: int,
) -> int
    decreases ratings.len(),
{
    if ratings.len() == 0 {
        box_num
    } else {
        box_after_reviews(
            next_box(box_num, ratings[0], on_fail, n_boxes),
            ratings.drop_first(),
            on_fail,
            n_boxes,
        )
    }
}

/// One review keeps the box inside the valid range, whatever the rating and
/// the policy.
pub proof fn lemma_next_box_in_range(box_num: int, rating: Rating, on_fail: OnFail, n_boxes: int)
    requires
        1 <= box_num <= n_boxes,
    ensures
        1 <= next_box(box_num, rating, on_fail, n_boxes) <= n_boxes,
{
}

/// Law: however a card is reviewed, its box never leaves the valid range
/// `1 ..= n_boxes`.
pub proof fn lemma_box_stays_in_range(
    box_num: int,
    ratings: Seq<Rating>,
    on_fail: OnFail,
    n_boxes: int,
)
    requires
        1 <= box_num <= n_boxes,
    ensures
        1 <= box_after_reviews(box_num, ratings, on_fail, n_boxes) <= n_boxes,
    decreases ratings.len(),
{
    if ratings.len() > 0 {
        lemma_next_box_in_range(box_num, ratings[0], on_fail, n_boxes);
        lemma_box_stays_in_range(
            next_box(box_num, ratings[0], on_fail, n_boxes),
            ratings.drop_first(),
            on_fail,
            n_boxes,
        );
    }
}

/// Law: under any sequence of passed reviews, the box number never exceeds
/// the number of boxes - not after the whole sequence, and not at any point
/// along the way.
pub proof fn lemma_pass_reviews_never_exceed_top(
    box_num: int,
    ratings: Seq<Rating>,
    on_fail: OnFail,
    n_boxes: int,
)
    requires
        1 <= box_num <= n_boxes,
        forall|i: int| 0 <= i < ratings.len() ==> ratings[i] is Pass,
    ensures
        forall|i: int|
            0 <= i <= ratings.len() ==> #[trigger] box_after_reviews(
                box_num,
                ratings.take(i),
                on_fail,
                n_boxes,
            ) <= n_boxes,
{
    assert forall|i: int|
        0 <= i <= ratings.len() implies #[trigger] box_after_reviews(
        box_num,
        ratings.take(i),
        on_fail,
        n_boxes,
    ) <= n_boxes by {
        lemma_box_stays_in_range(box_num, ratings.take(i), on_fail, n_boxes);
    }
}

/// The box never drops below 1 under any reviews at all, whatever the
/// rating and the policy.
pub proof fn lemma_box_never_below_first(
    box_num: int,
    ratings: Seq<Rating>,
    on_fail: OnFail,
    n_boxes: int,
)
    requires
        1 <= box_num,
    ensures
        box_after_reviews(box_num, ratings, on_fail, n_boxes) >= 1,
    decreases ratings.len(),
{
    if ratings.len() > 0 {
        lemma_box_never_below_first(
            next_box(box_num, ratings[0], on_fail, n_boxes),
            ratings.drop_first(),
            on_fail,
            n_boxes,
        );
    }
}

/// Law: under any sequence of failed reviews with the step-back policy, the
/// box number never drops below 1 - not after the whole sequence, and not
/// at any point along the way.
pub proof fn lemma_fail_reviews_never_below_first(
    box_num: int,
    ratings: Seq<Rating>,
    n_boxes: int,
)
    requires
        1 <= box_num,
        forall|i: int| 0 <= i < ratings.len() ==> ratings[i] is Fail,
    ensures
        forall|i: int|
            0 <= i <= ratings.len() ==> #[trigger] box_after_reviews(
                box_num,
                ratings.take(i),
                OnFail::StepBackOneBox,
                n_boxes,
            ) >= 1,
{
    assert forall|i: int|
        0 <= i <= ratings.len() implies #[trigger] box_after_reviews(
        box_num,
        ratings.take(i),
        OnFail::StepBackOneBox,
        n_boxes,
    ) >= 1 by {
        lemma_box_never_below_first(box_num, ratings.take(i), OnFail::StepBackOneBox, n_boxes);
    }
}

/// Law: a failed review under the reset policy puts the card in box 1,
/// whatever box it was in before.
pub proof fn lemma_reset_policy_always_first_box(box_num: int, n_boxes: int)
    ensures
        next_box(box_num, Rating::Fail, OnFail::ResetToFirstBox, n_boxes) == 1,
{
}

/// The immutable scheduler configuration: one interval per box, in days; the
/// start date whose eve anchors every due-date grid; and the on-fail policy.
#[derive(Clone, Debug)]
pub struct LeitnerScheduler {
    pub box_intervals: Vec<i32>,
    pub start_datetime: i64,
    pub on_fail: OnFail,
}

impl LeitnerScheduler {
    /// How many boxes this scheduler has.
    pub open spec fn n_boxes(self) -> int {
        self.box_intervals@.len() as int
    }

    /// What construction establishes: at least one box, few enough boxes
    /// that every box number fits an `i32`, the first box reviewed daily,
    /// and a start date inside the supported range.
    pub open spec fn wf(self) -> bool {
        &&& 1 <= self.n_boxes() <= i32::MAX as int
        &&& self.box_intervals@[0] == 1
        &&& ts_in_range(self.start_datetime as int)
    }

    /// Every box interval is at least one day. Construction checks only the
    /// first interval, so reviewing demands this of the caller separately.
    pub open spec fn intervals_positive(self) -> bool {
        forall|i: int| 0 <= i < self.n_boxes() ==> #[trigger] self.box_intervals@[i] >= 1
    }

    /// The common anchor of all due-date grids: one day before the start
    /// date.
    pub open spec fn anchor(self) -> int {
        self.start_datetime - (SECS_PER_DAY as int)
    }

    /// The due date a review is measured against: the card's own due
    /// date, or, for a never-reviewed card, midnight of the review day.
    pub open spec fn effective_due(self, card: Card, reviewed_at: int) -> int {
        match card.due {
            Some(d) => d as int,
            None => midnight_of(reviewed_at),
        }
    }

    /// The due date a review assigns to a card that lands in box `box_num`:
    /// the first point after `reviewed_at` on that box's grid.
    pub open spec fn scheduled_due(self, box_num: int, reviewed_at: int) -> int {
        grid_due(self.anchor(), self.box_intervals@[box_num - 1] as int, reviewed_at)
    }

    /// Builds a scheduler. Fails if and only if the interval sequence is
    /// empty or does not begin with a 1-day interval; any further interval,
    /// and any policy, is accepted as given.
    pub fn new(box_intervals: Vec<i32>, start_datetime: i64, on_fail: OnFail) -> (result: Result<
        LeitnerScheduler,
        ConstructionError,
    >)
        requires
            ts_in_range(start_datetime as int),
            box_intervals@.len() <= i32::MAX as int,
        ensures
            result is Err <==> (box_intervals@.len() == 0 || box_intervals@[0] != 1),
            result matches Err(e) ==> e == ConstructionError::InvalidFirstInterval,
            result matches Ok(s) ==> {
                &&& s.box_intervals@ == box_intervals@
                &&& s.start_datetime == start_datetime
                &&& s.on_fail == on_fail
                &&& s.wf()
            },
    {
        if box_intervals.len() == 0 || box_intervals[0] != 1 {
            return Err(ConstructionError::InvalidFirstInterval);
        }
        Ok(LeitnerScheduler { box_intervals, start_datetime, on_fail })
    }

    /// Reviews one card: snapshots it into a log entry, defaults a missing
    /// due date to midnight of the review day, rejects reviews that come
    /// before the due date, moves the card's box by the rating rule, and
    /// assigns the first due date after the review on the new box's grid.
    pub fn review_card(&self, card: Card, rating: Rating, review_datetime: i64) -> (result:
        Result<(Card, ReviewLog), ReviewError>)
        requires
            self.wf(),
            self.intervals_positive(),
            1 <= card.box_num <= self.n_boxes(),
            ts_in_range(review_datetime as int),
        ensures
            result is Err <==> review_datetime < self.effective_due(
                card,
                review_datetime as int,
            ),
            result matches Err(e) ==> e == ReviewError::NotDueYet,
            card.due is None ==> result is Ok,
            result matches Ok((c, log)) ==> {
                let b = next_box(card.box_num as int, rating, self.on_fail, self.n_boxes());
                &&& log.card == card
                &&& log.rating == rating
                &&& log.review_datetime == review_datetime
                &&& c.card_id == card.card_id
                &&& c.box_num == b
                &&& 1 <= c.box_num <= self.n_boxes()
                &&& c.due matches Some(d) && {
                    let s = interval_secs(self.box_intervals@[b - 1] as int);
                    &&& d == self.scheduled_due(b, review_datetime as int)
                    &&& d > review_datetime
                    &&& d >= self.anchor() + s
                    &&& (d - self.anchor()) % s == 0
                }
            },
    {
        let review_log = ReviewLog::new(card, rating, review_datetime);

        let due: i64 = match card.due {
            Some(d) => d,
            None => midnight_utc(review_datetime),
        };

        if review_datetime < due {
            return Err(ReviewError::NotDueYet);
        }

        let new_box: i32 = match rating {
            Rating::Fail => match self.on_fail {
                OnFail::ResetToFirstBox => 1,
                OnFail::StepBackOneBox => if card.box_num > 1 {
                    card.box_num - 1
                } else {
                    card.box_num
                },
                OnFail::NoChange => card.box_num,
            },
            Rating::Pass => if (card.box_num as usize) < self.box_intervals.len() {
                card.box_num + 1
            } else {
                card.box_num
            },
        };

        proof {
            lemma_next_box_in_range(
                card.box_num as int,
                rating,
                self.on_fail,
                self.n_boxes(),
            );
        }

        let interval: i32 = self.box_intervals[(new_box - 1) as usize];
        let anchor: i64 = self.start_datetime - SECS_PER_DAY;
        let new_due: i64 = next_grid_due(anchor, interval, review_datetime);

        proof {
            lemma_grid_due_properties(anchor as int, interval as int, review_datetime as int);
        }

        let updated = Card { card_id: card.card_id, box_num: new_box, due: Some(new_due) };
        Ok((updated, review_log))
    }
}

} // verus!
