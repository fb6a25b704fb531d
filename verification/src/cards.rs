use vstd::prelude::*;

verus! {

/// The outcome of one review: the card was either remembered or forgotten.
#[derive(Clone, Copy, Debug, PartialEq, Eq, Structural)]
pub enum Rating {
    Fail,
    Pass,
}

/// The scheduling state of one reviewable card.
///
/// `box_num` is a 1-based index into the scheduler's interval sequence.
/// `due` is the next review time in seconds since the Unix epoch (UTC);
/// `None` means the card has never been reviewed and is due immediately.
///
/// A card performs no validation of its own: the bound on `box_num` is
/// enforced by the scheduler at review time.
#[derive(Clone, Copy, Debug)]
pub struct Card {
    pub card_id: i64,
    pub box_num: i32,
    pub due: Option<i64>,
}

impl Card {
    pub fn new(card_id: i64, box_num: i32, due: Option<i64>) -> (card: Card)
        ensures
            card.card_id == card_id,
            card.box_num == box_num,
            card.due == due,
    {
        Card { card_id, box_num, due }
    }
}

/// An immutable record of one review event: the card exactly as it stood
/// before the review changed it, the rating given, and when it happened.
#[derive(Clone, Copy, Debug)]
pub struct ReviewLog {
    pub card: Card,
    pub rating: Rating,
    pub review_datetime: i64,
}

impl ReviewLog {
    pub fn new(card: Card, rating: Rating, review_datetime: i64) -> (log: ReviewLog)
        ensures
            log.card == card,
            log.rating == rating,
            log.review_datetime == review_datetime,
    {
        ReviewLog { card, rating, review_datetime }
    }
}

} // verus!
