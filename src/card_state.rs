//! Per-card scheduling state and the review state machine.

use vstd::prelude::*;
use crate::f64_model::{
    F64_1_2, F64_1_3, NUM_BOUND, UNIT, lemma_round_f64_at_least_one, round_f64, round_f64_units,
};

verus! {

/// Where a card stands in the learning cycle.
#[derive(Debug, Clone, Copy, PartialEq, Eq, Structural)]
pub enum CardLearnStatus {
    New,
    Learn,
    Review,
}

/// Integer code of a status, as the store keeps it.
pub open spec fn status_code_of(s: CardLearnStatus) -> int {
    match s {
        CardLearnStatus::New => 0,
        CardLearnStatus::Learn => 1,
        CardLearnStatus::Review => 2,
    }
}

/// Status of a stored code; codes other than 1 and 2 read as `New`, so that a
/// code written by a later version never makes a row unreadable.
pub open spec fn status_of_code(code: int) -> CardLearnStatus {
    if code == 1 {
        CardLearnStatus::Learn
    } else if code == 2 {
        CardLearnStatus::Review
    } else {
        CardLearnStatus::New
    }
}

impl CardLearnStatus {
    /// Decodes a stored status code, leniently (see `status_of_code`).
    pub fn from_code(value: i64) -> (r: CardLearnStatus)
        ensures
            r == status_of_code(value as int),
    {
        match value {
            1 => CardLearnStatus::Learn,
            2 => CardLearnStatus::Review,
            _ => CardLearnStatus::New,
        }
    }

    /// The integer code under which the store keeps this status.
    pub fn code(&self) -> (r: i64)
        ensures
            r == status_code_of(*self),
    {
        match self {
            CardLearnStatus::New => 0,
            CardLearnStatus::Learn => 1,
            CardLearnStatus::Review => 2,
        }
    }
}

impl From<i64> for CardLearnStatus {
    fn from(value: i64) -> (r: CardLearnStatus) {
        CardLearnStatus::from_code(value)
    }
}

impl vstd::std_specs::convert::FromSpecImpl<i64> for CardLearnStatus {
    open spec fn obeys_from_spec() -> bool {
        true
    }

    open spec fn from_spec(v: i64) -> CardLearnStatus {
        status_of_code(v as int)
    }
}


/// How a review went, as the learner rated it.
#[derive(Debug, Clone, Copy, PartialEq, Eq, Structural)]
pub enum ReviewResult {
    Again,
    Hard,
    Good,
    Easy,
}

pub const MIN: i64 = 60;

pub const DAY: i64 = 86400;

/// Index of the last rung of the learning ladder.
pub const LAST_LEARNING_STEP: i64 = 2;

/// Interval, in days, given to a card that completes the ladder.
pub const GRADUATING_DAYS: i64 = 1;

pub const MIN_EASE: i64 = 1300;

pub const MAX_EASE: i64 = 3500;

/// Seconds until the next review on each rung of the learning ladder.
pub open spec fn ladder(step: int) -> int {
    if step <= 0 {
        60
    } else if step == 1 {
        600
    } else {
        86400
    }
}

/// Scheduling state of one card: a card id, an absolute due time in epoch
/// seconds, the review interval in days, the ease in basis points (1000 is a
/// multiplier of 1), the number of reviews and of lapses, the status and the
/// rung of the learning ladder.
#[derive(Debug, Clone, Copy, PartialEq, Eq, Structural)]
pub struct CardState {
    pub card_id: i64,
    pub next_review_s: i64,
    pub interval_days: i64,
    pub ease: i64,
    pub reps: i64,
    pub lapses: i64,
    pub status: CardLearnStatus,
    pub learning_step: i64,
}

/// The mathematical value of a `CardState`.
pub struct CardStateView {
    pub card_id: int,
    pub next_review_s: int,
    pub interval_days: int,
    pub ease: int,
    pub reps: int,
    pub lapses: int,
    pub status: CardLearnStatus,
    pub learning_step: int,
}

impl View for CardState {
    type V = CardStateView;

    open spec fn view(&self) -> CardStateView {
        CardStateView {
            card_id: self.card_id as int,
            next_review_s: self.next_review_s as int,
            interval_days: self.interval_days as int,
            ease: self.ease as int,
            reps: self.reps as int,
            lapses: self.lapses as int,
            status: self.status,
            learning_step: self.learning_step as int,
        }
    }
}

pub open spec fn fits_i64(x: int) -> bool {
    i64::MIN <= x <= i64::MAX
}

impl CardStateView {
    /// The invariant of a card's state: the ease lies within its bounds, and
    /// a card under review has an interval of at least one day.
    pub open spec fn wf(&self) -> bool {
        &&& MIN_EASE <= self.ease <= MAX_EASE
        &&& self.status == CardLearnStatus::Review ==> self.interval_days >= 1
    }

    /// Every field can be held by an `i64`.
    pub open spec fn fits(&self) -> bool {
        &&& fits_i64(self.card_id)
        &&& fits_i64(self.next_review_s)
        &&& fits_i64(self.interval_days)
        &&& fits_i64(self.ease)
        &&& fits_i64(self.reps)
        &&& fits_i64(self.lapses)
        &&& fits_i64(self.learning_step)
    }
}

pub open spec fn clamp_step(step: int) -> int {
    if step < 0 {
        0
    } else if step > LAST_LEARNING_STEP {
        LAST_LEARNING_STEP as int
    } else {
        step
    }
}

pub open spec fn max_int(a: int, b: int) -> int {
    if a >= b {
        a
    } else {
        b
    }
}

pub open spec fn min_int(a: int, b: int) -> int {
    if a <= b {
        a
    } else {
        b
    }
}

/// Largest interval, in days, that converts to `f64` exactly (2^53).
pub const F64_EXACT_DAYS: i64 = 9007199254740992;

/// `ease / 1000` as an `f64`, in units of 2^-52.
pub open spec fn ease_mult(ease: int) -> int {
    round_f64(ease * UNIT, 1000)
}

/// `ease / 1000 * 1.3`, each step an `f64` operation, in units of 2^-52.
pub open spec fn easy_mult(ease: int) -> int {
    round_f64(ease_mult(ease) * F64_1_3, UNIT as int)
}

/// `interval × m` as an `f64` product (`m` a double in units of 2^-52),
/// truncated toward zero to whole days.
pub open spec fn grow_interval(interval: int, m: int) -> int {
    round_f64(interval * m, 1) / (UNIT as int)
}

/// The state after one review with result `r` at time `now` (epoch seconds).
/// Interval growth is `f64` arithmetic, rounded to nearest at each operation
/// and truncated toward zero at the end, in this order: `interval × 1.2` on
/// Hard; `interval × (ease / 1000)` on Good; `interval × (ease / 1000 × 1.3)`
/// on Easy, with the raised ease.
pub open spec fn next_state(s: CardStateView, r: ReviewResult, now: int) -> CardStateView {
    let step = clamp_step(s.learning_step);
    let base = CardStateView {
        learning_step: step,
        reps: s.reps + 1,
        lapses: if r == ReviewResult::Again { s.lapses + 1 } else { s.lapses },
        ..s
    };
    match s.status {
        CardLearnStatus::New | CardLearnStatus::Learn => match r {
            ReviewResult::Again => CardStateView {
                status: CardLearnStatus::Learn,
                learning_step: 0,
                next_review_s: now + ladder(0),
                ..base
            },
            ReviewResult::Hard => CardStateView {
                status: CardLearnStatus::Learn,
                next_review_s: now + ladder(step),
                ..base
            },
            ReviewResult::Good => if step + 1 > LAST_LEARNING_STEP {
                CardStateView {
                    status: CardLearnStatus::Review,
                    learning_step: 0,
                    interval_days: GRADUATING_DAYS as int,
                    next_review_s: now + GRADUATING_DAYS * DAY,
                    ..base
                }
            } else {
                CardStateView {
                    status: CardLearnStatus::Learn,
                    learning_step: step + 1,
                    next_review_s: now + ladder(step + 1),
                    ..base
                }
            },
            ReviewResult::Easy => CardStateView {
                status: CardLearnStatus::Review,
                interval_days: 1,
                next_review_s: now + 4 * DAY,
                ..base
            },
        },
        CardLearnStatus::Review => match r {
            ReviewResult::Again => CardStateView {
                status: CardLearnStatus::Learn,
                learning_step: 0,
                ease: max_int(MIN_EASE as int, s.ease - 200),
                interval_days: 1,
                next_review_s: now + ladder(0),
                ..base
            },
            ReviewResult::Hard => {
                let interval = max_int(1, grow_interval(s.interval_days, F64_1_2 as int));
                CardStateView {
                    ease: max_int(MIN_EASE as int, s.ease - 150),
                    interval_days: interval,
                    next_review_s: now + interval * DAY,
                    ..base
                }
            },
            ReviewResult::Good => {
                let interval = max_int(1, grow_interval(s.interval_days, ease_mult(s.ease)));
                CardStateView { interval_days: interval, next_review_s: now + interval * DAY, ..base }
            },
            ReviewResult::Easy => {
                let ease = min_int(MAX_EASE as int, s.ease + 150);
                let interval = grow_interval(s.interval_days, easy_mult(ease));
                CardStateView {
                    ease: ease,
                    interval_days: interval,
                    next_review_s: now + interval * DAY,
                    ..base
                }
            },
        },
    }
}

fn learning_interval(step: i64) -> (r: i64)
    ensures
        r == ladder(step as int),
{
    if step <= 0 {
        MIN
    } else if step == 1 {
        10 * MIN
    } else {
        DAY
    }
}

/// The state the store gives a card when it is first saved.
pub open spec fn initial_state(card_id: int, next_review_s: int) -> CardStateView {
    CardStateView {
        card_id,
        next_review_s,
        interval_days: 1,
        ease: 2500,
        reps: 0,
        lapses: 0,
        status: CardLearnStatus::New,
        learning_step: 0,
    }
}

/// The state after applying each `(result, time)` of `reviews`, in order.
pub open spec fn apply_all(s: CardStateView, reviews: Seq<(ReviewResult, int)>) -> CardStateView
    decreases reviews.len(),
{
    if reviews.len() == 0 {
        s
    } else {
        let last = reviews.last();
        next_state(apply_all(s, reviews.drop_last()), last.0, last.1)
    }
}

/// How many of `reviews` were rated Again.
pub open spec fn count_again(reviews: Seq<(ReviewResult, int)>) -> int
    decreases reviews.len(),
{
    if reviews.len() == 0 {
        0
    } else {
        count_again(reviews.drop_last()) + if reviews.last().0 == ReviewResult::Again {
            1int
        } else {
            0int
        }
    }
}

/// What holds of every state reachable from `initial_state`: the ease within
/// its bounds and an interval of at least one day.
pub open spec fn within_bounds(s: CardStateView) -> bool {
    &&& MIN_EASE <= s.ease <= MAX_EASE
    &&& s.interval_days >= 1
}

/// A review is a function of the state, the result and the time alone: equal
/// inputs give equal states.
pub proof fn lemma_apply_deterministic(
    a: CardStateView,
    b: CardStateView,
    r: ReviewResult,
    now: int,
)
    requires
        a == b,
    ensures
        next_state(a, r, now) == next_state(b, r, now),
{
}

proof fn lemma_ease_mult_at_least_one(ease: int)
    requires
        ease >= 1000,
    ensures
        ease_mult(ease) >= UNIT,
{
    assert(ease * UNIT >= UNIT * 1000) by (nonlinear_arith)
        requires
            ease >= 1000,
    ;
    lemma_round_f64_at_least_one(ease * UNIT, 1000);
}

/// An interval of at least one day stays at least one day on Easy.
proof fn lemma_easy_interval_at_least_one(interval: int, ease: int)
    requires
        interval >= 1,
        ease >= 1000,
    ensures
        grow_interval(interval, easy_mult(ease)) >= 1,
{
    let m1 = ease_mult(ease);
    lemma_ease_mult_at_least_one(ease);
    assert(m1 * F64_1_3 >= UNIT * UNIT) by (nonlinear_arith)
        requires
            m1 >= UNIT,
    ;
    lemma_round_f64_at_least_one(m1 * F64_1_3, UNIT as int);
    let m = easy_mult(ease);
    assert(interval * m >= UNIT * 1) by (nonlinear_arith)
        requires
            interval >= 1,
            m >= UNIT,
    ;
    lemma_round_f64_at_least_one(interval * m, 1);
}

/// One review keeps the invariant of a card's state.
pub proof fn lemma_next_state_wf(s: CardStateView, r: ReviewResult, now: int)
    requires
        s.wf(),
    ensures
        next_state(s, r, now).wf(),
{
    if s.status == CardLearnStatus::Review && r == ReviewResult::Easy {
        let ease = min_int(MAX_EASE as int, s.ease + 150);
        lemma_easy_interval_at_least_one(s.interval_days, ease);
    }
}

/// One review keeps the ease within its bounds and the interval at least one
/// day.
pub proof fn lemma_next_state_within_bounds(s: CardStateView, r: ReviewResult, now: int)
    requires
        within_bounds(s),
    ensures
        within_bounds(next_state(s, r, now)),
{
    lemma_next_state_wf(s, r, now);
}

/// Every state reachable from a new card's state by reviews has its ease in
/// `[1300, 3500]` and an interval of at least one day.
pub proof fn lemma_reachable_within_bounds(
    card_id: int,
    due: int,
    reviews: Seq<(ReviewResult, int)>,
)
    ensures
        within_bounds(apply_all(initial_state(card_id, due), reviews)),
        apply_all(initial_state(card_id, due), reviews).wf(),
    decreases reviews.len(),
{
    if reviews.len() > 0 {
        lemma_reachable_within_bounds(card_id, due, reviews.drop_last());
        let last = reviews.last();
        lemma_next_state_within_bounds(
            apply_all(initial_state(card_id, due), reviews.drop_last()),
            last.0,
            last.1,
        );
    }
}

/// After `n` reviews the review count has grown by `n` and the lapse count by
/// the number of Again results among them.
pub proof fn lemma_apply_all_counts(s: CardStateView, reviews: Seq<(ReviewResult, int)>)
    ensures
        apply_all(s, reviews).reps == s.reps + reviews.len(),
        apply_all(s, reviews).lapses == s.lapses + count_again(reviews),
    decreases reviews.len(),
{
    if reviews.len() > 0 {
        lemma_apply_all_counts(s, reviews.drop_last());
    }
}

/// Again on a card under review sends it back to the first rung of the
/// ladder, lowers the ease by 200 (not below 1300) and makes it due in a
/// minute.
pub proof fn lemma_review_again(s: CardStateView, now: int)
    requires
        s.status == CardLearnStatus::Review,
    ensures
        next_state(s, ReviewResult::Again, now).status == CardLearnStatus::Learn,
        next_state(s, ReviewResult::Again, now).learning_step == 0,
        next_state(s, ReviewResult::Again, now).ease == max_int(MIN_EASE as int, s.ease - 200),
        next_state(s, ReviewResult::Again, now).interval_days == 1,
        next_state(s, ReviewResult::Again, now).next_review_s == now + 60,
{
}

/// `ease / 1000` as an `f64`, in units of 2^-52.
fn ease_mult_units(ease: i64) -> (r: i128)
    requires
        1000 <= ease <= MAX_EASE,
    ensures
        r == ease_mult(ease as int),
        UNIT <= r < 8 * UNIT,
{
    proof {
        lemma_ease_mult_at_least_one(ease as int);
    }
    let r = round_f64_units(ease as i128 * UNIT, 1000);
    assert(r < 8 * UNIT) by (nonlinear_arith)
        requires
            r * 1000 <= 2 * (ease * UNIT) + 1000,
            ease <= MAX_EASE,
    ;
    r
}

/// `ease / 1000 * 1.3` as `f64` operations, in units of 2^-52.
fn easy_mult_units(ease: i64) -> (r: i128)
    requires
        1000 <= ease <= MAX_EASE,
    ensures
        r == easy_mult(ease as int),
        UNIT <= r < 32 * UNIT,
{
    let m1 = ease_mult_units(ease);
    assert(m1 * F64_1_3 < NUM_BOUND && m1 * F64_1_3 >= UNIT * UNIT) by (nonlinear_arith)
        requires
            UNIT <= m1 < 8 * UNIT,
    ;
    proof {
        lemma_round_f64_at_least_one(m1 * F64_1_3, UNIT as int);
    }
    let r = round_f64_units(m1 * F64_1_3, UNIT);
    assert(r < 32 * UNIT) by (nonlinear_arith)
        requires
            r * UNIT <= 2 * (m1 * F64_1_3) + UNIT,
            m1 < 8 * UNIT,
    ;
    r
}

/// `interval × m` as an `f64` product, truncated to whole days.
fn grow_interval_days(interval: i64, m: i128) -> (r: i128)
    requires
        1 <= interval <= F64_EXACT_DAYS,
        UNIT <= m < 32 * UNIT,
    ensures
        r == grow_interval(interval as int, m as int),
        1 <= r < 4 * F64_EXACT_DAYS * 32,
{
    assert(interval * m < NUM_BOUND && interval * m >= UNIT * 1) by (nonlinear_arith)
        requires
            1 <= interval <= F64_EXACT_DAYS,
            UNIT <= m < 32 * UNIT,
    ;
    proof {
        lemma_round_f64_at_least_one(interval * m, 1);
    }
    let v = round_f64_units(interval as i128 * m, 1);
    assert(interval * m <= F64_EXACT_DAYS * (32 * UNIT)) by (nonlinear_arith)
        requires
            1 <= interval <= F64_EXACT_DAYS,
            0 <= m < 32 * UNIT,
    ;
    assert(v < UNIT * (4 * F64_EXACT_DAYS * 32));
    proof {
        vstd::arithmetic::div_mod::lemma_multiply_divide_lt(
            v as int,
            UNIT as int,
            4 * F64_EXACT_DAYS * 32,
        );
    }
    v / UNIT
}

impl CardState {
    /// The state of a card that has never been reviewed, due at
    /// `next_review_s`.
    pub fn new(card_id: i64, next_review_s: i64) -> (r: CardState)
        ensures
            r@ == initial_state(card_id as int, next_review_s as int),
    {
        CardState {
            card_id,
            next_review_s,
            interval_days: 1,
            ease: 2500,
            reps: 0,
            lapses: 0,
            status: CardLearnStatus::New,
            learning_step: 0,
        }
    }

    /// Applies one review with result `review_result` at time `now_s`.
    pub fn apply_review(&mut self, review_result: ReviewResult, now_s: i64)
        requires
            old(self)@.wf(),
            old(self).status == CardLearnStatus::Review ==> old(self).interval_days <= F64_EXACT_DAYS,
            next_state(old(self)@, review_result, now_s as int).fits(),
        ensures
            final(self)@ == next_state(old(self)@, review_result, now_s as int),
            final(self)@.wf(),
            final(self).status != CardLearnStatus::New,
            final(self).reps == old(self).reps + 1,
            final(self).lapses == old(self).lapses + if review_result == ReviewResult::Again {
                1int
            } else {
                0int
            },
            within_bounds(old(self)@) ==> within_bounds(final(self)@),
            old(self).status == CardLearnStatus::Review && review_result == ReviewResult::Again
                ==> {
                &&& final(self).status == CardLearnStatus::Learn
                &&& final(self).learning_step == 0
                &&& final(self).ease == max_int(MIN_EASE as int, old(self).ease - 200)
                &&& final(self).interval_days == 1
                &&& final(self).next_review_s == now_s + 60
            },
    {
        proof {
            lemma_next_state_wf(self@, review_result, now_s as int);
            if within_bounds(self@) {
                lemma_next_state_within_bounds(self@, review_result, now_s as int);
            }
        }
        if self.learning_step < 0 {
            self.learning_step = 0;
        } else if self.learning_step > LAST_LEARNING_STEP {
            self.learning_step = LAST_LEARNING_STEP;
        }
        self.reps = self.reps + 1;
        if review_result == ReviewResult::Again {
            self.lapses = self.lapses + 1;
        }
        let now = now_s as i128;
        match self.status {
            CardLearnStatus::New | CardLearnStatus::Learn => {
                self.status = CardLearnStatus::Learn;
                match review_result {
                    ReviewResult::Again => {
                        self.learning_step = 0;
                        self.next_review_s = (now + learning_interval(0) as i128) as i64;
                    },
                    ReviewResult::Hard => {
                        self.next_review_s = (now + learning_interval(self.learning_step) as i128) as i64;
                    },
                    ReviewResult::Good => {
                        self.learning_step = self.learning_step + 1;
                        if self.learning_step > LAST_LEARNING_STEP {
                            self.status = CardLearnStatus::Review;
                            self.learning_step = 0;
                            self.interval_days = GRADUATING_DAYS;
                            self.next_review_s = (now + (GRADUATING_DAYS * DAY) as i128) as i64;
                        } else {
                            self.next_review_s = (now + learning_interval(self.learning_step) as i128) as i64;
                        }
                    },
                    ReviewResult::Easy => {
                        self.next_review_s = (now + (4 * DAY) as i128) as i64;
                        self.interval_days = 1;
                        self.status = CardLearnStatus::Review;
                    },
                }
            },
            CardLearnStatus::Review => {
                match review_result {
                    ReviewResult::Again => {
                        self.status = CardLearnStatus::Learn;
                        self.learning_step = 0;
                        self.ease = if self.ease - 200 >= MIN_EASE { self.ease - 200 } else { MIN_EASE };
                        self.interval_days = 1;
                        self.next_review_s = (now + learning_interval(0) as i128) as i64;
                    },
                    ReviewResult::Hard => {
                        self.ease = if self.ease - 150 >= MIN_EASE { self.ease - 150 } else { MIN_EASE };
                        let grown = grow_interval_days(self.interval_days, F64_1_2);
                        let interval = if grown >= 1 { grown } else { 1 };
                        self.interval_days = interval as i64;
                        self.next_review_s = (now + interval * (DAY as i128)) as i64;
                    },
                    ReviewResult::Good => {
                        let grown = grow_interval_days(self.interval_days, ease_mult_units(self.ease));
                        let interval = if grown >= 1 { grown } else { 1 };
                        self.interval_days = interval as i64;
                        self.next_review_s = (now + interval * (DAY as i128)) as i64;
                    },
                    ReviewResult::Easy => {
                        self.ease = if self.ease + 150 <= MAX_EASE { self.ease + 150 } else { MAX_EASE };
                        let interval = grow_interval_days(self.interval_days, easy_mult_units(self.ease));
                        self.interval_days = interval as i64;
                        self.next_review_s = (now + interval * (DAY as i128)) as i64;
                    },
                }
            },
        }
    }
}

/// A card's state as the store keeps it: every field an integer, the status
/// by its code.
#[derive(Debug, Clone, Copy, PartialEq, Eq, Structural)]
pub struct CardStateRow {
    pub card_id: i64,
    pub next_review_s: i64,
    pub interval_days: i64,
    pub ease: i64,
    pub reps: i64,
    pub lapses: i64,
    pub status: i64,
    pub learning_step: i64,
}

pub open spec fn row_of(s: CardState) -> CardStateRow {
    CardStateRow {
        card_id: s.card_id,
        next_review_s: s.next_review_s,
        interval_days: s.interval_days,
        ease: s.ease,
        reps: s.reps,
        lapses: s.lapses,
        status: status_code_of(s.status) as i64,
        learning_step: s.learning_step,
    }
}

pub open spec fn state_of_row(r: CardStateRow) -> CardState {
    CardState {
        card_id: r.card_id,
        next_review_s: r.next_review_s,
        interval_days: r.interval_days,
        ease: r.ease,
        reps: r.reps,
        lapses: r.lapses,
        status: status_of_code(r.status as int),
        learning_step: r.learning_step,
    }
}

impl CardState {
    /// The row under which the store keeps this state.
    pub fn to_row(&self) -> (r: CardStateRow)
        ensures
            r == row_of(*self),
    {
        CardStateRow {
            card_id: self.card_id,
            next_review_s: self.next_review_s,
            interval_days: self.interval_days,
            ease: self.ease,
            reps: self.reps,
            lapses: self.lapses,
            status: self.status.code(),
            learning_step: self.learning_step,
        }
    }

    /// The state that a stored row holds; an unknown status code reads as
    /// `New`.
    pub fn from_row(row: &CardStateRow) -> (r: CardState)
        ensures
            r == state_of_row(*row),
    {
        CardState {
            card_id: row.card_id,
            next_review_s: row.next_review_s,
            interval_days: row.interval_days,
            ease: row.ease,
            reps: row.reps,
            lapses: row.lapses,
            status: CardLearnStatus::from_code(row.status),
            learning_step: row.learning_step,
        }
    }
}

/// A state written as a row and read back is the same state, field for field.
pub proof fn lemma_row_round_trip(s: CardState)
    ensures
        state_of_row(row_of(s)) == s,
{
}

} // verus!
