//! A deck's cards matched with their scheduling states, and its summary.

use vstd::prelude::*;
use crate::card::Card;
use crate::card_state::{CardLearnStatus, CardState, fits_i64};
use crate::time_utils::{format_until_duration, until_text};

verus! {

/// The first state in `states` that belongs to card `id`.
pub open spec fn find_state(states: Seq<CardState>, id: i64) -> Option<CardState>
    decreases states.len(),
{
    if states.len() == 0 {
        None
    } else if states[0].card_id == id {
        Some(states[0])
    } else {
        find_state(states.drop_first(), id)
    }
}

/// The state of card `id` in `states`, if it has one.
pub fn state_for_card(states: &Vec<CardState>, id: i64) -> (r: Option<CardState>)
    ensures
        r == find_state(states@, id),
{
    let mut i: usize = 0;
    assert(states@.subrange(0, states@.len() as int) =~= states@);
    while i < states.len()
        invariant
            i <= states@.len(),
            find_state(states@, id) == find_state(states@.subrange(i as int, states@.len() as int), id),
        decreases states.len() - i,
    {
        let ghost rest = states@.subrange(i as int, states@.len() as int);
        assert(rest.drop_first() =~= states@.subrange(i + 1, states@.len() as int));
        if states[i].card_id == id {
            return Some(states[i]);
        }
        i = i + 1;
    }
    None
}

/// For each card, in order, its state in `states`; `None` where some card has
/// none.
pub fn states_for_cards(cards: &Vec<Card>, states: &Vec<CardState>) -> (r: Option<Vec<CardState>>)
    ensures
        r.is_none() <==> exists|i: int|
            0 <= i < cards@.len() && find_state(states@, #[trigger] cards@[i].id) is None,
        r matches Some(v) ==> {
            &&& v@.len() == cards@.len()
            &&& forall|i: int|
                0 <= i < cards@.len() ==> Some(#[trigger] v@[i]) == find_state(states@, cards@[i].id)
        },
{
    let mut out: Vec<CardState> = Vec::new();
    let mut i: usize = 0;
    while i < cards.len()
        invariant
            i <= cards@.len(),
            out@.len() == i,
            forall|j: int| 0 <= j < i ==> Some(#[trigger] out@[j]) == find_state(states@, cards@[j].id),
        decreases cards.len() - i,
    {
        match state_for_card(states, cards[i].id) {
            Some(st) => out.push(st),
            None => {
                return None;
            },
        }
        i = i + 1;
    }
    assert forall|j: int| 0 <= j < cards@.len() implies find_state(states@, #[trigger] cards@[j].id) is Some by {
        assert(Some(out@[j]) == find_state(states@, cards@[j].id));
    }
    Some(out)
}

/// A card under review whose due time has passed.
pub open spec fn due(s: CardState, now: int) -> bool {
    s.status == CardLearnStatus::Review && s.next_review_s < now
}

/// Whether `s` is a card under review whose due time has passed.
pub fn is_due(s: &CardState, now: i64) -> (r: bool)
    ensures
        r == due(*s, now as int),
{
    s.status == CardLearnStatus::Review && s.next_review_s < now
}

pub open spec fn count_status(states: Seq<CardState>, st: CardLearnStatus) -> nat
    decreases states.len(),
{
    if states.len() == 0 {
        0
    } else {
        count_status(states.drop_last(), st) + if states.last().status == st {
            1nat
        } else {
            0nat
        }
    }
}

pub open spec fn count_due(states: Seq<CardState>, now: int) -> nat
    decreases states.len(),
{
    if states.len() == 0 {
        0
    } else {
        count_due(states.drop_last(), now) + if due(states.last(), now) {
            1nat
        } else {
            0nat
        }
    }
}

proof fn lemma_counts_bounded(states: Seq<CardState>, now: int)
    ensures
        count_status(states, CardLearnStatus::New) <= states.len(),
        count_status(states, CardLearnStatus::Learn) <= states.len(),
        count_due(states, now) <= states.len(),
    decreases states.len(),
{
    if states.len() > 0 {
        lemma_counts_bounded(states.drop_last(), now);
    }
}

/// How many cards of a deck are new, in learning, and due for review, and how
/// many there are in all.
#[derive(Debug, Clone, Copy, PartialEq, Eq, Structural)]
pub struct DeckCounts {
    pub new: usize,
    pub learn: usize,
    pub due: usize,
    pub total: usize,
}

/// The counts of a deck whose cards have the states `states`, at time `now`.
pub fn deck_counts(states: &Vec<CardState>, now: i64) -> (r: DeckCounts)
    ensures
        r.new == count_status(states@, CardLearnStatus::New),
        r.learn == count_status(states@, CardLearnStatus::Learn),
        r.due == count_due(states@, now as int),
        r.total == states@.len(),
{
    let mut counts = DeckCounts { new: 0, learn: 0, due: 0, total: 0 };
    let mut i: usize = 0;
    while i < states.len()
        invariant
            i <= states@.len(),
            counts.new == count_status(states@.subrange(0, i as int), CardLearnStatus::New),
            counts.learn == count_status(states@.subrange(0, i as int), CardLearnStatus::Learn),
            counts.due == count_due(states@.subrange(0, i as int), now as int),
            counts.total == i,
        decreases states.len() - i,
    {
        let ghost next = states@.subrange(0, i + 1);
        assert(next.drop_last() =~= states@.subrange(0, i as int));
        proof {
            lemma_counts_bounded(next, now as int);
        }
        let s = &states[i];
        if s.status == CardLearnStatus::New {
            counts.new = counts.new + 1;
        } else if s.status == CardLearnStatus::Learn {
            counts.learn = counts.learn + 1;
        }
        if is_due(s, now) {
            counts.due = counts.due + 1;
        }
        counts.total = counts.total + 1;
        i = i + 1;
    }
    assert(states@.subrange(0, states@.len() as int) =~= states@);
    counts
}

/// The label of a card in a deck's listing at time `now`: its status, or for
/// a card under review that is not yet due, the time until it is.
pub open spec fn status_label_text(s: CardState, now: int) -> Seq<char> {
    match s.status {
        CardLearnStatus::New => "New"@,
        CardLearnStatus::Learn => "Learn"@,
        CardLearnStatus::Review => if s.next_review_s < now {
            "Review"@
        } else {
            until_text(s.next_review_s - now)
        },
    }
}

/// The label of a card in a deck's listing at time `now`.
pub fn status_label(s: &CardState, now: i64) -> (r: String)
    requires
        fits_i64(s.next_review_s - now),
    ensures
        r@ == status_label_text(*s, now as int),
{
    match s.status {
        CardLearnStatus::New => String::from_str("New"),
        CardLearnStatus::Learn => String::from_str("Learn"),
        CardLearnStatus::Review => if s.next_review_s < now {
            String::from_str("Review")
        } else {
            format_until_duration(s.next_review_s - now)
        },
    }
}

} // verus!
