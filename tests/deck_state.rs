use termcards::card::Card;
use termcards::card_state::{CardLearnStatus, CardState};
use termcards::deck_state::{deck_counts, is_due, state_for_card, states_for_cards, status_label};

const NOW: i64 = 1_000_000;

fn card(id: i64) -> Card {
    Card {
        id,
        volume_mounts: Vec::new(),
        expected_output: String::new(),
        expected_input: String::new(),
        command: None,
        docker_image: "img".to_string(),
        work_dir: None,
    }
}

fn state(id: i64, status: CardLearnStatus, next: i64) -> CardState {
    let mut s = CardState::new(id, next);
    s.status = status;
    s
}

#[test]
fn states_follow_card_order() {
    let cards = vec![card(2), card(1)];
    let states = vec![state(1, CardLearnStatus::New, 0), state(2, CardLearnStatus::Learn, 0)];
    let r = states_for_cards(&cards, &states).unwrap();
    assert_eq!(r[0].card_id, 2);
    assert_eq!(r[1].card_id, 1);
    assert_eq!(r[0].status, CardLearnStatus::Learn);
}

#[test]
fn missing_state_gives_none() {
    let cards = vec![card(1), card(5)];
    let states = vec![state(1, CardLearnStatus::New, 0)];
    assert!(states_for_cards(&cards, &states).is_none());
    assert!(state_for_card(&states, 5).is_none());
    assert_eq!(state_for_card(&states, 1).unwrap().card_id, 1);
}

#[test]
fn counts_of_a_deck() {
    let states = vec![
        state(1, CardLearnStatus::New, 0),
        state(2, CardLearnStatus::Learn, 0),
        state(3, CardLearnStatus::Review, NOW - 1),
        state(4, CardLearnStatus::Review, NOW + 100),
        state(5, CardLearnStatus::New, 0),
    ];
    let c = deck_counts(&states, NOW);
    assert_eq!(c.new, 2);
    assert_eq!(c.learn, 1);
    assert_eq!(c.due, 1);
    assert_eq!(c.total, 5);
    assert!(is_due(&states[2], NOW));
    assert!(!is_due(&states[3], NOW));
    assert!(!is_due(&states[1], NOW));
}

#[test]
fn status_labels() {
    assert_eq!(status_label(&state(1, CardLearnStatus::New, 0), NOW), "New");
    assert_eq!(status_label(&state(1, CardLearnStatus::Learn, 0), NOW), "Learn");
    assert_eq!(status_label(&state(1, CardLearnStatus::Review, NOW - 5), NOW), "Review");
    assert_eq!(status_label(&state(1, CardLearnStatus::Review, NOW + 2 * 86400), NOW), "in 2 days");
    assert_eq!(status_label(&state(1, CardLearnStatus::Review, NOW), NOW), "now");
}
