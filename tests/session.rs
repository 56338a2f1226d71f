use termcards::card::Card;
use termcards::card_state::ReviewResult;
use termcards::session::{
    launch_args, rating_for_key, ReviewSession, SessionAction, SessionEvent, SANDBOX_PROGRAM,
};

fn card() -> Card {
    Card {
        id: 3,
        volume_mounts: vec![
            ("/home/u/data".to_string(), "/data".to_string()),
            ("/tmp/x".to_string(), "/x".to_string()),
        ],
        expected_output: "hello".to_string(),
        expected_input: "echo hello".to_string(),
        command: Some("bash".to_string()),
        docker_image: "alpine:3".to_string(),
        work_dir: Some("/data".to_string()),
    }
}

#[test]
fn launch_args_full_card() {
    assert_eq!(SANDBOX_PROGRAM, "docker");
    let args = launch_args(&card());
    let expected: Vec<String> = [
        "run",
        "-it",
        "--rm",
        "--network=none",
        "-v",
        "/home/u/data:/data:ro",
        "-v",
        "/tmp/x:/x:ro",
        "-w",
        "/data",
        "alpine:3",
        "-c",
        "bash",
    ]
    .iter()
    .map(|s| s.to_string())
    .collect();
    assert_eq!(args, expected);
}

#[test]
fn launch_args_minimal_card() {
    let mut c = card();
    c.volume_mounts.clear();
    c.command = None;
    c.work_dir = None;
    let args = launch_args(&c);
    assert_eq!(args, vec!["run", "-it", "--rm", "--network=none", "alpine:3"]);
}

#[test]
fn rating_keys() {
    assert_eq!(rating_for_key('1'), Some(ReviewResult::Again));
    assert_eq!(rating_for_key('2'), Some(ReviewResult::Hard));
    assert_eq!(rating_for_key('3'), Some(ReviewResult::Good));
    assert_eq!(rating_for_key('4'), Some(ReviewResult::Easy));
    assert_eq!(rating_for_key('5'), None);
    assert_eq!(rating_for_key('q'), None);
}

#[test]
fn unmatched_session_is_rated_again() {
    assert_eq!(ReviewSession::outcome_without_match(), ReviewResult::Again);
}

#[test]
fn session_events() {
    let mut s = ReviewSession::new(b"hello".to_vec());
    assert_eq!(s.on_event(&SessionEvent::Idle), SessionAction::Continue);
    assert_eq!(s.on_event(&SessionEvent::WaitInterrupted), SessionAction::Continue);
    assert_eq!(s.on_event(&SessionEvent::UserInput(b"ls\r".to_vec())), SessionAction::ForwardInput);
    assert_eq!(s.on_event(&SessionEvent::UserInput(Vec::new())), SessionAction::Continue);
    assert_eq!(s.on_event(&SessionEvent::PtyOutput(b"\x1b[1mhel".to_vec())), SessionAction::Continue);
    assert!(!s.matched);
    assert_eq!(s.on_event(&SessionEvent::PtyOutput(b"lo\r\n".to_vec())), SessionAction::KillChild);
    assert!(s.matched);
}

#[test]
fn session_ends_without_match() {
    let mut s = ReviewSession::new(b"hello".to_vec());
    assert_eq!(s.on_event(&SessionEvent::ChildExited), SessionAction::Finish);
    assert_eq!(s.on_event(&SessionEvent::PtyClosed), SessionAction::Finish);
    assert_eq!(s.on_event(&SessionEvent::WaitFailed), SessionAction::Finish);
    assert!(!s.matched);
}
