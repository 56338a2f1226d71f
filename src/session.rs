//! The decisions of a sandboxed review session: how the sandbox is launched,
//! what each event of the relay loop leads to, and how the outcome is rated.

use vstd::prelude::*;
use crate::card::{Card, mounts_view};
use crate::card_state::ReviewResult;
use crate::normalizer::{StreamMatcher, feed_result};

verus! {

/// The program that runs a card's sandbox.
pub const SANDBOX_PROGRAM: &'static str = "docker";

/// Rows of the pseudo-terminal.
pub const PTY_ROWS: u16 = 24;

/// Columns of the pseudo-terminal.
pub const PTY_COLS: u16 = 80;

/// Longest wait, in milliseconds, for either side of the relay to be ready.
pub const POLL_TIME_MS: i32 = 30;

/// The bind-mount argument of a (host, container) pair: `host:container:ro`.
pub open spec fn bind_spec(p: (Seq<char>, Seq<char>)) -> Seq<char> {
    p.0 + ":"@ + p.1 + ":ro"@
}

/// `-v` and a read-only bind for each mount pair, in order.
pub open spec fn mount_args(ms: Seq<(Seq<char>, Seq<char>)>) -> Seq<Seq<char>>
    decreases ms.len(),
{
    if ms.len() == 0 {
        Seq::empty()
    } else {
        mount_args(ms.drop_last()) + seq!["-v"@, bind_spec(ms.last())]
    }
}

/// The arguments of the sandbox program for a card: an interactive run on a
/// terminal, removed on exit, without network, with its mounts read-only, its
/// working directory, its image, and its command as a shell command.
pub open spec fn launch_args_spec(
    mounts: Seq<(Seq<char>, Seq<char>)>,
    work_dir: Option<Seq<char>>,
    image: Seq<char>,
    command: Option<Seq<char>>,
) -> Seq<Seq<char>> {
    seq!["run"@, "-it"@, "--rm"@, "--network=none"@] + mount_args(mounts) + match work_dir {
        Some(w) => seq!["-w"@, w],
        None => Seq::empty(),
    } + seq![image] + match command {
        Some(c) => seq!["-c"@, c],
        None => Seq::empty(),
    }
}

pub open spec fn opt_view(o: Option<String>) -> Option<Seq<char>> {
    match o {
        Some(s) => Some(s@),
        None => None,
    }
}

pub open spec fn strings_view(v: Seq<String>) -> Seq<Seq<char>> {
    v.map_values(|s: String| s@)
}

fn push_str_arg(args: &mut Vec<String>, a: &str)
    ensures
        strings_view(final(args)@) == strings_view(old(args)@).push(a@),
{
    args.push(String::from_str(a));
    assert(strings_view(args@) =~= strings_view(old(args)@).push(a@));
}

fn push_string_arg(args: &mut Vec<String>, a: String)
    ensures
        strings_view(final(args)@) == strings_view(old(args)@).push(a@),
{
    args.push(a);
    assert(strings_view(args@) =~= strings_view(old(args)@).push(a@));
}

/// The arguments with which `SANDBOX_PROGRAM` runs `card`.
pub fn launch_args(card: &Card) -> (r: Vec<String>)
    ensures
        strings_view(r@) == launch_args_spec(
            mounts_view(card.volume_mounts@),
            opt_view(card.work_dir),
            card.docker_image@,
            opt_view(card.command),
        ),
{
    let mut args: Vec<String> = Vec::new();
    push_str_arg(&mut args, "run");
    push_str_arg(&mut args, "-it");
    push_str_arg(&mut args, "--rm");
    push_str_arg(&mut args, "--network=none");
    let ghost head = strings_view(args@);
    assert(head =~= seq!["run"@, "-it"@, "--rm"@, "--network=none"@]);
    let mounts = &card.volume_mounts;
    let mut i: usize = 0;
    while i < mounts.len()
        invariant
            i <= mounts@.len(),
            strings_view(args@) == head + mount_args(mounts_view(mounts@.subrange(0, i as int))),
        decreases mounts.len() - i,
    {
        assert(mounts_view(mounts@.subrange(0, i + 1)).drop_last() =~= mounts_view(
            mounts@.subrange(0, i as int),
        ));
        push_str_arg(&mut args, "-v");
        let mut bind = mounts[i].0.clone();
        bind.append(":");
        bind.append(mounts[i].1.as_str());
        bind.append(":ro");
        push_string_arg(&mut args, bind);
        i = i + 1;
        assert(strings_view(args@) =~= head + mount_args(mounts_view(mounts@.subrange(0, i as int))));
    }
    assert(mounts@.subrange(0, mounts@.len() as int) =~= mounts@);
    let ghost with_mounts = strings_view(args@);
    match &card.work_dir {
        Some(w) => {
            push_str_arg(&mut args, "-w");
            push_string_arg(&mut args, w.clone());
        },
        None => {},
    }
    push_string_arg(&mut args, card.docker_image.clone());
    match &card.command {
        Some(c) => {
            push_str_arg(&mut args, "-c");
            push_string_arg(&mut args, c.clone());
        },
        None => {},
    }
    assert(strings_view(args@) =~= launch_args_spec(
        mounts_view(card.volume_mounts@),
        opt_view(card.work_dir),
        card.docker_image@,
        opt_view(card.command),
    ));
    args
}

/// What the relay loop observed in one turn.
#[derive(Debug)]
pub enum SessionEvent {
    /// The sandboxed process has terminated.
    ChildExited,
    /// The readiness wait was interrupted by a signal.
    WaitInterrupted,
    /// The readiness wait failed otherwise.
    WaitFailed,
    /// The wait timed out with neither side ready.
    Idle,
    /// A read from the pseudo-terminal hit end of stream or failed.
    PtyClosed,
    /// Bytes read from the pseudo-terminal (already echoed to the user).
    PtyOutput(Vec<u8>),
    /// Bytes read from the user's terminal.
    UserInput(Vec<u8>),
}

/// What the relay loop does next.
#[derive(Debug, Clone, Copy, PartialEq, Eq, Structural)]
pub enum SessionAction {
    /// Wait again.
    Continue,
    /// Write the user's bytes to the pseudo-terminal, ignoring failure, and
    /// wait again.
    ForwardInput,
    /// The expected output was seen: kill the sandboxed process, reap it, and
    /// end the loop.
    KillChild,
    /// End the loop without a match.
    Finish,
}

/// The accumulator, the match flag and the action after `ev`, from the
/// accumulator `acc` and the match flag `matched`, for the pattern `pat`.
pub open spec fn session_step(acc: Seq<u8>, pat: Seq<u8>, matched: bool, ev: SessionEvent) -> (
    Seq<u8>,
    bool,
    SessionAction,
) {
    match ev {
        SessionEvent::ChildExited => (acc, matched, SessionAction::Finish),
        SessionEvent::WaitFailed => (acc, matched, SessionAction::Finish),
        SessionEvent::PtyClosed => (acc, matched, SessionAction::Finish),
        SessionEvent::WaitInterrupted => (acc, matched, SessionAction::Continue),
        SessionEvent::Idle => (acc, matched, SessionAction::Continue),
        SessionEvent::UserInput(b) => (
            acc,
            matched,
            if b@.len() > 0 {
                SessionAction::ForwardInput
            } else {
                SessionAction::Continue
            },
        ),
        SessionEvent::PtyOutput(c) => {
            let (a, m) = feed_result(acc, pat, c@);
            (a, m, if m {
                SessionAction::KillChild
            } else {
                SessionAction::Continue
            })
        },
    }
}

/// A review session in progress: the search for the expected output, and
/// whether it has been found.
pub struct ReviewSession {
    pub matcher: StreamMatcher,
    pub matched: bool,
}

impl ReviewSession {
    /// A session that waits for `expected` in the sandbox's output.
    pub fn new(expected: Vec<u8>) -> (r: ReviewSession)
        ensures
            r.matcher.expected@ == expected@,
            r.matcher.acc@ == Seq::<u8>::empty(),
            !r.matched,
    {
        ReviewSession { matcher: StreamMatcher::new(expected), matched: false }
    }

    /// Takes one event of the relay loop and says what to do next.
    pub fn on_event(&mut self, ev: &SessionEvent) -> (action: SessionAction)
        ensures
            (final(self).matcher.acc@, final(self).matched, action) == session_step(
                old(self).matcher.acc@,
                old(self).matcher.expected@,
                old(self).matched,
                *ev,
            ),
            final(self).matcher.expected == old(self).matcher.expected,
    {
        match ev {
            SessionEvent::ChildExited => SessionAction::Finish,
            SessionEvent::WaitFailed => SessionAction::Finish,
            SessionEvent::PtyClosed => SessionAction::Finish,
            SessionEvent::WaitInterrupted => SessionAction::Continue,
            SessionEvent::Idle => SessionAction::Continue,
            SessionEvent::UserInput(b) => {
                if b.len() > 0 {
                    SessionAction::ForwardInput
                } else {
                    SessionAction::Continue
                }
            },
            SessionEvent::PtyOutput(c) => {
                let m = self.matcher.feed(c.as_slice());
                self.matched = m;
                if m {
                    SessionAction::KillChild
                } else {
                    SessionAction::Continue
                }
            },
        }
    }

    /// The result of a session that ended without a match: the lowest rating.
    pub fn outcome_without_match() -> (r: ReviewResult)
        ensures
            r == ReviewResult::Again,
    {
        ReviewResult::Again
    }
}

/// The rating that a key press gives: `1` Again, `2` Hard, `3` Good, `4` Easy;
/// other keys give none.
pub open spec fn rating_of_key(c: char) -> Option<ReviewResult> {
    if c == '1' {
        Some(ReviewResult::Again)
    } else if c == '2' {
        Some(ReviewResult::Hard)
    } else if c == '3' {
        Some(ReviewResult::Good)
    } else if c == '4' {
        Some(ReviewResult::Easy)
    } else {
        None
    }
}

/// The rating that the key `c` selects, if any.
pub fn rating_for_key(c: char) -> (r: Option<ReviewResult>)
    ensures
        r == rating_of_key(c),
{
    match c {
        '1' => Some(ReviewResult::Again),
        '2' => Some(ReviewResult::Hard),
        '3' => Some(ReviewResult::Good),
        '4' => Some(ReviewResult::Easy),
        _ => None,
    }
}

} // verus!
