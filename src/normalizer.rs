//! Stripping of terminal control sequences from a live byte stream, and a
//! bounded search of what is left for an expected pattern.

use vstd::prelude::*;

verus! {

pub const ESC: u8 = 0x1b;

pub const CR: u8 = 0x0d;

pub const BS: u8 = 0x08;

/// The byte that, after an escape, opens a control sequence.
pub const CSI_OPEN: u8 = 0x5b;

/// Most bytes the accumulator holds before it is cut back.
pub const ACC_CAP: usize = 1048576;

/// Where the scan of a chunk stands: in text, just after an escape byte, or
/// inside a control sequence.
#[derive(Debug, Clone, Copy, PartialEq, Eq, Structural)]
pub enum ScanMode {
    Text,
    Escape,
    Csi,
}

/// A byte in `@`..=`~` ends a control sequence.
pub open spec fn is_csi_final(b: u8) -> bool {
    0x40 <= b <= 0x7e
}

/// A byte read as text: an escape starts a control sequence, a carriage
/// return is dropped, a backspace removes the last byte kept (if any), and any
/// other byte is kept.
pub open spec fn text_step(acc: Seq<u8>, b: u8) -> (ScanMode, Seq<u8>) {
    if b == ESC {
        (ScanMode::Escape, acc)
    } else if b == CR {
        (ScanMode::Text, acc)
    } else if b == BS {
        (ScanMode::Text, if acc.len() > 0 { acc.drop_last() } else { acc })
    } else {
        (ScanMode::Text, acc.push(b))
    }
}

/// One byte of the scan. After an escape, `[` opens a control sequence; any
/// other byte drops the escape alone and is read as text.
pub open spec fn scan_step(st: (ScanMode, Seq<u8>), b: u8) -> (ScanMode, Seq<u8>) {
    match st.0 {
        ScanMode::Text => text_step(st.1, b),
        ScanMode::Escape => if b == CSI_OPEN {
            (ScanMode::Csi, st.1)
        } else {
            text_step(st.1, b)
        },
        ScanMode::Csi => if is_csi_final(b) {
            (ScanMode::Text, st.1)
        } else {
            (ScanMode::Csi, st.1)
        },
    }
}

/// The scan of `chunk`, begun in text with `acc` accumulated.
pub open spec fn scan(acc: Seq<u8>, chunk: Seq<u8>) -> (ScanMode, Seq<u8>)
    decreases chunk.len(),
{
    if chunk.len() == 0 {
        (ScanMode::Text, acc)
    } else {
        scan_step(scan(acc, chunk.drop_last()), chunk.last())
    }
}

/// The accumulator after `chunk` is folded into `acc`.
pub open spec fn normalize(acc: Seq<u8>, chunk: Seq<u8>) -> Seq<u8> {
    scan(acc, chunk).1
}

fn text_byte(acc: &mut Vec<u8>, b: u8) -> (mode: ScanMode)
    ensures
        (mode, final(acc)@) == text_step(old(acc)@, b),
{
    if b == ESC {
        ScanMode::Escape
    } else if b == CR {
        ScanMode::Text
    } else if b == BS {
        if acc.len() > 0 {
            acc.pop();
        }
        ScanMode::Text
    } else {
        acc.push(b);
        ScanMode::Text
    }
}

/// Folds `chunk` into `acc`, with control sequences and carriage returns
/// removed and backspaces applied.
pub fn push_normalized(acc: &mut Vec<u8>, chunk: &[u8])
    ensures
        final(acc)@ == normalize(old(acc)@, chunk@),
{
    let mut mode = ScanMode::Text;
    let mut i: usize = 0;
    while i < chunk.len()
        invariant
            i <= chunk.len(),
            (mode, acc@) == scan(old(acc)@, chunk@.subrange(0, i as int)),
        decreases chunk.len() - i,
    {
        let b = chunk[i];
        assert(chunk@.subrange(0, i + 1).drop_last() =~= chunk@.subrange(0, i as int));
        mode = match mode {
            ScanMode::Text => text_byte(acc, b),
            ScanMode::Escape => if b == CSI_OPEN {
                ScanMode::Csi
            } else {
                text_byte(acc, b)
            },
            ScanMode::Csi => if 0x40 <= b && b <= 0x7e {
                ScanMode::Text
            } else {
                ScanMode::Csi
            },
        };
        i = i + 1;
    }
    assert(chunk@.subrange(0, chunk.len() as int) =~= chunk@);
}

/// `pat` occurs in `acc` at index `i`.
pub open spec fn window_at(acc: Seq<u8>, pat: Seq<u8>, i: int) -> bool {
    &&& 0 <= i
    &&& i + pat.len() <= acc.len()
    &&& acc.subrange(i, i + pat.len()) == pat
}

/// Some contiguous window of `acc` is byte for byte `pat`.
pub open spec fn contains(acc: Seq<u8>, pat: Seq<u8>) -> bool {
    exists|i: int| window_at(acc, pat, i)
}

/// How many trailing bytes a cut keeps: one less than the pattern's length.
pub open spec fn tail_len(pat: Seq<u8>) -> int {
    if pat.len() == 0 {
        0
    } else {
        pat.len() - 1
    }
}

/// The last `n` bytes of `a`, or all of `a` where it is shorter.
pub open spec fn keep_tail(a: Seq<u8>, n: int) -> Seq<u8> {
    if a.len() <= n {
        a
    } else {
        a.subrange(a.len() - n, a.len() as int)
    }
}

/// The accumulator after a chunk, and whether the pattern was found. Once the
/// accumulator holds more than `ACC_CAP` bytes with no match, all but its
/// last `tail_len(pat)` bytes are dropped.
pub open spec fn feed_result(acc: Seq<u8>, pat: Seq<u8>, chunk: Seq<u8>) -> (Seq<u8>, bool) {
    let a = normalize(acc, chunk);
    if contains(a, pat) {
        (a, true)
    } else if a.len() > ACC_CAP {
        (keep_tail(a, tail_len(pat)), false)
    } else {
        (a, false)
    }
}

fn window_matches(acc: &[u8], pat: &[u8], start: usize) -> (r: bool)
    requires
        start + pat@.len() <= acc@.len(),
    ensures
        r == window_at(acc@, pat@, start as int),
{
    let alen = acc.len();
    let mut k: usize = 0;
    while k < pat.len()
        invariant
            start + pat@.len() <= acc@.len(),
            alen == acc@.len(),
            k <= pat.len(),
            forall|j: int| 0 <= j < k ==> acc@[start + j] == pat@[j],
        decreases pat.len() - k,
    {
        if acc[start + k] != pat[k] {
            assert(acc@.subrange(start as int, start + pat@.len())[k as int] != pat@[k as int]);
            return false;
        }
        k = k + 1;
    }
    assert(acc@.subrange(start as int, start + pat@.len()) =~= pat@);
    true
}

/// Whether `pat` occurs in `acc` as a contiguous window.
pub fn contains_window(acc: &[u8], pat: &[u8]) -> (r: bool)
    ensures
        r == contains(acc@, pat@),
{
    if pat.len() > acc.len() {
        assert forall|i: int| !window_at(acc@, pat@, i) by {}
        return false;
    }
    let last = acc.len() - pat.len();
    let mut i: usize = 0;
    loop
        invariant
            i <= last,
            last == acc@.len() - pat@.len(),
            forall|j: int| 0 <= j < i ==> !window_at(acc@, pat@, j),
        ensures
            forall|j: int| 0 <= j <= last ==> !window_at(acc@, pat@, j),
        decreases last - i,
    {
        if window_matches(acc, pat, i) {
            return true;
        }
        if i == last {
            break;
        }
        i = i + 1;
    }
    assert forall|j: int| !window_at(acc@, pat@, j) by {}
    false
}

/// The last `n` bytes of `a`, or all of it where it is shorter.
fn tail_of(a: &Vec<u8>, n: usize) -> (r: Vec<u8>)
    ensures
        r@ == keep_tail(a@, n as int),
{
    if a.len() <= n {
        return a.clone();
    }
    let start = a.len() - n;
    let mut r: Vec<u8> = Vec::new();
    let mut i: usize = start;
    while i < a.len()
        invariant
            start <= i <= a@.len(),
            start == a@.len() - n,
            r@ == a@.subrange(start as int, i as int),
        decreases a.len() - i,
    {
        r.push(a[i]);
        i = i + 1;
        assert(r@ =~= a@.subrange(start as int, i as int));
    }
    r
}

/// The state of a search for `expected` in a terminal's output.
pub struct StreamMatcher {
    pub expected: Vec<u8>,
    pub acc: Vec<u8>,
}

impl StreamMatcher {
    /// A search for `expected`, with nothing seen yet.
    pub fn new(expected: Vec<u8>) -> (r: StreamMatcher)
        ensures
            r.expected@ == expected@,
            r.acc@ == Seq::<u8>::empty(),
    {
        StreamMatcher { expected, acc: Vec::new() }
    }

    /// Folds a chunk of output into the accumulator and tells whether the
    /// expected pattern now occurs in it; without a match, an accumulator over
    /// `ACC_CAP` bytes is cut back to its last `tail_len(expected)` bytes.
    pub fn feed(&mut self, chunk: &[u8]) -> (matched: bool)
        ensures
            (final(self).acc@, matched) == feed_result(old(self).acc@, old(self).expected@, chunk@),
            final(self).expected == old(self).expected,
    {
        push_normalized(&mut self.acc, chunk);
        if contains_window(self.acc.as_slice(), self.expected.as_slice()) {
            return true;
        }
        if self.acc.len() > ACC_CAP {
            let keep = if self.expected.len() == 0 { 0 } else { self.expected.len() - 1 };
            self.acc = tail_of(&self.acc, keep);
        }
        false
    }
}

/// The empty pattern occurs in every accumulator.
pub proof fn lemma_contains_empty(acc: Seq<u8>)
    ensures
        contains(acc, Seq::<u8>::empty()),
{
    assert(acc.subrange(0, 0) =~= Seq::<u8>::empty());
    assert(window_at(acc, Seq::<u8>::empty(), 0));
}

/// Without a match, what one chunk leaves in the accumulator is at most
/// `ACC_CAP` bytes, whatever the chunk's length, for any pattern of at most
/// `ACC_CAP + 1` bytes.
pub proof fn lemma_feed_bounded(acc: Seq<u8>, pat: Seq<u8>, chunk: Seq<u8>)
    requires
        pat.len() <= ACC_CAP + 1,
    ensures
        !feed_result(acc, pat, chunk).1 ==> feed_result(acc, pat, chunk).0.len() <= ACC_CAP,
{
}

/// Cutting an accumulator in which the pattern does not occur back to its
/// last `tail_len(pat)` bytes loses no match: whatever bytes follow, the
/// pattern occurs after the cut tail exactly where it occurs after the whole.
pub proof fn lemma_cut_keeps_straddling_match(a: Seq<u8>, pat: Seq<u8>, s: Seq<u8>)
    requires
        !contains(a, pat),
    ensures
        contains(a + s, pat) == contains(keep_tail(a, tail_len(pat)) + s, pat),
{
    if pat.len() == 0 {
        lemma_contains_empty(a);
    }
    let n = tail_len(pat);
    let t = keep_tail(a, n);
    let u = a + s;
    let w = t + s;
    let off = a.len() - t.len();
    assert(w =~= u.subrange(off, u.len() as int));
    assert forall|j: int| 0 <= j implies window_at(w, pat, j) == window_at(u, pat, j + off) by {
        if j + pat.len() <= w.len() {
            assert(w.subrange(j, j + pat.len()) =~= u.subrange(j + off, j + off + pat.len()));
        }
    }
    if contains(u, pat) {
        let i = choose|i: int| window_at(u, pat, i);
        if i + pat.len() <= a.len() {
            assert(a.subrange(i, i + pat.len()) =~= u.subrange(i, i + pat.len()));
            assert(window_at(a, pat, i));
        }
        assert(i >= off);
        assert(window_at(w, pat, i - off));
    }
    if contains(w, pat) {
        let j = choose|j: int| window_at(w, pat, j);
        assert(window_at(u, pat, j + off));
    }
}

} // verus!
