//! Header-block framing: a five-state byte machine that detects the end of
//! an HTTP header block (`\r\n\r\n`) on a raw stream, bounded by a fixed
//! capacity.
use vstd::prelude::*;

verus! {

/// Capacity of the framing buffer: a hard limit on the total header size,
/// terminator included.
pub const MAX_HEADER_BYTES: usize = 1024;

pub const CR: u8 = 13;

pub const LF: u8 = 10;

/// States of the header-block boundary detector, named for the suffix of
/// the terminator seen so far.
#[derive(Clone, Copy, Debug, PartialEq, Eq, Structural)]
pub enum FramingState {
    Normal,
    SawCR,
    SawCRLF,
    SawCRLFCR,
    Done,
}

/// One transition of the detector. `Done` is absorbing; a carriage return
/// advances only from `Normal` or `SawCRLF`, a line feed only from `SawCR`
/// or `SawCRLFCR`, and every other byte resets to `Normal`.
pub open spec fn framing_step(st: FramingState, b: u8) -> FramingState {
    match st {
        FramingState::Done => FramingState::Done,
        _ => {
            if b == CR {
                match st {
                    FramingState::Normal => FramingState::SawCR,
                    FramingState::SawCRLF => FramingState::SawCRLFCR,
                    _ => FramingState::Normal,
                }
            } else if b == LF {
                match st {
                    FramingState::SawCR => FramingState::SawCRLF,
                    FramingState::SawCRLFCR => FramingState::Done,
                    _ => FramingState::Normal,
                }
            } else {
                FramingState::Normal
            }
        },
    }
}

/// The detector's state after consuming the first `n` bytes of `s`.
pub open spec fn state_after(s: Seq<u8>, n: int) -> FramingState
    decreases n,
{
    if n <= 0 {
        FramingState::Normal
    } else {
        framing_step(state_after(s, n - 1), s[n - 1])
    }
}

/// Whether the terminator `\r\n\r\n` occurs in `s` ending at or before `n`.
pub open spec fn contains_term_upto(s: Seq<u8>, n: int) -> bool {
    exists|i: int|
        0 <= i && i + 4 <= n && i + 4 <= s.len() && #[trigger] s[i] == CR && s[i + 1] == LF && s[i
            + 2] == CR && s[i + 3] == LF
}

/// Whether `s` is free of back-to-back carriage returns. The detector
/// resets to `Normal` on a second consecutive `\r`, so only on such inputs
/// does it find every occurrence of the terminator.
pub open spec fn no_crcr(s: Seq<u8>) -> bool {
    forall|i: int| 0 <= i && i + 1 < s.len() ==> !(#[trigger] s[i] == CR && s[i + 1] == CR)
}

/// The intended reading of each state on inputs without `\r\r`: `Done` once
/// the terminator has occurred, otherwise the state names the longest
/// terminator prefix that ends the consumed bytes.
pub open spec fn expected_state(s: Seq<u8>, n: int) -> FramingState {
    if contains_term_upto(s, n) {
        FramingState::Done
    } else if n >= 3 && s[n - 3] == CR && s[n - 2] == LF && s[n - 1] == CR {
        FramingState::SawCRLFCR
    } else if n >= 2 && s[n - 2] == CR && s[n - 1] == LF {
        FramingState::SawCRLF
    } else if n >= 1 && s[n - 1] == CR {
        FramingState::SawCR
    } else {
        FramingState::Normal
    }
}

/// On an input without `\r\r`, the detector is exactly the suffix tracker:
/// its state after `n` bytes is `expected_state`.
pub proof fn lemma_state_characterization(s: Seq<u8>, n: int)
    requires
        no_crcr(s),
        0 <= n <= s.len(),
    ensures
        state_after(s, n) == expected_state(s, n),
    decreases n,
{
    if n > 0 {
        lemma_state_characterization(s, n - 1);
        let b = s[n - 1];
        if contains_term_upto(s, n - 1) {
            assert(contains_term_upto(s, n));
        } else if expected_state(s, n - 1) == FramingState::SawCRLFCR {
            if b == LF {
                assert(s[n - 4] == CR && s[n - 3] == LF && s[n - 2] == CR && s[n - 1] == LF);
                assert(contains_term_upto(s, n));
            } else if b == CR {
                assert(s[n - 2] == CR && s[n - 1] == CR);
                assert(false);
            } else {
                assert(!contains_term_upto(s, n));
            }
        } else if expected_state(s, n - 1) == FramingState::SawCRLF {
            assert(!contains_term_upto(s, n));
        } else if expected_state(s, n - 1) == FramingState::SawCR {
            if b == LF {
                if contains_term_upto(s, n) {
                    let i = choose|i: int|
                        0 <= i && i + 4 <= n && i + 4 <= s.len() && #[trigger] s[i] == CR && s[i
                            + 1] == LF && s[i + 2] == CR && s[i + 3] == LF;
                    assert(i + 4 == n);
                    assert(expected_state(s, n - 1) == FramingState::SawCRLFCR);
                    assert(false);
                }
            } else if b == CR {
                assert(s[n - 2] == CR && s[n - 1] == CR);
                assert(false);
            } else {
                assert(!contains_term_upto(s, n));
            }
        } else {
            if contains_term_upto(s, n) {
                let i = choose|i: int|
                    0 <= i && i + 4 <= n && i + 4 <= s.len() && #[trigger] s[i] == CR && s[i + 1]
                        == LF && s[i + 2] == CR && s[i + 3] == LF;
                assert(i + 4 == n);
                assert(expected_state(s, n - 1) == FramingState::SawCRLFCR);
                assert(false);
            }
        }
    }
}

/// What each state certifies about the consumed bytes, on any input: a
/// non-`Normal` state only ever follows the matching suffix, and `Done`
/// only ever follows an occurrence of the terminator.
pub open spec fn state_evidence(s: Seq<u8>, n: int) -> bool {
    &&& state_after(s, n) == FramingState::SawCR ==> n >= 1 && s[n - 1] == CR
    &&& state_after(s, n) == FramingState::SawCRLF ==> n >= 2 && s[n - 2] == CR && s[n - 1] == LF
    &&& state_after(s, n) == FramingState::SawCRLFCR ==> n >= 3 && s[n - 3] == CR && s[n - 2] == LF
        && s[n - 1] == CR
    &&& state_after(s, n) == FramingState::Done ==> contains_term_upto(s, n)
}

/// On every input, the detector never claims more than the bytes show:
/// in particular, reaching `Done` means the terminator really occurred.
pub proof fn lemma_done_implies_terminator(s: Seq<u8>, n: int)
    requires
        0 <= n <= s.len(),
    ensures
        state_evidence(s, n),
    decreases n,
{
    if n > 0 {
        lemma_done_implies_terminator(s, n - 1);
        if state_after(s, n) == FramingState::Done && state_after(s, n - 1)
            == FramingState::SawCRLFCR {
            assert(s[n - 4] == CR && s[n - 3] == LF && s[n - 2] == CR && s[n - 1] == LF);
            assert(contains_term_upto(s, n));
        }
        if state_after(s, n - 1) == FramingState::Done {
            assert(contains_term_upto(s, n));
        }
    }
}

/// On an input without `\r\r`, the detector completes exactly when the
/// input holds the terminator `\r\n\r\n`.
pub proof fn lemma_done_iff_terminator(s: Seq<u8>)
    requires
        no_crcr(s),
    ensures
        state_after(s, s.len() as int) == FramingState::Done <==> contains_term_upto(
            s,
            s.len() as int,
        ),
{
    lemma_state_characterization(s, s.len() as int);
}

/// `state_after` depends only on the consumed prefix.
pub proof fn lemma_state_after_take(s: Seq<u8>, n: int, i: int)
    requires
        0 <= i <= n <= s.len(),
    ensures
        state_after(s.take(n), i) == state_after(s, i),
    decreases i,
{
    if i > 0 {
        lemma_state_after_take(s, n, i - 1);
    }
}

/// The bounded prefix length of `s` that framing may consume.
pub open spec fn frame_limit(s: Seq<u8>) -> int {
    if s.len() < MAX_HEADER_BYTES {
        s.len() as int
    } else {
        MAX_HEADER_BYTES as int
    }
}

pub open spec fn frame_len_from(s: Seq<u8>, n: int) -> int
    decreases frame_limit(s) - n,
{
    if n >= frame_limit(s) {
        frame_limit(s)
    } else if state_after(s, n) == FramingState::Done {
        n
    } else {
        frame_len_from(s, n + 1)
    }
}

/// How many bytes framing consumes from `s`: through the end of the first
/// terminator when one completes within the bound, else the whole bounded
/// prefix.
pub open spec fn frame_len(s: Seq<u8>) -> int {
    frame_len_from(s, 0)
}

proof fn lemma_frame_len_from_is(s: Seq<u8>, m: int, k: int)
    requires
        0 <= m <= k <= frame_limit(s),
        forall|j: int| 0 <= j < k ==> state_after(s, j) != FramingState::Done,
        k < frame_limit(s) ==> state_after(s, k) == FramingState::Done,
        k == frame_limit(s) ==> (state_after(s, k) == FramingState::Done || forall|j: int|
            0 <= j <= k ==> state_after(s, j) != FramingState::Done),
    ensures
        frame_len_from(s, m) == k,
    decreases k - m,
{
    if m < k {
        lemma_frame_len_from_is(s, m + 1, k);
    }
}

/// The consumed length is `k` when the detector first completes at `k`
/// within the bound.
pub proof fn lemma_frame_len_found(s: Seq<u8>, k: int)
    requires
        0 <= k <= frame_limit(s),
        state_after(s, k) == FramingState::Done,
        forall|j: int| 0 <= j < k ==> state_after(s, j) != FramingState::Done,
    ensures
        frame_len(s) == k,
{
    lemma_frame_len_from_is(s, 0, k);
}

/// The consumed length is the whole bounded prefix when the detector never
/// completes within it.
pub proof fn lemma_frame_len_exhausted(s: Seq<u8>)
    requires
        forall|j: int| 0 <= j <= frame_limit(s) ==> state_after(s, j) != FramingState::Done,
    ensures
        frame_len(s) == frame_limit(s),
{
    lemma_frame_len_from_is(s, 0, frame_limit(s));
}

/// The header framer: the detector state plus every byte consumed so far.
pub struct Framer {
    pub state: FramingState,
    pub data: Vec<u8>,
}

impl Framer {
    /// The state always reflects the consumed bytes, whose count stays
    /// within the fixed capacity.
    pub open spec fn wf(self) -> bool {
        &&& self.state == state_after(self.data@, self.data@.len() as int)
        &&& self.data@.len() <= MAX_HEADER_BYTES
    }

    pub fn new() -> (r: Self)
        ensures
            r.wf(),
            r.state == FramingState::Normal,
            r.data@ == Seq::<u8>::empty(),
    {
        Framer { state: FramingState::Normal, data: Vec::new() }
    }

    /// Whether the framer still consumes bytes: it is neither complete nor
    /// out of capacity.
    pub fn wants_more(&self) -> (r: bool)
        ensures
            r == (self.state != FramingState::Done && self.data@.len() < MAX_HEADER_BYTES),
    {
        self.state != FramingState::Done && self.data.len() < MAX_HEADER_BYTES
    }

    /// Consume one byte: record it and advance the detector.
    pub fn push_byte(&mut self, b: u8)
        requires
            old(self).wf(),
            old(self).state != FramingState::Done,
            old(self).data@.len() < MAX_HEADER_BYTES,
        ensures
            final(self).wf(),
            final(self).data@ == old(self).data@.push(b),
            final(self).state == framing_step(old(self).state, b),
    {
        self.data.push(b);
        let next = if b == CR {
            match self.state {
                FramingState::Normal => FramingState::SawCR,
                FramingState::SawCRLF => FramingState::SawCRLFCR,
                _ => FramingState::Normal,
            }
        } else if b == LF {
            match self.state {
                FramingState::SawCR => FramingState::SawCRLF,
                FramingState::SawCRLFCR => FramingState::Done,
                _ => FramingState::Normal,
            }
        } else {
            FramingState::Normal
        };
        self.state = next;
        proof {
            let s2 = old(self).data@.push(b);
            let n = old(self).data@.len() as int;
            assert(s2.take(n) =~= old(self).data@);
            lemma_state_after_take(s2, n, n);
        }
    }

    /// Run a fresh framer over `input` from the start, consuming bytes until
    /// the header block ends, the capacity is reached, or input runs out.
    /// Returns the consumed prefix and whether the block completed; on an
    /// incomplete block the whole bounded prefix is yielded for best-effort
    /// parsing downstream.
    pub fn run(input: &Vec<u8>) -> (r: (Vec<u8>, bool))
        ensures
            r.0@ == input@.take(r.0@.len() as int),
            r.0@.len() <= MAX_HEADER_BYTES,
            r.0@.len() <= input@.len(),
            r.1 == (state_after(input@, r.0@.len() as int) == FramingState::Done),
            forall|j: int| 0 <= j < r.0@.len() ==> state_after(input@, j) != FramingState::Done,
            r.0@.len() == frame_len(input@),
            !r.1 ==> r.0@.len() == (if input@.len() < MAX_HEADER_BYTES {
                input@.len() as int
            } else {
                MAX_HEADER_BYTES as int
            }),
    {
        let mut fr = Framer::new();
        let mut i: usize = 0;
        while fr.state != FramingState::Done && i < input.len() && i < MAX_HEADER_BYTES
            invariant
                fr.wf(),
                i == fr.data@.len(),
                i <= input@.len(),
                fr.data@ == input@.take(i as int),
                fr.state == state_after(input@, i as int),
                forall|j: int| 0 <= j < i ==> state_after(input@, j) != FramingState::Done,
            decreases input@.len() - i,
        {
            let b = input[i];
            fr.push_byte(b);
            i = i + 1;
            proof {
                assert(fr.data@ =~= input@.take(i as int));
                lemma_state_after_take(input@, i as int, i as int);
            }
        }
        let done = fr.state == FramingState::Done;
        proof {
            if done {
                lemma_frame_len_found(input@, i as int);
            } else {
                lemma_frame_len_exhausted(input@);
            }
        }
        (fr.data, done)
    }
}

} // verus!
