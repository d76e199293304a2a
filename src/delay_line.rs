use vstd::arithmetic::div_mod::{lemma_add_mod_noop_right, lemma_mod_sub_multiples_vanish, lemma_small_mod};
use vstd::prelude::*;

verus! {

/// Abstract state of a delay line: its frames and the cursor into them.
pub struct DelayLineView<T> {
    pub frames: Seq<(T, T)>,
    pub cursor: nat,
}

impl<T> DelayLineView<T> {
    /// A usable delay line holds at least one frame and its cursor points at one.
    pub open spec fn wf(self) -> bool {
        &&& 0 < self.frames.len()
        &&& self.cursor < self.frames.len()
    }

    /// The frame under the cursor.
    pub open spec fn current(self) -> (T, T) {
        self.frames[self.cursor as int]
    }

    /// The state after overwriting the frame under the cursor.
    pub open spec fn written(self, frame: (T, T)) -> DelayLineView<T> {
        DelayLineView { frames: self.frames.update(self.cursor as int, frame), cursor: self.cursor }
    }

    /// The state after moving the cursor one frame on, wrapping at the end.
    pub open spec fn advanced(self) -> DelayLineView<T> {
        DelayLineView { frames: self.frames, cursor: (self.cursor + 1) % self.frames.len() }
    }

    /// The state after `n` advances.
    pub open spec fn advanced_by(self, n: nat) -> DelayLineView<T>
        decreases n,
    {
        if n == 0 {
            self
        } else {
            self.advanced_by((n - 1) as nat).advanced()
        }
    }

    /// One engine step: store a frame under the cursor, then move on.
    pub open spec fn stepped(self, frame: (T, T)) -> DelayLineView<T> {
        self.written(frame).advanced()
    }

    /// The state after one step for each of `frames`, in order.
    pub open spec fn fed(self, frames: Seq<(T, T)>) -> DelayLineView<T>
        decreases frames.len(),
    {
        if frames.len() == 0 {
            self
        } else {
            self.fed(frames.drop_last()).stepped(frames.last())
        }
    }
}

/// How many steps it takes the cursor to get from `from` to `to` on a line of
/// `len` frames.
spec fn distance(from: int, to: int, len: int) -> int {
    if from <= to {
        to - from
    } else {
        to + len - from
    }
}

proof fn lemma_mod_once(x: int, m: int)
    requires
        0 < m,
        0 <= x < 2 * m,
    ensures
        x % m == if x < m { x } else { x - m },
{
    if x < m {
        lemma_small_mod(x as nat, m as nat);
    } else {
        lemma_mod_sub_multiples_vanish(x, m);
        lemma_small_mod((x - m) as nat, m as nat);
    }
}

/// Advancing the cursor `n` times from any position `c` on a line of `len`
/// frames leaves it at `(c + n) mod len`; from the first frame, at `n mod len`.
/// The frames are untouched.
pub proof fn lemma_cursor_wrap<T>(v: DelayLineView<T>, n: nat)
    requires
        v.wf(),
    ensures
        v.advanced_by(n).cursor == (v.cursor + n) % v.frames.len(),
        v.advanced_by(n).frames == v.frames,
        v.advanced_by(n).wf(),
    decreases n,
{
    let len = v.frames.len() as int;
    if n == 0 {
        lemma_small_mod(v.cursor, v.frames.len());
    } else {
        lemma_cursor_wrap(v, (n - 1) as nat);
        lemma_add_mod_noop_right(1, v.cursor + n - 1, len);
    }
}

/// Feeding `frames` (no more than the line holds) moves the cursor on by their
/// number and leaves every frame at least that many steps ahead of the
/// starting cursor as it was.
proof fn lemma_fed_keeps_ahead<T>(v: DelayLineView<T>, frames: Seq<(T, T)>)
    requires
        v.wf(),
        frames.len() <= v.frames.len(),
    ensures
        v.fed(frames).wf(),
        v.fed(frames).frames.len() == v.frames.len(),
        v.fed(frames).cursor == (v.cursor + frames.len()) % v.frames.len(),
        forall|p: int|
            0 <= p < v.frames.len() && distance(v.cursor as int, p, v.frames.len() as int)
                >= frames.len() ==> #[trigger] v.fed(frames).frames[p] == v.frames[p],
    decreases frames.len(),
{
    let len = v.frames.len() as int;
    let c = v.cursor as int;
    let m = frames.len() as int;
    if m == 0 {
        lemma_small_mod(v.cursor, v.frames.len());
    } else {
        let rest = frames.drop_last();
        lemma_fed_keeps_ahead(v, rest);
        let w = v.fed(rest);
        lemma_mod_once(c + m - 1, len);
        assert(distance(c, w.cursor as int, len) == m - 1);
        lemma_add_mod_noop_right(1, c + m - 1, len);
    }
}

/// A frame stored at one step is the frame read back exactly one line length
/// of steps later: after it, as many further steps as the line has other
/// frames bring the cursor back onto it, and none of them overwrites it.
pub proof fn lemma_echo_after_length<T>(v: DelayLineView<T>, frame: (T, T), later: Seq<(T, T)>)
    requires
        v.wf(),
        later.len() + 1 == v.frames.len(),
    ensures
        v.stepped(frame).fed(later).cursor == v.cursor,
        v.stepped(frame).fed(later).current() == frame,
{
    let len = v.frames.len() as int;
    let c = v.cursor as int;
    let s = v.stepped(frame);
    lemma_mod_once(c + 1, len);
    lemma_fed_keeps_ahead(s, later);
    lemma_mod_once(s.cursor + len - 1, len);
    assert(distance(s.cursor as int, c, len) >= later.len());
    assert(s.frames[c] == frame);
}

/// A fixed-length circular history of stereo frames with a read/write cursor.
pub struct DelayLine<T> {
    frames: Vec<(T, T)>,
    cursor: usize,
}

impl<T> View for DelayLine<T> {
    type V = DelayLineView<T>;

    closed spec fn view(&self) -> DelayLineView<T> {
        DelayLineView { frames: self.frames@, cursor: self.cursor as nat }
    }
}

impl<T: Copy> DelayLine<T> {
    /// A delay line of `length` frames, each `(silence, silence)`, with the
    /// cursor on the first; `None` when `length` is zero, since a cursor cannot
    /// wrap around an empty line.
    pub fn new(length: usize, silence: T) -> (r: Option<DelayLine<T>>)
        ensures
            r is None <==> length == 0,
            r matches Some(d) ==> {
                &&& d@.wf()
                &&& d@.cursor == 0
                &&& d@.frames == Seq::new(length as nat, |_i: int| (silence, silence))
            },
    {
        if length == 0 {
            return None;
        }
        let mut frames: Vec<(T, T)> = Vec::with_capacity(length);
        let mut i: usize = 0;
        while i < length
            invariant
                i <= length,
                frames@ == Seq::new(i as nat, |_i: int| (silence, silence)),
            decreases length - i,
        {
            frames.push((silence, silence));
            i = i + 1;
            assert(frames@ =~= Seq::new(i as nat, |_i: int| (silence, silence)));
        }
        Some(DelayLine { frames, cursor: 0 })
    }

    /// The number of frames.
    pub fn len(&self) -> (r: usize)
        ensures
            r == self@.frames.len(),
    {
        self.frames.len()
    }

    /// The index of the frame under the cursor.
    pub fn cursor(&self) -> (r: usize)
        ensures
            r == self@.cursor,
    {
        self.cursor
    }

    /// The frame under the cursor.
    pub fn read(&self) -> (r: (T, T))
        requires
            self@.wf(),
        ensures
            r == self@.current(),
    {
        self.frames[self.cursor]
    }

    /// Overwrites the frame under the cursor.
    pub fn write(&mut self, frame: (T, T))
        requires
            old(self)@.wf(),
        ensures
            final(self)@ == old(self)@.written(frame),
            final(self)@.wf(),
    {
        self.frames.set(self.cursor, frame);
    }

    /// Moves the cursor one frame on, back to the first after the last.
    pub fn advance(&mut self)
        requires
            old(self)@.wf(),
        ensures
            final(self)@ == old(self)@.advanced(),
            final(self)@.wf(),
    {
        let n = self.frames.len();
        self.cursor = (self.cursor + 1) % n;
    }
}

/// The number of whole stereo frames that one processing call handles: every
/// frame of the input that has a whole frame of output to go to.
pub fn pairs_to_process(input_len: usize, output_len: usize) -> (r: usize)
    ensures
        r as int == if input_len / 2 <= output_len / 2 { input_len / 2 } else { output_len / 2 },
{
    let a = input_len / 2;
    let b = output_len / 2;
    if a <= b { a } else { b }
}

} // verus!
