//! Waiting for the next frame, and for a given time.

use vstd::prelude::*;

verus! {

/// The wakers that wait for the next frame, in the order they registered.
pub struct FrameChangeEvent<W> {
    wakers: Vec<W>,
}

impl<W> View for FrameChangeEvent<W> {
    type V = Seq<W>;

    closed spec fn view(&self) -> Seq<W> {
        self.wakers@
    }
}

impl<W> FrameChangeEvent<W> {
    /// No waker waits.
    pub fn new() -> (ev: Self)
        ensures
            ev@ == Seq::<W>::empty(),
    {
        FrameChangeEvent { wakers: Vec::new() }
    }

    /// A new frame begins: hands out every waiting waker, in registration
    /// order, for the caller to fire, and forgets them.
    pub fn update(&mut self) -> (fired: Vec<W>)
        ensures
            fired@ == old(self)@,
            final(self)@ == Seq::<W>::empty(),
    {
        let mut fired: Vec<W> = Vec::new();
        std::mem::swap(&mut fired, &mut self.wakers);
        fired
    }

    /// `waker` waits for the next frame.
    pub fn register_callback(&mut self, waker: W)
        ensures
            final(self)@ == old(self)@.push(waker),
    {
        self.wakers.push(waker);
    }

    /// Number of waiting wakers.
    pub fn len(&self) -> (n: usize)
        ensures
            n == self@.len(),
    {
        self.wakers.len()
    }
}

/// A call on a `FrameChangeEvent`.
pub enum FrameOp<W> {
    /// `register_callback` of the waker.
    Register(W),
    /// `update`.
    Update,
}

/// The wakers waiting after `ops`, starting from none: what
/// `register_callback` and `update` do.
pub open spec fn waiting_after<W>(ops: Seq<FrameOp<W>>) -> Seq<W>
    decreases ops.len(),
{
    if ops.len() == 0 {
        Seq::empty()
    } else {
        match ops.last() {
            FrameOp::Register(w) => waiting_after(ops.drop_last()).push(w),
            FrameOp::Update => Seq::empty(),
        }
    }
}

/// What the `update` at index `i` of `ops` hands out.
pub open spec fn handed_out_at<W>(ops: Seq<FrameOp<W>>, i: int) -> Seq<W> {
    waiting_after(ops.take(i))
}

/// The wakers registered in `ops`, in order.
pub open spec fn registrations<W>(ops: Seq<FrameOp<W>>) -> Seq<W>
    decreases ops.len(),
{
    if ops.len() == 0 {
        Seq::empty()
    } else {
        match ops.last() {
            FrameOp::Register(w) => registrations(ops.drop_last()).push(w),
            FrameOp::Update => registrations(ops.drop_last()),
        }
    }
}

/// `lo` is the first index after the last `update` of `ops` before `hi`
/// (0 if there is none).
pub open spec fn frame_starts_at<W>(ops: Seq<FrameOp<W>>, lo: int, hi: int) -> bool {
    &&& 0 <= lo <= hi <= ops.len()
    &&& (lo == 0 || ops[lo - 1] is Update)
    &&& forall|j: int| lo <= j < hi ==> !(ops[j] is Update)
}

/// The wakers waiting at any point are exactly those registered since the
/// last `update`, in registration order.
pub proof fn lemma_waiting_since_last_update<W>(ops: Seq<FrameOp<W>>, lo: int)
    requires
        frame_starts_at(ops, lo, ops.len() as int),
    ensures
        waiting_after(ops) == registrations(ops.subrange(lo, ops.len() as int)),
    decreases ops.len(),
{
    let n = ops.len() as int;
    if n == lo {
        assert(ops.subrange(lo, n) =~= Seq::<FrameOp<W>>::empty());
    } else {
        let rest = ops.drop_last();
        assert(frame_starts_at(rest, lo, n - 1)) by {
            assert forall|j: int| lo <= j < n - 1 implies !(rest[j] is Update) by {
                assert(rest[j] == ops[j]);
            }
            if lo > 0 {
                assert(rest[lo - 1] == ops[lo - 1]);
            }
        }
        lemma_waiting_since_last_update(rest, lo);
        assert(ops.subrange(lo, n).drop_last() =~= rest.subrange(lo, n - 1));
        assert(ops.subrange(lo, n).last() == ops.last());
    }
}

/// Each `update` hands out exactly the wakers registered since the previous
/// `update` (or since the start), in registration order, and leaves none
/// waiting: every registered waker is handed out by the first `update` after
/// its registration and by no other, and a waker registered after an
/// `update` waits for the next one.
pub proof fn lemma_update_hands_out_each_frame<W>(ops: Seq<FrameOp<W>>, lo: int, i: int)
    requires
        frame_starts_at(ops, lo, i),
        i < ops.len(),
        ops[i] is Update,
    ensures
        handed_out_at(ops, i) == registrations(ops.subrange(lo, i)),
        waiting_after(ops.take(i + 1)) == Seq::<W>::empty(),
        frame_starts_at(ops, i + 1, i + 1),
{
    let pre = ops.take(i);
    assert(frame_starts_at(pre, lo, i)) by {
        assert forall|j: int| lo <= j < i implies !(pre[j] is Update) by {
            assert(pre[j] == ops[j]);
        }
        if lo > 0 {
            assert(pre[lo - 1] == ops[lo - 1]);
        }
    }
    lemma_waiting_since_last_update(pre, lo);
    assert(pre.subrange(lo, i) =~= ops.subrange(lo, i));
    assert(ops.take(i + 1).last() == ops[i]);
}

/// A future that completes on the frame after the one in which it was
/// first polled.
pub struct NextFrameFuture {
    called: bool,
}

impl NextFrameFuture {
    /// A future not polled yet.
    pub fn new() -> (f: Self)
        ensures
            !f.was_polled(),
    {
        NextFrameFuture { called: false }
    }

    /// Whether the future has been polled.
    pub closed spec fn was_polled(&self) -> bool {
        self.called
    }

    /// Polls the future with the waker of the polling task.  The first poll
    /// is pending and registers `waker` with `event`; every later poll is
    /// ready and registers nothing.
    pub fn poll<W>(&mut self, event: &mut FrameChangeEvent<W>, waker: W) -> (ready: bool)
        ensures
            ready == old(self).was_polled(),
            final(self).was_polled(),
            ready ==> final(event)@ == old(event)@,
            !ready ==> final(event)@ == old(event)@.push(waker),
    {
        if self.called {
            true
        } else {
            self.called = true;
            event.register_callback(waker);
            false
        }
    }
}

/// A future that completes on the next frame.
pub fn next_frame() -> (f: NextFrameFuture)
    ensures
        !f.was_polled(),
{
    NextFrameFuture::new()
}

/// Whether a delay of `duration` nanoseconds is over after `elapsed`
/// nanoseconds: only once strictly more time than the delay has passed.
pub fn delay_finished(elapsed: u128, duration: u128) -> (done: bool)
    ensures
        done == (elapsed > duration),
{
    elapsed > duration
}

/// What an animation of `length` nanoseconds still waits for after
/// `elapsed` nanoseconds: `None` once strictly more time than its length has
/// passed, otherwise the time left.
pub fn animation_time_left(length: u128, elapsed: u128) -> (left: Option<u128>)
    ensures
        length < elapsed ==> left is None,
        elapsed <= length ==> left == Some((length - elapsed) as u128),
{
    if length < elapsed {
        None
    } else {
        Some(length - elapsed)
    }
}

} // verus!
