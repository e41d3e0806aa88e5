//! A spawned task and the handle through which its output is awaited.

use vstd::prelude::*;

verus! {

/// A spawned task: its future and the waker of whoever awaits its end.
pub struct Task<F, W> {
    pub future: F,
    pub callback_waker: Option<W>,
}

impl<F, W> Task<F, W> {
    /// A task nobody awaits yet.
    pub fn new(future: F) -> (t: Self)
        ensures
            t.future == future,
            t.callback_waker is None,
    {
        Task { future, callback_waker: None }
    }

    /// `waker` is to be woken when the task ends; it replaces any waker
    /// registered before.
    pub fn register_callback(&mut self, waker: W)
        ensures
            final(self).callback_waker == Some(waker),
            final(self).future == old(self).future,
    {
        self.callback_waker = Some(waker);
    }
}

/// The slot in which a task's output arrives, as seen by its awaiter.
pub struct JoinHandle<T> {
    value: Option<T>,
}

impl<T> View for JoinHandle<T> {
    type V = Option<T>;

    closed spec fn view(&self) -> Option<T> {
        self.value
    }
}

impl<T> JoinHandle<T> {
    /// No output yet.
    pub fn new() -> (h: Self)
        ensures
            h@ is None,
    {
        JoinHandle { value: None }
    }

    /// The task ended with `value`.
    pub fn complete(&mut self, value: T)
        ensures
            final(self)@ == Some(value),
    {
        self.value = Some(value);
    }

    /// Polls the handle on behalf of the task whose waker is `waker`.  If
    /// the output has arrived, it is handed out (once); otherwise `waker` is
    /// registered with `task`, to be woken when it ends.
    pub fn poll<F, W>(&mut self, task: &mut Task<F, W>, waker: W) -> (out: Option<T>)
        ensures
            out == old(self)@,
            final(self)@ is None,
            out is Some ==> *final(task) == *old(task),
            out is None ==> final(task).callback_waker == Some(waker)
                && final(task).future == old(task).future,
    {
        match self.value.take() {
            Some(v) => Some(v),
            None => {
                task.register_callback(waker);
                None
            },
        }
    }
}

} // verus!
