use vstd::prelude::*;

verus! {

/// Collects the results of repeated sessions while the user asks for more.
pub struct EntryDriver<T> {
    /// The results so far, in the order they were entered.
    pub entries: Vec<T>,
    /// The user declined another entry; the driver asks nothing more.
    pub done: bool,
}

impl<T> EntryDriver<T> {
    pub fn new() -> (r: EntryDriver<T>)
        ensures
            r.entries@ == Seq::<T>::empty(),
            !r.done,
    {
        EntryDriver { entries: Vec::new(), done: false }
    }

    /// Takes the answer to "add an entry?". A yes calls for one more
    /// session; a no ends the driver, whatever was collected before.
    pub fn answer(&mut self, add: bool) -> (run_session: bool)
        ensures
            run_session == (add && !old(self).done),
            final(self).done == (old(self).done || !add),
            final(self).entries@ == old(self).entries@,
    {
        if !add {
            self.done = true;
        }
        add && !self.done
    }

    /// Records the result of a session, after the entries before it.
    pub fn add(&mut self, entry: T)
        requires
            !old(self).done,
        ensures
            final(self).entries@ == old(self).entries@.push(entry),
            !final(self).done,
    {
        self.entries.push(entry);
    }
}

} // verus!
