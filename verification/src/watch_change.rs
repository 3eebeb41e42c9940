//! Requests to the watch detector to subscribe to further roots.

use vstd::prelude::*;

verus! {

/// A change to the set of watched roots.
#[derive(Debug)]
pub enum WatchChange {
    /// Watch this path too.
    Add(String),
}

impl View for WatchChange {
    type V = Seq<char>;

    /// The path that the change names.
    open spec fn view(&self) -> Seq<char> {
        match self {
            WatchChange::Add(path) => path@,
        }
    }
}

/// The paths named by a sequence of changes, in order.
pub open spec fn requested_paths(changes: Seq<WatchChange>) -> Seq<Seq<char>> {
    Seq::new(changes.len(), |i: int| changes[i]@)
}

/// The sending side of the connection to the watch detector: it keeps what
/// was sent until the detector collects it.
#[derive(Debug)]
pub struct WatchChangeTx {
    sent: Vec<WatchChange>,
}

impl View for WatchChangeTx {
    type V = Seq<Seq<char>>;

    /// The paths sent and not yet collected, oldest first.
    closed spec fn view(&self) -> Seq<Seq<char>> {
        requested_paths(self.sent@)
    }
}

impl WatchChangeTx {
    /// A connection over which nothing was sent yet.
    pub fn new() -> (tx: WatchChangeTx)
        ensures
            tx@ == Seq::<Seq<char>>::empty(),
    {
        let tx = WatchChangeTx { sent: Vec::new() };
        assert(tx@ =~= Seq::<Seq<char>>::empty());
        tx
    }

    /// Sends one change.
    pub fn send(&mut self, change: WatchChange)
        ensures
            final(self)@ == old(self)@.push(change@),
    {
        self.sent.push(change);
        assert(self@ =~= old(self)@.push(change@));
    }

    /// Number of changes that wait to be collected.
    pub fn len(&self) -> (n: usize)
        ensures
            n == self@.len(),
    {
        self.sent.len()
    }

    /// Hands out everything that was sent, oldest first, and keeps nothing.
    pub fn collect(&mut self) -> (changes: Vec<WatchChange>)
        ensures
            requested_paths(changes@) == old(self)@,
            final(self)@ == Seq::<Seq<char>>::empty(),
    {
        let mut changes: Vec<WatchChange> = Vec::new();
        std::mem::swap(&mut changes, &mut self.sent);
        assert(self@ =~= Seq::<Seq<char>>::empty());
        changes
    }
}

} // verus!
