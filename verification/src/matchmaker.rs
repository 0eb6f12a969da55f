//! Pairing of waiting connections: whoever came first plays first, and
//! the two oldest leave the queue together.

use vstd::prelude::*;

verus! {

/// Takes the two oldest connections out of `conns` if there are two, the
/// older first. With fewer than two, the queue stays as it is.
pub fn assign_match<T>(conns: &mut Vec<T>) -> (pair: Option<(T, T)>)
    ensures
        old(conns)@.len() < 2 ==> pair.is_none() && final(conns)@ == old(conns)@,
        old(conns)@.len() >= 2 ==> pair == Some((old(conns)@[0], old(conns)@[1])) && final(conns)@
            == old(conns)@.skip(2),
{
    if conns.len() >= 2 {
        let first = conns.remove(0);
        let second = conns.remove(0);
        assert(conns@ =~= old(conns)@.skip(2));
        Some((first, second))
    } else {
        None
    }
}

/// The connections that wait for an opponent, oldest first.
pub struct ConnectionQueue<T> {
    waiting: Vec<T>,
}

impl<T> View for ConnectionQueue<T> {
    type V = Seq<T>;

    closed spec fn view(&self) -> Seq<T> {
        self.waiting@
    }
}

impl<T> ConnectionQueue<T> {
    /// A queue in which nobody waits.
    pub fn new() -> (q: ConnectionQueue<T>)
        ensures
            q@ == Seq::<T>::empty(),
    {
        ConnectionQueue { waiting: Vec::new() }
    }

    /// How many connections wait.
    pub fn len(&self) -> (n: usize)
        ensures
            n == self@.len(),
    {
        self.waiting.len()
    }

    /// Puts a new connection at the end of the queue and, if two now wait,
    /// takes the two oldest out as a pair, the older first.
    pub fn accept(&mut self, conn: T) -> (pair: Option<(T, T)>)
        ensures
            old(self)@.len() == 0 ==> pair.is_none() && final(self)@ == seq![conn],
            old(self)@.len() >= 1 ==> pair == Some((old(self)@.push(conn)[0], old(self)@.push(conn)[1]))
                && final(self)@ == old(self)@.push(conn).skip(2),
    {
        self.waiting.push(conn);
        assert(old(self)@.len() == 0 ==> self.waiting@ =~= seq![conn]);
        assign_match(&mut self.waiting)
    }
}

/// A queue in which at most one connection waits pairs every second
/// arrival with the one before it: after an arrival either the newcomer
/// waits alone, or the one who waited and the newcomer leave as a pair,
/// in this order, and nobody waits.
pub proof fn lemma_pairs_in_arrival_order<T>(before: Seq<T>, conn: T)
    requires
        before.len() <= 1,
    ensures
        before.len() == 1 ==> before.push(conn)[0] == before[0] && before.push(conn)[1] == conn
            && before.push(conn).skip(2) == Seq::<T>::empty(),
        before.len() == 0 ==> before.push(conn) == seq![conn],
{
    if before.len() == 1 {
        assert(before.push(conn).skip(2) =~= Seq::<T>::empty());
    } else {
        assert(before.push(conn) =~= seq![conn]);
    }
}

} // verus!
