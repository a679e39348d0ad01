//! The free list of a pool of servers: servers given back are handed out
//! again, first given back, first handed out.
use vstd::prelude::*;

verus! {

/// The servers of a pool that are free for reuse, in the order in which
/// they were given back.
pub struct ServerPool<T> {
    free_list: Vec<T>,
}

impl<T> View for ServerPool<T> {
    type V = Seq<T>;

    closed spec fn view(&self) -> Seq<T> {
        self.free_list@
    }
}

impl<T> ServerPool<T> {
    /// A pool with no free server.
    pub fn new() -> (r: ServerPool<T>)
        ensures
            r@ == Seq::<T>::empty(),
    {
        ServerPool { free_list: Vec::new() }
    }

    /// The free server that was given back first, if there is one; `None`
    /// where a new server must be started.
    pub fn take_free(&mut self) -> (r: Option<T>)
        ensures
            old(self)@.len() == 0 ==> r is None && final(self)@ == old(self)@,
            old(self)@.len() > 0 ==> r == Some(old(self)@[0]) && final(self)@ == old(self)@.skip(1),
    {
        if self.free_list.len() == 0 {
            None
        } else {
            let first = self.free_list.remove(0);
            proof {
                assert(self.free_list@ =~= old(self)@.skip(1));
            }
            Some(first)
        }
    }

    /// Gives a server back for reuse, after the ones given back before.
    pub fn give_back(&mut self, server: T)
        ensures
            final(self)@ == old(self)@.push(server),
    {
        self.free_list.push(server);
    }

    /// The number of free servers.
    pub fn free_count(&self) -> (r: usize)
        ensures
            r == self@.len(),
    {
        self.free_list.len()
    }
}

} // verus!
