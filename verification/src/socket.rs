//! Sockets and the symmetric compatibility relation between them.
//!
//! A socket is an opaque identifier attached to one face of a model. Two
//! model faces may touch only when their sockets were registered as
//! compatible. A socket with no registered pairing is compatible with
//! nothing, not even itself.

use vstd::prelude::*;

verus! {

/// An opaque identifier attached to one face of a model.
#[derive(Clone, Copy, Debug, PartialEq, Eq, Structural, Hash)]
pub struct Socket {
    /// The identifier backing the socket.
    pub id: u32,
}

/// The set of declared socket compatibilities.
#[derive(Clone, Debug)]
pub struct SocketCollection {
    /// Identifier handed to the next created socket.
    pub next_id: u32,
    /// Every registered compatible pair, as it was declared.
    pub pairs: Vec<(u32, u32)>,
}

impl SocketCollection {
    /// Whether sockets `a` and `b` were declared compatible, in either order.
    pub open spec fn spec_compatible(&self, a: u32, b: u32) -> bool {
        exists|k: int|
            0 <= k < self.pairs@.len() && ((#[trigger] self.pairs@[k]).0 == a && self.pairs@[k].1
                == b || self.pairs@[k].0 == b && self.pairs@[k].1 == a)
    }

    /// Creates an empty collection: no sockets, no compatibilities.
    pub fn new() -> (r: Self)
        ensures
            r.next_id == 0,
            r.pairs@.len() == 0,
    {
        Self { next_id: 0, pairs: Vec::new() }
    }

    /// Creates a fresh socket, distinct from every one created before.
    pub fn create(&mut self) -> (r: Socket)
        requires
            old(self).next_id < u32::MAX,
        ensures
            r.id == old(self).next_id,
            final(self).next_id == old(self).next_id + 1,
            final(self).pairs == old(self).pairs,
    {
        let id = self.next_id;
        self.next_id = self.next_id + 1;
        Socket { id }
    }

    /// Declares `socket_a` and `socket_b` compatible, in both orders.
    pub fn register_compatibility(&mut self, socket_a: Socket, socket_b: Socket)
        ensures
            final(self).pairs@ == old(self).pairs@.push((socket_a.id, socket_b.id)),
            final(self).next_id == old(self).next_id,
            forall|x: u32, y: u32|
                #[trigger] final(self).spec_compatible(x, y) <==> (old(self).spec_compatible(x, y)
                    || (x == socket_a.id && y == socket_b.id) || (x == socket_b.id && y
                    == socket_a.id)),
    {
        self.pairs.push((socket_a.id, socket_b.id));
        proof {
            assert forall|x: u32, y: u32| #[trigger]
                self.spec_compatible(x, y) <==> (old(self).spec_compatible(x, y) || (x
                    == socket_a.id && y == socket_b.id) || (x == socket_b.id && y
                    == socket_a.id)) by {
                let n = old(self).pairs@.len() as int;
                if old(self).spec_compatible(x, y) {
                    let k = choose|k: int|
                        0 <= k < old(self).pairs@.len() && ((#[trigger] old(self).pairs@[k]).0 == x
                            && old(self).pairs@[k].1 == y || old(self).pairs@[k].0 == y && old(
                            self,
                        ).pairs@[k].1 == x);
                    assert(self.pairs@[k] == old(self).pairs@[k]);
                }
                if (x == socket_a.id && y == socket_b.id) || (x == socket_b.id && y
                    == socket_a.id) {
                    assert(self.pairs@[n] == (socket_a.id, socket_b.id));
                }
                if self.spec_compatible(x, y) {
                    let k = choose|k: int|
                        0 <= k < self.pairs@.len() && ((#[trigger] self.pairs@[k]).0 == x
                            && self.pairs@[k].1 == y || self.pairs@[k].0 == y && self.pairs@[k].1
                            == x);
                    if k < n {
                        assert(old(self).pairs@[k] == self.pairs@[k]);
                    }
                }
            }
        }
    }

    /// Returns whether `socket_a` and `socket_b` were declared compatible.
    pub fn is_compatible(&self, socket_a: Socket, socket_b: Socket) -> (r: bool)
        ensures
            r == self.spec_compatible(socket_a.id, socket_b.id),
    {
        let n = self.pairs.len();
        let mut k: usize = 0;
        while k < n
            invariant
                k <= n,
                n == self.pairs@.len(),
                forall|j: int|
                    0 <= j < k ==> !((#[trigger] self.pairs@[j]).0 == socket_a.id
                        && self.pairs@[j].1 == socket_b.id || self.pairs@[j].0 == socket_b.id
                        && self.pairs@[j].1 == socket_a.id),
            decreases n - k,
        {
            let pair = self.pairs[k];
            if (pair.0 == socket_a.id && pair.1 == socket_b.id) || (pair.0 == socket_b.id && pair.1
                == socket_a.id) {
                return true;
            }
            k += 1;
        }
        false
    }

    /// The compatibility relation is symmetric: it never depends on the order
    /// in which the two sockets are asked about.
    pub proof fn lemma_compatibility_symmetric(&self, a: u32, b: u32)
        ensures
            self.spec_compatible(a, b) == self.spec_compatible(b, a),
    {
    }
}

} // verus!
