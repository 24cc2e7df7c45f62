//! Which connections are open.
use crate::thin_addr::SocketAddr;
use vstd::prelude::*;

verus! {

/// The open connections, each with a handle `H` to what is kept for it.
#[derive(Debug)]
pub struct SocketMap<H> {
    entries: Vec<(SocketAddr, H)>,
}

/// The handles by address.
spec fn map_of<H>(entries: Seq<(SocketAddr, H)>) -> Map<SocketAddr, H>
    decreases entries.len(),
{
    if entries.len() == 0 {
        Map::empty()
    } else {
        map_of(entries.drop_last()).insert(entries.last().0, entries.last().1)
    }
}

/// No address occurs twice.
spec fn distinct<H>(entries: Seq<(SocketAddr, H)>) -> bool {
    forall|i: int, j: int|
        #![trigger entries[i], entries[j]]
        0 <= i < j < entries.len() ==> entries[i].0 != entries[j].0
}

proof fn lemma_map_of<H>(entries: Seq<(SocketAddr, H)>)
    requires
        distinct(entries),
    ensures
        forall|i: int|
            #![trigger entries[i]]
            0 <= i < entries.len() ==> {
                &&& map_of(entries).dom().contains(entries[i].0)
                &&& map_of(entries)[entries[i].0] == entries[i].1
            },
        forall|a: SocketAddr| #[trigger]
            map_of(entries).dom().contains(a) ==> exists|i: int|
                0 <= i < entries.len() && (#[trigger] entries[i]).0 == a,
    decreases entries.len(),
{
    if entries.len() > 0 {
        let init = entries.drop_last();
        assert forall|i: int, j: int|
            #![trigger init[i], init[j]]
            0 <= i < j < init.len() implies init[i].0 != init[j].0 by {
            assert(init[i] == entries[i] && init[j] == entries[j]);
        }
        lemma_map_of(init);
        assert forall|i: int| #![trigger entries[i]] 0 <= i < entries.len() implies {
            &&& map_of(entries).dom().contains(entries[i].0)
            &&& map_of(entries)[entries[i].0] == entries[i].1
        } by {
            if i < init.len() {
                assert(init[i] == entries[i]);
                assert(entries[i].0 != entries[entries.len() - 1].0);
            }
        }
        assert forall|a: SocketAddr| #[trigger]
            map_of(entries).dom().contains(a) implies exists|i: int|
            0 <= i < entries.len() && (#[trigger] entries[i]).0 == a by {
            if a != entries.last().0 {
                assert(map_of(init).dom().contains(a));
                let i = choose|i: int| 0 <= i < init.len() && (#[trigger] init[i]).0 == a;
                assert(entries[i].0 == a);
            } else {
                assert(entries[entries.len() - 1].0 == a);
            }
        }
    }
}

proof fn lemma_map_of_remove<H>(entries: Seq<(SocketAddr, H)>, at: int)
    requires
        distinct(entries),
        0 <= at < entries.len(),
    ensures
        distinct(entries.remove(at)),
        map_of(entries.remove(at)) == map_of(entries).remove(entries[at].0),
{
    let rest = entries.remove(at);
    let addr = entries[at].0;
    assert forall|i: int| 0 <= i < rest.len() implies #[trigger] rest[i] == entries[if i < at {
        i
    } else {
        i + 1
    }] by {}
    assert forall|i: int, j: int|
        #![trigger rest[i], rest[j]]
        0 <= i < j < rest.len() implies rest[i].0 != rest[j].0 by {
        let a = if i < at { i } else { i + 1 };
        let b = if j < at { j } else { j + 1 };
        assert(entries[a].0 != entries[b].0);
    }
    lemma_map_of(entries);
    lemma_map_of(rest);
    let expected = map_of(entries).remove(addr);
    assert forall|a: SocketAddr| map_of(rest).dom().contains(a) <==> #[trigger]
        expected.dom().contains(a) by {
        if map_of(rest).dom().contains(a) {
            let i = choose|i: int| 0 <= i < rest.len() && (#[trigger] rest[i]).0 == a;
            let k = if i < at { i } else { i + 1 };
            assert(entries[k].0 == a);
            assert(entries[at].0 != entries[k].0);
        }
        if expected.dom().contains(a) {
            let k = choose|k: int| 0 <= k < entries.len() && (#[trigger] entries[k]).0 == a;
            let i = if k < at { k } else { k - 1 };
            assert(rest[i] == entries[k]);
        }
    }
    assert forall|a: SocketAddr| #[trigger] map_of(rest).dom().contains(a) implies map_of(rest)[a]
        == expected[a] by {
        let i = choose|i: int| 0 <= i < rest.len() && (#[trigger] rest[i]).0 == a;
        let k = if i < at { i } else { i + 1 };
        assert(entries[k] == rest[i]);
        assert(entries[at].0 != entries[k].0);
    }
    assert(map_of(rest) =~= expected);
}

impl<H> View for SocketMap<H> {
    type V = Map<SocketAddr, H>;

    closed spec fn view(&self) -> Map<SocketAddr, H> {
        map_of(self.entries@)
    }
}

impl<H> SocketMap<H> {
    /// No connection is open twice.
    pub closed spec fn wf(&self) -> bool {
        distinct(self.entries@)
    }

    /// No connection is open.
    pub fn new() -> (r: Self)
        ensures
            r.wf(),
            r@ == Map::<SocketAddr, H>::empty(),
    {
        Self { entries: Vec::new() }
    }

    fn position(&self, socket: &SocketAddr) -> (r: Option<usize>)
        requires
            self.wf(),
        ensures
            match r {
                Some(i) => i < self.entries@.len() && self.entries@[i as int].0 == *socket,
                None => !self@.dom().contains(*socket),
            },
    {
        let mut i: usize = 0;
        while i < self.entries.len()
            invariant
                0 <= i <= self.entries@.len(),
                forall|j: int| 0 <= j < i ==> (#[trigger] self.entries@[j]).0 != *socket,
            decreases self.entries@.len() - i,
        {
            if self.entries[i].0 == *socket {
                return Some(i);
            }
            i = i + 1;
        }
        proof {
            lemma_map_of(self.entries@);
        }
        None
    }

    /// The handle of the connection `socket`, if it is open.
    pub fn get(&self, socket: &SocketAddr) -> (r: Option<&H>)
        requires
            self.wf(),
        ensures
            r == if self@.dom().contains(*socket) {
                Some(&self@[*socket])
            } else {
                None
            },
    {
        proof {
            lemma_map_of(self.entries@);
        }
        match self.position(socket) {
            Some(i) => Some(&self.entries[i].1),
            None => None,
        }
    }

    /// Whether the connection `socket` is open.
    pub fn contains_key(&self, socket: &SocketAddr) -> (r: bool)
        requires
            self.wf(),
        ensures
            r <==> self@.dom().contains(*socket),
    {
        self.get(socket).is_some()
    }

    /// Opens the connection `socket`, which is not open.
    pub fn insert(&mut self, socket: SocketAddr, handle: H)
        requires
            old(self).wf(),
            !old(self)@.dom().contains(socket),
        ensures
            final(self).wf(),
            final(self)@ == old(self)@.insert(socket, handle),
    {
        proof {
            lemma_map_of(self.entries@);
        }
        self.entries.push((socket, handle));
        assert(self.entries@.drop_last() =~= old(self).entries@);
        assert forall|i: int, j: int|
            #![trigger self.entries@[i], self.entries@[j]]
            0 <= i < j < self.entries@.len() implies self.entries@[i].0 != self.entries@[j].0 by {
            assert(self.entries@[i] == old(self).entries@[i]);
            if j < old(self).entries@.len() {
                assert(self.entries@[j] == old(self).entries@[j]);
            }
        }
    }

    /// Closes the connection `socket`, and returns its handle if it was open.
    pub fn remove(&mut self, socket: &SocketAddr) -> (r: Option<H>)
        requires
            old(self).wf(),
        ensures
            final(self).wf(),
            final(self)@ == old(self)@.remove(*socket),
            r == if old(self)@.dom().contains(*socket) {
                Some(old(self)@[*socket])
            } else {
                None
            },
    {
        proof {
            lemma_map_of(self.entries@);
        }
        match self.position(socket) {
            Some(i) => {
                proof {
                    lemma_map_of_remove(self.entries@, i as int);
                }
                Some(self.entries.remove(i).1)
            },
            None => {
                assert(self@.remove(*socket) =~= self@);
                None
            },
        }
    }
}

} // verus!
